pub mod text;
pub mod ime;
pub mod char_alias;
pub mod hook;
pub mod http;
pub mod controller;
pub mod tray;
pub mod notify;
pub mod watcher;

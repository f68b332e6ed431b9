# idea_ime

IdeaIME switches the Windows input method while you type in IntelliJ IDEA:
`//` switches to Chinese, Enter back to English, `/**` plus Enter
to Chinese, and an HTTP endpoint (`/switch?mode=1` or `mode=0`) switches on
request. Character aliases map a key to a chosen text.

Layout:

- `src/` — the verified library: the keyboard sequence recogniser and alias
  typing (`hook`), the alias rules and the alias window's editing state
  (`char_alias`), the application's decisions (`controller`), the HTTP
  protocol (`http`), IME mode rules (`ime`), tray and notification contents
  (`tray`, `notify`), the IDEA process check (`watcher`), and UTF-16, decimal
  and whitespace handling (`text`).
- `tests/` — tests of the library on concrete values.
- `app/` — the Windows program around the library: the hook thread, the
  hidden and alias windows, the tray icon, pop-ups, the registry, the TCP
  listener and logging.

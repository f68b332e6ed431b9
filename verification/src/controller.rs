//! The application's decisions: which keyboard events switch the input mode
//! and to what, the Enter listener that `//` arms, answers to HTTP switch
//! requests, and the tray menu's commands.
//!
//! Each function takes the state and what the last outside step found, and
//! returns what to do next; the caller performs the Windows calls in between.
//! Times are monotonic timestamps in nanoseconds.
use vstd::prelude::*;

use crate::hook::HookEvent;
use crate::http::SwitchResponse;
use crate::ime::{ImeMode, InputMethod};

verus! {

/// How long the Enter listener stays on after `//` has brought Chinese.
pub const ENTER_LISTEN_WINDOW_NANOS: u64 = 30_000_000_000;

/// What the application remembers between events.
#[derive(Clone, Copy, Debug, PartialEq, Eq, Structural)]
pub struct AppState {
    pub paused: bool,
    pub autostart_enabled: bool,
    pub current_mode: ImeMode,
    pub input_method: InputMethod,
    /// Until when the Enter listener armed by `//` is on.
    pub enter_listener_until: Option<u64>,
}

impl AppState {
    /// The state at start-up: listening, English, no Enter listener.
    pub fn new(autostart_enabled: bool, input_method: InputMethod) -> (r: Self)
        ensures
            r == (AppState {
                paused: false,
                autostart_enabled,
                current_mode: ImeMode::English,
                input_method,
                enter_listener_until: None,
            }),
    {
        AppState {
            paused: false,
            autostart_enabled,
            current_mode: ImeMode::English,
            input_method,
            enter_listener_until: None,
        }
    }
}

// ───────────────────────── the Enter listener ─────────────────────────

/// Whether the Enter listener is on at `now`; an expired listener is dropped.
pub open spec fn spec_enter_listener_active(s: AppState, now: u64) -> (AppState, bool) {
    match s.enter_listener_until {
        Some(until) => if now <= until {
            (s, true)
        } else {
            (AppState { enter_listener_until: None, ..s }, false)
        },
        None => (s, false),
    }
}

/// Whether the Enter listener is on at `now`. An expired listener is dropped.
pub fn is_enter_listener_active(state: &mut AppState, now: u64) -> (r: bool)
    ensures
        (*final(state), r) == spec_enter_listener_active(*old(state), now),
{
    match state.enter_listener_until {
        Some(until) => {
            if now <= until {
                true
            } else {
                state.enter_listener_until = None;
                false
            }
        },
        None => false,
    }
}

/// Acts on Enter for the next 30 seconds.
pub fn arm_enter_listener(state: &mut AppState, now: u64)
    requires
        now <= u64::MAX - ENTER_LISTEN_WINDOW_NANOS,
    ensures
        *final(state) == (AppState {
            enter_listener_until: Some((now + ENTER_LISTEN_WINDOW_NANOS) as u64),
            ..*old(state)
        }),
{
    state.enter_listener_until = Some(now + ENTER_LISTEN_WINDOW_NANOS);
}

/// Stops acting on Enter.
pub fn clear_enter_listener(state: &mut AppState)
    ensures
        *final(state) == (AppState { enter_listener_until: None, ..*old(state) }),
{
    state.enter_listener_until = None;
}

/// The listener is on for 30 seconds after it is armed, and off after that.
pub proof fn lemma_enter_listener_window(s: AppState, armed_at: u64, now: u64)
    requires
        armed_at <= u64::MAX - ENTER_LISTEN_WINDOW_NANOS,
    ensures
        ({
            let armed = AppState {
                enter_listener_until: Some((armed_at + ENTER_LISTEN_WINDOW_NANOS) as u64),
                ..s
            };
            spec_enter_listener_active(armed, now).1 == (now <= armed_at
                + ENTER_LISTEN_WINDOW_NANOS)
        }),
{
}

/// Once the listener has been found off, it is gone and stays off until it is
/// armed again.
pub proof fn lemma_expired_listener_stays_off(s: AppState, t1: u64, t2: u64)
    requires
        !spec_enter_listener_active(s, t1).1,
    ensures
        spec_enter_listener_active(s, t1).0.enter_listener_until is None,
        !spec_enter_listener_active(spec_enter_listener_active(s, t1).0, t2).1,
{
}

// ───────────────────────── keyboard events ─────────────────────────

/// Whether a keyboard event is considered at all: nothing is while paused,
/// everything otherwise. An Enter also drops an Enter listener that has
/// expired by `now`.
pub open spec fn spec_hook_event_admitted(s: AppState, event: HookEvent, now: u64) -> (
    AppState,
    bool,
) {
    if s.paused {
        (s, false)
    } else if event == HookEvent::EnterPressed {
        (spec_enter_listener_active(s, now).0, true)
    } else {
        (s, true)
    }
}

/// Whether a keyboard event is considered at all.
pub fn hook_event_admitted(state: &mut AppState, event: HookEvent, now: u64) -> (r: bool)
    ensures
        (*final(state), r) == spec_hook_event_admitted(*old(state), event, now),
{
    if state.paused {
        return false;
    }
    if event == HookEvent::EnterPressed {
        let _ = is_enter_listener_active(state, now);
    }
    true
}

/// The mode an event asks for in the IDE: `//` and a doc comment ask for
/// Chinese, Enter for English; both Enter events end the Enter listener.
pub open spec fn spec_desired_mode_for_event(s: AppState, event: HookEvent) -> (AppState, ImeMode) {
    match event {
        HookEvent::SlashSequence => (s, ImeMode::Chinese),
        HookEvent::DocCommentEnter => (
            AppState { enter_listener_until: None, ..s },
            ImeMode::Chinese,
        ),
        HookEvent::EnterPressed => (AppState { enter_listener_until: None, ..s }, ImeMode::English),
    }
}

/// The mode an event in the IDE asks for.
pub fn desired_mode_for_event(state: &mut AppState, event: HookEvent) -> (r: ImeMode)
    ensures
        (*final(state), r) == spec_desired_mode_for_event(*old(state), event),
{
    match event {
        HookEvent::SlashSequence => ImeMode::Chinese,
        HookEvent::DocCommentEnter => {
            clear_enter_listener(state);
            ImeMode::Chinese
        },
        HookEvent::EnterPressed => {
            clear_enter_listener(state);
            ImeMode::English
        },
    }
}

/// What to do once the current mode has been read.
#[derive(Clone, Copy, Debug, PartialEq, Eq, Structural)]
pub enum ModeReadDecision {
    /// The mode is already right: show this mode and pause state in the tray
    /// and stop.
    AlreadyInMode { icon_mode: ImeMode, paused: bool },
    /// Switch the IME.
    Switch,
}

pub open spec fn arm_if_slash(s: AppState, event: HookEvent, now: u64) -> AppState {
    if event == HookEvent::SlashSequence {
        AppState {
            enter_listener_until: Some((now + ENTER_LISTEN_WINDOW_NANOS) as u64),
            ..s
        }
    } else {
        s
    }
}

pub open spec fn spec_keyboard_mode_read(
    s: AppState,
    event: HookEvent,
    current: ImeMode,
    desired: ImeMode,
    now: u64,
) -> (AppState, ModeReadDecision) {
    let s1 = AppState { current_mode: current, ..s };
    if current == desired {
        (
            arm_if_slash(s1, event, now),
            ModeReadDecision::AlreadyInMode { icon_mode: current, paused: s.paused },
        )
    } else {
        (s1, ModeReadDecision::Switch)
    }
}

/// Records the mode read before a keyboard switch. When it already is the
/// desired one, `//` still arms the Enter listener.
pub fn keyboard_mode_read(
    state: &mut AppState,
    event: HookEvent,
    current: ImeMode,
    desired: ImeMode,
    now: u64,
) -> (r: ModeReadDecision)
    requires
        now <= u64::MAX - ENTER_LISTEN_WINDOW_NANOS,
    ensures
        (*final(state), r) == spec_keyboard_mode_read(*old(state), event, current, desired, now),
{
    state.current_mode = current;
    if current == desired {
        if event == HookEvent::SlashSequence {
            arm_enter_listener(state, now);
        }
        return ModeReadDecision::AlreadyInMode { icon_mode: current, paused: state.paused };
    }
    ModeReadDecision::Switch
}

pub open spec fn spec_keyboard_switch_confirmed(
    s: AppState,
    event: HookEvent,
    desired: ImeMode,
    confirmed: ImeMode,
    now: u64,
) -> (AppState, bool) {
    let s1 = AppState { current_mode: confirmed, ..s };
    if confirmed == desired {
        (arm_if_slash(s1, event, now), true)
    } else {
        (s1, false)
    }
}

/// Records the mode read after a keyboard switch that the IME reported as
/// done. Returns whether it took effect, in which case the switch is announced
/// and `//` arms the Enter listener. The tray then shows `confirmed`, not
/// paused.
pub fn keyboard_switch_confirmed(
    state: &mut AppState,
    event: HookEvent,
    desired: ImeMode,
    confirmed: ImeMode,
    now: u64,
) -> (r: bool)
    requires
        now <= u64::MAX - ENTER_LISTEN_WINDOW_NANOS,
    ensures
        (*final(state), r) == spec_keyboard_switch_confirmed(
            *old(state),
            event,
            desired,
            confirmed,
            now,
        ),
{
    state.current_mode = confirmed;
    if confirmed == desired {
        if event == HookEvent::SlashSequence {
            arm_enter_listener(state, now);
        }
        return true;
    }
    false
}

/// While paused, no keyboard event is considered and nothing changes.
pub proof fn lemma_paused_ignores_keyboard(s: AppState, event: HookEvent, now: u64)
    requires
        s.paused,
    ensures
        spec_hook_event_admitted(s, event, now) == (s, false),
{
}

/// `//` and a doc comment always end in Chinese being asked for, Enter in
/// English.
pub proof fn lemma_event_modes(s: AppState)
    ensures
        spec_desired_mode_for_event(s, HookEvent::SlashSequence).1 == ImeMode::Chinese,
        spec_desired_mode_for_event(s, HookEvent::DocCommentEnter).1 == ImeMode::Chinese,
        spec_desired_mode_for_event(s, HookEvent::EnterPressed).1 == ImeMode::English,
{
}

/// Whenever the application is not paused, an Enter is acted on and asks for
/// English, with or without a `//` before it.
pub proof fn lemma_enter_switches_to_english(s: AppState, now: u64)
    requires
        !s.paused,
    ensures
        spec_hook_event_admitted(s, HookEvent::EnterPressed, now).1,
        spec_desired_mode_for_event(
            spec_hook_event_admitted(s, HookEvent::EnterPressed, now).0,
            HookEvent::EnterPressed,
        ).1 == ImeMode::English,
{
}

/// Every keyboard event is considered exactly when the application is not
/// paused. Considering one changes at most the Enter listener, and only an
/// Enter can change it.
pub proof fn lemma_hook_event_admitted_iff_listening(s: AppState, event: HookEvent, now: u64)
    ensures
        spec_hook_event_admitted(s, event, now).1 == !s.paused,
        (AppState {
            enter_listener_until: s.enter_listener_until,
            ..spec_hook_event_admitted(s, event, now).0
        }) == s,
        event != HookEvent::EnterPressed ==> spec_hook_event_admitted(s, event, now).0 == s,
{
}

/// The Enter listener is on exactly while `now` has not passed the time it
/// was armed until. A listener that is on is left as it is; one that is off
/// is gone afterwards, and nothing else changes.
pub proof fn lemma_enter_listener_active_exact(s: AppState, now: u64)
    ensures
        spec_enter_listener_active(s, now).1 == (s.enter_listener_until matches Some(until)
            && now <= until),
        spec_enter_listener_active(s, now).1 ==> spec_enter_listener_active(s, now).0 == s,
        !spec_enter_listener_active(s, now).1 ==> spec_enter_listener_active(s, now).0 == (
        AppState { enter_listener_until: None, ..s }),
{
}

/// `//` changes nothing in the state; the two Enter events end the Enter
/// listener and change nothing else.
pub proof fn lemma_desired_mode_state(s: AppState, event: HookEvent)
    ensures
        event == HookEvent::SlashSequence ==> spec_desired_mode_for_event(s, event).0 == s,
        event != HookEvent::SlashSequence ==> spec_desired_mode_for_event(s, event).0 == (
        AppState { enter_listener_until: None, ..s }),
{
}

/// Before a keyboard switch, the IME is switched exactly when the mode read
/// differs from the one the event asks for; otherwise the tray is shown that
/// mode with the current pause state. The mode read is remembered either way,
/// and only a `//` that found the mode already right arms the Enter listener,
/// for 30 seconds from `now`.
pub proof fn lemma_keyboard_mode_read_switches_iff_different(
    s: AppState,
    event: HookEvent,
    current: ImeMode,
    desired: ImeMode,
    now: u64,
)
    ensures
        ({
            let (s2, d) = spec_keyboard_mode_read(s, event, current, desired, now);
            &&& (d == ModeReadDecision::Switch) == (current != desired)
            &&& current == desired ==> d == (ModeReadDecision::AlreadyInMode {
                icon_mode: desired,
                paused: s.paused,
            })
            &&& s2.current_mode == current
            &&& s2.paused == s.paused
            &&& s2.autostart_enabled == s.autostart_enabled
            &&& s2.input_method == s.input_method
            &&& (event == HookEvent::SlashSequence && current == desired) ==> s2.enter_listener_until
                == Some((now + ENTER_LISTEN_WINDOW_NANOS) as u64)
            &&& !(event == HookEvent::SlashSequence && current == desired)
                ==> s2.enter_listener_until == s.enter_listener_until
        }),
{
}

/// After a keyboard switch, it took effect exactly when the mode read back is
/// the one asked for. The mode read back is remembered either way, and only a
/// `//` whose switch took effect arms the Enter listener, for 30 seconds from
/// `now`.
pub proof fn lemma_keyboard_switch_confirmed_iff_reached(
    s: AppState,
    event: HookEvent,
    desired: ImeMode,
    confirmed: ImeMode,
    now: u64,
)
    ensures
        ({
            let (s2, took) = spec_keyboard_switch_confirmed(s, event, desired, confirmed, now);
            &&& took == (confirmed == desired)
            &&& s2.current_mode == confirmed
            &&& s2.paused == s.paused
            &&& s2.autostart_enabled == s.autostart_enabled
            &&& s2.input_method == s.input_method
            &&& (event == HookEvent::SlashSequence && took) ==> s2.enter_listener_until == Some(
                (now + ENTER_LISTEN_WINDOW_NANOS) as u64,
            )
            &&& !(event == HookEvent::SlashSequence && took) ==> s2.enter_listener_until
                == s.enter_listener_until
        }),
{
}

// ───────────────────────── HTTP switch requests ─────────────────────────

pub open spec fn already_message(mode: ImeMode) -> Seq<char> {
    match mode {
        ImeMode::Chinese => "当前已经是中文输入"@,
        ImeMode::English => "当前已经是英文输入"@,
        ImeMode::Unknown => "当前输入法状态未知"@,
    }
}

pub open spec fn switched_message(mode: ImeMode) -> Seq<char> {
    match mode {
        ImeMode::Chinese => "已切换到中文输入"@,
        ImeMode::English => "已切换到英文输入"@,
        ImeMode::Unknown => "输入法状态未知"@,
    }
}

/// The answers to an HTTP switch name the mode in words: 当前已经是中文输入
/// and 当前已经是英文输入 when nothing had to change, 已切换到中文输入 and
/// 已切换到英文输入 after a switch.
pub proof fn lemma_http_messages()
    ensures
        already_message(ImeMode::Chinese) == "当前已经是中文输入"@,
        already_message(ImeMode::English) == "当前已经是英文输入"@,
        already_message(ImeMode::Unknown) == "当前输入法状态未知"@,
        switched_message(ImeMode::Chinese) == "已切换到中文输入"@,
        switched_message(ImeMode::English) == "已切换到英文输入"@,
        switched_message(ImeMode::Unknown) == "输入法状态未知"@,
{
}

/// The answer when there is no foreground window to switch.
pub fn no_foreground_response() -> (r: SwitchResponse)
    ensures
        !r.success && !r.changed && r.mode is None && r.message@ == "未找到可切换的前台窗口"@,
{
    SwitchResponse::error(String::from_str("未找到可切换的前台窗口"))
}

/// Records the mode read before an HTTP switch. When it already is the
/// requested one, returns the answer (success, nothing changed).
pub fn http_mode_read(state: &mut AppState, desired: ImeMode, current: ImeMode) -> (r: Option<
    SwitchResponse,
>)
    ensures
        *final(state) == (AppState { current_mode: current, ..*old(state) }),
        (current == desired) == r is Some,
        r matches Some(resp) ==> resp.success && !resp.changed && resp.mode == Some(desired)
            && resp.message@ == already_message(desired),
{
    state.current_mode = current;
    if current == desired {
        let message = match desired {
            ImeMode::Chinese => "当前已经是中文输入",
            ImeMode::English => "当前已经是英文输入",
            ImeMode::Unknown => "当前输入法状态未知",
        };
        return Some(SwitchResponse::success(desired, false, String::from_str(message)));
    }
    None
}

/// Records the mode read after an HTTP switch and answers: success with a
/// change when it is the requested mode, an error otherwise.
pub fn http_switch_result(state: &mut AppState, desired: ImeMode, confirmed: ImeMode) -> (r:
    SwitchResponse)
    ensures
        *final(state) == (AppState { current_mode: confirmed, ..*old(state) }),
        r.success == (confirmed == desired),
        confirmed == desired ==> r.changed && r.mode == Some(desired) && r.message@
            == switched_message(desired),
        confirmed != desired ==> !r.changed && r.mode is None && r.message@ == "输入法切换未生效"@,
{
    state.current_mode = confirmed;
    if confirmed == desired {
        let message = match desired {
            ImeMode::Chinese => "已切换到中文输入",
            ImeMode::English => "已切换到英文输入",
            ImeMode::Unknown => "输入法状态未知",
        };
        SwitchResponse::success(desired, true, String::from_str(message))
    } else {
        SwitchResponse::error(String::from_str("输入法切换未生效"))
    }
}

/// The answer when reading or setting the IME failed.
pub fn http_failure_response(error_text: &str) -> (r: SwitchResponse)
    ensures
        !r.success && !r.changed && r.mode is None && r.message@ == "输入法切换失败: "@
            + error_text@,
{
    let mut message = String::from_str("输入法切换失败: ");
    message.append(error_text);
    SwitchResponse::error(message)
}

// ───────────────────────── the tray menu ─────────────────────────

pub const ID_STATUS: usize = 1001;
pub const ID_TOGGLE_PAUSE: usize = 1002;
pub const ID_TOGGLE_AUTOSTART: usize = 1003;
pub const ID_QUIT: usize = 1004;
pub const ID_SELECT_SOGOU: usize = 1005;
pub const ID_SELECT_MICROSOFT: usize = 1006;

/// A tray menu command.
#[derive(Clone, Copy, Debug, PartialEq, Eq, Structural)]
pub enum MenuCommand {
    ShowStatus,
    TogglePause,
    ToggleAutostart,
    SelectInputMethod(InputMethod),
    Quit,
    Nothing,
}

/// The command behind a menu item id.
pub fn menu_command(command_id: usize) -> (r: MenuCommand)
    ensures
        r == (if command_id == ID_STATUS {
            MenuCommand::ShowStatus
        } else if command_id == ID_TOGGLE_PAUSE {
            MenuCommand::TogglePause
        } else if command_id == ID_TOGGLE_AUTOSTART {
            MenuCommand::ToggleAutostart
        } else if command_id == ID_SELECT_SOGOU {
            MenuCommand::SelectInputMethod(InputMethod::Sogou)
        } else if command_id == ID_SELECT_MICROSOFT {
            MenuCommand::SelectInputMethod(InputMethod::Microsoft)
        } else if command_id == ID_QUIT {
            MenuCommand::Quit
        } else {
            MenuCommand::Nothing
        }),
{
    if command_id == ID_STATUS {
        MenuCommand::ShowStatus
    } else if command_id == ID_TOGGLE_PAUSE {
        MenuCommand::TogglePause
    } else if command_id == ID_TOGGLE_AUTOSTART {
        MenuCommand::ToggleAutostart
    } else if command_id == ID_SELECT_SOGOU {
        MenuCommand::SelectInputMethod(InputMethod::Sogou)
    } else if command_id == ID_SELECT_MICROSOFT {
        MenuCommand::SelectInputMethod(InputMethod::Microsoft)
    } else if command_id == ID_QUIT {
        MenuCommand::Quit
    } else {
        MenuCommand::Nothing
    }
}

/// Pauses or resumes listening; returns the new pause state and the mode to
/// show.
pub fn toggle_pause(state: &mut AppState) -> (r: (bool, ImeMode))
    ensures
        *final(state) == (AppState { paused: !old(state).paused, ..*old(state) }),
        r == (!old(state).paused, old(state).current_mode),
{
    state.paused = !state.paused;
    (state.paused, state.current_mode)
}

/// Pausing twice gives back the state it started from.
pub proof fn lemma_toggle_pause_involutive(s: AppState)
    ensures
        (AppState { paused: !(AppState { paused: !s.paused, ..s }).paused, ..s }) == s,
{
}

/// The autostart setting to write when the menu item is chosen.
pub fn autostart_toggle_target(state: &AppState) -> (r: bool)
    ensures
        r == !state.autostart_enabled,
{
    !state.autostart_enabled
}

/// Whether choosing `input_method` changes anything (and so is to be saved).
pub fn input_method_change(state: &AppState, input_method: InputMethod) -> (r: bool)
    ensures
        r == (state.input_method != input_method),
{
    state.input_method != input_method
}

/// Applies a saved choice of input method: the mode of the new method is not
/// known yet.
pub fn apply_input_method(state: &mut AppState, input_method: InputMethod)
    ensures
        old(state).input_method != input_method ==> *final(state) == (AppState {
            input_method,
            current_mode: ImeMode::Unknown,
            ..*old(state)
        }),
        old(state).input_method == input_method ==> *final(state) == *old(state),
{
    if state.input_method != input_method {
        state.input_method = input_method;
        state.current_mode = ImeMode::Unknown;
    }
}

} // verus!

use idea_ime::controller::{
    apply_input_method, arm_enter_listener, autostart_toggle_target, clear_enter_listener,
    desired_mode_for_event, hook_event_admitted, http_failure_response, http_mode_read,
    http_switch_result, input_method_change, is_enter_listener_active, keyboard_mode_read,
    keyboard_switch_confirmed, menu_command, no_foreground_response, toggle_pause, AppState,
    MenuCommand, ModeReadDecision, ENTER_LISTEN_WINDOW_NANOS,
};
use idea_ime::hook::HookEvent;
use idea_ime::ime::{ImeMode, InputMethod};

const SEC: u64 = 1_000_000_000;

fn state() -> AppState {
    AppState::new(false, InputMethod::Sogou)
}

#[test]
fn initial_state() {
    let s = state();
    assert!(!s.paused);
    assert_eq!(s.current_mode, ImeMode::English);
    assert_eq!(s.enter_listener_until, None);
}

#[test]
fn enter_listener_window() {
    let mut s = state();
    assert!(!is_enter_listener_active(&mut s, 0));
    arm_enter_listener(&mut s, 10 * SEC);
    assert_eq!(s.enter_listener_until, Some(10 * SEC + ENTER_LISTEN_WINDOW_NANOS));
    assert!(is_enter_listener_active(&mut s, 40 * SEC));
    assert!(s.enter_listener_until.is_some());
    assert!(!is_enter_listener_active(&mut s, 40 * SEC + 1));
    assert_eq!(s.enter_listener_until, None);
    assert!(!is_enter_listener_active(&mut s, 11 * SEC));
    arm_enter_listener(&mut s, 0);
    clear_enter_listener(&mut s);
    assert!(!is_enter_listener_active(&mut s, 0));
}

#[test]
fn paused_ignores_everything() {
    let mut s = AppState { paused: true, ..state() };
    arm_enter_listener(&mut s, 0);
    let before = s;
    for event in [HookEvent::SlashSequence, HookEvent::DocCommentEnter, HookEvent::EnterPressed] {
        assert!(!hook_event_admitted(&mut s, event, 1));
    }
    assert_eq!(s, before);
}

#[test]
fn enter_admitted_whenever_listening() {
    let mut s = state();
    assert!(hook_event_admitted(&mut s, HookEvent::EnterPressed, 0));
    assert_eq!(s, state());
    assert!(hook_event_admitted(&mut s, HookEvent::SlashSequence, 0));
    assert!(hook_event_admitted(&mut s, HookEvent::DocCommentEnter, 0));
    arm_enter_listener(&mut s, 0);
    assert!(hook_event_admitted(&mut s, HookEvent::EnterPressed, 5 * SEC));
    assert_eq!(s.enter_listener_until, Some(ENTER_LISTEN_WINDOW_NANOS));
    assert!(hook_event_admitted(&mut s, HookEvent::EnterPressed, 40 * SEC));
    assert_eq!(s.enter_listener_until, None);
    assert_eq!(desired_mode_for_event(&mut s, HookEvent::EnterPressed), ImeMode::English);
}

#[test]
fn desired_modes() {
    let mut s = state();
    arm_enter_listener(&mut s, 0);
    assert_eq!(desired_mode_for_event(&mut s, HookEvent::SlashSequence), ImeMode::Chinese);
    assert!(s.enter_listener_until.is_some());
    assert_eq!(desired_mode_for_event(&mut s, HookEvent::DocCommentEnter), ImeMode::Chinese);
    assert_eq!(s.enter_listener_until, None);
    arm_enter_listener(&mut s, 0);
    assert_eq!(desired_mode_for_event(&mut s, HookEvent::EnterPressed), ImeMode::English);
    assert_eq!(s.enter_listener_until, None);
}

#[test]
fn slash_when_already_chinese_arms_listener() {
    let mut s = state();
    let d = keyboard_mode_read(&mut s, HookEvent::SlashSequence, ImeMode::Chinese, ImeMode::Chinese, 3 * SEC);
    assert_eq!(d, ModeReadDecision::AlreadyInMode { icon_mode: ImeMode::Chinese, paused: false });
    assert_eq!(s.current_mode, ImeMode::Chinese);
    assert_eq!(s.enter_listener_until, Some(3 * SEC + ENTER_LISTEN_WINDOW_NANOS));
}

#[test]
fn mode_read_needs_switch() {
    let mut s = state();
    let d = keyboard_mode_read(&mut s, HookEvent::SlashSequence, ImeMode::English, ImeMode::Chinese, 0);
    assert_eq!(d, ModeReadDecision::Switch);
    assert_eq!(s.enter_listener_until, None);
    let d = keyboard_mode_read(&mut s, HookEvent::EnterPressed, ImeMode::English, ImeMode::English, 0);
    assert_eq!(d, ModeReadDecision::AlreadyInMode { icon_mode: ImeMode::English, paused: false });
    assert_eq!(s.enter_listener_until, None);
}

#[test]
fn switch_confirmation() {
    let mut s = state();
    assert!(keyboard_switch_confirmed(&mut s, HookEvent::SlashSequence, ImeMode::Chinese, ImeMode::Chinese, SEC));
    assert_eq!(s.current_mode, ImeMode::Chinese);
    assert_eq!(s.enter_listener_until, Some(SEC + ENTER_LISTEN_WINDOW_NANOS));
    let mut s = state();
    assert!(!keyboard_switch_confirmed(&mut s, HookEvent::SlashSequence, ImeMode::Chinese, ImeMode::Unknown, SEC));
    assert_eq!(s.current_mode, ImeMode::Unknown);
    assert_eq!(s.enter_listener_until, None);
    let mut s = state();
    assert!(keyboard_switch_confirmed(&mut s, HookEvent::DocCommentEnter, ImeMode::Chinese, ImeMode::Chinese, SEC));
    assert_eq!(s.enter_listener_until, None);
}

#[test]
fn slash_then_enter_flow() {
    let mut s = state();
    assert!(hook_event_admitted(&mut s, HookEvent::SlashSequence, 0));
    let desired = desired_mode_for_event(&mut s, HookEvent::SlashSequence);
    assert_eq!(keyboard_mode_read(&mut s, HookEvent::SlashSequence, ImeMode::English, desired, 0), ModeReadDecision::Switch);
    assert!(keyboard_switch_confirmed(&mut s, HookEvent::SlashSequence, desired, ImeMode::Chinese, 0));
    assert!(hook_event_admitted(&mut s, HookEvent::EnterPressed, 29 * SEC));
    assert_eq!(desired_mode_for_event(&mut s, HookEvent::EnterPressed), ImeMode::English);
    assert!(hook_event_admitted(&mut s, HookEvent::EnterPressed, 29 * SEC));
}

#[test]
fn http_answers() {
    let r = no_foreground_response();
    assert!(!r.success);
    assert_eq!(r.message, "未找到可切换的前台窗口");

    let mut s = state();
    let r = http_mode_read(&mut s, ImeMode::English, ImeMode::English).unwrap();
    assert!(r.success && !r.changed);
    assert_eq!(r.message, "当前已经是英文输入");
    assert!(http_mode_read(&mut s, ImeMode::Chinese, ImeMode::English).is_none());
    let r = http_mode_read(&mut s, ImeMode::Chinese, ImeMode::Chinese).unwrap();
    assert_eq!(r.message, "当前已经是中文输入");

    let r = http_switch_result(&mut s, ImeMode::Chinese, ImeMode::Chinese);
    assert!(r.success && r.changed);
    assert_eq!(r.mode, Some(ImeMode::Chinese));
    assert_eq!(r.message, "已切换到中文输入");
    let r = http_switch_result(&mut s, ImeMode::English, ImeMode::Chinese);
    assert!(!r.success);
    assert_eq!(r.message, "输入法切换未生效");
    assert_eq!(s.current_mode, ImeMode::Chinese);
    let r = http_switch_result(&mut s, ImeMode::English, ImeMode::English);
    assert_eq!(r.message, "已切换到英文输入");

    let r = http_failure_response("access denied");
    assert_eq!(r.message, "输入法切换失败: access denied");
    assert!(!r.success);
}

#[test]
fn menu_commands() {
    assert_eq!(menu_command(1001), MenuCommand::ShowStatus);
    assert_eq!(menu_command(1002), MenuCommand::TogglePause);
    assert_eq!(menu_command(1003), MenuCommand::ToggleAutostart);
    assert_eq!(menu_command(1004), MenuCommand::Quit);
    assert_eq!(menu_command(1005), MenuCommand::SelectInputMethod(InputMethod::Sogou));
    assert_eq!(menu_command(1006), MenuCommand::SelectInputMethod(InputMethod::Microsoft));
    assert_eq!(menu_command(1007), MenuCommand::Nothing);
}

#[test]
fn toggles() {
    let mut s = state();
    assert_eq!(toggle_pause(&mut s), (true, ImeMode::English));
    assert_eq!(toggle_pause(&mut s), (false, ImeMode::English));
    assert_eq!(s, state());
    assert!(autostart_toggle_target(&s));
    let enabled = AppState { autostart_enabled: true, ..state() };
    assert!(!autostart_toggle_target(&enabled));
}

#[test]
fn input_method_selection() {
    let mut s = state();
    assert!(!input_method_change(&s, InputMethod::Sogou));
    apply_input_method(&mut s, InputMethod::Sogou);
    assert_eq!(s, state());
    assert!(input_method_change(&s, InputMethod::Microsoft));
    apply_input_method(&mut s, InputMethod::Microsoft);
    assert_eq!(s.input_method, InputMethod::Microsoft);
    assert_eq!(s.current_mode, ImeMode::Unknown);
}

use idea_ime::char_alias::{CharacterAlias, KeyBinding, KeyModifiers};
use idea_ime::hook::{
    begin_alias_capture, cancel_alias_capture, capture_alias_binding, handle_enter_event,
    handle_key, handle_other_key_event, handle_slash_event, handle_star_event,
    is_doc_comment_active, is_modifier_key, is_star_key, keyboard_decision,
    reload_character_aliases, reset_doc_comment_state, trigger_character_alias,
    unicode_key_strokes, AliasCaptureTarget, HookEvent, HookShared, HookState, KeyDecision,
    UnicodeKeyStroke,
};

const MS: u64 = 1_000_000;
const NONE: KeyModifiers = KeyModifiers { ctrl: false, alt: false, shift: false };
const CTRL: KeyModifiers = KeyModifiers { ctrl: true, alt: false, shift: false };

#[test]
fn double_slash_within_window() {
    let mut s = HookState::default();
    assert_eq!(handle_slash_event(&mut s, 1_000 * MS), None);
    assert_eq!(handle_slash_event(&mut s, 1_300 * MS), Some(HookEvent::SlashSequence));
}

#[test]
fn double_slash_too_slow() {
    let mut s = HookState::default();
    assert_eq!(handle_slash_event(&mut s, 1_000 * MS), None);
    assert_eq!(handle_slash_event(&mut s, 1_300 * MS + 1), None);
    // The late slash starts a new pair.
    assert_eq!(handle_slash_event(&mut s, 1_500 * MS), Some(HookEvent::SlashSequence));
}

#[test]
fn triple_slash_reports_twice() {
    let mut s = HookState::default();
    assert_eq!(handle_slash_event(&mut s, 0), None);
    assert_eq!(handle_slash_event(&mut s, 100 * MS), Some(HookEvent::SlashSequence));
    assert_eq!(handle_slash_event(&mut s, 200 * MS), Some(HookEvent::SlashSequence));
}

#[test]
fn slash_state_after_event() {
    let mut s = HookState::default();
    handle_slash_event(&mut s, 5 * MS);
    assert_eq!(
        s,
        HookState { last_slash_at: Some(5 * MS), doc_comment_stage: 1, last_doc_comment_at: Some(5 * MS) }
    );
}

#[test]
fn doc_comment_then_enter() {
    let mut s = HookState::default();
    handle_slash_event(&mut s, 0);
    handle_star_event(&mut s, 1_000 * MS);
    handle_star_event(&mut s, 2_000 * MS);
    assert_eq!(s.doc_comment_stage, 3);
    assert_eq!(handle_enter_event(&mut s, 4_000 * MS), HookEvent::DocCommentEnter);
    assert_eq!(s.doc_comment_stage, 0);
    assert_eq!(s.last_doc_comment_at, None);
}

#[test]
fn doc_comment_times_out() {
    let mut s = HookState::default();
    handle_slash_event(&mut s, 0);
    handle_star_event(&mut s, 100 * MS);
    handle_star_event(&mut s, 200 * MS);
    assert!(is_doc_comment_active(&s, 2_200 * MS));
    assert!(!is_doc_comment_active(&s, 2_200 * MS + 1));
    assert_eq!(handle_enter_event(&mut s, 2_200 * MS + 1), HookEvent::EnterPressed);
}

#[test]
fn incomplete_doc_comment_is_plain_enter() {
    let mut s = HookState::default();
    handle_slash_event(&mut s, 0);
    handle_star_event(&mut s, 100 * MS);
    assert_eq!(handle_enter_event(&mut s, 200 * MS), HookEvent::EnterPressed);
}

#[test]
fn fourth_star_forgets_doc_comment() {
    let mut s = HookState::default();
    handle_slash_event(&mut s, 0);
    handle_star_event(&mut s, 1);
    handle_star_event(&mut s, 2);
    handle_star_event(&mut s, 3);
    assert_eq!(s.doc_comment_stage, 0);
    assert_eq!(handle_enter_event(&mut s, 4), HookEvent::EnterPressed);
}

#[test]
fn star_without_slash_resets() {
    let mut s = HookState::default();
    handle_star_event(&mut s, 10);
    assert_eq!(s, HookState::default());
}

#[test]
fn other_keys_reset_but_modifiers_do_not() {
    let mut s = HookState::default();
    handle_slash_event(&mut s, 0);
    handle_other_key_event(&mut s, 0x10);
    assert_eq!(s.doc_comment_stage, 1);
    handle_other_key_event(&mut s, 0x41);
    assert_eq!(s.doc_comment_stage, 0);
    assert_eq!(s.last_doc_comment_at, None);
    assert_eq!(s.last_slash_at, Some(0));
    let mut t = s;
    reset_doc_comment_state(&mut t);
    assert_eq!(t, s);
}

#[test]
fn plain_enter() {
    let mut s = HookState::default();
    assert_eq!(handle_enter_event(&mut s, 0), HookEvent::EnterPressed);
}

#[test]
fn key_classification() {
    assert!(is_star_key(0x6A, false));
    assert!(is_star_key(0x38, true));
    assert!(!is_star_key(0x38, false));
    assert!(is_modifier_key(0xA5));
    assert!(!is_modifier_key(0x38));
}

#[test]
fn handle_key_dispatches() {
    let mut s = HookState::default();
    assert_eq!(handle_key(&mut s, 0xBF, false, 0), None);
    assert_eq!(handle_key(&mut s, 0x10, false, 1), None);
    assert_eq!(handle_key(&mut s, 0x38, true, 2), None);
    assert_eq!(handle_key(&mut s, 0x6A, false, 3), None);
    assert_eq!(handle_key(&mut s, 0x0D, false, 4), Some(HookEvent::DocCommentEnter));
    assert_eq!(handle_key(&mut s, 0xBF, false, 5), Some(HookEvent::SlashSequence));
    assert_eq!(handle_key(&mut s, 0x38, false, 6), None);
    assert_eq!(s.doc_comment_stage, 0);
}

#[test]
fn capture_takes_target_once() {
    let target = AliasCaptureTarget { hwnd_raw: 77, message_id: 0x8000 + 30 };
    let mut slot = Some(target);
    assert_eq!(capture_alias_binding(&mut slot, 0x10, NONE), None);
    assert_eq!(slot, Some(target));
    assert_eq!(
        capture_alias_binding(&mut slot, 0x41, CTRL),
        Some((target, KeyBinding { vk_code: 0x41, modifiers: CTRL }))
    );
    assert_eq!(slot, None);
    assert_eq!(capture_alias_binding(&mut slot, 0x41, CTRL), None);
}

#[test]
fn alias_typing() {
    let aliases = vec![
        CharacterAlias { trigger: KeyBinding { vk_code: 0xBC, modifiers: NONE }, output: "，".to_string() },
        CharacterAlias { trigger: KeyBinding { vk_code: 0xBC, modifiers: NONE }, output: "second".to_string() },
    ];
    assert_eq!(trigger_character_alias(&aliases, false, 0xBC, NONE), Some("，".to_string()));
    assert_eq!(trigger_character_alias(&aliases, true, 0xBC, NONE), None);
    assert_eq!(trigger_character_alias(&aliases, false, 0xBC, CTRL), None);
    assert_eq!(trigger_character_alias(&aliases, false, 0x10, NONE), None);
}

#[test]
fn keyboard_decision_order() {
    let aliases = vec![CharacterAlias {
        trigger: KeyBinding { vk_code: 0xBF, modifiers: CTRL },
        output: "、".to_string(),
    }];
    let mut shared = HookShared::new(aliases);
    begin_alias_capture(&mut shared, 5, 9);
    match keyboard_decision(&mut shared, false, 0xBF, CTRL, false, 0) {
        KeyDecision::Captured(t, b) => {
            assert_eq!(t, AliasCaptureTarget { hwnd_raw: 5, message_id: 9 });
            assert_eq!(b, KeyBinding { vk_code: 0xBF, modifiers: CTRL });
        }
        other => panic!("unexpected {other:?}"),
    }
    match keyboard_decision(&mut shared, false, 0xBF, CTRL, false, 1) {
        KeyDecision::TypeText(t) => assert_eq!(t, "、"),
        other => panic!("unexpected {other:?}"),
    }
    match keyboard_decision(&mut shared, true, 0xBF, CTRL, false, 2) {
        KeyDecision::Pass(None) => {}
        other => panic!("unexpected {other:?}"),
    }
    match keyboard_decision(&mut shared, false, 0xBF, NONE, false, 3) {
        KeyDecision::Pass(Some(HookEvent::SlashSequence)) => {}
        other => panic!("unexpected {other:?}"),
    }
    begin_alias_capture(&mut shared, 5, 9);
    cancel_alias_capture(&mut shared);
    assert_eq!(shared.capture_target, None);
    reload_character_aliases(&mut shared, Vec::new());
    assert!(shared.aliases.is_empty());
}

#[test]
fn unicode_strokes() {
    let strokes = unicode_key_strokes("a😀");
    assert_eq!(
        strokes,
        vec![
            UnicodeKeyStroke { unit: 97, key_up: false },
            UnicodeKeyStroke { unit: 97, key_up: true },
            UnicodeKeyStroke { unit: 0xD83D, key_up: false },
            UnicodeKeyStroke { unit: 0xD83D, key_up: true },
            UnicodeKeyStroke { unit: 0xDE00, key_up: false },
            UnicodeKeyStroke { unit: 0xDE00, key_up: true },
        ]
    );
    assert!(unicode_key_strokes("").is_empty());
}

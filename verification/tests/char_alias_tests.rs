use idea_ime::char_alias::{
    binding_conflict, binding_from_current_keyboard, binding_matches, button_label, button_style,
    centered_window_origin, chip_position, classify_command, current_modifiers, decode_modifiers,
    display_binding, encode_modifiers, high_word, is_modifier_vk, key_down, key_name, low_word,
    validate_alias, AliasCommand, AliasEditor, CharacterAlias, KeyBinding, KeyModifiers,
    ModifierKeyStates,
};

const NONE: KeyModifiers = KeyModifiers { ctrl: false, alt: false, shift: false };
const SHIFT: KeyModifiers = KeyModifiers { ctrl: false, alt: false, shift: true };
const CTRL: KeyModifiers = KeyModifiers { ctrl: true, alt: false, shift: false };

fn alias(vk: u16, modifiers: KeyModifiers, output: &str) -> CharacterAlias {
    CharacterAlias { trigger: KeyBinding { vk_code: vk, modifiers }, output: output.to_string() }
}

#[test]
fn modifier_keys() {
    for vk in [0x10u16, 0xA0, 0xA1, 0x11, 0xA2, 0xA3, 0x12, 0xA4, 0xA5] {
        assert!(is_modifier_vk(vk));
    }
    assert!(!is_modifier_vk(0x41));
    assert!(!is_modifier_vk(0x0D));
}

#[test]
fn key_down_reads_high_bit() {
    assert!(key_down(i16::MIN));
    assert!(key_down(-1));
    assert!(!key_down(0));
    assert!(!key_down(1));
    assert!(!key_down(0x7FFF));
}

#[test]
fn modifiers_from_key_states() {
    let none = ModifierKeyStates {
        control: false,
        left_control: false,
        right_control: false,
        menu: false,
        left_menu: false,
        right_menu: false,
        shift: false,
        left_shift: false,
        right_shift: false,
    };
    assert_eq!(current_modifiers(none), NONE);
    let right_ctrl_left_shift = ModifierKeyStates { right_control: true, left_shift: true, ..none };
    assert_eq!(
        current_modifiers(right_ctrl_left_shift),
        KeyModifiers { ctrl: true, alt: false, shift: true }
    );
    assert_eq!(current_modifiers(ModifierKeyStates { right_menu: true, ..none }).alt, true);
}

#[test]
fn bindings_from_keyboard() {
    assert_eq!(binding_from_current_keyboard(0x10, SHIFT), None);
    assert_eq!(binding_from_current_keyboard(0xA2, CTRL), None);
    assert_eq!(
        binding_from_current_keyboard(0x41, CTRL),
        Some(KeyBinding { vk_code: 0x41, modifiers: CTRL })
    );
    let b = KeyBinding { vk_code: 0x41, modifiers: CTRL };
    assert!(binding_matches(b, 0x41, CTRL));
    assert!(!binding_matches(b, 0x41, NONE));
    assert!(!binding_matches(b, 0x42, CTRL));
}

#[test]
fn key_names() {
    assert_eq!(key_name(0x08), "Backspace");
    assert_eq!(key_name(0x0D), "Enter");
    assert_eq!(key_name(0x20), "Space");
    assert_eq!(key_name(0x2E), "Delete");
    assert_eq!(key_name(0x30), "0");
    assert_eq!(key_name(0x39), "9");
    assert_eq!(key_name(0x41), "A");
    assert_eq!(key_name(0x5A), "Z");
    assert_eq!(key_name(0x70), "F1");
    assert_eq!(key_name(0x7B), "F12");
    assert_eq!(key_name(0x87), "F24");
    assert_eq!(key_name(0xBA), ";");
    assert_eq!(key_name(0xBF), "/");
    assert_eq!(key_name(0xC0), "`");
    assert_eq!(key_name(0xDC), "\\");
    assert_eq!(key_name(0xDE), "'");
    assert_eq!(key_name(0x3A), "VK 58");
    assert_eq!(key_name(0xFF), "VK 255");
    assert_eq!(key_name(0x88), "VK 136");
}

#[test]
fn display_bindings() {
    assert_eq!(display_binding(KeyBinding { vk_code: 0x41, modifiers: NONE }), "A");
    assert_eq!(
        display_binding(KeyBinding { vk_code: 0x41, modifiers: KeyModifiers { ctrl: true, alt: false, shift: true } }),
        "Ctrl+Shift+A"
    );
    assert_eq!(
        display_binding(KeyBinding { vk_code: 0x74, modifiers: KeyModifiers { ctrl: true, alt: true, shift: true } }),
        "Ctrl+Alt+Shift+F5"
    );
    assert_eq!(display_binding(KeyBinding { vk_code: 0xBE, modifiers: SHIFT }), "Shift+.");
}

#[test]
fn modifier_encoding_round_trip() {
    for bits in 0u32..8 {
        let m = KeyModifiers { ctrl: bits & 1 != 0, alt: bits & 2 != 0, shift: bits & 4 != 0 };
        assert_eq!(encode_modifiers(m), bits);
        assert_eq!(decode_modifiers(encode_modifiers(m)), m);
    }
    assert_eq!(decode_modifiers(0xFFFF_FFF8), NONE);
}

#[test]
fn words_of_a_message_parameter() {
    let w: usize = (0x0100 << 16) | 2002;
    assert_eq!(low_word(w), 2002);
    assert_eq!(high_word(w), 0x0100);
    assert_eq!(low_word(0xFFFF_FFFF), 0xFFFF);
    assert_eq!(high_word(0x1234_5678), 0x1234);
}

#[test]
fn button_captions_and_styles() {
    assert_eq!(button_label(2004), Some("新增规则"));
    assert_eq!(button_label(2005), Some("保存"));
    assert_eq!(button_label(2006), Some("删除"));
    assert_eq!(button_label(2007), Some("字符表..."));
    assert_eq!(button_label(2100), Some("、"));
    assert_eq!(button_label(2109), Some("—"));
    assert_eq!(button_label(2110), None);
    assert_eq!(button_label(2001), None);

    let add = button_style(2004, true, false).unwrap();
    assert_eq!(add.fill, 0x00D86A00);
    assert_eq!(add.border, 0x00FF7A00);
    assert_eq!(add.text_color, 0x00FFFFFF);
    assert_eq!(add.corner_radius, 14);
    assert_eq!(add.press_offset, 1);
    let chip = button_style(2103, false, true).unwrap();
    assert_eq!(chip.label, "」");
    assert_eq!(chip.fill, 0x00F4F4F6);
    assert_eq!(chip.border, 0x00DADADF);
    assert_eq!(chip.text_color, 0x00A9A9AF);
    assert_eq!(chip.corner_radius, 10);
    assert_eq!(chip.font_height, 16);
    assert_eq!(chip.press_offset, 0);
    assert!(button_style(42, false, false).is_none());
}

#[test]
fn layout() {
    assert_eq!(chip_position(0), (410, 334));
    assert_eq!(chip_position(4), (578, 334));
    assert_eq!(chip_position(5), (410, 368));
    assert_eq!(chip_position(9), (578, 368));
    assert_eq!(centered_window_origin(1920, 1080), (580, 260));
    assert_eq!(centered_window_origin(500, 400), (0, 0));
}

#[test]
fn command_classification() {
    assert_eq!(classify_command((0x0100 << 16) | 2002), AliasCommand::BeginCapture);
    assert_eq!(classify_command(2002), AliasCommand::Ignore);
    assert_eq!(classify_command((1 << 16) | 2001), AliasCommand::SelectionChanged);
    assert_eq!(classify_command((2 << 16) | 2001), AliasCommand::Ignore);
    assert_eq!(classify_command(2004), AliasCommand::Add);
    assert_eq!(classify_command(2005), AliasCommand::Save);
    assert_eq!(classify_command(2006), AliasCommand::Delete);
    assert_eq!(classify_command(2007), AliasCommand::OpenCharacterMap);
    assert_eq!(classify_command(2103), AliasCommand::InsertCommonChar(3));
    assert_eq!(classify_command(2110), AliasCommand::Ignore);
}

#[test]
fn reserved_bindings_conflict() {
    let none: Vec<CharacterAlias> = Vec::new();
    assert_eq!(
        binding_conflict(&none, None, KeyBinding { vk_code: 0x0D, modifiers: CTRL }),
        Some("Enter 已被内置注释换行监听占用。".to_string())
    );
    assert_eq!(
        binding_conflict(&none, None, KeyBinding { vk_code: 0xBF, modifiers: NONE }),
        Some("/ 已被内置 // 监听占用。".to_string())
    );
    assert_eq!(binding_conflict(&none, None, KeyBinding { vk_code: 0xBF, modifiers: SHIFT }), None);
    assert_eq!(
        binding_conflict(&none, None, KeyBinding { vk_code: 0x38, modifiers: SHIFT }),
        Some("* 已被内置 /** 监听占用。".to_string())
    );
    assert_eq!(
        binding_conflict(&none, None, KeyBinding { vk_code: 0x6A, modifiers: NONE }),
        Some("* 已被内置 /** 监听占用。".to_string())
    );
    assert_eq!(binding_conflict(&none, None, KeyBinding { vk_code: 0x38, modifiers: NONE }), None);
}

#[test]
fn duplicate_bindings_conflict() {
    let aliases = vec![alias(0x41, CTRL, "。"), alias(0x42, CTRL, "、")];
    let trigger = KeyBinding { vk_code: 0x41, modifiers: CTRL };
    assert_eq!(
        binding_conflict(&aliases, None, trigger),
        Some("Ctrl+A 已被另一个字符别名占用。".to_string())
    );
    assert_eq!(binding_conflict(&aliases, Some(0), trigger), None);
    assert_eq!(
        binding_conflict(&aliases, Some(1), trigger),
        Some("Ctrl+A 已被另一个字符别名占用。".to_string())
    );
}

#[test]
fn validation() {
    let aliases = vec![alias(0x41, CTRL, "。")];
    let free = KeyBinding { vk_code: 0x43, modifiers: CTRL };
    assert_eq!(validate_alias(&aliases, None, free, "  \t"), Err("请填写要输出的字符。".to_string()));
    assert_eq!(validate_alias(&aliases, None, free, "\u{3000}"), Err("请填写要输出的字符。".to_string()));
    assert_eq!(validate_alias(&aliases, None, free, ""), Err("请填写要输出的字符。".to_string()));
    assert_eq!(validate_alias(&aliases, None, free, " 」 "), Ok(()));
    let taken = KeyBinding { vk_code: 0x41, modifiers: CTRL };
    assert_eq!(
        validate_alias(&aliases, None, taken, "x"),
        Err("Ctrl+A 已被另一个字符别名占用。".to_string())
    );
}

#[test]
fn editor_add_requires_trigger() {
    let mut editor = AliasEditor::new(Vec::new());
    assert_eq!(
        editor.add_alias_inner("。".to_string()),
        Err("请先点击触发键输入框并按下一个键。".to_string())
    );
    assert!(editor.aliases().is_empty());
}

#[test]
fn editor_add_and_select() {
    let mut editor = AliasEditor::new(vec![alias(0x41, CTRL, "。")]);
    let (text, status) = editor.handle_captured_binding(KeyBinding { vk_code: 0x42, modifiers: CTRL });
    assert_eq!(text, "Ctrl+B");
    assert_eq!(status, "触发键已录制，填写输出字符后保存。");
    assert_eq!(editor.add_alias_inner("、".to_string()), Ok(()));
    assert_eq!(editor.aliases().len(), 2);
    assert_eq!(editor.aliases()[1], alias(0x42, CTRL, "、"));
    assert_eq!(editor.selected_index(), Some(1));
    assert_eq!(
        editor.alias_rows(),
        vec!["Ctrl+A  ->  。".to_string(), "Ctrl+B  ->  、".to_string()]
    );
}

#[test]
fn editor_rejects_duplicates_and_reserved() {
    let mut editor = AliasEditor::new(vec![alias(0x41, CTRL, "。")]);
    let (_, status) = editor.handle_captured_binding(KeyBinding { vk_code: 0x41, modifiers: CTRL });
    assert_eq!(status, "Ctrl+A 已被另一个字符别名占用。");
    assert_eq!(
        editor.add_alias_inner("x".to_string()),
        Err("Ctrl+A 已被另一个字符别名占用。".to_string())
    );
    editor.handle_captured_binding(KeyBinding { vk_code: 0x0D, modifiers: NONE });
    assert_eq!(
        editor.add_alias_inner("x".to_string()),
        Err("Enter 已被内置注释换行监听占用。".to_string())
    );
    assert_eq!(editor.aliases().len(), 1);
    assert_eq!(editor.selected_index(), None);
}

#[test]
fn editor_save_selected() {
    let mut editor = AliasEditor::new(vec![alias(0x41, CTRL, "。"), alias(0x42, CTRL, "、")]);
    assert_eq!(
        editor.save_selected_alias_inner("x".to_string()),
        Err("请先选择左侧规则，或点击新增。".to_string())
    );
    let texts = editor.select_current_list_item(0).unwrap();
    assert_eq!(texts, ("Ctrl+A".to_string(), "。".to_string()));
    assert_eq!(editor.pending_trigger(), Some(KeyBinding { vk_code: 0x41, modifiers: CTRL }));
    // Saving the same rule with its own trigger is not a conflict.
    assert_eq!(editor.save_selected_alias_inner("…".to_string()), Ok(()));
    assert_eq!(editor.aliases()[0].output, "…");
    // Moving it onto the other rule's trigger is.
    editor.handle_captured_binding(KeyBinding { vk_code: 0x42, modifiers: CTRL });
    assert_eq!(
        editor.save_selected_alias_inner("x".to_string()),
        Err("Ctrl+B 已被另一个字符别名占用。".to_string())
    );
    assert_eq!(editor.aliases()[0].output, "…");
}

#[test]
fn editor_delete_and_selection_edges() {
    let mut editor = AliasEditor::new(vec![alias(0x41, CTRL, "。"), alias(0x42, CTRL, "、")]);
    assert!(!editor.delete_selected_alias());
    assert!(editor.select_current_list_item(5).is_none());
    assert_eq!(editor.selected_index(), None);
    editor.select_current_list_item(1);
    assert_eq!(editor.selected_index(), Some(1));
    assert!(editor.select_current_list_item(-1).is_none());
    assert_eq!(editor.selected_index(), None);
    assert_eq!(editor.pending_trigger(), Some(KeyBinding { vk_code: 0x42, modifiers: CTRL }));
    editor.select_current_list_item(0);
    assert!(editor.delete_selected_alias());
    assert_eq!(editor.aliases().len(), 1);
    assert_eq!(editor.aliases()[0], alias(0x42, CTRL, "、"));
    assert_eq!(editor.selected_index(), None);
    assert_eq!(editor.pending_trigger(), None);
}

#[test]
fn editor_begin_capture_drops_trigger() {
    let mut editor = AliasEditor::new(vec![alias(0x41, CTRL, "。")]);
    editor.select_current_list_item(0);
    editor.begin_trigger_capture();
    assert_eq!(editor.pending_trigger(), None);
    assert_eq!(editor.selected_index(), Some(0));
}

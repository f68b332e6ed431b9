use idea_ime::ime::{
    conversion_for_mode, mode_from_conversion, mode_from_open_status, open_status_for_mode,
    switch_is_attempted, switch_took_effect, ImeMode, InputMethod,
};

#[test]
fn labels_and_config_values() {
    assert_eq!(InputMethod::Sogou.label(), "搜狗输入法");
    assert_eq!(InputMethod::Microsoft.label(), "微软拼音");
    assert_eq!(InputMethod::Sogou.config_value(), "sogou");
    assert_eq!(InputMethod::Microsoft.config_value(), "microsoft");
}

#[test]
fn from_config_value_accepts_known_names() {
    assert_eq!(InputMethod::from_config_value("sogou"), Some(InputMethod::Sogou));
    assert_eq!(InputMethod::from_config_value("  SoGou\n"), Some(InputMethod::Sogou));
    assert_eq!(InputMethod::from_config_value("microsoft"), Some(InputMethod::Microsoft));
    assert_eq!(InputMethod::from_config_value(" MS "), Some(InputMethod::Microsoft));
    assert_eq!(InputMethod::from_config_value("Microsoft_Pinyin"), Some(InputMethod::Microsoft));
}

#[test]
fn from_config_value_rejects_others() {
    assert_eq!(InputMethod::from_config_value(""), None);
    assert_eq!(InputMethod::from_config_value("m s"), None);
    assert_eq!(InputMethod::from_config_value("sogou2"), None);
    assert_eq!(InputMethod::from_config_value("微软拼音"), None);
}

#[test]
fn config_value_round_trip() {
    for m in [InputMethod::Sogou, InputMethod::Microsoft] {
        assert_eq!(InputMethod::from_config_value(m.config_value()), Some(m));
    }
}

#[test]
fn defaults() {
    assert_eq!(InputMethod::default(), InputMethod::Sogou);
    assert_eq!(ImeMode::default(), ImeMode::Unknown);
}

#[test]
fn conversion_flags() {
    assert_eq!(conversion_for_mode(0x0008, ImeMode::Chinese), 0x0009);
    assert_eq!(conversion_for_mode(0x0009, ImeMode::English), 0x0008);
    assert_eq!(conversion_for_mode(0x0009, ImeMode::Unknown), 0x0009);
    assert_eq!(mode_from_conversion(0x0009), ImeMode::Chinese);
    assert_eq!(mode_from_conversion(0x0408), ImeMode::English);
    for c in [0u32, 1, 0x18, 0xFFFF_FFFF] {
        assert_eq!(mode_from_conversion(conversion_for_mode(c, ImeMode::Chinese)), ImeMode::Chinese);
        assert_eq!(mode_from_conversion(conversion_for_mode(c, ImeMode::English)), ImeMode::English);
    }
}

#[test]
fn open_status() {
    assert_eq!(mode_from_open_status(0), ImeMode::English);
    assert_eq!(mode_from_open_status(1), ImeMode::Chinese);
    assert_eq!(mode_from_open_status(-1), ImeMode::Chinese);
    assert!(open_status_for_mode(ImeMode::Chinese));
    assert!(!open_status_for_mode(ImeMode::English));
    assert!(!open_status_for_mode(ImeMode::Unknown));
}

#[test]
fn config_value_ignores_case_and_space() {
    for value in ["sogou", " Microsoft_Pinyin\t", "ms", "MS ", "other", "", " \u{3000}SOGOU"] {
        let expected = InputMethod::from_config_value(value);
        assert_eq!(InputMethod::from_config_value(value.trim()), expected);
        assert_eq!(InputMethod::from_config_value(&value.to_ascii_lowercase()), expected);
        assert_eq!(InputMethod::from_config_value(&value.to_ascii_uppercase()), expected);
        assert_eq!(InputMethod::from_config_value(&value.trim().to_ascii_uppercase()), expected);
    }
    assert_eq!(InputMethod::from_config_value(" \u{3000}SOGOU"), Some(InputMethod::Sogou));
}

#[test]
fn switch_attempts_and_effects() {
    for m in [InputMethod::Sogou, InputMethod::Microsoft] {
        assert!(switch_is_attempted(m, ImeMode::Chinese));
        assert!(switch_is_attempted(m, ImeMode::English));
        assert!(switch_took_effect(m, ImeMode::Chinese, ImeMode::Chinese));
        assert!(!switch_took_effect(m, ImeMode::Chinese, ImeMode::English));
        assert!(!switch_took_effect(m, ImeMode::English, ImeMode::Unknown));
    }
    assert!(switch_is_attempted(InputMethod::Sogou, ImeMode::Unknown));
    assert!(!switch_is_attempted(InputMethod::Microsoft, ImeMode::Unknown));
    assert!(switch_took_effect(InputMethod::Sogou, ImeMode::Unknown, ImeMode::Unknown));
    assert!(!switch_took_effect(InputMethod::Microsoft, ImeMode::Unknown, ImeMode::Unknown));
}

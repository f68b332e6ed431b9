use idea_ime::ime::{ImeMode, InputMethod};
use idea_ime::notify::{
    already_running_content, autostart_status_content, mode_switch_content, pause_status_content,
    popup_position, started_content, status_content, COLOR_ACCENT_CHINESE, COLOR_ACCENT_DEFAULT,
    COLOR_ACCENT_ENGLISH,
};
use idea_ime::text::encode_utf16;
use idea_ime::tray::{
    balloon_is_warning,
    context_menu_labels, status_stock_icon, tooltip, tray_callback_action, StockIcon, TrayAction,
};
use idea_ime::watcher::is_idea_image_path;

#[test]
fn tooltips() {
    assert_eq!(tooltip(ImeMode::Chinese, false), "IdeaInputSwitch: 中文输入");
    assert_eq!(tooltip(ImeMode::English, false), "IdeaInputSwitch: 英文输入");
    assert_eq!(tooltip(ImeMode::Unknown, false), "IdeaInputSwitch: 状态未知");
    assert_eq!(tooltip(ImeMode::Chinese, true), "IdeaInputSwitch: 已暂停");
}

#[test]
fn stock_icons() {
    assert_eq!(status_stock_icon(ImeMode::Chinese, true), StockIcon::Error);
    assert_eq!(status_stock_icon(ImeMode::Chinese, false), StockIcon::Warning);
    assert_eq!(status_stock_icon(ImeMode::English, false), StockIcon::Information);
    assert_eq!(status_stock_icon(ImeMode::Unknown, false), StockIcon::Application);
}

#[test]
fn tray_clicks() {
    assert_eq!(tray_callback_action(0x0205), TrayAction::ShowMenu);
    assert_eq!(tray_callback_action(0x007B), TrayAction::ShowMenu);
    assert_eq!(tray_callback_action(0x0202), TrayAction::ShowStatus);
    assert_eq!(tray_callback_action(0x0200), TrayAction::Nothing);
}

#[test]
fn menu_labels() {
    let labels = context_menu_labels(ImeMode::Chinese, false, true, InputMethod::Microsoft);
    assert_eq!(labels.state_label, "状态: 运行中 / 中文 / 微软拼音");
    assert_eq!(labels.pause_label, "暂停监听");
    assert_eq!(labels.autostart_label, "关闭开机自启");
    assert!(!labels.sogou_checked);
    assert!(labels.microsoft_checked);
    let labels = context_menu_labels(ImeMode::Unknown, true, false, InputMethod::Sogou);
    assert_eq!(labels.state_label, "状态: 已暂停 / 未知 / 搜狗输入法");
    assert_eq!(labels.pause_label, "恢复监听");
    assert_eq!(labels.autostart_label, "开启开机自启");
    assert!(labels.sogou_checked);
}

#[test]
fn popups() {
    let p = mode_switch_content(ImeMode::Chinese);
    assert_eq!(p.main_text, "已切换到中文输入");
    assert_eq!(p.sub_text, "// 触发 · 中文模式");
    assert_eq!(p.accent, COLOR_ACCENT_CHINESE);
    let p = mode_switch_content(ImeMode::English);
    assert_eq!(p.sub_text, "Enter 触发 · 英文模式");
    assert_eq!(p.accent, COLOR_ACCENT_ENGLISH);
    assert_eq!(mode_switch_content(ImeMode::Unknown).accent, COLOR_ACCENT_DEFAULT);
    assert_eq!(pause_status_content(true).main_text, "已暂停监听");
    assert_eq!(pause_status_content(false).accent, COLOR_ACCENT_CHINESE);
    assert_eq!(autostart_status_content(true).sub_text, "下次开机将自动运行");
    assert_eq!(autostart_status_content(false).main_text, "已关闭开机自启");
    assert_eq!(already_running_content().main_text, "已在运行");
    assert_eq!(started_content().sub_text, "IdeaInputSwitch 正在后台运行");
}

#[test]
fn status_popup() {
    let p = status_content(ImeMode::Chinese, false, true);
    assert_eq!(p.main_text, "监听中");
    assert_eq!(p.sub_text, "输入法：中文  ·  自启：开");
    assert_eq!(p.accent, COLOR_ACCENT_CHINESE);
    let p = status_content(ImeMode::English, true, false);
    assert_eq!(p.main_text, "已暂停");
    assert_eq!(p.sub_text, "输入法：英文  ·  自启：关");
    assert_eq!(p.accent, COLOR_ACCENT_DEFAULT);
    assert_eq!(status_content(ImeMode::Unknown, false, false).accent, COLOR_ACCENT_ENGLISH);
}

#[test]
fn popup_placement() {
    assert_eq!(popup_position(1920, 1080), (1600, 952));
}

#[test]
fn idea_paths() {
    let yes = [
        "C:\\Program Files\\JetBrains\\IntelliJ IDEA\\bin\\idea64.exe",
        "D:\\tools\\IDEA.EXE",
        "C:/x/Idea64.Exe",
        "idea.exe",
        "C:\\x\\idea64.exe\\",
    ];
    for p in yes {
        assert!(is_idea_image_path(&encode_utf16(p)), "{p}");
    }
    let no = ["C:\\Windows\\notepad.exe", "", "C:\\idea64.exe\\other", "C:\\x\\idea64.exe.bak", "idea"];
    for p in no {
        assert!(!is_idea_image_path(&encode_utf16(p)), "{p}");
    }
}

#[test]
fn idea_paths_follow_windows_file_name() {
    let yes = [
        "foo/idea.exe/.",
        "C:\\x\\.\\idea64.exe\\.\\",
        "C:idea64.exe",
        "\\\\?\\C:\\x\\idea.exe",
        "\\\\?\\C:\\x\\IDEA64.exe\\\\",
        "\\\\server\\share\\bin\\idea64.exe",
        "\\\\?\\UNC\\server\\share\\idea.exe",
        "\\\\.\\pipe\\idea.exe",
        "./idea.exe",
    ];
    for p in yes {
        assert!(is_idea_image_path(&encode_utf16(p)), "{p}");
    }
    let no = [
        "\\\\server\\idea.exe",
        "\\\\?\\C:\\x\\idea.exe\\.",
        "\\\\?\\C:\\x/idea.exe",
        "C:\\x\\idea.exe\\..",
        "C:\\x\\..\\",
        "\\\\?\\idea.exe",
        "C:",
        ".",
        "\\\\.\\idea.exe",
    ];
    for p in no {
        assert!(!is_idea_image_path(&encode_utf16(p)), "{p}");
    }
}

#[test]
fn balloon_icons() {
    assert!(balloon_is_warning("已切换到中文输入"));
    assert!(!balloon_is_warning("已切换到英文输入"));
    assert!(!balloon_is_warning("中"));
    assert!(!balloon_is_warning(""));
    assert!(balloon_is_warning("中文"));
}

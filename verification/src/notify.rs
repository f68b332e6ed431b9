//! What the pop-up notifications say: title, detail line and accent colour
//! for each occasion, and where the pop-up stands on the screen.
use vstd::prelude::*;

use crate::ime::ImeMode;

verus! {

/// Accent for Chinese mode and for good news.
pub const COLOR_ACCENT_CHINESE: u32 = 0x0033AA44;
/// Accent for English mode.
pub const COLOR_ACCENT_ENGLISH: u32 = 0x00CC5500;
/// Accent for everything else.
pub const COLOR_ACCENT_DEFAULT: u32 = 0x005588CC;
pub const POPUP_WIDTH: i32 = 300;
pub const POPUP_HEIGHT: i32 = 60;
pub const POPUP_MARGIN: i32 = 20;
/// How long a pop-up stays, in milliseconds.
pub const POPUP_DURATION_MS: u32 = 1000;

/// The content of a pop-up.
pub struct PopupContent {
    pub main_text: String,
    pub sub_text: String,
    pub accent: u32,
}

/// The content of a pop-up, as values.
pub open spec fn popup_is(p: PopupContent, main: Seq<char>, sub: Seq<char>, accent: u32) -> bool {
    p.main_text@ == main && p.sub_text@ == sub && p.accent == accent
}

fn popup(main: &str, sub: &str, accent: u32) -> (r: PopupContent)
    ensures
        popup_is(r, main@, sub@, accent),
{
    PopupContent { main_text: String::from_str(main), sub_text: String::from_str(sub), accent }
}

/// The pop-up announcing a mode switch.
pub fn mode_switch_content(mode: ImeMode) -> (r: PopupContent)
    ensures
        mode == ImeMode::Chinese ==> popup_is(
            r,
            "已切换到中文输入"@,
            "// 触发 · 中文模式"@,
            COLOR_ACCENT_CHINESE,
        ),
        mode == ImeMode::English ==> popup_is(
            r,
            "已切换到英文输入"@,
            "Enter 触发 · 英文模式"@,
            COLOR_ACCENT_ENGLISH,
        ),
        mode == ImeMode::Unknown ==> popup_is(
            r,
            "输入法状态未知"@,
            "无法识别当前输入法"@,
            COLOR_ACCENT_DEFAULT,
        ),
{
    match mode {
        ImeMode::Chinese => popup("已切换到中文输入", "// 触发 · 中文模式", COLOR_ACCENT_CHINESE),
        ImeMode::English => popup("已切换到英文输入", "Enter 触发 · 英文模式", COLOR_ACCENT_ENGLISH),
        ImeMode::Unknown => popup("输入法状态未知", "无法识别当前输入法", COLOR_ACCENT_DEFAULT),
    }
}

/// The pop-up after pausing or resuming.
pub fn pause_status_content(paused: bool) -> (r: PopupContent)
    ensures
        paused ==> popup_is(r, "已暂停监听"@, "IDEA 输入法切换已停用"@, COLOR_ACCENT_DEFAULT),
        !paused ==> popup_is(r, "已恢复监听"@, "IDEA 输入法切换已启用"@, COLOR_ACCENT_CHINESE),
{
    if paused {
        popup("已暂停监听", "IDEA 输入法切换已停用", COLOR_ACCENT_DEFAULT)
    } else {
        popup("已恢复监听", "IDEA 输入法切换已启用", COLOR_ACCENT_CHINESE)
    }
}

/// The pop-up after changing the autostart setting.
pub fn autostart_status_content(enabled: bool) -> (r: PopupContent)
    ensures
        enabled ==> popup_is(r, "已开启开机自启"@, "下次开机将自动运行"@, COLOR_ACCENT_CHINESE),
        !enabled ==> popup_is(r, "已关闭开机自启"@, "下次开机不再自动运行"@, COLOR_ACCENT_DEFAULT),
{
    if enabled {
        popup("已开启开机自启", "下次开机将自动运行", COLOR_ACCENT_CHINESE)
    } else {
        popup("已关闭开机自启", "下次开机不再自动运行", COLOR_ACCENT_DEFAULT)
    }
}

pub open spec fn spec_mode_label(mode: ImeMode) -> Seq<char> {
    match mode {
        ImeMode::Chinese => "中文"@,
        ImeMode::English => "英文"@,
        ImeMode::Unknown => "未知"@,
    }
}

/// The status pop-up: listening or paused, then the mode and the autostart
/// setting; the accent is the default while paused, otherwise green for
/// Chinese and orange for the rest.
pub fn status_content(mode: ImeMode, paused: bool, autostart_enabled: bool) -> (r: PopupContent)
    ensures
        popup_is(
            r,
            if paused {
                "已暂停"@
            } else {
                "监听中"@
            },
            "输入法："@ + spec_mode_label(mode) + "  ·  自启："@ + (if autostart_enabled {
                "开"@
            } else {
                "关"@
            }),
            if paused {
                COLOR_ACCENT_DEFAULT
            } else if mode == ImeMode::Chinese {
                COLOR_ACCENT_CHINESE
            } else {
                COLOR_ACCENT_ENGLISH
            },
        ),
{
    let mode_label = match mode {
        ImeMode::Chinese => "中文",
        ImeMode::English => "英文",
        ImeMode::Unknown => "未知",
    };
    let mut sub = String::from_str("输入法：");
    sub.append(mode_label);
    sub.append("  ·  自启：");
    sub.append(
        if autostart_enabled {
            "开"
        } else {
            "关"
        },
    );
    let accent = if paused {
        COLOR_ACCENT_DEFAULT
    } else if mode == ImeMode::Chinese {
        COLOR_ACCENT_CHINESE
    } else {
        COLOR_ACCENT_ENGLISH
    };
    PopupContent {
        main_text: String::from_str(
            if paused {
                "已暂停"
            } else {
                "监听中"
            },
        ),
        sub_text: sub,
        accent,
    }
}

/// The pop-up shown when a second copy of the program is started.
pub fn already_running_content() -> (r: PopupContent)
    ensures
        popup_is(r, "已在运行"@, "无需重复启动，请查看托盘区图标"@, COLOR_ACCENT_DEFAULT),
{
    popup("已在运行", "无需重复启动，请查看托盘区图标", COLOR_ACCENT_DEFAULT)
}

/// The pop-up shown at start-up.
pub fn started_content() -> (r: PopupContent)
    ensures
        popup_is(r, "已启动"@, "IdeaInputSwitch 正在后台运行"@, COLOR_ACCENT_CHINESE),
{
    popup("已启动", "IdeaInputSwitch 正在后台运行", COLOR_ACCENT_CHINESE)
}

/// Where the pop-up's top-left corner goes: the bottom-right corner of the
/// screen, inside the margin and above the task bar.
pub fn popup_position(screen_width: i32, screen_height: i32) -> (r: (i32, i32))
    requires
        screen_width - POPUP_WIDTH - POPUP_MARGIN >= i32::MIN,
        screen_height - POPUP_HEIGHT - POPUP_MARGIN - 48 >= i32::MIN,
    ensures
        r.0 == screen_width - POPUP_WIDTH - POPUP_MARGIN,
        r.1 == screen_height - POPUP_HEIGHT - POPUP_MARGIN - 48,
{
    (screen_width - POPUP_WIDTH - POPUP_MARGIN, screen_height - POPUP_HEIGHT - POPUP_MARGIN - 48)
}

/// The mode words of the status pop-up: 中文, 英文 and 未知.
pub proof fn lemma_mode_labels()
    ensures
        spec_mode_label(ImeMode::Chinese) == "中文"@,
        spec_mode_label(ImeMode::English) == "英文"@,
        spec_mode_label(ImeMode::Unknown) == "未知"@,
{
}

/// A pop-up is the given one exactly when its title, its detail line and its
/// accent colour are those given.
pub proof fn lemma_popup_is_fields(p: PopupContent, main: Seq<char>, sub: Seq<char>, accent: u32)
    ensures
        popup_is(p, main, sub, accent) == (p.main_text@ == main && p.sub_text@ == sub && p.accent
            == accent),
{
}

} // verus!

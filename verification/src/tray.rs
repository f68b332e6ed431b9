//! What the tray icon shows: its tooltip, which stock icon stands for the
//! state, the context menu's labels, and what a click on the icon asks for.
use vstd::prelude::*;

use crate::ime::{ImeMode, InputMethod};

verus! {

/// The message the tray icon sends to the hidden window (`WM_APP + 10`).
pub const WM_TRAYICON: u32 = 0x8000 + 10;
pub const TRAY_UID: u32 = 1;
pub const WM_CONTEXTMENU: u32 = 0x007B;
pub const WM_LBUTTONUP: u32 = 0x0202;
pub const WM_RBUTTONUP: u32 = 0x0205;

pub open spec fn spec_tooltip(mode: ImeMode, paused: bool) -> Seq<char> {
    if paused {
        "IdeaInputSwitch: 已暂停"@
    } else {
        match mode {
            ImeMode::Chinese => "IdeaInputSwitch: 中文输入"@,
            ImeMode::English => "IdeaInputSwitch: 英文输入"@,
            ImeMode::Unknown => "IdeaInputSwitch: 状态未知"@,
        }
    }
}

/// The tray icon's tooltip: the pause state when paused, the mode otherwise.
pub fn tooltip(mode: ImeMode, paused: bool) -> (r: String)
    ensures
        r@ == spec_tooltip(mode, paused),
{
    if paused {
        String::from_str("IdeaInputSwitch: 已暂停")
    } else {
        match mode {
            ImeMode::Chinese => String::from_str("IdeaInputSwitch: 中文输入"),
            ImeMode::English => String::from_str("IdeaInputSwitch: 英文输入"),
            ImeMode::Unknown => String::from_str("IdeaInputSwitch: 状态未知"),
        }
    }
}

/// While paused, the tooltip says so whatever the mode. While listening, it
/// names the mode, a different text for each mode and none of them the
/// paused one.
pub proof fn lemma_tooltip_shows_pause_or_mode(mode: ImeMode, other: ImeMode)
    ensures
        spec_tooltip(mode, true) == "IdeaInputSwitch: 已暂停"@,
        spec_tooltip(ImeMode::Chinese, false) == "IdeaInputSwitch: 中文输入"@,
        spec_tooltip(ImeMode::English, false) == "IdeaInputSwitch: 英文输入"@,
        spec_tooltip(ImeMode::Unknown, false) == "IdeaInputSwitch: 状态未知"@,
        mode != other ==> spec_tooltip(mode, false) != spec_tooltip(other, false),
        spec_tooltip(mode, false) != spec_tooltip(other, true),
{
    reveal_strlit("IdeaInputSwitch: 已暂停");
    reveal_strlit("IdeaInputSwitch: 中文输入");
    reveal_strlit("IdeaInputSwitch: 英文输入");
    reveal_strlit("IdeaInputSwitch: 状态未知");
    let p = "IdeaInputSwitch: 已暂停"@;
    let c = "IdeaInputSwitch: 中文输入"@;
    let e = "IdeaInputSwitch: 英文输入"@;
    let u = "IdeaInputSwitch: 状态未知"@;
    assert(p[17] != c[17] && p[17] != e[17] && p[17] != u[17]);
    assert(c[17] != e[17] && c[17] != u[17] && e[17] != u[17]);
}

/// The stock icons the tray falls back on when the program has no icon of its
/// own.
#[derive(Clone, Copy, Debug, PartialEq, Eq, Structural)]
pub enum StockIcon {
    Error,
    Warning,
    Information,
    Application,
}

/// The stock icon for a state: error while paused, warning for Chinese,
/// information for English, the application icon when the mode is unknown.
pub fn status_stock_icon(mode: ImeMode, paused: bool) -> (r: StockIcon)
    ensures
        r == (if paused {
            StockIcon::Error
        } else {
            match mode {
                ImeMode::Chinese => StockIcon::Warning,
                ImeMode::English => StockIcon::Information,
                ImeMode::Unknown => StockIcon::Application,
            }
        }),
{
    if paused {
        return StockIcon::Error;
    }
    match mode {
        ImeMode::Chinese => StockIcon::Warning,
        ImeMode::English => StockIcon::Information,
        ImeMode::Unknown => StockIcon::Application,
    }
}

/// What a notification from the tray icon asks for.
#[derive(Clone, Copy, Debug, PartialEq, Eq, Structural)]
pub enum TrayAction {
    ShowMenu,
    ShowStatus,
    Nothing,
}

/// A right click (or the context-menu key) opens the menu, a left click shows
/// the status; the mouse message is the low 32 bits of the parameter.
pub fn tray_callback_action(lparam: isize) -> (r: TrayAction)
    ensures
        r == (if lparam as u32 == WM_RBUTTONUP || lparam as u32 == WM_CONTEXTMENU {
            TrayAction::ShowMenu
        } else if lparam as u32 == WM_LBUTTONUP {
            TrayAction::ShowStatus
        } else {
            TrayAction::Nothing
        }),
{
    let message = lparam as u32;
    if message == WM_RBUTTONUP || message == WM_CONTEXTMENU {
        TrayAction::ShowMenu
    } else if message == WM_LBUTTONUP {
        TrayAction::ShowStatus
    } else {
        TrayAction::Nothing
    }
}

/// `s` mentions 中文 ("Chinese").
pub open spec fn mentions_chinese(s: Seq<char>) -> bool {
    exists|i: int| 0 <= i && i + 1 < s.len() && #[trigger] s[i] == '中' && s[i + 1] == '文'
}

/// Whether a balloon notification gets the warning icon rather than the
/// information icon: it does when its message mentions 中文.
pub fn balloon_is_warning(message: &str) -> (r: bool)
    ensures
        r == mentions_chinese(message@),
{
    let chars = crate::text::str_chars(message);
    let mut i: usize = 0;
    while i < chars.len() && i + 1 < chars.len()
        invariant
            chars@ == message@,
            forall|j: int| 0 <= j < i && j + 1 < chars@.len() ==> !(#[trigger] chars@[j] == '中'
                && chars@[j + 1] == '文'),
        decreases chars.len() - i,
    {
        if chars[i] == '中' && chars[i + 1] == '文' {
            return true;
        }
        i = i + 1;
    }
    false
}

/// The texts and check marks of the context menu.
pub struct MenuLabels {
    pub state_label: String,
    pub pause_label: &'static str,
    pub autostart_label: &'static str,
    pub sogou_checked: bool,
    pub microsoft_checked: bool,
}

pub open spec fn spec_state_label(
    mode: ImeMode,
    paused: bool,
    input_method: InputMethod,
) -> Seq<char> {
    "状态: "@ + (if paused {
        "已暂停"@
    } else {
        "运行中"@
    }) + " / "@ + (match mode {
        ImeMode::Chinese => "中文"@,
        ImeMode::English => "英文"@,
        ImeMode::Unknown => "未知"@,
    }) + " / "@ + input_method.spec_label()
}

/// The context menu for a state: a status line, a pause or resume item, an
/// autostart item offering the opposite of the current setting, and the
/// input method choice with the current one checked.
pub fn context_menu_labels(
    mode: ImeMode,
    paused: bool,
    autostart_enabled: bool,
    input_method: InputMethod,
) -> (r: MenuLabels)
    ensures
        r.state_label@ == spec_state_label(mode, paused, input_method),
        r.pause_label@ == (if paused {
            "恢复监听"@
        } else {
            "暂停监听"@
        }),
        r.autostart_label@ == (if autostart_enabled {
            "关闭开机自启"@
        } else {
            "开启开机自启"@
        }),
        r.sogou_checked == (input_method == InputMethod::Sogou),
        r.microsoft_checked == (input_method == InputMethod::Microsoft),
{
    let mut state_label = String::from_str("状态: ");
    state_label.append(
        if paused {
            "已暂停"
        } else {
            "运行中"
        },
    );
    state_label.append(" / ");
    state_label.append(
        match mode {
            ImeMode::Chinese => "中文",
            ImeMode::English => "英文",
            ImeMode::Unknown => "未知",
        },
    );
    state_label.append(" / ");
    state_label.append(input_method.label());
    MenuLabels {
        state_label,
        pause_label: if paused {
            "恢复监听"
        } else {
            "暂停监听"
        },
        autostart_label: if autostart_enabled {
            "关闭开机自启"
        } else {
            "开启开机自启"
        },
        sogou_checked: input_method == InputMethod::Sogou,
        microsoft_checked: input_method == InputMethod::Microsoft,
    }
}

/// The menu's status line names the pause state (已暂停 or 运行中), the mode
/// (中文, 英文 or 未知) and the input method's name, separated by ` / `.
pub proof fn lemma_state_label_parts(mode: ImeMode, paused: bool, input_method: InputMethod)
    ensures
        spec_state_label(mode, paused, input_method) == "状态: "@ + (if paused {
            "已暂停"@
        } else {
            "运行中"@
        }) + " / "@ + (if mode == ImeMode::Chinese {
            "中文"@
        } else if mode == ImeMode::English {
            "英文"@
        } else {
            "未知"@
        }) + " / "@ + (if input_method == InputMethod::Sogou {
            "搜狗输入法"@
        } else {
            "微软拼音"@
        }),
{
}

/// A text mentions 中文 exactly when those two characters stand next to each
/// other somewhere in it: putting text before or after keeps a mention, and
/// a text without the character 中 has none.
pub proof fn lemma_mentions_chinese(a: Seq<char>, b: Seq<char>)
    ensures
        mentions_chinese(a + seq!['中', '文'] + b),
        mentions_chinese(b) ==> mentions_chinese(a + b),
        (forall|i: int| 0 <= i < b.len() ==> b[i] != '中') ==> !mentions_chinese(b),
{
    let s = a + seq!['中', '文'] + b;
    assert(s[a.len() as int] == '中' && s[a.len() + 1int] == '文');
    if mentions_chinese(b) {
        let i = choose|i: int| 0 <= i && i + 1 < b.len() && #[trigger] b[i] == '中' && b[i + 1] == '文';
        assert((a + b)[a.len() + i] == '中');
        assert((a + b)[a.len() + i + 1] == '文');
    }
}

} // verus!

//! Character aliases: key bindings that type a chosen text, their display
//! names, the rules that decide which bindings may be used, and the editing
//! operations of the alias window.
use vstd::prelude::*;

use crate::text::{all_whitespace, decimal, is_whitespace, push_char, push_decimal, str_chars};

verus! {

/// Which modifier keys are held.
#[derive(Clone, Copy, Debug, PartialEq, Eq, Structural)]
pub struct KeyModifiers {
    pub ctrl: bool,
    pub alt: bool,
    pub shift: bool,
}

/// A virtual-key code together with the modifiers held with it.
#[derive(Clone, Copy, Debug, PartialEq, Eq, Structural)]
pub struct KeyBinding {
    pub vk_code: u16,
    pub modifiers: KeyModifiers,
}

/// A rule: pressing `trigger` types `output`.
#[derive(Clone, Debug, PartialEq, Eq)]
pub struct CharacterAlias {
    pub trigger: KeyBinding,
    pub output: String,
}

/// The mathematical value of a [`CharacterAlias`].
pub struct CharacterAliasView {
    pub trigger: KeyBinding,
    pub output: Seq<char>,
}

impl View for CharacterAlias {
    type V = CharacterAliasView;

    open spec fn view(&self) -> CharacterAliasView {
        CharacterAliasView { trigger: self.trigger, output: self.output@ }
    }
}

/// The values of a sequence of aliases.
pub open spec fn alias_views(s: Seq<CharacterAlias>) -> Seq<CharacterAliasView> {
    s.map_values(|a: CharacterAlias| a@)
}

impl Default for KeyModifiers {
    fn default() -> (r: Self)
        ensures
            r == no_modifiers(),
    {
        KeyModifiers { ctrl: false, alt: false, shift: false }
    }
}

pub open spec fn no_modifiers() -> KeyModifiers {
    KeyModifiers { ctrl: false, alt: false, shift: false }
}

pub open spec fn shift_only() -> KeyModifiers {
    KeyModifiers { ctrl: false, alt: false, shift: true }
}

/// Whether a held key is one of the nine Ctrl, Alt and Shift keys.
pub open spec fn spec_is_modifier_vk(vk: u16) -> bool {
    vk == 0x10 || vk == 0xA0 || vk == 0xA1 || vk == 0x11 || vk == 0xA2 || vk == 0xA3 || vk == 0x12
        || vk == 0xA4 || vk == 0xA5
}

/// Whether `vk_code` is a Ctrl, Alt or Shift key (either side, or generic).
pub fn is_modifier_vk(vk_code: u16) -> (r: bool)
    ensures
        r == spec_is_modifier_vk(vk_code),
{
    vk_code == 0x10 || vk_code == 0xA0 || vk_code == 0xA1 || vk_code == 0x11 || vk_code == 0xA2
        || vk_code == 0xA3 || vk_code == 0x12 || vk_code == 0xA4 || vk_code == 0xA5
}

/// The down state of the nine modifier keys, as read from the keyboard.
#[derive(Clone, Copy, Debug, PartialEq, Eq, Structural)]
pub struct ModifierKeyStates {
    pub control: bool,
    pub left_control: bool,
    pub right_control: bool,
    pub menu: bool,
    pub left_menu: bool,
    pub right_menu: bool,
    pub shift: bool,
    pub left_shift: bool,
    pub right_shift: bool,
}

/// Whether a `GetAsyncKeyState` reply says that the key is down: its most
/// significant bit is set, that is, the reply is negative.
pub fn key_down(async_state: i16) -> (r: bool)
    ensures
        r == (async_state < 0),
{
    let bits = async_state as u16;
    assert((bits & 0x8000u16 != 0) == (async_state < 0)) by (bit_vector)
        requires
            bits == async_state as u16,
    ;
    (bits & 0x8000) != 0
}

/// The modifiers held: each counts as held when its generic, left or right key
/// is down.
pub fn current_modifiers(keys: ModifierKeyStates) -> (r: KeyModifiers)
    ensures
        r.ctrl == (keys.control || keys.left_control || keys.right_control),
        r.alt == (keys.menu || keys.left_menu || keys.right_menu),
        r.shift == (keys.shift || keys.left_shift || keys.right_shift),
{
    KeyModifiers {
        ctrl: keys.control || keys.left_control || keys.right_control,
        alt: keys.menu || keys.left_menu || keys.right_menu,
        shift: keys.shift || keys.left_shift || keys.right_shift,
    }
}

/// The binding that pressing `vk_code` with `modifiers` held makes; a modifier
/// key pressed on its own makes none.
pub fn binding_from_current_keyboard(vk_code: u16, modifiers: KeyModifiers) -> (r: Option<
    KeyBinding,
>)
    ensures
        r == (if spec_is_modifier_vk(vk_code) {
            None
        } else {
            Some(KeyBinding { vk_code, modifiers })
        }),
{
    if is_modifier_vk(vk_code) {
        return None;
    }
    Some(KeyBinding { vk_code, modifiers })
}

/// Whether pressing `vk_code` with `modifiers` held is `binding`.
pub fn binding_matches(binding: KeyBinding, vk_code: u16, modifiers: KeyModifiers) -> (r: bool)
    ensures
        r == (binding.vk_code == vk_code && binding.modifiers == modifiers),
{
    binding.vk_code == vk_code && binding.modifiers == modifiers
}

/// The display name of a virtual key.
pub open spec fn spec_key_name(vk: u16) -> Seq<char> {
    if vk == 0x08 {
        "Backspace"@
    } else if vk == 0x09 {
        "Tab"@
    } else if vk == 0x0D {
        "Enter"@
    } else if vk == 0x1B {
        "Esc"@
    } else if vk == 0x20 {
        "Space"@
    } else if vk == 0x21 {
        "PageUp"@
    } else if vk == 0x22 {
        "PageDown"@
    } else if vk == 0x23 {
        "End"@
    } else if vk == 0x24 {
        "Home"@
    } else if vk == 0x25 {
        "Left"@
    } else if vk == 0x26 {
        "Up"@
    } else if vk == 0x27 {
        "Right"@
    } else if vk == 0x28 {
        "Down"@
    } else if vk == 0x2D {
        "Insert"@
    } else if vk == 0x2E {
        "Delete"@
    } else if (0x30 <= vk <= 0x39) || (0x41 <= vk <= 0x5A) {
        seq![(vk as u32) as char]
    } else if 0x70 <= vk <= 0x87 {
        "F"@ + decimal((vk - 0x6F) as nat)
    } else if vk == 0xBA {
        ";"@
    } else if vk == 0xBB {
        "="@
    } else if vk == 0xBC {
        ","@
    } else if vk == 0xBD {
        "-"@
    } else if vk == 0xBE {
        "."@
    } else if vk == 0xBF {
        "/"@
    } else if vk == 0xC0 {
        "`"@
    } else if vk == 0xDB {
        "["@
    } else if vk == 0xDC {
        "\\"@
    } else if vk == 0xDD {
        "]"@
    } else if vk == 0xDE {
        "'"@
    } else {
        "VK "@ + decimal(vk as nat)
    }
}

/// The display name of a virtual key: named keys, digits and letters,
/// function keys, punctuation, and `VK <code>` for the rest.
pub fn key_name(vk_code: u16) -> (r: String)
    ensures
        r@ == spec_key_name(vk_code),
{
    let fixed: Option<&'static str> = if vk_code == 0x08 {
        Some("Backspace")
    } else if vk_code == 0x09 {
        Some("Tab")
    } else if vk_code == 0x0D {
        Some("Enter")
    } else if vk_code == 0x1B {
        Some("Esc")
    } else if vk_code == 0x20 {
        Some("Space")
    } else if vk_code == 0x21 {
        Some("PageUp")
    } else if vk_code == 0x22 {
        Some("PageDown")
    } else if vk_code == 0x23 {
        Some("End")
    } else if vk_code == 0x24 {
        Some("Home")
    } else if vk_code == 0x25 {
        Some("Left")
    } else if vk_code == 0x26 {
        Some("Up")
    } else if vk_code == 0x27 {
        Some("Right")
    } else if vk_code == 0x28 {
        Some("Down")
    } else if vk_code == 0x2D {
        Some("Insert")
    } else if vk_code == 0x2E {
        Some("Delete")
    } else {
        None
    };
    if let Some(name) = fixed {
        return String::from_str(name);
    }
    if (0x30 <= vk_code && vk_code <= 0x39) || (0x41 <= vk_code && vk_code <= 0x5A) {
        let mut s = String::new();
        push_char(&mut s, (vk_code as u8) as char);
        assert(s@ =~= spec_key_name(vk_code));
        return s;
    }
    if 0x70 <= vk_code && vk_code <= 0x87 {
        let mut s = String::from_str("F");
        push_decimal(&mut s, (vk_code - 0x6F) as u64);
        return s;
    }
    let punctuation: Option<&'static str> = if vk_code == 0xBA {
        Some(";")
    } else if vk_code == 0xBB {
        Some("=")
    } else if vk_code == 0xBC {
        Some(",")
    } else if vk_code == 0xBD {
        Some("-")
    } else if vk_code == 0xBE {
        Some(".")
    } else if vk_code == 0xBF {
        Some("/")
    } else if vk_code == 0xC0 {
        Some("`")
    } else if vk_code == 0xDB {
        Some("[")
    } else if vk_code == 0xDC {
        Some("\\")
    } else if vk_code == 0xDD {
        Some("]")
    } else if vk_code == 0xDE {
        Some("'")
    } else {
        None
    };
    match punctuation {
        Some(name) => String::from_str(name),
        None => {
            let mut s = String::from_str("VK ");
            push_decimal(&mut s, vk_code as u64);
            s
        },
    }
}

/// How a binding is shown: the held modifiers in the order Ctrl, Alt, Shift,
/// then the key, joined by `+`.
pub open spec fn spec_display_binding(b: KeyBinding) -> Seq<char> {
    (if b.modifiers.ctrl {
        "Ctrl+"@
    } else {
        Seq::<char>::empty()
    }) + (if b.modifiers.alt {
        "Alt+"@
    } else {
        Seq::<char>::empty()
    }) + (if b.modifiers.shift {
        "Shift+"@
    } else {
        Seq::<char>::empty()
    }) + spec_key_name(b.vk_code)
}

/// The text shown for a binding, such as `Ctrl+Shift+A`.
pub fn display_binding(binding: KeyBinding) -> (r: String)
    ensures
        r@ == spec_display_binding(binding),
{
    let mut s = String::new();
    if binding.modifiers.ctrl {
        s.append("Ctrl+");
    }
    if binding.modifiers.alt {
        s.append("Alt+");
    }
    if binding.modifiers.shift {
        s.append("Shift+");
    }
    let name = key_name(binding.vk_code);
    s.append(name.as_str());
    assert(s@ =~= spec_display_binding(binding));
    s
}

/// The names keys are shown by: the editing and navigation keys by their
/// names, digits and letters by the character they carry, F1 to F24 as `F`
/// and the number, the OEM punctuation keys by the character they type on a
/// US layout, anything else as `VK` and its code in decimal.
pub proof fn lemma_key_names(vk: u16)
    ensures
        spec_key_name(0x08) == "Backspace"@,
        spec_key_name(0x09) == "Tab"@,
        spec_key_name(0x0D) == "Enter"@,
        spec_key_name(0x1B) == "Esc"@,
        spec_key_name(0x20) == "Space"@,
        spec_key_name(0x21) == "PageUp"@,
        spec_key_name(0x22) == "PageDown"@,
        spec_key_name(0x23) == "End"@,
        spec_key_name(0x24) == "Home"@,
        spec_key_name(0x25) == "Left"@,
        spec_key_name(0x26) == "Up"@,
        spec_key_name(0x27) == "Right"@,
        spec_key_name(0x28) == "Down"@,
        spec_key_name(0x2D) == "Insert"@,
        spec_key_name(0x2E) == "Delete"@,
        spec_key_name(0xBA) == ";"@,
        spec_key_name(0xBB) == "="@,
        spec_key_name(0xBC) == ","@,
        spec_key_name(0xBD) == "-"@,
        spec_key_name(0xBE) == "."@,
        spec_key_name(0xBF) == "/"@,
        spec_key_name(0xC0) == "`"@,
        spec_key_name(0xDB) == "["@,
        spec_key_name(0xDC) == "\\"@,
        spec_key_name(0xDD) == "]"@,
        spec_key_name(0xDE) == "'"@,
        (0x30 <= vk <= 0x39) || (0x41 <= vk <= 0x5A) ==> spec_key_name(vk).len() == 1
            && spec_key_name(vk)[0] as u32 == vk as u32,
        0x70 <= vk <= 0x87 ==> spec_key_name(vk) == "F"@ + decimal((vk - 0x6F) as nat),
        !((0x30 <= vk <= 0x39) || (0x41 <= vk <= 0x5A) || (0x70 <= vk <= 0x87)) && !(vk == 0x08
            || vk == 0x09 || vk == 0x0D || vk == 0x1B || (0x20 <= vk <= 0x28) || vk == 0x2D || vk
            == 0x2E || (0xBA <= vk <= 0xC0) || (0xDB <= vk <= 0xDE)) ==> spec_key_name(vk)
            == "VK "@ + decimal(vk as nat),
{
    if (0x30 <= vk <= 0x39) || (0x41 <= vk <= 0x5A) {
        assert((((vk as u32) as char) as u32) == vk as u32);
    }
}

/// A binding is shown as its modifiers, each followed by `+`, in the order
/// Ctrl, Alt, Shift, and then the key's name.
pub proof fn lemma_display_binding_parts(b: KeyBinding)
    ensures
        spec_display_binding(b) == (if b.modifiers.ctrl {
            "Ctrl+"@
        } else {
            seq![]
        }) + (if b.modifiers.alt {
            "Alt+"@
        } else {
            seq![]
        }) + (if b.modifiers.shift {
            "Shift+"@
        } else {
            seq![]
        }) + spec_key_name(b.vk_code),
{
}

/// The bit word that carries modifiers in a window message.
pub open spec fn spec_encode_modifiers(m: KeyModifiers) -> u32 {
    (if m.ctrl {
        1u32
    } else {
        0u32
    }) | ((if m.alt {
        1u32
    } else {
        0u32
    }) << 1u32) | ((if m.shift {
        1u32
    } else {
        0u32
    }) << 2u32)
}

/// Packs modifiers into bits 0 (Ctrl), 1 (Alt) and 2 (Shift).
pub fn encode_modifiers(modifiers: KeyModifiers) -> (r: u32)
    ensures
        r == spec_encode_modifiers(modifiers),
{
    let c: u32 = if modifiers.ctrl {
        1
    } else {
        0
    };
    let a: u32 = if modifiers.alt {
        1
    } else {
        0
    };
    let s: u32 = if modifiers.shift {
        1
    } else {
        0
    };
    c | (a << 1u32) | (s << 2u32)
}

/// Unpacks modifiers from bits 0 (Ctrl), 1 (Alt) and 2 (Shift).
pub fn decode_modifiers(value: u32) -> (r: KeyModifiers)
    ensures
        r == (KeyModifiers { ctrl: value & 1 != 0, alt: value & 2 != 0, shift: value & 4 != 0 }),
{
    KeyModifiers { ctrl: value & 1 != 0, alt: value & 2 != 0, shift: value & 4 != 0 }
}

proof fn lemma_modifier_bits(a: u32, b: u32, c: u32)
    by (bit_vector)
    requires
        a <= 1,
        b <= 1,
        c <= 1,
    ensures
        ((a | (b << 1u32) | (c << 2u32)) & 1 != 0) == (a == 1),
        ((a | (b << 1u32) | (c << 2u32)) & 2 != 0) == (b == 1),
        ((a | (b << 1u32) | (c << 2u32)) & 4 != 0) == (c == 1),
{
}

/// Decoding the word that encoding made gives back the same modifiers.
pub proof fn lemma_modifiers_round_trip(m: KeyModifiers)
    ensures
        ({
            let v = spec_encode_modifiers(m);
            (KeyModifiers { ctrl: v & 1 != 0, alt: v & 2 != 0, shift: v & 4 != 0 }) == m
        }),
{
    let a: u32 = if m.ctrl {
        1
    } else {
        0
    };
    let b: u32 = if m.alt {
        1
    } else {
        0
    };
    let c: u32 = if m.shift {
        1
    } else {
        0
    };
    lemma_modifier_bits(a, b, c);
}

/// The low 16 bits of a message parameter.
pub fn low_word(value: usize) -> (r: u16)
    ensures
        r == value % 0x10000,
{
    let w = value & 0xffff;
    assert(w == value % 0x10000) by (bit_vector)
        requires
            w == value & 0xffff,
    ;
    w as u16
}

/// Bits 16 to 31 of a message parameter.
pub fn high_word(value: usize) -> (r: u16)
    ensures
        r == (value / 0x10000) % 0x10000,
{
    let w = (value >> 16) & 0xffff;
    assert(w == (value / 0x10000) % 0x10000) by (bit_vector)
        requires
            w == (value >> 16) & 0xffff,
    ;
    w as u16
}

/// A 32-bit message parameter is its high word times 0x10000 plus its low
/// word, so the two words carry it whole.
pub proof fn lemma_words_recombine(value: usize)
    requires
        value < 0x1_0000_0000,
    ensures
        value == ((value / 0x10000) % 0x10000) * 0x10000 + value % 0x10000,
{
    assert((value / 0x10000) % 0x10000 == value / 0x10000);
}

// ───────────────────────── the alias window's controls ─────────────────────────

pub const ID_LIST: usize = 2001;
pub const ID_TRIGGER_EDIT: usize = 2002;
pub const ID_OUTPUT_EDIT: usize = 2003;
pub const ID_ADD: usize = 2004;
pub const ID_SAVE: usize = 2005;
pub const ID_DELETE: usize = 2006;
pub const ID_CHARMAP: usize = 2007;
pub const ID_STATUS: usize = 2008;
pub const ID_COMMON_START: usize = 2100;
/// How many quick-insert characters the window offers.
pub const COMMON_CHAR_COUNT: usize = 10;
/// `EN_SETFOCUS`: an edit control received the focus.
pub const EN_SETFOCUS: u16 = 0x0100;
/// `LBN_SELCHANGE`: the list box selection changed.
pub const LBN_SELCHANGE: u16 = 1;
/// The list-box reply meaning that nothing is selected.
pub const LB_ERR: isize = -1;

pub open spec fn spec_common_char(index: usize) -> Seq<char> {
    if index == 0 {
        "、"@
    } else if index == 1 {
        "。"@
    } else if index == 2 {
        "「"@
    } else if index == 3 {
        "」"@
    } else if index == 4 {
        "『"@
    } else if index == 5 {
        "』"@
    } else if index == 6 {
        "·"@
    } else if index == 7 {
        "￥"@
    } else if index == 8 {
        "…"@
    } else {
        "—"@
    }
}

/// The quick-insert character at `index`.
pub fn common_char(index: usize) -> (r: &'static str)
    requires
        index < COMMON_CHAR_COUNT,
    ensures
        r@ == spec_common_char(index),
{
    if index == 0 {
        "、"
    } else if index == 1 {
        "。"
    } else if index == 2 {
        "「"
    } else if index == 3 {
        "」"
    } else if index == 4 {
        "『"
    } else if index == 5 {
        "』"
    } else if index == 6 {
        "·"
    } else if index == 7 {
        "￥"
    } else if index == 8 {
        "…"
    } else {
        "—"
    }
}

pub open spec fn is_common_char_id(id: usize) -> bool {
    ID_COMMON_START <= id < ID_COMMON_START + COMMON_CHAR_COUNT
}

pub open spec fn spec_button_label(id: usize) -> Option<Seq<char>> {
    if id == ID_ADD {
        Some("新增规则"@)
    } else if id == ID_SAVE {
        Some("保存"@)
    } else if id == ID_DELETE {
        Some("删除"@)
    } else if id == ID_CHARMAP {
        Some("字符表..."@)
    } else if is_common_char_id(id) {
        Some(spec_common_char((id - ID_COMMON_START) as usize))
    } else {
        None
    }
}

/// The caption of an owner-drawn button, if `id` is one.
pub fn button_label(id: usize) -> (r: Option<&'static str>)
    ensures
        r is Some == spec_button_label(id) is Some,
        r matches Some(label) ==> spec_button_label(id) == Some(label@),
{
    if id == ID_ADD {
        Some("新增规则")
    } else if id == ID_SAVE {
        Some("保存")
    } else if id == ID_DELETE {
        Some("删除")
    } else if id == ID_CHARMAP {
        Some("字符表...")
    } else if ID_COMMON_START <= id && id < ID_COMMON_START + COMMON_CHAR_COUNT {
        Some(common_char(id - ID_COMMON_START))
    } else {
        None
    }
}

pub const COLOR_PRIMARY: u32 = 0x00FF7A00;
pub const COLOR_PRIMARY_PRESSED: u32 = 0x00D86A00;
pub const COLOR_BUTTON: u32 = 0x00F4F4F6;
pub const COLOR_BUTTON_PRESSED: u32 = 0x00E7E7EA;
pub const COLOR_BUTTON_BORDER: u32 = 0x00DADADF;
pub const COLOR_TEXT: u32 = 0x00231F20;
pub const COLOR_TEXT_DISABLED: u32 = 0x00A9A9AF;
pub const COLOR_TEXT_ON_PRIMARY: u32 = 0x00FFFFFF;

/// How an owner-drawn button is painted.
#[derive(Clone, Copy, Debug, PartialEq, Eq)]
pub struct ButtonStyle {
    pub label: &'static str,
    pub fill: u32,
    pub border: u32,
    pub text_color: u32,
    pub corner_radius: i32,
    pub font_height: i32,
    /// How far the face moves right and down while pressed.
    pub press_offset: i32,
}

/// The look of button `id` in the given state: the add button is the primary
/// (orange) one, quick-insert buttons are smaller chips, a pressed button is
/// darker and shifted by one pixel, a disabled one has grey text.
pub fn button_style(id: usize, pressed: bool, disabled: bool) -> (r: Option<ButtonStyle>)
    ensures
        r is Some == spec_button_label(id) is Some,
        r matches Some(style) ==> {
            let primary = id == ID_ADD;
            let chip = is_common_char_id(id);
            &&& spec_button_label(id) == Some(style.label@)
            &&& style.fill == (if primary {
                if pressed {
                    COLOR_PRIMARY_PRESSED
                } else {
                    COLOR_PRIMARY
                }
            } else if pressed {
                COLOR_BUTTON_PRESSED
            } else {
                COLOR_BUTTON
            })
            &&& style.border == (if primary {
                COLOR_PRIMARY
            } else {
                COLOR_BUTTON_BORDER
            })
            &&& style.text_color == (if disabled {
                COLOR_TEXT_DISABLED
            } else if primary {
                COLOR_TEXT_ON_PRIMARY
            } else {
                COLOR_TEXT
            })
            &&& style.corner_radius == (if chip {
                10i32
            } else {
                14i32
            })
            &&& style.font_height == (if chip {
                16i32
            } else {
                15i32
            })
            &&& style.press_offset == (if pressed {
                1i32
            } else {
                0i32
            })
        },
{
    let label = match button_label(id) {
        Some(label) => label,
        None => return None,
    };
    let primary = id == ID_ADD;
    let chip = ID_COMMON_START <= id && id < ID_COMMON_START + COMMON_CHAR_COUNT;
    let fill = if primary {
        if pressed {
            COLOR_PRIMARY_PRESSED
        } else {
            COLOR_PRIMARY
        }
    } else if pressed {
        COLOR_BUTTON_PRESSED
    } else {
        COLOR_BUTTON
    };
    let border = if primary {
        COLOR_PRIMARY
    } else {
        COLOR_BUTTON_BORDER
    };
    let text_color = if disabled {
        COLOR_TEXT_DISABLED
    } else if primary {
        COLOR_TEXT_ON_PRIMARY
    } else {
        COLOR_TEXT
    };
    Some(
        ButtonStyle {
            label,
            fill,
            border,
            text_color,
            corner_radius: if chip {
                10
            } else {
                14
            },
            font_height: if chip {
                16
            } else {
                15
            },
            press_offset: if pressed {
                1
            } else {
                0
            },
        },
    )
}

/// Where the quick-insert button `index` stands: five to a row, 42 pixels
/// apart across and 34 down.
pub fn chip_position(index: usize) -> (r: (i32, i32))
    requires
        index < COMMON_CHAR_COUNT,
    ensures
        r.0 == 410 + (index % 5) * 42,
        r.1 == 334 + (index / 5) * 34,
{
    let i = index as i32;
    (410 + (i % 5) * 42, 334 + (i / 5) * 34)
}

pub const WINDOW_WIDTH: i32 = 760;
pub const WINDOW_HEIGHT: i32 = 560;

/// Where the alias window's top-left corner goes so that it is centred on the
/// screen, or at the screen's edge when the screen is smaller than the window.
pub fn centered_window_origin(screen_width: i32, screen_height: i32) -> (r: (i32, i32))
    requires
        screen_width - WINDOW_WIDTH >= i32::MIN,
        screen_height - WINDOW_HEIGHT >= i32::MIN,
    ensures
        r.0 == (if screen_width - WINDOW_WIDTH > 0 {
            screen_width - WINDOW_WIDTH
        } else {
            0
        }) / 2,
        r.1 == (if screen_height - WINDOW_HEIGHT > 0 {
            screen_height - WINDOW_HEIGHT
        } else {
            0
        }) / 2,
{
    let dx = screen_width - WINDOW_WIDTH;
    let dy = screen_height - WINDOW_HEIGHT;
    let x = if dx > 0 {
        dx
    } else {
        0
    };
    let y = if dy > 0 {
        dy
    } else {
        0
    };
    (x / 2, y / 2)
}

/// What a `WM_COMMAND` to the alias window asks for.
#[derive(Clone, Copy, Debug, PartialEq, Eq, Structural)]
pub enum AliasCommand {
    /// The trigger box got the focus: start recording a key.
    BeginCapture,
    /// The user picked another rule in the list.
    SelectionChanged,
    Add,
    Save,
    Delete,
    OpenCharacterMap,
    /// Put the quick-insert character with this index into the output box.
    InsertCommonChar(usize),
    Ignore,
}

pub open spec fn spec_classify_command(wparam: usize) -> AliasCommand {
    let id = (wparam % 0x10000) as usize;
    let notification = (wparam / 0x10000) % 0x10000;
    if id == ID_TRIGGER_EDIT && notification == EN_SETFOCUS {
        AliasCommand::BeginCapture
    } else if id == ID_LIST && notification == LBN_SELCHANGE {
        AliasCommand::SelectionChanged
    } else if id == ID_ADD {
        AliasCommand::Add
    } else if id == ID_SAVE {
        AliasCommand::Save
    } else if id == ID_DELETE {
        AliasCommand::Delete
    } else if id == ID_CHARMAP {
        AliasCommand::OpenCharacterMap
    } else if is_common_char_id(id) {
        AliasCommand::InsertCommonChar((id - ID_COMMON_START) as usize)
    } else {
        AliasCommand::Ignore
    }
}

/// Decodes the control id (low word) and notification code (high word) of a
/// `WM_COMMAND` parameter into what the window should do.
pub fn classify_command(wparam: usize) -> (r: AliasCommand)
    ensures
        r == spec_classify_command(wparam),
{
    let command_id = low_word(wparam) as usize;
    let notification = high_word(wparam);
    if command_id == ID_TRIGGER_EDIT && notification == EN_SETFOCUS {
        return AliasCommand::BeginCapture;
    }
    if command_id == ID_LIST && notification == LBN_SELCHANGE {
        return AliasCommand::SelectionChanged;
    }
    if command_id == ID_ADD {
        AliasCommand::Add
    } else if command_id == ID_SAVE {
        AliasCommand::Save
    } else if command_id == ID_DELETE {
        AliasCommand::Delete
    } else if command_id == ID_CHARMAP {
        AliasCommand::OpenCharacterMap
    } else if ID_COMMON_START <= command_id && command_id < ID_COMMON_START + COMMON_CHAR_COUNT {
        AliasCommand::InsertCommonChar(command_id - ID_COMMON_START)
    } else {
        AliasCommand::Ignore
    }
}

/// The modifier keys are Shift, Ctrl and Alt (0x10 to 0x12) and their left
/// and right keys (0xA0 to 0xA5); no other key is one.
pub proof fn lemma_modifier_keys(vk: u16)
    ensures
        spec_is_modifier_vk(vk) == ((0x10 <= vk <= 0x12) || (0xA0 <= vk <= 0xA5)),
{
}

/// The modifiers word is the sum of 1 for Ctrl, 2 for Alt and 4 for Shift.
pub proof fn lemma_encode_modifiers_sum(m: KeyModifiers)
    ensures
        spec_encode_modifiers(m) == (if m.ctrl {
            1int
        } else {
            0int
        }) + (if m.alt {
            2int
        } else {
            0int
        }) + (if m.shift {
            4int
        } else {
            0int
        }),
{
    let a: u32 = if m.ctrl {
        1
    } else {
        0
    };
    let b: u32 = if m.alt {
        1
    } else {
        0
    };
    let c: u32 = if m.shift {
        1
    } else {
        0
    };
    assert(a | (b << 1u32) | (c << 2u32) == a + 2 * b + 4 * c) by (bit_vector)
        requires
            a <= 1,
            b <= 1,
            c <= 1,
    ;
}

/// The quick-insert characters, in order: 、。「」『』·￥…—; the quick-insert
/// button `i` shows character `i`, and the four command buttons are captioned
/// 新增规则, 保存, 删除 and 字符表...; no other control has a caption.
pub proof fn lemma_button_captions(id: usize)
    ensures
        spec_common_char(0) == "、"@,
        spec_common_char(1) == "。"@,
        spec_common_char(2) == "「"@,
        spec_common_char(3) == "」"@,
        spec_common_char(4) == "『"@,
        spec_common_char(5) == "』"@,
        spec_common_char(6) == "·"@,
        spec_common_char(7) == "￥"@,
        spec_common_char(8) == "…"@,
        spec_common_char(9) == "—"@,
        spec_button_label(ID_ADD) == Some("新增规则"@),
        spec_button_label(ID_SAVE) == Some("保存"@),
        spec_button_label(ID_DELETE) == Some("删除"@),
        spec_button_label(ID_CHARMAP) == Some("字符表..."@),
        2100 <= id < 2110 ==> spec_button_label(id) == Some(spec_common_char((id - 2100) as usize)),
        !(2100 <= id < 2110 || 2004 <= id <= 2007) ==> spec_button_label(id) is None,
{
}

/// A `WM_COMMAND` parameter carries the control id in its low word and the
/// notification in its high word. Focus on the trigger box starts recording
/// and a selection change in the list loads a rule, other notifications of
/// those two are ignored; the four command buttons and the quick-insert
/// buttons act whatever the notification; any other control is ignored.
pub proof fn lemma_command_words(id: usize, notification: usize)
    requires
        id < 0x10000,
        notification < 0x10000,
    ensures
        ({
            let c = spec_classify_command((notification * 0x10000 + id) as usize);
            &&& id == 2002 ==> c == (if notification == 0x0100 {
                AliasCommand::BeginCapture
            } else {
                AliasCommand::Ignore
            })
            &&& id == 2001 ==> c == (if notification == 1 {
                AliasCommand::SelectionChanged
            } else {
                AliasCommand::Ignore
            })
            &&& id == 2004 ==> c == AliasCommand::Add
            &&& id == 2005 ==> c == AliasCommand::Save
            &&& id == 2006 ==> c == AliasCommand::Delete
            &&& id == 2007 ==> c == AliasCommand::OpenCharacterMap
            &&& 2100 <= id < 2110 ==> c == AliasCommand::InsertCommonChar((id - 2100) as usize)
            &&& !(2001 <= id <= 2002 || 2004 <= id <= 2007 || 2100 <= id < 2110) ==> c
                == AliasCommand::Ignore
        }),
{
    let w = notification * 0x10000 + id;
    assert(w % 0x10000 == id && (w / 0x10000) % 0x10000 == notification && w <= 0xFFFF_FFFF)
        by (nonlinear_arith)
        requires
            w == notification * 0x10000 + id,
            id < 0x10000,
            notification < 0x10000,
    ;
    assert(w as usize == w);
}

// ───────────────────────── which bindings may be used ─────────────────────────

/// Some alias other than the one at `ignore` already uses `trigger`.
pub open spec fn trigger_taken(
    aliases: Seq<CharacterAliasView>,
    ignore: Option<usize>,
    trigger: KeyBinding,
) -> bool {
    exists|i: int|
        0 <= i < aliases.len() && ignore != Some(i as usize) && (#[trigger] aliases[i]).trigger
            == trigger
}

/// Why `trigger` cannot be used, if it cannot: Enter, a plain `/` and `*`
/// (Shift+8 or the keypad key) belong to the built-in listeners, and no two
/// aliases share a trigger.
pub open spec fn spec_binding_conflict(
    aliases: Seq<CharacterAliasView>,
    ignore: Option<usize>,
    trigger: KeyBinding,
) -> Option<Seq<char>> {
    if trigger.vk_code == 0x0D {
        Some("Enter 已被内置注释换行监听占用。"@)
    } else if trigger.vk_code == 0xBF && trigger.modifiers == no_modifiers() {
        Some("/ 已被内置 // 监听占用。"@)
    } else if (trigger.vk_code == 0x38 && trigger.modifiers == shift_only()) || (trigger.vk_code
        == 0x6A && trigger.modifiers == no_modifiers()) {
        Some("* 已被内置 /** 监听占用。"@)
    } else if trigger_taken(aliases, ignore, trigger) {
        Some(spec_display_binding(trigger) + " 已被另一个字符别名占用。"@)
    } else {
        None
    }
}

/// The message that explains why `trigger` cannot be used, or `None` when it can.
pub fn binding_conflict(aliases: &[CharacterAlias], ignore_index: Option<usize>, trigger: KeyBinding) -> (r:
    Option<String>)
    ensures
        r is Some == spec_binding_conflict(alias_views(aliases@), ignore_index, trigger) is Some,
        r matches Some(m) ==> spec_binding_conflict(alias_views(aliases@), ignore_index, trigger)
            == Some(m@),
{
    if trigger.vk_code == 0x0D {
        return Some(String::from_str("Enter 已被内置注释换行监听占用。"));
    }
    let plain = KeyModifiers::default();
    if trigger.vk_code == 0xBF && trigger.modifiers == plain {
        return Some(String::from_str("/ 已被内置 // 监听占用。"));
    }
    let plain_shift = KeyModifiers { shift: true, ..KeyModifiers::default() };
    if (trigger.vk_code == 0x38 && trigger.modifiers == plain_shift) || (trigger.vk_code == 0x6A
        && trigger.modifiers == plain) {
        return Some(String::from_str("* 已被内置 /** 监听占用。"));
    }
    let ghost views = alias_views(aliases@);
    let mut index: usize = 0;
    while index < aliases.len()
        invariant
            index <= aliases.len(),
            views == alias_views(aliases@),
            trigger.vk_code != 0x0D,
            !(trigger.vk_code == 0xBF && trigger.modifiers == no_modifiers()),
            !((trigger.vk_code == 0x38 && trigger.modifiers == shift_only()) || (trigger.vk_code
                == 0x6A && trigger.modifiers == no_modifiers())),
            forall|j: int|
                0 <= j < index ==> !(ignore_index != Some(j as usize) && #[trigger] views[j].trigger
                    == trigger),
        decreases aliases.len() - index,
    {
        let skip = match ignore_index {
            Some(i) => i == index,
            None => false,
        };
        if !skip && aliases[index].trigger == trigger {
            assert(views[index as int].trigger == trigger);
            assert(ignore_index != Some(index));
            assert(trigger_taken(views, ignore_index, trigger));
            let mut message = display_binding(trigger);
            message.append(" 已被另一个字符别名占用。");
            assert(message@ == spec_display_binding(trigger) + " 已被另一个字符别名占用。"@);
            return Some(message);
        }
        index = index + 1;
    }
    assert(!trigger_taken(views, ignore_index, trigger));
    None
}

/// A trigger is refused exactly when it is a key of the built-in listeners
/// (Enter with any modifiers, a plain `/`, Shift+8 alone, a plain keypad `*`)
/// or when another rule than the one at `ignore` has the same key with the
/// same modifiers. A trigger refused for the second reason is refused with
/// its display name.
pub proof fn lemma_binding_conflict_exact(
    aliases: Seq<CharacterAliasView>,
    ignore: Option<usize>,
    trigger: KeyBinding,
)
    ensures
        ({
            let m = trigger.modifiers;
            let plain = !m.ctrl && !m.alt && !m.shift;
            let reserved = trigger.vk_code == 0x0D || (trigger.vk_code == 0xBF && plain) || (
            trigger.vk_code == 0x38 && !m.ctrl && !m.alt && m.shift) || (trigger.vk_code == 0x6A
                && plain);
            let taken = exists|i: int|
                0 <= i < aliases.len() && ignore != Some(i as usize) && (#[trigger] aliases[i]).trigger.vk_code
                    == trigger.vk_code && aliases[i].trigger.modifiers.ctrl == m.ctrl
                    && aliases[i].trigger.modifiers.alt == m.alt && aliases[i].trigger.modifiers.shift
                    == m.shift;
            &&& spec_binding_conflict(aliases, ignore, trigger) is Some == (reserved || taken)
            &&& !reserved && taken ==> spec_binding_conflict(aliases, ignore, trigger) == Some(
                spec_display_binding(trigger) + " 已被另一个字符别名占用。"@,
            )
        }),
{
    let m = trigger.modifiers;
    let taken = exists|i: int|
        0 <= i < aliases.len() && ignore != Some(i as usize) && (#[trigger] aliases[i]).trigger.vk_code
            == trigger.vk_code && aliases[i].trigger.modifiers.ctrl == m.ctrl
            && aliases[i].trigger.modifiers.alt == m.alt && aliases[i].trigger.modifiers.shift
            == m.shift;
    if taken {
        let i = choose|i: int|
            0 <= i < aliases.len() && ignore != Some(i as usize) && (#[trigger] aliases[i]).trigger.vk_code
                == trigger.vk_code && aliases[i].trigger.modifiers.ctrl == m.ctrl
                && aliases[i].trigger.modifiers.alt == m.alt && aliases[i].trigger.modifiers.shift
                == m.shift;
        assert(aliases[i].trigger == trigger);
        assert(trigger_taken(aliases, ignore, trigger));
    }
    if trigger_taken(aliases, ignore, trigger) {
        let i = choose|i: int|
            0 <= i < aliases.len() && ignore != Some(i as usize) && (#[trigger] aliases[i]).trigger
                == trigger;
        assert(aliases[i].trigger.vk_code == trigger.vk_code);
        assert(taken);
    }
}

/// A rule is accepted exactly when its output holds something other than
/// whitespace and its trigger is not refused; a blank output is refused
/// first.
pub proof fn lemma_validate_alias_exact(
    aliases: Seq<CharacterAliasView>,
    ignore: Option<usize>,
    trigger: KeyBinding,
    output: Seq<char>,
)
    ensures
        (forall|i: int| 0 <= i < output.len() ==> crate::text::is_unicode_whitespace(
            #[trigger] output[i],
        )) ==> spec_validate_alias(aliases, ignore, trigger, output) == Err::<(), Seq<char>>(
            "请填写要输出的字符。"@,
        ),
        !(forall|i: int| 0 <= i < output.len() ==> crate::text::is_unicode_whitespace(
            #[trigger] output[i],
        )) ==> match spec_binding_conflict(aliases, ignore, trigger) {
            Some(msg) => spec_validate_alias(aliases, ignore, trigger, output) == Err::<
                (),
                Seq<char>,
            >(msg),
            None => spec_validate_alias(aliases, ignore, trigger, output) is Ok,
        },
{
}

pub open spec fn spec_validate_alias(
    aliases: Seq<CharacterAliasView>,
    ignore: Option<usize>,
    trigger: KeyBinding,
    output: Seq<char>,
) -> Result<(), Seq<char>> {
    if all_whitespace(output) {
        Err("请填写要输出的字符。"@)
    } else {
        match spec_binding_conflict(aliases, ignore, trigger) {
            Some(message) => Err(message),
            None => Ok(()),
        }
    }
}

/// Checks a rule before it is stored: the output must hold something other
/// than whitespace, and the trigger must be free.
pub fn validate_alias(
    aliases: &[CharacterAlias],
    ignore_index: Option<usize>,
    trigger: KeyBinding,
    output: &str,
) -> (r: Result<(), String>)
    ensures
        match r {
            Ok(()) => spec_validate_alias(alias_views(aliases@), ignore_index, trigger, output@)
                is Ok,
            Err(m) => spec_validate_alias(alias_views(aliases@), ignore_index, trigger, output@)
                == Err::<(), Seq<char>>(m@),
        },
{
    let chars = str_chars(output);
    let mut i: usize = 0;
    let mut blank = true;
    while i < chars.len()
        invariant
            i <= chars.len(),
            chars@ == output@,
            blank == (forall|j: int| 0 <= j < i ==> crate::text::is_unicode_whitespace(
                #[trigger] chars@[j],
            )),
        decreases chars.len() - i,
    {
        if !is_whitespace(chars[i]) {
            blank = false;
        }
        i = i + 1;
    }
    if blank {
        return Err(String::from_str("请填写要输出的字符。"));
    }
    match binding_conflict(aliases, ignore_index, trigger) {
        Some(message) => Err(message),
        None => Ok(()),
    }
}

// ───────────────────────── the alias window's editing state ─────────────────────────

/// What the alias window edits: the rules, the selected rule and the trigger
/// recorded for the rule being edited.
pub struct AliasEditor {
    selected_index: Option<usize>,
    pending_trigger: Option<KeyBinding>,
    aliases: Vec<CharacterAlias>,
}

/// The mathematical value of an [`AliasEditor`].
pub struct AliasEditorView {
    pub selected_index: Option<usize>,
    pub pending_trigger: Option<KeyBinding>,
    pub aliases: Seq<CharacterAliasView>,
}

impl View for AliasEditor {
    type V = AliasEditorView;

    closed spec fn view(&self) -> AliasEditorView {
        AliasEditorView {
            selected_index: self.selected_index,
            pending_trigger: self.pending_trigger,
            aliases: alias_views(self.aliases@),
        }
    }
}

/// The selection, when there is one, names a stored rule.
pub open spec fn editor_wf(v: AliasEditorView) -> bool {
    v.selected_index matches Some(i) ==> i < v.aliases.len()
}

pub open spec fn no_trigger_message() -> Seq<char> {
    "请先点击触发键输入框并按下一个键。"@
}

pub open spec fn no_selection_message() -> Seq<char> {
    "请先选择左侧规则，或点击新增。"@
}

pub open spec fn recorded_status_message() -> Seq<char> {
    "触发键已录制，填写输出字符后保存。"@
}

/// Adding a rule from the recorded trigger and `output`.
pub open spec fn spec_add_alias(v: AliasEditorView, output: Seq<char>) -> Result<
    AliasEditorView,
    Seq<char>,
> {
    match v.pending_trigger {
        None => Err(no_trigger_message()),
        Some(trigger) => match spec_validate_alias(v.aliases, None, trigger, output) {
            Err(m) => Err(m),
            Ok(_) => Ok(
                AliasEditorView {
                    selected_index: Some(v.aliases.len() as usize),
                    pending_trigger: v.pending_trigger,
                    aliases: v.aliases.push(CharacterAliasView { trigger, output }),
                },
            ),
        },
    }
}

/// Replacing the selected rule by the recorded trigger and `output`.
pub open spec fn spec_save_selected_alias(v: AliasEditorView, output: Seq<char>) -> Result<
    AliasEditorView,
    Seq<char>,
> {
    match v.selected_index {
        None => Err(no_selection_message()),
        Some(index) => match v.pending_trigger {
            None => Err(no_trigger_message()),
            Some(trigger) => match spec_validate_alias(v.aliases, Some(index), trigger, output) {
                Err(m) => Err(m),
                Ok(_) => Ok(
                    AliasEditorView {
                        aliases: v.aliases.update(index as int, CharacterAliasView { trigger, output }),
                        ..v
                    },
                ),
            },
        },
    }
}

/// Deleting the selected rule, if there is one.
pub open spec fn spec_delete_selected_alias(v: AliasEditorView) -> AliasEditorView {
    match v.selected_index {
        None => v,
        Some(index) => AliasEditorView {
            selected_index: None,
            pending_trigger: None,
            aliases: v.aliases.remove(index as int),
        },
    }
}

/// No two rules share a trigger.
pub open spec fn triggers_distinct(aliases: Seq<CharacterAliasView>) -> bool {
    forall|i: int, j: int|
        0 <= i < aliases.len() && 0 <= j < aliases.len() && i != j ==> #[trigger] aliases[i].trigger
            != #[trigger] aliases[j].trigger
}

/// None of the built-in listeners' keys is a trigger, and every output holds
/// something other than whitespace.
pub open spec fn rules_usable(aliases: Seq<CharacterAliasView>) -> bool {
    forall|i: int|
        0 <= i < aliases.len() ==> {
            let t = (#[trigger] aliases[i]).trigger;
            &&& t.vk_code != 0x0D
            &&& !(t.vk_code == 0xBF && t.modifiers == no_modifiers())
            &&& !(t.vk_code == 0x38 && t.modifiers == shift_only())
            &&& !(t.vk_code == 0x6A && t.modifiers == no_modifiers())
            &&& !all_whitespace(aliases[i].output)
        }
}

impl AliasEditor {
    #[verifier::type_invariant]
    spec fn selection_in_range(self) -> bool {
        self.selected_index matches Some(i) ==> i < self.aliases.len()
    }

    /// An editor over `aliases`, with nothing selected and no trigger recorded.
    pub fn new(aliases: Vec<CharacterAlias>) -> (r: Self)
        ensures
            r@ == (AliasEditorView {
                selected_index: None,
                pending_trigger: None,
                aliases: alias_views(aliases@),
            }),
    {
        AliasEditor { selected_index: None, pending_trigger: None, aliases }
    }

    /// The stored rules.
    pub fn aliases(&self) -> (r: &Vec<CharacterAlias>)
        ensures
            alias_views(r@) == self@.aliases,
    {
        &self.aliases
    }

    /// The selected rule's index.
    pub fn selected_index(&self) -> (r: Option<usize>)
        ensures
            r == self@.selected_index,
            editor_wf(self@),
    {
        proof {
            use_type_invariant(self);
        }
        self.selected_index
    }

    /// The trigger recorded for the rule being edited.
    pub fn pending_trigger(&self) -> (r: Option<KeyBinding>)
        ensures
            r == self@.pending_trigger,
    {
        self.pending_trigger
    }

    /// The trigger box got the focus: the recorded trigger is dropped while a
    /// new key is recorded.
    pub fn begin_trigger_capture(&mut self)
        ensures
            final(self)@ == (AliasEditorView { pending_trigger: None, ..old(self)@ }),
    {
        proof {
            use_type_invariant(&*self);
        }
        self.pending_trigger = None;
    }

    /// A key was recorded: it becomes the pending trigger. Returns the text for
    /// the trigger box and the status line, which names a conflict if there is
    /// one.
    pub fn handle_captured_binding(&mut self, binding: KeyBinding) -> (r: (String, String))
        ensures
            final(self)@ == (AliasEditorView { pending_trigger: Some(binding), ..old(self)@ }),
            r.0@ == spec_display_binding(binding),
            r.1@ == (match spec_binding_conflict(
                old(self)@.aliases,
                old(self)@.selected_index,
                binding,
            ) {
                Some(m) => m,
                None => recorded_status_message(),
            }),
    {
        proof {
            use_type_invariant(&*self);
        }
        self.pending_trigger = Some(binding);
        let display = display_binding(binding);
        let status = match binding_conflict(self.aliases.as_slice(), self.selected_index, binding) {
            Some(message) => message,
            None => String::from_str("触发键已录制，填写输出字符后保存。"),
        };
        (display, status)
    }

    /// Adds a rule from the recorded trigger and `output` and selects it.
    pub fn add_alias_inner(&mut self, output: String) -> (r: Result<(), String>)
        ensures
            match r {
                Ok(()) => spec_add_alias(old(self)@, output@) == Ok::<AliasEditorView, Seq<char>>(
                    final(self)@,
                ),
                Err(m) => spec_add_alias(old(self)@, output@) == Err::<AliasEditorView, Seq<char>>(
                    m@,
                ) && final(self)@ == old(self)@,
            },
    {
        proof {
            use_type_invariant(&*self);
        }
        let trigger = match self.pending_trigger {
            Some(trigger) => trigger,
            None => return Err(String::from_str("请先点击触发键输入框并按下一个键。")),
        };
        match validate_alias(self.aliases.as_slice(), None, trigger, output.as_str()) {
            Err(m) => return Err(m),
            Ok(()) => {},
        }
        let ghost old_aliases = self.aliases@;
        let ghost out = output@;
        self.selected_index = None;
        let mut aliases: Vec<CharacterAlias> = Vec::new();
        std::mem::swap(&mut aliases, &mut self.aliases);
        aliases.push(CharacterAlias { trigger, output });
        let last = aliases.len() - 1;
        self.aliases = aliases;
        self.selected_index = Some(last);
        proof {
            assert(alias_views(self.aliases@) =~= alias_views(old_aliases).push(
                CharacterAliasView { trigger, output: out },
            ));
        }
        Ok(())
    }

    /// Replaces the selected rule by the recorded trigger and `output`.
    pub fn save_selected_alias_inner(&mut self, output: String) -> (r: Result<(), String>)
        ensures
            match r {
                Ok(()) => spec_save_selected_alias(old(self)@, output@) == Ok::<
                    AliasEditorView,
                    Seq<char>,
                >(final(self)@),
                Err(m) => spec_save_selected_alias(old(self)@, output@) == Err::<
                    AliasEditorView,
                    Seq<char>,
                >(m@) && final(self)@ == old(self)@,
            },
    {
        proof {
            use_type_invariant(&*self);
        }
        let index = match self.selected_index {
            Some(index) => index,
            None => return Err(String::from_str("请先选择左侧规则，或点击新增。")),
        };
        let trigger = match self.pending_trigger {
            Some(trigger) => trigger,
            None => return Err(String::from_str("请先点击触发键输入框并按下一个键。")),
        };
        match validate_alias(self.aliases.as_slice(), Some(index), trigger, output.as_str()) {
            Err(m) => return Err(m),
            Ok(()) => {},
        }
        let ghost old_aliases = self.aliases@;
        let ghost out = output@;
        self.selected_index = None;
        let mut aliases: Vec<CharacterAlias> = Vec::new();
        std::mem::swap(&mut aliases, &mut self.aliases);
        aliases.set(index, CharacterAlias { trigger, output });
        self.aliases = aliases;
        self.selected_index = Some(index);
        proof {
            assert(alias_views(self.aliases@) =~= alias_views(old_aliases).update(
                index as int,
                CharacterAliasView { trigger, output: out },
            ));
        }
        Ok(())
    }

    /// Deletes the selected rule and clears the selection and the recorded
    /// trigger. Returns whether a rule was selected.
    pub fn delete_selected_alias(&mut self) -> (r: bool)
        ensures
            r == (old(self)@.selected_index is Some),
            final(self)@ == spec_delete_selected_alias(old(self)@),
    {
        proof {
            use_type_invariant(&*self);
        }
        let index = match self.selected_index {
            Some(index) => index,
            None => return false,
        };
        let ghost old_aliases = self.aliases@;
        self.selected_index = None;
        self.pending_trigger = None;
        let mut aliases: Vec<CharacterAlias> = Vec::new();
        std::mem::swap(&mut aliases, &mut self.aliases);
        aliases.remove(index);
        self.aliases = aliases;
        proof {
            assert(alias_views(self.aliases@) =~= alias_views(old_aliases).remove(index as int));
        }
        true
    }

    /// The list box reported selection `cursel` (`LB_ERR` for none). A valid
    /// selection loads that rule for editing and returns the texts for the
    /// trigger and output boxes.
    pub fn select_current_list_item(&mut self, cursel: isize) -> (r: Option<(String, String)>)
        ensures
            cursel == LB_ERR ==> r is None && final(self)@ == (AliasEditorView {
                selected_index: None,
                ..old(self)@
            }),
            cursel != LB_ERR && (cursel as usize) < old(self)@.aliases.len() ==> {
                let index = cursel as usize;
                let alias = old(self)@.aliases[index as int];
                &&& final(self)@ == (AliasEditorView {
                    selected_index: Some(index),
                    pending_trigger: Some(alias.trigger),
                    aliases: old(self)@.aliases,
                })
                &&& r matches Some(texts) && texts.0@ == spec_display_binding(alias.trigger)
                    && texts.1@ == alias.output
            },
            cursel != LB_ERR && (cursel as usize) >= old(self)@.aliases.len() ==> r is None
                && final(self)@ == old(self)@,
    {
        proof {
            use_type_invariant(&*self);
        }
        if cursel == LB_ERR {
            self.selected_index = None;
            return None;
        }
        let index = cursel as usize;
        if index < self.aliases.len() {
            let trigger = self.aliases[index].trigger;
            let output = self.aliases[index].output.clone();
            self.selected_index = Some(index);
            self.pending_trigger = Some(trigger);
            Some((display_binding(trigger), output))
        } else {
            None
        }
    }

    /// The list-box rows, one per rule: `<binding>  ->  <output>`.
    pub fn alias_rows(&self) -> (r: Vec<String>)
        ensures
            r@.len() == self@.aliases.len(),
            forall|i: int|
                0 <= i < r@.len() ==> (#[trigger] r@[i])@ == spec_display_binding(
                    self@.aliases[i].trigger,
                ) + "  ->  "@ + self@.aliases[i].output,
    {
        let mut rows: Vec<String> = Vec::new();
        let mut i: usize = 0;
        while i < self.aliases.len()
            invariant
                i <= self.aliases.len(),
                rows@.len() == i,
                forall|j: int|
                    0 <= j < i ==> (#[trigger] rows@[j])@ == spec_display_binding(
                        self.aliases@[j].trigger,
                    ) + "  ->  "@ + self.aliases@[j].output@,
            decreases self.aliases.len() - i,
        {
            let mut row = display_binding(self.aliases[i].trigger);
            row.append("  ->  ");
            row.append(self.aliases[i].output.as_str());
            rows.push(row);
            i = i + 1;
        }
        rows
    }
}

/// Adding a rule keeps the triggers distinct and keeps every rule usable.
pub proof fn lemma_add_keeps_rules_consistent(v: AliasEditorView, output: Seq<char>)
    requires
        triggers_distinct(v.aliases),
        rules_usable(v.aliases),
        spec_add_alias(v, output) is Ok,
    ensures
        triggers_distinct(spec_add_alias(v, output)->Ok_0.aliases),
        rules_usable(spec_add_alias(v, output)->Ok_0.aliases),
{
    let w = spec_add_alias(v, output)->Ok_0;
    let t = v.pending_trigger->Some_0;
    assert(!trigger_taken(v.aliases, None, t));
    assert forall|i: int, j: int|
        0 <= i < w.aliases.len() && 0 <= j < w.aliases.len() && i != j implies #[trigger] w.aliases[i].trigger
        != #[trigger] w.aliases[j].trigger by {
        if i == v.aliases.len() {
            assert(v.aliases[j].trigger != t);
        } else if j == v.aliases.len() {
            assert(v.aliases[i].trigger != t);
        } else {
            assert(w.aliases[i] == v.aliases[i]);
            assert(w.aliases[j] == v.aliases[j]);
        }
    }
    assert forall|i: int| 0 <= i < w.aliases.len() implies {
        let t2 = (#[trigger] w.aliases[i]).trigger;
        &&& t2.vk_code != 0x0D
        &&& !(t2.vk_code == 0xBF && t2.modifiers == no_modifiers())
        &&& !(t2.vk_code == 0x38 && t2.modifiers == shift_only())
        &&& !(t2.vk_code == 0x6A && t2.modifiers == no_modifiers())
        &&& !all_whitespace(w.aliases[i].output)
    } by {
        if i < v.aliases.len() {
            assert(w.aliases[i] == v.aliases[i]);
        }
    }
}

/// Saving the selected rule keeps the triggers distinct and keeps every rule
/// usable.
pub proof fn lemma_save_keeps_rules_consistent(v: AliasEditorView, output: Seq<char>)
    requires
        editor_wf(v),
        v.aliases.len() <= usize::MAX,
        triggers_distinct(v.aliases),
        rules_usable(v.aliases),
        spec_save_selected_alias(v, output) is Ok,
    ensures
        triggers_distinct(spec_save_selected_alias(v, output)->Ok_0.aliases),
        rules_usable(spec_save_selected_alias(v, output)->Ok_0.aliases),
{
    let w = spec_save_selected_alias(v, output)->Ok_0;
    let k = v.selected_index->Some_0 as int;
    let t = v.pending_trigger->Some_0;
    assert(!trigger_taken(v.aliases, Some(k as usize), t));
    assert forall|i: int, j: int|
        0 <= i < w.aliases.len() && 0 <= j < w.aliases.len() && i != j implies #[trigger] w.aliases[i].trigger
        != #[trigger] w.aliases[j].trigger by {
        if i == k {
            assert(w.aliases[i].trigger == t);
            assert(w.aliases[j] == v.aliases[j]);
            assert(j as usize != k as usize);
            assert(v.aliases[j].trigger != t);
        } else if j == k {
            assert(w.aliases[j].trigger == t);
            assert(w.aliases[i] == v.aliases[i]);
            assert(i as usize != k as usize);
            assert(v.aliases[i].trigger != t);
        } else {
            assert(w.aliases[i] == v.aliases[i]);
            assert(w.aliases[j] == v.aliases[j]);
        }
    }
    assert forall|i: int| 0 <= i < w.aliases.len() implies {
        let t2 = (#[trigger] w.aliases[i]).trigger;
        &&& t2.vk_code != 0x0D
        &&& !(t2.vk_code == 0xBF && t2.modifiers == no_modifiers())
        &&& !(t2.vk_code == 0x38 && t2.modifiers == shift_only())
        &&& !(t2.vk_code == 0x6A && t2.modifiers == no_modifiers())
        &&& !all_whitespace(w.aliases[i].output)
    } by {
        if i != k {
            assert(w.aliases[i] == v.aliases[i]);
        }
    }
}

/// Deleting the selected rule keeps the triggers distinct and keeps every rule
/// usable.
pub proof fn lemma_delete_keeps_rules_consistent(v: AliasEditorView)
    requires
        editor_wf(v),
        triggers_distinct(v.aliases),
        rules_usable(v.aliases),
    ensures
        triggers_distinct(spec_delete_selected_alias(v).aliases),
        rules_usable(spec_delete_selected_alias(v).aliases),
        editor_wf(spec_delete_selected_alias(v)),
{
    let w = spec_delete_selected_alias(v);
    if let Some(k) = v.selected_index {
        let k = k as int;
        assert forall|i: int, j: int|
            0 <= i < w.aliases.len() && 0 <= j < w.aliases.len() && i != j implies #[trigger] w.aliases[i].trigger
            != #[trigger] w.aliases[j].trigger by {
            let i0 = if i < k {
                i
            } else {
                i + 1
            };
            let j0 = if j < k {
                j
            } else {
                j + 1
            };
            assert(w.aliases[i] == v.aliases[i0]);
            assert(w.aliases[j] == v.aliases[j0]);
        }
        assert forall|i: int| 0 <= i < w.aliases.len() implies {
            let t2 = (#[trigger] w.aliases[i]).trigger;
            &&& t2.vk_code != 0x0D
            &&& !(t2.vk_code == 0xBF && t2.modifiers == no_modifiers())
            &&& !(t2.vk_code == 0x38 && t2.modifiers == shift_only())
            &&& !(t2.vk_code == 0x6A && t2.modifiers == no_modifiers())
            &&& !all_whitespace(w.aliases[i].output)
        } by {
            let i0 = if i < k {
                i
            } else {
                i + 1
            };
            assert(w.aliases[i] == v.aliases[i0]);
        }
    }
}

/// Adding succeeds exactly when a trigger is recorded and the rule (recorded
/// trigger, `output`) is accepted against all stored rules. On success the new
/// rule comes last and is selected, the stored rules stay as they were, and
/// the recorded trigger is kept; on failure the reason is the validation's.
pub proof fn lemma_add_appends_rule(v: AliasEditorView, output: Seq<char>)
    ensures
        spec_add_alias(v, output) is Ok == (v.pending_trigger is Some && spec_validate_alias(
            v.aliases,
            None,
            v.pending_trigger->Some_0,
            output,
        ) is Ok),
        v.pending_trigger is None ==> spec_add_alias(v, output) == Err::<AliasEditorView, Seq<char>>(
            no_trigger_message(),
        ),
        v.pending_trigger matches Some(t) ==> (spec_validate_alias(v.aliases, None, t, output) matches Err(
            m,
        ) ==> spec_add_alias(v, output) == Err::<AliasEditorView, Seq<char>>(m)),
        spec_add_alias(v, output) matches Ok(w) ==> {
            &&& w.aliases.len() == v.aliases.len() + 1
            &&& w.aliases[v.aliases.len() as int] == (CharacterAliasView {
                trigger: v.pending_trigger->Some_0,
                output,
            })
            &&& forall|j: int| 0 <= j < v.aliases.len() ==> #[trigger] w.aliases[j] == v.aliases[j]
            &&& w.selected_index == Some(v.aliases.len() as usize)
            &&& w.pending_trigger == v.pending_trigger
        },
{
}

/// Saving succeeds exactly when a rule is selected, a trigger is recorded and
/// the rule (recorded trigger, `output`) is accepted against the other rules.
/// On success the selected rule becomes the recorded trigger with `output`,
/// every other rule stays, and so do the selection and the recorded trigger;
/// on failure the reason is the first missing piece or the validation's.
pub proof fn lemma_save_replaces_selected_rule(v: AliasEditorView, output: Seq<char>)
    requires
        editor_wf(v),
    ensures
        spec_save_selected_alias(v, output) is Ok == (v.selected_index is Some
            && v.pending_trigger is Some && spec_validate_alias(
            v.aliases,
            v.selected_index,
            v.pending_trigger->Some_0,
            output,
        ) is Ok),
        v.selected_index is None ==> spec_save_selected_alias(v, output) == Err::<
            AliasEditorView,
            Seq<char>,
        >(no_selection_message()),
        v.selected_index is Some && v.pending_trigger is None ==> spec_save_selected_alias(
            v,
            output,
        ) == Err::<AliasEditorView, Seq<char>>(no_trigger_message()),
        v.selected_index is Some ==> (v.pending_trigger matches Some(t) ==> (spec_validate_alias(
            v.aliases,
            v.selected_index,
            t,
            output,
        ) matches Err(m) ==> spec_save_selected_alias(v, output) == Err::<
            AliasEditorView,
            Seq<char>,
        >(m))),
        spec_save_selected_alias(v, output) matches Ok(w) ==> {
            let k = v.selected_index->Some_0 as int;
            &&& w.aliases.len() == v.aliases.len()
            &&& w.aliases[k] == (CharacterAliasView { trigger: v.pending_trigger->Some_0, output })
            &&& forall|j: int|
                0 <= j < v.aliases.len() && j != k ==> #[trigger] w.aliases[j] == v.aliases[j]
            &&& w.selected_index == v.selected_index
            &&& w.pending_trigger == v.pending_trigger
        },
{
}

/// Deleting with a rule selected removes exactly that rule, keeping the
/// others in order, and clears the selection and the recorded trigger; with
/// nothing selected it changes nothing.
pub proof fn lemma_delete_removes_selected_rule(v: AliasEditorView)
    requires
        editor_wf(v),
    ensures
        v.selected_index is None ==> spec_delete_selected_alias(v) == v,
        v.selected_index matches Some(k) ==> {
            let w = spec_delete_selected_alias(v);
            &&& w.aliases.len() == v.aliases.len() - 1
            &&& forall|j: int| 0 <= j < k ==> #[trigger] w.aliases[j] == v.aliases[j]
            &&& forall|j: int| k <= j < w.aliases.len() ==> #[trigger] w.aliases[j] == v.aliases[j + 1]
            &&& w.selected_index is None
            &&& w.pending_trigger is None
        },
{
}

} // verus!

//! Input methods, input modes, and the rules that read a mode from the IME's
//! open status or conversion flags and compute the flags that select a mode.
use vstd::prelude::*;

use crate::text::{
    ascii_lower, ascii_lower_char, ascii_upper, ascii_upper_char, chars_eq_str, lemma_ascii_case_maps,
    lemma_trim_idempotent, lemma_trim_map, map_chars, str_chars, to_ascii_lower, trim, trim_chars,
};

verus! {

/// The IME flavour whose control protocol is used.
#[derive(Clone, Copy, Debug, PartialEq, Eq, Structural)]
pub enum InputMethod {
    Sogou,
    Microsoft,
}

/// Whether the IME currently produces Chinese or English text.
#[derive(Clone, Copy, Debug, PartialEq, Eq, Structural)]
pub enum ImeMode {
    Unknown,
    English,
    Chinese,
}

impl Default for InputMethod {
    fn default() -> (r: Self)
        ensures
            r == InputMethod::Sogou,
    {
        InputMethod::Sogou
    }
}

impl Default for ImeMode {
    fn default() -> (r: Self)
        ensures
            r == ImeMode::Unknown,
    {
        ImeMode::Unknown
    }
}

/// The `IME_CMODE_NATIVE` conversion flag: set while the IME produces native
/// (Chinese) text.
pub const IME_CMODE_NATIVE: u32 = 0x0001;

/// The value that `InputMethod::from_config_value` parses: the trimmed,
/// ASCII-lower-cased text names one of the known methods.
pub open spec fn spec_from_config_value(value: Seq<char>) -> Option<InputMethod> {
    let t = ascii_lower(trim(value));
    if t == "sogou"@ {
        Some(InputMethod::Sogou)
    } else if t == "microsoft"@ || t == "ms"@ || t == "microsoft_pinyin"@ {
        Some(InputMethod::Microsoft)
    } else {
        None
    }
}

impl InputMethod {
    pub open spec fn spec_label(self) -> Seq<char> {
        match self {
            InputMethod::Sogou => "搜狗输入法"@,
            InputMethod::Microsoft => "微软拼音"@,
        }
    }

    pub open spec fn spec_config_value(self) -> Seq<char> {
        match self {
            InputMethod::Sogou => "sogou"@,
            InputMethod::Microsoft => "microsoft"@,
        }
    }

    /// The name shown to the user.
    pub fn label(self) -> (r: &'static str)
        ensures
            r@ == self.spec_label(),
    {
        match self {
            InputMethod::Sogou => "搜狗输入法",
            InputMethod::Microsoft => "微软拼音",
        }
    }

    /// The value stored in the configuration.
    pub fn config_value(self) -> (r: &'static str)
        ensures
            r@ == self.spec_config_value(),
    {
        match self {
            InputMethod::Sogou => "sogou",
            InputMethod::Microsoft => "microsoft",
        }
    }

    /// Parses a stored configuration value, ignoring surrounding whitespace and
    /// ASCII case.
    pub fn from_config_value(value: &str) -> (r: Option<Self>)
        ensures
            r == spec_from_config_value(value@),
    {
        let chars = str_chars(value);
        let trimmed = trim_chars(&chars);
        let lowered = to_ascii_lower(&trimmed);
        if chars_eq_str(lowered.as_slice(), "sogou") {
            Some(InputMethod::Sogou)
        } else if chars_eq_str(lowered.as_slice(), "microsoft") || chars_eq_str(
            lowered.as_slice(),
            "ms",
        ) || chars_eq_str(lowered.as_slice(), "microsoft_pinyin") {
            Some(InputMethod::Microsoft)
        } else {
            None
        }
    }
}

/// A stored configuration value reads back as the method that was stored.
pub proof fn lemma_config_value_round_trip(m: InputMethod)
    ensures
        spec_from_config_value(m.spec_config_value()) == Some(m),
{
    let s = m.spec_config_value();
    match m {
        InputMethod::Sogou => {
            reveal_strlit("sogou");
        },
        InputMethod::Microsoft => {
            reveal_strlit("microsoft");
            reveal_strlit("sogou");
            assert("microsoft"@.len() != "sogou"@.len());
        },
    }
    assert(s.len() > 0);
    assert(!crate::text::is_unicode_whitespace(s[0]));
    assert(crate::text::trim_start(s) == s);
    assert(!crate::text::is_unicode_whitespace(s.last()));
    assert(crate::text::trim_end(s) == s);
    assert(ascii_lower(s) =~= s);
}

/// A configuration value is read the same with or without surrounding
/// whitespace, and whatever its ASCII case: trimmed, lower-cased, upper-cased,
/// or trimmed and upper-cased, it names the same method or none.
pub proof fn lemma_config_value_ignores_case_and_space(value: Seq<char>)
    ensures
        spec_from_config_value(trim(value)) == spec_from_config_value(value),
        spec_from_config_value(ascii_lower(value)) == spec_from_config_value(value),
        spec_from_config_value(ascii_upper(value)) == spec_from_config_value(value),
        spec_from_config_value(ascii_upper(trim(value))) == spec_from_config_value(value),
{
    let lower = |c: char| ascii_lower_char(c);
    let upper = |c: char| ascii_upper_char(c);
    lemma_ascii_case_maps();
    let t = trim(value);
    lemma_trim_idempotent(value);
    // trimmed
    assert(trim(t) == t);
    // lower-cased
    assert(ascii_lower(value) =~= map_chars(value, lower));
    lemma_trim_map(value, lower);
    assert(map_chars(t, lower) =~= ascii_lower(t));
    assert(ascii_lower(ascii_lower(t)) =~= ascii_lower(t));
    // upper-cased
    assert(ascii_upper(value) =~= map_chars(value, upper));
    lemma_trim_map(value, upper);
    assert(map_chars(t, upper) =~= ascii_upper(t));
    assert(ascii_lower(ascii_upper(t)) =~= ascii_lower(t));
    // trimmed, then upper-cased
    assert(ascii_upper(t) =~= map_chars(t, upper));
    lemma_trim_map(t, upper);
    assert(trim(ascii_upper(t)) == ascii_upper(t));
}


/// The mode that an IME conversion-flag word stands for.
pub open spec fn spec_mode_from_conversion(conversion: u32) -> ImeMode {
    if conversion & IME_CMODE_NATIVE == 0 {
        ImeMode::English
    } else {
        ImeMode::Chinese
    }
}

/// The conversion-flag word that selects `desired`, keeping every other flag.
pub open spec fn spec_conversion_for_mode(conversion: u32, desired: ImeMode) -> u32 {
    match desired {
        ImeMode::Chinese => conversion | IME_CMODE_NATIVE,
        ImeMode::English => conversion & !IME_CMODE_NATIVE,
        ImeMode::Unknown => conversion,
    }
}

/// Reads the mode from the IME's conversion flags.
pub fn mode_from_conversion(conversion: u32) -> (r: ImeMode)
    ensures
        r == spec_mode_from_conversion(conversion),
{
    if conversion & IME_CMODE_NATIVE == 0 {
        ImeMode::English
    } else {
        ImeMode::Chinese
    }
}

/// The conversion flags to write so that the IME switches to `desired`.
pub fn conversion_for_mode(conversion: u32, desired: ImeMode) -> (r: u32)
    ensures
        r == spec_conversion_for_mode(conversion, desired),
{
    match desired {
        ImeMode::Chinese => conversion | IME_CMODE_NATIVE,
        ImeMode::English => conversion & !IME_CMODE_NATIVE,
        ImeMode::Unknown => conversion,
    }
}

/// Writing the flags for a known mode makes the flags read back as that mode,
/// and only the native flag changes.
pub proof fn lemma_conversion_selects_mode(conversion: u32, desired: ImeMode)
    requires
        desired != ImeMode::Unknown,
    ensures
        spec_mode_from_conversion(spec_conversion_for_mode(conversion, desired)) == desired,
        spec_conversion_for_mode(conversion, desired) & !IME_CMODE_NATIVE == conversion
            & !IME_CMODE_NATIVE,
{
    assert((conversion | 1u32) & 1u32 != 0) by (bit_vector);
    assert((conversion & !1u32) & 1u32 == 0) by (bit_vector);
    assert((conversion | 1u32) & !1u32 == conversion & !1u32) by (bit_vector);
    assert((conversion & !1u32) & !1u32 == conversion & !1u32) by (bit_vector);
}

/// The mode that an `IMC_GETOPENSTATUS` reply stands for: a closed IME types
/// English, an open one Chinese.
pub fn mode_from_open_status(status: isize) -> (r: ImeMode)
    ensures
        r == (if status == 0 {
            ImeMode::English
        } else {
            ImeMode::Chinese
        }),
{
    if status == 0 {
        ImeMode::English
    } else {
        ImeMode::Chinese
    }
}

/// The open status to set so that an open-status IME switches to `desired`.
pub fn open_status_for_mode(desired: ImeMode) -> (r: bool)
    ensures
        r == (desired == ImeMode::Chinese),
{
    match desired {
        ImeMode::Chinese => true,
        _ => false,
    }
}

/// Whether a switch to `desired` is tried at all: the conversion-mode
/// protocol has no flags for an unknown mode and gives up before any call.
pub open spec fn spec_switch_is_attempted(input_method: InputMethod, desired: ImeMode) -> bool {
    !(input_method == InputMethod::Microsoft && desired == ImeMode::Unknown)
}

/// Whether a switch to `desired` is tried at all.
pub fn switch_is_attempted(input_method: InputMethod, desired: ImeMode) -> (r: bool)
    ensures
        r == spec_switch_is_attempted(input_method, desired),
{
    match (input_method, desired) {
        (InputMethod::Microsoft, ImeMode::Unknown) => false,
        _ => true,
    }
}

/// Whether a switch took effect: it was tried, and the mode read back after
/// it is the one asked for.
pub fn switch_took_effect(input_method: InputMethod, desired: ImeMode, read_back: ImeMode) -> (r:
    bool)
    ensures
        r == (spec_switch_is_attempted(input_method, desired) && read_back == desired),
{
    switch_is_attempted(input_method, desired) && read_back == desired
}

/// The names of the input methods: 搜狗输入法 and 微软拼音 for the user,
/// `sogou` and `microsoft` in the configuration; the two differ.
pub proof fn lemma_input_method_names(m: InputMethod, n: InputMethod)
    ensures
        InputMethod::Sogou.spec_label() == "搜狗输入法"@,
        InputMethod::Microsoft.spec_label() == "微软拼音"@,
        InputMethod::Sogou.spec_config_value() == "sogou"@,
        InputMethod::Microsoft.spec_config_value() == "microsoft"@,
        m != n ==> m.spec_label() != n.spec_label(),
        m != n ==> m.spec_config_value() != n.spec_config_value(),
{
    reveal_strlit("搜狗输入法");
    reveal_strlit("微软拼音");
    reveal_strlit("sogou");
    reveal_strlit("microsoft");
    assert("搜狗输入法"@.len() != "微软拼音"@.len());
    assert("sogou"@.len() != "microsoft"@.len());
}

/// The conversion flags are read as Chinese exactly when the native flag (the
/// lowest bit) is set, and as English otherwise; they never read as unknown.
/// Asking for an unknown mode leaves the flags as they are.
pub proof fn lemma_conversion_native_bit(conversion: u32)
    ensures
        (spec_mode_from_conversion(conversion) == ImeMode::Chinese) == (conversion % 2 == 1),
        (spec_mode_from_conversion(conversion) == ImeMode::English) == (conversion % 2 == 0),
        spec_conversion_for_mode(conversion, ImeMode::Unknown) == conversion,
        spec_conversion_for_mode(conversion, ImeMode::Chinese) % 2 == 1,
        spec_conversion_for_mode(conversion, ImeMode::English) % 2 == 0,
{
    assert(conversion & 1u32 == conversion % 2) by (bit_vector);
    assert((conversion | 1u32) % 2 == 1) by (bit_vector);
    assert((conversion & !1u32) % 2 == 0) by (bit_vector);
}

} // verus!

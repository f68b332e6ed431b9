//! Character-level text utilities shared by the rest of the library:
//! Unicode whitespace, ASCII case folding, decimal rendering and UTF-16
//! encoding and decoding.
use vstd::prelude::*;

verus! {

// ───────────────────────── specifications ─────────────────────────

/// The characters that have the Unicode `White_Space` property, which is what
/// `char::is_whitespace`, `str::trim` and `str::split_whitespace` go by.
pub open spec fn is_unicode_whitespace(c: char) -> bool {
    let v = c as u32;
    ||| 0x09 <= v <= 0x0D
    ||| v == 0x20
    ||| v == 0x85
    ||| v == 0xA0
    ||| v == 0x1680
    ||| 0x2000 <= v <= 0x200A
    ||| v == 0x2028
    ||| v == 0x2029
    ||| v == 0x202F
    ||| v == 0x205F
    ||| v == 0x3000
}

/// Every character of `s` is whitespace (so `s.trim()` is empty).
pub open spec fn all_whitespace(s: Seq<char>) -> bool {
    forall|i: int| 0 <= i < s.len() ==> is_unicode_whitespace(#[trigger] s[i])
}

/// `s` with its leading whitespace removed.
pub open spec fn trim_start(s: Seq<char>) -> Seq<char>
    decreases s.len(),
{
    if s.len() > 0 && is_unicode_whitespace(s[0]) {
        trim_start(s.drop_first())
    } else {
        s
    }
}

/// `s` with its trailing whitespace removed.
pub open spec fn trim_end(s: Seq<char>) -> Seq<char>
    decreases s.len(),
{
    if s.len() > 0 && is_unicode_whitespace(s.last()) {
        trim_end(s.drop_last())
    } else {
        s
    }
}

/// `s` with leading and trailing whitespace removed.
pub open spec fn trim(s: Seq<char>) -> Seq<char> {
    trim_end(trim_start(s))
}

/// ASCII upper-case letters mapped to lower case; every other character kept.
pub open spec fn ascii_lower_char(c: char) -> char {
    if 65 <= (c as u32) <= 90 {
        ((c as u32) + 32) as char
    } else {
        c
    }
}

/// `s` with each character passed through [`ascii_lower_char`].
pub open spec fn ascii_lower(s: Seq<char>) -> Seq<char> {
    Seq::new(s.len(), |i: int| ascii_lower_char(s[i]))
}

/// The decimal digit character for `d < 10`.
pub open spec fn digit_char(d: nat) -> char {
    (48 + d) as char
}

/// The decimal rendering of `n`, without leading zeros.
pub open spec fn decimal(n: nat) -> Seq<char>
    decreases n,
{
    if n < 10 {
        seq![digit_char(n)]
    } else {
        decimal(n / 10).push(digit_char(n % 10))
    }
}

/// The UTF-16 code units of one character.
pub open spec fn utf16_of_char(c: char) -> Seq<u16> {
    let v = c as u32;
    if v < 0x10000 {
        seq![v as u16]
    } else {
        let u = (v - 0x10000) as u32;
        seq![(0xD800 + u / 0x400) as u16, (0xDC00 + u % 0x400) as u16]
    }
}

/// The UTF-16 encoding of a character sequence.
pub open spec fn utf16_encode(s: Seq<char>) -> Seq<u16>
    decreases s.len(),
{
    if s.len() == 0 {
        seq![]
    } else {
        utf16_of_char(s[0]) + utf16_encode(s.drop_first())
    }
}

pub open spec fn is_high_surrogate(u: u16) -> bool {
    0xD800 <= u <= 0xDBFF
}

pub open spec fn is_low_surrogate(u: u16) -> bool {
    0xDC00 <= u <= 0xDFFF
}

pub open spec fn is_surrogate(u: u16) -> bool {
    0xD800 <= u <= 0xDFFF
}

/// The character that a high and a low surrogate stand for together.
pub open spec fn surrogate_pair_char(hi: u16, lo: u16) -> char {
    (0x10000 + (hi - 0xD800) * 0x400 + (lo - 0xDC00)) as char
}

/// U+FFFD, which lossy decoding puts in place of an unpaired surrogate.
pub open spec fn replacement_char() -> char {
    0xFFFD as char
}

/// Lossy UTF-16 decoding: surrogate pairs become one character, each unpaired
/// surrogate becomes U+FFFD, every other unit is the character of that value.
pub open spec fn utf16_decode_lossy(u: Seq<u16>) -> Seq<char>
    decreases u.len(),
{
    if u.len() == 0 {
        seq![]
    } else if u.len() >= 2 && is_high_surrogate(u[0]) && is_low_surrogate(u[1]) {
        seq![surrogate_pair_char(u[0], u[1])] + utf16_decode_lossy(u.subrange(2, u.len() as int))
    } else if is_surrogate(u[0]) {
        seq![replacement_char()] + utf16_decode_lossy(u.drop_first())
    } else {
        seq![(u[0] as u32) as char] + utf16_decode_lossy(u.drop_first())
    }
}

// ───────────────────────── std calls ─────────────────────────

/// `String::push`: appends one character.
#[verifier::external_body]
pub(crate) fn push_char(s: &mut String, c: char)
    ensures
        final(s)@ == old(s)@.push(c),
{
    s.push(c);
}

/// `char::from_u32`: the character with scalar value `v`, which exists when
/// `v` is at most 0x10FFFF and not a surrogate.
#[verifier::external_body]
fn char_from_u32(v: u32) -> (r: Option<char>)
    ensures
        (v <= 0x10FFFF && !(0xD800 <= v <= 0xDFFF)) ==> r == Some(v as char),
        !(v <= 0x10FFFF && !(0xD800 <= v <= 0xDFFF)) ==> r is None,
{
    char::from_u32(v)
}

// ───────────────────────── executable functions ─────────────────────────

/// Whether `c` is Unicode whitespace.
pub fn is_whitespace(c: char) -> (r: bool)
    ensures
        r == is_unicode_whitespace(c),
{
    let v = c as u32;
    (0x09 <= v && v <= 0x0D) || v == 0x20 || v == 0x85 || v == 0xA0 || v == 0x1680 || (0x2000 <= v
        && v <= 0x200A) || v == 0x2028 || v == 0x2029 || v == 0x202F || v == 0x205F || v == 0x3000
}

/// The characters of `s`, in order.
pub fn str_chars(s: &str) -> (v: Vec<char>)
    ensures
        v@ == s@,
{
    let mut v: Vec<char> = Vec::new();
    for c in it: s.chars()
        invariant
            v@ == it.seq().take(it.index() as int),
    {
        v.push(c);
    }
    v
}

/// Appends the characters of `v[from..to]` to `s`.
pub fn push_chars(s: &mut String, v: &Vec<char>, from: usize, to: usize)
    requires
        from <= to <= v.len(),
    ensures
        final(s)@ == old(s)@ + v@.subrange(from as int, to as int),
{
    let mut i = from;
    while i < to
        invariant
            from <= i <= to <= v.len(),
            s@ == old(s)@ + v@.subrange(from as int, i as int),
        decreases to - i,
    {
        push_char(s, v[i]);
        assert(v@.subrange(from as int, i + 1) =~= v@.subrange(from as int, i as int).push(v@[i as int]));
        i = i + 1;
    }
}

/// A string holding the characters of `v`.
pub fn string_from_chars(v: &Vec<char>) -> (s: String)
    ensures
        s@ == v@,
{
    let mut s = String::new();
    push_chars(&mut s, v, 0, v.len());
    assert(v@.subrange(0, v@.len() as int) =~= v@);
    s
}

/// Whether the characters in `v` spell `s`.
pub fn chars_eq_str(v: &[char], s: &str) -> (r: bool)
    ensures
        r == (v@ == s@),
{
    let w = str_chars(s);
    if v.len() != w.len() {
        return false;
    }
    let mut i: usize = 0;
    while i < v.len()
        invariant
            v.len() == w.len(),
            w@ == s@,
            i <= v.len(),
            forall|j: int| 0 <= j < i ==> v@[j] == w@[j],
        decreases v.len() - i,
    {
        if v[i] != w[i] {
            return false;
        }
        i = i + 1;
    }
    assert(v@ =~= w@);
    true
}

proof fn lemma_trim_start_step(s: Seq<char>, i: int)
    requires
        0 <= i < s.len(),
        is_unicode_whitespace(s[i]),
    ensures
        trim_start(s.subrange(i, s.len() as int)) == trim_start(s.subrange(i + 1, s.len() as int)),
{
    assert(s.subrange(i, s.len() as int).drop_first() =~= s.subrange(i + 1, s.len() as int));
}

proof fn lemma_trim_end_step(t: Seq<char>, e: int)
    requires
        0 < e <= t.len(),
        is_unicode_whitespace(t[e - 1]),
    ensures
        trim_end(t.subrange(0, e)) == trim_end(t.subrange(0, e - 1)),
{
    assert(t.subrange(0, e).drop_last() =~= t.subrange(0, e - 1));
}

/// The characters of `v` with leading and trailing whitespace removed.
pub fn trim_chars(v: &Vec<char>) -> (r: Vec<char>)
    ensures
        r@ == trim(v@),
{
    let len = v.len();
    let mut start: usize = 0;
    assert(v@.subrange(0, len as int) =~= v@);
    while start < len && is_whitespace(v[start])
        invariant
            start <= len == v.len(),
            trim_start(v@) == trim_start(v@.subrange(start as int, len as int)),
        decreases len - start,
    {
        proof {
            lemma_trim_start_step(v@, start as int);
        }
        start = start + 1;
    }
    let ghost t = v@.subrange(start as int, len as int);
    assert(trim_start(v@) == t);
    let mut end: usize = len;
    assert(t.subrange(0, t.len() as int) =~= t);
    while end > start && is_whitespace(v[end - 1])
        invariant
            start <= end <= len == v.len(),
            t == v@.subrange(start as int, len as int),
            trim_end(t) == trim_end(t.subrange(0, end - start)),
        decreases end,
    {
        proof {
            lemma_trim_end_step(t, end - start);
        }
        end = end - 1;
    }
    assert(trim_end(t) == t.subrange(0, end - start));
    let mut r: Vec<char> = Vec::new();
    let mut i = start;
    while i < end
        invariant
            start <= i <= end <= len == v.len(),
            r@ == v@.subrange(start as int, i as int),
        decreases end - i,
    {
        r.push(v[i]);
        assert(v@.subrange(start as int, i + 1) =~= v@.subrange(start as int, i as int).push(
            v@[i as int],
        ));
        i = i + 1;
    }
    assert(r@ =~= t.subrange(0, end - start));
    r
}

/// One character with ASCII upper case mapped to lower case.
pub fn to_ascii_lower_char(c: char) -> (r: char)
    ensures
        r == ascii_lower_char(c),
{
    let v = c as u32;
    if 65 <= v && v <= 90 {
        let b = (v + 32) as u8;
        b as char
    } else {
        c
    }
}

/// The characters of `v` with ASCII upper case mapped to lower case.
pub fn to_ascii_lower(v: &Vec<char>) -> (r: Vec<char>)
    ensures
        r@ == ascii_lower(v@),
{
    let mut r: Vec<char> = Vec::new();
    let mut i: usize = 0;
    while i < v.len()
        invariant
            i <= v.len(),
            r@.len() == i,
            forall|j: int| 0 <= j < i ==> r@[j] == ascii_lower_char(v@[j]),
        decreases v.len() - i,
    {
        r.push(to_ascii_lower_char(v[i]));
        i = i + 1;
    }
    assert(r@ =~= ascii_lower(v@));
    r
}

/// Appends the decimal rendering of `n` to `s`.
pub fn push_decimal(s: &mut String, n: u64)
    ensures
        final(s)@ == old(s)@ + decimal(n as nat),
    decreases n,
{
    if n >= 10 {
        push_decimal(s, n / 10);
    }
    let d = (n % 10) as u8;
    push_char(s, (48u8 + d) as char);
    assert(s@ =~= old(s)@ + decimal(n as nat));
}

/// The decimal rendering of `n`.
pub fn decimal_string(n: u64) -> (s: String)
    ensures
        s@ == decimal(n as nat),
{
    let mut s = String::new();
    push_decimal(&mut s, n);
    assert(s@ =~= decimal(n as nat));
    s
}

/// Appends the UTF-16 code units of `c` to `out`.
pub fn push_utf16_units(out: &mut Vec<u16>, c: char)
    ensures
        final(out)@ == old(out)@ + utf16_of_char(c),
{
    let v = c as u32;
    if v < 0x10000 {
        out.push(v as u16);
    } else {
        let u = v - 0x10000;
        out.push((0xD800 + u / 0x400) as u16);
        out.push((0xDC00 + u % 0x400) as u16);
    }
    assert(out@ =~= old(out)@ + utf16_of_char(c));
}

/// The UTF-16 encoding of `s`.
pub fn encode_utf16(s: &str) -> (r: Vec<u16>)
    ensures
        r@ == utf16_encode(s@),
{
    let chars = str_chars(s);
    let mut r: Vec<u16> = Vec::new();
    let mut i: usize = 0;
    assert(chars@.skip(0) =~= chars@);
    while i < chars.len()
        invariant
            i <= chars.len(),
            chars@ == s@,
            r@ + utf16_encode(chars@.skip(i as int)) == utf16_encode(chars@),
        decreases chars.len() - i,
    {
        assert(chars@.skip(i as int).drop_first() =~= chars@.skip(i + 1));
        push_utf16_units(&mut r, chars[i]);
        i = i + 1;
    }
    assert(chars@.skip(i as int) =~= Seq::<char>::empty());
    assert(r@ + utf16_encode(chars@.skip(i as int)) =~= r@);
    r
}

/// The UTF-16 encoding of `text` followed by a terminating zero unit, as Win32
/// wide-string parameters take it.
pub fn wide_null(text: &str) -> (r: Vec<u16>)
    ensures
        r@ == utf16_encode(text@).push(0u16),
{
    let mut r = encode_utf16(text);
    r.push(0);
    r
}

/// Fills `buffer` with zeros, then copies the zero-terminated UTF-16 encoding
/// of `text` into it, as far as it fits.
pub fn fill_utf16(buffer: &mut [u16], text: &str)
    ensures
        final(buffer)@.len() == old(buffer)@.len(),
        forall|i: int|
            0 <= i < final(buffer)@.len() ==> #[trigger] final(buffer)@[i] == (if i < utf16_encode(
                text@,
            ).push(0u16).len() {
                utf16_encode(text@).push(0u16)[i]
            } else {
                0u16
            }),
{
    let wide = wide_null(text);
    let mut i: usize = 0;
    while i < buffer.len()
        invariant
            i <= buffer.len(),
            buffer@.len() == old(buffer)@.len(),
            wide@ == utf16_encode(text@).push(0u16),
            forall|j: int|
                0 <= j < i ==> #[trigger] buffer@[j] == (if j < wide@.len() {
                    wide@[j]
                } else {
                    0u16
                }),
        decreases buffer.len() - i,
    {
        if i < wide.len() {
            buffer[i] = wide[i];
        } else {
            buffer[i] = 0;
        }
        i = i + 1;
    }
}

/// Lossy decoding of UTF-16 code units into a string.
pub fn decode_utf16_lossy(units: &[u16]) -> (s: String)
    ensures
        s@ == utf16_decode_lossy(units@),
{
    let mut s = String::new();
    let n = units.len();
    let mut i: usize = 0;
    assert(units@.subrange(0, n as int) =~= units@);
    while i < n
        invariant
            i <= n == units.len(),
            s@ + utf16_decode_lossy(units@.subrange(i as int, n as int)) == utf16_decode_lossy(
                units@,
            ),
        decreases n - i,
    {
        let ghost rest = units@.subrange(i as int, n as int);
        let u = units[i];
        if i + 1 < n && 0xD800 <= u && u <= 0xDBFF && 0xDC00 <= units[i + 1] && units[i + 1]
            <= 0xDFFF {
            let lo = units[i + 1];
            let v: u32 = 0x10000 + (u as u32 - 0xD800) * 0x400 + (lo as u32 - 0xDC00);
            let c = char_from_u32(v);
            assert(rest.subrange(2, rest.len() as int) =~= units@.subrange(i + 2, n as int));
            match c {
                Some(c) => push_char(&mut s, c),
                None => {},
            }
            i = i + 2;
        } else if 0xD800 <= u && u <= 0xDFFF {
            assert(rest.drop_first() =~= units@.subrange(i + 1, n as int));
            push_char(&mut s, '\u{FFFD}');
            i = i + 1;
        } else {
            assert(rest.drop_first() =~= units@.subrange(i + 1, n as int));
            let c = char_from_u32(u as u32);
            match c {
                Some(c) => push_char(&mut s, c),
                None => {},
            }
            i = i + 1;
        }
        assert(s@ + utf16_decode_lossy(units@.subrange(i as int, n as int)) =~= utf16_decode_lossy(
            units@,
        ));
    }
    assert(units@.subrange(n as int, n as int) =~= Seq::<u16>::empty());
    assert(s@ + utf16_decode_lossy(units@.subrange(n as int, n as int)) =~= s@);
    s
}

/// Lossy decoding gives back every string that UTF-16 encoding was applied to.
pub proof fn lemma_utf16_round_trip(s: Seq<char>)
    ensures
        utf16_decode_lossy(utf16_encode(s)) == s,
    decreases s.len(),
{
    broadcast use {vstd::utf8::char_is_scalar, vstd::utf8::char_u32_cast};

    if s.len() > 0 {
        let c = s[0];
        let rest = utf16_encode(s.drop_first());
        lemma_utf16_round_trip(s.drop_first());
        let e = utf16_of_char(c) + rest;
        assert(utf16_encode(s) == e);
        let v = c as u32;
        vstd::utf8::char_is_scalar(c);
        assert(v <= 0x10FFFF);
        if v < 0x10000 {
            assert(e[0] == v as u16);
            assert(e.drop_first() =~= rest);
            assert((v as u16) as u32 == v);
            assert(!is_surrogate(e[0]));
            vstd::utf8::char_u32_cast(c, v);
            assert(utf16_decode_lossy(e) == seq![c] + utf16_decode_lossy(rest));
        } else {
            let u = (v - 0x10000) as u32;
            assert(u < 0x100000);
            assert(u / 0x400 < 0x400);
            assert(e.subrange(2, e.len() as int) =~= rest);
            assert(u == (u / 0x400) * 0x400 + u % 0x400);
            let hi = e[0];
            let lo = e[1];
            assert(hi == 0xD800 + u / 0x400);
            assert(lo == 0xDC00 + u % 0x400);
            assert(0x10000 + (hi - 0xD800) * 0x400 + (lo - 0xDC00) == v);
            vstd::utf8::char_u32_cast(c, v);
            assert(surrogate_pair_char(hi, lo) == c);
            assert(utf16_decode_lossy(e) == seq![c] + utf16_decode_lossy(rest));
        }
        assert(seq![c] + s.drop_first() =~= s);
    }
}

/// ASCII lower-case letters mapped to upper case; every other character kept.
pub open spec fn ascii_upper_char(c: char) -> char {
    if 97 <= (c as u32) <= 122 {
        ((c as u32) - 32) as char
    } else {
        c
    }
}

/// `s` with each character passed through [`ascii_upper_char`].
pub open spec fn ascii_upper(s: Seq<char>) -> Seq<char> {
    Seq::new(s.len(), |i: int| ascii_upper_char(s[i]))
}

/// `s` with each character passed through `f`.
pub open spec fn map_chars(s: Seq<char>, f: spec_fn(char) -> char) -> Seq<char> {
    Seq::new(s.len(), |i: int| f(s[i]))
}

/// `f` maps whitespace to whitespace and nothing else to whitespace.
pub open spec fn keeps_whitespace(f: spec_fn(char) -> char) -> bool {
    forall|c: char| #[trigger] is_unicode_whitespace(f(c)) == is_unicode_whitespace(c)
}

proof fn lemma_trim_start_map(s: Seq<char>, f: spec_fn(char) -> char)
    requires
        keeps_whitespace(f),
    ensures
        trim_start(map_chars(s, f)) == map_chars(trim_start(s), f),
    decreases s.len(),
{
    let m = map_chars(s, f);
    if s.len() > 0 {
        assert(m[0] == f(s[0]));
        assert(is_unicode_whitespace(f(s[0])) == is_unicode_whitespace(s[0]));
        if is_unicode_whitespace(s[0]) {
            assert(m.drop_first() =~= map_chars(s.drop_first(), f));
            lemma_trim_start_map(s.drop_first(), f);
        }
    }
}

proof fn lemma_trim_end_map(s: Seq<char>, f: spec_fn(char) -> char)
    requires
        keeps_whitespace(f),
    ensures
        trim_end(map_chars(s, f)) == map_chars(trim_end(s), f),
    decreases s.len(),
{
    let m = map_chars(s, f);
    if s.len() > 0 {
        assert(m.last() == f(s.last()));
        assert(is_unicode_whitespace(f(s.last())) == is_unicode_whitespace(s.last()));
        if is_unicode_whitespace(s.last()) {
            assert(m.drop_last() =~= map_chars(s.drop_last(), f));
            lemma_trim_end_map(s.drop_last(), f);
        }
    }
}

/// Trimming commutes with a character map that keeps whitespace apart.
pub proof fn lemma_trim_map(s: Seq<char>, f: spec_fn(char) -> char)
    requires
        keeps_whitespace(f),
    ensures
        trim(map_chars(s, f)) == map_chars(trim(s), f),
{
    lemma_trim_start_map(s, f);
    lemma_trim_end_map(trim_start(s), f);
}

proof fn lemma_trim_start_shape(s: Seq<char>)
    ensures
        trim_start(s).len() <= s.len(),
        trim_start(s) == s.subrange(s.len() - trim_start(s).len(), s.len() as int),
        trim_start(s).len() > 0 ==> !is_unicode_whitespace(trim_start(s)[0]),
    decreases s.len(),
{
    if s.len() > 0 && is_unicode_whitespace(s[0]) {
        let r = s.drop_first();
        lemma_trim_start_shape(r);
        let k = trim_start(r).len();
        assert(r.subrange(r.len() - k, r.len() as int) =~= s.subrange(s.len() - k, s.len() as int));
    } else {
        assert(s.subrange(0, s.len() as int) =~= s);
    }
}

proof fn lemma_trim_end_shape(s: Seq<char>)
    ensures
        trim_end(s).len() <= s.len(),
        trim_end(s) == s.subrange(0, trim_end(s).len() as int),
        trim_end(s).len() > 0 ==> !is_unicode_whitespace(trim_end(s).last()),
    decreases s.len(),
{
    if s.len() > 0 && is_unicode_whitespace(s.last()) {
        let r = s.drop_last();
        lemma_trim_end_shape(r);
        let k = trim_end(r).len();
        assert(r.subrange(0, k as int) =~= s.subrange(0, k as int));
    } else {
        assert(s.subrange(0, s.len() as int) =~= s);
    }
}

/// Trimming twice is trimming once.
pub proof fn lemma_trim_idempotent(s: Seq<char>)
    ensures
        trim(trim(s)) == trim(s),
{
    let u = trim_start(s);
    let t = trim_end(u);
    lemma_trim_start_shape(s);
    lemma_trim_end_shape(u);
    if t.len() > 0 {
        assert(t[0] == u[0]);
        assert(trim_start(t) == t);
        assert(trim_end(t) == t);
    }
}

/// The ASCII case maps leave whitespace where it was, and lower-casing
/// forgets what either map did to the case.
pub proof fn lemma_ascii_case_maps()
    ensures
        keeps_whitespace(|c: char| ascii_lower_char(c)),
        keeps_whitespace(|c: char| ascii_upper_char(c)),
        forall|c: char| #[trigger] ascii_lower_char(ascii_upper_char(c)) == ascii_lower_char(c),
        forall|c: char| #[trigger] ascii_lower_char(ascii_lower_char(c)) == ascii_lower_char(c),
{
    assert forall|c: char| #[trigger] is_unicode_whitespace(ascii_lower_char(c))
        == is_unicode_whitespace(c) by {
        let v = c as u32;
        if 65 <= v <= 90 {
            assert((((v + 32) as u32) as char) as u32 == v + 32);
        }
    }
    assert forall|c: char| #[trigger] is_unicode_whitespace(ascii_upper_char(c))
        == is_unicode_whitespace(c) by {
        let v = c as u32;
        if 97 <= v <= 122 {
            assert((((v - 32) as u32) as char) as u32 == v - 32);
        }
    }
    assert forall|c: char| #[trigger] ascii_lower_char(ascii_upper_char(c)) == ascii_lower_char(c) by {
        let v = c as u32;
        if 97 <= v <= 122 {
            assert((((v - 32) as u32) as char) as u32 == v - 32);
            vstd::utf8::char_u32_cast(c, v);
        }
    }
    assert forall|c: char| #[trigger] ascii_lower_char(ascii_lower_char(c)) == ascii_lower_char(c) by {
        let v = c as u32;
        if 65 <= v <= 90 {
            assert((((v + 32) as u32) as char) as u32 == v + 32);
        }
    }
}

/// The number that a sequence of decimal digits spells.
pub open spec fn digits_value(s: Seq<char>) -> int
    decreases s.len(),
{
    if s.len() == 0 {
        0
    } else {
        digits_value(s.drop_last()) * 10 + ((s.last() as u32) - 48)
    }
}

/// `decimal(n)` is made of the digits 0 to 9, starts with 0 only for zero
/// itself, and spells `n`.
pub proof fn lemma_decimal_spells(n: nat)
    ensures
        decimal(n).len() > 0,
        forall|i: int| 0 <= i < decimal(n).len() ==> 48 <= (#[trigger] decimal(n)[i]) as u32 <= 57,
        n > 0 ==> decimal(n)[0] != '0',
        digits_value(decimal(n)) == n,
    decreases n,
{
    if n < 10 {
        assert((((48 + n) as u32) as char) as u32 == 48 + n);
        assert(decimal(n).drop_last() =~= Seq::<char>::empty());
        assert(digits_value(decimal(n).drop_last()) == 0);
    } else {
        lemma_decimal_spells(n / 10);
        let d = n % 10;
        assert((((48 + d) as u32) as char) as u32 == 48 + d);
        let s = decimal(n);
        assert(s.drop_last() =~= decimal(n / 10));
        assert(s.last() == digit_char(d));
        assert(digits_value(s) == digits_value(decimal(n / 10)) * 10 + d);
        assert((n / 10) * 10 + d == n);
        assert(s[0] == decimal(n / 10)[0]);
        assert forall|i: int| 0 <= i < s.len() implies 48 <= (#[trigger] s[i]) as u32 <= 57 by {
            if i < s.len() - 1 {
                assert(s[i] == decimal(n / 10)[i]);
            }
        }
    }
}

/// A character below U+10000 is one code unit of the same value; any other
/// is a high surrogate (0xD800 to 0xDBFF) followed by a low one (0xDC00 to
/// 0xDFFF) carrying the value above 0x10000, ten bits each.
pub proof fn lemma_utf16_of_char_units(c: char)
    ensures
        (c as u32) < 0x10000 ==> utf16_of_char(c).len() == 1 && utf16_of_char(c)[0] == c as u32,
        (c as u32) >= 0x10000 ==> {
            let u = utf16_of_char(c);
            &&& u.len() == 2
            &&& 0xD800 <= u[0] <= 0xDBFF
            &&& 0xDC00 <= u[1] <= 0xDFFF
            &&& (u[0] - 0xD800) * 0x400 + (u[1] - 0xDC00) + 0x10000 == c as u32
        },
{
    broadcast use vstd::utf8::char_is_scalar;
    vstd::utf8::char_is_scalar(c);
    let v = c as u32;
    if v >= 0x10000 {
        assert(v <= 0x10FFFF);
        let u = (v - 0x10000) as u32;
        assert(u / 0x400 < 0x400);
        assert(u == (u / 0x400) * 0x400 + u % 0x400);
    }
}

/// Trimming keeps one contiguous piece of the text: everything before it and
/// after it is whitespace, and the piece neither starts nor ends with
/// whitespace.
pub proof fn lemma_trim_piece(s: Seq<char>)
    ensures
        exists|a: int, b: int|
            0 <= a <= b <= s.len() && trim(s) == s.subrange(a, b) && (forall|i: int|
                0 <= i < a ==> is_unicode_whitespace(#[trigger] s[i])) && (forall|i: int|
                b <= i < s.len() ==> is_unicode_whitespace(#[trigger] s[i])),
        trim(s).len() > 0 ==> !is_unicode_whitespace(trim(s)[0]) && !is_unicode_whitespace(
            trim(s).last(),
        ),
{
    let u = trim_start(s);
    lemma_trim_start_shape(s);
    lemma_trim_end_shape(u);
    lemma_trim_start_prefix_ws(s);
    lemma_trim_end_suffix_ws(u);
    let a = s.len() - u.len();
    let t = trim_end(u);
    let b = a + t.len();
    assert(t =~= s.subrange(a, b));
    assert forall|i: int| b <= i < s.len() implies is_unicode_whitespace(#[trigger] s[i]) by {
        assert(s[i] == u[i - a]);
    }
    if t.len() > 0 {
        assert(t[0] == u[0]);
    }
}

proof fn lemma_trim_start_prefix_ws(s: Seq<char>)
    ensures
        trim_start(s).len() <= s.len(),
        forall|i: int| 0 <= i < s.len() - trim_start(s).len() ==> is_unicode_whitespace(#[trigger] s[i]),
    decreases s.len(),
{
    if s.len() > 0 && is_unicode_whitespace(s[0]) {
        let r = s.drop_first();
        lemma_trim_start_prefix_ws(r);
        assert forall|i: int| 0 <= i < s.len() - trim_start(s).len() implies is_unicode_whitespace(
            #[trigger] s[i],
        ) by {
            if i > 0 {
                assert(s[i] == r[i - 1]);
            }
        }
    }
}

proof fn lemma_trim_end_suffix_ws(s: Seq<char>)
    ensures
        trim_end(s).len() <= s.len(),
        forall|i: int| trim_end(s).len() <= i < s.len() ==> is_unicode_whitespace(#[trigger] s[i]),
    decreases s.len(),
{
    if s.len() > 0 && is_unicode_whitespace(s.last()) {
        let r = s.drop_last();
        lemma_trim_end_suffix_ws(r);
        assert forall|i: int| trim_end(s).len() <= i < s.len() implies is_unicode_whitespace(
            #[trigger] s[i],
        ) by {
            if i < s.len() - 1 {
                assert(s[i] == r[i]);
            }
        }
    }
}

} // verus!

//! Whether a process image path belongs to IntelliJ IDEA.
//!
//! The file name of a path is taken as `std::path::Path::file_name` takes it
//! on Windows: a prefix (`C:`, `\\server\share`, `\\?\…`, `\\.\…`) and a root
//! separator are set apart first, then the body is read from the back, one
//! component at a time; empty components and `.` are passed over (a `.` ends
//! a verbatim path), `..` has no file name, anything else is the file name.
use vstd::prelude::*;

use crate::text::{
    ascii_lower, chars_eq_str, decode_utf16_lossy, str_chars, to_ascii_lower, utf16_decode_lossy,
};

verus! {

/// `c` separates components: `\` always, `/` too outside verbatim paths.
pub open spec fn is_separator(c: char, verbatim: bool) -> bool {
    c == '\\' || (!verbatim && c == '/')
}

/// The character at `i` as the prefix is recognised: among the first eight,
/// `/` reads as `\`.
pub open spec fn prefix_char(p: Seq<char>, i: int) -> char {
    if i < 8 && p[i] == '/' {
        '\\'
    } else {
        p[i]
    }
}

/// The prefix reading of `p` has `c` at `i`.
pub open spec fn prefix_char_is(p: Seq<char>, i: int, c: char) -> bool {
    0 <= i < p.len() && prefix_char(p, i) == c
}

/// Where the first separator at or after `from` stands, or the length.
pub open spec fn next_separator(p: Seq<char>, from: int, verbatim: bool) -> int
    decreases p.len() - from,
{
    if from >= p.len() {
        p.len() as int
    } else if is_separator(p[from], verbatim) {
        from
    } else {
        next_separator(p, from + 1, verbatim)
    }
}

pub open spec fn is_ascii_letter(c: char) -> bool {
    let v = c as u32;
    (65 <= v <= 90) || (97 <= v <= 122)
}

/// `p` starts with `\\?\` written with backslashes only.
pub open spec fn is_verbatim_start(p: Seq<char>) -> bool {
    &&& p.len() >= 4
    &&& p[0] == '\\'
    &&& p[1] == '\\'
    &&& p[2] == '?'
    &&& p[3] == '\\'
}

/// The length of the Windows prefix of `p` (0 when there is none), and
/// whether the path is verbatim (`\\?\`):
/// `\\?\UNC\server\share`, `\\?\name`, `\\.\device`, `\\server\share`, `C:`.
pub open spec fn path_prefix(p: Seq<char>) -> (int, bool) {
    if prefix_char_is(p, 0, '\\') && prefix_char_is(p, 1, '\\') {
        if is_verbatim_start(p) {
            if prefix_char_is(p, 4, 'U') && prefix_char_is(p, 5, 'N') && prefix_char_is(p, 6, 'C')
                && prefix_char_is(p, 7, '\\') {
                let server_end = next_separator(p, 8, true);
                let share_end = next_separator(p, server_end + 1, true);
                if server_end < p.len() && share_end > server_end + 1 {
                    (share_end, true)
                } else {
                    (server_end, true)
                }
            } else {
                (next_separator(p, 4, true), true)
            }
        } else if prefix_char_is(p, 2, '.') && prefix_char_is(p, 3, '\\') {
            (next_separator(p, 4, false), false)
        } else {
            let server_end = next_separator(p, 2, false);
            let share_end = next_separator(p, server_end + 1, false);
            if 2 < server_end < p.len() && share_end > server_end + 1 {
                (share_end, false)
            } else {
                (0, false)
            }
        }
    } else if p.len() >= 2 && is_ascii_letter(p[0]) && p[1] == ':' {
        (2, false)
    } else {
        (0, false)
    }
}

/// Where the body of `p` starts: after its prefix and a root separator.
pub open spec fn body_start(p: Seq<char>) -> int {
    let plen = path_prefix(p).0;
    if plen < p.len() && (p[plen] == '\\' || p[plen] == '/') {
        plen + 1
    } else {
        plen
    }
}

/// Where the last component of `p[start..end]` starts.
pub open spec fn component_start(p: Seq<char>, start: int, end: int, verbatim: bool) -> int
    decreases end - start,
{
    if end <= start {
        start
    } else if is_separator(p[end - 1], verbatim) {
        end
    } else {
        component_start(p, start, end - 1, verbatim)
    }
}

pub open spec fn is_dot(s: Seq<char>) -> bool {
    s.len() == 1 && s[0] == '.'
}

pub open spec fn is_dot_dot(s: Seq<char>) -> bool {
    s.len() == 2 && s[0] == '.' && s[1] == '.'
}

/// The file name of the components of `p[start..end]`, read from the back.
pub open spec fn last_file_name(p: Seq<char>, start: int, end: int, verbatim: bool) -> Option<
    Seq<char>,
>
    decreases end - start,
{
    if end <= start {
        None
    } else {
        let c = component_start(p, start, end, verbatim);
        let comp = p.subrange(c, end);
        let next_end = if start < c <= end {
            c - 1
        } else {
            start
        };
        if comp.len() == 0 || (!verbatim && is_dot(comp)) {
            last_file_name(p, start, next_end, verbatim)
        } else if is_dot(comp) || is_dot_dot(comp) {
            None
        } else {
            Some(comp)
        }
    }
}

/// The file name of a Windows path, as `Path::file_name` gives it.
pub open spec fn spec_file_name(p: Seq<char>) -> Option<Seq<char>> {
    last_file_name(p, body_start(p), p.len() as int, path_prefix(p).1)
}

/// The image is IDEA's launcher: its file name is `idea64.exe` or `idea.exe`,
/// in any ASCII case.
pub open spec fn spec_is_idea_path(path: Seq<char>) -> bool {
    match spec_file_name(path) {
        Some(name) => ascii_lower(name) == "idea64.exe"@ || ascii_lower(name) == "idea.exe"@,
        None => false,
    }
}

fn is_separator_char(c: char, verbatim: bool) -> (r: bool)
    ensures
        r == is_separator(c, verbatim),
{
    c == '\\' || (!verbatim && c == '/')
}

fn prefix_char_at(p: &Vec<char>, i: usize, c: char) -> (r: bool)
    ensures
        r == prefix_char_is(p@, i as int, c),
{
    if i >= p.len() {
        return false;
    }
    let seen = if i < 8 && p[i] == '/' {
        '\\'
    } else {
        p[i]
    };
    seen == c
}

fn find_separator(p: &Vec<char>, from: usize, verbatim: bool) -> (r: usize)
    ensures
        r == next_separator(p@, from as int, verbatim),
        r <= p.len(),
{
    let mut i = from;
    if i > p.len() {
        i = p.len();
    }
    while i < p.len() && !is_separator_char(p[i], verbatim)
        invariant
            i <= p.len(),
            next_separator(p@, from as int, verbatim) == next_separator(p@, i as int, verbatim),
        decreases p.len() - i,
    {
        i = i + 1;
    }
    i
}

fn find_prefix(p: &Vec<char>) -> (r: (usize, bool))
    ensures
        (r.0 as int, r.1) == path_prefix(p@),
        r.0 <= p.len(),
{
    if prefix_char_at(p, 0, '\\') && prefix_char_at(p, 1, '\\') {
        if p.len() >= 4 && p[0] == '\\' && p[1] == '\\' && p[2] == '?' && p[3] == '\\' {
            if prefix_char_at(p, 4, 'U') && prefix_char_at(p, 5, 'N') && prefix_char_at(p, 6, 'C')
                && prefix_char_at(p, 7, '\\') {
                let server_end = find_separator(p, 8, true);
                if server_end < p.len() {
                    let share_end = find_separator(p, server_end + 1, true);
                    if share_end > server_end + 1 {
                        return (share_end, true);
                    }
                }
                (server_end, true)
            } else {
                (find_separator(p, 4, true), true)
            }
        } else if prefix_char_at(p, 2, '.') && prefix_char_at(p, 3, '\\') {
            (find_separator(p, 4, false), false)
        } else {
            let server_end = find_separator(p, 2, false);
            if 2 < server_end && server_end < p.len() {
                let share_end = find_separator(p, server_end + 1, false);
                if share_end > server_end + 1 {
                    return (share_end, false);
                }
            }
            (0, false)
        }
    } else if p.len() >= 2 && is_ascii_letter_char(p[0]) && p[1] == ':' {
        (2, false)
    } else {
        (0, false)
    }
}

fn is_ascii_letter_char(c: char) -> (r: bool)
    ensures
        r == is_ascii_letter(c),
{
    let v = c as u32;
    (65 <= v && v <= 90) || (97 <= v && v <= 122)
}

/// Where the file name of the path in `p` stands, as `p[start..end]`, or
/// `None` when the path has none.
pub fn file_name_range(p: &Vec<char>) -> (r: Option<(usize, usize)>)
    ensures
        r is None ==> spec_file_name(p@) is None,
        r matches Some((a, b)) ==> a <= b <= p.len() && spec_file_name(p@) == Some(
            p@.subrange(a as int, b as int),
        ),
{
    let (plen, verbatim) = find_prefix(p);
    let start = if plen < p.len() && (p[plen] == '\\' || p[plen] == '/') {
        plen + 1
    } else {
        plen
    };
    assert(start == body_start(p@));
    let mut end = p.len();
    while end > start
        invariant
            start <= end <= p.len(),
            verbatim == path_prefix(p@).1,
            start == body_start(p@),
            spec_file_name(p@) == last_file_name(p@, start as int, end as int, verbatim),
        decreases end,
    {
        let mut c = end;
        while c > start && !is_separator_char(p[c - 1], verbatim)
            invariant
                start <= c <= end <= p.len(),
                component_start(p@, start as int, end as int, verbatim) == component_start(
                    p@,
                    start as int,
                    c as int,
                    verbatim,
                ),
            decreases c,
        {
            c = c - 1;
        }
        assert(component_start(p@, start as int, c as int, verbatim) == c);
        let ghost comp = p@.subrange(c as int, end as int);
        let len = end - c;
        let dot = len == 1 && p[c] == '.';
        let dot_dot = len == 2 && p[c] == '.' && p[c + 1] == '.';
        assert(dot == is_dot(comp));
        assert(dot_dot == is_dot_dot(comp));
        if len == 0 || (!verbatim && dot) {
            end = if c > start {
                c - 1
            } else {
                start
            };
        } else if dot || dot_dot {
            return None;
        } else {
            return Some((c, end));
        }
    }
    None
}

/// Whether a full process image path, as the UTF-16 units that
/// `QueryFullProcessImageNameW` wrote (decoded lossily), names IDEA's
/// launcher: its file name, taken as `Path::file_name` takes it on Windows,
/// is `idea64.exe` or `idea.exe` in any ASCII case.
pub fn is_idea_image_path(path_units: &[u16]) -> (r: bool)
    ensures
        r == spec_is_idea_path(utf16_decode_lossy(path_units@)),
{
    let path = decode_utf16_lossy(path_units);
    let chars = str_chars(path.as_str());
    match file_name_range(&chars) {
        None => false,
        Some((start, end)) => {
            let mut name: Vec<char> = Vec::new();
            let mut i = start;
            while i < end
                invariant
                    start <= i <= end <= chars.len(),
                    name@ == chars@.subrange(start as int, i as int),
                decreases end - i,
            {
                name.push(chars[i]);
                assert(chars@.subrange(start as int, i + 1) =~= chars@.subrange(
                    start as int,
                    i as int,
                ).push(chars@[i as int]));
                i = i + 1;
            }
            let lowered = to_ascii_lower(&name);
            chars_eq_str(lowered.as_slice(), "idea64.exe") || chars_eq_str(
                lowered.as_slice(),
                "idea.exe",
            )
        },
    }
}

// ───────────────────────── laws of the file name ─────────────────────────

proof fn lemma_component_start_at(p: Seq<char>, start: int, end: int, verbatim: bool, k: int)
    requires
        start <= k <= end,
        forall|j: int| k <= j < end ==> !is_separator(#[trigger] p[j], verbatim),
        k == start || is_separator(p[k - 1], verbatim),
    ensures
        component_start(p, start, end, verbatim) == k,
    decreases end - start,
{
    if end > k {
        lemma_component_start_at(p, start, end - 1, verbatim, k);
    }
}

proof fn lemma_component_start_agree(
    p1: Seq<char>,
    p2: Seq<char>,
    start: int,
    end: int,
    verbatim: bool,
)
    requires
        0 <= start,
        end <= p1.len(),
        end <= p2.len(),
        forall|j: int| start <= j < end ==> p1[j] == p2[j],
    ensures
        component_start(p1, start, end, verbatim) == component_start(p2, start, end, verbatim),
        start <= end ==> start <= component_start(p1, start, end, verbatim) <= end,
    decreases end - start,
{
    if end > start {
        lemma_component_start_agree(p1, p2, start, end - 1, verbatim);
    }
}

/// The file name read between `start` and `end` depends on those characters
/// only.
proof fn lemma_last_file_name_agree(
    p1: Seq<char>,
    p2: Seq<char>,
    start: int,
    end: int,
    verbatim: bool,
)
    requires
        0 <= start,
        end <= p1.len(),
        end <= p2.len(),
        forall|j: int| start <= j < end ==> p1[j] == p2[j],
    ensures
        last_file_name(p1, start, end, verbatim) == last_file_name(p2, start, end, verbatim),
    decreases end - start,
{
    if end > start {
        lemma_component_start_agree(p1, p2, start, end, verbatim);
        let c = component_start(p1, start, end, verbatim);
        assert(p1.subrange(c, end) =~= p2.subrange(c, end));
        let next_end = if start < c <= end {
            c - 1
        } else {
            start
        };
        lemma_last_file_name_agree(p1, p2, start, next_end, verbatim);
    }
}

/// `name` is an ordinary component: not empty, free of separators, and
/// neither `.` nor `..`.
pub open spec fn is_plain_name(name: Seq<char>, verbatim: bool) -> bool {
    &&& name.len() > 0
    &&& forall|j: int| 0 <= j < name.len() ==> !is_separator(#[trigger] name[j], verbatim)
    &&& !(name.len() == 1 && name[0] == '.')
    &&& !(name.len() == 2 && name[0] == '.' && name[1] == '.')
}

/// On a drive (`X:`), the file name of a path that ends in `\` and an
/// ordinary component is that component, whatever comes between.
pub proof fn lemma_file_name_on_drive(letter: char, middle: Seq<char>, name: Seq<char>)
    requires
        is_ascii_letter(letter),
        is_plain_name(name, false),
    ensures
        spec_file_name(seq![letter, ':'] + middle + seq!['\\'] + name) == Some(name),
{
    let p = seq![letter, ':'] + middle + seq!['\\'] + name;
    let k = (3 + middle.len()) as int;
    assert(p[0] == letter && p[1] == ':');
    assert(!prefix_char_is(p, 0, '\\'));
    assert(path_prefix(p) == (2int, false));
    assert(p[k - 1] == '\\');
    assert forall|j: int| k <= j < p.len() implies !is_separator(#[trigger] p[j], false) by {
        assert(p[j] == name[j - k]);
    }
    let bs = body_start(p);
    assert(bs <= 3);
    lemma_component_start_at(p, bs, p.len() as int, false, k);
    assert(p.subrange(k, p.len() as int) =~= name);
}

/// In a verbatim path (`\\?\X:\…`) only `\` separates components: the file
/// name after the last `\` is taken whole, `/` included.
pub proof fn lemma_file_name_verbatim(letter: char, middle: Seq<char>, name: Seq<char>)
    requires
        is_ascii_letter(letter),
        is_plain_name(name, true),
    ensures
        spec_file_name(seq!['\\', '\\', '?', '\\', letter, ':', '\\'] + middle + seq!['\\'] + name)
            == Some(name),
{
    let head = seq!['\\', '\\', '?', '\\', letter, ':', '\\'];
    let p = head + middle + seq!['\\'] + name;
    let k = (8 + middle.len()) as int;
    assert(p[0] == '\\' && p[1] == '\\' && p[2] == '?' && p[3] == '\\' && p[4] == letter && p[6]
        == '\\');
    assert(is_verbatim_start(p));
    assert(letter != 'U' || p[5] != 'N');
    assert(!prefix_char_is(p, 5, 'N'));
    assert(p[5] == ':');
    lemma_next_separator_at(p, 4, 6, true);
    assert(path_prefix(p) == (6int, true));
    assert(body_start(p) == 7);
    assert(p[k - 1] == '\\');
    assert forall|j: int| k <= j < p.len() implies !is_separator(#[trigger] p[j], true) by {
        assert(p[j] == name[j - k]);
    }
    lemma_component_start_at(p, 7, p.len() as int, true, k);
    assert(p.subrange(k, p.len() as int) =~= name);
}

/// On a drive, a trailing `\` or a trailing `\.` leaves the file name as it
/// was, and a trailing `\..` leaves none.
pub proof fn lemma_file_name_trailing(letter: char, rest: Seq<char>)
    requires
        is_ascii_letter(letter),
    ensures
        spec_file_name(seq![letter, ':'] + rest + seq!['\\']) == spec_file_name(
            seq![letter, ':'] + rest,
        ),
        spec_file_name(seq![letter, ':'] + rest + seq!['\\', '.']) == spec_file_name(
            seq![letter, ':'] + rest,
        ),
        spec_file_name(seq![letter, ':'] + rest + seq!['\\', '.', '.']) is None,
{
    let p = seq![letter, ':'] + rest;
    let q1 = p + seq!['\\'];
    let q2 = p + seq!['\\', '.'];
    let q3 = p + seq!['\\', '.', '.'];
    assert(seq![letter, ':'] + rest + seq!['\\'] == q1);
    assert(seq![letter, ':'] + rest + seq!['\\', '.'] == q2);
    assert(seq![letter, ':'] + rest + seq!['\\', '.', '.'] == q3);
    assert(p[0] == letter && q1[0] == letter && q2[0] == letter && q3[0] == letter);
    assert(q1[1] == ':' && q2[1] == ':' && q3[1] == ':');
    assert(!prefix_char_is(p, 0, '\\') && !prefix_char_is(q1, 0, '\\'));
    assert(!prefix_char_is(q2, 0, '\\') && !prefix_char_is(q3, 0, '\\'));
    assert(path_prefix(p) == (2int, false));
    assert(path_prefix(q1) == (2int, false));
    assert(path_prefix(q2) == (2int, false));
    assert(path_prefix(q3) == (2int, false));
    let n = p.len() as int;
    assert forall|j: int| 0 <= j < n implies p[j] == q1[j] && p[j] == q2[j] && p[j] == q3[j] by {}
    if n == 2 {
        assert(body_start(p) == 2);
        assert(body_start(q1) == 3);
        assert(spec_file_name(q1) is None);
        assert(body_start(q2) == 3);
        lemma_component_start_at(q2, 3, 4, false, 3);
        assert(q2.subrange(3, 4) =~= seq!['.']);
        assert(spec_file_name(q2) == last_file_name(q2, 3, 3, false));
        assert(body_start(q3) == 3);
        lemma_component_start_at(q3, 3, 5, false, 3);
        assert(q3.subrange(3, 5) =~= seq!['.', '.']);
    } else {
        let bs = body_start(p);
        assert(body_start(q1) == bs && body_start(q2) == bs && body_start(q3) == bs);
        assert(bs <= n);
        lemma_last_file_name_agree(p, q1, bs, n, false);
        lemma_last_file_name_agree(p, q2, bs, n, false);
        lemma_component_start_at(q1, bs, n + 1, false, n + 1);
        assert(q1.subrange(n + 1, n + 1) =~= Seq::<char>::empty());
        lemma_component_start_at(q2, bs, n + 2, false, n + 1);
        assert(q2.subrange(n + 1, n + 2) =~= seq!['.']);
        lemma_component_start_at(q3, bs, n + 3, false, n + 1);
        assert(q3.subrange(n + 1, n + 3) =~= seq!['.', '.']);
    }
}

/// A path that is only `\\server\share` names a network share, not a file:
/// it has no file name.
pub proof fn lemma_share_has_no_file_name(server: Seq<char>, share: Seq<char>)
    requires
        is_plain_name(server, false),
        is_plain_name(share, false),
    ensures
        spec_file_name(seq!['\\', '\\'] + server + seq!['\\'] + share) is None,
{
    let p = seq!['\\', '\\'] + server + seq!['\\'] + share;
    let s_end = (2 + server.len()) as int;
    assert(p[0] == '\\' && p[1] == '\\');
    assert(p[2] == server[0]);
    assert forall|j: int| 2 <= j < s_end implies !is_separator(#[trigger] p[j], false) by {
        assert(p[j] == server[j - 2]);
    }
    assert(p[s_end] == '\\');
    lemma_next_separator_at(p, 2, s_end, false);
    assert forall|j: int| s_end + 1 <= j < p.len() implies !is_separator(#[trigger] p[j], false) by {
        assert(p[j] == share[j - s_end - 1]);
    }
    lemma_next_separator_at(p, s_end + 1, p.len() as int, false);
    if is_verbatim_start(p) {
        // `\\?\` followed by the share: the whole path is a verbatim prefix
        assert(server.len() == 1);
        if prefix_char_is(p, 7, '\\') {
            assert(p[7] == share[3]);
        }
        assert forall|j: int| 4 <= j < p.len() implies !is_separator(#[trigger] p[j], true) by {
            assert(p[j] == share[j - s_end - 1]);
        }
        lemma_next_separator_at(p, 4, p.len() as int, true);
    } else if prefix_char_is(p, 2, '.') && prefix_char_is(p, 3, '\\') {
        // `\\.\` followed by the share: the whole path is a device name
        assert(server.len() == 1);
        assert forall|j: int| 4 <= j < p.len() implies !is_separator(#[trigger] p[j], false) by {
            assert(p[j] == share[j - s_end - 1]);
        }
        lemma_next_separator_at(p, 4, p.len() as int, false);
    }
    assert(path_prefix(p).0 == p.len());
}

proof fn lemma_next_separator_at(p: Seq<char>, from: int, k: int, verbatim: bool)
    requires
        0 <= from <= k <= p.len(),
        forall|j: int| from <= j < k ==> !is_separator(#[trigger] p[j], verbatim),
        k == p.len() || is_separator(p[k], verbatim),
    ensures
        next_separator(p, from, verbatim) == k,
    decreases k - from,
{
    if from < k {
        lemma_next_separator_at(p, from + 1, k, verbatim);
    }
}

/// On a drive, a path whose last component is `name` is IDEA's launcher
/// exactly when `name`, with ASCII letters lower-cased, is `idea64.exe` or
/// `idea.exe`.
pub proof fn lemma_idea_path_on_drive(letter: char, middle: Seq<char>, name: Seq<char>)
    requires
        is_ascii_letter(letter),
        is_plain_name(name, false),
    ensures
        spec_is_idea_path(seq![letter, ':'] + middle + seq!['\\'] + name) == (ascii_lower(name)
            == "idea64.exe"@ || ascii_lower(name) == "idea.exe"@),
{
    lemma_file_name_on_drive(letter, middle, name);
}

} // verus!

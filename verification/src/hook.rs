//! The keyboard listener's rules: recording a key for the alias window,
//! typing an alias's text, and recognising `//` (two slashes in quick
//! succession), `/**` followed by Enter, and a plain Enter.
//!
//! Times are monotonic timestamps in nanoseconds; the caller reads the clock.
use vstd::prelude::*;

use crate::char_alias::{
    alias_views, binding_from_current_keyboard, CharacterAlias, CharacterAliasView, KeyBinding,
    KeyModifiers, spec_is_modifier_vk,
};
use crate::text::{encode_utf16, utf16_encode};

verus! {

/// What the listener reports to the application.
#[derive(Clone, Copy, Debug, PartialEq, Eq, Structural)]
pub enum HookEvent {
    /// `/` typed twice within the slash window.
    SlashSequence,
    /// Enter typed after `/**`, each key within the doc-comment window.
    DocCommentEnter,
    /// Any other Enter.
    EnterPressed,
}

/// The longest pause between two slashes that still makes `//`.
pub const SLASH_TRIGGER_WINDOW_NANOS: u64 = 300_000_000;
/// The longest pause between the keys of `/**` and Enter.
pub const DOC_COMMENT_TRIGGER_WINDOW_NANOS: u64 = 2_000_000_000;
/// Virtual-key codes the listener looks at.
pub const VK_RETURN: u16 = 0x0D;
pub const VK_OEM_2: u16 = 0xBF;
pub const VK_8: u16 = 0x38;
pub const VK_MULTIPLY: u16 = 0x6A;

/// The listener's memory of recent keys.
#[derive(Clone, Copy, Debug, PartialEq, Eq, Structural)]
pub struct HookState {
    /// When the last `/` was typed.
    pub last_slash_at: Option<u64>,
    /// How much of `/**` has been typed: 0 none, 1 `/`, 2 `/*`, 3 `/**`.
    pub doc_comment_stage: u8,
    /// When the last key of `/**` was typed.
    pub last_doc_comment_at: Option<u64>,
}

impl Default for HookState {
    fn default() -> (r: Self)
        ensures
            r == initial_hook_state(),
    {
        HookState { last_slash_at: None, doc_comment_stage: 0, last_doc_comment_at: None }
    }
}

pub open spec fn initial_hook_state() -> HookState {
    HookState { last_slash_at: None, doc_comment_stage: 0, last_doc_comment_at: None }
}

/// How long ago `then` was, as seen at `now`; zero when `then` is later.
pub open spec fn elapsed(now: u64, then: u64) -> int {
    if now >= then {
        now - then
    } else {
        0
    }
}

pub open spec fn spec_is_doc_comment_active(s: HookState, now: u64) -> bool {
    match s.last_doc_comment_at {
        Some(last) => elapsed(now, last) <= DOC_COMMENT_TRIGGER_WINDOW_NANOS,
        None => false,
    }
}

pub open spec fn reset_doc_comment(s: HookState) -> HookState {
    HookState { doc_comment_stage: 0, last_doc_comment_at: None, ..s }
}

/// A `/`: it completes `//` when the previous one was recent enough, and it
/// starts a new `/**`.
pub open spec fn spec_slash(s: HookState, now: u64) -> (HookState, Option<HookEvent>) {
    let trigger = match s.last_slash_at {
        Some(last) => elapsed(now, last) <= SLASH_TRIGGER_WINDOW_NANOS,
        None => false,
    };
    (
        HookState {
            last_slash_at: Some(now),
            doc_comment_stage: 1,
            last_doc_comment_at: Some(now),
        },
        if trigger {
            Some(HookEvent::SlashSequence)
        } else {
            None
        },
    )
}

/// A `*`: it advances `/**` while that is recent and not complete, and
/// otherwise forgets it.
pub open spec fn spec_star(s: HookState, now: u64) -> HookState {
    if spec_is_doc_comment_active(s, now) && (s.doc_comment_stage == 1 || s.doc_comment_stage
        == 2) {
        HookState {
            doc_comment_stage: (s.doc_comment_stage + 1) as u8,
            last_doc_comment_at: Some(now),
            ..s
        }
    } else {
        reset_doc_comment(s)
    }
}

/// An Enter: it ends `/**` in a doc-comment event when that is complete and
/// recent, is a plain Enter otherwise, and always forgets `/**`.
pub open spec fn spec_enter(s: HookState, now: u64) -> (HookState, HookEvent) {
    (
        reset_doc_comment(s),
        if s.doc_comment_stage == 3 && spec_is_doc_comment_active(s, now) {
            HookEvent::DocCommentEnter
        } else {
            HookEvent::EnterPressed
        },
    )
}

pub open spec fn spec_is_star_key(code: u16, shift_pressed: bool) -> bool {
    code == VK_MULTIPLY || (code == VK_8 && shift_pressed)
}

/// Any other key: modifier keys change nothing, the rest forget `/**`.
pub open spec fn spec_other_key(s: HookState, code: u16) -> HookState {
    if spec_is_modifier_vk(code) {
        s
    } else {
        reset_doc_comment(s)
    }
}

/// One key press seen by the sequence recogniser.
pub open spec fn spec_key(s: HookState, code: u16, shift_pressed: bool, now: u64) -> (
    HookState,
    Option<HookEvent>,
) {
    if code == VK_OEM_2 {
        spec_slash(s, now)
    } else if spec_is_star_key(code, shift_pressed) {
        (spec_star(s, now), None)
    } else if code == VK_RETURN {
        (spec_enter(s, now).0, Some(spec_enter(s, now).1))
    } else {
        (spec_other_key(s, code), None)
    }
}

/// Whether the last key of `/**` was typed within the doc-comment window.
pub fn is_doc_comment_active(state: &HookState, now: u64) -> (r: bool)
    ensures
        r == spec_is_doc_comment_active(*state, now),
{
    match state.last_doc_comment_at {
        Some(last) => now.saturating_sub(last) <= DOC_COMMENT_TRIGGER_WINDOW_NANOS,
        None => false,
    }
}

/// Forgets any partly typed `/**`.
pub fn reset_doc_comment_state(state: &mut HookState)
    ensures
        *final(state) == reset_doc_comment(*old(state)),
{
    state.doc_comment_stage = 0;
    state.last_doc_comment_at = None;
}

/// Handles a `/`; returns the event it completes, if any.
pub fn handle_slash_event(state: &mut HookState, now: u64) -> (r: Option<HookEvent>)
    ensures
        (*final(state), r) == spec_slash(*old(state), now),
{
    let should_trigger = match state.last_slash_at {
        Some(last) => now.saturating_sub(last) <= SLASH_TRIGGER_WINDOW_NANOS,
        None => false,
    };
    state.last_slash_at = Some(now);
    state.doc_comment_stage = 1;
    state.last_doc_comment_at = Some(now);
    if should_trigger {
        Some(HookEvent::SlashSequence)
    } else {
        None
    }
}

/// Handles a `*`.
pub fn handle_star_event(state: &mut HookState, now: u64)
    ensures
        *final(state) == spec_star(*old(state), now),
{
    if is_doc_comment_active(state, now) {
        if state.doc_comment_stage == 1 || state.doc_comment_stage == 2 {
            state.doc_comment_stage = state.doc_comment_stage + 1;
            state.last_doc_comment_at = Some(now);
            return ;
        }
    }
    reset_doc_comment_state(state);
}

/// Handles an Enter; returns the event it stands for.
pub fn handle_enter_event(state: &mut HookState, now: u64) -> (r: HookEvent)
    ensures
        (*final(state), r) == spec_enter(*old(state), now),
{
    let should_trigger = state.doc_comment_stage == 3 && is_doc_comment_active(state, now);
    reset_doc_comment_state(state);
    if should_trigger {
        HookEvent::DocCommentEnter
    } else {
        HookEvent::EnterPressed
    }
}

/// Whether `code` is a Ctrl, Alt or Shift key.
pub fn is_modifier_key(code: u16) -> (r: bool)
    ensures
        r == spec_is_modifier_vk(code),
{
    code == 0x10 || code == 0xA0 || code == 0xA1 || code == 0x11 || code == 0xA2 || code == 0xA3
        || code == 0x12 || code == 0xA4 || code == 0xA5
}

/// Handles any other key.
pub fn handle_other_key_event(state: &mut HookState, code: u16)
    ensures
        *final(state) == spec_other_key(*old(state), code),
{
    if is_modifier_key(code) {
        return ;
    }
    reset_doc_comment_state(state);
}

/// Whether `code` types `*`: the keypad key, or 8 with Shift held.
pub fn is_star_key(code: u16, shift_pressed: bool) -> (r: bool)
    ensures
        r == spec_is_star_key(code, shift_pressed),
{
    code == VK_MULTIPLY || (code == VK_8 && shift_pressed)
}

/// Feeds one key press to the sequence recogniser; returns the event to report.
pub fn handle_key(state: &mut HookState, code: u16, shift_pressed: bool, now: u64) -> (r: Option<
    HookEvent,
>)
    ensures
        (*final(state), r) == spec_key(*old(state), code, shift_pressed, now),
{
    if code == VK_OEM_2 {
        handle_slash_event(state, now)
    } else if is_star_key(code, shift_pressed) {
        handle_star_event(state, now);
        None
    } else if code == VK_RETURN {
        Some(handle_enter_event(state, now))
    } else {
        handle_other_key_event(state, code);
        None
    }
}

// ───────────────────────── laws of the sequence recogniser ─────────────────────────

/// A second `/` typed within the slash window after a first one reports `//`;
/// typed later, it reports nothing.
pub proof fn lemma_double_slash(s: HookState, t1: u64, t2: u64)
    requires
        t1 <= t2,
    ensures
        spec_slash(spec_slash(s, t1).0, t2).1 == (if t2 - t1 <= SLASH_TRIGGER_WINDOW_NANOS {
            Some(HookEvent::SlashSequence)
        } else {
            None::<HookEvent>
        }),
{
}

/// A first `/` after anything but a recent `/` reports nothing.
pub proof fn lemma_single_slash_is_silent(s: HookState, now: u64)
    requires
        s.last_slash_at is None,
    ensures
        spec_slash(s, now).1 is None,
{
}

/// `/`, `*`, `*` and Enter, each within the doc-comment window of the one
/// before, report the doc-comment event, whatever came before them.
pub proof fn lemma_doc_comment_sequence(s: HookState, t0: u64, t1: u64, t2: u64, t3: u64)
    requires
        t0 <= t1 <= t2 <= t3,
        t1 - t0 <= DOC_COMMENT_TRIGGER_WINDOW_NANOS,
        t2 - t1 <= DOC_COMMENT_TRIGGER_WINDOW_NANOS,
        t3 - t2 <= DOC_COMMENT_TRIGGER_WINDOW_NANOS,
    ensures
        spec_enter(spec_star(spec_star(spec_slash(s, t0).0, t1), t2), t3).1
            == HookEvent::DocCommentEnter,
{
}

/// The doc-comment event needs the whole `/**`: Enter right after `/*`
/// (stage 2) is a plain Enter.
pub proof fn lemma_incomplete_doc_comment(s: HookState, t0: u64, t1: u64, t2: u64)
    requires
        t0 <= t1 <= t2,
    ensures
        spec_enter(spec_star(spec_slash(s, t0).0, t1), t2).1 == HookEvent::EnterPressed,
{
}

/// A pause longer than the doc-comment window before Enter makes it a plain
/// Enter.
pub proof fn lemma_doc_comment_times_out(s: HookState, now: u64)
    requires
        s.last_doc_comment_at matches Some(last) && now >= last && now - last
            > DOC_COMMENT_TRIGGER_WINDOW_NANOS,
    ensures
        spec_enter(s, now).1 == HookEvent::EnterPressed,
{
}

/// Every Enter forgets `/**`, so a second Enter is always a plain one.
pub proof fn lemma_enter_resets(s: HookState, t1: u64, t2: u64)
    ensures
        spec_enter(s, t1).0.doc_comment_stage == 0,
        spec_enter(s, t1).0.last_doc_comment_at is None,
        spec_enter(spec_enter(s, t1).0, t2).1 == HookEvent::EnterPressed,
{
}

/// Holding or pressing a modifier key does not disturb a sequence being typed.
pub proof fn lemma_modifiers_transparent(s: HookState, code: u16, shift_pressed: bool, now: u64)
    requires
        spec_is_modifier_vk(code),
    ensures
        spec_key(s, code, shift_pressed, now) == (s, None::<HookEvent>),
{
}

/// The stage of `/**` never goes beyond 3.
pub proof fn lemma_stage_bounded(s: HookState, code: u16, shift_pressed: bool, now: u64)
    requires
        s.doc_comment_stage <= 3,
    ensures
        spec_key(s, code, shift_pressed, now).0.doc_comment_stage <= 3,
{
}

/// Key by key: two presses of the `/` key (0xBF) report `//` exactly when the
/// second comes within the slash window of the first, whatever modifiers
/// are held.
pub proof fn lemma_keys_double_slash(s: HookState, sh1: bool, sh2: bool, t1: u64, t2: u64)
    requires
        t1 <= t2,
    ensures
        spec_key(s, 0xBF, sh1, t1).1 is None || s.last_slash_at is Some,
        spec_key(spec_key(s, 0xBF, sh1, t1).0, 0xBF, sh2, t2).1 == (if t2 - t1 <= 300_000_000 {
            Some(HookEvent::SlashSequence)
        } else {
            None::<HookEvent>
        }),
{
}

/// Key by key: `/`, two stars (the keypad `*`, 0x6A, or Shift+8) and Enter
/// (0x0D), each within two seconds of the one before, report the doc-comment
/// event; 8 without Shift is no star and forgets `/**`.
pub proof fn lemma_keys_doc_comment(
    s: HookState,
    star1: u16,
    shift1: bool,
    star2: u16,
    shift2: bool,
    t0: u64,
    t1: u64,
    t2: u64,
    t3: u64,
)
    requires
        (star1 == 0x6A) || (star1 == 0x38 && shift1),
        (star2 == 0x6A) || (star2 == 0x38 && shift2),
        t0 <= t1 <= t2 <= t3,
        t1 - t0 <= 2_000_000_000,
        t2 - t1 <= 2_000_000_000,
        t3 - t2 <= 2_000_000_000,
    ensures
        ({
            let a = spec_key(s, 0xBF, false, t0).0;
            let b = spec_key(a, star1, shift1, t1);
            let c = spec_key(b.0, star2, shift2, t2);
            &&& b.1 is None
            &&& c.1 is None
            &&& spec_key(c.0, 0x0D, false, t3).1 == Some(HookEvent::DocCommentEnter)
        }),
        spec_key(s, 0x38, false, t0).0.doc_comment_stage == 0,
{
}

/// Key by key: Enter always reports an Enter event (the doc-comment one or a
/// plain one), and a key that is neither `/` nor Enter reports nothing.
pub proof fn lemma_keys_report(s: HookState, code: u16, shift_pressed: bool, now: u64)
    ensures
        code == 0x0D ==> (spec_key(s, code, shift_pressed, now).1 == Some(HookEvent::EnterPressed)
            || spec_key(s, code, shift_pressed, now).1 == Some(HookEvent::DocCommentEnter)),
        code == 0x0D && s.doc_comment_stage != 3 ==> spec_key(s, code, shift_pressed, now).1 == Some(
            HookEvent::EnterPressed,
        ),
        code != 0x0D && code != 0xBF ==> spec_key(s, code, shift_pressed, now).1 is None,
{
}

// ───────────────────────── aliases and key recording ─────────────────────────

/// Where a recorded key is to be posted: a window handle and a message id.
#[derive(Clone, Copy, Debug, PartialEq, Eq, Structural)]
pub struct AliasCaptureTarget {
    pub hwnd_raw: isize,
    pub message_id: u32,
}

/// The state the listener shares with the rest of the application.
pub struct HookShared {
    pub state: HookState,
    pub aliases: Vec<CharacterAlias>,
    pub capture_target: Option<AliasCaptureTarget>,
}

impl HookShared {
    /// A listener that has seen nothing yet, with the given aliases.
    pub fn new(aliases: Vec<CharacterAlias>) -> (r: Self)
        ensures
            r.state == initial_hook_state(),
            r.aliases@ == aliases@,
            r.capture_target is None,
    {
        HookShared { state: HookState::default(), aliases, capture_target: None }
    }
}

/// Replaces the aliases the listener types.
pub fn reload_character_aliases(shared: &mut HookShared, aliases: Vec<CharacterAlias>)
    ensures
        final(shared).aliases@ == aliases@,
        final(shared).state == old(shared).state,
        final(shared).capture_target == old(shared).capture_target,
{
    shared.aliases = aliases;
}

/// Asks the listener to record the next key for the given window.
pub fn begin_alias_capture(shared: &mut HookShared, hwnd_raw: isize, message_id: u32)
    ensures
        final(shared).capture_target == Some(AliasCaptureTarget { hwnd_raw, message_id }),
        final(shared).state == old(shared).state,
        final(shared).aliases@ == old(shared).aliases@,
{
    shared.capture_target = Some(AliasCaptureTarget { hwnd_raw, message_id });
}

/// Stops recording a key.
pub fn cancel_alias_capture(shared: &mut HookShared)
    ensures
        final(shared).capture_target is None,
        final(shared).state == old(shared).state,
        final(shared).aliases@ == old(shared).aliases@,
{
    shared.capture_target = None;
}

/// Records the key press for the window waiting for one, if any: a modifier
/// key alone is not recorded, and a recording is taken once.
pub fn capture_alias_binding(
    target: &mut Option<AliasCaptureTarget>,
    vk_code: u16,
    modifiers: KeyModifiers,
) -> (r: Option<(AliasCaptureTarget, KeyBinding)>)
    ensures
        spec_is_modifier_vk(vk_code) ==> r is None && *final(target) == *old(target),
        !spec_is_modifier_vk(vk_code) ==> *final(target) is None && r == (match *old(target) {
            Some(t) => Some((t, KeyBinding { vk_code, modifiers })),
            None => None,
        }),
{
    let binding = match binding_from_current_keyboard(vk_code, modifiers) {
        Some(binding) => binding,
        None => return None,
    };
    let taken = target.take();
    match taken {
        Some(t) => Some((t, binding)),
        None => None,
    }
}

/// The index of the first alias triggered by `vk_code` with `modifiers`.
pub open spec fn first_matching_alias(
    aliases: Seq<CharacterAliasView>,
    vk_code: u16,
    modifiers: KeyModifiers,
) -> Option<int> {
    if exists|i: int|
        0 <= i < aliases.len() && #[trigger] aliases[i].trigger == (KeyBinding {
            vk_code,
            modifiers,
        }) {
        Some(
            choose|i: int|
                0 <= i < aliases.len() && aliases[i].trigger == (KeyBinding { vk_code, modifiers })
                    && forall|j: int|
                    0 <= j < i ==> #[trigger] aliases[j].trigger != (KeyBinding {
                        vk_code,
                        modifiers,
                    }),
        )
    } else {
        None
    }
}

/// The alias found for a key press is the first one whose trigger has this
/// key and these modifiers; there is none exactly when no alias has them.
pub proof fn lemma_first_matching_alias(
    aliases: Seq<CharacterAliasView>,
    vk_code: u16,
    modifiers: KeyModifiers,
)
    ensures
        first_matching_alias(aliases, vk_code, modifiers) is None == (forall|i: int|
            0 <= i < aliases.len() ==> !(#[trigger] aliases[i].trigger.vk_code == vk_code
                && aliases[i].trigger.modifiers.ctrl == modifiers.ctrl
                && aliases[i].trigger.modifiers.alt == modifiers.alt
                && aliases[i].trigger.modifiers.shift == modifiers.shift)),
        first_matching_alias(aliases, vk_code, modifiers) matches Some(k) ==> {
            &&& 0 <= k < aliases.len()
            &&& aliases[k].trigger.vk_code == vk_code
            &&& aliases[k].trigger.modifiers.ctrl == modifiers.ctrl
            &&& aliases[k].trigger.modifiers.alt == modifiers.alt
            &&& aliases[k].trigger.modifiers.shift == modifiers.shift
            &&& forall|j: int|
                0 <= j < k ==> !(#[trigger] aliases[j].trigger.vk_code == vk_code
                    && aliases[j].trigger.modifiers.ctrl == modifiers.ctrl
                    && aliases[j].trigger.modifiers.alt == modifiers.alt
                    && aliases[j].trigger.modifiers.shift == modifiers.shift)
        },
{
    let key = KeyBinding { vk_code, modifiers };
    if exists|i: int| 0 <= i < aliases.len() && #[trigger] aliases[i].trigger == key {
        lemma_first_match_exists(aliases, key, aliases.len() as int);
        let k = choose|i: int|
            0 <= i < aliases.len() && aliases[i].trigger == key && forall|j: int|
                0 <= j < i ==> #[trigger] aliases[j].trigger != key;
        assert(aliases[k].trigger == key);
        assert forall|j: int| 0 <= j < k implies !(#[trigger] aliases[j].trigger.vk_code == vk_code
            && aliases[j].trigger.modifiers.ctrl == modifiers.ctrl
            && aliases[j].trigger.modifiers.alt == modifiers.alt
            && aliases[j].trigger.modifiers.shift == modifiers.shift) by {
            assert(aliases[j].trigger != key);
        }
        let w = choose|i: int| 0 <= i < aliases.len() && #[trigger] aliases[i].trigger == key;
        assert(aliases[w].trigger.vk_code == vk_code);
    } else {
        assert forall|i: int| 0 <= i < aliases.len() implies !(#[trigger] aliases[i].trigger.vk_code
            == vk_code && aliases[i].trigger.modifiers.ctrl == modifiers.ctrl
            && aliases[i].trigger.modifiers.alt == modifiers.alt
            && aliases[i].trigger.modifiers.shift == modifiers.shift) by {
            if aliases[i].trigger.vk_code == vk_code && aliases[i].trigger.modifiers.ctrl
                == modifiers.ctrl && aliases[i].trigger.modifiers.alt == modifiers.alt
                && aliases[i].trigger.modifiers.shift == modifiers.shift {
                assert(aliases[i].trigger == key);
            }
        }
    }
}

/// When some alias among the first `n` has `key`, one of them is the first.
proof fn lemma_first_match_exists(aliases: Seq<CharacterAliasView>, key: KeyBinding, n: int)
    requires
        0 <= n <= aliases.len(),
        exists|i: int| 0 <= i < n && #[trigger] aliases[i].trigger == key,
    ensures
        exists|i: int|
            0 <= i < aliases.len() && aliases[i].trigger == key && forall|j: int|
                0 <= j < i ==> #[trigger] aliases[j].trigger != key,
    decreases n,
{
    if exists|i: int| 0 <= i < n - 1 && #[trigger] aliases[i].trigger == key {
        lemma_first_match_exists(aliases, key, n - 1);
    } else {
        let i = n - 1;
        assert(aliases[i].trigger == key);
        assert(forall|j: int| 0 <= j < i ==> #[trigger] aliases[j].trigger != key);
    }
}

/// The text to type for a key press: the first alias whose trigger is this
/// key with these modifiers, unless listening is paused or the key is a
/// modifier.
pub fn trigger_character_alias(
    aliases: &[CharacterAlias],
    paused: bool,
    vk_code: u16,
    modifiers: KeyModifiers,
) -> (r: Option<String>)
    ensures
        (paused || spec_is_modifier_vk(vk_code)) ==> r is None,
        !(paused || spec_is_modifier_vk(vk_code)) ==> match first_matching_alias(
            alias_views(aliases@),
            vk_code,
            modifiers,
        ) {
            Some(i) => r matches Some(text) && text@ == aliases@[i].output@,
            None => r is None,
        },
{
    if paused || crate::char_alias::is_modifier_vk(vk_code) {
        return None;
    }
    let ghost views = alias_views(aliases@);
    let ghost key = KeyBinding { vk_code, modifiers };
    let mut i: usize = 0;
    while i < aliases.len()
        invariant
            i <= aliases.len(),
            views == alias_views(aliases@),
            key == (KeyBinding { vk_code, modifiers }),
            !paused && !spec_is_modifier_vk(vk_code),
            forall|j: int| 0 <= j < i ==> #[trigger] views[j].trigger != key,
        decreases aliases.len() - i,
    {
        if crate::char_alias::binding_matches(aliases[i].trigger, vk_code, modifiers) {
            proof {
                assert(views[i as int].trigger == key);
                let k = first_matching_alias(views, vk_code, modifiers)->Some_0;
                assert(0 <= k < views.len() && views[k].trigger == key);
                if k < i {
                    assert(views[k].trigger != key);
                }
                if k > i {
                    assert(views[i as int].trigger != key);
                }
            }
            return Some(aliases[i].output.clone());
        }
        i = i + 1;
    }
    proof {
        if exists|j: int| 0 <= j < views.len() && #[trigger] views[j].trigger == key {
            let j = choose|j: int| 0 <= j < views.len() && #[trigger] views[j].trigger == key;
            assert(views[j].trigger != key);
        }
    }
    None
}

/// What the listener does with a key press.
#[derive(Debug)]
pub enum KeyDecision {
    /// Post the recorded binding to the waiting window and swallow the key.
    Captured(AliasCaptureTarget, KeyBinding),
    /// Type this text in place of the key and swallow it.
    TypeText(String),
    /// Let the key through, reporting the event if there is one.
    Pass(Option<HookEvent>),
}

/// Decides what happens to a key press: recording a key for the alias window
/// comes first, then typing an alias, then the sequence recogniser.
pub fn keyboard_decision(
    shared: &mut HookShared,
    paused: bool,
    vk_code: u16,
    modifiers: KeyModifiers,
    shift_pressed: bool,
    now: u64,
) -> (r: KeyDecision)
    ensures
        final(shared).aliases@ == old(shared).aliases@,
        (!spec_is_modifier_vk(vk_code) && old(shared).capture_target is Some) ==> {
            &&& r == KeyDecision::Captured(
                old(shared).capture_target->Some_0,
                KeyBinding { vk_code, modifiers },
            )
            &&& final(shared).capture_target is None
            &&& final(shared).state == old(shared).state
        },
        !(!spec_is_modifier_vk(vk_code) && old(shared).capture_target is Some) ==> {
            &&& final(shared).capture_target == old(shared).capture_target
            &&& match first_matching_alias(alias_views(old(shared).aliases@), vk_code, modifiers) {
                Some(i) if !paused && !spec_is_modifier_vk(vk_code) => r matches KeyDecision::TypeText(
                    text,
                ) && text@ == old(shared).aliases@[i].output@ && final(shared).state == old(
                    shared,
                ).state,
                _ => r == KeyDecision::Pass(spec_key(old(shared).state, vk_code, shift_pressed, now).1)
                    && final(shared).state == spec_key(
                    old(shared).state,
                    vk_code,
                    shift_pressed,
                    now,
                ).0,
            }
        },
{
    if let Some((target, binding)) = capture_alias_binding(&mut shared.capture_target, vk_code, modifiers) {
        return KeyDecision::Captured(target, binding);
    }
    if let Some(text) = trigger_character_alias(shared.aliases.as_slice(), paused, vk_code, modifiers) {
        return KeyDecision::TypeText(text);
    }
    KeyDecision::Pass(handle_key(&mut shared.state, vk_code, shift_pressed, now))
}

/// One synthetic key stroke carrying a UTF-16 code unit.
#[derive(Clone, Copy, Debug, PartialEq, Eq, Structural)]
pub struct UnicodeKeyStroke {
    pub unit: u16,
    pub key_up: bool,
}

/// The key strokes that type `text`: for each UTF-16 code unit, a key-down and
/// then a key-up.
pub fn unicode_key_strokes(text: &str) -> (r: Vec<UnicodeKeyStroke>)
    ensures
        r@.len() == 2 * utf16_encode(text@).len(),
        forall|k: int|
            0 <= k < utf16_encode(text@).len() ==> r@[2 * k] == (UnicodeKeyStroke {
                unit: utf16_encode(text@)[k],
                key_up: false,
            }) && r@[2 * k + 1] == (UnicodeKeyStroke { unit: utf16_encode(text@)[k], key_up: true }),
{
    let units = encode_utf16(text);
    let mut r: Vec<UnicodeKeyStroke> = Vec::new();
    let mut i: usize = 0;
    while i < units.len()
        invariant
            i <= units.len(),
            units@ == utf16_encode(text@),
            r@.len() == 2 * i,
            forall|k: int|
                0 <= k < i ==> r@[2 * k] == (UnicodeKeyStroke { unit: units@[k], key_up: false })
                    && r@[2 * k + 1] == (UnicodeKeyStroke { unit: units@[k], key_up: true }),
        decreases units.len() - i,
    {
        r.push(UnicodeKeyStroke { unit: units[i], key_up: false });
        r.push(UnicodeKeyStroke { unit: units[i], key_up: true });
        i = i + 1;
    }
    r
}

} // verus!

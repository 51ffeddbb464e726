//! Rebinding shortcuts in the Customize Shortcuts window: a chord is given
//! to an action only when no other action that can fire in an overlapping
//! context already answers to it; giving an action its default chord back
//! drops its override.
use vstd::prelude::*;

verus! {

/// Where a shortcut fires.
#[derive(Clone, Copy, Debug, PartialEq, Eq, Structural)]
pub enum KeyContext {
    Global,
    List,
    Editor,
}

/// A key with its modifier keys.
#[derive(Clone, Copy, Debug, PartialEq, Eq, Structural)]
pub struct Chord {
    pub mods: u8,
    pub key: u32,
}

/// A row of the shortcut table: an action, where it fires, and its default
/// chord.
#[derive(Clone, Copy, Debug)]
pub struct KeyBinding {
    pub action: u32,
    pub context: KeyContext,
    pub chord: Option<Chord>,
}

/// Why a chord was not given to an action.
#[derive(Clone, Copy, Debug, PartialEq, Eq, Structural)]
pub enum AssignError {
    /// The table has no row for the action.
    UnknownAction,
    /// The table row at this index already answers to the chord.
    TakenBy(usize),
}

/// The first row of `table` for `action`.
pub open spec fn binding_index(table: Seq<KeyBinding>, action: u32) -> Option<int>
    decreases table.len(),
{
    if table.len() == 0 {
        None
    } else {
        match binding_index(table.drop_last(), action) {
            Some(i) => Some(i),
            None => if table.last().action == action {
                Some(table.len() - 1)
            } else {
                None
            },
        }
    }
}

/// The overrides as a map from action to chord (a later entry wins).
pub open spec fn override_map(overrides: Seq<(u32, Chord)>) -> Map<u32, Chord>
    decreases overrides.len(),
{
    if overrides.len() == 0 {
        Map::empty()
    } else {
        override_map(overrides.drop_last()).insert(overrides.last().0, overrides.last().1)
    }
}

/// The chord an action answers to: its override, else its default.
pub open spec fn effective_chord(table: Seq<KeyBinding>, overrides: Map<u32, Chord>, action: u32) -> Option<Chord> {
    if overrides.contains_key(action) {
        Some(overrides[action])
    } else {
        match binding_index(table, action) {
            Some(i) => table[i].chord,
            None => None,
        }
    }
}

/// Shortcuts of these contexts can fire at the same time.
pub open spec fn contexts_overlap(a: KeyContext, b: KeyContext) -> bool {
    a == b || a == KeyContext::Global || b == KeyContext::Global
}

/// Row `k` of the table belongs to another action, can fire together with
/// `context`, and answers to `chord`.
pub open spec fn row_takes(
    table: Seq<KeyBinding>,
    overrides: Map<u32, Chord>,
    action: u32,
    context: KeyContext,
    chord: Chord,
    k: int,
) -> bool {
    &&& table[k].action != action
    &&& contexts_overlap(table[k].context, context)
    &&& effective_chord(table, overrides, table[k].action) == Some(chord)
}

/// The first row from `from` on that takes `chord` from `action`.
pub open spec fn first_taker(
    table: Seq<KeyBinding>,
    overrides: Map<u32, Chord>,
    action: u32,
    context: KeyContext,
    chord: Chord,
    from: int,
) -> Option<int>
    decreases table.len() - from,
{
    if from < 0 || from >= table.len() {
        None
    } else if row_takes(table, overrides, action, context, chord, from) {
        Some(from)
    } else {
        first_taker(table, overrides, action, context, chord, from + 1)
    }
}

/// What giving `chord` to `action` does to the overrides: refused for an
/// unknown action or a chord another action answers to; else the default
/// chord drops the override and any other chord becomes it.
pub open spec fn assign_outcome(
    table: Seq<KeyBinding>,
    before: Map<u32, Chord>,
    after: Map<u32, Chord>,
    action: u32,
    chord: Chord,
    result: Result<(), AssignError>,
) -> bool {
    match binding_index(table, action) {
        None => result == Err::<(), AssignError>(AssignError::UnknownAction) && after == before,
        Some(t) => match first_taker(table, before, action, table[t].context, chord, 0) {
            Some(k) => result == Err::<(), AssignError>(AssignError::TakenBy(k as usize)) && after
                == before,
            None => result is Ok && after == if table[t].chord == Some(chord) {
                before.remove(action)
            } else {
                before.insert(action, chord)
            },
        },
    }
}

proof fn lemma_binding_index_bounds(table: Seq<KeyBinding>, action: u32)
    ensures
        binding_index(table, action) matches Some(i) ==> 0 <= i < table.len() && table[i].action == action,
    decreases table.len(),
{
    if table.len() > 0 {
        lemma_binding_index_bounds(table.drop_last(), action);
    }
}

fn find_binding(table: &Vec<KeyBinding>, action: u32) -> (index: Option<usize>)
    ensures
        match index {
            Some(i) => binding_index(table@, action) == Some(i as int) && i < table@.len(),
            None => binding_index(table@, action) is None,
        },
{
    let mut i: usize = 0;
    while i < table.len()
        invariant
            i <= table@.len(),
            binding_index(table@.take(i as int), action) is None,
        decreases table@.len() - i,
    {
        proof {
            assert(table@.take(i + 1).drop_last() =~= table@.take(i as int));
        }
        if table[i].action == action {
            proof {
                lemma_binding_index_prefix(table@, action, i + 1);
            }
            return Some(i);
        }
        i = i + 1;
    }
    assert(table@.take(table@.len() as int) =~= table@);
    None
}

proof fn lemma_binding_index_prefix(table: Seq<KeyBinding>, action: u32, n: int)
    requires
        0 <= n <= table.len(),
        binding_index(table.take(n), action) is Some,
    ensures
        binding_index(table, action) == binding_index(table.take(n), action),
    decreases table.len() - n,
{
    if n < table.len() {
        assert(table.take(n + 1).drop_last() =~= table.take(n));
        lemma_binding_index_prefix(table, action, n + 1);
    } else {
        assert(table.take(n) =~= table);
    }
}

fn find_override(overrides: &Vec<(u32, Chord)>, action: u32) -> (chord: Option<Chord>)
    ensures
        match chord {
            Some(c) => override_map(overrides@).contains_key(action) && override_map(overrides@)[action] == c,
            None => !override_map(overrides@).contains_key(action),
        },
{
    let mut i: usize = overrides.len();
    assert(overrides@.take(i as int) =~= overrides@);
    while i > 0
        invariant
            i <= overrides@.len(),
            forall|k: int| i <= k < overrides@.len() ==> (#[trigger] overrides@[k]).0 != action,
            override_map(overrides@).contains_key(action) == override_map(overrides@.take(i as int)).contains_key(action),
            override_map(overrides@).contains_key(action) ==> override_map(overrides@)[action] == override_map(overrides@.take(i as int))[action],
        decreases i,
    {
        let e = overrides[i - 1];
        proof {
            assert(overrides@.take(i as int).drop_last() =~= overrides@.take(i - 1));
            assert(overrides@.take(i as int).last() == overrides@[i - 1]);
        }
        if e.0 == action {
            return Some(e.1);
        }
        i = i - 1;
    }
    None
}

fn chord_of(table: &Vec<KeyBinding>, overrides: &Vec<(u32, Chord)>, action: u32) -> (chord: Option<Chord>)
    ensures
        chord == effective_chord(table@, override_map(overrides@), action),
{
    match find_override(overrides, action) {
        Some(c) => Some(c),
        None => match find_binding(table, action) {
            Some(i) => table[i].chord,
            None => None,
        },
    }
}

fn same_chord(a: Option<Chord>, b: Chord) -> (same: bool)
    ensures
        same == (a == Some(b)),
{
    match a {
        Some(c) => c.mods == b.mods && c.key == b.key,
        None => false,
    }
}

fn without_action(overrides: &Vec<(u32, Chord)>, action: u32) -> (rest: Vec<(u32, Chord)>)
    ensures
        override_map(rest@) == override_map(overrides@).remove(action),
{
    let mut rest: Vec<(u32, Chord)> = Vec::new();
    let mut i: usize = 0;
    while i < overrides.len()
        invariant
            i <= overrides@.len(),
            override_map(rest@) == override_map(overrides@.take(i as int)).remove(action),
        decreases overrides@.len() - i,
    {
        let e = overrides[i];
        proof {
            assert(overrides@.take(i + 1).drop_last() =~= overrides@.take(i as int));
            assert(overrides@.take(i + 1).last() == e);
        }
        if e.0 != action {
            let ghost prev = rest@;
            rest.push(e);
            proof {
                assert(rest@.drop_last() =~= prev);
                assert(rest@.last() == e);
                assert(override_map(rest@) == override_map(prev).insert(e.0, e.1));
            }
            assert(override_map(rest@) =~= override_map(overrides@.take(i + 1)).remove(action));
        } else {
            assert(override_map(rest@) =~= override_map(overrides@.take(i + 1)).remove(action));
        }
        i = i + 1;
    }
    assert(overrides@.take(overrides@.len() as int) =~= overrides@);
    rest
}

/// Gives `chord` to `action` (see `assign_outcome`); `overrides` are the
/// chords given so far.
pub fn keymap_assign(
    table: &Vec<KeyBinding>,
    overrides: &mut Vec<(u32, Chord)>,
    action: u32,
    chord: Chord,
) -> (result: Result<(), AssignError>)
    ensures
        assign_outcome(
            table@,
            override_map(old(overrides)@),
            override_map(final(overrides)@),
            action,
            chord,
            result,
        ),
{
    let t = match find_binding(table, action) {
        Some(t) => t,
        None => return Err(AssignError::UnknownAction),
    };
    let context = table[t].context;
    let ghost before = override_map(overrides@);
    let mut k: usize = 0;
    while k < table.len()
        invariant
            k <= table@.len(),
            t < table@.len(),
            binding_index(table@, action) == Some(t as int),
            context == table@[t as int].context,
            before == override_map(overrides@),
            first_taker(table@, before, action, context, chord, 0) == first_taker(
                table@,
                before,
                action,
                context,
                chord,
                k as int,
            ),
        decreases table@.len() - k,
    {
        let other = table[k];
        let overlap = other.context == context || other.context == KeyContext::Global || context
            == KeyContext::Global;
        if other.action != action && overlap {
            let current = chord_of(table, overrides, other.action);
            if same_chord(current, chord) {
                return Err(AssignError::TakenBy(k));
            }
        }
        k = k + 1;
    }
    let is_default = same_chord(table[t].chord, chord);
    let mut rest = without_action(overrides, action);
    if !is_default {
        let ghost prev = rest@;
        rest.push((action, chord));
        proof {
            assert(rest@.drop_last() =~= prev);
            assert(override_map(rest@) == override_map(prev).insert(action, chord));
            assert(override_map(rest@) =~= before.insert(action, chord));
        }
    }
    *overrides = rest;
    Ok(())
}

/// Giving an action a chord that was refused changes nothing, and giving
/// it the chord it already has by default leaves it without an override.
pub proof fn lemma_default_chord_clears_override(
    table: Seq<KeyBinding>,
    before: Map<u32, Chord>,
    after: Map<u32, Chord>,
    action: u32,
    chord: Chord,
    result: Result<(), AssignError>,
)
    requires
        assign_outcome(table, before, after, action, chord, result),
    ensures
        result is Err ==> after == before,
        result is Ok ==> (binding_index(table, action) matches Some(t) && table[t].chord == Some(chord)
            ==> !after.contains_key(action)),
        (result is Ok) ==> effective_chord(table, after, action) == Some(chord),
{
}

/// The Reset button of a row: the action goes back to its default chord.
pub fn keymap_reset(overrides: &mut Vec<(u32, Chord)>, action: u32)
    ensures
        override_map(final(overrides)@) == override_map(old(overrides)@).remove(action),
{
    let rest = without_action(overrides, action);
    *overrides = rest;
}

/// What reaches a row that is waiting for its new chord in a frame.
#[derive(Clone, Copy, Debug)]
pub enum CaptureInput {
    /// Nothing was pressed.
    Nothing,
    /// The window is closed.
    WindowClosed,
    /// Escape was pressed.
    Escape,
    /// A chord was pressed; `with_alt` when Alt was held.
    Pressed { chord: Chord, with_alt: bool },
}

/// What a frame of capturing came to.
#[derive(Clone, Copy, Debug)]
pub enum CaptureOutcome {
    /// No row is waiting, or it goes on waiting.
    Unchanged,
    /// The capture ended without a chord.
    Cancelled,
    /// Alt chords cannot be given to actions.
    AltRefused,
    /// The chord was offered to the action, with this answer.
    Assigned(Result<(), AssignError>),
}

/// A frame of capturing a chord for the row of `capture` (when a row is
/// waiting): closing the window or Escape cancel it; a pressed chord ends
/// it and is given to the action, unless Alt was held.
pub fn keymap_capture_step(
    capture: &mut Option<u32>,
    table: &Vec<KeyBinding>,
    overrides: &mut Vec<(u32, Chord)>,
    input: CaptureInput,
) -> (outcome: CaptureOutcome)
    ensures
        match *old(capture) {
            None => outcome is Unchanged && *final(capture) == *old(capture)
                && final(overrides)@ == old(overrides)@,
            Some(action) => match input {
                CaptureInput::Nothing => outcome is Unchanged && *final(capture)
                    == *old(capture) && final(overrides)@ == old(overrides)@,
                CaptureInput::WindowClosed => outcome is Cancelled
                    && (*final(capture)) is None && final(overrides)@ == old(overrides)@,
                CaptureInput::Escape => outcome is Cancelled
                    && (*final(capture)) is None && final(overrides)@ == old(overrides)@,
                CaptureInput::Pressed { chord, with_alt } => {
                    &&& (*final(capture)) is None
                    &&& if with_alt {
                        outcome is AltRefused && final(overrides)@ == old(overrides)@
                    } else {
                        outcome matches CaptureOutcome::Assigned(result) && assign_outcome(
                            table@,
                            override_map(old(overrides)@),
                            override_map(final(overrides)@),
                            action,
                            chord,
                            result,
                        )
                    }
                },
            },
        },
{
    let action = match *capture {
        Some(a) => a,
        None => return CaptureOutcome::Unchanged,
    };
    match input {
        CaptureInput::Nothing => CaptureOutcome::Unchanged,
        CaptureInput::WindowClosed | CaptureInput::Escape => {
            *capture = None;
            CaptureOutcome::Cancelled
        },
        CaptureInput::Pressed { chord, with_alt } => {
            *capture = None;
            if with_alt {
                CaptureOutcome::AltRefused
            } else {
                CaptureOutcome::Assigned(keymap_assign(table, overrides, action, chord))
            }
        },
    }
}

/// The chord `action` answers to now, spelled out: its override when it
/// has one, else the default chord of its row.
pub open spec fn answers_to(table: Seq<KeyBinding>, overrides: Map<u32, Chord>, action: u32, chord: Chord) -> bool {
    if overrides.contains_key(action) {
        overrides[action] == chord
    } else {
        binding_index(table, action) matches Some(j) && table[j].chord == Some(chord)
    }
}

/// Row `k` is another action's row that can fire together with `context`
/// (the same context, or either is global) and answers to `chord`.
pub open spec fn conflicting_row(
    table: Seq<KeyBinding>,
    overrides: Map<u32, Chord>,
    action: u32,
    context: KeyContext,
    chord: Chord,
    k: int,
) -> bool {
    &&& 0 <= k < table.len()
    &&& table[k].action != action
    &&& (table[k].context == context || table[k].context == KeyContext::Global || context
        == KeyContext::Global)
    &&& answers_to(table, overrides, table[k].action, chord)
}

proof fn lemma_first_taker_finds(
    table: Seq<KeyBinding>,
    overrides: Map<u32, Chord>,
    action: u32,
    context: KeyContext,
    chord: Chord,
    from: int,
    k: int,
)
    requires
        0 <= from <= k,
        conflicting_row(table, overrides, action, context, chord, k),
    ensures
        first_taker(table, overrides, action, context, chord, from) matches Some(j) && from <= j <= k
            && conflicting_row(table, overrides, action, context, chord, j),
    decreases k - from,
{
    if !row_takes(table, overrides, action, context, chord, from) {
        lemma_first_taker_finds(table, overrides, action, context, chord, from + 1, k);
    }
}

proof fn lemma_first_taker_conflicts(
    table: Seq<KeyBinding>,
    overrides: Map<u32, Chord>,
    action: u32,
    context: KeyContext,
    chord: Chord,
    from: int,
)
    requires
        0 <= from,
    ensures
        first_taker(table, overrides, action, context, chord, from) matches Some(j) ==> from <= j
            && conflicting_row(table, overrides, action, context, chord, j),
        first_taker(table, overrides, action, context, chord, from) is None ==> forall|k: int|
            from <= k ==> !#[trigger] conflicting_row(table, overrides, action, context, chord, k),
    decreases table.len() - from,
{
    if from < table.len() && !row_takes(table, overrides, action, context, chord, from) {
        lemma_first_taker_conflicts(table, overrides, action, context, chord, from + 1);
    }
}

/// A chord that another action answers to in the same context as the
/// action (or where either is global) is refused: the answer names the
/// first such row, and the overrides stay as they were.
pub proof fn lemma_conflicting_chord_refused(
    table: Seq<KeyBinding>,
    before: Map<u32, Chord>,
    after: Map<u32, Chord>,
    action: u32,
    chord: Chord,
    result: Result<(), AssignError>,
    t: int,
    k: int,
)
    requires
        assign_outcome(table, before, after, action, chord, result),
        binding_index(table, action) == Some(t),
        conflicting_row(table, before, action, table[t].context, chord, k),
        table.len() <= usize::MAX,
    ensures
        after == before,
        result matches Err(AssignError::TakenBy(j)) && j <= k && conflicting_row(
            table,
            before,
            action,
            table[t].context,
            chord,
            j as int,
        ),
{
    lemma_binding_index_bounds(table, action);
    lemma_first_taker_finds(table, before, action, table[t].context, chord, 0, k);
    lemma_first_taker_conflicts(table, before, action, table[t].context, chord, 0);
}

/// A chord no other action answers to where the action can fire is given
/// to the action: it then answers to it, and every other action keeps its
/// override (or its lack of one).
pub proof fn lemma_free_chord_given(
    table: Seq<KeyBinding>,
    before: Map<u32, Chord>,
    after: Map<u32, Chord>,
    action: u32,
    chord: Chord,
    result: Result<(), AssignError>,
    t: int,
)
    requires
        assign_outcome(table, before, after, action, chord, result),
        binding_index(table, action) == Some(t),
        forall|k: int| !#[trigger] conflicting_row(table, before, action, table[t].context, chord, k),
    ensures
        result is Ok,
        answers_to(table, after, action, chord),
        forall|a: u32|
            a != action ==> (after.contains_key(a) == before.contains_key(a) && (after.contains_key(a)
                ==> after[a] == before[a])),
{
    lemma_binding_index_bounds(table, action);
    lemma_first_taker_conflicts(table, before, action, table[t].context, chord, 0);
    if let Some(j) = first_taker(table, before, action, table[t].context, chord, 0) {
        assert(conflicting_row(table, before, action, table[t].context, chord, j));
    }
}

/// A chord is never given to an action the table does not have.
pub proof fn lemma_unknown_action_refused(
    table: Seq<KeyBinding>,
    before: Map<u32, Chord>,
    after: Map<u32, Chord>,
    action: u32,
    chord: Chord,
    result: Result<(), AssignError>,
)
    requires
        assign_outcome(table, before, after, action, chord, result),
        forall|k: int| 0 <= k < table.len() ==> (#[trigger] table[k]).action != action,
    ensures
        result == Err::<(), AssignError>(AssignError::UnknownAction),
        after == before,
{
    lemma_binding_index_bounds(table, action);
}

} // verus!

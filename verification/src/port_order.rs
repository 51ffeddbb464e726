//! The order in which the graph canvas lays out the input pins of a node
//! that recombines channels: pins the node has assigned to a channel slot
//! first, by slot, then the others; ties go by the pin's number and then by
//! its name.
use vstd::prelude::*;

use crate::effect_graph::{effect_graph_port_sort_index, port_sort_index};
use crate::text::chars_of;

verus! {

/// `a` sorts no later than `b` in `str` order: character by character, a
/// proper prefix first. (UTF-8 byte order and code point order agree.)
pub open spec fn chars_le(a: Seq<char>, b: Seq<char>) -> bool
    decreases a.len(),
{
    if a.len() == 0 {
        true
    } else if b.len() == 0 {
        false
    } else if a[0] != b[0] {
        (a[0] as int) < (b[0] as int)
    } else {
        chars_le(a.drop_first(), b.drop_first())
    }
}

/// The slot a pin sorts by: its channel slot, or the largest `usize` when it
/// has none.
pub open spec fn slot_value(slot: Option<usize>) -> usize {
    match slot {
        Some(v) => v,
        None => usize::MAX,
    }
}

/// Pin `a` (its id and its channel slot) sorts no later than pin `b`: by
/// whether the slot is missing, by slot, by pin number, then by id.
pub open spec fn pin_le(a: (String, Option<usize>), b: (String, Option<usize>)) -> bool {
    if a.1.is_none() != b.1.is_none() {
        b.1.is_none()
    } else if slot_value(a.1) != slot_value(b.1) {
        slot_value(a.1) < slot_value(b.1)
    } else if port_sort_index(a.0@) != port_sort_index(b.0@) {
        port_sort_index(a.0@) < port_sort_index(b.0@)
    } else {
        chars_le(a.0@, b.0@)
    }
}

/// `r` put into `s` after every pin that does not sort after it: one step of
/// a stable sort.
pub open spec fn insert_pin(s: Seq<(String, Option<usize>)>, r: (String, Option<usize>)) -> Seq<
    (String, Option<usize>),
>
    decreases s.len(),
{
    if s.len() == 0 {
        seq![r]
    } else if pin_le(s.last(), r) {
        s.push(r)
    } else {
        insert_pin(s.drop_last(), r).push(s.last())
    }
}

/// `s` stably sorted by `pin_le`.
pub open spec fn sort_pins(s: Seq<(String, Option<usize>)>) -> Seq<(String, Option<usize>)>
    decreases s.len(),
{
    if s.len() == 0 {
        s
    } else {
        insert_pin(sort_pins(s.drop_last()), s.last())
    }
}

/// Pins in `pin_le` order.
pub open spec fn pins_sorted(s: Seq<(String, Option<usize>)>) -> bool {
    forall|i: int, j: int| 0 <= i <= j < s.len() ==> pin_le(s[i], s[j])
}

/// Each port id paired with its channel slot.
pub open spec fn input_pins(ports: Seq<String>, slots: Seq<Option<usize>>) -> Seq<
    (String, Option<usize>),
> {
    Seq::new(ports.len(), |i: int| (ports[i], slots[i]))
}

/// The ids of `pins`, in order.
pub open spec fn pin_ids(pins: Seq<(String, Option<usize>)>) -> Seq<String> {
    Seq::new(pins.len(), |i: int| pins[i].0)
}

/// The input pins in the order the canvas lays them out: sorted by
/// `pin_le` for a channel-recombining node that restores channels, as
/// listed otherwise.
pub open spec fn canvas_input_order(
    ports: Seq<String>,
    slots: Seq<Option<usize>>,
    restores_channels: bool,
) -> Seq<String> {
    if restores_channels {
        pin_ids(sort_pins(input_pins(ports, slots)))
    } else {
        ports
    }
}

proof fn lemma_chars_le_total(a: Seq<char>, b: Seq<char>)
    ensures
        chars_le(a, b) || chars_le(b, a),
    decreases a.len(),
{
    if a.len() > 0 && b.len() > 0 && a[0] == b[0] {
        lemma_chars_le_total(a.drop_first(), b.drop_first());
    }
}

proof fn lemma_chars_le_transitive(a: Seq<char>, b: Seq<char>, c: Seq<char>)
    requires
        chars_le(a, b),
        chars_le(b, c),
    ensures
        chars_le(a, c),
    decreases a.len(),
{
    if a.len() > 0 && b.len() > 0 && c.len() > 0 && a[0] == b[0] && b[0] == c[0] {
        lemma_chars_le_transitive(a.drop_first(), b.drop_first(), c.drop_first());
    }
}

proof fn lemma_pin_le_total(a: (String, Option<usize>), b: (String, Option<usize>))
    ensures
        pin_le(a, b) || pin_le(b, a),
{
    lemma_chars_le_total(a.0@, b.0@);
}

proof fn lemma_pin_le_transitive(
    a: (String, Option<usize>),
    b: (String, Option<usize>),
    c: (String, Option<usize>),
)
    requires
        pin_le(a, b),
        pin_le(b, c),
    ensures
        pin_le(a, c),
{
    if a.1.is_none() == b.1.is_none() && b.1.is_none() == c.1.is_none() && slot_value(a.1)
        == slot_value(b.1) && slot_value(b.1) == slot_value(c.1) && port_sort_index(a.0@)
        == port_sort_index(b.0@) && port_sort_index(b.0@) == port_sort_index(c.0@) {
        lemma_chars_le_transitive(a.0@, b.0@, c.0@);
    }
}

/// Whether `a` comes before `b` in `str` order or equals it.
fn str_chars_le(a: &str, b: &str) -> (le: bool)
    ensures
        le == chars_le(a@, b@),
{
    let x = chars_of(a);
    let y = chars_of(b);
    let mut i: usize = 0;
    assert(x@.skip(0) =~= x@ && y@.skip(0) =~= y@);
    while i < x.len() && i < y.len()
        invariant
            x@ == a@,
            y@ == b@,
            i <= x@.len(),
            i <= y@.len(),
            forall|k: int| 0 <= k < i ==> x@[k] == y@[k],
            chars_le(a@, b@) == chars_le(x@.skip(i as int), y@.skip(i as int)),
        decreases x@.len() - i,
    {
        if x[i] != y[i] {
            proof {
                assert(x@.skip(i as int)[0] == x@[i as int]);
                assert(y@.skip(i as int)[0] == y@[i as int]);
            }
            return x[i] < y[i];
        }
        proof {
            assert(x@.skip(i as int).drop_first() =~= x@.skip(i + 1));
            assert(y@.skip(i as int).drop_first() =~= y@.skip(i + 1));
        }
        i = i + 1;
    }
    i == x.len()
}

fn pin_greater(a: &(String, Option<usize>), b: &(String, Option<usize>)) -> (greater: bool)
    ensures
        greater == !pin_le(*a, *b),
{
    let a_none = a.1.is_none();
    let b_none = b.1.is_none();
    if a_none != b_none {
        return a_none;
    }
    let a_slot = match a.1 {
        Some(v) => v,
        None => usize::MAX,
    };
    let b_slot = match b.1 {
        Some(v) => v,
        None => usize::MAX,
    };
    if a_slot != b_slot {
        return a_slot > b_slot;
    }
    let a_index = effect_graph_port_sort_index(a.0.as_str());
    let b_index = effect_graph_port_sort_index(b.0.as_str());
    if a_index != b_index {
        return a_index > b_index;
    }
    !str_chars_le(a.0.as_str(), b.0.as_str())
}

proof fn lemma_insert_pin_at(s: Seq<(String, Option<usize>)>, r: (String, Option<usize>), pos: int)
    requires
        0 <= pos <= s.len(),
        pos == 0 || pin_le(s[pos - 1], r),
        forall|k: int| pos <= k < s.len() ==> !pin_le(#[trigger] s[k], r),
    ensures
        insert_pin(s, r) == s.insert(pos, r),
    decreases s.len(),
{
    if s.len() == 0 {
        assert(s.insert(pos, r) =~= seq![r]);
    } else if pin_le(s.last(), r) {
        assert(pos == s.len());
        assert(s.insert(pos, r) =~= s.push(r));
    } else {
        lemma_insert_pin_at(s.drop_last(), r, pos);
        assert(s.drop_last().insert(pos, r).push(s.last()) =~= s.insert(pos, r));
    }
}

/// Sorts pins by `pin_le`, keeping pins that tie in the order they had.
fn sort_pins_in_place(pins: &mut Vec<(String, Option<usize>)>)
    ensures
        final(pins)@ == sort_pins(old(pins)@),
{
    let ghost unsorted = pins@;
    let n = pins.len();
    let mut i: usize = 0;
    while i < n
        invariant
            n == unsorted.len() == pins@.len(),
            i <= n,
            pins@.subrange(0, i as int) == sort_pins(unsorted.take(i as int)),
            pins@.subrange(i as int, n as int) == unsorted.subrange(i as int, n as int),
        decreases n - i,
    {
        let ghost prefix = pins@.subrange(0, i as int);
        let ghost before = pins@;
        assert(before.subrange(i as int, n as int)[0] == before[i as int]);
        let r = pins.remove(i);
        proof {
            assert(r == unsorted[i as int]);
            assert(pins@.subrange(0, i as int) =~= prefix);
            assert(unsorted.take(i + 1).drop_last() =~= unsorted.take(i as int));
        }
        let mut pos = i;
        while pos > 0 && pin_greater(&pins[pos - 1], &r)
            invariant
                pos <= i < n,
                pins@.len() == n - 1,
                pins@.subrange(0, i as int) == prefix,
                forall|k: int| pos <= k < i ==> !pin_le(#[trigger] prefix[k], r),
            decreases pos,
        {
            pos = pos - 1;
        }
        proof {
            lemma_insert_pin_at(prefix, r, pos as int);
        }
        pins.insert(pos, r);
        proof {
            assert(pins@ == before.remove(i as int).insert(pos as int, r));
            assert(pins@.subrange(0, i + 1) =~= prefix.insert(pos as int, r));
            assert forall|k: int| i + 1 <= k < n implies pins@[k] == unsorted[k] by {
                assert(pins@[k] == before[k]);
                assert(before[k] == before.subrange(i as int, n as int)[k - i]);
            }
            assert(pins@.subrange(i + 1, n as int) =~= unsorted.subrange(i + 1, n as int));
        }
        i = i + 1;
    }
    proof {
        assert(unsorted.take(n as int) =~= unsorted);
        assert(pins@.subrange(0, n as int) =~= pins@);
    }
}

/// The ids of a node's input pins in the order the canvas lays them out.
/// `slots[i]` is the channel slot the node assigned to `ports[i]`, if any;
/// `restores_channels` says whether the node recombines channels in a mode
/// that restores them, the only case in which the pins are reordered.
pub fn ordered_input_ports(
    ports: &Vec<String>,
    slots: &Vec<Option<usize>>,
    restores_channels: bool,
) -> (ordered: Vec<String>)
    requires
        slots@.len() == ports@.len(),
    ensures
        ordered@ == canvas_input_order(ports@, slots@, restores_channels),
{
    let n = ports.len();
    if !restores_channels {
        let mut same: Vec<String> = Vec::new();
        let mut i: usize = 0;
        while i < n
            invariant
                n == ports@.len(),
                i <= n,
                same@ == ports@.take(i as int),
            decreases n - i,
        {
            same.push(ports[i].clone());
            assert(ports@.take(i + 1) =~= ports@.take(i as int).push(ports@[i as int]));
            i = i + 1;
        }
        assert(ports@.take(n as int) =~= ports@);
        return same;
    }
    let mut pins: Vec<(String, Option<usize>)> = Vec::new();
    let mut i: usize = 0;
    while i < n
        invariant
            n == ports@.len() == slots@.len(),
            i <= n,
            pins@ == input_pins(ports@, slots@).take(i as int),
        decreases n - i,
    {
        pins.push((ports[i].clone(), slots[i]));
        assert(input_pins(ports@, slots@).take(i + 1) =~= input_pins(ports@, slots@).take(
            i as int,
        ).push((ports@[i as int], slots@[i as int])));
        i = i + 1;
    }
    assert(input_pins(ports@, slots@).take(n as int) =~= input_pins(ports@, slots@));
    sort_pins_in_place(&mut pins);
    let mut ordered: Vec<String> = Vec::new();
    let mut j: usize = 0;
    while j < pins.len()
        invariant
            j <= pins@.len(),
            ordered@ == pin_ids(pins@).take(j as int),
        decreases pins@.len() - j,
    {
        ordered.push(pins[j].0.clone());
        assert(pin_ids(pins@).take(j + 1) =~= pin_ids(pins@).take(j as int).push(pins@[j as int].0));
        j = j + 1;
    }
    assert(pin_ids(pins@).take(pins@.len() as int) =~= pin_ids(pins@));
    ordered
}

proof fn lemma_insert_pin_bounded(
    s: Seq<(String, Option<usize>)>,
    r: (String, Option<usize>),
    bound: (String, Option<usize>),
)
    requires
        forall|i: int| 0 <= i < s.len() ==> pin_le(#[trigger] s[i], bound),
        pin_le(r, bound),
    ensures
        forall|i: int|
            0 <= i < insert_pin(s, r).len() ==> pin_le(#[trigger] insert_pin(s, r)[i], bound),
    decreases s.len(),
{
    let out = insert_pin(s, r);
    if s.len() == 0 {
        assert(out =~= seq![r]);
    } else if pin_le(s.last(), r) {
        assert forall|i: int| 0 <= i < out.len() implies pin_le(#[trigger] out[i], bound) by {
            if i < s.len() {
                assert(out[i] == s[i]);
            }
        }
    } else {
        let ins = insert_pin(s.drop_last(), r);
        lemma_insert_pin_bounded(s.drop_last(), r, bound);
        assert forall|i: int| 0 <= i < out.len() implies pin_le(#[trigger] out[i], bound) by {
            if i < ins.len() {
                assert(out[i] == ins[i]);
            }
        }
    }
}

proof fn lemma_insert_pin_sorted(s: Seq<(String, Option<usize>)>, r: (String, Option<usize>))
    requires
        pins_sorted(s),
    ensures
        pins_sorted(insert_pin(s, r)),
        insert_pin(s, r).to_multiset() =~= s.to_multiset().insert(r),
    decreases s.len(),
{
    broadcast use vstd::seq_lib::group_seq_properties;

    if s.len() == 0 {
        lemma_pin_le_total(r, r);
        assert(insert_pin(s, r) =~= s.push(r));
    } else if pin_le(s.last(), r) {
        assert forall|i: int, j: int| 0 <= i <= j < s.push(r).len() implies pin_le(
            #[trigger] s.push(r)[i],
            #[trigger] s.push(r)[j],
        ) by {
            if j == s.len() && i < s.len() {
                lemma_pin_le_transitive(s[i], s.last(), r);
            } else if j == s.len() {
                lemma_pin_le_total(r, r);
            }
        }
    } else {
        let init = s.drop_last();
        assert(init.push(s.last()) =~= s);
        lemma_pin_le_total(s.last(), r);
        lemma_insert_pin_sorted(init, r);
        lemma_insert_pin_bounded(init, r, s.last());
        let ins = insert_pin(init, r);
        assert forall|i: int, j: int| 0 <= i <= j < ins.push(s.last()).len() implies pin_le(
            #[trigger] ins.push(s.last())[i],
            #[trigger] ins.push(s.last())[j],
        ) by {
            if j == ins.len() && i < ins.len() {
                assert(pin_le(ins[i], s.last()));
            } else if j == ins.len() {
                lemma_pin_le_total(s.last(), s.last());
            }
        }
    }
}

/// Sorting pins puts them in `pin_le` order and keeps every pin, as often as
/// it was there.
pub proof fn lemma_sort_pins_sorted_permutation(s: Seq<(String, Option<usize>)>)
    ensures
        pins_sorted(sort_pins(s)),
        sort_pins(s).to_multiset() =~= s.to_multiset(),
    decreases s.len(),
{
    broadcast use vstd::seq_lib::group_seq_properties;

    if s.len() > 0 {
        lemma_sort_pins_sorted_permutation(s.drop_last());
        lemma_insert_pin_sorted(sort_pins(s.drop_last()), s.last());
        assert(s.drop_last().push(s.last()) =~= s);
    }
}

} // verus!

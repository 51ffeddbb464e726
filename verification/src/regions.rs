//! Regions of an editor tab: labeled `[start, end)` sample ranges that are
//! kept in order, undone like any other edit, and saved next to the audio.
use vstd::prelude::*;

use crate::state::{EditorTab, RegionEntry, Toast, ToastSeverity, UndoEntry, WavesPreviewer};
use crate::text::{
    decimal, push_char, push_decimal, push_decimal_padded, push_decimal_u128, repeat_char, two_digits,
};

verus! {

/// `a` sorts no later than `b`: by start, then by end.
pub open spec fn region_key_le(a: RegionEntry, b: RegionEntry) -> bool {
    a.start < b.start || (a.start == b.start && a.end <= b.end)
}

/// `r` put into `s` after every region whose key is not greater than its
/// own: one step of a stable sort by `(start, end)`.
pub open spec fn insert_region(s: Seq<RegionEntry>, r: RegionEntry) -> Seq<RegionEntry>
    decreases s.len(),
{
    if s.len() == 0 {
        seq![r]
    } else if region_key_le(s.last(), r) {
        s.push(r)
    } else {
        insert_region(s.drop_last(), r).push(s.last())
    }
}

/// `s` stably sorted by `(start, end)`: what `sort_by_key(|r| (r.start, r.end))`
/// yields.
pub open spec fn sort_regions(s: Seq<RegionEntry>) -> Seq<RegionEntry>
    decreases s.len(),
{
    if s.len() == 0 {
        s
    } else {
        insert_region(sort_regions(s.drop_last()), s.last())
    }
}

/// Regions in `(start, end)` order.
pub open spec fn regions_sorted(s: Seq<RegionEntry>) -> bool {
    forall|i: int, j: int| 0 <= i <= j < s.len() ==> region_key_le(s[i], s[j])
}

/// The label a new region gets: `R` and its number, two digits at least.
pub open spec fn new_region_label(count: nat) -> Seq<char> {
    seq!['R'] + two_digits(count + 1)
}

/// The active tab's index, when it names an open tab.
pub open spec fn active_tab_index(app: WavesPreviewer) -> Option<int> {
    match app.active_tab {
        Some(i) => if i < app.tabs@.len() {
            Some(i as int)
        } else {
            None
        },
        None => None,
    }
}

/// The active tab's selection when it is a non-empty range.
pub open spec fn active_selection(app: WavesPreviewer) -> Option<(usize, usize)> {
    match active_tab_index(app) {
        Some(i) => match app.tabs@[i].selection {
            Some((s, e)) => if e > s {
                Some((s, e))
            } else {
                None
            },
            None => None,
        },
        None => None,
    }
}

/// `after` is `before` with only tab `i` replaced by `tab`.
pub open spec fn only_tab_changed(before: WavesPreviewer, after: WavesPreviewer, i: int) -> bool {
    &&& after.tabs@.len() == before.tabs@.len()
    &&& forall|k: int| 0 <= k < before.tabs@.len() && k != i ==> after.tabs@[k] == before.tabs@[k]
    &&& after == (WavesPreviewer { tabs: after.tabs, ..before })
}

/// Changing only tab `i` twice changes only tab `i`.
pub proof fn lemma_only_tab_changed_trans(a: WavesPreviewer, b: WavesPreviewer, c: WavesPreviewer, i: int)
    requires
        only_tab_changed(a, b, i),
        only_tab_changed(b, c, i),
    ensures
        only_tab_changed(a, c, i),
{
}

/// `after` tab is `before` tab with new regions and one more undo step,
/// and its redo history dropped.
pub open spec fn tab_edited(
    before: EditorTab,
    after: EditorTab,
    regions: Seq<RegionEntry>,
    undo_label: Seq<char>,
) -> bool {
    &&& after.regions@ == regions
    &&& after.undo_stack@.len() == before.undo_stack@.len() + 1
    &&& after.undo_stack@.drop_last() == before.undo_stack@
    &&& after.undo_stack@.last().label@ == undo_label
    &&& after.undo_stack@.last().regions@ == before.regions@
    &&& after.redo_stack@.len() == 0
    &&& after.path == before.path
    &&& after.buffer_sample_rate == before.buffer_sample_rate
    &&& after.selection == before.selection
    &&& after.samples_len == before.samples_len
    &&& after.preview_offset_samples == before.preview_offset_samples
    &&& after.dirty == before.dirty
    &&& after.loop_markers_dirty == before.loop_markers_dirty
    &&& after.markers_dirty == before.markers_dirty
    &&& after.metadata == before.metadata
}

impl RegionEntry {
    /// A copy of the region.
    pub fn duplicate(&self) -> (copy: RegionEntry)
        ensures
            copy == *self,
    {
        RegionEntry { start: self.start, end: self.end, label: self.label.clone() }
    }
}

/// A copy of a list of regions.
pub fn copy_regions(regions: &Vec<RegionEntry>) -> (copy: Vec<RegionEntry>)
    ensures
        copy@ == regions@,
{
    let mut copy: Vec<RegionEntry> = Vec::new();
    let mut i: usize = 0;
    while i < regions.len()
        invariant
            i <= regions@.len(),
            copy@ == regions@.take(i as int),
        decreases regions@.len() - i,
    {
        copy.push(regions[i].duplicate());
        assert(regions@.take(i + 1) == regions@.take(i as int).push(regions@[i as int]));
        i = i + 1;
    }
    assert(regions@.take(regions@.len() as int) =~= regions@);
    copy
}

fn key_greater(a: &RegionEntry, b: &RegionEntry) -> (r: bool)
    ensures
        r == !region_key_le(*a, *b),
{
    a.start > b.start || (a.start == b.start && a.end > b.end)
}

proof fn lemma_insert_region_at(s: Seq<RegionEntry>, r: RegionEntry, pos: int)
    requires
        0 <= pos <= s.len(),
        pos == 0 || region_key_le(s[pos - 1], r),
        forall|k: int| pos <= k < s.len() ==> !region_key_le(#[trigger] s[k], r),
    ensures
        insert_region(s, r) == s.insert(pos, r),
    decreases s.len(),
{
    if s.len() == 0 {
        assert(s.insert(pos, r) =~= seq![r]);
    } else if region_key_le(s.last(), r) {
        assert(pos == s.len());
        assert(s.insert(pos, r) =~= s.push(r));
    } else {
        lemma_insert_region_at(s.drop_last(), r, pos);
        assert(s.drop_last().insert(pos, r).push(s.last()) =~= s.insert(pos, r));
    }
}

/// Sorts regions by `(start, end)`, keeping regions with equal keys in the
/// order they had.
pub fn sort_regions_by_key(regions: &mut Vec<RegionEntry>)
    ensures
        final(regions)@ == sort_regions(old(regions)@),
{
    let ghost unsorted = regions@;
    let n = regions.len();
    let mut i: usize = 0;
    while i < n
        invariant
            n == unsorted.len() == regions@.len(),
            i <= n,
            regions@.subrange(0, i as int) == sort_regions(unsorted.take(i as int)),
            regions@.subrange(i as int, n as int) == unsorted.subrange(i as int, n as int),
        decreases n - i,
    {
        let ghost prefix = regions@.subrange(0, i as int);
        let ghost before = regions@;
        assert(before.subrange(i as int, n as int)[0] == before[i as int]);
        let r = regions.remove(i);
        proof {
            assert(r == unsorted[i as int]);
            assert(regions@.subrange(0, i as int) =~= prefix);
            assert(unsorted.take(i + 1).drop_last() =~= unsorted.take(i as int));
        }
        let mut pos = i;
        while pos > 0 && key_greater(&regions[pos - 1], &r)
            invariant
                pos <= i < n,
                regions@.len() == n - 1,
                regions@.subrange(0, i as int) == prefix,
                forall|k: int| pos <= k < i ==> !region_key_le(#[trigger] prefix[k], r),
            decreases pos,
        {
            pos = pos - 1;
        }
        proof {
            lemma_insert_region_at(prefix, r, pos as int);
        }
        regions.insert(pos, r);
        proof {
            assert(regions@ == before.remove(i as int).insert(pos as int, r));
            assert(regions@.subrange(0, i + 1) =~= prefix.insert(pos as int, r));
            assert forall|k: int| i + 1 <= k < n implies regions@[k] == unsorted[k] by {
                assert(regions@[k] == before[k]);
                assert(before[k] == before.subrange(i as int, n as int)[k - i]);
            }
            assert(regions@.subrange(i + 1, n as int) =~= unsorted.subrange(i + 1, n as int));
        }
        i = i + 1;
    }
    proof {
        assert(unsorted.take(n as int) =~= unsorted);
        assert(regions@.subrange(0, n as int) =~= regions@);
    }
}

proof fn lemma_insert_region_sorted(s: Seq<RegionEntry>, r: RegionEntry)
    requires
        regions_sorted(s),
    ensures
        regions_sorted(insert_region(s, r)),
        insert_region(s, r).to_multiset() =~= s.to_multiset().insert(r),
    decreases s.len(),
{
    broadcast use vstd::seq_lib::group_seq_properties;
    if s.len() == 0 {
        assert(insert_region(s, r) =~= s.push(r));
    } else if region_key_le(s.last(), r) {
        assert forall|i: int, j: int| 0 <= i <= j < s.push(r).len() implies region_key_le(
            #[trigger] s.push(r)[i],
            #[trigger] s.push(r)[j],
        ) by {
            if j == s.len() && i < s.len() {
                assert(region_key_le(s[i], s.last()));
            }
        }
    } else {
        let init = s.drop_last();
        assert(init.push(s.last()) =~= s);
        lemma_insert_region_sorted(init, r);
        lemma_insert_region_bounded(init, r, s.last());
        let ins = insert_region(init, r);
        assert forall|i: int, j: int| 0 <= i <= j < ins.push(s.last()).len() implies region_key_le(
            #[trigger] ins.push(s.last())[i],
            #[trigger] ins.push(s.last())[j],
        ) by {
            if j == ins.len() && i < ins.len() {
                assert(region_key_le(ins[i], s.last()));
            }
        }
    }
}

proof fn lemma_insert_region_bounded(s: Seq<RegionEntry>, r: RegionEntry, bound: RegionEntry)
    requires
        forall|i: int| 0 <= i < s.len() ==> region_key_le(#[trigger] s[i], bound),
        region_key_le(r, bound),
    ensures
        forall|i: int| 0 <= i < insert_region(s, r).len() ==> region_key_le(#[trigger] insert_region(s, r)[i], bound),
    decreases s.len(),
{
    let out = insert_region(s, r);
    if s.len() == 0 {
        assert(out =~= seq![r]);
    } else if region_key_le(s.last(), r) {
        assert forall|i: int| 0 <= i < out.len() implies region_key_le(#[trigger] out[i], bound) by {
            if i < s.len() {
                assert(out[i] == s[i]);
            }
        }
    } else {
        let ins = insert_region(s.drop_last(), r);
        lemma_insert_region_bounded(s.drop_last(), r, bound);
        assert forall|i: int| 0 <= i < out.len() implies region_key_le(#[trigger] out[i], bound) by {
            if i < ins.len() {
                assert(out[i] == ins[i]);
            }
        }
    }
}

/// Sorting regions puts them in `(start, end)` order and keeps every region,
/// as often as it was there.
pub proof fn lemma_sort_regions_sorted_permutation(s: Seq<RegionEntry>)
    ensures
        regions_sorted(sort_regions(s)),
        sort_regions(s).to_multiset() =~= s.to_multiset(),
    decreases s.len(),
{
    broadcast use vstd::seq_lib::group_seq_properties;
    if s.len() > 0 {
        lemma_sort_regions_sorted_permutation(s.drop_last());
        lemma_insert_region_sorted(sort_regions(s.drop_last()), s.last());
        assert(s.drop_last().push(s.last()) =~= s);
    }
}

/// Where `insert_region` puts `r` into `s`: after the last region whose
/// key is not greater than its own, scanning from the back.
pub open spec fn insert_position(s: Seq<RegionEntry>, r: RegionEntry) -> int
    decreases s.len(),
{
    if s.len() == 0 {
        0
    } else if region_key_le(s.last(), r) {
        s.len() as int
    } else {
        insert_position(s.drop_last(), r)
    }
}

proof fn lemma_insert_position(s: Seq<RegionEntry>, r: RegionEntry)
    ensures
        0 <= insert_position(s, r) <= s.len(),
        insert_region(s, r) == s.insert(insert_position(s, r), r),
        forall|k: int| insert_position(s, r) <= k < s.len() ==> !region_key_le(#[trigger] s[k], r),
    decreases s.len(),
{
    if s.len() == 0 {
        assert(s.insert(0, r) =~= seq![r]);
    } else if region_key_le(s.last(), r) {
        assert(s.insert(s.len() as int, r) =~= s.push(r));
    } else {
        lemma_insert_position(s.drop_last(), r);
        let p = insert_position(s.drop_last(), r);
        assert(s.drop_last().insert(p, r).push(s.last()) =~= s.insert(p, r));
        assert forall|k: int| p <= k < s.len() implies !region_key_le(#[trigger] s[k], r) by {
            if k < s.len() - 1 {
                assert(s[k] == s.drop_last()[k]);
            }
        }
    }
}

/// Sorting regions that are in order leaves them as they are.
proof fn lemma_sort_sorted_identity(s: Seq<RegionEntry>)
    requires
        regions_sorted(s),
    ensures
        sort_regions(s) == s,
    decreases s.len(),
{
    if s.len() > 0 {
        let init = s.drop_last();
        assert(regions_sorted(init)) by {
            assert forall|i: int, j: int| 0 <= i <= j < init.len() implies region_key_le(init[i], init[j]) by {
                assert(init[i] == s[i] && init[j] == s[j]);
            }
        }
        lemma_sort_sorted_identity(init);
        if init.len() > 0 {
            assert(region_key_le(s[s.len() - 2], s[s.len() - 1]));
        }
        assert(init.push(s.last()) =~= s);
    }
}

/// Adding a region to regions in `(start, end)` order puts it in at
/// `insert_position` and keeps them in order: one more region, none lost.
pub proof fn lemma_add_region_keeps_order(s: Seq<RegionEntry>, r: RegionEntry)
    requires
        regions_sorted(s),
    ensures
        sort_regions(s.push(r)) == s.insert(insert_position(s, r), r),
        regions_sorted(sort_regions(s.push(r))),
        sort_regions(s.push(r)).len() == s.len() + 1,
        sort_regions(s.push(r)).to_multiset() =~= s.to_multiset().insert(r),
{
    broadcast use vstd::seq_lib::group_seq_properties;

    lemma_sort_sorted_identity(s);
    assert(s.push(r).drop_last() =~= s);
    lemma_insert_position(s, r);
    lemma_sort_regions_sorted_permutation(s.push(r));
}

/// Deleting the region just added to regions in order gives the regions
/// back; it is the last one with its `(start, end)`.
pub proof fn lemma_add_then_delete_restores(s: Seq<RegionEntry>, r: RegionEntry)
    requires
        regions_sorted(s),
    ensures
        ({
            let added = sort_regions(s.push(r));
            let k = insert_position(s, r);
            &&& 0 <= k < added.len()
            &&& added[k] == r
            &&& forall|j: int| k < j < added.len() ==> !(#[trigger] added[j].start == r.start
                && added[j].end == r.end)
            &&& added.remove(k) == s
        }),
{
    lemma_add_region_keeps_order(s, r);
    lemma_insert_position(s, r);
    let k = insert_position(s, r);
    let added = s.insert(k, r);
    assert(added.remove(k) =~= s);
    assert forall|j: int| k < j < added.len() implies !(#[trigger] added[j].start == r.start
        && added[j].end == r.end) by {
        assert(added[j] == s[j - 1]);
    }
}

/// The regions of the active tab after "Add from selection" added `new`:
/// all regions with `new` among them, in `(start, end)` order.
pub open spec fn regions_after_add(app: WavesPreviewer, new: RegionEntry) -> Seq<RegionEntry> {
    sort_regions(app.tabs@[active_tab_index(app)->0].regions@.push(new))
}

/// The region "Add from selection" adds: the selection, labeled by how
/// many regions the tab had.
pub open spec fn is_new_region(app: WavesPreviewer, new: RegionEntry) -> bool {
    let (s, e) = active_selection(app)->0;
    &&& new.start == s
    &&& new.end == e
    &&& new.label@ == new_region_label(app.tabs@[active_tab_index(app)->0].regions@.len())
}

proof fn lemma_decimal_nonempty(n: nat)
    ensures
        decimal(n).len() >= 1,
    decreases n,
{
    if n >= 10 {
        lemma_decimal_nonempty(n / 10);
    }
}

/// Two digits at least: a zero before a single digit.
proof fn lemma_two_digits_of(n: nat)
    ensures
        n < 10 ==> two_digits(n) == seq!['0'] + decimal(n),
        n >= 10 ==> two_digits(n) == decimal(n),
{
    if n >= 10 {
        lemma_decimal_nonempty(n / 10);
    } else {
        assert(repeat_char('0', 1) =~= seq!['0']) by {
            reveal_with_fuel(repeat_char, 2);
        }
    }
}

/// What "Add from selection" does: with an active tab and a non-empty
/// selection, the selection becomes a new region (see `is_new_region`) and
/// the tab's regions are `regions_after_add`, as one "Add Region" undo
/// step; otherwise nothing changes.
pub open spec fn add_region_outcome(before: WavesPreviewer, after: WavesPreviewer, added: bool) -> bool {
    &&& added == (active_selection(before) is Some)
    &&& !added ==> after == before
    &&& added ==> exists|new: RegionEntry|
        {
            let i = active_tab_index(before)->0;
            &&& #[trigger] is_new_region(before, new)
            &&& only_tab_changed(before, after, i)
            &&& tab_edited(before.tabs@[i], after.tabs@[i], regions_after_add(before, new), "Add Region"@)
        }
}

/// A region as `(start, end, label)`.
pub open spec fn region_tuple(r: RegionEntry) -> (usize, usize, Seq<char>) {
    (r.start, r.end, r.label@)
}

/// Regions as `(start, end, label)` tuples.
pub open spec fn region_tuples(s: Seq<RegionEntry>) -> Seq<(usize, usize, Seq<char>)> {
    s.map_values(|r: RegionEntry| region_tuple(r))
}

proof fn lemma_insert_region_tuples(s: Seq<RegionEntry>, a: RegionEntry, b: RegionEntry)
    requires
        region_tuple(a) == region_tuple(b),
    ensures
        region_tuples(insert_region(s, a)) == region_tuples(insert_region(s, b)),
    decreases s.len(),
{
    if s.len() == 0 {
        assert(region_tuples(seq![a]) =~= region_tuples(seq![b]));
    } else if region_key_le(s.last(), a) {
        assert(region_tuples(s.push(a)) =~= region_tuples(s.push(b)));
    } else {
        lemma_insert_region_tuples(s.drop_last(), a, b);
        assert(region_tuples(insert_region(s.drop_last(), a).push(s.last())) =~= region_tuples(
            insert_region(s.drop_last(), a),
        ).push(region_tuple(s.last())));
        assert(region_tuples(insert_region(s.drop_last(), b).push(s.last())) =~= region_tuples(
            insert_region(s.drop_last(), b),
        ).push(region_tuple(s.last())));
    }
}

/// "Add from selection" has one outcome: two runs from the same state
/// agree on whether a region was added, on the regions (by start, end and
/// label) and the undo step, and leave everything else as it was.
pub proof fn lemma_add_region_outcome_determined(
    before: WavesPreviewer,
    after1: WavesPreviewer,
    after2: WavesPreviewer,
    added1: bool,
    added2: bool,
)
    requires
        add_region_outcome(before, after1, added1),
        add_region_outcome(before, after2, added2),
    ensures
        added1 == added2,
        !added1 ==> after1 == after2,
        added1 ==> ({
            let i = active_tab_index(before)->0;
            &&& region_tuples(after1.tabs@[i].regions@) == region_tuples(after2.tabs@[i].regions@)
            &&& after1.tabs@[i].undo_stack@.len() == after2.tabs@[i].undo_stack@.len()
            &&& after1.tabs@[i].undo_stack@.last().label@ == after2.tabs@[i].undo_stack@.last().label@
            &&& after1.tabs@[i].undo_stack@.last().regions@ == after2.tabs@[i].undo_stack@.last().regions@
            &&& after1.tabs@[i].redo_stack@.len() == 0 && after2.tabs@[i].redo_stack@.len() == 0
            &&& after1.tabs@[i].selection == after2.tabs@[i].selection
            &&& after1.tabs@[i].metadata == after2.tabs@[i].metadata
            &&& after1 == (WavesPreviewer { tabs: after1.tabs, ..after2 })
        }),
{
    if added1 {
        let i = active_tab_index(before)->0;
        let n1 = choose|new: RegionEntry|
            {
                &&& #[trigger] is_new_region(before, new)
                &&& only_tab_changed(before, after1, i)
                &&& tab_edited(before.tabs@[i], after1.tabs@[i], regions_after_add(before, new), "Add Region"@)
            };
        let n2 = choose|new: RegionEntry|
            {
                &&& #[trigger] is_new_region(before, new)
                &&& only_tab_changed(before, after2, i)
                &&& tab_edited(before.tabs@[i], after2.tabs@[i], regions_after_add(before, new), "Add Region"@)
            };
        let old_regions = before.tabs@[i].regions@;
        assert(old_regions.push(n1).drop_last() =~= old_regions);
        assert(old_regions.push(n2).drop_last() =~= old_regions);
        lemma_insert_region_tuples(sort_regions(old_regions), n1, n2);
    }
}

/// Adding from the selection to regions in `(start, end)` order leaves them
/// in order, with exactly one region more: the selection, labeled `R` and
/// the old count plus one in two digits at least, put in after every
/// region that does not sort after it.
pub proof fn lemma_added_region_listed(before: WavesPreviewer, after: WavesPreviewer)
    requires
        add_region_outcome(before, after, true),
        regions_sorted(before.tabs@[active_tab_index(before)->0].regions@),
    ensures
        ({
            let i = active_tab_index(before)->0;
            let old_regions = before.tabs@[i].regions@;
            let new_regions = after.tabs@[i].regions@;
            &&& new_regions.len() == old_regions.len() + 1
            &&& regions_sorted(new_regions)
            &&& exists|new: RegionEntry|
                #[trigger] is_new_region(before, new) && new.label@ == new_region_label(old_regions.len())
                    && new_regions == old_regions.insert(insert_position(old_regions, new), new)
        }),
{
    let i = active_tab_index(before)->0;
    let new = choose|new: RegionEntry|
        {
            &&& #[trigger] is_new_region(before, new)
            &&& only_tab_changed(before, after, i)
            &&& tab_edited(before.tabs@[i], after.tabs@[i], regions_after_add(before, new), "Add Region"@)
        };
    lemma_add_region_keeps_order(before.tabs@[i].regions@, new);
}

impl WavesPreviewer {
    /// Adds the active tab's selection as a new region, labeled `R01`,
    /// `R02`, ... by how many regions the tab had, and keeps the regions in
    /// `(start, end)` order. The edit is one undo step, "Add Region". Does
    /// nothing and returns `false` without an active tab or a non-empty
    /// selection.
    pub fn editor_add_region_from_selection(&mut self) -> (added: bool)
        ensures
            add_region_outcome(*old(self), *final(self), added),
    {
        let tab_idx = match self.active_tab {
            Some(i) => i,
            None => return false,
        };
        if tab_idx >= self.tabs.len() {
            return false;
        }
        let (s, e) = match self.tabs[tab_idx].selection {
            Some((s, e)) => {
                if e > s {
                    (s, e)
                } else {
                    return false;
                }
            },
            None => return false,
        };
        let undo = UndoEntry {
            label: String::from_str("Add Region"),
            regions: copy_regions(&self.tabs[tab_idx].regions),
        };
        let count = self.tabs[tab_idx].regions.len();
        let mut label = String::new();
        push_char(&mut label, 'R');
        let number: u128 = count as u128 + 1;
        if number < 10 {
            push_char(&mut label, '0');
        }
        let ghost head = label@;
        push_decimal_u128(&mut label, number);
        proof {
            lemma_two_digits_of(number as nat);
            if number < 10 {
                assert(head =~= seq!['R', '0']);
                assert(label@ =~= seq!['R'] + two_digits(number as nat));
            } else {
                assert(head =~= seq!['R']);
                assert(label@ =~= seq!['R'] + two_digits(number as nat));
            }
        }
        let new = RegionEntry { start: s, end: e, label };
        let ghost new_region = new;
        self.tabs[tab_idx].regions.push(new);
        sort_regions_by_key(&mut self.tabs[tab_idx].regions);
        self.tabs[tab_idx].undo_stack.push(undo);
        self.tabs[tab_idx].redo_stack.clear();
        proof {
            let i = tab_idx as int;
            assert(self.tabs@[i].undo_stack@.drop_last() =~= old(self).tabs@[i].undo_stack@);
            assert(is_new_region(*old(self), new_region));
            assert(self.tabs@[i].regions@ == regions_after_add(*old(self), new_region));
        }
        true
    }

    /// Whether the Regions window offers "Add from selection": the active
    /// tab has a non-empty selection.
    pub fn can_add_region_from_selection(&self) -> (can: bool)
        ensures
            can == (active_selection(*self) is Some),
    {
        let tab_idx = match self.active_tab {
            Some(i) => i,
            None => return false,
        };
        if tab_idx >= self.tabs.len() {
            return false;
        }
        match self.tabs[tab_idx].selection {
            Some((s, e)) => e > s,
            None => false,
        }
    }

    /// Selects the active tab's region at `index` in the editor; returns
    /// whether there was such a region.
    pub fn select_region_in_editor(&mut self, index: usize) -> (selected: bool)
        ensures
            selected == (active_tab_index(*old(self)) matches Some(i) && index < old(self).tabs@[i].regions@.len()),
            !selected ==> *final(self) == *old(self),
            selected ==> ({
                let i = active_tab_index(*old(self))->0;
                let r = old(self).tabs@[i].regions@[index as int];
                &&& only_tab_changed(*old(self), *final(self), i)
                &&& final(self).tabs@[i].selection == Some((r.start, r.end))
                &&& final(self).tabs@[i].regions == old(self).tabs@[i].regions
                &&& final(self).tabs@[i].undo_stack == old(self).tabs@[i].undo_stack
                &&& final(self).tabs@[i].metadata == old(self).tabs@[i].metadata
            }),
    {
        let tab_idx = match self.active_tab {
            Some(i) => i,
            None => return false,
        };
        if tab_idx >= self.tabs.len() || index >= self.tabs[tab_idx].regions.len() {
            return false;
        }
        let start = self.tabs[tab_idx].regions[index].start;
        let end = self.tabs[tab_idx].regions[index].end;
        self.tabs[tab_idx].selection = Some((start, end));
        true
    }

    /// Deletes the active tab's region at `index` as one undo step,
    /// "Delete Region". Does nothing and returns `false` without an active
    /// tab or when there is no region at `index`.
    pub fn editor_delete_region(&mut self, index: usize) -> (deleted: bool)
        ensures
            deleted == (active_tab_index(*old(self)) matches Some(i) && index < old(self).tabs@[i].regions@.len()),
            !deleted ==> *final(self) == *old(self),
            deleted ==> ({
                let i = active_tab_index(*old(self))->0;
                &&& only_tab_changed(*old(self), *final(self), i)
                &&& tab_edited(
                    old(self).tabs@[i],
                    final(self).tabs@[i],
                    old(self).tabs@[i].regions@.remove(index as int),
                    "Delete Region"@,
                )
            }),
    {
        let tab_idx = match self.active_tab {
            Some(i) => i,
            None => return false,
        };
        if tab_idx >= self.tabs.len() {
            return false;
        }
        if index >= self.tabs[tab_idx].regions.len() {
            return false;
        }
        let undo = UndoEntry {
            label: String::from_str("Delete Region"),
            regions: copy_regions(&self.tabs[tab_idx].regions),
        };
        self.tabs[tab_idx].regions.remove(index);
        self.tabs[tab_idx].undo_stack.push(undo);
        self.tabs[tab_idx].redo_stack.clear();
        proof {
            let i = tab_idx as int;
            assert(self.tabs@[i].undo_stack@.drop_last() =~= old(self).tabs@[i].undo_stack@);
        }
        true
    }
}

/// What a sidecar save of the active tab's regions writes: the audio file
/// the sidecar sits next to, the sample rate its times are counted in, and
/// the regions.
pub struct RegionsSidecarRequest {
    pub path: String,
    pub sample_rate: u32,
    pub regions: Vec<RegionEntry>,
}

/// `label` as a CSV field: in double quotes, with each double quote doubled.
pub open spec fn csv_quoted(label: Seq<char>) -> Seq<char> {
    seq!['"'] + csv_escaped(label) + seq!['"']
}

/// `label` with each double quote doubled.
pub open spec fn csv_escaped(label: Seq<char>) -> Seq<char>
    decreases label.len(),
{
    if label.len() == 0 {
        label
    } else if label.last() == '"' {
        csv_escaped(label.drop_last()) + seq!['"', '"']
    } else {
        csv_escaped(label.drop_last()).push(label.last())
    }
}

/// A region label as the first field of a row of the regions CSV.
pub fn csv_quoted_label(label: &str) -> (field: String)
    ensures
        field@ == csv_quoted(label@),
{
    let chars = crate::text::chars_of(label);
    let mut field = String::new();
    push_char(&mut field, '"');
    let mut i: usize = 0;
    while i < chars.len()
        invariant
            i <= chars@.len(),
            chars@ == label@,
            field@ == seq!['"'] + csv_escaped(chars@.take(i as int)),
        decreases chars@.len() - i,
    {
        proof {
            assert(chars@.take(i + 1).drop_last() =~= chars@.take(i as int));
        }
        if chars[i] == '"' {
            push_char(&mut field, '"');
            push_char(&mut field, '"');
            assert(field@ =~= seq!['"'] + csv_escaped(chars@.take(i + 1)));
        } else {
            push_char(&mut field, chars[i]);
            assert(field@ =~= seq!['"'] + csv_escaped(chars@.take(i + 1)));
        }
        i = i + 1;
    }
    push_char(&mut field, '"');
    proof {
        assert(chars@.take(chars@.len() as int) =~= chars@);
    }
    field
}

/// The toast that reports a finished sidecar save of `count` regions, or
/// its failure with the error's text.
pub open spec fn sidecar_toast_text(count: nat, outcome: Result<(), Seq<char>>) -> (ToastSeverity, Seq<char>) {
    match outcome {
        Ok(()) => (ToastSeverity::Info, "Saved "@ + decimal(count) + " region(s) to sidecar"@),
        Err(e) => (ToastSeverity::Error, "Region sidecar save failed: "@ + e),
    }
}

/// The toast that reports a finished CSV export of `count` regions, or its
/// failure with the error's text.
pub open spec fn export_toast_text(count: nat, outcome: Result<(), Seq<char>>) -> (ToastSeverity, Seq<char>) {
    match outcome {
        Ok(()) => (ToastSeverity::Info, "Exported "@ + decimal(count) + " region(s)"@),
        Err(e) => (ToastSeverity::Error, "Region CSV export failed: "@ + e),
    }
}

/// An outcome with the error taken by its characters.
pub open spec fn outcome_view(outcome: Result<(), String>) -> Result<(), Seq<char>> {
    match outcome {
        Ok(()) => Ok(()),
        Err(e) => Err(e@),
    }
}

/// `after` is `before` with `toast` queued.
pub open spec fn toast_pushed(before: WavesPreviewer, after: WavesPreviewer, severity: ToastSeverity, message: Seq<char>) -> bool {
    &&& after.toasts@.len() == before.toasts@.len() + 1
    &&& after.toasts@.drop_last() == before.toasts@
    &&& after.toasts@.last().severity == severity
    &&& after.toasts@.last().message@ == message
    &&& after == (WavesPreviewer { toasts: after.toasts, ..before })
}

impl WavesPreviewer {
    /// Queues a toast.
    pub fn push_toast(&mut self, severity: ToastSeverity, message: String)
        ensures
            toast_pushed(*old(self), *final(self), severity, message@),
            final(self).list_has_focus == old(self).list_has_focus,
            final(self).missing_paths == old(self).missing_paths,
            final(self).list_meta_prefetch_cursor == old(self).list_meta_prefetch_cursor,
    {
        self.toasts.push(Toast { severity, message });
        assert(self.toasts@.drop_last() =~= old(self).toasts@);
    }

    /// Test access to the active tab's regions, if the selection makes one.
    pub fn test_add_region_from_selection(&mut self) -> (added: bool)
        ensures
            add_region_outcome(*old(self), *final(self), added),
    {
        self.editor_add_region_from_selection()
    }

    /// The active tab's regions as `(start, end, label)`; none without an
    /// active tab.
    pub fn test_regions(&self) -> (regions: Vec<(usize, usize, String)>)
        ensures
            match active_tab_index(*self) {
                Some(i) => {
                    &&& regions@.len() == self.tabs@[i].regions@.len()
                    &&& forall|k: int| 0 <= k < regions@.len() ==> {
                        let r = #[trigger] self.tabs@[i].regions@[k];
                        &&& regions@[k].0 == r.start
                        &&& regions@[k].1 == r.end
                        &&& regions@[k].2@ == r.label@
                    }
                },
                None => regions@.len() == 0,
            },
    {
        let mut out: Vec<(usize, usize, String)> = Vec::new();
        let tab_idx = match self.active_tab {
            Some(i) => i,
            None => return out,
        };
        if tab_idx >= self.tabs.len() {
            return out;
        }
        let regions = &self.tabs[tab_idx].regions;
        let mut k: usize = 0;
        while k < regions.len()
            invariant
                k <= regions@.len(),
                out@.len() == k,
                forall|j: int| 0 <= j < k ==> {
                    let r = #[trigger] regions@[j];
                    &&& out@[j].0 == r.start
                    &&& out@[j].1 == r.end
                    &&& out@[j].2@ == r.label@
                },
            decreases regions@.len() - k,
        {
            let r = &regions[k];
            out.push((r.start, r.end, r.label.clone()));
            k = k + 1;
        }
        out
    }

    /// What saving the active tab's regions to their sidecar writes; nothing
    /// without an active tab. The sample rate is the tab's, at least 1.
    pub fn save_regions_sidecar_for_active_tab(&self) -> (request: Option<RegionsSidecarRequest>)
        ensures
            match active_tab_index(*self) {
                Some(i) => request matches Some(req) && {
                    &&& req.path@ == self.tabs@[i].path@
                    &&& req.sample_rate == if self.tabs@[i].buffer_sample_rate >= 1 {
                        self.tabs@[i].buffer_sample_rate
                    } else {
                        1
                    }
                    &&& req.regions@ == self.tabs@[i].regions@
                },
                None => request is None,
            },
    {
        let tab_idx = match self.active_tab {
            Some(i) => i,
            None => return None,
        };
        if tab_idx >= self.tabs.len() {
            return None;
        }
        let tab = &self.tabs[tab_idx];
        let sample_rate = if tab.buffer_sample_rate >= 1 { tab.buffer_sample_rate } else { 1 };
        Some(RegionsSidecarRequest { path: tab.path.clone(), sample_rate, regions: copy_regions(&tab.regions) })
    }

    /// Reports a finished sidecar save of `count` regions.
    pub fn finish_regions_sidecar_save(&mut self, count: usize, outcome: Result<(), String>)
        ensures
            toast_pushed(
                *old(self),
                *final(self),
                sidecar_toast_text(count as nat, outcome_view(outcome)).0,
                sidecar_toast_text(count as nat, outcome_view(outcome)).1,
            ),
    {
        match outcome {
            Ok(()) => {
                let mut message = String::from_str("Saved ");
                push_decimal(&mut message, count as u64);
                message.append(" region(s) to sidecar");
                self.push_toast(ToastSeverity::Info, message);
            },
            Err(e) => {
                let mut message = String::from_str("Region sidecar save failed: ");
                message.append(e.as_str());
                self.push_toast(ToastSeverity::Error, message);
            },
        }
    }

    /// Reports a finished CSV export of `count` regions.
    pub fn finish_regions_csv_export(&mut self, count: usize, outcome: Result<(), String>)
        ensures
            toast_pushed(
                *old(self),
                *final(self),
                export_toast_text(count as nat, outcome_view(outcome)).0,
                export_toast_text(count as nat, outcome_view(outcome)).1,
            ),
    {
        match outcome {
            Ok(()) => {
                let mut message = String::from_str("Exported ");
                push_decimal(&mut message, count as u64);
                message.append(" region(s)");
                self.push_toast(ToastSeverity::Info, message);
            },
            Err(e) => {
                let mut message = String::from_str("Region CSV export failed: ");
                message.append(e.as_str());
                self.push_toast(ToastSeverity::Error, message);
            },
        }
    }
}

} // verus!

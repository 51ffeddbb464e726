//! The file list: row movement, column order, type badges, selection and
//! what the list does once a frame of it has been drawn.
use vstd::prelude::*;

use crate::metadata::path_is_virtual;
use crate::regions::toast_pushed;
use crate::state::{MediaItem, MediaSource, ToastSeverity, WavesPreviewer};

verus! {

/// `items` with the element at `from` taken out and put back in at `to`.
pub open spec fn moved<T>(items: Seq<T>, from: int, to: int) -> Seq<T> {
    items.remove(from).insert(to, items[from])
}

/// Whether `move_vec_item` accepts a move: both positions are in range and
/// they differ.
pub open spec fn move_accepted(len: nat, from: nat, to: nat) -> bool {
    from < len && to < len && from != to
}

/// Moves the element at `from` so that it ends up at `to`, shifting the
/// ones in between; refuses (and leaves `items` alone) when either index is
/// out of range or they are equal. Returns whether it moved anything.
pub fn move_vec_item<T>(items: &mut Vec<T>, from: usize, to: usize) -> (moved_any: bool)
    ensures
        moved_any == move_accepted(old(items)@.len(), from as nat, to as nat),
        moved_any ==> final(items)@ == moved(old(items)@, from as int, to as int),
        !moved_any ==> final(items)@ == old(items)@,
{
    if from >= items.len() || to >= items.len() || from == to {
        return false;
    }
    let item = items.remove(from);
    items.insert(to, item);
    true
}

/// A move followed by the move back leaves the sequence as it was.
pub proof fn lemma_move_back_restores<T>(items: Seq<T>, from: int, to: int)
    requires
        0 <= from < items.len(),
        0 <= to < items.len(),
    ensures
        moved(moved(items, from, to), to, from) =~= items,
        moved(items, from, to).len() == items.len(),
{
    let once = moved(items, from, to);
    assert(once[to] == items[from]);
    assert(moved(once, to, from) =~= items);
}

/// A move only reorders: every element is still there, as often as before.
pub proof fn lemma_move_is_permutation<T>(items: Seq<T>, from: int, to: int)
    requires
        0 <= from < items.len(),
        0 <= to < items.len(),
    ensures
        moved(items, from, to).to_multiset() =~= items.to_multiset(),
{
    let rest = items.remove(from);
    broadcast use vstd::seq_lib::group_seq_properties;
    assert(items =~= items.subrange(0, from) + items.subrange(from, items.len() as int));
    assert(rest =~= items.subrange(0, from) + items.subrange(from + 1, items.len() as int));
    assert(items.subrange(from, items.len() as int) =~= seq![items[from]] + items.subrange(
        from + 1,
        items.len() as int,
    ));
    vstd::seq_lib::lemma_multiset_commutative(
        items.subrange(0, from),
        items.subrange(from, items.len() as int),
    );
    vstd::seq_lib::lemma_multiset_commutative(
        seq![items[from]],
        items.subrange(from + 1, items.len() as int),
    );
    vstd::seq_lib::lemma_multiset_commutative(
        items.subrange(0, from),
        items.subrange(from + 1, items.len() as int),
    );
    assert(rest.insert(to, items[from]) =~= rest.subrange(0, to) + seq![items[from]]
        + rest.subrange(to, rest.len() as int));
    assert(rest =~= rest.subrange(0, to) + rest.subrange(to, rest.len() as int));
    vstd::seq_lib::lemma_multiset_commutative(
        rest.subrange(0, to) + seq![items[from]],
        rest.subrange(to, rest.len() as int),
    );
    vstd::seq_lib::lemma_multiset_commutative(rest.subrange(0, to), seq![items[from]]);
    vstd::seq_lib::lemma_multiset_commutative(
        rest.subrange(0, to),
        rest.subrange(to, rest.len() as int),
    );
}

/// Where `steps` rows from `cur` lands: forward moves stop at `last`,
/// backward moves stop at row 0.
pub open spec fn stepped_row(cur: int, steps: int, last: int) -> int {
    if steps >= 0 {
        let ahead = if cur + steps > usize::MAX {
            usize::MAX as int
        } else {
            cur + steps
        };
        if ahead < last {
            ahead
        } else {
            last
        }
    } else if cur + steps < 0 {
        0
    } else {
        cur + steps
    }
}

/// Where `steps` rows from `cur` lands, clamped to the list.
pub fn step_row(cur: usize, steps: isize, last: usize) -> (row: usize)
    ensures
        row == stepped_row(cur as int, steps as int, last as int),
{
    if steps >= 0 {
        cur.saturating_add(steps as usize).min(last)
    } else {
        let back: usize = ((-(steps + 1)) as usize) + 1;
        cur.saturating_sub(back)
    }
}

/// A step from a row of the list stays in the list.
pub proof fn lemma_step_stays_in_list(cur: int, steps: int, last: int)
    requires
        0 <= cur <= last <= usize::MAX,
    ensures
        0 <= stepped_row(cur, steps, last) <= last,
        steps >= 0 ==> stepped_row(cur, steps, last) >= cur,
        steps <= 0 ==> stepped_row(cur, steps, last) <= cur,
{
}

/// The navigation keys pressed on the list in one frame: Home and End, and
/// how many times each of Page Down, Page Up, Down and Up was pressed
/// (auto-repeat included).
#[derive(Clone, Copy, Debug)]
pub struct ListKeys {
    pub home: bool,
    pub end: bool,
    pub page_down: usize,
    pub page_up: usize,
    pub down: usize,
    pub up: usize,
}

/// The keys fit the arithmetic of a step: each count, and a page step of
/// `page` rows per press, fits in `isize`.
pub open spec fn keys_in_range(keys: ListKeys, page: nat) -> bool {
    &&& keys.page_down <= isize::MAX && keys.page_up <= isize::MAX
    &&& keys.down <= isize::MAX && keys.up <= isize::MAX
    &&& isize::MIN <= (keys.page_down - keys.page_up) * page <= isize::MAX
}

/// The row the keys send the list's selection to, in a list of `len` rows
/// showing `visible_rows` rows: Home the first row, End the last; else
/// pages, else single rows, counted from the selected row (the first row
/// when none is selected, the last when it lies past the end); none when no
/// navigation key was pressed.
pub open spec fn key_target(selected: Option<usize>, len: nat, keys: ListKeys, visible_rows: nat) -> Option<int> {
    let last: int = if len > 0 { len - 1 } else { 0 };
    let sel: int = match selected {
        Some(r) => r as int,
        None => 0,
    };
    let cur = if sel < last { sel } else { last };
    let page: int = if visible_rows >= 1 { visible_rows as int } else { 1 };
    if keys.home || keys.end {
        Some(if keys.home { 0 } else { last })
    } else if keys.page_down > 0 || keys.page_up > 0 {
        Some(stepped_row(cur, (keys.page_down - keys.page_up) * page, last))
    } else if keys.down > 0 || keys.up > 0 {
        Some(stepped_row(cur, keys.down - keys.up, last))
    } else {
        None
    }
}

/// Whatever keys were pressed, in a list with rows the selection lands on
/// one of its rows, even from a selected row past the end.
pub proof fn lemma_key_target_in_list(selected: Option<usize>, len: nat, keys: ListKeys, visible_rows: nat)
    requires
        0 < len <= usize::MAX,
    ensures
        key_target(selected, len, keys, visible_rows) matches Some(t) ==> 0 <= t < len,
{
    let last: int = len - 1;
    let sel: int = match selected {
        Some(r) => r as int,
        None => 0,
    };
    let cur = if sel < last { sel } else { last };
    let page: int = if visible_rows >= 1 { visible_rows as int } else { 1 };
    lemma_step_stays_in_list(cur, (keys.page_down - keys.page_up) * page, last);
    lemma_step_stays_in_list(cur, keys.down - keys.up, last);
}

/// The row the navigation keys send the list's selection to.
pub fn list_key_target(selected: Option<usize>, len: usize, keys: ListKeys, visible_rows: usize) -> (target: Option<usize>)
    requires
        keys_in_range(keys, if visible_rows >= 1 { visible_rows as nat } else { 1 }),
    ensures
        match target {
            Some(t) => key_target(selected, len as nat, keys, visible_rows as nat) == Some(t as int),
            None => key_target(selected, len as nat, keys, visible_rows as nat) is None,
        },
{
    let last = if len > 0 { len - 1 } else { 0 };
    let sel = match selected {
        Some(r) => r,
        None => 0,
    };
    let cur = if sel < last { sel } else { last };
    if keys.home || keys.end {
        return Some(if keys.home { 0 } else { last });
    }
    if keys.page_down > 0 || keys.page_up > 0 {
        let page: i128 = if visible_rows >= 1 { visible_rows as i128 } else { 1 };
        let diff: i128 = keys.page_down as i128 - keys.page_up as i128;
        assert(-0x7fff_ffff_ffff_ffffi128 <= diff <= 0x7fff_ffff_ffff_ffffi128);
        assert(1 <= page <= 0xffff_ffff_ffff_ffffi128);
        assert(-0x7fff_ffff_ffff_ffff_ffff_ffff_ffff_ffffint <= diff * page <= 0x7fff_ffff_ffff_ffff_ffff_ffff_ffff_ffffint)
            by (nonlinear_arith)
            requires
                -0x7fff_ffff_ffff_ffffi128 <= diff <= 0x7fff_ffff_ffff_ffffi128,
                1 <= page <= 0xffff_ffff_ffff_ffffi128,
        {
            if diff >= 0 {
                assert(diff * page <= 0x7fff_ffff_ffff_ffffi128 * page);
                assert(0x7fff_ffff_ffff_ffffi128 * page <= 0x7fff_ffff_ffff_ffffi128 * 0xffff_ffff_ffff_ffffi128);
            } else {
                assert(diff * page >= -0x7fff_ffff_ffff_ffffi128 * page);
                assert(-0x7fff_ffff_ffff_ffffi128 * page >= -0x7fff_ffff_ffff_ffffi128 * 0xffff_ffff_ffff_ffffi128);
            }
        }
        let steps: isize = (diff * page) as isize;
        return Some(step_row(cur, steps, last));
    }
    if keys.down > 0 || keys.up > 0 {
        let steps: isize = keys.down as isize - keys.up as isize;
        return Some(step_row(cur, steps, last));
    }
    None
}

/// The word a row's type sorts by: `vir` for a virtual item, `ext` for an
/// external row, and for a file its extension, or `file` if it has none.
pub open spec fn type_sort_key(item: MediaItem) -> Seq<char> {
    match item.source {
        MediaSource::Virtual => "vir"@,
        MediaSource::External => "ext"@,
        MediaSource::File => match item.extension {
            Some(ext) => if ext@.len() > 0 {
                ext@
            } else {
                "file"@
            },
            None => "file"@,
        },
    }
}

impl WavesPreviewer {
    /// The key the Type column sorts by.
    pub fn list_type_sort_key(item: &MediaItem) -> (key: String)
        ensures
            key@ == type_sort_key(*item),
    {
        match item.source {
            MediaSource::Virtual => String::from_str("vir"),
            MediaSource::External => String::from_str("ext"),
            MediaSource::File => match &item.extension {
                Some(ext) => {
                    if ext.as_str().is_empty() {
                        String::from_str("file")
                    } else {
                        ext.clone()
                    }
                },
                None => String::from_str("file"),
            },
        }
    }
}

/// The characters of each string.
pub open spec fn views(v: Seq<String>) -> Seq<Seq<char>> {
    v.map_values(|s: String| s@)
}

/// The paths of the selected rows among the first `n` rows, in row order.
pub open spec fn selected_paths_upto(app: WavesPreviewer, n: int) -> Seq<Seq<char>>
    decreases n,
{
    if n <= 0 {
        Seq::empty()
    } else {
        let before = selected_paths_upto(app, n - 1);
        if app.selected_multi@.contains((n - 1) as usize) {
            before.push(app.files@[n - 1].path@)
        } else {
            before
        }
    }
}

/// The paths of the selected rows, in row order.
pub open spec fn selected_path_list(app: WavesPreviewer) -> Seq<Seq<char>> {
    selected_paths_upto(app, app.files@.len() as int)
}

/// The first row at or after `i` showing `path`.
pub open spec fn row_of_path_from(app: WavesPreviewer, path: Seq<char>, i: int) -> Option<usize>
    decreases app.files@.len() - i,
{
    if i < 0 || i >= app.files@.len() {
        None
    } else if app.files@[i].path@ == path {
        Some(i as usize)
    } else {
        row_of_path_from(app, path, i + 1)
    }
}

/// The first row showing `path`.
pub open spec fn row_of_path(app: WavesPreviewer, path: Seq<char>) -> Option<usize> {
    row_of_path_from(app, path, 0)
}

/// The row `row_of_path_from` names shows that path, and comes no earlier
/// than where the search started.
pub proof fn lemma_row_of_path_from(app: WavesPreviewer, path: Seq<char>, i: int)
    ensures
        row_of_path_from(app, path, i) matches Some(r) ==> i <= r < app.files@.len()
            && app.files@[r as int].path@ == path,
    decreases app.files@.len() - i,
{
    if 0 <= i < app.files@.len() && app.files@[i].path@ != path {
        lemma_row_of_path_from(app, path, i + 1);
    }
    if 0 <= i < app.files@.len() {
        assert(app.files@.len() == app.files.len());
        assert((i as usize) as int == i);
    }
}

/// The row `row_of_path` names shows that path.
pub proof fn lemma_row_of_path(app: WavesPreviewer, path: Seq<char>)
    ensures
        row_of_path(app, path) matches Some(r) ==> r < app.files@.len() && app.files@[r as int].path@ == path,
{
    lemma_row_of_path_from(app, path, 0);
}

/// A tab with unsaved audio, loop or marker edits.
pub open spec fn tab_unsaved(t: crate::state::EditorTab) -> bool {
    t.dirty || t.loop_markers_dirty || t.markers_dirty
}

/// An edited file, not open in a tab, with unsaved changes.
pub open spec fn cache_unsaved(c: crate::state::EditedCacheEntry) -> bool {
    c.dirty || c.loop_markers_dirty || c.markers_dirty
}

/// Something in the session has unsaved changes: a tab, an edited file
/// that is not open, a pending gain change, or a sample-rate or bit-depth
/// override.
pub open spec fn session_unsaved(app: WavesPreviewer) -> bool {
    ||| exists|i: int| 0 <= i < app.tabs@.len() && tab_unsaved(#[trigger] app.tabs@[i])
    ||| exists|i: int| 0 <= i < app.edited_cache@.len() && cache_unsaved(#[trigger] app.edited_cache@[i])
    ||| app.pending_gain_count > 0
    ||| app.sample_rate_override_count > 0
    ||| app.bit_depth_override_count > 0
}

fn contains_row(rows: &Vec<usize>, row: usize) -> (found: bool)
    ensures
        found == rows@.contains(row),
{
    let mut i: usize = 0;
    while i < rows.len()
        invariant
            i <= rows@.len(),
            forall|k: int| 0 <= k < i ==> rows@[k] != row,
        decreases rows@.len() - i,
    {
        if rows[i] == row {
            return true;
        }
        i = i + 1;
    }
    false
}

impl WavesPreviewer {
    /// The paths of the selected rows, in row order.
    pub fn selected_paths(&self) -> (paths: Vec<String>)
        ensures
            views(paths@) == selected_path_list(*self),
    {
        let mut paths: Vec<String> = Vec::new();
        let mut i: usize = 0;
        while i < self.files.len()
            invariant
                i <= self.files@.len(),
                views(paths@) == selected_paths_upto(*self, i as int),
            decreases self.files@.len() - i,
        {
            if contains_row(&self.selected_multi, i) {
                paths.push(self.files[i].path.clone());
                assert(views(paths@) =~= selected_paths_upto(*self, i as int).push(self.files@[i as int].path@));
            }
            i = i + 1;
        }
        paths
    }

    /// The paths a label edit started from the row of `path` applies to:
    /// the whole selection when that row is part of it, otherwise just it.
    pub fn label_edit_targets(&self, path: &str) -> (targets: Vec<String>)
        ensures
            views(targets@) == if selected_path_list(*self).contains(path@) {
                selected_path_list(*self)
            } else {
                seq![path@]
            },
    {
        let selected = self.selected_paths();
        let mut i: usize = 0;
        while i < selected.len()
            invariant
                i <= selected@.len(),
                views(selected@) == selected_path_list(*self),
                forall|k: int| 0 <= k < i ==> selected@[k]@ != path@,
            decreases selected@.len() - i,
        {
            if crate::text::str_eq(selected[i].as_str(), path) {
                proof {
                    assert(views(selected@)[i as int] == path@);
                }
                return selected;
            }
            i = i + 1;
        }
        proof {
            assert forall|k: int| 0 <= k < views(selected@).len() implies views(selected@)[k] != path@ by {
                assert(views(selected@)[k] == selected@[k]@);
            }
        }
        let mut targets = Vec::new();
        targets.push(path.to_owned());
        assert(views(targets@) =~= seq![path@]);
        targets
    }

    /// The first row showing `path`.
    pub fn row_for_path(&self, path: &str) -> (row: Option<usize>)
        ensures
            row == row_of_path(*self, path@),
    {
        let mut i: usize = 0;
        while i < self.files.len()
            invariant
                i <= self.files@.len(),
                row_of_path(*self, path@) == row_of_path_from(*self, path@, i as int),
            decreases self.files@.len() - i,
        {
            if crate::text::str_eq(self.files[i].path.as_str(), path) {
                return Some(i);
            }
            i = i + 1;
        }
        None
    }

    /// Selects the row of `path` alone, makes it the anchor and asks the
    /// list to scroll to it; says in a toast when the file is no longer in
    /// the list.
    pub fn select_list_path(&mut self, path: &str)
        ensures
            match row_of_path(*old(self), path@) {
                Some(row) => {
                    &&& *final(self) == (WavesPreviewer {
                        selected: Some(row),
                        scroll_to_selected: true,
                        selected_multi: final(self).selected_multi,
                        select_anchor: Some(row),
                        ..*old(self)
                    })
                    &&& final(self).selected_multi@ == seq![row]
                },
                None => toast_pushed(
                    *old(self),
                    *final(self),
                    ToastSeverity::Info,
                    "That file is no longer in the list"@,
                ),
            },
    {
        match self.row_for_path(path) {
            None => {
                self.push_toast(ToastSeverity::Info, String::from_str("That file is no longer in the list"));
            },
            Some(row) => {
                let mut only: Vec<usize> = Vec::new();
                only.push(row);
                assert(only@ =~= seq![row]);
                self.selected = Some(row);
                self.scroll_to_selected = true;
                self.selected_multi = only;
                self.select_anchor = Some(row);
            },
        }
    }

    /// Whether the list may scroll to its selection this frame: it was
    /// asked to, and either the keyboard moved the selection or the wheel
    /// has not scrolled the list lately (`wheel_recent`).
    pub fn list_allow_auto_scroll(&self, key_moved: bool, wheel_recent: bool) -> (allow: bool)
        ensures
            allow == (self.scroll_to_selected && (key_moved || !wheel_recent)),
    {
        self.scroll_to_selected && (key_moved || !wheel_recent)
    }

    /// Moves the list's window after a frame as `scrolled_row` says, given
    /// the rows on screen, the whole rows of wheel scrolling, and whether
    /// auto-scroll is allowed; auto-scrolling to a selected row is done
    /// once.
    pub fn update_list_scroll_state(&mut self, visible_rows: usize, wheel_rows: i64, allow_auto_scroll: bool)
        ensures
            final(self).list_scroll_row == scrolled_row(
                old(self).list_scroll_row as nat,
                old(self).files@.len(),
                visible_rows as nat,
                wheel_rows as int,
                allow_auto_scroll,
                old(self).selected,
            ),
            final(self).scroll_to_selected == if allow_auto_scroll && (old(self).selected matches Some(
                sel,
            ) && sel < old(self).files@.len()) {
                false
            } else {
                old(self).scroll_to_selected
            },
            final(self).files == old(self).files,
            final(self).selected == old(self).selected,
            final(self).selected_multi == old(self).selected_multi,
            final(self).tabs == old(self).tabs,
            final(self).toasts == old(self).toasts,
    {
        let total = self.files.len();
        let visible = if visible_rows >= 1 { visible_rows } else { 1 };
        let max_start = if total > visible { total - visible } else { 0 };
        let mut row = self.list_scroll_row;
        if wheel_rows != 0 && total > visible {
            let cur = row;
            let moved: usize = if wheel_rows < 0 {
                let back: u64 = if wheel_rows == i64::MIN { 0x8000_0000_0000_0000u64 } else { (-wheel_rows) as u64 };
                if (cur as u64) < back { 0 } else { cur - (back as usize) }
            } else {
                let ahead = wheel_rows as u64;
                if ahead >= (max_start as u64) || cur >= max_start - (ahead as usize) { max_start } else { cur + ahead as usize }
            };
            row = if moved > max_start { max_start } else { moved };
        }
        let mut done_auto = false;
        if allow_auto_scroll {
            if let Some(sel) = self.selected {
                if sel < total {
                    let back = if sel >= visible / 2 { sel - visible / 2 } else { 0 };
                    row = if back < max_start { back } else { max_start };
                    done_auto = true;
                }
            }
        }
        if row > max_start {
            row = max_start;
        }
        self.list_scroll_row = row;
        if done_auto {
            self.scroll_to_selected = false;
        }
    }

    /// Ctrl+A on the list: selects every row, and focuses the first one
    /// when no row is focused; an empty list is left as it is.
    pub fn select_all_rows(&mut self)
        ensures
            old(self).files@.len() == 0 ==> *final(self) == *old(self),
            old(self).files@.len() > 0 ==> {
                &&& final(self).selected_multi@ == Seq::new(old(self).files@.len(), |i: int| i as usize)
                &&& final(self).selected == match old(self).selected {
                    Some(r) => Some(r),
                    None => Some(0usize),
                }
                &&& final(self).files == old(self).files
                &&& final(self).tabs == old(self).tabs
                &&& final(self).select_anchor == old(self).select_anchor
                &&& final(self).toasts == old(self).toasts
            },
    {
        let n = self.files.len();
        if n == 0 {
            return;
        }
        let mut all: Vec<usize> = Vec::new();
        let mut i: usize = 0;
        while i < n
            invariant
                i <= n,
                all@ == Seq::new(i as nat, |k: int| k as usize),
            decreases n - i,
        {
            all.push(i);
            assert(all@ =~= Seq::new((i + 1) as nat, |k: int| k as usize));
            i = i + 1;
        }
        self.selected_multi = all;
        if self.selected.is_none() {
            self.selected = Some(0);
        }
    }

    /// Whether anything in the session has unsaved changes, so the list's
    /// header shows the "unsaved" state.
    pub fn list_header_dirty(&self) -> (dirty: bool)
        ensures
            dirty == session_unsaved(*self),
    {
        let mut i: usize = 0;
        while i < self.tabs.len()
            invariant
                i <= self.tabs@.len(),
                forall|k: int| 0 <= k < i ==> !tab_unsaved(#[trigger] self.tabs@[k]),
            decreases self.tabs@.len() - i,
        {
            let t = &self.tabs[i];
            if t.dirty || t.loop_markers_dirty || t.markers_dirty {
                assert(tab_unsaved(self.tabs@[i as int]));
                return true;
            }
            i = i + 1;
        }
        let mut j: usize = 0;
        while j < self.edited_cache.len()
            invariant
                j <= self.edited_cache@.len(),
                forall|k: int| 0 <= k < j ==> !cache_unsaved(#[trigger] self.edited_cache@[k]),
            decreases self.edited_cache@.len() - j,
        {
            let c = &self.edited_cache[j];
            if c.dirty || c.loop_markers_dirty || c.markers_dirty {
                assert(cache_unsaved(self.edited_cache@[j as int]));
                return true;
            }
            j = j + 1;
        }
        self.pending_gain_count > 0 || self.sample_rate_override_count > 0 || self.bit_depth_override_count > 0
    }
}

/// The last row the list's window can start at, for `visible_rows` rows
/// on screen (at least one).
pub open spec fn max_scroll_start(total: nat, visible_rows: nat) -> nat {
    let visible: nat = if visible_rows >= 1 { visible_rows } else { 1 };
    if total > visible { (total - visible) as nat } else { 0 }
}

/// Where the list's window starts after a frame: moved by `wheel_rows`
/// whole rows of wheel scrolling (only when the list does not fit),
/// then, when auto-scroll is allowed and a row of the list is selected,
/// centered on it; always inside the list.
pub open spec fn scrolled_row(
    scroll_row: nat,
    total: nat,
    visible_rows: nat,
    wheel_rows: int,
    allow_auto_scroll: bool,
    selected: Option<usize>,
) -> nat {
    let visible: nat = if visible_rows >= 1 { visible_rows } else { 1 };
    let max_start = max_scroll_start(total, visible_rows);
    let wheeled: nat = if wheel_rows != 0 && total > visible {
        let moved = scroll_row + wheel_rows;
        if moved < 0 { 0 } else if moved > max_start { max_start } else { moved as nat }
    } else {
        scroll_row
    };
    let centered: nat = match selected {
        Some(sel) => if allow_auto_scroll && sel < total {
            let back: nat = if sel >= visible / 2 { (sel - visible / 2) as nat } else { 0 };
            if back < max_start { back } else { max_start }
        } else {
            wheeled
        },
        None => wheeled,
    };
    if centered < max_start { centered } else { max_start }
}

/// After auto-scrolling to a selected row of the list, that row is inside
/// the window of rows on screen, and the window never starts past the last
/// place it can start.
pub proof fn lemma_auto_scroll_shows_selection(
    scroll_row: nat,
    total: nat,
    visible_rows: nat,
    wheel_rows: int,
    sel: usize,
)
    requires
        sel < total,
    ensures
        ({
            let start = scrolled_row(scroll_row, total, visible_rows, wheel_rows, true, Some(sel));
            let visible: nat = if visible_rows >= 1 { visible_rows } else { 1 };
            &&& start <= sel < start + visible
            &&& start <= max_scroll_start(total, visible_rows)
        }),
{
}

/// What the table reported after drawing a frame of the list.
pub struct ListRenderState {
    pub visible_first_row: Option<usize>,
    pub visible_last_row: Option<usize>,
    /// Rows whose files turned out to be gone.
    pub missing_paths: Vec<String>,
    /// The user changed the sort.
    pub sort_changed: bool,
    /// A row the user opened.
    pub to_open: Option<String>,
}

/// What the keyboard and pointer handling reported for the frame.
pub struct ListInteractionState {
    pub list_has_focus: bool,
}

/// A file whose metadata the list wants read in the background.
pub struct MetaPrefetch {
    pub path: String,
    /// Only the header is wanted (large lists).
    pub header_only: bool,
}

/// What is left to do once a frame of the list has been drawn.
pub struct ListFinishActions {
    /// Files whose metadata to queue, nearest rows first.
    pub meta_prefetch: Vec<MetaPrefetch>,
    /// The visible rows, whose previews to prefetch.
    pub preview_rows: (Option<usize>, Option<usize>),
    /// Rows to take out of the list because their files are gone.
    pub remove_missing: Vec<String>,
    /// Sort again (and prime the metadata the sort needs).
    pub resort: bool,
    /// The file to open or bring forward in a tab.
    pub open: Option<String>,
}

/// Rows prefetched behind the visible ones.
pub const PREFETCH_LOOK_BACK: usize = 8;
/// Rows prefetched ahead of the visible ones in a large list.
pub const PREFETCH_LOOK_AHEAD_LARGE: usize = 16;
/// Rows prefetched ahead of the visible ones otherwise.
pub const PREFETCH_LOOK_AHEAD: usize = 48;

/// The rows `lo..=hi` whose metadata the list reads in the background after
/// a frame, when row colors depend on metadata: the visible rows (or the
/// focused one, or the first) with 8 rows before and 48 after, 16 in a
/// large list, inside the list.
pub open spec fn prefetch_window(app: WavesPreviewer, render: ListRenderState) -> Option<(int, int)> {
    let n = app.files@.len() as int;
    if app.item_bg_standard || n == 0 {
        None
    } else {
        let first: int = match render.visible_first_row {
            Some(r) => r as int,
            None => match app.selected {
                Some(r) => r as int,
                None => 0,
            },
        };
        let start = if first < n - 1 { first } else { n - 1 };
        let last: int = match render.visible_last_row {
            Some(r) => r as int,
            None => start,
        };
        let end = if last < n - 1 { last } else { n - 1 };
        let ahead = if n >= app.list_bg_meta_large_threshold {
            PREFETCH_LOOK_AHEAD_LARGE as int
        } else {
            PREFETCH_LOOK_AHEAD as int
        };
        let lo = if start >= PREFETCH_LOOK_BACK { start - PREFETCH_LOOK_BACK } else { 0 };
        let hi = if end + ahead < n - 1 { end + ahead } else { n - 1 };
        Some((lo, hi))
    }
}

/// The metadata requests for rows `lo..k`: one per row whose path is not
/// that of a virtual item.
pub open spec fn prefetch_requests(app: WavesPreviewer, lo: int, k: int) -> Seq<(Seq<char>, bool)>
    decreases k - lo,
{
    if k <= lo {
        Seq::empty()
    } else {
        let before = prefetch_requests(app, lo, k - 1);
        if path_is_virtual(app, app.files@[k - 1].path@) {
            before
        } else {
            before.push((app.files@[k - 1].path@, app.files@.len() >= app.list_bg_meta_large_threshold))
        }
    }
}

/// The metadata requests as paths and header-only flags.
pub open spec fn request_views(v: Seq<MetaPrefetch>) -> Seq<(Seq<char>, bool)> {
    v.map_values(|m: MetaPrefetch| (m.path@, m.header_only))
}

impl WavesPreviewer {
    /// Finishes a frame of the list: works out which files' metadata to read
    /// in the background and passes on what the table reported (rows to
    /// preview, files that are gone, a new sort, a file to open); resets
    /// the sort-metadata cursor on a new sort and records the list's focus.
    pub fn finish_list_view(&mut self, render: ListRenderState, interaction: ListInteractionState) -> (actions: ListFinishActions)
        requires
            old(self).files@.len() + PREFETCH_LOOK_AHEAD <= usize::MAX,
        ensures
            request_views(actions.meta_prefetch@) == match prefetch_window(*old(self), render) {
                Some((lo, hi)) => prefetch_requests(*old(self), lo, hi + 1),
                None => Seq::empty(),
            },
            actions.preview_rows == (render.visible_first_row, render.visible_last_row),
            actions.remove_missing@ == render.missing_paths@,
            actions.resort == render.sort_changed,
            actions.open == render.to_open,
            final(self).list_meta_prefetch_cursor == if render.sort_changed {
                0
            } else {
                old(self).list_meta_prefetch_cursor
            },
            final(self).list_has_focus == interaction.list_has_focus,
            final(self).files == old(self).files,
            final(self).tabs == old(self).tabs,
            final(self).selected == old(self).selected,
            final(self).toasts == old(self).toasts,
    {
        let ghost window = prefetch_window(*self, render);
        let mut meta_prefetch: Vec<MetaPrefetch> = Vec::new();
        let n = self.files.len();
        if !self.item_bg_standard && n > 0 {
            let first = match render.visible_first_row {
                Some(r) => r,
                None => match self.selected {
                    Some(r) => r,
                    None => 0,
                },
            };
            let start = if first < n - 1 { first } else { n - 1 };
            let last = match render.visible_last_row {
                Some(r) => r,
                None => start,
            };
            let end = if last < n - 1 { last } else { n - 1 };
            let large = n >= self.list_bg_meta_large_threshold;
            let look_ahead = if large { PREFETCH_LOOK_AHEAD_LARGE } else { PREFETCH_LOOK_AHEAD };
            let prefetch_start = start.saturating_sub(PREFETCH_LOOK_BACK);
            let prefetch_end = if end + look_ahead < n - 1 { end + look_ahead } else { n - 1 };
            assert(window == Some((prefetch_start as int, prefetch_end as int)));
            let mut idx = prefetch_start;
            while prefetch_start <= prefetch_end && idx <= prefetch_end
                invariant
                    prefetch_start <= idx,
                    prefetch_start <= prefetch_end ==> idx <= prefetch_end + 1,
                    prefetch_start > prefetch_end ==> idx == prefetch_start,
                    prefetch_end < n == self.files@.len(),
                    large == (n >= self.list_bg_meta_large_threshold),
                    request_views(meta_prefetch@) == prefetch_requests(*self, prefetch_start as int, idx as int),
                decreases prefetch_end + 1 - idx,
            {
                let item = &self.files[idx];
                if !self.is_virtual_path(item.path.as_str()) {
                    meta_prefetch.push(MetaPrefetch { path: item.path.clone(), header_only: large });
                    assert(request_views(meta_prefetch@) =~= prefetch_requests(*self, prefetch_start as int, idx as int).push(
                        (self.files@[idx as int].path@, large),
                    ));
                }
                idx = idx + 1;
            }
        }
        if render.sort_changed {
            self.list_meta_prefetch_cursor = 0;
        }
        self.list_has_focus = interaction.list_has_focus;
        ListFinishActions {
            meta_prefetch,
            preview_rows: (render.visible_first_row, render.visible_last_row),
            remove_missing: render.missing_paths,
            resort: render.sort_changed,
            open: render.to_open,
        }
    }
}

} // verus!

verus! {

/// Where in a row a click landed, and what is under it: the type badge
/// (with the file's artwork, when it has some), the file name, the folder
/// (of a file that is on disk or not), or any other cell.
#[derive(Clone, Copy, Debug, PartialEq, Eq, Structural)]
pub enum ListRowTarget {
    TypeBadge { has_artwork: bool },
    FileName,
    Folder { is_virtual: bool },
    Other,
}

/// A primary click on a row, or a double click.
#[derive(Clone, Copy, Debug, PartialEq, Eq, Structural)]
pub struct ListRowEvent {
    pub target: ListRowTarget,
    pub double: bool,
}

/// What a click on a row asks the caller to do, besides the selection and
/// focus changes the row event makes itself.
#[derive(Clone, Copy, Debug, PartialEq, Eq, Structural)]
pub struct ListRowAction {
    /// Open the artwork window for the row's file.
    pub open_artwork: bool,
    /// Open the row's file in an editor tab.
    pub open_in_editor: bool,
    /// Show the row's file in the system's file browser.
    pub reveal_in_folder: bool,
    /// Change the selection as a click with the current modifier keys does.
    pub click_selection: bool,
    /// Load the row for listening.
    pub load: bool,
    /// Start playing what was loaded.
    pub autoplay: bool,
}

/// A double click on the file name or the folder: selects the row alone.
pub open spec fn row_event_selects(event: ListRowEvent) -> bool {
    event.double && (event.target == ListRowTarget::FileName || event.target
        matches ListRowTarget::Folder { .. })
}

/// A double click on the type badge of a file with artwork opens the
/// artwork and is no click on the row.
pub open spec fn row_event_opens_artwork(event: ListRowEvent) -> bool {
    event.double && event.target == (ListRowTarget::TypeBadge { has_artwork: true })
}

/// A single click anywhere, or a double click on a badge without artwork,
/// is a click on the row.
pub open spec fn row_event_clicks(event: ListRowEvent) -> bool {
    !event.double || event.target == (ListRowTarget::TypeBadge { has_artwork: false })
}

/// What a row event does to the list (`row` a row of it) and asks of the
/// caller.
pub open spec fn list_row_outcome(
    before: WavesPreviewer,
    after: WavesPreviewer,
    row: usize,
    event: ListRowEvent,
    action: ListRowAction,
) -> bool {
    if row_event_opens_artwork(event) {
        &&& after == before
        &&& action == (ListRowAction {
            open_artwork: true,
            open_in_editor: false,
            reveal_in_folder: false,
            click_selection: false,
            load: false,
            autoplay: false,
        })
    } else if row_event_selects(event) {
        &&& after == (WavesPreviewer {
            selected: Some(row),
            scroll_to_selected: false,
            selected_multi: after.selected_multi,
            select_anchor: Some(row),
            list_has_focus: true,
            search_has_focus: false,
            ..before
        })
        &&& after.selected_multi@ == seq![row]
        &&& action == (ListRowAction {
            open_artwork: false,
            open_in_editor: event.target == ListRowTarget::FileName,
            reveal_in_folder: event.target == (ListRowTarget::Folder { is_virtual: false }),
            click_selection: false,
            load: false,
            autoplay: false,
        })
    } else if row_event_clicks(event) {
        &&& after == (WavesPreviewer { list_has_focus: true, search_has_focus: false, ..before })
        &&& action == (ListRowAction {
            open_artwork: false,
            open_in_editor: false,
            reveal_in_folder: false,
            click_selection: true,
            load: before.list_click_audition,
            autoplay: before.list_click_audition && before.auto_play_list_nav,
        })
    } else {
        &&& after == before
        &&& action == (ListRowAction {
            open_artwork: false,
            open_in_editor: false,
            reveal_in_folder: false,
            click_selection: false,
            load: false,
            autoplay: false,
        })
    }
}

impl WavesPreviewer {
    /// A click or double click on row `row` of the list: a double click on
    /// the file name or folder selects that row alone (and opens the file,
    /// or shows it in its folder when it is on disk); a double click on a
    /// badge with artwork opens the artwork; a single click is a selection
    /// click that also loads the row when clicking auditions, and plays it
    /// when list navigation autoplays. Any click focuses the list.
    pub fn list_row_event(&mut self, row: usize, event: ListRowEvent) -> (action: ListRowAction)
        requires
            row < old(self).files@.len(),
        ensures
            list_row_outcome(*old(self), *final(self), row, event, action),
    {
        let none = ListRowAction {
            open_artwork: false,
            open_in_editor: false,
            reveal_in_folder: false,
            click_selection: false,
            load: false,
            autoplay: false,
        };
        let opens_art = event.double && match event.target {
            ListRowTarget::TypeBadge { has_artwork } => has_artwork,
            _ => false,
        };
        if opens_art {
            return ListRowAction { open_artwork: true, ..none };
        }
        let (selects, open_in_editor, reveal) = match event.target {
            ListRowTarget::FileName => (event.double, true, false),
            ListRowTarget::Folder { is_virtual } => (event.double, false, !is_virtual),
            _ => (false, false, false),
        };
        if selects {
            self.selected = Some(row);
            self.scroll_to_selected = false;
            let mut only: Vec<usize> = Vec::new();
            only.push(row);
            assert(only@ =~= seq![row]);
            self.selected_multi = only;
            self.select_anchor = Some(row);
            self.list_has_focus = true;
            self.search_has_focus = false;
            return ListRowAction { open_in_editor, reveal_in_folder: reveal, ..none };
        }
        let clicks = !event.double || match event.target {
            ListRowTarget::TypeBadge { has_artwork } => !has_artwork,
            _ => false,
        };
        if !clicks {
            return none;
        }
        self.list_has_focus = true;
        self.search_has_focus = false;
        ListRowAction {
            click_selection: true,
            load: self.list_click_audition,
            autoplay: self.list_click_audition && self.auto_play_list_nav,
            ..none
        }
    }
}

} // verus!

verus! {

/// The list shows its welcome (open a folder, recent sessions) only when no
/// folder is open and it has no rows.
pub fn list_empty_state_shown(has_root: bool, item_count: usize) -> (shown: bool)
    ensures
        shown == (!has_root && item_count == 0),
{
    !has_root && item_count == 0
}

/// What the in-place rename editor does when it loses the focus: without
/// Enter (`outcome` none) it closes; with Enter, the rename's result
/// decides: done, it closes; failed, it stays open for the name to be
/// fixed, takes the focus again, and says why in a toast `Rename failed: `
/// and the reason.
pub open spec fn rename_outcome(before: WavesPreviewer, after: WavesPreviewer, outcome: Option<Result<(), Seq<char>>>) -> bool {
    match outcome {
        Some(Err(reason)) => {
            &&& after.toasts@.len() == before.toasts@.len() + 1
            &&& after.toasts@.drop_last() == before.toasts@
            &&& after.toasts@.last().severity == ToastSeverity::Error
            &&& after.toasts@.last().message@ == "Rename failed: "@ + reason
            &&& after == (WavesPreviewer {
                toasts: after.toasts,
                inline_rename_focus_next: true,
                ..before
            })
        },
        _ => after == (WavesPreviewer { inline_rename_path: None, ..before }),
    }
}

impl WavesPreviewer {
    /// The in-place rename editor lost the focus (see `rename_outcome`);
    /// `outcome` is the rename's result when Enter was pressed.
    pub fn finish_inline_rename(&mut self, outcome: Option<Result<(), String>>)
        ensures
            rename_outcome(
                *old(self),
                *final(self),
                match outcome {
                    Some(Ok(())) => Some(Ok(())),
                    Some(Err(e)) => Some(Err(e@)),
                    None => None,
                },
            ),
    {
        match outcome {
            Some(Err(reason)) => {
                let mut message = String::from_str("Rename failed: ");
                proof {
                    reveal_strlit("Rename failed: ");
                }
                message.append(reason.as_str());
                self.push_toast(ToastSeverity::Error, message);
                self.inline_rename_focus_next = true;
            },
            _ => {
                self.inline_rename_path = None;
            },
        }
    }
}

} // verus!

verus! {

/// The header is marked when an open tab has unsaved audio edits, unsaved
/// loop markers or unsaved markers.
pub proof fn lemma_unsaved_tab_marks_header(app: WavesPreviewer, i: int)
    requires
        0 <= i < app.tabs@.len(),
        app.tabs@[i].dirty || app.tabs@[i].loop_markers_dirty || app.tabs@[i].markers_dirty,
    ensures
        session_unsaved(app),
{
    assert(tab_unsaved(app.tabs@[i]));
}

/// The header is marked when an edited file that is not open has unsaved
/// changes of any kind.
pub proof fn lemma_unsaved_cached_file_marks_header(app: WavesPreviewer, i: int)
    requires
        0 <= i < app.edited_cache@.len(),
        app.edited_cache@[i].dirty || app.edited_cache@[i].loop_markers_dirty
            || app.edited_cache@[i].markers_dirty,
    ensures
        session_unsaved(app),
{
    assert(cache_unsaved(app.edited_cache@[i]));
}

/// The header is marked while a gain change or a sample-rate or bit-depth
/// override is pending.
pub proof fn lemma_pending_changes_mark_header(app: WavesPreviewer)
    requires
        app.pending_gain_count > 0 || app.sample_rate_override_count > 0
            || app.bit_depth_override_count > 0,
    ensures
        session_unsaved(app),
{
}

/// A session with nothing unsaved anywhere leaves the header unmarked.
pub proof fn lemma_clean_session_unmarked(app: WavesPreviewer)
    requires
        forall|i: int|
            0 <= i < app.tabs@.len() ==> !(#[trigger] app.tabs@[i]).dirty && !app.tabs@[i].loop_markers_dirty
                && !app.tabs@[i].markers_dirty,
        forall|i: int|
            0 <= i < app.edited_cache@.len() ==> !(#[trigger] app.edited_cache@[i]).dirty
                && !app.edited_cache@[i].loop_markers_dirty && !app.edited_cache@[i].markers_dirty,
        app.pending_gain_count == 0,
        app.sample_rate_override_count == 0,
        app.bit_depth_override_count == 0,
    ensures
        !session_unsaved(app),
{
}

} // verus!

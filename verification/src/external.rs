//! The External Data window: labels for its sources, which source it
//! shows, removing a source, and the import settings it edits.
use vstd::prelude::*;

use crate::state::{ExternalSource, WavesPreviewer};
use crate::text::{chars_of, push_chars, str_eq};

verus! {

/// `value` if it fits in `max_chars` characters; otherwise `…` followed by
/// the last `max_chars - 1` characters, so the file name at the end of a
/// long path stays readable and no character is cut in half.
pub open spec fn compact_label(value: Seq<char>, max_chars: nat) -> Seq<char> {
    if value.len() <= max_chars {
        value
    } else {
        let tail_chars: nat = if max_chars >= 1 { (max_chars - 1) as nat } else { 0 };
        seq!['…'] + value.subrange(value.len() - tail_chars, value.len() as int)
    }
}

/// Shortens a source path for the source selector.
pub fn compact_external_source_label(value: &str, max_chars: usize) -> (label: String)
    ensures
        label@ == compact_label(value@, max_chars as nat),
{
    let chars = chars_of(value);
    let char_count = chars.len();
    if char_count <= max_chars {
        return value.to_owned();
    }
    let tail_chars = max_chars.saturating_sub(1);
    let mut label = String::from_str("…");
    proof {
        reveal_strlit("…");
    }
    push_chars(&mut label, &chars, char_count - tail_chars, char_count);
    label
}


/// A compacted label is never longer than asked (but for the `…` itself
/// when no character is asked for), is the label itself when it fits, and
/// otherwise ends with the label's own last characters, whole.
pub proof fn lemma_compact_label_fits(value: Seq<char>, max_chars: nat)
    ensures
        value.len() <= max_chars ==> compact_label(value, max_chars) == value,
        value.len() > max_chars ==> {
            let label = compact_label(value, max_chars);
            &&& label.len() == if max_chars >= 1 { max_chars } else { 1 }
            &&& label[0] == '…'
            &&& label.drop_first() == value.subrange(value.len() - (label.len() - 1), value.len() as int)
        },
{
    if value.len() > max_chars {
        let label = compact_label(value, max_chars);
        let tail_chars: nat = if max_chars >= 1 { (max_chars - 1) as nat } else { 0 };
        assert(label.drop_first() =~= value.subrange(value.len() - tail_chars, value.len() as int));
    }
}


/// `after` is `before` with at most the External Data window's sources and
/// import settings changed.
pub open spec fn only_external_changed(before: WavesPreviewer, after: WavesPreviewer) -> bool {
    after == (WavesPreviewer {
        external_sources: after.external_sources,
        external_active_source: after.external_active_source,
        external_sheet_selected: after.external_sheet_selected,
        external_has_header: after.external_has_header,
        external_header_row: after.external_header_row,
        external_data_row: after.external_data_row,
        external_settings_dirty: after.external_settings_dirty,
        ..before
    })
}

/// The source the window shows: none without sources; else the active one,
/// the first when none is active, the last when the active index is past
/// the end.
pub open spec fn shown_source(active: Option<usize>, count: nat) -> Option<usize> {
    if count == 0 {
        None
    } else {
        let want: nat = match active {
            Some(i) => i as nat,
            None => 0,
        };
        Some(if want < count { want as usize } else { (count - 1) as usize })
    }
}

/// The active source after removing the source at `idx` from `count`
/// sources: none when none are left, else the one now at `idx`, or the
/// last.
pub open spec fn active_after_removal(idx: nat, count: nat) -> Option<usize> {
    if count <= 1 {
        None
    } else if idx < count - 1 {
        Some(idx as usize)
    } else {
        Some((count - 2) as usize)
    }
}

/// `sources` with the active one (when there is one) changed by `edit`.
pub open spec fn with_active_source(
    sources: Seq<ExternalSource>,
    active: Option<usize>,
    edited: spec_fn(ExternalSource) -> ExternalSource,
) -> Seq<ExternalSource> {
    match active {
        Some(i) => if i < sources.len() {
            sources.update(i as int, edited(sources[i as int]))
        } else {
            sources
        },
        None => sources,
    }
}

/// A 1-based row number as the window's fields show it (0 for "auto")
/// turned into a 0-based row.
pub open spec fn row_from_shown(shown: int) -> Option<usize> {
    if shown <= 0 {
        None
    } else {
        Some((shown - 1) as usize)
    }
}

/// A 0-based row as the window's fields show it: 1-based, 0 for "auto".
pub open spec fn shown_from_row(row: Option<usize>) -> int {
    match row {
        Some(r) => r + 1,
        None => 0,
    }
}

impl WavesPreviewer {
    /// The source the window shows (see `shown_source`).
    pub fn shown_external_source(&self) -> (shown: Option<usize>)
        ensures
            shown == shown_source(self.external_active_source, self.external_sources@.len()),
    {
        let count = self.external_sources.len();
        if count == 0 {
            return None;
        }
        let want = match self.external_active_source {
            Some(i) => i,
            None => 0,
        };
        Some(if want < count { want } else { count - 1 })
    }

    /// Makes the source picked in the selector (`choice`, an index into the
    /// sources; `None` when nothing was picked) the active one; the shown
    /// source becomes active when nothing valid was picked. When the active
    /// source changes, the settings count as unedited and `true` tells the
    /// caller to load the source's settings into the window.
    pub fn choose_external_source(&mut self, choice: Option<usize>) -> (changed: bool)
        ensures
            ({
                let count = old(self).external_sources@.len();
                let target = match choice {
                    Some(c) => if c < count {
                        Some(c)
                    } else {
                        shown_source(old(self).external_active_source, count)
                    },
                    None => shown_source(old(self).external_active_source, count),
                };
                &&& changed == (count > 0 && target != old(self).external_active_source)
                &&& if changed {
                    *final(self) == (WavesPreviewer {
                        external_active_source: target,
                        external_settings_dirty: false,
                        ..*old(self)
                    })
                } else {
                    *final(self) == *old(self)
                }
            }),
    {
        let shown = match self.shown_external_source() {
            Some(i) => i,
            None => return false,
        };
        let target = match choice {
            Some(c) => if c < self.external_sources.len() {
                c
            } else {
                shown
            },
            None => shown,
        };
        let same = match self.external_active_source {
            Some(a) => a == target,
            None => false,
        };
        if same {
            return false;
        }
        self.external_active_source = Some(target);
        self.external_settings_dirty = false;
        true
    }

    /// The window's Remove button: drops the active source and makes the
    /// one that took its place active (the last when it was the last; none
    /// when no source is left). Returns whether a source was removed; the
    /// caller then rebuilds the merged data.
    pub fn remove_active_external_source(&mut self) -> (removed: bool)
        ensures
            removed == (old(self).external_active_source matches Some(i) && i < old(
                self,
            ).external_sources@.len()),
            removed ==> *final(self) == (WavesPreviewer {
                external_sources: final(self).external_sources,
                external_active_source: active_after_removal(
                    old(self).external_active_source->0 as nat,
                    old(self).external_sources@.len(),
                ),
                ..*old(self)
            }) && final(self).external_sources@ == old(self).external_sources@.remove(
                old(self).external_active_source->0 as int,
            ),
            !removed ==> *final(self) == *old(self),
    {
        let idx = match self.external_active_source {
            Some(i) => i,
            None => return false,
        };
        if idx >= self.external_sources.len() {
            return false;
        }
        self.external_sources.remove(idx);
        let left = self.external_sources.len();
        self.external_active_source = if left == 0 {
            None
        } else if idx < left {
            Some(idx)
        } else {
            Some(left - 1)
        };
        true
    }

    /// Picks the sheet to import: when it differs from the selected one it
    /// becomes the selected sheet and the active source's sheet, and the
    /// settings count as edited.
    pub fn select_external_sheet(&mut self, name: &str)
        ensures
            old(self).external_sheet_selected matches Some(cur) && cur@ == name@ ==> *final(self)
                == *old(self),
            !(old(self).external_sheet_selected matches Some(cur) && cur@ == name@) ==> {
                &&& only_external_changed(*old(self), *final(self))
                &&& final(self).external_sheet_selected matches Some(n) && n@ == name@
                &&& final(self).external_settings_dirty
                &&& final(self).external_has_header == old(self).external_has_header
                &&& final(self).external_header_row == old(self).external_header_row
                &&& final(self).external_data_row == old(self).external_data_row
                &&& final(self).external_active_source == old(self).external_active_source
                &&& final(self).external_sources@.len() == old(self).external_sources@.len()
                &&& forall|k: int|
                    0 <= k < old(self).external_sources@.len() ==> {
                        let before = old(self).external_sources@[k];
                        let after = #[trigger] final(self).external_sources@[k];
                        if old(self).external_active_source == Some(k as usize) {
                            &&& after.sheet_name matches Some(n) && n@ == name@
                            &&& after.path == before.path
                            &&& after.has_header == before.has_header
                            &&& after.header_row == before.header_row
                            &&& after.data_row == before.data_row
                        } else {
                            after == before
                        }
                    }
            },
    {
        let same = match &self.external_sheet_selected {
            Some(cur) => str_eq(cur.as_str(), name),
            None => false,
        };
        if same {
            return;
        }
        self.external_sheet_selected = Some(name.to_string());
        if let Some(idx) = self.external_active_source {
            if idx < self.external_sources.len() {
                self.external_sources[idx].sheet_name = Some(name.to_string());
            }
        }
        self.external_settings_dirty = true;
    }

    /// The Header row checkbox changed to `has_header`: without a header
    /// the header row goes back to auto; the active source takes both
    /// settings, and the settings count as edited.
    pub fn set_external_has_header(&mut self, has_header: bool)
        ensures
            ({
                let header_row = if has_header { old(self).external_header_row } else { None };
                &&& only_external_changed(*old(self), *final(self))
                &&& final(self).external_has_header == has_header
                &&& final(self).external_header_row == header_row
                &&& final(self).external_settings_dirty
                &&& final(self).external_sheet_selected == old(self).external_sheet_selected
                &&& final(self).external_data_row == old(self).external_data_row
                &&& final(self).external_active_source == old(self).external_active_source
                &&& final(self).external_sources@ == with_active_source(
                    old(self).external_sources@,
                    old(self).external_active_source,
                    |s: ExternalSource| ExternalSource { has_header, header_row, ..s },
                )
            }),
    {
        self.external_has_header = has_header;
        if !has_header {
            self.external_header_row = None;
        }
        let header_row = self.external_header_row;
        if let Some(idx) = self.external_active_source {
            if idx < self.external_sources.len() {
                self.external_sources[idx].has_header = has_header;
                self.external_sources[idx].header_row = header_row;
            }
        }
        self.external_settings_dirty = true;
    }

    /// The header row field changed to `shown` (1-based, 0 for auto): the
    /// window and the active source take it, and the settings count as
    /// edited.
    pub fn set_external_header_row(&mut self, shown: i32)
        ensures
            ({
                let row = row_from_shown(shown as int);
                &&& only_external_changed(*old(self), *final(self))
                &&& final(self).external_header_row == row
                &&& final(self).external_settings_dirty
                &&& final(self).external_has_header == old(self).external_has_header
                &&& final(self).external_sheet_selected == old(self).external_sheet_selected
                &&& final(self).external_data_row == old(self).external_data_row
                &&& final(self).external_active_source == old(self).external_active_source
                &&& final(self).external_sources@ == with_active_source(
                    old(self).external_sources@,
                    old(self).external_active_source,
                    |s: ExternalSource| ExternalSource { header_row: row, ..s },
                )
            }),
    {
        let row = if shown <= 0 { None } else { Some((shown - 1) as usize) };
        self.external_header_row = row;
        if let Some(idx) = self.external_active_source {
            if idx < self.external_sources.len() {
                self.external_sources[idx].header_row = row;
            }
        }
        self.external_settings_dirty = true;
    }

    /// The data row field changed to `shown` (1-based, 0 for auto): the
    /// window and the active source take it, and the settings count as
    /// edited.
    pub fn set_external_data_row(&mut self, shown: i32)
        ensures
            ({
                let row = row_from_shown(shown as int);
                &&& only_external_changed(*old(self), *final(self))
                &&& final(self).external_data_row == row
                &&& final(self).external_settings_dirty
                &&& final(self).external_has_header == old(self).external_has_header
                &&& final(self).external_header_row == old(self).external_header_row
                &&& final(self).external_sheet_selected == old(self).external_sheet_selected
                &&& final(self).external_active_source == old(self).external_active_source
                &&& final(self).external_sources@ == with_active_source(
                    old(self).external_sources@,
                    old(self).external_active_source,
                    |s: ExternalSource| ExternalSource { data_row: row, ..s },
                )
            }),
    {
        let row = if shown <= 0 { None } else { Some((shown - 1) as usize) };
        self.external_data_row = row;
        if let Some(idx) = self.external_active_source {
            if idx < self.external_sources.len() {
                self.external_sources[idx].data_row = row;
            }
        }
        self.external_settings_dirty = true;
    }
}

/// A row as its field shows it: 1-based, 0 for auto.
pub fn external_row_shown(row: Option<usize>) -> (shown: i32)
    requires
        row matches Some(r) ==> r < 0x7fff_ffff,
    ensures
        shown == shown_from_row(row),
{
    match row {
        Some(r) => r as i32 + 1,
        None => 0,
    }
}

/// Setting a row from its field and showing it again gives back what the
/// field showed, for every number the field can hold that is not negative.
pub proof fn lemma_row_shown_round_trip(shown: int)
    requires
        0 <= shown <= 0x7fff_ffff,
    ensures
        shown_from_row(row_from_shown(shown)) == shown,
{
}

} // verus!

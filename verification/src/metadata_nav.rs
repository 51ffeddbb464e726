//! Metadata nodes that point into the audio: cue points, loops and tempo
//! can send the editor to the place they describe.
use vstd::prelude::*;

use crate::effect_graph::{parse_u64, parsed_u64};
use crate::metadata::{MetadataDocument, MetadataNode};
use crate::regions::only_tab_changed;
use crate::state::{EditorTab, WavesPreviewer};
use crate::text::{chars_of, decimal, push_decimal, string_from_chars, trim, trimmed_end, trimmed_start};

verus! {

/// Where a metadata node can send the editor.
#[derive(Clone, Debug)]
pub enum MetadataEditorNavigation {
    /// A cue point at this sample.
    Sample(u64),
    /// A loop over these samples, both ends included.
    Range { start: u64, end_inclusive: u64 },
    /// A tempo, as the node's summary writes it; the caller reads the
    /// number and keeps it only when it is a positive, finite BPM value.
    Tempo(String),
}

/// `s` starts with `prefix`.
pub open spec fn starts_with(s: Seq<char>, prefix: Seq<char>) -> bool {
    s.len() >= prefix.len() && s.take(prefix.len() as int) == prefix
}

/// Where the first `..` of `s` at or after `i` starts.
pub open spec fn first_range_dots_from(s: Seq<char>, i: int) -> Option<int>
    decreases s.len() - i,
{
    if i < 0 || i + 1 >= s.len() {
        None
    } else if s[i] == '.' && s[i + 1] == '.' {
        Some(i)
    } else {
        first_range_dots_from(s, i + 1)
    }
}

/// Where the first `..` of `s` starts.
pub open spec fn first_range_dots(s: Seq<char>) -> Option<int> {
    first_range_dots_from(s, 0)
}

/// The navigation a node offers, as plain values: `(kind, a, b, text)`
/// with kind 0 for a sample `a`, 1 for the loop `a..=b`, 2 for a tempo
/// written `text`; a tempo only when its text reads as a positive, finite
/// number of beats per minute (`tempo_valid`).
pub open spec fn editor_navigation(node: MetadataNode, tempo_valid: bool) -> Option<(int, nat, nat, Seq<char>)> {
    match node.summary {
        None => None,
        Some(summary) => {
            let s = trim(summary@);
            if starts_with(node.name@, "Cue "@) {
                match cue_sample(s) {
                    Some(v) => Some((0, v, 0, Seq::empty())),
                    None => None,
                }
            } else if starts_with(node.name@, "Loop "@) {
                match loop_range(s) {
                    Some((a, b)) => Some((1, a, b, Seq::empty())),
                    None => None,
                }
            } else if node.name@ == "Tempo"@ {
                if tempo_valid {
                    Some((2, 0, 0, s))
                } else {
                    None
                }
            } else {
                None
            }
        },
    }
}

/// A navigation as plain values.
pub open spec fn navigation_view(n: MetadataEditorNavigation) -> (int, nat, nat, Seq<char>) {
    match n {
        MetadataEditorNavigation::Sample(v) => (0, v as nat, 0, Seq::empty()),
        MetadataEditorNavigation::Range { start, end_inclusive } => (1, start as nat, end_inclusive as nat, Seq::empty()),
        MetadataEditorNavigation::Tempo(t) => (2, 0, 0, t@),
    }
}

fn has_prefix(chars: &Vec<char>, lo: usize, hi: usize, prefix: &str) -> (b: bool)
    requires
        lo <= hi <= chars@.len(),
    ensures
        b == starts_with(chars@.subrange(lo as int, hi as int), prefix@),
{
    let p = chars_of(prefix);
    if hi - lo < p.len() {
        return false;
    }
    let mut i: usize = 0;
    while i < p.len()
        invariant
            p@ == prefix@,
            lo + p@.len() <= hi <= chars@.len(),
            i <= p@.len(),
            forall|k: int| 0 <= k < i ==> chars@[lo + k] == p@[k],
        decreases p@.len() - i,
    {
        if chars[lo + i] != p[i] {
            proof {
                assert(chars@.subrange(lo as int, hi as int).take(p@.len() as int)[i as int] == chars@[lo + i]);
            }
            return false;
        }
        i = i + 1;
    }
    assert(chars@.subrange(lo as int, hi as int).take(p@.len() as int) =~= p@);
    true
}

/// The trimmed text of `chars[lo..hi]` as a string.
pub(crate) fn trimmed_string(chars: &Vec<char>, lo: usize, hi: usize) -> (s: String)
    requires
        lo <= hi <= chars@.len(),
    ensures
        s@ == trim(chars@.subrange(lo as int, hi as int)),
{
    let ghost t = chars@.subrange(lo as int, hi as int);
    // trim_end on the slice, computed on the whole vector up to `hi`
    let mut e = hi;
    while e > lo && crate::text::white_space(chars[e - 1])
        invariant
            lo <= e <= hi <= chars@.len(),
            crate::text::trim_end(t) == crate::text::trim_end(chars@.subrange(lo as int, e as int)),
        decreases e,
    {
        assert(chars@.subrange(lo as int, e as int).drop_last() =~= chars@.subrange(lo as int, e - 1));
        e = e - 1;
    }
    assert(crate::text::trim_end(t) == chars@.subrange(lo as int, e as int));
    let b = trimmed_start(chars, lo, e);
    string_from_chars(chars, b, e)
}

/// The sample of a cue summary `sample N` (trimmed as `s`).
pub open spec fn cue_sample(s: Seq<char>) -> Option<nat> {
    if starts_with(s, "sample "@) {
        parsed_u64(trim(s.skip(7)))
    } else {
        None
    }
}

/// The samples of a loop summary `A..B` (trimmed as `s`).
pub open spec fn loop_range(s: Seq<char>) -> Option<(nat, nat)> {
    match first_range_dots(s) {
        None => None,
        Some(i) => match (parsed_u64(trim(s.take(i))), parsed_u64(trim(s.skip(i + 2)))) {
            (Some(a), Some(b)) => Some((a, b)),
            _ => None,
        },
    }
}

fn parse_cue_sample(chars: &Vec<char>, b: usize, e: usize) -> (v: Option<u64>)
    requires
        b <= e <= chars@.len(),
    ensures
        match v {
            Some(x) => cue_sample(chars@.subrange(b as int, e as int)) == Some(x as nat),
            None => cue_sample(chars@.subrange(b as int, e as int)) is None,
        },
{
    let ghost s = chars@.subrange(b as int, e as int);
    if !has_prefix(chars, b, e, "sample ") {
        return None;
    }
    proof {
        reveal_strlit("sample ");
    }
    let rest = trimmed_string(chars, b + 7, e);
    proof {
        assert(chars@.subrange(b + 7, e as int) =~= s.skip(7));
    }
    parse_u64(rest.as_str())
}

fn parse_loop_range(chars: &Vec<char>, b: usize, e: usize) -> (r: Option<(u64, u64)>)
    requires
        b <= e <= chars@.len(),
    ensures
        match r {
            Some((x, y)) => loop_range(chars@.subrange(b as int, e as int)) == Some((x as nat, y as nat)),
            None => loop_range(chars@.subrange(b as int, e as int)) is None,
        },
{
    let ghost s = chars@.subrange(b as int, e as int);
    let mut i = b;
    while e - i > 1 && !(chars[i] == '.' && chars[i + 1] == '.')
        invariant
            b <= i <= e <= chars@.len(),
            s == chars@.subrange(b as int, e as int),
            first_range_dots(s) == first_range_dots_from(s, i - b),
        decreases e - i,
    {
        assert(s[i - b] == chars@[i as int] && s[i - b + 1] == chars@[i + 1]);
        i = i + 1;
    }
    if e - i <= 1 {
        return None;
    }
    proof {
        assert(s[i - b] == chars@[i as int] && s[i - b + 1] == chars@[i + 1]);
        assert(chars@.subrange(b as int, i as int) =~= s.take(i - b));
        assert(chars@.subrange(i + 2, e as int) =~= s.skip(i - b + 2));
    }
    let start_text = trimmed_string(chars, b, i);
    let end_text = trimmed_string(chars, i + 2, e);
    let start = match parse_u64(start_text.as_str()) {
        Some(v) => v,
        None => return None,
    };
    let end_inclusive = match parse_u64(end_text.as_str()) {
        Some(v) => v,
        None => return None,
    };
    Some((start, end_inclusive))
}

/// Where a metadata node can send the editor: a cue node (`Cue …`) whose
/// summary reads `sample N`, a loop node (`Loop …`) whose summary reads
/// `A..B`, or the `Tempo` node whose trimmed summary reads as a positive,
/// finite number; `tempo_valid` says whether it does (reading the number
/// is floating-point work the caller does).
pub fn metadata_editor_navigation(node: &MetadataNode, tempo_valid: bool) -> (nav: Option<MetadataEditorNavigation>)
    ensures
        match nav {
            Some(n) => editor_navigation(*node, tempo_valid) == Some(navigation_view(n)),
            None => editor_navigation(*node, tempo_valid) is None,
        },
{
    let summary = match &node.summary {
        Some(s) => s,
        None => return None,
    };
    let chars = chars_of(summary.as_str());
    let e = trimmed_end(&chars, chars.len());
    let b = trimmed_start(&chars, 0, e);
    let ghost s = chars@.subrange(b as int, e as int);
    proof {
        assert(chars@.subrange(0, chars@.len() as int) =~= chars@);
        assert(s == trim(summary@));
    }
    let name = chars_of(node.name.as_str());
    proof {
        assert(name@.subrange(0, name@.len() as int) =~= node.name@);
    }
    if has_prefix(&name, 0, name.len(), "Cue ") {
        return match parse_cue_sample(&chars, b, e) {
            Some(v) => Some(MetadataEditorNavigation::Sample(v)),
            None => None,
        };
    }
    if has_prefix(&name, 0, name.len(), "Loop ") {
        return match parse_loop_range(&chars, b, e) {
            Some((start, end_inclusive)) => Some(MetadataEditorNavigation::Range { start, end_inclusive }),
            None => None,
        };
    }
    if crate::text::str_eq(node.name.as_str(), "Tempo") {
        if !tempo_valid {
            return None;
        }
        return Some(MetadataEditorNavigation::Tempo(string_from_chars(&chars, b, e)));
    }
    None
}


// ---------------------------------------------------------------------
// Sending the editor there
// ---------------------------------------------------------------------

/// A sample rate, at least 1.
pub open spec fn rate_at_least_one(rate: u32) -> nat {
    if rate >= 1 {
        rate as nat
    } else {
        1
    }
}

/// The rate the document's samples are counted at: its audio's when it
/// describes it, else the tab's buffer's; at least 1.
pub open spec fn source_rate_of(document: MetadataDocument, tab: EditorTab) -> nat {
    rate_at_least_one(
        match document.audio_mapping {
            Some(m) => m.sample_rate,
            None => tab.buffer_sample_rate,
        },
    )
}

/// The buffer sample that a source sample falls on: scaled from the source
/// rate to the buffer rate, rounded down, at most `usize::MAX`.
#[verifier::opaque]
pub open spec fn display_sample(sample: nat, source_rate: nat, buffer_rate: nat) -> nat {
    let scaled = sample * buffer_rate / source_rate;
    if scaled > usize::MAX {
        usize::MAX as nat
    } else {
        scaled
    }
}

/// The smaller of two numbers.
pub open spec fn min_nat(a: nat, b: nat) -> nat {
    if a <= b {
        a
    } else {
        b
    }
}

/// `after` is `before` with at most its view position and selection moved.
pub open spec fn only_view_moved(before: EditorTab, after: EditorTab) -> bool {
    &&& after.path == before.path
    &&& after.buffer_sample_rate == before.buffer_sample_rate
    &&& after.regions == before.regions
    &&& after.samples_len == before.samples_len
    &&& after.dirty == before.dirty
    &&& after.loop_markers_dirty == before.loop_markers_dirty
    &&& after.markers_dirty == before.markers_dirty
    &&& after.undo_stack == before.undo_stack
    &&& after.redo_stack == before.redo_stack
    &&& after.metadata == before.metadata
}

/// What following a navigation does to a tab, and where playback of the
/// tab is sent (`seek` is a time as `(samples, rate)`): a cue shows its
/// sample (kept inside the buffer) and seeks to it; a loop shows and
/// selects its samples, the end included (no selection when nothing of it
/// is inside the buffer), and seeks to its start; a tempo changes nothing
/// here.
pub open spec fn navigation_applied(
    before: EditorTab,
    after: EditorTab,
    document: MetadataDocument,
    navigation: MetadataEditorNavigation,
    seek: Option<(u64, u32)>,
) -> bool {
    let source_rate = source_rate_of(document, before);
    let buffer_rate = rate_at_least_one(before.buffer_sample_rate);
    let len = before.samples_len as nat;
    &&& only_view_moved(before, after)
    &&& match navigation {
        MetadataEditorNavigation::Sample(sample) => {
            &&& after.preview_offset_samples == Some(
                min_nat(display_sample(sample as nat, source_rate, buffer_rate), len) as usize,
            )
            &&& after.selection == before.selection
            &&& seek matches Some((n, r)) && n == sample && r == source_rate
        },
        MetadataEditorNavigation::Range { start, end_inclusive } => {
            let a = min_nat(display_sample(start as nat, source_rate, buffer_rate), len);
            let end_exclusive = if end_inclusive < u64::MAX { end_inclusive + 1 } else { end_inclusive as int };
            let e = min_nat(display_sample(end_exclusive as nat, source_rate, buffer_rate), len);
            let b = if e >= a { e } else { a };
            &&& after.preview_offset_samples == Some(a as usize)
            &&& after.selection == if b > a { Some((a as usize, b as usize)) } else { None::<(usize, usize)> }
            &&& seek matches Some((n, r)) && n == a && r == buffer_rate
        },
        MetadataEditorNavigation::Tempo(_) => {
            &&& after.preview_offset_samples == before.preview_offset_samples
            &&& after.selection == before.selection
            &&& seek is None
        },
    }
}

/// The buffer sample that `sample` falls on (see `display_sample`).
pub fn to_display_sample(sample: u64, source_rate: u32, buffer_rate: u32) -> (shown: usize)
    requires
        source_rate >= 1,
    ensures
        shown == display_sample(sample as nat, source_rate as nat, buffer_rate as nat),
{
    reveal(display_sample);
    let product_bound: u128 = 0x1_0000_0000_0000_0000_0000_0000;
    assert((sample as u128) * (buffer_rate as u128) < product_bound) by (nonlinear_arith)
        requires
            sample < 0x1_0000_0000_0000_0000u128,
            buffer_rate < 0x1_0000_0000u128,
            product_bound == 0x1_0000_0000_0000_0000_0000_0000u128,
    ;
    let scaled = (sample as u128) * (buffer_rate as u128) / (source_rate as u128);
    if scaled > usize::MAX as u128 {
        usize::MAX
    } else {
        scaled as usize
    }
}

impl WavesPreviewer {
    /// Sends tab `tab_idx` to where `navigation` points in `document`, as
    /// `navigation_applied` says; returns the time to seek the tab's
    /// playback to, as `(samples, rate)`. A tempo is left to the caller,
    /// which reads its number.
    pub fn apply_metadata_editor_navigation(
        &mut self,
        tab_idx: usize,
        document: &MetadataDocument,
        navigation: &MetadataEditorNavigation,
    ) -> (seek: Option<(u64, u32)>)
        requires
            tab_idx < old(self).tabs@.len(),
        ensures
            navigation_applied(
                old(self).tabs@[tab_idx as int],
                final(self).tabs@[tab_idx as int],
                *document,
                *navigation,
                seek,
            ),
            only_tab_changed(*old(self), *final(self), tab_idx as int),
    {
        let tab_rate = self.tabs[tab_idx].buffer_sample_rate;
        let raw_source_rate = match &document.audio_mapping {
            Some(m) => m.sample_rate,
            None => tab_rate,
        };
        let source_rate = if raw_source_rate >= 1 { raw_source_rate } else { 1 };
        let buffer_rate = if tab_rate >= 1 { tab_rate } else { 1 };
        let len = self.tabs[tab_idx].samples_len;
        let old_offset = self.tabs[tab_idx].preview_offset_samples;
        let old_selection = self.tabs[tab_idx].selection;
        let (offset, selection, seek) = match navigation {
            MetadataEditorNavigation::Sample(sample) => {
                let shown = to_display_sample(*sample, source_rate, buffer_rate);
                let offset = if shown <= len { shown } else { len };
                (Some(offset), old_selection, Some((*sample, source_rate)))
            },
            MetadataEditorNavigation::Range { start, end_inclusive } => {
                let shown_start = to_display_sample(*start, source_rate, buffer_rate);
                let a = if shown_start <= len { shown_start } else { len };
                let end_exclusive = end_inclusive.saturating_add(1);
                let shown_end = to_display_sample(end_exclusive, source_rate, buffer_rate);
                let e = if shown_end <= len { shown_end } else { len };
                let b = if e >= a { e } else { a };
                (Some(a), if b > a { Some((a, b)) } else { None }, Some((a as u64, buffer_rate)))
            },
            MetadataEditorNavigation::Tempo(_) => (old_offset, old_selection, None),
        };
        self.set_tab_view(tab_idx, offset, selection);
        seek
    }

    /// Sets where tab `tab_idx`'s view starts and what it selects.
    fn set_tab_view(&mut self, tab_idx: usize, offset: Option<usize>, selection: Option<(usize, usize)>)
        requires
            tab_idx < old(self).tabs@.len(),
        ensures
            only_view_moved(old(self).tabs@[tab_idx as int], final(self).tabs@[tab_idx as int]),
            final(self).tabs@[tab_idx as int].preview_offset_samples == offset,
            final(self).tabs@[tab_idx as int].selection == selection,
            only_tab_changed(*old(self), *final(self), tab_idx as int),
    {
        self.tabs[tab_idx].preview_offset_samples = offset;
        self.tabs[tab_idx].selection = selection;
    }
}


/// The caption of the button that follows a navigation: `Jump to sample N`
/// for a cue, `Show loop A..B` for a loop; a tempo's caption shows its
/// number with three decimals, which the caller writes.
pub open spec fn navigation_caption(navigation: MetadataEditorNavigation) -> Option<Seq<char>> {
    match navigation {
        MetadataEditorNavigation::Sample(sample) => Some("Jump to sample "@ + decimal(sample as nat)),
        MetadataEditorNavigation::Range { start, end_inclusive } => Some(
            "Show loop "@ + decimal(start as nat) + ".."@ + decimal(end_inclusive as nat),
        ),
        MetadataEditorNavigation::Tempo(_) => None,
    }
}

/// What the navigation button says when hovered: what it does, or, when
/// the view describes a virtual or edited source, why it is unavailable.
pub open spec fn navigation_hover(navigation: MetadataEditorNavigation, available: bool) -> Seq<char> {
    if !available {
        "Unavailable because this view describes a virtual or edited source."@
    } else {
        match navigation {
            MetadataEditorNavigation::Sample(_) => "Open Wave and move the source playhead to this cue point."@,
            MetadataEditorNavigation::Range { .. } => "Open Wave and select this smpl loop range."@,
            MetadataEditorNavigation::Tempo(_) => "Open Wave and copy this ACID tempo into the editor BPM grid."@,
        }
    }
}

/// The caption and hover text of the button that follows `navigation`.
pub fn navigation_button_text(navigation: &MetadataEditorNavigation, available: bool) -> (text: (Option<String>, &'static str))
    ensures
        match text.0 {
            Some(c) => navigation_caption(*navigation) == Some(c@),
            None => navigation_caption(*navigation) is None,
        },
        text.1@ == navigation_hover(*navigation, available),
{
    proof {
        reveal_strlit("Jump to sample ");
        reveal_strlit("Show loop ");
        reveal_strlit("..");
    }
    let caption = match navigation {
        MetadataEditorNavigation::Sample(sample) => {
            let mut c = String::from_str("Jump to sample ");
            push_decimal(&mut c, *sample);
            Some(c)
        },
        MetadataEditorNavigation::Range { start, end_inclusive } => {
            let mut c = String::from_str("Show loop ");
            push_decimal(&mut c, *start);
            c.append("..");
            push_decimal(&mut c, *end_inclusive);
            Some(c)
        },
        MetadataEditorNavigation::Tempo(_) => None,
    };
    let hover = if !available {
        "Unavailable because this view describes a virtual or edited source."
    } else {
        match navigation {
            MetadataEditorNavigation::Sample(_) => "Open Wave and move the source playhead to this cue point.",
            MetadataEditorNavigation::Range { .. } => "Open Wave and select this smpl loop range.",
            MetadataEditorNavigation::Tempo(_) => "Open Wave and copy this ACID tempo into the editor BPM grid.",
        }
    };
    (caption, hover)
}

} // verus!

//! The metadata inspector: a parsed document's nodes, the byte ranges they
//! cover, and the per-tab state of the inspector.
use vstd::prelude::*;

use crate::list::row_of_path;
use crate::regions::only_tab_changed;
use crate::state::{EditorTab, MediaSource, VirtualSourceRef, WavesPreviewer};
use crate::text::{
    join_lines, lines, lines_of, string_from_chars,
    chars_of, decimal, hex_upper, join_with_space, join_words, push_char, push_chars,
    push_decimal, push_hex_padded, push_hex_upper, trim, trim_end, trimmed_end, trimmed_start,
    words, zero_padded,
};

verus! {

/// A byte range of the inspected file.
#[derive(Clone, Copy, Debug, PartialEq, Eq, Structural)]
pub struct SourceRange {
    pub offset: u64,
    pub length: u64,
}

/// Where a node's payload lies in the file.
#[derive(Clone, Copy, Debug, PartialEq, Eq, Structural)]
pub struct PayloadRef {
    pub file_offset: u64,
    pub length: u64,
}

/// What a node's payload holds.
#[derive(Clone, Copy, Debug, PartialEq, Eq, Structural)]
pub enum ContentKind {
    Container,
    Audio,
    Xml,
    Text,
    Binary,
    Image,
    Padding,
}

/// The file format a document was parsed as.
#[derive(Clone, Copy, Debug, PartialEq, Eq, Structural)]
pub enum ContainerKind {
    RiffWave,
    Rf64,
    Bw64,
    Aiff,
    Flac,
    Mp3,
    Mp4,
    Ogg,
    Unknown,
}

/// One node of a parsed document. A node's id is its index in the
/// document's node list.
#[derive(Clone, Debug)]
pub struct MetadataNode {
    pub id: usize,
    pub parent: Option<usize>,
    pub name: String,
    pub payload: PayloadRef,
    pub content: ContentKind,
    pub summary: Option<String>,
}

/// How the audio frames of a PCM-style file are laid out in its bytes.
#[derive(Clone, Copy, Debug)]
pub struct AudioByteMapping {
    pub data_offset: u64,
    pub data_length: u64,
    pub sample_rate: u32,
    pub channels: u16,
    pub block_align: u32,
    pub container_bits: u16,
    pub valid_bits: u16,
    pub format_tag: u16,
    pub format_subtype: Option<u16>,
}

/// A parsed file.
#[derive(Clone, Debug)]
pub struct MetadataDocument {
    pub container: ContainerKind,
    /// The top-level nodes, in file order.
    pub roots: Vec<usize>,
    pub nodes: Vec<MetadataNode>,
    pub audio_mapping: Option<AudioByteMapping>,
}

/// A page of raw bytes read from the inspected file, starting at `start`.
#[derive(Clone, Debug)]
pub struct MetadataHexPage {
    pub start: u64,
    pub bytes: Vec<u8>,
}

/// The tabs of the inspector's detail pane.
#[derive(Clone, Copy, Debug, Default, PartialEq, Eq, Structural)]
pub enum MetadataDetailTab {
    #[default]
    Properties,
    Decoded,
    Text,
    Hex,
    Waveform,
}

/// The inspector's state for one editor tab. The flags named `*_pending`
/// stand for a background job whose answer has not been collected yet.
#[derive(Default)]
pub struct MetadataTabState {
    pub document: Option<MetadataDocument>,
    pub loading: bool,
    pub error: Option<String>,
    pub scan_pending: bool,
    pub selected_node: Option<usize>,
    pub detail_tab: MetadataDetailTab,
    pub text_encoding: usize,
    pub hex_selection: Option<SourceRange>,
    /// The byte the hex view is at.
    pub hex_offset: u64,
    pub hex_scroll_target: Option<u64>,
    pub hex_page: Option<MetadataHexPage>,
    pub hex_pages: Vec<MetadataHexPage>,
    pub hex_page_requested: Option<u64>,
    pub hex_page_pending: bool,
    pub search_results: Vec<u64>,
    pub action_status: Option<String>,
    pub action_pending: bool,
    /// A running action can still be told to stop.
    pub action_cancel_armed: bool,
    pub action_progress: Option<u64>,
    pub action_total: u64,
    pub artwork_requested: Option<usize>,
    pub artwork_pending: bool,
    /// The node whose artwork is currently shown.
    pub artwork_shown: Option<usize>,
    /// The hex view follows the playhead.
    pub follow_playback: bool,
    /// The inspector shows the structure list (rather than another view).
    pub show_structure: bool,
}

// ---------------------------------------------------------------------
// Byte ranges
// ---------------------------------------------------------------------

/// The end of a range, saturating at `u64::MAX` as the inspector computes it.
pub open spec fn range_end(r: SourceRange) -> int {
    if r.offset + r.length > u64::MAX {
        u64::MAX as int
    } else {
        r.offset + r.length
    }
}

/// Byte `p` lies in `r`.
pub open spec fn range_covers(r: SourceRange, p: int) -> bool {
    r.offset <= p < range_end(r)
}

/// Some range of `s` holds byte `p`.
pub open spec fn seq_covers(s: Seq<SourceRange>, p: int) -> bool {
    exists|i: int| 0 <= i < s.len() && range_covers(#[trigger] s[i], p)
}

/// Two ranges share a byte.
pub open spec fn spec_ranges_overlap(a: SourceRange, b: SourceRange) -> bool {
    a.offset < range_end(b) && b.offset < range_end(a)
}

/// Whether two ranges share a byte.
pub fn ranges_overlap(a: SourceRange, b: SourceRange) -> (r: bool)
    ensures
        r == spec_ranges_overlap(a, b),
{
    a.offset < b.offset.saturating_add(b.length) && b.offset < a.offset.saturating_add(a.length)
}

/// Overlap does not depend on the order of the two ranges.
pub proof fn lemma_overlap_symmetric(a: SourceRange, b: SourceRange)
    ensures
        spec_ranges_overlap(a, b) == spec_ranges_overlap(b, a),
{
}

/// Two non-empty ranges overlap exactly when some byte lies in both.
pub proof fn lemma_overlap_shares_a_byte(a: SourceRange, b: SourceRange)
    requires
        a.offset < range_end(a),
        b.offset < range_end(b),
    ensures
        spec_ranges_overlap(a, b) <==> (exists|p: int| range_covers(a, p) && range_covers(b, p)),
{
    if spec_ranges_overlap(a, b) {
        let p = if a.offset < b.offset {
            b.offset as int
        } else {
            a.offset as int
        };
        assert(range_covers(a, p) && range_covers(b, p));
    }
}

// ---------------------------------------------------------------------
// The audio timeline
// ---------------------------------------------------------------------

/// The audio payloads of a document's nodes, in node order: every node
/// holding audio with a non-empty payload.
pub open spec fn audio_payload_ranges(nodes: Seq<MetadataNode>) -> Seq<SourceRange>
    decreases nodes.len(),
{
    if nodes.len() == 0 {
        Seq::empty()
    } else {
        let rest = audio_payload_ranges(nodes.drop_last());
        let node = nodes.last();
        if node.content == ContentKind::Audio && node.payload.length > 0 {
            rest.push(SourceRange { offset: node.payload.file_offset, length: node.payload.length })
        } else {
            rest
        }
    }
}

/// `r` put into `s` after every range that does not start later than it:
/// one step of a stable sort by offset.
pub open spec fn insert_by_offset(s: Seq<SourceRange>, r: SourceRange) -> Seq<SourceRange>
    decreases s.len(),
{
    if s.len() == 0 {
        seq![r]
    } else if s.last().offset <= r.offset {
        s.push(r)
    } else {
        insert_by_offset(s.drop_last(), r).push(s.last())
    }
}

/// `s` stably sorted by offset (what `sort_by_key` on the offset yields).
pub open spec fn sorted_by_offset(s: Seq<SourceRange>) -> Seq<SourceRange>
    decreases s.len(),
{
    if s.len() == 0 {
        s
    } else {
        insert_by_offset(sorted_by_offset(s.drop_last()), s.last())
    }
}

/// One step of merging sorted ranges: `r` joins the last merged range when
/// it starts no later than that range ends, and starts a new one otherwise.
pub open spec fn merge_step(merged: Seq<SourceRange>, r: SourceRange) -> Seq<SourceRange> {
    if merged.len() > 0 && r.offset <= range_end(merged.last()) {
        let last = merged.last();
        let end = if range_end(last) >= range_end(r) {
            range_end(last)
        } else {
            range_end(r)
        };
        merged.update(
            merged.len() - 1,
            SourceRange { offset: last.offset, length: (end - last.offset) as u64 },
        )
    } else {
        merged.push(r)
    }
}

/// `s` merged range by range, front to back.
pub open spec fn merge_all(s: Seq<SourceRange>) -> Seq<SourceRange>
    decreases s.len(),
{
    if s.len() == 0 {
        s
    } else {
        merge_step(merge_all(s.drop_last()), s.last())
    }
}

/// The sum of the lengths, saturating at `u64::MAX`.
pub open spec fn saturating_total(s: Seq<SourceRange>) -> u64
    decreases s.len(),
{
    if s.len() == 0 {
        0
    } else {
        let t = saturating_total(s.drop_last()) + s.last().length;
        if t > u64::MAX {
            u64::MAX
        } else {
            t as u64
        }
    }
}

/// The audio bytes of a file laid end to end, so that a position along the
/// audio (a waveform fraction) can be found in the file and back.
#[derive(Clone, Debug)]
pub struct MetadataAudioTimeline {
    pub ranges: Vec<SourceRange>,
    pub total_bytes: u64,
}

/// The ranges the timeline of a document is built from.
pub open spec fn timeline_ranges(document: MetadataDocument) -> Seq<SourceRange> {
    match document.audio_mapping {
        Some(mapping) if mapping.data_length > 0 => seq![
            SourceRange { offset: mapping.data_offset, length: mapping.data_length },
        ],
        _ => merge_all(sorted_by_offset(audio_payload_ranges(document.nodes@))),
    }
}

/// The timeline's length in bytes.
pub open spec fn timeline_total(document: MetadataDocument) -> u64 {
    match document.audio_mapping {
        Some(mapping) if mapping.data_length > 0 => mapping.data_length,
        _ => saturating_total(timeline_ranges(document)),
    }
}

proof fn lemma_insert_at(s: Seq<SourceRange>, r: SourceRange, pos: int)
    requires
        0 <= pos <= s.len(),
        pos == 0 || s[pos - 1].offset <= r.offset,
        forall|k: int| pos <= k < s.len() ==> s[k].offset > r.offset,
    ensures
        insert_by_offset(s, r) == s.insert(pos, r),
    decreases s.len(),
{
    if s.len() == 0 {
        assert(s.insert(pos, r) =~= seq![r]);
    } else if s.last().offset <= r.offset {
        assert(pos == s.len());
        assert(s.insert(pos, r) =~= s.push(r));
    } else {
        lemma_insert_at(s.drop_last(), r, pos);
        assert(s.drop_last().insert(pos, r).push(s.last()) =~= s.insert(pos, r));
    }
}


/// Offsets never decrease along `s`.
pub open spec fn offsets_sorted(s: Seq<SourceRange>) -> bool {
    forall|i: int, j: int| 0 <= i <= j < s.len() ==> s[i].offset <= s[j].offset
}

/// Each range of `s` ends before the next one starts.
pub open spec fn ranges_separated(s: Seq<SourceRange>) -> bool {
    forall|i: int, j: int| 0 <= i < j < s.len() ==> range_end(s[i]) < s[j].offset
}

proof fn lemma_covers_push(s: Seq<SourceRange>, r: SourceRange, p: int)
    ensures
        seq_covers(s.push(r), p) <==> seq_covers(s, p) || range_covers(r, p),
{
    if seq_covers(s, p) {
        let i = choose|i: int| 0 <= i < s.len() && range_covers(#[trigger] s[i], p);
        assert(s.push(r)[i] == s[i]);
    }
    if range_covers(r, p) {
        assert(s.push(r)[s.len() as int] == r);
    }
    if seq_covers(s.push(r), p) {
        let i = choose|i: int| 0 <= i < s.push(r).len() && range_covers(#[trigger] s.push(r)[i], p);
        if i < s.len() {
            assert(s[i] == s.push(r)[i]);
        }
    }
}

proof fn lemma_insert_by_offset(s: Seq<SourceRange>, r: SourceRange)
    ensures
        offsets_sorted(s) ==> offsets_sorted(insert_by_offset(s, r)),
        insert_by_offset(s, r).len() == s.len() + 1,
        forall|p: int| seq_covers(insert_by_offset(s, r), p) <==> seq_covers(s, p) || range_covers(r, p),
    decreases s.len(),
{
    if s.len() == 0 {
        assert(insert_by_offset(s, r) =~= s.push(r));
        assert forall|p: int| seq_covers(insert_by_offset(s, r), p) <==> seq_covers(s, p) || range_covers(r, p) by {
            lemma_covers_push(s, r, p);
        }
    } else if s.last().offset <= r.offset {
        assert forall|p: int| seq_covers(insert_by_offset(s, r), p) <==> seq_covers(s, p) || range_covers(r, p) by {
            lemma_covers_push(s, r, p);
        }
    } else {
        let init = s.drop_last();
        lemma_insert_by_offset(init, r);
        let ins = insert_by_offset(init, r);
        assert forall|p: int| seq_covers(insert_by_offset(s, r), p) <==> seq_covers(s, p) || range_covers(r, p) by {
            lemma_covers_push(ins, s.last(), p);
            lemma_covers_push(init, s.last(), p);
            assert(init.push(s.last()) =~= s);
        }
        if offsets_sorted(s) {
            assert(offsets_sorted(init));
            // every element of `ins` is an element of `init` or `r`, all at most `s.last()`
            lemma_insert_bounded(init, r, s.last().offset);
            assert forall|i: int, j: int| 0 <= i <= j < ins.push(s.last()).len() implies
                #[trigger] ins.push(s.last())[i].offset <= #[trigger] ins.push(s.last())[j].offset by {
                if j == ins.len() && i < ins.len() {
                    assert(ins[i].offset <= s.last().offset);
                }
            }
        }
    }
}

proof fn lemma_insert_bounded(s: Seq<SourceRange>, r: SourceRange, bound: u64)
    requires
        forall|i: int| 0 <= i < s.len() ==> s[i].offset <= bound,
        r.offset <= bound,
    ensures
        forall|i: int| 0 <= i < insert_by_offset(s, r).len() ==> #[trigger] insert_by_offset(s, r)[i].offset <= bound,
    decreases s.len(),
{
    let out = insert_by_offset(s, r);
    if s.len() == 0 {
        assert(out =~= seq![r]);
    } else if s.last().offset <= r.offset {
        assert forall|i: int| 0 <= i < out.len() implies #[trigger] out[i].offset <= bound by {
            if i < s.len() {
                assert(out[i] == s[i]);
            }
        }
    } else {
        let ins = insert_by_offset(s.drop_last(), r);
        lemma_insert_bounded(s.drop_last(), r, bound);
        assert forall|i: int| 0 <= i < out.len() implies #[trigger] out[i].offset <= bound by {
            if i < ins.len() {
                assert(out[i] == ins[i]);
            }
        }
    }
}

/// Sorting by offset yields ranges in offset order that hold the same bytes.
proof fn lemma_sorted_by_offset(s: Seq<SourceRange>)
    ensures
        offsets_sorted(sorted_by_offset(s)),
        sorted_by_offset(s).len() == s.len(),
        forall|p: int| seq_covers(sorted_by_offset(s), p) <==> seq_covers(s, p),
    decreases s.len(),
{
    if s.len() > 0 {
        lemma_sorted_by_offset(s.drop_last());
        lemma_insert_by_offset(sorted_by_offset(s.drop_last()), s.last());
        assert forall|p: int| seq_covers(sorted_by_offset(s), p) <==> seq_covers(s, p) by {
            lemma_covers_push(s.drop_last(), s.last(), p);
            assert(s.drop_last().push(s.last()) =~= s);
        }
    }
}

/// Merging sorted ranges yields separated ranges that hold the same bytes,
/// none starting after the last input range.
proof fn lemma_merge_all(s: Seq<SourceRange>)
    requires
        offsets_sorted(s),
    ensures
        ranges_separated(merge_all(s)),
        forall|p: int| seq_covers(merge_all(s), p) <==> seq_covers(s, p),
        s.len() > 0 ==> forall|i: int| 0 <= i < merge_all(s).len() ==> #[trigger] merge_all(s)[i].offset <= s.last().offset,
        s.len() == 0 ==> merge_all(s).len() == 0,
    decreases s.len(),
{
    if s.len() > 0 {
        let init = s.drop_last();
        let r = s.last();
        assert(offsets_sorted(init));
        lemma_merge_all(init);
        let m = merge_all(init);
        assert(init.push(r) =~= s);
        if init.len() > 0 {
            assert forall|i: int| 0 <= i < m.len() implies #[trigger] m[i].offset <= r.offset by {
                assert(init.last().offset <= r.offset);
            }
        }
        if m.len() > 0 && r.offset <= range_end(m.last()) {
            let last = m.last();
            let n = m.len() - 1;
            let out = merge_step(m, r);
            assert(range_end(out[n]) == if range_end(last) >= range_end(r) { range_end(last) } else { range_end(r) });
            assert forall|p: int| seq_covers(out, p) <==> seq_covers(s, p) by {
                lemma_covers_push(init, r, p);
                lemma_covers_push(m.drop_last(), last, p);
                lemma_covers_push(m.drop_last(), out[n], p);
                assert(m.drop_last().push(last) =~= m);
                assert(m.drop_last().push(out[n]) =~= out);
            }
            assert forall|i: int, j: int| 0 <= i < j < out.len() implies range_end(out[i]) < out[j].offset by {
                assert(range_end(m[i]) < m[j].offset);
            }
        } else {
            let out = merge_step(m, r);
            assert forall|p: int| seq_covers(out, p) <==> seq_covers(s, p) by {
                lemma_covers_push(init, r, p);
                lemma_covers_push(m, r, p);
            }
            if m.len() > 0 {
                assert forall|i: int, j: int| 0 <= i < j < out.len() implies range_end(out[i]) < out[j].offset by {
                    if j == m.len() {
                        if i < m.len() - 1 {
                            assert(range_end(m[i]) < m[m.len() - 1].offset);
                        }
                    }
                }
            }
        }
    }
}

/// Without a PCM data chunk, the timeline holds exactly the bytes of the
/// document's audio payloads, in ranges that are in file order and neither
/// overlap nor touch.
pub proof fn lemma_timeline_covers_audio(document: MetadataDocument)
    requires
        match document.audio_mapping {
            Some(mapping) => mapping.data_length == 0,
            None => true,
        },
    ensures
        forall|p: int|
            seq_covers(timeline_ranges(document), p) <==> seq_covers(
                audio_payload_ranges(document.nodes@),
                p,
            ),
        ranges_separated(timeline_ranges(document)),
{
    let a = audio_payload_ranges(document.nodes@);
    lemma_sorted_by_offset(a);
    lemma_merge_all(sorted_by_offset(a));
}

/// Every range is non-empty and ends within `u64` offsets.
pub open spec fn ranges_plain(s: Seq<SourceRange>) -> bool {
    forall|i: int| 0 <= i < s.len() ==> #[trigger] s[i].length > 0 && s[i].offset + s[i].length <= u64::MAX
}

/// No audio payload of the nodes ends past the last `u64` offset.
pub open spec fn audio_payloads_fit(nodes: Seq<MetadataNode>) -> bool {
    forall|i: int|
        0 <= i < nodes.len() && (#[trigger] nodes[i]).content == ContentKind::Audio ==> nodes[i].payload.file_offset
            + nodes[i].payload.length <= u64::MAX
}

proof fn lemma_payloads_plain(nodes: Seq<MetadataNode>)
    requires
        audio_payloads_fit(nodes),
    ensures
        ranges_plain(audio_payload_ranges(nodes)),
    decreases nodes.len(),
{
    if nodes.len() > 0 {
        let init = nodes.drop_last();
        assert forall|i: int| 0 <= i < init.len() && (#[trigger] init[i]).content == ContentKind::Audio implies init[i].payload.file_offset
            + init[i].payload.length <= u64::MAX by {
            assert(init[i] == nodes[i]);
        }
        lemma_payloads_plain(init);
        assert(nodes[nodes.len() - 1] == nodes.last());
    }
}

proof fn lemma_insert_plain(s: Seq<SourceRange>, r: SourceRange)
    requires
        ranges_plain(s),
        r.length > 0,
        r.offset + r.length <= u64::MAX,
    ensures
        ranges_plain(insert_by_offset(s, r)),
    decreases s.len(),
{
    if s.len() > 0 && !(s.last().offset <= r.offset) {
        lemma_insert_plain(s.drop_last(), r);
        let out = insert_by_offset(s.drop_last(), r).push(s.last());
        assert forall|i: int| 0 <= i < out.len() implies #[trigger] out[i].length > 0 && out[i].offset + out[i].length <= u64::MAX by {
            if i == out.len() - 1 {
                assert(out[i] == s[s.len() - 1]);
            }
        }
    }
}

proof fn lemma_sorted_plain(s: Seq<SourceRange>)
    requires
        ranges_plain(s),
    ensures
        ranges_plain(sorted_by_offset(s)),
    decreases s.len(),
{
    if s.len() > 0 {
        lemma_sorted_plain(s.drop_last());
        assert(s[s.len() - 1] == s.last());
        lemma_insert_plain(sorted_by_offset(s.drop_last()), s.last());
    }
}

proof fn lemma_merge_plain(s: Seq<SourceRange>)
    requires
        ranges_plain(s),
    ensures
        ranges_plain(merge_all(s)),
    decreases s.len(),
{
    if s.len() > 0 {
        lemma_merge_plain(s.drop_last());
        assert(s[s.len() - 1] == s.last());
    }
}

proof fn lemma_separated_total(s: Seq<SourceRange>)
    requires
        ranges_plain(s),
        ranges_separated(s),
    ensures
        saturating_total(s) == total_length(s),
        s.len() > 0 ==> total_length(s) <= s.last().offset + s.last().length,
    decreases s.len(),
{
    if s.len() > 0 {
        let init = s.drop_last();
        assert(ranges_plain(init)) by {
            assert forall|i: int| 0 <= i < init.len() implies #[trigger] init[i].length > 0 && init[i].offset + init[i].length <= u64::MAX by {
                assert(init[i] == s[i]);
            }
        }
        assert(ranges_separated(init)) by {
            assert forall|i: int, j: int| 0 <= i < j < init.len() implies range_end(init[i]) < init[j].offset by {
                assert(init[i] == s[i] && init[j] == s[j]);
            }
        }
        lemma_separated_total(init);
        lemma_total_length_last(s);
        assert(s[s.len() - 1] == s.last());
        if init.len() > 0 {
            assert(init.last() == s[s.len() - 2]);
            assert(range_end(s[s.len() - 2]) < s[s.len() - 1].offset);
        }
    }
}

/// Without a PCM data chunk, and when no audio payload ends past the last
/// `u64` offset, every range of the timeline holds at least one byte and
/// the timeline's length is the plain sum of its ranges' lengths.
pub proof fn lemma_timeline_ranges_nonempty_and_total(document: MetadataDocument)
    requires
        match document.audio_mapping {
            Some(mapping) => mapping.data_length == 0,
            None => true,
        },
        audio_payloads_fit(document.nodes@),
    ensures
        forall|i: int| 0 <= i < timeline_ranges(document).len() ==> #[trigger] timeline_ranges(document)[i].length > 0,
        timeline_total(document) == total_length(timeline_ranges(document)),
{
    let a = audio_payload_ranges(document.nodes@);
    lemma_payloads_plain(document.nodes@);
    lemma_sorted_plain(a);
    lemma_sorted_by_offset(a);
    lemma_merge_all(sorted_by_offset(a));
    lemma_merge_plain(sorted_by_offset(a));
    lemma_separated_total(merge_all(sorted_by_offset(a)));
}

impl MetadataAudioTimeline {
    /// The timeline of a document: the PCM data chunk when the document
    /// maps one, otherwise the audio payloads of its nodes sorted by offset
    /// with overlapping or touching ones merged.
    pub fn from_document(document: &MetadataDocument) -> (timeline: Self)
        ensures
            timeline.ranges@ == timeline_ranges(*document),
            timeline.total_bytes == timeline_total(*document),
    {
        if let Some(mapping) = &document.audio_mapping {
            if mapping.data_length > 0 {
                let mut ranges = Vec::new();
                ranges.push(SourceRange { offset: mapping.data_offset, length: mapping.data_length });
                return Self { ranges, total_bytes: mapping.data_length };
            }
        }
        // The audio payloads, sorted by offset as they are collected.
        let mut ranges: Vec<SourceRange> = Vec::new();
        let mut i: usize = 0;
        while i < document.nodes.len()
            invariant
                i <= document.nodes@.len(),
                ranges@ == sorted_by_offset(audio_payload_ranges(document.nodes@.take(i as int))),
            decreases document.nodes@.len() - i,
        {
            let node = &document.nodes[i];
            proof {
                assert(document.nodes@.take(i + 1).drop_last() =~= document.nodes@.take(i as int));
            }
            let ghost before = audio_payload_ranges(document.nodes@.take(i as int));
            if node.content == ContentKind::Audio && node.payload.length > 0 {
                proof {
                    let r = SourceRange { offset: node.payload.file_offset, length: node.payload.length };
                    assert(before.push(r).drop_last() =~= before);
                }
                let range = SourceRange { offset: node.payload.file_offset, length: node.payload.length };
                let mut pos = ranges.len();
                while pos > 0 && ranges[pos - 1].offset > range.offset
                    invariant
                        pos <= ranges@.len(),
                        forall|k: int| pos <= k < ranges@.len() ==> ranges@[k].offset > range.offset,
                    decreases pos,
                {
                    pos = pos - 1;
                }
                proof {
                    lemma_insert_at(ranges@, range, pos as int);
                }
                ranges.insert(pos, range);
            }
            i = i + 1;
        }
        proof {
            assert(document.nodes@.take(document.nodes@.len() as int) =~= document.nodes@);
        }
        let ghost sorted = ranges@;
        // Merge ranges that overlap or touch.
        let mut merged: Vec<SourceRange> = Vec::new();
        let mut j: usize = 0;
        while j < ranges.len()
            invariant
                j <= ranges@.len(),
                ranges@ == sorted,
                merged@ == merge_all(sorted.take(j as int)),
            decreases ranges@.len() - j,
        {
            let range = ranges[j];
            proof {
                assert(sorted.take(j + 1).drop_last() =~= sorted.take(j as int));
            }
            let n = merged.len();
            if n > 0 {
                let last = merged[n - 1];
                let last_end = last.offset.saturating_add(last.length);
                if range.offset <= last_end {
                    let merged_end = if last_end >= range.offset.saturating_add(range.length) {
                        last_end
                    } else {
                        range.offset.saturating_add(range.length)
                    };
                    merged.set(n - 1, SourceRange { offset: last.offset, length: merged_end - last.offset });
                } else {
                    merged.push(range);
                }
            } else {
                merged.push(range);
            }
            j = j + 1;
        }
        proof {
            assert(sorted.take(sorted.len() as int) =~= sorted);
        }
        let mut total_bytes: u64 = 0;
        let mut k: usize = 0;
        while k < merged.len()
            invariant
                k <= merged@.len(),
                total_bytes == saturating_total(merged@.take(k as int)),
            decreases merged@.len() - k,
        {
            proof {
                assert(merged@.take(k + 1).drop_last() =~= merged@.take(k as int));
            }
            total_bytes = total_bytes.saturating_add(merged[k].length);
            k = k + 1;
        }
        proof {
            assert(merged@.take(merged@.len() as int) =~= merged@);
        }
        Self { ranges: merged, total_bytes }
    }
}


/// `a + b`, saturating at `u64::MAX`.
pub open spec fn sat_add(a: int, b: int) -> int {
    if a + b > u64::MAX {
        u64::MAX as int
    } else {
        a + b
    }
}

/// The part of `file_range` that lies in audio range `audio`, as timeline
/// positions when the audio range starts at timeline position `cum`.
pub open spec fn range_contribution(audio: SourceRange, file_range: SourceRange, cum: int) -> Option<(int, int)> {
    let start = if file_range.offset >= audio.offset { file_range.offset as int } else { audio.offset as int };
    let end = if range_end(file_range) <= range_end(audio) { range_end(file_range) } else { range_end(audio) };
    if start < end {
        Some((sat_add(cum, start - audio.offset), sat_add(cum, end - audio.offset)))
    } else {
        None
    }
}

/// The first and last timeline positions `file_range` covers among
/// `ranges`, the first of which starts at timeline position `cum`.
pub open spec fn span_from(ranges: Seq<SourceRange>, file_range: SourceRange, cum: int) -> (Option<int>, Option<int>)
    decreases ranges.len(),
{
    if ranges.len() == 0 {
        (None, None)
    } else {
        let here = range_contribution(ranges[0], file_range, cum);
        let rest = span_from(ranges.drop_first(), file_range, sat_add(cum, ranges[0].length as int));
        let first = match here {
            Some((a, _)) => Some(a),
            None => rest.0,
        };
        let last = match rest.1 {
            Some(b) => Some(b),
            None => match here {
                Some((_, b)) => Some(b),
                None => None,
            },
        };
        (first, last)
    }
}

/// Where in the audio (as timeline positions `[first, last)`) a file range
/// lies; nothing for an empty range, an empty timeline, or a range that
/// holds no audio.
pub open spec fn timeline_span_of(timeline: MetadataAudioTimeline, file_range: SourceRange) -> Option<(int, int)> {
    if timeline.total_bytes == 0 || file_range.length == 0 {
        None
    } else {
        match span_from(timeline.ranges@, file_range, 0) {
            (Some(a), Some(b)) => Some((a, b)),
            _ => None,
        }
    }
}

/// The file offset of timeline position `target` among `ranges`, the first
/// of which starts at timeline position `cum`.
pub open spec fn offset_from(ranges: Seq<SourceRange>, target: int, cum: int) -> Option<int>
    decreases ranges.len(),
{
    if ranges.len() == 0 {
        None
    } else {
        let next = sat_add(cum, ranges[0].length as int);
        if target < next {
            let d = if target >= cum { target - cum } else { 0 };
            if ranges[0].offset + d > u64::MAX {
                None
            } else {
                Some(ranges[0].offset + d)
            }
        } else {
            offset_from(ranges.drop_first(), target, next)
        }
    }
}

/// The file offset of a timeline position; positions past the end name
/// the last audio byte.
pub open spec fn timeline_offset_of(timeline: MetadataAudioTimeline, position: int) -> Option<int> {
    if timeline.total_bytes == 0 {
        None
    } else {
        let target = if position < timeline.total_bytes - 1 { position } else { timeline.total_bytes - 1 };
        offset_from(timeline.ranges@, target, 0)
    }
}

/// The timeline's ranges are in file order, apart, not empty, and neither
/// their ends nor their running total reach past `u64::MAX`.
pub open spec fn timeline_plain(ranges: Seq<SourceRange>, cum: int) -> bool
    decreases ranges.len(),
{
    ranges.len() == 0 || {
        &&& ranges[0].length > 0
        &&& ranges[0].offset + ranges[0].length <= u64::MAX
        &&& cum + ranges[0].length <= u64::MAX
        &&& (ranges.len() > 1 ==> ranges[0].offset + ranges[0].length < ranges[1].offset)
        &&& timeline_plain(ranges.drop_first(), cum + ranges[0].length)
    }
}

proof fn lemma_offset_bounds(ranges: Seq<SourceRange>, target: int, cum: int)
    requires
        timeline_plain(ranges, cum),
        0 <= cum <= target,
    ensures
        offset_from(ranges, target, cum) matches Some(o) ==> ranges.len() > 0 && ranges[0].offset <= o,
    decreases ranges.len(),
{
    if ranges.len() > 0 {
        let next = sat_add(cum, ranges[0].length as int);
        assert(next == cum + ranges[0].length);
        if target >= next && ranges.len() > 1 {
            lemma_offset_bounds(ranges.drop_first(), target, next);
            assert(ranges.drop_first()[0] == ranges[1]);
        }
    }
}

proof fn lemma_no_contribution_after(ranges: Seq<SourceRange>, o: int, cum: int)
    requires
        timeline_plain(ranges, cum),
        ranges.len() > 0 ==> o + 1 <= ranges[0].offset,
        0 <= o,
        0 <= cum,
    ensures
        span_from(ranges, SourceRange { offset: o as u64, length: 1 }, cum) == (None::<int>, None::<int>),
    decreases ranges.len(),
{
    if ranges.len() > 0 {
        if ranges.len() > 1 {
            assert(ranges.drop_first()[0] == ranges[1]);
        }
        lemma_no_contribution_after(ranges.drop_first(), o, cum + ranges[0].length);
    }
}

/// The sum of the lengths of `ranges`.
pub open spec fn total_length(ranges: Seq<SourceRange>) -> int
    decreases ranges.len(),
{
    if ranges.len() == 0 {
        0
    } else {
        ranges[0].length + total_length(ranges.drop_first())
    }
}

/// A position of the audio maps to a byte of the file, and that byte maps
/// back to exactly that position: the timeline has no gaps and no
/// overlaps where the metadata between audio payloads was left out.
pub proof fn lemma_timeline_round_trip(ranges: Seq<SourceRange>, target: int, cum: int)
    requires
        timeline_plain(ranges, cum),
        0 <= cum <= target,
        target < cum + total_length(ranges),
    ensures
        offset_from(ranges, target, cum) matches Some(o) && o < u64::MAX && span_from(
            ranges,
            SourceRange { offset: o as u64, length: 1 },
            cum,
        ) == (Some(target), Some(target + 1)),
    decreases ranges.len(),
{
    let r0 = ranges[0];
    let next = cum + r0.length;
    let rest = ranges.drop_first();
    if rest.len() > 0 {
        assert(rest[0] == ranges[1]);
    }
    if target < next {
        let o = r0.offset + (target - cum);
        assert(offset_from(ranges, target, cum) == Some(o));
        let fr = SourceRange { offset: o as u64, length: 1 };
        assert(range_end(fr) == o + 1);
        assert(range_end(r0) == r0.offset + r0.length);
        assert(range_contribution(r0, fr, cum) == Some((target, target + 1)));
        lemma_no_contribution_after(rest, o, next);
    } else {
        lemma_timeline_round_trip(rest, target, next);
        let o = offset_from(rest, target, next)->0;
        lemma_offset_bounds(rest, target, next);
        let fr = SourceRange { offset: o as u64, length: 1 };
        assert(range_contribution(r0, fr, cum) is None);
    }
}

/// On a timeline of separate, non-empty audio ranges whose total is the
/// sum of their lengths, every audio position maps to a file byte
/// (`timeline_offset`) that maps back to exactly that position
/// (`timeline_span`).
pub proof fn lemma_timeline_position_round_trip(timeline: MetadataAudioTimeline, position: int)
    requires
        timeline_plain(timeline.ranges@, 0),
        timeline.total_bytes == total_length(timeline.ranges@),
        0 <= position < timeline.total_bytes,
    ensures
        timeline_offset_of(timeline, position) matches Some(o) && o < u64::MAX && timeline_span_of(
            timeline,
            SourceRange { offset: o as u64, length: 1 },
        ) == Some((position, position + 1)),
{
    lemma_timeline_round_trip(timeline.ranges@, position, 0);
}

/// Every range is non-empty and ends at or before `u64::MAX`.
pub open spec fn ranges_whole(s: Seq<SourceRange>) -> bool {
    forall|i: int| 0 <= i < s.len() ==> #[trigger] s[i].length > 0 && s[i].offset + s[i].length <= u64::MAX
}

/// The audio of a document ends within the range of file offsets: its PCM
/// data chunk, and every audio payload of its nodes.
pub open spec fn audio_within_file_offsets(document: MetadataDocument) -> bool {
    &&& (document.audio_mapping matches Some(m) ==> m.data_offset + m.data_length <= u64::MAX)
    &&& forall|k: int| 0 <= k < document.nodes@.len() ==> {
        let n = #[trigger] document.nodes@[k];
        n.content == ContentKind::Audio && n.payload.length > 0 ==> n.payload.file_offset + n.payload.length
            <= u64::MAX
    }
}

proof fn lemma_payload_ranges_whole(nodes: Seq<MetadataNode>)
    requires
        forall|k: int| 0 <= k < nodes.len() ==> {
            let n = #[trigger] nodes[k];
            n.content == ContentKind::Audio && n.payload.length > 0 ==> n.payload.file_offset + n.payload.length
                <= u64::MAX
        },
    ensures
        ranges_whole(audio_payload_ranges(nodes)),
    decreases nodes.len(),
{
    if nodes.len() > 0 {
        let d = nodes.drop_last();
        assert forall|k: int| 0 <= k < d.len() implies {
            let n = #[trigger] d[k];
            n.content == ContentKind::Audio && n.payload.length > 0 ==> n.payload.file_offset + n.payload.length
                <= u64::MAX
        } by {
            assert(d[k] == nodes[k]);
        }
        lemma_payload_ranges_whole(d);
        let last = nodes[nodes.len() - 1];
        assert(last == nodes.last());
    }
}

proof fn lemma_insert_whole(s: Seq<SourceRange>, r: SourceRange)
    requires
        ranges_whole(s),
        r.length > 0 && r.offset + r.length <= u64::MAX,
    ensures
        ranges_whole(insert_by_offset(s, r)),
    decreases s.len(),
{
    if s.len() > 0 && s.last().offset > r.offset {
        let d = s.drop_last();
        assert forall|i: int| 0 <= i < d.len() implies #[trigger] d[i].length > 0 && d[i].offset + d[i].length
            <= u64::MAX by {
            assert(d[i] == s[i]);
        }
        lemma_insert_whole(d, r);
        let out = insert_by_offset(d, r).push(s.last());
        assert forall|i: int| 0 <= i < out.len() implies #[trigger] out[i].length > 0 && out[i].offset
            + out[i].length <= u64::MAX by {
            if i == out.len() - 1 {
                assert(out[i] == s[s.len() - 1]);
            } else {
                assert(out[i] == insert_by_offset(d, r)[i]);
            }
        }
    }
}

proof fn lemma_sorted_whole(s: Seq<SourceRange>)
    requires
        ranges_whole(s),
    ensures
        ranges_whole(sorted_by_offset(s)),
    decreases s.len(),
{
    if s.len() > 0 {
        let d = s.drop_last();
        assert forall|i: int| 0 <= i < d.len() implies #[trigger] d[i].length > 0 && d[i].offset + d[i].length
            <= u64::MAX by {
            assert(d[i] == s[i]);
        }
        lemma_sorted_whole(d);
        assert(s[s.len() - 1] == s.last());
        lemma_insert_whole(sorted_by_offset(d), s.last());
    }
}

proof fn lemma_merge_whole(s: Seq<SourceRange>)
    requires
        ranges_whole(s),
    ensures
        ranges_whole(merge_all(s)),
    decreases s.len(),
{
    if s.len() > 0 {
        let d = s.drop_last();
        assert forall|i: int| 0 <= i < d.len() implies #[trigger] d[i].length > 0 && d[i].offset + d[i].length
            <= u64::MAX by {
            assert(d[i] == s[i]);
        }
        lemma_merge_whole(d);
        assert(s[s.len() - 1] == s.last());
    }
}

/// Separate, whole ranges form a plain timeline from any running total
/// that does not pass the first range's offset.
proof fn lemma_separated_plain(s: Seq<SourceRange>, cum: int)
    requires
        ranges_whole(s),
        ranges_separated(s),
        0 <= cum,
        s.len() > 0 ==> cum <= s[0].offset,
    ensures
        timeline_plain(s, cum),
    decreases s.len(),
{
    if s.len() > 0 {
        let rest = s.drop_first();
        assert(s[0].length > 0 && s[0].offset + s[0].length <= u64::MAX);
        assert forall|i: int| 0 <= i < rest.len() implies #[trigger] rest[i].length > 0 && rest[i].offset
            + rest[i].length <= u64::MAX by {
            assert(rest[i] == s[i + 1]);
        }
        assert forall|i: int, j: int| 0 <= i < j < rest.len() implies range_end(rest[i]) < rest[j].offset by {
            assert(rest[i] == s[i + 1] && rest[j] == s[j + 1]);
        }
        if s.len() > 1 {
            assert(range_end(s[0]) < s[1].offset);
            assert(rest[0] == s[1]);
        }
        lemma_separated_plain(rest, cum + s[0].length);
    }
}

proof fn lemma_plain_total(s: Seq<SourceRange>, cum: int)
    requires
        timeline_plain(s, cum),
        0 <= cum <= u64::MAX,
    ensures
        cum + total_length(s) <= u64::MAX,
    decreases s.len(),
{
    if s.len() > 0 {
        lemma_plain_total(s.drop_first(), cum + s[0].length);
    }
}

proof fn lemma_total_length_last(s: Seq<SourceRange>)
    requires
        s.len() > 0,
    ensures
        total_length(s) == total_length(s.drop_last()) + s.last().length,
    decreases s.len(),
{
    if s.len() > 1 {
        lemma_total_length_last(s.drop_first());
        assert(s.drop_first().drop_last() =~= s.drop_last().drop_first());
        assert(s.drop_first().last() == s.last());
        assert(s.drop_last()[0] == s[0]);
        assert(total_length(s.drop_last()) == s[0].length + total_length(s.drop_last().drop_first()));
        assert(total_length(s) == s[0].length + total_length(s.drop_first()));
    } else {
        assert(s.drop_last().len() == 0);
        assert(s.drop_first().len() == 0);
        assert(total_length(s.drop_first()) == 0);
        assert(total_length(s.drop_last()) == 0);
        assert(total_length(s) == s[0].length + total_length(s.drop_first()));
        assert(s.last() == s[0]);
    }
}

proof fn lemma_saturating_total_exact(s: Seq<SourceRange>)
    requires
        total_length(s) <= u64::MAX,
    ensures
        saturating_total(s) == total_length(s),
    decreases s.len(),
{
    if s.len() > 0 {
        lemma_total_length_last(s);
        lemma_saturating_total_exact(s.drop_last());
    }
}

/// What a timeline built from a document (`from_document`) maps a position
/// of its audio to, maps back to exactly that position: for any document
/// whose audio ends within the range of file offsets, the timeline has no
/// gaps and no overlaps where metadata lies between audio payloads.
pub proof fn lemma_document_timeline_round_trip(
    document: MetadataDocument,
    timeline: MetadataAudioTimeline,
    position: int,
)
    requires
        audio_within_file_offsets(document),
        timeline.ranges@ == timeline_ranges(document),
        timeline.total_bytes == timeline_total(document),
        0 <= position < timeline.total_bytes,
    ensures
        timeline_offset_of(timeline, position) matches Some(o) && o < u64::MAX && timeline_span_of(
            timeline,
            SourceRange { offset: o as u64, length: 1 },
        ) == Some((position, position + 1)),
{
    let ranges = timeline.ranges@;
    match document.audio_mapping {
        Some(m) if m.data_length > 0 => {
            let r = SourceRange { offset: m.data_offset, length: m.data_length };
            assert(ranges == seq![r]);
            assert(ranges.drop_first() =~= Seq::<SourceRange>::empty());
            assert(timeline_plain(ranges.drop_first(), m.data_length as int));
            assert(timeline_plain(ranges, 0));
            assert(total_length(ranges.drop_first()) == 0);
        },
        _ => {
            let a = audio_payload_ranges(document.nodes@);
            lemma_payload_ranges_whole(document.nodes@);
            lemma_sorted_whole(a);
            lemma_sorted_by_offset(a);
            lemma_merge_whole(sorted_by_offset(a));
            lemma_merge_all(sorted_by_offset(a));
            lemma_separated_plain(ranges, 0);
            lemma_plain_total(ranges, 0);
            lemma_saturating_total_exact(ranges);
        },
    }
    lemma_timeline_position_round_trip(timeline, position);
}

/// `(first, last)` of a prefix joined with `(first, last)` of what follows.
pub open spec fn join_span(done: (Option<int>, Option<int>), rest: (Option<int>, Option<int>)) -> (Option<int>, Option<int>) {
    (
        match done.0 {
            Some(a) => Some(a),
            None => rest.0,
        },
        match rest.1 {
            Some(b) => Some(b),
            None => done.1,
        },
    )
}

impl MetadataAudioTimeline {
    /// Where in the audio a file range lies, as timeline positions
    /// `[first, last)` (divide by `total_bytes` for waveform fractions);
    /// nothing for an empty range, an empty timeline, or a range without
    /// audio.
    pub fn timeline_span(&self, file_range: SourceRange) -> (span: Option<(u64, u64)>)
        ensures
            match span {
                Some((a, b)) => timeline_span_of(*self, file_range) == Some((a as int, b as int)),
                None => timeline_span_of(*self, file_range) is None,
            },
    {
        if self.total_bytes == 0 || file_range.length == 0 {
            return None;
        }
        let file_end = file_range.offset.saturating_add(file_range.length);
        let mut cumulative: u64 = 0;
        let mut first: Option<u64> = None;
        let mut last: Option<u64> = None;
        let mut i: usize = 0;
        assert(self.ranges@.skip(0) =~= self.ranges@);
        while i < self.ranges.len()
            invariant
                i <= self.ranges@.len(),
                file_end == range_end(file_range),
                span_from(self.ranges@, file_range, 0) == join_span(
                    (
                        match first { Some(a) => Some(a as int), None => None },
                        match last { Some(b) => Some(b as int), None => None },
                    ),
                    span_from(self.ranges@.skip(i as int), file_range, cumulative as int),
                ),
            decreases self.ranges@.len() - i,
        {
            let audio = self.ranges[i];
            proof {
                assert(self.ranges@.skip(i as int)[0] == audio);
                assert(self.ranges@.skip(i as int).drop_first() =~= self.ranges@.skip(i + 1));
            }
            let audio_end = audio.offset.saturating_add(audio.length);
            let start = if file_range.offset >= audio.offset { file_range.offset } else { audio.offset };
            let end = if file_end <= audio_end { file_end } else { audio_end };
            if start < end {
                let timeline_start = cumulative.saturating_add(start - audio.offset);
                let timeline_end = cumulative.saturating_add(end - audio.offset);
                if first.is_none() {
                    first = Some(timeline_start);
                }
                last = Some(timeline_end);
            }
            cumulative = cumulative.saturating_add(audio.length);
            i = i + 1;
        }
        proof {
            assert(self.ranges@.skip(i as int).len() == 0);
        }
        match (first, last) {
            (Some(a), Some(b)) => Some((a, b)),
            _ => None,
        }
    }

    /// The file offset of a timeline position (positions past the end name
    /// the last audio byte); nothing for an empty timeline.
    pub fn timeline_offset(&self, position: u64) -> (offset: Option<u64>)
        ensures
            match offset {
                Some(o) => timeline_offset_of(*self, position as int) == Some(o as int),
                None => timeline_offset_of(*self, position as int) is None,
            },
    {
        if self.total_bytes == 0 {
            return None;
        }
        let target = if position < self.total_bytes - 1 { position } else { self.total_bytes - 1 };
        let mut cumulative: u64 = 0;
        let mut i: usize = 0;
        assert(self.ranges@.skip(0) =~= self.ranges@);
        while i < self.ranges.len()
            invariant
                i <= self.ranges@.len(),
                timeline_offset_of(*self, position as int) == offset_from(self.ranges@.skip(i as int), target as int, cumulative as int),
            decreases self.ranges@.len() - i,
        {
            let range = self.ranges[i];
            proof {
                assert(self.ranges@.skip(i as int)[0] == range);
                assert(self.ranges@.skip(i as int).drop_first() =~= self.ranges@.skip(i + 1));
            }
            let next = cumulative.saturating_add(range.length);
            if target < next {
                let d = target.saturating_sub(cumulative);
                return range.offset.checked_add(d);
            }
            cumulative = next;
            i = i + 1;
        }
        None
    }
}

// ---------------------------------------------------------------------
// Node presentation
// ---------------------------------------------------------------------

/// How the hex view shows a byte in its text column: printable ASCII
/// (graphic characters and the space) as itself, anything else as `.`.
pub open spec fn spec_printable_ascii(byte: u8) -> char {
    if 0x20 <= byte <= 0x7e {
        byte as char
    } else {
        '.'
    }
}

/// The character the hex view's text column shows for a byte.
pub fn printable_ascii(byte: u8) -> (c: char)
    ensures
        c == spec_printable_ascii(byte),
{
    if 0x21 <= byte && byte <= 0x7e || byte == 0x20 {
        byte as char
    } else {
        '.'
    }
}

/// The caption of a node's value card.
pub open spec fn preview_label(content: ContentKind) -> Seq<char> {
    match content {
        ContentKind::Container => "CONTAINER"@,
        ContentKind::Audio => "AUDIO DATA"@,
        ContentKind::Xml => "XML"@,
        ContentKind::Text => "TEXT"@,
        ContentKind::Binary => "BINARY"@,
        ContentKind::Image => "ARTWORK"@,
        ContentKind::Padding => "PADDING"@,
    }
}

/// The caption of a node's value card.
pub fn metadata_preview_label(node: &MetadataNode) -> (label: &'static str)
    ensures
        label@ == preview_label(node.content),
{
    match node.content {
        ContentKind::Container => "CONTAINER",
        ContentKind::Audio => "AUDIO DATA",
        ContentKind::Xml => "XML",
        ContentKind::Text => "TEXT",
        ContentKind::Binary => "BINARY",
        ContentKind::Image => "ARTWORK",
        ContentKind::Padding => "PADDING",
    }
}

/// The longest preview, in characters, before it is cut off with `…`.
pub const PREVIEW_MAX_CHARS: usize = 160;

/// A node's summary, or nothing.
pub open spec fn summary_text(node: MetadataNode) -> Seq<char> {
    match node.summary {
        Some(s) => s@,
        None => Seq::empty(),
    }
}

/// The one-line value a node's card shows: its summary with every run of
/// white space made one space, cut to 160 characters (marked by `…`); for
/// a node without a summary, the size and offset of its payload.
pub open spec fn preview_value(node: MetadataNode) -> Seq<char> {
    let value = trim(summary_text(node));
    if value.len() == 0 {
        decimal(node.payload.length as nat) + " bytes · offset 0x"@ + hex_upper(
            node.payload.file_offset as nat,
        )
    } else {
        let flat = join_with_space(words(value));
        if flat.len() > PREVIEW_MAX_CHARS {
            flat.take(PREVIEW_MAX_CHARS as int).push('…')
        } else {
            flat
        }
    }
}

/// The one-line value a node's card shows.
pub fn metadata_preview_value(node: &MetadataNode) -> (preview: String)
    ensures
        preview@ == preview_value(*node),
{
    let chars = match &node.summary {
        Some(s) => chars_of(s.as_str()),
        None => Vec::new(),
    };
    let e = trimmed_end(&chars, chars.len());
    let b = trimmed_start(&chars, 0, e);
    proof {
        assert(chars@.subrange(0, chars@.len() as int) =~= chars@);
        assert(chars@ == summary_text(*node));
    }
    if b == e {
        let mut text = String::new();
        push_decimal(&mut text, node.payload.length);
        text.append(" bytes · offset 0x");
        push_hex_upper(&mut text, node.payload.file_offset);
        return text;
    }
    let flat = join_words(&chars, b, e);
    let mut preview = String::new();
    if flat.len() > PREVIEW_MAX_CHARS {
        push_chars(&mut preview, &flat, 0, PREVIEW_MAX_CHARS);
        push_char(&mut preview, '…');
        proof {
            assert(flat@.subrange(0, PREVIEW_MAX_CHARS as int) =~= flat@.take(PREVIEW_MAX_CHARS as int));
        }
    } else {
        push_chars(&mut preview, &flat, 0, flat.len());
        proof {
            assert(flat@.subrange(0, flat@.len() as int) =~= flat@);
        }
    }
    preview
}

/// The detail tab a node opens on.
pub open spec fn spec_preferred_detail_tab(node: MetadataNode) -> MetadataDetailTab {
    match node.content {
        ContentKind::Audio => MetadataDetailTab::Waveform,
        ContentKind::Text | ContentKind::Xml => MetadataDetailTab::Text,
        ContentKind::Image => MetadataDetailTab::Decoded,
        ContentKind::Binary => MetadataDetailTab::Hex,
        _ => if node.summary is Some {
            MetadataDetailTab::Decoded
        } else {
            MetadataDetailTab::Properties
        },
    }
}

/// The detail tab a node opens on.
pub fn preferred_detail_tab(node: &MetadataNode) -> (tab: MetadataDetailTab)
    ensures
        tab == spec_preferred_detail_tab(*node),
{
    match node.content {
        ContentKind::Audio => MetadataDetailTab::Waveform,
        ContentKind::Text | ContentKind::Xml => MetadataDetailTab::Text,
        ContentKind::Image => MetadataDetailTab::Decoded,
        ContentKind::Binary => MetadataDetailTab::Hex,
        _ => if node.summary.is_some() {
            MetadataDetailTab::Decoded
        } else {
            MetadataDetailTab::Properties
        },
    }
}

/// The bytes of `range`, if the page holds all of them. Offsets are turned
/// into positions in the page with `as usize`, as the inspector does.
pub open spec fn page_slice(page: MetadataHexPage, range: SourceRange) -> Option<Seq<u8>> {
    if range.offset < page.start {
        None
    } else {
        let start = ((range.offset - page.start) as u64) as usize;
        let len = range.length as usize;
        if start + len > usize::MAX {
            None
        } else if start + len > page.bytes@.len() {
            None
        } else {
            Some(page.bytes@.subrange(start as int, start + len))
        }
    }
}

/// The bytes of `range` out of a hex page, if the page holds all of them.
pub fn bytes_for_range(page: &MetadataHexPage, range: SourceRange) -> (bytes: Option<Vec<u8>>)
    ensures
        match bytes {
            Some(b) => page_slice(*page, range) == Some(b@),
            None => page_slice(*page, range) is None,
        },
{
    let start = match range.offset.checked_sub(page.start) {
        Some(d) => d as usize,
        None => return None,
    };
    let end = match start.checked_add(range.length as usize) {
        Some(e) => e,
        None => return None,
    };
    if end > page.bytes.len() {
        return None;
    }
    let mut out: Vec<u8> = Vec::new();
    let mut i = start;
    while i < end
        invariant
            start <= i <= end <= page.bytes@.len(),
            out@ == page.bytes@.subrange(start as int, i as int),
        decreases end - i,
    {
        out.push(page.bytes[i]);
        assert(page.bytes@.subrange(start as int, i + 1) == page.bytes@.subrange(start as int, i as int).push(page.bytes@[i as int]));
        i = i + 1;
    }
    Some(out)
}

/// A node the structure list leaves out: the `fmt ` chunk of a RIFF-style
/// file, whose content the inspector shows elsewhere.
pub open spec fn hidden_in_structure(container: ContainerKind, node: MetadataNode) -> bool {
    (container == ContainerKind::RiffWave || container == ContainerKind::Rf64 || container
        == ContainerKind::Bw64) && trim_end(node.name@) == "fmt"@
}

/// Whether the structure list leaves a node out.
pub fn metadata_node_hidden_in_structure(container: ContainerKind, node: &MetadataNode) -> (hidden: bool)
    ensures
        hidden == hidden_in_structure(container, *node),
{
    if !(container == ContainerKind::RiffWave || container == ContainerKind::Rf64 || container
        == ContainerKind::Bw64) {
        return false;
    }
    let chars = chars_of(node.name.as_str());
    let e = trimmed_end(&chars, chars.len());
    proof {
        assert(chars@.subrange(0, chars@.len() as int) =~= chars@);
    }
    let trimmed = crate::text::string_from_chars(&chars, 0, e);
    let r = crate::text::str_eq(trimmed.as_str(), "fmt");
    r
}

/// The node with this id, if there is one.
pub open spec fn node_at(document: MetadataDocument, id: int) -> Option<MetadataNode> {
    if 0 <= id < document.nodes@.len() {
        Some(document.nodes@[id])
    } else {
        None
    }
}

/// The walk from a node up through its parents stops within `fuel` steps:
/// at a missing node, at a node the structure list shows, or at a root.
pub open spec fn structure_walk_ends(document: MetadataDocument, id: int, fuel: nat) -> bool
    decreases fuel,
{
    fuel > 0 && match node_at(document, id) {
        None => true,
        Some(node) => !hidden_in_structure(document.container, node) || match node.parent {
            None => true,
            Some(parent) => structure_walk_ends(document, parent as int, (fuel - 1) as nat),
        },
    }
}

/// Where the walk from a node up through its parents stops: the first node
/// on the way that the structure list shows.
pub open spec fn structure_target(document: MetadataDocument, id: int, fuel: nat) -> Option<usize>
    decreases fuel,
{
    if fuel == 0 {
        None
    } else {
        match node_at(document, id) {
            None => None,
            Some(node) => if !hidden_in_structure(document.container, node) {
                Some(id as usize)
            } else {
                match node.parent {
                    None => None,
                    Some(parent) => structure_target(document, parent as int, (fuel - 1) as nat),
                }
            },
        }
    }
}

/// The node the structure list should select for `node_id`: the node
/// itself, or the nearest ancestor the list shows when it is hidden.
/// The walk must come to an end: on a parent cycle of hidden nodes it
/// would not.
pub fn visible_metadata_structure_target(document: &MetadataDocument, node_id: usize) -> (target: Option<usize>)
    requires
        structure_walk_ends(*document, node_id as int, (document.nodes@.len() + 1) as nat),
    ensures
        target == structure_target(*document, node_id as int, (document.nodes@.len() + 1) as nat),
{
    let ghost fuel0: nat = (document.nodes@.len() + 1) as nat;
    let ghost mut fuel: nat = fuel0;
    let mut id = node_id;
    loop
        invariant
            fuel0 == (document.nodes@.len() + 1) as nat,
            structure_walk_ends(*document, id as int, fuel),
            structure_target(*document, node_id as int, fuel0) == structure_target(*document, id as int, fuel),
        decreases fuel,
    {
        if id >= document.nodes.len() {
            return None;
        }
        let node = &document.nodes[id];
        if !metadata_node_hidden_in_structure(document.container, node) {
            return Some(id);
        }
        match node.parent {
            None => return None,
            Some(parent) => {
                id = parent;
                proof {
                    fuel = (fuel - 1) as nat;
                }
            },
        }
    }
}


/// Whether the walk from node `node_id` up through its parents comes to
/// an end (see `structure_walk_ends`): it does not on a parent cycle of
/// hidden nodes.
pub fn structure_walk_ending(document: &MetadataDocument, node_id: usize) -> (ends: bool)
    ensures
        ends == structure_walk_ends(*document, node_id as int, (document.nodes@.len() + 1) as nat),
{
    let ghost fuel0: nat = (document.nodes@.len() + 1) as nat;
    let mut fuel: u128 = document.nodes.len() as u128 + 1;
    let mut id = node_id;
    loop
        invariant
            fuel0 == (document.nodes@.len() + 1) as nat,
            structure_walk_ends(*document, node_id as int, fuel0) == structure_walk_ends(
                *document,
                id as int,
                fuel as nat,
            ),
        decreases fuel,
    {
        if fuel == 0 {
            return false;
        }
        if id >= document.nodes.len() {
            return true;
        }
        let node = &document.nodes[id];
        if !metadata_node_hidden_in_structure(document.container, node) {
            return true;
        }
        match node.parent {
            None => return true,
            Some(parent) => {
                id = parent;
                fuel = fuel - 1;
            },
        }
    }
}

/// The most characters a text node's preview shows.
pub const TEXT_PREVIEW_MAX_CHARS: usize = 512;

/// The preview of a text summary in the structure list: its first three
/// lines, joined, cut to 512 characters.
pub open spec fn text_preview_of(summary: Seq<char>) -> Seq<char> {
    let ls = lines_of(summary);
    let joined = join_lines(if ls.len() > 3 { ls.take(3) } else { ls });
    if joined.len() > TEXT_PREVIEW_MAX_CHARS {
        joined.take(TEXT_PREVIEW_MAX_CHARS as int)
    } else {
        joined
    }
}

/// The preview a node shows when opened in the structure list: for a text
/// node with a summary, the summary's first lines; nothing otherwise.
pub fn node_text_preview(node: &MetadataNode) -> (preview: Option<String>)
    ensures
        match preview {
            Some(p) => node.content == ContentKind::Text && node.summary is Some && p@ == text_preview_of(
                node.summary->0@,
            ),
            None => !(node.content == ContentKind::Text && node.summary is Some),
        },
{
    if node.content != ContentKind::Text {
        return None;
    }
    let summary = match &node.summary {
        Some(s) => s,
        None => return None,
    };
    let chars = chars_of(summary.as_str());
    let ls = lines(&chars);
    let ghost views = ls@.map_values(|l: Vec<char>| l@);
    let count = if ls.len() > 3 { 3 } else { ls.len() };
    let ghost kept = if views.len() > 3 { views.take(3) } else { views };
    let mut joined: Vec<char> = Vec::new();
    let mut k: usize = 0;
    while k < count
        invariant
            k <= count <= ls@.len(),
            count == kept.len(),
            views == ls@.map_values(|l: Vec<char>| l@),
            kept == if views.len() > 3 { views.take(3) } else { views },
            joined@ == join_lines(kept.take(k as int)),
        decreases count - k,
    {
        proof {
            assert(kept.take(k + 1).drop_last() =~= kept.take(k as int));
            assert(kept.take(k + 1).last() == ls@[k as int]@);
        }
        if k > 0 {
            joined.push('\n');
        }
        let line = &ls[k];
        let mut i: usize = 0;
        let ghost before = joined@;
        while i < line.len()
            invariant
                i <= line@.len(),
                joined@ == before + line@.take(i as int),
            decreases line@.len() - i,
        {
            joined.push(line[i]);
            assert(line@.take(i + 1) =~= line@.take(i as int).push(line@[i as int]));
            i = i + 1;
        }
        proof {
            assert(line@.take(i as int) =~= line@);
            if k == 0 {
                assert(kept.take(1) =~= seq![line@]);
                assert(joined@ =~= line@);
            } else {
                assert(joined@ =~= join_lines(kept.take(k as int)) + seq!['\n'] + line@);
            }
        }
        k = k + 1;
    }
    assert(kept.take(count as int) =~= kept);
    let end = if joined.len() > TEXT_PREVIEW_MAX_CHARS { TEXT_PREVIEW_MAX_CHARS } else { joined.len() };
    proof {
        assert(joined@.subrange(0, end as int) =~= text_preview_of(summary@));
    }
    Some(string_from_chars(&joined, 0, end))
}

// ---------------------------------------------------------------------
// The inspector's tab state
// ---------------------------------------------------------------------

/// The inspector's state for a tab as it is before anything was inspected.
pub open spec fn metadata_cleared(m: MetadataTabState) -> bool {
    &&& m.document is None
    &&& !m.loading
    &&& m.error is None
    &&& !m.scan_pending
    &&& m.selected_node is None
    &&& m.detail_tab == MetadataDetailTab::Properties
    &&& m.text_encoding == 0
    &&& m.hex_selection is None
    &&& m.hex_scroll_target is None
    &&& m.hex_page is None
    &&& m.hex_pages@.len() == 0
    &&& m.hex_page_requested is None
    &&& !m.hex_page_pending
    &&& m.search_results@.len() == 0
    &&& m.action_status is None
    &&& !m.action_pending
    &&& !m.action_cancel_armed
    &&& m.action_progress is None
    &&& m.action_total == 0
    &&& m.artwork_requested is None
    &&& !m.artwork_pending
    &&& m.artwork_shown is None
}

/// `after` is `before` with only its inspector state replaced.
pub open spec fn only_metadata_changed(before: EditorTab, after: EditorTab) -> bool {
    &&& after.path == before.path
    &&& after.buffer_sample_rate == before.buffer_sample_rate
    &&& after.selection == before.selection
    &&& after.samples_len == before.samples_len
    &&& after.preview_offset_samples == before.preview_offset_samples
    &&& after.regions == before.regions
    &&& after.dirty == before.dirty
    &&& after.loop_markers_dirty == before.loop_markers_dirty
    &&& after.markers_dirty == before.markers_dirty
    &&& after.undo_stack == before.undo_stack
    &&& after.redo_stack == before.redo_stack
}

// ---------------------------------------------------------------------
// The file a tab's metadata is read from
// ---------------------------------------------------------------------

/// How many virtual items the search for a tab's source file goes through.
pub const VIRTUAL_SOURCE_MAX_HOPS: usize = 16;

/// The file-presence cache does not know `path` to be missing.
pub open spec fn path_present(app: WavesPreviewer, path: Seq<char>) -> bool {
    !(exists|k: int| 0 <= k < app.missing_paths@.len() && #[trigger] app.missing_paths@[k]@ == path)
}

/// `path` is the path of a virtual item of the list.
pub open spec fn path_is_virtual(app: WavesPreviewer, path: Seq<char>) -> bool {
    match row_of_path(app, path) {
        Some(row) => app.files@[row as int].source == MediaSource::Virtual,
        None => false,
    }
}

/// The file a virtual item at `path` was rendered from, following at most
/// `hops` virtual items: found only when it is a file that is present.
pub open spec fn virtual_origin(app: WavesPreviewer, path: Seq<char>, hops: nat) -> Option<Seq<char>>
    decreases hops,
{
    if hops == 0 {
        None
    } else {
        match row_of_path(app, path) {
            None => None,
            Some(row) => match app.files@[row as int].virtual_source {
                None => None,
                Some(VirtualSourceRef::FilePath(p)) => if path_present(app, p@) {
                    Some(p@)
                } else {
                    None
                },
                Some(VirtualSourceRef::VirtualPath(p)) => virtual_origin(app, p@, (hops - 1) as nat),
                Some(VirtualSourceRef::Sidecar(_)) => None,
            },
        }
    }
}

/// The file whose metadata a tab shows, and whether it was reached through
/// virtual items: the tab's own file when it is one and present; for a
/// virtual tab, the file it was rendered from.
pub open spec fn metadata_source(app: WavesPreviewer, tab_idx: int) -> Option<(Seq<char>, bool)> {
    if tab_idx < 0 || tab_idx >= app.tabs@.len() {
        None
    } else {
        let path = app.tabs@[tab_idx].path@;
        if !path_is_virtual(app, path) {
            if path_present(app, path) {
                Some((path, false))
            } else {
                None
            }
        } else {
            match virtual_origin(app, path, VIRTUAL_SOURCE_MAX_HOPS as nat) {
                Some(p) => Some((p, true)),
                None => None,
            }
        }
    }
}

impl WavesPreviewer {
    /// Whether the file-presence cache does not know `path` to be missing.
    pub fn path_is_file_cached(&self, path: &str) -> (present: bool)
        ensures
            present == path_present(*self, path@),
    {
        let mut k: usize = 0;
        while k < self.missing_paths.len()
            invariant
                k <= self.missing_paths@.len(),
                forall|j: int| 0 <= j < k ==> #[trigger] self.missing_paths@[j]@ != path@,
            decreases self.missing_paths@.len() - k,
        {
            if crate::text::str_eq(self.missing_paths[k].as_str(), path) {
                return false;
            }
            k = k + 1;
        }
        true
    }

    /// Whether `path` is the path of a virtual item of the list.
    pub fn is_virtual_path(&self, path: &str) -> (virtual_item: bool)
        ensures
            virtual_item == path_is_virtual(*self, path@),
    {
        proof {
            crate::list::lemma_row_of_path(*self, path@);
        }
        match self.row_for_path(path) {
            Some(row) => self.files[row].source == MediaSource::Virtual,
            None => false,
        }
    }

    /// The file whose metadata tab `tab_idx` shows, and whether it was
    /// reached through virtual items.
    pub fn metadata_source_for_tab(&self, tab_idx: usize) -> (source: Option<(String, bool)>)
        ensures
            match source {
                Some((p, via)) => metadata_source(*self, tab_idx as int) == Some((p@, via)),
                None => metadata_source(*self, tab_idx as int) is None,
            },
    {
        if tab_idx >= self.tabs.len() {
            return None;
        }
        let tab_path = self.tabs[tab_idx].path.clone();
        if !self.is_virtual_path(tab_path.as_str()) {
            if self.path_is_file_cached(tab_path.as_str()) {
                return Some((tab_path, false));
            }
            return None;
        }
        match self.follow_virtual_source(&tab_path) {
            Some(p) => Some((p, true)),
            None => None,
        }
    }

    /// The file a virtual item at `path` was rendered from, if it is
    /// reached within 16 virtual items and is present.
    pub fn follow_virtual_source(&self, path: &String) -> (origin: Option<String>)
        ensures
            match origin {
                Some(p) => virtual_origin(*self, path@, VIRTUAL_SOURCE_MAX_HOPS as nat) == Some(p@),
                None => virtual_origin(*self, path@, VIRTUAL_SOURCE_MAX_HOPS as nat) is None,
            },
    {
        let ghost goal = virtual_origin(*self, path@, VIRTUAL_SOURCE_MAX_HOPS as nat);
        let mut current = path.clone();
        let mut hops: usize = 0;
        while hops < VIRTUAL_SOURCE_MAX_HOPS
            invariant
                hops <= VIRTUAL_SOURCE_MAX_HOPS,
                goal == virtual_origin(*self, path@, VIRTUAL_SOURCE_MAX_HOPS as nat),
                goal == virtual_origin(*self, current@, (VIRTUAL_SOURCE_MAX_HOPS - hops) as nat),
            decreases VIRTUAL_SOURCE_MAX_HOPS - hops,
        {
            proof {
                crate::list::lemma_row_of_path(*self, current@);
            }
            let row = match self.row_for_path(current.as_str()) {
                Some(r) => r,
                None => return None,
            };
            match &self.files[row].virtual_source {
                None => return None,
                Some(VirtualSourceRef::FilePath(p)) => {
                    if self.path_is_file_cached(p.as_str()) {
                        return Some(p.clone());
                    }
                    return None;
                },
                Some(VirtualSourceRef::VirtualPath(p)) => {
                    current = p.clone();
                },
                Some(VirtualSourceRef::Sidecar(_)) => return None,
            }
            hops = hops + 1;
        }
        None
    }

    /// Forgets everything the inspector knew about tab `tab_idx`: its
    /// document, selection, hex pages, searches, actions and artwork.
    /// Returns whether a running action was told to stop.
    pub fn reset_metadata_tab(&mut self, tab_idx: usize) -> (cancelled: bool)
        requires
            tab_idx < old(self).tabs@.len(),
        ensures
            cancelled == old(self).tabs@[tab_idx as int].metadata.action_cancel_armed,
            metadata_cleared(final(self).tabs@[tab_idx as int].metadata),
            only_metadata_changed(old(self).tabs@[tab_idx as int], final(self).tabs@[tab_idx as int]),
            only_tab_changed(*old(self), *final(self), tab_idx as int),
    {
        let m = &mut self.tabs[tab_idx].metadata;
        let cancelled = m.action_cancel_armed;
        m.document = None;
        m.loading = false;
        m.error = None;
        m.scan_pending = false;
        m.selected_node = None;
        m.detail_tab = MetadataDetailTab::Properties;
        m.text_encoding = 0;
        m.hex_selection = None;
        m.hex_scroll_target = None;
        m.hex_page = None;
        m.hex_pages.clear();
        m.hex_page_requested = None;
        m.hex_page_pending = false;
        m.search_results.clear();
        m.action_status = None;
        m.action_pending = false;
        m.action_cancel_armed = false;
        m.action_progress = None;
        m.action_total = 0;
        m.artwork_requested = None;
        m.artwork_pending = false;
        m.artwork_shown = None;
        cancelled
    }
}


/// What selecting `selected` in the structure list does to the inspector:
/// the selection changes; a newly selected node that exists opens on its
/// preferred detail tab, with the text decoded as UTF-8 again and the hex
/// view at the start of its payload.
pub open spec fn structure_selection_outcome(
    before: MetadataTabState,
    after: MetadataTabState,
    document: MetadataDocument,
    selected: Option<usize>,
) -> bool {
    &&& after.selected_node == selected
    &&& if selected != before.selected_node && selected is Some && node_at(document, selected->0 as int) is Some {
        let node = node_at(document, selected->0 as int)->0;
        &&& after.detail_tab == spec_preferred_detail_tab(node)
        &&& after.text_encoding == 0
        &&& after.hex_offset == node.payload.file_offset
    } else {
        &&& after.detail_tab == before.detail_tab
        &&& after.text_encoding == before.text_encoding
        &&& after.hex_offset == before.hex_offset
    }
    &&& after.document == before.document
    &&& after.loading == before.loading
    &&& after.error == before.error
    &&& after.scan_pending == before.scan_pending
    &&& after.hex_selection == before.hex_selection
    &&& after.hex_scroll_target == before.hex_scroll_target
    &&& after.follow_playback == before.follow_playback
    &&& after.show_structure == before.show_structure
    &&& after.hex_page == before.hex_page
    &&& after.hex_pages == before.hex_pages
    &&& after.hex_page_requested == before.hex_page_requested
    &&& after.hex_page_pending == before.hex_page_pending
    &&& after.search_results == before.search_results
    &&& after.action_status == before.action_status
    &&& after.action_pending == before.action_pending
    &&& after.action_cancel_armed == before.action_cancel_armed
    &&& after.action_progress == before.action_progress
    &&& after.action_total == before.action_total
    &&& after.artwork_requested == before.artwork_requested
    &&& after.artwork_pending == before.artwork_pending
    &&& after.artwork_shown == before.artwork_shown
}

impl MetadataTabState {
    /// The structure list's selection became `selected`.
    pub fn select_structure_node(&mut self, document: &MetadataDocument, selected: Option<usize>)
        ensures
            structure_selection_outcome(*old(self), *final(self), *document, selected),
    {
        let changed = match (selected, self.selected_node) {
            (Some(a), Some(b)) => a != b,
            (None, None) => false,
            _ => true,
        };
        if changed {
            if let Some(id) = selected {
                if id < document.nodes.len() {
                    let node = &document.nodes[id];
                    self.detail_tab = preferred_detail_tab(node);
                    self.text_encoding = 0;
                    self.hex_offset = node.payload.file_offset;
                }
            }
        }
        self.selected_node = selected;
    }
}

impl WavesPreviewer {
    /// Tab `tab_idx`'s structure list selected `selected`; returns, for a
    /// node that exists, the offset whose hex page its details show and
    /// whether it holds artwork to preview.
    pub fn select_metadata_structure_node(
        &mut self,
        tab_idx: usize,
        document: &MetadataDocument,
        selected: Option<usize>,
    ) -> (shown: Option<(u64, bool)>)
        requires
            tab_idx < old(self).tabs@.len(),
        ensures
            structure_selection_outcome(
                old(self).tabs@[tab_idx as int].metadata,
                final(self).tabs@[tab_idx as int].metadata,
                *document,
                selected,
            ),
            shown == match selected {
                Some(id) => match node_at(*document, id as int) {
                    Some(node) => Some((node.payload.file_offset, node.content == ContentKind::Image)),
                    None => None,
                },
                None => None,
            },
            only_metadata_changed(old(self).tabs@[tab_idx as int], final(self).tabs@[tab_idx as int]),
            only_tab_changed(*old(self), *final(self), tab_idx as int),
    {
        self.tabs[tab_idx].metadata.select_structure_node(document, selected);
        match selected {
            Some(id) => if id < document.nodes.len() {
                let node = &document.nodes[id];
                Some((node.payload.file_offset, node.content == ContentKind::Image))
            } else {
                None
            },
            None => None,
        }
    }
}

} // verus!

verus! {

/// How many whole frames (of `block_align` bytes, every channel of one
/// sample time) the PCM data holds.
pub open spec fn pcm_frame_count(mapping: AudioByteMapping) -> nat {
    if mapping.block_align == 0 {
        0
    } else {
        (mapping.data_length / (mapping.block_align as u64)) as nat
    }
}

/// The bytes of frame `frame` of the PCM data: `block_align` bytes from
/// `data_offset + frame * block_align`; none past the last frame or past
/// the last `u64` offset.
pub open spec fn pcm_frame_range(mapping: AudioByteMapping, frame: nat) -> Option<SourceRange> {
    let offset = mapping.data_offset + frame * mapping.block_align;
    if frame < pcm_frame_count(mapping) && offset <= u64::MAX {
        Some(SourceRange { offset: offset as u64, length: mapping.block_align as u64 })
    } else {
        None
    }
}

/// The number of whole frames of the PCM data.
pub fn audio_frame_count(mapping: &AudioByteMapping) -> (count: u64)
    ensures
        count == pcm_frame_count(*mapping),
{
    if mapping.block_align == 0 {
        0
    } else {
        mapping.data_length / (mapping.block_align as u64)
    }
}

/// The bytes of frame `frame` of the PCM data (see `pcm_frame_range`).
pub fn audio_frame_range(mapping: &AudioByteMapping, frame: u64) -> (range: Option<SourceRange>)
    ensures
        range == pcm_frame_range(*mapping, frame as nat),
{
    let count = audio_frame_count(mapping);
    if frame >= count {
        return None;
    }
    let f: u128 = frame as u128;
    let b: u128 = mapping.block_align as u128;
    assert(f * b <= 0xffff_ffff_ffff_ffff * 0xffff_ffffu128) by (nonlinear_arith)
        requires
            f <= 0xffff_ffff_ffff_ffff,
            b <= 0xffff_ffff,
    ;
    let step = f * b;
    let offset = (mapping.data_offset as u128) + step;
    if offset > u64::MAX as u128 {
        return None;
    }
    Some(SourceRange { offset: offset as u64, length: mapping.block_align as u64 })
}

/// The bytes a point of the waveform stands for. With PCM data: the whole
/// frame the point falls in, `frame` clamped to the last frame (none
/// without frames). Otherwise: the one byte at timeline position
/// `position`.
pub open spec fn audio_range_at(
    document: MetadataDocument,
    timeline: MetadataAudioTimeline,
    frame: nat,
    position: int,
) -> Option<SourceRange> {
    match document.audio_mapping {
        Some(mapping) => {
            let count = pcm_frame_count(mapping);
            if count == 0 {
                None
            } else {
                pcm_frame_range(mapping, if frame < count { frame } else { (count - 1) as nat })
            }
        },
        None => match timeline_offset_of(timeline, position) {
            Some(o) => Some(SourceRange { offset: o as u64, length: 1 }),
            None => None,
        },
    }
}

/// The bytes a point of the waveform stands for (see `audio_range_at`):
/// `frame` is the frame the point falls in, `position` its place along the
/// timeline, both worked out by the caller from the point's fraction.
pub fn metadata_audio_range_at(
    document: &MetadataDocument,
    timeline: &MetadataAudioTimeline,
    frame: u64,
    position: u64,
) -> (range: Option<SourceRange>)
    ensures
        range == audio_range_at(*document, *timeline, frame as nat, position as int),
{
    match &document.audio_mapping {
        Some(mapping) => {
            let count = audio_frame_count(mapping);
            if count == 0 {
                return None;
            }
            let clamped = if frame < count { frame } else { count - 1 };
            audio_frame_range(mapping, clamped)
        },
        None => match timeline.timeline_offset(position) {
            Some(o) => Some(SourceRange { offset: o, length: 1 }),
            None => None,
        },
    }
}

} // verus!

verus! {

/// The playing frame of tab `tab_idx`'s source and its bytes, shown live in
/// the inspector: only for PCM data, a tab that is saved, not under a
/// preview tool, not virtual, whose document describes its source file
/// (`document_matches_source`), and that is what playback plays
/// (`playing_path`); `frame` is the frame at the playback time.
pub open spec fn live_frame_range(
    app: WavesPreviewer,
    tab_idx: int,
    document: MetadataDocument,
    document_matches_source: bool,
    previewing_tool: bool,
    playing_path: Option<Seq<char>>,
    frame: nat,
) -> Option<(nat, SourceRange)> {
    match document.audio_mapping {
        None => None,
        Some(mapping) => {
            let tab = app.tabs@[tab_idx];
            if tab.dirty || previewing_tool || path_is_virtual(app, tab.path@) || !document_matches_source
                || playing_path != Some(tab.path@) {
                None
            } else {
                match pcm_frame_range(mapping, frame) {
                    Some(r) => Some((frame, r)),
                    None => None,
                }
            }
        },
    }
}

impl WavesPreviewer {
    /// The playing frame of tab `tab_idx`'s source and its bytes (see
    /// `live_frame_range`).
    pub fn metadata_live_frame_range(
        &self,
        tab_idx: usize,
        document: &MetadataDocument,
        document_matches_source: bool,
        previewing_tool: bool,
        playing_path: Option<&str>,
        frame: u64,
    ) -> (live: Option<(u64, SourceRange)>)
        requires
            tab_idx < self.tabs@.len(),
        ensures
            match live {
                Some((f, r)) => live_frame_range(
                    *self,
                    tab_idx as int,
                    *document,
                    document_matches_source,
                    previewing_tool,
                    match playing_path {
                        Some(p) => Some(p@),
                        None => None,
                    },
                    frame as nat,
                ) == Some((f as nat, r)),
                None => live_frame_range(
                    *self,
                    tab_idx as int,
                    *document,
                    document_matches_source,
                    previewing_tool,
                    match playing_path {
                        Some(p) => Some(p@),
                        None => None,
                    },
                    frame as nat,
                ) is None,
            },
    {
        let mapping = match &document.audio_mapping {
            Some(m) => m,
            None => return None,
        };
        let tab = &self.tabs[tab_idx];
        if tab.dirty || previewing_tool || self.is_virtual_path(tab.path.as_str()) || !document_matches_source {
            return None;
        }
        let playing = match playing_path {
            Some(p) => p,
            None => return None,
        };
        if !crate::text::str_eq(playing, tab.path.as_str()) {
            return None;
        }
        match audio_frame_range(mapping, frame) {
            Some(r) => Some((frame, r)),
            None => None,
        }
    }
}

} // verus!

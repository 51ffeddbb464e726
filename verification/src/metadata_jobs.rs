//! The inspector's background jobs, seen from its tab state: scanning the
//! file into a document, and the payload actions (search, hash, copy as
//! hex, extract). Starting a job marks it as running; collecting its
//! answer records what it found.
use vstd::prelude::*;

use crate::metadata::{
    metadata_cleared, metadata_source, only_metadata_changed, MetadataDocument, MetadataNode,
    MetadataTabState, PayloadRef,
};
use crate::metadata_nav::trimmed_string;
use crate::text::{chars_of, trim};
use crate::regions::{lemma_only_tab_changed_trans, only_tab_changed};
use crate::state::WavesPreviewer;
use crate::text::{decimal, hex_upper, push_char, push_decimal, push_hex_padded, push_hex_upper, zero_padded};

verus! {

/// What a finished payload action found.
pub enum MetadataActionResult {
    /// The offsets where the search matched.
    Search(Vec<u64>),
    /// The payload's SHA-256, in hex.
    Hash(String),
    /// The file the payload was written to, as it is shown.
    Extracted(String),
    /// The payload's bytes as hex text, for the clipboard.
    CopyHex(String),
}

/// Everything of the inspector's state but its scan and action fields is
/// the same in `a` and `b`.
pub open spec fn same_but_jobs(a: MetadataTabState, b: MetadataTabState) -> bool {
    &&& b.detail_tab == a.detail_tab
    &&& b.text_encoding == a.text_encoding
    &&& b.hex_selection == a.hex_selection
    &&& b.hex_scroll_target == a.hex_scroll_target
    &&& b.follow_playback == a.follow_playback
    &&& b.show_structure == a.show_structure
    &&& b.hex_page == a.hex_page
    &&& b.hex_pages == a.hex_pages
    &&& b.hex_page_requested == a.hex_page_requested
    &&& b.hex_page_pending == a.hex_page_pending
    &&& b.artwork_requested == a.artwork_requested
    &&& b.artwork_pending == a.artwork_pending
    &&& b.artwork_shown == a.artwork_shown
}

/// The scan fields of `a` and `b` are the same.
pub open spec fn same_scan(a: MetadataTabState, b: MetadataTabState) -> bool {
    &&& b.document == a.document
    &&& b.loading == a.loading
    &&& b.error == a.error
    &&& b.scan_pending == a.scan_pending
    &&& b.selected_node == a.selected_node
    &&& b.hex_offset == a.hex_offset
}

/// The action fields of `a` and `b` are the same.
pub open spec fn same_action(a: MetadataTabState, b: MetadataTabState) -> bool {
    &&& b.search_results == a.search_results
    &&& b.action_status == a.action_status
    &&& b.action_pending == a.action_pending
    &&& b.action_cancel_armed == a.action_cancel_armed
    &&& b.action_progress == a.action_progress
    &&& b.action_total == a.action_total
}

/// A scan's answer as plain values: the document's top-level nodes, or
/// the error.
pub open spec fn scan_view(result: Result<MetadataDocument, String>) -> Result<Seq<usize>, Seq<char>> {
    match result {
        Ok(document) => Ok(document.roots@),
        Err(e) => Err(e@),
    }
}

/// What collecting a scan's answer does: the scan is over; a document is
/// kept, with its first top-level node selected and the hex view at its
/// start; a failure is kept as the inspector's error.
pub open spec fn scan_receive_outcome(
    before: MetadataTabState,
    after: MetadataTabState,
    result: Result<MetadataDocument, String>,
) -> bool {
    &&& same_but_jobs(before, after)
    &&& same_action(before, after)
    &&& !after.loading
    &&& !after.scan_pending
    &&& match result {
        Ok(document) => {
            &&& after.document == Some(document)
            &&& after.selected_node == if document.roots@.len() > 0 {
                Some(document.roots@[0])
            } else {
                None::<usize>
            }
            &&& after.hex_offset == 0
            &&& after.error == before.error
        },
        Err(e) => {
            &&& after.error matches Some(m) && m@ == e@
            &&& after.document == before.document
            &&& after.selected_node == before.selected_node
            &&& after.hex_offset == before.hex_offset
        },
    }
}

/// Two hex digits of a byte, upper case.
pub open spec fn byte_hex(b: u8) -> Seq<char> {
    zero_padded(hex_upper(b as nat), 2)
}

/// Bytes as upper-case hex pairs separated by single spaces.
pub open spec fn hex_bytes_text(bytes: Seq<u8>) -> Seq<char>
    decreases bytes.len(),
{
    if bytes.len() == 0 {
        Seq::empty()
    } else if bytes.len() == 1 {
        byte_hex(bytes[0])
    } else {
        hex_bytes_text(bytes.drop_last()) + seq![' '] + byte_hex(bytes.last())
    }
}

/// The status line for a finished action, and the text it puts on the
/// clipboard.
pub open spec fn action_answer(result: Result<MetadataActionResult, String>) -> (Seq<char>, Option<Seq<char>>) {
    match result {
        Ok(MetadataActionResult::Search(offsets)) => (decimal(offsets@.len()) + " matches"@, None),
        Ok(MetadataActionResult::Hash(value)) => ("SHA-256: "@ + value@, None),
        Ok(MetadataActionResult::Extracted(path)) => ("Extracted to "@ + path@, None),
        Ok(MetadataActionResult::CopyHex(value)) => ("Copied hex bytes"@, Some(value@)),
        Err(e) => ("Error: "@ + e@, None),
    }
}

/// What collecting an action's answer does: nothing runs any more; the
/// status tells what was found; a search's matches are kept.
pub open spec fn action_receive_outcome(
    before: MetadataTabState,
    after: MetadataTabState,
    result: Result<MetadataActionResult, String>,
    clipboard: Option<Seq<char>>,
) -> bool {
    &&& same_but_jobs(before, after)
    &&& same_scan(before, after)
    &&& !after.action_pending
    &&& !after.action_cancel_armed
    &&& after.action_progress is None
    &&& after.action_total == 0
    &&& after.action_status matches Some(s) && s@ == action_answer(result).0
    &&& clipboard == action_answer(result).1
    &&& after.search_results@ == match result {
        Ok(MetadataActionResult::Search(offsets)) => offsets@,
        _ => before.search_results@,
    }
}

/// What starting an action on a payload of `payload_length` bytes does:
/// nothing while one runs; else it runs, can be cancelled, has made no
/// progress of `payload_length` bytes, and the status says so.
pub open spec fn action_start_outcome(
    before: MetadataTabState,
    after: MetadataTabState,
    payload_length: u64,
    started: bool,
) -> bool {
    &&& started == !before.action_pending
    &&& same_but_jobs(before, after)
    &&& same_scan(before, after)
    &&& !started ==> same_action(before, after)
    &&& started ==> {
        &&& after.action_pending
        &&& after.action_cancel_armed
        &&& after.action_progress == Some(0u64)
        &&& after.action_total == payload_length
        &&& after.action_status matches Some(s) && s@ == "Working..."@
        &&& after.search_results == before.search_results
    }
}

/// Payload actions run one at a time: while one runs, starting another
/// does nothing.
pub proof fn lemma_one_action_at_a_time(
    before: MetadataTabState,
    mid: MetadataTabState,
    after: MetadataTabState,
    first_length: u64,
    second_length: u64,
    first: bool,
    second: bool,
)
    requires
        action_start_outcome(before, mid, first_length, first),
        action_start_outcome(mid, after, second_length, second),
    ensures
        !second,
        after.action_total == mid.action_total,
{
}

/// The hex text of `bytes` that "copy as hex" puts on the clipboard.
pub fn copy_hex_text(bytes: &[u8]) -> (text: String)
    ensures
        text@ == hex_bytes_text(bytes@),
{
    let mut text = String::new();
    let mut k: usize = 0;
    while k < bytes.len()
        invariant
            k <= bytes@.len(),
            text@ == hex_bytes_text(bytes@.take(k as int)),
        decreases bytes@.len() - k,
    {
        proof {
            assert(bytes@.take(k + 1).drop_last() =~= bytes@.take(k as int));
            assert(bytes@.take(k + 1).last() == bytes@[k as int]);
        }
        if k > 0 {
            push_char(&mut text, ' ');
        } else {
            assert(bytes@.take(0) =~= Seq::<u8>::empty());
            assert(text@ =~= Seq::<char>::empty());
        }
        push_hex_padded(&mut text, bytes[k] as u64, 2);
        proof {
            if k == 0 {
                assert(text@ =~= byte_hex(bytes@[0]));
                assert(bytes@.take(1)[0] == bytes@[0]);
            } else {
                assert(text@ =~= hex_bytes_text(bytes@.take(k as int)) + seq![' '] + byte_hex(bytes@[k as int]));
            }
        }
        k = k + 1;
    }
    assert(bytes@.take(k as int) =~= bytes@);
    text
}


/// The file name "Extract..." proposes for a node's payload: its name,
/// trimmed, with `.bin`.
pub fn extract_file_name(node: &MetadataNode) -> (name: String)
    ensures
        name@ == trim(node.name@) + ".bin"@,
{
    let chars = chars_of(node.name.as_str());
    assert(chars@.subrange(0, chars@.len() as int) =~= node.name@);
    let mut name = trimmed_string(&chars, 0, chars.len());
    name.append(".bin");
    name
}

impl MetadataTabState {
    /// Marks a scan of the file as running.
    pub fn start_scan(&mut self)
        ensures
            same_but_jobs(*old(self), *final(self)),
            same_action(*old(self), *final(self)),
            final(self).loading,
            final(self).error is None,
            final(self).scan_pending,
            final(self).document == old(self).document,
            final(self).selected_node == old(self).selected_node,
            final(self).hex_offset == old(self).hex_offset,
    {
        self.loading = true;
        self.error = None;
        self.scan_pending = true;
    }

    /// Collects the answer of a scan.
    pub fn receive_scan(&mut self, result: Result<MetadataDocument, String>)
        ensures
            scan_receive_outcome(*old(self), *final(self), result),
    {
        self.scan_pending = false;
        self.loading = false;
        match result {
            Ok(document) => {
                self.selected_node = if document.roots.len() > 0 {
                    Some(document.roots[0])
                } else {
                    None
                };
                self.hex_offset = 0;
                self.document = Some(document);
            },
            Err(e) => {
                self.error = Some(e);
            },
        }
    }

    /// Starts an action on a payload of `payload_length` bytes, unless one
    /// is running; returns whether it started.
    pub fn start_action(&mut self, payload_length: u64) -> (started: bool)
        ensures
            action_start_outcome(*old(self), *final(self), payload_length, started),
    {
        if self.action_pending {
            return false;
        }
        self.action_pending = true;
        self.action_cancel_armed = true;
        self.action_progress = Some(0);
        self.action_total = payload_length;
        self.action_status = Some(String::from_str("Working..."));
        true
    }

    /// Collects the answer of an action; returns the text to put on the
    /// clipboard, if the action was a copy.
    pub fn receive_action(&mut self, result: Result<MetadataActionResult, String>) -> (clipboard: Option<String>)
        ensures
            action_receive_outcome(
                *old(self),
                *final(self),
                result,
                match clipboard {
                    Some(c) => Some(c@),
                    None => None,
                },
            ),
    {
        self.action_pending = false;
        self.action_cancel_armed = false;
        self.action_progress = None;
        self.action_total = 0;
        proof {
            reveal_strlit(" matches");
            reveal_strlit("SHA-256: ");
            reveal_strlit("Extracted to ");
            reveal_strlit("Error: ");
        }
        match result {
            Ok(MetadataActionResult::Search(offsets)) => {
                let mut status = String::new();
                push_decimal(&mut status, offsets.len() as u64);
                status.append(" matches");
                self.action_status = Some(status);
                self.search_results = offsets;
                None
            },
            Ok(MetadataActionResult::Hash(value)) => {
                let mut status = String::from_str("SHA-256: ");
                status.append(value.as_str());
                self.action_status = Some(status);
                None
            },
            Ok(MetadataActionResult::Extracted(path)) => {
                let mut status = String::from_str("Extracted to ");
                status.append(path.as_str());
                self.action_status = Some(status);
                None
            },
            Ok(MetadataActionResult::CopyHex(value)) => {
                self.action_status = Some(String::from_str("Copied hex bytes"));
                Some(value)
            },
            Err(e) => {
                let mut status = String::from_str("Error: ");
                status.append(e.as_str());
                self.action_status = Some(status);
                None
            },
        }
    }
}

impl WavesPreviewer {
    /// Marks a scan of tab `tab_idx`'s file as running.
    pub fn start_metadata_scan(&mut self, tab_idx: usize)
        requires
            tab_idx < old(self).tabs@.len(),
        ensures
            final(self).tabs@[tab_idx as int].metadata.loading,
            final(self).tabs@[tab_idx as int].metadata.error is None,
            final(self).tabs@[tab_idx as int].metadata.scan_pending,
            final(self).tabs@[tab_idx as int].metadata.document == old(self).tabs@[tab_idx as int].metadata.document,
            final(self).tabs@[tab_idx as int].metadata.selected_node == old(self).tabs@[tab_idx as int].metadata.selected_node,
            final(self).tabs@[tab_idx as int].metadata.hex_offset == old(self).tabs@[tab_idx as int].metadata.hex_offset,
            same_but_jobs(old(self).tabs@[tab_idx as int].metadata, final(self).tabs@[tab_idx as int].metadata),
            same_action(old(self).tabs@[tab_idx as int].metadata, final(self).tabs@[tab_idx as int].metadata),
            only_metadata_changed(old(self).tabs@[tab_idx as int], final(self).tabs@[tab_idx as int]),
            only_tab_changed(*old(self), *final(self), tab_idx as int),
    {
        self.tabs[tab_idx].metadata.start_scan();
    }

    /// Starts, for tab `tab_idx`, an action on `payload` unless one is
    /// running; returns whether it started.
    pub fn start_metadata_action(&mut self, tab_idx: usize, payload: PayloadRef) -> (started: bool)
        requires
            tab_idx < old(self).tabs@.len(),
        ensures
            action_start_outcome(
                old(self).tabs@[tab_idx as int].metadata,
                final(self).tabs@[tab_idx as int].metadata,
                payload.length,
                started,
            ),
            !started ==> final(self).tabs@[tab_idx as int] == old(self).tabs@[tab_idx as int],
            only_metadata_changed(old(self).tabs@[tab_idx as int], final(self).tabs@[tab_idx as int]),
            only_tab_changed(*old(self), *final(self), tab_idx as int),
    {
        if self.tabs[tab_idx].metadata.action_pending {
            return false;
        }
        self.tabs[tab_idx].metadata.start_action(payload.length)
    }
}


impl WavesPreviewer {
    /// The inspector opened on tab `tab_idx`: when the tab has no document
    /// and no scan is running, a scan of its metadata source starts; returns
    /// the file to scan.
    pub fn ensure_metadata_scan(&mut self, tab_idx: usize) -> (scan: Option<String>)
        requires
            tab_idx < old(self).tabs@.len(),
        ensures
            ({
                let m = old(self).tabs@[tab_idx as int].metadata;
                if m.document is None && !m.loading && !m.scan_pending && metadata_source(*old(self), tab_idx as int) is Some {
                    &&& scan matches Some(p) && metadata_source(*old(self), tab_idx as int) matches Some((q, _)) && p@ == q
                    &&& final(self).tabs@[tab_idx as int].metadata.loading
                    &&& final(self).tabs@[tab_idx as int].metadata.error is None
                    &&& final(self).tabs@[tab_idx as int].metadata.scan_pending
                    &&& same_but_jobs(m, final(self).tabs@[tab_idx as int].metadata)
                    &&& same_action(m, final(self).tabs@[tab_idx as int].metadata)
                    &&& only_metadata_changed(old(self).tabs@[tab_idx as int], final(self).tabs@[tab_idx as int])
                    &&& only_tab_changed(*old(self), *final(self), tab_idx as int)
                } else {
                    &&& scan is None
                    &&& *final(self) == *old(self)
                }
            }),
    {
        let idle = {
            let m = &self.tabs[tab_idx].metadata;
            m.document.is_none() && !m.loading && !m.scan_pending
        };
        if !idle {
            return None;
        }
        match self.metadata_source_for_tab(tab_idx) {
            Some((path, _)) => {
                self.start_metadata_scan(tab_idx);
                Some(path)
            },
            None => None,
        }
    }

    /// The inspector's Refresh: forgets what it knew about tab `tab_idx`
    /// and scans its metadata source again, if it has one. Returns the file
    /// to scan, and whether a running action was told to stop.
    pub fn refresh_metadata_tab(&mut self, tab_idx: usize) -> (outcome: (Option<String>, bool))
        requires
            tab_idx < old(self).tabs@.len(),
        ensures
            outcome.1 == old(self).tabs@[tab_idx as int].metadata.action_cancel_armed,
            match metadata_source(*old(self), tab_idx as int) {
                Some((p, _)) => outcome.0 matches Some(q) && q@ == p,
                None => outcome.0 is None,
            },
            ({
                let m = final(self).tabs@[tab_idx as int].metadata;
                &&& m.loading == outcome.0 is Some
                &&& m.scan_pending == outcome.0 is Some
                &&& metadata_cleared(MetadataTabState { loading: false, scan_pending: false, ..m })
            }),
            only_metadata_changed(old(self).tabs@[tab_idx as int], final(self).tabs@[tab_idx as int]),
            only_tab_changed(*old(self), *final(self), tab_idx as int),
    {
        let source = self.metadata_source_for_tab(tab_idx);
        let cancelled = self.reset_metadata_tab(tab_idx);
        let ghost mid = *self;
        match source {
            Some((path, _)) => {
                self.start_metadata_scan(tab_idx);
                proof {
                    lemma_only_tab_changed_trans(*old(self), mid, *self, tab_idx as int);
                }
                (Some(path), cancelled)
            },
            None => (None, cancelled),
        }
    }
}

} // verus!

verus! {

/// How the search query of the details panel is read.
#[derive(Clone, Copy, Debug, PartialEq, Eq, Structural)]
pub enum SearchKind {
    Ascii,
    Utf8,
    Hex,
    FourCc,
}

/// The search kind stored as `index`: 1 UTF-8, 2 hex, 3 FourCC, anything
/// else ASCII.
pub open spec fn search_kind_of(index: usize) -> SearchKind {
    if index == 1 {
        SearchKind::Utf8
    } else if index == 2 {
        SearchKind::Hex
    } else if index == 3 {
        SearchKind::FourCc
    } else {
        SearchKind::Ascii
    }
}

/// The search kind stored as `index`.
pub fn search_kind_for_index(index: usize) -> (kind: SearchKind)
    ensures
        kind == search_kind_of(index),
{
    if index == 1 {
        SearchKind::Utf8
    } else if index == 2 {
        SearchKind::Hex
    } else if index == 3 {
        SearchKind::FourCc
    } else {
        SearchKind::Ascii
    }
}

/// The selector's caption for the kind stored as `index` (indexes past the
/// last name the last kind).
pub fn search_kind_caption(index: usize) -> (caption: &'static str)
    ensures
        caption@ == if index == 0 {
            "ASCII"@
        } else if index == 1 {
            "UTF-8"@
        } else if index == 2 {
            "Hex"@
        } else {
            "FourCC"@
        },
{
    proof {
        reveal_strlit("ASCII");
        reveal_strlit("UTF-8");
        reveal_strlit("Hex");
        reveal_strlit("FourCC");
    }
    if index == 0 {
        "ASCII"
    } else if index == 1 {
        "UTF-8"
    } else if index == 2 {
        "Hex"
    } else {
        "FourCC"
    }
}

/// Find is offered when no action is running and the query is not empty.
pub fn can_start_search(action_pending: bool, query: &str) -> (can: bool)
    ensures
        can == (!action_pending && query@.len() > 0),
{
    let chars = chars_of(query);
    !action_pending && chars.len() > 0
}

/// A search hit as its link shows it: `0x` and the offset in upper-case
/// hexadecimal, then the offset in decimal in brackets.
pub fn search_result_link(offset: u64) -> (link: String)
    ensures
        link@ == "0x"@ + hex_upper(offset as nat) + " ("@ + decimal(offset as nat) + ")"@,
{
    let mut link = String::from_str("0x");
    proof {
        reveal_strlit("0x");
    }
    push_hex_upper(&mut link, offset);
    push_char(&mut link, ' ');
    push_char(&mut link, '(');
    push_decimal(&mut link, offset);
    push_char(&mut link, ')');
    proof {
        reveal_strlit(" (");
        reveal_strlit(")");
    }
    assert(link@ =~= "0x"@ + hex_upper(offset as nat) + " ("@ + decimal(offset as nat) + ")"@);
    link
}

/// The hits the details panel lists: the first 100.
pub fn shown_search_results(results: &Vec<u64>) -> (shown: Vec<u64>)
    ensures
        shown@ == results@.take(if results@.len() <= 100 { results@.len() as int } else { 100 }),
{
    let n = if results.len() <= 100 { results.len() } else { 100 };
    let mut shown: Vec<u64> = Vec::new();
    let mut i: usize = 0;
    while i < n
        invariant
            n <= results@.len(),
            i <= n,
            shown@ == results@.take(i as int),
        decreases n - i,
    {
        shown.push(results[i]);
        assert(results@.take(i + 1) =~= results@.take(i as int).push(results@[i as int]));
        i = i + 1;
    }
    shown
}

/// The progress bar's text: `done / total bytes`.
pub fn action_progress_text(done: u64, total: u64) -> (text: String)
    ensures
        text@ == decimal(done as nat) + " / "@ + decimal(total as nat) + " bytes"@,
{
    let mut text = String::new();
    push_decimal(&mut text, done);
    text.append(" / ");
    push_decimal(&mut text, total);
    text.append(" bytes");
    text
}

} // verus!

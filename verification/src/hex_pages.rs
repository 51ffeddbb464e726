//! The hex view. It reads the inspected file in pages of 64 KiB; pages
//! that were read are kept, newest last, up to 128 of them, and a page
//! asked for again is taken from the cache and becomes the newest. Reading
//! is done in the background: asking for a page that is not cached names
//! the page to read, and the pages read are handed back to the cache when
//! the read is done. The view also marks rows and bytes (playhead, marked
//! bytes, selected node) and points towards a playhead outside the page.
use vstd::prelude::*;

use crate::metadata::{
    only_metadata_changed, ranges_overlap, spec_ranges_overlap, structure_target,
    structure_walk_ends, visible_metadata_structure_target, MetadataDocument, MetadataHexPage,
    MetadataTabState, SourceRange,
};
use crate::badges::{rgb, Rgb};
use crate::text::{hex_upper, push_hex_padded, zero_padded};
use crate::regions::only_tab_changed;
use crate::state::WavesPreviewer;

verus! {

/// The size of a page of the hex view.
pub const HEX_PAGE_BYTES: u64 = 65536;

/// How many pages the cache keeps.
pub const HEX_PAGE_CACHE_LIMIT: usize = 128;

/// The start of the page that holds byte `offset`.
pub open spec fn page_start(offset: u64) -> u64 {
    (offset - offset % HEX_PAGE_BYTES) as u64
}

/// A page as plain values: its start and its bytes.
pub open spec fn page_view(p: MetadataHexPage) -> (u64, Seq<u8>) {
    (p.start, p.bytes@)
}

/// Pages as plain values.
pub open spec fn pages_view(s: Seq<MetadataHexPage>) -> Seq<(u64, Seq<u8>)> {
    s.map_values(|p: MetadataHexPage| page_view(p))
}

/// An optional page as plain values.
pub open spec fn opt_page_view(p: Option<MetadataHexPage>) -> Option<(u64, Seq<u8>)> {
    match p {
        Some(page) => Some(page_view(page)),
        None => None,
    }
}

/// The pages a read handed back, as plain values.
pub open spec fn received_view(s: Seq<(u64, Vec<u8>)>) -> Seq<(u64, Seq<u8>)> {
    s.map_values(|p: (u64, Vec<u8>)| (p.0, p.1@))
}

/// The first index at or after `i` of a page starting at `start`.
pub open spec fn position_from(s: Seq<(u64, Seq<u8>)>, start: u64, i: int) -> Option<int>
    decreases s.len() - i,
{
    if i < 0 || i >= s.len() {
        None
    } else if s[i].0 == start {
        Some(i)
    } else {
        position_from(s, start, i + 1)
    }
}

/// The first index of a page starting at `start`.
pub open spec fn page_position(s: Seq<(u64, Seq<u8>)>, start: u64) -> Option<int> {
    position_from(s, start, 0)
}

/// No two pages start at the same byte.
pub open spec fn starts_distinct(s: Seq<(u64, Seq<u8>)>) -> bool {
    forall|i: int, j: int| 0 <= i < j < s.len() ==> #[trigger] s[i].0 != #[trigger] s[j].0
}

/// The cache's invariant: no page twice, and no more pages than it keeps.
pub open spec fn hex_cache_ok(m: MetadataTabState) -> bool {
    &&& starts_distinct(pages_view(m.hex_pages@))
    &&& m.hex_pages@.len() <= HEX_PAGE_CACHE_LIMIT
}

/// `s` without the pages that start at `start`.
pub open spec fn without_start(s: Seq<(u64, Seq<u8>)>, start: u64) -> Seq<(u64, Seq<u8>)>
    decreases s.len(),
{
    if s.len() == 0 {
        s
    } else {
        let rest = without_start(s.drop_last(), start);
        if s.last().0 == start {
            rest
        } else {
            rest.push(s.last())
        }
    }
}

/// The cache after the pages `received` were added, in order: each one
/// replaces a cached page with its start and becomes the newest.
pub open spec fn cache_after(cache: Seq<(u64, Seq<u8>)>, received: Seq<(u64, Seq<u8>)>) -> Seq<(u64, Seq<u8>)>
    decreases received.len(),
{
    if received.len() == 0 {
        cache
    } else {
        without_start(cache_after(cache, received.drop_last()), received.last().0).push(received.last())
    }
}

/// The newest `limit` pages of `s`.
pub open spec fn keep_newest(s: Seq<(u64, Seq<u8>)>, limit: nat) -> Seq<(u64, Seq<u8>)> {
    if s.len() > limit {
        s.skip(s.len() - limit)
    } else {
        s
    }
}

/// The page shown after the pages `received` arrived: the last of them
/// that starts where the read was asked for, else the one shown before.
pub open spec fn current_after(
    current: Option<(u64, Seq<u8>)>,
    received: Seq<(u64, Seq<u8>)>,
    requested: Option<u64>,
) -> Option<(u64, Seq<u8>)>
    decreases received.len(),
{
    if received.len() == 0 {
        current
    } else if requested == Some(received.last().0) {
        Some(received.last())
    } else {
        current_after(current, received.drop_last(), requested)
    }
}

/// Everything of the inspector's state but its hex pages and its error is
/// the same in `a` and `b`.
pub open spec fn same_but_hex_pages(a: MetadataTabState, b: MetadataTabState) -> bool {
    &&& b.document == a.document
    &&& b.loading == a.loading
    &&& b.scan_pending == a.scan_pending
    &&& b.selected_node == a.selected_node
    &&& b.detail_tab == a.detail_tab
    &&& b.text_encoding == a.text_encoding
    &&& b.hex_selection == a.hex_selection
    &&& b.hex_offset == a.hex_offset
    &&& b.hex_scroll_target == a.hex_scroll_target
    &&& b.follow_playback == a.follow_playback
    &&& b.show_structure == a.show_structure
    &&& b.search_results == a.search_results
    &&& b.action_status == a.action_status
    &&& b.action_pending == a.action_pending
    &&& b.action_cancel_armed == a.action_cancel_armed
    &&& b.action_progress == a.action_progress
    &&& b.action_total == a.action_total
    &&& b.artwork_requested == a.artwork_requested
    &&& b.artwork_pending == a.artwork_pending
    &&& b.artwork_shown == a.artwork_shown
}

/// What asking for the page of byte `offset` does: a cached page becomes
/// the shown page and the newest in the cache; a page that is shown or
/// being read already asks for nothing; any other page is to be read
/// (`fetch` names its start) and is marked as being read.
pub open spec fn hex_request_outcome(
    before: MetadataTabState,
    after: MetadataTabState,
    offset: u64,
    fetch: Option<u64>,
) -> bool {
    let start = page_start(offset);
    let cached = pages_view(before.hex_pages@);
    &&& same_but_hex_pages(before, after)
    &&& after.error == before.error
    &&& match page_position(cached, start) {
        Some(i) => {
            &&& fetch is None
            &&& pages_view(after.hex_pages@) == cached.remove(i).push(cached[i])
            &&& opt_page_view(after.hex_page) == Some(cached[i])
            &&& after.hex_page_requested == before.hex_page_requested
            &&& after.hex_page_pending == before.hex_page_pending
        },
        None => {
            &&& after.hex_pages == before.hex_pages
            &&& after.hex_page == before.hex_page
            &&& if (before.hex_page matches Some(p) && p.start == start) || before.hex_page_requested
                == Some(start) {
                &&& fetch is None
                &&& after.hex_page_requested == before.hex_page_requested
                &&& after.hex_page_pending == before.hex_page_pending
            } else {
                &&& fetch == Some(start)
                &&& after.hex_page_requested == Some(start)
                &&& after.hex_page_pending
            }
        },
    }
}

/// A read's answer as plain values.
pub open spec fn read_view(result: Result<Vec<(u64, Vec<u8>)>, String>) -> Result<Seq<(u64, Seq<u8>)>, Seq<char>> {
    match result {
        Ok(pages) => Ok(received_view(pages@)),
        Err(e) => Err(e@),
    }
}

/// What collecting a read's answer does: nothing is being read any more;
/// the pages read join the cache (see `cache_after`), which keeps its
/// newest 128; a page read where the read was asked for is shown; a failed
/// read is reported as the inspector's error.
pub open spec fn hex_receive_outcome(
    before: MetadataTabState,
    after: MetadataTabState,
    answer: Result<Seq<(u64, Seq<u8>)>, Seq<char>>,
) -> bool {
    &&& same_but_hex_pages(before, after)
    &&& after.hex_page_requested is None
    &&& !after.hex_page_pending
    &&& match answer {
        Ok(received) => {
            &&& pages_view(after.hex_pages@) == keep_newest(
                cache_after(pages_view(before.hex_pages@), received),
                HEX_PAGE_CACHE_LIMIT as nat,
            )
            &&& opt_page_view(after.hex_page) == current_after(
                opt_page_view(before.hex_page),
                received,
                before.hex_page_requested,
            )
            &&& after.error == before.error
        },
        Err(e) => {
            &&& after.error matches Some(message) && message@ == e
            &&& after.hex_pages == before.hex_pages
            &&& after.hex_page == before.hex_page
        },
    }
}


/// A page start occurs in `s`.
pub open spec fn has_start(s: Seq<(u64, Seq<u8>)>, x: u64) -> bool {
    exists|m: int| 0 <= m < s.len() && #[trigger] s[m].0 == x
}

proof fn lemma_without_start(s: Seq<(u64, Seq<u8>)>, start: u64)
    ensures
        forall|x: u64| #[trigger] has_start(without_start(s, start), x) ==> has_start(s, x) && x != start,
        starts_distinct(s) ==> starts_distinct(without_start(s, start)),
        !has_start(without_start(s, start), start),
    decreases s.len(),
{
    if s.len() > 0 {
        let d = s.drop_last();
        let rest = without_start(d, start);
        lemma_without_start(d, start);
        assert forall|x: u64| has_start(without_start(s, start), x) implies has_start(s, x) && x != start by {
            let r = without_start(s, start);
            let m = choose|m: int| 0 <= m < r.len() && #[trigger] r[m].0 == x;
            if s.last().0 != start && m == rest.len() {
                assert(s[s.len() - 1].0 == x);
            } else {
                assert(r[m] == rest[m]);
                assert(has_start(rest, x));
                let m2 = choose|m2: int| 0 <= m2 < d.len() && #[trigger] d[m2].0 == x;
                assert(s[m2] == d[m2]);
            }
        }
        if starts_distinct(s) {
            assert(starts_distinct(d)) by {
                assert forall|a: int, b: int| 0 <= a < b < d.len() implies #[trigger] d[a].0 != #[trigger] d[b].0 by {
                    assert(d[a] == s[a] && d[b] == s[b]);
                }
            }
            if s.last().0 != start {
                let r = rest.push(s.last());
                assert(!has_start(rest, s.last().0)) by {
                    if has_start(rest, s.last().0) {
                        let m2 = choose|m2: int| 0 <= m2 < d.len() && #[trigger] d[m2].0 == s.last().0;
                        assert(s[m2] == d[m2]);
                        assert(s[m2].0 != s[s.len() - 1].0);
                    }
                }
                assert forall|a: int, b: int| 0 <= a < b < r.len() implies #[trigger] r[a].0 != #[trigger] r[b].0 by {
                    if b == rest.len() {
                        assert(r[a] == rest[a]);
                        if rest[a].0 == s.last().0 {
                            assert(has_start(rest, s.last().0));
                        }
                    } else {
                        assert(r[a] == rest[a] && r[b] == rest[b]);
                    }
                }
            }
        }
        assert(!has_start(without_start(s, start), start)) by {
            if has_start(without_start(s, start), start) {
                let r = without_start(s, start);
                let m = choose|m: int| 0 <= m < r.len() && #[trigger] r[m].0 == start;
                if s.last().0 != start && m == rest.len() {
                } else {
                    assert(r[m] == rest[m]);
                    assert(has_start(rest, start));
                }
            }
        }
    }
}

proof fn lemma_cache_after_distinct(cache: Seq<(u64, Seq<u8>)>, received: Seq<(u64, Seq<u8>)>)
    requires
        starts_distinct(cache),
    ensures
        starts_distinct(cache_after(cache, received)),
    decreases received.len(),
{
    if received.len() > 0 {
        let c = cache_after(cache, received.drop_last());
        lemma_cache_after_distinct(cache, received.drop_last());
        let st = received.last().0;
        let w = without_start(c, st);
        lemma_without_start(c, st);
        let r = w.push(received.last());
        assert forall|a: int, b: int| 0 <= a < b < r.len() implies #[trigger] r[a].0 != #[trigger] r[b].0 by {
            if b == w.len() {
                assert(r[a] == w[a]);
                if w[a].0 == st {
                    assert(has_start(w, st));
                }
            } else {
                assert(r[a] == w[a] && r[b] == w[b]);
            }
        }
    }
}

proof fn lemma_keep_newest(s: Seq<(u64, Seq<u8>)>, limit: nat)
    ensures
        starts_distinct(s) ==> starts_distinct(keep_newest(s, limit)),
        keep_newest(s, limit).len() <= limit || keep_newest(s, limit) == s,
        s.len() <= limit ==> keep_newest(s, limit) == s,
        keep_newest(s, limit).len() <= limit,
{
    if s.len() > limit {
        let t = s.skip(s.len() - limit);
        if starts_distinct(s) {
            assert forall|a: int, b: int| 0 <= a < b < t.len() implies #[trigger] t[a].0 != #[trigger] t[b].0 by {
                let o = s.len() - limit;
                assert(t[a] == s[a + o] && t[b] == s[b + o]);
            }
        }
    }
}

proof fn lemma_position_from(s: Seq<(u64, Seq<u8>)>, start: u64, i: int)
    requires
        0 <= i <= s.len(),
    ensures
        match position_from(s, start, i) {
            Some(k) => i <= k < s.len() && s[k].0 == start && forall|j: int| i <= j < k ==> s[j].0 != start,
            None => forall|j: int| i <= j < s.len() ==> s[j].0 != start,
        },
    decreases s.len() - i,
{
    if i < s.len() && s[i].0 != start {
        lemma_position_from(s, start, i + 1);
    }
}

/// Moving the page at `i` to the end keeps the starts distinct.
proof fn lemma_move_to_back_distinct(s: Seq<(u64, Seq<u8>)>, i: int)
    requires
        0 <= i < s.len(),
        starts_distinct(s),
    ensures
        starts_distinct(s.remove(i).push(s[i])),
        s.remove(i).push(s[i]).len() == s.len(),
{
    let t = s.remove(i).push(s[i]);
    assert forall|a: int, b: int| 0 <= a < b < t.len() implies #[trigger] t[a].0 != #[trigger] t[b].0 by {
        let ia = if a < i { a } else { a + 1 };
        let ib = if b == t.len() - 1 { i } else if b < i { b } else { b + 1 };
        assert(t[a] == s[ia]);
        assert(t[b] == s[ib]);
        assert(ia != ib);
        if ia < ib {
            assert(s[ia].0 != s[ib].0);
        } else {
            assert(s[ib].0 != s[ia].0);
        }
    }
}



proof fn lemma_current_after_requested(
    current: Option<(u64, Seq<u8>)>,
    received: Seq<(u64, Seq<u8>)>,
    start: u64,
)
    requires
        has_start(received, start),
    ensures
        current_after(current, received, Some(start)) matches Some(p) && p.0 == start,
    decreases received.len(),
{
    if received.last().0 != start {
        let d = received.drop_last();
        let m = choose|m: int| 0 <= m < received.len() && #[trigger] received[m].0 == start;
        assert(m < received.len() - 1);
        assert(d[m] == received[m]);
        lemma_current_after_requested(current, d, start);
    }
}

/// Asking twice in a row for the page of the same byte starts at most one
/// read: the second request finds the page shown, cached, or being read.
pub proof fn lemma_hex_request_not_repeated(
    before: MetadataTabState,
    mid: MetadataTabState,
    after: MetadataTabState,
    offset: u64,
    first: Option<u64>,
    second: Option<u64>,
)
    requires
        hex_request_outcome(before, mid, offset, first),
        hex_request_outcome(mid, after, offset, second),
    ensures
        second is None,
{
    let start = page_start(offset);
    let cached = pages_view(before.hex_pages@);
    lemma_position_from(cached, start, 0);
    lemma_position_from(pages_view(mid.hex_pages@), start, 0);
    if let Some(i) = page_position(cached, start) {
        let moved = cached.remove(i).push(cached[i]);
        assert(moved[moved.len() - 1].0 == start);
    }
}

/// A page that was asked for and has been read is not read again when it
/// is asked for once more.
pub proof fn lemma_hex_read_page_not_fetched_again(
    before: MetadataTabState,
    mid: MetadataTabState,
    after: MetadataTabState,
    offset: u64,
    received: Seq<(u64, Seq<u8>)>,
    fetch: Option<u64>,
)
    requires
        before.hex_page_requested == Some(page_start(offset)),
        has_start(received, page_start(offset)),
        hex_receive_outcome(before, mid, Ok(received)),
        hex_request_outcome(mid, after, offset, fetch),
    ensures
        fetch is None,
{
    let start = page_start(offset);
    lemma_current_after_requested(opt_page_view(before.hex_page), received, start);
    lemma_position_from(pages_view(mid.hex_pages@), start, 0);
}

/// Takes the pages that start at `start` out of `pages`.
fn remove_pages_starting_at(pages: &mut Vec<MetadataHexPage>, start: u64)
    ensures
        pages_view(final(pages)@) == without_start(pages_view(old(pages)@), start),
{
    let ghost orig = pages_view(pages@);
    let mut i: usize = 0;
    let ghost mut j: int = 0;
    assert(orig.take(0) =~= Seq::<(u64, Seq<u8>)>::empty());
    assert(pages_view(pages@).skip(0) =~= orig.skip(0));
    while i < pages.len()
        invariant
            0 <= j <= orig.len(),
            i <= pages@.len(),
            pages_view(pages@).take(i as int) == without_start(orig.take(j), start),
            pages_view(pages@).skip(i as int) == orig.skip(j),
        decreases pages@.len() - i,
    {
        let ghost before = pages_view(pages@);
        proof {
            assert(before.skip(i as int).len() > 0);
            assert(j < orig.len());
            assert(before.skip(i as int)[0] == orig.skip(j)[0]);
            assert(orig.take(j + 1).drop_last() =~= orig.take(j));
            assert(orig.take(j + 1).last() == orig[j]);
        }
        if pages[i].start == start {
            pages.remove(i);
            proof {
                assert(pages_view(pages@).take(i as int) =~= before.take(i as int));
                assert(pages_view(pages@).skip(i as int) =~= before.skip(i as int + 1));
                assert(before.skip(i as int + 1) =~= before.skip(i as int).drop_first());
                assert(orig.skip(j + 1) =~= orig.skip(j).drop_first());
                j = j + 1;
            }
        } else {
            proof {
                assert(before.take(i as int + 1) =~= before.take(i as int).push(before[i as int]));
                assert(before.skip(i as int + 1) =~= before.skip(i as int).drop_first());
                assert(orig.skip(j + 1) =~= orig.skip(j).drop_first());
                j = j + 1;
            }
            i = i + 1;
        }
    }
    proof {
        assert(orig.skip(j).len() == 0);
        assert(orig.take(j) =~= orig);
        assert(pages_view(pages@).take(i as int) =~= pages_view(pages@));
    }
}


/// The end of a page's bytes in the file, at most `u64::MAX`.
pub open spec fn page_end(page: MetadataHexPage) -> int {
    if page.start + page.bytes@.len() > u64::MAX {
        u64::MAX as int
    } else {
        page.start + page.bytes@.len()
    }
}

/// Which side of the shown page the playhead is on, as the hex view's hint
/// says it: before the page, after it, or nothing when it is inside.
pub fn playhead_direction(page: &MetadataHexPage, offset: u64) -> (hint: Option<&'static str>)
    ensures
        offset < page.start ==> (hint matches Some(h) && h@ == "\u{2190} playhead"@),
        page.start <= offset && offset >= page_end(*page) ==> (hint matches Some(h) && h@
            == "playhead \u{2192}"@),
        page.start <= offset < page_end(*page) ==> hint is None,
{
    let len = page.bytes.len() as u64;
    let end = page.start.saturating_add(len);
    if offset < page.start {
        Some("\u{2190} playhead")
    } else if offset >= end {
        Some("playhead \u{2192}")
    } else {
        None
    }
}

/// The pages a read for the page at `start` fetches: that page first, then
/// its neighbours before and after, where they exist.
pub fn hex_pages_to_read(start: u64) -> (starts: Vec<u64>)
    ensures
        starts@ == seq![start] + (if start >= HEX_PAGE_BYTES {
            seq![(start - HEX_PAGE_BYTES) as u64]
        } else {
            Seq::<u64>::empty()
        }) + (if start as int + HEX_PAGE_BYTES <= u64::MAX {
            seq![(start + HEX_PAGE_BYTES) as u64]
        } else {
            Seq::<u64>::empty()
        }),
{
    let mut starts: Vec<u64> = Vec::new();
    starts.push(start);
    if start >= HEX_PAGE_BYTES {
        starts.push(start - HEX_PAGE_BYTES);
    }
    if start <= u64::MAX - HEX_PAGE_BYTES {
        starts.push(start + HEX_PAGE_BYTES);
    }
    assert(starts@ =~= seq![start] + (if start >= HEX_PAGE_BYTES {
        seq![(start - HEX_PAGE_BYTES) as u64]
    } else {
        Seq::<u64>::empty()
    }) + (if start as int + HEX_PAGE_BYTES <= u64::MAX {
        seq![(start + HEX_PAGE_BYTES) as u64]
    } else {
        Seq::<u64>::empty()
    }));
    starts
}

impl MetadataTabState {
    /// Asks for the page that holds byte `offset`. Returns the start of
    /// the page to read, when it has to be read.
    pub fn request_hex_page(&mut self, offset: u64) -> (fetch: Option<u64>)
        ensures
            hex_request_outcome(*old(self), *final(self), offset, fetch),
            hex_cache_ok(*old(self)) ==> hex_cache_ok(*final(self)),
    {
        let start = offset - offset % HEX_PAGE_BYTES;
        let ghost cached = pages_view(self.hex_pages@);
        let mut k: usize = 0;
        while k < self.hex_pages.len()
            invariant
                k <= self.hex_pages@.len(),
                cached == pages_view(self.hex_pages@),
                start == page_start(offset),
                forall|j: int| 0 <= j < k ==> cached[j].0 != start,
            ensures
                k <= self.hex_pages@.len(),
                forall|j: int| 0 <= j < k ==> cached[j].0 != start,
                k < self.hex_pages@.len() ==> cached[k as int].0 == start,
            decreases self.hex_pages@.len() - k,
        {
            if self.hex_pages[k].start == start {
                break;
            }
            k = k + 1;
        }
        proof {
            lemma_position_from(cached, start, 0);
        }
        if k < self.hex_pages.len() {
            assert(cached[k as int].0 == start);
            assert(page_position(cached, start) == Some(k as int));
            let page = self.hex_pages.remove(k);
            let shown = MetadataHexPage { start: page.start, bytes: page.bytes.clone() };
            assert(shown.bytes@ =~= page.bytes@);
            self.hex_page = Some(shown);
            self.hex_pages.push(page);
            proof {
                assert(pages_view(self.hex_pages@) =~= cached.remove(k as int).push(cached[k as int]));
                if starts_distinct(cached) {
                    lemma_move_to_back_distinct(cached, k as int);
                }
            }
            return None;
        }
        assert(page_position(cached, start) is None);
        let shown_here = match &self.hex_page {
            Some(p) => p.start == start,
            None => false,
        };
        let requested_here = match self.hex_page_requested {
            Some(r) => r == start,
            None => false,
        };
        if shown_here || requested_here {
            return None;
        }
        self.hex_page_requested = Some(start);
        self.hex_page_pending = true;
        Some(start)
    }

    /// Collects the answer of a page read.
    pub fn receive_hex_pages(&mut self, result: Result<Vec<(u64, Vec<u8>)>, String>)
        ensures
            hex_receive_outcome(*old(self), *final(self), read_view(result)),
            hex_cache_ok(*old(self)) ==> hex_cache_ok(*final(self)),
    {
        let requested = self.hex_page_requested;
        self.hex_page_requested = None;
        self.hex_page_pending = false;
        match result {
            Ok(pages) => {
                let ghost received = received_view(pages@);
                let ghost cache0 = pages_view(self.hex_pages@);
                let ghost current0 = opt_page_view(self.hex_page);
                let mut k: usize = 0;
                assert(received.take(0) =~= Seq::<(u64, Seq<u8>)>::empty());
                while k < pages.len()
                    invariant
                        k <= pages@.len(),
                        received == received_view(pages@),
                        same_but_hex_pages(*old(self), *self),
                        self.error == old(self).error,
                        self.hex_page_requested is None,
                        !self.hex_page_pending,
                        requested == old(self).hex_page_requested,
                        cache0 == pages_view(old(self).hex_pages@),
                        current0 == opt_page_view(old(self).hex_page),
                        pages_view(self.hex_pages@) == cache_after(cache0, received.take(k as int)),
                        opt_page_view(self.hex_page) == current_after(current0, received.take(k as int), requested),
                    decreases pages@.len() - k,
                {
                    let start = pages[k].0;
                    remove_pages_starting_at(&mut self.hex_pages, start);
                    let bytes = pages[k].1.clone();
                    assert(bytes@ =~= pages@[k as int].1@);
                    let is_requested = match requested {
                        Some(r) => r == start,
                        None => false,
                    };
                    if is_requested {
                        let shown = bytes.clone();
                        assert(shown@ =~= bytes@);
                        self.hex_page = Some(MetadataHexPage { start, bytes: shown });
                    }
                    self.hex_pages.push(MetadataHexPage { start, bytes });
                    proof {
                        let t = received.take(k + 1);
                        assert(t.drop_last() =~= received.take(k as int));
                        assert(t.last() == received[k as int]);
                    }
                    k = k + 1;
                }
                assert(received.take(k as int) =~= received);
                let len = self.hex_pages.len();
                if len > HEX_PAGE_CACHE_LIMIT {
                    let kept = self.hex_pages.split_off(len - HEX_PAGE_CACHE_LIMIT);
                    self.hex_pages = kept;
                }
                proof {
                    let c = cache_after(cache0, received);
                    assert(pages_view(self.hex_pages@) =~= keep_newest(c, HEX_PAGE_CACHE_LIMIT as nat));
                    lemma_keep_newest(c, HEX_PAGE_CACHE_LIMIT as nat);
                    if starts_distinct(cache0) {
                        lemma_cache_after_distinct(cache0, received);
                    }
                }
            },
            Err(e) => {
                self.error = Some(e);
            },
        }
    }
}


impl WavesPreviewer {
    /// Asks, for tab `tab_idx`, for the hex page that holds byte `offset`;
    /// returns the start of the page to read, when it has to be read.
    pub fn request_metadata_hex_page(&mut self, tab_idx: usize, offset: u64) -> (fetch: Option<u64>)
        requires
            tab_idx < old(self).tabs@.len(),
        ensures
            hex_request_outcome(old(self).tabs@[tab_idx as int].metadata, final(self).tabs@[tab_idx as int].metadata, offset, fetch),
            hex_cache_ok(old(self).tabs@[tab_idx as int].metadata) ==> hex_cache_ok(final(self).tabs@[tab_idx as int].metadata),
            only_metadata_changed(old(self).tabs@[tab_idx as int], final(self).tabs@[tab_idx as int]),
            only_tab_changed(*old(self), *final(self), tab_idx as int),
    {
        self.tabs[tab_idx].metadata.request_hex_page(offset)
    }

    /// Collects, for tab `tab_idx`, the answer of a hex page read.
    pub fn receive_metadata_hex_pages(&mut self, tab_idx: usize, result: Result<Vec<(u64, Vec<u8>)>, String>)
        requires
            tab_idx < old(self).tabs@.len(),
        ensures
            hex_receive_outcome(old(self).tabs@[tab_idx as int].metadata, final(self).tabs@[tab_idx as int].metadata, read_view(result)),
            hex_cache_ok(old(self).tabs@[tab_idx as int].metadata) ==> hex_cache_ok(final(self).tabs@[tab_idx as int].metadata),
            only_metadata_changed(old(self).tabs@[tab_idx as int], final(self).tabs@[tab_idx as int]),
            only_tab_changed(*old(self), *final(self), tab_idx as int),
    {
        self.tabs[tab_idx].metadata.receive_hex_pages(result)
    }
}


/// What the hex view's controls and rows report in a frame.
#[derive(Clone, Copy, Debug, PartialEq, Eq, Structural)]
pub enum HexEvent {
    /// The view is drawn; `playhead` is the file byte being played, when
    /// known.
    Frame { playhead: Option<u64> },
    /// The offset field was set (it keeps the offset inside the file).
    SetOffset(u64),
    /// "Jump to playhead" was clicked.
    JumpToPlayhead { playhead: u64 },
    /// The follow-playback box was set.
    SetFollow(bool),
    /// A row of the grid was clicked; `node_at` is the smallest node that
    /// holds the row's first byte.
    RowClicked { row: SourceRange, node_at: Option<usize> },
    /// "Show in Structure" was clicked for node `node`.
    ShowInStructure { node: usize },
}

/// The inspector's state after the hex view handled `event`.
pub open spec fn hex_event_state(
    before: MetadataTabState,
    document: MetadataDocument,
    event: HexEvent,
) -> MetadataTabState {
    match event {
        HexEvent::Frame { playhead } => match playhead {
            Some(p) => if before.follow_playback {
                MetadataTabState { hex_offset: p, ..before }
            } else {
                before
            },
            None => before,
        },
        HexEvent::SetOffset(o) => MetadataTabState { hex_offset: o, ..before },
        HexEvent::JumpToPlayhead { playhead } => MetadataTabState { hex_offset: playhead, ..before },
        HexEvent::SetFollow(on) => MetadataTabState { follow_playback: on, ..before },
        HexEvent::RowClicked { row, node_at } => MetadataTabState {
            hex_selection: Some(row),
            hex_offset: row.offset,
            selected_node: node_at,
            ..before
        },
        HexEvent::ShowInStructure { node } => MetadataTabState {
            selected_node: structure_target(
                document,
                node as int,
                (document.nodes@.len() + 1) as nat,
            ),
            show_structure: true,
            ..before
        },
    }
}

impl MetadataTabState {
    /// Handles one event of the hex view (see `hex_event_state`).
    pub fn apply_hex_event(&mut self, document: &MetadataDocument, event: HexEvent)
        requires
            event matches HexEvent::ShowInStructure { node } ==> structure_walk_ends(
                *document,
                node as int,
                (document.nodes@.len() + 1) as nat,
            ),
        ensures
            *final(self) == hex_event_state(*old(self), *document, event),
    {
        match event {
            HexEvent::Frame { playhead } => {
                if let Some(p) = playhead {
                    if self.follow_playback {
                        self.hex_offset = p;
                    }
                }
            },
            HexEvent::SetOffset(o) => {
                self.hex_offset = o;
            },
            HexEvent::JumpToPlayhead { playhead } => {
                self.hex_offset = playhead;
            },
            HexEvent::SetFollow(on) => {
                self.follow_playback = on;
            },
            HexEvent::RowClicked { row, node_at } => {
                self.hex_selection = Some(row);
                self.hex_offset = row.offset;
                self.selected_node = node_at;
            },
            HexEvent::ShowInStructure { node } => {
                self.selected_node = visible_metadata_structure_target(document, node);
                self.show_structure = true;
            },
        }
    }
}

impl WavesPreviewer {
    /// Handles one event of tab `tab_idx`'s hex view, then asks for the
    /// page that holds the view's offset; returns the start of the page to
    /// read, when it has to be read.
    pub fn metadata_hex_event(&mut self, tab_idx: usize, document: &MetadataDocument, event: HexEvent) -> (fetch: Option<u64>)
        requires
            tab_idx < old(self).tabs@.len(),
            event matches HexEvent::ShowInStructure { node } ==> structure_walk_ends(
                *document,
                node as int,
                (document.nodes@.len() + 1) as nat,
            ),
        ensures
            ({
                let mid = hex_event_state(old(self).tabs@[tab_idx as int].metadata, *document, event);
                &&& hex_request_outcome(mid, final(self).tabs@[tab_idx as int].metadata, mid.hex_offset, fetch)
                &&& hex_cache_ok(old(self).tabs@[tab_idx as int].metadata) ==> hex_cache_ok(final(self).tabs@[tab_idx as int].metadata)
            }),
            only_metadata_changed(old(self).tabs@[tab_idx as int], final(self).tabs@[tab_idx as int]),
            only_tab_changed(*old(self), *final(self), tab_idx as int),
    {
        self.tabs[tab_idx].metadata.apply_hex_event(document, event);
        let offset = self.tabs[tab_idx].metadata.hex_offset;
        self.tabs[tab_idx].metadata.request_hex_page(offset)
    }
}

// ---------------------------------------------------------------------
// How the hex view marks rows and bytes
// ---------------------------------------------------------------------

/// How a row of the hex view is filled.
#[derive(Clone, Copy, Debug, PartialEq, Eq, Structural)]
pub enum RowHighlight {
    /// It holds the playhead's bytes.
    Live,
    /// It holds bytes the user marked.
    Marked,
    /// It holds bytes of the selected node.
    Selected,
    /// An even row, with nothing to show.
    Even,
    /// An odd row, with nothing to show.
    Odd,
}

/// How a byte of the hex view is filled.
#[derive(Clone, Copy, Debug, PartialEq, Eq, Structural)]
pub enum ByteHighlight {
    Live,
    Marked,
    Plain,
}

/// A range lies over another, if it is there.
pub open spec fn touches(range: SourceRange, other: Option<SourceRange>) -> bool {
    match other {
        Some(r) => spec_ranges_overlap(range, r),
        None => false,
    }
}

fn touches_exec(range: SourceRange, other: Option<SourceRange>) -> (t: bool)
    ensures
        t == touches(range, other),
{
    match other {
        Some(r) => ranges_overlap(range, r),
        None => false,
    }
}

/// The fill of hex row `row_index`, covering `row`: the playhead first,
/// then the user's marked bytes, then the selected node, else stripes.
pub open spec fn row_highlight_of(
    row_index: usize,
    row: SourceRange,
    live: Option<SourceRange>,
    selected: Option<SourceRange>,
    marked: Option<SourceRange>,
) -> RowHighlight {
    if touches(row, live) {
        RowHighlight::Live
    } else if touches(row, marked) {
        RowHighlight::Marked
    } else if touches(row, selected) {
        RowHighlight::Selected
    } else if row_index % 2 == 0 {
        RowHighlight::Even
    } else {
        RowHighlight::Odd
    }
}

/// The fill of a hex row.
pub fn hex_row_highlight(
    row_index: usize,
    row: SourceRange,
    live: Option<SourceRange>,
    selected: Option<SourceRange>,
    marked: Option<SourceRange>,
) -> (h: RowHighlight)
    ensures
        h == row_highlight_of(row_index, row, live, selected, marked),
{
    if touches_exec(row, live) {
        RowHighlight::Live
    } else if touches_exec(row, marked) {
        RowHighlight::Marked
    } else if touches_exec(row, selected) {
        RowHighlight::Selected
    } else if row_index % 2 == 0 {
        RowHighlight::Even
    } else {
        RowHighlight::Odd
    }
}

/// The fill of the byte at `offset`: the playhead first, then the user's
/// marked bytes.
pub fn hex_byte_highlight(offset: u64, live: Option<SourceRange>, marked: Option<SourceRange>) -> (h: ByteHighlight)
    ensures
        h == if touches(SourceRange { offset, length: 1 }, live) {
            ByteHighlight::Live
        } else if touches(SourceRange { offset, length: 1 }, marked) {
            ByteHighlight::Marked
        } else {
            ByteHighlight::Plain
        },
{
    let byte = SourceRange { offset, length: 1 };
    if touches_exec(byte, live) {
        ByteHighlight::Live
    } else if touches_exec(byte, marked) {
        ByteHighlight::Marked
    } else {
        ByteHighlight::Plain
    }
}

/// A hex row's address: sixteen upper-case hex digits.
pub fn hex_row_address(absolute: u64) -> (text: String)
    ensures
        text@ == zero_padded(hex_upper(absolute as nat), 16),
{
    let mut text = String::new();
    push_hex_padded(&mut text, absolute, 16);
    text
}

/// A byte in the hex view: two upper-case hex digits.
pub fn hex_byte_text(byte: u8) -> (text: String)
    ensures
        text@ == zero_padded(hex_upper(byte as nat), 2),
{
    let mut text = String::new();
    push_hex_padded(&mut text, byte as u64, 2);
    text
}


/// The color a row fill is painted with.
pub open spec fn row_fill_of(h: RowHighlight) -> Rgb {
    match h {
        RowHighlight::Live => rgb(22, 67, 55),
        RowHighlight::Marked => rgb(63, 50, 31),
        RowHighlight::Selected => rgb(31, 42, 58),
        RowHighlight::Even => rgb(15, 19, 25),
        RowHighlight::Odd => rgb(18, 23, 30),
    }
}

/// The color a row fill is painted with.
pub fn row_fill(h: RowHighlight) -> (color: Rgb)
    ensures
        color == row_fill_of(h),
{
    match h {
        RowHighlight::Live => Rgb { r: 22, g: 67, b: 55 },
        RowHighlight::Marked => Rgb { r: 63, g: 50, b: 31 },
        RowHighlight::Selected => Rgb { r: 31, g: 42, b: 58 },
        RowHighlight::Even => Rgb { r: 15, g: 19, b: 25 },
        RowHighlight::Odd => Rgb { r: 18, g: 23, b: 30 },
    }
}

/// The color a byte's cell is filled with, if any.
pub fn byte_fill(h: ByteHighlight) -> (color: Option<Rgb>)
    ensures
        color == match h {
            ByteHighlight::Live => Some(rgb(39, 126, 95)),
            ByteHighlight::Marked => Some(rgb(128, 87, 32)),
            ByteHighlight::Plain => None::<Rgb>,
        },
{
    match h {
        ByteHighlight::Live => Some(Rgb { r: 39, g: 126, b: 95 }),
        ByteHighlight::Marked => Some(Rgb { r: 128, g: 87, b: 32 }),
        ByteHighlight::Plain => None,
    }
}

} // verus!

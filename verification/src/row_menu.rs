//! The list's row context menu: which rows a right click selects, and which
//! of the menu's entries are offered for the selected rows.
use vstd::prelude::*;

use crate::metadata::path_present;
use crate::state::{MediaItem, MediaSource, WavesPreviewer};
use crate::text::{ascii_case_eq, eq_ignore_ascii_case};

verus! {

/// What the menu needs to know of a row that only the audio and export
/// code can tell: whether the file is an audio file the transcriber reads,
/// and whether its format can be written back out (a video cannot).
#[derive(Clone, Copy, Debug)]
pub struct RowFileFacts {
    pub supported_audio: bool,
    pub allows_export: bool,
    /// The file can be renamed from the list.
    pub renameable: bool,
}

/// Row `i` is selected.
pub open spec fn row_selected(app: WavesPreviewer, i: int) -> bool {
    app.selected_multi@.contains(i as usize)
}

/// Some row of the list is selected.
pub open spec fn has_selection(app: WavesPreviewer) -> bool {
    exists|i: int| 0 <= i < app.files@.len() && #[trigger] row_selected(app, i)
}

/// The item is a WAV file by its extension, in any letter case.
pub open spec fn wav_item(item: MediaItem) -> bool {
    item.extension matches Some(e) && ascii_case_eq(e@, "wav"@)
}

/// A row the transcriber can take: a selected file on disk that is audio
/// it reads and that the presence cache does not know to be missing.
pub open spec fn transcript_row(app: WavesPreviewer, facts: Seq<RowFileFacts>, i: int) -> bool {
    &&& row_selected(app, i)
    &&& app.files@[i].source == MediaSource::File
    &&& facts[i].supported_audio
    &&& path_present(app, app.files@[i].path@)
}

/// The transcriber's rows among the first `n`, in list order.
pub open spec fn transcript_rows_upto(app: WavesPreviewer, facts: Seq<RowFileFacts>, n: int) -> Seq<
    usize,
>
    decreases n,
{
    if n <= 0 {
        seq![]
    } else if transcript_row(app, facts, n - 1) {
        transcript_rows_upto(app, facts, n - 1).push((n - 1) as usize)
    } else {
        transcript_rows_upto(app, facts, n - 1)
    }
}

/// A row whose bit depth can be converted: a WAV file on disk, in a format
/// that can be written back, that is not known to be missing.
pub open spec fn bits_convertible(app: WavesPreviewer, facts: Seq<RowFileFacts>, i: int) -> bool {
    &&& wav_item(app.files@[i])
    &&& app.files@[i].source == MediaSource::File
    &&& facts[i].allows_export
    &&& path_present(app, app.files@[i].path@)
}

/// Which entries of the row menu are offered.
pub struct RowMenuOffer {
    /// There is a selection: the entries that act on it are enabled.
    pub has_selection: bool,
    /// The rows the transcriber would take, in list order.
    pub transcript_rows: Vec<usize>,
    /// Every selected row can have its bit depth converted.
    pub can_convert_bits: bool,
    /// Every selected row can be converted to another format.
    pub can_convert_format: bool,
    /// The list has rows to select.
    pub can_select_all: bool,
    /// The rename entries are offered: exactly one selected row can be
    /// renamed.
    pub offer_rename: bool,
}

/// How many of the first `n` rows are selected and can be renamed.
pub open spec fn renameable_selected_upto(app: WavesPreviewer, facts: Seq<RowFileFacts>, n: int) -> nat
    decreases n,
{
    if n <= 0 {
        0
    } else if row_selected(app, n - 1) && facts[n - 1].renameable {
        renameable_selected_upto(app, facts, n - 1) + 1
    } else {
        renameable_selected_upto(app, facts, n - 1)
    }
}

/// The row menu's entries for the list's selection; `facts[i]` is what the
/// audio and export code tell of row `i`.
pub open spec fn row_menu_offer(app: WavesPreviewer, facts: Seq<RowFileFacts>, offer: RowMenuOffer) -> bool {
    let n = app.files@.len() as int;
    &&& offer.has_selection == has_selection(app)
    &&& offer.transcript_rows@ == transcript_rows_upto(app, facts, n)
    &&& offer.can_convert_bits == (has_selection(app) && forall|i: int|
        0 <= i < n && #[trigger] row_selected(app, i) ==> bits_convertible(app, facts, i))
    &&& offer.can_convert_format == (has_selection(app) && forall|i: int|
        0 <= i < n && #[trigger] row_selected(app, i) ==> facts[i].allows_export)
    &&& offer.can_select_all == (n > 0)
    &&& offer.offer_rename == (renameable_selected_upto(app, facts, n) == 1)
}

fn contains_usize(rows: &Vec<usize>, row: usize) -> (found: bool)
    ensures
        found == rows@.contains(row),
{
    let mut i: usize = 0;
    while i < rows.len()
        invariant
            i <= rows@.len(),
            forall|k: int| 0 <= k < i ==> rows@[k] != row,
        decreases rows@.len() - i,
    {
        if rows[i] == row {
            assert(rows@[i as int] == row);
            return true;
        }
        i = i + 1;
    }
    false
}

fn is_wav_item(item: &MediaItem) -> (wav: bool)
    ensures
        wav == wav_item(*item),
{
    match &item.extension {
        Some(e) => {
            proof {
                reveal_strlit("wav");
            }
            eq_ignore_ascii_case(e.as_str(), "wav")
        },
        None => false,
    }
}

impl WavesPreviewer {
    /// The row menu's entries for the current selection (see
    /// `row_menu_offer`).
    pub fn row_menu_offer(&self, facts: &Vec<RowFileFacts>) -> (offer: RowMenuOffer)
        requires
            facts@.len() == self.files@.len(),
        ensures
            row_menu_offer(*self, facts@, offer),
    {
        let n = self.files.len();
        let mut any = false;
        let mut bits = true;
        let mut format = true;
        let mut transcript: Vec<usize> = Vec::new();
        let mut renameable: usize = 0;
        let mut i: usize = 0;
        while i < n
            invariant
                n == self.files@.len() == facts@.len(),
                i <= n,
                any == exists|k: int| 0 <= k < i && #[trigger] row_selected(*self, k),
                bits == forall|k: int|
                    0 <= k < i && #[trigger] row_selected(*self, k) ==> bits_convertible(*self, facts@, k),
                format == forall|k: int|
                    0 <= k < i && #[trigger] row_selected(*self, k) ==> facts@[k].allows_export,
                transcript@ == transcript_rows_upto(*self, facts@, i as int),
                renameable == renameable_selected_upto(*self, facts@, i as int),
                renameable <= i,
            decreases n - i,
        {
            let selected = contains_usize(&self.selected_multi, i);
            assert(selected == row_selected(*self, i as int));
            if selected {
                any = true;
                let item = &self.files[i];
                let is_file = match item.source {
                    MediaSource::File => true,
                    _ => false,
                };
                let present = self.path_is_file_cached(item.path.as_str());
                let f = facts[i];
                if is_file && f.supported_audio && present {
                    transcript.push(i);
                }
                if !(is_wav_item(item) && is_file && f.allows_export && present) {
                    bits = false;
                }
                if !f.allows_export {
                    format = false;
                }
                if f.renameable {
                    renameable = renameable + 1;
                }
            }
            i = i + 1;
        }
        RowMenuOffer {
            has_selection: any,
            transcript_rows: transcript,
            can_convert_bits: any && bits,
            can_convert_format: any && format,
            can_select_all: n > 0,
            offer_rename: renameable == 1,
        }
    }

    /// A right click on row `row`: a row outside the selection is selected
    /// by the click (as a left click with the same keys would); a row in it
    /// keeps the selection. Returns whether the click changes the selection.
    pub fn row_secondary_click_selects(&self, row: usize) -> (selects: bool)
        ensures
            selects == !self.selected_multi@.contains(row),
    {
        !contains_usize(&self.selected_multi, row)
    }
}

/// The item carries the tag `tag`.
pub open spec fn item_has_tag(item: MediaItem, tag: Seq<char>) -> bool {
    exists|k: int| 0 <= k < item.tags@.len() && (#[trigger] item.tags@[k])@ == tag
}

/// In the Tags menu a tag is on when every selected row has it (and some
/// row is selected); choosing it sets it on the selection to the opposite.
pub open spec fn tag_on_for_selection(app: WavesPreviewer, tag: Seq<char>) -> bool {
    has_selection(app) && forall|i: int|
        0 <= i < app.files@.len() && #[trigger] row_selected(app, i) ==> item_has_tag(app.files@[i], tag)
}

fn carries_tag(item: &MediaItem, tag: &str) -> (has: bool)
    ensures
        has == item_has_tag(*item, tag@),
{
    let mut k: usize = 0;
    while k < item.tags.len()
        invariant
            k <= item.tags@.len(),
            forall|j: int| 0 <= j < k ==> (#[trigger] item.tags@[j])@ != tag@,
        decreases item.tags@.len() - k,
    {
        if crate::text::str_eq(item.tags[k].as_str(), tag) {
            return true;
        }
        k = k + 1;
    }
    false
}

impl WavesPreviewer {
    /// Whether the Tags menu shows `tag` as on for the selection (see
    /// `tag_on_for_selection`); choosing it sets the tag to the opposite.
    pub fn selection_tag_state(&self, tag: &str) -> (on: bool)
        ensures
            on == tag_on_for_selection(*self, tag@),
    {
        let n = self.files.len();
        let mut any = false;
        let mut all = true;
        let mut i: usize = 0;
        while i < n
            invariant
                n == self.files@.len(),
                i <= n,
                any == exists|k: int| 0 <= k < i && #[trigger] row_selected(*self, k),
                all == forall|k: int|
                    0 <= k < i && #[trigger] row_selected(*self, k) ==> item_has_tag(self.files@[k], tag@),
            decreases n - i,
        {
            let selected = contains_usize(&self.selected_multi, i);
            assert(selected == row_selected(*self, i as int));
            if selected {
                any = true;
                if !carries_tag(&self.files[i], tag) {
                    all = false;
                }
            }
            i = i + 1;
        }
        any && all
    }
}

/// What the transcription entry says and offers.
pub struct TranscriptEntry {
    pub label: String,
    pub enabled: bool,
    /// Why the entry is disabled.
    pub disabled_reason: Option<String>,
}

/// The transcription entry: while a run is going it cancels it; else it
/// starts one when the transcriber is ready and some selected row is a
/// real audio file. Disabled, it says why: no real audio file is selected,
/// or the transcriber's own reason (`unavailable`), or that it is
/// unavailable.
pub fn transcript_entry(running: bool, ready: bool, has_targets: bool, unavailable: Option<String>) -> (entry: TranscriptEntry)
    ensures
        entry.enabled == (running || (ready && has_targets)),
        entry.label@ == if running {
            "Transcript (AI) - Cancel"@
        } else {
            "Transcript (AI)"@
        },
        entry.enabled ==> entry.disabled_reason is None,
        !entry.enabled ==> (entry.disabled_reason matches Some(r) && r@ == if !has_targets {
            "Select at least one real audio file."@
        } else {
            match unavailable {
                Some(u) => u@,
                None => "Transcript AI is unavailable."@,
            }
        }),
{
    let enabled = running || (ready && has_targets);
    let label = if running {
        String::from_str("Transcript (AI) - Cancel")
    } else {
        String::from_str("Transcript (AI)")
    };
    let disabled_reason = if enabled {
        None
    } else if !has_targets {
        Some(String::from_str("Select at least one real audio file."))
    } else {
        match unavailable {
            Some(u) => Some(u),
            None => Some(String::from_str("Transcript AI is unavailable.")),
        }
    };
    TranscriptEntry { label, enabled, disabled_reason }
}

/// The hover text of a disabled Convert Format entry: the encoder's reason
/// when it is missing, else why video cannot be converted; none for an
/// enabled entry.
pub fn convert_format_hover(can_convert: bool, missing_encoder: Option<String>) -> (hover: Option<
    String,
>)
    ensures
        (can_convert && missing_encoder is None) ==> hover is None,
        !(can_convert && missing_encoder is None) ==> (hover matches Some(h) && h@ == match missing_encoder {
            Some(r) => r@,
            None => "Video sources are read-only in this version — their audio can be played and previewed, but not written back out."@,
        }),
{
    match missing_encoder {
        Some(r) => Some(r),
        None => if can_convert {
            None
        } else {
            Some(
                String::from_str(
                    "Video sources are read-only in this version — their audio can be played and previewed, but not written back out.",
                ),
            )
        },
    }
}

} // verus!

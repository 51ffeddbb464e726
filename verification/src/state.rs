//! The part of the previewer's state that the list, the editor tabs and the
//! windows read and change: plain values only, so every decision taken on
//! them can be stated and proved.
use vstd::prelude::*;

use crate::metadata::MetadataTabState;

verus! {

/// Where a list row comes from.
#[derive(Clone, Copy, Debug, PartialEq, Eq, Structural)]
pub enum MediaSource {
    /// A file on disk.
    File,
    /// A render that exists only in this session.
    Virtual,
    /// A row that only an external data sheet knows about.
    External,
}

/// What a virtual item was rendered from.
#[derive(Clone, Debug)]
pub enum VirtualSourceRef {
    /// A file on disk.
    FilePath(String),
    /// Another virtual item.
    VirtualPath(String),
    /// A sidecar document.
    Sidecar(String),
}

/// One row of the list.
#[derive(Clone, Debug)]
pub struct MediaItem {
    /// The row's path, as the list shows it.
    pub path: String,
    pub source: MediaSource,
    /// The path's extension as UTF-8, if it has one (`Path::extension`).
    pub extension: Option<String>,
    /// For a virtual item, what it was rendered from.
    pub virtual_source: Option<VirtualSourceRef>,
    /// Decoding the file failed.
    pub decode_failed: bool,
    /// The ids of the tags the row carries.
    pub tags: Vec<String>,
}

/// A labeled `[start, end)` range of samples in an editor tab.
#[derive(Clone, Debug)]
pub struct RegionEntry {
    pub start: usize,
    pub end: usize,
    pub label: String,
}

/// One step of an editor tab's undo history: its name and the regions the
/// tab had before the step.
#[derive(Clone, Debug)]
pub struct UndoEntry {
    pub label: String,
    pub regions: Vec<RegionEntry>,
}

/// An open editor tab.
#[derive(Default)]
pub struct EditorTab {
    pub path: String,
    pub buffer_sample_rate: u32,
    /// The selected `(start, end)` sample range, if any.
    pub selection: Option<(usize, usize)>,
    pub regions: Vec<RegionEntry>,
    /// The length of the tab's buffer, in samples per channel.
    pub samples_len: usize,
    /// Where the waveform view was sent to start, in samples.
    pub preview_offset_samples: Option<usize>,
    pub dirty: bool,
    pub loop_markers_dirty: bool,
    pub markers_dirty: bool,
    pub undo_stack: Vec<UndoEntry>,
    pub redo_stack: Vec<UndoEntry>,
    pub metadata: MetadataTabState,
}

/// Unsaved-change flags of a file that is not open in a tab.
#[derive(Clone, Copy, Debug)]
pub struct EditedCacheEntry {
    pub dirty: bool,
    pub loop_markers_dirty: bool,
    pub markers_dirty: bool,
}

/// How serious a toast is.
#[derive(Clone, Copy, Debug, PartialEq, Eq, Structural)]
pub enum ToastSeverity {
    Info,
    Warning,
    Error,
}

/// A short message shown over the window.
#[derive(Clone, Debug)]
pub struct Toast {
    pub severity: ToastSeverity,
    pub message: String,
}

/// Which signal the effect graph tester plays.
#[derive(Clone, Copy, Debug, PartialEq, Eq, Structural)]
pub enum EffectGraphPlaybackTarget {
    Input,
    Output,
}

/// The previewer: its list, its editor tabs, and the state of the windows
/// that act on them.
#[derive(Default)]
pub struct WavesPreviewer {
    /// The list's rows, in display order.
    pub files: Vec<MediaItem>,
    /// The focused row.
    pub selected: Option<usize>,
    /// All selected rows.
    pub selected_multi: Vec<usize>,
    pub select_anchor: Option<usize>,
    pub scroll_to_selected: bool,
    /// The first row of the list's window.
    pub list_scroll_row: usize,
    pub list_has_focus: bool,
    /// Paths that the file-presence cache has found missing; any other
    /// path counts as present until the cache learns otherwise.
    pub missing_paths: Vec<String>,
    pub active_tab: Option<usize>,
    pub tabs: Vec<EditorTab>,
    /// Unsaved-change flags of edited files that are not open in a tab.
    pub edited_cache: Vec<EditedCacheEntry>,
    pub pending_gain_count: usize,
    pub sample_rate_override_count: usize,
    pub bit_depth_override_count: usize,
    pub list_meta_prefetch_cursor: usize,
    pub inspection_window_filter_idx: usize,
    pub effect_graph_playback_target: Option<EffectGraphPlaybackTarget>,
    /// The audio output is playing.
    pub audio_playing: bool,
    /// The tester's input preview is still being rendered.
    pub input_preview_loading: bool,
    /// Rows are drawn on the standard background, with no per-file colors
    /// that need metadata.
    pub item_bg_standard: bool,
    /// From this many rows on, the list prefetches only file headers, and
    /// fewer rows ahead.
    pub list_bg_meta_large_threshold: usize,
    /// Toasts waiting to be shown, oldest first.
    pub toasts: Vec<Toast>,
    /// A click on a row also loads it for listening.
    pub list_click_audition: bool,
    /// Loading a row from the list also starts playing it.
    pub auto_play_list_nav: bool,
    pub search_has_focus: bool,
    /// The row whose name is being edited in place, and whether its editor
    /// takes the focus in the next frame.
    pub inline_rename_path: Option<String>,
    pub inline_rename_focus_next: bool,
    /// The loaded external data sources, and the one the window shows.
    pub external_sources: Vec<ExternalSource>,
    pub external_active_source: Option<usize>,
    /// The import settings the External Data window edits.
    pub external_sheet_selected: Option<String>,
    pub external_has_header: bool,
    pub external_header_row: Option<usize>,
    pub external_data_row: Option<usize>,
    /// The import settings were edited since the source was loaded.
    pub external_settings_dirty: bool,
    pub recording_tab: RecordingTab,
}

/// A loaded external data source and its import settings.
#[derive(Clone, Debug)]
pub struct ExternalSource {
    pub path: String,
    pub sheet_name: Option<String>,
    pub has_header: bool,
    pub header_row: Option<usize>,
    pub data_row: Option<usize>,
}

/// What the Recording view records from.
#[derive(Clone, Copy, Debug, PartialEq, Eq, Structural)]
pub enum RecordingSourceKind {
    Microphone,
    System,
    SystemAndMicrophone,
}

/// Where a recording stands.
#[derive(Clone, Debug)]
pub enum RecordingState {
    Idle,
    Recording,
    Paused,
    Finalizing,
    Error(String),
}

/// The Recording view's state.
pub struct RecordingTab {
    pub state: RecordingState,
    pub source: RecordingSourceKind,
    pub selected_mic_id: Option<String>,
    /// The discard confirmation is open.
    pub confirm_discard: bool,
    pub last_recording_path: Option<String>,
}

impl Default for RecordingTab {
    fn default() -> (tab: Self)
        ensures
            tab.state is Idle,
            tab.source == RecordingSourceKind::Microphone,
            tab.selected_mic_id is None,
            !tab.confirm_discard,
            tab.last_recording_path is None,
    {
        RecordingTab {
            state: RecordingState::Idle,
            source: RecordingSourceKind::Microphone,
            selected_mic_id: None,
            confirm_discard: false,
            last_recording_path: None,
        }
    }
}

} // verus!

use waves_ui::badges::Rgb;
use waves_ui::graph_canvas::{choose_bit_depth, mono_mix_channel_rows, set_ignored_channel, GraphBitDepth};
use waves_ui::list::list_empty_state_shown;
use waves_ui::settings::{
    apply_settings_change, settle_list_columns, ConflictPolicy, DisplaySettings, ListColumns, SaveMode,
    SettingsAction, SettingsChange, ThemeMode,
};
use waves_ui::external::external_row_shown;
use waves_ui::graph_canvas::{CanvasAction, CanvasEvent, GraphCanvas, GraphShortcut, PortKey};
use waves_ui::list::{ListRowEvent, ListRowTarget};
use waves_ui::recording::{
    normalized_recording_source, record_toggle_command, recording_can_stop,
    recording_transport_locked, show_last_take, RecordCommand,
};
use waves_ui::row_menu::{convert_format_hover, transcript_entry, RowFileFacts};
use waves_ui::state::{ExternalSource, RecordingSourceKind, RecordingState, RecordingTab};
use waves_ui::effect_graph::PlaybackStep;
use waves_ui::inspection::{
    filter_caption, inspection_tally, needs_extension, severity_badge, visible_inspection_rows,
    InspectionFilter, IssueSeverity,
};
use waves_ui::list::{list_key_target, ListInteractionState, ListKeys, ListRenderState};
use waves_ui::regions::csv_quoted_label;
use waves_ui::session::{change_size_text, human_bytes, ChangeKind};
use waves_ui::text::eq_ignore_ascii_case;
use waves_ui::state::{
    EditedCacheEntry, EditorTab, EffectGraphPlaybackTarget, MediaItem, MediaSource, RegionEntry,
    ToastSeverity, WavesPreviewer,
};

fn item(path: &str, extension: Option<&str>, source: MediaSource) -> MediaItem {
    MediaItem {
        path: path.to_string(),
        source,
        extension: extension.map(|e| e.to_string()),
        virtual_source: None,
        decode_failed: false,
        tags: Vec::new(),
    }
}

fn previewer(paths: &[&str]) -> WavesPreviewer {
    WavesPreviewer {
        files: paths
            .iter()
            .map(|p| item(p, Some("wav"), MediaSource::File))
            .collect(),
        ..Default::default()
    }
}

fn previewer_with_tab(selection: Option<(usize, usize)>) -> WavesPreviewer {
    let mut app = WavesPreviewer::default();
    app.tabs.push(EditorTab {
        path: "/music/take.wav".to_string(),
        buffer_sample_rate: 48_000,
        selection,
        ..Default::default()
    });
    app.active_tab = Some(0);
    app
}

#[test]
fn selecting_a_listed_path_makes_it_the_only_selection() {
    let mut app = previewer(&["/a.wav", "/b.wav", "/c.wav"]);
    app.selected_multi = vec![0, 2];
    app.select_list_path("/b.wav");
    assert_eq!(app.selected, Some(1));
    assert_eq!(app.selected_multi, vec![1]);
    assert_eq!(app.select_anchor, Some(1));
    assert!(app.scroll_to_selected);
    assert!(app.toasts.is_empty());
}

#[test]
fn selecting_a_path_that_left_the_list_says_so() {
    let mut app = previewer(&["/a.wav"]);
    app.select_list_path("/gone.wav");
    assert_eq!(app.selected, None);
    assert_eq!(app.toasts.len(), 1);
    assert_eq!(app.toasts[0].severity, ToastSeverity::Info);
    assert_eq!(app.toasts[0].message, "That file is no longer in the list");
}

#[test]
fn label_edits_apply_to_the_selection_only_when_the_row_is_in_it() {
    let mut app = previewer(&["/a.wav", "/b.wav", "/c.wav"]);
    app.selected_multi = vec![2, 0];
    assert_eq!(app.selected_paths(), vec!["/a.wav".to_string(), "/c.wav".to_string()]);
    assert_eq!(
        app.label_edit_targets("/c.wav"),
        vec!["/a.wav".to_string(), "/c.wav".to_string()]
    );
    assert_eq!(app.label_edit_targets("/b.wav"), vec!["/b.wav".to_string()]);
}

#[test]
fn the_list_header_reports_any_unsaved_change() {
    let mut app = previewer(&["/a.wav"]);
    assert!(!app.list_header_dirty());
    app.edited_cache.push(EditedCacheEntry {
        dirty: false,
        loop_markers_dirty: false,
        markers_dirty: true,
    });
    assert!(app.list_header_dirty());

    let mut app = previewer_with_tab(None);
    assert!(!app.list_header_dirty());
    app.tabs[0].loop_markers_dirty = true;
    assert!(app.list_header_dirty());

    let mut app = previewer(&[]);
    app.bit_depth_override_count = 1;
    assert!(app.list_header_dirty());
}

#[test]
fn finishing_a_list_frame_prefetches_around_the_visible_rows() {
    let paths: Vec<String> = (0..100).map(|i| format!("/f{i:03}.wav")).collect();
    let refs: Vec<&str> = paths.iter().map(|p| p.as_str()).collect();
    let mut app = previewer(&refs);
    app.files[15].source = MediaSource::Virtual;
    app.list_bg_meta_large_threshold = 1000;
    app.list_meta_prefetch_cursor = 7;
    let actions = app.finish_list_view(
        ListRenderState {
            visible_first_row: Some(10),
            visible_last_row: Some(20),
            missing_paths: vec!["/gone.wav".to_string()],
            sort_changed: true,
            to_open: Some("/f012.wav".to_string()),
        },
        ListInteractionState { list_has_focus: true },
    );
    // rows 2..=68, without the virtual row 15
    assert_eq!(actions.meta_prefetch.len(), 66);
    assert_eq!(actions.meta_prefetch[0].path, "/f002.wav");
    assert_eq!(actions.meta_prefetch[65].path, "/f068.wav");
    assert!(actions.meta_prefetch.iter().all(|m| !m.header_only));
    assert!(actions.meta_prefetch.iter().all(|m| m.path != "/f015.wav"));
    assert_eq!(actions.preview_rows, (Some(10), Some(20)));
    assert_eq!(actions.remove_missing, vec!["/gone.wav".to_string()]);
    assert!(actions.resort);
    assert_eq!(actions.open.as_deref(), Some("/f012.wav"));
    assert_eq!(app.list_meta_prefetch_cursor, 0);
    assert!(app.list_has_focus);
}

#[test]
fn large_lists_prefetch_headers_only_and_fewer_rows_ahead() {
    let paths: Vec<String> = (0..30).map(|i| format!("/g{i:02}.wav")).collect();
    let refs: Vec<&str> = paths.iter().map(|p| p.as_str()).collect();
    let mut app = previewer(&refs);
    app.list_bg_meta_large_threshold = 30;
    app.selected = Some(3);
    let actions = app.finish_list_view(
        ListRenderState {
            visible_first_row: None,
            visible_last_row: None,
            missing_paths: Vec::new(),
            sort_changed: false,
            to_open: None,
        },
        ListInteractionState { list_has_focus: false },
    );
    // start and end at the focused row 3: rows 0..=19
    assert_eq!(actions.meta_prefetch.len(), 20);
    assert!(actions.meta_prefetch.iter().all(|m| m.header_only));
    assert!(!actions.resort);

    app.item_bg_standard = true;
    let actions = app.finish_list_view(
        ListRenderState {
            visible_first_row: Some(0),
            visible_last_row: Some(5),
            missing_paths: Vec::new(),
            sort_changed: false,
            to_open: None,
        },
        ListInteractionState { list_has_focus: false },
    );
    assert!(actions.meta_prefetch.is_empty());
}

#[test]
fn type_sort_keys_and_badges_follow_the_row_kind() {
    assert_eq!(
        WavesPreviewer::list_type_sort_key(&item("/a.WAV", Some("WAV"), MediaSource::File)),
        "WAV"
    );
    assert_eq!(
        WavesPreviewer::list_type_sort_key(&item("/noext", None, MediaSource::File)),
        "file"
    );
    assert_eq!(
        WavesPreviewer::list_type_sort_key(&item("/v", None, MediaSource::Virtual)),
        "vir"
    );
    assert_eq!(
        WavesPreviewer::list_type_sort_key(&item("/x", None, MediaSource::External)),
        "ext"
    );

    let wav = WavesPreviewer::list_type_badge_for_item(&item("/a.WAV", Some("WAV"), MediaSource::File));
    assert_eq!(wav.label, "WAV");
    assert_eq!(wav.tooltip, "WAV file");
    assert_eq!(wav.fill, Rgb { r: 48, g: 96, b: 168 });
    assert_eq!(wav.stroke, Rgb { r: 120, g: 182, b: 255 });

    let mut broken = item("/b.flac", Some("flac"), MediaSource::File);
    broken.decode_failed = true;
    let badge = WavesPreviewer::list_type_badge_for_item(&broken);
    assert_eq!(badge.label, "FLAC");
    assert_eq!(badge.stroke, Rgb { r: 220, g: 110, b: 110 });

    let other = WavesPreviewer::list_type_badge_for_item(&item("/c.opus2", Some("opus2"), MediaSource::File));
    assert_eq!(other.label, "OPUS");
    assert_eq!(other.tooltip, ".opus2 file");

    let virt = WavesPreviewer::list_type_badge_for_item(&item("/v", None, MediaSource::Virtual));
    assert_eq!(virt.label, "VIR");
    assert_eq!(virt.tooltip, "Virtual audio");
}

#[test]
fn the_inspection_filter_round_trips_through_its_index() {
    let mut app = WavesPreviewer::default();
    assert_eq!(app.inspection_window_filter(), InspectionFilter::IssuesOnly);
    for filter in [InspectionFilter::All, InspectionFilter::ErrorsOnly, InspectionFilter::IssuesOnly] {
        app.set_inspection_window_filter(filter);
        assert_eq!(app.inspection_window_filter(), filter);
    }
    app.inspection_window_filter_idx = 9;
    assert_eq!(app.inspection_window_filter(), InspectionFilter::IssuesOnly);
}

#[test]
fn pressing_play_twice_undoes_the_first_press() {
    let mut app = WavesPreviewer::default();
    let target = EffectGraphPlaybackTarget::Output;
    assert_eq!(app.effect_graph_play_button_label(target, "Play output"), "Play output");
    assert_eq!(app.effect_graph_toggle_playback(target, false), PlaybackStep::Play);
    assert!(app.effect_graph_playback_active(target));
    assert_eq!(app.effect_graph_play_button_label(target, "Play output"), "Stop");
    assert_eq!(app.effect_graph_toggle_playback(target, false), PlaybackStep::Stopped);
    assert!(!app.effect_graph_playback_active(target));
    assert_eq!(app.effect_graph_playback_target, None);
}

#[test]
fn playback_through_an_effects_render_waits_for_the_render() {
    let mut app = WavesPreviewer::default();
    let target = EffectGraphPlaybackTarget::Input;
    app.input_preview_loading = true;
    assert_eq!(app.effect_graph_play_button_label(target, "Play input"), "Loading...");
    assert_eq!(app.effect_graph_toggle_playback(target, true), PlaybackStep::RenderThenPlay);
    assert!(!app.audio_playing);
    app.effect_graph_fx_render_started(false);
    assert!(!app.effect_graph_playback_active(target));
    app.effect_graph_fx_render_started(true);
    assert!(app.effect_graph_playback_active(target));
}

#[test]
fn adding_a_region_labels_it_and_keeps_the_regions_sorted() {
    let mut app = previewer_with_tab(Some((4_800, 9_600)));
    app.tabs[0].regions.push(RegionEntry {
        start: 10_000,
        end: 12_000,
        label: "Verse".to_string(),
    });
    assert!(app.test_add_region_from_selection());
    assert_eq!(
        app.test_regions(),
        vec![
            (4_800, 9_600, "R02".to_string()),
            (10_000, 12_000, "Verse".to_string()),
        ]
    );
    let tab = &app.tabs[0];
    assert_eq!(tab.undo_stack.len(), 1);
    assert_eq!(tab.undo_stack[0].label, "Add Region");
    assert_eq!(tab.undo_stack[0].regions.len(), 1);
    assert!(tab.redo_stack.is_empty());
}

#[test]
fn an_empty_selection_adds_no_region() {
    let mut app = previewer_with_tab(Some((500, 500)));
    assert!(!app.test_add_region_from_selection());
    assert!(app.test_regions().is_empty());
    let mut app = previewer_with_tab(None);
    assert!(!app.editor_add_region_from_selection());
    let mut app = WavesPreviewer::default();
    assert!(!app.test_add_region_from_selection());
    assert!(app.test_regions().is_empty());
}

#[test]
fn deleting_a_region_records_the_regions_it_had() {
    let mut app = previewer_with_tab(Some((0, 100)));
    assert!(app.editor_add_region_from_selection());
    app.tabs[0].selection = Some((200, 300));
    assert!(app.editor_add_region_from_selection());
    assert_eq!(app.test_regions()[1].2, "R02");
    assert!(!app.editor_delete_region(2));
    assert!(app.editor_delete_region(0));
    assert_eq!(app.test_regions(), vec![(200, 300, "R02".to_string())]);
    let tab = &app.tabs[0];
    assert_eq!(tab.undo_stack.len(), 3);
    assert_eq!(tab.undo_stack[2].label, "Delete Region");
    assert_eq!(tab.undo_stack[2].regions.len(), 2);
}

#[test]
fn region_saves_and_exports_are_reported_in_toasts() {
    let mut app = previewer_with_tab(Some((0, 10)));
    app.tabs[0].buffer_sample_rate = 0;
    assert!(app.editor_add_region_from_selection());
    let request = app.save_regions_sidecar_for_active_tab().expect("active tab");
    assert_eq!(request.path, "/music/take.wav");
    assert_eq!(request.sample_rate, 1);
    assert_eq!(request.regions.len(), 1);

    app.finish_regions_sidecar_save(1, Ok(()));
    app.finish_regions_sidecar_save(1, Err("disk full".to_string()));
    app.finish_regions_csv_export(3, Ok(()));
    app.finish_regions_csv_export(3, Err("denied".to_string()));
    let messages: Vec<(ToastSeverity, String)> = app
        .toasts
        .iter()
        .map(|t| (t.severity, t.message.clone()))
        .collect();
    assert_eq!(
        messages,
        vec![
            (ToastSeverity::Info, "Saved 1 region(s) to sidecar".to_string()),
            (ToastSeverity::Error, "Region sidecar save failed: disk full".to_string()),
            (ToastSeverity::Info, "Exported 3 region(s)".to_string()),
            (ToastSeverity::Error, "Region CSV export failed: denied".to_string()),
        ]
    );
    assert!(WavesPreviewer::default().save_regions_sidecar_for_active_tab().is_none());
}

#[test]
fn csv_labels_are_quoted_with_doubled_quotes() {
    assert_eq!(csv_quoted_label("Intro"), "\"Intro\"");
    assert_eq!(csv_quoted_label("say \"hi\""), "\"say \"\"hi\"\"\"");
    assert_eq!(csv_quoted_label(""), "\"\"");
}

#[test]
fn human_bytes_rounds_to_one_decimal_like_float_formatting() {
    assert_eq!(human_bytes(0), "0 B");
    assert_eq!(human_bytes(512), "512 B");
    assert_eq!(human_bytes(1023), "1023 B");
    assert_eq!(human_bytes(1024), "1.0 KB");
    assert_eq!(human_bytes(1280), "1.2 KB");
    assert_eq!(human_bytes(1536), "1.5 KB");
    assert_eq!(human_bytes(1_048_575), "1024.0 KB");
    assert_eq!(human_bytes(1_048_576), "1.0 MB");
    assert_eq!(human_bytes(11_010_048), "10.5 MB");
    assert_eq!(human_bytes(u64::MAX), "17592186044416.0 MB");
    for bytes in [1_100u64, 5_000, 123_456, 7_654_321, 999_999_999, 1 << 40] {
        let expected = if bytes >= 1 << 20 {
            format!("{:.1} MB", bytes as f64 / (1u64 << 20) as f64)
        } else {
            format!("{:.1} KB", bytes as f64 / 1024.0)
        };
        assert_eq!(human_bytes(bytes), expected, "{bytes}");
    }
}

fn keys() -> ListKeys {
    ListKeys {
        home: false,
        end: false,
        page_down: 0,
        page_up: 0,
        down: 0,
        up: 0,
    }
}

#[test]
fn navigation_keys_move_the_selection_inside_the_list() {
    assert_eq!(list_key_target(Some(5), 100, keys(), 20), None);
    assert_eq!(list_key_target(Some(5), 100, ListKeys { home: true, end: true, ..keys() }, 20), Some(0));
    assert_eq!(list_key_target(Some(5), 100, ListKeys { end: true, ..keys() }, 20), Some(99));
    assert_eq!(list_key_target(Some(5), 100, ListKeys { down: 3, up: 1, ..keys() }, 20), Some(7));
    assert_eq!(list_key_target(None, 100, ListKeys { down: 1, ..keys() }, 20), Some(1));
    assert_eq!(list_key_target(Some(5), 100, ListKeys { page_down: 2, down: 9, ..keys() }, 20), Some(45));
    assert_eq!(list_key_target(Some(5), 100, ListKeys { page_up: 1, ..keys() }, 20), Some(0));
    assert_eq!(list_key_target(Some(5), 100, ListKeys { page_down: 9, ..keys() }, 0), Some(14));
    assert_eq!(list_key_target(Some(5), 100, ListKeys { page_down: 1, page_up: 1, down: 4, ..keys() }, 20), Some(5));
    // a selection past the end counts from the last row
    assert_eq!(list_key_target(Some(500), 100, ListKeys { up: 1, ..keys() }, 20), Some(98));
}

#[test]
fn ctrl_a_selects_every_row() {
    let mut app = previewer(&["/a.wav", "/b.wav", "/c.wav"]);
    app.select_all_rows();
    assert_eq!(app.selected_multi, vec![0, 1, 2]);
    assert_eq!(app.selected, Some(0));
    app.selected = Some(2);
    app.select_all_rows();
    assert_eq!(app.selected, Some(2));
    let mut empty = previewer(&[]);
    empty.select_all_rows();
    assert!(empty.selected_multi.is_empty());
    assert_eq!(empty.selected, None);
}

#[test]
fn the_inspection_window_tallies_and_filters_results() {
    let rows = vec![
        Some(IssueSeverity::Error),
        None,
        Some(IssueSeverity::Warning),
        Some(IssueSeverity::Info),
        Some(IssueSeverity::Error),
        None,
    ];
    let tally = inspection_tally(&rows);
    assert_eq!((tally.errors, tally.warnings, tally.passed), (2, 1, 3));
    assert_eq!(visible_inspection_rows(InspectionFilter::All, &rows), vec![0, 1, 2, 3, 4, 5]);
    assert_eq!(visible_inspection_rows(InspectionFilter::IssuesOnly, &rows), vec![0, 2, 3, 4]);
    assert_eq!(visible_inspection_rows(InspectionFilter::ErrorsOnly, &rows), vec![0, 4]);
    assert!(visible_inspection_rows(InspectionFilter::ErrorsOnly, &vec![None, None]).is_empty());
    assert_eq!(filter_caption(InspectionFilter::IssuesOnly), "Issues only");
    assert_eq!(filter_caption(InspectionFilter::All), "All files");
    assert_eq!(severity_badge(Some(IssueSeverity::Warning)), ("WARN", Rgb { r: 235, g: 200, b: 90 }));
    assert_eq!(severity_badge(None), ("PASS", Rgb { r: 120, g: 200, b: 140 }));
}

#[test]
fn clicking_a_result_focuses_its_row_or_says_it_is_not_listed() {
    let mut app = previewer(&["/a.wav", "/b.wav"]);
    app.select_inspection_result("/b.wav");
    assert_eq!(app.selected, Some(1));
    assert!(app.scroll_to_selected);
    app.select_inspection_result("/zzz.wav");
    assert_eq!(app.selected, Some(1));
    assert_eq!(app.toasts.len(), 1);
    assert_eq!(app.toasts[0].message, "File is not in the current list view (filtered out?)");

    app.finish_inspection_report_save("/tmp/report.csv", Ok(()));
    app.finish_inspection_report_save("/tmp/report.csv", Err("read-only".to_string()));
    assert_eq!(app.toasts[1].message, "Inspection report saved: /tmp/report.csv");
    assert_eq!(app.toasts[2].severity, ToastSeverity::Error);
    assert_eq!(app.toasts[2].message, "Report save failed: read-only");
}

#[test]
fn saved_files_get_their_extension_unless_they_have_it() {
    assert!(needs_extension(None, "csv"));
    assert!(!needs_extension(Some("CSV"), "csv"));
    assert!(!needs_extension(Some("csv"), "csv"));
    assert!(needs_extension(Some("txt"), "csv"));
    assert!(needs_extension(Some("csvx"), "csv"));
    assert!(!needs_extension(Some("NwSess"), "nwsess"));
    assert!(eq_ignore_ascii_case("Ärger", "Ärger"));
    assert!(!eq_ignore_ascii_case("ärger", "Ärger"));
}

#[test]
fn changed_files_show_a_size_unless_they_are_gone() {
    assert_eq!(change_size_text(ChangeKind::Changed, 2_048), "2.0 KB");
    assert_eq!(change_size_text(ChangeKind::Added, 12), "12 B");
    assert_eq!(change_size_text(ChangeKind::Removed, 2_048), "\u{2014}");
    assert_eq!(change_size_text(ChangeKind::Unreadable, 0), "\u{2014}");
}

#[test]
fn restoring_over_unsaved_work_is_refused() {
    let mut app = WavesPreviewer::default();
    assert!(app.session_history_action_allowed(false, true));
    assert!(app.session_history_action_allowed(true, false));
    assert!(app.toasts.is_empty());
    assert!(!app.session_history_action_allowed(true, true));
    assert_eq!(app.toasts[0].severity, ToastSeverity::Warning);
    assert_eq!(
        app.toasts[0].message,
        "Save or discard your in-memory edits before restoring an earlier version"
    );
}

#[test]
fn a_region_can_be_selected_in_the_editor() {
    let mut app = previewer_with_tab(Some((10, 10)));
    assert!(!app.can_add_region_from_selection());
    app.tabs[0].regions.push(RegionEntry { start: 100, end: 400, label: "A".to_string() });
    assert!(!app.select_region_in_editor(1));
    assert!(app.select_region_in_editor(0));
    assert_eq!(app.tabs[0].selection, Some((100, 400)));
    assert!(app.can_add_region_from_selection());
    assert!(!WavesPreviewer::default().can_add_region_from_selection());
}

#[test]
fn the_list_window_follows_the_wheel_and_the_selection() {
    let paths: Vec<String> = (0..100).map(|i| format!("/s{i:02}.wav")).collect();
    let refs: Vec<&str> = paths.iter().map(|p| p.as_str()).collect();
    let mut app = previewer(&refs);
    app.update_list_scroll_state(20, 5, false);
    assert_eq!(app.list_scroll_row, 5);
    app.update_list_scroll_state(20, -9, false);
    assert_eq!(app.list_scroll_row, 0);
    app.update_list_scroll_state(20, 1_000, false);
    assert_eq!(app.list_scroll_row, 80);
    app.update_list_scroll_state(20, i64::MIN, false);
    assert_eq!(app.list_scroll_row, 0);

    app.selected = Some(50);
    app.scroll_to_selected = true;
    assert!(app.list_allow_auto_scroll(false, false));
    assert!(!app.list_allow_auto_scroll(false, true));
    assert!(app.list_allow_auto_scroll(true, true));
    app.update_list_scroll_state(20, 0, true);
    assert_eq!(app.list_scroll_row, 40);
    assert!(!app.scroll_to_selected);
    assert!(!app.list_allow_auto_scroll(true, false));

    app.selected = Some(99);
    app.update_list_scroll_state(20, 0, true);
    assert_eq!(app.list_scroll_row, 80);
    app.selected = Some(3);
    app.update_list_scroll_state(20, 0, true);
    assert_eq!(app.list_scroll_row, 0);

    // a list that fits never scrolls
    let mut small = previewer(&["/a.wav", "/b.wav"]);
    small.update_list_scroll_state(20, 3, false);
    assert_eq!(small.list_scroll_row, 0);
}

fn source(path: &str) -> ExternalSource {
    ExternalSource {
        path: path.to_string(),
        sheet_name: None,
        has_header: true,
        header_row: None,
        data_row: None,
    }
}

#[test]
fn removing_an_external_source_activates_its_neighbour() {
    let mut app = WavesPreviewer::default();
    assert!(!app.remove_active_external_source());
    app.external_sources = vec![source("a.csv"), source("b.csv"), source("c.csv")];
    app.external_active_source = Some(1);
    assert!(app.remove_active_external_source());
    assert_eq!(app.external_sources.len(), 2);
    assert_eq!(app.external_sources[1].path, "c.csv");
    assert_eq!(app.external_active_source, Some(1));
    assert!(app.remove_active_external_source());
    assert_eq!(app.external_active_source, Some(0));
    assert!(app.remove_active_external_source());
    assert_eq!(app.external_active_source, None);
    assert!(app.external_sources.is_empty());
    app.external_sources = vec![source("a.csv")];
    app.external_active_source = Some(4);
    assert!(!app.remove_active_external_source());
}

#[test]
fn the_external_window_shows_and_chooses_a_source() {
    let mut app = WavesPreviewer::default();
    assert_eq!(app.shown_external_source(), None);
    assert!(!app.choose_external_source(Some(0)));
    app.external_sources = vec![source("a.csv"), source("b.csv")];
    app.external_active_source = Some(9);
    assert_eq!(app.shown_external_source(), Some(1));
    app.external_settings_dirty = true;
    assert!(app.choose_external_source(None));
    assert_eq!(app.external_active_source, Some(1));
    assert!(!app.external_settings_dirty);
    assert!(!app.choose_external_source(Some(1)));
    assert!(app.choose_external_source(Some(0)));
    assert_eq!(app.external_active_source, Some(0));
}

#[test]
fn import_settings_go_to_the_active_source() {
    let mut app = WavesPreviewer::default();
    app.external_sources = vec![source("a.csv"), source("b.csv")];
    app.external_active_source = Some(1);
    app.select_external_sheet("Sheet2");
    assert_eq!(app.external_sheet_selected.as_deref(), Some("Sheet2"));
    assert_eq!(app.external_sources[1].sheet_name.as_deref(), Some("Sheet2"));
    assert_eq!(app.external_sources[0].sheet_name, None);
    assert!(app.external_settings_dirty);
    app.set_external_header_row(3);
    assert_eq!(app.external_header_row, Some(2));
    assert_eq!(app.external_sources[1].header_row, Some(2));
    app.set_external_has_header(false);
    assert!(!app.external_has_header);
    assert_eq!(app.external_header_row, None);
    assert_eq!(app.external_sources[1].header_row, None);
    assert!(!app.external_sources[1].has_header);
    app.set_external_data_row(0);
    assert_eq!(app.external_data_row, None);
    app.set_external_data_row(5);
    assert_eq!(app.external_sources[1].data_row, Some(4));
    assert_eq!(external_row_shown(Some(4)), 5);
    assert_eq!(external_row_shown(None), 0);
}

#[test]
fn clicks_on_rows_select_open_and_audition() {
    let mut app = previewer(&["/a.wav", "/b.wav", "/c.wav"]);
    app.selected_multi = vec![0, 2];
    let action = app.list_row_event(1, ListRowEvent { target: ListRowTarget::FileName, double: true });
    assert!(action.open_in_editor);
    assert_eq!(app.selected, Some(1));
    assert_eq!(app.selected_multi, vec![1]);
    assert_eq!(app.select_anchor, Some(1));
    assert!(app.list_has_focus);

    let action = app.list_row_event(2, ListRowEvent { target: ListRowTarget::Folder { is_virtual: true }, double: true });
    assert!(!action.reveal_in_folder && !action.open_in_editor);
    assert_eq!(app.selected, Some(2));

    let action = app.list_row_event(0, ListRowEvent { target: ListRowTarget::TypeBadge { has_artwork: true }, double: true });
    assert!(action.open_artwork && !action.click_selection);
    assert_eq!(app.selected, Some(2));

    app.list_click_audition = true;
    app.auto_play_list_nav = true;
    let action = app.list_row_event(0, ListRowEvent { target: ListRowTarget::Other, double: false });
    assert!(action.click_selection && action.load && action.autoplay);
    let action = app.list_row_event(0, ListRowEvent { target: ListRowTarget::Other, double: true });
    assert!(!action.click_selection && !action.load);
}

#[test]
fn the_row_menu_offers_what_the_selection_allows() {
    let mut app = WavesPreviewer {
        files: vec![
            item("/a.WAV", Some("WAV"), MediaSource::File),
            item("/b.mp4", Some("mp4"), MediaSource::File),
            item("/c.wav", Some("wav"), MediaSource::Virtual),
        ],
        ..Default::default()
    };
    let facts = vec![
        RowFileFacts { supported_audio: true, allows_export: true, renameable: true },
        RowFileFacts { supported_audio: true, allows_export: false, renameable: false },
        RowFileFacts { supported_audio: true, allows_export: true, renameable: true },
    ];
    let offer = app.row_menu_offer(&facts);
    assert!(!offer.has_selection && !offer.can_convert_bits && !offer.can_convert_format);
    assert!(offer.can_select_all);
    app.selected_multi = vec![0];
    let offer = app.row_menu_offer(&facts);
    assert!(offer.has_selection && offer.can_convert_bits && offer.can_convert_format);
    assert!(offer.offer_rename);
    assert_eq!(offer.transcript_rows, vec![0]);
    app.missing_paths = vec!["/a.WAV".to_string()];
    let offer = app.row_menu_offer(&facts);
    assert!(!offer.can_convert_bits && offer.can_convert_format);
    assert!(offer.transcript_rows.is_empty());
    app.missing_paths.clear();
    app.selected_multi = vec![0, 1, 2];
    let offer = app.row_menu_offer(&facts);
    assert!(!offer.can_convert_bits && !offer.can_convert_format);
    assert_eq!(offer.transcript_rows, vec![0, 1]);
    // rows 0 and 2 can both be renamed: no rename entry
    assert!(!offer.offer_rename);
    assert!(!app.row_secondary_click_selects(1));
    app.selected_multi = vec![2];
    assert!(app.row_secondary_click_selects(1));

    let entry = transcript_entry(false, true, false, None);
    assert!(!entry.enabled);
    assert_eq!(entry.label, "Transcript (AI)");
    assert_eq!(entry.disabled_reason.as_deref(), Some("Select at least one real audio file."));
    let entry = transcript_entry(false, false, true, None);
    assert_eq!(entry.disabled_reason.as_deref(), Some("Transcript AI is unavailable."));
    let entry = transcript_entry(true, false, false, None);
    assert!(entry.enabled);
    assert_eq!(entry.label, "Transcript (AI) - Cancel");
    assert_eq!(convert_format_hover(true, None), None);
    assert_eq!(convert_format_hover(true, Some("no mp3".to_string())).as_deref(), Some("no mp3"));
    assert!(convert_format_hover(false, None).unwrap().starts_with("Video sources are read-only"));
}

#[test]
fn the_recording_view_keeps_a_source_it_can_record() {
    assert_eq!(normalized_recording_source(RecordingSourceKind::SystemAndMicrophone, true), RecordingSourceKind::Microphone);
    assert_eq!(normalized_recording_source(RecordingSourceKind::System, false), RecordingSourceKind::Microphone);
    assert_eq!(normalized_recording_source(RecordingSourceKind::System, true), RecordingSourceKind::System);
    assert_eq!(record_toggle_command(&RecordingState::Recording), RecordCommand::Pause);
    assert_eq!(record_toggle_command(&RecordingState::Paused), RecordCommand::Resume);
    assert_eq!(record_toggle_command(&RecordingState::Error("x".to_string())), RecordCommand::Start);
    assert_eq!(record_toggle_command(&RecordingState::Finalizing), RecordCommand::Nothing);
    assert!(recording_transport_locked(&RecordingState::Finalizing));
    assert!(!recording_transport_locked(&RecordingState::Idle));
    assert!(recording_can_stop(&RecordingState::Paused));
    assert!(!recording_can_stop(&RecordingState::Finalizing));

    let mut app = WavesPreviewer::default();
    app.choose_recording_source(RecordingSourceKind::System, true);
    assert_eq!(app.recording_tab.source, RecordingSourceKind::System);
    app.recording_tab.state = RecordingState::Recording;
    app.choose_recording_source(RecordingSourceKind::Microphone, true);
    assert_eq!(app.recording_tab.source, RecordingSourceKind::System);
    app.set_recording_discard_prompt(true);
    assert!(app.recording_tab.confirm_discard);
    let tab = RecordingTab { last_recording_path: Some("/take.wav".to_string()), ..Default::default() };
    assert!(show_last_take(&tab));
    let busy = RecordingTab { state: RecordingState::Finalizing, ..tab };
    assert!(!show_last_take(&busy));
}

fn pin(node: &str, port: &str) -> PortKey {
    PortKey { node_id: node.to_string(), port_id: port.to_string() }
}

#[test]
fn the_graph_canvas_connects_selects_and_snapshots() {
    let mut canvas = GraphCanvas {
        selected_nodes: Vec::new(),
        selected_edge_id: Some("e1".to_string()),
        connecting_from_port: None,
        drag_palette_kind: None,
        background_panning: false,
        focus_node_id: None,
    };
    assert!(matches!(canvas.effect_graph_canvas_step(CanvasEvent::NodeClicked { node_id: "gain".to_string() }), CanvasAction::Nothing));
    assert_eq!(canvas.selected_nodes, vec!["gain".to_string()]);
    assert_eq!(canvas.selected_edge_id, None);
    assert!(matches!(canvas.effect_graph_canvas_step(CanvasEvent::ReleasedOnInputPin { pin: pin("out", "in1") }), CanvasAction::Nothing));
    canvas.effect_graph_canvas_step(CanvasEvent::OutputPinClicked { pin: pin("gain", "out") });
    match canvas.effect_graph_canvas_step(CanvasEvent::ReleasedOnInputPin { pin: pin("out", "in1") }) {
        CanvasAction::Connect { from, to } => {
            assert_eq!((from.node_id.as_str(), from.port_id.as_str()), ("gain", "out"));
            assert_eq!((to.node_id.as_str(), to.port_id.as_str()), ("out", "in1"));
        }
        _ => panic!("expected a connection"),
    }
    assert!(canvas.connecting_from_port.is_none());
    assert!(matches!(canvas.effect_graph_canvas_step(CanvasEvent::TitleDragStarted), CanvasAction::PushUndoSnapshot));
    canvas.effect_graph_canvas_step(CanvasEvent::OutputPinClicked { pin: pin("gain", "out") });
    canvas.effect_graph_canvas_step(CanvasEvent::CanvasClicked);
    assert!(canvas.selected_nodes.is_empty() && canvas.connecting_from_port.is_none());
}

#[test]
fn graph_shortcuts_delete_cancel_and_focus() {
    let mut canvas = GraphCanvas {
        selected_nodes: vec!["eq".to_string(), "gain".to_string()],
        selected_edge_id: Some("e1".to_string()),
        connecting_from_port: Some(pin("eq", "out")),
        drag_palette_kind: Some("Gain".to_string()),
        background_panning: true,
        focus_node_id: None,
    };
    assert!(matches!(canvas.effect_graph_shortcut(GraphShortcut::Delete), CanvasAction::RemoveSelected));
    assert_eq!(canvas.selected_nodes.len(), 2);
    canvas.effect_graph_shortcut(GraphShortcut::Escape);
    assert!(canvas.connecting_from_port.is_none() && canvas.drag_palette_kind.is_none());
    assert!(canvas.selected_edge_id.is_none() && !canvas.background_panning);
    assert_eq!(canvas.selected_nodes.len(), 2);
    canvas.effect_graph_shortcut(GraphShortcut::Focus);
    assert_eq!(canvas.focus_node_id.as_deref(), Some("eq"));
}

fn no_columns() -> ListColumns {
    ListColumns {
        edited: false, file: false, folder: false, transcript: false, external: false, length: false,
        channels: false, sample_rate: false, bits: false, bit_rate: false, peak: false, lufs: false,
        bpm: false, created_at: false, modified_at: false, gain: false, wave: false,
    }
}

#[test]
fn settings_keep_a_column_and_handle_dotfiles() {
    let mut settings = DisplaySettings {
        save_mode: SaveMode::Overwrite,
        dest_folder: None,
        name_template: "{name}".to_string(),
        conflict: ConflictPolicy::Rename,
        backup_bak: false,
        theme: ThemeMode::Dark,
        skip_dotfiles: false,
        list_columns: ListColumns { file: true, length: true, ..no_columns() },
    };
    // no column left: the File column comes back
    let only_external = ListColumns { external: true, ..no_columns() };
    assert_eq!(settle_list_columns(only_external, false), ListColumns { file: true, ..only_external });
    assert_eq!(settle_list_columns(only_external, true), only_external);
    assert_eq!(
        apply_settings_change(&mut settings, SettingsChange::Columns(no_columns()), false, false),
        SettingsAction::Resort
    );
    assert_eq!(settings.list_columns, ListColumns { file: true, ..no_columns() });
    assert_eq!(
        apply_settings_change(&mut settings, SettingsChange::Columns(no_columns()), false, false),
        SettingsAction::Nothing
    );
    // dotfiles: drop them without a folder, rescan with one
    assert_eq!(
        apply_settings_change(&mut settings, SettingsChange::SkipDotfiles(true), false, false),
        SettingsAction::SaveAndDropDotfiles
    );
    assert_eq!(
        apply_settings_change(&mut settings, SettingsChange::SkipDotfiles(true), true, false),
        SettingsAction::Nothing
    );
    assert_eq!(
        apply_settings_change(&mut settings, SettingsChange::SkipDotfiles(false), true, false),
        SettingsAction::SaveAndRescan
    );
    assert_eq!(
        apply_settings_change(&mut settings, SettingsChange::SkipDotfiles(true), true, false),
        SettingsAction::SaveAndRescan
    );
    assert_eq!(
        apply_settings_change(&mut settings, SettingsChange::Theme(ThemeMode::Light), false, false),
        SettingsAction::ApplyTheme
    );
    assert_eq!(settings.theme, ThemeMode::Light);
    apply_settings_change(&mut settings, SettingsChange::SaveMode(SaveMode::NewFile), false, false);
    apply_settings_change(&mut settings, SettingsChange::Conflict(ConflictPolicy::Skip), false, false);
    apply_settings_change(&mut settings, SettingsChange::DestFolder(Some("/out".to_string())), false, false);
    assert_eq!(settings.save_mode, SaveMode::NewFile);
    assert_eq!(settings.conflict, ConflictPolicy::Skip);
    assert_eq!(settings.dest_folder.as_deref(), Some("/out"));
}

#[test]
fn tags_are_on_only_when_every_selected_row_has_them() {
    let mut app = previewer(&["/a.wav", "/b.wav", "/c.wav"]);
    app.files[0].tags = vec!["drums".to_string()];
    app.files[1].tags = vec!["drums".to_string(), "loop".to_string()];
    assert!(!app.selection_tag_state("drums"));
    app.selected_multi = vec![0, 1];
    assert!(app.selection_tag_state("drums"));
    assert!(!app.selection_tag_state("loop"));
    app.selected_multi = vec![0, 1, 2];
    assert!(!app.selection_tag_state("drums"));
}

#[test]
fn graph_node_controls_grow_channels_and_change_depth() {
    assert_eq!(mono_mix_channel_rows(2), 8);
    assert_eq!(mono_mix_channel_rows(12), 12);
    let mut ignored = vec![false, true];
    set_ignored_channel(&mut ignored, 5, true);
    assert_eq!(ignored, vec![false, true, false, false, false, true]);
    set_ignored_channel(&mut ignored, 1, false);
    assert_eq!(ignored, vec![false, false, false, false, false, true]);
    assert_eq!(choose_bit_depth(GraphBitDepth::Pcm16, GraphBitDepth::Pcm16), None);
    assert_eq!(choose_bit_depth(GraphBitDepth::Pcm16, GraphBitDepth::Float32), Some(GraphBitDepth::Float32));
}

#[test]
fn the_list_welcome_and_the_rename_editor() {
    assert!(list_empty_state_shown(false, 0));
    assert!(!list_empty_state_shown(true, 0));
    assert!(!list_empty_state_shown(false, 3));
    let mut app = previewer(&["/a.wav"]);
    app.inline_rename_path = Some("/a.wav".to_string());
    app.finish_inline_rename(Some(Err("name taken".to_string())));
    assert_eq!(app.inline_rename_path.as_deref(), Some("/a.wav"));
    assert!(app.inline_rename_focus_next);
    assert_eq!(app.toasts.last().unwrap().message, "Rename failed: name taken");
    assert_eq!(app.toasts.last().unwrap().severity, ToastSeverity::Error);
    app.finish_inline_rename(Some(Ok(())));
    assert_eq!(app.inline_rename_path, None);
    app.inline_rename_path = Some("/a.wav".to_string());
    app.finish_inline_rename(None);
    assert_eq!(app.inline_rename_path, None);
}

#[test]
fn adding_regions_keeps_them_sorted_with_numbered_labels() {
    let mut app = previewer_with_tab(Some((100, 200)));
    assert!(app.test_add_region_from_selection());
    assert_eq!(app.test_regions(), vec![(100, 200, "R01".to_string())]);
    app.tabs[0].selection = Some((10, 50));
    assert!(app.test_add_region_from_selection());
    app.tabs[0].selection = Some((100, 150));
    assert!(app.test_add_region_from_selection());
    assert_eq!(
        app.test_regions(),
        vec![(10, 50, "R02".to_string()), (100, 150, "R03".to_string()), (100, 200, "R01".to_string())]
    );
    // deleting the region just added gives the regions back
    assert!(app.editor_delete_region(1));
    assert_eq!(
        app.test_regions(),
        vec![(10, 50, "R02".to_string()), (100, 200, "R01".to_string())]
    );
}

use std::io::Cursor;

use waves_ui::metadata_jobs::{
    action_progress_text, can_start_search, search_kind_caption, search_kind_for_index,
    search_result_link, shown_search_results, SearchKind,
};

use waves_ui::artwork::{
    artwork_needs_fit, decode_artwork_preview, list_artwork_from_decoded, prepare_list_artwork,
    preview_from_decoded, DecodedPicture,
};
use waves_ui::metadata::{
    ContainerKind, ContentKind, MetadataDocument, MetadataNode, MetadataTabState, PayloadRef,
    SourceRange,
};
use waves_ui::hex_pages::{
    hex_byte_highlight, hex_byte_text, hex_pages_to_read, hex_row_address, hex_row_highlight,
    playhead_direction, ByteHighlight, RowHighlight,
};
use waves_ui::metadata::MetadataHexPage;
use waves_ui::metadata_jobs::{copy_hex_text, extract_file_name, MetadataActionResult};
use waves_ui::metadata_nav::{navigation_button_text, MetadataEditorNavigation};
use waves_ui::state::{EditorTab, WavesPreviewer};

fn png_bytes(width: u32, height: u32) -> Vec<u8> {
    let picture = image::DynamicImage::ImageRgba8(image::RgbaImage::new(width, height));
    let mut bytes = Vec::new();
    picture
        .write_to(&mut Cursor::new(&mut bytes), image::ImageFormat::Png)
        .expect("encode png");
    bytes
}

fn one_tab() -> WavesPreviewer {
    let mut app = WavesPreviewer::default();
    app.tabs.push(EditorTab::default());
    app
}

#[test]
fn a_hex_page_is_read_once_and_then_served_from_the_cache() {
    let mut app = one_tab();
    assert_eq!(app.request_metadata_hex_page(0, 70_000), Some(65_536));
    assert!(app.tabs[0].metadata.hex_page_pending);
    // asked again while the read runs: no second read
    assert_eq!(app.request_metadata_hex_page(0, 65_536), None);

    app.receive_metadata_hex_pages(
        0,
        Ok(vec![(65_536, vec![1; 4]), (0, vec![0; 4]), (131_072, vec![2; 4])]),
    );
    let m = &app.tabs[0].metadata;
    assert!(!m.hex_page_pending);
    assert_eq!(m.hex_page_requested, None);
    assert_eq!(m.hex_page.as_ref().map(|p| p.start), Some(65_536));
    let starts: Vec<u64> = m.hex_pages.iter().map(|p| p.start).collect();
    assert_eq!(starts, vec![65_536, 0, 131_072]);

    // a cached page becomes the shown one and the newest
    assert_eq!(app.request_metadata_hex_page(0, 10), None);
    let m = &app.tabs[0].metadata;
    assert_eq!(m.hex_page.as_ref().map(|p| (p.start, p.bytes.clone())), Some((0, vec![0; 4])));
    let starts: Vec<u64> = m.hex_pages.iter().map(|p| p.start).collect();
    assert_eq!(starts, vec![65_536, 131_072, 0]);

    // the page read for the request is not read again
    assert_eq!(app.request_metadata_hex_page(0, 65_537), None);
}

#[test]
fn the_hex_cache_keeps_its_newest_128_pages_without_duplicates() {
    let mut m = MetadataTabState::default();
    for batch in 0..50u64 {
        let pages: Vec<(u64, Vec<u8>)> = (0..3u64)
            .map(|k| ((batch + k) * 65_536, vec![batch as u8]))
            .collect();
        m.receive_hex_pages(Ok(pages));
    }
    assert_eq!(m.hex_pages.len(), 52);
    let mut starts: Vec<u64> = m.hex_pages.iter().map(|p| p.start).collect();
    assert_eq!(*starts.last().unwrap(), 51 * 65_536);
    starts.sort_unstable();
    starts.dedup();
    assert_eq!(starts.len(), 52);

    for batch in 0..100u64 {
        m.receive_hex_pages(Ok(vec![((1_000 + batch) * 65_536, vec![])]));
    }
    assert_eq!(m.hex_pages.len(), 128);
    assert_eq!(m.hex_pages[127].start, 1_099 * 65_536);
    assert_eq!(m.hex_pages[0].start, 24 * 65_536);
}

#[test]
fn a_failed_page_read_is_reported_and_can_be_retried() {
    let mut m = MetadataTabState::default();
    assert_eq!(m.request_hex_page(5), Some(0));
    m.receive_hex_pages(Err("read failed".to_string()));
    assert_eq!(m.error.as_deref(), Some("read failed"));
    assert!(m.hex_pages.is_empty());
    assert_eq!(m.request_hex_page(5), Some(0));
}

#[test]
fn list_artwork_is_checked_decoded_and_fitted_to_the_window() {
    let err = prepare_list_artwork(None).err().expect("no artwork");
    assert_eq!(err, "No embedded artwork.");
    let err = prepare_list_artwork(Some(&[][..])).err().expect("empty artwork");
    assert_eq!(err, "Artwork is unavailable or too large.");
    let huge = vec![0u8; 24 * 1024 * 1024 + 1];
    let err = prepare_list_artwork(Some(huge.as_slice())).err().expect("oversized artwork");
    assert_eq!(err, "Artwork is unavailable or too large.");

    let err = prepare_list_artwork(Some(&b"not an image"[..])).err().expect("garbage");
    assert!(err.starts_with("Failed to decode artwork: "), "{err}");
    assert!(err.len() > "Failed to decode artwork: ".len());

    let small = prepare_list_artwork(Some(png_bytes(40, 30).as_slice())).expect("small png");
    assert_eq!((small.width, small.height), (40, 30));
    assert_eq!(small.rgba.len(), 40 * 30 * 4);

    let large = prepare_list_artwork(Some(png_bytes(2_000, 1_000).as_slice())).expect("large png");
    assert_eq!((large.width, large.height), (1_400, 700));
    assert_eq!(large.rgba.len(), 1_400 * 700 * 4);

    assert!(artwork_needs_fit(1_401, 10));
    assert!(artwork_needs_fit(10, 1_401));
    assert!(!artwork_needs_fit(1_400, 1_400));
}

#[test]
fn inspector_artwork_is_decoded_into_a_preview() {
    let preview = decode_artwork_preview(&png_bytes(2_048, 512)).expect("png");
    assert_eq!((preview.width, preview.height), (1_024, 256));
    assert!(decode_artwork_preview(b"\x89PNG broken").is_err());
}

#[test]
fn decoded_pictures_are_fitted_to_their_boxes() {
    let tall = image::DynamicImage::new_rgb8(300, 3_000);
    let art = list_artwork_from_decoded(Ok(DecodedPicture::new(tall.clone()))).expect("picture");
    assert_eq!((art.width, art.height), (140, 1_400));
    assert_eq!(art.rgba.len(), 140 * 1_400 * 4);
    let art = preview_from_decoded(Ok(DecodedPicture::new(tall))).expect("picture");
    assert_eq!((art.width, art.height), (102, 1_024));
    assert_eq!(art.rgba.len(), 102 * 1_024 * 4);
    let small = image::DynamicImage::new_luma8(7, 5);
    let art = list_artwork_from_decoded(Ok(DecodedPicture::new(small))).expect("picture");
    assert_eq!((art.width, art.height), (7, 5));
    assert_eq!(art.rgba.len(), 7 * 5 * 4);
    // a picture that fits is shown pixel for pixel
    let mut dot = image::RgbaImage::new(3, 2);
    dot.put_pixel(1, 1, image::Rgba([10, 20, 30, 40]));
    let art = list_artwork_from_decoded(Ok(DecodedPicture::new(image::DynamicImage::ImageRgba8(dot.clone()))))
        .expect("picture");
    assert_eq!(art.rgba, dot.into_raw());
    let picture = DecodedPicture::new(image::DynamicImage::new_rgb8(1_500, 10));
    assert_eq!((picture.width(), picture.height()), (1_500, 10));
}

#[test]
fn artwork_is_read_once_per_node() {
    let mut app = one_tab();
    let cover = MetadataNode {
        id: 4,
        parent: None,
        name: "APIC".to_string(),
        payload: PayloadRef { file_offset: 100, length: 2_000 },
        content: ContentKind::Image,
        summary: None,
    };
    assert_eq!(app.request_metadata_artwork(0, &cover), Some(cover.payload));
    assert_eq!(app.request_metadata_artwork(0, &cover), None);
    app.tabs[0].metadata.receive_artwork(Ok(4));
    assert_eq!(app.tabs[0].metadata.artwork_shown, Some(4));
    assert_eq!(app.request_metadata_artwork(0, &cover), None);

    let mut m = MetadataTabState::default();
    assert!(m.request_artwork(9));
    m.receive_artwork(Err("bad data".to_string()));
    assert_eq!(m.action_status.as_deref(), Some("Artwork: bad data"));
    assert_eq!(m.artwork_shown, None);
    assert!(m.request_artwork(9));
}

#[test]
fn payload_actions_run_one_at_a_time_and_report_what_they_found() {
    let mut app = one_tab();
    let payload = PayloadRef { file_offset: 0, length: 4_096 };
    assert!(app.start_metadata_action(0, payload));
    assert!(!app.start_metadata_action(0, payload));
    let m = &mut app.tabs[0].metadata;
    assert_eq!(m.action_status.as_deref(), Some("Working..."));
    assert_eq!(m.action_total, 4_096);
    assert_eq!(m.action_progress, Some(0));

    assert_eq!(m.receive_action(Ok(MetadataActionResult::Search(vec![3, 99]))), None);
    assert_eq!(m.action_status.as_deref(), Some("2 matches"));
    assert_eq!(m.search_results, vec![3, 99]);
    assert!(!m.action_pending);
    assert_eq!(m.action_total, 0);
    assert_eq!(m.action_progress, None);

    assert!(m.start_action(8));
    assert_eq!(
        m.receive_action(Ok(MetadataActionResult::CopyHex("00 FF".to_string()))).as_deref(),
        Some("00 FF")
    );
    assert_eq!(m.action_status.as_deref(), Some("Copied hex bytes"));
    assert_eq!(m.search_results, vec![3, 99]);

    m.receive_action(Ok(MetadataActionResult::Hash("ab12".to_string())));
    assert_eq!(m.action_status.as_deref(), Some("SHA-256: ab12"));
    m.receive_action(Ok(MetadataActionResult::Extracted("/tmp/x.bin".to_string())));
    assert_eq!(m.action_status.as_deref(), Some("Extracted to /tmp/x.bin"));
    m.receive_action(Err("cancelled".to_string()));
    assert_eq!(m.action_status.as_deref(), Some("Error: cancelled"));
}

#[test]
fn copied_bytes_are_upper_case_hex_pairs() {
    assert_eq!(copy_hex_text(&[]), "");
    assert_eq!(copy_hex_text(&[0x0A]), "0A");
    assert_eq!(copy_hex_text(&[0x00, 0x0A, 0xFF, 0x7B]), "00 0A FF 7B");
}

#[test]
fn a_scan_selects_the_first_top_level_node() {
    let mut app = one_tab();
    app.start_metadata_scan(0);
    assert!(app.tabs[0].metadata.loading);
    let m = &mut app.tabs[0].metadata;
    m.hex_offset = 77;
    m.receive_scan(Ok(MetadataDocument {
        container: ContainerKind::Flac,
        roots: vec![2, 0],
        nodes: Vec::new(),
        audio_mapping: None,
    }));
    assert!(!m.loading);
    assert!(!m.scan_pending);
    assert_eq!(m.selected_node, Some(2));
    assert_eq!(m.hex_offset, 0);
    assert!(m.document.is_some());

    let mut m = MetadataTabState::default();
    m.start_scan();
    m.receive_scan(Err("unsupported".to_string()));
    assert_eq!(m.error.as_deref(), Some("unsupported"));
    assert!(m.document.is_none());
    assert!(!m.loading);
}

#[test]
fn a_page_read_also_fetches_the_neighbouring_pages() {
    assert_eq!(hex_pages_to_read(0), vec![0, 65_536]);
    assert_eq!(hex_pages_to_read(131_072), vec![131_072, 65_536, 196_608]);
    let last = u64::MAX - u64::MAX % 65_536;
    assert_eq!(hex_pages_to_read(last), vec![last, last - 65_536]);
}

#[test]
fn the_hex_view_points_towards_the_playhead() {
    let page = MetadataHexPage { start: 65_536, bytes: vec![0; 16] };
    assert_eq!(playhead_direction(&page, 10), Some("\u{2190} playhead"));
    assert_eq!(playhead_direction(&page, 65_536), None);
    assert_eq!(playhead_direction(&page, 65_551), None);
    assert_eq!(playhead_direction(&page, 65_552), Some("playhead \u{2192}"));
}

#[test]
fn navigation_buttons_say_where_they_go() {
    let (caption, hover) = navigation_button_text(&MetadataEditorNavigation::Sample(48_000), true);
    assert_eq!(caption.as_deref(), Some("Jump to sample 48000"));
    assert_eq!(hover, "Open Wave and move the source playhead to this cue point.");
    let (caption, hover) = navigation_button_text(
        &MetadataEditorNavigation::Range { start: 120, end_inclusive: 960 },
        false,
    );
    assert_eq!(caption.as_deref(), Some("Show loop 120..960"));
    assert_eq!(hover, "Unavailable because this view describes a virtual or edited source.");
    let (caption, hover) = navigation_button_text(&MetadataEditorNavigation::Tempo("128.5".to_string()), true);
    assert_eq!(caption, None);
    assert_eq!(hover, "Open Wave and copy this ACID tempo into the editor BPM grid.");
}

#[test]
fn extracted_payloads_are_named_after_their_node() {
    let mut n = MetadataNode {
        id: 1,
        parent: None,
        name: "LIST ".to_string(),
        payload: PayloadRef { file_offset: 0, length: 4 },
        content: ContentKind::Container,
        summary: None,
    };
    assert_eq!(extract_file_name(&n), "LIST.bin");
    n.name = "  ".to_string();
    assert_eq!(extract_file_name(&n), ".bin");
}

#[test]
fn selecting_a_structure_node_opens_it_on_its_own_tab() {
    let mut app = one_tab();
    let document = MetadataDocument {
        container: ContainerKind::Mp3,
        roots: vec![0],
        nodes: vec![
            MetadataNode {
                id: 0,
                parent: None,
                name: "ID3".to_string(),
                payload: PayloadRef { file_offset: 0, length: 100 },
                content: ContentKind::Container,
                summary: None,
            },
            MetadataNode {
                id: 1,
                parent: Some(0),
                name: "APIC".to_string(),
                payload: PayloadRef { file_offset: 40, length: 60 },
                content: ContentKind::Image,
                summary: None,
            },
        ],
        audio_mapping: None,
    };
    app.tabs[0].metadata.text_encoding = 2;
    assert_eq!(app.select_metadata_structure_node(0, &document, Some(1)), Some((40, true)));
    let m = &app.tabs[0].metadata;
    assert_eq!(m.selected_node, Some(1));
    assert_eq!(m.detail_tab, waves_ui::metadata::MetadataDetailTab::Decoded);
    assert_eq!(m.text_encoding, 0);
    assert_eq!(m.hex_offset, 40);

    // selecting the same node again keeps what the user changed since
    app.tabs[0].metadata.text_encoding = 3;
    app.tabs[0].metadata.hex_offset = 77;
    assert_eq!(app.select_metadata_structure_node(0, &document, Some(1)), Some((40, true)));
    assert_eq!(app.tabs[0].metadata.text_encoding, 3);
    assert_eq!(app.tabs[0].metadata.hex_offset, 77);

    assert_eq!(app.select_metadata_structure_node(0, &document, Some(0)), Some((0, false)));
    assert_eq!(app.tabs[0].metadata.detail_tab, waves_ui::metadata::MetadataDetailTab::Properties);
    assert_eq!(app.select_metadata_structure_node(0, &document, Some(9)), None);
    assert_eq!(app.tabs[0].metadata.selected_node, Some(9));
    assert_eq!(app.select_metadata_structure_node(0, &document, None), None);
}

#[test]
fn hex_rows_and_bytes_show_the_playhead_before_marks_and_selection() {
    let row = SourceRange { offset: 0x100, length: 16 };
    let live = Some(SourceRange { offset: 0x104, length: 4 });
    let marked = Some(SourceRange { offset: 0x10F, length: 8 });
    let selected = Some(SourceRange { offset: 0, length: 0x1000 });
    assert_eq!(hex_row_highlight(3, row, live, selected, marked), RowHighlight::Live);
    assert_eq!(hex_row_highlight(3, row, None, selected, marked), RowHighlight::Marked);
    assert_eq!(hex_row_highlight(3, row, None, selected, None), RowHighlight::Selected);
    assert_eq!(hex_row_highlight(3, row, None, None, None), RowHighlight::Odd);
    assert_eq!(hex_row_highlight(4, row, None, None, None), RowHighlight::Even);
    assert_eq!(hex_byte_highlight(0x105, live, marked), ByteHighlight::Live);
    assert_eq!(hex_byte_highlight(0x10F, live, marked), ByteHighlight::Marked);
    assert_eq!(hex_byte_highlight(0x10E, live, marked), ByteHighlight::Plain);
    assert_eq!(hex_row_address(0x1A2B), "0000000000001A2B");
    assert_eq!(hex_row_address(u64::MAX), "FFFFFFFFFFFFFFFF");
    assert_eq!(hex_byte_text(0x0F), "0F");
}

#[test]
fn the_inspector_scans_its_source_once_and_again_on_refresh() {
    let mut app = WavesPreviewer::default();
    app.tabs.push(EditorTab { path: "/take.wav".to_string(), ..Default::default() });
    assert_eq!(app.ensure_metadata_scan(0).as_deref(), Some("/take.wav"));
    assert!(app.tabs[0].metadata.scan_pending);
    assert_eq!(app.ensure_metadata_scan(0), None);
    app.tabs[0].metadata.receive_scan(Ok(MetadataDocument {
        container: ContainerKind::RiffWave,
        roots: vec![0],
        nodes: Vec::new(),
        audio_mapping: None,
    }));
    assert_eq!(app.ensure_metadata_scan(0), None);

    app.tabs[0].metadata.action_cancel_armed = true;
    let (scan, cancelled) = app.refresh_metadata_tab(0);
    assert_eq!(scan.as_deref(), Some("/take.wav"));
    assert!(cancelled);
    let m = &app.tabs[0].metadata;
    assert!(m.document.is_none());
    assert!(m.loading && m.scan_pending);
    assert!(!m.action_cancel_armed);

    app.missing_paths.push("/take.wav".to_string());
    let (scan, cancelled) = app.refresh_metadata_tab(0);
    assert_eq!(scan, None);
    assert!(!cancelled);
    assert!(!app.tabs[0].metadata.loading);
    assert_eq!(app.ensure_metadata_scan(0), None);
}

#[test]
fn the_search_panel_reads_its_kind_and_lists_hits() {
    assert_eq!(search_kind_for_index(0), SearchKind::Ascii);
    assert_eq!(search_kind_for_index(2), SearchKind::Hex);
    assert_eq!(search_kind_for_index(3), SearchKind::FourCc);
    assert_eq!(search_kind_for_index(9), SearchKind::Ascii);
    assert_eq!(search_kind_caption(1), "UTF-8");
    assert_eq!(search_kind_caption(7), "FourCC");
    assert!(can_start_search(false, "data"));
    assert!(!can_start_search(true, "data"));
    assert!(!can_start_search(false, ""));
    assert_eq!(search_result_link(0x1A2B), format!("0x{0:X} ({0})", 0x1A2Bu64));
    let hits: Vec<u64> = (0..150).collect();
    assert_eq!(shown_search_results(&hits).len(), 100);
    assert_eq!(shown_search_results(&hits[..3].to_vec()), vec![0, 1, 2]);
    assert_eq!(action_progress_text(512, 4096), "512 / 4096 bytes");
}

use waves_ui::metadata::{
    node_text_preview, bytes_for_range, metadata_node_hidden_in_structure, metadata_preview_label,
    metadata_preview_value, preferred_detail_tab, printable_ascii, ranges_overlap,
    visible_metadata_structure_target, AudioByteMapping, ContainerKind, ContentKind,
    MetadataAudioTimeline, MetadataDetailTab, MetadataDocument, MetadataHexPage, MetadataNode,
    PayloadRef, SourceRange,
};
use waves_ui::hex_pages::HexEvent;
use waves_ui::metadata::{audio_frame_count, audio_frame_range, metadata_audio_range_at, structure_walk_ending};
use waves_ui::metadata_nav::{metadata_editor_navigation, MetadataEditorNavigation};
use waves_ui::samples::{
    bit_layout_text, channel_color, decode_wave_sample, frame_bit_view, frame_location_text,
    pcm_status_note, wave_sample_text, BitViewItem, WaveSample,
};
use waves_ui::badges::Rgb;
use waves_ui::state::{EditorTab, MediaItem, MediaSource, VirtualSourceRef, WavesPreviewer};
use waves_ui::text_view::{encoding_caption, metadata_text_bytes, metadata_text_content};

fn scalar_node(name: &str, summary: &str) -> MetadataNode {
    MetadataNode {
        id: 0,
        parent: None,
        name: name.to_owned(),
        payload: PayloadRef {
            file_offset: 0,
            length: 0,
        },
        content: ContentKind::Text,
        summary: Some(summary.to_owned()),
    }
}

fn node(id: usize, parent: Option<usize>, name: &str, content: ContentKind, offset: u64, length: u64) -> MetadataNode {
    MetadataNode {
        id,
        parent,
        name: name.to_owned(),
        payload: PayloadRef {
            file_offset: offset,
            length,
        },
        content,
        summary: None,
    }
}

fn pcm_mapping(format_tag: u16, container_bits: u16, valid_bits: u16) -> AudioByteMapping {
    AudioByteMapping {
        data_offset: 1_000,
        data_length: 400,
        sample_rate: 100,
        channels: 2,
        block_align: 4,
        container_bits,
        valid_bits,
        format_tag,
        format_subtype: None,
    }
}

fn tempo_valid(summary: &str) -> bool {
    summary.trim().parse::<f32>().map(|bpm| bpm.is_finite() && bpm > 0.0).unwrap_or(false)
}

#[test]
fn metadata_navigation_decodes_cue_loop_and_tempo_nodes() {
    assert!(matches!(
        metadata_editor_navigation(&scalar_node("Cue 7", "sample 48000"), tempo_valid("sample 48000")),
        Some(MetadataEditorNavigation::Sample(48_000))
    ));
    assert!(matches!(
        metadata_editor_navigation(&scalar_node("Loop 1", "120..960"), tempo_valid("120..960")),
        Some(MetadataEditorNavigation::Range {
            start: 120,
            end_inclusive: 960,
        })
    ));
    match metadata_editor_navigation(&scalar_node("Tempo", "128.500"), tempo_valid("128.500")) {
        Some(MetadataEditorNavigation::Tempo(text)) => {
            assert_eq!(text, "128.500");
            assert_eq!(text.parse::<f32>().ok(), Some(128.5));
        }
        other => panic!("expected a tempo, got {other:?}"),
    }
}

#[test]
fn navigation_ignores_nodes_that_point_nowhere() {
    assert!(metadata_editor_navigation(&scalar_node("Cue 1", "at 5"), tempo_valid("at 5")).is_none());
    assert!(metadata_editor_navigation(&scalar_node("Loop 2", "5-9"), tempo_valid("5-9")).is_none());
    assert!(metadata_editor_navigation(&scalar_node("Loop 2", "x..9"), tempo_valid("x..9")).is_none());
    assert!(metadata_editor_navigation(&scalar_node("Title", "sample 5"), tempo_valid("sample 5")).is_none());
    assert!(matches!(
        metadata_editor_navigation(&scalar_node("Cue 3", "  sample  +12  "), tempo_valid("  sample  +12  ")),
        Some(MetadataEditorNavigation::Sample(12))
    ));
    let mut bare = scalar_node("Cue 3", "sample 1");
    bare.summary = None;
    assert!(metadata_editor_navigation(&bare, false).is_none());
    assert!(metadata_editor_navigation(&scalar_node("Tempo", "-120"), tempo_valid("-120")).is_none());
    assert!(metadata_editor_navigation(&scalar_node("Tempo", "fast"), tempo_valid("fast")).is_none());
}

#[test]
fn riff_fmt_node_is_hidden_only_from_the_structure_list() {
    let fmt = scalar_node("fmt ", "48000 Hz");
    assert!(metadata_node_hidden_in_structure(ContainerKind::RiffWave, &fmt));
    assert!(!metadata_node_hidden_in_structure(ContainerKind::Aiff, &fmt));
    assert!(!metadata_node_hidden_in_structure(
        ContainerKind::RiffWave,
        &scalar_node("data", "16 bytes")
    ));
}

#[test]
fn a_hidden_node_is_shown_through_its_parent() {
    let document = MetadataDocument {
        container: ContainerKind::Bw64,
        roots: vec![0],
        nodes: vec![
            node(0, None, "RIFF", ContentKind::Container, 0, 1_000),
            node(1, Some(0), "fmt ", ContentKind::Binary, 12, 16),
            node(2, Some(0), "data", ContentKind::Audio, 36, 900),
        ],
        audio_mapping: None,
    };
    assert_eq!(visible_metadata_structure_target(&document, 1), Some(0));
    assert_eq!(visible_metadata_structure_target(&document, 2), Some(2));
    assert_eq!(visible_metadata_structure_target(&document, 7), None);
}

#[test]
fn audio_timeline_maps_disjoint_payload_ranges_without_metadata_gaps() {
    let timeline = MetadataAudioTimeline {
        ranges: vec![
            SourceRange {
                offset: 100,
                length: 200,
            },
            SourceRange {
                offset: 500,
                length: 100,
            },
        ],
        total_bytes: 300,
    };
    // fractions 0.0, 0.5 and 1.0 of the 300 audio bytes
    assert_eq!(timeline.timeline_offset(0), Some(100));
    assert_eq!(timeline.timeline_offset(150), Some(250));
    assert_eq!(timeline.timeline_offset(300), Some(599));
    assert!(timeline
        .timeline_span(SourceRange {
            offset: 0,
            length: 64,
        })
        .is_none());
    let (start, end) = timeline
        .timeline_span(SourceRange {
            offset: 500,
            length: 30,
        })
        .expect("second audio payload span");
    assert_eq!((start, end), (200, 230));
    assert!((start as f64 / 300.0 - 2.0 / 3.0).abs() < f64::EPSILON);
    assert!((end as f64 / 300.0 - 0.766_666_666_666_666_7).abs() < f64::EPSILON);
}

#[test]
fn a_pcm_document_has_one_timeline_range_for_its_data() {
    let document = MetadataDocument {
        container: ContainerKind::RiffWave,
        roots: Vec::new(),
        nodes: vec![node(0, None, "data", ContentKind::Audio, 5, 9)],
        audio_mapping: Some(pcm_mapping(1, 16, 16)),
    };
    let timeline = MetadataAudioTimeline::from_document(&document);
    assert_eq!(timeline.ranges, vec![SourceRange { offset: 1_000, length: 400 }]);
    assert_eq!(timeline.total_bytes, 400);
    assert_eq!(timeline.timeline_offset(200), Some(1_200));
    assert_eq!(
        timeline.timeline_span(SourceRange { offset: 1_200, length: 16 }),
        Some((200, 216))
    );
}

#[test]
fn audio_payloads_are_sorted_and_merged_into_the_timeline() {
    let document = MetadataDocument {
        container: ContainerKind::Mp4,
        roots: Vec::new(),
        nodes: vec![
            node(0, None, "mdat", ContentKind::Audio, 900, 100),
            node(1, None, "meta", ContentKind::Text, 300, 50),
            node(2, None, "mdat", ContentKind::Audio, 100, 200),
            node(3, None, "mdat", ContentKind::Audio, 250, 100),
            node(4, None, "empty", ContentKind::Audio, 700, 0),
        ],
        audio_mapping: None,
    };
    let timeline = MetadataAudioTimeline::from_document(&document);
    assert_eq!(
        timeline.ranges,
        vec![
            SourceRange { offset: 100, length: 250 },
            SourceRange { offset: 900, length: 100 },
        ]
    );
    assert_eq!(timeline.total_bytes, 350);
    // every audio byte maps to a position and back
    for file_offset in [100u64, 349, 900, 999] {
        let (a, b) = timeline
            .timeline_span(SourceRange { offset: file_offset, length: 1 })
            .expect("audio byte");
        assert_eq!(b, a + 1);
        assert_eq!(timeline.timeline_offset(a), Some(file_offset));
    }
    assert!(timeline.timeline_span(SourceRange { offset: 400, length: 100 }).is_none());
}

#[test]
fn node_previews_flatten_white_space_and_stop_at_160_characters() {
    let mut n = scalar_node("INAM", "  hello \n  world\t ");
    assert_eq!(metadata_preview_value(&n), "hello world");
    n.summary = Some("x".repeat(200));
    let preview = metadata_preview_value(&n);
    assert_eq!(preview.chars().count(), 161);
    assert!(preview.ends_with("x…"));
    n.summary = Some("   ".to_string());
    n.payload = PayloadRef { file_offset: 0x1F40, length: 12 };
    assert_eq!(metadata_preview_value(&n), "12 bytes · offset 0x1F40");
    n.summary = None;
    assert_eq!(metadata_preview_value(&n), "12 bytes · offset 0x1F40");
}

#[test]
fn each_content_kind_opens_its_own_detail_tab() {
    let mut n = node(0, None, "x", ContentKind::Audio, 0, 1);
    assert_eq!(preferred_detail_tab(&n), MetadataDetailTab::Waveform);
    n.content = ContentKind::Xml;
    assert_eq!(preferred_detail_tab(&n), MetadataDetailTab::Text);
    n.content = ContentKind::Image;
    assert_eq!(preferred_detail_tab(&n), MetadataDetailTab::Decoded);
    n.content = ContentKind::Binary;
    assert_eq!(preferred_detail_tab(&n), MetadataDetailTab::Hex);
    n.content = ContentKind::Container;
    assert_eq!(preferred_detail_tab(&n), MetadataDetailTab::Properties);
    n.summary = Some("3 chunks".to_string());
    assert_eq!(preferred_detail_tab(&n), MetadataDetailTab::Decoded);
    assert_eq!(metadata_preview_label(&n), "CONTAINER");
}

#[test]
fn hex_helpers_show_bytes_and_ranges() {
    assert_eq!(printable_ascii(b'A'), 'A');
    assert_eq!(printable_ascii(b' '), ' ');
    assert_eq!(printable_ascii(0x7F), '.');
    assert_eq!(printable_ascii(0x0A), '.');
    assert_eq!(printable_ascii(0xE9), '.');

    let a = SourceRange { offset: 10, length: 5 };
    assert!(ranges_overlap(a, SourceRange { offset: 14, length: 1 }));
    assert!(!ranges_overlap(a, SourceRange { offset: 15, length: 4 }));
    assert!(ranges_overlap(SourceRange { offset: 12, length: 1 }, a));
    assert!(ranges_overlap(a, SourceRange { offset: 12, length: 0 }));
    assert!(!ranges_overlap(a, SourceRange { offset: 15, length: 0 }));
    assert!(ranges_overlap(
        SourceRange { offset: u64::MAX - 1, length: 10 },
        SourceRange { offset: u64::MAX - 1, length: 1 }
    ));

    let page = MetadataHexPage { start: 100, bytes: (0u8..16).collect() };
    assert_eq!(bytes_for_range(&page, SourceRange { offset: 104, length: 3 }), Some(vec![4, 5, 6]));
    assert_eq!(bytes_for_range(&page, SourceRange { offset: 99, length: 1 }), None);
    assert_eq!(bytes_for_range(&page, SourceRange { offset: 110, length: 10 }), None);
    assert_eq!(bytes_for_range(&page, SourceRange { offset: 116, length: 0 }), Some(vec![]));
}

#[test]
fn wave_samples_decode_from_their_bytes() {
    let pcm16 = pcm_mapping(1, 16, 16);
    let sample = decode_wave_sample(&pcm16, &[0xFF, 0xFF]).expect("pcm sample");
    assert_eq!(sample, WaveSample::Integer { signed: -1, raw: 0xFFFF, hex_digits: 4 });
    assert_eq!(wave_sample_text(sample).as_deref(), Some("-1 (0xFFFF)"));
    let positive = decode_wave_sample(&pcm16, &[0x34, 0x12]).expect("pcm sample");
    assert_eq!(wave_sample_text(positive).as_deref(), Some("4660 (0x1234)"));

    let padded = pcm_mapping(1, 32, 24);
    let sample = decode_wave_sample(&padded, &[0x00, 0x00, 0x80, 0xFF]).expect("pcm sample");
    assert_eq!(wave_sample_text(sample).as_deref(), Some("-32768 (0xFF800000)"));

    let byte = pcm_mapping(1, 8, 8);
    let sample = decode_wave_sample(&byte, &[200]).expect("8-bit sample");
    assert_eq!(sample, WaveSample::Unsigned8(200));
    assert_eq!(wave_sample_text(sample).as_deref(), Some("200"));

    let float = pcm_mapping(3, 32, 32);
    let sample = decode_wave_sample(&float, &[0x00, 0x00, 0x80, 0x3F]).expect("float sample");
    assert_eq!(sample, WaveSample::Float32Bits(0x3F80_0000));
    assert_eq!(wave_sample_text(sample), None);
    assert_eq!(decode_wave_sample(&float, &[0, 0, 0]), None);
    let double = decode_wave_sample(&float, &1.5f64.to_le_bytes()).expect("double sample");
    assert_eq!(double, WaveSample::Float64Bits(1.5f64.to_bits()));

    let mut extensible = pcm_mapping(0xFFFE, 16, 16);
    assert_eq!(decode_wave_sample(&extensible, &[1, 0]), None);
    extensible.format_subtype = Some(1);
    assert!(decode_wave_sample(&extensible, &[1, 0]).is_some());
    assert_eq!(decode_wave_sample(&pcm16, &[]), None);
    assert_eq!(decode_wave_sample(&pcm16, &[0; 9]), None);
}

#[test]
fn channel_colors_repeat_after_eight_channels() {
    assert_eq!(channel_color(0), Rgb { r: 35, g: 113, b: 91 });
    assert_eq!(channel_color(1), Rgb { r: 46, g: 89, b: 142 });
    assert_eq!(channel_color(9), channel_color(1));
    assert_eq!(channel_color(7), Rgb { r: 80, g: 104, b: 58 });
}

#[test]
fn the_text_tab_decodes_with_the_chosen_encoding() {
    let summary = "Title: Song".to_string();
    assert_eq!(metadata_text_content(0, Some(&summary), Some(&[0x41])), "Title: Song");
    assert_eq!(metadata_text_content(0, None, Some(b"abc")), "abc");
    assert_eq!(metadata_text_content(1, Some(&summary), Some(&[0x61, 0xFF])), "a\u{FFFD}");
    assert_eq!(metadata_text_content(2, None, Some(&[0x82, 0xA0])), "あ");
    assert_eq!(metadata_text_content(3, None, Some(&[0x80, 0x41])), "€A");
    assert_eq!(metadata_text_content(2, Some(&summary), None), "");
    assert_eq!(encoding_caption(0), "Auto");
    assert_eq!(encoding_caption(2), "Shift_JIS");
    assert_eq!(encoding_caption(7), "Windows-1252");

    let page = MetadataHexPage { start: 0, bytes: b"hello world".to_vec() };
    let payload = PayloadRef { file_offset: 6, length: 100 };
    assert_eq!(metadata_text_bytes(Some(&page), payload), Some(b"world".to_vec()));
    assert_eq!(metadata_text_bytes(None, payload), None);
    assert_eq!(
        metadata_text_bytes(Some(&page), PayloadRef { file_offset: 20, length: 1 }),
        None
    );
}

#[test]
fn a_virtual_tab_reads_metadata_from_the_file_it_was_rendered_from() {
    let mut app = WavesPreviewer::default();
    app.files.push(MediaItem {
        path: "/src.wav".to_string(),
        source: MediaSource::File,
        extension: Some("wav".to_string()),
        virtual_source: None,
        decode_failed: false,
        tags: Vec::new(),
    });
    app.files.push(MediaItem {
        path: "virtual://a".to_string(),
        source: MediaSource::Virtual,
        extension: None,
        virtual_source: Some(VirtualSourceRef::FilePath("/src.wav".to_string())),
        decode_failed: false,
        tags: Vec::new(),
    });
    app.files.push(MediaItem {
        path: "virtual://b".to_string(),
        source: MediaSource::Virtual,
        extension: None,
        virtual_source: Some(VirtualSourceRef::VirtualPath("virtual://a".to_string())),
        decode_failed: false,
        tags: Vec::new(),
    });
    for path in ["/src.wav", "virtual://b", "/elsewhere.wav"] {
        app.tabs.push(EditorTab {
            path: path.to_string(),
            ..Default::default()
        });
    }
    assert_eq!(app.metadata_source_for_tab(0), Some(("/src.wav".to_string(), false)));
    assert_eq!(app.metadata_source_for_tab(1), Some(("/src.wav".to_string(), true)));
    assert_eq!(app.metadata_source_for_tab(2), Some(("/elsewhere.wav".to_string(), false)));
    assert_eq!(app.metadata_source_for_tab(3), None);
    app.missing_paths.push("/src.wav".to_string());
    assert_eq!(app.metadata_source_for_tab(0), None);
    assert_eq!(app.metadata_source_for_tab(1), None);
    assert!(app.is_virtual_path("virtual://a"));
    assert!(!app.is_virtual_path("/src.wav"));
}

#[test]
fn resetting_the_inspector_forgets_the_tab_state() {
    let mut app = WavesPreviewer::default();
    app.tabs.push(EditorTab::default());
    let tab = &mut app.tabs[0].metadata;
    tab.loading = true;
    tab.selected_node = Some(3);
    tab.hex_pages.push(MetadataHexPage { start: 0, bytes: vec![1] });
    tab.action_status = Some("Working...".to_string());
    tab.action_cancel_armed = true;
    tab.artwork_shown = Some(2);
    assert!(app.reset_metadata_tab(0));
    let tab = &app.tabs[0].metadata;
    assert!(!tab.loading);
    assert_eq!(tab.selected_node, None);
    assert!(tab.hex_pages.is_empty());
    assert_eq!(tab.action_status, None);
    assert_eq!(tab.artwork_shown, None);
    assert!(!app.reset_metadata_tab(0));
}

#[test]
fn navigation_moves_the_editor_view_in_buffer_samples() {
    let mut app = WavesPreviewer::default();
    app.tabs.push(EditorTab {
        buffer_sample_rate: 44_100,
        samples_len: 1_000_000,
        ..Default::default()
    });
    let mut document = MetadataDocument {
        container: ContainerKind::RiffWave,
        roots: Vec::new(),
        nodes: Vec::new(),
        audio_mapping: Some(AudioByteMapping { sample_rate: 48_000, ..pcm_mapping(1, 16, 16) }),
    };
    let seek = app.apply_metadata_editor_navigation(0, &document, &MetadataEditorNavigation::Sample(48_000));
    assert_eq!(seek, Some((48_000, 48_000)));
    assert_eq!(app.tabs[0].preview_offset_samples, Some(44_100));

    let seek = app.apply_metadata_editor_navigation(
        0,
        &document,
        &MetadataEditorNavigation::Range { start: 120, end_inclusive: 960 },
    );
    assert_eq!(seek, Some((110, 44_100)));
    assert_eq!(app.tabs[0].selection, Some((110, 882)));
    assert_eq!(app.tabs[0].preview_offset_samples, Some(110));

    let seek = app.apply_metadata_editor_navigation(
        0,
        &document,
        &MetadataEditorNavigation::Tempo("120".to_string()),
    );
    assert_eq!(seek, None);
    assert_eq!(app.tabs[0].selection, Some((110, 882)));

    // without a mapping the document counts in the buffer's samples, and
    // everything stays inside the buffer
    document.audio_mapping = None;
    let seek = app.apply_metadata_editor_navigation(
        0,
        &document,
        &MetadataEditorNavigation::Range { start: 2_000_000, end_inclusive: u64::MAX },
    );
    assert_eq!(seek, Some((1_000_000, 44_100)));
    assert_eq!(app.tabs[0].selection, None);
    assert_eq!(app.tabs[0].preview_offset_samples, Some(1_000_000));
}

#[test]
fn text_nodes_preview_their_first_three_lines() {
    let mut n = scalar_node("INFO", "a\r\nb\n\nc\nd");
    assert_eq!(node_text_preview(&n).as_deref(), Some("a\nb\n"));
    for summary in ["", "\n", "one", "one\r", "x\n\n\n\n", "l1\nl2\r\nl3\nl4\n", "\r\n\r\nz"] {
        n.summary = Some(summary.to_string());
        let expected: String = summary
            .lines()
            .take(3)
            .collect::<Vec<_>>()
            .join("\n")
            .chars()
            .take(512)
            .collect();
        assert_eq!(node_text_preview(&n), Some(expected), "{summary:?}");
    }
    n.summary = Some("é".repeat(600));
    assert_eq!(node_text_preview(&n).map(|p| p.chars().count()), Some(512));
    n.summary = None;
    assert_eq!(node_text_preview(&n), None);
    let binary = node(1, None, "x", ContentKind::Binary, 0, 4);
    assert_eq!(node_text_preview(&binary), None);
}

fn bits(channel: usize, byte: u8, byte_index: usize, padding_bits: usize) -> Vec<BitViewItem> {
    (0..8)
        .rev()
        .map(|bit| BitViewItem::Bit {
            channel,
            set: byte & (1u8 << bit) != 0,
            padding: byte_index * 8 + bit < padding_bits,
        })
        .collect()
}

#[test]
fn the_bit_view_lays_out_each_channel_with_its_padding() {
    let mapping = AudioByteMapping {
        channels: 2,
        block_align: 4,
        container_bits: 16,
        valid_bits: 12,
        ..pcm_mapping(1, 16, 16)
    };
    let view = frame_bit_view(&mapping, &[0x10, 0x80, 0xFF, 0x00]);
    let mut expected = vec![BitViewItem::ChannelLabel("Ch1 ".to_string())];
    expected.extend(bits(0, 0x10, 0, 4));
    expected.push(BitViewItem::ByteGap);
    expected.extend(bits(0, 0x80, 1, 4));
    expected.push(BitViewItem::ChannelGap);
    expected.push(BitViewItem::ChannelLabel("Ch2 ".to_string()));
    expected.extend(bits(1, 0xFF, 0, 4));
    expected.push(BitViewItem::ByteGap);
    expected.extend(bits(1, 0x00, 1, 4));
    assert_eq!(view, expected);
    assert_eq!(view.len(), 37);
    assert_eq!(view[4], BitViewItem::Bit { channel: 0, set: true, padding: false });
    assert_eq!(view[5], BitViewItem::Bit { channel: 0, set: false, padding: true });

    // a channel whose sample is not in the bytes is left out, gap included
    let short = frame_bit_view(&mapping, &[0xAA, 0xBB, 0xCC]);
    assert_eq!(short.len(), 1 + 16 + 1 + 1);
    assert_eq!(short.last(), Some(&BitViewItem::ChannelGap));
}

#[test]
fn the_live_pcm_status_describes_the_frame() {
    assert_eq!(
        frame_location_text(12, 0x4B0, 4, 0x2C),
        "frame 12 \u{b7} abs 0x4B0 \u{b7} data+0x484 \u{b7} 4 bytes"
    );
    assert_eq!(
        frame_location_text(0, 0x10, 2, 0x2C),
        "frame 0 \u{b7} abs 0x10 \u{b7} data+0x0 \u{b7} 2 bytes"
    );
    let mapping = AudioByteMapping { container_bits: 32, valid_bits: 24, ..pcm_mapping(1, 16, 16) };
    assert_eq!(bit_layout_text(&mapping), "24 valid bits + 8 padding bits in 32 container bits");
    assert!(pcm_status_note(true, true).starts_with("Source-time only"));
    assert!(pcm_status_note(true, false).starts_with("Exact PCM source mapping is available"));
    assert!(pcm_status_note(false, true).starts_with("Compressed container"));
}

#[test]
fn pcm_waveform_fraction_maps_to_the_complete_interleaved_frame() {
    let document = MetadataDocument {
        container: ContainerKind::RiffWave,
        roots: Vec::new(),
        nodes: Vec::new(),
        audio_mapping: Some(pcm_mapping(1, 16, 16)),
    };
    let timeline = MetadataAudioTimeline::from_document(&document);
    let mapping = document.audio_mapping.as_ref().unwrap();
    let frames = audio_frame_count(mapping);
    assert_eq!(frames, 100);
    let frame_at = |fraction: f64| ((fraction.clamp(0.0, 1.0) * frames as f64).floor()) as u64;
    assert_eq!(
        metadata_audio_range_at(&document, &timeline, frame_at(0.5), 0),
        Some(SourceRange { offset: 1_200, length: 4 })
    );
    let (first, last) = timeline
        .timeline_span(SourceRange { offset: 1_200, length: 16 })
        .expect("audio row must map to the waveform");
    let row_fraction = (first + last) as f64 / 2.0 / timeline.total_bytes as f64;
    assert!((row_fraction - 0.52).abs() < f64::EPSILON);
    assert_eq!(
        metadata_audio_range_at(&document, &timeline, frame_at(row_fraction), 0),
        Some(SourceRange { offset: 1_208, length: 4 })
    );
    // past the end: the last frame
    assert_eq!(
        metadata_audio_range_at(&document, &timeline, 5_000, 0),
        Some(SourceRange { offset: 1_396, length: 4 })
    );
    assert_eq!(audio_frame_range(mapping, 100), None);
}

#[test]
fn without_pcm_data_a_waveform_point_is_one_timeline_byte() {
    let document = MetadataDocument {
        container: ContainerKind::Mp4,
        roots: vec![0, 1],
        nodes: vec![
            node(0, None, "mdat", ContentKind::Audio, 100, 50),
            node(1, None, "mdat", ContentKind::Audio, 300, 50),
        ],
        audio_mapping: None,
    };
    let timeline = MetadataAudioTimeline::from_document(&document);
    assert_eq!(
        metadata_audio_range_at(&document, &timeline, 0, 60),
        Some(SourceRange { offset: 310, length: 1 })
    );
}

#[test]
fn a_parent_cycle_of_hidden_nodes_is_detected() {
    let mut looping = node(1, Some(2), "fmt ", ContentKind::Binary, 12, 16);
    looping.parent = Some(2);
    let document = MetadataDocument {
        container: ContainerKind::RiffWave,
        roots: vec![0],
        nodes: vec![
            node(0, None, "RIFF", ContentKind::Container, 0, 1_000),
            looping,
            node(2, Some(1), "fmt ", ContentKind::Binary, 12, 16),
        ],
        audio_mapping: None,
    };
    assert!(!structure_walk_ending(&document, 1));
    assert!(structure_walk_ending(&document, 0));
    assert!(structure_walk_ending(&document, 9));
}

#[test]
fn the_hex_view_follows_jumps_and_selects() {
    let document = MetadataDocument {
        container: ContainerKind::Bw64,
        roots: vec![0],
        nodes: vec![
            node(0, None, "RIFF", ContentKind::Container, 0, 1_000),
            node(1, Some(0), "fmt ", ContentKind::Binary, 12, 16),
        ],
        audio_mapping: None,
    };
    let mut app = WavesPreviewer::default();
    app.tabs.push(EditorTab { path: "/a.wav".to_string(), ..Default::default() });
    // not following: the playhead does not move the view
    assert_eq!(app.metadata_hex_event(0, &document, HexEvent::Frame { playhead: Some(70_000) }), Some(0));
    assert_eq!(app.tabs[0].metadata.hex_offset, 0);
    app.metadata_hex_event(0, &document, HexEvent::SetFollow(true));
    assert_eq!(
        app.metadata_hex_event(0, &document, HexEvent::Frame { playhead: Some(70_000) }),
        Some(65_536)
    );
    assert_eq!(app.tabs[0].metadata.hex_offset, 70_000);
    app.metadata_hex_event(0, &document, HexEvent::JumpToPlayhead { playhead: 20 });
    assert_eq!(app.tabs[0].metadata.hex_offset, 20);
    let row = SourceRange { offset: 16, length: 16 };
    app.metadata_hex_event(0, &document, HexEvent::RowClicked { row, node_at: Some(1) });
    assert_eq!(app.tabs[0].metadata.hex_selection, Some(row));
    assert_eq!(app.tabs[0].metadata.hex_offset, 16);
    assert_eq!(app.tabs[0].metadata.selected_node, Some(1));
    app.metadata_hex_event(0, &document, HexEvent::ShowInStructure { node: 1 });
    assert_eq!(app.tabs[0].metadata.selected_node, Some(0));
    assert!(app.tabs[0].metadata.show_structure);
}

#[test]
fn the_live_frame_is_shown_only_for_the_playing_saved_source() {
    let document = MetadataDocument {
        container: ContainerKind::RiffWave,
        roots: Vec::new(),
        nodes: Vec::new(),
        audio_mapping: Some(pcm_mapping(1, 16, 16)),
    };
    let mut app = WavesPreviewer::default();
    app.tabs.push(EditorTab { path: "/a.wav".to_string(), ..Default::default() });
    assert_eq!(
        app.metadata_live_frame_range(0, &document, true, false, Some("/a.wav"), 3),
        Some((3, SourceRange { offset: 1_012, length: 4 }))
    );
    assert_eq!(app.metadata_live_frame_range(0, &document, true, false, Some("/b.wav"), 3), None);
    assert_eq!(app.metadata_live_frame_range(0, &document, false, false, Some("/a.wav"), 3), None);
    assert_eq!(app.metadata_live_frame_range(0, &document, true, true, Some("/a.wav"), 3), None);
    assert_eq!(app.metadata_live_frame_range(0, &document, true, false, Some("/a.wav"), 100), None);
    app.tabs[0].dirty = true;
    assert_eq!(app.metadata_live_frame_range(0, &document, true, false, Some("/a.wav"), 3), None);
}

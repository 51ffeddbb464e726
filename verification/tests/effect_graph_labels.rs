use waves_ui::effect_graph::{
    effect_graph_pin_label, effect_graph_port_label, effect_graph_port_sort_index,
    format_console_timestamp, parse_u64, parse_usize,
};
use waves_ui::keymap::{
    keymap_assign, keymap_capture_step, keymap_reset, AssignError, CaptureInput, CaptureOutcome, Chord,
    KeyBinding, KeyContext,
};
use waves_ui::port_order::ordered_input_ports;

#[test]
fn console_timestamps_show_the_time_of_day() {
    assert_eq!(format_console_timestamp(0), "00:00:00");
    assert_eq!(format_console_timestamp(3_661_000), "01:01:01");
    assert_eq!(format_console_timestamp(86_399_999), "23:59:59");
    assert_eq!(format_console_timestamp(86_400_000), "00:00:00");
    // a whole day later the stamp is the same
    assert_eq!(
        format_console_timestamp(1_700_000_123_456),
        format_console_timestamp(1_700_000_123_456 + 86_400_000)
    );
    assert_eq!(format_console_timestamp(1_700_000_123_456), "22:15:23");
}

#[test]
fn port_labels_keep_only_channel_numbers() {
    assert_eq!(effect_graph_port_label("ch3"), "3");
    assert_eq!(effect_graph_port_label("out2"), "2");
    assert_eq!(effect_graph_port_label("in10"), "10");
    assert_eq!(effect_graph_port_label("out"), "out");
    assert_eq!(effect_graph_port_label("input"), "input");
    assert_eq!(effect_graph_port_label("ch"), "");
    assert_eq!(effect_graph_port_label("chx"), "chx");
    assert_eq!(effect_graph_port_label("sidechain"), "sidechain");
}

#[test]
fn ports_sort_by_their_channel_number() {
    assert_eq!(effect_graph_port_sort_index("ch1"), 0);
    assert_eq!(effect_graph_port_sort_index("in12"), 11);
    assert_eq!(effect_graph_port_sort_index("ch0"), usize::MAX);
    assert_eq!(effect_graph_port_sort_index("out"), usize::MAX);
    assert_eq!(effect_graph_port_sort_index("+5"), 4);
    assert_eq!(effect_graph_port_sort_index("ch99999999999999999999999"), usize::MAX);
}

#[test]
fn pins_use_the_declared_label_when_there_is_one() {
    assert_eq!(effect_graph_pin_label(Some("Left"), "ch1"), "Left");
    assert_eq!(effect_graph_pin_label(None, "ch1"), "1");
    assert_eq!(effect_graph_pin_label(None, "mix"), "mix");
}

#[test]
fn numbers_parse_as_str_parse_does() {
    for text in ["0", "42", "+7", "007", "18446744073709551615", "18446744073709551616", "", "+", "-1", " 1", "1a"] {
        assert_eq!(parse_u64(text), text.parse::<u64>().ok(), "{text:?}");
        assert_eq!(parse_usize(text), text.parse::<usize>().ok(), "{text:?}");
    }
}

fn strings(items: &[&str]) -> Vec<String> {
    items.iter().map(|s| s.to_string()).collect()
}

#[test]
fn combine_pins_go_by_slot_then_number_then_name() {
    let ports = strings(&["in1", "in2", "in3"]);
    // pins with a slot first, by slot; then the rest
    assert_eq!(
        ordered_input_ports(&ports, &vec![Some(1), None, Some(0)], true),
        strings(&["in3", "in1", "in2"])
    );
    // no slots: by pin number, unnumbered pins last, then by name
    let ports = strings(&["in10", "aux", "in2", "bus"]);
    assert_eq!(
        ordered_input_ports(&ports, &vec![None, None, None, None], true),
        strings(&["in2", "in10", "aux", "bus"])
    );
    // equal slots fall back to the pin number
    let ports = strings(&["in3", "in1"]);
    assert_eq!(
        ordered_input_ports(&ports, &vec![Some(0), Some(0)], true),
        strings(&["in1", "in3"])
    );
}

#[test]
fn pins_keep_their_order_unless_channels_are_restored() {
    let ports = strings(&["in3", "in1", "in2"]);
    assert_eq!(
        ordered_input_ports(&ports, &vec![Some(2), Some(1), Some(0)], false),
        ports
    );
    assert_eq!(ordered_input_ports(&Vec::new(), &Vec::new(), true), Vec::<String>::new());
}

#[test]
fn shortcuts_are_rebound_only_to_free_chords() {
    let play = Chord { mods: 0, key: 32 };
    let ctrl_s = Chord { mods: 1, key: 83 };
    let f2 = Chord { mods: 0, key: 113 };
    let table = vec![
        KeyBinding { action: 1, context: KeyContext::Global, chord: Some(play) },
        KeyBinding { action: 2, context: KeyContext::List, chord: Some(f2) },
        KeyBinding { action: 3, context: KeyContext::Editor, chord: Some(ctrl_s) },
    ];
    let mut overrides = Vec::new();
    // taken by a global shortcut
    assert_eq!(keymap_assign(&table, &mut overrides, 2, play), Err(AssignError::TakenBy(0)));
    // list and editor shortcuts do not clash
    assert_eq!(keymap_assign(&table, &mut overrides, 2, ctrl_s), Ok(()));
    assert_eq!(overrides, vec![(2, ctrl_s)]);
    assert_eq!(keymap_assign(&table, &mut overrides, 9, f2), Err(AssignError::UnknownAction));
    // the default chord drops the override
    assert_eq!(keymap_assign(&table, &mut overrides, 2, f2), Ok(()));
    assert!(overrides.is_empty());
    // an overridden chord is what counts
    assert_eq!(keymap_assign(&table, &mut overrides, 1, Chord { mods: 0, key: 80 }), Ok(()));
    assert_eq!(keymap_assign(&table, &mut overrides, 3, play), Ok(()));
    assert_eq!(keymap_assign(&table, &mut overrides, 2, Chord { mods: 0, key: 80 }), Err(AssignError::TakenBy(0)));
}

#[test]
fn capturing_a_chord_ends_with_a_key_or_a_cancel() {
    let f2 = Chord { mods: 0, key: 113 };
    let table = vec![KeyBinding { action: 2, context: KeyContext::List, chord: Some(f2) }];
    let mut overrides = Vec::new();
    let mut capture = None;
    assert!(matches!(keymap_capture_step(&mut capture, &table, &mut overrides, CaptureInput::Escape), CaptureOutcome::Unchanged));
    capture = Some(2);
    assert!(matches!(keymap_capture_step(&mut capture, &table, &mut overrides, CaptureInput::Nothing), CaptureOutcome::Unchanged));
    assert_eq!(capture, Some(2));
    let chord = Chord { mods: 0, key: 80 };
    assert!(matches!(
        keymap_capture_step(&mut capture, &table, &mut overrides, CaptureInput::Pressed { chord, with_alt: true }),
        CaptureOutcome::AltRefused
    ));
    assert_eq!(capture, None);
    assert!(overrides.is_empty());
    capture = Some(2);
    assert!(matches!(
        keymap_capture_step(&mut capture, &table, &mut overrides, CaptureInput::Pressed { chord, with_alt: false }),
        CaptureOutcome::Assigned(Ok(()))
    ));
    assert_eq!(overrides, vec![(2, chord)]);
    capture = Some(2);
    assert!(matches!(keymap_capture_step(&mut capture, &table, &mut overrides, CaptureInput::WindowClosed), CaptureOutcome::Cancelled));
    assert_eq!(capture, None);
    keymap_reset(&mut overrides, 2);
    assert!(overrides.is_empty());
}

use evtoggle::config::{plan_devices, prefix_device_name, Config};
use evtoggle::events::{Event, Keystroke, Mode};
use evtoggle::router::{should_emit, VirtualDeviceConfig};

#[test]
fn known_key_names_translate_to_codes() {
    let keys = [String::from("KEY_A"), String::from("KEY_B")];
    let set = VirtualDeviceConfig::prepare_keys(&keys).unwrap();
    let mut codes = set.to_codes();
    codes.sort();
    assert_eq!(codes, vec![30, 48]);
}

#[test]
fn known_axis_names_translate_to_codes() {
    let axes = [String::from("REL_X"), String::from("REL_WHEEL")];
    let set = VirtualDeviceConfig::prepare_axes(&axes).unwrap();
    let mut codes = set.to_codes();
    codes.sort();
    assert_eq!(codes, vec![0, 8]);
}

#[test]
fn unknown_key_name_fails_with_the_offending_symbol() {
    let keys = [String::from("KEY_A"), String::from("KEY_BOGUS")];
    let err = VirtualDeviceConfig::prepare_keys(&keys).unwrap_err();
    assert_eq!(err.name, "KEY_BOGUS");
    assert_eq!(err.message(), "event \"KEY_BOGUS\" doesn't exist");
}

#[test]
fn unknown_axis_name_fails_with_the_offending_symbol() {
    let axes = [String::from("REL_X"), String::from("REL_NOWHERE")];
    let err = VirtualDeviceConfig::prepare_axes(&axes).unwrap_err();
    assert_eq!(err.name, "REL_NOWHERE");
}

#[test]
fn first_unknown_name_of_several_is_reported() {
    let keys = [
        String::from("KEY_A"),
        String::from("KEY_FIRST_BOGUS"),
        String::from("KEY_SECOND_BOGUS"),
    ];
    let err = VirtualDeviceConfig::prepare_keys(&keys).unwrap_err();
    assert_eq!(err.name, "KEY_FIRST_BOGUS");
}

#[test]
fn key_list_is_checked_before_axis_list() {
    let keys = [String::from("KEY_A"), String::from("KEY_BOGUS")];
    let axes = [String::from("REL_BOGUS")];
    let err = VirtualDeviceConfig::new(String::from("m"), &keys, &axes).unwrap_err();
    assert_eq!(err.name, "KEY_BOGUS");
}

#[test]
fn planned_devices_report_first_mouse_key_offender_before_axes() {
    let mut config = demo_config();
    config.virtual_mouse_keys.push(String::from("KEY_NOWHERE"));
    config.virtual_mouse_axes.push(String::from("REL_NOWHERE"));
    let err = plan_devices(&config, "kbd", &vec![], &vec![]).unwrap_err();
    assert_eq!(err.name, "KEY_NOWHERE");
}

#[test]
fn accepted_name_membership_round_trip() {
    // A name accepted into the capability set is found again by a
    // membership check for that exact name's code.
    let keys = [String::from("KEY_ENTER")];
    let cfg = VirtualDeviceConfig::new(String::from("m"), &keys, &[]).unwrap();
    let forwarded = should_emit(
        &cfg,
        &Event::Key {
            code: cfg.keys.to_codes()[0],
            value: 1,
        },
        Mode::Mouse,
    );
    assert!(forwarded);
}

#[test]
fn toggle_sequence_translation_uses_the_key_table() {
    let config = demo_config();
    let strokes = config.toggle_sequence_to_keystrokes().unwrap();
    assert_eq!(
        strokes,
        vec![
            Keystroke { key: 30, value: 1 },
            Keystroke { key: 48, value: 0 }
        ]
    );
}

#[test]
fn toggle_sequence_with_unknown_name_fails() {
    let mut config = demo_config();
    config
        .toggle_sequence
        .push((String::from("KEY_NOT_A_KEY"), 1));
    let err = config.toggle_sequence_to_keystrokes().unwrap_err();
    assert_eq!(err.name, "KEY_NOT_A_KEY");
}

#[test]
fn device_names_are_prefixed() {
    assert_eq!(prefix_device_name("virtual mouse", "kbd"), "virtual mouse kbd");
    assert_eq!(prefix_device_name("", ""), " ");
}

#[test]
fn planned_devices_mirror_and_restrict() {
    let config = demo_config();
    let (manipulator, mouse) =
        plan_devices(&config, "kbd", &vec![30, 48, 46], &vec![0, 1]).unwrap();
    assert_eq!(manipulator.name, "manip kbd");
    let mut manip_keys = manipulator.keys.to_codes();
    manip_keys.sort();
    assert_eq!(manip_keys, vec![30, 46, 48]);
    let mut manip_axes = manipulator.axes.to_codes();
    manip_axes.sort();
    assert_eq!(manip_axes, vec![0, 1]);

    assert_eq!(mouse.name, "mouse kbd");
    assert_eq!(mouse.keys.to_codes(), vec![30]);
    assert_eq!(mouse.axes.to_codes(), vec![0]);
}

#[test]
fn planned_devices_fail_on_unknown_mouse_name() {
    let mut config = demo_config();
    config.virtual_mouse_axes.push(String::from("REL_WARP"));
    let err = plan_devices(&config, "kbd", &vec![], &vec![]).unwrap_err();
    assert_eq!(err.name, "REL_WARP");
}

fn demo_config() -> Config {
    Config {
        target_name: String::from("kbd"),
        virtual_manipulator_prefix: String::from("manip"),
        virtual_mouse_prefix: String::from("mouse"),
        virtual_mouse_keys: vec![String::from("KEY_A")],
        virtual_mouse_axes: vec![String::from("REL_X")],
        toggle_sequence: vec![(String::from("KEY_A"), 1), (String::from("KEY_B"), 0)],
        default_mode: Mode::Mouse,
    }
}

use evtoggle::config::Config;
use evtoggle::engine::Engine;
use evtoggle::events::{Event, Keystroke, Mode};
use evtoggle::router::VirtualDeviceConfig;

fn scenario_engine() -> Engine {
    // toggle_sequence = [(KEY_A, 1), (KEY_B, 1)], default_mode = Mouse,
    // mouse key capability set = {KEY_A}.
    let config = Config {
        target_name: String::from("kbd"),
        virtual_manipulator_prefix: String::from("manip"),
        virtual_mouse_prefix: String::from("mouse"),
        virtual_mouse_keys: vec![String::from("KEY_A")],
        virtual_mouse_axes: vec![],
        toggle_sequence: vec![(String::from("KEY_A"), 1), (String::from("KEY_B"), 1)],
        default_mode: Mode::Mouse,
    };
    let sequence = config.toggle_sequence_to_keystrokes().unwrap();
    assert_eq!(
        sequence,
        vec![
            Keystroke { key: 30, value: 1 },
            Keystroke { key: 48, value: 1 }
        ]
    );
    let manipulator = VirtualDeviceConfig::new(
        String::from("manip kbd"),
        &[String::from("KEY_A"), String::from("KEY_B")],
        &[String::from("REL_X"), String::from("REL_Y")],
    )
    .unwrap();
    let mouse = VirtualDeviceConfig::new(
        String::from("mouse kbd"),
        &config.virtual_mouse_keys,
        &config.virtual_mouse_axes,
    )
    .unwrap();
    Engine::new(sequence, config.default_mode, manipulator, mouse)
}

#[test]
fn first_keystroke_forwarded_no_match() {
    let mut engine = scenario_engine();
    // KEY_A press: not full, no match; mode still Mouse; KEY_A is in the
    // mouse capability set, so the event is forwarded to the mouse output.
    let d = engine.step(&Event::Key { code: 30, value: 1 });
    assert!(d.forward);
    assert_eq!(d.output, Mode::Mouse);
    assert_eq!(engine.mode, Mode::Mouse);
}

#[test]
fn completing_keystroke_routed_pre_flip() {
    let mut engine = scenario_engine();
    engine.step(&Event::Key { code: 30, value: 1 });
    // KEY_B press: buffer now [A1, B1], which matches; the routing decision
    // is taken under the pre-flip mode Mouse, and KEY_B is not in the mouse
    // capability set, so the event is not forwarded; afterwards the match
    // flips the mode to Manipulator.
    let d = engine.step(&Event::Key { code: 48, value: 1 });
    assert!(!d.forward);
    assert_eq!(d.output, Mode::Mouse);
    assert_eq!(engine.mode, Mode::Manipulator);
}

#[test]
fn after_flip_everything_forwarded() {
    let mut engine = scenario_engine();
    engine.step(&Event::Key { code: 30, value: 1 });
    engine.step(&Event::Key { code: 48, value: 1 });
    // A relative-axis move not in the mouse capability set: mode is now
    // Manipulator, so it is forwarded unconditionally.
    let d = engine.step(&Event::RelAxis { code: 8, value: -1 });
    assert!(d.forward);
    assert_eq!(d.output, Mode::Manipulator);
    assert_eq!(engine.mode, Mode::Manipulator);
}

#[test]
fn repeated_sequence_flips_back() {
    let mut engine = scenario_engine();
    engine.step(&Event::Key { code: 30, value: 1 });
    engine.step(&Event::Key { code: 48, value: 1 });
    assert_eq!(engine.mode, Mode::Manipulator);
    engine.step(&Event::Key { code: 30, value: 1 });
    let d = engine.step(&Event::Key { code: 48, value: 1 });
    // Under Manipulator every event is forwarded, including the one that
    // completes the match; then the mode flips back to Mouse.
    assert!(d.forward);
    assert_eq!(d.output, Mode::Manipulator);
    assert_eq!(engine.mode, Mode::Mouse);
}

#[test]
fn partial_sequence_never_flips() {
    let mut engine = scenario_engine();
    let d = engine.step(&Event::Key { code: 30, value: 1 });
    assert_eq!(engine.mode, Mode::Mouse);
    assert!(d.forward);
    // A wrong continuation keeps the mode.
    engine.step(&Event::Key { code: 30, value: 1 });
    assert_eq!(engine.mode, Mode::Mouse);
    // The right pair observed later still flips.
    engine.step(&Event::Key { code: 30, value: 1 });
    engine.step(&Event::Key { code: 48, value: 1 });
    assert_eq!(engine.mode, Mode::Manipulator);
}

#[test]
fn non_key_events_do_not_disturb_the_match() {
    let mut engine = scenario_engine();
    engine.step(&Event::Key { code: 30, value: 1 });
    // Axis motion and other categories are not recorded in the history.
    engine.step(&Event::RelAxis { code: 0, value: 4 });
    engine.step(&Event::Other);
    engine.step(&Event::Key { code: 48, value: 1 });
    assert_eq!(engine.mode, Mode::Manipulator);
}

#[test]
fn release_value_distinguished_from_press() {
    let mut engine = scenario_engine();
    engine.step(&Event::Key { code: 30, value: 1 });
    // KEY_B release (value 0) is not the configured KEY_B press (value 1).
    engine.step(&Event::Key { code: 48, value: 0 });
    assert_eq!(engine.mode, Mode::Mouse);
}

use evdev::{AbsoluteAxisCode, AttributeSet, KeyCode, RelativeAxisCode};
use joycast::client::{DeviceSelection, JoycastClient};
use joycast::codes::{AbsoluteSet, KeySet, RelativeSet};
use joycast::device::{
    extract_metadata, AxisState, DeviceScanner, DeviceType, InputDevice, VirtualOutput,
};
use joycast::path::same_path;
use joycast::protocol::{AbsAxisWire, DeviceMetadata, EventWire, Message};
use joycast::reconnect::{DeviceIdentity, ReconnectingDevice};

fn metadata(name: &str, vendor: u16, product: u16) -> DeviceMetadata {
    DeviceMetadata {
        name: name.into(),
        bustype: 3,
        vendor,
        product,
        version: 1,
        keys: vec![304, 305],
        abs_axes: Vec::new(),
        rel_axes: Vec::new(),
    }
}

#[test]
fn reconnect_identity_matches_same_physical_device_model() {
    let original = metadata("Wireless Controller", 0x054c, 0x09cc);
    let identity = DeviceIdentity::from_metadata(&original);

    let mut reconnected = original.clone();
    reconnected.keys.push(307);

    assert!(identity.matches(&reconnected));
}

#[test]
fn reconnect_identity_rejects_a_different_device() {
    let identity = DeviceIdentity::from_metadata(&metadata("Controller A", 1, 2));

    assert!(!identity.matches(&metadata("Controller B", 1, 2)));
    assert!(!identity.matches(&metadata("Controller A", 1, 3)));
}

#[test]
fn input_event_is_preserved_on_the_wire() {
    let event = evdev::InputEvent::new(1, 304, 1);
    let message = JoycastClient::event_message(event.event_type().0, event.code(), event.value());

    assert_eq!(
        message,
        Message::Events(vec![EventWire {
            type_: 1,
            code: 304,
            value: 1,
        }])
    );
}

fn keys(codes: &[KeyCode]) -> Option<KeySet> {
    Some(KeySet { set: codes.iter().collect::<AttributeSet<KeyCode>>() })
}

fn device(path: &str, name: Option<&str>, keys: Option<KeySet>) -> InputDevice {
    InputDevice {
        path: path.into(),
        name: name.map(|n| n.to_owned()),
        bustype: 3,
        vendor: 0x45e,
        product: 0x28e,
        version: 0x110,
        keys,
        abs_axes: None,
        abs_state: None,
        rel_axes: None,
    }
}

fn gamepad(path: &str, name: &str) -> InputDevice {
    device(path, Some(name), keys(&[KeyCode::BTN_SOUTH]))
}

fn keyboard(path: &str) -> InputDevice {
    device(path, Some("Keyboard"), keys(&[KeyCode::KEY_A, KeyCode::KEY_ENTER]))
}

fn mouse(path: &str) -> InputDevice {
    device(path, Some("Mouse"), keys(&[KeyCode::BTN_LEFT, KeyCode::BTN_RIGHT]))
}

#[test]
fn codes_are_those_of_evdev() {
    assert_eq!(joycast::device::KEY_A, KeyCode::KEY_A.0);
    assert_eq!(joycast::device::KEY_ENTER, KeyCode::KEY_ENTER.0);
    assert_eq!(joycast::device::BTN_LEFT, KeyCode::BTN_LEFT.0);
    assert_eq!(joycast::device::BTN_RIGHT, KeyCode::BTN_RIGHT.0);
    assert_eq!(joycast::device::BTN_TRIGGER, KeyCode::BTN_TRIGGER.0);
    assert_eq!(joycast::device::BTN_THUMB, KeyCode::BTN_THUMB.0);
    assert_eq!(joycast::device::BTN_SOUTH, KeyCode::BTN_SOUTH.0);
    assert_eq!(joycast::device::BTN_EAST, KeyCode::BTN_EAST.0);
    assert_eq!(joycast::device::BTN_NORTH, KeyCode::BTN_NORTH.0);
    assert_eq!(joycast::device::BTN_WEST, KeyCode::BTN_WEST.0);
    assert_eq!(joycast::device::BTN_TL, KeyCode::BTN_TL.0);
    assert_eq!(joycast::device::BTN_TR, KeyCode::BTN_TR.0);
    assert_eq!(joycast::device::BTN_SELECT, KeyCode::BTN_SELECT.0);
    assert_eq!(joycast::device::BTN_START, KeyCode::BTN_START.0);
    assert_eq!(joycast::device::BTN_MODE, KeyCode::BTN_MODE.0);
    assert_eq!(joycast::device::BTN_THUMBL, KeyCode::BTN_THUMBL.0);
    assert_eq!(joycast::device::BTN_THUMBR, KeyCode::BTN_THUMBR.0);
}

#[test]
fn devices_are_classified_by_their_keys_and_axes() {
    for key in [
        KeyCode::BTN_SOUTH,
        KeyCode::BTN_EAST,
        KeyCode::BTN_NORTH,
        KeyCode::BTN_WEST,
        KeyCode::BTN_TL,
        KeyCode::BTN_TR,
        KeyCode::BTN_SELECT,
        KeyCode::BTN_START,
        KeyCode::BTN_MODE,
        KeyCode::BTN_THUMBL,
        KeyCode::BTN_THUMBR,
    ] {
        let pad = device("p", None, keys(&[key, KeyCode::BTN_LEFT, KeyCode::BTN_RIGHT]));
        assert_eq!(DeviceScanner::classify_device(&pad), DeviceType::Gamepad);
    }
    for key in [KeyCode::BTN_TRIGGER, KeyCode::BTN_THUMB] {
        let stick = device("p", None, keys(&[key]));
        assert_eq!(DeviceScanner::classify_device(&stick), DeviceType::Joystick);
    }
    assert_eq!(DeviceScanner::classify_device(&mouse("p")), DeviceType::Mouse);
    assert_eq!(DeviceScanner::classify_device(&keyboard("p")), DeviceType::Keyboard);
    let mut wheel = keyboard("p");
    wheel.rel_axes = Some(RelativeSet { set: AttributeSet::new() });
    assert_eq!(DeviceScanner::classify_device(&wheel), DeviceType::Mouse);
    let half = device("p", None, keys(&[KeyCode::KEY_A, KeyCode::BTN_LEFT]));
    assert_eq!(DeviceScanner::classify_device(&half), DeviceType::Other);
    assert_eq!(DeviceScanner::classify_device(&device("p", None, None)), DeviceType::Other);
    assert_eq!(DeviceType::Gamepad.label(), "Gamepad");
    assert_eq!(DeviceType::Joystick.label(), "Joystick");
    assert_eq!(DeviceType::Keyboard.label(), "Keyboard");
    assert_eq!(DeviceType::Mouse.label(), "Mouse");
    assert_eq!(DeviceType::Other.label(), "Other");
}

#[test]
fn noise_is_known_by_name() {
    for name in [
        "DualSense Motion Sensors",
        "Acme System Control",
        "Acme Consumer Control",
        "HDA NVidia HDMI/DP,pcm=3",
        "x PCM=1",
        "Headphone Jack",
        "Video Bus",
        "Lid Switch",
        "Power Button",
        "Sleep Button",
        "PC Speaker",
        "Intel HID hotkeys",
        "5 button array",
        "Privacy Driver",
        "Sony Wireless Controller Touchpad",
    ] {
        assert!(DeviceScanner::is_noise_device(name));
    }
    assert!(!DeviceScanner::is_noise_device("Wireless Controller"));
    assert!(!DeviceScanner::is_noise_device(""));
    for name in ["Video Bus", "Pad", "x hdmi y", "PCM="] {
        let noise = DeviceScanner::is_noise_device(name);
        assert_eq!(DeviceScanner::is_noise_device(&name.to_ascii_uppercase()), noise);
        assert_eq!(DeviceScanner::is_noise_device(&name.to_ascii_lowercase()), noise);
        if noise {
            assert!(DeviceScanner::is_noise_device(&format!("Acme {} 2", name)));
        }
    }
    assert!(DeviceScanner::is_noise_name("hdmi"));
    assert!(!DeviceScanner::is_noise_name("HDMI"));
}

fn found() -> Vec<InputDevice> {
    vec![
        keyboard("/dev/input/event4"),
        gamepad("/dev/input/event3", "Pad"),
        mouse("/dev/input/event2"),
        device("/dev/input/event1", Some("Stick"), keys(&[KeyCode::BTN_TRIGGER])),
        gamepad("/dev/input/event0", "Pad Motion Sensors"),
        device("/dev/input/event5", None, None),
        device("/dev/input/event10", None, keys(&[KeyCode::BTN_TL])),
    ]
}

fn listed(keyboard: bool, mouse: bool, all: bool) -> Vec<String> {
    DeviceScanner::list_devices_filtered(found(), keyboard, mouse, all)
        .into_iter()
        .map(|d| d.path)
        .collect()
}

#[test]
fn devices_are_listed_by_path() {
    let controllers = vec!["/dev/input/event1", "/dev/input/event10", "/dev/input/event3"];
    assert_eq!(listed(false, false, false), controllers);
    assert_eq!(
        listed(true, false, false),
        vec!["/dev/input/event1", "/dev/input/event10", "/dev/input/event3", "/dev/input/event4"]
    );
    assert_eq!(
        listed(false, true, false),
        vec!["/dev/input/event1", "/dev/input/event10", "/dev/input/event2", "/dev/input/event3"]
    );
    assert_eq!(
        listed(false, false, true),
        vec![
            "/dev/input/event0",
            "/dev/input/event1",
            "/dev/input/event10",
            "/dev/input/event2",
            "/dev/input/event3",
            "/dev/input/event4",
            "/dev/input/event5",
        ]
    );
    let devices = DeviceScanner::list_devices(found());
    assert_eq!(devices.len(), 3);
    assert_eq!(devices[0].device_type, DeviceType::Joystick);
    assert_eq!(devices[1].name, "Unknown Device");
    assert_eq!(devices[2].name, "Pad");
    assert_eq!((devices[2].vendor, devices[2].product), (0x45e, 0x28e));
    let copy = devices[2].clone();
    assert_eq!((copy.path, copy.name), (devices[2].path.clone(), "Pad".to_owned()));
    assert_eq!(
        DeviceScanner::find_first_gamepad(found()),
        Some("/dev/input/event1".to_owned())
    );
    assert_eq!(DeviceScanner::find_first_gamepad(vec![keyboard("k")]), None);
    assert_eq!(DeviceScanner::find_first_gamepad(vec![]), None);
}

#[test]
fn selection_follows_kind_and_noise() {
    assert!(DeviceScanner::is_selected(DeviceType::Other, true, false, false, true));
    assert!(!DeviceScanner::is_selected(DeviceType::Gamepad, true, true, true, false));
    assert!(!DeviceScanner::is_selected(DeviceType::Other, false, true, true, false));
    assert!(DeviceScanner::is_selected(DeviceType::Joystick, false, false, false, false));
    assert!(!DeviceScanner::is_selected(DeviceType::Mouse, false, true, false, false));
}

fn state(value: i32) -> AxisState {
    AxisState { value, minimum: -value, maximum: value + 1, fuzz: 1, flat: 2, resolution: 3 }
}

fn full() -> InputDevice {
    let mut pad = device(
        "/dev/input/event3",
        Some("Pad"),
        keys(&[KeyCode::BTN_EAST, KeyCode::BTN_SOUTH, KeyCode(767)]),
    );
    let axes = [AbsoluteAxisCode(2), AbsoluteAxisCode(0)];
    pad.abs_axes = Some(AbsoluteSet {
        set: axes.iter().collect::<AttributeSet<AbsoluteAxisCode>>(),
    });
    pad.abs_state = Some(vec![state(10), state(20), state(30)]);
    let axes = [RelativeAxisCode(8), RelativeAxisCode(1)];
    pad.rel_axes = Some(RelativeSet {
        set: axes.iter().collect::<AttributeSet<RelativeAxisCode>>(),
    });
    pad
}

fn axis(code: u16, value: i32) -> AbsAxisWire {
    AbsAxisWire {
        code,
        value,
        minimum: -value,
        maximum: value + 1,
        fuzz: 1,
        flat: 2,
        resolution: 3,
    }
}

#[test]
fn metadata_tells_what_a_device_supports() {
    assert_eq!(
        extract_metadata(&full()),
        DeviceMetadata {
            name: "Pad".into(),
            bustype: 3,
            vendor: 0x45e,
            product: 0x28e,
            version: 0x110,
            keys: vec![304, 305, 767],
            abs_axes: vec![axis(0, 10), axis(2, 30)],
            rel_axes: vec![1, 8],
        }
    );
    let mut unread = full();
    unread.abs_state = None;
    assert_eq!(extract_metadata(&unread).abs_axes, vec![]);
    let bare = extract_metadata(&device("p", None, None));
    assert_eq!(bare.name, "Joycast Virtual Device");
    assert_eq!(bare.keys, Vec::<u16>::new());
    assert_eq!(bare.rel_axes, Vec::<u16>::new());
}

#[test]
fn a_virtual_device_matches_the_real_one() {
    let meta = extract_metadata(&full());
    assert!(VirtualOutput::can_mirror(&meta));
    let output = VirtualOutput::new(&meta);
    assert_eq!(output.name, "Joycast: Pad");
    assert_eq!(
        (output.bustype, output.vendor, output.product, output.version),
        (3, 0x45e, 0x28e, 0x110)
    );
    let keys: Vec<u16> = output.keys.as_ref().unwrap().set.iter().map(|k| k.0).collect();
    assert_eq!(keys, vec![304, 305, 767]);
    let axes: Vec<u16> = output.rel_axes.as_ref().unwrap().set.iter().map(|k| k.0).collect();
    assert_eq!(axes, vec![1, 8]);
    assert_eq!(output.abs_axes, vec![axis(0, 10), axis(2, 30)]);

    let mut meta = metadata("Bare", 1, 2);
    meta.keys.clear();
    let output = VirtualOutput::new(&meta);
    assert!(output.keys.is_none());
    assert!(output.rel_axes.is_none());
}

#[test]
fn codes_beyond_those_known_are_told() {
    let mut meta = metadata("Pad", 1, 2);
    assert!(VirtualOutput::can_mirror(&meta));
    meta.keys.push(768);
    assert!(!VirtualOutput::can_mirror(&meta));
    meta.keys.pop();
    meta.rel_axes.push(15);
    assert!(VirtualOutput::can_mirror(&meta));
    meta.rel_axes.push(16);
    assert!(!VirtualOutput::can_mirror(&meta));
}

#[test]
fn only_events_are_written() {
    let output = VirtualOutput::new(&metadata("Pad", 1, 2));
    assert_eq!(output.emit(vec![]), None);
    let events = vec![
        EventWire { type_: 1, code: 304, value: 1 },
        EventWire { type_: 0, code: 0, value: 0 },
    ];
    assert_eq!(output.emit(events.clone()), Some(events));
}

#[test]
fn a_lost_device_is_found_in_its_place_first() {
    let mut lost = ReconnectingDevice::new(
        "/dev/input/event3".into(),
        &extract_metadata(&gamepad("/dev/input/event3", "Pad")),
    );
    let both = vec![
        mouse("/dev/input/event1"),
        gamepad("/dev/input/event2", "Pad"),
        gamepad("/dev/input/event3", "Pad"),
    ];
    assert_eq!(lost.try_reopen(&both), Some(2));
    assert_eq!(lost.preferred_path, "/dev/input/event3");
    let moved = vec![
        gamepad("/dev/input/event3", "Other Pad"),
        gamepad("/dev/input/event7", "Pad"),
        gamepad("/dev/input/event8", "Pad"),
    ];
    assert_eq!(lost.try_reopen(&moved), Some(1));
    assert_eq!(lost.preferred_path, "/dev/input/event7");
    assert_eq!(lost.try_reopen(&vec![mouse("/dev/input/event7")]), None);
    assert_eq!(lost.preferred_path, "/dev/input/event7");
    assert_eq!(lost.identity.name, "Pad");
}

#[test]
fn a_requested_device_is_kept_to() {
    let mut selection = DeviceSelection {
        requested_path: None,
        keyboard: false,
        mouse: false,
        all: false,
    };
    assert_eq!(selection.candidate(vec![mouse("m")]), None);
    assert_eq!(selection.candidate(found()), Some("/dev/input/event1".to_owned()));
    selection.opened("/dev/input/event1".into());
    let copy = selection.clone();
    assert_eq!(copy.candidate(vec![gamepad("a", "Pad")]), Some("/dev/input/event1".to_owned()));
    let mut all = copy;
    all.requested_path = None;
    all.all = true;
    assert_eq!(all.candidate(found()), Some("/dev/input/event0".to_owned()));
}

#[test]
fn a_place_is_known_however_its_path_is_written() {
    let mut lost = ReconnectingDevice::new(
        "/dev/input//event3/".into(),
        &extract_metadata(&gamepad("/dev/input/event3", "Pad")),
    );
    let both =
        vec![gamepad("/dev/input/event2", "Pad"), gamepad("/dev/./input/event3", "Pad")];
    assert_eq!(lost.try_reopen(&both), Some(1));
    assert_eq!(lost.preferred_path, "/dev/input//event3/");
}

#[test]
fn paths_are_the_same_as_for_the_standard_library() {
    let paths = [
        "", ".", "./", "/", "//", "a", "./a", "a/", "a//", "a/.", "/a", "//a", "/./a", "a/b",
        "a/./b", "a//b", "a/../b", "b", "..", "../a", ".a", "a.", "/.", "./.", "a/b/", "é/b",
    ];
    for a in paths {
        for b in paths {
            assert_eq!(
                same_path(a, b),
                std::path::Path::new(a) == std::path::Path::new(b),
                "{} and {}",
                a,
                b
            );
        }
    }
}

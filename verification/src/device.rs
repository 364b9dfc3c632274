//! Input devices: what kind they are, which of them are offered, and what a server needs to know
//! to build a matching virtual device.

use vstd::prelude::*;

use crate::codes::{
    absolute_codes, key_codes, lists_codes, relative_codes, AbsoluteSet, KeySet, RelativeSet,
    KEY_CODES, RELATIVE_CODES,
};
use crate::protocol::{AbsAxisWire, DeviceMetadata, EventWire, MetadataView};
use crate::surroundings::text_in;
use crate::text::{
    ascii_lower, ascii_upper, contains, has_part, in_order, is_ascii, joined, lemma_ascii_case,
    lemma_part_stays, lemma_stable_sorted, lowercase, lowercase_of, sort_by_text, stable_sorted,
    text_le, SortKey,
};

verus! {

pub const KEY_ENTER: u16 = 28;

pub const KEY_A: u16 = 30;

pub const BTN_LEFT: u16 = 0x110;

pub const BTN_RIGHT: u16 = 0x111;

pub const BTN_TRIGGER: u16 = 0x120;

pub const BTN_THUMB: u16 = 0x121;

pub const BTN_SOUTH: u16 = 0x130;

pub const BTN_EAST: u16 = 0x131;

pub const BTN_NORTH: u16 = 0x133;

pub const BTN_WEST: u16 = 0x134;

pub const BTN_TL: u16 = 0x136;

pub const BTN_TR: u16 = 0x137;

pub const BTN_SELECT: u16 = 0x13a;

pub const BTN_START: u16 = 0x13b;

pub const BTN_MODE: u16 = 0x13c;

pub const BTN_THUMBL: u16 = 0x13d;

pub const BTN_THUMBR: u16 = 0x13e;

/// Type of input device detected.
#[derive(Debug, Clone, Copy, PartialEq, Eq, Structural)]
pub enum DeviceType {
    Gamepad,
    Joystick,
    Keyboard,
    Mouse,
    Other,
}

impl DeviceType {
    /// The name for the user.
    pub open spec fn name(&self) -> Seq<char> {
        match *self {
            DeviceType::Gamepad => "Gamepad"@,
            DeviceType::Joystick => "Joystick"@,
            DeviceType::Keyboard => "Keyboard"@,
            DeviceType::Mouse => "Mouse"@,
            DeviceType::Other => "Other"@,
        }
    }

    /// The name for the user.
    pub fn label(&self) -> (r: &'static str)
        ensures
            r@ == self.name(),
    {
        match self {
            DeviceType::Gamepad => "Gamepad",
            DeviceType::Joystick => "Joystick",
            DeviceType::Keyboard => "Keyboard",
            DeviceType::Mouse => "Mouse",
            DeviceType::Other => "Other",
        }
    }
}

/// Information about a discovered input device.
#[derive(Debug)]
pub struct DeviceInfo {
    pub path: String,
    pub name: String,
    pub device_type: DeviceType,
    pub vendor: u16,
    pub product: u16,
}

impl Clone for DeviceInfo {
    fn clone(&self) -> (r: Self)
        ensures
            r == *self,
    {
        DeviceInfo {
            path: self.path.clone(),
            name: self.name.clone(),
            device_type: self.device_type,
            vendor: self.vendor,
            product: self.product,
        }
    }
}

/// The state of an absolute axis.
#[derive(Debug, Clone, Copy, PartialEq, Eq, Structural)]
pub struct AxisState {
    pub value: i32,
    pub minimum: i32,
    pub maximum: i32,
    pub fuzz: i32,
    pub flat: i32,
    pub resolution: i32,
}

/// What a device tells of itself. The state of the absolute axes is listed by code, and is there
/// where it could be read.
pub struct InputDevice {
    pub path: String,
    pub name: Option<String>,
    pub bustype: u16,
    pub vendor: u16,
    pub product: u16,
    pub version: u16,
    pub keys: Option<KeySet>,
    pub abs_axes: Option<AbsoluteSet>,
    pub abs_state: Option<Vec<AxisState>>,
    pub rel_axes: Option<RelativeSet>,
}

/// Devices are listed by path. All of them lie in one directory, so this is the order of the
/// texts.
impl SortKey for InputDevice {
    open spec fn sort_key(&self) -> Seq<char> {
        self.path@
    }

    fn sort_text(&self) -> (r: &str) {
        self.path.as_str()
    }
}

impl InputDevice {
    /// The device's name, or `other` where it has none.
    pub open spec fn name_or(&self, other: Seq<char>) -> Seq<char> {
        match text_in(self.name) {
            Some(name) => name,
            None => other,
        }
    }

    /// The device's name, or `other` where it has none.
    fn name_text(&self, other: &str) -> (r: String)
        ensures
            r@ == self.name_or(other@),
    {
        match &self.name {
            Some(name) => name.clone(),
            None => other.to_owned(),
        }
    }

    /// The keys and buttons of the device.
    pub open spec fn key_set(&self) -> Set<u16> {
        match self.keys {
            Some(keys) => key_codes(keys),
            None => Set::empty(),
        }
    }

    /// The relative axes of the device.
    pub open spec fn rel_set(&self) -> Set<u16> {
        match self.rel_axes {
            Some(axes) => relative_codes(axes),
            None => Set::empty(),
        }
    }

    /// The absolute axes of the device whose state is known, from the lowest code up.
    pub open spec fn axes(&self) -> Seq<AbsAxisWire> {
        match (self.abs_axes, self.abs_state) {
            (Some(supported), Some(state)) => axes_in(absolute_codes(supported), state@),
            _ => Seq::empty(),
        }
    }
}

/// The axis with a code and a state.
pub open spec fn axis(code: u16, state: AxisState) -> AbsAxisWire {
    AbsAxisWire {
        code,
        value: state.value,
        minimum: state.minimum,
        maximum: state.maximum,
        fuzz: state.fuzz,
        flat: state.flat,
        resolution: state.resolution,
    }
}

/// The axes of `state`, which is listed by code, that are among the `supported` ones.
pub open spec fn axes_in(supported: Set<u16>, state: Seq<AxisState>) -> Seq<AbsAxisWire>
    decreases state.len(),
{
    if state.len() == 0 {
        Seq::empty()
    } else {
        let rest = axes_in(supported, state.drop_last());
        let code = (state.len() - 1) as u16;
        if supported.contains(code) {
            rest.push(axis(code, state.last()))
        } else {
            rest
        }
    }
}

/// One of the keys is a button of a gamepad.
pub open spec fn has_gamepad_button(keys: Set<u16>) -> bool {
    ||| keys.contains(BTN_SOUTH)
    ||| keys.contains(BTN_EAST)
    ||| keys.contains(BTN_NORTH)
    ||| keys.contains(BTN_WEST)
    ||| keys.contains(BTN_TL)
    ||| keys.contains(BTN_TR)
    ||| keys.contains(BTN_SELECT)
    ||| keys.contains(BTN_START)
    ||| keys.contains(BTN_MODE)
    ||| keys.contains(BTN_THUMBL)
    ||| keys.contains(BTN_THUMBR)
}

/// One of the keys is a button of a joystick.
pub open spec fn has_joystick_button(keys: Set<u16>) -> bool {
    keys.contains(BTN_TRIGGER) || keys.contains(BTN_THUMB)
}

/// The kind of a device with these keys that has relative axes or not.
pub open spec fn kind_of(keys: Set<u16>, relative: bool) -> DeviceType {
    if has_gamepad_button(keys) {
        DeviceType::Gamepad
    } else if has_joystick_button(keys) {
        DeviceType::Joystick
    } else if relative || (keys.contains(BTN_LEFT) && keys.contains(BTN_RIGHT)) {
        DeviceType::Mouse
    } else if keys.contains(KEY_A) && keys.contains(KEY_ENTER) {
        DeviceType::Keyboard
    } else {
        DeviceType::Other
    }
}

/// The name, in lower case, is that of a device that is no controller.
pub open spec fn is_noise(lower: Seq<char>) -> bool {
    ||| has_part(lower, "motion sensors"@)
    ||| has_part(lower, "system control"@)
    ||| has_part(lower, "consumer control"@)
    ||| has_part(lower, "hdmi"@)
    ||| has_part(lower, "pcm="@)
    ||| has_part(lower, "headphone"@)
    ||| has_part(lower, "video bus"@)
    ||| has_part(lower, "lid switch"@)
    ||| has_part(lower, "power button"@)
    ||| has_part(lower, "sleep button"@)
    ||| has_part(lower, "pc speaker"@)
    ||| has_part(lower, "hotkeys"@)
    ||| has_part(lower, "button array"@)
    ||| has_part(lower, "privacy driver"@)
    ||| has_part(lower, "wireless controller touchpad"@)
}

/// `r` tells whether the name is that of a device that is no controller. In a name of ASCII
/// characters the case of the letters is of no account.
pub open spec fn tells_noise(name: Seq<char>, r: bool) -> bool {
    &&& r == is_noise(lowercase_of(name))
    &&& is_ascii(name) ==> r == is_noise(ascii_lower(name))
}

/// A device of the kind is offered.
pub open spec fn is_offered(
    kind: DeviceType,
    noise: bool,
    keyboard: bool,
    mouse: bool,
    all: bool,
) -> bool {
    all || (!noise && match kind {
        DeviceType::Gamepad => true,
        DeviceType::Joystick => true,
        DeviceType::Keyboard => keyboard,
        DeviceType::Mouse => mouse,
        DeviceType::Other => false,
    })
}

/// The kind of a device.
pub open spec fn kind(device: InputDevice) -> DeviceType {
    kind_of(device.key_set(), device.rel_axes is Some)
}

/// The device is offered.
pub open spec fn offers(device: InputDevice, keyboard: bool, mouse: bool, all: bool) -> bool {
    is_offered(
        kind(device),
        is_noise(lowercase_of(device.name_or("Unknown Device"@))),
        keyboard,
        mouse,
        all,
    )
}

/// The devices that are offered, in the order of `devices`.
pub open spec fn offered(
    devices: Seq<InputDevice>,
    keyboard: bool,
    mouse: bool,
    all: bool,
) -> Seq<InputDevice>
    decreases devices.len(),
{
    if devices.len() == 0 {
        Seq::empty()
    } else {
        let rest = offered(devices.drop_last(), keyboard, mouse, all);
        if offers(devices.last(), keyboard, mouse, all) {
            rest.push(devices.last())
        } else {
            rest
        }
    }
}

/// `info` is the information about `device`.
pub open spec fn informs(info: DeviceInfo, device: InputDevice) -> bool {
    &&& info.path == device.path
    &&& info.name@ == device.name_or("Unknown Device"@)
    &&& info.device_type == kind(device)
    &&& info.vendor == device.vendor
    &&& info.product == device.product
}

/// `infos` is the information about `devices`, one by one.
pub open spec fn informs_all(infos: Seq<DeviceInfo>, devices: Seq<InputDevice>) -> bool {
    &&& infos.len() == devices.len()
    &&& forall|i: int| 0 <= i < infos.len() ==> informs(#[trigger] infos[i], devices[i])
}

/// `path` is that of the first gamepad or joystick among the devices that were found.
pub open spec fn is_first_gamepad(found: Seq<InputDevice>, path: Option<String>) -> bool {
    let list = offered(stable_sorted(found), false, false, false);
    match path {
        Some(path) => list.len() > 0 && path == list[0].path,
        None => list.len() == 0,
    }
}

/// Scanner for listing local input devices.
pub struct DeviceScanner;

impl DeviceScanner {
    /// Check if a device name represents non-controller system noise.
    pub fn is_noise_device(name: &str) -> (r: bool)
        ensures
            tells_noise(name@, r),
    {
        DeviceScanner::is_noise_name(lowercase(name).as_str())
    }

    /// Whether a name in lower case represents non-controller system noise.
    pub fn is_noise_name(lower: &str) -> (r: bool)
        ensures
            r == is_noise(lower@),
    {
        contains(lower, "motion sensors") || contains(lower, "system control") || contains(
            lower,
            "consumer control",
        ) || contains(lower, "hdmi") || contains(lower, "pcm=") || contains(lower, "headphone")
            || contains(lower, "video bus") || contains(lower, "lid switch") || contains(
            lower,
            "power button",
        ) || contains(lower, "sleep button") || contains(lower, "pc speaker") || contains(
            lower,
            "hotkeys",
        ) || contains(lower, "button array") || contains(lower, "privacy driver") || contains(
            lower,
            "wireless controller touchpad",
        )
    }

    /// Whether a device of the kind is offered.
    pub fn is_selected(
        device_type: DeviceType,
        noise: bool,
        include_keyboard: bool,
        include_mouse: bool,
        include_all: bool,
    ) -> (r: bool)
        ensures
            r == is_offered(device_type, noise, include_keyboard, include_mouse, include_all),
    {
        if include_all {
            return true;
        }
        if device_type == DeviceType::Other || noise {
            return false;
        }
        match device_type {
            DeviceType::Gamepad => true,
            DeviceType::Joystick => true,
            DeviceType::Keyboard => include_keyboard,
            DeviceType::Mouse => include_mouse,
            DeviceType::Other => false,
        }
    }

    /// The devices of those found that are offered under specific type selection filters.
    pub fn list_devices_filtered(
        found: Vec<InputDevice>,
        include_keyboard: bool,
        include_mouse: bool,
        include_all: bool,
    ) -> (r: Vec<DeviceInfo>)
        ensures
            informs_all(
                r@,
                offered(stable_sorted(found@), include_keyboard, include_mouse, include_all),
            ),
    {
        let sorted = sort_by_text(found);
        let mut devices: Vec<DeviceInfo> = Vec::new();
        let n: usize = sorted.len();
        assert(sorted@.take(0) =~= Seq::<InputDevice>::empty());
        for i in 0..n
            invariant
                n == sorted@.len(),
                informs_all(
                    devices@,
                    offered(
                        sorted@.take(i as int),
                        include_keyboard,
                        include_mouse,
                        include_all,
                    ),
                ),
        {
            let device = &sorted[i];
            let name = device.name_text("Unknown Device");
            let device_type = DeviceScanner::classify_device(device);
            let noise = DeviceScanner::is_noise_device(&name);
            proof {
                assert(sorted@.take(i + 1).drop_last() =~= sorted@.take(i as int));
                assert(sorted@.take(i + 1).last() == sorted@[i as int]);
            }
            if DeviceScanner::is_selected(
                device_type,
                noise,
                include_keyboard,
                include_mouse,
                include_all,
            ) {
                devices.push(
                    DeviceInfo {
                        path: device.path.clone(),
                        name,
                        device_type,
                        vendor: device.vendor,
                        product: device.product,
                    },
                );
            }
        }
        assert(sorted@.take(n as int) =~= sorted@);
        devices
    }

    /// Gamepads and joysticks among the devices that were found.
    pub fn list_devices(found: Vec<InputDevice>) -> (r: Vec<DeviceInfo>)
        ensures
            informs_all(r@, offered(stable_sorted(found@), false, false, false)),
    {
        DeviceScanner::list_devices_filtered(found, false, false, false)
    }

    /// Classify device based on its supported keys and axes.
    pub fn classify_device(device: &InputDevice) -> (r: DeviceType)
        ensures
            r == kind(*device),
    {
        let (gamepad, joystick, mouse, keyboard) = match &device.keys {
            Some(keys) => (
                keys.contains(BTN_SOUTH) || keys.contains(BTN_EAST) || keys.contains(BTN_NORTH)
                    || keys.contains(BTN_WEST) || keys.contains(BTN_TL) || keys.contains(BTN_TR)
                    || keys.contains(BTN_SELECT) || keys.contains(BTN_START) || keys.contains(
                    BTN_MODE,
                ) || keys.contains(BTN_THUMBL) || keys.contains(BTN_THUMBR),
                keys.contains(BTN_TRIGGER) || keys.contains(BTN_THUMB),
                keys.contains(BTN_LEFT) && keys.contains(BTN_RIGHT),
                keys.contains(KEY_A) && keys.contains(KEY_ENTER),
            ),
            None => (false, false, false, false),
        };
        if gamepad {
            DeviceType::Gamepad
        } else if joystick {
            DeviceType::Joystick
        } else if mouse || device.rel_axes.is_some() {
            DeviceType::Mouse
        } else if keyboard {
            DeviceType::Keyboard
        } else {
            DeviceType::Other
        }
    }

    /// Find the first available gamepad device path.
    pub fn find_first_gamepad(found: Vec<InputDevice>) -> (r: Option<String>)
        ensures
            is_first_gamepad(found@, r),
    {
        // Only gamepads and joysticks are listed.
        let devices = DeviceScanner::list_devices(found);
        if devices.len() > 0 {
            Some(devices[0].path.clone())
        } else {
            None
        }
    }
}

/// The device is a gamepad or a joystick and not known as noise.
pub open spec fn is_controller(device: InputDevice) -> bool {
    &&& kind(device) is Gamepad || kind(device) is Joystick
    &&& !is_noise(lowercase_of(device.name_or("Unknown Device"@)))
}

/// `meta` describes `device`.
pub open spec fn describes(meta: MetadataView, device: InputDevice) -> bool {
    &&& meta.name == device.name_or("Joycast Virtual Device"@)
    &&& meta.bustype == device.bustype
    &&& meta.vendor == device.vendor
    &&& meta.product == device.product
    &&& meta.version == device.version
    &&& lists_codes(meta.keys, device.key_set())
    &&& meta.abs_axes == device.axes()
    &&& lists_codes(meta.rel_axes, device.rel_set())
}

/// Every code is one that a virtual device can have.
pub open spec fn fits(meta: MetadataView) -> bool {
    &&& forall|i: int| 0 <= i < meta.keys.len() ==> #[trigger] meta.keys[i] < KEY_CODES
    &&& forall|i: int|
        0 <= i < meta.rel_axes.len() ==> #[trigger] meta.rel_axes[i] < RELATIVE_CODES
}

/// Helper to extract metadata from a physical device. What comes of it can be mirrored.
pub fn extract_metadata(device: &InputDevice) -> (r: DeviceMetadata)
    ensures
        describes(r@, *device),
        fits(r@),
{
    let name = device.name_text("Joycast Virtual Device");
    let keys = match &device.keys {
        Some(keys) => keys.codes(),
        None => Vec::new(),
    };
    let mut abs_axes: Vec<AbsAxisWire> = Vec::new();
    if let (Some(supported), Some(state)) = (&device.abs_axes, &device.abs_state) {
        let n: usize = state.len();
        assert(state@.take(0) =~= Seq::<AxisState>::empty());
        for i in 0..n
            invariant
                n == state@.len(),
                abs_axes@ == axes_in(absolute_codes(*supported), state@.take(i as int)),
        {
            let code: u16 = i as u16;
            proof {
                assert(state@.take(i + 1).drop_last() =~= state@.take(i as int));
                assert(state@.take(i + 1).last() == state@[i as int]);
            }
            if supported.contains(code) {
                abs_axes.push(
                    AbsAxisWire {
                        code,
                        value: state[i].value,
                        minimum: state[i].minimum,
                        maximum: state[i].maximum,
                        fuzz: state[i].fuzz,
                        flat: state[i].flat,
                        resolution: state[i].resolution,
                    },
                );
            }
        }
        assert(state@.take(n as int) =~= state@);
    }
    let rel_axes = match &device.rel_axes {
        Some(axes) => axes.codes(),
        None => Vec::new(),
    };
    DeviceMetadata {
        name,
        bustype: device.bustype,
        vendor: device.vendor,
        product: device.product,
        version: device.version,
        keys,
        abs_axes,
        rel_axes,
    }
}

/// The virtual device on the server that replays events: its name, its identity, and what it
/// supports. A part that is `None` is not set up.
pub struct VirtualOutput {
    pub name: String,
    pub bustype: u16,
    pub vendor: u16,
    pub product: u16,
    pub version: u16,
    pub keys: Option<KeySet>,
    pub rel_axes: Option<RelativeSet>,
    pub abs_axes: Vec<AbsAxisWire>,
}

/// `output` is the virtual device for `meta`.
pub open spec fn mirrors(output: VirtualOutput, meta: MetadataView) -> bool {
    &&& output.name@ == "Joycast: "@ + meta.name
    &&& output.bustype == meta.bustype
    &&& output.vendor == meta.vendor
    &&& output.product == meta.product
    &&& output.version == meta.version
    &&& match output.keys {
        Some(keys) => meta.keys.len() > 0 && key_codes(keys) == meta.keys.to_set(),
        None => meta.keys.len() == 0,
    }
    &&& match output.rel_axes {
        Some(axes) => meta.rel_axes.len() > 0 && relative_codes(axes) == meta.rel_axes.to_set(),
        None => meta.rel_axes.len() == 0,
    }
    &&& output.abs_axes@ == meta.abs_axes
}

proof fn lemma_one_more(s: Seq<u16>, i: int)
    requires
        0 <= i < s.len(),
    ensures
        s.take(i + 1).to_set() == s.take(i).to_set().insert(s[i]),
{
    let longer = s.take(i + 1);
    let shorter = s.take(i);
    assert forall|c: u16| #[trigger]
        longer.to_set().contains(c) <==> shorter.to_set().insert(s[i]).contains(c) by {
        if longer.contains(c) {
            let k = choose|k: int| 0 <= k < longer.len() && longer[k] == c;
            if k < i {
                assert(shorter[k] == c);
            }
        }
        if shorter.contains(c) {
            let k = choose|k: int| 0 <= k < shorter.len() && shorter[k] == c;
            assert(longer[k] == c);
        }
        assert(longer[i] == s[i]);
    }
    assert(longer.to_set() =~= shorter.to_set().insert(s[i]));
}

impl VirtualOutput {
    /// Whether every code is one that a virtual device can have.
    pub fn can_mirror(meta: &DeviceMetadata) -> (r: bool)
        ensures
            r == fits(meta@),
    {
        let n: usize = meta.keys.len();
        for i in 0..n
            invariant
                n == meta.keys@.len(),
                forall|k: int| 0 <= k < i ==> #[trigger] meta.keys@[k] < KEY_CODES,
        {
            if meta.keys[i] >= KEY_CODES {
                assert(meta@.keys[i as int] >= KEY_CODES);
                return false;
            }
        }
        let m: usize = meta.rel_axes.len();
        for i in 0..m
            invariant
                m == meta.rel_axes@.len(),
                forall|k: int| 0 <= k < i ==> #[trigger] meta.rel_axes@[k] < RELATIVE_CODES,
        {
            if meta.rel_axes[i] >= RELATIVE_CODES {
                assert(meta@.rel_axes[i as int] >= RELATIVE_CODES);
                return false;
            }
        }
        true
    }

    /// The virtual device for the metadata that a client sent.
    pub fn new(meta: &DeviceMetadata) -> (r: Self)
        requires
            fits(meta@),
        ensures
            mirrors(r, meta@),
    {
        let mut key_set = KeySet::new();
        let n: usize = meta.keys.len();
        assert(meta.keys@.take(0).to_set() =~= Set::<u16>::empty());
        for i in 0..n
            invariant
                n == meta.keys@.len(),
                fits(meta@),
                key_codes(key_set) == meta.keys@.take(i as int).to_set(),
        {
            proof {
                lemma_one_more(meta.keys@, i as int);
                assert(meta@.keys[i as int] < KEY_CODES);
            }
            key_set.insert(meta.keys[i]);
        }
        let mut rel_set = RelativeSet::new();
        let m: usize = meta.rel_axes.len();
        assert(meta.rel_axes@.take(0).to_set() =~= Set::<u16>::empty());
        for i in 0..m
            invariant
                m == meta.rel_axes@.len(),
                fits(meta@),
                relative_codes(rel_set) == meta.rel_axes@.take(i as int).to_set(),
        {
            proof {
                lemma_one_more(meta.rel_axes@, i as int);
                assert(meta@.rel_axes[i as int] < RELATIVE_CODES);
            }
            rel_set.insert(meta.rel_axes[i]);
        }
        proof {
            assert(meta.keys@.take(n as int) =~= meta.keys@);
            assert(meta.rel_axes@.take(m as int) =~= meta.rel_axes@);
        }
        let abs_axes = meta.abs_axes.clone();
        assert(abs_axes@ =~= meta.abs_axes@);
        VirtualOutput {
            name: joined("Joycast: ", &meta.name),
            bustype: meta.bustype,
            vendor: meta.vendor,
            product: meta.product,
            version: meta.version,
            keys: if n > 0 {
                Some(key_set)
            } else {
                None
            },
            rel_axes: if m > 0 {
                Some(rel_set)
            } else {
                None
            },
            abs_axes,
        }
    }

    /// The batch of events that is written to the device, or none where there is nothing to
    /// write.
    pub fn emit(&self, events: Vec<EventWire>) -> (r: Option<Vec<EventWire>>)
        ensures
            r == if events@.len() > 0 {
                Some(events)
            } else {
                None
            },
    {
        if events.len() > 0 {
            Some(events)
        } else {
            None
        }
    }
}

/// A device with a button of a gamepad is a gamepad, whatever else it has.
pub proof fn law_gamepad_button_decides(device: InputDevice)
    requires
        has_gamepad_button(device.key_set()),
    ensures
        kind(device) == DeviceType::Gamepad,
{
}

/// A name that is noise stays noise when text is put around it.
pub proof fn law_noise_stays_noise(front: Seq<char>, s: Seq<char>, back: Seq<char>)
    requires
        is_noise(s),
    ensures
        is_noise(front + s + back),
{
    lemma_part_stays(front, s, back, "motion sensors"@);
    lemma_part_stays(front, s, back, "system control"@);
    lemma_part_stays(front, s, back, "consumer control"@);
    lemma_part_stays(front, s, back, "hdmi"@);
    lemma_part_stays(front, s, back, "pcm="@);
    lemma_part_stays(front, s, back, "headphone"@);
    lemma_part_stays(front, s, back, "video bus"@);
    lemma_part_stays(front, s, back, "lid switch"@);
    lemma_part_stays(front, s, back, "power button"@);
    lemma_part_stays(front, s, back, "sleep button"@);
    lemma_part_stays(front, s, back, "pc speaker"@);
    lemma_part_stays(front, s, back, "hotkeys"@);
    lemma_part_stays(front, s, back, "button array"@);
    lemma_part_stays(front, s, back, "privacy driver"@);
    lemma_part_stays(front, s, back, "wireless controller touchpad"@);
}

/// What [`DeviceScanner::is_noise_device`] says of a name of ASCII characters does not change
/// with the case of its letters, and stays when ASCII text is put around a name that is noise.
pub proof fn law_noise_ignores_case(
    front: Seq<char>,
    s: Seq<char>,
    back: Seq<char>,
    of_name: bool,
    of_upper: bool,
    of_lower: bool,
    of_longer: bool,
)
    requires
        is_ascii(front),
        is_ascii(s),
        is_ascii(back),
        tells_noise(s, of_name),
        tells_noise(ascii_upper(s), of_upper),
        tells_noise(ascii_lower(s), of_lower),
        tells_noise(front + s + back, of_longer),
    ensures
        of_upper == of_name,
        of_lower == of_name,
        of_name ==> of_longer,
{
    lemma_ascii_case(s);
    assert(is_ascii(front + s + back));
    assert(ascii_lower(front + s + back) =~= ascii_lower(front) + ascii_lower(s) + ascii_lower(
        back,
    ));
    if of_name {
        law_noise_stays_noise(ascii_lower(front), ascii_lower(s), ascii_lower(back));
    }
}

/// Unless more is asked for, only gamepads and joysticks are offered.
pub proof fn law_default_list_holds_controllers(devices: Seq<InputDevice>)
    ensures
        forall|i: int|
            0 <= i < offered(devices, false, false, false).len() ==> is_controller(
                #[trigger] offered(devices, false, false, false)[i],
            ),
    decreases devices.len(),
{
    if devices.len() > 0 {
        law_default_list_holds_controllers(devices.drop_last());
        let all = offered(devices, false, false, false);
        let rest = offered(devices.drop_last(), false, false, false);
        assert forall|i: int| 0 <= i < all.len() implies is_controller(#[trigger] all[i]) by {
            if i < rest.len() {
                assert(all[i] == rest[i]);
            }
        }
    }
}

/// Every controller that is found is offered, whatever else is asked for.
pub proof fn law_controllers_are_offered(
    device: InputDevice,
    keyboard: bool,
    mouse: bool,
    all: bool,
)
    requires
        is_controller(device),
    ensures
        offers(device, keyboard, mouse, all),
{
}

/// Asking for more kinds of devices never takes one away.
pub proof fn law_asking_for_more_offers_more(
    device: InputDevice,
    keyboard: bool,
    mouse: bool,
    all: bool,
    more_keyboard: bool,
    more_mouse: bool,
    more_all: bool,
)
    requires
        keyboard ==> more_keyboard,
        mouse ==> more_mouse,
        all ==> more_all,
        offers(device, keyboard, mouse, all),
    ensures
        offers(device, more_keyboard, more_mouse, more_all),
{
}

/// Where all devices are asked for, all are offered.
pub proof fn law_all_are_offered(devices: Seq<InputDevice>, keyboard: bool, mouse: bool)
    ensures
        offered(devices, keyboard, mouse, true) == devices,
    decreases devices.len(),
{
    if devices.len() > 0 {
        law_all_are_offered(devices.drop_last(), keyboard, mouse);
        assert(devices.drop_last().push(devices.last()) =~= devices);
    } else {
        assert(devices =~= Seq::empty());
    }
}

/// The virtual device for the metadata of a device has the keys and axes of that device and its
/// identity, and is recognised by its name.
pub proof fn law_virtual_device_matches(
    device: InputDevice,
    meta: MetadataView,
    output: VirtualOutput,
)
    requires
        describes(meta, device),
        mirrors(output, meta),
    ensures
        output.name@ == "Joycast: "@ + device.name_or("Joycast Virtual Device"@),
        output.bustype == device.bustype,
        output.vendor == device.vendor,
        output.product == device.product,
        output.version == device.version,
        match output.keys {
            Some(keys) => key_codes(keys) == device.key_set(),
            None => device.key_set() == Set::<u16>::empty(),
        },
        match output.rel_axes {
            Some(axes) => relative_codes(axes) == device.rel_set(),
            None => device.rel_set() == Set::<u16>::empty(),
        },
        output.abs_axes@ == device.axes(),
{
    assert forall|c: u16| #[trigger] meta.keys.to_set().contains(c) <==> device.key_set().contains(
        c,
    ) by {
        assert(meta.keys.contains(c) <==> device.key_set().contains(c));
    }
    assert(meta.keys.to_set() =~= device.key_set());
    assert forall|c: u16| #[trigger]
        meta.rel_axes.to_set().contains(c) <==> device.rel_set().contains(c) by {
        assert(meta.rel_axes.contains(c) <==> device.rel_set().contains(c));
    }
    assert(meta.rel_axes.to_set() =~= device.rel_set());
    if meta.keys.len() == 0 {
        assert(meta.keys.to_set() =~= Set::<u16>::empty());
    }
    if meta.rel_axes.len() == 0 {
        assert(meta.rel_axes.to_set() =~= Set::<u16>::empty());
    }
}

/// Each button of a gamepad makes a device a gamepad, whatever else the device has.
pub proof fn law_every_gamepad_button_counts(device: InputDevice, keys: KeySet)
    requires
        device.keys == Some(keys),
    ensures
        key_codes(keys).contains(BTN_SOUTH) ==> kind(device) is Gamepad,
        key_codes(keys).contains(BTN_EAST) ==> kind(device) is Gamepad,
        key_codes(keys).contains(BTN_NORTH) ==> kind(device) is Gamepad,
        key_codes(keys).contains(BTN_WEST) ==> kind(device) is Gamepad,
        key_codes(keys).contains(BTN_TL) ==> kind(device) is Gamepad,
        key_codes(keys).contains(BTN_TR) ==> kind(device) is Gamepad,
        key_codes(keys).contains(BTN_SELECT) ==> kind(device) is Gamepad,
        key_codes(keys).contains(BTN_START) ==> kind(device) is Gamepad,
        key_codes(keys).contains(BTN_MODE) ==> kind(device) is Gamepad,
        key_codes(keys).contains(BTN_THUMBL) ==> kind(device) is Gamepad,
        key_codes(keys).contains(BTN_THUMBR) ==> kind(device) is Gamepad,
{
}

/// A device without a button of a gamepad is a joystick where it has a trigger, and where it has a
/// thumb button, whatever else it has. Failing that, relative axes or both buttons of a mouse make
/// it a mouse; failing that, a letter and the enter key make it a keyboard.
pub proof fn law_kinds_other_than_gamepad(device: InputDevice, keys: KeySet)
    requires
        device.keys == Some(keys),
        !key_codes(keys).contains(BTN_SOUTH),
        !key_codes(keys).contains(BTN_EAST),
        !key_codes(keys).contains(BTN_NORTH),
        !key_codes(keys).contains(BTN_WEST),
        !key_codes(keys).contains(BTN_TL),
        !key_codes(keys).contains(BTN_TR),
        !key_codes(keys).contains(BTN_SELECT),
        !key_codes(keys).contains(BTN_START),
        !key_codes(keys).contains(BTN_MODE),
        !key_codes(keys).contains(BTN_THUMBL),
        !key_codes(keys).contains(BTN_THUMBR),
    ensures
        key_codes(keys).contains(BTN_TRIGGER) ==> kind(device) is Joystick,
        key_codes(keys).contains(BTN_THUMB) ==> kind(device) is Joystick,
        !key_codes(keys).contains(BTN_TRIGGER) && !key_codes(keys).contains(BTN_THUMB) ==> {
            let mouse = key_codes(keys).contains(BTN_LEFT) && key_codes(keys).contains(BTN_RIGHT);
            let letters = key_codes(keys).contains(KEY_A) && key_codes(keys).contains(KEY_ENTER);
            &&& device.rel_axes is Some ==> kind(device) is Mouse
            &&& mouse ==> kind(device) is Mouse
            &&& device.rel_axes is None && !mouse && letters ==> kind(device) is Keyboard
            &&& device.rel_axes is None && !mouse && !letters ==> kind(device) is Other
        },
{
}

/// A device that tells of no keys is a mouse where it has relative axes, and of no known kind
/// else.
pub proof fn law_kind_without_keys(device: InputDevice)
    requires
        device.keys is None,
    ensures
        device.rel_axes is Some ==> kind(device) is Mouse,
        device.rel_axes is None ==> kind(device) is Other,
{
}

/// More keys never make a gamepad anything else, nor a joystick anything but a joystick or a
/// gamepad; the axes of a controller are of no account.
pub proof fn law_more_keys_keep_a_controller(less: InputDevice, more: InputDevice)
    requires
        less.keys matches Some(few) && (more.keys matches Some(many) && key_codes(few).subset_of(
            key_codes(many),
        )),
    ensures
        kind(less) is Gamepad ==> kind(more) is Gamepad,
        kind(less) is Joystick ==> kind(more) is Joystick || kind(more) is Gamepad,
{
    let few = key_codes(less.keys->0);
    let many = key_codes(more.keys->0);
    assert forall|c: u16| #[trigger] few.contains(c) implies many.contains(c) by {}
}

/// Each of the words alone makes a name noise, and nothing else does.
pub proof fn law_every_noise_word_counts(lower: Seq<char>)
    ensures
        has_part(lower, "motion sensors"@) ==> is_noise(lower),
        has_part(lower, "system control"@) ==> is_noise(lower),
        has_part(lower, "consumer control"@) ==> is_noise(lower),
        has_part(lower, "hdmi"@) ==> is_noise(lower),
        has_part(lower, "pcm="@) ==> is_noise(lower),
        has_part(lower, "headphone"@) ==> is_noise(lower),
        has_part(lower, "video bus"@) ==> is_noise(lower),
        has_part(lower, "lid switch"@) ==> is_noise(lower),
        has_part(lower, "power button"@) ==> is_noise(lower),
        has_part(lower, "sleep button"@) ==> is_noise(lower),
        has_part(lower, "pc speaker"@) ==> is_noise(lower),
        has_part(lower, "hotkeys"@) ==> is_noise(lower),
        has_part(lower, "button array"@) ==> is_noise(lower),
        has_part(lower, "privacy driver"@) ==> is_noise(lower),
        has_part(lower, "wireless controller touchpad"@) ==> is_noise(lower),
{
}

/// A name with none of the words is no noise.
pub proof fn law_other_names_are_no_noise(lower: Seq<char>)
    requires
        !has_part(lower, "motion sensors"@),
        !has_part(lower, "system control"@),
        !has_part(lower, "consumer control"@),
        !has_part(lower, "hdmi"@),
        !has_part(lower, "pcm="@),
        !has_part(lower, "headphone"@),
        !has_part(lower, "video bus"@),
        !has_part(lower, "lid switch"@),
        !has_part(lower, "power button"@),
        !has_part(lower, "sleep button"@),
        !has_part(lower, "pc speaker"@),
        !has_part(lower, "hotkeys"@),
        !has_part(lower, "button array"@),
        !has_part(lower, "privacy driver"@),
        !has_part(lower, "wireless controller touchpad"@),
    ensures
        !is_noise(lower),
{
}

/// Everything is offered where all devices are asked for. Else nothing that is noise or of no
/// known kind is offered; gamepads and joysticks are, and keyboards and mice each where they are
/// asked for.
pub proof fn law_what_is_offered(kind: DeviceType, noise: bool, keyboard: bool, mouse: bool)
    ensures
        is_offered(kind, noise, keyboard, mouse, true),
        !is_offered(kind, true, keyboard, mouse, false),
        !is_offered(DeviceType::Other, noise, keyboard, mouse, false),
        is_offered(DeviceType::Gamepad, false, keyboard, mouse, false),
        is_offered(DeviceType::Joystick, false, keyboard, mouse, false),
        is_offered(DeviceType::Keyboard, false, keyboard, mouse, false) == keyboard,
        is_offered(DeviceType::Mouse, false, keyboard, mouse, false) == mouse,
{
}

proof fn lemma_offered_counts(
    devices: Seq<InputDevice>,
    keyboard: bool,
    mouse: bool,
    all: bool,
    d: InputDevice,
)
    ensures
        offered(devices, keyboard, mouse, all).to_multiset().count(d) == if offers(
            d,
            keyboard,
            mouse,
            all,
        ) {
            devices.to_multiset().count(d)
        } else {
            0
        },
    decreases devices.len(),
{
    broadcast use vstd::seq_lib::group_to_multiset_ensures;

    if devices.len() > 0 {
        let front = devices.drop_last();
        lemma_offered_counts(front, keyboard, mouse, all, d);
        assert(devices =~= front.push(devices.last()));
    }
}

proof fn lemma_offered_in_order(devices: Seq<InputDevice>, keyboard: bool, mouse: bool, all: bool)
    requires
        in_order(devices),
    ensures
        in_order(offered(devices, keyboard, mouse, all)),
        forall|i: int|
            0 <= i < offered(devices, keyboard, mouse, all).len() ==> devices.contains(
                #[trigger] offered(devices, keyboard, mouse, all)[i],
            ),
    decreases devices.len(),
{
    if devices.len() > 0 {
        let front = devices.drop_last();
        assert forall|i: int, j: int| 0 <= i <= j < front.len() implies text_le(
            #[trigger] front[i].sort_key(),
            #[trigger] front[j].sort_key(),
        ) by {
            assert(text_le(devices[i].sort_key(), devices[j].sort_key()));
        }
        lemma_offered_in_order(front, keyboard, mouse, all);
        let rest = offered(front, keyboard, mouse, all);
        let list = offered(devices, keyboard, mouse, all);
        assert forall|i: int| 0 <= i < list.len() implies devices.contains(#[trigger] list[i]) by {
            if i < rest.len() {
                assert(front.contains(rest[i]));
                let k = choose|k: int| 0 <= k < front.len() && front[k] == rest[i];
                assert(devices[k] == list[i]);
            } else {
                assert(devices[devices.len() - 1] == list[i]);
            }
        }
        assert forall|i: int, j: int| 0 <= i <= j < list.len() implies text_le(
            #[trigger] list[i].sort_key(),
            #[trigger] list[j].sort_key(),
        ) by {
            assert(devices.contains(list[i]));
            let k = choose|k: int| 0 <= k < devices.len() && devices[k] == list[i];
            if j < rest.len() {
                assert(text_le(rest[i].sort_key(), rest[j].sort_key()));
            } else {
                assert(list[j] == devices[devices.len() - 1]);
                assert(text_le(devices[k].sort_key(), devices[devices.len() - 1].sort_key()));
            }
        }
    }
}

/// A list holds each device that was found as often as it was found, where the device is to be
/// offered, and holds no other; it tells of each its own path, name, kind and IDs, and is in the
/// order of the paths.
pub proof fn law_list_is_what_was_found(
    found: Seq<InputDevice>,
    keyboard: bool,
    mouse: bool,
    all: bool,
    infos: Seq<DeviceInfo>,
) -> (devices: Seq<InputDevice>)
    requires
        informs_all(infos, offered(stable_sorted(found), keyboard, mouse, all)),
    ensures
        infos.len() == devices.len(),
        forall|d: InputDevice| #[trigger]
            devices.to_multiset().count(d) == if is_offered(
                kind(d),
                is_noise(
                    lowercase_of(
                        match d.name {
                            Some(name) => name@,
                            None => "Unknown Device"@,
                        },
                    ),
                ),
                keyboard,
                mouse,
                all,
            ) {
                found.to_multiset().count(d)
            } else {
                0
            },
        forall|i: int|
            0 <= i < infos.len() ==> {
                &&& (#[trigger] infos[i]).path == devices[i].path
                &&& infos[i].name@ == match devices[i].name {
                    Some(name) => name@,
                    None => "Unknown Device"@,
                }
                &&& infos[i].device_type == kind(devices[i])
                &&& infos[i].vendor == devices[i].vendor
                &&& infos[i].product == devices[i].product
            },
        forall|i: int, j: int|
            0 <= i <= j < infos.len() ==> text_le(
                #[trigger] infos[i].path@,
                #[trigger] infos[j].path@,
            ),
{
    let sorted = stable_sorted(found);
    let devices = offered(sorted, keyboard, mouse, all);
    lemma_stable_sorted(found);
    assert forall|d: InputDevice| #[trigger]
        devices.to_multiset().count(d) == if offers(d, keyboard, mouse, all) {
            found.to_multiset().count(d)
        } else {
            0
        } by {
        lemma_offered_counts(sorted, keyboard, mouse, all, d);
    }
    lemma_offered_in_order(sorted, keyboard, mouse, all);
    assert forall|i: int, j: int| 0 <= i <= j < infos.len() implies text_le(
        #[trigger] infos[i].path@,
        #[trigger] infos[j].path@,
    ) by {
        assert(informs(infos[i], devices[i]));
        assert(informs(infos[j], devices[j]));
        assert(text_le(devices[i].sort_key(), devices[j].sort_key()));
    }
    devices
}

/// The first gamepad is a gamepad or joystick that was found, and no other that is no noise comes
/// before it; where none is found there is none.
pub proof fn law_first_gamepad_comes_first(
    found: Seq<InputDevice>,
    path: Option<String>,
    other: int,
)
    requires
        is_first_gamepad(found, path),
        0 <= other < found.len(),
        kind(found[other]) is Gamepad || kind(found[other]) is Joystick,
        !is_noise(lowercase_of(found[other].name_or("Unknown Device"@))),
    ensures
        path is Some,
        text_le(path->0@, found[other].path@),
        exists|i: int|
            0 <= i < found.len() && (#[trigger] found[i]).path == path->0 && (kind(
                found[i],
            ) is Gamepad || kind(found[i]) is Joystick),
{
    broadcast use vstd::seq_lib::group_to_multiset_ensures;

    let sorted = stable_sorted(found);
    let list = offered(sorted, false, false, false);
    let d = found[other];
    lemma_stable_sorted(found);
    lemma_offered_counts(sorted, false, false, false, d);
    assert(found.contains(d));
    assert(list.to_multiset().count(d) > 0);
    assert(list.contains(d));
    lemma_offered_in_order(sorted, false, false, false);
    law_default_list_holds_controllers(sorted);
    let at = choose|at: int| 0 <= at < list.len() && list[at] == d;
    assert(text_le(list[0].sort_key(), list[at].sort_key()));
    assert(is_controller(list[0]));
    assert(sorted.contains(list[0]));
    assert(sorted.to_multiset().count(list[0]) > 0);
    assert(found.to_multiset().count(list[0]) > 0);
    assert(found.contains(list[0]));
    let i = choose|i: int| 0 <= i < found.len() && found[i] == list[0];
    assert(found[i].path == path->0);
}

/// An axis is in the metadata exactly where the device supports it and its state is known, once,
/// from the lowest code up, and with that state.
pub proof fn law_axes_by_code(
    device: InputDevice,
    meta: MetadataView,
    supported: AbsoluteSet,
    state: Vec<AxisState>,
)
    requires
        describes(meta, device),
        device.abs_axes == Some(supported),
        device.abs_state == Some(state),
        state@.len() <= 0x1_0000,
    ensures
        forall|c: u16|
            (exists|k: int| 0 <= k < meta.abs_axes.len() && (#[trigger] meta.abs_axes[k]).code == c)
                <==> #[trigger] absolute_codes(supported).contains(c) && c < state@.len(),
        forall|j: int, k: int|
            0 <= j < k < meta.abs_axes.len() ==> (#[trigger] meta.abs_axes[j]).code < (
            #[trigger] meta.abs_axes[k]).code,
        forall|k: int|
            0 <= k < meta.abs_axes.len() ==> {
                let a = #[trigger] meta.abs_axes[k];
                let of = state@[a.code as int];
                &&& a.value == of.value
                &&& a.minimum == of.minimum
                &&& a.maximum == of.maximum
                &&& a.fuzz == of.fuzz
                &&& a.flat == of.flat
                &&& a.resolution == of.resolution
            },
{
    lemma_axes_in(absolute_codes(supported), state@);
}

proof fn lemma_axes_in(supported: Set<u16>, state: Seq<AxisState>)
    requires
        state.len() <= 0x1_0000,
    ensures
        ({
            let list = axes_in(supported, state);
            &&& forall|c: u16|
                (exists|k: int| 0 <= k < list.len() && (#[trigger] list[k]).code == c)
                    <==> #[trigger] supported.contains(c) && c < state.len()
            &&& forall|j: int, k: int|
                0 <= j < k < list.len() ==> (#[trigger] list[j]).code < (#[trigger] list[k]).code
            &&& forall|k: int|
                0 <= k < list.len() ==> (#[trigger] list[k]).code < state.len() && list[k] == axis(
                    list[k].code,
                    state[list[k].code as int],
                )
        }),
    decreases state.len(),
{
    if state.len() > 0 {
        let front = state.drop_last();
        let rest = axes_in(supported, front);
        let list = axes_in(supported, state);
        let last = (state.len() - 1) as u16;
        lemma_axes_in(supported, front);
        assert forall|k: int| 0 <= k < list.len() implies (#[trigger] list[k]).code < state.len()
            && list[k] == axis(list[k].code, state[list[k].code as int]) by {
            if k < rest.len() {
                assert(list[k] == rest[k]);
                assert(front[rest[k].code as int] == state[rest[k].code as int]);
            }
        }
        assert forall|c: u16|
            (exists|k: int| 0 <= k < list.len() && (#[trigger] list[k]).code == c)
                <==> #[trigger] supported.contains(c) && c < state.len() by {
            if supported.contains(c) && c < state.len() {
                if c < front.len() {
                    let k = choose|k: int| 0 <= k < rest.len() && (#[trigger] rest[k]).code == c;
                    assert(list[k].code == c);
                } else {
                    assert(list[rest.len() as int].code == c);
                }
            }
            if exists|k: int| 0 <= k < list.len() && (#[trigger] list[k]).code == c {
                let k = choose|k: int| 0 <= k < list.len() && (#[trigger] list[k]).code == c;
                if k < rest.len() {
                    assert(rest[k].code == c);
                }
            }
        }
        assert forall|j: int, k: int| 0 <= j < k < list.len() implies (#[trigger] list[j]).code < (
        #[trigger] list[k]).code by {
            assert(list[j] == rest[j]);
            if k < rest.len() {
                assert(list[k] == rest[k]);
            } else {
                assert(rest[j].code < front.len());
            }
        }
    }
}

/// The metadata of a device has its name and IDs, each key and each relative axis that it supports
/// once, and no axis where their state is not known.
pub proof fn law_metadata_is_of_the_device(device: InputDevice, meta: MetadataView)
    requires
        describes(meta, device),
    ensures
        meta.name == match device.name {
            Some(name) => name@,
            None => "Joycast Virtual Device"@,
        },
        meta.bustype == device.bustype,
        meta.vendor == device.vendor,
        meta.product == device.product,
        meta.version == device.version,
        device.keys is None ==> meta.keys.len() == 0,
        device.keys matches Some(keys) ==> forall|c: u16|
            meta.keys.contains(c) <==> #[trigger] key_codes(keys).contains(c),
        meta.keys.no_duplicates(),
        device.rel_axes is None ==> meta.rel_axes.len() == 0,
        device.rel_axes matches Some(axes) ==> forall|c: u16|
            meta.rel_axes.contains(c) <==> #[trigger] relative_codes(axes).contains(c),
        meta.rel_axes.no_duplicates(),
        device.abs_axes is None || device.abs_state is None ==> meta.abs_axes.len() == 0,
{
    if device.keys is None && meta.keys.len() > 0 {
        assert(meta.keys.contains(meta.keys[0]));
    }
    if device.rel_axes is None && meta.rel_axes.len() > 0 {
        assert(meta.rel_axes.contains(meta.rel_axes[0]));
    }
}

/// The virtual device has the keys and axes that the metadata lists, its IDs, and its name behind a
/// mark; what is not listed is not set up.
pub proof fn law_virtual_device_is_of_the_metadata(output: VirtualOutput, meta: MetadataView)
    requires
        mirrors(output, meta),
    ensures
        output.name@ == "Joycast: "@ + meta.name,
        output.bustype == meta.bustype,
        output.vendor == meta.vendor,
        output.product == meta.product,
        output.version == meta.version,
        output.keys is None <==> meta.keys.len() == 0,
        output.keys matches Some(keys) ==> forall|c: u16| #[trigger]
            key_codes(keys).contains(c) <==> meta.keys.contains(c),
        output.rel_axes is None <==> meta.rel_axes.len() == 0,
        output.rel_axes matches Some(axes) ==> forall|c: u16| #[trigger]
            relative_codes(axes).contains(c) <==> meta.rel_axes.contains(c),
        output.abs_axes@ == meta.abs_axes,
{
}

/// Metadata can be mirrored exactly where every key is one of 768 codes and every relative axis
/// one of 16.
pub proof fn law_what_can_be_mirrored(meta: MetadataView)
    ensures
        fits(meta) <==> (forall|c: u16| #[trigger] meta.keys.contains(c) ==> c < 768) && (forall|
            c: u16,
        | #[trigger]
            meta.rel_axes.contains(c) ==> c < 16),
{
    if fits(meta) {
        assert forall|c: u16| #[trigger] meta.keys.contains(c) implies c < 768 by {
            let i = choose|i: int| 0 <= i < meta.keys.len() && meta.keys[i] == c;
            assert(meta.keys[i] < KEY_CODES);
        }
        assert forall|c: u16| #[trigger] meta.rel_axes.contains(c) implies c < 16 by {
            let i = choose|i: int| 0 <= i < meta.rel_axes.len() && meta.rel_axes[i] == c;
            assert(meta.rel_axes[i] < RELATIVE_CODES);
        }
    }
    if (forall|c: u16| #[trigger] meta.keys.contains(c) ==> c < 768) && (forall|c: u16| #[trigger]
        meta.rel_axes.contains(c) ==> c < 16) {
        assert forall|i: int| 0 <= i < meta.keys.len() implies #[trigger] meta.keys[i]
            < KEY_CODES by {
            assert(meta.keys.contains(meta.keys[i]));
        }
        assert forall|i: int| 0 <= i < meta.rel_axes.len() implies #[trigger] meta.rel_axes[i]
            < RELATIVE_CODES by {
            assert(meta.rel_axes.contains(meta.rel_axes[i]));
        }
    }
}

} // verus!

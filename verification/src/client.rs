//! The client: its configuration, and the choice of a server and of a device.

use vstd::prelude::*;

use crate::device::{
    informs, informs_all, is_first_gamepad, offered, DeviceInfo, DeviceScanner, InputDevice,
};
use crate::history::{
    entry, first_named, law_host_name_is_found, law_latest_comes_first, recorded, HistoryStore,
    KnownServerInfo,
};
use crate::protocol::{EventWire, Message, MessageView};
use crate::text::{
    decimal, is_blank, is_digit, joined3, law_number_text, lemma_trimmed_between,
    lemma_trimmed_plain, number_text, parse_usize, stable_sorted, trim, trimmed,
};
use crate::transport::{reads_plainly, target_of, InvalidTarget, TargetAddress};

verus! {

/// How a client is to be run.
#[derive(Debug)]
pub struct ClientConfig {
    pub target: Option<String>,
    pub device_path: Option<String>,
    pub keyboard: bool,
    pub mouse: bool,
    pub all: bool,
    pub history_file: Option<String>,
    pub client_id_file: Option<String>,
}

impl Default for ClientConfig {
    fn default() -> (r: Self)
        ensures
            r.target is None,
            r.device_path is None,
            !r.keyboard,
            !r.mouse,
            !r.all,
            r.history_file is None,
            r.client_id_file is None,
    {
        ClientConfig {
            target: None,
            device_path: None,
            keyboard: false,
            mouse: false,
            all: false,
            history_file: None,
            client_id_file: None,
        }
    }
}

/// Copies a text that may be missing.
fn copied(s: &Option<String>) -> (r: Option<String>)
    ensures
        r == *s,
{
    match s {
        Some(s) => Some(s.clone()),
        None => None,
    }
}

impl Clone for ClientConfig {
    fn clone(&self) -> (r: Self)
        ensures
            r == *self,
    {
        ClientConfig {
            target: copied(&self.target),
            device_path: copied(&self.device_path),
            keyboard: self.keyboard,
            mouse: self.mouse,
            all: self.all,
            history_file: copied(&self.history_file),
            client_id_file: copied(&self.client_id_file),
        }
    }
}

/// Why no server or device was chosen.
#[derive(Debug, PartialEq, Eq)]
pub enum ChoiceError {
    /// The target is no address, no Node ID and no host name in the history.
    Unresolved(String),
    /// The history holds a target that is no address and no Node ID.
    InvalidTarget(InvalidTarget),
    /// No target is given and the history is empty.
    NoServers,
    /// What the user entered is no number.
    NotANumber,
    /// What the user entered is not the number of a server.
    NoSuchServer,
    /// What the user entered is not the number of a device.
    NoSuchDevice,
}

impl ChoiceError {
    /// The text for the user.
    pub open spec fn text(&self) -> Seq<char> {
        match *self {
            ChoiceError::Unresolved(target) => "Could not resolve target '"@ + target@
                + "'. Must be an IP address (e.g. 192.168.1.50:12398), a 64-character Iroh Node ID, or a known server hostname in history."@,
            ChoiceError::InvalidTarget(target) => target.text(),
            ChoiceError::NoServers =>
                "No target specified and no previously connected servers found. Specify a target with 'joycast client <TARGET>'"@,
            ChoiceError::NotANumber => "Invalid selection index"@,
            ChoiceError::NoSuchServer => "Selection out of bounds"@,
            ChoiceError::NoSuchDevice => "Selection index out of bounds"@,
        }
    }

    /// The text for the user.
    pub fn message(&self) -> (r: String)
        ensures
            r@ == self.text(),
    {
        match self {
            ChoiceError::Unresolved(target) => joined3(
                "Could not resolve target '",
                target,
                "'. Must be an IP address (e.g. 192.168.1.50:12398), a 64-character Iroh Node ID, or a known server hostname in history.",
            ),
            ChoiceError::InvalidTarget(target) => target.message(),
            ChoiceError::NoServers =>
                "No target specified and no previously connected servers found. Specify a target with 'joycast client <TARGET>'".to_owned(),
            ChoiceError::NotANumber => "Invalid selection index".to_owned(),
            ChoiceError::NoSuchServer => "Selection out of bounds".to_owned(),
            ChoiceError::NoSuchDevice => "Selection index out of bounds".to_owned(),
        }
    }
}

/// Where the target that a user named was found.
#[derive(Debug, PartialEq, Eq)]
pub enum Lookup {
    /// The text is a target.
    Direct(TargetAddress, String),
    /// The text is a host name in the history; this is the target text kept there.
    Known(String),
    /// Neither.
    Unknown(String),
}

/// `found` is where `text`, which reads as the target `reading`, is found.
pub open spec fn finds(
    reading: Option<TargetAddress>,
    text: String,
    servers: Seq<KnownServerInfo>,
    found: Lookup,
) -> bool {
    match reading {
        Some(target) => found == Lookup::Direct(target, text),
        None => match first_named(servers, text@) {
            Some(server) => found == Lookup::Known(server.target),
            None => found == Lookup::Unknown(text),
        },
    }
}

/// The result of reading a target text that came from the history.
pub open spec fn reads_known(
    r: Result<(TargetAddress, String), ChoiceError>,
    text: String,
) -> bool {
    match r {
        Ok((target, raw)) => target_of(text@) == Some(target@) && raw == text,
        Err(e) => {
            &&& target_of(text@) is None
            &&& e matches ChoiceError::InvalidTarget(invalid) && invalid.0@ == trimmed(text@)
        },
    }
}

/// The number that a user enters, without regard to surrounding white space.
pub open spec fn entered(input: Seq<char>) -> Option<nat> {
    match decimal(trimmed(input)) {
        Some(n) => if n <= usize::MAX {
            Some(n)
        } else {
            None
        },
        None => None,
    }
}

/// Reads the number that a user enters.
pub fn entered_number(input: &str) -> (r: Result<usize, ChoiceError>)
    ensures
        match entered(input@) {
            Some(n) => r matches Ok(m) && m == n,
            None => r == Err::<usize, ChoiceError>(ChoiceError::NotANumber),
        },
{
    match parse_usize(trim(input)) {
        Some(n) => Ok(n),
        None => Err(ChoiceError::NotANumber),
    }
}

/// Which device to look for.
#[derive(Debug)]
pub struct DeviceSelection {
    pub requested_path: Option<String>,
    pub keyboard: bool,
    pub mouse: bool,
    pub all: bool,
}

impl Clone for DeviceSelection {
    fn clone(&self) -> (r: Self)
        ensures
            r == *self,
    {
        DeviceSelection {
            requested_path: copied(&self.requested_path),
            keyboard: self.keyboard,
            mouse: self.mouse,
            all: self.all,
        }
    }
}

impl DeviceSelection {
    /// The path of the device to try: the requested one, or that of the first device that is
    /// offered among those found.
    pub fn candidate(&self, found: Vec<InputDevice>) -> (r: Option<String>)
        ensures
            match self.requested_path {
                Some(path) => r == Some(path),
                None => {
                    let list = offered(stable_sorted(found@), self.keyboard, self.mouse, self.all);
                    if list.len() > 0 {
                        r == Some(list[0].path)
                    } else {
                        r is None
                    }
                },
            },
    {
        if let Some(path) = &self.requested_path {
            return Some(path.clone());
        }
        let devices = DeviceScanner::list_devices_filtered(
            found,
            self.keyboard,
            self.mouse,
            self.all,
        );
        if devices.len() > 0 {
            Some(devices[0].path.clone())
        } else {
            None
        }
    }

    /// Keeps to a device that was opened.
    pub fn opened(&mut self, path: String)
        ensures
            *final(self) == (DeviceSelection { requested_path: Some(path), ..*old(self) }),
    {
        self.requested_path = Some(path);
    }
}

/// The device that is taken where the user names none.
#[derive(Debug, PartialEq, Eq)]
pub enum DeviceChoice {
    /// None is connected yet: wait for one.
    Wait,
    /// The first that is offered, at this path.
    Only(String),
    /// The user chooses.
    Ask,
}

/// The device that is taken where the user names none. Where other kinds than gamepads and
/// joysticks are asked for and more than one device is offered, the user chooses; else it is the
/// first that is offered.
pub open spec fn chosen(
    devices: Seq<DeviceInfo>,
    keyboard: bool,
    mouse: bool,
    all: bool,
) -> DeviceChoice {
    if devices.len() == 0 {
        DeviceChoice::Wait
    } else if devices.len() >= 2 && (keyboard || mouse || all) {
        DeviceChoice::Ask
    } else {
        DeviceChoice::Only(devices[0].path)
    }
}

/// A Joycast client: the server, the device, and its own identity.
pub struct JoycastClient {
    pub target: TargetAddress,
    pub target_raw: String,
    pub device_selection: DeviceSelection,
    pub client_id: String,
    pub history_file: Option<String>,
}

impl JoycastClient {
    /// Where the target that a user named is found, given how the text reads as a target.
    pub fn lookup_target(
        reading: Option<TargetAddress>,
        text: String,
        history: &HistoryStore,
    ) -> (r: Lookup)
        ensures
            finds(reading, text, history@, r),
    {
        match reading {
            Some(target) => Lookup::Direct(target, text),
            None => match history.find_by_hostname(&text) {
                Some(server) => Lookup::Known(server.target),
                None => Lookup::Unknown(text),
            },
        }
    }

    /// Reads a target text that came from the history.
    fn read_known(text: String) -> (r: Result<(TargetAddress, String), ChoiceError>)
        ensures
            reads_known(r, text),
    {
        match TargetAddress::from_str(&text) {
            Ok(target) => Ok((target, text)),
            Err(e) => Err(ChoiceError::InvalidTarget(e)),
        }
    }

    /// The server that a user named: a target, or a host name in the history. `None` where the
    /// user named none and chooses from the history.
    pub fn resolve_target(specified: Option<String>, history: &HistoryStore) -> (r: Result<
        Option<(TargetAddress, String)>,
        ChoiceError,
    >)
        ensures
            match specified {
                Some(text) => match target_of(text@) {
                    Some(view) => r matches Ok(Some((target, raw))) && target@ == view && raw == text,
                    None => match first_named(history@, text@) {
                        Some(server) => match r {
                            Ok(Some(found)) => reads_known(Ok(found), server.target),
                            Ok(None) => false,
                            Err(e) => reads_known(Err(e), server.target),
                        },
                        None => r == Err::<Option<(TargetAddress, String)>, ChoiceError>(
                            ChoiceError::Unresolved(text),
                        ),
                    },
                },
                None => if history@.len() == 0 {
                    r == Err::<Option<(TargetAddress, String)>, ChoiceError>(ChoiceError::NoServers)
                } else {
                    r == Ok::<Option<(TargetAddress, String)>, ChoiceError>(None)
                },
            },
            specified matches Some(text) ==> reads_plainly(text@),
    {
        match specified {
            Some(text) => {
                let reading = match TargetAddress::from_str(&text) {
                    Ok(target) => Some(target),
                    Err(_) => None,
                };
                match JoycastClient::lookup_target(reading, text, history) {
                    Lookup::Direct(target, raw) => Ok(Some((target, raw))),
                    Lookup::Known(raw) => match JoycastClient::read_known(raw) {
                        Ok(found) => Ok(Some(found)),
                        Err(e) => Err(e),
                    },
                    Lookup::Unknown(raw) => Err(ChoiceError::Unresolved(raw)),
                }
            },
            None => if history.list_servers().len() == 0 {
                Err(ChoiceError::NoServers)
            } else {
                Ok(None)
            },
        }
    }

    /// The server that a user chose from the history by its number, from 1.
    pub fn select_server(history: &HistoryStore, input: &str) -> (r: Result<
        (TargetAddress, String),
        ChoiceError,
    >)
        ensures
            match entered(input@) {
                Some(n) => match entry(history@, n as int) {
                    Some(server) => reads_known(r, server.target),
                    None => r == Err::<(TargetAddress, String), ChoiceError>(
                        ChoiceError::NoSuchServer,
                    ),
                },
                None => r == Err::<(TargetAddress, String), ChoiceError>(ChoiceError::NotANumber),
            },
    {
        match entered_number(input) {
            Ok(n) => match history.get_by_index(n) {
                Some(server) => JoycastClient::read_known(server.target),
                None => Err(ChoiceError::NoSuchServer),
            },
            Err(e) => Err(e),
        }
    }

    /// The device that is taken where the user names none. Where other kinds than gamepads and
    /// joysticks are asked for and more than one device is offered, the user chooses.
    pub fn choose_device(devices: &Vec<DeviceInfo>, keyboard: bool, mouse: bool, all: bool) -> (r:
        DeviceChoice)
        ensures
            r == chosen(devices@, keyboard, mouse, all),
    {
        if devices.len() == 0 {
            DeviceChoice::Wait
        } else if devices.len() >= 2 && (keyboard || mouse || all) {
            DeviceChoice::Ask
        } else {
            DeviceChoice::Only(devices[0].path.clone())
        }
    }

    /// The path of the device that a user chose by its number, from 1.
    pub fn select_device(devices: &Vec<DeviceInfo>, input: &str) -> (r: Result<String, ChoiceError>)
        ensures
            match entered(input@) {
                Some(n) => if 1 <= n <= devices@.len() {
                    r == Ok::<String, ChoiceError>(devices@[n - 1].path)
                } else {
                    r == Err::<String, ChoiceError>(ChoiceError::NoSuchDevice)
                },
                None => r == Err::<String, ChoiceError>(ChoiceError::NotANumber),
            },
    {
        match entered_number(input) {
            Ok(n) => if n == 0 || n > devices.len() {
                Err(ChoiceError::NoSuchDevice)
            } else {
                Ok(devices[n - 1].path.clone())
            },
            Err(e) => Err(e),
        }
    }

    /// Initialize a Joycast client for a server and a device. `chosen` is the device that is used
    /// where the configuration names none.
    pub fn new(
        config: ClientConfig,
        target: TargetAddress,
        target_raw: String,
        client_id: String,
        chosen: Option<String>,
    ) -> (r: Self)
        ensures
            r.target == target,
            r.target_raw == target_raw,
            r.client_id == client_id,
            r.history_file == config.history_file,
            r.device_selection.keyboard == config.keyboard,
            r.device_selection.mouse == config.mouse,
            r.device_selection.all == config.all,
            r.device_selection.requested_path == match config.device_path {
                Some(path) => Some(path),
                None => chosen,
            },
    {
        JoycastClient {
            target,
            target_raw,
            device_selection: DeviceSelection {
                requested_path: match config.device_path {
                    Some(path) => Some(path),
                    None => chosen,
                },
                keyboard: config.keyboard,
                mouse: config.mouse,
                all: config.all,
            },
            client_id,
            history_file: config.history_file,
        }
    }

    /// The message that carries an input event.
    pub fn event_message(type_: u16, code: u16, value: i32) -> (r: Message)
        ensures
            r@ == MessageView::Events(seq![EventWire { type_, code, value }]),
    {
        let events = vec![EventWire { type_, code, value }];
        assert(events@ =~= seq![EventWire { type_, code, value }]);
        Message::Events(events)
    }
}

/// A server that was recorded is found again by its number, and by its host name as long as
/// that is no target itself.
pub proof fn law_recorded_server_is_found(
    servers: Seq<KnownServerInfo>,
    info: KnownServerInfo,
    found: Lookup,
)
    requires
        finds(None, info.server_hostname, recorded(servers, info), found),
    ensures
        found == Lookup::Known(info.target),
        entry(recorded(servers, info), 1) == Some(info),
{
    law_latest_comes_first(servers, info);
}

/// Unless the user names a device or asks for other kinds, the first gamepad is taken: the one
/// that a search for it gives.
pub proof fn law_first_gamepad_is_taken(found: Seq<InputDevice>, devices: Seq<DeviceInfo>)
    requires
        informs_all(devices, offered(stable_sorted(found), false, false, false)),
    ensures
        match chosen(devices, false, false, false) {
            DeviceChoice::Only(path) => is_first_gamepad(found, Some(path)),
            DeviceChoice::Wait => is_first_gamepad(found, None),
            DeviceChoice::Ask => false,
        },
{
    if devices.len() > 0 {
        assert(informs(devices[0], offered(stable_sorted(found), false, false, false)[0]));
    }
}

/// A text that is a target is taken as it is. Else it is looked up as a host name: the first server
/// of the history with that name gives its target, and without one nothing is found.
pub proof fn law_where_a_target_is_found(
    reading: Option<TargetAddress>,
    text: String,
    servers: Seq<KnownServerInfo>,
    found: Lookup,
)
    requires
        finds(reading, text, servers, found),
    ensures
        reading matches Some(target) ==> found == Lookup::Direct(target, text),
        reading is None ==> {
            &&& !(found is Direct)
            &&& found is Unknown <==> forall|i: int|
                0 <= i < servers.len() ==> #[trigger] servers[i].server_hostname@ != text@
            &&& found matches Lookup::Known(target) ==> exists|i: int|
                0 <= i < servers.len() && (#[trigger] servers[i]).server_hostname@ == text@
                    && servers[i].target == target && forall|j: int|
                    0 <= j < i ==> #[trigger] servers[j].server_hostname@ != text@
            &&& found matches Lookup::Unknown(t) ==> t == text
        },
{
    law_host_name_is_found(servers, text@);
}

/// A number in decimal is read as that number, whatever white space stands around it.
pub proof fn law_what_can_be_entered(front: Seq<char>, n: nat, back: Seq<char>)
    requires
        is_blank(front),
        is_blank(back),
        n <= usize::MAX,
    ensures
        entered(front + number_text(n) + back) == Some(n),
{
    law_number_text(n);
    let s = number_text(n);
    assert(is_digit(s[0]));
    assert(is_digit(s[s.len() - 1]));
    lemma_trimmed_between(front, s, back);
    lemma_trimmed_plain(s);
}

/// Nothing but decimal digits, with a plus sign in front of them or none, is read as a number.
pub proof fn law_only_digits_can_be_entered(input: Seq<char>)
    requires
        entered(input) is Some,
    ensures
        entered(input)->0 <= usize::MAX,
        trimmed(input).len() > 0,
        is_digit(trimmed(input).last()),
        forall|i: int|
            0 < i < trimmed(input).len() ==> is_digit(#[trigger] trimmed(input)[i]),
        is_digit(trimmed(input)[0]) || trimmed(input)[0] == '+',
{
    let s = trimmed(input);
    if s.first() == '+' {
        let digits = s.drop_first();
        assert(is_digit(digits[digits.len() - 1]));
        assert forall|i: int| 0 < i < s.len() implies is_digit(#[trigger] s[i]) by {
            assert(is_digit(digits[i - 1]));
        }
    }
}

/// Where one device is offered, it is taken; where several are, the user chooses if other kinds than
/// gamepads and joysticks were asked for, and the first is taken else.
pub proof fn law_which_device_is_taken(
    devices: Seq<DeviceInfo>,
    keyboard: bool,
    mouse: bool,
    all: bool,
)
    ensures
        devices.len() == 0 <==> chosen(devices, keyboard, mouse, all) is Wait,
        devices.len() == 1 ==> chosen(devices, keyboard, mouse, all) == DeviceChoice::Only(
            devices[0].path,
        ),
        devices.len() > 1 && (keyboard || mouse || all) <==> chosen(
            devices,
            keyboard,
            mouse,
            all,
        ) is Ask,
        chosen(devices, keyboard, mouse, all) matches DeviceChoice::Only(path) ==> path
            == devices[0].path,
{
}

/// The user is told the name or the target that could not be used, word for word.
pub proof fn law_unusable_targets_are_told(target: String, invalid: InvalidTarget)
    ensures
        ChoiceError::Unresolved(target).text() == "Could not resolve target '"@ + target@
            + "'. Must be an IP address (e.g. 192.168.1.50:12398), a 64-character Iroh Node ID, or a known server hostname in history."@,
        ChoiceError::InvalidTarget(invalid).text() == "Invalid target address '"@ + invalid.0@
            + "'. Must be either a valid IP address (e.g., 192.168.1.50:12398) or a valid iroh Node ID."@,
{
}

/// A target from the history is read as any other text is: it is used as it stands there where it
/// is a target, and told as invalid else.
pub proof fn law_target_from_the_history(
    text: String,
    r: Result<(TargetAddress, String), ChoiceError>,
)
    requires
        reads_known(r, text),
    ensures
        r is Ok <==> target_of(text@) is Some,
        r matches Ok((target, raw)) ==> target_of(text@) == Some(target@) && raw == text,
        r matches Err(e) ==> (e matches ChoiceError::InvalidTarget(t) && t.0@ == trimmed(text@)),
{
}

} // verus!

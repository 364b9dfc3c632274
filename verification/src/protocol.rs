//! The messages that a client and a server exchange, and their form on the wire.

use vstd::prelude::*;

use crate::wire;
use crate::wire::{law_index_round_trip, AxisFields, DeviceParts, EventFields};

verus! {

/// ALPN protocol identifier for Joycast over Iroh.
pub const ALPN: &'static str = "joycast/v1";

/// Detailed information about an absolute axis (e.g. analog sticks, triggers).
#[derive(Debug, Clone, Copy, PartialEq, Eq, Structural)]
pub struct AbsAxisWire {
    pub code: u16,
    pub value: i32,
    pub minimum: i32,
    pub maximum: i32,
    pub fuzz: i32,
    pub flat: i32,
    pub resolution: i32,
}

/// Metadata describing a physical input device to be replicated as a uinput device.
#[derive(Debug, PartialEq, Eq)]
pub struct DeviceMetadata {
    pub name: String,
    pub bustype: u16,
    pub vendor: u16,
    pub product: u16,
    pub version: u16,
    pub keys: Vec<u16>,
    pub abs_axes: Vec<AbsAxisWire>,
    pub rel_axes: Vec<u16>,
}

/// Serialized input event (type, code, value).
#[derive(Debug, Clone, Copy, PartialEq, Eq, Structural)]
pub struct EventWire {
    pub type_: u16,
    pub code: u16,
    pub value: i32,
}

/// Status of the handshake acknowledgment from server.
#[derive(Debug, Clone, Copy, PartialEq, Eq, Structural)]
pub enum AckStatus {
    Approved,
    PendingApproval,
    Rejected,
}

/// Payload sent by client during handshake.
#[derive(Debug, PartialEq, Eq)]
pub struct HandshakePayload {
    pub client_id: String,
    pub client_hostname: String,
    pub metadata: DeviceMetadata,
}

/// Messages sent between Joycast client and server.
#[derive(Debug, PartialEq, Eq)]
pub enum Message {
    /// Sent by client upon connection to describe the client and input device.
    Handshake(HandshakePayload),
    /// Sent by server in response to handshake.
    HandshakeAck { status: AckStatus, server_hostname: String, message: String },
    /// Batch of input events forwarded from client to server.
    Events(Vec<EventWire>),
    /// Keep-alive ping.
    Ping,
    /// Keep-alive pong.
    Pong,
}

/// Why bytes are not a message.
#[derive(Debug)]
pub enum WireError {
    /// `postcard` could not read or write a part of the message.
    Postcard(postcard::Error),
    /// The bytes begin with the index of no known message.
    UnknownMessage(u32),
    /// An acknowledgment holds the index of no known status.
    UnknownStatus(u32),
}

impl WireError {
    /// The text for the user. Where `postcard` failed, the text is its own and not fixed here.
    pub open spec fn text(&self) -> Option<Seq<char>> {
        match *self {
            WireError::Postcard(_) => None,
            WireError::UnknownMessage(_) => Some("Serde Deserialization Error"@),
            WireError::UnknownStatus(_) => Some("Serde Deserialization Error"@),
        }
    }

    /// The text for the user.
    pub fn message(&self) -> (r: String)
        ensures
            self.text() matches Some(text) ==> r@ == text,
    {
        match self {
            WireError::Postcard(e) => wire::error_text(e),
            WireError::UnknownMessage(_) => "Serde Deserialization Error".to_owned(),
            WireError::UnknownStatus(_) => "Serde Deserialization Error".to_owned(),
        }
    }
}

/// What a [`DeviceMetadata`] holds.
pub struct MetadataView {
    pub name: Seq<char>,
    pub bustype: u16,
    pub vendor: u16,
    pub product: u16,
    pub version: u16,
    pub keys: Seq<u16>,
    pub abs_axes: Seq<AbsAxisWire>,
    pub rel_axes: Seq<u16>,
}

/// What a [`HandshakePayload`] holds.
pub struct HandshakeView {
    pub client_id: Seq<char>,
    pub client_hostname: Seq<char>,
    pub metadata: MetadataView,
}

/// What a [`Message`] holds.
pub enum MessageView {
    Handshake(HandshakeView),
    HandshakeAck { status: AckStatus, server_hostname: Seq<char>, message: Seq<char> },
    Events(Seq<EventWire>),
    Ping,
    Pong,
}

impl View for DeviceMetadata {
    type V = MetadataView;

    open spec fn view(&self) -> MetadataView {
        MetadataView {
            name: self.name@,
            bustype: self.bustype,
            vendor: self.vendor,
            product: self.product,
            version: self.version,
            keys: self.keys@,
            abs_axes: self.abs_axes@,
            rel_axes: self.rel_axes@,
        }
    }
}

impl View for HandshakePayload {
    type V = HandshakeView;

    open spec fn view(&self) -> HandshakeView {
        HandshakeView {
            client_id: self.client_id@,
            client_hostname: self.client_hostname@,
            metadata: self.metadata@,
        }
    }
}

impl View for Message {
    type V = MessageView;

    open spec fn view(&self) -> MessageView {
        match *self {
            Message::Handshake(payload) => MessageView::Handshake(payload@),
            Message::HandshakeAck { status, server_hostname, message } => MessageView::HandshakeAck {
                status,
                server_hostname: server_hostname@,
                message: message@,
            },
            Message::Events(events) => MessageView::Events(events@),
            Message::Ping => MessageView::Ping,
            Message::Pong => MessageView::Pong,
        }
    }
}

impl Clone for DeviceMetadata {
    fn clone(&self) -> (r: Self)
        ensures
            r@ == self@,
    {
        let r = DeviceMetadata {
            name: self.name.clone(),
            bustype: self.bustype,
            vendor: self.vendor,
            product: self.product,
            version: self.version,
            keys: self.keys.clone(),
            abs_axes: self.abs_axes.clone(),
            rel_axes: self.rel_axes.clone(),
        };
        assert(r.keys@ =~= self.keys@);
        assert(r.abs_axes@ =~= self.abs_axes@);
        assert(r.rel_axes@ =~= self.rel_axes@);
        r
    }
}

impl Clone for HandshakePayload {
    fn clone(&self) -> (r: Self)
        ensures
            r@ == self@,
    {
        HandshakePayload {
            client_id: self.client_id.clone(),
            client_hostname: self.client_hostname.clone(),
            metadata: self.metadata.clone(),
        }
    }
}

impl Clone for Message {
    fn clone(&self) -> (r: Self)
        ensures
            r@ == self@,
    {
        match self {
            Message::Handshake(payload) => Message::Handshake(payload.clone()),
            Message::HandshakeAck { status, server_hostname, message } => Message::HandshakeAck {
                status: *status,
                server_hostname: server_hostname.clone(),
                message: message.clone(),
            },
            Message::Events(events) => {
                let copy = events.clone();
                assert(copy@ =~= events@);
                Message::Events(copy)
            },
            Message::Ping => Message::Ping,
            Message::Pong => Message::Pong,
        }
    }
}

/// The fields of an axis in the order in which they are written.
pub open spec fn axis_fields(a: AbsAxisWire) -> AxisFields {
    (a.code, a.value, a.minimum, a.maximum, a.fuzz, a.flat, a.resolution)
}

/// The axis with the given fields.
pub open spec fn axis_with(f: AxisFields) -> AbsAxisWire {
    AbsAxisWire {
        code: f.0,
        value: f.1,
        minimum: f.2,
        maximum: f.3,
        fuzz: f.4,
        flat: f.5,
        resolution: f.6,
    }
}

/// The fields of an event in the order in which they are written.
pub open spec fn event_fields(e: EventWire) -> EventFields {
    (e.type_, e.code, e.value)
}

/// The event with the given fields.
pub open spec fn event_with(f: EventFields) -> EventWire {
    EventWire { type_: f.0, code: f.1, value: f.2 }
}

/// The parts of a device description in the order in which they are written.
pub open spec fn device_parts(m: MetadataView) -> DeviceParts {
    (
        m.name,
        m.bustype,
        m.vendor,
        m.product,
        m.version,
        m.keys,
        m.abs_axes.map_values(|a: AbsAxisWire| axis_fields(a)),
        m.rel_axes,
    )
}

/// The device description with the given parts.
pub open spec fn device_with(d: DeviceParts) -> MetadataView {
    MetadataView {
        name: d.0,
        bustype: d.1,
        vendor: d.2,
        product: d.3,
        version: d.4,
        keys: d.5,
        abs_axes: d.6.map_values(|f: AxisFields| axis_with(f)),
        rel_axes: d.7,
    }
}

/// The index under which a status is written.
pub open spec fn status_index(status: AckStatus) -> u32 {
    match status {
        AckStatus::Approved => 0,
        AckStatus::PendingApproval => 1,
        AckStatus::Rejected => 2,
    }
}

/// The status that is written under `index`.
pub open spec fn status_at(index: u32) -> Option<AckStatus> {
    if index == 0 {
        Some(AckStatus::Approved)
    } else if index == 1 {
        Some(AckStatus::PendingApproval)
    } else if index == 2 {
        Some(AckStatus::Rejected)
    } else {
        None
    }
}

/// The kinds of messages.
#[derive(Debug, Clone, Copy, PartialEq, Eq, Structural)]
pub enum MessageKind {
    Handshake,
    HandshakeAck,
    Events,
    Ping,
    Pong,
}

/// The kind of message whose bytes begin with `index`.
pub open spec fn kind_at(index: u32) -> Option<MessageKind> {
    if index == 0 {
        Some(MessageKind::Handshake)
    } else if index == 1 {
        Some(MessageKind::HandshakeAck)
    } else if index == 2 {
        Some(MessageKind::Events)
    } else if index == 3 {
        Some(MessageKind::Ping)
    } else if index == 4 {
        Some(MessageKind::Pong)
    } else {
        None
    }
}

/// The bytes of a message: the index of its kind, followed by its parts.
pub open spec fn message_bytes(m: MessageView) -> Seq<u8> {
    match m {
        MessageView::Handshake(p) => wire::index_bytes(0) + wire::texts_bytes(
            p.client_id,
            p.client_hostname,
        ) + wire::device_bytes(device_parts(p.metadata)),
        MessageView::HandshakeAck { status, server_hostname, message } => wire::index_bytes(1)
            + wire::index_bytes(status_index(status)) + wire::texts_bytes(server_hostname, message),
        MessageView::Events(events) => wire::index_bytes(2) + wire::events_bytes(
            events.map_values(|e: EventWire| event_fields(e)),
        ),
        MessageView::Ping => wire::index_bytes(3),
        MessageView::Pong => wire::index_bytes(4),
    }
}

/// What bytes mean as a message.
pub enum Reading {
    Message(MessageView),
    UnknownMessage(u32),
    UnknownStatus(u32),
    Malformed,
}

/// The handshake that `bytes` hold.
pub open spec fn handshake_in(bytes: Seq<u8>) -> Reading {
    match wire::texts_of(bytes) {
        None => Reading::Malformed,
        Some((texts, rest)) => match wire::device_of(rest) {
            None => Reading::Malformed,
            Some((parts, _)) => Reading::Message(
                MessageView::Handshake(
                    HandshakeView {
                        client_id: texts.0,
                        client_hostname: texts.1,
                        metadata: device_with(parts),
                    },
                ),
            ),
        },
    }
}

/// The acknowledgment that `bytes` hold.
pub open spec fn ack_in(bytes: Seq<u8>) -> Reading {
    match wire::index_of(bytes) {
        None => Reading::Malformed,
        Some((index, rest)) => match status_at(index) {
            None => Reading::UnknownStatus(index),
            Some(status) => match wire::texts_of(rest) {
                None => Reading::Malformed,
                Some((texts, _)) => Reading::Message(
                    MessageView::HandshakeAck {
                        status,
                        server_hostname: texts.0,
                        message: texts.1,
                    },
                ),
            },
        },
    }
}

/// The events that `bytes` hold.
pub open spec fn events_in(bytes: Seq<u8>) -> Reading {
    match wire::events_of(bytes) {
        None => Reading::Malformed,
        Some((events, _)) => Reading::Message(
            MessageView::Events(events.map_values(|f: EventFields| event_with(f))),
        ),
    }
}

/// What `bytes` mean: the index of a kind of message, then the parts of that kind. Bytes behind
/// the last part are of no account.
pub open spec fn reading(bytes: Seq<u8>) -> Reading {
    match wire::index_of(bytes) {
        None => Reading::Malformed,
        Some((index, rest)) => match kind_at(index) {
            None => Reading::UnknownMessage(index),
            Some(MessageKind::Handshake) => handshake_in(rest),
            Some(MessageKind::HandshakeAck) => ack_in(rest),
            Some(MessageKind::Events) => events_in(rest),
            Some(MessageKind::Ping) => Reading::Message(MessageView::Ping),
            Some(MessageKind::Pong) => Reading::Message(MessageView::Pong),
        },
    }
}

/// `r` is what decoding gives for bytes with the meaning `meaning`.
pub open spec fn reads_as(r: Result<Message, WireError>, meaning: Reading) -> bool {
    match meaning {
        Reading::Message(m) => r matches Ok(message) && message@ == m,
        Reading::UnknownMessage(kind) => r == Err::<Message, WireError>(
            WireError::UnknownMessage(kind),
        ),
        Reading::UnknownStatus(status) => r == Err::<Message, WireError>(
            WireError::UnknownStatus(status),
        ),
        Reading::Malformed => r matches Err(WireError::Postcard(_)),
    }
}

impl AckStatus {
    /// The index under which the status is written.
    pub fn index(self) -> (r: u32)
        ensures
            r == status_index(self),
            status_at(r) == Some(self),
    {
        match self {
            AckStatus::Approved => 0,
            AckStatus::PendingApproval => 1,
            AckStatus::Rejected => 2,
        }
    }

    /// The status that is written under `index`.
    pub fn from_index(index: u32) -> (r: Option<AckStatus>)
        ensures
            r == status_at(index),
    {
        if index == 0 {
            Some(AckStatus::Approved)
        } else if index == 1 {
            Some(AckStatus::PendingApproval)
        } else if index == 2 {
            Some(AckStatus::Rejected)
        } else {
            None
        }
    }
}

impl MessageKind {
    /// The kind of message whose bytes begin with `index`.
    pub fn from_index(index: u32) -> (r: Option<MessageKind>)
        ensures
            r == kind_at(index),
    {
        if index == 0 {
            Some(MessageKind::Handshake)
        } else if index == 1 {
            Some(MessageKind::HandshakeAck)
        } else if index == 2 {
            Some(MessageKind::Events)
        } else if index == 3 {
            Some(MessageKind::Ping)
        } else if index == 4 {
            Some(MessageKind::Pong)
        } else {
            None
        }
    }
}

/// The fields of axes, axis by axis.
pub fn axes_fields(axes: &Vec<AbsAxisWire>) -> (r: Vec<AxisFields>)
    ensures
        r@ == axes@.map_values(|a: AbsAxisWire| axis_fields(a)),
{
    let mut r: Vec<AxisFields> = Vec::new();
    for i in 0..axes.len()
        invariant
            r@ =~= axes@.take(i as int).map_values(|a: AbsAxisWire| axis_fields(a)),
    {
        let a = axes[i];
        r.push((a.code, a.value, a.minimum, a.maximum, a.fuzz, a.flat, a.resolution));
    }
    assert(axes@.take(axes@.len() as int) =~= axes@);
    r
}

/// The axes with the given fields.
pub fn axes_with(fields: &Vec<AxisFields>) -> (r: Vec<AbsAxisWire>)
    ensures
        r@ == fields@.map_values(|f: AxisFields| axis_with(f)),
{
    let mut r: Vec<AbsAxisWire> = Vec::new();
    for i in 0..fields.len()
        invariant
            r@ =~= fields@.take(i as int).map_values(|f: AxisFields| axis_with(f)),
    {
        let f = fields[i];
        r.push(
            AbsAxisWire {
                code: f.0,
                value: f.1,
                minimum: f.2,
                maximum: f.3,
                fuzz: f.4,
                flat: f.5,
                resolution: f.6,
            },
        );
    }
    assert(fields@.take(fields@.len() as int) =~= fields@);
    r
}

/// The fields of events, event by event.
pub fn events_fields(events: &Vec<EventWire>) -> (r: Vec<EventFields>)
    ensures
        r@ == events@.map_values(|e: EventWire| event_fields(e)),
{
    let mut r: Vec<EventFields> = Vec::new();
    for i in 0..events.len()
        invariant
            r@ =~= events@.take(i as int).map_values(|e: EventWire| event_fields(e)),
    {
        let e = events[i];
        r.push((e.type_, e.code, e.value));
    }
    assert(events@.take(events@.len() as int) =~= events@);
    r
}

/// The events with the given fields.
pub fn events_with(fields: &Vec<EventFields>) -> (r: Vec<EventWire>)
    ensures
        r@ == fields@.map_values(|f: EventFields| event_with(f)),
{
    let mut r: Vec<EventWire> = Vec::new();
    for i in 0..fields.len()
        invariant
            r@ =~= fields@.take(i as int).map_values(|f: EventFields| event_with(f)),
    {
        let f = fields[i];
        r.push(EventWire { type_: f.0, code: f.1, value: f.2 });
    }
    assert(fields@.take(fields@.len() as int) =~= fields@);
    r
}

/// No proper part from the front of `bytes` is a message.
pub open spec fn refuses_parts(bytes: Seq<u8>) -> bool {
    forall|k: int|
        0 <= k < bytes.len() ==> !(#[trigger] reading(bytes.take(k)) is Message)
}

proof fn lemma_take(a: Seq<u8>, b: Seq<u8>, k: int)
    requires
        0 <= k < (a + b).len(),
    ensures
        k < a.len() ==> (a + b).take(k) == a.take(k),
        k >= a.len() ==> (a + b).take(k) == a + b.take(k - a.len()),
{
    if k < a.len() {
        assert((a + b).take(k) =~= a.take(k));
    } else {
        assert((a + b).take(k) =~= a + b.take(k - a.len()));
    }
}

fn encode_handshake(payload: &HandshakePayload) -> (r: Result<Vec<u8>, postcard::Error>)
    ensures
        r is Ok,
        r->Ok_0@ == message_bytes(MessageView::Handshake(payload@)),
        forall|rest: Seq<u8>| #[trigger]
            reading(r->Ok_0@ + rest) == Reading::Message(MessageView::Handshake(payload@)),
        refuses_parts(r->Ok_0@),
{
    let m = &payload.metadata;
    let axes = axes_fields(&m.abs_axes);
    proof {
        law_index_round_trip(0);
    }
    let mut bytes = wire::write_index(0)?;
    let mut texts = wire::write_texts(&payload.client_id, &payload.client_hostname)?;
    let mut device = wire::write_device(
        &m.name,
        (m.bustype, m.vendor, m.product, m.version),
        &m.keys,
        &axes,
        &m.rel_axes,
    )?;
    let ghost index = bytes@;
    let ghost middle = texts@;
    let ghost end = device@;
    bytes.append(&mut texts);
    bytes.append(&mut device);
    proof {
        assert(device_with(device_parts(payload.metadata@)).abs_axes =~= payload.metadata.abs_axes@);
        assert forall|rest: Seq<u8>| #[trigger]
            reading(bytes@ + rest) == Reading::Message(MessageView::Handshake(payload@)) by {
            assert(bytes@ + rest =~= index + (middle + (end + rest)));
        }
        assert(bytes@ =~= index + (middle + end));
        assert forall|k: int| 0 <= k < bytes@.len() implies !(#[trigger] reading(
            bytes@.take(k),
        ) is Message) by {
            lemma_take(index, middle + end, k);
            if k >= index.len() {
                lemma_take(middle, end, k - index.len());
            }
        }
    }
    Ok(bytes)
}

fn encode_ack(status: AckStatus, server_hostname: &String, message: &String) -> (r: Result<
    Vec<u8>,
    postcard::Error,
>)
    ensures
        r is Ok,
        r->Ok_0@ == message_bytes(
            (MessageView::HandshakeAck {
                status,
                server_hostname: server_hostname@,
                message: message@,
            }),
        ),
        forall|rest: Seq<u8>| #[trigger]
            reading(r->Ok_0@ + rest) == Reading::Message(
                (MessageView::HandshakeAck {
                    status,
                    server_hostname: server_hostname@,
                    message: message@,
                }),
            ),
        refuses_parts(r->Ok_0@),
{
    let index: u32 = status.index();
    proof {
        law_index_round_trip(1);
        law_index_round_trip(index);
    }
    let mut bytes = wire::write_index(1)?;
    let mut second = wire::write_index(index)?;
    let mut texts = wire::write_texts(server_hostname, message)?;
    let ghost kind = bytes@;
    let ghost middle = second@;
    let ghost end = texts@;
    bytes.append(&mut second);
    bytes.append(&mut texts);
    proof {
        assert forall|rest: Seq<u8>| #[trigger]
            reading(bytes@ + rest) == Reading::Message(
                (MessageView::HandshakeAck {
                    status,
                    server_hostname: server_hostname@,
                    message: message@,
                }),
            ) by {
            assert(bytes@ + rest =~= kind + (middle + (end + rest)));
        }
        assert(bytes@ =~= kind + (middle + end));
        assert forall|k: int| 0 <= k < bytes@.len() implies !(#[trigger] reading(
            bytes@.take(k),
        ) is Message) by {
            lemma_take(kind, middle + end, k);
            if k >= kind.len() {
                lemma_take(middle, end, k - kind.len());
            }
        }
    }
    Ok(bytes)
}

fn encode_events(events: &Vec<EventWire>) -> (r: Result<Vec<u8>, postcard::Error>)
    ensures
        r is Ok,
        r->Ok_0@ == message_bytes(MessageView::Events(events@)),
        forall|rest: Seq<u8>| #[trigger]
            reading(r->Ok_0@ + rest) == Reading::Message(MessageView::Events(events@)),
        refuses_parts(r->Ok_0@),
{
    let fields = events_fields(events);
    proof {
        law_index_round_trip(2);
    }
    let mut bytes = wire::write_index(2)?;
    let mut list = wire::write_events(&fields)?;
    let ghost kind = bytes@;
    let ghost end = list@;
    bytes.append(&mut list);
    proof {
        assert(fields@.map_values(|f: EventFields| event_with(f)) =~= events@);
        assert forall|rest: Seq<u8>| #[trigger]
            reading(bytes@ + rest) == Reading::Message(MessageView::Events(events@)) by {
            assert(bytes@ + rest =~= kind + (end + rest));
        }
        assert forall|k: int| 0 <= k < bytes@.len() implies !(#[trigger] reading(
            bytes@.take(k),
        ) is Message) by {
            lemma_take(kind, end, k);
        }
    }
    Ok(bytes)
}

/// The handshake with the given texts (client ID and host name) and device description.
pub fn handshake_with(
    texts: (String, String),
    device: (String, u16, u16, u16, u16, Vec<u16>, Vec<AxisFields>, Vec<u16>),
) -> (r: Message)
    ensures
        r@ == MessageView::Handshake(
            (HandshakeView {
                client_id: texts.0@,
                client_hostname: texts.1@,
                metadata: device_with(
                    (
                        device.0@,
                        device.1,
                        device.2,
                        device.3,
                        device.4,
                        device.5@,
                        device.6@,
                        device.7@,
                    ),
                ),
            }),
        ),
{
    let abs_axes = axes_with(&device.6);
    Message::Handshake(
        HandshakePayload {
            client_id: texts.0,
            client_hostname: texts.1,
            metadata: DeviceMetadata {
                name: device.0,
                bustype: device.1,
                vendor: device.2,
                product: device.3,
                version: device.4,
                keys: device.5,
                abs_axes,
                rel_axes: device.7,
            },
        },
    )
}

fn decode_handshake(bytes: &[u8]) -> (r: Result<Message, WireError>)
    ensures
        reads_as(r, handshake_in(bytes@)),
{
    match wire::read_texts(bytes) {
        Err(e) => Err(WireError::Postcard(e)),
        Ok((texts, rest)) => match wire::read_device(rest) {
            Err(e) => Err(WireError::Postcard(e)),
            Ok((device, _)) => Ok(handshake_with(texts, device)),
        },
    }
}

fn decode_ack(bytes: &[u8]) -> (r: Result<Message, WireError>)
    ensures
        reads_as(r, ack_in(bytes@)),
{
    match wire::read_index(bytes) {
        Err(e) => Err(WireError::Postcard(e)),
        Ok((index, rest)) => match AckStatus::from_index(index) {
            None => Err(WireError::UnknownStatus(index)),
            Some(status) => match wire::read_texts(rest) {
                Err(e) => Err(WireError::Postcard(e)),
                Ok((texts, _)) => Ok(
                    Message::HandshakeAck { status, server_hostname: texts.0, message: texts.1 },
                ),
            },
        },
    }
}

fn decode_events(bytes: &[u8]) -> (r: Result<Message, WireError>)
    ensures
        reads_as(r, events_in(bytes@)),
{
    match wire::read_events(bytes) {
        Err(e) => Err(WireError::Postcard(e)),
        Ok((events, _)) => Ok(Message::Events(events_with(&events))),
    }
}

/// The bytes are the message on the wire, and are read as that message; no proper part of them
/// is read as a message.
pub open spec fn carries(bytes: Seq<u8>, m: MessageView) -> bool {
    &&& bytes == message_bytes(m)
    &&& reading(bytes) == Reading::Message(m)
    &&& refuses_parts(bytes)
}

/// Different messages never have the same bytes.
pub proof fn law_bytes_tell_messages_apart(bytes: Seq<u8>, a: MessageView, b: MessageView)
    requires
        carries(bytes, a),
        carries(bytes, b),
    ensures
        a == b,
{
}

/// A message that lost bytes at its end is refused.
pub proof fn law_part_of_message_is_refused(
    bytes: Seq<u8>,
    m: MessageView,
    k: int,
    r: Result<Message, WireError>,
)
    requires
        carries(bytes, m),
        0 <= k < bytes.len(),
        reads_as(r, reading(bytes.take(k))),
    ensures
        r is Err,
{
    assert(!(reading(bytes.take(k)) is Message));
}

/// The first byte of a message tells its kind, and the second byte of an acknowledgment its status.
pub proof fn law_first_bytes_tell_kind_and_status(m: MessageView)
    ensures
        message_bytes(m).len() > 0,
        message_bytes(m)[0] == 0 <==> m is Handshake,
        message_bytes(m)[0] == 1 <==> m is HandshakeAck,
        message_bytes(m)[0] == 2 <==> m is Events,
        message_bytes(m)[0] == 3 <==> m is Ping,
        message_bytes(m)[0] == 4 <==> m is Pong,
        m is Ping || m is Pong ==> message_bytes(m).len() == 1,
        m matches MessageView::HandshakeAck { status, .. } ==> {
            &&& message_bytes(m).len() > 1
            &&& message_bytes(m)[1] == 0 <==> status == AckStatus::Approved
            &&& message_bytes(m)[1] == 1 <==> status == AckStatus::PendingApproval
            &&& message_bytes(m)[1] == 2 <==> status == AckStatus::Rejected
        },
{
}

/// A handshake is written as the client's ID and host name, then the device: its name, bus type,
/// vendor, product, version, keys, absolute axes and relative axes; and each absolute axis as its
/// code, value, minimum, maximum, fuzz, flat and resolution.
pub proof fn law_order_in_a_handshake(p: HandshakeView) -> (axes: Seq<AxisFields>)
    ensures
        message_bytes(MessageView::Handshake(p)) == seq![0u8] + wire::texts_bytes(
            p.client_id,
            p.client_hostname,
        ) + wire::device_bytes(
            (
                p.metadata.name,
                p.metadata.bustype,
                p.metadata.vendor,
                p.metadata.product,
                p.metadata.version,
                p.metadata.keys,
                axes,
                p.metadata.rel_axes,
            ),
        ),
        axes.len() == p.metadata.abs_axes.len(),
        forall|i: int|
            0 <= i < axes.len() ==> {
                let a = p.metadata.abs_axes[i];
                #[trigger] axes[i] == (
                    a.code,
                    a.value,
                    a.minimum,
                    a.maximum,
                    a.fuzz,
                    a.flat,
                    a.resolution,
                )
            },
{
    p.metadata.abs_axes.map_values(|a: AbsAxisWire| axis_fields(a))
}

/// An acknowledgment is written as its status, the server's host name and the message, in one byte
/// for the status.
pub proof fn law_order_in_an_acknowledgment(
    status: AckStatus,
    server_hostname: Seq<char>,
    message: Seq<char>,
)
    ensures
        ({
            let bytes = message_bytes(
                (MessageView::HandshakeAck { status, server_hostname, message }),
            );
            bytes.skip(2) == wire::texts_bytes(server_hostname, message)
        }),
{
    let texts = wire::texts_bytes(server_hostname, message);
    let bytes = message_bytes((MessageView::HandshakeAck { status, server_hostname, message }));
    assert(bytes.skip(2) =~= texts);
}

/// Events are written one after the other behind their number, each as its type, code and value.
pub proof fn law_order_in_events(events: Seq<EventWire>) -> (fields: Seq<EventFields>)
    ensures
        message_bytes(MessageView::Events(events)) == seq![2u8] + wire::events_bytes(fields),
        fields.len() == events.len(),
        forall|i: int|
            0 <= i < events.len() ==> #[trigger] fields[i] == (
                events[i].type_,
                events[i].code,
                events[i].value,
            ),
{
    events.map_values(|e: EventWire| event_fields(e))
}

/// Bytes that begin with a number above four are no message, and an acknowledgment with a number
/// above two in the place of its status is none either; the error tells the number.
pub proof fn law_other_numbers_are_refused(bytes: Seq<u8>, r: Result<Message, WireError>)
    requires
        reads_as(r, reading(bytes)),
        wire::index_of(bytes) is Some,
    ensures
        ({
            let (kind, rest) = wire::index_of(bytes)->0;
            &&& kind > 4 <==> r == Err::<Message, WireError>(WireError::UnknownMessage(kind))
            &&& kind == 1 ==> (wire::index_of(rest) matches Some((status, _)) ==> (status > 2 <==> r
                == Err::<Message, WireError>(WireError::UnknownStatus(status))))
            &&& kind == 3 ==> (r matches Ok(m) && m@ == MessageView::Ping)
            &&& kind == 4 ==> (r matches Ok(m) && m@ == MessageView::Pong)
        }),
{
}

/// Bytes are malformed exactly where a number or a part of the message that they begin is missing.
pub proof fn law_when_bytes_are_malformed(bytes: Seq<u8>, r: Result<Message, WireError>)
    requires
        reads_as(r, reading(bytes)),
    ensures
        wire::index_of(bytes) is None ==> r matches Err(WireError::Postcard(_)),
        wire::index_of(bytes) matches Some((kind, rest)) ==> {
            &&& kind == 0 ==> (r is Ok <==> (wire::texts_of(rest) matches Some((_, device))
                && wire::device_of(device) is Some))
            &&& kind == 1 ==> (r is Ok <==> (wire::index_of(rest) matches Some((status, texts))
                && status <= 2 && wire::texts_of(texts) is Some))
            &&& kind == 2 ==> (r is Ok <==> wire::events_of(rest) is Some)
        },
{
}

impl Message {
    /// Writes the message. This never fails, and decoding the bytes gives the message back,
    /// whatever bytes follow them, and refuses them where bytes are missing at the end.
    pub fn encode(&self) -> (r: Result<Vec<u8>, WireError>)
        ensures
            r is Ok,
            r->Ok_0@ == message_bytes(self@),
            reading(r->Ok_0@) == Reading::Message(self@),
            refuses_parts(r->Ok_0@),
            forall|rest: Seq<u8>| #[trigger]
                reading(r->Ok_0@ + rest) == Reading::Message(self@),
    {
        proof {
            law_index_round_trip(3);
            law_index_round_trip(4);
        }
        let written = match self {
            Message::Handshake(payload) => encode_handshake(payload),
            Message::HandshakeAck { status, server_hostname, message } => encode_ack(
                *status,
                server_hostname,
                message,
            ),
            Message::Events(events) => encode_events(events),
            Message::Ping => wire::write_index(3),
            Message::Pong => wire::write_index(4),
        };
        match written {
            Ok(bytes) => {
                proof {
                    assert forall|k: int| 0 <= k < bytes@.len() implies !(#[trigger] reading(
                        bytes@.take(k),
                    ) is Message) by {}
                    assert(forall|rest: Seq<u8>| #[trigger]
                        reading(bytes@ + rest) == Reading::Message(self@));
                    assert(bytes@ + Seq::<u8>::empty() =~= bytes@);
                }
                Ok(bytes)
            },
            Err(e) => Err(WireError::Postcard(e)),
        }
    }

    /// Reads a message from the front of `bytes`.
    pub fn decode(bytes: &[u8]) -> (r: Result<Message, WireError>)
        ensures
            reads_as(r, reading(bytes@)),
    {
        match wire::read_index(bytes) {
            Err(e) => Err(WireError::Postcard(e)),
            Ok((index, rest)) => match MessageKind::from_index(index) {
                None => Err(WireError::UnknownMessage(index)),
                Some(MessageKind::Handshake) => decode_handshake(rest),
                Some(MessageKind::HandshakeAck) => decode_ack(rest),
                Some(MessageKind::Events) => decode_events(rest),
                Some(MessageKind::Ping) => Ok(Message::Ping),
                Some(MessageKind::Pong) => Ok(Message::Pong),
            },
        }
    }
}

} // verus!

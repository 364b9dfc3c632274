//! The client's side of a connection: waiting for a device, the handshake, and the forwarding of
//! events while the device comes and goes.

use vstd::prelude::*;

use crate::client::JoycastClient;
use crate::device::InputDevice;
use crate::frame::{frames, write_frame};
use crate::protocol::{
    carries, message_bytes, AckStatus, DeviceMetadata, EventWire, HandshakePayload, HandshakeView,
    Message, MessageView,
};
use crate::path::path_parts;
use crate::reconnect::{
    device_identity, identity_of, law_which_device_is_reopened, reopens, LostView,
    ReconnectingDevice,
};
use crate::text::joined;
use crate::transport::TargetAddress;
use crate::udp::SESSION_TIMEOUT;

verus! {

/// How often a device is looked for, in seconds.
pub const DEVICE_RETRY_SECS: u64 = 1;

/// How often a ping is sent, in seconds.
pub const KEEPALIVE_SECS: u64 = 10;

/// How long the answer to a ping is waited for before the handshake, in seconds.
pub const KEEPALIVE_TIMEOUT_SECS: u64 = 5;

/// How long the answer to a handshake is waited for over Direct UDP, in seconds.
pub const ACK_TIMEOUT_SECS: u64 = 4;

/// How messages reach the server.
#[derive(Debug, Clone, Copy, PartialEq, Eq, Structural)]
pub enum Transport {
    /// One message in each datagram.
    DirectUdp,
    /// Messages in frames on a stream.
    IrohP2p,
}

impl Transport {
    /// The name under which a connection is recorded.
    pub open spec fn name(&self) -> Seq<char> {
        match *self {
            Transport::DirectUdp => "Direct UDP"@,
            Transport::IrohP2p => "Iroh P2P"@,
        }
    }

    /// The name under which a connection is recorded.
    pub fn label(&self) -> (r: &'static str)
        ensures
            r@ == self.name(),
    {
        match self {
            Transport::DirectUdp => "Direct UDP",
            Transport::IrohP2p => "Iroh P2P",
        }
    }
}

/// How far a connection is.
#[derive(Debug, Clone, Copy, PartialEq, Eq, Structural)]
pub enum Phase {
    /// The device is not there yet.
    WaitingForDevice,
    /// The device is not there yet, and the answer to a ping is due.
    AwaitingPong,
    /// The handshake was sent and its answer is due.
    AwaitingAck,
    /// Events are forwarded.
    Streaming,
    /// The device is gone and is looked for.
    Reconnecting,
}

/// What happens on a connection.
pub enum ClientEvent {
    /// The device was opened.
    DeviceOpened { path: String, metadata: DeviceMetadata },
    /// It is time for a ping.
    KeepaliveDue,
    /// Something came from the server: a message, or, in a datagram, bytes that are none.
    Received(Option<Message>),
    /// Receiving failed, with this error.
    ReceiveFailed(String),
    /// The answer to a ping did not come in time.
    PongOverdue,
    /// The answer to the handshake did not come in time.
    AckOverdue,
    /// The device reports an event.
    Input(EventWire),
    /// The device is gone.
    DeviceLost,
    /// The device is back and reports events again.
    DeviceReturned,
}

/// What is to be done.
pub enum ClientAction {
    /// Nothing.
    Nothing,
    /// Send these bytes.
    Send(Vec<u8>),
    /// Enter the server, which said `message`, into the history.
    Record { server_hostname: String, target: String, transport_type: String, message: String },
    /// Nothing: the message is not one that the server sends here.
    Unexpected(Message),
}

/// Why a connection ends.
#[derive(Debug, PartialEq, Eq)]
pub enum ClientError {
    /// The server did not answer a ping.
    NoPong,
    /// The server answered a ping with this.
    ExpectedPong(Message),
    /// The server answered the handshake with this.
    ExpectedAck(Message),
    /// The server has to approve the client first.
    Pending(String),
    /// The server cannot serve the client.
    Rejected(String),
    /// Receiving the answer to the handshake failed over Direct UDP, with this error.
    NoAck(String),
    /// Receiving failed on a stream before events were forwarded, with this error.
    ReceiveFailed(String),
    /// The stream ended while events were forwarded.
    Closed,
}

impl ClientError {
    /// The text for the user. Behind that of an unexpected answer comes the answer itself.
    pub open spec fn text(&self) -> Seq<char> {
        match *self {
            ClientError::NoPong => "Server did not answer controller-wait keepalive"@,
            ClientError::ExpectedPong(_) => "Expected Pong while waiting for controller, got: "@,
            ClientError::ExpectedAck(_) => "Expected HandshakeAck from server, got: "@,
            ClientError::Pending(_) => "Connection pending server authorization."@,
            ClientError::Rejected(message) => "Server rejected connection: "@ + message@,
            ClientError::NoAck(error) => "Error receiving HandshakeAck: "@ + error@,
            ClientError::ReceiveFailed(error) => error@,
            ClientError::Closed => "Server connection closed"@,
        }
    }

    /// The text for the user. Behind that of an unexpected answer comes the answer itself.
    pub fn message(&self) -> (r: String)
        ensures
            r@ == self.text(),
    {
        match self {
            ClientError::NoPong => "Server did not answer controller-wait keepalive".to_owned(),
            ClientError::ExpectedPong(_) =>
                "Expected Pong while waiting for controller, got: ".to_owned(),
            ClientError::ExpectedAck(_) => "Expected HandshakeAck from server, got: ".to_owned(),
            ClientError::Pending(_) => "Connection pending server authorization.".to_owned(),
            ClientError::Rejected(message) => joined("Server rejected connection: ", message),
            ClientError::NoAck(error) => joined("Error receiving HandshakeAck: ", error),
            ClientError::ReceiveFailed(error) => error.clone(),
            ClientError::Closed => "Server connection closed".to_owned(),
        }
    }
}

/// What a [`ClientSession`] holds.
pub struct SessionView {
    pub transport: Transport,
    pub client_id: Seq<char>,
    pub hostname: Seq<char>,
    pub target: Seq<char>,
    pub phase: Phase,
    pub device: Option<LostView>,
}

/// The bytes carry the message to the server.
pub open spec fn delivers(transport: Transport, bytes: Seq<u8>, m: MessageView) -> bool {
    match transport {
        Transport::DirectUdp => carries(bytes, m),
        Transport::IrohP2p => frames(bytes, m),
    }
}

/// The handshake of a client whose device is described by `metadata`.
pub open spec fn handshake(s: SessionView, metadata: DeviceMetadata) -> MessageView {
    MessageView::Handshake(
        HandshakeView {
            client_id: s.client_id,
            client_hostname: s.hostname,
            metadata: metadata@,
        },
    )
}

/// The message `m` is sent.
pub open spec fn sends(
    transport: Transport,
    r: Result<ClientAction, ClientError>,
    m: MessageView,
) -> bool {
    r matches Ok(ClientAction::Send(bytes)) && delivers(transport, bytes@, m)
}

/// Nothing is to be done.
pub open spec fn idle(r: Result<ClientAction, ClientError>) -> bool {
    r == Ok::<ClientAction, ClientError>(ClientAction::Nothing)
}

/// The connection in another phase.
pub open spec fn in_phase(s: SessionView, phase: Phase) -> SessionView {
    SessionView { phase, ..s }
}

/// What an answer to the handshake gives.
pub open spec fn acknowledges(
    before: SessionView,
    status: AckStatus,
    server_hostname: String,
    message: String,
    r: Result<ClientAction, ClientError>,
    after: SessionView,
) -> bool {
    match status {
        AckStatus::Approved => {
            &&& r matches Ok(
                ClientAction::Record { server_hostname: h, target, transport_type, message: m },
            ) && h == server_hostname && target@ == before.target && transport_type@
                == before.transport.name() && m == message
            &&& after == in_phase(before, Phase::Streaming)
        },
        AckStatus::PendingApproval => r == Err::<ClientAction, ClientError>(
            ClientError::Pending(message),
        ) && after == before,
        AckStatus::Rejected => r == Err::<ClientAction, ClientError>(
            ClientError::Rejected(message),
        ) && after == before,
    }
}

/// What something that came from the server gives.
pub open spec fn receives(
    before: SessionView,
    received: Option<Message>,
    r: Result<ClientAction, ClientError>,
    after: SessionView,
) -> bool {
    match (before.phase, received) {
        (Phase::AwaitingPong, Some(Message::Pong)) => idle(r) && after == in_phase(
            before,
            Phase::WaitingForDevice,
        ),
        (Phase::AwaitingPong, Some(m)) => r == Err::<ClientAction, ClientError>(
            ClientError::ExpectedPong(m),
        ) && after == before,
        (
            Phase::AwaitingAck,
            Some(Message::HandshakeAck { status, server_hostname, message }),
        ) => acknowledges(before, status, server_hostname, message, r, after),
        (Phase::AwaitingAck, Some(m)) => after == before && if before.transport is IrohP2p {
            r == Err::<ClientAction, ClientError>(ClientError::ExpectedAck(m))
        } else {
            idle(r)
        },
        (Phase::Streaming, Some(m)) => after == before && logs(before.transport, m, r),
        (Phase::Reconnecting, Some(m)) => after == before && logs(before.transport, m, r),
        _ => idle(r) && after == before,
    }
}

/// What a message gives while events are forwarded: on a stream the server sends pongs only.
pub open spec fn logs(
    transport: Transport,
    m: Message,
    r: Result<ClientAction, ClientError>,
) -> bool {
    if transport is IrohP2p && !(m is Pong) {
        r == Ok::<ClientAction, ClientError>(ClientAction::Unexpected(m))
    } else {
        idle(r)
    }
}

/// How a failure to receive ends the connection. Over Direct UDP it matters only while the answer
/// to the handshake is due; a stream that waits for its device is not read.
pub open spec fn receive_error(transport: Transport, phase: Phase, error: String) -> Option<
    ClientError,
> {
    match (transport, phase) {
        (Transport::DirectUdp, Phase::AwaitingAck) => Some(ClientError::NoAck(error)),
        (Transport::DirectUdp, _) => None,
        (Transport::IrohP2p, Phase::WaitingForDevice) => None,
        (Transport::IrohP2p, Phase::AwaitingPong) => Some(ClientError::ReceiveFailed(error)),
        (Transport::IrohP2p, Phase::AwaitingAck) => Some(ClientError::ReceiveFailed(error)),
        (Transport::IrohP2p, Phase::Streaming) => Some(ClientError::Closed),
        (Transport::IrohP2p, Phase::Reconnecting) => Some(ClientError::Closed),
    }
}

/// `r` and the connection `after` are what `event` gives on the connection `before`.
pub open spec fn advances(
    before: SessionView,
    event: ClientEvent,
    r: Result<ClientAction, ClientError>,
    after: SessionView,
) -> bool {
    match event {
        ClientEvent::DeviceOpened { path, metadata } => if before.phase is WaitingForDevice {
            &&& sends(before.transport, r, handshake(before, metadata))
            &&& after == (SessionView {
                phase: Phase::AwaitingAck,
                device: Some(LostView { path: path@, identity: identity_of(metadata@) }),
                ..before
            })
        } else {
            idle(r) && after == before
        },
        ClientEvent::KeepaliveDue => match before.phase {
            Phase::WaitingForDevice => {
                &&& sends(before.transport, r, MessageView::Ping)
                &&& after == match before.transport {
                    Transport::DirectUdp => before,
                    Transport::IrohP2p => in_phase(before, Phase::AwaitingPong),
                }
            },
            Phase::Streaming => sends(before.transport, r, MessageView::Ping) && after == before,
            Phase::Reconnecting => sends(before.transport, r, MessageView::Ping) && after == before,
            _ => idle(r) && after == before,
        },
        ClientEvent::Received(received) => receives(before, received, r, after),
        ClientEvent::ReceiveFailed(error) => after == before && match receive_error(
            before.transport,
            before.phase,
            error,
        ) {
            Some(e) => r == Err::<ClientAction, ClientError>(e),
            None => idle(r),
        },
        ClientEvent::PongOverdue => after == before && if before.phase is AwaitingPong {
            r == Err::<ClientAction, ClientError>(ClientError::NoPong)
        } else {
            idle(r)
        },
        ClientEvent::AckOverdue => idle(r) && after == if before.phase is AwaitingAck
            && before.transport is DirectUdp {
            in_phase(before, Phase::Streaming)
        } else {
            before
        },
        ClientEvent::Input(input) => after == before && if before.phase is Streaming {
            sends(before.transport, r, MessageView::Events(seq![input]))
        } else {
            idle(r)
        },
        ClientEvent::DeviceLost => idle(r) && after == if before.phase is Streaming {
            in_phase(before, Phase::Reconnecting)
        } else {
            before
        },
        ClientEvent::DeviceReturned => idle(r) && after == if before.phase is Reconnecting {
            in_phase(before, Phase::Streaming)
        } else {
            before
        },
    }
}

/// `r` and the connection `after` are what looking for the device among those that were `found`
/// gives on the connection `before`.
pub open spec fn reopening(
    before: SessionView,
    found: Seq<InputDevice>,
    r: Option<usize>,
    after: SessionView,
) -> bool {
    match before.device {
        Some(lost) if before.phase is Reconnecting => {
            &&& after.device matches Some(now)
            &&& reopens(lost, found, r, now)
            &&& after == (SessionView { device: Some(now), ..before })
        },
        _ => r is None && after == before,
    }
}

/// A connection of a client to its server.
pub struct ClientSession {
    transport: Transport,
    client_id: String,
    hostname: String,
    target: String,
    phase: Phase,
    device: Option<ReconnectingDevice>,
}

impl View for ClientSession {
    type V = SessionView;

    closed spec fn view(&self) -> SessionView {
        SessionView {
            transport: self.transport,
            client_id: self.client_id@,
            hostname: self.hostname@,
            target: self.target@,
            phase: self.phase,
            device: match self.device {
                Some(d) => Some(d@),
                None => None,
            },
        }
    }
}

impl ClientSession {
    /// The connection of a client on the host `hostname`, before anything was sent.
    pub fn new(client: &JoycastClient, hostname: String) -> (r: Self)
        ensures
            r@ == (SessionView {
                transport: match client.target {
                    TargetAddress::Ip(_) => Transport::DirectUdp,
                    TargetAddress::Iroh(_) => Transport::IrohP2p,
                },
                client_id: client.client_id@,
                hostname: hostname@,
                target: client.target_raw@,
                phase: Phase::WaitingForDevice,
                device: None,
            }),
    {
        ClientSession {
            transport: match client.target {
                TargetAddress::Ip(_) => Transport::DirectUdp,
                TargetAddress::Iroh(_) => Transport::IrohP2p,
            },
            client_id: client.client_id.clone(),
            hostname,
            target: client.target_raw.clone(),
            phase: Phase::WaitingForDevice,
            device: None,
        }
    }

    /// How far the connection is.
    pub fn phase(&self) -> (r: Phase)
        ensures
            r == self@.phase,
    {
        self.phase
    }

    /// How messages reach the server.
    pub fn transport(&self) -> (r: Transport)
        ensures
            r == self@.transport,
    {
        self.transport
    }

    /// The bytes that carry a message.
    fn sending(&self, msg: &Message) -> (r: Result<ClientAction, ClientError>)
        ensures
            sends(self@.transport, r, msg@),
    {
        let bytes = match self.transport {
            Transport::DirectUdp => msg.encode(),
            Transport::IrohP2p => write_frame(msg),
        };
        match bytes {
            Ok(bytes) => Ok(ClientAction::Send(bytes)),
            Err(_) => Ok(ClientAction::Nothing),
        }
    }

    /// Handles what happens on the connection.
    pub fn on_event(&mut self, event: ClientEvent) -> (r: Result<ClientAction, ClientError>)
        ensures
            advances(old(self)@, event, r, final(self)@),
    {
        match event {
            ClientEvent::DeviceOpened { path, metadata } => {
                if self.phase != Phase::WaitingForDevice {
                    return Ok(ClientAction::Nothing);
                }
                self.device = Some(ReconnectingDevice::new(path, &metadata));
                self.phase = Phase::AwaitingAck;
                let payload = HandshakePayload {
                    client_id: self.client_id.clone(),
                    client_hostname: self.hostname.clone(),
                    metadata,
                };
                self.sending(&Message::Handshake(payload))
            },
            ClientEvent::KeepaliveDue => match self.phase {
                Phase::WaitingForDevice => {
                    if self.transport == Transport::IrohP2p {
                        self.phase = Phase::AwaitingPong;
                    }
                    self.sending(&Message::Ping)
                },
                Phase::Streaming => self.sending(&Message::Ping),
                Phase::Reconnecting => self.sending(&Message::Ping),
                _ => Ok(ClientAction::Nothing),
            },
            ClientEvent::Received(received) => match received {
                Some(msg) => self.on_message(msg),
                None => Ok(ClientAction::Nothing),
            },
            ClientEvent::ReceiveFailed(error) => match (self.transport, self.phase) {
                (Transport::DirectUdp, Phase::AwaitingAck) => Err(ClientError::NoAck(error)),
                (Transport::DirectUdp, _) => Ok(ClientAction::Nothing),
                (Transport::IrohP2p, Phase::WaitingForDevice) => Ok(ClientAction::Nothing),
                (Transport::IrohP2p, Phase::AwaitingPong) => Err(ClientError::ReceiveFailed(error)),
                (Transport::IrohP2p, Phase::AwaitingAck) => Err(ClientError::ReceiveFailed(error)),
                (Transport::IrohP2p, Phase::Streaming) => Err(ClientError::Closed),
                (Transport::IrohP2p, Phase::Reconnecting) => Err(ClientError::Closed),
            },
            ClientEvent::PongOverdue => {
                if self.phase == Phase::AwaitingPong {
                    Err(ClientError::NoPong)
                } else {
                    Ok(ClientAction::Nothing)
                }
            },
            ClientEvent::AckOverdue => {
                if self.phase == Phase::AwaitingAck && self.transport == Transport::DirectUdp {
                    self.phase = Phase::Streaming;
                }
                Ok(ClientAction::Nothing)
            },
            ClientEvent::Input(input) => {
                if self.phase == Phase::Streaming {
                    let msg = JoycastClient::event_message(input.type_, input.code, input.value);
                    self.sending(&msg)
                } else {
                    Ok(ClientAction::Nothing)
                }
            },
            ClientEvent::DeviceLost => {
                if self.phase == Phase::Streaming {
                    self.phase = Phase::Reconnecting;
                }
                Ok(ClientAction::Nothing)
            },
            ClientEvent::DeviceReturned => {
                if self.phase == Phase::Reconnecting {
                    self.phase = Phase::Streaming;
                }
                Ok(ClientAction::Nothing)
            },
        }
    }

    /// Handles a message from the server.
    fn on_message(&mut self, msg: Message) -> (r: Result<ClientAction, ClientError>)
        ensures
            receives(old(self)@, Some(msg), r, final(self)@),
    {
        match self.phase {
            Phase::WaitingForDevice => Ok(ClientAction::Nothing),
            Phase::AwaitingPong => match msg {
                Message::Pong => {
                    self.phase = Phase::WaitingForDevice;
                    Ok(ClientAction::Nothing)
                },
                other => Err(ClientError::ExpectedPong(other)),
            },
            Phase::AwaitingAck => match msg {
                Message::HandshakeAck { status, server_hostname, message } => match status {
                    AckStatus::Approved => {
                        self.phase = Phase::Streaming;
                        Ok(
                            ClientAction::Record {
                                server_hostname,
                                target: self.target.clone(),
                                transport_type: self.transport.label().to_owned(),
                                message,
                            },
                        )
                    },
                    AckStatus::PendingApproval => Err(ClientError::Pending(message)),
                    AckStatus::Rejected => Err(ClientError::Rejected(message)),
                },
                other => match self.transport {
                    Transport::DirectUdp => Ok(ClientAction::Nothing),
                    Transport::IrohP2p => Err(ClientError::ExpectedAck(other)),
                },
            },
            Phase::Streaming | Phase::Reconnecting => match msg {
                Message::Pong => Ok(ClientAction::Nothing),
                other => match self.transport {
                    Transport::DirectUdp => Ok(ClientAction::Nothing),
                    Transport::IrohP2p => Ok(ClientAction::Unexpected(other)),
                },
            },
        }
    }

    /// Looks for the device that is gone among those that were found. Returns its position.
    pub fn reopen(&mut self, found: &Vec<InputDevice>) -> (r: Option<usize>)
        ensures
            reopening(old(self)@, found@, r, final(self)@),
    {
        if self.phase != Phase::Reconnecting {
            return None;
        }
        match &mut self.device {
            Some(device) => device.try_reopen(found),
            None => None,
        }
    }
}

/// A server enters the history only when it approves the client.
pub proof fn law_history_needs_approval(
    before: SessionView,
    event: ClientEvent,
    r: Result<ClientAction, ClientError>,
    after: SessionView,
)
    requires
        advances(before, event, r, after),
        r matches Ok(ClientAction::Record { .. }),
    ensures
        before.phase is AwaitingAck,
        event matches ClientEvent::Received(Some(Message::HandshakeAck { status, .. })) && status
            is Approved,
{
}

/// Forwarding starts only with the approval of the server or, over Direct UDP, when the server
/// does not answer; it goes on when the device is back.
pub proof fn law_forwarding_starts(
    before: SessionView,
    event: ClientEvent,
    r: Result<ClientAction, ClientError>,
    after: SessionView,
)
    requires
        advances(before, event, r, after),
        !(before.phase is Streaming),
        after.phase is Streaming,
    ensures
        ({
            ||| before.phase is AwaitingAck && r matches Ok(ClientAction::Record { .. })
            ||| before.phase is AwaitingAck && before.transport is DirectUdp
                && event is AckOverdue
            ||| before.phase is Reconnecting && event is DeviceReturned
        }),
{
}

/// A client that is not approved stops, and never forwards an event.
pub proof fn law_unapproved_client_stops(
    before: SessionView,
    status: AckStatus,
    server_hostname: String,
    message: String,
    r: Result<ClientAction, ClientError>,
    after: SessionView,
)
    requires
        before.phase is AwaitingAck,
        !(status is Approved),
        advances(
            before,
            ClientEvent::Received(
                Some(Message::HandshakeAck { status, server_hostname, message }),
            ),
            r,
            after,
        ),
    ensures
        r is Err,
        !(after.phase is Streaming),
{
}

/// An event of the device reaches the server as it is, and only while events are forwarded.
pub proof fn law_input_is_forwarded(
    before: SessionView,
    input: EventWire,
    r: Result<ClientAction, ClientError>,
    after: SessionView,
)
    requires
        advances(before, ClientEvent::Input(input), r, after),
    ensures
        before.phase is Streaming ==> sends(
            before.transport,
            r,
            MessageView::Events(seq![input]),
        ),
        !(before.phase is Streaming) ==> idle(r),
        after == before,
{
}

/// The connection outlives its device: while the device is gone pings go on, and when it is back
/// the connection is as it was.
pub proof fn law_connection_outlives_device(
    before: SessionView,
    lost: Result<ClientAction, ClientError>,
    without: SessionView,
    ping: Result<ClientAction, ClientError>,
    waiting: SessionView,
    back: Result<ClientAction, ClientError>,
    after: SessionView,
)
    requires
        before.phase is Streaming,
        advances(before, ClientEvent::DeviceLost, lost, without),
        advances(without, ClientEvent::KeepaliveDue, ping, waiting),
        advances(waiting, ClientEvent::DeviceReturned, back, after),
    ensures
        idle(lost),
        without.phase is Reconnecting,
        sends(before.transport, ping, MessageView::Ping),
        after == before,
{
}

/// Opening the device sends the handshake of the client for that device, and the client remembers
/// the device by the path at which it was opened and by its identity. Nothing but the first
/// opening does so.
pub proof fn law_opening_sends_handshake(
    before: SessionView,
    path: String,
    metadata: DeviceMetadata,
    r: Result<ClientAction, ClientError>,
    after: SessionView,
)
    requires
        advances(before, ClientEvent::DeviceOpened { path, metadata }, r, after),
    ensures
        before.phase is WaitingForDevice ==> {
            &&& r matches Ok(ClientAction::Send(bytes)) && delivers(
                before.transport,
                bytes@,
                MessageView::Handshake(
                    HandshakeView {
                        client_id: before.client_id,
                        client_hostname: before.hostname,
                        metadata: metadata@,
                    },
                ),
            )
            &&& after.phase is AwaitingAck
            &&& after.device matches Some(lost) && lost.path == path@ && lost.identity.name
                == metadata@.name && lost.identity.bustype == metadata@.bustype
                && lost.identity.vendor == metadata@.vendor && lost.identity.product
                == metadata@.product && lost.identity.version == metadata@.version
        },
        !(before.phase is WaitingForDevice) ==> idle(r) && after == before,
        after.transport == before.transport,
        after.client_id == before.client_id,
        after.hostname == before.hostname,
        after.target == before.target,
{
}

/// Nothing that happens on a connection but the opening of the device changes which device is
/// remembered, and nothing changes the transport, the client's names or the target.
pub proof fn law_device_is_remembered(
    before: SessionView,
    event: ClientEvent,
    r: Result<ClientAction, ClientError>,
    after: SessionView,
)
    requires
        advances(before, event, r, after),
    ensures
        !(event is DeviceOpened) ==> after.device == before.device,
        after.transport == before.transport,
        after.client_id == before.client_id,
        after.hostname == before.hostname,
        after.target == before.target,
        r is Err ==> after == before,
{
}

/// A device that was opened at a path, lost after the server approved, and is back at that path is
/// the device to go on with, whatever other devices of its model are there; and where it is at
/// another path only, one of its model is.
pub proof fn law_opened_device_is_found_again(
    start: SessionView,
    path: String,
    metadata: DeviceMetadata,
    opened: Result<ClientAction, ClientError>,
    asking: SessionView,
    server_hostname: String,
    message: String,
    approved: Result<ClientAction, ClientError>,
    streaming: SessionView,
    lost: Result<ClientAction, ClientError>,
    without: SessionView,
    found: Seq<InputDevice>,
    again: int,
    r: Option<usize>,
    after: SessionView,
)
    requires
        start.phase is WaitingForDevice,
        advances(start, ClientEvent::DeviceOpened { path, metadata }, opened, asking),
        advances(
            asking,
            ClientEvent::Received(
                Some(
                    Message::HandshakeAck {
                        status: AckStatus::Approved,
                        server_hostname,
                        message,
                    },
                ),
            ),
            approved,
            streaming,
        ),
        advances(streaming, ClientEvent::DeviceLost, lost, without),
        0 <= again < found.len(),
        device_identity(found[again]) == identity_of(metadata@),
        reopening(without, found, r, after),
    ensures
        r is Some,
        r->0 < found.len(),
        device_identity(found[r->0 as int]) == identity_of(metadata@),
        path_parts(found[again].path@) == path_parts(path@) ==> path_parts(
            found[r->0 as int].path@,
        ) == path_parts(path@),
        after.phase is Reconnecting,
{
    let held = without.device->0;
    assert(held.path == path@);
    law_which_device_is_reopened(held, found, r, after.device->0);
}

/// Looking for the device is of use only while it is gone, and changes nothing but its place.
pub proof fn law_reopening_changes_the_place_only(
    before: SessionView,
    found: Seq<InputDevice>,
    r: Option<usize>,
    after: SessionView,
)
    requires
        reopening(before, found, r, after),
    ensures
        !(before.phase is Reconnecting) ==> r is None && after == before,
        after.phase == before.phase,
        after.transport == before.transport,
        after.client_id == before.client_id,
        after.hostname == before.hostname,
        after.target == before.target,
        before.device matches Some(lost) ==> (after.device matches Some(now) && now.identity
            == lost.identity),
        r is None ==> after.device == before.device,
{
}

/// A ping is sent in every phase in which no answer is due; over a stream that waits for its device
/// the answer is then due. Nothing else changes.
pub proof fn law_when_pings_are_sent(
    before: SessionView,
    r: Result<ClientAction, ClientError>,
    after: SessionView,
)
    requires
        advances(before, ClientEvent::KeepaliveDue, r, after),
    ensures
        before.phase is WaitingForDevice || before.phase is Streaming || before.phase is Reconnecting
            ==> (r matches Ok(ClientAction::Send(bytes)) && delivers(
            before.transport,
            bytes@,
            MessageView::Ping,
        )),
        before.phase is AwaitingPong || before.phase is AwaitingAck ==> r matches Ok(
            ClientAction::Nothing,
        ),
        before.phase is WaitingForDevice && before.transport is IrohP2p
            ==> after.phase is AwaitingPong,
        !(before.phase is WaitingForDevice && before.transport is IrohP2p) ==> after == before,
        after.device == before.device,
{
}

/// What the server sends ends the connection only where an answer is due: the answer to a ping must
/// be a pong, and on a stream the answer to the handshake must be an acknowledgment. In every other
/// phase, and over Direct UDP for whatever is no acknowledgment, the connection goes on as it is.
pub proof fn law_what_messages_do(
    before: SessionView,
    msg: Message,
    r: Result<ClientAction, ClientError>,
    after: SessionView,
)
    requires
        advances(before, ClientEvent::Received(Some(msg)), r, after),
    ensures
        before.phase is AwaitingPong && msg is Pong ==> r is Ok && after.phase is WaitingForDevice,
        before.phase is AwaitingPong && !(msg is Pong) ==> r == Err::<ClientAction, ClientError>(
            ClientError::ExpectedPong(msg),
        ),
        before.phase is AwaitingAck && !(msg is HandshakeAck) ==> after == before && (
        before.transport is DirectUdp ==> r is Ok) && (before.transport is IrohP2p ==> r == Err::<
            ClientAction,
            ClientError,
        >(ClientError::ExpectedAck(msg))),
        before.phase is WaitingForDevice || before.phase is Streaming || before.phase is Reconnecting
            ==> r is Ok && after == before && !(r->Ok_0 is Send) && !(r->Ok_0 is Record),
        r matches Ok(ClientAction::Unexpected(m)) ==> m == msg && !(msg is Pong)
            && before.transport is IrohP2p,
        (before.phase is Streaming || before.phase is Reconnecting) && before.transport is IrohP2p
            && !(msg is Pong) ==> r == Ok::<ClientAction, ClientError>(
            ClientAction::Unexpected(msg),
        ),
{
}

/// An approval is recorded with the server's host name, the target as the user gave it, and the
/// name of the transport; the two refusals end the connection with the server's own words.
pub proof fn law_what_acknowledgments_do(
    before: SessionView,
    status: AckStatus,
    server_hostname: String,
    message: String,
    r: Result<ClientAction, ClientError>,
    after: SessionView,
)
    requires
        before.phase is AwaitingAck,
        advances(
            before,
            ClientEvent::Received(
                Some(Message::HandshakeAck { status, server_hostname, message }),
            ),
            r,
            after,
        ),
    ensures
        status is Approved ==> {
            &&& r matches Ok(
                ClientAction::Record { server_hostname: h, target, transport_type, message: m },
            ) && h == server_hostname && target@ == before.target && m == message && transport_type@
                == match before.transport {
                Transport::DirectUdp => "Direct UDP"@,
                Transport::IrohP2p => "Iroh P2P"@,
            }
            &&& after.phase is Streaming
            &&& after.device == before.device
        },
        status is PendingApproval ==> r == Err::<ClientAction, ClientError>(
            ClientError::Pending(message),
        ),
        status is Rejected ==> r == Err::<ClientAction, ClientError>(
            ClientError::Rejected(message),
        ),
{
}

/// Bytes that are no message never end or change a connection, and nor does a failure to receive
/// over Direct UDP, unless the answer to the handshake is due.
pub proof fn law_what_failures_do(
    before: SessionView,
    error: String,
    nothing: Result<ClientAction, ClientError>,
    same: SessionView,
    failed: Result<ClientAction, ClientError>,
    after: SessionView,
)
    requires
        advances(before, ClientEvent::Received(None), nothing, same),
        advances(before, ClientEvent::ReceiveFailed(error), failed, after),
    ensures
        nothing is Ok && same == before,
        after == before,
        before.transport is DirectUdp ==> (failed is Err <==> before.phase is AwaitingAck),
        before.transport is IrohP2p ==> (failed is Err <==> !(before.phase is WaitingForDevice)),
        before.transport is IrohP2p && (before.phase is Streaming || before.phase is Reconnecting)
            ==> failed == Err::<ClientAction, ClientError>(ClientError::Closed),
        before.transport is DirectUdp && failed is Err ==> failed == Err::<
            ClientAction,
            ClientError,
        >(ClientError::NoAck(error)),
{
}

/// An answer that is overdue matters only where it is due: the pong of a waiting stream ends the
/// connection, and over Direct UDP forwarding starts without the answer to the handshake.
pub proof fn law_what_overdue_answers_do(
    before: SessionView,
    pong: Result<ClientAction, ClientError>,
    after_pong: SessionView,
    ack: Result<ClientAction, ClientError>,
    after_ack: SessionView,
)
    requires
        advances(before, ClientEvent::PongOverdue, pong, after_pong),
        advances(before, ClientEvent::AckOverdue, ack, after_ack),
    ensures
        pong is Err <==> before.phase is AwaitingPong,
        after_pong == before,
        ack matches Ok(ClientAction::Nothing),
        before.phase is AwaitingAck && before.transport is DirectUdp
            ==> after_ack.phase is Streaming && after_ack.device == before.device,
        !(before.phase is AwaitingAck && before.transport is DirectUdp) ==> after_ack == before,
{
}

/// The loss and the return of the device move a connection between forwarding and looking for the
/// device, and do nothing in other phases.
pub proof fn law_what_unplugging_does(
    before: SessionView,
    lost: Result<ClientAction, ClientError>,
    after_loss: SessionView,
    back: Result<ClientAction, ClientError>,
    after_return: SessionView,
)
    requires
        advances(before, ClientEvent::DeviceLost, lost, after_loss),
        advances(before, ClientEvent::DeviceReturned, back, after_return),
    ensures
        lost matches Ok(ClientAction::Nothing),
        back matches Ok(ClientAction::Nothing),
        before.phase is Streaming ==> after_loss.phase is Reconnecting && after_loss.device
            == before.device,
        !(before.phase is Streaming) ==> after_loss == before,
        before.phase is Reconnecting ==> after_return.phase is Streaming && after_return.device
            == before.device,
        !(before.phase is Reconnecting) ==> after_return == before,
{
}

/// What is sent over Direct UDP is the message alone; on a stream it is the message behind its
/// length.
pub proof fn law_what_is_sent(transport: Transport, bytes: Seq<u8>, m: MessageView)
    requires
        delivers(transport, bytes, m),
    ensures
        transport is DirectUdp ==> bytes == message_bytes(m),
        transport is IrohP2p ==> bytes.skip(4) == message_bytes(m),
{
    if transport is IrohP2p {
        assert(bytes.skip(4) =~= message_bytes(m));
    }
}

/// A ping comes at least as often as a session without a sign of life lasts, and devices are looked
/// for more often than that.
pub proof fn law_intervals()
    ensures
        DEVICE_RETRY_SECS == 1,
        KEEPALIVE_SECS == 10,
        KEEPALIVE_TIMEOUT_SECS == 5,
        ACK_TIMEOUT_SECS == 4,
        KEEPALIVE_SECS * 1_000_000_000 <= SESSION_TIMEOUT,
{
}

/// The user is told what the server or the network gave as the reason, word for word.
pub proof fn law_reasons_are_told(reason: String)
    ensures
        ClientError::Rejected(reason).text() == "Server rejected connection: "@ + reason@,
        ClientError::NoAck(reason).text() == "Error receiving HandshakeAck: "@ + reason@,
        ClientError::ReceiveFailed(reason).text() == reason@,
{
}

} // verus!

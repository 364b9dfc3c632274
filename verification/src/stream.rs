//! The server's side of an Iroh connection: the handshake, and the messages that follow it.

use vstd::prelude::*;

use crate::ack;
use crate::ack::{approved_ack, pending_ack, rejected_ack, waits};
use crate::frame::{frames, write_frame};
use crate::protocol::{EventWire, HandshakePayload, Message, MessageView};
use crate::table::Table;
use crate::trust::{TrustManager, TrustView};

verus! {

/// How long a connection stays open behind the answer to a client that waits for approval, in
/// milliseconds.
pub const PENDING_LINGER_MILLIS: u64 = 1000;

/// How long a connection stays open behind the answer that no device could be created, in
/// milliseconds.
pub const REJECTED_LINGER_MILLIS: u64 = 500;

/// What is to be done about the first message of a connection.
pub enum Greeting<D> {
    /// Send this frame, and take the next message as the first: the client keeps the connection
    /// open while it waits for its device.
    Answer(Vec<u8>),
    /// Close the connection: the message is neither a handshake nor a ping.
    Unexpected(Message),
    /// Store the trust data, send this frame to a client that waits for approval, and close the
    /// connection.
    Pending(Vec<u8>),
    /// Create a device for an approved client, and report the outcome. The client's earlier
    /// device, where there was one, is to be dropped first.
    Create { payload: HandshakePayload, replaced: Option<D> },
}

/// What is to be done about a later message.
pub enum Step {
    /// Nothing.
    Ignore,
    /// Send this frame.
    Send(Vec<u8>),
    /// Replay the events on the client's device.
    Emit(Vec<EventWire>),
    /// Close the connection.
    Close,
}

/// The devices of the connected clients, by client ID. `D` is the type of the devices.
#[verifier::reject_recursive_types(D)]
pub struct ActiveSessions<D> {
    devices: Table<String, D>,
}

impl<D> View for ActiveSessions<D> {
    type V = Map<Seq<char>, D>;

    closed spec fn view(&self) -> Map<Seq<char>, D> {
        self.devices@
    }
}

/// What the server knows: the devices of the connected clients, and the clients.
pub struct StreamState<D> {
    pub devices: Map<Seq<char>, D>,
    pub trust: TrustView,
}

/// The device kept under an ID.
pub open spec fn device_of<D>(devices: Map<Seq<char>, D>, id: Seq<char>) -> Option<D> {
    if devices.dom().contains(id) {
        Some(devices[id])
    } else {
        None
    }
}

/// `action` and the state `after` are what the first message `msg` of a connection gives in the
/// state `before`, on the host `hostname`.
pub open spec fn greets<D>(
    before: StreamState<D>,
    hostname: Seq<char>,
    msg: Message,
    action: Greeting<D>,
    after: StreamState<D>,
) -> bool {
    match msg {
        Message::Handshake(p) => if before.trust.approved.dom().contains(p.client_id@) {
            &&& action == (Greeting::Create {
                payload: p,
                replaced: device_of(before.devices, p.client_id@),
            })
            &&& after.devices == before.devices.remove(p.client_id@)
            &&& after.trust == before.trust
        } else {
            &&& action matches Greeting::Pending(frame) && frames(frame@, pending_ack(hostname, p.client_id@))
            &&& after.devices == before.devices
            &&& waits(before.trust, p, "Iroh P2P"@, after.trust)
        },
        Message::Ping => {
            &&& action matches Greeting::Answer(frame) && frames(frame@, MessageView::Pong)
            &&& after == before
        },
        _ => action == Greeting::<D>::Unexpected(msg) && after == before,
    }
}

/// What a later message of the client `id` gives. `read` is `None` where none could be read.
pub open spec fn steps<D>(
    devices: Map<Seq<char>, D>,
    id: Seq<char>,
    read: Option<Message>,
    step: Step,
) -> bool {
    match read {
        None => step == Step::Close,
        Some(Message::Events(events)) => if devices.dom().contains(id) {
            step == Step::Emit(events)
        } else {
            step == Step::Close
        },
        Some(Message::Ping) => step matches Step::Send(frame) && frames(frame@, MessageView::Pong),
        Some(_) => step == Step::Ignore,
    }
}

/// The message as it is written to a stream.
fn frame_of(msg: &Message) -> (r: Vec<u8>)
    ensures
        frames(r@, msg@),
{
    match write_frame(msg) {
        Ok(bytes) => bytes,
        Err(_) => Vec::new(),
    }
}

impl<D> ActiveSessions<D> {
    /// No client is connected.
    pub fn new() -> (r: Self)
        ensures
            r@ == Map::<Seq<char>, D>::empty(),
    {
        ActiveSessions { devices: Table::new() }
    }

    /// Handles the first message of a connection.
    pub fn on_first_message(&mut self, trust: &mut TrustManager, hostname: &str, msg: Message) -> (r:
        Greeting<D>)
        ensures
            greets(
                (StreamState { devices: old(self)@, trust: old(trust)@ }),
                hostname@,
                msg,
                r,
                (StreamState { devices: final(self)@, trust: final(trust)@ }),
            ),
            final(trust).location() == old(trust).location(),
    {
        match msg {
            Message::Handshake(p) => {
                if !trust.is_approved(&p.client_id) {
                    return Greeting::Pending(frame_of(&ack::hold(trust, hostname, p, "Iroh P2P")));
                }
                let replaced = self.devices.remove(&p.client_id);
                Greeting::Create { payload: p, replaced }
            },
            Message::Ping => Greeting::Answer(frame_of(&Message::Pong)),
            other => Greeting::Unexpected(other),
        }
    }

    /// The frame that tells a client that its device was created.
    pub fn approved_frame(hostname: &str) -> (r: Vec<u8>)
        ensures
            frames(r@, approved_ack(hostname@)),
    {
        frame_of(&ack::approved(hostname))
    }

    /// The frame that tells a client that its device could not be created.
    pub fn rejected_frame(hostname: &str, error: &str) -> (r: Vec<u8>)
        ensures
            frames(r@, rejected_ack(hostname@, error@)),
    {
        frame_of(&ack::rejected(hostname, error))
    }

    /// Starts the session of a client that was told that its device was created.
    pub fn start(&mut self, client_id: String, device: D)
        ensures
            final(self)@ == old(self)@.insert(client_id@, device),
    {
        self.devices.insert(client_id, device);
    }

    /// Handles a later message of a client. `read` is `None` where none could be read.
    pub fn on_message(&self, client_id: &String, read: Option<Message>) -> (r: Step)
        ensures
            steps(self@, client_id@, read, r),
    {
        match read {
            None => Step::Close,
            Some(Message::Events(events)) => if self.devices.contains(client_id) {
                Step::Emit(events)
            } else {
                Step::Close
            },
            Some(Message::Ping) => Step::Send(frame_of(&Message::Pong)),
            Some(_) => Step::Ignore,
        }
    }

    /// The device of a client.
    pub fn device_mut(&mut self, client_id: &String) -> (r: Option<&mut D>)
        ensures
            match r {
                Some(d) => old(self)@.dom().contains(client_id@) && *d == old(self)@[client_id@]
                    && final(self)@ == old(self)@.insert(client_id@, *final(d)),
                None => !old(self)@.dom().contains(client_id@) && final(self)@ == old(self)@,
            },
    {
        self.devices.get_mut(client_id)
    }

    /// Ends the session of a client, and hands over its device.
    pub fn end(&mut self, client_id: &String) -> (r: Option<D>)
        ensures
            r == device_of(old(self)@, client_id@),
            final(self)@ == old(self)@.remove(client_id@),
    {
        self.devices.remove(client_id)
    }
}

/// Only an approved client gets a device; whoever is not approved changes no session, and no
/// first message changes who is approved.
pub proof fn law_device_needs_approval<D>(
    before: StreamState<D>,
    hostname: Seq<char>,
    msg: Message,
    action: Greeting<D>,
    after: StreamState<D>,
)
    requires
        greets(before, hostname, msg, action, after),
    ensures
        action matches Greeting::Create { payload, .. } ==> before.trust.approved.dom().contains(
            payload.client_id@,
        ),
        !(action is Create) ==> after.devices == before.devices,
        after.trust.approved == before.trust.approved,
{
}

/// Events are replayed only for a client that was approved when it shook hands: where no device
/// was kept for a client before a handshake, one is kept afterwards only if the handshake asked for
/// it to be created, and that takes an approval.
pub proof fn law_replay_needs_approval<D>(
    before: StreamState<D>,
    hostname: Seq<char>,
    p: HandshakePayload,
    action: Greeting<D>,
    after: StreamState<D>,
    devices: Map<Seq<char>, D>,
    id: Seq<char>,
    read: Option<Message>,
    step: Step,
)
    requires
        greets(before, hostname, Message::Handshake(p), action, after),
        forall|x: Seq<char>| #[trigger]
            devices.dom().contains(x) ==> after.devices.dom().contains(x) || (action is Create && x
                == p.client_id@),
        !before.devices.dom().contains(id),
        steps(devices, id, read, step),
        step is Emit,
    ensures
        before.trust.approved.dom().contains(id),
{
}

/// Pings before the handshake change nothing: the handshake that follows them is handled just as
/// if it had come first.
pub proof fn law_ping_before_handshake<D>(
    before: StreamState<D>,
    hostname: Seq<char>,
    answer: Greeting<D>,
    between: StreamState<D>,
    p: HandshakePayload,
    action: Greeting<D>,
    after: StreamState<D>,
)
    requires
        greets(before, hostname, Message::Ping, answer, between),
        greets(between, hostname, Message::Handshake(p), action, after),
    ensures
        answer matches Greeting::Answer(frame) && frames(frame@, MessageView::Pong),
        greets(before, hostname, Message::Handshake(p), action, after),
{
}

/// A client that connects again has its earlier device replaced at once: at most one device is
/// kept for it, and the devices of other clients are not touched.
pub proof fn law_reconnect_replaces<D>(
    before: StreamState<D>,
    hostname: Seq<char>,
    p: HandshakePayload,
    action: Greeting<D>,
    after: StreamState<D>,
    other: Seq<char>,
)
    requires
        before.trust.approved.dom().contains(p.client_id@),
        greets(before, hostname, Message::Handshake(p), action, after),
        other != p.client_id@,
    ensures
        action matches Greeting::Create { replaced, .. } && replaced == device_of(
            before.devices,
            p.client_id@,
        ),
        device_of(after.devices, p.client_id@) is None,
        device_of(after.devices, other) == device_of(before.devices, other),
{
}

/// Ending the session that was just started leaves the other sessions as they were.
pub proof fn law_end_undoes_start<D>(devices: Map<Seq<char>, D>, id: Seq<char>, device: D)
    requires
        !devices.dom().contains(id),
    ensures
        devices.insert(id, device).remove(id) == devices,
{
    assert(devices.insert(id, device).remove(id) =~= devices);
}

/// The first message of a connection that is a handshake has a device created exactly where the
/// client is approved, after the client's earlier device was taken away; else the client is told
/// to wait, and is pending with what it said of itself. Other clients are not touched.
pub proof fn law_what_a_first_handshake_does<D>(
    before: StreamState<D>,
    hostname: Seq<char>,
    p: HandshakePayload,
    action: Greeting<D>,
    after: StreamState<D>,
)
    requires
        greets(before, hostname, Message::Handshake(p), action, after),
    ensures
        after.trust.approved == before.trust.approved,
        before.trust.approved.dom().contains(p.client_id@) ==> {
            &&& action matches Greeting::Create { payload, replaced } && payload == p && (
            replaced is Some <==> before.devices.dom().contains(p.client_id@)) && (replaced matches Some(
                d,
            ) ==> d == before.devices[p.client_id@])
            &&& after.trust.pending == before.trust.pending
            &&& !after.devices.dom().contains(p.client_id@)
        },
        !before.trust.approved.dom().contains(p.client_id@) ==> {
            let kept = after.trust.pending[p.client_id@];
            &&& action is Pending
            &&& after.devices == before.devices
            &&& after.trust.pending.dom() == before.trust.pending.dom().insert(p.client_id@)
            &&& kept.client_id == p.client_id
            &&& kept.hostname == p.client_hostname
            &&& kept.device_name == p.metadata.name
            &&& kept.transport@ == "Iroh P2P"@
        },
        forall|other: Seq<char>|
            other != p.client_id@ ==> #[trigger] after.devices.dom().contains(other)
                == before.devices.dom().contains(other),
        forall|other: Seq<char>| #[trigger]
            after.devices.dom().contains(other) ==> after.devices[other] == before.devices[other],
        forall|other: Seq<char>| #[trigger]
            before.trust.pending.dom().contains(other) && other != p.client_id@
                ==> after.trust.pending[other] == before.trust.pending[other],
{
    if !before.trust.approved.dom().contains(p.client_id@) {
        assert(after.trust.pending.dom() =~= before.trust.pending.dom().insert(p.client_id@));
    }
}

/// The first message of a connection that is neither a handshake nor a ping closes it, and changes
/// nothing.
pub proof fn law_other_first_messages_close<D>(
    before: StreamState<D>,
    hostname: Seq<char>,
    msg: Message,
    action: Greeting<D>,
    after: StreamState<D>,
)
    requires
        greets(before, hostname, msg, action, after),
        !(msg is Handshake),
    ensures
        after == before,
        action is Answer <==> msg is Ping,
        !(msg is Ping) ==> action == Greeting::<D>::Unexpected(msg),
{
}

/// Later events are replayed as they came, exactly while a device is kept for the client; without
/// one, and where nothing could be read, the connection closes; a ping is answered with a pong;
/// everything else is passed over.
pub proof fn law_what_later_messages_do<D>(
    devices: Map<Seq<char>, D>,
    id: Seq<char>,
    read: Option<Message>,
    step: Step,
)
    requires
        steps(devices, id, read, step),
    ensures
        read is None ==> step is Close,
        read matches Some(Message::Events(events)) ==> step == if devices.dom().contains(id) {
            Step::Emit(events)
        } else {
            Step::Close
        },
        read matches Some(Message::Ping) ==> (step matches Step::Send(frame) && frames(
            frame@,
            MessageView::Pong,
        )),
        read matches Some(msg) ==> (msg is Handshake || msg is HandshakeAck || msg is Pong
            ==> step is Ignore),
{
}

} // verus!

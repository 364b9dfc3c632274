//! What a client and a server do together.

use vstd::prelude::*;

use crate::ack::{approved_ack, pending_ack};
use crate::digits::hex_text;
use crate::forward::{
    advances, handshake, idle, in_phase, sends, ClientAction, ClientError, ClientEvent, Phase,
    SessionView,
};
use crate::frame::{frames, reads_frame, FrameError, MAX_FRAME_LEN};
use crate::keys::public_key_of;
use crate::protocol::{
    carries, event_fields, message_bytes, DeviceMetadata, EventWire, Message, MessageView,
};
use crate::stream::{greets, steps, Greeting, Step, StreamState};
use crate::transport::{
    law_node_text_is_read, node_of, reads_target, InvalidTarget, SocketAddress, TargetAddress,
    TargetView,
};
use crate::udp::{
    expires, handles, handles_datagram, has_session, is_fresh, refreshed, UdpAction, UdpState,
    SESSION_TIMEOUT,
};
use crate::wire::law_events_are_short;

verus! {

/// A datagram that carries a message is handled as that message.
proof fn lemma_message_in<D>(
    before: UdpState<D>,
    hostname: Seq<char>,
    src: SocketAddress,
    datagram: Seq<u8>,
    m: MessageView,
    now: u64,
    action: UdpAction,
    after: UdpState<D>,
) -> (msg: Message)
    requires
        carries(datagram, m),
        handles_datagram(before, hostname, src, datagram, now, action, after),
    ensures
        msg@ == m,
        handles(before, hostname, src, msg, now, action, after),
{
    choose|msg: Message|
        msg@ == m && #[trigger] handles(before, hostname, src, msg, now, action, after)
}

/// A client that connects for the first time is not served: it is entered among the pending
/// clients, under its ID and with its host name and its device, and no session is made.
pub proof fn law_first_connection_is_pending<D>(
    client: SessionView,
    metadata: DeviceMetadata,
    datagram: Seq<u8>,
    before: UdpState<D>,
    hostname: Seq<char>,
    src: SocketAddress,
    now: u64,
    action: UdpAction,
    after: UdpState<D>,
)
    requires
        carries(datagram, handshake(client, metadata)),
        !before.trust.approved.dom().contains(client.client_id),
        handles_datagram(before, hostname, src, datagram, now, action, after),
    ensures
        action matches UdpAction::Pending(answer) && carries(
            answer@,
            pending_ack(hostname, client.client_id),
        ),
        after.trust.approved == before.trust.approved,
        after.trust.pending.dom().contains(client.client_id),
        after.trust.pending[client.client_id].client_id@ == client.client_id,
        after.trust.pending[client.client_id].hostname@ == client.hostname,
        after.trust.pending[client.client_id].device_name@ == metadata@.name,
        after.trust.pending[client.client_id].transport@ == "Direct UDP"@,
        after.sessions == before.sessions,
{
    let m = handshake(client, metadata);
    let msg = lemma_message_in(before, hostname, src, datagram, m, now, action, after);
    assert(msg is Handshake);
}

/// A client that was approved gets a device that is made of what it sent.
pub proof fn law_approved_client_is_served<D>(
    client: SessionView,
    metadata: DeviceMetadata,
    datagram: Seq<u8>,
    before: UdpState<D>,
    hostname: Seq<char>,
    src: SocketAddress,
    now: u64,
    action: UdpAction,
    after: UdpState<D>,
)
    requires
        carries(datagram, handshake(client, metadata)),
        before.trust.approved.dom().contains(client.client_id),
        handles_datagram(before, hostname, src, datagram, now, action, after),
    ensures
        action matches UdpAction::Create(p) && p.client_id@ == client.client_id && p.metadata@
            == metadata@,
        after == before,
{
    let m = handshake(client, metadata);
    let msg = lemma_message_in(before, hostname, src, datagram, m, now, action, after);
    assert(msg is Handshake);
}

/// An event of a client with a session is replayed on the server as it was read on the client.
pub proof fn law_event_is_replayed<D>(
    client: SessionView,
    input: EventWire,
    sent: Result<ClientAction, ClientError>,
    still: SessionView,
    before: UdpState<D>,
    hostname: Seq<char>,
    src: SocketAddress,
    now: u64,
    action: UdpAction,
    after: UdpState<D>,
)
    requires
        client.transport is DirectUdp,
        client.phase is Streaming,
        advances(client, ClientEvent::Input(input), sent, still),
        has_session(before, src),
        sent matches Ok(ClientAction::Send(datagram)) && handles_datagram(
            before,
            hostname,
            src,
            datagram@,
            now,
            action,
            after,
        ),
    ensures
        action matches UdpAction::Emit(events) && events@ == seq![input],
        after.sessions[src].last_seen == now,
        after.sessions[src].device == before.sessions[src].device,
{
    let datagram = sent->Ok_0->Send_0@;
    let m = MessageView::Events(seq![input]);
    let msg = lemma_message_in(before, hostname, src, datagram, m, now, action, after);
    assert(msg is Events);
}

/// Over a stream too, a client that connects for the first time is not served but entered among
/// the pending clients.
pub proof fn law_first_stream_is_pending<D>(
    client: SessionView,
    metadata: DeviceMetadata,
    sent: Seq<u8>,
    rest: Seq<u8>,
    msg: Message,
    n: usize,
    before: StreamState<D>,
    hostname: Seq<char>,
    action: Greeting<D>,
    after: StreamState<D>,
)
    requires
        frames(sent, handshake(client, metadata)),
        message_bytes(handshake(client, metadata)).len() <= MAX_FRAME_LEN,
        reads_frame(Ok((msg, n)), sent + rest),
        !before.trust.approved.dom().contains(client.client_id),
        greets(before, hostname, msg, action, after),
    ensures
        action matches Greeting::Pending(answer) && frames(
            answer@,
            pending_ack(hostname, client.client_id),
        ),
        after.trust.approved == before.trust.approved,
        after.trust.pending.dom().contains(client.client_id),
        after.trust.pending[client.client_id].hostname@ == client.hostname,
        after.trust.pending[client.client_id].device_name@ == metadata@.name,
        after.trust.pending[client.client_id].transport@ == "Iroh P2P"@,
        after.devices == before.devices,
{
    let got: Result<(Message, usize), FrameError> = Ok((msg, n));
    assert(reads_frame(got, sent + rest));
    assert(msg is Handshake);
}

/// Over a stream too, a client that was approved gets a device that is made of what it sent.
pub proof fn law_approved_stream_is_served<D>(
    client: SessionView,
    metadata: DeviceMetadata,
    sent: Seq<u8>,
    rest: Seq<u8>,
    msg: Message,
    n: usize,
    before: StreamState<D>,
    hostname: Seq<char>,
    action: Greeting<D>,
    after: StreamState<D>,
)
    requires
        frames(sent, handshake(client, metadata)),
        message_bytes(handshake(client, metadata)).len() <= MAX_FRAME_LEN,
        reads_frame(Ok((msg, n)), sent + rest),
        before.trust.approved.dom().contains(client.client_id),
        greets(before, hostname, msg, action, after),
    ensures
        action matches Greeting::Create { payload, .. } && payload.client_id@ == client.client_id
            && payload.metadata@ == metadata@,
        after.trust == before.trust,
{
    let got: Result<(Message, usize), FrameError> = Ok((msg, n));
    assert(reads_frame(got, sent + rest));
    assert(msg is Handshake);
}

/// Over a stream too, an event of a client with a device is replayed as it was read, and what
/// follows it on the stream is left for the next read.
pub proof fn law_streamed_event_is_replayed<D>(
    client: SessionView,
    input: EventWire,
    sent: Result<ClientAction, ClientError>,
    still: SessionView,
    rest: Seq<u8>,
    msg: Message,
    n: usize,
    devices: Map<Seq<char>, D>,
    step: Step,
)
    requires
        client.transport is IrohP2p,
        client.phase is Streaming,
        advances(client, ClientEvent::Input(input), sent, still),
        sent matches Ok(ClientAction::Send(frame)) && reads_frame(Ok((msg, n)), frame@ + rest),
        devices.dom().contains(client.client_id),
        steps(devices, client.client_id, Some(msg), step),
    ensures
        step matches Step::Emit(events) && events@ == seq![input],
        sent matches Ok(ClientAction::Send(frame)) && (frame@ + rest).skip(n as int) == rest,
{
    let frame = sent->Ok_0->Send_0@;
    law_events_are_short(seq![input].map_values(|e: EventWire| event_fields(e)));
    let got: Result<(Message, usize), FrameError> = Ok((msg, n));
    assert(reads_frame(got, frame + rest));
    assert(msg is Events);
    assert((frame + rest).skip(frame.len() as int) =~= rest);
}

/// The answer to a client that waits for approval ends the client's connection with a text that
/// names the command to approve it.
pub proof fn law_pending_answer_names_command(
    client: SessionView,
    hostname: Seq<char>,
    msg: Message,
    r: Result<ClientAction, ClientError>,
    after: SessionView,
)
    requires
        client.phase is AwaitingAck,
        msg@ == pending_ack(hostname, client.client_id),
        advances(client, ClientEvent::Received(Some(msg)), r, after),
    ensures
        r matches Err(ClientError::Pending(text)) && text@
            == "Connection pending authorization on server. Run 'joycast server approve "@
            + client.client_id + "' to authorize."@,
        after == client,
{
}

/// The answer to a client that is admitted has the server entered into the client's history, and
/// forwarding starts.
pub proof fn law_approved_answer_starts_forwarding(
    client: SessionView,
    hostname: Seq<char>,
    msg: Message,
    r: Result<ClientAction, ClientError>,
    after: SessionView,
)
    requires
        client.phase is AwaitingAck,
        msg@ == approved_ack(hostname),
        advances(client, ClientEvent::Received(Some(msg)), r, after),
    ensures
        r matches Ok(ClientAction::Record { server_hostname, target, .. }) && server_hostname@
            == hostname && target@ == client.target,
        after == in_phase(client, Phase::Streaming),
{
}

/// A ping of a client is answered with a pong, whether or not the client is known. It counts as a
/// sign of life of an approved client with a session, and changes nothing else.
pub proof fn law_ping_is_answered<D>(
    client: SessionView,
    ping: Result<ClientAction, ClientError>,
    before: UdpState<D>,
    hostname: Seq<char>,
    src: SocketAddress,
    now: u64,
    action: UdpAction,
    after: UdpState<D>,
)
    requires
        client.transport is DirectUdp,
        sends(client.transport, ping, MessageView::Ping),
        ping matches Ok(ClientAction::Send(datagram)) && handles_datagram(
            before,
            hostname,
            src,
            datagram@,
            now,
            action,
            after,
        ),
    ensures
        action matches UdpAction::Reply(answer) && carries(answer@, MessageView::Pong),
        after.trust == before.trust,
        after.sessions == if has_session(before, src) {
            refreshed(before.sessions, src, now)
        } else {
            before.sessions
        },
{
    let datagram = ping->Ok_0->Send_0@;
    let m = MessageView::Ping;
    let msg = lemma_message_in(before, hostname, src, datagram, m, now, action, after);
    assert(msg is Ping);
}

/// A client whose device is gone keeps its session by its pings: when the device is back, its
/// events are replayed on the same virtual device as before.
pub proof fn law_session_outlives_device<D>(
    client: SessionView,
    ping: Result<ClientAction, ClientError>,
    still: SessionView,
    before: UdpState<D>,
    hostname: Seq<char>,
    src: SocketAddress,
    pinged: u64,
    answer: UdpAction,
    between: UdpState<D>,
    looked: u64,
    ended: Seq<SocketAddress>,
    kept: UdpState<D>,
    back: Result<ClientAction, ClientError>,
    again: SessionView,
    input: EventWire,
    sent: Result<ClientAction, ClientError>,
    on: SessionView,
    now: u64,
    action: UdpAction,
    after: UdpState<D>,
)
    requires
        client.transport is DirectUdp,
        client.phase is Reconnecting,
        has_session(before, src),
        advances(client, ClientEvent::KeepaliveDue, ping, still),
        ping matches Ok(ClientAction::Send(datagram)) && handles_datagram(
            before,
            hostname,
            src,
            datagram@,
            pinged,
            answer,
            between,
        ),
        looked < pinged + SESSION_TIMEOUT,
        expires(between.sessions, looked, ended, kept.sessions),
        kept.trust == between.trust,
        advances(still, ClientEvent::DeviceReturned, back, again),
        advances(again, ClientEvent::Input(input), sent, on),
        sent matches Ok(ClientAction::Send(datagram)) && handles_datagram(
            kept,
            hostname,
            src,
            datagram@,
            now,
            action,
            after,
        ),
    ensures
        action matches UdpAction::Emit(events) && events@ == seq![input],
        after.sessions[src].device == before.sessions[src].device,
        has_session(after, src),
{
    law_ping_is_answered(client, ping, before, hostname, src, pinged, answer, between);
    assert(is_fresh(between.sessions[src], looked));
    assert(kept.sessions.dom().contains(src));
    law_event_is_replayed(again, input, sent, on, kept, hostname, src, now, action, after);
    let datagram = sent->Ok_0->Send_0@;
    let m = MessageView::Events(seq![input]);
    let msg = lemma_message_in(kept, hostname, src, datagram, m, now, action, after);
    assert(msg is Events);
}

/// A client that waits for its device keeps its stream open: the server answers its ping with a
/// pong, which the client takes, and both are as they were before the ping.
pub proof fn law_waiting_stream_stays_open<D>(
    client: SessionView,
    ping: Result<ClientAction, ClientError>,
    asked: SessionView,
    rest: Seq<u8>,
    msg: Message,
    n: usize,
    before: StreamState<D>,
    hostname: Seq<char>,
    action: Greeting<D>,
    after: StreamState<D>,
    behind: Seq<u8>,
    reply: Message,
    m: usize,
    taken: Result<ClientAction, ClientError>,
    waiting: SessionView,
)
    requires
        client.transport is IrohP2p,
        client.phase is WaitingForDevice,
        advances(client, ClientEvent::KeepaliveDue, ping, asked),
        ping matches Ok(ClientAction::Send(frame)) && reads_frame(Ok((msg, n)), frame@ + rest),
        greets(before, hostname, msg, action, after),
        action matches Greeting::Answer(frame) ==> reads_frame(Ok((reply, m)), frame@ + behind),
        advances(asked, ClientEvent::Received(Some(reply)), taken, waiting),
    ensures
        action is Answer,
        after == before,
        idle(taken),
        waiting == client,
{
    assert(message_bytes(MessageView::Ping).len() == 1);
    assert(message_bytes(MessageView::Pong).len() == 1);
    let frame = ping->Ok_0->Send_0@;
    let got: Result<(Message, usize), FrameError> = Ok((msg, n));
    assert(reads_frame(got, frame + rest));
    assert(msg is Ping);
    let back = action->Answer_0@;
    let read: Result<(Message, usize), FrameError> = Ok((reply, m));
    assert(reads_frame(read, back + behind));
    assert(reply is Pong);
}

/// The Node ID that a server prints is accepted by a client as the target that it names.
pub proof fn law_printed_node_id_is_accepted(
    secret: Seq<u8>,
    node: [u8; 32],
    r: Result<TargetAddress, InvalidTarget>,
)
    requires
        node@ == public_key_of(secret),
        node_of(hex_text(node@)) == Some(node@),
        reads_target(hex_text(node@), r),
    ensures
        r matches Ok(t) && t@ == TargetView::Iroh(public_key_of(secret)),
{
    law_node_text_is_read(node@);
}

} // verus!

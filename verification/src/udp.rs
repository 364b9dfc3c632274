//! The server's side of Direct UDP: the sessions of the clients, by the address they send from.

use vstd::prelude::*;

use crate::ack;
use crate::ack::{approved_ack, pending_ack, rejected_ack, waits};
use crate::protocol::{
    carries, reading, reads_as, EventWire, HandshakePayload, Message, MessageView, Reading,
    WireError,
};
use crate::table::Table;
use crate::transport::SocketAddress;
use crate::trust::{revoking, TrustManager, TrustView};

verus! {

/// How long a session lasts without events and pings, in nanoseconds.
pub const SESSION_TIMEOUT: u64 = 10_000_000_000;

/// How often sessions are looked through for those that are over, in seconds.
pub const SESSION_CHECK_SECS: u64 = 5;

/// A client that sends events, and the device on which they are replayed. Times are counted in
/// nanoseconds from a fixed moment.
pub struct UdpSession<D> {
    pub client_id: String,
    pub device: D,
    pub last_seen: u64,
}

/// What is to be done about a datagram.
pub enum UdpAction {
    /// Nothing.
    Nothing,
    /// Nothing: the datagram is not a message.
    Invalid(WireError),
    /// Create a device for an approved client, and report the outcome.
    Create(HandshakePayload),
    /// Store the trust data and send this answer to a client that waits for approval.
    Pending(Vec<u8>),
    /// Send this answer.
    Reply(Vec<u8>),
    /// Replay the events on the device of the session.
    Emit(Vec<EventWire>),
}

/// The session has not been silent for too long.
pub open spec fn is_fresh<D>(session: UdpSession<D>, now: u64) -> bool {
    now - session.last_seen < SESSION_TIMEOUT
}

/// What the server knows: the sessions by address, and the clients.
pub struct UdpState<D> {
    pub sessions: Map<SocketAddress, UdpSession<D>>,
    pub trust: TrustView,
}

/// The address has a session, and the client of the session is approved.
pub open spec fn has_session<D>(state: UdpState<D>, src: SocketAddress) -> bool {
    &&& state.sessions.dom().contains(src)
    &&& state.trust.approved.dom().contains(state.sessions[src].client_id@)
}

/// The sessions when the client at `src` was heard of at the time `now`.
pub open spec fn refreshed<D>(
    sessions: Map<SocketAddress, UdpSession<D>>,
    src: SocketAddress,
    now: u64,
) -> Map<SocketAddress, UdpSession<D>> {
    sessions.insert(src, UdpSession { last_seen: now, ..sessions[src] })
}

/// `action` and the state `after` are what the message `msg` from `src` gives in the state
/// `before`, on the host `hostname` at the time `now`.
pub open spec fn handles<D>(
    before: UdpState<D>,
    hostname: Seq<char>,
    src: SocketAddress,
    msg: Message,
    now: u64,
    action: UdpAction,
    after: UdpState<D>,
) -> bool {
    match msg {
        Message::Handshake(p) => if before.trust.approved.dom().contains(p.client_id@) {
            action == UdpAction::Create(p) && after == before
        } else {
            &&& action matches UdpAction::Pending(bytes) && carries(bytes@, pending_ack(hostname, p.client_id@))
            &&& after.sessions == before.sessions
            &&& waits(before.trust, p, "Direct UDP"@, after.trust)
        },
        Message::Events(events) => if has_session(before, src) {
            &&& action == UdpAction::Emit(events)
            &&& after.sessions == refreshed(before.sessions, src, now)
            &&& after.trust == before.trust
        } else {
            action == UdpAction::Nothing && after == before
        },
        Message::Ping => {
            &&& action matches UdpAction::Reply(bytes) && carries(bytes@, MessageView::Pong)
            &&& after.sessions == if has_session(before, src) {
                refreshed(before.sessions, src, now)
            } else {
                before.sessions
            }
            &&& after.trust == before.trust
        },
        _ => action == UdpAction::Nothing && after == before,
    }
}

/// `action` and the state `after` are what a datagram from `src` gives in the state `before`, on
/// the host `hostname` at the time `now`.
pub open spec fn handles_datagram<D>(
    before: UdpState<D>,
    hostname: Seq<char>,
    src: SocketAddress,
    datagram: Seq<u8>,
    now: u64,
    action: UdpAction,
    after: UdpState<D>,
) -> bool {
    match reading(datagram) {
        Reading::Message(m) => exists|msg: Message|
            msg@ == m && #[trigger] handles(before, hostname, src, msg, now, action, after),
        invalid => {
            &&& action matches UdpAction::Invalid(e) && reads_as(Err(e), invalid)
            &&& after == before
        },
    }
}

/// The sessions `after`, and the addresses `ended`, are what looking through the sessions
/// `before` at the time `now` gives: those that have not been silent for too long stay as they
/// are, the others end.
pub open spec fn expires<D>(
    before: Map<SocketAddress, UdpSession<D>>,
    now: u64,
    ended: Seq<SocketAddress>,
    after: Map<SocketAddress, UdpSession<D>>,
) -> bool {
    &&& forall|a: SocketAddress| #[trigger]
        after.dom().contains(a) <==> before.dom().contains(a) && is_fresh(before[a], now)
    &&& forall|a: SocketAddress| #[trigger] after.dom().contains(a) ==> after[a] == before[a]
    &&& forall|a: SocketAddress| #[trigger]
        ended.contains(a) <==> before.dom().contains(a) && !is_fresh(before[a], now)
    &&& ended.no_duplicates()
}

/// The server's side of Direct UDP. `D` is the type of the devices.
#[verifier::reject_recursive_types(D)]
pub struct UdpServer<D> {
    sessions: Table<SocketAddress, UdpSession<D>>,
}

impl<D> View for UdpServer<D> {
    type V = Map<SocketAddress, UdpSession<D>>;

    closed spec fn view(&self) -> Map<SocketAddress, UdpSession<D>> {
        self.sessions@
    }
}

impl<D> UdpServer<D> {
    /// A server without sessions.
    pub fn new() -> (r: Self)
        ensures
            r@ == Map::<SocketAddress, UdpSession<D>>::empty(),
    {
        UdpServer { sessions: Table::new() }
    }

    /// Handles a message.
    pub fn on_message(
        &mut self,
        trust: &mut TrustManager,
        hostname: &str,
        src: SocketAddress,
        msg: Message,
        now: u64,
    ) -> (r: UdpAction)
        ensures
            handles(
                (UdpState { sessions: old(self)@, trust: old(trust)@ }),
                hostname@,
                src,
                msg,
                now,
                r,
                (UdpState { sessions: final(self)@, trust: final(trust)@ }),
            ),
            final(trust).location() == old(trust).location(),
    {
        match msg {
            Message::Handshake(p) => {
                if trust.is_approved(&p.client_id) {
                    return UdpAction::Create(p);
                }
                match ack::hold(trust, hostname, p, "Direct UDP").encode() {
                    Ok(bytes) => UdpAction::Pending(bytes),
                    Err(_) => UdpAction::Nothing,
                }
            },
            Message::Events(events) => {
                if self.refresh(trust, src, now) {
                    UdpAction::Emit(events)
                } else {
                    UdpAction::Nothing
                }
            },
            Message::Ping => {
                self.refresh(trust, src, now);
                match Message::Pong.encode() {
                    Ok(bytes) => UdpAction::Reply(bytes),
                    Err(_) => UdpAction::Nothing,
                }
            },
            _ => UdpAction::Nothing,
        }
    }

    /// Notes that the client at `src` was heard of, where it is approved and has a session.
    /// Returns whether it is and has.
    fn refresh(&mut self, trust: &TrustManager, src: SocketAddress, now: u64) -> (r: bool)
        ensures
            r == has_session((UdpState { sessions: old(self)@, trust: trust@ }), src),
            final(self)@ == if r {
                refreshed(old(self)@, src, now)
            } else {
                old(self)@
            },
    {
        match self.sessions.get(&src) {
            Some(session) => {
                if !trust.is_approved(&session.client_id) {
                    return false;
                }
            },
            None => {
                return false;
            },
        }
        match self.sessions.get_mut(&src) {
            Some(session) => {
                session.last_seen = now;
            },
            None => {},
        }
        true
    }

    /// Handles a datagram.
    pub fn on_datagram(
        &mut self,
        trust: &mut TrustManager,
        hostname: &str,
        src: SocketAddress,
        datagram: &[u8],
        now: u64,
    ) -> (r: UdpAction)
        ensures
            handles_datagram(
                (UdpState { sessions: old(self)@, trust: old(trust)@ }),
                hostname@,
                src,
                datagram@,
                now,
                r,
                (UdpState { sessions: final(self)@, trust: final(trust)@ }),
            ),
            final(trust).location() == old(trust).location(),
    {
        match Message::decode(datagram) {
            Ok(msg) => self.on_message(trust, hostname, src, msg, now),
            Err(e) => UdpAction::Invalid(e),
        }
    }

    /// Starts the session of a client for which a device was created, and returns the answer.
    pub fn device_created(
        &mut self,
        hostname: &str,
        src: SocketAddress,
        client_id: String,
        device: D,
        now: u64,
    ) -> (r: Vec<u8>)
        ensures
            final(self)@ == old(self)@.insert(src, (UdpSession { client_id, device, last_seen: now })),
            carries(r@, approved_ack(hostname@)),
    {
        self.sessions.insert(src, UdpSession { client_id, device, last_seen: now });
        match ack::approved(hostname).encode() {
            Ok(bytes) => bytes,
            Err(_) => Vec::new(),
        }
    }

    /// The answer to a client for which no device could be created.
    pub fn device_failed(hostname: &str, error: &str) -> (r: Vec<u8>)
        ensures
            carries(r@, rejected_ack(hostname@, error@)),
    {
        match ack::rejected(hostname, error).encode() {
            Ok(bytes) => bytes,
            Err(_) => Vec::new(),
        }
    }

    /// The device of the session from `src`.
    pub fn device_mut(&mut self, src: SocketAddress) -> (r: Option<&mut D>)
        ensures
            match r {
                Some(d) => old(self)@.dom().contains(src) && *d == old(self)@[src].device
                    && final(self)@ == old(self)@.insert(
                    src,
                    (UdpSession { device: *final(d), ..old(self)@[src] }),
                ),
                None => !old(self)@.dom().contains(src) && final(self)@ == old(self)@,
            },
    {
        match self.sessions.get_mut(&src) {
            Some(session) => Some(&mut session.device),
            None => None,
        }
    }

    /// Ends the sessions that have been silent for too long, and returns their addresses.
    pub fn expire(&mut self, now: u64) -> (r: Vec<SocketAddress>)
        ensures
            expires(old(self)@, now, r@, final(self)@),
    {
        let ghost before = self@;
        let mut over: Vec<SocketAddress> = Vec::new();
        let keys = self.sessions.keys();
        let n: usize = keys.len();
        let mut i: usize = 0;
        while i < n
            invariant
                i <= n,
                n == keys@.len(),
                self.sessions@ == before,
                forall|a: int, b: int| 0 <= a < b < n ==> #[trigger] keys@[a]@ != #[trigger] keys@[b]@,
                forall|a: int| 0 <= a < n ==> before.dom().contains(#[trigger] keys@[a]@),
                forall|j: int|
                    0 <= j < over@.len() ==> before.dom().contains(#[trigger] over@[j]) && !is_fresh(
                        before[over@[j]],
                        now,
                    ) && exists|k: int| 0 <= k < i && #[trigger] keys@[k] == over@[j],
                forall|k: int|
                    0 <= k < i && !is_fresh(before[#[trigger] keys@[k]@], now) ==> over@.contains(
                        keys@[k],
                    ),
                over@.no_duplicates(),
            decreases n - i,
        {
            let key = keys[i];
            let ghost seen = over@;
            match self.sessions.get(&key) {
                Some(session) => {
                    if now.saturating_sub(session.last_seen) >= SESSION_TIMEOUT {
                        proof {
                            assert forall|j: int| 0 <= j < seen.len() implies seen[j] != key by {
                                assert(before.dom().contains(seen[j]));
                                let k = choose|k: int| 0 <= k < i && keys@[k] == seen[j];
                                assert(keys@[k]@ != keys@[i as int]@);
                            }
                        }
                        over.push(key);
                        proof {
                            assert(over@[seen.len() as int] == key);
                            assert forall|k: int|
                                0 <= k < i + 1 && !is_fresh(
                                    before[#[trigger] keys@[k]@],
                                    now,
                                ) implies over@.contains(keys@[k]) by {
                                if k < i {
                                    assert(seen.contains(keys@[k]));
                                    let j = choose|j: int| 0 <= j < seen.len() && seen[j] == keys@[k];
                                    assert(over@[j] == keys@[k]);
                                }
                            }
                            assert forall|j: int|
                                0 <= j < over@.len() implies before.dom().contains(
                                #[trigger] over@[j],
                            ) && !is_fresh(before[over@[j]], now) && exists|k: int|
                                0 <= k < i + 1 && #[trigger] keys@[k] == over@[j] by {
                                if j < seen.len() {
                                    assert(over@[j] == seen[j]);
                                } else {
                                    assert(keys@[i as int] == over@[j]);
                                }
                            }
                        }
                    }
                },
                None => {},
            }
            i = i + 1;
        }
        proof {
            assert forall|a: SocketAddress| #[trigger]
                over@.contains(a) <==> before.dom().contains(a) && !is_fresh(before[a], now) by {
                if before.dom().contains(a) && !is_fresh(before[a], now) {
                    let k = choose|k: int| 0 <= k < n && #[trigger] keys@[k]@ == a;
                    assert(keys@[k]@ == a);
                    assert(over@.contains(keys@[k]));
                }
            }
        }
        let m: usize = over.len();
        for i in 0..m
            invariant
                m == over@.len(),
                over@.no_duplicates(),
                forall|j: int| 0 <= j < m ==> before.dom().contains(#[trigger] over@[j]),
                forall|a: SocketAddress| #[trigger]
                    self.sessions@.dom().contains(a) <==> before.dom().contains(a) && !over@.take(
                        i as int,
                    ).contains(a),
                forall|a: SocketAddress| #[trigger]
                    self.sessions@.dom().contains(a) ==> self.sessions@[a] == before[a],
        {
            let ghost mid = self.sessions@;
            self.sessions.remove(&over[i]);
            proof {
                let next = over@.take(i + 1);
                assert forall|a: SocketAddress| #[trigger]
                    self.sessions@.dom().contains(a) <==> before.dom().contains(a)
                        && !next.contains(a) by {
                    let now_done = over@.take(i as int);
                    if next.contains(a) {
                        let j = choose|j: int| 0 <= j < next.len() && next[j] == a;
                        if j < i {
                            assert(now_done[j] == a);
                        }
                    }
                    if now_done.contains(a) {
                        let j = choose|j: int| 0 <= j < now_done.len() && now_done[j] == a;
                        assert(next[j] == a);
                    }
                    if a == over@[i as int] {
                        assert(next[i as int] == a);
                    }
                    assert(mid.dom().contains(a) <==> before.dom().contains(a)
                        && !now_done.contains(a));
                }
                assert forall|a: SocketAddress| #[trigger]
                    self.sessions@.dom().contains(a) implies self.sessions@[a] == before[a] by {
                    assert(mid.dom().contains(a));
                }
            }
        }
        assert(over@.take(m as int) =~= over@);
        over
    }
}

/// Only approved clients get a device, and only their events are replayed; no message changes
/// who is approved.
pub proof fn law_access_needs_approval<D>(
    before: UdpState<D>,
    hostname: Seq<char>,
    src: SocketAddress,
    msg: Message,
    now: u64,
    action: UdpAction,
    after: UdpState<D>,
)
    requires
        handles(before, hostname, src, msg, now, action, after),
    ensures
        action matches UdpAction::Create(p) ==> before.trust.approved.dom().contains(p.client_id@),
        action is Emit ==> before.sessions.dom().contains(src)
            && before.trust.approved.dom().contains(before.sessions[src].client_id@),
        after.trust.approved == before.trust.approved,
        after.sessions.dom() =~= before.sessions.dom(),
{
}

/// Events of a client whose approval was revoked are dropped, though its session goes on.
pub proof fn law_revoked_client_is_ignored<D>(
    before: UdpState<D>,
    hostname: Seq<char>,
    src: SocketAddress,
    events: Vec<EventWire>,
    now: u64,
    action: UdpAction,
    after: UdpState<D>,
)
    requires
        before.sessions.dom().contains(src),
        handles(
            (UdpState {
                sessions: before.sessions,
                trust: revoking(before.trust, before.sessions[src].client_id@),
            }),
            hostname,
            src,
            Message::Events(events),
            now,
            action,
            after,
        ),
    ensures
        action == UdpAction::Nothing,
        after.sessions == before.sessions,
{
}

/// A session whose client sent events within the timeout does not end.
pub proof fn law_events_keep_session<D>(
    before: UdpState<D>,
    hostname: Seq<char>,
    src: SocketAddress,
    events: Vec<EventWire>,
    sent: u64,
    action: UdpAction,
    between: UdpState<D>,
    now: u64,
    ended: Seq<SocketAddress>,
    after: Map<SocketAddress, UdpSession<D>>,
)
    requires
        has_session(before, src),
        handles(before, hostname, src, Message::Events(events), sent, action, between),
        now < sent + SESSION_TIMEOUT,
        expires(between.sessions, now, ended, after),
    ensures
        after.dom().contains(src),
        after[src].device == before.sessions[src].device,
        !ended.contains(src),
{
    assert(is_fresh(between.sessions[src], now));
    assert(after.dom().contains(src));
}

/// A session whose client sent a ping within the timeout does not end, though no events come.
pub proof fn law_ping_keeps_session<D>(
    before: UdpState<D>,
    hostname: Seq<char>,
    src: SocketAddress,
    sent: u64,
    action: UdpAction,
    between: UdpState<D>,
    now: u64,
    ended: Seq<SocketAddress>,
    after: Map<SocketAddress, UdpSession<D>>,
)
    requires
        has_session(before, src),
        handles(before, hostname, src, Message::Ping, sent, action, between),
        now < sent + SESSION_TIMEOUT,
        expires(between.sessions, now, ended, after),
    ensures
        action matches UdpAction::Reply(answer) && carries(answer@, MessageView::Pong),
        has_session((UdpState { sessions: after, trust: between.trust }), src),
        after[src].device == before.sessions[src].device,
        !ended.contains(src),
{
    assert(is_fresh(between.sessions[src], now));
    assert(after.dom().contains(src));
}

/// A session whose client was silent for the timeout ends, and the others stay.
pub proof fn law_silence_ends_session<D>(
    before: Map<SocketAddress, UdpSession<D>>,
    src: SocketAddress,
    other: SocketAddress,
    now: u64,
    ended: Seq<SocketAddress>,
    after: Map<SocketAddress, UdpSession<D>>,
)
    requires
        before.dom().contains(src),
        now >= before[src].last_seen + SESSION_TIMEOUT,
        before.dom().contains(other),
        now < before[other].last_seen + SESSION_TIMEOUT,
        expires(before, now, ended, after),
    ensures
        !after.dom().contains(src),
        ended.contains(src),
        after.dom().contains(other),
        after[other] == before[other],
{
    assert(!is_fresh(before[src], now));
    assert(is_fresh(before[other], now));
    assert(after.dom().contains(other));
}

/// A session lasts for ten seconds after the last sign of life, and no longer.
pub proof fn law_session_lasts_ten_seconds<D>(session: UdpSession<D>, now: u64)
    ensures
        is_fresh(session, now) <==> now < session.last_seen + 10_000_000_000,
{
}

/// A handshake changes no session. It has a device created exactly where the client is approved;
/// else the client is told to wait, and is pending with what it said of itself.
pub proof fn law_what_a_handshake_does<D>(
    before: UdpState<D>,
    hostname: Seq<char>,
    src: SocketAddress,
    p: HandshakePayload,
    now: u64,
    action: UdpAction,
    after: UdpState<D>,
)
    requires
        handles(before, hostname, src, Message::Handshake(p), now, action, after),
    ensures
        after.sessions == before.sessions,
        after.trust.approved == before.trust.approved,
        before.trust.approved.dom().contains(p.client_id@) ==> action == UdpAction::Create(p)
            && after.trust.pending == before.trust.pending,
        !before.trust.approved.dom().contains(p.client_id@) ==> {
            let kept = after.trust.pending[p.client_id@];
            &&& action is Pending
            &&& after.trust.pending.dom() == before.trust.pending.dom().insert(p.client_id@)
            &&& kept.client_id == p.client_id
            &&& kept.hostname == p.client_hostname
            &&& kept.device_name == p.metadata.name
            &&& kept.transport@ == "Direct UDP"@
        },
        forall|other: Seq<char>| #[trigger]
            before.trust.pending.dom().contains(other) && other != p.client_id@
                ==> after.trust.pending[other] == before.trust.pending[other],
{
    if !before.trust.approved.dom().contains(p.client_id@) {
        assert(after.trust.pending.dom() =~= before.trust.pending.dom().insert(p.client_id@));
    }
}

/// Events are replayed as they came, exactly where the address has a session and the client of the
/// session is approved. That is a sign of life of this session; no other session, and nothing of
/// who is trusted, changes.
pub proof fn law_what_events_do<D>(
    before: UdpState<D>,
    hostname: Seq<char>,
    src: SocketAddress,
    events: Vec<EventWire>,
    now: u64,
    action: UdpAction,
    after: UdpState<D>,
)
    requires
        handles(before, hostname, src, Message::Events(events), now, action, after),
    ensures
        ({
            let heard = before.sessions.dom().contains(src) && before.trust.approved.dom().contains(
                before.sessions[src].client_id@,
            );
            &&& heard ==> action == UdpAction::Emit(events) && after.sessions[src].last_seen == now
            &&& !heard ==> action == UdpAction::Nothing && after.sessions == before.sessions
        }),
        after.trust == before.trust,
        after.sessions.dom() == before.sessions.dom(),
        forall|other: SocketAddress| #[trigger]
            before.sessions.dom().contains(other) && other != src ==> after.sessions[other]
                == before.sessions[other],
        before.sessions.dom().contains(src) ==> after.sessions[src].client_id
            == before.sessions[src].client_id && after.sessions[src].device
            == before.sessions[src].device,
{
    assert(after.sessions.dom() =~= before.sessions.dom());
}

/// A ping is a sign of life of the session at its address where the client of the session is
/// approved, and changes nothing else; and messages that only a server sends change nothing.
pub proof fn law_what_other_messages_do<D>(
    before: UdpState<D>,
    hostname: Seq<char>,
    src: SocketAddress,
    msg: Message,
    now: u64,
    action: UdpAction,
    after: UdpState<D>,
)
    requires
        handles(before, hostname, src, msg, now, action, after),
        !(msg is Handshake) && !(msg is Events),
    ensures
        msg is Ping <==> action is Reply,
        !(msg is Ping) ==> action is Nothing && after == before,
        after.trust == before.trust,
        after.sessions.dom() == before.sessions.dom(),
        forall|other: SocketAddress| #[trigger]
            before.sessions.dom().contains(other) && other != src ==> after.sessions[other]
                == before.sessions[other],
        before.sessions.dom().contains(src) ==> {
            let old_session = before.sessions[src];
            let new_session = after.sessions[src];
            &&& new_session.client_id == old_session.client_id
            &&& new_session.device == old_session.device
            &&& new_session.last_seen == if msg is Ping && before.trust.approved.dom().contains(
                old_session.client_id@,
            ) {
                now
            } else {
                old_session.last_seen
            }
        },
{
    assert(after.sessions.dom() =~= before.sessions.dom());
}

/// A datagram that is no message changes nothing and has no answer.
pub proof fn law_invalid_datagram_changes_nothing<D>(
    before: UdpState<D>,
    hostname: Seq<char>,
    src: SocketAddress,
    datagram: Seq<u8>,
    now: u64,
    action: UdpAction,
    after: UdpState<D>,
)
    requires
        !(reading(datagram) is Message),
        handles_datagram(before, hostname, src, datagram, now, action, after),
    ensures
        action is Invalid,
        after == before,
{
}

} // verus!

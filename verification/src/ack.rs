//! How a server answers a handshake.

use vstd::prelude::*;

use crate::protocol::{AckStatus, HandshakePayload, Message, MessageView};
use crate::text::{has_part, joined, joined3};
use crate::trust::{registered, PendingClientInfo, TrustManager, TrustView};

verus! {

/// The answer to a client that is admitted.
pub open spec fn approved_ack(hostname: Seq<char>) -> MessageView {
    MessageView::HandshakeAck {
        status: AckStatus::Approved,
        server_hostname: hostname,
        message: "Connection authorized"@,
    }
}

/// The answer to a client that has to be approved first. It names the command that does so.
pub open spec fn pending_ack(hostname: Seq<char>, client_id: Seq<char>) -> MessageView {
    MessageView::HandshakeAck {
        status: AckStatus::PendingApproval,
        server_hostname: hostname,
        message: "Connection pending authorization on server. Run 'joycast server approve "@
            + client_id + "' to authorize."@,
    }
}

/// The answer to a client whose device could not be created.
pub open spec fn rejected_ack(hostname: Seq<char>, error: Seq<char>) -> MessageView {
    MessageView::HandshakeAck {
        status: AckStatus::Rejected,
        server_hostname: hostname,
        message: "Failed to create virtual device: "@ + error,
    }
}

/// The trust data after the handshake `p` of a client that is not approved.
pub open spec fn waits(
    before: TrustView,
    p: HandshakePayload,
    transport: Seq<char>,
    after: TrustView,
) -> bool {
    exists|info: PendingClientInfo|
        after == #[trigger] registered(before, info) && info.client_id == p.client_id
            && info.hostname == p.client_hostname && info.device_name == p.metadata.name
            && info.transport@ == transport
}

/// The answer to a client that is admitted.
pub fn approved(hostname: &str) -> (r: Message)
    ensures
        r@ == approved_ack(hostname@),
{
    Message::HandshakeAck {
        status: AckStatus::Approved,
        server_hostname: hostname.to_owned(),
        message: "Connection authorized".to_owned(),
    }
}

/// The answer to a client that has to be approved first.
pub fn pending(hostname: &str, client_id: &str) -> (r: Message)
    ensures
        r@ == pending_ack(hostname@, client_id@),
{
    Message::HandshakeAck {
        status: AckStatus::PendingApproval,
        server_hostname: hostname.to_owned(),
        message: joined3(
            "Connection pending authorization on server. Run 'joycast server approve ",
            client_id,
            "' to authorize.",
        ),
    }
}

/// Lets a client wait for approval, and returns the answer to it.
pub fn hold(trust: &mut TrustManager, hostname: &str, p: HandshakePayload, transport: &str) -> (r:
    Message)
    ensures
        r@ == pending_ack(hostname@, p.client_id@),
        waits(old(trust)@, p, transport@, final(trust)@),
        final(trust).location() == old(trust).location(),
{
    let answer = pending(hostname, &p.client_id);
    trust.register_pending(
        p.client_id,
        p.client_hostname,
        p.metadata.name,
        transport.to_owned(),
    );
    answer
}

/// The answer to a client whose device could not be created.
pub fn rejected(hostname: &str, error: &str) -> (r: Message)
    ensures
        r@ == rejected_ack(hostname@, error@),
{
    Message::HandshakeAck {
        status: AckStatus::Rejected,
        server_hostname: hostname.to_owned(),
        message: joined("Failed to create virtual device: ", error),
    }
}

/// The three answers differ in their status, name the server, and say what they are for: the one
/// to wait for names the client to approve, and the one of a failure gives its reason.
pub proof fn law_what_answers_say(hostname: Seq<char>, client_id: Seq<char>, error: Seq<char>)
    ensures
        approved_ack(hostname) matches MessageView::HandshakeAck { status, server_hostname, .. }
            && status is Approved && server_hostname == hostname,
        pending_ack(hostname, client_id) matches MessageView::HandshakeAck {
            status,
            server_hostname,
            message,
        } && status is PendingApproval && server_hostname == hostname && has_part(
            message,
            "joycast server approve "@ + client_id,
        ),
        rejected_ack(hostname, error) matches MessageView::HandshakeAck {
            status,
            server_hostname,
            message,
        } && status is Rejected && server_hostname == hostname && message.skip(
            message.len() - error.len(),
        ) == error,
{
    reveal_strlit("Connection pending authorization on server. Run 'joycast server approve ");
    reveal_strlit("joycast server approve ");
    let head = "Connection pending authorization on server. Run 'joycast server approve "@;
    let part = "joycast server approve "@ + client_id;
    let text = head + client_id + "' to authorize."@;
    let at = head.len() - "joycast server approve "@.len();
    assert(text.subrange(at, at + part.len()) =~= part);
    let told = "Failed to create virtual device: "@ + error;
    assert(told.skip(told.len() - error.len()) =~= error);
}

} // verus!

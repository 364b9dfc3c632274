//! Which clients may connect: the approved ones, and those that wait for approval.

use vstd::prelude::*;

use crate::clock;
use crate::surroundings::{text_in, Surroundings};
use crate::table::{lists_values, map_of_pairs, Duplicate, Table};
use crate::text::{has_prefix, in_order, join_path, joined3, path_below, starts_with, text_le, SortKey};

verus! {

/// Information about a client waiting for server authorization.
#[derive(Debug, PartialEq, Eq)]
pub struct PendingClientInfo {
    pub client_id: String,
    pub hostname: String,
    pub device_name: String,
    pub transport: String,
    pub first_seen: String,
}

/// Information about an approved, trusted client.
#[derive(Debug, PartialEq, Eq)]
pub struct ApprovedClientInfo {
    pub client_id: String,
    pub hostname: String,
    pub device_name: String,
    pub approved_at: String,
}

impl Clone for PendingClientInfo {
    fn clone(&self) -> (r: Self)
        ensures
            r == *self,
    {
        PendingClientInfo {
            client_id: self.client_id.clone(),
            hostname: self.hostname.clone(),
            device_name: self.device_name.clone(),
            transport: self.transport.clone(),
            first_seen: self.first_seen.clone(),
        }
    }
}

impl Clone for ApprovedClientInfo {
    fn clone(&self) -> (r: Self)
        ensures
            r == *self,
    {
        ApprovedClientInfo {
            client_id: self.client_id.clone(),
            hostname: self.hostname.clone(),
            device_name: self.device_name.clone(),
            approved_at: self.approved_at.clone(),
        }
    }
}

impl Duplicate for PendingClientInfo {
    fn duplicate(&self) -> (r: Self) {
        self.clone()
    }
}

impl Duplicate for ApprovedClientInfo {
    fn duplicate(&self) -> (r: Self) {
        self.clone()
    }
}

impl SortKey for PendingClientInfo {
    open spec fn sort_key(&self) -> Seq<char> {
        self.first_seen@
    }

    fn sort_text(&self) -> (r: &str) {
        self.first_seen.as_str()
    }
}

impl SortKey for ApprovedClientInfo {
    open spec fn sort_key(&self) -> Seq<char> {
        self.approved_at@
    }

    fn sort_text(&self) -> (r: &str) {
        self.approved_at.as_str()
    }
}

/// The contents of a trust store: the clients by the ID under which they are kept.
#[derive(Debug)]
pub struct StoredTrust {
    pub approved: Vec<(String, ApprovedClientInfo)>,
    pub pending: Vec<(String, PendingClientInfo)>,
}

/// Why a client could not be approved or revoked.
#[derive(Debug, PartialEq, Eq)]
pub enum TrustError {
    /// No pending client has the ID, or one that begins with it.
    NoPendingClient(String),
    /// No approved client has the ID, or one that begins with it.
    NoApprovedClient(String),
}

impl TrustError {
    /// The text for the user.
    pub open spec fn text(&self) -> Seq<char> {
        match *self {
            TrustError::NoPendingClient(id) =>
                "No pending client request found matching ID or prefix '"@ + id@ + "'"@,
            TrustError::NoApprovedClient(id) =>
                "No approved client found matching ID or prefix '"@ + id@ + "'"@,
        }
    }

    /// The text for the user.
    pub fn message(&self) -> (r: String)
        ensures
            r@ == self.text(),
    {
        match self {
            TrustError::NoPendingClient(id) => joined3(
                "No pending client request found matching ID or prefix '",
                id,
                "'",
            ),
            TrustError::NoApprovedClient(id) => joined3(
                "No approved client found matching ID or prefix '",
                id,
                "'",
            ),
        }
    }
}

/// The clients that a [`TrustManager`] knows, by their ID.
pub struct TrustView {
    pub approved: Map<Seq<char>, ApprovedClientInfo>,
    pub pending: Map<Seq<char>, PendingClientInfo>,
}

/// What is kept of the request `info`: it takes the place of an earlier request of the client,
/// but for the time at which the client was first seen.
pub open spec fn latest_request(t: TrustView, info: PendingClientInfo) -> PendingClientInfo {
    if t.pending.dom().contains(info.client_id@) {
        PendingClientInfo { first_seen: t.pending[info.client_id@].first_seen, ..info }
    } else {
        info
    }
}

/// The state after the request `info`: it is kept as pending unless its client is approved.
pub open spec fn registered(t: TrustView, info: PendingClientInfo) -> TrustView {
    if t.approved.dom().contains(info.client_id@) {
        t
    } else {
        TrustView {
            approved: t.approved,
            pending: t.pending.insert(info.client_id@, latest_request(t, info)),
        }
    }
}

/// The IDs that a user may mean by `target`: the ID itself where it is known, else every known
/// ID that begins with it.
pub open spec fn is_meant<V>(known: Map<Seq<char>, V>, target: Seq<char>, id: Seq<char>) -> bool {
    if known.dom().contains(target) {
        id == target
    } else {
        known.dom().contains(id) && has_prefix(id, target)
    }
}

/// The record of the approval of a pending client.
pub open spec fn approval(p: PendingClientInfo, approved_at: String) -> ApprovedClientInfo {
    ApprovedClientInfo {
        client_id: p.client_id,
        hostname: p.hostname,
        device_name: p.device_name,
        approved_at,
    }
}

/// The state after the approval of the pending client kept under `id`.
pub open spec fn approving(t: TrustView, id: Seq<char>, approved_at: String) -> TrustView {
    TrustView {
        approved: t.approved.insert(id, approval(t.pending[id], approved_at)),
        pending: t.pending.remove(id),
    }
}

/// The state after the client kept under `id` lost its approval.
pub open spec fn revoking(t: TrustView, id: Seq<char>) -> TrustView {
    TrustView { approved: t.approved.remove(id), pending: t.pending }
}

/// `r` and the state `after` are what approving `target` in the state `before` may give.
pub open spec fn approves(
    before: TrustView,
    target: Seq<char>,
    approved_at: String,
    r: Result<ApprovedClientInfo, TrustError>,
    after: TrustView,
) -> bool {
    match r {
        Ok(info) => exists|id: Seq<char>| #[trigger]
            is_meant(before.pending, target, id) && info == approval(before.pending[id], approved_at)
                && after == approving(before, id, approved_at),
        Err(e) => {
            &&& forall|id: Seq<char>| #[trigger]
                before.pending.dom().contains(id) ==> !has_prefix(id, target)
            &&& e matches TrustError::NoPendingClient(t) && t@ == target
            &&& after == before
        },
    }
}

/// `r` and the state `after` are what revoking `target` in the state `before` may give.
pub open spec fn revokes(
    before: TrustView,
    target: Seq<char>,
    r: Result<bool, TrustError>,
    after: TrustView,
) -> bool {
    match r {
        Ok(done) => done && exists|id: Seq<char>| #[trigger]
            is_meant(before.approved, target, id) && after == revoking(before, id),
        Err(e) => {
            &&& forall|id: Seq<char>| #[trigger]
                before.approved.dom().contains(id) ==> !has_prefix(id, target)
            &&& e matches TrustError::NoApprovedClient(t) && t@ == target
            &&& after == before
        },
    }
}

/// No client is both approved and pending.
pub open spec fn separate(t: TrustView) -> bool {
    t.approved.dom().disjoint(t.pending.dom())
}

/// Every client is kept under its own ID.
pub open spec fn filed(t: TrustView) -> bool {
    &&& forall|id: Seq<char>| #[trigger]
        t.approved.dom().contains(id) ==> t.approved[id].client_id@ == id
    &&& forall|id: Seq<char>| #[trigger]
        t.pending.dom().contains(id) ==> t.pending[id].client_id@ == id
}

/// The directory of the trust store where none is given.
pub open spec fn trust_dir(s: &Surroundings) -> Seq<char> {
    match s.account() {
        Some(u) => "/home/"@ + u + "/.config/joycast"@,
        None => if s.user_is_root() || s.systemd_exec_pid {
            "/etc/joycast"@
        } else {
            match text_in(s.config_dir) {
                Some(dir) => path_below(dir, "joycast"@),
                None => "/etc/joycast"@,
            }
        },
    }
}

/// Security manager for tracking approved and pending clients.
pub struct TrustManager {
    store_path: String,
    approved: Table<String, ApprovedClientInfo>,
    pending: Table<String, PendingClientInfo>,
}

impl View for TrustManager {
    type V = TrustView;

    closed spec fn view(&self) -> TrustView {
        TrustView { approved: self.approved@, pending: self.pending@ }
    }
}

impl TrustManager {
    /// Where the trust store is kept.
    pub closed spec fn location(&self) -> Seq<char> {
        self.store_path@
    }

    /// The path of the trust store where none is given.
    pub fn default_store_path(s: &Surroundings) -> (r: String)
        ensures
            r@ == path_below(trust_dir(s), "trusted_clients.json"@),
    {
        let dir = match s.sudo_account() {
            Some(u) => joined3("/home/", u, "/.config/joycast"),
            None => if TrustManager::is_root_context(s) {
                "/etc/joycast".to_owned()
            } else {
                match &s.config_dir {
                    Some(dir) => join_path(dir, "joycast"),
                    None => "/etc/joycast".to_owned(),
                }
            },
        };
        join_path(&dir, "trusted_clients.json")
    }

    /// Whether the process runs as `root` or as a system service.
    pub fn is_root_context(s: &Surroundings) -> (r: bool)
        ensures
            r == (s.user_is_root() || s.systemd_exec_pid),
    {
        s.is_root_user() || s.systemd_exec_pid
    }

    /// The manager of the trust store at `store_path`, with what was stored there; where nothing
    /// could be read, no client is known.
    pub fn new(store_path: String, stored: Option<StoredTrust>) -> (r: Self)
        ensures
            r.location() == store_path@,
            match stored {
                Some(s) => r@ == (TrustView {
                    approved: map_of_pairs(s.approved@),
                    pending: map_of_pairs(s.pending@),
                }),
                None => r@ == (TrustView { approved: Map::empty(), pending: Map::empty() }),
            },
    {
        match stored {
            Some(s) => TrustManager {
                store_path,
                approved: Table::from_pairs(s.approved),
                pending: Table::from_pairs(s.pending),
            },
            None => TrustManager { store_path, approved: Table::new(), pending: Table::new() },
        }
    }

    /// Where the trust store is kept.
    pub fn store_path(&self) -> (r: &str)
        ensures
            r@ == self.location(),
    {
        self.store_path.as_str()
    }

    /// What is to be stored: a manager made of it knows the same clients.
    pub fn stored(&self) -> (r: StoredTrust)
        ensures
            map_of_pairs(r.approved@) == self@.approved,
            map_of_pairs(r.pending@) == self@.pending,
    {
        StoredTrust { approved: self.approved.pairs(), pending: self.pending.pairs() }
    }

    /// Check if a client ID is approved.
    pub fn is_approved(&self, client_id: &str) -> (r: bool)
        ensures
            r == self@.approved.dom().contains(client_id@),
    {
        self.approved.contains(&client_id.to_owned())
    }

    /// Registers a pending connection request that came at the time `first_seen`, unless an
    /// earlier request of the client is pending, whose time is then kept. Returns whether the
    /// request was kept, so that the store has to be written.
    pub fn register_pending_at(
        &mut self,
        client_id: String,
        hostname: String,
        device_name: String,
        transport: String,
        first_seen: String,
    ) -> (r: bool)
        ensures
            final(self)@ == registered(
                old(self)@,
                (PendingClientInfo { client_id, hostname, device_name, transport, first_seen }),
            ),
            final(self).location() == old(self).location(),
            r == !old(self)@.approved.dom().contains(client_id@),
    {
        if self.approved.contains(&client_id) {
            return false;
        }
        let first_seen = match self.pending.get(&client_id) {
            Some(earlier) => earlier.first_seen.clone(),
            None => first_seen,
        };
        let key = client_id.clone();
        let info = PendingClientInfo { client_id, hostname, device_name, transport, first_seen };
        self.pending.insert(key, info);
        true
    }

    /// Registers a pending connection request that comes now. Returns whether the request was
    /// kept, so that the store has to be written.
    pub fn register_pending(
        &mut self,
        client_id: String,
        hostname: String,
        device_name: String,
        transport: String,
    ) -> (r: bool)
        ensures
            exists|first_seen: String|
                final(self)@ == #[trigger] registered(
                    old(self)@,
                    (PendingClientInfo { client_id, hostname, device_name, transport, first_seen }),
                ),
            final(self).location() == old(self).location(),
            r == !old(self)@.approved.dom().contains(client_id@),
    {
        let first_seen = clock::now();
        self.register_pending_at(client_id, hostname, device_name, transport, first_seen)
    }

    /// Approves a pending client by client ID or prefix, with the time of the approval.
    pub fn approve_at(&mut self, target_id: &str, approved_at: String) -> (r: Result<
        ApprovedClientInfo,
        TrustError,
    >)
        ensures
            approves(old(self)@, target_id@, approved_at, r, final(self)@),
            final(self).location() == old(self).location(),
    {
        let id = match Self::meant(&self.pending, target_id) {
            Some(id) => id,
            None => {
                return Err(TrustError::NoPendingClient(target_id.to_owned()));
            },
        };
        match self.pending.remove(&id) {
            Some(p) => {
                let info = ApprovedClientInfo {
                    client_id: p.client_id,
                    hostname: p.hostname,
                    device_name: p.device_name,
                    approved_at,
                };
                let ghost key = id@;
                self.approved.insert(id, info.clone());
                assert(self@ == approving(old(self)@, key, approved_at));
                assert(is_meant(old(self)@.pending, target_id@, key));
                Ok(info)
            },
            None => Err(TrustError::NoPendingClient(target_id.to_owned())),
        }
    }

    /// Approve a pending client by client ID or prefix.
    pub fn approve(&mut self, target_id: &str) -> (r: Result<ApprovedClientInfo, TrustError>)
        ensures
            exists|approved_at: String| #[trigger]
                approves(old(self)@, target_id@, approved_at, r, final(self)@),
            final(self).location() == old(self).location(),
    {
        let approved_at = clock::now();
        self.approve_at(target_id, approved_at)
    }

    /// Revoke / un-trust an approved client by client ID or prefix.
    pub fn revoke(&mut self, target_id: &str) -> (r: Result<bool, TrustError>)
        ensures
            revokes(old(self)@, target_id@, r, final(self)@),
            final(self).location() == old(self).location(),
    {
        match Self::meant(&self.approved, target_id) {
            Some(id) => {
                self.approved.remove(&id);
                assert(is_meant(old(self)@.approved, target_id@, id@));
                Ok(true)
            },
            None => Err(TrustError::NoApprovedClient(target_id.to_owned())),
        }
    }

    /// An ID that a user may mean by `target_id`.
    fn meant<V>(known: &Table<String, V>, target_id: &str) -> (r: Option<String>)
        ensures
            match r {
                Some(id) => is_meant(known@, target_id@, id@) && known@.dom().contains(id@),
                None => forall|id: Seq<char>| #[trigger]
                    known@.dom().contains(id) ==> !has_prefix(id, target_id@),
            },
    {
        let exact = target_id.to_owned();
        if known.contains(&exact) {
            return Some(exact);
        }
        let ids = known.keys();
        let n: usize = ids.len();
        for i in 0..n
            invariant
                n == ids@.len(),
                !known@.dom().contains(target_id@),
                forall|j: int| 0 <= j < n ==> known@.dom().contains(#[trigger] ids@[j]@),
                forall|j: int| 0 <= j < i ==> !has_prefix(#[trigger] ids@[j]@, target_id@),
        {
            if starts_with(&ids[i], target_id) {
                return Some(ids[i].clone());
            }
        }
        None
    }

    /// List all clients waiting for authorization, in the order of their first request.
    pub fn list_pending(&self) -> (r: Vec<PendingClientInfo>)
        ensures
            lists_values(r@, self@.pending),
            in_order(r@),
    {
        self.pending.sorted_values()
    }

    /// List all approved clients, in the order of their approval.
    pub fn list_approved(&self) -> (r: Vec<ApprovedClientInfo>)
        ensures
            lists_values(r@, self@.approved),
            in_order(r@),
    {
        self.approved.sorted_values()
    }
}

/// A request never grants access: whoever was not approved before it is not approved after it,
/// and a client that was not approved waits for approval.
pub proof fn law_request_grants_nothing(t: TrustView, info: PendingClientInfo)
    ensures
        registered(t, info).approved == t.approved,
        !t.approved.dom().contains(info.client_id@) ==> registered(t, info).pending.dom().contains(
            info.client_id@,
        ) && registered(t, info).pending[info.client_id@] == latest_request(t, info),
{
}

/// However often a client asks, the time at which it was first seen stays.
pub proof fn law_first_seen_stays(
    t: TrustView,
    info: PendingClientInfo,
    again: PendingClientInfo,
)
    requires
        !t.approved.dom().contains(info.client_id@),
        again.client_id@ == info.client_id@,
    ensures
        registered(registered(t, info), again).pending[info.client_id@].first_seen == registered(
            t,
            info,
        ).pending[info.client_id@].first_seen,
        t.pending.dom().contains(info.client_id@) ==> registered(
            t,
            info,
        ).pending[info.client_id@].first_seen == t.pending[info.client_id@].first_seen,
{
}

/// Approval admits the client that was meant and no other, and the client no longer waits.
pub proof fn law_approval_admits_one(
    t: TrustView,
    target: Seq<char>,
    id: Seq<char>,
    approved_at: String,
    other: Seq<char>,
)
    requires
        is_meant(t.pending, target, id),
        other != id,
    ensures
        approving(t, id, approved_at).approved.dom().contains(id),
        !approving(t, id, approved_at).pending.dom().contains(id),
        approving(t, id, approved_at).approved.dom().contains(other)
            == t.approved.dom().contains(other),
        approving(t, id, approved_at).pending.dom().contains(other) == t.pending.dom().contains(
            other,
        ),
{
}

/// Revoking a client takes its approval away and changes nothing else.
pub proof fn law_revocation(t: TrustView, id: Seq<char>, other: Seq<char>)
    requires
        other != id,
    ensures
        !revoking(t, id).approved.dom().contains(id),
        revoking(t, id).approved.dom().contains(other) == t.approved.dom().contains(other),
        t.approved.dom().contains(other) ==> revoking(t, id).approved[other] == t.approved[other],
        revoking(t, id).pending == t.pending,
{
}

/// Revoking what was just approved leaves the approved clients as they were.
pub proof fn law_revoke_undoes_approve(t: TrustView, id: Seq<char>, approved_at: String)
    requires
        !t.approved.dom().contains(id),
    ensures
        revoking(approving(t, id, approved_at), id).approved == t.approved,
{
    assert(revoking(approving(t, id, approved_at), id).approved =~= t.approved);
}

/// No operation makes a client both approved and pending.
pub proof fn law_separate_is_kept(
    t: TrustView,
    info: PendingClientInfo,
    id: Seq<char>,
    approved_at: String,
)
    requires
        separate(t),
    ensures
        separate(registered(t, info)),
        separate(approving(t, id, approved_at)),
        separate(revoking(t, id)),
{
}

/// Where no client is known, every client is kept under its own ID, and every operation keeps it
/// so.
pub proof fn law_filed_is_kept(
    t: TrustView,
    info: PendingClientInfo,
    target: Seq<char>,
    approved_at: String,
    r: Result<ApprovedClientInfo, TrustError>,
    after: TrustView,
    id: Seq<char>,
)
    requires
        filed(t),
        approves(t, target, approved_at, r, after),
    ensures
        filed((TrustView { approved: Map::empty(), pending: Map::empty() })),
        filed(registered(t, info)),
        filed(after),
        filed(revoking(t, id)),
{
    if r is Ok {
        let meant = choose|id: Seq<char>| #[trigger]
            is_meant(t.pending, target, id) && r->Ok_0 == approval(t.pending[id], approved_at)
                && after == approving(t, id, approved_at);
        assert(t.pending.dom().contains(meant));
    }
}

/// No client occurs twice in a list.
pub proof fn law_listed_clients_differ(
    t: TrustView,
    pending: Seq<PendingClientInfo>,
    approved: Seq<ApprovedClientInfo>,
)
    requires
        filed(t),
        lists_values(pending, t.pending),
        lists_values(approved, t.approved),
    ensures
        forall|i: int, j: int|
            0 <= i < j < pending.len() ==> #[trigger] pending[i].client_id@
                != #[trigger] pending[j].client_id@,
        forall|i: int, j: int|
            0 <= i < j < approved.len() ==> #[trigger] approved[i].client_id@
                != #[trigger] approved[j].client_id@,
{
    let ids = choose|keys: Seq<Seq<char>>| #[trigger]
        keys.no_duplicates() && keys.to_set() == t.pending.dom() && pending.len() == keys.len() && (
        forall|i: int| 0 <= i < keys.len() ==> pending[i] == t.pending[#[trigger] keys[i]]);
    assert forall|i: int| 0 <= i < ids.len() implies #[trigger] pending[i].client_id@ == ids[i] by {
        assert(ids.to_set().contains(ids[i]));
        assert(t.pending.dom().contains(ids[i]));
    }
    let others = choose|keys: Seq<Seq<char>>| #[trigger]
        keys.no_duplicates() && keys.to_set() == t.approved.dom() && approved.len() == keys.len()
            && (forall|i: int|
            0 <= i < keys.len() ==> approved[i] == t.approved[#[trigger] keys[i]]);
    assert forall|i: int| 0 <= i < others.len() implies #[trigger] approved[i].client_id@
        == others[i] by {
        assert(others.to_set().contains(others[i]));
        assert(t.approved.dom().contains(others[i]));
    }
}

/// A pending client can be approved by its full ID even where the ID is also the beginning of
/// other pending IDs.
pub proof fn law_full_id_is_unambiguous(t: TrustView, target: Seq<char>, id: Seq<char>)
    requires
        t.pending.dom().contains(target),
        is_meant(t.pending, target, id),
    ensures
        id == target,
{
}

/// The text `id` begins with the text `target`, character by character.
pub open spec fn begins_with(id: Seq<char>, target: Seq<char>) -> bool {
    target.len() <= id.len() && forall|i: int| 0 <= i < target.len() ==> #[trigger] id[i] == target[i]
}

/// Approving by an ID or a prefix admits exactly one client, and one that was named: it was
/// pending, its ID begins with what the administrator gave, and what is known of it stays. Every
/// other client is approved and pending afterwards exactly as before.
pub proof fn law_approval_takes_the_named_client(
    before: TrustView,
    target: Seq<char>,
    approved_at: String,
    info: ApprovedClientInfo,
    after: TrustView,
) -> (id: Seq<char>)
    requires
        approves(before, target, approved_at, Ok(info), after),
    ensures
        filed(before) ==> info.client_id@ == id,
        info.client_id == before.pending[id].client_id,
        begins_with(id, target),
        before.pending.dom().contains(target) ==> id == target,
        before.pending.dom().contains(id),
        info.hostname == before.pending[id].hostname,
        info.device_name == before.pending[id].device_name,
        info.approved_at == approved_at,
        after.approved.dom() == before.approved.dom().insert(id),
        after.approved[id] == info,
        after.pending.dom() == before.pending.dom().remove(id),
        forall|other: Seq<char>| #[trigger]
            before.approved.dom().contains(other) && other != id ==> after.approved[other]
                == before.approved[other],
        forall|other: Seq<char>| #[trigger]
            after.pending.dom().contains(other) ==> after.pending[other] == before.pending[other],
        forall|other: Seq<char>|
            !begins_with(other, target) ==> #[trigger] after.approved.dom().contains(other)
                == before.approved.dom().contains(other),
        forall|other: Seq<char>|
            !begins_with(other, target) ==> #[trigger] after.pending.dom().contains(other)
                == before.pending.dom().contains(other),
{
    let id = choose|id: Seq<char>| #[trigger]
        is_meant(before.pending, target, id) && info == approval(before.pending[id], approved_at)
            && after == approving(before, id, approved_at);
    assert(before.pending.dom().contains(id));
    assert forall|i: int| 0 <= i < target.len() implies #[trigger] id[i] == target[i] by {
        if id != target {
            assert(id.subrange(0, target.len() as int)[i] == target[i]);
        }
    }
    assert(after.approved.dom() =~= before.approved.dom().insert(id));
    assert(after.pending.dom() =~= before.pending.dom().remove(id));
    id
}

/// Revoking by an ID or a prefix takes the approval of exactly one client, and one that was named:
/// it was approved, and its ID begins with what the administrator gave. Every other client is
/// approved afterwards exactly as before, and who is pending does not change.
pub proof fn law_revocation_takes_the_named_client(
    before: TrustView,
    target: Seq<char>,
    done: bool,
    after: TrustView,
) -> (id: Seq<char>)
    requires
        revokes(before, target, Ok(done), after),
    ensures
        done,
        begins_with(id, target),
        before.approved.dom().contains(target) ==> id == target,
        before.approved.dom().contains(id),
        after.approved.dom() == before.approved.dom().remove(id),
        forall|other: Seq<char>| #[trigger]
            after.approved.dom().contains(other) ==> after.approved[other]
                == before.approved[other],
        forall|other: Seq<char>|
            !begins_with(other, target) ==> #[trigger] after.approved.dom().contains(other)
                == before.approved.dom().contains(other),
        after.pending == before.pending,
{
    let id = choose|id: Seq<char>| #[trigger]
        is_meant(before.approved, target, id) && after == revoking(before, id);
    assert(before.approved.dom().contains(id));
    assert forall|i: int| 0 <= i < target.len() implies #[trigger] id[i] == target[i] by {
        if id != target {
            assert(id.subrange(0, target.len() as int)[i] == target[i]);
        }
    }
    assert(after.approved.dom() =~= before.approved.dom().remove(id));
    id
}

/// Approving and revoking fail exactly where no client was named, and change nothing then.
pub proof fn law_unknown_client_changes_nothing(
    before: TrustView,
    target: Seq<char>,
    approved_at: String,
    approved: Result<ApprovedClientInfo, TrustError>,
    after_approval: TrustView,
    revoked: Result<bool, TrustError>,
    after_revocation: TrustView,
)
    requires
        approves(before, target, approved_at, approved, after_approval),
        revokes(before, target, revoked, after_revocation),
    ensures
        approved is Err <==> forall|id: Seq<char>| #[trigger]
            before.pending.dom().contains(id) ==> !begins_with(id, target),
        approved is Err ==> after_approval == before,
        revoked is Err <==> forall|id: Seq<char>| #[trigger]
            before.approved.dom().contains(id) ==> !begins_with(id, target),
        revoked is Err ==> after_revocation == before,
{
    assert forall|id: Seq<char>| begins_with(id, target) implies #[trigger] has_prefix(
        id,
        target,
    ) by {
        assert(id.subrange(0, target.len() as int) =~= target);
    }
    assert forall|id: Seq<char>| #[trigger] has_prefix(id, target) implies begins_with(
        id,
        target,
    ) by {
        assert forall|i: int| 0 <= i < target.len() implies #[trigger] id[i] == target[i] by {
            assert(id.subrange(0, target.len() as int)[i] == target[i]);
        }
    }
    assert(begins_with(target, target));
    if approved is Err {
        assert forall|id: Seq<char>| #[trigger] before.pending.dom().contains(id) implies !begins_with(
            id,
            target,
        ) by {
            assert(!has_prefix(id, target));
        }
    } else {
        let id = choose|id: Seq<char>| #[trigger]
            is_meant(before.pending, target, id) && approved->Ok_0 == approval(
                before.pending[id],
                approved_at,
            ) && after_approval == approving(before, id, approved_at);
        assert(before.pending.dom().contains(id));
        assert(begins_with(id, target));
    }
    if revoked is Err {
        assert forall|id: Seq<char>| #[trigger]
            before.approved.dom().contains(id) implies !begins_with(id, target) by {
            assert(!has_prefix(id, target));
        }
    } else {
        let id = choose|id: Seq<char>| #[trigger]
            is_meant(before.approved, target, id) && after_revocation == revoking(before, id);
        assert(before.approved.dom().contains(id));
        assert(begins_with(id, target));
    }
}

/// A request touches no client but the one that asks, and what is kept of it is what it said.
pub proof fn law_request_touches_one(t: TrustView, info: PendingClientInfo, other: Seq<char>)
    requires
        other != info.client_id@,
    ensures
        registered(t, info).approved.dom().contains(other) == t.approved.dom().contains(other),
        registered(t, info).pending.dom().contains(other) == t.pending.dom().contains(other),
        t.pending.dom().contains(other) ==> registered(t, info).pending[other] == t.pending[other],
        t.approved.dom().contains(info.client_id@) ==> registered(t, info) == t,
        !t.approved.dom().contains(info.client_id@) ==> {
            let kept = registered(t, info).pending[info.client_id@];
            &&& kept.client_id == info.client_id
            &&& kept.hostname == info.hostname
            &&& kept.device_name == info.device_name
            &&& kept.transport == info.transport
            &&& !t.pending.dom().contains(info.client_id@) ==> kept.first_seen == info.first_seen
        },
{
}

/// Pending clients are listed by the time at which they were first seen, approved ones by the time
/// of their approval, and each list holds every client.
pub proof fn law_lists_are_in_order_of_time(
    t: TrustView,
    pending: Seq<PendingClientInfo>,
    approved: Seq<ApprovedClientInfo>,
)
    requires
        lists_values(pending, t.pending),
        in_order(pending),
        lists_values(approved, t.approved),
        in_order(approved),
    ensures
        forall|i: int, j: int|
            0 <= i <= j < pending.len() ==> text_le(
                #[trigger] pending[i].first_seen@,
                #[trigger] pending[j].first_seen@,
            ),
        forall|i: int, j: int|
            0 <= i <= j < approved.len() ==> text_le(
                #[trigger] approved[i].approved_at@,
                #[trigger] approved[j].approved_at@,
            ),
        forall|id: Seq<char>| #[trigger]
            t.pending.dom().contains(id) ==> pending.contains(t.pending[id]),
        forall|id: Seq<char>| #[trigger]
            t.approved.dom().contains(id) ==> approved.contains(t.approved[id]),
        pending.len() == t.pending.dom().len(),
        approved.len() == t.approved.dom().len(),
{
    assert forall|i: int, j: int| 0 <= i <= j < pending.len() implies text_le(
        #[trigger] pending[i].first_seen@,
        #[trigger] pending[j].first_seen@,
    ) by {
        assert(text_le(pending[i].sort_key(), pending[j].sort_key()));
    }
    assert forall|i: int, j: int| 0 <= i <= j < approved.len() implies text_le(
        #[trigger] approved[i].approved_at@,
        #[trigger] approved[j].approved_at@,
    ) by {
        assert(text_le(approved[i].sort_key(), approved[j].sort_key()));
    }
    lemma_lists_all(pending, t.pending);
    lemma_lists_all(approved, t.approved);
}

proof fn lemma_lists_all<V>(values: Seq<V>, map: Map<Seq<char>, V>)
    requires
        lists_values(values, map),
    ensures
        forall|id: Seq<char>| #[trigger] map.dom().contains(id) ==> values.contains(map[id]),
        values.len() == map.dom().len(),
{
    let ids = choose|keys: Seq<Seq<char>>| #[trigger]
        keys.no_duplicates() && keys.to_set() == map.dom() && values.len() == keys.len() && (forall|
            i: int,
        |
            0 <= i < keys.len() ==> values[i] == map[#[trigger] keys[i]]);
    ids.unique_seq_to_set();
    assert forall|id: Seq<char>| #[trigger] map.dom().contains(id) implies values.contains(
        map[id],
    ) by {
        assert(ids.to_set().contains(id));
        let i = choose|i: int| 0 <= i < ids.len() && ids[i] == id;
        assert(values[i] == map[ids[i]]);
    }
}

/// What is stored is what is known: where the stored pairs have different IDs, a manager made of
/// them approves exactly the clients that are stored as approved, with what is stored of them.
pub proof fn law_stored_clients_are_known<V>(pairs: Seq<(String, V)>, i: int, other: Seq<char>)
    requires
        forall|a: int, b: int|
            0 <= a < b < pairs.len() ==> #[trigger] pairs[a].0@ != #[trigger] pairs[b].0@,
        0 <= i < pairs.len(),
        forall|a: int| 0 <= a < pairs.len() ==> #[trigger] pairs[a].0@ != other,
    ensures
        map_of_pairs(pairs).dom().contains(pairs[i].0@),
        map_of_pairs(pairs)[pairs[i].0@] == pairs[i].1,
        !map_of_pairs(pairs).dom().contains(other),
    decreases pairs.len(),
{
    let front = pairs.drop_last();
    assert forall|a: int, b: int| 0 <= a < b < front.len() implies #[trigger] front[a].0@
        != #[trigger] front[b].0@ by {
        assert(pairs[a].0@ != pairs[b].0@);
    }
    assert forall|a: int| 0 <= a < front.len() implies #[trigger] front[a].0@ != other by {
        assert(pairs[a].0@ != other);
    }
    assert(pairs[pairs.len() - 1].0@ != other);
    if i < front.len() {
        assert(front[i] == pairs[i]);
        assert(pairs[i].0@ != pairs[pairs.len() - 1].0@);
        law_stored_clients_are_known(front, i, other);
    } else if front.len() > 0 {
        law_stored_clients_are_known(front, 0, other);
    } else {
        assert(map_of_pairs(front) =~= Map::empty());
    }
}

/// The trust store lies in the home of the account that uses `sudo`; else in the system's
/// directory for `root`, for a service and where there is no directory of the user's; else in the
/// user's directory.
pub proof fn law_place_of_trust_store(s: &Surroundings)
    ensures
        ({
            let sudo = text_in(s.sudo_user);
            let ordinary = sudo is Some && sudo != Some(Seq::<char>::empty()) && sudo != Some(
                "root"@,
            );
            let system = text_in(s.user) == Some("root"@) || s.systemd_exec_pid
                || s.config_dir is None;
            &&& ordinary ==> trust_dir(s) == "/home/"@ + sudo->0 + "/.config/joycast"@
            &&& !ordinary && system ==> trust_dir(s) == "/etc/joycast"@
            &&& !ordinary && !system ==> trust_dir(s) == path_below(
                text_in(s.config_dir)->0,
                "joycast"@,
            )
        }),
{
    if let Some(u) = text_in(s.sudo_user) {
        if u.len() == 0 {
            assert(u =~= Seq::<char>::empty());
        }
    }
}

/// The user is told the ID that matches no client, word for word.
pub proof fn law_unknown_id_is_told(id: String)
    ensures
        TrustError::NoPendingClient(id).text()
            == "No pending client request found matching ID or prefix '"@ + id@ + "'"@,
        TrustError::NoApprovedClient(id).text()
            == "No approved client found matching ID or prefix '"@ + id@ + "'"@,
{
}

} // verus!

//! The servers that a client has connected to, the latest first.

use vstd::prelude::*;

use crate::clock;
use crate::text::{join_path, path_below};

verus! {

/// Record of a previously connected server that accepted our connection.
#[derive(Debug, PartialEq, Eq)]
pub struct KnownServerInfo {
    pub server_hostname: String,
    pub target: String,
    pub transport_type: String,
    pub last_connected: String,
}

impl Clone for KnownServerInfo {
    fn clone(&self) -> (r: Self)
        ensures
            r == *self,
    {
        KnownServerInfo {
            server_hostname: self.server_hostname.clone(),
            target: self.target.clone(),
            transport_type: self.transport_type.clone(),
            last_connected: self.last_connected.clone(),
        }
    }
}

/// `a` and `b` are entries for different servers: neither the target nor the host name agrees.
pub open spec fn unrelated(a: KnownServerInfo, b: KnownServerInfo) -> bool {
    a.target@ != b.target@ && a.server_hostname@ != b.server_hostname@
}

/// The history after a connection to `info`: the new entry first, then the earlier ones that
/// share neither its target nor its host name.
pub open spec fn recorded(
    servers: Seq<KnownServerInfo>,
    info: KnownServerInfo,
) -> Seq<KnownServerInfo> {
    seq![info] + servers.filter(|s: KnownServerInfo| unrelated(s, info))
}

/// The entries are for different servers.
pub open spec fn all_unrelated(servers: Seq<KnownServerInfo>) -> bool {
    forall|i: int, j: int|
        0 <= i < j < servers.len() ==> unrelated(#[trigger] servers[i], #[trigger] servers[j])
}

/// The entry under the 1-based `index`.
pub open spec fn entry(servers: Seq<KnownServerInfo>, index: int) -> Option<KnownServerInfo> {
    if 1 <= index <= servers.len() {
        Some(servers[index - 1])
    } else {
        None
    }
}

/// The first entry with the host name `hostname`.
pub open spec fn first_named(servers: Seq<KnownServerInfo>, hostname: Seq<char>) -> Option<
    KnownServerInfo,
>
    decreases servers.len(),
{
    if servers.len() == 0 {
        None
    } else if servers.first().server_hostname@ == hostname {
        Some(servers.first())
    } else {
        first_named(servers.drop_first(), hostname)
    }
}

/// Store for managing client's known server history.
pub struct HistoryStore {
    store_path: String,
    servers: Vec<KnownServerInfo>,
}

impl View for HistoryStore {
    type V = Seq<KnownServerInfo>;

    closed spec fn view(&self) -> Seq<KnownServerInfo> {
        self.servers@
    }
}

impl HistoryStore {
    /// Where the history is kept.
    pub closed spec fn location(&self) -> Seq<char> {
        self.store_path@
    }

    /// The path of the history where none is given.
    pub open spec fn default_location(config_dir: Option<String>) -> Seq<char> {
        path_below(
            path_below(
                match config_dir {
                    Some(dir) => dir@,
                    None => "."@,
                },
                "joycast"@,
            ),
            "known_servers.json"@,
        )
    }

    /// The path of the history where none is given.
    pub fn default_store_path(config_dir: &Option<String>) -> (r: String)
        ensures
            r@ == HistoryStore::default_location(*config_dir),
    {
        let base = match config_dir {
            Some(dir) => join_path(dir, "joycast"),
            None => join_path(".", "joycast"),
        };
        join_path(&base, "known_servers.json")
    }

    /// The history at `store_path`, with what was stored there; where nothing could be read, it
    /// is empty.
    pub fn new(store_path: String, stored: Option<Vec<KnownServerInfo>>) -> (r: Self)
        ensures
            r.location() == store_path@,
            match stored {
                Some(servers) => r@ == servers@,
                None => r@ == Seq::<KnownServerInfo>::empty(),
            },
    {
        match stored {
            Some(servers) => HistoryStore { store_path, servers },
            None => HistoryStore { store_path, servers: Vec::new() },
        }
    }

    /// Where the history is kept.
    pub fn store_path(&self) -> (r: &str)
        ensures
            r@ == self.location(),
    {
        self.store_path.as_str()
    }

    /// Adds or updates a server entry upon a successful handshake at the time `last_connected`.
    pub fn record_connection_at(
        &mut self,
        server_hostname: String,
        target: String,
        transport_type: String,
        last_connected: String,
    )
        ensures
            final(self)@ == recorded(
                old(self)@,
                (KnownServerInfo { server_hostname, target, transport_type, last_connected }),
            ),
            final(self).location() == old(self).location(),
    {
        let info = KnownServerInfo { server_hostname, target, transport_type, last_connected };
        let ghost keep = |s: KnownServerInfo| unrelated(s, info);
        let ghost before = self.servers@;
        let mut servers: Vec<KnownServerInfo> = Vec::new();
        let n: usize = self.servers.len();
        for i in 0..n
            invariant
                n == self.servers@.len(),
                self.servers@ == before,
                self.store_path == old(self).store_path,
                keep == (|s: KnownServerInfo| unrelated(s, info)),
                servers@ == before.take(i as int).filter(keep),
        {
            let s = &self.servers[i];
            proof {
                let next = before.take(i + 1);
                assert(next.drop_last() =~= before.take(i as int));
                reveal(Seq::filter);
            }
            if s.target != info.target && s.server_hostname != info.server_hostname {
                servers.push(s.clone());
            }
        }
        assert(before.take(n as int) =~= before);
        servers.insert(0, info);
        assert(servers@ =~= recorded(before, info));
        self.servers = servers;
    }

    /// Add or update a server entry upon successful handshake.
    pub fn record_connection(
        &mut self,
        server_hostname: String,
        target: String,
        transport_type: String,
    )
        ensures
            exists|last_connected: String|
                final(self)@ == #[trigger] recorded(
                    old(self)@,
                    (KnownServerInfo { server_hostname, target, transport_type, last_connected }),
                ),
            final(self).location() == old(self).location(),
    {
        let last_connected = clock::now();
        self.record_connection_at(server_hostname, target, transport_type, last_connected)
    }

    /// List all known servers.
    pub fn list_servers(&self) -> (r: &Vec<KnownServerInfo>)
        ensures
            r@ == self@,
    {
        &self.servers
    }

    /// Get a server by 1-based index.
    pub fn get_by_index(&self, index: usize) -> (r: Option<KnownServerInfo>)
        ensures
            r == entry(self@, index as int),
    {
        if index == 0 || index > self.servers.len() {
            None
        } else {
            Some(self.servers[index - 1].clone())
        }
    }

    /// The latest server with the given host name.
    pub fn find_by_hostname(&self, hostname: &str) -> (r: Option<KnownServerInfo>)
        ensures
            r == first_named(self@, hostname@),
    {
        let wanted = hostname.to_owned();
        let n: usize = self.servers.len();
        assert(self.servers@.skip(0) =~= self.servers@);
        for i in 0..n
            invariant
                n == self.servers@.len(),
                wanted@ == hostname@,
                first_named(self.servers@, hostname@) == first_named(
                    self.servers@.skip(i as int),
                    hostname@,
                ),
        {
            proof {
                assert(self.servers@.skip(i as int).drop_first() =~= self.servers@.skip(i + 1));
            }
            if self.servers[i].server_hostname == wanted {
                return Some(self.servers[i].clone());
            }
        }
        None
    }
}

/// The server just connected to is the first entry, and its host name leads to it.
pub proof fn law_latest_comes_first(servers: Seq<KnownServerInfo>, info: KnownServerInfo)
    ensures
        entry(recorded(servers, info), 1) == Some(info),
        first_named(recorded(servers, info), info.server_hostname@) == Some(info),
{
}

proof fn lemma_kept(servers: Seq<KnownServerInfo>, info: KnownServerInfo)
    ensures
        ({
            let kept = servers.filter(|s: KnownServerInfo| unrelated(s, info));
            &&& forall|i: int|
                0 <= i < kept.len() ==> unrelated(#[trigger] kept[i], info) && servers.contains(
                    kept[i],
                )
            &&& all_unrelated(servers) ==> all_unrelated(kept)
        }),
    decreases servers.len(),
{
    reveal(Seq::filter);
    let kept = servers.filter(|s: KnownServerInfo| unrelated(s, info));
    if servers.len() > 0 {
        let front = servers.drop_last();
        let inner = front.filter(|s: KnownServerInfo| unrelated(s, info));
        lemma_kept(front, info);
        assert forall|i: int| 0 <= i < kept.len() implies unrelated(#[trigger] kept[i], info)
            && servers.contains(kept[i]) by {
            if i < inner.len() {
                assert(front.contains(inner[i]));
                let k = choose|k: int| 0 <= k < front.len() && front[k] == inner[i];
                assert(servers[k] == kept[i]);
            } else {
                assert(servers[servers.len() - 1] == kept[i]);
            }
        }
        if all_unrelated(servers) {
            assert forall|i: int, j: int| 0 <= i < j < front.len() implies unrelated(
                #[trigger] front[i],
                #[trigger] front[j],
            ) by {
                assert(unrelated(servers[i], servers[j]));
            }
            assert forall|i: int, j: int| 0 <= i < j < kept.len() implies unrelated(
                #[trigger] kept[i],
                #[trigger] kept[j],
            ) by {
                if j < inner.len() {
                    assert(unrelated(inner[i], inner[j]));
                } else {
                    assert(front.contains(inner[i]));
                    let k = choose|k: int| 0 <= k < front.len() && front[k] == inner[i];
                    assert(unrelated(servers[k], servers[servers.len() - 1]));
                }
            }
        }
    }
}

/// Recording a connection keeps the entries for different servers apart: no target and no host
/// name is ever listed twice.
pub proof fn law_servers_stay_unrelated(servers: Seq<KnownServerInfo>, info: KnownServerInfo)
    requires
        all_unrelated(servers),
    ensures
        all_unrelated(recorded(servers, info)),
{
    lemma_kept(servers, info);
    let kept = servers.filter(|s: KnownServerInfo| unrelated(s, info));
    let after = recorded(servers, info);
    assert forall|i: int, j: int| 0 <= i < j < after.len() implies unrelated(
        #[trigger] after[i],
        #[trigger] after[j],
    ) by {
        assert(after[j] == kept[j - 1]);
        if i > 0 {
            assert(unrelated(kept[i - 1], kept[j - 1]));
        }
    }
}

/// An entry for another server is still there after a connection is recorded.
pub proof fn law_other_servers_are_kept(
    servers: Seq<KnownServerInfo>,
    info: KnownServerInfo,
    other: KnownServerInfo,
)
    requires
        servers.contains(other),
        unrelated(other, info),
    ensures
        recorded(servers, info).contains(other),
{
    broadcast use vstd::seq_lib::group_filter_ensures;

    let keep = |s: KnownServerInfo| unrelated(s, info);
    let k = choose|k: int| 0 <= k < servers.len() && servers[k] == other;
    assert(keep(servers[k]));
    let kept = servers.filter(keep);
    assert(kept.contains(other));
    let i = choose|i: int| 0 <= i < kept.len() && kept[i] == other;
    assert(recorded(servers, info)[i + 1] == other);
}

/// A host name is found exactly where an entry has it, and what is found is the first such entry.
pub proof fn law_host_name_is_found(servers: Seq<KnownServerInfo>, hostname: Seq<char>)
    ensures
        match first_named(servers, hostname) {
            Some(s) => exists|i: int|
                0 <= i < servers.len() && #[trigger] servers[i] == s && s.server_hostname@ == hostname
                    && forall|j: int|
                    0 <= j < i ==> #[trigger] servers[j].server_hostname@ != hostname,
            None => forall|j: int|
                0 <= j < servers.len() ==> #[trigger] servers[j].server_hostname@ != hostname,
        },
    decreases servers.len(),
{
    if servers.len() > 0 && servers.first().server_hostname@ != hostname {
        let rest = servers.drop_first();
        law_host_name_is_found(rest, hostname);
        match first_named(rest, hostname) {
            Some(s) => {
                let i = choose|i: int|
                    0 <= i < rest.len() && #[trigger] rest[i] == s && s.server_hostname@ == hostname
                        && forall|j: int|
                        0 <= j < i ==> #[trigger] rest[j].server_hostname@ != hostname;
                assert(servers[i + 1] == s);
                assert forall|j: int| 0 <= j < i + 1 implies #[trigger] servers[j].server_hostname@
                    != hostname by {
                    if j > 0 {
                        assert(rest[j - 1].server_hostname@ != hostname);
                    }
                }
            },
            None => {
                assert forall|j: int|
                    0 <= j < servers.len() implies #[trigger] servers[j].server_hostname@
                    != hostname by {
                    if j > 0 {
                        assert(rest[j - 1].server_hostname@ != hostname);
                    }
                }
            },
        }
    } else if servers.len() > 0 {
        assert(servers[0] == servers.first());
    }
}

/// After a connection the history holds the new entry in front, and behind it, in their order and
/// once each, exactly the earlier entries with another target and another host name. `places`
/// tells where they stood.
pub proof fn law_history_after_connection(servers: Seq<KnownServerInfo>, info: KnownServerInfo) -> (
places: Seq<int>)
    ensures
        recorded(servers, info).len() == places.len() + 1,
        recorded(servers, info)[0] == info,
        forall|k: int|
            0 <= k < places.len() ==> 0 <= #[trigger] places[k] < servers.len() && recorded(
                servers,
                info,
            )[k + 1] == servers[places[k]],
        forall|k: int, l: int|
            0 <= k < l < places.len() ==> #[trigger] places[k] < #[trigger] places[l],
        forall|i: int|
            0 <= i < servers.len() ==> (places.contains(i) <==> (#[trigger] servers[i]).target@
                != info.target@ && servers[i].server_hostname@ != info.server_hostname@),
{
    let kept = servers.filter(|s: KnownServerInfo| unrelated(s, info));
    let places = lemma_places(servers, info);
    assert forall|k: int| 0 <= k < places.len() implies 0 <= #[trigger] places[k] < servers.len()
        && recorded(servers, info)[k + 1] == servers[places[k]] by {
        assert(recorded(servers, info)[k + 1] == kept[k]);
    }
    places
}

proof fn lemma_places(servers: Seq<KnownServerInfo>, info: KnownServerInfo) -> (places: Seq<int>)
    ensures
        ({
            let kept = servers.filter(|s: KnownServerInfo| unrelated(s, info));
            &&& kept.len() == places.len()
            &&& forall|k: int|
                0 <= k < places.len() ==> 0 <= #[trigger] places[k] < servers.len() && kept[k]
                    == servers[places[k]]
        }),
        forall|k: int, l: int|
            0 <= k < l < places.len() ==> #[trigger] places[k] < #[trigger] places[l],
        forall|i: int|
            0 <= i < servers.len() ==> (places.contains(i) <==> (#[trigger] servers[i]).target@
                != info.target@ && servers[i].server_hostname@ != info.server_hostname@),
    decreases servers.len(),
{
    reveal(Seq::filter);
    if servers.len() == 0 {
        Seq::empty()
    } else {
        let front = servers.drop_last();
        let last = servers.len() - 1;
        let inner = lemma_places(front, info);
        let places = if unrelated(servers.last(), info) {
            inner.push(last)
        } else {
            inner
        };
        assert forall|k: int| 0 <= k < inner.len() implies #[trigger] inner[k] < last by {
            assert(inner[k] < front.len());
        }
        assert forall|i: int| 0 <= i < servers.len() implies (places.contains(i) <==> (
        #[trigger] servers[i]).target@ != info.target@ && servers[i].server_hostname@
            != info.server_hostname@) by {
            if i < last {
                assert(front[i] == servers[i]);
                if inner.contains(i) {
                    let k = choose|k: int| 0 <= k < inner.len() && inner[k] == i;
                    assert(places[k] == i);
                }
                if places.contains(i) {
                    let k = choose|k: int| 0 <= k < places.len() && places[k] == i;
                    assert(inner[k] == i);
                }
            } else {
                if unrelated(servers.last(), info) {
                    assert(places[inner.len() as int] == last);
                }
                if places.contains(i) {
                    let k = choose|k: int| 0 <= k < places.len() && places[k] == i;
                    if k < inner.len() {
                        assert(inner[k] < last);
                    }
                }
            }
        }
        places
    }
}

/// Servers are numbered from one, in their order, and there is no other number.
pub proof fn law_servers_are_numbered(servers: Seq<KnownServerInfo>, index: int)
    ensures
        entry(servers, index) is Some <==> 0 < index && index - 1 < servers.len(),
        forall|i: int| 0 <= i < servers.len() ==> entry(servers, i + 1) == Some(#[trigger] servers[i]),
{
}

/// The history lies below the user's directory, or below the current one.
pub proof fn law_where_the_history_is_kept(config_dir: Option<String>)
    ensures
        config_dir matches Some(dir) ==> HistoryStore::default_location(config_dir) == path_below(
            path_below(dir@, "joycast"@),
            "known_servers.json"@,
        ),
        config_dir is None ==> HistoryStore::default_location(config_dir) == path_below(
            path_below("."@, "joycast"@),
            "known_servers.json"@,
        ),
{
}

} // verus!

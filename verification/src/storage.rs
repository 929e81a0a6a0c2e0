//! Persistent node settings and the trust store of paired peers.
use vstd::prelude::*;

use crate::cluster::NodeRole;
use crate::hub::download::PathStyle;
use crate::llama::{join_path, join_path_text};
use crate::text::{chars_of, is_blank, trim};

verus! {

/// A UTC instant as seconds and nanoseconds since the Unix epoch.
#[derive(Debug, Clone, Copy, PartialEq, Eq, Structural)]
pub struct Timestamp {
    pub seconds: i64,
    pub nanos: u32,
}

/// A peer accepted during pairing, pinned by node id and static public key.
#[derive(Debug, PartialEq, Eq)]
pub struct TrustedPeer {
    pub id: u128,
    pub name: String,
    pub public_key: String,
    pub paired_at: Timestamp,
}

impl Clone for TrustedPeer {
    fn clone(&self) -> (copy: Self)
        ensures
            copy == *self,
    {
        TrustedPeer {
            id: self.id,
            name: self.name.clone(),
            public_key: self.public_key.clone(),
            paired_at: self.paired_at,
        }
    }
}

/// The node's persistent settings.
#[derive(Debug, PartialEq, Eq)]
pub struct Settings {
    pub node_id: u128,
    pub node_name: String,
    pub role: NodeRole,
    pub control_port: u16,
    pub rpc_port: u16,
    pub llama_bin_dir: Option<String>,
    pub last_model: Option<String>,
    pub trusted_peers: Vec<TrustedPeer>,
}

impl Clone for Settings {
    fn clone(&self) -> (copy: Self)
        ensures
            copy.node_id == self.node_id,
            copy.node_name == self.node_name,
            copy.role == self.role,
            copy.control_port == self.control_port,
            copy.rpc_port == self.rpc_port,
            copy.llama_bin_dir == self.llama_bin_dir,
            copy.last_model == self.last_model,
            copy.trusted_peers@ == self.trusted_peers@,
    {
        let mut peers: Vec<TrustedPeer> = Vec::new();
        for i in 0..self.trusted_peers.len()
            invariant
                peers@ == self.trusted_peers@.take(i as int),
        {
            peers.push(self.trusted_peers[i].clone());
            proof {
                assert(peers@ =~= self.trusted_peers@.take(i + 1));
            }
        }
        proof {
            assert(self.trusted_peers@.take(self.trusted_peers@.len() as int) =~= self.trusted_peers@);
        }
        Settings {
            node_id: self.node_id,
            node_name: self.node_name.clone(),
            role: self.role,
            control_port: self.control_port,
            rpc_port: self.rpc_port,
            llama_bin_dir: self.llama_bin_dir.clone(),
            last_model: self.last_model.clone(),
            trusted_peers: peers,
        }
    }
}

/// Why stored settings were refused.
#[derive(Debug, Clone, Copy, PartialEq, Eq, Structural)]
pub enum SettingsError {
    NilNodeId,
}

/// A fresh random node id (`uuid::Uuid::new_v4`, as its 128-bit value).
/// The value is random; `new_v4` always sets the version and variant bits,
/// so the id is never the nil UUID.
#[verifier::external_body]
fn new_node_id() -> (id: u128)
    ensures
        id != 0,
{
    uuid::Uuid::new_v4().as_u128()
}

/// The machine's host name (`hostname::get`), when it is valid Unicode.
/// It depends on the machine, so nothing is stated of it.
#[verifier::external_body]
fn host_name() -> Option<String> {
    hostname::get().ok().and_then(|name| name.into_string().ok())
}

/// The fallback node name.
pub open spec fn default_node_name() -> Seq<char> {
    "BUTION Node"@
}

/// The name a node gets: its host name unless that is missing or blank.
pub open spec fn node_name_for(host: Option<Seq<char>>) -> Seq<char> {
    match host {
        Some(h) => if trim(h).len() == 0 { default_node_name() } else { h },
        None => default_node_name(),
    }
}

/// The trust store with every entry for `id` removed.
pub open spec fn without_peer(peers: Seq<TrustedPeer>, id: u128) -> Seq<TrustedPeer> {
    peers.filter(|p: TrustedPeer| p.id != id)
}

/// Index of the first peer with the given id, or `peers.len()`.
pub open spec fn first_peer(peers: Seq<TrustedPeer>, id: u128) -> int
    decreases peers.len(),
{
    if peers.len() == 0 {
        0
    } else if peers[0].id == id {
        0
    } else {
        1 + first_peer(peers.drop_first(), id)
    }
}

/// No two trusted peers share a node id.
pub open spec fn unique_ids(peers: Seq<TrustedPeer>) -> bool {
    forall|i: int, j: int| 0 <= i < j < peers.len() ==> peers[i].id != peers[j].id
}

impl Settings {
    /// Fresh settings: a new random node id, the host name (or `BUTION Node`),
    /// the automatic role, control port 31750, RPC port 50052, nothing else.
    pub fn fresh() -> (settings: Settings)
        ensures
            settings.role == NodeRole::Automatic,
            settings.control_port == 31750,
            settings.rpc_port == 50052,
            settings.llama_bin_dir is None,
            settings.last_model is None,
            settings.trusted_peers@.len() == 0,
            settings.node_id != 0,
            exists|host: Option<Seq<char>>| settings.node_name@ == node_name_for(host),
    {
        let host = host_name();
        let ghost seen: Option<Seq<char>> = match &host {
            Some(h) => Some(h@),
            None => None,
        };
        let node_name = Self::name_for_host(host);
        assert(node_name@ == node_name_for(seen));
        Settings {
            node_id: new_node_id(),
            node_name,
            role: NodeRole::Automatic,
            control_port: 31750,
            rpc_port: 50052,
            llama_bin_dir: None,
            last_model: None,
            trusted_peers: Vec::new(),
        }
    }

    /// The node name for a host name.
    pub fn name_for_host(host: Option<String>) -> (name: String)
        ensures
            name@ == node_name_for(match host { Some(h) => Some(h@), None => None }),
    {
        match host {
            Some(h) => {
                let chars = chars_of(h.as_str());
                if is_blank(&chars) {
                    String::from_str("BUTION Node")
                } else {
                    h
                }
            },
            None => String::from_str("BUTION Node"),
        }
    }

    /// Settings read back from disk must carry a real node id.
    pub fn validate_loaded(&self) -> (r: Result<(), SettingsError>)
        ensures
            r is Err <==> self.node_id == 0,
    {
        if self.node_id == 0 {
            Err(SettingsError::NilNodeId)
        } else {
            Ok(())
        }
    }

    /// Trusts `peer`, replacing any earlier entry with the same node id.
    pub fn trust(&mut self, peer: TrustedPeer)
        ensures
            final(self).trusted_peers@ == without_peer(old(self).trusted_peers@, peer.id).push(peer),
            final(self).node_id == old(self).node_id,
            final(self).node_name == old(self).node_name,
            final(self).role == old(self).role,
            final(self).control_port == old(self).control_port,
            final(self).rpc_port == old(self).rpc_port,
            final(self).llama_bin_dir == old(self).llama_bin_dir,
            final(self).last_model == old(self).last_model,
    {
        let mut kept: Vec<TrustedPeer> = Vec::new();
        let ghost peers = self.trusted_peers@;
        let mut i: usize = 0;
        while i < self.trusted_peers.len()
            invariant
                self.trusted_peers@ == peers,
                i <= peers.len(),
                kept@ == without_peer(peers.take(i as int), peer.id),
            decreases peers.len() - i,
        {
            proof {
                assert(peers.take(i + 1).drop_last() == peers.take(i as int));
                reveal_with_fuel(Seq::filter, 1);
            }
            if self.trusted_peers[i].id != peer.id {
                kept.push(self.trusted_peers[i].clone());
            }
            i += 1;
        }
        proof {
            assert(peers.take(peers.len() as int) == peers);
        }
        kept.push(peer);
        self.trusted_peers = kept;
    }

    /// The trusted entry for a node id, if any.
    pub fn trusted_peer(&self, id: u128) -> (found: Option<&TrustedPeer>)
        ensures
            match found {
                Some(p) => first_peer(self.trusted_peers@, id) < self.trusted_peers@.len()
                    && *p == self.trusted_peers@[first_peer(self.trusted_peers@, id)],
                None => forall|k: int| 0 <= k < self.trusted_peers@.len() ==> self.trusted_peers@[k].id != id,
            },
    {
        let ghost peers = self.trusted_peers@;
        for i in 0..self.trusted_peers.len()
            invariant
                self.trusted_peers@ == peers,
                forall|k: int| 0 <= k < i ==> peers[k].id != id,
        {
            if self.trusted_peers[i].id == id {
                proof {
                    lemma_first_peer(peers, id, i as int);
                }
                return Some(&self.trusted_peers[i]);
            }
        }
        None
    }
}

pub proof fn lemma_first_peer_absent(peers: Seq<TrustedPeer>, id: u128)
    requires
        forall|m: int| 0 <= m < peers.len() ==> peers[m].id != id,
    ensures
        first_peer(peers, id) == peers.len(),
    decreases peers.len(),
{
    if peers.len() > 0 {
        assert forall|m: int| 0 <= m < peers.len() - 1 implies peers.drop_first()[m].id != id by {
            assert(peers.drop_first()[m] == peers[m + 1]);
        }
        lemma_first_peer_absent(peers.drop_first(), id);
    }
}

pub proof fn lemma_first_peer(peers: Seq<TrustedPeer>, id: u128, k: int)
    requires
        0 <= k < peers.len(),
        peers[k].id == id,
        forall|m: int| 0 <= m < k ==> peers[m].id != id,
    ensures
        first_peer(peers, id) == k,
    decreases k,
{
    if k > 0 {
        assert forall|m: int| 0 <= m < k - 1 implies peers.drop_first()[m].id != id by {
            assert(peers.drop_first()[m] == peers[m + 1]);
        }
        lemma_first_peer(peers.drop_first(), id, k - 1);
    }
}

/// The peer the trust store holds for `id`: its first entry with that id.
pub open spec fn lookup(peers: Seq<TrustedPeer>, id: u128) -> Option<TrustedPeer> {
    if first_peer(peers, id) < peers.len() {
        Some(peers[first_peer(peers, id)])
    } else {
        None
    }
}

proof fn lemma_first_peer_push(s: Seq<TrustedPeer>, e: TrustedPeer, x: u128)
    ensures
        0 <= first_peer(s, x) <= s.len(),
        first_peer(s.push(e), x) == if first_peer(s, x) < s.len() {
            first_peer(s, x)
        } else if e.id == x {
            s.len() as int
        } else {
            (s.len() + 1) as int
        },
    decreases s.len(),
{
    if s.len() > 0 {
        assert(s.push(e).drop_first() =~= s.drop_first().push(e));
        assert(s.push(e)[0] == s[0]);
        lemma_first_peer_push(s.drop_first(), e, x);
        if s[0].id != x {
            assert(first_peer(s.push(e), x) == 1 + first_peer(s.drop_first().push(e), x));
            assert(first_peer(s, x) == 1 + first_peer(s.drop_first(), x));
        }
    } else {
        assert(s.push(e).drop_first() =~= Seq::<TrustedPeer>::empty());
        assert(s.push(e)[0] == e);
        if e.id != x {
            assert(first_peer(s.push(e), x) == 1 + first_peer(s.push(e).drop_first(), x));
            assert(first_peer(Seq::<TrustedPeer>::empty(), x) == 0);
        }
    }
}

proof fn lemma_lookup_push(s: Seq<TrustedPeer>, e: TrustedPeer, x: u128)
    ensures
        lookup(s.push(e), x) == if lookup(s, x) is Some {
            lookup(s, x)
        } else if e.id == x {
            Some(e)
        } else {
            None
        },
{
    lemma_first_peer_push(s, e, x);
}

proof fn lemma_lookup_without(peers: Seq<TrustedPeer>, removed: u128, x: u128)
    requires
        x != removed,
    ensures
        lookup(without_peer(peers, removed), x) == lookup(peers, x),
        forall|i: int| 0 <= i < without_peer(peers, removed).len() ==> #[trigger] without_peer(peers, removed)[i].id
            != removed,
        unique_ids(peers) ==> unique_ids(without_peer(peers, removed)),
    decreases peers.len(),
{
    broadcast use Seq::lemma_filter_push;

    if peers.len() == 0 {
        assert(without_peer(peers, removed) =~= peers);
    } else {
        let rest = peers.drop_last();
        let last = peers.last();
        assert(rest.push(last) =~= peers);
        lemma_lookup_without(rest, removed, x);
        lemma_lookup_push(rest, last, x);
        let kept = without_peer(rest, removed);
        lemma_lookup_push(kept, last, x);
        if unique_ids(peers) {
            assert(unique_ids(rest)) by {
                assert forall|i: int, j: int| 0 <= i < j < rest.len() implies rest[i].id != rest[j].id by {
                    assert(rest[i] == peers[i] && rest[j] == peers[j]);
                }
            }
            if last.id != removed {
                assert forall|i: int| 0 <= i < kept.len() implies #[trigger] kept[i].id != last.id by {
                    assert(kept.contains(kept[i]));
                    rest.lemma_filter_contains_rev(|p: TrustedPeer| p.id != removed, kept[i]);
                    assert(rest.contains(kept[i]));
                    let k = choose|k: int| 0 <= k < rest.len() && rest[k] == kept[i];
                    assert(peers[k] == rest[k]);
                    assert(peers[peers.len() - 1] == last);
                }
                assert(without_peer(peers, removed) == kept.push(last));
                assert forall|i: int, j: int| 0 <= i < j < kept.push(last).len() implies kept.push(last)[i].id
                    != kept.push(last)[j].id by {
                    if j == kept.len() {
                        assert(kept.push(last)[i] == kept[i]);
                    } else {
                        assert(kept.push(last)[i] == kept[i] && kept.push(last)[j] == kept[j]);
                    }
                }
            }
        }
    }
}

/// Trusting a peer pins it: a lookup of its id finds exactly it; a lookup
/// of any other id finds what it found before; and a store without
/// repeated ids keeps none.
pub proof fn lemma_trust_pins_peer(peers: Seq<TrustedPeer>, peer: TrustedPeer, other: u128)
    requires
        other != peer.id,
    ensures
        lookup(without_peer(peers, peer.id).push(peer), peer.id) == Some(peer),
        lookup(without_peer(peers, peer.id).push(peer), other) == lookup(peers, other),
        unique_ids(peers) ==> unique_ids(without_peer(peers, peer.id).push(peer)),
{
    let kept = without_peer(peers, peer.id);
    lemma_lookup_without(peers, peer.id, other);
    lemma_lookup_push(kept, peer, other);
    lemma_lookup_push(kept, peer, peer.id);
    assert forall|m: int| 0 <= m < kept.len() implies kept[m].id != peer.id by {}
    lemma_first_peer_absent(kept, peer.id);
    if unique_ids(peers) {
        assert forall|i: int, j: int| 0 <= i < j < kept.push(peer).len() implies kept.push(peer)[i].id
            != kept.push(peer)[j].id by {
            if j == kept.len() {
                assert(kept.push(peer)[i] == kept[i]);
            } else {
                assert(kept.push(peer)[i] == kept[i] && kept.push(peer)[j] == kept[j]);
            }
        }
    }
}

/// Where the application keeps its files: settings, identities and
/// downloaded models under the data directory, caches apart.
#[derive(Debug)]
pub struct AppPaths {
    pub data_dir: String,
    pub settings_file: String,
    pub identity_file: String,
    pub noise_identity_file: String,
    pub cache_dir: String,
    pub models_dir: String,
}

impl Clone for AppPaths {
    fn clone(&self) -> (copy: Self)
        ensures
            copy == *self,
    {
        AppPaths {
            data_dir: self.data_dir.clone(),
            settings_file: self.settings_file.clone(),
            identity_file: self.identity_file.clone(),
            noise_identity_file: self.noise_identity_file.clone(),
            cache_dir: self.cache_dir.clone(),
            models_dir: self.models_dir.clone(),
        }
    }
}

impl AppPaths {
    /// The application's files laid out in its data and cache directories.
    pub fn in_directories(data_dir: String, cache_dir: String, style: PathStyle) -> (paths: AppPaths)
        ensures
            paths.data_dir == data_dir,
            paths.cache_dir == cache_dir,
            paths.settings_file@ == join_path(data_dir@, "settings.toml"@, style),
            paths.identity_file@ == join_path(data_dir@, "identity.key"@, style),
            paths.noise_identity_file@ == join_path(data_dir@, "noise-identity.key"@, style),
            paths.models_dir@ == join_path(data_dir@, "models"@, style),
    {
        proof {
            reveal_strlit("settings.toml");
            reveal_strlit("identity.key");
            reveal_strlit("noise-identity.key");
            reveal_strlit("models");
        }
        let settings_file = join_path_text(data_dir.as_str(), "settings.toml", style);
        let identity_file = join_path_text(data_dir.as_str(), "identity.key", style);
        let noise_identity_file = join_path_text(data_dir.as_str(), "noise-identity.key", style);
        let models_dir = join_path_text(data_dir.as_str(), "models", style);
        AppPaths { data_dir, settings_file, identity_file, noise_identity_file, cache_dir, models_dir }
    }
}

} // verus!

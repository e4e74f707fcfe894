//! The peers registry: the agents `famp send` can address, by alias.

use vstd::prelude::*;
use crate::text::str_eq;

verus! {

/// A registered peer agent, addressed by its alias.
#[derive(Debug)]
pub struct PeerEntry {
    /// Local alias (`famp send --to <alias>`).
    pub alias: String,
    /// `https://host:port`.
    pub endpoint: String,
    /// base64url-unpadded ed25519 verifying key.
    pub pubkey_b64: String,
    /// Optional FAMP principal used as the envelope `to` field.
    pub principal: Option<String>,
    /// TOFU-pinned TLS certificate fingerprint (sha256 hex).
    pub tls_fingerprint_sha256: Option<String>,
}

/// The peers file: registered peers in insertion order.
#[derive(Debug)]
pub struct Peers {
    pub peers: Vec<PeerEntry>,
}

/// The aliases of `ps`, in order.
pub open spec fn aliases(ps: Seq<PeerEntry>) -> Seq<Seq<char>> {
    ps.map_values(|p: PeerEntry| p.alias@)
}

/// Index of the first peer named `alias`.
pub open spec fn find_index(ps: Seq<PeerEntry>, alias: Seq<char>) -> Option<int> {
    if exists|i: int| 0 <= i < ps.len() && #[trigger] ps[i].alias@ == alias {
        Some(choose|i: int| 0 <= i < ps.len() && #[trigger] ps[i].alias@ == alias
            && forall|k: int| 0 <= k < i ==> ps[k].alias@ != alias)
    } else {
        None
    }
}

/// No two peers share an alias.
pub open spec fn unique_aliases(ps: Seq<PeerEntry>) -> bool {
    forall|i: int, j: int| 0 <= i < j < ps.len() ==> (#[trigger] ps[i]).alias@ != (#[trigger] ps[j]).alias@
}

proof fn lemma_find_index(ps: Seq<PeerEntry>, alias: Seq<char>, i: int)
    requires
        0 <= i < ps.len(),
        ps[i].alias@ == alias,
        forall|k: int| 0 <= k < i ==> ps[k].alias@ != alias,
    ensures
        find_index(ps, alias) == Some(i),
{
    let j = choose|j: int| 0 <= j < ps.len() && #[trigger] ps[j].alias@ == alias
        && forall|k: int| 0 <= k < j ==> ps[k].alias@ != alias;
    assert(j == i) by {
        if j < i {
        } else if j > i {
            assert(ps[i].alias@ != alias);
        }
    }
}

impl Peers {
    /// No peers.
    pub fn new() -> (r: Peers)
        ensures
            r.peers@.len() == 0,
    {
        Peers { peers: Vec::new() }
    }

    fn position(&self, alias: &str) -> (r: Option<usize>)
        ensures
            match r {
                Some(i) => find_index(self.peers@, alias@) == Some(i as int) && i < self.peers@.len(),
                None => find_index(self.peers@, alias@) is None,
            },
    {
        let mut i: usize = 0;
        while i < self.peers.len()
            invariant
                i <= self.peers@.len(),
                forall|k: int| 0 <= k < i ==> self.peers@[k].alias@ != alias@,
            decreases self.peers@.len() - i,
        {
            if str_eq(self.peers[i].alias.as_str(), alias) {
                proof {
                    lemma_find_index(self.peers@, alias@, i as int);
                }
                return Some(i);
            }
            i += 1;
        }
        None
    }

    /// The first peer registered under `alias`.
    pub fn find(&self, alias: &str) -> (r: Option<&PeerEntry>)
        ensures
            match find_index(self.peers@, alias@) {
                Some(i) => r == Some(&self.peers@[i]),
                None => r is None,
            },
    {
        match self.position(alias) {
            Some(i) => Some(&self.peers[i]),
            None => None,
        }
    }

    /// The first peer registered under `alias`, for update in place.
    pub fn find_mut(&mut self, alias: &str) -> (r: Option<&mut PeerEntry>)
        ensures
            match find_index(old(self).peers@, alias@) {
                Some(i) => r matches Some(e) && *e == old(self).peers@[i]
                    && final(self).peers@ == old(self).peers@.update(i, *final(e)),
                None => r is None && final(self).peers@ == old(self).peers@,
            },
    {
        match self.position(alias) {
            Some(i) => Some(&mut self.peers[i]),
            None => None,
        }
    }

    /// Appends `entry` unless its alias is taken; a duplicate comes back
    /// as the error, the registry unchanged.
    pub fn try_add(&mut self, entry: PeerEntry) -> (r: Result<(), PeerEntry>)
        ensures
            find_index(old(self).peers@, entry.alias@) is Some ==> r == Err::<(), PeerEntry>(entry) && final(self).peers@ == old(self).peers@,
            find_index(old(self).peers@, entry.alias@) is None ==> r is Ok && final(self).peers@ == old(self).peers@.push(entry),
    {
        match self.position(entry.alias.as_str()) {
            Some(_) => Err(entry),
            None => {
                self.peers.push(entry);
                Ok(())
            },
        }
    }
}

/// Adding never creates a second peer with the same alias, and a peer
/// just added is the one its alias finds.
pub proof fn law_try_add_keeps_aliases_unique(before: Seq<PeerEntry>, entry: PeerEntry, after: Seq<PeerEntry>)
    requires
        unique_aliases(before),
        find_index(before, entry.alias@) is Some ==> after == before,
        find_index(before, entry.alias@) is None ==> after == before.push(entry),
    ensures
        unique_aliases(after),
        find_index(after, entry.alias@) is Some,
        find_index(before, entry.alias@) is None ==> find_index(after, entry.alias@) == Some(before.len() as int),
{
    if find_index(before, entry.alias@) is None {
        assert forall|i: int, j: int| 0 <= i < j < after.len() implies (#[trigger] after[i]).alias@ != (#[trigger] after[j]).alias@ by {
            if j == before.len() {
                assert(after[i] == before[i]);
            } else {
                assert(after[i] == before[i]);
                assert(after[j] == before[j]);
            }
        }
        assert forall|k: int| 0 <= k < before.len() implies after[k].alias@ != entry.alias@ by {
            assert(after[k] == before[k]);
        }
        lemma_find_index(after, entry.alias@, before.len() as int);
    }
}

} // verus!

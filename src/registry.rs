use vstd::prelude::*;

use crate::text::{chars_of, string_of};

verus! {

/// How a service provider can be reached: its identifier, its websocket URL
/// and its port.
pub struct PeerInfo {
    pub peer_id: String,
    pub ws_url: String,
    pub port: u16,
}

/// Mathematical form of a [`PeerInfo`].
pub ghost struct PeerInfoModel {
    pub peer_id: Seq<char>,
    pub ws_url: Seq<char>,
    pub port: u16,
}

impl View for PeerInfo {
    type V = PeerInfoModel;

    open spec fn view(&self) -> PeerInfoModel {
        PeerInfoModel { peer_id: self.peer_id@, ws_url: self.ws_url@, port: self.port }
    }
}

impl PeerInfo {
    pub fn new(peer_id: String, ws_url: String, port: u16) -> (r: PeerInfo)
        ensures
            r@ == (PeerInfoModel { peer_id: peer_id@, ws_url: ws_url@, port }),
    {
        PeerInfo { peer_id, ws_url, port }
    }

    /// A copy of this record.
    pub fn duplicate(&self) -> (r: PeerInfo)
        ensures
            r@ == self@,
    {
        PeerInfo { peer_id: self.peer_id.clone(), ws_url: self.ws_url.clone(), port: self.port }
    }
}

/// The identifier a provider registers under: `py-ws-` followed by `id`.
pub open spec fn provider_id_of(id: Seq<char>) -> Seq<char> {
    seq!['p', 'y', '-', 'w', 's', '-'] + id
}

/// Builds the identifier a provider registers under from a unique id.
pub fn provider_peer_id(id: &str) -> (r: String)
    ensures
        r@ == provider_id_of(id@),
{
    let mut cs: Vec<char> = vec!['p', 'y', '-', 'w', 's', '-'];
    let mut rest = chars_of(id);
    cs.append(&mut rest);
    string_of(&cs)
}

/// Relies on `uuid::Uuid::new_v4` and the `Display` of `Uuid`: a fresh random
/// identifier in text form. Nothing is promised of its value.
#[verifier::external_body]
fn random_uuid() -> (r: String) {
    uuid::Uuid::new_v4().to_string()
}

/// Mathematical form of the registry: its entries in insertion order.
pub type Entries = Seq<(Seq<char>, PeerInfoModel)>;

/// Keys of the entries are pairwise distinct.
pub open spec fn keys_unique(es: Entries) -> bool {
    forall|i: int, j: int| 0 <= i < j < es.len() ==> #[trigger] es[i].0 != #[trigger] es[j].0
}

/// The entries after storing `info` under `key`: the entry with that key is
/// replaced in place, or a new one is added at the end.
pub open spec fn stored(old_es: Entries, new_es: Entries, key: Seq<char>, info: PeerInfoModel) -> bool {
    ||| exists|i: int|
        0 <= i < old_es.len() && old_es[i].0 == key && new_es == old_es.update(i, (key, info))
    ||| (forall|i: int| 0 <= i < old_es.len() ==> old_es[i].0 != key) && new_es == old_es.push(
        (key, info),
    )
}

/// The services this process registered, each under its key, with at most one
/// record per key.
pub struct ServiceRegistry {
    entries: Vec<(String, PeerInfo)>,
}

impl View for ServiceRegistry {
    type V = Entries;

    closed spec fn view(&self) -> Entries {
        self.entries@.map_values(|e: (String, PeerInfo)| (e.0@, e.1@))
    }
}

impl ServiceRegistry {
    /// Well-formedness: one record per key.
    pub open spec fn wf(&self) -> bool {
        keys_unique(self@)
    }

    /// An empty registry.
    pub fn new() -> (r: ServiceRegistry)
        ensures
            r.wf(),
            r@ == Seq::<(Seq<char>, PeerInfoModel)>::empty(),
    {
        let r = ServiceRegistry { entries: Vec::new() };
        assert(r@ =~= Seq::<(Seq<char>, PeerInfoModel)>::empty());
        r
    }

    /// Stores `info` under `key`, replacing the record of that key if there is
    /// one.
    pub fn insert(&mut self, key: String, info: PeerInfo)
        requires
            old(self).wf(),
        ensures
            final(self).wf(),
            stored(old(self)@, final(self)@, key@, info@),
    {
        let ghost es = self@;
        let mut i: usize = 0;
        while i < self.entries.len()
            invariant
                i <= self.entries.len(),
                es == self@,
                es == old(self)@,
                keys_unique(es),
                forall|j: int| 0 <= j < i ==> es[j].0 != key@,
            decreases self.entries.len() - i,
        {
            assert(es[i as int].0 == self.entries@[i as int].0@);
            if self.entries[i].0 == key {
                let ghost k = key@;
                let ghost v = info@;
                assert(es[i as int].0 == k);
                self.entries.set(i, (key, info));
                assert(self@ =~= es.update(i as int, (k, v)));
                assert(keys_unique(self@)) by {
                    assert forall|a: int, b: int| 0 <= a < b < self@.len() implies #[trigger] self@[a].0
                        != #[trigger] self@[b].0 by {
                        assert(self@[a].0 == es[a].0);
                        assert(self@[b].0 == es[b].0);
                    }
                }
                assert(0 <= i < es.len() && es[i as int].0 == k && self@ == es.update(
                    i as int,
                    (k, v),
                ));
                return;
            }
            i = i + 1;
        }
        let ghost k = key@;
        let ghost v = info@;
        self.entries.push((key, info));
        assert(self@ =~= es.push((k, v)));
    }

    /// Generates a provider identifier for a service offered at `ws_url` and
    /// `port`, stores the record under `key` and returns it.
    pub fn register(&mut self, key: String, ws_url: String, port: u16) -> (r: PeerInfo)
        requires
            old(self).wf(),
        ensures
            final(self).wf(),
            stored(old(self)@, final(self)@, key@, r@),
            exists|id: Seq<char>| r@.peer_id == provider_id_of(id),
            r@.ws_url == ws_url@,
            r@.port == port,
    {
        let id = random_uuid();
        let peer_id = provider_peer_id(id.as_str());
        let info = PeerInfo::new(peer_id, ws_url, port);
        let kept = info.duplicate();
        self.insert(key, info);
        assert(kept@.peer_id == provider_id_of(id@));
        kept
    }

    /// Each registered key with the websocket URL of its record, in
    /// registration order.
    pub fn list_services(&self) -> (r: Vec<(String, String)>)
        ensures
            r@.len() == self@.len(),
            forall|i: int|
                0 <= i < r@.len() ==> (#[trigger] r@[i]).0@ == self@[i].0 && r@[i].1@
                    == self@[i].1.ws_url,
    {
        let mut r: Vec<(String, String)> = Vec::new();
        let mut i: usize = 0;
        while i < self.entries.len()
            invariant
                i <= self.entries.len(),
                r@.len() == i,
                forall|j: int|
                    0 <= j < i ==> (#[trigger] r@[j]).0@ == self@[j].0 && r@[j].1@
                        == self@[j].1.ws_url,
            decreases self.entries.len() - i,
        {
            let e = &self.entries[i];
            r.push((e.0.clone(), e.1.ws_url.clone()));
            i = i + 1;
        }
        r
    }
}

} // verus!

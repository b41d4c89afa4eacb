use vstd::prelude::*;

use crate::bytes_util::copy_bytes;

verus! {

/// What parsing the text `s` as a multi-address gives: `None` when it is not
/// one, else its protocols in order, each the binary peer id for a `/p2p/`
/// protocol and `None` for any other.
pub uninterp spec fn multiaddr_peers(s: Seq<char>) -> Option<Seq<Option<Seq<u8>>>>;

/// Relies on `FromStr` for `libp2p::Multiaddr`, on `Multiaddr::iter` and on
/// `PeerId::to_bytes`: parses the text and lists its protocols, keeping the
/// peer id of each `/p2p/` one.
#[verifier::external_body]
fn parse_multiaddr(s: &str) -> (r: Option<Vec<Option<Vec<u8>>>>)
    ensures
        r.deep_view() == multiaddr_peers(s@),
{
    let m: libp2p::Multiaddr = s.parse().ok()?;
    Some(
        m.iter().map(|p| match p {
            libp2p::multiaddr::Protocol::P2p(id) => Some(id.to_bytes()),
            _ => None,
        }).collect(),
    )
}

/// The first peer id among the protocols of an address.
pub open spec fn first_peer(ps: Seq<Option<Seq<u8>>>) -> Option<Seq<u8>>
    decreases ps.len(),
{
    if ps.len() == 0 {
        None
    } else if ps[0] is Some {
        ps[0]
    } else {
        first_peer(ps.drop_first())
    }
}

/// The peer that a seed address names: `None` when the address is malformed
/// or names no peer.
pub open spec fn seed_peer_of(addr: Seq<char>) -> Option<Seq<u8>> {
    match multiaddr_peers(addr) {
        Some(ps) => first_peer(ps),
        None => None,
    }
}

/// A bootstrap seed that can go into the routing table: the peer id it names
/// and its address.
pub struct Seed {
    pub peer: Vec<u8>,
    pub addr: String,
}

impl View for Seed {
    type V = (Seq<u8>, Seq<char>);

    open spec fn view(&self) -> (Seq<u8>, Seq<char>) {
        (self.peer@, self.addr@)
    }
}

/// The usable seeds among `addrs`, in order, each with the peer it names.
/// Addresses that are malformed or name no peer are left out.
pub open spec fn usable_seeds(addrs: Seq<Seq<char>>) -> Seq<(Seq<u8>, Seq<char>)>
    decreases addrs.len(),
{
    if addrs.len() == 0 {
        Seq::empty()
    } else {
        let rest = usable_seeds(addrs.drop_last());
        match seed_peer_of(addrs.last()) {
            Some(p) => rest.push((p, addrs.last())),
            None => rest,
        }
    }
}

/// The peer id that a seed address names, if it parses and names one.
pub fn seed_peer(addr: &str) -> (r: Option<Vec<u8>>)
    ensures
        r.deep_view() == seed_peer_of(addr@),
{
    let parsed = parse_multiaddr(addr);
    let ghost pv = parsed.deep_view();
    match parsed {
        None => None,
        Some(ps) => {
            let ghost dv = ps.deep_view();
            assert(pv == Some(dv));
            assert(dv.skip(0) =~= dv);
            let mut i: usize = 0;
            while i < ps.len()
                invariant
                    i <= ps.len(),
                    dv == ps.deep_view(),
                    multiaddr_peers(addr@) == Some(dv),
                    first_peer(dv.skip(i as int)) == first_peer(dv),
                decreases ps.len() - i,
            {
                assert(dv.skip(i as int)[0] == dv[i as int]);
                match &ps[i] {
                    Some(p) => {
                        let c = copy_bytes(p);
                        assert(c.deep_view() =~= p.deep_view());
                        let r = Some(c);
                        assert(r.deep_view() == dv[i as int]);
                        return r;
                    },
                    None => {},
                }
                assert(dv.skip(i as int).drop_first() =~= dv.skip(i + 1));
                i = i + 1;
            }
            assert(dv.skip(i as int) =~= Seq::<Option<Seq<u8>>>::empty());
            None
        },
    }
}

/// Parses the bootstrap seed addresses, keeping in order each that names a
/// peer; a malformed one is skipped and the others are still taken.
pub fn bootstrap_seeds(addrs: &Vec<String>) -> (r: Vec<Seed>)
    ensures
        r@.map_values(|s: Seed| s@) == usable_seeds(addrs.deep_view()),
{
    let ghost dv = addrs.deep_view();
    let mut r: Vec<Seed> = Vec::new();
    let mut k: usize = 0;
    while k < addrs.len()
        invariant
            k <= addrs.len(),
            dv == addrs.deep_view(),
            r@.map_values(|s: Seed| s@) == usable_seeds(dv.take(k as int)),
        decreases addrs.len() - k,
    {
        let ghost before = r@;
        assert(dv.take(k + 1).drop_last() =~= dv.take(k as int));
        assert(dv.take(k + 1).last() == addrs@[k as int]@);
        match seed_peer(addrs[k].as_str()) {
            Some(peer) => {
                assert(peer.deep_view() =~= peer@);
                r.push(Seed { peer, addr: addrs[k].clone() });
                assert(r@.map_values(|s: Seed| s@) =~= before.map_values(|s: Seed| s@).push(
                    r@.last()@,
                ));
            },
            None => {},
        }
        k = k + 1;
    }
    assert(dv.take(k as int) =~= dv);
    r
}

/// Usable seeds of two lists of addresses, one after the other, are those of
/// each list in turn.
pub proof fn lemma_usable_seeds_concat(a: Seq<Seq<char>>, b: Seq<Seq<char>>)
    ensures
        usable_seeds(a + b) == usable_seeds(a) + usable_seeds(b),
    decreases b.len(),
{
    if b.len() == 0 {
        assert(a + b =~= a);
        assert(usable_seeds(a) + usable_seeds(b) =~= usable_seeds(a));
    } else {
        lemma_usable_seeds_concat(a, b.drop_last());
        assert((a + b).drop_last() =~= a + b.drop_last());
        assert((a + b).last() == b.last());
        let l = usable_seeds(a);
        let m = usable_seeds(b.drop_last());
        match seed_peer_of(b.last()) {
            Some(p) => {
                assert((l + m).push((p, b.last())) =~= l + m.push((p, b.last())));
            },
            None => {},
        }
    }
}

/// Seed parsing resilience: a malformed seed, or one naming no peer, is
/// skipped, and the seeds around it are taken exactly as without it.
pub proof fn lemma_malformed_seed_skipped(
    before: Seq<Seq<char>>,
    bad: Seq<char>,
    after: Seq<Seq<char>>,
)
    requires
        seed_peer_of(bad) is None,
    ensures
        usable_seeds(before + seq![bad] + after) == usable_seeds(before + after),
{
    lemma_usable_seeds_concat(before + seq![bad], after);
    lemma_usable_seeds_concat(before, seq![bad]);
    lemma_usable_seeds_concat(before, after);
    assert(seq![bad].drop_last() =~= Seq::<Seq<char>>::empty());
    assert(seq![bad].last() == bad);
    assert(usable_seeds(Seq::<Seq<char>>::empty()) =~= Seq::<(Seq<u8>, Seq<char>)>::empty());
    assert(usable_seeds(seq![bad]) =~= Seq::<(Seq<u8>, Seq<char>)>::empty());
    assert(usable_seeds(before) + usable_seeds(seq![bad]) =~= usable_seeds(before));
}

} // verus!

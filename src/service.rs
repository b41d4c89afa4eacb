use vstd::prelude::*;

use crate::text::{chars_of, string_of};

verus! {

/// The DHT key of a service: the name prefixed with `service:`.
pub open spec fn service_key_of(name: Seq<char>) -> Seq<char> {
    seq!['s', 'e', 'r', 'v', 'i', 'c', 'e', ':'] + name
}

/// Derives the key under which a service is advertised and looked up. It
/// depends on the name alone, so that nodes that agree on the name meet.
pub fn service_key(name: &str) -> (r: String)
    ensures
        r@ == service_key_of(name@),
{
    let mut cs: Vec<char> = vec!['s', 'e', 'r', 'v', 'i', 'c', 'e', ':'];
    let mut rest = chars_of(name);
    cs.append(&mut rest);
    string_of(&cs)
}

/// Determinism of rendezvous: two nodes that derive the key of the same
/// service name get the same key, and different names give different keys.
pub proof fn lemma_service_key_rendezvous(a: Seq<char>, b: Seq<char>)
    ensures
        (a == b) <==> (service_key_of(a) == service_key_of(b)),
{
    if service_key_of(a) == service_key_of(b) {
        assert(a =~= service_key_of(a).skip(8));
        assert(b =~= service_key_of(b).skip(8));
    }
}

} // verus!

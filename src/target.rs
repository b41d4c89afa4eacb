use vstd::prelude::*;
use vstd::string::StringSliceAdditionalSpecFns;

verus! {

/// Length in bytes of a DHT target id.
pub const TARGET_LEN: usize = 20;

/// An ASCII hexadecimal digit, either case.
pub open spec fn is_hex_digit(c: u8) -> bool {
    (0x30 <= c && c <= 0x39) || (0x41 <= c && c <= 0x46) || (0x61 <= c && c <= 0x66)
}

/// The value of a hexadecimal digit.
pub open spec fn hex_value(c: u8) -> int {
    if c <= 0x39 {
        c - 0x30
    } else if c <= 0x46 {
        c - 0x41 + 10
    } else {
        c - 0x61 + 10
    }
}

/// The bytes that hexadecimal text stands for, two digits per byte, high
/// digit first; `None` for an odd length or a byte that is no digit.
pub open spec fn hex_decoded(h: Seq<u8>) -> Option<Seq<u8>> {
    if h.len() % 2 == 0 && forall|i: int| 0 <= i < h.len() ==> is_hex_digit(#[trigger] h[i]) {
        Some(Seq::new((h.len() / 2) as nat, |i: int| (hex_value(h[2 * i]) * 16 + hex_value(h[2 * i + 1])) as u8))
    } else {
        None
    }
}

/// Relies on `hex::decode`: pairs of hexadecimal digits of either case become
/// one byte each; an odd length or any other byte is an error.
#[verifier::external_body]
fn hex_decode(h: &[u8]) -> (r: Option<Vec<u8>>)
    ensures
        (r is Some) == (hex_decoded(h@) is Some),
        r is Some ==> r->0@ == hex_decoded(h@)->0,
{
    hex::decode(h).ok()
}

/// `b` without its leading repetitions of the bytes of `Id(`.
pub open spec fn strip_id_prefix(b: Seq<u8>) -> Seq<u8>
    decreases b.len(),
{
    if b.len() >= 3 && b[0] == 0x49 && b[1] == 0x64 && b[2] == 0x28 {
        strip_id_prefix(b.skip(3))
    } else {
        b
    }
}

/// `b` without its trailing `)` bytes.
pub open spec fn strip_close_parens(b: Seq<u8>) -> Seq<u8>
    decreases b.len(),
{
    if b.len() > 0 && b.last() == 0x29 {
        strip_close_parens(b.drop_last())
    } else {
        b
    }
}

/// The hexadecimal part of a target id written as `Id(<hex>)`, or as bare
/// hexadecimal.
pub open spec fn target_hex_of(b: Seq<u8>) -> Seq<u8> {
    strip_close_parens(strip_id_prefix(b))
}

/// Why a written target id was refused.
#[derive(Clone, Copy, PartialEq, Eq, Debug)]
pub enum TargetError {
    /// The text between the wrapper is not hexadecimal.
    InvalidHex,
    /// The bytes are not as many as a target id has.
    WrongLength,
}

/// What reading the target id written in the text of bytes `b` gives.
pub open spec fn target_of(b: Seq<u8>) -> Result<Seq<u8>, TargetError> {
    match hex_decoded(target_hex_of(b)) {
        None => Err(TargetError::InvalidHex),
        Some(d) => if d.len() == TARGET_LEN {
            Ok(d)
        } else {
            Err(TargetError::WrongLength)
        },
    }
}

/// Reads a target id written as `Id(<40 hex digits>)`, as the debug form of
/// an id prints it, or as the bare digits.
pub fn parse_target(hash_str: &str) -> (r: Result<Vec<u8>, TargetError>)
    ensures
        match target_of(hash_str.spec_bytes()) {
            Ok(d) => r is Ok && r->Ok_0@ == d,
            Err(e) => r == Err::<Vec<u8>, TargetError>(e),
        },
{
    let b = hash_str.as_bytes();
    let ghost s = b@;
    let n = b.len();
    let mut start: usize = 0;
    assert(s.skip(0) =~= s);
    while n - start >= 3 && b[start] == 0x49 && b[start + 1] == 0x64 && b[start + 2] == 0x28
        invariant
            start <= n,
            n == b@.len(),
            s == b@,
            strip_id_prefix(s.skip(start as int)) == strip_id_prefix(s),
        decreases n - start,
    {
        assert(s.skip(start as int).skip(3) =~= s.skip(start + 3));
        start = start + 3;
    }
    let mut end: usize = n;
    assert(s.subrange(start as int, n as int) =~= s.skip(start as int));
    while end > start && b[end - 1] == 0x29
        invariant
            start <= end <= n,
            n == b@.len(),
            s == b@,
            strip_close_parens(s.subrange(start as int, end as int)) == target_hex_of(s),
        decreases end - start,
    {
        assert(s.subrange(start as int, end as int).drop_last() =~= s.subrange(
            start as int,
            end - 1,
        ));
        end = end - 1;
    }
    let mut h: Vec<u8> = Vec::new();
    let mut k: usize = start;
    while k < end
        invariant
            start <= k <= end <= n,
            n == b@.len(),
            s == b@,
            h@ == s.subrange(start as int, k as int),
        decreases end - k,
    {
        h.push(b[k]);
        k = k + 1;
    }
    assert(h@ == target_hex_of(s));
    match hex_decode(h.as_slice()) {
        None => Err(TargetError::InvalidHex),
        Some(d) => {
            if d.len() == TARGET_LEN {
                Ok(d)
            } else {
                Err(TargetError::WrongLength)
            }
        },
    }
}

/// The DHT target that immutable data with the bytes `b` is stored under.
pub uninterp spec fn immutable_target(b: Seq<u8>) -> Seq<u8>;

/// Relies on `mainline::common::hash_immutable`: the 20-byte target of an
/// immutable value, a function of its bytes alone.
#[verifier::external_body]
fn hash_immutable(b: &[u8]) -> (r: Vec<u8>)
    ensures
        r@ == immutable_target(b@),
        r@.len() == TARGET_LEN,
{
    mainline::common::hash_immutable(b).to_vec()
}

/// The DHT target under which a service's record is looked up: the target of
/// the bytes of its key.
pub fn service_target(service_key: &str) -> (r: Vec<u8>)
    ensures
        r@ == immutable_target(service_key.spec_bytes()),
        r@.len() == TARGET_LEN,
{
    hash_immutable(service_key.as_bytes())
}

} // verus!

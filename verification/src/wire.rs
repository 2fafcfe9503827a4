//! The binary form of plain values on the wire: fixed-width little-endian
//! integers, arrays without a length, sequences behind a 64-bit length.
use vstd::prelude::*;

verus! {

/// A 16-bit integer, least significant byte first.
pub open spec fn u16_le(n: u16) -> Seq<u8> {
    seq![(n % 256) as u8, (n / 256) as u8]
}

/// A 32-bit integer, least significant byte first.
pub open spec fn u32_le(n: u32) -> Seq<u8> {
    seq![
        (n % 256) as u8,
        (n / 256 % 256) as u8,
        (n / 65536 % 256) as u8,
        (n / 16777216) as u8,
    ]
}

/// A 64-bit integer, least significant byte first.
pub open spec fn u64_le(n: u64) -> Seq<u8> {
    u32_le((n % 0x1_0000_0000) as u32) + u32_le((n / 0x1_0000_0000) as u32)
}

/// The number that two bytes stand for.
pub open spec fn u16_of(s: Seq<u8>) -> nat {
    (s[0] + 256 * s[1]) as nat
}

/// The number that four bytes stand for.
pub open spec fn u32_of(s: Seq<u8>) -> nat {
    (s[0] + 256 * s[1] + 65536 * s[2] + 16777216 * s[3]) as nat
}

/// The number that eight bytes stand for.
pub open spec fn u64_of(s: Seq<u8>) -> nat {
    (u32_of(s.subrange(0, 4)) + 0x1_0000_0000 * u32_of(s.subrange(4, 8))) as nat
}

/// Reading two bytes gives back what was written.
pub proof fn lemma_u16_round_trip(n: u16)
    ensures
        u16_le(n).len() == 2,
        u16_of(u16_le(n)) == n,
{
}

/// Reading four bytes gives back what was written.
pub proof fn lemma_u32_round_trip(n: u32)
    ensures
        u32_le(n).len() == 4,
        u32_of(u32_le(n)) == n,
{
}

/// Reading eight bytes gives back what was written.
pub proof fn lemma_u64_round_trip(n: u64)
    ensures
        u64_le(n).len() == 8,
        u64_of(u64_le(n)) == n,
{
    let lo = (n % 0x1_0000_0000) as u32;
    let hi = (n / 0x1_0000_0000) as u32;
    lemma_u32_round_trip(lo);
    lemma_u32_round_trip(hi);
    assert(u64_le(n).subrange(0, 4) =~= u32_le(lo));
    assert(u64_le(n).subrange(4, 8) =~= u32_le(hi));
}

proof fn lemma_low_byte(low: int, rest: int)
    requires
        0 <= low < 256,
        0 <= rest,
    ensures
        (low + 256 * rest) % 256 == low,
        (low + 256 * rest) / 256 == rest,
{
}

proof fn lemma_low_half(low: int, high: int)
    requires
        0 <= low <= u32::MAX,
        0 <= high <= u32::MAX,
    ensures
        low + 0x1_0000_0000 * high <= u64::MAX,
        (low + 0x1_0000_0000 * high) % 0x1_0000_0000 == low,
        (low + 0x1_0000_0000 * high) / 0x1_0000_0000 == high,
{
}

/// Writing the number that two bytes stand for gives the bytes back.
pub proof fn lemma_u16_of_le(s: Seq<u8>)
    requires
        s.len() == 2,
    ensures
        u16_of(s) <= u16::MAX,
        u16_le(u16_of(s) as u16) == s,
{
    assert(u16_le(u16_of(s) as u16) =~= s);
}

/// Writing the number that four bytes stand for gives the bytes back.
pub proof fn lemma_u32_of_le(s: Seq<u8>)
    requires
        s.len() == 4,
    ensures
        u32_of(s) <= u32::MAX,
        u32_le(u32_of(s) as u32) == s,
{
    let n = u32_of(s) as u32;
    let r1 = s[1] + 256 * (s[2] + 256 * s[3]);
    let r2 = s[2] + 256 * s[3];
    assert(n == s[0] + 256 * r1);
    lemma_low_byte(s[0] as int, r1);
    lemma_low_byte(s[1] as int, r2);
    lemma_low_byte(s[2] as int, s[3] as int);
    assert(n / 256 == r1);
    assert(n / 65536 == r2);
    assert(n / 16777216 == s[3]);
    assert(u32_le(u32_of(s) as u32) =~= s);
}

/// Writing the number that eight bytes stand for gives the bytes back.
pub proof fn lemma_u64_of_le(s: Seq<u8>)
    requires
        s.len() == 8,
    ensures
        u64_of(s) <= u64::MAX,
        u64_le(u64_of(s) as u64) == s,
{
    let a = s.subrange(0, 4);
    let b = s.subrange(4, 8);
    lemma_u32_of_le(a);
    lemma_u32_of_le(b);
    lemma_low_half(u32_of(a) as int, u32_of(b) as int);
    let n = u64_of(s) as u64;
    assert((n % 0x1_0000_0000) as u32 == u32_of(a) as u32);
    assert((n / 0x1_0000_0000) as u32 == u32_of(b) as u32);
    assert(a + b =~= s);
}

/// Reads a 32-bit integer from four bytes.
pub fn read_u32_le(b: &[u8]) -> (n: u32)
    requires
        b@.len() == 4,
    ensures
        n == u32_of(b@),
{
    b[0] as u32 + 256 * (b[1] as u32) + 65536 * (b[2] as u32) + 16777216 * (b[3] as u32)
}

/// Reads a 16-bit integer from two bytes.
pub fn read_u16_le(b: &[u8]) -> (n: u16)
    requires
        b@.len() == 2,
    ensures
        n == u16_of(b@),
{
    b[0] as u16 + 256 * (b[1] as u16)
}

/// Reads a 64-bit integer from eight bytes.
pub fn read_u64_le(b: &[u8]) -> (n: u64)
    requires
        b@.len() == 8,
    ensures
        n == u64_of(b@),
{
    let lo: u32 = read_u32_le(&b[0..4]);
    let hi: u32 = read_u32_le(&b[4..8]);
    lo as u64 + 0x1_0000_0000 * (hi as u64)
}

/// `bincode::serialize` writes a `u32` as four little-endian bytes.
#[verifier::external_body]
pub(crate) fn serialize_u32(tag: u32) -> (r: Vec<u8>)
    ensures
        r@ == u32_le(tag),
{
    bincode::serialize(&tag).unwrap()
}

/// `bincode::serialize` writes an array of 32 bytes as those bytes.
#[verifier::external_body]
pub(crate) fn serialize_digest(digest: &[u8; 32]) -> (r: Vec<u8>)
    ensures
        r@ == digest@,
{
    bincode::serialize(digest).unwrap()
}

/// `bincode::serialize` writes the members of a tuple one after another: a
/// little-endian `u32`, a byte, and 32 bytes.
#[verifier::external_body]
pub(crate) fn serialize_u32_u8_digest(tag: u32, version: u8, digest: &[u8; 32]) -> (r: Vec<u8>)
    ensures
        r@ == u32_le(tag) + seq![version] + digest@,
{
    bincode::serialize(&(tag, version, digest)).unwrap()
}

/// `bincode::serialize` writes the members of a tuple one after another: a
/// little-endian `u32` and 32 bytes.
#[verifier::external_body]
pub(crate) fn serialize_u32_digest(tag: u32, digest: &[u8; 32]) -> (r: Vec<u8>)
    ensures
        r@ == u32_le(tag) + digest@,
{
    bincode::serialize(&(tag, digest)).unwrap()
}

/// `bincode::serialize` writes the members of a tuple one after another: a
/// little-endian `u32`, 32 bytes, and a sequence as its length in a
/// little-endian `u64` and then its bytes.
#[verifier::external_body]
pub(crate) fn serialize_u32_digest_bytes(tag: u32, digest: &[u8; 32], data: &[u8]) -> (r: Vec<u8>)
    ensures
        r@ == u32_le(tag) + digest@ + u64_le(data@.len() as u64) + data@,
{
    bincode::serialize(&(tag, digest, data)).unwrap()
}

/// `bincode::serialize` writes the members of a tuple one after another: a
/// little-endian `u32`, four bytes, and two little-endian `u16`.
#[verifier::external_body]
pub(crate) fn serialize_v4_header(tag: u32, ip: &[u8; 4], port: u16, len: u16) -> (r: Vec<u8>)
    ensures
        r@ == u32_le(tag) + ip@ + u16_le(port) + u16_le(len),
{
    bincode::serialize(&(tag, ip, port, len)).unwrap()
}

/// `bincode::serialize` writes the members of a tuple one after another: a
/// little-endian `u32`, sixteen bytes, and two little-endian `u16`.
#[verifier::external_body]
pub(crate) fn serialize_v6_header(tag: u32, ip: &[u8; 16], port: u16, len: u16) -> (r: Vec<u8>)
    ensures
        r@ == u32_le(tag) + ip@ + u16_le(port) + u16_le(len),
{
    bincode::serialize(&(tag, ip, port, len)).unwrap()
}

/// `bincode::serialized_size` of a `u32` is four.
#[verifier::external_body]
pub(crate) fn serialized_size_u32(tag: u32) -> (n: usize)
    ensures
        n == u32_le(tag).len(),
{
    bincode::serialized_size(&tag).unwrap() as usize
}

/// `bincode::serialized_size` of an array of 32 bytes is 32.
#[verifier::external_body]
pub(crate) fn serialized_size_digest(digest: &[u8; 32]) -> (n: usize)
    ensures
        n == digest@.len(),
{
    bincode::serialized_size(digest).unwrap() as usize
}

/// `bincode::serialized_size` of a tuple is the sum over its members: four for
/// the `u32`, one for the byte, 32 for the array.
#[verifier::external_body]
pub(crate) fn serialized_size_u32_u8_digest(tag: u32, version: u8, digest: &[u8; 32]) -> (n: usize)
    ensures
        n == u32_le(tag).len() + 1 + digest@.len(),
{
    bincode::serialized_size(&(tag, version, digest)).unwrap() as usize
}

/// `bincode::deserialize` reads a `u32` from the first four bytes, ignores
/// what follows, and fails exactly when there are fewer bytes.
#[verifier::external_body]
pub(crate) fn deserialize_u32(bytes: &[u8]) -> (r: Option<u32>)
    ensures
        r is Some <==> bytes@.len() >= 4,
        r is Some ==> r->0 == u32_of(bytes@.subrange(0, 4)),
{
    bincode::deserialize(bytes).ok()
}

/// `bincode::deserialize` reads an array from the first 32 bytes, ignores what
/// follows, and fails exactly when there are fewer bytes.
#[verifier::external_body]
pub(crate) fn deserialize_digest(bytes: &[u8]) -> (r: Option<[u8; 32]>)
    ensures
        r is Some <==> bytes@.len() >= 32,
        r is Some ==> r->0@ == bytes@.subrange(0, 32),
{
    bincode::deserialize(bytes).ok()
}

/// `bincode::deserialize` reads the members of a tuple one after another (a
/// `u32`, a byte, an array of 32 bytes), ignores what follows, and fails
/// exactly when there are fewer bytes.
#[verifier::external_body]
pub(crate) fn deserialize_u32_u8_digest(bytes: &[u8]) -> (r: Option<(u32, u8, [u8; 32])>)
    ensures
        r is Some <==> bytes@.len() >= 37,
        r matches Some((tag, version, digest)) ==> tag == u32_of(bytes@.subrange(0, 4)) && version
            == bytes@[4] && digest@ == bytes@.subrange(5, 37),
{
    bincode::deserialize(bytes).ok()
}

/// `bincode::deserialize` reads the members of a tuple one after another (a
/// `u32`, an array of 32 bytes), ignores what follows, and fails exactly when
/// there are fewer bytes.
#[verifier::external_body]
pub(crate) fn deserialize_u32_digest(bytes: &[u8]) -> (r: Option<(u32, [u8; 32])>)
    ensures
        r is Some <==> bytes@.len() >= 36,
        r matches Some((tag, digest)) ==> tag == u32_of(bytes@.subrange(0, 4)) && digest@
            == bytes@.subrange(4, 36),
{
    bincode::deserialize(bytes).ok()
}

/// `bincode::deserialize` reads the members of a tuple one after another (a
/// `u32`, an array of four bytes, two `u16`), ignores what follows, and fails
/// exactly when there are fewer bytes.
#[verifier::external_body]
pub(crate) fn deserialize_v4_header(bytes: &[u8]) -> (r: Option<(u32, [u8; 4], u16, u16)>)
    ensures
        r is Some <==> bytes@.len() >= 12,
        r matches Some((tag, ip, port, len)) ==> tag == u32_of(bytes@.subrange(0, 4)) && ip@
            == bytes@.subrange(4, 8) && port == u16_of(bytes@.subrange(8, 10)) && len == u16_of(
            bytes@.subrange(10, 12),
        ),
{
    bincode::deserialize(bytes).ok()
}

/// `bincode::deserialize` reads the members of a tuple one after another (a
/// `u32`, an array of sixteen bytes, two `u16`), ignores what follows, and
/// fails exactly when there are fewer bytes.
#[verifier::external_body]
pub(crate) fn deserialize_v6_header(bytes: &[u8]) -> (r: Option<(u32, [u8; 16], u16, u16)>)
    ensures
        r is Some <==> bytes@.len() >= 24,
        r matches Some((tag, ip, port, len)) ==> tag == u32_of(bytes@.subrange(0, 4)) && ip@
            == bytes@.subrange(4, 20) && port == u16_of(bytes@.subrange(20, 22)) && len == u16_of(
            bytes@.subrange(22, 24),
        ),
{
    bincode::deserialize(bytes).ok()
}

} // verus!

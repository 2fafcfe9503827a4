//! DER elements: an identifier, a length, and as many bytes of content.
use vstd::prelude::*;

verus! {

/// The identifier of an INTEGER.
pub const INTEGER: u8 = 0x02;

/// The identifier of an OCTET STRING.
pub const OCTET_STRING: u8 = 0x04;

/// The identifier of an OBJECT IDENTIFIER.
pub const OBJECT_IDENTIFIER: u8 = 0x06;

/// The identifier of a SEQUENCE.
pub const SEQUENCE: u8 = 0x30;

/// The identifier of a SET.
pub const SET_OF: u8 = 0x31;

/// The identifier of an explicit context tag of number 0.
pub const CONTEXT_0: u8 = 0xa0;

/// The number that the bytes are in big endian.
pub open spec fn big_endian(s: Seq<u8>) -> nat
    decreases s.len(),
{
    if s.len() == 0 {
        0
    } else {
        big_endian(s.drop_last()) * 256 + s.last() as nat
    }
}

/// Where the number of a long tag ends that goes on at `i`: behind the first byte that is
/// below 128.
pub open spec fn tag_end(s: Seq<u8>, i: nat) -> Option<nat>
    decreases s.len() - i,
{
    if i >= s.len() {
        None
    } else if s[i as int] < 128 {
        Some(i + 1)
    } else {
        tag_end(s, i + 1)
    }
}

/// How many bytes the identifier at the front takes.
pub open spec fn identifier_len(s: Seq<u8>) -> Option<nat> {
    if s.len() == 0 {
        None
    } else if s[0] % 32 != 31 {
        Some(1)
    } else {
        tag_end(s, 1)
    }
}

/// How many bytes the length at the front takes, and what it says. There is none without
/// an end.
pub open spec fn length_at(s: Seq<u8>) -> Option<(nat, nat)> {
    if s.len() == 0 {
        None
    } else if s[0] < 128 {
        Some((1, s[0] as nat))
    } else {
        let count = s[0] - 128;
        if count == 0 || s.len() < 1 + count {
            None
        } else {
            Some(((1 + count) as nat, big_endian(s.subrange(1, 1 + count))))
        }
    }
}

/// Where the content of the element at the front starts, and how long it says it is.
pub open spec fn header(s: Seq<u8>) -> Option<(nat, nat)> {
    match identifier_len(s) {
        None => None,
        Some(i) => match length_at(s.skip(i as int)) {
            None => None,
            Some((j, length)) => Some((i + j, length)),
        },
    }
}

/// The content of the element at the front, and what comes behind the element.
#[verifier::opaque]
pub open spec fn any_element(s: Seq<u8>) -> Option<(Seq<u8>, Seq<u8>)> {
    match header(s) {
        Some((start, length)) => if start + length <= s.len() {
            Some((s.subrange(start as int, (start + length) as int), s.skip((start + length) as int)))
        } else {
            None
        },
        None => None,
    }
}

/// The content of the element at the front, where the element has the identifier, and what
/// comes behind the element.
pub open spec fn element(s: Seq<u8>, identifier: u8) -> Option<(Seq<u8>, Seq<u8>)> {
    if s.len() > 0 && s[0] == identifier {
        any_element(s)
    } else {
        None
    }
}

/// The element at the front can be skipped. Where its length fits in the size of an address,
/// the position of its end must too, wherever in a byte string the element lies, of which none
/// is longer than `isize::MAX`. A length that does not fit is none that a reader takes.
pub open spec fn skippable(s: Seq<u8>) -> bool {
    header(s) matches Some((start, length)) ==> {
        ||| length <= usize::MAX - isize::MAX
        ||| length > usize::MAX
        ||| start + length <= s.len()
    }
}

/// The content of an element and what comes behind it are shorter than the whole.
pub proof fn lemma_element_len(s: Seq<u8>)
    ensures
        any_element(s) matches Some((content, rest)) ==> content.len() + rest.len() < s.len(),
{
    reveal(any_element);
}

/// The bytes of a number in big endian, without leading zeros.
pub open spec fn digits(n: nat) -> Seq<u8>
    decreases n,
{
    if n == 0 {
        Seq::empty()
    } else {
        digits(n / 256).push((n % 256) as u8)
    }
}

/// A length in its shortest form.
pub open spec fn length_bytes(n: nat) -> Seq<u8> {
    if n < 128 {
        seq![n as u8]
    } else {
        seq![(128 + digits(n).len()) as u8] + digits(n)
    }
}

/// The element with the identifier and the content.
pub open spec fn wrap(identifier: u8, content: Seq<u8>) -> Seq<u8> {
    seq![identifier] + length_bytes(content.len()) + content
}

/// The digits of a number are the number, and there are at most `k` of them below 256 to the
/// power of `k`, which is handed in.
proof fn lemma_digits(n: nat, k: nat, power: nat)
    requires
        n < power,
        power == vstd::arithmetic::power::pow(256, k),
    ensures
        big_endian(digits(n)) == n,
        digits(n).len() <= k,
        n > 0 ==> digits(n).len() > 0,
    decreases k,
{
    if k == 0 {
        vstd::arithmetic::power::lemma_pow0(256);
    } else {
        reveal(vstd::arithmetic::power::pow);
        let below = vstd::arithmetic::power::pow(256, (k - 1) as nat);
        assert(power == 256 * below);
        if n > 0 {
            assert(n / 256 < below) by (nonlinear_arith)
                requires
                    n < power,
                    power == 256 * below,
            ;
            vstd::arithmetic::power::lemma_pow_positive(256, (k - 1) as nat);
            lemma_digits(n / 256, (k - 1) as nat, below as nat);
            assert(digits(n).drop_last() =~= digits(n / 256));
        }
    }
}

/// A length takes at most nine bytes.
pub proof fn lemma_length_len(n: nat)
    requires
        n <= u64::MAX,
    ensures
        1 <= length_bytes(n).len() <= 9,
{
    assert(vstd::arithmetic::power::pow(256, 8) == 0x1_0000_0000_0000_0000) by {
        reveal_with_fuel(vstd::arithmetic::power::pow, 9);
    }
    lemma_digits(n, 8, 0x1_0000_0000_0000_0000);
}

/// What was wrapped is read back, whatever comes behind it.
pub proof fn law_a_wrapped_element_is_read_back(identifier: u8, content: Seq<u8>, rest: Seq<u8>)
    requires
        identifier % 32 != 31,
        content.len() <= u64::MAX,
    ensures
        element(wrap(identifier, content) + rest, identifier) == Some((content, rest)),
{
    reveal(any_element);
    let n = content.len();
    let s = wrap(identifier, content) + rest;
    let after = s.skip(1);
    assert(vstd::arithmetic::power::pow(256, 8) == 0x1_0000_0000_0000_0000) by {
        reveal_with_fuel(vstd::arithmetic::power::pow, 9);
    }
    lemma_digits(n, 8, 0x1_0000_0000_0000_0000);
    assert(s[0] == identifier);
    assert(identifier_len(s) == Some(1nat));
    if n < 128 {
        assert(after[0] == n as u8);
        assert(length_at(after) == Some((1nat, n)));
        assert(s.subrange(2, 2 + n as int) =~= content);
        assert(s.skip(2 + n as int) =~= rest);
    } else {
        let count = digits(n).len();
        assert(after[0] == (128 + count) as u8);
        assert(after.subrange(1, 1 + count as int) =~= digits(n));
        assert(length_at(after) == Some(((1 + count) as nat, n)));
        assert(s.subrange(2 + count as int, 2 + count as int + n) =~= content);
        assert(s.skip(2 + count as int + n) =~= rest);
    }
}

/// Reads a number in big endian, unless it is above the limit.
pub fn read_number(s: &[u8], limit: u64) -> (r: Option<u64>)
    ensures
        match r {
            Some(n) => n == big_endian(s@) && n <= limit,
            None => big_endian(s@) > limit,
        },
{
    let mut number: u128 = 0;
    let mut i: usize = 0;
    while i < s.len()
        invariant
            i <= s@.len(),
            if big_endian(s@.take(i as int)) <= limit {
                number == big_endian(s@.take(i as int))
            } else {
                number > limit
            },
        decreases s@.len() - i,
    {
        proof {
            assert(s@.take(i + 1).drop_last() =~= s@.take(i as int));
        }
        if number <= limit as u128 {
            number = number * 256 + s[i] as u128;
        }
        i += 1;
    }
    proof {
        assert(s@.take(i as int) =~= s@);
    }
    if number <= limit as u128 {
        Some(number as u64)
    } else {
        None
    }
}

/// What a header says, as far as it is below the limit: none stands for a longer length.
pub open spec fn says(length: Option<u64>, n: nat) -> bool {
    match length {
        Some(l) => l == n,
        None => n > u64::MAX,
    }
}

/// Reads the length at the front of the bytes.
fn read_length(s: &[u8]) -> (r: Option<(usize, Option<u64>)>)
    ensures
        match r {
            None => length_at(s@) is None,
            Some((taken, length)) => length_at(s@) matches Some((t, n)) && taken == t && taken
                <= s@.len() && says(length, n),
        },
{
    if s.len() == 0 {
        return None;
    }
    if s[0] < 128 {
        return Some((1, Some(s[0] as u64)));
    }
    let count: usize = (s[0] - 128) as usize;
    if count == 0 || s.len() - 1 < count {
        return None;
    }
    Some((1 + count, read_number(&s[1..1 + count], u64::MAX)))
}

/// Reads the identifier and the length at the front of the bytes.
fn read_header(s: &[u8]) -> (r: Option<(usize, Option<u64>)>)
    ensures
        match r {
            None => header(s@) is None,
            Some((start, length)) => header(s@) matches Some((t, n)) && start == t && 0 < start
                <= s@.len() && says(length, n),
        },
{
    if s.len() == 0 {
        return None;
    }
    let mut i: usize = 1;
    if s[0] % 32 == 31 {
        while i < s.len() && s[i] >= 128
            invariant
                1 <= i <= s@.len(),
                tag_end(s@, 1) == tag_end(s@, i as nat),
            decreases s@.len() - i,
        {
            i += 1;
        }
        if i == s.len() {
            return None;
        }
        i += 1;
    }
    proof {
        assert(s@.subrange(i as int, s@.len() as int) =~= s@.skip(i as int));
    }
    match read_length(&s[i..s.len()]) {
        None => None,
        Some((taken, length)) => Some((i + taken, length)),
    }
}

/// The content of the element at the front, and what comes behind the element.
pub fn read_any<'a>(s: &'a [u8]) -> (r: Option<(&'a [u8], &'a [u8])>)
    ensures
        match r {
            None => any_element(s@) is None,
            Some((content, rest)) => any_element(s@) == Some((content@, rest@)) && rest@.len()
                < s@.len(),
        },
{
    proof {
        reveal(any_element);
    }
    let len: usize = s.len();
    match read_header(s) {
        Some((start, Some(length))) => {
            if length > (len - start) as u64 {
                return None;
            }
            let end: usize = start + length as usize;
            proof {
                assert(s@.subrange(end as int, s@.len() as int) =~= s@.skip(end as int));
            }
            Some((&s[start..end], &s[end..s.len()]))
        },
        _ => None,
    }
}

/// The content of the element at the front, where the element has the identifier, and what
/// comes behind the element.
pub fn read_element<'a>(s: &'a [u8], identifier: u8) -> (r: Option<(&'a [u8], &'a [u8])>)
    ensures
        match r {
            None => element(s@, identifier) is None,
            Some((content, rest)) => element(s@, identifier) == Some((content@, rest@)) && rest@.len()
                < s@.len(),
        },
{
    if s.len() > 0 && s[0] == identifier {
        read_any(s)
    } else {
        None
    }
}

/// Whether the element at the front can be skipped.
pub fn check_skip(s: &[u8]) -> (r: bool)
    ensures
        r == skippable(s@),
{
    let len: usize = s.len();
    match read_header(s) {
        Some((start, Some(length))) => length <= (usize::MAX - isize::MAX as usize) as u64
            || length > usize::MAX as u64 || length <= (len - start) as u64,
        Some((_, None)) => true,
        None => true,
    }
}

/// Writes the bytes of a number in big endian, without leading zeros.
fn push_digits(out: &mut Vec<u8>, n: u64)
    ensures
        final(out)@ == old(out)@ + digits(n as nat),
    decreases n,
{
    if n > 0 {
        push_digits(out, n / 256);
        out.push((n % 256) as u8);
    }
    proof {
        assert(out@ =~= old(out)@ + digits(n as nat));
    }
}

/// The element with the identifier and the content.
pub fn write_element(identifier: u8, content: &[u8]) -> (r: Vec<u8>)
    ensures
        r@ == wrap(identifier, content@),
{
    let mut out: Vec<u8> = Vec::new();
    out.push(identifier);
    let n: u64 = content.len() as u64;
    if n < 128 {
        out.push(n as u8);
    } else {
        let mut bytes: Vec<u8> = Vec::new();
        push_digits(&mut bytes, n);
        proof {
            assert(vstd::arithmetic::power::pow(256, 8) == 0x1_0000_0000_0000_0000) by {
                reveal_with_fuel(vstd::arithmetic::power::pow, 9);
            }
            lemma_digits(n as nat, 8, 0x1_0000_0000_0000_0000);
            assert(bytes@ =~= digits(n as nat));
        }
        out.push(128 + bytes.len() as u8);
        out.extend_from_slice(bytes.as_slice());
    }
    proof {
        assert(out@ =~= seq![identifier] + length_bytes(content@.len()));
    }
    out.extend_from_slice(content);
    proof {
        assert(out@ =~= wrap(identifier, content@));
    }
    out
}

} // verus!

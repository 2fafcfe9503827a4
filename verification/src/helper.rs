//! Addresses of the form `host:port`.
use crate::text;
use vstd::prelude::*;

verus! {

/// Why a text is no address.
#[derive(Clone, Copy, PartialEq, Eq, Debug, Structural)]
pub enum AddrError {
    /// There is no colon.
    MissingPort,
    /// What follows the last colon is no port.
    InvalidPort,
}

impl AddrError {
    /// What the error says.
    pub fn message(&self) -> (r: &'static str)
        ensures
            r@ == (match *self {
                AddrError::MissingPort => "missing port in address"@,
                AddrError::InvalidPort => "invalid port in address"@,
            }),
    {
        match self {
            AddrError::MissingPort => "missing port in address",
            AddrError::InvalidPort => "invalid port in address",
        }
    }
}

/// The index of the last colon, or -1 where there is none.
pub open spec fn last_colon(s: Seq<char>) -> int
    decreases s.len(),
{
    if s.len() == 0 {
        -1
    } else if s.last() == ':' {
        s.len() - 1
    } else {
        last_colon(s.drop_last())
    }
}

/// Whether the text consists of decimal digits.
pub open spec fn all_digits(s: Seq<char>) -> bool {
    forall|i: int| 0 <= i < s.len() ==> '0' <= #[trigger] s[i] <= '9'
}

/// The number that decimal digits stand for.
pub open spec fn digits_value(s: Seq<char>) -> nat
    decreases s.len(),
{
    if s.len() == 0 {
        0
    } else {
        digits_value(s.drop_last()) * 10 + (s.last() as nat - 48) as nat
    }
}

/// The text without a plus sign at its front.
pub open spec fn unsigned(s: Seq<char>) -> Seq<char> {
    if s.len() > 0 && s[0] == '+' {
        s.skip(1)
    } else {
        s
    }
}

/// The port that a text stands for: decimal digits, with a plus sign before them or
/// without, and no more than a port can be.
pub open spec fn port_of(s: Seq<char>) -> Option<nat> {
    let digits = unsigned(s);
    if digits.len() > 0 && all_digits(digits) && digits_value(digits) <= 65535 {
        Some(digits_value(digits))
    } else {
        None
    }
}

fn parse_port(s: &[char]) -> (r: Option<u16>)
    ensures
        match r {
            Some(port) => port_of(s@) == Some(port as nat),
            None => port_of(s@) is None,
        },
{
    let start: usize = if s.len() > 0 && s[0] == '+' {
        1
    } else {
        0
    };
    let ghost digits = unsigned(s@);
    if start == s.len() {
        return None;
    }
    let mut value: u32 = 0;
    let mut i: usize = start;
    proof {
        assert(s@.skip(0) =~= s@);
    }
    while i < s.len()
        invariant
            start <= i <= s@.len(),
            start <= 1,
            digits == unsigned(s@),
            digits == s@.skip(start as int),
            all_digits(digits.take(i - start)),
            value as int == if digits_value(digits.take(i - start)) > 65535 {
                65536int
            } else {
                digits_value(digits.take(i - start)) as int
            },
        decreases s@.len() - i,
    {
        let c = s[i];
        proof {
            assert(digits[i - start] == c);
            assert(digits.take(i + 1 - start).drop_last() =~= digits.take(i - start));
            assert(digits.take(i + 1 - start).last() == c);
        }
        if c < '0' || c > '9' {
            return None;
        }
        value = value * 10 + (c as u32 - 48);
        if value > 65535 {
            value = 65536;
        }
        i += 1;
    }
    proof {
        assert(digits.take(digits.len() as int) =~= digits);
    }
    if value > 65535 {
        None
    } else {
        Some(value as u16)
    }
}

/// What `host_port_pair` says of an address.
pub open spec fn address_parts(addr: Seq<char>) -> Result<(Seq<char>, nat), AddrError> {
    let colon = last_colon(addr);
    if colon < 0 {
        Err(AddrError::MissingPort)
    } else {
        match port_of(addr.skip(colon + 1)) {
            Some(port) => Ok((addr.take(colon), port)),
            None => Err(AddrError::InvalidPort),
        }
    }
}

/// Splits an address at its last colon into the host and the port.
pub fn host_port_pair(s: &str) -> (r: Result<(String, u16), AddrError>)
    ensures
        match r {
            Ok((host, port)) => address_parts(s@) == Ok::<(Seq<char>, nat), AddrError>(
                (host@, port as nat),
            ),
            Err(e) => address_parts(s@) == Err::<(Seq<char>, nat), AddrError>(e),
        },
{
    let chars = text::chars_of(s);
    let mut i: usize = chars.len();
    proof {
        assert(s@.take(i as int) =~= s@);
    }
    while i > 0 && chars[i - 1] != ':'
        invariant
            i <= chars@.len(),
            chars@ == s@,
            last_colon(s@) == last_colon(s@.take(i as int)),
        decreases i,
    {
        proof {
            assert(s@.take(i as int).drop_last() =~= s@.take(i - 1));
        }
        i -= 1;
    }
    if i == 0 {
        return Err(AddrError::MissingPort);
    }
    let rest = vstd::slice::slice_subrange(chars.as_slice(), i, chars.len());
    let front = vstd::slice::slice_subrange(chars.as_slice(), 0, i - 1);
    proof {
        assert(rest@ =~= s@.skip(i as int));
        assert(front@ =~= s@.take(i - 1));
        assert(last_colon(s@.take(i as int)) == i - 1);
    }
    match parse_port(rest) {
        Some(port) => Ok((text::text_of(front), port)),
        None => Err(AddrError::InvalidPort),
    }
}

/// The decimal form of a number consists of digits, at least one and none too many, and they
/// stand for the number.
pub proof fn law_decimal_text_is_read_back(n: nat)
    ensures
        text::decimal(n).len() > 0,
        all_digits(text::decimal(n)),
        digits_value(text::decimal(n)) == n,
        text::decimal(n)[0] == '0' ==> n == 0 && text::decimal(n).len() == 1,
    decreases n,
{
    let s = text::decimal(n);
    if n < 10 {
        assert(s.drop_last() =~= Seq::<char>::empty());
        assert(digits_value(s.drop_last()) == 0);
    } else {
        law_decimal_text_is_read_back(n / 10);
        assert(s.drop_last() =~= text::decimal(n / 10));
        assert(s[0] == text::decimal(n / 10)[0]);
    }
}

/// The last colon is a colon, and there is one where the text has any.
pub proof fn lemma_last_colon(s: Seq<char>)
    ensures
        last_colon(s) < s.len(),
        last_colon(s) >= 0 <==> s.contains(':'),
        last_colon(s) >= 0 ==> s[last_colon(s)] == ':',
    decreases s.len(),
{
    if s.len() > 0 {
        let front = s.drop_last();
        lemma_last_colon(front);
        if s.last() == ':' {
            assert(s[s.len() - 1] == ':');
        } else if s.contains(':') {
            let i = choose|i: int| 0 <= i < s.len() && s[i] == ':';
            assert(front[i] == ':');
        } else if front.contains(':') {
            let i = choose|i: int| 0 <= i < front.len() && front[i] == ':';
            assert(s[i] == ':');
        }
    }
}

/// Where no colon follows it, a colon is the last one.
pub proof fn lemma_last_colon_before(front: Seq<char>, back: Seq<char>)
    requires
        !back.contains(':'),
    ensures
        last_colon(front + seq![':'] + back) == front.len(),
    decreases back.len(),
{
    let s = front + seq![':'] + back;
    if back.len() == 0 {
        assert(s.last() == ':');
    } else {
        let less = back.drop_last();
        if less.contains(':') {
            let i = choose|i: int| 0 <= i < less.len() && less[i] == ':';
            assert(back[i] == ':');
        }
        assert(back[back.len() - 1] != ':');
        assert(s.last() == back.last());
        assert(s.drop_last() =~= front + seq![':'] + less);
        lemma_last_colon_before(front, less);
    }
}

/// Digits stand for the port that they spell.
pub proof fn lemma_port_digits(port: u16)
    ensures
        port_of(text::decimal(port as nat)) == Some(port as nat),
        !text::decimal(port as nat).contains(':'),
        !text::decimal(port as nat).contains(']'),
{
    law_decimal_text_is_read_back(port as nat);
    let s = text::decimal(port as nat);
    assert('0' <= s[0]);
    if s.contains(':') {
        let i = choose|i: int| 0 <= i < s.len() && s[i] == ':';
        assert('0' <= s[i] <= '9');
    }
    if s.contains(']') {
        let i = choose|i: int| 0 <= i < s.len() && s[i] == ']';
        assert('0' <= s[i] <= '9');
    }
}

/// An address that was put together of a host and a port is split into just these, whatever
/// the host holds, colons too. A text without a colon is no address.
pub proof fn law_an_address_is_split_into_its_parts(
    addr: &str,
    host: Seq<char>,
    port: u16,
    r: Result<(String, u16), AddrError>,
)
    requires
        call_ensures(host_port_pair, (addr,), r),
    ensures
        addr@ == host + seq![':'] + text::decimal(port as nat) ==> (r matches Ok((h, p)) && h@
            == host && p == port),
        !addr@.contains(':') ==> r == Err::<(String, u16), AddrError>(AddrError::MissingPort),
{
    lemma_last_colon(addr@);
    let digits = text::decimal(port as nat);
    if addr@ == host + seq![':'] + digits {
        lemma_port_digits(port);
        lemma_last_colon_before(host, digits);
        assert(addr@.skip(host.len() as int + 1) =~= digits);
        assert(addr@.take(host.len() as int) =~= host);
    }
}

} // verus!

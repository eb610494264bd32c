//! Validation of command-line inputs: a per-handshake timeout in
//! milliseconds, and an IPv4 socket address written as `a.b.c.d:port`.
//!
//! Numbers are plain decimal digit strings; each parser states exactly which
//! inputs it accepts and which error it reports otherwise.
use vstd::prelude::*;

verus! {

use vstd::slice::slice_subrange;
use vstd::string::StringSliceAdditionalSpecFns;

/// Why a string is not a number.
#[derive(Clone, Copy, Debug, PartialEq, Eq, Structural)]
pub enum NumberParseError {
    /// The string is empty.
    Empty,
    /// A character is not a decimal digit.
    InvalidDigit,
    /// The value does not fit the target type.
    Overflow,
}

impl NumberParseError {
    /// A human-readable description of the error.
    pub fn message(&self) -> (r: &'static str)
        ensures
            *self is Empty ==> r@ == "cannot parse integer from empty string"@,
            *self is InvalidDigit ==> r@ == "invalid digit found in string"@,
            *self is Overflow ==> r@ == "number too large to fit in target type"@,
    {
        match self {
            NumberParseError::Empty => "cannot parse integer from empty string",
            NumberParseError::InvalidDigit => "invalid digit found in string",
            NumberParseError::Overflow => "number too large to fit in target type",
        }
    }
}

/// The byte is an ASCII decimal digit.
pub open spec fn spec_is_digit(b: u8) -> bool {
    0x30 <= b <= 0x39
}

/// The index of the first byte that is not a decimal digit, or the length
/// when every byte is one.
pub open spec fn spec_first_non_digit(s: Seq<u8>) -> int
    decreases s.len(),
{
    if s.len() == 0 {
        0
    } else if !spec_is_digit(s[0]) {
        0
    } else {
        1 + spec_first_non_digit(s.drop_first())
    }
}

/// The value of a digit string read as a decimal number.
pub open spec fn spec_decimal_value(s: Seq<u8>) -> int
    decreases s.len(),
{
    if s.len() == 0 {
        0
    } else {
        spec_decimal_value(s.drop_last()) * 10 + (s.last() - 0x30)
    }
}

/// The first bytes up to the first non-digit are digits, and the byte there,
/// if any, is not one.
pub proof fn lemma_first_non_digit(s: Seq<u8>)
    ensures
        0 <= spec_first_non_digit(s) <= s.len(),
        forall|l: int| 0 <= l < spec_first_non_digit(s) ==> spec_is_digit(s[l]),
        spec_first_non_digit(s) < s.len() ==> !spec_is_digit(s[spec_first_non_digit(s)]),
    decreases s.len(),
{
    if s.len() == 0 {
    } else if !spec_is_digit(s[0]) {
    } else {
        lemma_first_non_digit(s.drop_first());
        let j = spec_first_non_digit(s);
        assert forall|l: int| 0 <= l < j implies spec_is_digit(s[l]) by {
            if l > 0 {
                assert(s.drop_first()[l - 1] == s[l]);
            }
        }
        if j < s.len() {
            assert(s.drop_first()[j - 1] == s[j]);
        }
    }
}

/// A digit string's value is never negative.
pub proof fn lemma_decimal_value_nonneg(s: Seq<u8>)
    requires
        forall|l: int| 0 <= l < s.len() ==> spec_is_digit(s[l]),
    ensures
        spec_decimal_value(s) >= 0,
    decreases s.len(),
{
    if s.len() > 0 {
        lemma_decimal_value_nonneg(s.drop_last());
    }
}

/// A digit string's value is at least the value of any of its prefixes.
pub proof fn lemma_decimal_value_prefix(s: Seq<u8>, i: int)
    requires
        forall|l: int| 0 <= l < s.len() ==> spec_is_digit(s[l]),
        0 <= i <= s.len(),
    ensures
        spec_decimal_value(s.take(i)) <= spec_decimal_value(s),
    decreases s.len(),
{
    if i == s.len() {
        assert(s.take(i) =~= s);
    } else {
        let d = s.drop_last();
        assert(s.take(i) =~= d.take(i));
        lemma_decimal_value_prefix(d, i);
        lemma_decimal_value_nonneg(d);
        assert(spec_decimal_value(s) == spec_decimal_value(d) * 10 + (s.last() - 0x30));
    }
}

/// The value a whole digit string denotes, or why it denotes none: it is
/// empty, it holds a non-digit (with only digits and an in-range value before
/// it), or its digits outgrow 64 bits before any non-digit appears.
pub open spec fn spec_parse_decimal(s: Seq<u8>) -> Result<u64, NumberParseError> {
    if s.len() == 0 {
        Err(NumberParseError::Empty)
    } else {
        let j = spec_first_non_digit(s);
        if spec_decimal_value(s.take(j)) > u64::MAX {
            Err(NumberParseError::Overflow)
        } else if j < s.len() {
            Err(NumberParseError::InvalidDigit)
        } else {
            Ok(spec_decimal_value(s) as u64)
        }
    }
}

/// Reads a decimal digit string as a 64-bit number.
pub fn parse_decimal_u64(s: &[u8]) -> (r: Result<u64, NumberParseError>)
    ensures
        r == spec_parse_decimal(s@),
{
    proof {
        lemma_first_non_digit(s@);
    }
    let ghost j = spec_first_non_digit(s@);
    if s.len() == 0 {
        return Err(NumberParseError::Empty);
    }
    let n = s.len();
    let mut acc: u64 = 0;
    let mut i: usize = 0;
    while i < n
        invariant
            n == s@.len(),
            0 <= i <= n,
            i <= j <= n,
            j == spec_first_non_digit(s@),
            forall|l: int| 0 <= l < j ==> spec_is_digit(s@[l]),
            j < n ==> !spec_is_digit(s@[j]),
            acc == spec_decimal_value(s@.take(i as int)),
        decreases n - i,
    {
        let b = *vstd::slice::slice_index_get(s, i);
        if b < 0x30 || b > 0x39 {
            assert(i as int == j);
            proof {
                lemma_decimal_value_prefix(s@.take(j), i as int);
                assert(s@.take(j).take(i as int) =~= s@.take(i as int));
            }
            return Err(NumberParseError::InvalidDigit);
        }
        assert(i < j);
        let d = b - 0x30;
        proof {
            assert(s@.take(i + 1).drop_last() =~= s@.take(i as int));
            assert(s@.take(i + 1).last() == s@[i as int]);
        }
        // The largest value a further digit can extend is u64::MAX / 10 with
        // a last digit of at most u64::MAX % 10.
        if acc > 1844674407370955161 || (acc == 1844674407370955161 && d > 5) {
            proof {
                assert(spec_decimal_value(s@.take(i + 1)) > u64::MAX);
                assert(forall|l: int| 0 <= l < j ==> spec_is_digit(#[trigger] s@.take(j)[l]));
                lemma_decimal_value_prefix(s@.take(j), i + 1);
                assert(s@.take(j).take(i + 1) =~= s@.take(i + 1));
            }
            return Err(NumberParseError::Overflow);
        }
        acc = acc * 10 + (d as u64);
        i += 1;
    }
    assert(i as int == j && j == n);
    proof {
        assert(s@.take(n as int) =~= s@);
    }
    Ok(acc)
}

/// Reads a timeout given in milliseconds. Exactly the nonempty all-digit
/// strings whose value fits 64 bits are accepted.
pub fn parse_timeout(timeout: &str) -> (r: Result<u64, NumberParseError>)
    ensures
        r == spec_parse_decimal(timeout.spec_bytes()),
{
    parse_decimal_u64(timeout.as_bytes())
}

/// Why a string is not an IPv4 socket address.
#[derive(Clone, Copy, Debug, PartialEq, Eq, Structural)]
pub enum SockerAddrV4Error {
    MissingAddrError,
    MissingPortError,
    InvalidAddrError,
    InvalidAddrComponentRangeError,
    InvalidPortRangeError,
}

impl SockerAddrV4Error {
    /// A human-readable description of the error.
    pub fn message(&self) -> (r: &'static str)
        ensures
            *self is MissingAddrError ==> r@ == "IPv4 address not specified"@,
            *self is MissingPortError ==> r@ == "Port not specified"@,
            *self is InvalidAddrComponentRangeError ==> r@
                == "IPv4 address component should range from 0 to 255"@,
            *self is InvalidPortRangeError ==> r@ == "Port should range from 0 to 65536"@,
    {
        match self {
            SockerAddrV4Error::MissingAddrError => "IPv4 address not specified",
            SockerAddrV4Error::MissingPortError => "Port not specified",
            SockerAddrV4Error::InvalidAddrError => {
                "IPv4 address should consist of \
                four decimal numbers, each ranging from 0 to 255"
            },
            SockerAddrV4Error::InvalidAddrComponentRangeError => {
                "IPv4 address component should range from 0 to 255"
            },
            SockerAddrV4Error::InvalidPortRangeError => "Port should range from 0 to 65536",
        }
    }
}

/// An IPv4 socket address: four octets and a port.
#[derive(Clone, Copy, Debug, PartialEq, Eq, Structural)]
pub struct SocketAddressV4 {
    pub a: u8,
    pub b: u8,
    pub c: u8,
    pub d: u8,
    pub port: u16,
}

impl SocketAddressV4 {
    /// Builds an address from its four octets and port.
    pub fn new(a: u8, b: u8, c: u8, d: u8, port: u16) -> (r: Self)
        ensures
            r == (SocketAddressV4 { a, b, c, d, port }),
    {
        Self { a, b, c, d, port }
    }

    /// The four octets in address order.
    pub fn octets(&self) -> (r: [u8; 4])
        ensures
            r@ == seq![self.a, self.b, self.c, self.d],
    {
        let r = [self.a, self.b, self.c, self.d];
        proof {
            assert(r@ =~= seq![self.a, self.b, self.c, self.d]);
        }
        r
    }
}

/// The index of the first occurrence of the byte, or the length when it does
/// not occur.
pub open spec fn spec_first_index_of(s: Seq<u8>, b: u8) -> int
    decreases s.len(),
{
    if s.len() == 0 {
        0
    } else if s[0] == b {
        0
    } else {
        1 + spec_first_index_of(s.drop_first(), b)
    }
}

/// The bytes before the first occurrence differ from the byte, and the byte
/// at that index, if any, is it.
pub proof fn lemma_first_index_of(s: Seq<u8>, b: u8)
    ensures
        0 <= spec_first_index_of(s, b) <= s.len(),
        forall|l: int| 0 <= l < spec_first_index_of(s, b) ==> s[l] != b,
        spec_first_index_of(s, b) < s.len() ==> s[spec_first_index_of(s, b)] == b,
    decreases s.len(),
{
    if s.len() == 0 {
    } else if s[0] == b {
    } else {
        lemma_first_index_of(s.drop_first(), b);
        let j = spec_first_index_of(s, b);
        assert forall|l: int| 0 <= l < j implies s[l] != b by {
            if l > 0 {
                assert(s.drop_first()[l - 1] == s[l]);
            }
        }
        if j < s.len() {
            assert(s.drop_first()[j - 1] == s[j]);
        }
    }
}

/// Finds the first occurrence of a byte in a slice; the slice's length means
/// the byte does not occur.
fn find_byte(s: &[u8], b: u8) -> (r: usize)
    ensures
        r == spec_first_index_of(s@, b),
        0 <= r <= s@.len(),
        forall|l: int| 0 <= l < r ==> s@[l] != b,
        r < s@.len() ==> s@[r as int] == b,
{
    let n = s.len();
    let mut i: usize = 0;
    while i < n
        invariant
            n == s@.len(),
            0 <= i <= n,
            forall|l: int| 0 <= l < i ==> s@[l] != b,
        decreases n - i,
    {
        proof {
            lemma_first_index_of(s@, b);
        }
        if *vstd::slice::slice_index_get(s, i) == b {
            return i;
        }
        i += 1;
    }
    proof {
        lemma_first_index_of(s@, b);
    }
    n
}

/// The component denotes an address octet: a digit string whose value is at
/// most 255.
pub open spec fn spec_octet_of(s: Seq<u8>) -> Option<u8> {
    match spec_parse_decimal(s) {
        Ok(v) => if v <= 255 {
            Some(v as u8)
        } else {
            None
        },
        Err(_) => None,
    }
}

/// The address part denotes four dot-separated octets.
pub open spec fn spec_parse_ipv4(addr: Seq<u8>) -> Option<(u8, u8, u8, u8)> {
    let p1 = spec_first_index_of(addr, 0x2e);
    let r1 = addr.skip(p1 + 1);
    let p2 = spec_first_index_of(r1, 0x2e);
    let r2 = r1.skip(p2 + 1);
    let p3 = spec_first_index_of(r2, 0x2e);
    let r3 = r2.skip(p3 + 1);
    if p1 == addr.len() || p2 == r1.len() || p3 == r2.len() || spec_first_index_of(r3, 0x2e)
        < r3.len() {
        None
    } else {
        match (spec_octet_of(addr.take(p1)), spec_octet_of(r1.take(p2)), spec_octet_of(
            r2.take(p3),
        ), spec_octet_of(r3)) {
            (Some(a), Some(b), Some(c), Some(d)) => Some((a, b, c, d)),
            _ => None,
        }
    }
}

/// What a socket-address string denotes, or why it denotes nothing. The
/// address part is everything before the first colon; the port part is what
/// follows it. The address must be four dot-separated decimal octets and the
/// port a decimal number of at most 65535; an absent or empty part is
/// reported as missing, a part of the wrong shape as invalid.
pub open spec fn spec_parse_socket_address(s: Seq<u8>) -> Result<
    SocketAddressV4,
    SockerAddrV4Error,
> {
    let c = spec_first_index_of(s, 0x3a);
    let addr = s.take(c);
    let port = if c == s.len() {
        Seq::<u8>::empty()
    } else {
        s.skip(c + 1)
    };
    if addr.len() == 0 {
        Err(SockerAddrV4Error::MissingAddrError)
    } else {
        let p1 = spec_first_index_of(addr, 0x2e);
        let r1 = addr.skip(p1 + 1);
        let p2 = spec_first_index_of(r1, 0x2e);
        let r2 = r1.skip(p2 + 1);
        let p3 = spec_first_index_of(r2, 0x2e);
        let r3 = r2.skip(p3 + 1);
        if p1 == addr.len() || p2 == r1.len() || p3 == r2.len() || spec_first_index_of(r3, 0x2e)
            < r3.len() {
            Err(SockerAddrV4Error::InvalidAddrError)
        } else if spec_octet_of(addr.take(p1)) is None || spec_octet_of(r1.take(p2)) is None
            || spec_octet_of(r2.take(p3)) is None || spec_octet_of(r3) is None {
            Err(SockerAddrV4Error::InvalidAddrComponentRangeError)
        } else if port.len() == 0 {
            Err(SockerAddrV4Error::MissingPortError)
        } else {
            match spec_parse_decimal(port) {
                Ok(v) => if v <= 65535 {
                    Ok(
                        SocketAddressV4 {
                            a: spec_octet_of(addr.take(p1))->Some_0,
                            b: spec_octet_of(r1.take(p2))->Some_0,
                            c: spec_octet_of(r2.take(p3))->Some_0,
                            d: spec_octet_of(r3)->Some_0,
                            port: v as u16,
                        },
                    )
                } else {
                    Err(SockerAddrV4Error::InvalidPortRangeError)
                },
                Err(_) => Err(SockerAddrV4Error::InvalidPortRangeError),
            }
        }
    }
}

/// Reads one address component as an octet.
fn parse_octet(s: &[u8]) -> (r: Option<u8>)
    ensures
        r == spec_octet_of(s@),
{
    match parse_decimal_u64(s) {
        Ok(v) => if v <= 255 {
            Some(v as u8)
        } else {
            None
        },
        Err(_) => None,
    }
}

/// Reads an IPv4 socket address written as `a.b.c.d:port`, with each part a
/// plain decimal number; the octets must be at most 255 and the port at most
/// 65535.
pub fn parse_socket_address(socket_addr: &str) -> (r: Result<SocketAddressV4, SockerAddrV4Error>)
    ensures
        r == spec_parse_socket_address(socket_addr.spec_bytes()),
{
    let s = socket_addr.as_bytes();
    let n = s.len();
    let colon = find_byte(s, 0x3a);
    proof {
        lemma_first_index_of(s@, 0x3a);
    }
    let addr = slice_subrange(s, 0, colon);
    let port: &[u8] = if colon == n {
        slice_subrange(s, n, n)
    } else {
        slice_subrange(s, colon + 1, n)
    };
    proof {
        assert(addr@ =~= s@.take(colon as int));
        if colon == n {
            assert(port@ =~= Seq::<u8>::empty());
        } else {
            assert(port@ =~= s@.skip(colon + 1));
        }
    }

    if addr.len() == 0 {
        return Err(SockerAddrV4Error::MissingAddrError);
    }

    let p1 = find_byte(addr, 0x2e);
    let r1: &[u8] = if p1 == addr.len() {
        slice_subrange(addr, addr.len(), addr.len())
    } else {
        slice_subrange(addr, p1 + 1, addr.len())
    };
    let p2 = find_byte(r1, 0x2e);
    let r2: &[u8] = if p2 == r1.len() {
        slice_subrange(r1, r1.len(), r1.len())
    } else {
        slice_subrange(r1, p2 + 1, r1.len())
    };
    let p3 = find_byte(r2, 0x2e);
    let r3: &[u8] = if p3 == r2.len() {
        slice_subrange(r2, r2.len(), r2.len())
    } else {
        slice_subrange(r2, p3 + 1, r2.len())
    };
    proof {
        lemma_first_index_of(addr@, 0x2e);
        lemma_first_index_of(r1@, 0x2e);
        lemma_first_index_of(r2@, 0x2e);
        if p1 < addr.len() {
            assert(r1@ =~= addr@.skip(p1 + 1));
        }
        if p2 < r1.len() {
            assert(r2@ =~= r1@.skip(p2 + 1));
        }
        if p3 < r2.len() {
            assert(r3@ =~= r2@.skip(p3 + 1));
        }
    }
    if p1 == addr.len() || p2 == r1.len() || p3 == r2.len() || find_byte(r3, 0x2e) < r3.len() {
        return Err(SockerAddrV4Error::InvalidAddrError);
    }

    let c1 = slice_subrange(addr, 0, p1);
    let c2 = slice_subrange(r1, 0, p2);
    let c3 = slice_subrange(r2, 0, p3);
    proof {
        assert(c1@ =~= addr@.take(p1 as int));
        assert(c2@ =~= r1@.take(p2 as int));
        assert(c3@ =~= r2@.take(p3 as int));
    }
    let o1 = parse_octet(c1);
    let o2 = parse_octet(c2);
    let o3 = parse_octet(c3);
    let o4 = parse_octet(r3);
    let (a, b, c, d) = match (o1, o2, o3, o4) {
        (Some(a), Some(b), Some(c), Some(d)) => (a, b, c, d),
        _ => {
            return Err(SockerAddrV4Error::InvalidAddrComponentRangeError);
        },
    };

    if port.len() == 0 {
        return Err(SockerAddrV4Error::MissingPortError);
    }
    match parse_decimal_u64(port) {
        Ok(v) => if v <= 65535 {
            Ok(SocketAddressV4 { a, b, c, d, port: v as u16 })
        } else {
            Err(SockerAddrV4Error::InvalidPortRangeError)
        },
        Err(_) => Err(SockerAddrV4Error::InvalidPortRangeError),
    }
}

} // verus!

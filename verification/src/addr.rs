//! IPv4 socket addresses as plain values, with their textual grammar.
//!
//! Addresses are modeled as four octets and a port so that every rule about
//! them can be stated and proved; the grammar accepted here is the dotted
//! decimal form `a.b.c.d:port`, with no leading zeros in an octet and one to
//! five digits in the port.

use vstd::prelude::*;
use vstd::string::StrSliceExecFns;

verus! {

/// An IPv4 host address, one field per octet.
#[derive(Clone, Copy, PartialEq, Eq, Structural, Debug)]
pub struct Ipv4Address {
    pub o0: u8,
    pub o1: u8,
    pub o2: u8,
    pub o3: u8,
}

/// An IPv4 socket address: host and port.
#[derive(Clone, Copy, PartialEq, Eq, Structural, Debug)]
pub struct SocketAddressV4 {
    pub ip: Ipv4Address,
    pub port: u16,
}

impl Ipv4Address {
    /// The wildcard host `0.0.0.0`: a listener on it accepts from any interface.
    pub fn unspecified() -> (r: Ipv4Address)
        ensures
            r == (Ipv4Address { o0: 0, o1: 0, o2: 0, o3: 0 }),
    {
        Ipv4Address { o0: 0, o1: 0, o2: 0, o3: 0 }
    }
}

impl SocketAddressV4 {
    /// A listen address on the wildcard host with the given port.
    ///
    /// Binding to the wildcard rather than to loopback is this library's
    /// deliberate choice: a forwarding proxy is usually reached from other
    /// hosts, and a deployment that wants a local-only forward can give the
    /// loopback host explicitly in its configuration.
    pub fn wildcard(port: u16) -> (r: SocketAddressV4)
        ensures
            r == spec_wildcard(port),
    {
        SocketAddressV4 { ip: Ipv4Address::unspecified(), port }
    }
}

/// The wildcard listen address `0.0.0.0:port`.
pub open spec fn spec_wildcard(port: u16) -> SocketAddressV4 {
    SocketAddressV4 { ip: Ipv4Address { o0: 0, o1: 0, o2: 0, o3: 0 }, port }
}

/// A decimal digit.
pub open spec fn spec_is_digit(c: char) -> bool {
    48 <= c as u32 <= 57
}

/// The value of one decimal digit.
pub open spec fn spec_digit_val(c: char) -> nat {
    (c as u32 - 48) as nat
}

/// Every character of `s` is a decimal digit.
pub open spec fn spec_all_digits(s: Seq<char>) -> bool {
    forall|i: int| 0 <= i < s.len() ==> spec_is_digit(#[trigger] s[i])
}

/// The value of `s` read as a decimal numeral.
pub open spec fn spec_dec_val(s: Seq<char>) -> nat
    decreases s.len(),
{
    if s.len() == 0 {
        0
    } else {
        spec_dec_val(s.drop_last()) * 10 + spec_digit_val(s.last())
    }
}

/// Ten to the `n`.
pub open spec fn spec_pow10(n: nat) -> nat
    decreases n,
{
    if n == 0 {
        1
    } else {
        10 * spec_pow10((n - 1) as nat)
    }
}

/// An address octet: one to three digits, no leading zero, value at most 255.
pub open spec fn spec_is_octet(s: Seq<char>) -> bool {
    &&& 1 <= s.len() <= 3
    &&& spec_all_digits(s)
    &&& (s.len() > 1 ==> s[0] != '0')
    &&& spec_dec_val(s) <= 255
}

/// A port numeral: one to five digits, value at most 65535.
pub open spec fn spec_is_port(s: Seq<char>) -> bool {
    &&& 1 <= s.len() <= 5
    &&& spec_all_digits(s)
    &&& spec_dec_val(s) <= 65535
}

/// The index of the first occurrence of `c` in `s`, if any.
pub open spec fn spec_find(s: Seq<char>, c: char) -> Option<int>
    decreases s.len(),
{
    if s.len() == 0 {
        None
    } else if s[0] == c {
        Some(0int)
    } else {
        match spec_find(s.drop_first(), c) {
            Some(i) => Some(i + 1),
            None => None,
        }
    }
}

/// What `spec_find` returns: the first index holding `c`, or nothing when
/// `c` does not occur.
pub proof fn lemma_find_props(s: Seq<char>, c: char)
    ensures
        match spec_find(s, c) {
            Some(i) => {
                &&& 0 <= i < s.len()
                &&& s[i] == c
                &&& forall|j: int| 0 <= j < i ==> s[j] != c
            },
            None => forall|j: int| 0 <= j < s.len() ==> s[j] != c,
        },
    decreases s.len(),
{
    if s.len() > 0 && s[0] != c {
        lemma_find_props(s.drop_first(), c);
        match spec_find(s.drop_first(), c) {
            Some(i) => {
                assert(s.drop_first()[i] == s[i + 1]);
                assert forall|j: int| 0 <= j < i + 1 implies s[j] != c by {
                    if j > 0 {
                        assert(s.drop_first()[j - 1] != c);
                    }
                }
            },
            None => {
                assert forall|j: int| 0 <= j < s.len() implies s[j] != c by {
                    if j > 0 {
                        assert(s.drop_first()[j - 1] != c);
                    }
                }
            },
        }
    }
}

/// A witness for the first occurrence fixes the value of `spec_find`.
pub proof fn lemma_find_at(s: Seq<char>, c: char, i: int)
    requires
        0 <= i < s.len(),
        s[i] == c,
        forall|j: int| 0 <= j < i ==> s[j] != c,
    ensures
        spec_find(s, c) == Some(i),
    decreases i,
{
    if i > 0 {
        lemma_find_at(s.drop_first(), c, i - 1);
    }
}

/// When `c` occurs nowhere in `s`, `spec_find` finds nothing.
pub proof fn lemma_find_absent(s: Seq<char>, c: char)
    requires
        forall|j: int| 0 <= j < s.len() ==> s[j] != c,
    ensures
        spec_find(s, c) is None,
    decreases s.len(),
{
    if s.len() > 0 {
        lemma_find_absent(s.drop_first(), c);
    }
}

/// The first index of `c` in `s`, scanned left to right.
pub fn find_char(s: &str, c: char) -> (r: Option<usize>)
    ensures
        match r {
            Some(i) => spec_find(s@, c) == Some(i as int),
            None => spec_find(s@, c) is None,
        },
{
    let n: usize = s.unicode_len();
    let mut i: usize = 0;
    while i < n
        invariant
            n == s@.len(),
            0 <= i <= n,
            forall|j: int| 0 <= j < i ==> s@[j] != c,
        decreases n - i,
    {
        if s.get_char(i) == c {
            proof {
                lemma_find_at(s@, c, i as int);
            }
            return Some(i);
        }
        i = i + 1;
    }
    proof {
        lemma_find_absent(s@, c);
    }
    None
}

/// Reading one more digit multiplies the numeral's value by ten and adds it.
pub proof fn lemma_dec_val_snoc(s: Seq<char>, c: char)
    ensures
        spec_dec_val(s.push(c)) == spec_dec_val(s) * 10 + spec_digit_val(c),
{
    assert(s.push(c).drop_last() =~= s);
}

/// What parsing an octet yields: its value when the text is a valid octet.
pub open spec fn spec_parse_octet(s: Seq<char>) -> Option<u8> {
    if spec_is_octet(s) {
        Some(spec_dec_val(s) as u8)
    } else {
        None
    }
}

/// What parsing a port yields: its value when the text is a valid port.
pub open spec fn spec_parse_port(s: Seq<char>) -> Option<u16> {
    if spec_is_port(s) {
        Some(spec_dec_val(s) as u16)
    } else {
        None
    }
}

/// The value of a digit span of `s`, accumulated left to right.
///
/// Returns the numeral's value when `s[from..to]` is all digits, and nothing
/// otherwise; bounds of the value follow from the span's length.
fn dec_val_span(s: &str, from: usize, to: usize) -> (r: Option<u32>)
    requires
        from <= to <= s@.len(),
        to - from <= 5,
    ensures
        match r {
            Some(v) => {
                &&& spec_all_digits(s@.subrange(from as int, to as int))
                &&& v == spec_dec_val(s@.subrange(from as int, to as int))
            },
            None => !spec_all_digits(s@.subrange(from as int, to as int)),
        },
{
    let mut i: usize = from;
    let mut val: u32 = 0;
    proof {
        assert(s@.subrange(from as int, from as int) =~= Seq::<char>::empty());
    }
    while i < to
        invariant
            from <= i <= to <= s@.len(),
            to - from <= 5,
            spec_all_digits(s@.subrange(from as int, i as int)),
            val == spec_dec_val(s@.subrange(from as int, i as int)),
            val < spec_pow10((i - from) as nat),
        decreases to - i,
    {
        let c = s.get_char(i);
        let u: u32 = c as u32;
        if u < 48 || u > 57 {
            proof {
                let whole = s@.subrange(from as int, to as int);
                assert(whole[i - from] == s@[i as int]);
            }
            return None;
        }
        proof {
            let prefix = s@.subrange(from as int, i as int);
            assert(s@.subrange(from as int, i + 1 as int) =~= prefix.push(s@[i as int]));
            lemma_dec_val_snoc(prefix, s@[i as int]);
            assert(spec_pow10(0) == 1);
            assert(spec_pow10(1) == 10);
            assert(spec_pow10(2) == 100);
            assert(spec_pow10(3) == 1000);
            assert(spec_pow10(4) == 10000);
            assert(spec_pow10(5) == 100000);
        }
        val = val * 10 + (u - 48);
        i = i + 1;
    }
    proof {
        let whole = s@.subrange(from as int, to as int);
        assert(whole =~= s@.subrange(from as int, i as int));
    }
    Some(val)
}

/// Parse one address octet: one to three digits, no leading zero, at most 255.
pub fn parse_octet(s: &str) -> (r: Option<u8>)
    ensures
        r == spec_parse_octet(s@),
{
    let n: usize = s.unicode_len();
    if n < 1 || n > 3 {
        return None;
    }
    if n > 1 && s.get_char(0) == '0' {
        return None;
    }
    match dec_val_span(s, 0, n) {
        None => {
            proof {
                assert(s@.subrange(0, n as int) =~= s@);
            }
            None
        },
        Some(v) => {
            proof {
                assert(s@.subrange(0, n as int) =~= s@);
            }
            if v <= 255 {
                Some(v as u8)
            } else {
                None
            }
        },
    }
}

/// Parse one port numeral: one to five digits, at most 65535.
pub fn parse_port(s: &str) -> (r: Option<u16>)
    ensures
        r == spec_parse_port(s@),
{
    let n: usize = s.unicode_len();
    if n < 1 || n > 5 {
        return None;
    }
    match dec_val_span(s, 0, n) {
        None => {
            proof {
                assert(s@.subrange(0, n as int) =~= s@);
            }
            None
        },
        Some(v) => {
            proof {
                assert(s@.subrange(0, n as int) =~= s@);
            }
            if v <= 65535 {
                Some(v as u16)
            } else {
                None
            }
        },
    }
}

/// What parsing a host yields: the four octets split on the three dots.
pub open spec fn spec_parse_ipv4(s: Seq<char>) -> Option<Ipv4Address> {
    match spec_find(s, '.') {
        None => None,
        Some(i1) => {
            let rest1 = s.subrange(i1 + 1, s.len() as int);
            match spec_find(rest1, '.') {
                None => None,
                Some(i2) => {
                    let rest2 = rest1.subrange(i2 + 1, rest1.len() as int);
                    match spec_find(rest2, '.') {
                        None => None,
                        Some(i3) => {
                            let rest3 = rest2.subrange(i3 + 1, rest2.len() as int);
                            let p0 = spec_parse_octet(s.subrange(0, i1));
                            let p1 = spec_parse_octet(rest1.subrange(0, i2));
                            let p2 = spec_parse_octet(rest2.subrange(0, i3));
                            let p3 = spec_parse_octet(rest3);
                            if p0 is Some && p1 is Some && p2 is Some && p3 is Some {
                                Some(
                                    Ipv4Address {
                                        o0: p0.unwrap(),
                                        o1: p1.unwrap(),
                                        o2: p2.unwrap(),
                                        o3: p3.unwrap(),
                                    },
                                )
                            } else {
                                None
                            }
                        },
                    }
                },
            }
        },
    }
}

/// Parse a dotted-decimal IPv4 host, `a.b.c.d`.
pub fn parse_ipv4(s: &str) -> (r: Option<Ipv4Address>)
    ensures
        r == spec_parse_ipv4(s@),
{
    let n: usize = s.unicode_len();
    let i1 = match find_char(s, '.') {
        None => {
            return None;
        },
        Some(i) => i,
    };
    proof {
        lemma_find_props(s@, '.');
    }
    let part0 = s.substring_char(0, i1);
    let rest1 = s.substring_char(i1 + 1, n);
    let n1: usize = n - i1 - 1;
    let i2 = match find_char(rest1, '.') {
        None => {
            return None;
        },
        Some(i) => i,
    };
    proof {
        lemma_find_props(rest1@, '.');
    }
    let part1 = rest1.substring_char(0, i2);
    let rest2 = rest1.substring_char(i2 + 1, n1);
    let n2: usize = n1 - i2 - 1;
    let i3 = match find_char(rest2, '.') {
        None => {
            return None;
        },
        Some(i) => i,
    };
    proof {
        lemma_find_props(rest2@, '.');
    }
    let part2 = rest2.substring_char(0, i3);
    let rest3 = rest2.substring_char(i3 + 1, n2);
    let p0 = match parse_octet(part0) {
        None => {
            return None;
        },
        Some(v) => v,
    };
    let p1 = match parse_octet(part1) {
        None => {
            return None;
        },
        Some(v) => v,
    };
    let p2 = match parse_octet(part2) {
        None => {
            return None;
        },
        Some(v) => v,
    };
    let p3 = match parse_octet(rest3) {
        None => {
            return None;
        },
        Some(v) => v,
    };
    Some(Ipv4Address { o0: p0, o1: p1, o2: p2, o3: p3 })
}

/// What parsing a socket address yields: host before the colon, port after.
pub open spec fn spec_parse_socket_addr(s: Seq<char>) -> Option<SocketAddressV4> {
    match spec_find(s, ':') {
        None => None,
        Some(i) => {
            let host = spec_parse_ipv4(s.subrange(0, i));
            let port = spec_parse_port(s.subrange(i + 1, s.len() as int));
            if host is Some && port is Some {
                Some(SocketAddressV4 { ip: host.unwrap(), port: port.unwrap() })
            } else {
                None
            }
        },
    }
}

/// Parse a socket address, `a.b.c.d:port`.
pub fn parse_socket_addr(s: &str) -> (r: Option<SocketAddressV4>)
    ensures
        r == spec_parse_socket_addr(s@),
{
    let n: usize = s.unicode_len();
    let i = match find_char(s, ':') {
        None => {
            return None;
        },
        Some(i) => i,
    };
    proof {
        lemma_find_props(s@, ':');
    }
    let host_part = s.substring_char(0, i);
    let port_part = s.substring_char(i + 1, n);
    let host = match parse_ipv4(host_part) {
        None => {
            return None;
        },
        Some(h) => h,
    };
    let port = match parse_port(port_part) {
        None => {
            return None;
        },
        Some(p) => p,
    };
    Some(SocketAddressV4 { ip: host, port })
}

} // verus!

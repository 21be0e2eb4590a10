//! The canonical textual form of addresses.
//!
//! The filter compares peers by their textual address, so the text of an
//! address is part of this library's contract: rendering is proved to emit
//! the exact grammar the parsers accept, and parsing a rendered address
//! gives the address back.

use vstd::prelude::*;
use vstd::arithmetic::div_mod::lemma_fundamental_div_mod;
use crate::addr::{
    lemma_find_at, spec_all_digits, spec_dec_val, spec_digit_val, spec_find, spec_is_digit,
    spec_parse_ipv4, spec_parse_octet, spec_parse_port, spec_parse_socket_addr, spec_pow10,
    Ipv4Address, SocketAddressV4,
};
use crate::addr::lemma_dec_val_snoc;

verus! {

/// Relies on String::push, which appends the given character to the end of
/// this string.
pub assume_specification[ String::push ](s: &mut String, c: char)
    ensures
        final(s)@ == old(s)@.push(c),
;

/// The character of one decimal digit.
pub open spec fn spec_digit_char(d: nat) -> char {
    if d == 0 {
        '0'
    } else if d == 1 {
        '1'
    } else if d == 2 {
        '2'
    } else if d == 3 {
        '3'
    } else if d == 4 {
        '4'
    } else if d == 5 {
        '5'
    } else if d == 6 {
        '6'
    } else if d == 7 {
        '7'
    } else if d == 8 {
        '8'
    } else {
        '9'
    }
}

/// The canonical decimal numeral of `n`: digits only, no leading zero.
pub open spec fn spec_render_dec(n: nat) -> Seq<char>
    decreases n,
{
    if n < 10 {
        seq![spec_digit_char(n)]
    } else {
        spec_render_dec(n / 10).push(spec_digit_char(n % 10))
    }
}

/// The canonical numeral is all digits, reads back as its value, and starts
/// with a zero exactly when it is the numeral of zero.
pub proof fn lemma_render_dec_props(n: nat)
    ensures
        spec_all_digits(spec_render_dec(n)),
        spec_render_dec(n).len() >= 1,
        spec_dec_val(spec_render_dec(n)) == n,
        (spec_render_dec(n)[0] == '0') == (n == 0),
    decreases n,
{
    if n < 10 {
        let r = spec_render_dec(n);
        assert(r =~= seq![spec_digit_char(n)]);
        assert(r.drop_last() =~= Seq::<char>::empty());
        assert(spec_dec_val(Seq::<char>::empty()) == 0);
        assert(spec_is_digit(spec_digit_char(n)));
        assert(spec_digit_val(spec_digit_char(n)) == n);
    } else {
        lemma_render_dec_props(n / 10);
        let r = spec_render_dec(n / 10);
        let c = spec_digit_char(n % 10);
        lemma_dec_val_snoc(r, c);
        lemma_fundamental_div_mod(n as int, 10);
        assert(spec_is_digit(c));
        assert(spec_digit_val(c) == n % 10);
        assert forall|i: int| 0 <= i < r.push(c).len() implies spec_is_digit(
            #[trigger] r.push(c)[i],
        ) by {
            if i < r.len() {
                assert(r.push(c)[i] == r[i]);
            }
        }
        assert(r.push(c)[0] == r[0]);
    }
}

/// A value below ten to the `k` renders in at most `k` digits.
pub proof fn lemma_render_dec_len(n: nat, k: nat)
    requires
        n < spec_pow10(k),
        k >= 1,
    ensures
        spec_render_dec(n).len() <= k,
    decreases n,
{
    if n < 10 {
    } else {
        assert(spec_pow10(0) == 1);
        assert(spec_pow10(1) == 10);
        if k == 1 {
            assert(false);
        }
        lemma_fundamental_div_mod(n as int, 10);
        assert(spec_pow10(k) == 10 * spec_pow10((k - 1) as nat));
        assert(n / 10 < spec_pow10((k - 1) as nat));
        lemma_render_dec_len(n / 10, (k - 1) as nat);
    }
}

/// The numeral of an octet value parses back as an octet, to the same value.
pub proof fn lemma_render_octet_valid(n: u8)
    ensures
        spec_parse_octet(spec_render_dec(n as nat)) == Some(n),
{
    lemma_render_dec_props(n as nat);
    assert(spec_pow10(0) == 1);
    assert(spec_pow10(1) == 10);
    assert(spec_pow10(2) == 100);
    assert(spec_pow10(3) == 1000);
    lemma_render_dec_len(n as nat, 3);
    let r = spec_render_dec(n as nat);
    if r.len() > 1 {
        assert(r[0] != '0');
    }
}

/// The numeral of a port value parses back as a port, to the same value.
pub proof fn lemma_render_port_valid(n: u16)
    ensures
        spec_parse_port(spec_render_dec(n as nat)) == Some(n),
{
    lemma_render_dec_props(n as nat);
    assert(spec_pow10(0) == 1);
    assert(spec_pow10(1) == 10);
    assert(spec_pow10(2) == 100);
    assert(spec_pow10(3) == 1000);
    assert(spec_pow10(4) == 10000);
    assert(spec_pow10(5) == 100000);
    lemma_render_dec_len(n as nat, 5);
}

/// The canonical dotted-decimal text of a host address.
pub open spec fn spec_render_ipv4(a: Ipv4Address) -> Seq<char> {
    spec_render_dec(a.o0 as nat) + seq!['.'] + spec_render_dec(a.o1 as nat) + seq!['.']
        + spec_render_dec(a.o2 as nat) + seq!['.'] + spec_render_dec(a.o3 as nat)
}

/// The canonical text of a socket address.
pub open spec fn spec_render_socket_addr(sa: SocketAddressV4) -> Seq<char> {
    spec_render_ipv4(sa.ip) + seq![':'] + spec_render_dec(sa.port as nat)
}

/// Putting a separator between a head that nowhere holds it and a tail makes
/// a text whose first separator stands exactly after the head.
proof fn lemma_split_at_sep(head: Seq<char>, sep: char, tail: Seq<char>)
    requires
        forall|j: int| 0 <= j < head.len() ==> head[j] != sep,
    ensures
        spec_find(head + seq![sep] + tail, sep) == Some(head.len() as int),
        (head + seq![sep] + tail).subrange(0, head.len() as int) == head,
        (head + seq![sep] + tail).subrange(
            head.len() as int + 1,
            (head + seq![sep] + tail).len() as int,
        ) == tail,
{
    let s = head + seq![sep] + tail;
    assert(s[head.len() as int] == sep);
    assert forall|j: int| 0 <= j < head.len() implies s[j] != sep by {
        assert(s[j] == head[j]);
    }
    lemma_find_at(s, sep, head.len() as int);
    assert(s.subrange(0, head.len() as int) =~= head);
    assert(s.subrange(head.len() as int + 1, s.len() as int) =~= tail);
}

/// The text of a host address parses back to it, and holds no colon, so a
/// port can follow it behind one.
pub proof fn lemma_render_ipv4_round_trip(a: Ipv4Address)
    ensures
        spec_parse_ipv4(spec_render_ipv4(a)) == Some(a),
        forall|j: int|
            0 <= j < spec_render_ipv4(a).len() ==> #[trigger] spec_render_ipv4(a)[j] != ':',
{
    let r0 = spec_render_dec(a.o0 as nat);
    let r1 = spec_render_dec(a.o1 as nat);
    let r2 = spec_render_dec(a.o2 as nat);
    let r3 = spec_render_dec(a.o3 as nat);
    lemma_render_dec_props(a.o0 as nat);
    lemma_render_dec_props(a.o1 as nat);
    lemma_render_dec_props(a.o2 as nat);
    lemma_render_dec_props(a.o3 as nat);
    lemma_render_octet_valid(a.o0);
    lemma_render_octet_valid(a.o1);
    lemma_render_octet_valid(a.o2);
    lemma_render_octet_valid(a.o3);
    let s = spec_render_ipv4(a);
    let rest1 = r1 + seq!['.'] + r2 + seq!['.'] + r3;
    let rest2 = r2 + seq!['.'] + r3;
    assert(s =~= r0 + seq!['.'] + rest1);
    assert(rest1 =~= r1 + seq!['.'] + rest2);
    lemma_split_at_sep(r0, '.', rest1);
    lemma_split_at_sep(r1, '.', rest2);
    lemma_split_at_sep(r2, '.', r3);
    assert(spec_parse_ipv4(s) == Some(a));
    assert forall|j: int| 0 <= j < s.len() implies #[trigger] s[j] != ':' by {
        if j < r0.len() {
            assert(s[j] == r0[j]);
            assert(spec_is_digit(r0[j]));
        } else if j == r0.len() {
            assert(s[j] == '.');
        } else {
            let j1 = j - r0.len() - 1;
            assert(s[j] == rest1[j1]);
            if j1 < r1.len() {
                assert(rest1[j1] == r1[j1]);
                assert(spec_is_digit(r1[j1]));
            } else if j1 == r1.len() {
                assert(rest1[j1] == '.');
            } else {
                let j2 = j1 - r1.len() - 1;
                assert(rest1[j1] == rest2[j2]);
                if j2 < r2.len() {
                    assert(rest2[j2] == r2[j2]);
                    assert(spec_is_digit(r2[j2]));
                } else if j2 == r2.len() {
                    assert(rest2[j2] == '.');
                } else {
                    let j3 = j2 - r2.len() - 1;
                    assert(rest2[j2] == r3[j3]);
                    assert(spec_is_digit(r3[j3]));
                }
            }
        }
    }
}

/// Rendering then parsing a socket address gives the address back: the text
/// this library emits for an address is exactly a text its parser accepts,
/// and it denotes the same address.
pub proof fn lemma_render_parse_round_trip(sa: SocketAddressV4)
    ensures
        spec_parse_socket_addr(spec_render_socket_addr(sa)) == Some(sa),
{
    lemma_render_ipv4_round_trip(sa.ip);
    lemma_render_port_valid(sa.port);
    let h = spec_render_ipv4(sa.ip);
    let p = spec_render_dec(sa.port as nat);
    assert(spec_render_socket_addr(sa) =~= h + seq![':'] + p);
    lemma_split_at_sep(h, ':', p);
}

/// Append the character of one decimal digit.
fn push_digit(s: &mut String, d: u32)
    requires
        d < 10,
    ensures
        final(s)@ == old(s)@.push(spec_digit_char(d as nat)),
{
    let c: char = if d == 0 {
        '0'
    } else if d == 1 {
        '1'
    } else if d == 2 {
        '2'
    } else if d == 3 {
        '3'
    } else if d == 4 {
        '4'
    } else if d == 5 {
        '5'
    } else if d == 6 {
        '6'
    } else if d == 7 {
        '7'
    } else if d == 8 {
        '8'
    } else {
        '9'
    };
    s.push(c);
}

/// Append the canonical decimal numeral of `n`.
fn push_dec(s: &mut String, n: u32)
    ensures
        final(s)@ == old(s)@ + spec_render_dec(n as nat),
    decreases n,
{
    if n < 10 {
        push_digit(s, n);
        proof {
            assert(old(s)@.push(spec_digit_char(n as nat)) =~= old(s)@ + spec_render_dec(
                n as nat,
            ));
        }
    } else {
        push_dec(s, n / 10);
        push_digit(s, n % 10);
        proof {
            assert((old(s)@ + spec_render_dec((n / 10) as nat)).push(
                spec_digit_char((n % 10) as nat),
            ) =~= old(s)@ + spec_render_dec(n as nat));
        }
    }
}

impl Ipv4Address {
    /// The canonical dotted-decimal text of this address.
    pub fn to_text(&self) -> (r: String)
        ensures
            r@ == spec_render_ipv4(*self),
    {
        let mut s = String::new();
        push_dec(&mut s, self.o0 as u32);
        s.push('.');
        push_dec(&mut s, self.o1 as u32);
        s.push('.');
        push_dec(&mut s, self.o2 as u32);
        s.push('.');
        push_dec(&mut s, self.o3 as u32);
        proof {
            assert(s@ =~= spec_render_ipv4(*self));
        }
        s
    }
}

impl SocketAddressV4 {
    /// The canonical `host:port` text of this address.
    pub fn to_text(&self) -> (r: String)
        ensures
            r@ == spec_render_socket_addr(*self),
    {
        let mut s = self.ip.to_text();
        s.push(':');
        push_dec(&mut s, self.port as u32);
        proof {
            assert(s@ =~= spec_render_socket_addr(*self));
        }
        s
    }
}

} // verus!

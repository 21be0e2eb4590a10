//! The line-based proxy list: one `listen -> target` pair per line.
//!
//! A line starting with `#` is a comment. Any other line must hold exactly
//! one `->`, a port numeral on its left and a socket address on its right,
//! each with surrounding spaces allowed; one malformed line makes the whole
//! list unusable, which is fatal before any service starts. Duplicate pairs
//! are kept once.

use vstd::prelude::*;
use vstd::string::StrSliceExecFns;
use crate::addr::{
    spec_parse_port, spec_parse_socket_addr, spec_wildcard, parse_port, parse_socket_addr,
    SocketAddressV4,
};
use crate::filter::spec_names;

verus! {

/// A listen/target pair read from one line.
#[derive(Clone, Copy, PartialEq, Eq, Structural, Debug)]
pub struct PoxyAddr {
    /// The address to listen on: wildcard host, the line's port.
    pub listen: SocketAddressV4,
    /// The address to forward to.
    pub target: SocketAddressV4,
}

impl PoxyAddr {
    /// Pair a listen address with a target address.
    pub fn new(listen: SocketAddressV4, target: SocketAddressV4) -> (r: PoxyAddr)
        ensures
            r == (PoxyAddr { listen, target }),
    {
        PoxyAddr { listen, target }
    }
}

/// An unusable proxy list: the first malformed line's index.
#[derive(Clone, Copy, PartialEq, Eq, Structural, Debug)]
pub struct ConfigError {
    /// The index, counted from zero, of the first line that does not parse.
    pub line: usize,
}

/// An ASCII space character: blank, tab, carriage return or line feed.
pub open spec fn spec_is_ws(c: char) -> bool {
    c == ' ' || c == '\t' || c == '\r' || c == '\n'
}

/// `s` without its leading spaces.
pub open spec fn spec_trim_front(s: Seq<char>) -> Seq<char>
    decreases s.len(),
{
    if s.len() > 0 && spec_is_ws(s[0]) {
        spec_trim_front(s.drop_first())
    } else {
        s
    }
}

/// `s` without its trailing spaces.
pub open spec fn spec_trim_back(s: Seq<char>) -> Seq<char>
    decreases s.len(),
{
    if s.len() > 0 && spec_is_ws(s.last()) {
        spec_trim_back(s.drop_last())
    } else {
        s
    }
}

/// `s` without leading and trailing spaces.
pub open spec fn spec_trim(s: Seq<char>) -> Seq<char> {
    spec_trim_back(spec_trim_front(s))
}

/// Dropping a fully spaced prefix is what `spec_trim_front` does.
proof fn lemma_trim_front_at(s: Seq<char>, a: int)
    requires
        0 <= a <= s.len(),
        forall|j: int| 0 <= j < a ==> spec_is_ws(s[j]),
        a < s.len() ==> !spec_is_ws(s[a]),
    ensures
        spec_trim_front(s) == s.subrange(a, s.len() as int),
    decreases a,
{
    if a == 0 {
        assert(s.subrange(0, s.len() as int) =~= s);
    } else {
        lemma_trim_front_at(s.drop_first(), a - 1);
        assert(s.drop_first().subrange(a - 1, s.drop_first().len() as int) =~= s.subrange(
            a,
            s.len() as int,
        ));
    }
}

/// Dropping a fully spaced suffix is what `spec_trim_back` does.
proof fn lemma_trim_back_at(s: Seq<char>, b: int)
    requires
        0 <= b <= s.len(),
        forall|j: int| b <= j < s.len() ==> spec_is_ws(s[j]),
        b > 0 ==> !spec_is_ws(s[b - 1]),
    ensures
        spec_trim_back(s) == s.subrange(0, b),
    decreases s.len(),
{
    if b == s.len() {
        if s.len() > 0 {
            assert(s.subrange(0, s.len() as int) =~= s);
        } else {
            assert(s.subrange(0, 0) =~= s);
        }
    } else {
        lemma_trim_back_at(s.drop_last(), b);
        assert(s.drop_last().subrange(0, b) =~= s.subrange(0, b));
    }
}

/// The index of the first character of `s` that is not a space.
fn skip_ws_front(s: &str) -> (a: usize)
    ensures
        a <= s@.len(),
        forall|j: int| 0 <= j < a ==> spec_is_ws(s@[j]),
        a < s@.len() ==> !spec_is_ws(s@[a as int]),
{
    let n: usize = s.unicode_len();
    let mut a: usize = 0;
    while a < n
        invariant
            n == s@.len(),
            0 <= a <= n,
            forall|j: int| 0 <= j < a ==> spec_is_ws(s@[j]),
        decreases n - a,
    {
        let c = s.get_char(a);
        if !(c == ' ' || c == '\t' || c == '\r' || c == '\n') {
            return a;
        }
        a = a + 1;
    }
    a
}

/// The index just after the last character of `s` that is not a space.
fn skip_ws_back(s: &str) -> (b: usize)
    ensures
        b <= s@.len(),
        forall|j: int| b <= j < s@.len() ==> spec_is_ws(s@[j]),
        b > 0 ==> !spec_is_ws(s@[b - 1]),
{
    let n: usize = s.unicode_len();
    let mut b: usize = n;
    while b > 0
        invariant
            n == s@.len(),
            0 <= b <= n,
            forall|j: int| b <= j < n ==> spec_is_ws(s@[j]),
        decreases b,
    {
        let c = s.get_char(b - 1);
        if !(c == ' ' || c == '\t' || c == '\r' || c == '\n') {
            return b;
        }
        b = b - 1;
    }
    b
}

/// `s` without leading and trailing spaces.
pub fn trim_str(s: &str) -> (t: &str)
    ensures
        t@ == spec_trim(s@),
{
    let n: usize = s.unicode_len();
    let a = skip_ws_front(s);
    let b = skip_ws_back(s);
    if b <= a {
        proof {
            assert forall|j: int| 0 <= j < s@.len() implies spec_is_ws(s@[j]) by {
                if j >= a {
                    assert(j >= b);
                }
            }
            assert(a == s@.len());
            lemma_trim_front_at(s@, a as int);
            assert(spec_trim_front(s@) =~= Seq::<char>::empty());
            lemma_trim_back_at(spec_trim_front(s@), 0);
            assert(spec_trim(s@) =~= s@.subrange(a as int, a as int));
        }
        s.substring_char(a, a)
    } else {
        proof {
            lemma_trim_front_at(s@, a as int);
            let t = s@.subrange(a as int, s@.len() as int);
            assert forall|j: int| b - a <= j < t.len() implies spec_is_ws(t[j]) by {
                assert(t[j] == s@[j + a]);
            }
            assert(t[b - a - 1] == s@[b - 1]);
            lemma_trim_back_at(t, b - a);
            assert(t.subrange(0, b - a) =~= s@.subrange(a as int, b as int));
        }
        s.substring_char(a, b)
    }
}

/// An arrow `->` standing at index `i` of `s`.
pub open spec fn spec_is_arrow_at(s: Seq<char>, i: int) -> bool {
    &&& 0 <= i
    &&& i + 2 <= s.len()
    &&& s[i] == '-'
    &&& s[i + 1] == '>'
}

/// How many arrows `s` holds.
pub open spec fn spec_arrow_count(s: Seq<char>) -> nat
    decreases s.len(),
{
    if s.len() < 2 {
        0
    } else {
        spec_arrow_count(s.drop_last()) + if spec_is_arrow_at(s, s.len() - 2) {
            1nat
        } else {
            0nat
        }
    }
}

/// The index of the first arrow in `s`, if any.
pub open spec fn spec_find_arrow(s: Seq<char>) -> Option<int>
    decreases s.len(),
{
    if s.len() < 2 {
        None
    } else if s[0] == '-' && s[1] == '>' {
        Some(0int)
    } else {
        match spec_find_arrow(s.drop_first()) {
            Some(i) => Some(i + 1),
            None => None,
        }
    }
}

/// A witness for the first arrow fixes the value of `spec_find_arrow`.
proof fn lemma_find_arrow_at(s: Seq<char>, i: int)
    requires
        spec_is_arrow_at(s, i),
        forall|j: int| 0 <= j < i ==> !spec_is_arrow_at(s, j),
    ensures
        spec_find_arrow(s) == Some(i),
    decreases i,
{
    if i == 0 {
    } else {
        assert(!spec_is_arrow_at(s, 0));
        assert(spec_is_arrow_at(s.drop_first(), i - 1));
        assert forall|j: int| 0 <= j < i - 1 implies !spec_is_arrow_at(s.drop_first(), j) by {
            assert(!spec_is_arrow_at(s, j + 1));
        }
        lemma_find_arrow_at(s.drop_first(), i - 1);
    }
}

/// When `s` holds no arrow, `spec_find_arrow` finds nothing.
proof fn lemma_find_arrow_absent(s: Seq<char>)
    requires
        forall|j: int| !spec_is_arrow_at(s, j),
    ensures
        spec_find_arrow(s) is None,
    decreases s.len(),
{
    if s.len() >= 2 {
        assert(!spec_is_arrow_at(s, 0));
        assert forall|j: int| !spec_is_arrow_at(s.drop_first(), j) by {
            if spec_is_arrow_at(s.drop_first(), j) {
                assert(spec_is_arrow_at(s, j + 1));
            }
        }
        lemma_find_arrow_absent(s.drop_first());
    }
}

/// Count the arrows of `s` and find the first one.
fn scan_arrows(s: &str) -> (r: (usize, Option<usize>))
    ensures
        r.0 == spec_arrow_count(s@),
        (r.0 > 0) == (r.1 is Some),
        match r.1 {
            Some(i) => spec_find_arrow(s@) == Some(i as int) && i + 2 <= s@.len(),
            None => spec_find_arrow(s@) is None,
        },
{
    let n: usize = s.unicode_len();
    if n < 2 {
        proof {
            assert forall|j: int| !spec_is_arrow_at(s@, j) by {}
            lemma_find_arrow_absent(s@);
        }
        return (0, None);
    }
    let mut count: usize = 0;
    let mut first: Option<usize> = None;
    let mut k: usize = 0;
    proof {
        assert(spec_arrow_count(s@.subrange(0, 1)) == 0);
    }
    while k < n - 1
        invariant
            n == s@.len(),
            2 <= n,
            0 <= k <= n - 1,
            count <= k,
            count == spec_arrow_count(s@.subrange(0, k + 1 as int)),
            (count > 0) == (first is Some),
            match first {
                Some(i) => spec_is_arrow_at(s@, i as int) && (forall|j: int|
                    0 <= j < i ==> !spec_is_arrow_at(s@, j)) && i + 2 <= n,
                None => forall|j: int| 0 <= j < k ==> !spec_is_arrow_at(s@, j),
            },
        decreases n - k,
    {
        let ghost prefix = s@.subrange(0, k + 1 as int);
        let ghost next = s@.subrange(0, k + 2 as int);
        proof {
            assert(next.drop_last() =~= prefix);
            assert(next[k as int] == s@[k as int]);
            assert(next[k + 1 as int] == s@[k + 1 as int]);
        }
        let is_arrow = s.get_char(k) == '-' && s.get_char(k + 1) == '>';
        if is_arrow {
            count = count + 1;
            if first.is_none() {
                first = Some(k);
            }
        }
        k = k + 1;
    }
    proof {
        assert(s@.subrange(0, n as int) =~= s@);
        match first {
            Some(i) => {
                lemma_find_arrow_at(s@, i as int);
            },
            None => {
                assert forall|j: int| !spec_is_arrow_at(s@, j) by {}
                lemma_find_arrow_absent(s@);
            },
        }
    }
    (count, first)
}

/// A comment line: its first character is `#`.
pub open spec fn spec_is_comment(s: Seq<char>) -> bool {
    s.len() >= 1 && s[0] == '#'
}

/// What parsing one non-comment line yields: the pair, when the line holds
/// exactly one arrow, a port on its left and a socket address on its right.
pub open spec fn spec_parse_line(s: Seq<char>) -> Option<PoxyAddr> {
    if spec_arrow_count(s) != 1 {
        None
    } else {
        let i = spec_find_arrow(s).unwrap();
        let listen_txt = spec_trim(s.subrange(0, i));
        let target_txt = spec_trim(s.subrange(i + 2, s.len() as int));
        match (spec_parse_port(listen_txt), spec_parse_socket_addr(target_txt)) {
            (Some(p), Some(t)) => Some(PoxyAddr { listen: spec_wildcard(p), target: t }),
            _ => None,
        }
    }
}

/// Parse one non-comment line, `port -> a.b.c.d:port`.
pub fn parse_line(s: &str) -> (r: Option<PoxyAddr>)
    ensures
        r == spec_parse_line(s@),
{
    let n: usize = s.unicode_len();
    let (count, first) = scan_arrows(s);
    if count != 1 {
        return None;
    }
    let i = match first {
        Some(i) => i,
        None => {
            return None;
        },
    };
    let left = s.substring_char(0, i);
    let listen_part = trim_str(left);
    let right = s.substring_char(i + 2, n);
    let target_part = trim_str(right);
    let port = match parse_port(listen_part) {
        Some(p) => p,
        None => {
            return None;
        },
    };
    let target = match parse_socket_addr(target_part) {
        Some(t) => t,
        None => {
            return None;
        },
    };
    Some(PoxyAddr { listen: SocketAddressV4::wildcard(port), target })
}

/// A line the proxy list accepts: a comment, or a parsable pair.
pub open spec fn spec_line_ok(s: Seq<char>) -> bool {
    spec_is_comment(s) || spec_parse_line(s) is Some
}

/// The pairs of a list of lines, in first-occurrence order, each kept once.
pub open spec fn spec_collect(ls: Seq<Seq<char>>) -> Seq<PoxyAddr>
    decreases ls.len(),
{
    if ls.len() == 0 {
        Seq::empty()
    } else {
        let prev = spec_collect(ls.drop_last());
        let l = ls.last();
        if spec_is_comment(l) {
            prev
        } else {
            match spec_parse_line(l) {
                Some(p) => if prev.contains(p) {
                    prev
                } else {
                    prev.push(p)
                },
                None => prev,
            }
        }
    }
}

/// Whether `out` already holds the pair `p`.
fn contains_addr(out: &Vec<PoxyAddr>, p: PoxyAddr) -> (r: bool)
    ensures
        r == out@.contains(p),
{
    let n: usize = out.len();
    let mut i: usize = 0;
    while i < n
        invariant
            n == out@.len(),
            0 <= i <= n,
            forall|j: int| 0 <= j < i ==> out@[j] != p,
        decreases n - i,
    {
        if out[i] == p {
            return true;
        }
        i = i + 1;
    }
    false
}

/// Read the whole proxy list.
///
/// Succeeds exactly when every line is a comment or parses; then the pairs
/// come back in first-occurrence order, duplicates kept once. Fails on the
/// first malformed line, naming its index: an unusable list is fatal before
/// any service starts.
pub fn read_proxy_addr(lines: &Vec<String>) -> (r: Result<Vec<PoxyAddr>, ConfigError>)
    ensures
        r is Ok <==> (forall|i: int|
            0 <= i < lines@.len() ==> spec_line_ok(#[trigger] spec_names(lines@)[i])),
        r matches Ok(v) ==> v@ == spec_collect(spec_names(lines@)),
        r matches Err(e) ==> {
            &&& 0 <= (e.line as int) < lines@.len()
            &&& !spec_line_ok(spec_names(lines@)[e.line as int])
            &&& forall|j: int| 0 <= j < e.line ==> spec_line_ok(#[trigger] spec_names(lines@)[j])
        },
{
    let ghost names = spec_names(lines@);
    let mut out: Vec<PoxyAddr> = Vec::new();
    let n: usize = lines.len();
    let mut i: usize = 0;
    proof {
        assert(names.subrange(0, 0) =~= Seq::<Seq<char>>::empty());
    }
    while i < n
        invariant
            n == lines@.len(),
            0 <= i <= n,
            names == spec_names(lines@),
            forall|j: int| 0 <= j < i ==> spec_line_ok(#[trigger] names[j]),
            out@ == spec_collect(names.subrange(0, i as int)),
        decreases n - i,
    {
        let ghost prefix = names.subrange(0, i as int);
        let ghost next = names.subrange(0, i + 1 as int);
        proof {
            assert(next.drop_last() =~= prefix);
            assert(next.last() == names[i as int]);
        }
        let line: &String = &lines[i];
        let is_comment = line.as_str().unicode_len() >= 1 && line.as_str().get_char(0) == '#';
        if !is_comment {
            match parse_line(line.as_str()) {
                Some(p) => {
                    if !contains_addr(&out, p) {
                        out.push(p);
                    }
                },
                None => {
                    return Err(ConfigError { line: i });
                },
            }
        }
        i = i + 1;
    }
    proof {
        assert(names.subrange(0, n as int) =~= names);
    }
    Ok(out)
}

} // verus!

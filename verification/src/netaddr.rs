//! Candidate addresses for directed probes: picking the address out of one
//! token of the overlay client's peer listing, and deciding whether it is a
//! dotted-quad address.

use vstd::prelude::*;
use vstd::string::StrSliceExecFns;

verus! {

pub open spec fn is_digit(c: char) -> bool {
    '0' <= c && c <= '9'
}

pub open spec fn digit_val(c: char) -> int {
    c as int - '0' as int
}

/// The number a run of decimal digits spells.
pub open spec fn seg_value(s: Seq<char>) -> int
    decreases s.len(),
{
    if s.len() == 0 {
        0
    } else {
        seg_value(s.drop_last()) * 10 + digit_val(s.last())
    }
}

/// One segment of a dotted-quad address: one to three digits, no leading
/// zero unless the segment is `0` itself, value at most 255.
pub open spec fn valid_segment(s: Seq<char>) -> bool {
    &&& 1 <= s.len() <= 3
    &&& (forall|i: int| 0 <= i < s.len() ==> is_digit(#[trigger] s[i]))
    &&& (s.len() > 1 ==> s[0] != '0')
    &&& seg_value(s) <= 255
}

/// Three dots at these positions and nowhere else, with a valid segment
/// between each pair of neighbors.
pub open spec fn ipv4_split(s: Seq<char>, i: int, j: int, k: int) -> bool {
    &&& 0 <= i < j < k < s.len()
    &&& s[i] == '.' && s[j] == '.' && s[k] == '.'
    &&& (forall|t: int| 0 <= t < s.len() && t != i && t != j && t != k ==> #[trigger] s[t] != '.')
    &&& valid_segment(s.subrange(0, i))
    &&& valid_segment(s.subrange(i + 1, j))
    &&& valid_segment(s.subrange(j + 1, k))
    &&& valid_segment(s.subrange(k + 1, s.len() as int))
}

/// A dotted-quad address: four valid segments separated by three dots.
pub open spec fn valid_ipv4(s: Seq<char>) -> bool {
    exists|i: int, j: int, k: int| ipv4_split(s, i, j, k)
}

/// Check one segment of `s`, the characters from `from` up to `to`.
fn check_segment(s: &str, from: usize, to: usize) -> (r: bool)
    requires
        from <= to <= s@.len(),
    ensures
        r == valid_segment(s@.subrange(from as int, to as int)),
{
    let ghost seg = s@.subrange(from as int, to as int);
    let len = to - from;
    if len < 1 || len > 3 {
        return false;
    }
    let first = s.get_char(from);
    if len > 1 && first == '0' {
        return false;
    }
    let mut value: u32 = 0;
    let mut t: usize = 0;
    while t < len
        invariant
            t <= len,
            len == seg.len(),
            len <= 3,
            from + len <= s@.len(),
            seg == s@.subrange(from as int, to as int),
            to == from + len,
            forall|q: int| 0 <= q < t ==> is_digit(#[trigger] seg[q]),
            value == seg_value(seg.take(t as int)),
            t == 0 ==> value == 0,
            t == 1 ==> value <= 9,
            t == 2 ==> value <= 99,
            t == 3 ==> value <= 999,
        decreases len - t,
    {
        let c = s.get_char(from + t);
        assert(c == seg[t as int]);
        if !(c >= '0' && c <= '9') {
            return false;
        }
        proof {
            assert(seg.take(t as int + 1).drop_last() =~= seg.take(t as int));
            assert(seg.take(t as int + 1).last() == seg[t as int]);
        }
        value = value * 10 + (c as u32 - 48);
        t += 1;
    }
    proof {
        assert(seg.take(len as int) =~= seg);
    }
    value <= 255
}

/// Decide whether the characters spell a dotted-quad address.
pub fn is_valid_ipv4(s: &str) -> (r: bool)
    ensures
        r == valid_ipv4(s@),
{
    let n = s.unicode_len();
    // Find every dot.
    let mut dots: Vec<usize> = Vec::new();
    let mut i: usize = 0;
    while i < n
        invariant
            i <= n,
            n == s@.len(),
            forall|q: int| 0 <= q < dots@.len() ==> #[trigger] dots@[q] < i,
            forall|q: int, p: int| 0 <= q < p < dots@.len() ==> dots@[q] < dots@[p],
            forall|q: int| 0 <= q < dots@.len() ==> s@[#[trigger] dots@[q] as int] == '.',
            forall|t: int|
                0 <= t < i && s@[t] == '.' ==> (exists|q: int|
                    0 <= q < dots@.len() && #[trigger] dots@[q] as int == t),
        decreases n - i,
    {
        if s.get_char(i) == '.' {
            let ghost before = dots@;
            dots.push(i);
            proof {
                let d = dots@;
                assert(d[d.len() - 1] as int == i as int);
                assert forall|t: int| 0 <= t < i + 1 && s@[t] == '.' implies (exists|q: int|
                    0 <= q < d.len() && #[trigger] d[q] as int == t) by {
                    if t == i {
                        assert(d[d.len() - 1] as int == t);
                    } else {
                        let q = choose|q: int|
                            0 <= q < before.len() && #[trigger] before[q] as int == t;
                        assert(d[q] as int == t);
                    }
                }
            }
        }
        i += 1;
    }
    if dots.len() != 3 {
        proof {
            assert forall|a: int, b: int, c: int| !ipv4_split(s@, a, b, c) by {
                lemma_dots_bound(s@, a, b, c, dots@);
            }
        }
        return false;
    }
    let d1 = dots[0];
    let d2 = dots[1];
    let d3 = dots[2];
    let ok = check_segment(s, 0, d1) && check_segment(s, d1 + 1, d2) && check_segment(
        s,
        d2 + 1,
        d3,
    ) && check_segment(s, d3 + 1, n);
    proof {
        if ok {
            assert(ipv4_split(s@, d1 as int, d2 as int, d3 as int)) by {
                assert forall|t: int|
                    0 <= t < s@.len() && t != d1 as int && t != d2 as int && t
                        != d3 as int implies #[trigger] s@[t] != '.' by {
                    if s@[t] == '.' {
                        assert(exists|q: int|
                            0 <= q < dots@.len() && #[trigger] dots@[q] as int == t);
                        let q = choose|q: int|
                            0 <= q < dots@.len() && #[trigger] dots@[q] as int == t;
                        assert(q == 0 || q == 1 || q == 2);
                    }
                }
            }
        } else {
            assert forall|a: int, b: int, c: int| !ipv4_split(s@, a, b, c) by {
                if ipv4_split(s@, a, b, c) {
                    lemma_unique_split(s@, a, b, c, d1 as int, d2 as int, d3 as int, dots@);
                }
            }
        }
    }
    ok
}

/// When these are exactly the string's dot positions and there are not
/// three of them, no dotted-quad split of the string exists.
proof fn lemma_dots_bound(s: Seq<char>, a: int, b: int, c: int, dots: Seq<usize>)
    requires
        forall|q: int, p: int| 0 <= q < p < dots.len() ==> dots[q] < dots[p],
        forall|q: int| 0 <= q < dots.len() ==> s[#[trigger] dots[q] as int] == '.',
        forall|q: int| 0 <= q < dots.len() ==> #[trigger] dots[q] < s.len(),
        forall|t: int|
            0 <= t < s.len() && s[t] == '.' ==> (exists|q: int|
                0 <= q < dots.len() && #[trigger] dots[q] as int == t),
        dots.len() != 3,
    ensures
        !ipv4_split(s, a, b, c),
{
    if !ipv4_split(s, a, b, c) {
        return ;
    }
    if dots.len() < 3 {
        // a, b and c are three distinct dots, so the scan found three.
        assert(exists|q: int| 0 <= q < dots.len() && #[trigger] dots[q] as int == a);
        assert(exists|q: int| 0 <= q < dots.len() && #[trigger] dots[q] as int == b);
        assert(exists|q: int| 0 <= q < dots.len() && #[trigger] dots[q] as int == c);
        let qa = choose|q: int| 0 <= q < dots.len() && #[trigger] dots[q] as int == a;
        let qb = choose|q: int| 0 <= q < dots.len() && #[trigger] dots[q] as int == b;
        let qc = choose|q: int| 0 <= q < dots.len() && #[trigger] dots[q] as int == c;
        assert(qa != qb && qb != qc && qa != qc);
        assert(false);
    } else {
        // At least four dots stand in the string, but a split leaves room
        // for only the three at a, b and c.
        let e1 = dots[0] as int;
        let e2 = dots[1] as int;
        let e3 = dots[2] as int;
        let e4 = dots[3] as int;
        assert(e1 < e2 < e3 && e3 < e4);
        assert(e1 == a || e1 == b || e1 == c) by {
            if e1 != a && e1 != b && e1 != c {
                assert(s[e1] != '.');
            }
        }
        assert(e2 == a || e2 == b || e2 == c) by {
            if e2 != a && e2 != b && e2 != c {
                assert(s[e2] != '.');
            }
        }
        assert(e3 == a || e3 == b || e3 == c) by {
            if e3 != a && e3 != b && e3 != c {
                assert(s[e3] != '.');
            }
        }
        assert(e4 == a || e4 == b || e4 == c) by {
            if e4 != a && e4 != b && e4 != c {
                assert(s[e4] != '.');
            }
        }
        assert(false);
    }
}

/// With exactly the three found dots in the string, any dotted-quad split
/// uses exactly those three positions.
proof fn lemma_unique_split(
    s: Seq<char>,
    a: int,
    b: int,
    c: int,
    d1: int,
    d2: int,
    d3: int,
    dots: Seq<usize>,
)
    requires
        dots.len() == 3,
        dots[0] == d1 && dots[1] == d2 && dots[2] == d3,
        d1 < d2 < d3,
        forall|q: int| 0 <= q < dots.len() ==> s[#[trigger] dots[q] as int] == '.',
        forall|q: int| 0 <= q < dots.len() ==> #[trigger] dots[q] < s.len(),
        forall|t: int|
            0 <= t < s.len() && s[t] == '.' ==> (exists|q: int|
                0 <= q < dots.len() && #[trigger] dots[q] as int == t),
        ipv4_split(s, a, b, c),
    ensures
        ipv4_split(s, d1, d2, d3),
{
    // Each of a, b, c is one of d1, d2, d3; orderedness forces the match.
    assert(exists|q: int| 0 <= q < dots.len() && #[trigger] dots[q] as int == a);
    assert(exists|q: int| 0 <= q < dots.len() && #[trigger] dots[q] as int == b);
    assert(exists|q: int| 0 <= q < dots.len() && #[trigger] dots[q] as int == c);
    let qa = choose|q: int| 0 <= q < dots.len() && #[trigger] dots[q] as int == a;
    let qb = choose|q: int| 0 <= q < dots.len() && #[trigger] dots[q] as int == b;
    let qc = choose|q: int| 0 <= q < dots.len() && #[trigger] dots[q] as int == c;
    assert(qa != qb && qb != qc && qa != qc);
    assert(qa == 0 && qb == 1 && qc == 2) by {
        assert((dots[qa] as int) < (dots[qb] as int));
        assert((dots[qb] as int) < (dots[qc] as int));
    }
    assert(a == d1 && b == d2 && c == d3);
}

/// The part of a token before its first slash; the whole token when it has
/// none.
pub open spec fn slash_prefix(s: Seq<char>) -> Seq<char>
    decreases s.len(),
{
    if s.len() == 0 {
        s
    } else if s.first() == '/' {
        Seq::empty()
    } else {
        seq![s.first()] + slash_prefix(s.drop_first())
    }
}

proof fn lemma_slash_prefix_at(s: Seq<char>, i: int)
    requires
        0 <= i <= s.len(),
        forall|t: int| 0 <= t < i ==> #[trigger] s[t] != '/',
        i == s.len() || s[i] == '/',
    ensures
        slash_prefix(s) == s.subrange(0, i),
    decreases i,
{
    if s.len() == 0 {
        assert(slash_prefix(s) =~= s.subrange(0, i));
    } else if i == 0 {
        if s.len() > 0 {
            assert(s[0] == '/');
        }
        assert(slash_prefix(s) =~= s.subrange(0, 0));
    } else {
        assert(s[0] != '/');
        let rest = s.drop_first();
        assert(forall|t: int| 0 <= t < i - 1 ==> #[trigger] rest[t] != '/');
        lemma_slash_prefix_at(rest, i - 1);
        assert(slash_prefix(s) =~= s.subrange(0, i)) by {
            assert(slash_prefix(s) == seq![s.first()] + rest.subrange(0, i - 1));
        }
    }
}

/// The address a peer-listing token offers for a directed probe: the part
/// before any slash, accepted only when it is a dotted-quad address.
pub fn candidate_from_token(token: &str) -> (r: Option<String>)
    ensures
        match r {
            Some(ip) => ip@ == slash_prefix(token@) && valid_ipv4(ip@),
            None => !valid_ipv4(slash_prefix(token@)),
        },
{
    let n = token.unicode_len();
    let mut cut = n;
    let mut i: usize = 0;
    while i < n && cut == n
        invariant
            i <= n,
            n == token@.len(),
            cut <= n,
            forall|t: int| 0 <= t < i ==> #[trigger] token@[t] != '/',
            cut < n ==> cut == i && token@[cut as int] == '/',
        decreases n - i + (if cut == n { 1int } else { 0int }),
    {
        if token.get_char(i) == '/' {
            cut = i;
        } else {
            i += 1;
        }
    }
    let prefix = if cut < n {
        proof {
            lemma_slash_prefix_at(token@, cut as int);
        }
        token.substring_char(0, cut)
    } else {
        proof {
            lemma_slash_prefix_at(token@, n as int);
            assert(token@.subrange(0, n as int) =~= token@);
        }
        token.substring_char(0, n)
    };
    if is_valid_ipv4(prefix) {
        Some(prefix.to_owned())
    } else {
        None
    }
}

} // verus!

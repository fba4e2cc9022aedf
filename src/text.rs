//! Character-level comparisons of strings.

use vstd::prelude::*;
use vstd::string::*;

verus! {

/// `n` occurs in `h` at position `p`.
pub open spec fn occurs_at(h: Seq<char>, p: int, n: Seq<char>) -> bool {
    0 <= p && p + n.len() <= h.len() && h.subrange(p, p + n.len()) == n
}

/// `n` is a substring of `h`.
pub open spec fn contains_seq(h: Seq<char>, n: Seq<char>) -> bool {
    exists|p: int| #[trigger] occurs_at(h, p, n)
}

/// Whether `n` occurs in `h` at position `p`.
fn occurs_at_exec(h: &str, hl: usize, p: usize, n: &str, nl: usize) -> (r: bool)
    requires
        hl == h@.len(),
        nl == n@.len(),
        p + nl <= hl,
    ensures
        r == occurs_at(h@, p as int, n@),
{
    let mut k: usize = 0;
    while k < nl
        invariant
            hl == h@.len(),
            nl == n@.len(),
            p + nl <= hl,
            k <= nl,
            forall|t: int| 0 <= t < k ==> h@[p + t] == n@[t],
        decreases nl - k,
    {
        if h.get_char(p + k) != n.get_char(k) {
            assert(h@.subrange(p as int, p + nl)[k as int] != n@[k as int]);
            return false;
        }
        k += 1;
    }
    assert(h@.subrange(p as int, p + nl) =~= n@);
    true
}

/// Character-wise equality.
pub fn str_equal(a: &str, b: &str) -> (r: bool)
    ensures
        r == (a@ == b@),
{
    let al = a.unicode_len();
    let bl = b.unicode_len();
    if al != bl {
        return false;
    }
    let r = occurs_at_exec(a, al, 0, b, bl);
    proof {
        assert(a@.subrange(0, al as int) =~= a@);
    }
    r
}

/// Whether `needle` is a substring of `hay`.
pub fn contains_str(hay: &str, needle: &str) -> (r: bool)
    ensures
        r == contains_seq(hay@, needle@),
{
    let hl = hay.unicode_len();
    let nl = needle.unicode_len();
    if nl > hl {
        proof {
            assert forall|p: int| !occurs_at(hay@, p, needle@) by {}
        }
        return false;
    }
    let last = hl - nl;
    let mut p: usize = 0;
    loop
        invariant_except_break
            hl == hay@.len(),
            nl == needle@.len(),
            last == hl - nl,
            p <= last,
            forall|q: int| 0 <= q < p ==> !occurs_at(hay@, q, needle@),
        ensures
            forall|q: int| 0 <= q <= last ==> !occurs_at(hay@, q, needle@),
        decreases last - p,
    {
        if occurs_at_exec(hay, hl, p, needle, nl) {
            return true;
        }
        if p == last {
            break;
        }
        p += 1;
    }
    proof {
        assert forall|q: int| !occurs_at(hay@, q, needle@) by {
            if 0 <= q <= last {
            }
        }
    }
    false
}

} // verus!

//! Exact, case-sensitive substring search over sequences of characters.

use vstd::prelude::*;
use crate::editor::SearchDirection;

verus! {

/// `needle` occurs in `s` at offset `p`: it fits there and the characters agree.
pub open spec fn occurs_at(s: Seq<char>, needle: Seq<char>, p: int) -> bool {
    &&& 0 <= p
    &&& p + needle.len() <= s.len()
    &&& s.subrange(p, p + needle.len()) == needle
}

/// `r` is the outcome of scanning `s` for `needle` from offset `at`: forward,
/// the smallest offset not below `at` at which `needle` occurs; backward, the
/// largest offset not above `at`; `None` exactly when there is no such offset.
pub open spec fn is_scan_result(
    s: Seq<char>,
    needle: Seq<char>,
    at: int,
    direction: SearchDirection,
    r: Option<usize>,
) -> bool {
    match direction {
        SearchDirection::Forward => match r {
            Some(p) => at <= p && occurs_at(s, needle, p as int) && forall|q: int|
                at <= q < p ==> !occurs_at(s, needle, q),
            None => forall|q: int| at <= q ==> !occurs_at(s, needle, q),
        },
        SearchDirection::Backward => match r {
            Some(p) => p <= at && occurs_at(s, needle, p as int) && forall|q: int|
                p < q <= at ==> !occurs_at(s, needle, q),
            None => forall|q: int| q <= at ==> !occurs_at(s, needle, q),
        },
    }
}

/// Whether `needle` occurs in `s` at offset `p`.
pub fn matches_at(s: &Vec<char>, needle: &Vec<char>, p: usize) -> (b: bool)
    ensures
        b == occurs_at(s@, needle@, p as int),
{
    let n = s.len();
    let m = needle.len();
    if m > n || p > n - m {
        return false;
    }
    let mut k: usize = 0;
    while k < m
        invariant
            n == s@.len(),
            m == needle@.len(),
            p + m <= n,
            k <= m,
            forall|j: int| 0 <= j < k ==> s@[p + j] == needle@[j],
        decreases m - k,
    {
        if s[p + k] != needle[k] {
            return false;
        }
        k += 1;
    }
    assert(s@.subrange(p as int, p + m) =~= needle@);
    true
}

/// The first offset from `at` upwards at which `needle` occurs in `s`.
fn scan_forward(s: &Vec<char>, needle: &Vec<char>, at: usize) -> (r: Option<usize>)
    ensures
        is_scan_result(s@, needle@, at as int, SearchDirection::Forward, r),
{
    let n = s.len();
    let m = needle.len();
    if m > n {
        return None;
    }
    let last = n - m;
    let mut p: usize = at;
    while p <= last
        invariant
            n == s@.len(),
            m == needle@.len(),
            last == n - m,
            at <= p,
            forall|q: int| at <= q < p ==> !occurs_at(s@, needle@, q),
        decreases last + 1 - p,
    {
        if matches_at(s, needle, p) {
            return Some(p);
        }
        if p == last {
            return None;
        }
        p += 1;
    }
    None
}

/// The first offset from `at` downwards at which `needle` occurs in `s`.
fn scan_backward(s: &Vec<char>, needle: &Vec<char>, at: usize) -> (r: Option<usize>)
    ensures
        is_scan_result(s@, needle@, at as int, SearchDirection::Backward, r),
{
    let n = s.len();
    let m = needle.len();
    if m > n {
        return None;
    }
    let last = n - m;
    let mut p: usize = if at < last {
        at
    } else {
        last
    };
    loop
        invariant
            n == s@.len(),
            m == needle@.len(),
            last == n - m,
            p <= at,
            p <= last,
            forall|q: int| p < q <= at ==> !occurs_at(s@, needle@, q),
        decreases p,
    {
        if matches_at(s, needle, p) {
            return Some(p);
        }
        if p == 0 {
            return None;
        }
        p -= 1;
    }
}

/// Scans `s` for `needle`, starting at offset `at` and walking in `direction`.
pub fn scan(s: &Vec<char>, needle: &Vec<char>, at: usize, direction: SearchDirection) -> (r:
    Option<usize>)
    ensures
        is_scan_result(s@, needle@, at as int, direction, r),
{
    match direction {
        SearchDirection::Forward => scan_forward(s, needle, at),
        SearchDirection::Backward => scan_backward(s, needle, at),
    }
}

} // verus!

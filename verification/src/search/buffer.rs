//! Literal search in a buffer's text, by Unicode scalar offsets.

use vstd::prelude::*;

use std::ops::Range;
use std::sync::atomic::AtomicU64;

use crate::chars::str_to_chars;

verus! {

/// `q` occurs in `s` at `i`.
pub open spec fn occurs_at(s: Seq<char>, q: Seq<char>, i: int) -> bool {
    0 <= i && i + q.len() <= s.len() && s.subrange(i, i + q.len()) == q
}

/// The leftmost non-overlapping occurrences of a non-empty `q` in `s` from
/// `i` on, as char ranges.
pub open spec fn occurrences_from(s: Seq<char>, q: Seq<char>, i: int) -> Seq<(int, int)>
    decreases s.len() - i,
{
    if q.len() == 0 || i < 0 || i + q.len() > s.len() {
        Seq::empty()
    } else if occurs_at(s, q, i) {
        seq![(i, i + q.len())] + occurrences_from(s, q, i + q.len())
    } else {
        occurrences_from(s, q, i + 1)
    }
}

/// The matches a search reports: none for an empty query, else the
/// occurrences, at most `limit` of them where `limit` is not 0.
pub open spec fn spec_matches(s: Seq<char>, q: Seq<char>, limit: usize) -> Seq<(int, int)> {
    let all = occurrences_from(s, q, 0);
    if limit > 0 && all.len() > limit {
        all.take(limit as int)
    } else {
        all
    }
}

pub open spec fn ranges_view(v: Seq<Range<usize>>) -> Seq<(int, int)> {
    v.map_values(|r: Range<usize>| (r.start as int, r.end as int))
}

fn occurs_here(s: &Vec<char>, q: &Vec<char>, i: usize) -> (b: bool)
    requires
        q@.len() > 0,
        i + q@.len() <= s@.len(),
    ensures
        b == occurs_at(s@, q@, i as int),
{
    let sl = s.len();
    let mut k: usize = 0;
    while k < q.len()
        invariant
            k <= q@.len(),
            sl == s@.len(),
            i + q@.len() <= s@.len(),
            forall|m: int| 0 <= m < k ==> s@[i + m] == q@[m],
        decreases q.len() - k,
    {
        if s[i + k] != q[k] {
            assert(s@.subrange(i as int, i + q@.len())[k as int] != q@[k as int]);
            return false;
        }
        k = k + 1;
    }
    assert(s@.subrange(i as int, i + q@.len()) =~= q@);
    true
}

/// The generation a search token holds now.
pub(crate) fn current_generation(token: &AtomicU64) -> u64 {
    token.load(std::sync::atomic::Ordering::Relaxed)
}

/// Scans for the matches. With `current`, the generation it reads is
/// checked before each match is kept, and the scan gives up with nothing
/// once it is not `generation`.
fn scan<F: Fn() -> u64>(
    source: &Vec<char>,
    query: &Vec<char>,
    current: Option<&F>,
    generation: u64,
    limit: usize,
) -> (r: Vec<Range<usize>>)
    requires
        query@.len() > 0,
        current matches Some(f) ==> call_requires(*f, ()),
    ensures
        ranges_view(r@) == spec_matches(source@, query@, limit) || (current is Some && r@.len()
            == 0),
        (current matches Some(f) ==> forall|v: u64| call_ensures(*f, (), v) ==> v == generation)
            ==> ranges_view(r@) == spec_matches(source@, query@, limit),
{
    let n = source.len();
    let m = query.len();
    let ghost all = occurrences_from(source@, query@, 0);
    let mut out: Vec<Range<usize>> = Vec::new();
    let mut i: usize = 0;
    while i < n && n - i >= m
        invariant
            m == query@.len() > 0,
            n == source@.len(),
            i <= n,
            all == occurrences_from(source@, query@, 0),
            all == ranges_view(out@) + occurrences_from(source@, query@, i as int),
            limit == 0 || out@.len() < limit,
            current matches Some(f) ==> call_requires(*f, ()),
        decreases n - i,
    {
        if occurs_here(source, query, i) {
            match current {
                Some(f) => {
                    if f() != generation {
                        return Vec::new();
                    }
                },
                None => {},
            }
            let ghost before = ranges_view(out@);
            out.push(i..i + m);
            assert(ranges_view(out@) =~= before.push((i as int, i + m)));
            assert(all =~= ranges_view(out@) + occurrences_from(source@, query@, i + m));
            if out.len() == limit {
                assert(ranges_view(out@).len() == limit);
                assert(all.take(limit as int) =~= ranges_view(out@));
                proof {
                    if all.len() <= limit {
                        assert(all =~= ranges_view(out@));
                    }
                }
                return out;
            }
            i = i + m;
        } else {
            i = i + 1;
        }
    }
    assert(occurrences_from(source@, query@, i as int) =~= Seq::<(int, int)>::empty());
    assert(all =~= ranges_view(out@));
    out
}

/// The literal matches of `query` in `source` as char ranges, at most
/// `limit` of them unless `limit` is 0.
pub fn literal_matches(source: &str, query: &str, limit: usize) -> (r: Vec<Range<usize>>)
    ensures
        ranges_view(r@) == spec_matches(source@, query@, limit),
{
    let q = str_to_chars(query);
    if q.len() == 0 {
        return Vec::new();
    }
    let s = str_to_chars(source);
    let unchanged = || -> (g: u64)
        ensures
            g == 0,
    { 0 };
    scan(&s, &q, Some(&unchanged), 0, limit)
}

/// Finds the literal matches as `literal_matches` does, reading the
/// current generation through `current` before each match is kept: once a
/// read is not `generation` the search gives up with nothing. When every
/// read gives `generation`, the matches are exactly those of
/// `literal_matches`.
pub fn find_matches_with<F: Fn() -> u64>(source: &str, query: &str, current: &F, generation: u64, limit: usize) -> (r: Vec<
    Range<usize>,
>)
    requires
        call_requires(*current, ()),
    ensures
        ranges_view(r@) == spec_matches(source@, query@, limit) || r@.len() == 0,
        spec_matches(source@, query@, limit).len() == 0 ==> r@.len() == 0,
        (forall|v: u64| call_ensures(*current, (), v) ==> v == generation) ==> ranges_view(r@) == spec_matches(
            source@,
            query@,
            limit,
        ),
{
    let q = str_to_chars(query);
    if q.len() == 0 {
        return Vec::new();
    }
    let s = str_to_chars(source);
    let r = scan(&s, &q, Some(current), generation, limit);
    proof {
        if spec_matches(source@, query@, limit).len() == 0 && ranges_view(r@) == spec_matches(source@, query@, limit) {
            assert(r@.len() == ranges_view(r@).len());
        }
    }
    r
}

/// Finds non-overlapping literal matches as Unicode scalar ranges. The
/// search gives up, returning nothing, when `cancellation` no longer holds
/// `generation` as a match is reached; otherwise it returns exactly the
/// matches of `literal_matches` (see `find_matches_with`).
pub fn find_matches(
    source: &str,
    query: &str,
    cancellation: &AtomicU64,
    generation: u64,
    limit: usize,
) -> (r: Vec<Range<usize>>)
    ensures
        ranges_view(r@) == spec_matches(source@, query@, limit) || r@.len() == 0,
        spec_matches(source@, query@, limit).len() == 0 ==> r@.len() == 0,
{
    let read = || current_generation(cancellation);
    find_matches_with(source, query, &read, generation, limit)
}

} // verus!

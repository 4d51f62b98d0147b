//! Fuzzy file search: ranking workspace paths against a query with
//! `nucleo-matcher`.

use nucleo_matcher::pattern::{CaseMatching, Normalization, Pattern};
use nucleo_matcher::{Config, Matcher, Utf32Str};
use std::sync::atomic::AtomicU64;
use vstd::prelude::*;

use crate::chars::{chars_to_string, str_to_chars};
use crate::paths::{compare_paths, path_components};
use crate::search::buffer::current_generation;
use crate::search::results::FileMatch;

verus! {

/// The fuzzy score of a path for a query, `None` where it does not match
/// (`Pattern::parse` with smart case and normalization, scored by a path
/// matcher).
pub uninterp spec fn fuzzy_score_of(query: Seq<char>, path: Seq<char>) -> Option<u32>;

/// Scores `path` against `query`.
#[verifier::external_body]
fn fuzzy_score(query: &str, path: &str) -> (r: Option<u32>)
    ensures
        r == fuzzy_score_of(query@, path@),
{
    let pattern = Pattern::parse(query, CaseMatching::Smart, Normalization::Smart);
    let mut matcher = Matcher::new(Config::DEFAULT.match_paths());
    let mut utf32 = Vec::new();
    pattern.score(Utf32Str::new(path, &mut utf32), &mut matcher)
}

pub open spec fn match_model(m: FileMatch) -> (Seq<char>, u32) {
    (m.path@, m.score)
}

pub open spec fn match_models(v: Seq<FileMatch>) -> Seq<(Seq<char>, u32)> {
    v.map_values(|m: FileMatch| match_model(m))
}

/// `a` ranks before `b`: a higher score, then fewer path components, then
/// the lesser path.
pub open spec fn ranks_before(a: (Seq<char>, u32), b: (Seq<char>, u32)) -> bool {
    a.1 > b.1 || (a.1 == b.1 && (crate::paths::components(a.0).len() < crate::paths::components(b.0).len() || (
    crate::paths::components(a.0).len() == crate::paths::components(b.0).len() && crate::paths::path_order(
        a.0,
        b.0,
    ) < 0)))
}

/// Where `x` goes among ranked matches: after every match that does not
/// rank after it.
pub open spec fn rank_index(sorted: Seq<(Seq<char>, u32)>, x: (Seq<char>, u32)) -> int
    decreases sorted.len(),
{
    if sorted.len() == 0 {
        0
    } else if ranks_before(x, sorted.last()) {
        rank_index(sorted.drop_last(), x)
    } else {
        sorted.len() as int
    }
}

/// The matches in rank order, equal ones keeping their order.
pub open spec fn rank(s: Seq<(Seq<char>, u32)>) -> Seq<(Seq<char>, u32)>
    decreases s.len(),
{
    if s.len() == 0 {
        s
    } else {
        let sorted = rank(s.drop_last());
        sorted.insert(rank_index(sorted, s.last()), s.last())
    }
}

/// The paths that match the query, with their scores, in list order.
pub open spec fn scored(query: Seq<char>, paths: Seq<Seq<char>>) -> Seq<(Seq<char>, u32)>
    decreases paths.len(),
{
    if paths.len() == 0 {
        Seq::empty()
    } else {
        let rest = scored(query, paths.drop_last());
        match fuzzy_score_of(query, paths.last()) {
            Some(score) => rest.push((paths.last(), score)),
            None => rest,
        }
    }
}

/// At most `limit` of a sequence, from its start.
pub open spec fn first_n<T>(s: Seq<T>, limit: int) -> Seq<T> {
    if s.len() <= limit { s } else { s.take(limit) }
}

/// What a search that runs to its end reports: with no query, the first
/// `limit` paths with score 0; otherwise the `limit` best matches.
pub open spec fn spec_fuzzy_files(query: Seq<char>, paths: Seq<Seq<char>>, limit: int) -> Seq<(Seq<char>, u32)> {
    if query.len() == 0 {
        first_n(paths.map_values(|p: Seq<char>| (p, 0u32)), limit)
    } else {
        first_n(rank(scored(query, paths)), limit)
    }
}

fn ranks_before_exec(a: &FileMatch, b: &FileMatch) -> (r: bool)
    ensures
        r == ranks_before(match_model(*a), match_model(*b)),
{
    if a.score != b.score {
        return a.score > b.score;
    }
    let pa = str_to_chars(a.path.as_str());
    let pb = str_to_chars(b.path.as_str());
    let ca = path_components(&pa).len();
    let cb = path_components(&pb).len();
    if ca != cb {
        return ca < cb;
    }
    compare_paths(&pa, &pb) < 0
}

fn insert_ranked(sorted: &mut Vec<FileMatch>, x: FileMatch)
    ensures
        match_models(final(sorted)@) == match_models(old(sorted)@).insert(
            rank_index(match_models(old(sorted)@), match_model(x)),
            match_model(x),
        ),
{
    let ghost s0 = match_models(sorted@);
    let mut p = sorted.len();
    assert(s0.take(p as int) =~= s0);
    while p > 0 && ranks_before_exec(&x, &sorted[p - 1])
        invariant
            p <= sorted@.len(),
            sorted@ == old(sorted)@,
            s0 == match_models(sorted@),
            rank_index(s0, match_model(x)) == rank_index(s0.take(p as int), match_model(x)),
        decreases p,
    {
        assert(s0.take(p as int).last() == s0[p - 1]);
        assert(s0.take(p as int).drop_last() =~= s0.take(p - 1));
        p = p - 1;
    }
    assert(rank_index(s0.take(p as int), match_model(x)) == p) by {
        if p > 0 {
            assert(s0.take(p as int).last() == s0[p - 1]);
        }
    }
    sorted.insert(p, x);
    assert(match_models(sorted@) =~= s0.insert(p as int, match_model(x)));
}

pub open spec fn path_views(paths: Seq<String>) -> Seq<Seq<char>> {
    paths.map_values(|p: String| p@)
}

/// The first `limit` paths, each with score 0.
fn unscored_paths(paths: &Vec<String>, limit: usize) -> (r: Vec<FileMatch>)
    ensures
        match_models(r@) == first_n(path_views(paths@).map_values(|p: Seq<char>| (p, 0u32)), limit as int),
{
    let ghost pv = path_views(paths@);
    let ghost all = pv.map_values(|p: Seq<char>| (p, 0u32));
    let mut out: Vec<FileMatch> = Vec::new();
    let mut i: usize = 0;
    while i < paths.len() && i < limit
        invariant
            i <= paths@.len(),
            i <= limit,
            pv == path_views(paths@),
            all == pv.map_values(|p: Seq<char>| (p, 0u32)),
            match_models(out@) == all.take(i as int),
        decreases paths.len() - i,
    {
        let ghost before = out@;
        out.push(FileMatch { path: chars_to_string(str_to_chars(paths[i].as_str()).as_slice()), score: 0 });
        assert(match_models(out@) =~= match_models(before).push(all[i as int]));
        assert(all.take(i + 1) =~= all.take(i as int).push(all[i as int]));
        i = i + 1;
    }
    assert(match_models(out@) =~= first_n(all, limit as int));
    out
}

/// Scores each path, in order, keeping those that match. With a token,
/// its generation is read before each path is scored, and the scan gives up
/// with `None` once it is not `generation`.
fn score_paths(query: &str, paths: &Vec<String>, cancellation: Option<&AtomicU64>, generation: u64) -> (r: Option<
    Vec<FileMatch>,
>)
    ensures
        r matches Some(v) ==> match_models(v@) == scored(query@, path_views(paths@)),
        cancellation is None ==> r is Some,
{
    let ghost pv = path_views(paths@);
    let mut out: Vec<FileMatch> = Vec::new();
    let mut i: usize = 0;
    assert(pv.take(0) =~= Seq::<Seq<char>>::empty());
    while i < paths.len()
        invariant
            i <= paths@.len(),
            pv == path_views(paths@),
            match_models(out@) == scored(query@, pv.take(i as int)),
        decreases paths.len() - i,
    {
        match cancellation {
            Some(token) => {
                if current_generation(token) != generation {
                    return None;
                }
            },
            None => {},
        }
        assert(pv.take(i + 1).drop_last() =~= pv.take(i as int));
        assert(pv.take(i + 1).last() == paths@[i as int]@);
        match fuzzy_score(query, paths[i].as_str()) {
            Some(score) => {
                let ghost before = out@;
                out.push(FileMatch { path: chars_to_string(str_to_chars(paths[i].as_str()).as_slice()), score });
                assert(match_models(out@) =~= match_models(before).push((paths@[i as int]@, score)));
            },
            None => {},
        }
        i = i + 1;
    }
    assert(pv.take(i as int) =~= pv);
    Some(out)
}

/// The `limit` best of scored matches, in rank order: a higher score, then
/// fewer path components, then the lesser path; equal ones keep their order.
pub fn rank_file_matches(matches: Vec<FileMatch>, limit: usize) -> (r: Vec<FileMatch>)
    ensures
        match_models(r@) == first_n(rank(match_models(matches@)), limit as int),
{
    let ghost all = match_models(matches@);
    let mut sorted: Vec<FileMatch> = Vec::new();
    let mut i: usize = 0;
    assert(all.take(0) =~= Seq::<(Seq<char>, u32)>::empty());
    while i < matches.len()
        invariant
            i <= matches@.len(),
            all == match_models(matches@),
            match_models(sorted@) == rank(all.take(i as int)),
        decreases matches.len() - i,
    {
        assert(all.take(i + 1).drop_last() =~= all.take(i as int));
        assert(all.take(i + 1).last() == match_model(matches@[i as int]));
        let m = FileMatch { path: chars_to_string(str_to_chars(matches[i].path.as_str()).as_slice()), score: matches[i].score };
        insert_ranked(&mut sorted, m);
        i = i + 1;
    }
    assert(all.take(i as int) =~= all);
    sorted.truncate(limit);
    assert(match_models(sorted@) =~= first_n(rank(all), limit as int));
    sorted
}

/// Ranks paths against a query, to the end: with no query, the first
/// `limit` paths with score 0; otherwise the `limit` best matches.
pub fn fuzzy_rank(query: &str, paths: &Vec<String>, limit: usize) -> (r: Vec<FileMatch>)
    ensures
        match_models(r@) == spec_fuzzy_files(query@, path_views(paths@), limit as int),
{
    if query.unicode_len() == 0 {
        return unscored_paths(paths, limit);
    }
    match score_paths(query, paths, None, 0) {
        Some(matches) => rank_file_matches(matches, limit),
        None => Vec::new(),
    }
}

/// Ranks paths against a query as `fuzzy_rank` does. The generation in
/// `cancellation` is read before each path is scored; once it differs from
/// `generation` the search gives up with nothing.
pub fn fuzzy_files(
    query: &str,
    paths: Vec<String>,
    cancellation: &AtomicU64,
    generation: u64,
    limit: usize,
) -> (r: Vec<FileMatch>)
    ensures
        match_models(r@) == spec_fuzzy_files(query@, path_views(paths@), limit as int) || (query@.len() > 0
            && r@.len() == 0),
{
    if query.unicode_len() == 0 {
        return unscored_paths(&paths, limit);
    }
    match score_paths(query, &paths, Some(cancellation), generation) {
        Some(matches) => rank_file_matches(matches, limit),
        None => Vec::new(),
    }
}

} // verus!

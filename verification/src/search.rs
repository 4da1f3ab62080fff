//! Searching the text of files for a query, case-insensitively, line by
//! line.

use vstd::prelude::*;
use vstd::utf8::encode_utf8;
use crate::fs::{strings_view, SearchResult};
use crate::scan_dir::{is_heavy_dir, skips_dir};
use crate::text::{
    lowercase, lowercased, split_lines, str_contains, text_contains, text_lines, trim, trimmed,
};

verus! {

/// A search stops as soon as it holds more results than this.
pub const MAX_RESULTS: usize = 500;

/// Shortest query, in bytes of its lowercase form, that is searched for.
pub const MIN_QUERY_BYTES: usize = 2;

/// Mathematical content of a [`SearchResult`].
pub struct HitView {
    pub path: Seq<char>,
    pub line: nat,
    pub content: Seq<char>,
}

impl View for SearchResult {
    type V = HitView;

    open spec fn view(&self) -> HitView {
        HitView { path: self.path@, line: self.line as nat, content: self.content@ }
    }
}

/// The contents of a list of results, in order.
pub open spec fn results_view(results: Seq<SearchResult>) -> Seq<HitView> {
    Seq::new(results.len(), |i: int| results[i]@)
}

/// A lowercase query is long enough to be searched for.
pub open spec fn usable_query(lower: Seq<char>) -> bool {
    encode_utf8(lower).len() >= MIN_QUERY_BYTES
}

/// A line contains the query, case aside. The query is lowercase already.
pub open spec fn line_hits(line: Seq<char>, query: Seq<char>) -> bool {
    text_contains(lowercased(line), query)
}

/// The result for line number `line` of the file at `path`.
pub open spec fn hit_of(path: Seq<char>, line: nat, text: Seq<char>) -> HitView {
    HitView { path, line, content: trimmed(text) }
}

/// The hits among the first `n` lines, in order. Lines count from 1.
pub open spec fn hits_in(path: Seq<char>, lines: Seq<Seq<char>>, n: nat, query: Seq<char>) -> Seq<
    HitView,
>
    decreases n,
{
    if n == 0 || n > lines.len() {
        Seq::empty()
    } else {
        let earlier = hits_in(path, lines, (n - 1) as nat, query);
        if line_hits(lines[n - 1], query) {
            earlier.push(hit_of(path, n, lines[n - 1]))
        } else {
            earlier
        }
    }
}

/// How many more hits a list of `held` results takes: the search stops with
/// the hit that makes the list longer than [`MAX_RESULTS`].
pub open spec fn room(held: nat) -> nat {
    if held >= MAX_RESULTS {
        1
    } else {
        (MAX_RESULTS + 1 - held) as nat
    }
}

/// The hits of a file that a list of `held` results still takes.
pub open spec fn taken_hits(hits: Seq<HitView>, held: nat) -> Seq<HitView> {
    if hits.len() >= room(held) {
        hits.take(room(held) as int)
    } else {
        hits
    }
}

proof fn lemma_hits_grow(path: Seq<char>, lines: Seq<Seq<char>>, i: nat, n: nat, query: Seq<char>)
    requires
        i <= n <= lines.len(),
    ensures
        hits_in(path, lines, i, query).len() <= hits_in(path, lines, n, query).len(),
        hits_in(path, lines, i, query) == hits_in(path, lines, n, query).take(
            hits_in(path, lines, i, query).len() as int,
        ),
    decreases n,
{
    let short = hits_in(path, lines, i, query);
    let long = hits_in(path, lines, n, query);
    if i == n {
        assert(short =~= long.take(short.len() as int));
    } else {
        lemma_hits_grow(path, lines, i, (n - 1) as nat, query);
        let middle = hits_in(path, lines, (n - 1) as nat, query);
        assert(short =~= long.take(short.len() as int));
    }
}

/// Whether a folder of this name is left out of a search.
pub fn is_search_excluded(name: &str) -> (excluded: bool)
    ensures
        excluded == is_heavy_dir(name@),
{
    skips_dir(name, true)
}

/// Accepts a lowercase query if it is long enough.
pub fn prepared_query(lower: String) -> (query: Option<String>)
    ensures
        query is Some == usable_query(lower@),
        query matches Some(text) ==> text@ == lower@,
{
    if lower.as_str().as_bytes().len() < MIN_QUERY_BYTES {
        None
    } else {
        Some(lower)
    }
}

/// Prepares a query: lowercases it, and gives `None` if what is left is too
/// short to search for, in which case the search has no results.
pub fn normalize_query(query: &str) -> (normal: Option<String>)
    ensures
        normal is Some == usable_query(lowercased(query@)),
        normal matches Some(text) ==> text@ == lowercased(query@),
{
    prepared_query(lowercase(query))
}

/// Whether a line, already lowercase, contains the query.
pub fn line_matches(lowered_line: &str, query: &str) -> (hit: bool)
    ensures
        hit == text_contains(lowered_line@, query@),
{
    str_contains(lowered_line, query)
}

/// Records one hit. The answer says whether the list is now over its limit,
/// which ends the search.
pub fn push_hit(results: &mut Vec<SearchResult>, path: &str, line: usize, content: &str) -> (full:
    bool)
    ensures
        results_view(final(results)@) == results_view(old(results)@).push(
            (HitView { path: path@, line: line as nat, content: content@ }),
        ),
        full == (final(results)@.len() > MAX_RESULTS),
{
    let ghost before = results@;
    results.push(SearchResult { path: path.to_owned(), line, content: content.to_owned() });
    assert(results_view(results@) =~= results_view(before).push(
        (HitView { path: path@, line: line as nat, content: content@ }),
    ));
    results.len() > MAX_RESULTS
}

/// Searches the lines of one file and appends the hits to `results`. The
/// answer says whether the list went over its limit; the search of the file
/// ends with the hit that does so.
pub fn search_lines(path: &str, lines: &Vec<String>, query: &str, results: &mut Vec<SearchResult>) -> (full:
    bool)
    ensures
        full == (hits_in(path@, strings_view(lines@), lines@.len(), query@).len() >= room(
            old(results)@.len(),
        )),
        results_view(final(results)@) == results_view(old(results)@) + taken_hits(
            hits_in(path@, strings_view(lines@), lines@.len(), query@),
            old(results)@.len(),
        ),
{
    let ghost held = results@.len();
    let ghost start = results_view(results@);
    let ghost texts = strings_view(lines@);
    let mut i: usize = 0;
    assert(results_view(results@) =~= start + hits_in(path@, texts, 0, query@));
    while i < lines.len()
        invariant
            i <= lines@.len(),
            texts == strings_view(lines@),
            held == old(results)@.len(),
            start == results_view(old(results)@),
            hits_in(path@, texts, i as nat, query@).len() < room(held),
            results_view(results@) == start + hits_in(path@, texts, i as nat, query@),
        decreases lines@.len() - i,
    {
        let line = lines[i].as_str();
        let ghost earlier = hits_in(path@, texts, i as nat, query@);
        let lowered = lowercase(line);
        if line_matches(lowered.as_str(), query) {
            let ghost now = hits_in(path@, texts, (i + 1) as nat, query@);
            assert(now == earlier.push(hit_of(path@, (i + 1) as nat, texts[i as int])));
            let full = push_hit(results, path, i + 1, trim(line));
            assert(results_view(results@) =~= start + now);
            if full {
                proof {
                    lemma_hits_grow(path@, texts, (i + 1) as nat, lines@.len(), query@);
                    assert(now.len() == room(held));
                }
                return true;
            }
        }
        i += 1;
    }
    false
}

/// Searches the text of one file. See [`search_lines`].
pub fn search_content(path: &str, content: &str, query: &str, results: &mut Vec<SearchResult>) -> (full:
    bool)
    ensures
        full == (hits_in(path@, text_lines(content@), text_lines(content@).len(), query@).len()
            >= room(old(results)@.len())),
        results_view(final(results)@) == results_view(old(results)@) + taken_hits(
            hits_in(path@, text_lines(content@), text_lines(content@).len(), query@),
            old(results)@.len(),
        ),
{
    let lines = split_lines(content);
    assert(strings_view(lines@) =~= text_lines(content@));
    search_lines(path, &lines, query, results)
}

} // verus!

//! The two search strategies: exact substring matching and case-insensitive
//! matching through case folding.

use vstd::prelude::*;

use crate::text::contains_seq;
use crate::text::contains_substring;
use crate::text::lemma_empty_needle_contained;
use crate::text::line_seqs;
use crate::text::split_lines;

verus! {

/// The lower-cased form of a character sequence, as standard full-string
/// case folding computes it.
pub uninterp spec fn lower_of(s: Seq<char>) -> Seq<char>;

/// Relies on str::to_lowercase: the result depends on the characters alone,
/// and an empty string stays empty.
#[verifier::external_body]
fn lowercase(s: &str) -> (r: String)
    ensures
        r@ == lower_of(s@),
        s@.len() == 0 ==> r@.len() == 0,
{
    s.to_lowercase()
}

/// A line matches the query exactly when it contains it as a substring.
pub open spec fn line_matches(line: Seq<char>, query: Seq<char>) -> bool {
    contains_seq(line, query)
}

/// A line matches the query case-insensitively when its lower-cased form
/// contains the lower-cased query as a substring.
pub open spec fn line_matches_ci(line: Seq<char>, query: Seq<char>) -> bool {
    contains_seq(lower_of(line), lower_of(query))
}

/// Whether a line matches the query under the chosen strategy.
pub open spec fn line_matched(line: Seq<char>, query: Seq<char>, ignore_case: bool) -> bool {
    if ignore_case {
        line_matches_ci(line, query)
    } else {
        line_matches(line, query)
    }
}

/// The subsequence of `lines` that match `query` under the chosen strategy,
/// in their original order and original form.
pub open spec fn matching_of(lines: Seq<Seq<char>>, query: Seq<char>, ignore_case: bool) -> Seq<
    Seq<char>,
> {
    lines.filter(|l: Seq<char>| line_matched(l, query, ignore_case))
}

/// The lines of `contents` that contain `query`, in text order.
pub open spec fn matching_lines(query: Seq<char>, contents: Seq<char>) -> Seq<Seq<char>> {
    matching_of(line_seqs(contents), query, false)
}

/// The lines of `contents` that contain `query` up to case, in text order.
pub open spec fn matching_lines_ci(query: Seq<char>, contents: Seq<char>) -> Seq<Seq<char>> {
    matching_of(line_seqs(contents), query, true)
}

/// No line is selected from an empty sequence of lines.
pub proof fn lemma_matching_of_empty(query: Seq<char>, ignore_case: bool)
    ensures
        matching_of(Seq::<Seq<char>>::empty(), query, ignore_case) == Seq::<Seq<char>>::empty(),
{
    reveal(Seq::filter);
}

/// Appending a line extends the selection by that line exactly when it
/// matches.
pub proof fn lemma_matching_of_push(
    lines: Seq<Seq<char>>,
    query: Seq<char>,
    ignore_case: bool,
    line: Seq<char>,
)
    ensures
        matching_of(lines.push(line), query, ignore_case) == (if line_matched(
            line,
            query,
            ignore_case,
        ) {
            matching_of(lines, query, ignore_case).push(line)
        } else {
            matching_of(lines, query, ignore_case)
        }),
{
    reveal(Seq::filter);
    assert(lines.push(line).drop_last() =~= lines);
    assert(lines.push(line).last() == line);
}

/// An empty query matches every line, under either strategy, provided case
/// folding keeps the empty query empty.
pub proof fn lemma_matching_of_empty_query(
    lines: Seq<Seq<char>>,
    query: Seq<char>,
    ignore_case: bool,
)
    requires
        query.len() == 0,
        ignore_case ==> lower_of(query).len() == 0,
    ensures
        matching_of(lines, query, ignore_case) == lines,
    decreases lines.len(),
{
    reveal(Seq::filter);
    if lines.len() == 0 {
        assert(matching_of(lines, query, ignore_case) =~= lines);
    } else {
        lemma_empty_needle_contained(lines.last(), query);
        if ignore_case {
            lemma_empty_needle_contained(lower_of(lines.last()), lower_of(query));
        }
        lemma_matching_of_empty_query(lines.drop_last(), query, ignore_case);
        assert(lines.drop_last().push(lines.last()) =~= lines);
    }
}

/// Searches for the query string in the given contents (case-sensitive).
///
/// The result holds exactly the lines that contain `query` as a contiguous
/// substring, in text order, borrowed from `contents`; an empty query
/// matches every line.
pub fn search<'a>(query: &str, contents: &'a str) -> (results: Vec<&'a str>)
    ensures
        results@.map_values(|l: &str| l@) == matching_lines(query@, contents@),
        query@.len() == 0 ==> results@.map_values(|l: &str| l@) == line_seqs(contents@),
{
    let lines = split_lines(contents);
    let mut results: Vec<&'a str> = Vec::new();
    let mut i: usize = 0;
    proof {
        assert(line_seqs(contents@).take(0) =~= Seq::<Seq<char>>::empty());
        lemma_matching_of_empty(query@, false);
    }
    while i < lines.len()
        invariant
            lines@.map_values(|l: &str| l@) == line_seqs(contents@),
            i <= lines@.len(),
            results@.map_values(|l: &str| l@) == matching_of(
                line_seqs(contents@).take(i as int),
                query@,
                false,
            ),
        decreases lines@.len() - i,
    {
        let line = lines[i];
        let keep = contains_substring(line, query);
        proof {
            let mapped = line_seqs(contents@);
            assert(mapped[i as int] == lines@.map_values(|l: &str| l@)[i as int]);
            assert(line@ == mapped[i as int]);
            assert(mapped.take(i + 1) =~= mapped.take(i as int).push(line@));
            lemma_matching_of_push(mapped.take(i as int), query@, false, line@);
            if keep {
                assert(results@.push(line).map_values(|l: &str| l@) =~= results@.map_values(
                    |l: &str| l@,
                ).push(line@));
            }
        }
        if keep {
            results.push(line);
        }
        i = i + 1;
    }
    proof {
        assert(line_seqs(contents@).take(lines@.len() as int) =~= line_seqs(contents@));
        if query@.len() == 0 {
            lemma_matching_of_empty_query(line_seqs(contents@), query@, false);
        }
    }
    results
}

/// Searches for the query string in the given contents (case-insensitive).
///
/// The result holds exactly the lines whose lower-cased form contains the
/// lower-cased query as a contiguous substring, in text order; the lines are
/// returned in their original, unfolded form, borrowed from `contents`. An
/// empty query matches every line.
pub fn search_case_insensitive<'a>(query: &str, contents: &'a str) -> (results: Vec<&'a str>)
    ensures
        results@.map_values(|l: &str| l@) == matching_lines_ci(query@, contents@),
        query@.len() == 0 ==> results@.map_values(|l: &str| l@) == line_seqs(contents@),
{
    let folded_query = lowercase(query);
    let lines = split_lines(contents);
    let mut results: Vec<&'a str> = Vec::new();
    let mut i: usize = 0;
    proof {
        assert(line_seqs(contents@).take(0) =~= Seq::<Seq<char>>::empty());
        lemma_matching_of_empty(query@, true);
    }
    while i < lines.len()
        invariant
            lines@.map_values(|l: &str| l@) == line_seqs(contents@),
            i <= lines@.len(),
            folded_query@ == lower_of(query@),
            query@.len() == 0 ==> folded_query@.len() == 0,
            results@.map_values(|l: &str| l@) == matching_of(
                line_seqs(contents@).take(i as int),
                query@,
                true,
            ),
        decreases lines@.len() - i,
    {
        let line = lines[i];
        let folded_line = lowercase(line);
        let keep = contains_substring(folded_line.as_str(), folded_query.as_str());
        proof {
            let mapped = line_seqs(contents@);
            assert(mapped[i as int] == lines@.map_values(|l: &str| l@)[i as int]);
            assert(line@ == mapped[i as int]);
            assert(folded_line@ == lower_of(line@));
            assert(keep == line_matched(line@, query@, true));
            assert(mapped.take(i + 1) =~= mapped.take(i as int).push(line@));
            lemma_matching_of_push(mapped.take(i as int), query@, true, line@);
            if keep {
                assert(results@.push(line).map_values(|l: &str| l@) =~= results@.map_values(
                    |l: &str| l@,
                ).push(line@));
            }
        }
        if keep {
            results.push(line);
        }
        i = i + 1;
    }
    proof {
        assert(line_seqs(contents@).take(lines@.len() as int) =~= line_seqs(contents@));
        if query@.len() == 0 {
            lemma_matching_of_empty_query(line_seqs(contents@), query@, true);
        }
    }
    results
}

} // verus!

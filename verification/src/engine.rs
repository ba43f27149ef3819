//! The search-and-report engine: given a configuration and the text of the
//! input file, count its lines, select the matching ones, and build the
//! output buffer that the caller writes to the output file.
//!
//! Reading the input file and writing the output file are the caller's work;
//! everything the engine decides or computes is a function of the query, the
//! case policy, and the file contents alone.

use vstd::prelude::*;

use crate::config::Config;
use crate::search::line_matched;
use crate::search::matching_of;
use crate::search::search;
use crate::search::search_case_insensitive;
use crate::text::count_lines;
use crate::text::line_seqs;

verus! {

/// The lines of `contents` selected by `query` under the configured case
/// policy, in text order.
pub open spec fn selected_lines(query: Seq<char>, ignore_case: bool, contents: Seq<char>) -> Seq<
    Seq<char>,
> {
    matching_of(line_seqs(contents), query, ignore_case)
}

/// The given lines, each followed by one line feed, concatenated in order.
pub open spec fn joined_lines(lines: Seq<Seq<char>>) -> Seq<char>
    decreases lines.len(),
{
    if lines.len() == 0 {
        Seq::empty()
    } else {
        joined_lines(lines.drop_last()) + lines.last() + seq!['\n']
    }
}

/// The full content of the output file for one run: every selected line in
/// text order, each terminated by a line feed.
pub open spec fn output_content(query: Seq<char>, ignore_case: bool, contents: Seq<char>) -> Seq<
    char,
> {
    joined_lines(selected_lines(query, ignore_case, contents))
}

/// What one run of the engine reports.
pub enum Outcome {
    /// No line matched: nothing is written, only the line count is reported.
    NoMatches { total_lines: usize },
    /// At least one line matched: `output` is written to the output file in
    /// full, replacing whatever the file held.
    Matches { total_lines: usize, found_lines: usize, output: String },
}

impl Outcome {
    /// The number of lines of the input text, reported either way.
    pub open spec fn spec_total_lines(self) -> usize {
        match self {
            Outcome::NoMatches { total_lines } => total_lines,
            Outcome::Matches { total_lines, .. } => total_lines,
        }
    }
}

/// Concatenates the given lines, each followed by one line feed.
pub fn build_output(results: &Vec<&str>) -> (out: String)
    ensures
        out@ == joined_lines(results@.map_values(|l: &str| l@)),
{
    let mut out = String::new();
    let mut i: usize = 0;
    proof {
        assert(results@.take(0).map_values(|l: &str| l@) =~= Seq::<Seq<char>>::empty());
    }
    while i < results.len()
        invariant
            i <= results@.len(),
            out@ == joined_lines(results@.take(i as int).map_values(|l: &str| l@)),
        decreases results@.len() - i,
    {
        let line = results[i];
        out.append(line);
        out.append("\n");
        proof {
            reveal_strlit("\n");
            assert("\n"@ =~= seq!['\n']);
            let mapped = results@.take(i + 1).map_values(|l: &str| l@);
            assert(mapped.drop_last() =~= results@.take(i as int).map_values(|l: &str| l@));
            assert(mapped.last() == line@);
        }
        i = i + 1;
    }
    proof {
        assert(results@.take(results@.len() as int) =~= results@);
    }
    out
}

/// The main engine function: counts the lines of `contents`, selects the
/// ones that match the configured query, and reports either that nothing
/// matched or the match count together with the output buffer to write.
pub fn run_engine(config: &Config, contents: &str) -> (outcome: Outcome)
    ensures
        outcome.spec_total_lines() == line_seqs(contents@).len(),
        (outcome is NoMatches <==> selected_lines(
            config.search_query@,
            config.ignore_case,
            contents@,
        ).len() == 0),
        outcome matches Outcome::Matches { found_lines, output, .. } ==> {
            &&& found_lines == selected_lines(
                config.search_query@,
                config.ignore_case,
                contents@,
            ).len()
            &&& output@ == output_content(config.search_query@, config.ignore_case, contents@)
        },
{
    let total_lines = count_lines(contents);
    let results: Vec<&str> = if config.ignore_case {
        search_case_insensitive(config.search_query.as_str(), contents)
    } else {
        search(config.search_query.as_str(), contents)
    };
    let found_lines = results.len();
    proof {
        assert(results@.map_values(|l: &str| l@).len() == results@.len());
    }
    if found_lines == 0 {
        Outcome::NoMatches { total_lines }
    } else {
        let output = build_output(&results);
        Outcome::Matches { total_lines, found_lines, output }
    }
}

/// The output-file content is a function of the query, the case policy, and
/// the input text alone, and each run replaces the file in full: two runs of
/// the engine on identical inputs and the same output path leave identical
/// output-file content, however the file read before each run.
pub proof fn lemma_output_idempotent(
    query: Seq<char>,
    ignore_case: bool,
    contents: Seq<char>,
    first_run: Seq<char>,
    second_run: Seq<char>,
)
    requires
        first_run == output_content(query, ignore_case, contents),
        second_run == output_content(query, ignore_case, contents),
    ensures
        first_run == second_run,
{
}

/// A text with no lines has no matching lines, whatever the query, so the
/// engine reports no matches and the output file is not touched.
pub proof fn lemma_no_lines_no_matches(query: Seq<char>, ignore_case: bool, contents: Seq<char>)
    requires
        line_seqs(contents).len() == 0,
    ensures
        selected_lines(query, ignore_case, contents).len() == 0,
{
    reveal(Seq::filter);
    assert(line_seqs(contents) =~= Seq::<Seq<char>>::empty());
}

} // verus!

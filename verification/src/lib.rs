//! A small line-oriented substring search library.
//!
//! The library has two parts, composed linearly: an argument validator
//! ([`grep::GrepArgs::build`]) that turns raw command-line arguments into a
//! validated search request, and a line scanner ([`find_string_in_file`])
//! that, given the lines of a file, collects the lines containing the query,
//! optionally case-insensitively. Opening and reading the file itself is
//! ordinary I/O left to the binary around the library.

use vstd::prelude::*;
use vstd::string::StrSliceExecFns;

pub mod grep;

use crate::grep::GrepArgs;

verus! {

/// A query occurs in a line when it appears as a contiguous run of
/// characters somewhere in it. The empty query occurs in every line.
pub open spec fn is_substring_of(query: Seq<char>, line: Seq<char>) -> bool {
    exists|i: int|
        0 <= i && i + query.len() <= line.len() && #[trigger] line.subrange(i, i + query.len())
            == query
}

/// Whether `query` occurs at position `i` of `line`, comparing character by
/// character.
fn matches_at(line: &str, query: &str, i: usize, line_len: usize, query_len: usize) -> (r: bool)
    requires
        line_len == line@.len(),
        query_len == query@.len(),
        i + query_len <= line_len,
    ensures
        r == (line@.subrange(i as int, i + query@.len()) == query@),
{
    let mut j: usize = 0;
    while j < query_len
        invariant
            line_len == line@.len(),
            query_len == query@.len(),
            i + query_len <= line_len,
            j <= query_len,
            forall|k: int| 0 <= k < j ==> line@[i + k] == query@[k],
        decreases query_len - j,
    {
        if line.get_char(i + j) != query.get_char(j) {
            proof {
                assert(line@.subrange(i as int, i + query@.len())[j as int] == line@[i + j]);
            }
            return false;
        }
        j += 1;
    }
    proof {
        assert(line@.subrange(i as int, i + query@.len()) =~= query@);
    }
    true
}

/// Whether `query` occurs as a contiguous substring of `line`.
pub fn contains_substring(line: &str, query: &str) -> (r: bool)
    ensures
        r == is_substring_of(query@, line@),
{
    let line_len = line.unicode_len();
    let query_len = query.unicode_len();
    if query_len > line_len {
        return false;
    }
    if query_len == 0 {
        proof {
            let i: int = 0;
            assert(line@.subrange(i, i + query@.len()) =~= query@);
        }
        return true;
    }
    let mut i: usize = 0;
    while i <= line_len - query_len
        invariant
            line_len == line@.len(),
            query_len == query@.len(),
            1 <= query_len <= line_len,
            i <= line_len - query_len + 1,
            forall|j: int|
                0 <= j < i ==> #[trigger] line@.subrange(j, j + query@.len()) != query@,
        decreases line_len - query_len - i + 1,
    {
        if matches_at(line, query, i, line_len, query_len) {
            return true;
        }
        i += 1;
    }
    false
}

/// The lowercase form of a sequence of characters, as simple Unicode case
/// folding produces it. It depends on the characters alone.
pub uninterp spec fn lower_of(s: Seq<char>) -> Seq<char>;

/// Relies on str::to_lowercase: returns the lowercase equivalent of the
/// string, a function of its characters alone. Every character maps to at
/// least one character, so a non-empty string stays non-empty.
#[verifier::external_body]
pub(crate) fn lowercase(s: &str) -> (r: String)
    ensures
        r@ == lower_of(s@),
        s@.len() > 0 ==> r@.len() > 0,
{
    s.to_lowercase()
}

/// A line as the scanner compares and reports it: lowercased in
/// case-insensitive mode, unchanged otherwise.
pub open spec fn fold_case(line: Seq<char>, ignore_case: bool) -> Seq<char> {
    if ignore_case {
        lower_of(line)
    } else {
        line
    }
}

/// Whether a line matches a query: the query occurs as a contiguous
/// substring of the case-folded line. The query itself is stored already
/// folded by the validator when case-insensitive mode is active.
pub open spec fn line_matches(line: Seq<char>, query: Seq<char>, ignore_case: bool) -> bool {
    is_substring_of(query, fold_case(line, ignore_case))
}

/// The lines a scan reports: the case-folded forms of the matching lines,
/// in the order the file has them, duplicates kept.
pub open spec fn matching_lines(
    lines: Seq<Seq<char>>,
    query: Seq<char>,
    ignore_case: bool,
) -> Seq<Seq<char>>
    decreases lines.len(),
{
    if lines.len() == 0 {
        Seq::empty()
    } else {
        let rest = matching_lines(lines.drop_last(), query, ignore_case);
        if line_matches(lines.last(), query, ignore_case) {
            rest.push(fold_case(lines.last(), ignore_case))
        } else {
            rest
        }
    }
}

/// A scan never reports more lines than the file has, so a match count is
/// at most the line count (and, being a length, never negative).
pub proof fn lemma_matching_lines_len(lines: Seq<Seq<char>>, query: Seq<char>, ignore_case: bool)
    ensures
        matching_lines(lines, query, ignore_case).len() <= lines.len(),
    decreases lines.len(),
{
    if lines.len() > 0 {
        lemma_matching_lines_len(lines.drop_last(), query, ignore_case);
    }
}

/// Matches are reported in file order: split a file's lines anywhere, and
/// the matches of the whole are the matches of the earlier part followed by
/// the matches of the later part.
pub proof fn lemma_matching_lines_append(
    a: Seq<Seq<char>>,
    b: Seq<Seq<char>>,
    query: Seq<char>,
    ignore_case: bool,
)
    ensures
        matching_lines(a + b, query, ignore_case) == matching_lines(a, query, ignore_case)
            + matching_lines(b, query, ignore_case),
    decreases b.len(),
{
    if b.len() == 0 {
        assert(a + b =~= a);
        assert(matching_lines(a, query, ignore_case) + matching_lines(b, query, ignore_case)
            =~= matching_lines(a, query, ignore_case));
    } else {
        lemma_matching_lines_append(a, b.drop_last(), query, ignore_case);
        assert((a + b).drop_last() =~= a + b.drop_last());
        if line_matches(b.last(), query, ignore_case) {
            assert(matching_lines(a, query, ignore_case) + matching_lines(b, query, ignore_case)
                =~= (matching_lines(a, query, ignore_case) + matching_lines(
                b.drop_last(),
                query,
                ignore_case,
            )).push(fold_case(b.last(), ignore_case)));
        } else {
            assert(matching_lines(a, query, ignore_case) + matching_lines(b, query, ignore_case)
                =~= matching_lines(a, query, ignore_case) + matching_lines(
                b.drop_last(),
                query,
                ignore_case,
            ));
        }
    }
}

/// Whether `reported` is the case-folded form of some line of the file that
/// matches the query.
pub open spec fn reported_from(
    lines: Seq<Seq<char>>,
    query: Seq<char>,
    ignore_case: bool,
    reported: Seq<char>,
) -> bool {
    exists|j: int|
        0 <= j < lines.len() && reported == fold_case(#[trigger] lines[j], ignore_case)
            && line_matches(lines[j], query, ignore_case)
}

/// Every reported line comes from the file: it is the case-folded form of
/// some line that matches the query.
pub proof fn lemma_matching_lines_sound(lines: Seq<Seq<char>>, query: Seq<char>, ignore_case: bool)
    ensures
        forall|k: int|
            0 <= k < matching_lines(lines, query, ignore_case).len() ==> reported_from(
                lines,
                query,
                ignore_case,
                #[trigger] matching_lines(lines, query, ignore_case)[k],
            ),
    decreases lines.len(),
{
    if lines.len() > 0 {
        lemma_matching_lines_sound(lines.drop_last(), query, ignore_case);
        let result = matching_lines(lines, query, ignore_case);
        let rest = matching_lines(lines.drop_last(), query, ignore_case);
        assert forall|k: int| 0 <= k < result.len() implies reported_from(
            lines,
            query,
            ignore_case,
            #[trigger] matching_lines(lines, query, ignore_case)[k],
        ) by {
            if k < rest.len() {
                assert(reported_from(lines.drop_last(), query, ignore_case, rest[k]));
                let j = choose|j: int|
                    0 <= j < lines.drop_last().len() && rest[k] == fold_case(
                        #[trigger] lines.drop_last()[j],
                        ignore_case,
                    ) && line_matches(lines.drop_last()[j], query, ignore_case);
                assert(lines.drop_last()[j] == lines[j]);
                assert(result[k] == fold_case(lines[j], ignore_case));
            } else {
                let j = lines.len() - 1;
                assert(lines[j] == lines.last());
                assert(result[k] == fold_case(lines[j], ignore_case));
            }
        }
    }
}

/// Scanning is deterministic: two scans of the same lines with the same
/// query and mode report exactly the same lines, so repeating a scan on an
/// unchanged file yields identical results.
pub proof fn lemma_scan_deterministic(
    lines: Seq<Seq<char>>,
    query: Seq<char>,
    ignore_case: bool,
    r1: Seq<Seq<char>>,
    r2: Seq<Seq<char>>,
)
    requires
        r1 == matching_lines(lines, query, ignore_case),
        r2 == matching_lines(lines, query, ignore_case),
    ensures
        r1 == r2,
{
}

/// Scan the lines of a file, in order, and collect every line that contains
/// the query, case-folded when the request asks for case-insensitive search.
/// The caller supplies the file's lines; opening and reading the file is
/// ordinary I/O and belongs to the binary around the library.
pub fn find_string_in_file(args: &GrepArgs, lines: &Vec<String>) -> (r: Vec<String>)
    ensures
        r.deep_view() == matching_lines(lines.deep_view(), args.query@, args.ignore_case),
{
    let mut results: Vec<String> = Vec::new();
    let mut i: usize = 0;
    while i < lines.len()
        invariant
            i <= lines.len(),
            results.deep_view() == matching_lines(
                lines.deep_view().subrange(0, i as int),
                args.query@,
                args.ignore_case,
            ),
        decreases lines.len() - i,
    {
        let folded: String = if args.ignore_case {
            lowercase(lines[i].as_str())
        } else {
            lines[i].clone()
        };
        let matched = contains_substring(folded.as_str(), args.query.as_str());
        proof {
            let all = lines.deep_view();
            assert(all.subrange(0, i + 1).drop_last() =~= all.subrange(0, i as int));
            assert(all.subrange(0, i + 1).last() == all[i as int]);
            assert(all[i as int] == lines@[i as int]@);
            if matched {
                assert(results.deep_view().push(folded@) =~= matching_lines(
                    all.subrange(0, i + 1),
                    args.query@,
                    args.ignore_case,
                ));
            }
        }
        if matched {
            let ghost old_results = results.deep_view();
            results.push(folded);
            proof {
                assert(results.deep_view() =~= old_results.push(folded@));
            }
        }
        i += 1;
    }
    proof {
        assert(lines.deep_view().subrange(0, i as int) =~= lines.deep_view());
    }
    results
}

} // verus!

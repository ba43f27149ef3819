//! Line splitting and substring containment on character sequences.

use vstd::prelude::*;

verus! {

/// Index of the first line feed in `s`, or `s.len()` when `s` holds none.
pub open spec fn first_newline(s: Seq<char>) -> int
    decreases s.len(),
{
    if s.len() == 0 {
        0
    } else if s[0] == '\n' {
        0
    } else {
        1 + first_newline(s.drop_first())
    }
}

/// `first_newline` stays within the text, lands on a line feed when one
/// exists, and nothing before it is a line feed.
pub proof fn lemma_first_newline(s: Seq<char>)
    ensures
        0 <= first_newline(s) <= s.len(),
        first_newline(s) < s.len() ==> s[first_newline(s)] == '\n',
        forall|j: int| 0 <= j < first_newline(s) ==> s[j] != '\n',
    decreases s.len(),
{
    if s.len() == 0 {
    } else if s[0] == '\n' {
    } else {
        lemma_first_newline(s.drop_first());
        assert forall|j: int| 0 <= j < first_newline(s) implies s[j] != '\n' by {
            if j > 0 {
                assert(s.drop_first()[j - 1] == s[j]);
            }
        }
    }
}

/// `first_newline` is the unique position with no line feed before it that
/// either ends the text or carries a line feed.
pub proof fn lemma_first_newline_at(s: Seq<char>, k: int)
    requires
        0 <= k <= s.len(),
        forall|j: int| 0 <= j < k ==> s[j] != '\n',
        k < s.len() ==> s[k] == '\n',
    ensures
        first_newline(s) == k,
    decreases s.len(),
{
    if s.len() == 0 {
    } else if s[0] == '\n' {
        assert(k == 0);
    } else {
        assert(k >= 1);
        assert forall|j: int| 0 <= j < k - 1 implies s.drop_first()[j] != '\n' by {
            assert(s.drop_first()[j] == s[j + 1]);
        }
        lemma_first_newline_at(s.drop_first(), k - 1);
    }
}

/// A line-terminated segment with one trailing carriage return removed, so
/// that a `"\r\n"` ending counts as a single line terminator.
pub open spec fn strip_cr(s: Seq<char>) -> Seq<char> {
    if s.len() > 0 && s.last() == '\r' {
        s.drop_last()
    } else {
        s
    }
}

/// The lines of a text: the segments delimited by line feeds (each with a
/// trailing carriage return stripped), plus the final unterminated segment
/// when the text does not end in a line feed. An empty text has no lines.
pub open spec fn line_seqs(s: Seq<char>) -> Seq<Seq<char>>
    decreases s.len(),
    via line_seqs_decreases
{
    if s.len() == 0 {
        seq![]
    } else if first_newline(s) == s.len() {
        seq![s]
    } else {
        seq![strip_cr(s.take(first_newline(s)))] + line_seqs(s.skip(first_newline(s) + 1))
    }
}

#[via_fn]
proof fn line_seqs_decreases(s: Seq<char>) {
    lemma_first_newline(s);
}

/// Splitting at a position that sits right after a line feed (or at the very
/// start) separates the lines of the prefix from the lines of the rest.
pub proof fn lemma_line_seqs_split(s: Seq<char>, k: int)
    requires
        0 <= k <= s.len(),
        k == 0 || s[k - 1] == '\n',
    ensures
        line_seqs(s) == line_seqs(s.take(k)) + line_seqs(s.skip(k)),
    decreases k,
{
    if k == 0 {
        assert(s.take(0) =~= Seq::<char>::empty());
        assert(s.skip(0) =~= s);
        assert(line_seqs(s.take(0)) + line_seqs(s.skip(0)) =~= line_seqs(s));
    } else {
        lemma_first_newline(s);
        let i = first_newline(s);
        assert(i <= k - 1) by {
            if i > k - 1 {
                assert(s[k - 1] != '\n');
            }
        }
        let t = s.take(k);
        assert forall|j: int| 0 <= j < i implies t[j] != '\n' by {
            assert(t[j] == s[j]);
        }
        assert(t[i] == s[i]);
        lemma_first_newline_at(t, i);
        assert(t.take(i) =~= s.take(i));
        assert(t.skip(i + 1) =~= s.skip(i + 1).take(k - i - 1));
        let rest = s.skip(i + 1);
        if k - i - 1 > 0 {
            assert(rest[k - i - 2] == s[k - 1]);
        }
        lemma_line_seqs_split(rest, k - i - 1);
        assert(rest.take(k - i - 1) =~= t.skip(i + 1));
        assert(rest.skip(k - i - 1) =~= s.skip(k));
        assert(line_seqs(s) =~= line_seqs(s.take(k)) + line_seqs(s.skip(k)));
    }
}

/// The needle occurs in the haystack starting at position `i`.
pub open spec fn contains_at(hay: Seq<char>, needle: Seq<char>, i: int) -> bool {
    &&& 0 <= i
    &&& i + needle.len() <= hay.len()
    &&& hay.subrange(i, i + needle.len()) == needle
}

/// The needle occurs somewhere in the haystack as a contiguous substring.
pub open spec fn contains_seq(hay: Seq<char>, needle: Seq<char>) -> bool {
    exists|i: int| contains_at(hay, needle, i)
}

/// Whether `needle` occurs in `hay` as a contiguous substring, by a direct
/// scan of every candidate position.
pub fn contains_substring(hay: &str, needle: &str) -> (found: bool)
    ensures
        found == contains_seq(hay@, needle@),
{
    let n = hay.unicode_len();
    let m = needle.unicode_len();
    if m > n {
        proof {
            assert forall|i: int| !contains_at(hay@, needle@, i) by {}
        }
        return false;
    }
    let mut i: usize = 0;
    while i <= n - m
        invariant
            n == hay@.len(),
            m == needle@.len(),
            m <= n,
            i <= n - m + 1,
            forall|k: int| 0 <= k < i ==> !contains_at(hay@, needle@, k),
        decreases n - m - i + 1,
    {
        let mut j: usize = 0;
        let mut mismatch = false;
        while j < m
            invariant
                n == hay@.len(),
                m == needle@.len(),
                i + m <= n,
                j <= m,
                !mismatch ==> forall|t: int| 0 <= t < j ==> hay@[i + t] == needle@[t],
                mismatch ==> !contains_at(hay@, needle@, i as int),
            decreases m - j,
        {
            if hay.get_char(i + j) != needle.get_char(j) {
                proof {
                    assert(hay@.subrange(i as int, i + m)[j as int] == hay@[i + j]);
                }
                mismatch = true;
                j = m;
            } else {
                j = j + 1;
            }
        }
        if !mismatch {
            proof {
                assert(hay@.subrange(i as int, i + m) =~= needle@);
                assert(contains_at(hay@, needle@, i as int));
            }
            return true;
        }
        proof {
            if m == 0 {
                assert(hay@.subrange(i as int, i as int) =~= needle@);
                assert(contains_at(hay@, needle@, i as int));
            }
        }
        i = i + 1;
    }
    proof {
        assert forall|k: int| !contains_at(hay@, needle@, k) by {
            if contains_at(hay@, needle@, k) {
                assert(0 <= k && k + m <= n);
            }
        }
    }
    false
}

/// The lines of `contents`, as borrowed slices into it, in text order.
pub fn split_lines<'a>(contents: &'a str) -> (lines: Vec<&'a str>)
    ensures
        lines@.map_values(|l: &str| l@) == line_seqs(contents@),
{
    let n = contents.unicode_len();
    let mut lines: Vec<&str> = Vec::new();
    let mut start: usize = 0;
    let mut i: usize = 0;
    while i < n
        invariant
            n == contents@.len(),
            start <= i <= n,
            start == 0 || contents@[start - 1] == '\n',
            forall|j: int| start <= j < i ==> contents@[j] != '\n',
            lines@.map_values(|l: &str| l@) == line_seqs(contents@.take(start as int)),
        decreases n - i,
    {
        let c = contents.get_char(i);
        if c == '\n' {
            let end = if i > start && contents.get_char(i - 1) == '\r' {
                i - 1
            } else {
                i
            };
            let line = contents.substring_char(start, end);
            proof {
                let s = contents@;
                let seg = s.subrange(start as int, i as int);
                assert(strip_cr(seg) =~= s.subrange(start as int, end as int)) by {
                    if i > start && s[i - 1] == '\r' {
                        assert(seg.last() == s[i - 1]);
                        assert(seg.drop_last() =~= s.subrange(start as int, i - 1));
                    }
                }
                let p = s.take(i + 1);
                lemma_line_seqs_split(p, start as int);
                assert(p.take(start as int) =~= s.take(start as int));
                let rest = p.skip(start as int);
                assert forall|j: int| 0 <= j < i - start implies rest[j] != '\n' by {
                    assert(rest[j] == s[start + j]);
                }
                assert(rest[i - start] == s[i as int]);
                lemma_first_newline_at(rest, i - start);
                assert(rest.take(i - start) =~= seg);
                assert(rest.skip(i - start + 1) =~= Seq::<char>::empty());
                assert(first_newline(rest) == i - start < rest.len());
                assert(line_seqs(rest) == seq![strip_cr(rest.take(i - start))]
                    + line_seqs(rest.skip(i - start + 1)));
                assert(line_seqs(Seq::<char>::empty()) =~= Seq::<Seq<char>>::empty());
                assert(line_seqs(rest) =~= seq![strip_cr(seg)]);
                assert(lines@.push(line).map_values(|l: &str| l@) =~= line_seqs(p));
            }
            lines.push(line);
            start = i + 1;
        }
        i = i + 1;
    }
    if start < n {
        let line = contents.substring_char(start, n);
        proof {
            let s = contents@;
            lemma_line_seqs_split(s, start as int);
            let rest = s.skip(start as int);
            assert forall|j: int| 0 <= j < rest.len() implies rest[j] != '\n' by {
                assert(rest[j] == s[start + j]);
            }
            lemma_first_newline_at(rest, rest.len() as int);
            assert(line_seqs(rest) =~= seq![rest]);
            assert(line@ =~= rest);
            assert(lines@.push(line).map_values(|l: &str| l@) =~= line_seqs(s));
        }
        lines.push(line);
    } else {
        proof {
            let s = contents@;
            assert(s.take(start as int) =~= s);
        }
    }
    lines
}

/// How many lines `contents` has.
pub fn count_lines(contents: &str) -> (total: usize)
    ensures
        total == line_seqs(contents@).len(),
{
    let lines = split_lines(contents);
    proof {
        assert(lines@.map_values(|l: &str| l@).len() == lines@.len());
    }
    lines.len()
}

/// An empty needle is a substring of every haystack.
pub proof fn lemma_empty_needle_contained(hay: Seq<char>, needle: Seq<char>)
    requires
        needle.len() == 0,
    ensures
        contains_seq(hay, needle),
{
    assert(hay.subrange(0, 0) =~= needle);
    assert(contains_at(hay, needle, 0));
}

} // verus!

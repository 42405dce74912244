//! Splitting a text into its physical lines.

use vstd::prelude::*;
use crate::search::{first_index_of, is_first_index, lemma_first_index_unique};

verus! {

/// The lines of `s`: the pieces between line feeds, without the line feeds.
/// A line feed at the very end closes the last line and opens no new one, so
/// the empty text has no line and `"a\n"` has one.
pub open spec fn split_lines(s: Seq<char>) -> Seq<Seq<char>>
    decreases s.len(),
{
    if s.len() == 0 {
        Seq::empty()
    } else {
        let k = first_index_of(s, '\n');
        if 0 <= k < s.len() {
            seq![s.take(k)] + split_lines(s.skip(k + 1))
        } else {
            seq![s]
        }
    }
}

/// The views of a vector of lines.
pub open spec fn line_views(lines: Seq<Vec<char>>) -> Seq<Seq<char>> {
    lines.map_values(|l: Vec<char>| l@)
}

/// Computes `split_lines` in one pass over `s`.
pub fn lines_of(s: &Vec<char>) -> (lines: Vec<Vec<char>>)
    ensures
        line_views(lines@) == split_lines(s@),
{
    let mut lines: Vec<Vec<char>> = Vec::new();
    let mut current: Vec<char> = Vec::new();
    let mut start: usize = 0;
    let mut i: usize = 0;
    proof {
        assert(s@.skip(0) =~= s@);
        assert(line_views(lines@) =~= Seq::<Seq<char>>::empty());
    }
    while i < s.len()
        invariant
            start <= i <= s.len(),
            current@ == s@.subrange(start as int, i as int),
            forall|j: int| start <= j < i ==> s@[j] != '\n',
            split_lines(s@) == line_views(lines@) + split_lines(s@.skip(start as int)),
        decreases s.len() - i,
    {
        let c = s[i];
        if c == '\n' {
            proof {
                let rest = s@.skip(start as int);
                assert(is_first_index(rest, '\n', i - start));
                lemma_first_index_unique(rest, '\n', i - start);
                assert(rest.take(i - start) =~= current@);
                assert(rest.skip(i - start + 1) =~= s@.skip(i + 1));
                assert(line_views(lines@.push(current)) =~= line_views(lines@) + seq![current@]);
            }
            lines.push(current);
            current = Vec::new();
            start = i + 1;
        } else {
            current.push(c);
        }
        i += 1;
    }
    if start < s.len() {
        proof {
            let rest = s@.skip(start as int);
            assert(is_first_index(rest, '\n', rest.len() as int));
            lemma_first_index_unique(rest, '\n', rest.len() as int);
            assert(rest =~= current@);
            assert(line_views(lines@.push(current)) =~= line_views(lines@) + seq![current@]);
        }
        lines.push(current);
    } else {
        assert(s@.skip(start as int).len() == 0);
    }
    lines
}

} // verus!

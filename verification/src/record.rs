//! The match record: one detected call, with where it was found and what was
//! read from it.

use vstd::prelude::*;
use vstd::string::StringExecFns;
use crate::catalog::{label_of, Category, FunctionSpec};
use crate::search::{
    contains_text, find_text, first_index_of, first_occurrence, lemma_first_index_of,
    lemma_first_occurrence_is_least, lemma_standing_text_is_contained, occurs_at, slice_of,
    text_before,
};
use crate::text::{chars_of, push_all, string_of, text_of};
use crate::trim::{trim, trimmed, CharClass};

verus! {

/// One detected call, as a mathematical value.
pub struct MatchRecord {
    pub category: Seq<char>,
    pub function: Seq<char>,
    pub function_type: Seq<char>,
    pub hook_name: Seq<char>,
    pub file_path: Seq<char>,
    pub line_number: nat,
    pub original_line: Seq<char>,
    pub highlighted_line: Seq<char>,
}

/// One detected call.
#[derive(Clone, Debug, PartialEq, Eq)]
pub struct MatchResult {
    /// The lower-case name of the category.
    pub category: String,
    /// The name of the function that was called.
    pub function: String,
    /// The label of the function, or `Unknown`.
    pub function_type: String,
    /// The first quoted literal of the call without its quotes, or `N/A`.
    pub hook_name: String,
    /// The path of the file, as it was handed in.
    pub file_path: String,
    /// The number of the line in the file, counted from 1.
    pub line_number: usize,
    /// The line without surrounding white space.
    pub original_line: String,
    /// The line with the matched text between backticks.
    pub highlighted_line: String,
}

impl View for MatchResult {
    type V = MatchRecord;

    open spec fn view(&self) -> MatchRecord {
        MatchRecord {
            category: self.category@,
            function: self.function@,
            function_type: self.function_type@,
            hook_name: self.hook_name@,
            file_path: self.file_path@,
            line_number: self.line_number as nat,
            original_line: self.original_line@,
            highlighted_line: self.highlighted_line@,
        }
    }
}

impl MatchResult {
    /// A copy of the record.
    pub fn duplicate(&self) -> (copy: MatchResult)
        ensures
            copy@ == self@,
    {
        MatchResult {
            category: self.category.clone(),
            function: self.function.clone(),
            function_type: self.function_type.clone(),
            hook_name: self.hook_name.clone(),
            file_path: self.file_path.clone(),
            line_number: self.line_number,
            original_line: self.original_line.clone(),
            highlighted_line: self.highlighted_line.clone(),
        }
    }
}

/// The views of a sequence of records.
pub open spec fn records_of(results: Seq<MatchResult>) -> Seq<MatchRecord> {
    results.map_values(|r: MatchResult| r@)
}

/// The hook name that stands for no quoted literal.
pub open spec fn no_hook_name() -> Seq<char> {
    "N/A"@
}

/// The function type of a function that the catalog does not know.
pub open spec fn unknown_function_type() -> Seq<char> {
    "Unknown"@
}

/// The hook name read from a call: the quoted literal without the quotes
/// around it, or `N/A` when the call holds no quoted literal.
pub open spec fn hook_name_of(literal: Option<Seq<char>>) -> Seq<char> {
    match literal {
        Some(quoted) => trimmed(quoted, CharClass::Quote),
        None => no_hook_name(),
    }
}

/// The name of the function called in `matched`: what stands before the first
/// opening parenthesis.
pub open spec fn function_name_of(matched: Seq<char>) -> Seq<char> {
    text_before(matched, '(')
}

/// The function type of `function`: its label in the catalog, or `Unknown`.
pub open spec fn function_type_of(catalog: Seq<FunctionSpec>, function: Seq<char>) -> Seq<char> {
    match label_of(catalog, function) {
        Some(label) => label,
        None => unknown_function_type(),
    }
}

/// `line` with the first occurrence of `matched` set between backticks;
/// `line` itself where `matched` does not occur in it.
pub open spec fn highlighted(line: Seq<char>, matched: Seq<char>) -> Seq<char> {
    match first_occurrence(line, matched) {
        Some(k) => line.take(k) + seq!['`'] + matched + seq!['`'] + line.skip(k + matched.len()),
        None => line,
    }
}

/// The record of one match: `matched` is the text that a pattern of
/// `category` matched in `line`, and `literal` the first quoted literal found
/// in `matched`.
pub open spec fn record_with(
    catalog: Seq<FunctionSpec>,
    category: Category,
    file_path: Seq<char>,
    line_number: nat,
    line: Seq<char>,
    matched: Seq<char>,
    literal: Option<Seq<char>>,
) -> MatchRecord {
    MatchRecord {
        category: category.name(),
        function: function_name_of(matched),
        function_type: function_type_of(catalog, function_name_of(matched)),
        hook_name: hook_name_of(literal),
        file_path,
        line_number,
        original_line: line,
        highlighted_line: highlighted(line, matched),
    }
}

/// The match of the record stands in its line: the line holds the name of the
/// function, and the highlighted line is the line with two backticks more.
pub open spec fn match_stands_in_line(r: MatchRecord) -> bool {
    &&& contains_text(r.original_line, r.function)
    &&& r.highlighted_line.len() == r.original_line.len() + 2
}

/// The match of every one of the records stands in its line.
pub open spec fn all_stand_in_line(records: Seq<MatchRecord>) -> bool {
    forall|k: int| 0 <= k < records.len() ==> match_stands_in_line(#[trigger] records[k])
}

/// The record of a match that stands in its line shows it.
pub proof fn lemma_record_of_standing_match(
    catalog: Seq<FunctionSpec>,
    category: Category,
    file_path: Seq<char>,
    line_number: nat,
    line: Seq<char>,
    matched: Seq<char>,
    literal: Option<Seq<char>>,
)
    requires
        contains_text(line, matched),
    ensures
        match_stands_in_line(
            record_with(catalog, category, file_path, line_number, line, matched, literal),
        ),
{
    lemma_first_occurrence_is_least(line, matched, 0);
    lemma_first_index_of(matched, '(');
    let k = first_occurrence(line, matched)->0;
    lemma_standing_text_is_contained(line, matched, k, first_index_of(matched, '('));
}

/// Computes `highlighted`.
pub fn highlight(line: &str, matched: &str) -> (out: String)
    ensures
        out@ == highlighted(line@, matched@),
{
    let l = chars_of(line);
    let m = chars_of(matched);
    match find_text(&l, &m) {
        Some(k) => {
            assert(k + m.len() <= l.len()) by {
                assert(occurs_at(l@, m@, k as int));
            }
            let end: usize = k + m.len();
            let mut out: Vec<char> = slice_of(&l, 0, k);
            out.push('`');
            push_all(&mut out, &m);
            out.push('`');
            let rest = slice_of(&l, end, l.len());
            push_all(&mut out, &rest);
            assert(out@ =~= highlighted(line@, matched@));
            string_of(&out)
        },
        None => String::from_str(line),
    }
}

/// Computes `hook_name_of`.
pub fn hook_name(literal: Option<String>) -> (name: String)
    ensures
        name@ == hook_name_of(text_of(literal)),
{
    match literal {
        Some(quoted) => {
            let q = chars_of(quoted.as_str());
            let t = trim(&q, CharClass::Quote);
            string_of(&t)
        },
        None => String::from_str("N/A"),
    }
}

} // verus!

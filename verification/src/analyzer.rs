//! The analyzer: a validated pattern catalog and the scan of lines and files
//! against it.

use vstd::prelude::*;
use vstd::string::StringExecFns;
use crate::catalog::{
    build_known_functions, category_patterns, function_specs, known_functions, label_among,
    label_of, lemma_label_persists, of_category, quoted_literal, Category, FunctionSpec,
    KnownFunction,
};
use crate::lines::{line_views, lines_of, split_lines};
use crate::matcher::{
    find_all, find_first, pattern_compiles, regex_compiles, regex_find, regex_find_all,
};
use crate::record::{
    all_stand_in_line, function_name_of, function_type_of, highlight, hook_name,
    lemma_record_of_standing_match, record_with, records_of, MatchRecord, MatchResult,
};
use crate::search::{contains_text, find_char, find_text, lemma_first_index_of, slice_of};
use crate::text::{chars_of, str_eq, string_of, text_of, texts_of};
use crate::trim::{trim, trimmed, CharClass};

verus! {

/// A pattern that the regular-expression engine does not accept.
#[derive(Clone, Debug, PartialEq, Eq)]
pub struct InvalidPattern {
    /// The source of the pattern.
    pub source: String,
}

/// Every pattern that a scan with `catalog` uses is accepted by the engine.
pub open spec fn catalog_compiles(catalog: Seq<FunctionSpec>) -> bool {
    &&& regex_compiles(quoted_literal())
    &&& forall|i: int| 0 <= i < catalog.len() ==> regex_compiles(#[trigger] catalog[i].pattern())
}

/// `source` is the first pattern of a scan with `catalog` that the engine
/// rejects: the pattern of a quoted literal if that is rejected, else the
/// pattern of an entry before which every entry has an accepted pattern.
pub open spec fn first_rejected(catalog: Seq<FunctionSpec>, source: Seq<char>) -> bool {
    &&& !regex_compiles(source)
    &&& if !regex_compiles(quoted_literal()) {
        source == quoted_literal()
    } else {
        exists|i: int|
            0 <= i < catalog.len() && source == (#[trigger] catalog[i]).pattern() && forall|j: int|
                0 <= j < i ==> regex_compiles((#[trigger] catalog[j]).pattern())
    }
}

/// The record of the match `matched` of a pattern of `category` in `line`.
pub open spec fn record_of(
    catalog: Seq<FunctionSpec>,
    category: Category,
    file_path: Seq<char>,
    line_number: nat,
    line: Seq<char>,
    matched: Seq<char>,
) -> MatchRecord {
    record_with(
        catalog,
        category,
        file_path,
        line_number,
        line,
        matched,
        regex_find(quoted_literal(), matched),
    )
}

/// The records of all matches of the pattern of `entry` in `line`, from left
/// to right.
pub open spec fn entry_records(
    catalog: Seq<FunctionSpec>,
    entry: FunctionSpec,
    file_path: Seq<char>,
    line_number: nat,
    line: Seq<char>,
) -> Seq<MatchRecord> {
    regex_find_all(entry.pattern(), line).map_values(
        |matched: Seq<char>| record_of(catalog, entry.category, file_path, line_number, line, matched),
    )
}

/// The records that the first `n` entries of the catalog yield on `line`.
pub open spec fn line_records_among(
    catalog: Seq<FunctionSpec>,
    n: int,
    file_path: Seq<char>,
    line_number: nat,
    line: Seq<char>,
) -> Seq<MatchRecord>
    decreases n,
{
    if n <= 0 {
        Seq::empty()
    } else {
        line_records_among(catalog, n - 1, file_path, line_number, line) + entry_records(
            catalog,
            catalog[n - 1],
            file_path,
            line_number,
            line,
        )
    }
}

/// The records of one line: entry by entry in the order of the catalog, and
/// for each entry its matches from left to right.
pub open spec fn line_records(
    catalog: Seq<FunctionSpec>,
    file_path: Seq<char>,
    line_number: nat,
    line: Seq<char>,
) -> Seq<MatchRecord> {
    line_records_among(catalog, catalog.len() as int, file_path, line_number, line)
}

/// The records of the first `n` of `lines`, each line trimmed of white space
/// and numbered from 1.
pub open spec fn lines_records_among(
    catalog: Seq<FunctionSpec>,
    file_path: Seq<char>,
    lines: Seq<Seq<char>>,
    n: int,
) -> Seq<MatchRecord>
    decreases n,
{
    if n <= 0 {
        Seq::empty()
    } else {
        lines_records_among(catalog, file_path, lines, n - 1) + line_records(
            catalog,
            file_path,
            n as nat,
            trimmed(lines[n - 1], CharClass::Whitespace),
        )
    }
}

/// The records of a file with the text `content`: line by line in ascending
/// order.
pub open spec fn file_records(
    catalog: Seq<FunctionSpec>,
    file_path: Seq<char>,
    content: Seq<char>,
) -> Seq<MatchRecord> {
    lines_records_among(
        catalog,
        file_path,
        split_lines(content),
        split_lines(content).len() as int,
    )
}

/// Whether the source of some pattern of `category` holds `function` as a
/// piece of its text.
pub open spec fn mentions(
    catalog: Seq<FunctionSpec>,
    category: Category,
    function: Seq<char>,
) -> bool {
    exists|i: int|
        0 <= i < catalog.len() && (#[trigger] catalog[i]).category == category && contains_text(
            catalog[i].pattern(),
            function,
        )
}

/// The pattern catalog, with every pattern accepted by the engine.
pub struct WPHooksAnalyzer {
    functions: Vec<KnownFunction>,
    patterns: Vec<String>,
    literal: String,
}

impl View for WPHooksAnalyzer {
    type V = Seq<FunctionSpec>;

    closed spec fn view(&self) -> Seq<FunctionSpec> {
        function_specs(self.functions@)
    }
}

impl WPHooksAnalyzer {
    #[verifier::type_invariant]
    spec fn valid(&self) -> bool {
        &&& self.literal@ == quoted_literal()
        &&& regex_compiles(self.literal@)
        &&& self.patterns.len() == self.functions.len()
        &&& forall|i: int|
            0 <= i < self.patterns.len() ==> (#[trigger] self.patterns[i])@
                == self.functions[i]@.pattern() && regex_compiles(self.patterns[i]@)
    }

    /// An analyzer over `functions`, if the engine accepts the pattern of
    /// each of them and the pattern of a quoted literal; else the first
    /// pattern that it rejects, the pattern of a quoted literal coming first.
    pub fn with_functions(functions: Vec<KnownFunction>) -> (made: Result<Self, InvalidPattern>)
        ensures
            (made is Ok) <==> catalog_compiles(function_specs(functions@)),
            made matches Ok(analyzer) ==> analyzer@ == function_specs(functions@),
            made matches Err(e) ==> first_rejected(function_specs(functions@), e.source@),
    {
        let literal = String::from_str("['\"][\\w-]+['\"]");
        if !pattern_compiles(literal.as_str()) {
            return Err(InvalidPattern { source: literal });
        }
        let ghost catalog = function_specs(functions@);
        let mut patterns: Vec<String> = Vec::new();
        let mut i: usize = 0;
        while i < functions.len()
            invariant
                i <= functions.len(),
                patterns.len() == i,
                catalog == function_specs(functions@),
                regex_compiles(quoted_literal()),
                forall|j: int|
                    0 <= j < i ==> (#[trigger] patterns[j])@ == catalog[j].pattern()
                        && regex_compiles(catalog[j].pattern()),
            decreases functions.len() - i,
        {
            assert(catalog[i as int] == functions[i as int]@);
            let source = functions[i].pattern();
            if !pattern_compiles(source.as_str()) {
                assert forall|j: int| 0 <= j < i implies regex_compiles(
                    (#[trigger] catalog[j]).pattern(),
                ) by {
                    assert(patterns[j]@ == catalog[j].pattern());
                }
                return Err(InvalidPattern { source });
            }
            patterns.push(source);
            i += 1;
        }
        assert forall|j: int| 0 <= j < patterns.len() implies (#[trigger] patterns[j])@
            == functions[j]@.pattern() && regex_compiles(patterns[j]@) by {
            assert(catalog[j] == functions[j]@);
        }
        assert forall|j: int| 0 <= j < catalog.len() implies regex_compiles(
            #[trigger] catalog[j].pattern(),
        ) by {
            assert(patterns[j]@ == catalog[j].pattern());
        }
        Ok(WPHooksAnalyzer { functions, patterns, literal })
    }

    /// An analyzer over the catalog of known functions, if the engine
    /// accepts every pattern of it; else the first pattern that it rejects.
    pub fn new() -> (made: Result<Self, InvalidPattern>)
        ensures
            (made is Ok) <==> catalog_compiles(known_functions()),
            made matches Ok(analyzer) ==> analyzer@ == known_functions(),
            made matches Err(e) ==> first_rejected(known_functions(), e.source@),
    {
        WPHooksAnalyzer::with_functions(build_known_functions())
    }

    /// The entries of the catalog, in the order in which they are tried.
    pub fn functions(&self) -> (entries: &Vec<KnownFunction>)
        ensures
            function_specs(entries@) == self@,
    {
        &self.functions
    }

    /// The patterns of `category`, in the order in which they are tried.
    pub fn patterns_of(&self, category: Category) -> (sources: Vec<String>)
        ensures
            texts_of(sources@) == category_patterns(self@, category),
    {
        let ghost test = of_category(category);
        let ghost source_of = |f: FunctionSpec| f.pattern();
        let mut sources: Vec<String> = Vec::new();
        let mut i: usize = 0;
        proof {
            reveal(Seq::filter);
            assert(self@.take(0).filter(test) =~= Seq::<FunctionSpec>::empty());
            assert(texts_of(sources@) =~= self@.take(0).filter(test).map_values(source_of));
        }
        while i < self.functions.len()
            invariant
                i <= self.functions.len(),
                self.functions.len() == self@.len(),
                test == of_category(category),
                source_of == |f: FunctionSpec| f.pattern(),
                texts_of(sources@) == self@.take(i as int).filter(test).map_values(source_of),
            decreases self.functions.len() - i,
        {
            proof {
                use_type_invariant(self);
                assert(self@.take(i + 1) =~= self@.take(i as int).push(self@[i as int]));
                self@.take(i as int).lemma_filter_push(self@[i as int], test);
            }
            assert(self@[i as int] == self.functions[i as int]@);
            if self.functions[i].category == category {
                let source = self.patterns[i].clone();
                proof {
                    let kept = self@.take(i as int).filter(test);
                    assert(kept.push(self@[i as int]).map_values(source_of) =~= kept.map_values(
                        source_of,
                    ).push(source@));
                    assert(texts_of(sources@.push(source)) =~= texts_of(sources@).push(source@));
                }
                sources.push(source);
            }
            i += 1;
        }
        assert(self@.take(self@.len() as int) =~= self@);
        sources
    }

    /// The label of `function` in the catalog, if the catalog knows it.
    pub fn label_for(&self, function: &str) -> (label: Option<String>)
        ensures
            text_of(label) == label_of(self@, function@),
    {
        let mut i: usize = 0;
        while i < self.functions.len()
            invariant
                i <= self.functions.len(),
                label_among(self@, i as int, function@) is None,
            decreases self.functions.len() - i,
        {
            assert(self@[i as int] == self.functions[i as int]@);
            if str_eq(self.functions[i].name.as_str(), function) {
                let label = self.functions[i].label.clone();
                proof {
                    lemma_label_persists(self@, i + 1, self@.len() as int, function@);
                }
                return Some(label);
            }
            i += 1;
        }
        None
    }

    /// Computes `mentions`.
    pub fn category_mentions(&self, category: Category, function: &str) -> (r: bool)
        ensures
            r == mentions(self@, category, function@),
    {
        let needle = chars_of(function);
        let mut i: usize = 0;
        while i < self.functions.len()
            invariant
                i <= self.functions.len(),
                needle@ == function@,
                forall|j: int|
                    0 <= j < i ==> !((#[trigger] self@[j]).category == category && contains_text(
                        self@[j].pattern(),
                        function@,
                    )),
            decreases self.functions.len() - i,
        {
            proof {
                use_type_invariant(self);
            }
            assert(self@[i as int] == self.functions[i as int]@);
            assert(self.patterns[i as int]@ == self@[i as int].pattern());
            if self.functions[i].category == category {
                let source = chars_of(self.patterns[i].as_str());
                if find_text(&source, &needle).is_some() {
                    return true;
                }
            }
            i += 1;
        }
        false
    }

    /// The name of the function called in `match_text`: the text before the
    /// first opening parenthesis, all of it when there is none.
    pub fn get_function_name(&self, match_text: &str) -> (name: String)
        ensures
            name@ == function_name_of(match_text@),
    {
        let m = chars_of(match_text);
        let k: usize = find_char(&m, '(');
        proof {
            lemma_first_index_of(m@, '(');
        }
        let head = slice_of(&m, 0, k);
        assert(head@ =~= m@.take(k as int));
        string_of(&head)
    }

    /// The function type of `function`: its label, or `Unknown`.
    pub fn function_type(&self, function: &str) -> (label: String)
        ensures
            label@ == function_type_of(self@, function@),
    {
        match self.label_for(function) {
            Some(label) => label,
            None => String::from_str("Unknown"),
        }
    }

    /// The record of one match: `matched` is the text that a pattern of
    /// `category` matched in `line`, and `literal` the first quoted literal
    /// found in `matched`.
    pub fn build_record(
        &self,
        category: Category,
        file_path: &str,
        line_number: usize,
        line: &str,
        matched: &str,
        literal: Option<String>,
    ) -> (record: MatchResult)
        ensures
            record@ == record_with(
                self@,
                category,
                file_path@,
                line_number as nat,
                line@,
                matched@,
                text_of(literal),
            ),
    {
        let function = self.get_function_name(matched);
        let function_type = self.function_type(function.as_str());
        MatchResult {
            category: String::from_str(category.as_str()),
            function,
            function_type,
            hook_name: hook_name(literal),
            file_path: String::from_str(file_path),
            line_number,
            original_line: String::from_str(line),
            highlighted_line: highlight(line, matched),
        }
    }

    /// The records of all matches of entry `i` of the catalog in `line`.
    fn scan_entry(&self, i: usize, file_path: &str, line_number: usize, line: &str) -> (found: Vec<
        MatchResult,
    >)
        requires
            i < self@.len(),
        ensures
            records_of(found@) == entry_records(
                self@,
                self@[i as int],
                file_path@,
                line_number as nat,
                line@,
            ),
            all_stand_in_line(records_of(found@)),
    {
        proof {
            use_type_invariant(self);
        }
        let entry = &self.functions[i];
        assert(self@[i as int] == entry@);
        assert(self.patterns[i as int]@ == entry@.pattern());
        let mut found: Vec<MatchResult> = Vec::new();
        let texts = match find_all(self.patterns[i].as_str(), line) {
            Some(texts) => texts,
            None => {
                // The pattern was accepted when the analyzer was made.
                assert(false);
                return found;
            },
        };
        let ghost wanted = entry_records(
            self@,
            self@[i as int],
            file_path@,
            line_number as nat,
            line@,
        );
        let mut k: usize = 0;
        assert(wanted.len() == texts_of(texts@).len());
        assert(records_of(found@) =~= wanted.take(0));
        while k < texts.len()
            invariant
                k <= texts.len(),
                i < self@.len(),
                texts_of(texts@) == regex_find_all(entry@.pattern(), line@),
                wanted.len() == texts.len(),
                self@[i as int] == entry@,
                wanted == entry_records(
                    self@,
                    self@[i as int],
                    file_path@,
                    line_number as nat,
                    line@,
                ),
                records_of(found@) == wanted.take(k as int),
                all_stand_in_line(records_of(found@)),
                forall|t: int| 0 <= t < texts.len() ==> contains_text(line@, (#[trigger] texts[t])@),
            decreases texts.len() - k,
        {
            proof {
                use_type_invariant(self);
            }
            let matched = texts[k].as_str();
            assert(texts_of(texts@)[k as int] == matched@);
            let literal = match find_first(self.literal.as_str(), matched) {
                Some(literal) => literal,
                None => {
                    // The pattern was accepted when the analyzer was made.
                    assert(false);
                    return found;
                },
            };
            let record = self.build_record(
                entry.category,
                file_path,
                line_number,
                line,
                matched,
                literal,
            );
            assert(record@ == wanted[k as int]);
            proof {
                lemma_record_of_standing_match(
                    self@,
                    entry.category,
                    file_path@,
                    line_number as nat,
                    line@,
                    matched@,
                    text_of(literal),
                );
                assert(records_of(found@.push(record)) =~= records_of(found@).push(record@));
                assert(wanted.take(k + 1) =~= wanted.take(k as int).push(wanted[k as int]));
            }
            found.push(record);
            k += 1;
        }
        assert(wanted.take(k as int) =~= wanted);
        found
    }

    /// Scans one line: tries every pattern of the catalog in order, and
    /// records every match of each from left to right. The line is taken as
    /// it is; each record carries `file_path` and `line_number`.
    pub fn scan_line(&self, line: &str, file_path: &str, line_number: usize) -> (found: Vec<
        MatchResult,
    >)
        ensures
            records_of(found@) == line_records(self@, file_path@, line_number as nat, line@),
            all_stand_in_line(records_of(found@)),
    {
        let mut found: Vec<MatchResult> = Vec::new();
        let mut i: usize = 0;
        assert(records_of(found@) =~= Seq::<MatchRecord>::empty());
        while i < self.functions.len()
            invariant
                i <= self.functions.len(),
                self.functions.len() == self@.len(),
                records_of(found@) == line_records_among(
                    self@,
                    i as int,
                    file_path@,
                    line_number as nat,
                    line@,
                ),
                all_stand_in_line(records_of(found@)),
            decreases self.functions.len() - i,
        {
            let mut of_entry = self.scan_entry(i, file_path, line_number, line);
            let ghost before = found@;
            let ghost added = of_entry@;
            found.append(&mut of_entry);
            assert(records_of(before + added) =~= records_of(before) + records_of(added));
            i += 1;
        }
        found
    }

    /// Scans the text of a file: splits it into lines, trims each line of
    /// white space, scans it and stamps the records with `file_path` and the
    /// number of the line, counted from 1.
    pub fn find_matches(&self, file_path: &str, content: &str) -> (found: Vec<MatchResult>)
        ensures
            records_of(found@) == file_records(self@, file_path@, content@),
            all_stand_in_line(records_of(found@)),
    {
        let text = chars_of(content);
        let lines = lines_of(&text);
        let mut found: Vec<MatchResult> = Vec::new();
        let mut n: usize = 0;
        assert(records_of(found@) =~= Seq::<MatchRecord>::empty());
        while n < lines.len()
            invariant
                n <= lines.len(),
                line_views(lines@) == split_lines(content@),
                records_of(found@) == lines_records_among(
                    self@,
                    file_path@,
                    split_lines(content@),
                    n as int,
                ),
                all_stand_in_line(records_of(found@)),
            decreases lines.len() - n,
        {
            assert(line_views(lines@)[n as int] == lines[n as int]@);
            let line = string_of(&trim(&lines[n], CharClass::Whitespace));
            let mut of_line = self.scan_line(line.as_str(), file_path, n + 1);
            let ghost before = found@;
            let ghost added = of_line@;
            found.append(&mut of_line);
            assert(records_of(before + added) =~= records_of(before) + records_of(added));
            n += 1;
        }
        found
    }
}

} // verus!

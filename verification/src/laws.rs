//! What holds of every scan and every report, stated over the models that
//! the contracts of the library use.

use vstd::prelude::*;
use crate::analyzer::{
    entry_records, file_records, line_records, line_records_among, lines_records_among, record_of,
};
use crate::catalog::{quoted_literal, Category, FunctionSpec};
use crate::csv_export::{csv_header, csv_rows};
use crate::grouping::in_category;
use crate::lines::split_lines;
use crate::matcher::{regex_find, regex_find_all};
use crate::record::{function_name_of, no_hook_name, MatchRecord};
use crate::search::{lemma_first_index_of, text_before};
use crate::sources::{
    is_source_path, listing_records, listing_records_among, source_records, SourceSpec,
};
use crate::summary::count_in_category;
use crate::trim::{is_trimmed, lemma_trimmed_is_trimmed, trimmed, CharClass};

verus! {

/// No pattern of the catalog matches anywhere in `line`.
pub open spec fn holds_no_call(catalog: Seq<FunctionSpec>, line: Seq<char>) -> bool {
    forall|i: int|
        0 <= i < catalog.len() ==> regex_find_all((#[trigger] catalog[i]).pattern(), line).len()
            == 0
}

/// No pattern of the catalog matches in any trimmed line of `content`.
pub open spec fn text_holds_no_call(catalog: Seq<FunctionSpec>, content: Seq<char>) -> bool {
    forall|n: int|
        0 <= n < split_lines(content).len() ==> holds_no_call(
            catalog,
            trimmed(#[trigger] split_lines(content)[n], CharClass::Whitespace),
        )
}

/// `r` is the record of a match of some pattern of the catalog in `line`.
pub open spec fn comes_from_match(
    catalog: Seq<FunctionSpec>,
    file_path: Seq<char>,
    line_number: nat,
    line: Seq<char>,
    r: MatchRecord,
) -> bool {
    exists|i: int, j: int|
        0 <= i < catalog.len() && 0 <= j < regex_find_all(catalog[i].pattern(), line).len() && r
            == record_of(
            catalog,
            catalog[i].category,
            file_path,
            line_number,
            line,
            #[trigger] regex_find_all(catalog[i].pattern(), line)[j],
        )
}

/// `r` is a record of some line of `lines`, trimmed and numbered from 1.
pub open spec fn comes_from_line(
    catalog: Seq<FunctionSpec>,
    file_path: Seq<char>,
    lines: Seq<Seq<char>>,
    r: MatchRecord,
) -> bool {
    exists|n: int|
        1 <= n <= lines.len() && comes_from_match(
            catalog,
            file_path,
            n as nat,
            trimmed(#[trigger] lines[n - 1], CharClass::Whitespace),
            r,
        )
}

/// The hook name is `N/A`, or it neither starts nor ends with a quote.
pub open spec fn hook_name_is_bare(r: MatchRecord) -> bool {
    r.hook_name == no_hook_name() || is_trimmed(r.hook_name, CharClass::Quote)
}

/// A line in which no pattern of the catalog matches yields no record.
pub proof fn law_line_without_call_yields_nothing(
    catalog: Seq<FunctionSpec>,
    file_path: Seq<char>,
    line_number: nat,
    line: Seq<char>,
)
    requires
        holds_no_call(catalog, line),
    ensures
        line_records(catalog, file_path, line_number, line) == Seq::<MatchRecord>::empty(),
{
    lemma_no_call_among(catalog, catalog.len() as int, file_path, line_number, line);
}

proof fn lemma_no_call_among(
    catalog: Seq<FunctionSpec>,
    n: int,
    file_path: Seq<char>,
    line_number: nat,
    line: Seq<char>,
)
    requires
        n <= catalog.len(),
        holds_no_call(catalog, line),
    ensures
        line_records_among(catalog, n, file_path, line_number, line) == Seq::<MatchRecord>::empty(),
    decreases n,
{
    if n > 0 {
        lemma_no_call_among(catalog, n - 1, file_path, line_number, line);
        assert(regex_find_all(catalog[n - 1].pattern(), line).len() == 0);
        assert(entry_records(catalog, catalog[n - 1], file_path, line_number, line)
            =~= Seq::<MatchRecord>::empty());
    }
}

/// Every record of a line is the record of a match of some pattern of the
/// catalog in that line.
pub proof fn law_line_records_come_from_matches(
    catalog: Seq<FunctionSpec>,
    file_path: Seq<char>,
    line_number: nat,
    line: Seq<char>,
    k: int,
)
    requires
        0 <= k < line_records(catalog, file_path, line_number, line).len(),
    ensures
        comes_from_match(
            catalog,
            file_path,
            line_number,
            line,
            line_records(catalog, file_path, line_number, line)[k],
        ),
{
    lemma_among_come_from_matches(catalog, catalog.len() as int, file_path, line_number, line, k);
}

proof fn lemma_among_come_from_matches(
    catalog: Seq<FunctionSpec>,
    n: int,
    file_path: Seq<char>,
    line_number: nat,
    line: Seq<char>,
    k: int,
)
    requires
        n <= catalog.len(),
        0 <= k < line_records_among(catalog, n, file_path, line_number, line).len(),
    ensures
        comes_from_match(
            catalog,
            file_path,
            line_number,
            line,
            line_records_among(catalog, n, file_path, line_number, line)[k],
        ),
    decreases n,
{
    if n > 0 {
        let before = line_records_among(catalog, n - 1, file_path, line_number, line);
        if k < before.len() {
            lemma_among_come_from_matches(catalog, n - 1, file_path, line_number, line, k);
        } else {
            let j: int = k - before.len();
            let texts = regex_find_all(catalog[n - 1].pattern(), line);
            let r = line_records_among(catalog, n, file_path, line_number, line)[k];
            assert(r == entry_records(catalog, catalog[n - 1], file_path, line_number, line)[j]);
            assert(r == record_of(
                catalog,
                catalog[n - 1].category,
                file_path,
                line_number,
                line,
                texts[j],
            ));
        }
    }
}

/// The function of a record is the text that stands before the first opening
/// parenthesis of the text that matched.
pub proof fn law_function_precedes_parenthesis(
    catalog: Seq<FunctionSpec>,
    entry: FunctionSpec,
    file_path: Seq<char>,
    line_number: nat,
    line: Seq<char>,
    j: int,
)
    requires
        0 <= j < regex_find_all(entry.pattern(), line).len(),
    ensures
        entry_records(catalog, entry, file_path, line_number, line).len() == regex_find_all(
            entry.pattern(),
            line,
        ).len(),
        entry_records(catalog, entry, file_path, line_number, line)[j].function == text_before(
            regex_find_all(entry.pattern(), line)[j],
            '(',
        ),
{
}

/// A record that comes from a match carries the category of the pattern, the
/// place it was given, a function name without an opening parenthesis, and a
/// bare hook name.
pub proof fn law_record_of_match(
    catalog: Seq<FunctionSpec>,
    file_path: Seq<char>,
    line_number: nat,
    line: Seq<char>,
    r: MatchRecord,
)
    requires
        comes_from_match(catalog, file_path, line_number, line, r),
    ensures
        exists|c: Category| r.category == c.name(),
        r.file_path == file_path,
        r.line_number == line_number,
        r.original_line == line,
        !r.function.contains('('),
        hook_name_is_bare(r),
{
    let (i, j) = choose|i: int, j: int|
        0 <= i < catalog.len() && 0 <= j < regex_find_all(catalog[i].pattern(), line).len() && r
            == record_of(
            catalog,
            catalog[i].category,
            file_path,
            line_number,
            line,
            #[trigger] regex_find_all(catalog[i].pattern(), line)[j],
        );
    let matched = regex_find_all(catalog[i].pattern(), line)[j];
    assert(r.category == catalog[i].category.name());
    lemma_bare_hook_name(catalog, catalog[i].category, file_path, line_number, line, matched);
    lemma_first_index_of(matched, '(');
    assert(r.function == function_name_of(matched));
    if r.function.contains('(') {
        let p = choose|p: int| 0 <= p < r.function.len() && r.function[p] == '(';
        assert(matched[p] == '(');
    }
}

proof fn lemma_bare_hook_name(
    catalog: Seq<FunctionSpec>,
    category: Category,
    file_path: Seq<char>,
    line_number: nat,
    line: Seq<char>,
    matched: Seq<char>,
)
    ensures
        hook_name_is_bare(record_of(catalog, category, file_path, line_number, line, matched)),
{
    match regex_find(quoted_literal(), matched) {
        Some(quoted) => {
            lemma_trimmed_is_trimmed(quoted, CharClass::Quote);
        },
        None => {},
    }
}

/// The hook name of every record of a line is `N/A` or free of surrounding
/// quotes.
pub proof fn law_hook_name_is_bare(
    catalog: Seq<FunctionSpec>,
    file_path: Seq<char>,
    line_number: nat,
    line: Seq<char>,
    k: int,
)
    requires
        0 <= k < line_records(catalog, file_path, line_number, line).len(),
    ensures
        hook_name_is_bare(line_records(catalog, file_path, line_number, line)[k]),
{
    law_line_records_come_from_matches(catalog, file_path, line_number, line, k);
    law_record_of_match(
        catalog,
        file_path,
        line_number,
        line,
        line_records(catalog, file_path, line_number, line)[k],
    );
}

/// Every record of a file is a record of one of its lines, trimmed, under
/// the number of that line counted from 1.
pub proof fn law_file_records_come_from_lines(
    catalog: Seq<FunctionSpec>,
    file_path: Seq<char>,
    content: Seq<char>,
    k: int,
)
    requires
        0 <= k < file_records(catalog, file_path, content).len(),
    ensures
        comes_from_line(
            catalog,
            file_path,
            split_lines(content),
            file_records(catalog, file_path, content)[k],
        ),
        1 <= file_records(catalog, file_path, content)[k].line_number <= split_lines(
            content,
        ).len(),
        file_records(catalog, file_path, content)[k].file_path == file_path,
        !file_records(catalog, file_path, content)[k].function.contains('('),
        hook_name_is_bare(file_records(catalog, file_path, content)[k]),
{
    let lines = split_lines(content);
    lemma_lines_among_come_from_lines(catalog, file_path, lines, lines.len() as int, k);
    let r = file_records(catalog, file_path, content)[k];
    let n = choose|n: int|
        1 <= n <= lines.len() && comes_from_match(
            catalog,
            file_path,
            n as nat,
            trimmed(#[trigger] lines[n - 1], CharClass::Whitespace),
            r,
        );
    law_record_of_match(catalog, file_path, n as nat, trimmed(lines[n - 1], CharClass::Whitespace), r);
}

proof fn lemma_lines_among_come_from_lines(
    catalog: Seq<FunctionSpec>,
    file_path: Seq<char>,
    lines: Seq<Seq<char>>,
    n: int,
    k: int,
)
    requires
        n <= lines.len(),
        0 <= k < lines_records_among(catalog, file_path, lines, n).len(),
    ensures
        comes_from_line(
            catalog,
            file_path,
            lines,
            lines_records_among(catalog, file_path, lines, n)[k],
        ),
    decreases n,
{
    if n > 0 {
        let before = lines_records_among(catalog, file_path, lines, n - 1);
        if k < before.len() {
            lemma_lines_among_come_from_lines(catalog, file_path, lines, n - 1, k);
        } else {
            let line = trimmed(lines[n - 1], CharClass::Whitespace);
            law_line_records_come_from_matches(catalog, file_path, n as nat, line, k - before.len());
        }
    }
}

/// The records of a file stand in ascending order of their line numbers.
pub proof fn law_file_records_ascend(
    catalog: Seq<FunctionSpec>,
    file_path: Seq<char>,
    content: Seq<char>,
    a: int,
    b: int,
)
    requires
        0 <= a <= b < file_records(catalog, file_path, content).len(),
    ensures
        file_records(catalog, file_path, content)[a].line_number <= file_records(
            catalog,
            file_path,
            content,
        )[b].line_number,
{
    let lines = split_lines(content);
    lemma_lines_among_ascend(catalog, file_path, lines, lines.len() as int, a, b);
}

proof fn lemma_lines_among_bounded(
    catalog: Seq<FunctionSpec>,
    file_path: Seq<char>,
    lines: Seq<Seq<char>>,
    n: int,
    k: int,
)
    requires
        n <= lines.len(),
        0 <= k < lines_records_among(catalog, file_path, lines, n).len(),
    ensures
        1 <= lines_records_among(catalog, file_path, lines, n)[k].line_number <= n,
    decreases n,
{
    if n > 0 {
        let before = lines_records_among(catalog, file_path, lines, n - 1);
        if k < before.len() {
            lemma_lines_among_bounded(catalog, file_path, lines, n - 1, k);
        } else {
            let line = trimmed(lines[n - 1], CharClass::Whitespace);
            law_line_records_come_from_matches(catalog, file_path, n as nat, line, k - before.len());
            law_record_of_match(
                catalog,
                file_path,
                n as nat,
                line,
                line_records(catalog, file_path, n as nat, line)[k - before.len()],
            );
        }
    }
}

proof fn lemma_lines_among_ascend(
    catalog: Seq<FunctionSpec>,
    file_path: Seq<char>,
    lines: Seq<Seq<char>>,
    n: int,
    a: int,
    b: int,
)
    requires
        n <= lines.len(),
        0 <= a <= b < lines_records_among(catalog, file_path, lines, n).len(),
    ensures
        lines_records_among(catalog, file_path, lines, n)[a].line_number <= lines_records_among(
            catalog,
            file_path,
            lines,
            n,
        )[b].line_number,
    decreases n,
{
    if n > 0 {
        let before = lines_records_among(catalog, file_path, lines, n - 1);
        let line = trimmed(lines[n - 1], CharClass::Whitespace);
        let last = line_records(catalog, file_path, n as nat, line);
        if b < before.len() {
            lemma_lines_among_ascend(catalog, file_path, lines, n - 1, a, b);
        } else {
            law_line_records_come_from_matches(catalog, file_path, n as nat, line, b - before.len());
            law_record_of_match(catalog, file_path, n as nat, line, last[b - before.len()]);
            if a < before.len() {
                lemma_lines_among_bounded(catalog, file_path, lines, n - 1, a);
            } else {
                law_line_records_come_from_matches(
                    catalog,
                    file_path,
                    n as nat,
                    line,
                    a - before.len(),
                );
                law_record_of_match(catalog, file_path, n as nat, line, last[a - before.len()]);
            }
        }
    }
}

/// A file in whose lines no pattern matches yields no record.
pub proof fn law_file_without_call_yields_nothing(
    catalog: Seq<FunctionSpec>,
    file_path: Seq<char>,
    content: Seq<char>,
)
    requires
        text_holds_no_call(catalog, content),
    ensures
        file_records(catalog, file_path, content) == Seq::<MatchRecord>::empty(),
{
    let lines = split_lines(content);
    lemma_lines_without_call(catalog, file_path, content, lines.len() as int);
}

proof fn lemma_lines_without_call(
    catalog: Seq<FunctionSpec>,
    file_path: Seq<char>,
    content: Seq<char>,
    n: int,
)
    requires
        n <= split_lines(content).len(),
        text_holds_no_call(catalog, content),
    ensures
        lines_records_among(catalog, file_path, split_lines(content), n) == Seq::<
            MatchRecord,
        >::empty(),
    decreases n,
{
    if n > 0 {
        lemma_lines_without_call(catalog, file_path, content, n - 1);
        let line = trimmed(split_lines(content)[n - 1], CharClass::Whitespace);
        law_line_without_call_yields_nothing(catalog, file_path, n as nat, line);
    }
}

/// `r` is a record of some source file of the listing whose text could be
/// read.
pub open spec fn comes_from_file(
    catalog: Seq<FunctionSpec>,
    files: Seq<SourceSpec>,
    r: MatchRecord,
) -> bool {
    exists|f: int|
        0 <= f < files.len() && is_source_path((#[trigger] files[f]).path) && files[f].content
            is Some && r.file_path == files[f].path && comes_from_line(
            catalog,
            files[f].path,
            split_lines(files[f].content->0),
            r,
        )
}

/// Every record of a listing is a record of one of its source files, has a
/// function name without an opening parenthesis, and a bare hook name.
pub proof fn law_listing_records_come_from_files(
    catalog: Seq<FunctionSpec>,
    files: Seq<SourceSpec>,
    k: int,
)
    requires
        0 <= k < listing_records(catalog, files).len(),
    ensures
        comes_from_file(catalog, files, listing_records(catalog, files)[k]),
        !listing_records(catalog, files)[k].function.contains('('),
        hook_name_is_bare(listing_records(catalog, files)[k]),
{
    lemma_listing_among_come_from_files(catalog, files, files.len() as int, k);
}

proof fn lemma_listing_among_come_from_files(
    catalog: Seq<FunctionSpec>,
    files: Seq<SourceSpec>,
    n: int,
    k: int,
)
    requires
        n <= files.len(),
        0 <= k < listing_records_among(catalog, files, n).len(),
    ensures
        comes_from_file(catalog, files, listing_records_among(catalog, files, n)[k]),
        !listing_records_among(catalog, files, n)[k].function.contains('('),
        hook_name_is_bare(listing_records_among(catalog, files, n)[k]),
    decreases n,
{
    if n > 0 {
        let before = listing_records_among(catalog, files, n - 1);
        if k < before.len() {
            lemma_listing_among_come_from_files(catalog, files, n - 1, k);
        } else {
            let file = files[n - 1];
            assert(source_records(catalog, file).len() > 0);
            law_file_records_come_from_lines(
                catalog,
                file.path,
                file.content->0,
                k - before.len(),
            );
        }
    }
}

/// The records of a listing with one more entry are those of the listing
/// followed by those of the entry.
pub proof fn law_listing_grows_by_entry(
    catalog: Seq<FunctionSpec>,
    files: Seq<SourceSpec>,
    file: SourceSpec,
)
    ensures
        listing_records(catalog, files.push(file)) == listing_records(catalog, files)
            + source_records(catalog, file),
{
    lemma_listing_prefix(catalog, files, files.push(file), files.len() as int);
}

proof fn lemma_listing_prefix(
    catalog: Seq<FunctionSpec>,
    a: Seq<SourceSpec>,
    b: Seq<SourceSpec>,
    n: int,
)
    requires
        n <= a.len() <= b.len(),
        forall|i: int| 0 <= i < a.len() ==> a[i] == b[i],
    ensures
        listing_records_among(catalog, a, n) == listing_records_among(catalog, b, n),
    decreases n,
{
    if n > 0 {
        lemma_listing_prefix(catalog, a, b, n - 1);
    }
}

/// The entry yields nothing by its kind: it could not be read, it is no
/// source file, or no pattern matches in any of its lines.
pub open spec fn is_silent(catalog: Seq<FunctionSpec>, file: SourceSpec) -> bool {
    file.content is None || !is_source_path(file.path) || text_holds_no_call(
        catalog,
        file.content->0,
    )
}

/// A silent entry at the end of a listing leaves the result of a scan as it
/// is without the entry.
pub proof fn law_silent_entry_adds_nothing(
    catalog: Seq<FunctionSpec>,
    files: Seq<SourceSpec>,
    file: SourceSpec,
)
    requires
        is_silent(catalog, file),
    ensures
        source_records(catalog, file) == Seq::<MatchRecord>::empty(),
        listing_records(catalog, files.push(file)) == listing_records(catalog, files),
{
    law_listing_grows_by_entry(catalog, files, file);
    if file.content is Some && is_source_path(file.path) {
        law_file_without_call_yields_nothing(catalog, file.path, file.content->0);
    }
    assert(source_records(catalog, file) =~= Seq::<MatchRecord>::empty());
}

/// The records of two listings, one after the other, are the records of the
/// first followed by the records of the second.
pub proof fn law_listing_concatenates(
    catalog: Seq<FunctionSpec>,
    a: Seq<SourceSpec>,
    b: Seq<SourceSpec>,
)
    ensures
        listing_records(catalog, a + b) == listing_records(catalog, a) + listing_records(
            catalog,
            b,
        ),
    decreases b.len(),
{
    if b.len() == 0 {
        assert(a + b =~= a);
        assert(listing_records(catalog, b) =~= Seq::<MatchRecord>::empty());
    } else {
        let front = b.drop_last();
        law_listing_concatenates(catalog, a, front);
        assert((a + front).push(b.last()) =~= a + b);
        assert(front.push(b.last()) =~= b);
        law_listing_grows_by_entry(catalog, a + front, b.last());
        law_listing_grows_by_entry(catalog, front, b.last());
    }
}

/// A silent entry, wherever it stands in a listing, leaves the result of a
/// scan as it is without the entry.
pub proof fn law_silent_entry_can_be_removed(
    catalog: Seq<FunctionSpec>,
    files: Seq<SourceSpec>,
    i: int,
)
    requires
        0 <= i < files.len(),
        is_silent(catalog, files[i]),
    ensures
        listing_records(catalog, files) == listing_records(catalog, files.remove(i)),
{
    let head = files.take(i);
    let tail = files.skip(i + 1);
    assert(files =~= head.push(files[i]) + tail);
    assert(files.remove(i) =~= head + tail);
    law_listing_concatenates(catalog, head.push(files[i]), tail);
    law_listing_concatenates(catalog, head, tail);
    law_silent_entry_adds_nothing(catalog, head, files[i]);
}

/// Different categories have different names.
pub proof fn law_category_names_differ(a: Category, b: Category)
    ensures
        a.name() == b.name() <==> a == b,
{
    reveal_strlit("action");
    reveal_strlit("filter");
    reveal_strlit("shortcode");
    reveal_strlit("hook");
    if a != b && a.name() == b.name() {
        assert(a.name()[0] == b.name()[0]);
        assert(a.name().len() == b.name().len());
    }
}

/// Filtering by a category keeps the records of that category, all of them
/// and in their order, and nothing else: what is kept holds no record of
/// another category, and counting the category in it counts all of it.
pub proof fn law_filter_keeps_one_category(records: Seq<MatchRecord>, category: Category)
    ensures
        ({
            let kept = records.filter(in_category(category.name()));
            &&& forall|i: int| 0 <= i < kept.len() ==> (#[trigger] kept[i]).category == category.name()
            &&& kept.len() == count_in_category(records, category)
            &&& kept.filter(in_category(category.name())) == kept
            &&& count_in_category(kept, category) == kept.len()
            &&& forall|other: Category|
                other != category ==> #[trigger] count_in_category(kept, other) == 0
        }),
{
    let test = in_category(category.name());
    let kept = records.filter(test);
    assert forall|i: int| 0 <= i < kept.len() implies (#[trigger] kept[i]).category
        == category.name() by {
        records.lemma_filter_pred(test, i);
    }
    lemma_filter_all(kept, test);
    assert forall|other: Category| other != category implies #[trigger] count_in_category(
        kept,
        other,
    ) == 0 by {
        law_category_names_differ(other, category);
        lemma_filter_none(kept, in_category(other.name()));
    }
}

proof fn lemma_filter_all(s: Seq<MatchRecord>, test: spec_fn(MatchRecord) -> bool)
    requires
        forall|i: int| 0 <= i < s.len() ==> test(#[trigger] s[i]),
    ensures
        s.filter(test) == s,
    decreases s.len(),
{
    reveal(Seq::filter);
    if s.len() > 0 {
        lemma_filter_all(s.drop_last(), test);
        assert(s.drop_last().push(s.last()) =~= s);
    }
}

proof fn lemma_filter_none(s: Seq<MatchRecord>, test: spec_fn(MatchRecord) -> bool)
    requires
        forall|i: int| 0 <= i < s.len() ==> !test(#[trigger] s[i]),
    ensures
        s.filter(test).len() == 0,
    decreases s.len(),
{
    reveal(Seq::filter);
    if s.len() > 0 {
        lemma_filter_none(s.drop_last(), test);
    }
}

/// The table of a report has the header as its first row and one row per
/// record behind it, and every row has nine fields.
pub proof fn law_csv_table_shape(project_name: Seq<char>, records: Seq<MatchRecord>)
    ensures
        csv_rows(project_name, records).len() == records.len() + 1,
        csv_rows(project_name, records)[0] == csv_header(),
        forall|i: int|
            0 <= i < csv_rows(project_name, records).len() ==> (#[trigger] csv_rows(
                project_name,
                records,
            )[i]).len() == 9,
        forall|i: int|
            1 <= i < csv_rows(project_name, records).len() ==> (#[trigger] csv_rows(
                project_name,
                records,
            )[i])[0] == project_name,
{
}

} // verus!

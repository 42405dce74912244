//! The summary of a scan: how many records there are in all, per category
//! and per function, and the text that shows these numbers.

use vstd::prelude::*;
use crate::analyzer::{mentions, WPHooksAnalyzer};
use crate::catalog::{Category, FunctionSpec};
use crate::decimal::{decimal, decimal_of};
use crate::grouping::{calls, distinct_functions, first_seen, function_names, in_category};
use crate::record::{records_of, MatchRecord, MatchResult};
use crate::text::{push_all, push_str, str_eq, string_of, texts_of};

verus! {

/// How many of the records are of `category`.
pub open spec fn count_in_category(records: Seq<MatchRecord>, category: Category) -> nat {
    records.filter(in_category(category.name())).len()
}

/// How many of the records are calls of `function`.
pub open spec fn count_of_function(records: Seq<MatchRecord>, function: Seq<char>) -> nat {
    records.filter(calls(function)).len()
}

/// The counts of the first `n` categories in their fixed order, without the
/// categories that have no record.
pub open spec fn category_counts_among(records: Seq<MatchRecord>, n: int) -> Seq<(Category, nat)>
    decreases n,
{
    if n <= 0 {
        Seq::empty()
    } else {
        let category = Category::of_rank(n - 1);
        let before = category_counts_among(records, n - 1);
        if count_in_category(records, category) > 0 {
            before.push((category, count_in_category(records, category)))
        } else {
            before
        }
    }
}

/// The counts of the categories that have a record, in the fixed order of
/// the categories.
pub open spec fn category_counts(records: Seq<MatchRecord>) -> Seq<(Category, nat)> {
    category_counts_among(records, 4)
}

/// The counts of the functions that have a record, in the order in which the
/// functions first appear.
pub open spec fn function_counts(records: Seq<MatchRecord>) -> Seq<(Seq<char>, nat)> {
    first_seen(function_names(records)).map_values(
        |function: Seq<char>| (function, count_of_function(records, function)),
    )
}

/// The number of records of one category.
#[derive(Clone, Copy, Debug, PartialEq, Eq, Structural)]
pub struct CategoryCount {
    pub category: Category,
    pub count: usize,
}

/// The number of records of one function.
#[derive(Clone, Debug, PartialEq, Eq)]
pub struct FunctionCount {
    pub function: String,
    pub count: usize,
}

/// The numbers of a scan.
#[derive(Clone, Debug, PartialEq, Eq)]
pub struct Summary {
    /// The number of records.
    pub total: usize,
    /// The categories that have a record, each with its count.
    pub categories: Vec<CategoryCount>,
    /// The functions that have a record, each with its count.
    pub functions: Vec<FunctionCount>,
}

/// The pairs that a vector of category counts stands for.
pub open spec fn category_pairs(counts: Seq<CategoryCount>) -> Seq<(Category, nat)> {
    counts.map_values(|c: CategoryCount| (c.category, c.count as nat))
}

/// The pairs that a vector of function counts stands for.
pub open spec fn function_pairs(counts: Seq<FunctionCount>) -> Seq<(Seq<char>, nat)> {
    counts.map_values(|c: FunctionCount| (c.function@, c.count as nat))
}

/// Computes `count_in_category`.
pub fn count_category(results: &[MatchResult], category: Category) -> (n: usize)
    ensures
        n == count_in_category(records_of(results@), category),
{
    let ghost all = records_of(results@);
    let ghost test = in_category(category.name());
    let mut n: usize = 0;
    let mut i: usize = 0;
    proof {
        reveal(Seq::filter);
        assert(all.take(0).filter(test) =~= Seq::<MatchRecord>::empty());
    }
    while i < results.len()
        invariant
            i <= results.len(),
            all == records_of(results@),
            test == in_category(category.name()),
            n == all.take(i as int).filter(test).len(),
            n <= i,
        decreases results.len() - i,
    {
        proof {
            assert(all.take(i + 1) =~= all.take(i as int).push(all[i as int]));
            all.take(i as int).lemma_filter_push(all[i as int], test);
        }
        if str_eq(results[i].category.as_str(), category.as_str()) {
            n += 1;
        }
        i += 1;
    }
    assert(all.take(results.len() as int) =~= all);
    n
}

/// Computes `count_of_function`.
pub fn count_function(results: &[MatchResult], function: &str) -> (n: usize)
    ensures
        n == count_of_function(records_of(results@), function@),
{
    let ghost all = records_of(results@);
    let ghost test = calls(function@);
    let mut n: usize = 0;
    let mut i: usize = 0;
    proof {
        reveal(Seq::filter);
        assert(all.take(0).filter(test) =~= Seq::<MatchRecord>::empty());
    }
    while i < results.len()
        invariant
            i <= results.len(),
            all == records_of(results@),
            test == calls(function@),
            n == all.take(i as int).filter(test).len(),
            n <= i,
        decreases results.len() - i,
    {
        proof {
            assert(all.take(i + 1) =~= all.take(i as int).push(all[i as int]));
            all.take(i as int).lemma_filter_push(all[i as int], test);
        }
        if str_eq(results[i].function.as_str(), function) {
            n += 1;
        }
        i += 1;
    }
    assert(all.take(results.len() as int) =~= all);
    n
}

/// Counts the records: in all, per category and per function.
pub fn summarize(results: &[MatchResult]) -> (summary: Summary)
    ensures
        summary.total == results.len(),
        category_pairs(summary.categories@) == category_counts(records_of(results@)),
        function_pairs(summary.functions@) == function_counts(records_of(results@)),
{
    let ghost records = records_of(results@);
    let order = Category::all();
    let mut categories: Vec<CategoryCount> = Vec::new();
    let mut i: usize = 0;
    assert(category_pairs(categories@) =~= category_counts_among(records, 0));
    while i < 4
        invariant
            i <= 4,
            records == records_of(results@),
            forall|k: int| 0 <= k < 4 ==> order@[k] == Category::of_rank(k),
            category_pairs(categories@) == category_counts_among(records, i as int),
        decreases 4 - i,
    {
        let category = order[i];
        let count: usize = count_category(results, category);
        if count > 0 {
            let entry = CategoryCount { category, count };
            assert(category_pairs(categories@.push(entry)) =~= category_pairs(categories@).push(
                (category, count as nat),
            ));
            categories.push(entry);
        }
        i += 1;
    }
    let names = distinct_functions(results);
    let ghost wanted = function_counts(records);
    let mut functions: Vec<FunctionCount> = Vec::new();
    let mut k: usize = 0;
    assert(function_pairs(functions@) =~= wanted.take(0));
    while k < names.len()
        invariant
            k <= names.len(),
            records == records_of(results@),
            wanted == function_counts(records),
            texts_of(names@) == first_seen(function_names(records)),
            function_pairs(functions@) == wanted.take(k as int),
        decreases names.len() - k,
    {
        assert(texts_of(names@)[k as int] == names[k as int]@);
        let count: usize = count_function(results, names[k].as_str());
        let entry = FunctionCount { function: names[k].clone(), count };
        proof {
            assert(function_pairs(functions@.push(entry)) =~= function_pairs(functions@).push(
                (entry.function@, count as nat),
            ));
            assert(wanted.take(k + 1) =~= wanted.take(k as int).push(wanted[k as int]));
        }
        functions.push(entry);
        k += 1;
    }
    assert(wanted.take(names.len() as int) =~= wanted);
    Summary { total: results.len(), categories, functions }
}

/// The line of one function in the block of a category.
pub open spec fn function_line(function: Seq<char>, count: nat) -> Seq<char> {
    "  - "@ + function + ": "@ + decimal(count) + "\n"@
}

/// The lines of the first `n` of `functions` in the block of `category`: one
/// line for each function that a pattern of the category mentions.
pub open spec fn function_lines(
    catalog: Seq<FunctionSpec>,
    category: Category,
    functions: Seq<(Seq<char>, nat)>,
    n: int,
) -> Seq<char>
    decreases n,
{
    if n <= 0 {
        Seq::empty()
    } else {
        let before = function_lines(catalog, category, functions, n - 1);
        if mentions(catalog, category, functions[n - 1].0) {
            before + function_line(functions[n - 1].0, functions[n - 1].1)
        } else {
            before
        }
    }
}

/// The block of one category: its title with its count, and the lines of its
/// functions.
pub open spec fn category_block(
    catalog: Seq<FunctionSpec>,
    category: Category,
    count: nat,
    functions: Seq<(Seq<char>, nat)>,
) -> Seq<char> {
    "\n"@ + category.title() + " ("@ + decimal(count) + " total):\n"@ + function_lines(
        catalog,
        category,
        functions,
        functions.len() as int,
    )
}

/// The blocks of the first `n` category counts.
pub open spec fn category_blocks(
    catalog: Seq<FunctionSpec>,
    categories: Seq<(Category, nat)>,
    functions: Seq<(Seq<char>, nat)>,
    n: int,
) -> Seq<char>
    decreases n,
{
    if n <= 0 {
        Seq::empty()
    } else {
        category_blocks(catalog, categories, functions, n - 1) + category_block(
            catalog,
            categories[n - 1].0,
            categories[n - 1].1,
            functions,
        )
    }
}

/// The text of a summary: the line of the total, which a bar chart sign
/// leads, then one block per category that has a record.
pub open spec fn summary_text(
    catalog: Seq<FunctionSpec>,
    total: nat,
    categories: Seq<(Category, nat)>,
    functions: Seq<(Seq<char>, nat)>,
) -> Seq<char> {
    "\n📊 Found "@ + decimal(total) + " total occurrences:\n"@ + category_blocks(
        catalog,
        categories,
        functions,
        categories.len() as int,
    )
}

impl WPHooksAnalyzer {
    /// Appends the block of one category to `out`.
    fn push_block(&self, out: &mut Vec<char>, entry: &CategoryCount, functions: &Vec<FunctionCount>)
        ensures
            final(out)@ == old(out)@ + category_block(
                self@,
                entry.category,
                entry.count as nat,
                function_pairs(functions@),
            ),
    {
        let ghost before = out@;
        let ghost pairs = function_pairs(functions@);
        push_str(out, "\n");
        push_str(out, entry.category.title_str());
        push_str(out, " (");
        let count = decimal_of(entry.count);
        push_all(out, &count);
        push_str(out, " total):\n");
        let ghost head = out@;
        let mut i: usize = 0;
        assert(out@ =~= head + function_lines(self@, entry.category, pairs, 0));
        while i < functions.len()
            invariant
                i <= functions.len(),
                pairs == function_pairs(functions@),
                out@ == head + function_lines(self@, entry.category, pairs, i as int),
            decreases functions.len() - i,
        {
            assert(pairs[i as int] == (functions[i as int].function@, functions[i as int].count as nat));
            if self.category_mentions(entry.category, functions[i].function.as_str()) {
                let ghost sofar = out@;
                push_str(out, "  - ");
                push_str(out, functions[i].function.as_str());
                push_str(out, ": ");
                let n = decimal_of(functions[i].count);
                push_all(out, &n);
                push_str(out, "\n");
                assert(out@ =~= sofar + function_line(pairs[i as int].0, pairs[i as int].1));
                assert(out@ =~= head + function_lines(self@, entry.category, pairs, i + 1));
            }
            i += 1;
        }
        proof {
            assert(head =~= before + "\n"@ + entry.category.title() + " ("@ + decimal(
                entry.count as nat,
            ) + " total):\n"@);
            assert(out@ =~= before + category_block(
                self@,
                entry.category,
                entry.count as nat,
                pairs,
            ));
        }
    }

    /// Renders the text of a summary.
    pub fn render_summary(&self, summary: &Summary) -> (text: String)
        ensures
            text@ == summary_text(
                self@,
                summary.total as nat,
                category_pairs(summary.categories@),
                function_pairs(summary.functions@),
            ),
    {
        let ghost categories = category_pairs(summary.categories@);
        let ghost functions = function_pairs(summary.functions@);
        let mut out: Vec<char> = Vec::new();
        push_str(&mut out, "\n📊 Found ");
        let total = decimal_of(summary.total);
        push_all(&mut out, &total);
        push_str(&mut out, " total occurrences:\n");
        let ghost head = out@;
        let mut i: usize = 0;
        assert(out@ =~= head + category_blocks(self@, categories, functions, 0));
        while i < summary.categories.len()
            invariant
                i <= summary.categories.len(),
                categories == category_pairs(summary.categories@),
                functions == function_pairs(summary.functions@),
                out@ == head + category_blocks(self@, categories, functions, i as int),
            decreases summary.categories.len() - i,
        {
            assert(categories[i as int] == (
                summary.categories[i as int].category,
                summary.categories[i as int].count as nat,
            ));
            self.push_block(&mut out, &summary.categories[i], &summary.functions);
            assert(out@ =~= head + category_blocks(self@, categories, functions, i + 1));
            i += 1;
        }
        proof {
            assert(head =~= "\n📊 Found "@ + decimal(summary.total as nat) + " total occurrences:\n"@);
        }
        string_of(&out)
    }
}

} // verus!

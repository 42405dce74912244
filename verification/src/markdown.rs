//! The Markdown report: a title, then one section per category that has
//! records, and in each section one group per function.

use vstd::prelude::*;
use crate::analyzer::WPHooksAnalyzer;
use crate::catalog::{label_of, Category, FunctionSpec};
use crate::decimal::{decimal, decimal_of};
use crate::grouping::{
    calls, distinct_functions, filter_by_category, first_seen, function_names, in_category,
};
use crate::record::{no_hook_name, records_of, MatchRecord, MatchResult};
use crate::text::{push_all, push_str, str_eq, string_of, texts_of};

verus! {

/// The entry of one record: where it was found, the hook name unless it is
/// `N/A`, and the highlighted line.
pub open spec fn item_text(r: MatchRecord) -> Seq<char> {
    "- **File:** "@ + r.file_path + ":"@ + decimal(r.line_number) + "\n"@ + (if r.hook_name
        != no_hook_name() {
        "  - **Hook:** "@ + r.hook_name + "\n"@
    } else {
        Seq::empty()
    }) + "  - **Line:** "@ + r.highlighted_line + "\n\n"@
}

/// The entries of the records, one after the other.
pub open spec fn items_text(records: Seq<MatchRecord>) -> Seq<char>
    decreases records.len(),
{
    if records.len() == 0 {
        Seq::empty()
    } else {
        items_text(records.drop_last()) + item_text(records.last())
    }
}

/// The heading of the group of `function`: its label, or its name where the
/// catalog has no label for it.
pub open spec fn heading_of(catalog: Seq<FunctionSpec>, function: Seq<char>) -> Seq<char> {
    match label_of(catalog, function) {
        Some(label) => label,
        None => function,
    }
}

/// The group of `function`: its heading and the entries of its calls among
/// `records`.
pub open spec fn group_text(
    catalog: Seq<FunctionSpec>,
    records: Seq<MatchRecord>,
    function: Seq<char>,
) -> Seq<char> {
    "#### "@ + heading_of(catalog, function) + "\n\n"@ + items_text(
        records.filter(calls(function)),
    )
}

/// The groups of `functions`, one after the other.
pub open spec fn groups_text(
    catalog: Seq<FunctionSpec>,
    records: Seq<MatchRecord>,
    functions: Seq<Seq<char>>,
) -> Seq<char>
    decreases functions.len(),
{
    if functions.len() == 0 {
        Seq::empty()
    } else {
        groups_text(catalog, records, functions.drop_last()) + group_text(
            catalog,
            records,
            functions.last(),
        )
    }
}

/// The section of `category`: nothing when no record is of the category, else
/// its title and one group per function, in the order in which the functions
/// first appear among the records of the category.
pub open spec fn section_text(
    catalog: Seq<FunctionSpec>,
    records: Seq<MatchRecord>,
    category: Category,
) -> Seq<char> {
    let chosen = records.filter(in_category(category.name()));
    if chosen.len() == 0 {
        Seq::empty()
    } else {
        "\n### "@ + category.title() + "\n\n"@ + groups_text(
            catalog,
            chosen,
            first_seen(function_names(chosen)),
        )
    }
}

/// The sections of the first `n` categories in their fixed order.
pub open spec fn sections_text(catalog: Seq<FunctionSpec>, records: Seq<MatchRecord>, n: int) -> Seq<
    char,
>
    decreases n,
{
    if n <= 0 {
        Seq::empty()
    } else {
        sections_text(catalog, records, n - 1) + section_text(
            catalog,
            records,
            Category::of_rank(n - 1),
        )
    }
}

/// The whole report: the project name as title, the fixed subtitle, and the
/// sections of the four categories.
pub open spec fn markdown_text(
    catalog: Seq<FunctionSpec>,
    records: Seq<MatchRecord>,
    project_name: Seq<char>,
) -> Seq<char> {
    "# "@ + project_name + "\n\n"@ + "## WordPress Hooks Analysis\n\n"@ + sections_text(
        catalog,
        records,
        4,
    )
}

/// Appends the entry of `r` to `out`.
fn push_item(out: &mut Vec<char>, r: &MatchResult)
    ensures
        final(out)@ == old(out)@ + item_text(r@),
{
    let ghost before = out@;
    push_str(out, "- **File:** ");
    push_str(out, r.file_path.as_str());
    push_str(out, ":");
    let number = decimal_of(r.line_number);
    push_all(out, &number);
    push_str(out, "\n");
    if !str_eq(r.hook_name.as_str(), "N/A") {
        push_str(out, "  - **Hook:** ");
        push_str(out, r.hook_name.as_str());
        push_str(out, "\n");
    }
    push_str(out, "  - **Line:** ");
    push_str(out, r.highlighted_line.as_str());
    push_str(out, "\n\n");
    assert(out@ =~= before + item_text(r@));
}

impl WPHooksAnalyzer {
    /// Appends the group of `function` among `results` to `out`.
    fn push_group(&self, out: &mut Vec<char>, results: &[MatchResult], function: &str)
        ensures
            final(out)@ == old(out)@ + group_text(self@, records_of(results@), function@),
    {
        let ghost before = out@;
        let ghost all = records_of(results@);
        let ghost test = calls(function@);
        push_str(out, "#### ");
        match self.label_for(function) {
            Some(label) => {
                push_str(out, label.as_str());
            },
            None => {
                push_str(out, function);
            },
        }
        push_str(out, "\n\n");
        let ghost head = out@;
        assert(head =~= before + "#### "@ + heading_of(self@, function@) + "\n\n"@);
        let mut i: usize = 0;
        proof {
            reveal(Seq::filter);
            assert(all.take(0).filter(test) =~= Seq::<MatchRecord>::empty());
            assert(out@ =~= head + items_text(all.take(0).filter(test)));
        }
        while i < results.len()
            invariant
                i <= results.len(),
                all == records_of(results@),
                test == calls(function@),
                out@ == head + items_text(all.take(i as int).filter(test)),
            decreases results.len() - i,
        {
            proof {
                assert(all.take(i + 1) =~= all.take(i as int).push(all[i as int]));
                all.take(i as int).lemma_filter_push(all[i as int], test);
            }
            if str_eq(results[i].function.as_str(), function) {
                let ghost sofar = all.take(i as int).filter(test);
                push_item(out, &results[i]);
                proof {
                    let next = sofar.push(all[i as int]);
                    assert(next.drop_last() =~= sofar);
                    assert(items_text(next) == items_text(sofar) + item_text(all[i as int]));
                    assert(out@ =~= head + items_text(next));
                }
            }
            i += 1;
        }
        proof {
            assert(all.take(results.len() as int) =~= all);
            assert(out@ =~= before + group_text(self@, all, function@));
        }
    }

    /// Appends the section of `category` among `results` to `out`.
    fn push_section(&self, out: &mut Vec<char>, results: &[MatchResult], category: Category)
        ensures
            final(out)@ == old(out)@ + section_text(self@, records_of(results@), category),
    {
        let ghost before = out@;
        let chosen = filter_by_category(results, category);
        if chosen.len() == 0 {
            assert(out@ =~= before + section_text(self@, records_of(results@), category));
            return ;
        }
        let functions = distinct_functions(chosen.as_slice());
        push_str(out, "\n### ");
        push_str(out, category.title_str());
        push_str(out, "\n\n");
        let ghost head = out@;
        let ghost records = records_of(chosen@);
        let ghost names = texts_of(functions@);
        let mut i: usize = 0;
        assert(out@ =~= head + groups_text(self@, records, names.take(0)));
        while i < functions.len()
            invariant
                i <= functions.len(),
                records == records_of(chosen@),
                names == texts_of(functions@),
                out@ == head + groups_text(self@, records, names.take(i as int)),
            decreases functions.len() - i,
        {
            proof {
                assert(names.take(i + 1).drop_last() =~= names.take(i as int));
                assert(names.take(i + 1).last() == functions[i as int]@);
            }
            self.push_group(out, chosen.as_slice(), functions[i].as_str());
            assert(out@ =~= head + groups_text(self@, records, names.take(i + 1)));
            i += 1;
        }
        proof {
            assert(names.take(functions.len() as int) =~= names);
            assert(head =~= before + "\n### "@ + category.title() + "\n\n"@);
            assert(out@ =~= before + section_text(self@, records_of(results@), category));
        }
    }

    /// Renders the Markdown report of `results` under the title
    /// `project_name`.
    pub fn export_markdown(&self, results: &[MatchResult], project_name: &str) -> (report: String)
        ensures
            report@ == markdown_text(self@, records_of(results@), project_name@),
    {
        let mut out: Vec<char> = Vec::new();
        push_str(&mut out, "# ");
        push_str(&mut out, project_name);
        push_str(&mut out, "\n\n");
        push_str(&mut out, "## WordPress Hooks Analysis\n\n");
        let ghost head = out@;
        let ghost records = records_of(results@);
        let categories = Category::all();
        let mut i: usize = 0;
        assert(out@ =~= head + sections_text(self@, records, 0));
        while i < 4
            invariant
                i <= 4,
                records == records_of(results@),
                forall|k: int| 0 <= k < 4 ==> categories@[k] == Category::of_rank(k),
                out@ == head + sections_text(self@, records, i as int),
            decreases 4 - i,
        {
            self.push_section(&mut out, results, categories[i]);
            assert(out@ =~= head + sections_text(self@, records, i + 1));
            i += 1;
        }
        proof {
            assert(head =~= "# "@ + project_name@ + "\n\n"@ + "## WordPress Hooks Analysis\n\n"@);
            assert(out@ =~= markdown_text(self@, records, project_name@));
        }
        string_of(&out)
    }
}

} // verus!

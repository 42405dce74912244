//! Selecting and grouping records: by category, and by function name in the
//! order in which the names first appear.

use vstd::prelude::*;
use crate::catalog::Category;
use crate::record::{records_of, MatchRecord, MatchResult};
use crate::text::{str_eq, texts_of};

verus! {

/// The test "is of the category named `category`".
pub open spec fn in_category(category: Seq<char>) -> spec_fn(MatchRecord) -> bool {
    |r: MatchRecord| r.category == category
}

/// The test "is a call of `function`".
pub open spec fn calls(function: Seq<char>) -> spec_fn(MatchRecord) -> bool {
    |r: MatchRecord| r.function == function
}

/// The function names of the records, one per record.
pub open spec fn function_names(records: Seq<MatchRecord>) -> Seq<Seq<char>> {
    records.map_values(|r: MatchRecord| r.function)
}

/// The distinct members of `names`, each at the place of its first
/// appearance.
pub open spec fn first_seen(names: Seq<Seq<char>>) -> Seq<Seq<char>>
    decreases names.len(),
{
    if names.len() == 0 {
        Seq::empty()
    } else {
        let before = first_seen(names.drop_last());
        if before.contains(names.last()) {
            before
        } else {
            before.push(names.last())
        }
    }
}

/// The records of one category, in their order.
pub fn filter_by_category(results: &[MatchResult], category: Category) -> (kept: Vec<
    MatchResult,
>)
    ensures
        records_of(kept@) == records_of(results@).filter(in_category(category.name())),
{
    let ghost all = records_of(results@);
    let ghost test = in_category(category.name());
    let mut kept: Vec<MatchResult> = Vec::new();
    let mut i: usize = 0;
    proof {
        reveal(Seq::filter);
        assert(all.take(0).filter(test) =~= Seq::<MatchRecord>::empty());
        assert(records_of(kept@) =~= Seq::<MatchRecord>::empty());
    }
    while i < results.len()
        invariant
            i <= results.len(),
            all == records_of(results@),
            test == in_category(category.name()),
            records_of(kept@) == all.take(i as int).filter(test),
        decreases results.len() - i,
    {
        proof {
            assert(all.take(i + 1) =~= all.take(i as int).push(all[i as int]));
            all.take(i as int).lemma_filter_push(all[i as int], test);
        }
        if str_eq(results[i].category.as_str(), category.as_str()) {
            let copy = results[i].duplicate();
            proof {
                assert(records_of(kept@.push(copy)) =~= records_of(kept@).push(copy@));
            }
            kept.push(copy);
        }
        i += 1;
    }
    assert(all.take(results.len() as int) =~= all);
    kept
}

/// Whether `names` holds a string with the text of `name`.
fn holds_name(names: &Vec<String>, name: &str) -> (r: bool)
    ensures
        r == texts_of(names@).contains(name@),
{
    let mut i: usize = 0;
    while i < names.len()
        invariant
            i <= names.len(),
            forall|j: int| 0 <= j < i ==> texts_of(names@)[j] != name@,
        decreases names.len() - i,
    {
        if str_eq(names[i].as_str(), name) {
            assert(texts_of(names@)[i as int] == name@);
            return true;
        }
        i += 1;
    }
    false
}

/// The distinct function names of the records, in the order of their first
/// appearance.
pub fn distinct_functions(results: &[MatchResult]) -> (names: Vec<String>)
    ensures
        texts_of(names@) == first_seen(function_names(records_of(results@))),
{
    let ghost all = function_names(records_of(results@));
    let mut names: Vec<String> = Vec::new();
    let mut i: usize = 0;
    proof {
        assert(texts_of(names@) =~= first_seen(all.take(0)));
    }
    while i < results.len()
        invariant
            i <= results.len(),
            all == function_names(records_of(results@)),
            texts_of(names@) == first_seen(all.take(i as int)),
        decreases results.len() - i,
    {
        proof {
            assert(all.take(i + 1).drop_last() =~= all.take(i as int));
            assert(all.take(i + 1).last() == results[i as int].function@);
        }
        if !holds_name(&names, results[i].function.as_str()) {
            let name = results[i].function.clone();
            proof {
                assert(texts_of(names@.push(name)) =~= texts_of(names@).push(name@));
            }
            names.push(name);
        }
        i += 1;
    }
    assert(all.take(results.len() as int) =~= all);
    names
}

} // verus!

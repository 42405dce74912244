//! The scan of a directory listing: which entries count as source files, and
//! how the records of the files make up the result.

use vstd::prelude::*;
use crate::analyzer::{file_records, WPHooksAnalyzer};
use crate::catalog::FunctionSpec;
use crate::record::{all_stand_in_line, records_of, MatchRecord, MatchResult};
use crate::search::slice_of;
use crate::text::{chars_of, same_text};

verus! {

/// The position of the last `c` in `s`, or -1 when `s` holds no `c`.
pub open spec fn last_index_of(s: Seq<char>, c: char) -> int
    decreases s.len(),
{
    if s.len() == 0 {
        -1
    } else if s.last() == c {
        s.len() - 1
    } else {
        last_index_of(s.drop_last(), c)
    }
}

/// The last component of a path whose components are separated by `/`.
pub open spec fn file_name_of(path: Seq<char>) -> Seq<char> {
    path.skip(last_index_of(path, '/') + 1)
}

/// The extension of a path: what follows the last dot of the file name,
/// provided that the file name has a dot that is not its first character.
pub open spec fn extension_of(path: Seq<char>) -> Option<Seq<char>> {
    let name = file_name_of(path);
    let dot = last_index_of(name, '.');
    if dot <= 0 {
        None
    } else {
        Some(name.skip(dot + 1))
    }
}

/// The extension of the files that are scanned.
pub open spec fn source_extension() -> Seq<char> {
    "php"@
}

/// Whether the path names a file that is scanned.
pub open spec fn is_source_path(path: Seq<char>) -> bool {
    extension_of(path) == Some(source_extension())
}

/// What `last_index_of` yields: a position of `c` behind which no `c`
/// stands, or -1 when there is no `c`.
pub proof fn lemma_last_index_of(s: Seq<char>, c: char)
    ensures
        -1 <= last_index_of(s, c) < s.len(),
        last_index_of(s, c) >= 0 ==> s[last_index_of(s, c)] == c,
        forall|j: int| last_index_of(s, c) < j < s.len() ==> s[j] != c,
    decreases s.len(),
{
    if s.len() > 0 && s.last() != c {
        lemma_last_index_of(s.drop_last(), c);
        let k = last_index_of(s, c);
        if k >= 0 {
            assert(s[k] == s.drop_last()[k]);
        }
        assert forall|j: int| k < j < s.len() implies s[j] != c by {
            if j < s.len() - 1 {
                assert(s[j] == s.drop_last()[j]);
            }
        }
    }
}

/// A position that has what `lemma_last_index_of` states is `last_index_of`.
pub proof fn lemma_last_index_unique(s: Seq<char>, c: char, k: int)
    requires
        -1 <= k < s.len(),
        k >= 0 ==> s[k] == c,
        forall|j: int| k < j < s.len() ==> s[j] != c,
    ensures
        last_index_of(s, c) == k,
{
    lemma_last_index_of(s, c);
    let l = last_index_of(s, c);
    if l < k {
        assert(s[k] == c);
    } else if k < l {
        assert(s[l] == c);
    }
}

/// The number of characters of `s` up to and including its last `c`: 0 when
/// `s` holds no `c`.
fn after_last(s: &Vec<char>, c: char) -> (n: usize)
    ensures
        n == last_index_of(s@, c) + 1,
        n <= s.len(),
{
    let mut n: usize = s.len();
    while n > 0 && s[n - 1] != c
        invariant
            n <= s.len(),
            forall|j: int| n <= j < s.len() ==> s@[j] != c,
        decreases n,
    {
        n -= 1;
    }
    proof {
        lemma_last_index_unique(s@, c, n - 1);
    }
    n
}

/// Computes `is_source_path`.
pub fn is_source_file(path: &str) -> (r: bool)
    ensures
        r == is_source_path(path@),
{
    let p = chars_of(path);
    let start: usize = after_last(&p, '/');
    let name = slice_of(&p, start, p.len());
    assert(name@ =~= file_name_of(path@));
    let after_dot: usize = after_last(&name, '.');
    if after_dot <= 1 {
        return false;
    }
    let extension = slice_of(&name, after_dot, name.len());
    assert(extension@ =~= name@.skip(after_dot as int));
    let wanted = chars_of("php");
    same_text(&extension, &wanted)
}

/// An entry of a directory listing, as a mathematical value.
pub struct SourceSpec {
    pub path: Seq<char>,
    pub content: Option<Seq<char>>,
}

/// An entry of a directory listing: the path, and the text of the file where
/// it could be read as text.
#[derive(Clone, Debug, PartialEq, Eq)]
pub struct SourceFile {
    pub path: String,
    pub content: Option<String>,
}

impl View for SourceFile {
    type V = SourceSpec;

    open spec fn view(&self) -> SourceSpec {
        SourceSpec {
            path: self.path@,
            content: match self.content {
                Some(text) => Some(text@),
                None => None,
            },
        }
    }
}

/// The views of a listing.
pub open spec fn sources_of(files: Seq<SourceFile>) -> Seq<SourceSpec> {
    files.map_values(|f: SourceFile| f@)
}

/// The records of one entry: those of its text if it is a source file that
/// could be read, none otherwise.
pub open spec fn source_records(catalog: Seq<FunctionSpec>, file: SourceSpec) -> Seq<MatchRecord> {
    match file.content {
        Some(text) => if is_source_path(file.path) {
            file_records(catalog, file.path, text)
        } else {
            Seq::empty()
        },
        None => Seq::empty(),
    }
}

/// The records of the first `n` entries of a listing, entry after entry.
pub open spec fn listing_records_among(
    catalog: Seq<FunctionSpec>,
    files: Seq<SourceSpec>,
    n: int,
) -> Seq<MatchRecord>
    decreases n,
{
    if n <= 0 {
        Seq::empty()
    } else {
        listing_records_among(catalog, files, n - 1) + source_records(catalog, files[n - 1])
    }
}

/// The records of a listing.
pub open spec fn listing_records(catalog: Seq<FunctionSpec>, files: Seq<SourceSpec>) -> Seq<
    MatchRecord,
> {
    listing_records_among(catalog, files, files.len() as int)
}

impl WPHooksAnalyzer {
    /// Scans one entry of a listing. An entry that is no source file, or
    /// that could not be read, yields no record.
    pub fn scan_source(&self, file: &SourceFile) -> (found: Vec<MatchResult>)
        ensures
            records_of(found@) == source_records(self@, file@),
            all_stand_in_line(records_of(found@)),
    {
        match &file.content {
            Some(text) => {
                if is_source_file(file.path.as_str()) {
                    self.find_matches(file.path.as_str(), text.as_str())
                } else {
                    let found: Vec<MatchResult> = Vec::new();
                    assert(records_of(found@) =~= Seq::<MatchRecord>::empty());
                    found
                }
            },
            None => {
                let found: Vec<MatchResult> = Vec::new();
                assert(records_of(found@) =~= Seq::<MatchRecord>::empty());
                found
            },
        }
    }

    /// Scans what was found under a directory: the records of every source
    /// file that could be read, in the order of the listing. An entry that
    /// could not be read is passed over.
    pub fn scan_directory(&self, files: &[SourceFile]) -> (found: Vec<MatchResult>)
        ensures
            records_of(found@) == listing_records(self@, sources_of(files@)),
            all_stand_in_line(records_of(found@)),
    {
        let ghost listing = sources_of(files@);
        let mut found: Vec<MatchResult> = Vec::new();
        let mut i: usize = 0;
        assert(records_of(found@) =~= Seq::<MatchRecord>::empty());
        while i < files.len()
            invariant
                i <= files.len(),
                listing == sources_of(files@),
                records_of(found@) == listing_records_among(self@, listing, i as int),
                all_stand_in_line(records_of(found@)),
            decreases files.len() - i,
        {
            let mut of_file = self.scan_source(&files[i]);
            let ghost before = found@;
            let ghost added = of_file@;
            found.append(&mut of_file);
            assert(records_of(before + added) =~= records_of(before) + records_of(added));
            i += 1;
        }
        found
    }
}

} // verus!

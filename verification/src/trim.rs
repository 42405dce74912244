//! Trimming: removing the characters of one class from both ends of a text.

use vstd::prelude::*;
use crate::search::slice_of;

verus! {

/// The code points with the Unicode property `White_Space`.
pub open spec fn is_space(c: char) -> bool {
    let u = c as u32;
    ||| 0x09 <= u <= 0x0D
    ||| u == 0x20
    ||| u == 0x85
    ||| u == 0xA0
    ||| u == 0x1680
    ||| 0x2000 <= u <= 0x200A
    ||| u == 0x2028
    ||| u == 0x2029
    ||| u == 0x202F
    ||| u == 0x205F
    ||| u == 0x3000
}

/// The two characters that delimit a string literal.
pub open spec fn is_quote(c: char) -> bool {
    c == '\'' || c == '"'
}

/// A class of characters that can be trimmed away.
#[derive(Clone, Copy, Debug)]
pub enum CharClass {
    /// Unicode white space.
    Whitespace,
    /// The single and the double quote.
    Quote,
}

impl CharClass {
    /// Whether `c` belongs to the class.
    pub open spec fn holds(self, c: char) -> bool {
        match self {
            CharClass::Whitespace => is_space(c),
            CharClass::Quote => is_quote(c),
        }
    }

    /// Computes `holds`.
    pub fn contains(&self, c: char) -> (r: bool)
        ensures
            r == self.holds(c),
    {
        match self {
            CharClass::Whitespace => {
                let u: u32 = c as u32;
                (0x09 <= u && u <= 0x0D) || u == 0x20 || u == 0x85 || u == 0xA0 || u == 0x1680 || (
                0x2000 <= u && u <= 0x200A) || u == 0x2028 || u == 0x2029 || u == 0x202F || u
                    == 0x205F || u == 0x3000
            },
            CharClass::Quote => c == '\'' || c == '"',
        }
    }
}

/// How many characters at the start of `s` belong to `class`.
pub open spec fn leading_count(s: Seq<char>, class: CharClass) -> int
    decreases s.len(),
{
    if s.len() > 0 && class.holds(s[0]) {
        1 + leading_count(s.drop_first(), class)
    } else {
        0
    }
}

/// How many characters at the end of `s` belong to `class`.
pub open spec fn trailing_count(s: Seq<char>, class: CharClass) -> int
    decreases s.len(),
{
    if s.len() > 0 && class.holds(s.last()) {
        1 + trailing_count(s.drop_last(), class)
    } else {
        0
    }
}

/// `s` without the characters of `class` at its start.
pub open spec fn strip_leading(s: Seq<char>, class: CharClass) -> Seq<char> {
    s.skip(leading_count(s, class))
}

/// `s` without the characters of `class` at its end.
pub open spec fn strip_trailing(s: Seq<char>, class: CharClass) -> Seq<char> {
    s.take(s.len() - trailing_count(s, class))
}

/// `s` without the characters of `class` at either end.
pub open spec fn trimmed(s: Seq<char>, class: CharClass) -> Seq<char> {
    strip_trailing(strip_leading(s, class), class)
}

/// `s` neither starts nor ends with a character of `class`.
pub open spec fn is_trimmed(s: Seq<char>, class: CharClass) -> bool {
    s.len() > 0 ==> !class.holds(s[0]) && !class.holds(s.last())
}

/// `leading_count` counts a run: it stays inside `s`, every character before
/// it is of the class, and the character at it, if any, is not.
pub proof fn lemma_leading_count(s: Seq<char>, class: CharClass)
    ensures
        0 <= leading_count(s, class) <= s.len(),
        forall|j: int| 0 <= j < leading_count(s, class) ==> class.holds(s[j]),
        leading_count(s, class) < s.len() ==> !class.holds(s[leading_count(s, class)]),
    decreases s.len(),
{
    if s.len() > 0 && class.holds(s[0]) {
        let t = s.drop_first();
        lemma_leading_count(t, class);
        let n = leading_count(s, class);
        assert forall|j: int| 0 <= j < n implies class.holds(s[j]) by {
            if j > 0 {
                assert(s[j] == t[j - 1]);
            }
        }
        if n < s.len() {
            assert(s[n] == t[n - 1]);
        }
    }
}

/// A run of `n` class characters at the start of `s`, ended by the end of `s`
/// or by another character, is the run that `leading_count` counts.
pub proof fn lemma_leading_count_is(s: Seq<char>, class: CharClass, n: int)
    requires
        0 <= n <= s.len(),
        forall|j: int| 0 <= j < n ==> class.holds(s[j]),
        n < s.len() ==> !class.holds(s[n]),
    ensures
        leading_count(s, class) == n,
{
    lemma_leading_count(s, class);
    let m = leading_count(s, class);
    if m < n {
        assert(class.holds(s[m]));
    } else if n < m {
        assert(class.holds(s[n]));
    }
}

/// The mirror image of `lemma_leading_count`.
pub proof fn lemma_trailing_count(s: Seq<char>, class: CharClass)
    ensures
        0 <= trailing_count(s, class) <= s.len(),
        forall|j: int| s.len() - trailing_count(s, class) <= j < s.len() ==> class.holds(s[j]),
        trailing_count(s, class) < s.len() ==> !class.holds(
            s[s.len() - trailing_count(s, class) - 1],
        ),
    decreases s.len(),
{
    if s.len() > 0 && class.holds(s.last()) {
        let t = s.drop_last();
        lemma_trailing_count(t, class);
        let n = trailing_count(s, class);
        assert forall|j: int| s.len() - n <= j < s.len() implies class.holds(s[j]) by {
            if j < s.len() - 1 {
                assert(s[j] == t[j]);
            }
        }
        if n < s.len() {
            assert(s[s.len() - n - 1] == t[t.len() - (n - 1) - 1]);
        }
    }
}

/// The mirror image of `lemma_leading_count_is`.
pub proof fn lemma_trailing_count_is(s: Seq<char>, class: CharClass, n: int)
    requires
        0 <= n <= s.len(),
        forall|j: int| s.len() - n <= j < s.len() ==> class.holds(s[j]),
        n < s.len() ==> !class.holds(s[s.len() - n - 1]),
    ensures
        trailing_count(s, class) == n,
{
    lemma_trailing_count(s, class);
    let m = trailing_count(s, class);
    if m < n {
        assert(class.holds(s[s.len() - m - 1]));
    } else if n < m {
        assert(class.holds(s[s.len() - n - 1]));
    }
}

/// A trimmed text has no character of the class at either end.
pub proof fn lemma_trimmed_is_trimmed(s: Seq<char>, class: CharClass)
    ensures
        is_trimmed(trimmed(s, class), class),
{
    let a = strip_leading(s, class);
    lemma_leading_count(s, class);
    lemma_trailing_count(a, class);
    let r = trimmed(s, class);
    if r.len() > 0 {
        assert(r[0] == a[0]);
        assert(a[0] == s[leading_count(s, class)]);
        assert(r.last() == a[a.len() - trailing_count(a, class) - 1]);
    }
}

/// Computes `trimmed`.
pub fn trim(s: &Vec<char>, class: CharClass) -> (r: Vec<char>)
    ensures
        r@ == trimmed(s@, class),
{
    let mut start: usize = 0;
    while start < s.len() && class.contains(s[start])
        invariant
            start <= s.len(),
            forall|j: int| 0 <= j < start ==> class.holds(s@[j]),
        decreases s.len() - start,
    {
        start += 1;
    }
    let mut end: usize = s.len();
    while end > start && class.contains(s[end - 1])
        invariant
            start <= end <= s.len(),
            forall|j: int| end <= j < s.len() ==> class.holds(s@[j]),
        decreases end,
    {
        end -= 1;
    }
    proof {
        lemma_leading_count_is(s@, class, start as int);
        let a = strip_leading(s@, class);
        assert forall|j: int| a.len() - (s.len() - end) <= j < a.len() implies class.holds(
            a[j],
        ) by {
            assert(a[j] == s@[j + start]);
        }
        if s.len() - end < a.len() {
            assert(a[a.len() - (s.len() - end) - 1] == s@[end - 1]);
        }
        lemma_trailing_count_is(a, class, s.len() - end);
        assert(trimmed(s@, class) =~= s@.subrange(start as int, end as int));
    }
    slice_of(s, start, end)
}

} // verus!

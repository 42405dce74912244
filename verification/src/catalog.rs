//! The pattern catalog: the four categories, the functions that each one
//! detects, the label of each function, and the regular expression that
//! detects a call of it.

use vstd::prelude::*;
use vstd::string::StringExecFns;

verus! {

/// The classification of a detected call.
#[derive(Clone, Copy, Debug, PartialEq, Eq, Structural)]
pub enum Category {
    Action,
    Filter,
    Shortcode,
    Hook,
}

impl Category {
    /// The lower-case name under which the category appears in a record.
    pub open spec fn name(self) -> Seq<char> {
        match self {
            Category::Action => "action"@,
            Category::Filter => "filter"@,
            Category::Shortcode => "shortcode"@,
            Category::Hook => "hook"@,
        }
    }

    /// The capitalised plural under which the category heads a section.
    pub open spec fn title(self) -> Seq<char> {
        match self {
            Category::Action => "Actions"@,
            Category::Filter => "Filters"@,
            Category::Shortcode => "Shortcodes"@,
            Category::Hook => "Hooks"@,
        }
    }

    /// The position of the category in the fixed order of reports.
    pub open spec fn rank(self) -> int {
        match self {
            Category::Action => 0,
            Category::Filter => 1,
            Category::Shortcode => 2,
            Category::Hook => 3,
        }
    }

    /// Computes `name`.
    pub fn as_str(&self) -> (s: &'static str)
        ensures
            s@ == self.name(),
    {
        match self {
            Category::Action => "action",
            Category::Filter => "filter",
            Category::Shortcode => "shortcode",
            Category::Hook => "hook",
        }
    }

    /// Computes `title`.
    pub fn title_str(&self) -> (s: &'static str)
        ensures
            s@ == self.title(),
    {
        match self {
            Category::Action => "Actions",
            Category::Filter => "Filters",
            Category::Shortcode => "Shortcodes",
            Category::Hook => "Hooks",
        }
    }

    /// The category with the given rank.
    pub open spec fn of_rank(rank: int) -> Category {
        if rank == 0 {
            Category::Action
        } else if rank == 1 {
            Category::Filter
        } else if rank == 2 {
            Category::Shortcode
        } else {
            Category::Hook
        }
    }

    /// The four categories in the fixed order of reports.
    pub fn all() -> (cs: [Category; 4])
        ensures
            forall|i: int| 0 <= i < 4 ==> cs@[i] == Category::of_rank(i),
            forall|c: Category| cs@[c.rank()] == c,
    {
        [Category::Action, Category::Filter, Category::Shortcode, Category::Hook]
    }
}

/// The regular expression for a quoted literal: a single or double quote,
/// one or more word characters or hyphens, and a quote again.
pub open spec fn quoted_literal() -> Seq<char> {
    "['\"][\\w-]+['\"]"@
}

/// The regular expression for the opening parenthesis of a call.
pub open spec fn open_paren() -> Seq<char> {
    "\\("@
}

/// The regular expression that detects a call of `function`: the name, the
/// opening parenthesis and, where one is required, a quoted literal right
/// behind it.
pub open spec fn pattern_source(function: Seq<char>, literal_required: bool) -> Seq<char> {
    if literal_required {
        function + open_paren() + quoted_literal()
    } else {
        function + open_paren()
    }
}

/// One function that the catalog knows, as a mathematical value.
pub struct FunctionSpec {
    pub category: Category,
    pub name: Seq<char>,
    pub literal_required: bool,
    pub label: Seq<char>,
}

impl FunctionSpec {
    /// The regular expression that detects a call of this function.
    pub open spec fn pattern(self) -> Seq<char> {
        pattern_source(self.name, self.literal_required)
    }
}

/// One function that the catalog knows.
#[derive(Clone, Debug, PartialEq, Eq)]
pub struct KnownFunction {
    /// The category of its calls.
    pub category: Category,
    /// Its name.
    pub name: String,
    /// Whether a call is detected only with a quoted literal right behind
    /// the opening parenthesis.
    pub literal_required: bool,
    /// Its label in reports.
    pub label: String,
}

impl View for KnownFunction {
    type V = FunctionSpec;

    open spec fn view(&self) -> FunctionSpec {
        FunctionSpec {
            category: self.category,
            name: self.name@,
            literal_required: self.literal_required,
            label: self.label@,
        }
    }
}

impl KnownFunction {
    /// An entry for the function `name`.
    pub fn new(category: Category, name: &str, literal_required: bool, label: &str) -> (f: Self)
        ensures
            f@ == (FunctionSpec { category, name: name@, literal_required, label: label@ }),
    {
        KnownFunction {
            category,
            name: String::from_str(name),
            literal_required,
            label: String::from_str(label),
        }
    }

    /// The regular expression that detects a call of this function.
    pub fn pattern(&self) -> (source: String)
        ensures
            source@ == self@.pattern(),
    {
        let mut source = self.name.clone();
        source.append("\\(");
        if self.literal_required {
            source.append("['\"][\\w-]+['\"]");
        }
        source
    }
}

/// The views of a vector of catalog entries.
pub open spec fn function_specs(fs: Seq<KnownFunction>) -> Seq<FunctionSpec> {
    fs.map_values(|f: KnownFunction| f@)
}

/// A catalog entry whose call must carry a quoted literal.
pub open spec fn with_literal(category: Category, name: Seq<char>, label: Seq<char>) -> FunctionSpec {
    FunctionSpec { category, name, literal_required: true, label }
}

/// A catalog entry whose call may carry anything.
pub open spec fn bare(category: Category, name: Seq<char>, label: Seq<char>) -> FunctionSpec {
    FunctionSpec { category, name, literal_required: false, label }
}

/// The functions of the category Action.
pub open spec fn action_functions() -> Seq<FunctionSpec> {
    seq![
        with_literal(Category::Action, "add_action"@, "Action Registration"@),
        with_literal(Category::Action, "do_action"@, "Action Execution"@),
        with_literal(Category::Action, "has_action"@, "Action Check"@),
        with_literal(Category::Action, "remove_action"@, "Action Removal"@),
        with_literal(Category::Action, "remove_all_actions"@, "All Actions Removal"@),
        with_literal(Category::Action, "did_action"@, "Action Execution Check"@),
        with_literal(Category::Action, "do_action_ref_array"@, "Action Execution (Reference)"@),
    ]
}

/// The functions of the category Filter.
pub open spec fn filter_functions() -> Seq<FunctionSpec> {
    seq![
        with_literal(Category::Filter, "add_filter"@, "Filter Registration"@),
        with_literal(Category::Filter, "apply_filters"@, "Filter Application"@),
        with_literal(Category::Filter, "has_filter"@, "Filter Check"@),
        with_literal(Category::Filter, "remove_filter"@, "Filter Removal"@),
        with_literal(Category::Filter, "remove_all_filters"@, "All Filters Removal"@),
        bare(Category::Filter, "current_filter"@, "Current Filter Check"@),
        with_literal(Category::Filter, "apply_filters_ref_array"@, "Filter Application (Reference)"@),
    ]
}

/// The functions of the category Shortcode.
pub open spec fn shortcode_functions() -> Seq<FunctionSpec> {
    seq![
        with_literal(Category::Shortcode, "add_shortcode"@, "Shortcode Registration"@),
        with_literal(Category::Shortcode, "do_shortcode"@, "Shortcode Execution"@),
        with_literal(Category::Shortcode, "has_shortcode"@, "Shortcode Check"@),
        with_literal(Category::Shortcode, "remove_shortcode"@, "Shortcode Removal"@),
        bare(Category::Shortcode, "remove_all_shortcodes"@, "All Shortcodes Removal"@),
        bare(Category::Shortcode, "shortcode_atts"@, "Shortcode Attributes"@),
    ]
}

/// The functions of the category Hook.
pub open spec fn hook_functions() -> Seq<FunctionSpec> {
    seq![with_literal(Category::Hook, "wp_hook"@, "Hook Creation"@)]
}

/// The whole catalog: the categories in their fixed order, each with its
/// functions in the order in which they are tried.
pub open spec fn known_functions() -> Seq<FunctionSpec> {
    action_functions() + filter_functions() + shortcode_functions() + hook_functions()
}

/// Builds the entries of the category Action.
fn build_action_functions() -> (fs: Vec<KnownFunction>)
    ensures
        function_specs(fs@) == action_functions(),
{
    let c = Category::Action;
    let mut fs: Vec<KnownFunction> = Vec::new();
    fs.push(KnownFunction::new(c, "add_action", true, "Action Registration"));
    fs.push(KnownFunction::new(c, "do_action", true, "Action Execution"));
    fs.push(KnownFunction::new(c, "has_action", true, "Action Check"));
    fs.push(KnownFunction::new(c, "remove_action", true, "Action Removal"));
    fs.push(KnownFunction::new(c, "remove_all_actions", true, "All Actions Removal"));
    fs.push(KnownFunction::new(c, "did_action", true, "Action Execution Check"));
    fs.push(KnownFunction::new(c, "do_action_ref_array", true, "Action Execution (Reference)"));
    assert(function_specs(fs@) =~= action_functions());
    fs
}

/// Builds the entries of the category Filter.
fn build_filter_functions() -> (fs: Vec<KnownFunction>)
    ensures
        function_specs(fs@) == filter_functions(),
{
    let c = Category::Filter;
    let mut fs: Vec<KnownFunction> = Vec::new();
    fs.push(KnownFunction::new(c, "add_filter", true, "Filter Registration"));
    fs.push(KnownFunction::new(c, "apply_filters", true, "Filter Application"));
    fs.push(KnownFunction::new(c, "has_filter", true, "Filter Check"));
    fs.push(KnownFunction::new(c, "remove_filter", true, "Filter Removal"));
    fs.push(KnownFunction::new(c, "remove_all_filters", true, "All Filters Removal"));
    fs.push(KnownFunction::new(c, "current_filter", false, "Current Filter Check"));
    fs.push(
        KnownFunction::new(c, "apply_filters_ref_array", true, "Filter Application (Reference)"),
    );
    assert(function_specs(fs@) =~= filter_functions());
    fs
}

/// Builds the entries of the category Shortcode.
fn build_shortcode_functions() -> (fs: Vec<KnownFunction>)
    ensures
        function_specs(fs@) == shortcode_functions(),
{
    let c = Category::Shortcode;
    let mut fs: Vec<KnownFunction> = Vec::new();
    fs.push(KnownFunction::new(c, "add_shortcode", true, "Shortcode Registration"));
    fs.push(KnownFunction::new(c, "do_shortcode", true, "Shortcode Execution"));
    fs.push(KnownFunction::new(c, "has_shortcode", true, "Shortcode Check"));
    fs.push(KnownFunction::new(c, "remove_shortcode", true, "Shortcode Removal"));
    fs.push(KnownFunction::new(c, "remove_all_shortcodes", false, "All Shortcodes Removal"));
    fs.push(KnownFunction::new(c, "shortcode_atts", false, "Shortcode Attributes"));
    assert(function_specs(fs@) =~= shortcode_functions());
    fs
}

/// Builds the entries of the category Hook.
fn build_hook_functions() -> (fs: Vec<KnownFunction>)
    ensures
        function_specs(fs@) == hook_functions(),
{
    let mut fs: Vec<KnownFunction> = Vec::new();
    fs.push(KnownFunction::new(Category::Hook, "wp_hook", true, "Hook Creation"));
    assert(function_specs(fs@) =~= hook_functions());
    fs
}

/// Moves the entries of `tail` behind those of `fs`.
fn extend_functions(fs: &mut Vec<KnownFunction>, tail: Vec<KnownFunction>)
    ensures
        function_specs(final(fs)@) == function_specs(old(fs)@) + function_specs(tail@),
{
    let mut tail = tail;
    let ghost before = fs@;
    let ghost moved = tail@;
    fs.append(&mut tail);
    assert(fs@ == before + moved);
    assert(function_specs(fs@) =~= function_specs(before) + function_specs(moved));
}

/// Builds the whole catalog.
pub fn build_known_functions() -> (fs: Vec<KnownFunction>)
    ensures
        function_specs(fs@) == known_functions(),
{
    let mut fs = build_action_functions();
    extend_functions(&mut fs, build_filter_functions());
    extend_functions(&mut fs, build_shortcode_functions());
    extend_functions(&mut fs, build_hook_functions());
    fs
}

/// The test "is of `category`".
pub open spec fn of_category(category: Category) -> spec_fn(FunctionSpec) -> bool {
    |f: FunctionSpec| f.category == category
}

/// The patterns of `category`, in the order in which they are tried.
pub open spec fn category_patterns(catalog: Seq<FunctionSpec>, category: Category) -> Seq<
    Seq<char>,
> {
    catalog.filter(of_category(category)).map_values(|f: FunctionSpec| f.pattern())
}

/// The label that the catalog gives to `function`: that of the first entry
/// with this name among the first `n`.
pub open spec fn label_among(catalog: Seq<FunctionSpec>, n: int, function: Seq<char>) -> Option<
    Seq<char>,
>
    decreases n,
{
    if n <= 0 {
        None
    } else {
        match label_among(catalog, n - 1, function) {
            Some(label) => Some(label),
            None => if catalog[n - 1].name == function {
                Some(catalog[n - 1].label)
            } else {
                None
            },
        }
    }
}

/// A label found among the first `n` entries is the label among any more.
pub proof fn lemma_label_persists(catalog: Seq<FunctionSpec>, n: int, m: int, function: Seq<char>)
    requires
        n <= m,
        label_among(catalog, n, function) is Some,
    ensures
        label_among(catalog, m, function) == label_among(catalog, n, function),
    decreases m - n,
{
    if n < m {
        lemma_label_persists(catalog, n, m - 1, function);
    }
}

/// The label that the catalog gives to `function`, if it knows the function.
pub open spec fn label_of(catalog: Seq<FunctionSpec>, function: Seq<char>) -> Option<Seq<char>> {
    label_among(catalog, catalog.len() as int, function)
}

} // verus!

use wp_spotlight::analyzer::WPHooksAnalyzer;
use wp_spotlight::catalog::{build_known_functions, Category, KnownFunction};
use wp_spotlight::record::{highlight, hook_name};
use wp_spotlight::text::str_eq;

fn analyzer() -> WPHooksAnalyzer {
    WPHooksAnalyzer::new().expect("the catalog compiles")
}

#[test]
fn single_registration_line() {
    let found = analyzer().find_matches("plugin.php", "add_action('init', 'my_func');");
    assert_eq!(found.len(), 1);
    let r = &found[0];
    assert_eq!(r.category, "action");
    assert_eq!(r.function, "add_action");
    assert_eq!(r.function_type, "Action Registration");
    assert_eq!(r.hook_name, "init");
    assert_eq!(r.file_path, "plugin.php");
    assert_eq!(r.line_number, 1);
    assert_eq!(r.original_line, "add_action('init', 'my_func');");
    assert_eq!(r.highlighted_line, "`add_action('init'`, 'my_func');");
}

#[test]
fn two_calls_on_one_line() {
    let line = "add_filter('the_content', 'cb'); do_action('loaded');";
    let found = analyzer().scan_line(line, "a.php", 7);
    assert_eq!(found.len(), 2);
    assert_eq!(found.iter().filter(|r| r.category == "filter").count(), 1);
    assert_eq!(found.iter().filter(|r| r.category == "action").count(), 1);
    assert_eq!(found[0].category, "action");
    assert_eq!(found[0].function, "do_action");
    assert_eq!(found[0].hook_name, "loaded");
    assert_eq!(found[0].highlighted_line, "add_filter('the_content', 'cb'); `do_action('loaded'`);");
    assert_eq!(found[1].category, "filter");
    assert_eq!(found[1].function, "add_filter");
    assert_eq!(found[1].hook_name, "the_content");
    assert_eq!(found[0].line_number, 7);
    assert_eq!(found[1].line_number, 7);
}

#[test]
fn line_without_call_yields_nothing() {
    let a = analyzer();
    assert!(a.scan_line("", "a.php", 1).is_empty());
    assert!(a.scan_line("$x = action('init');", "a.php", 1).is_empty());
    assert!(a.scan_line("add_action($hook, 'cb');", "a.php", 1).is_empty());
    assert!(a.scan_line("add_action ('init', 'cb');", "a.php", 1).is_empty());
    assert!(a.scan_line("add_action('in it', 'cb');", "a.php", 1).is_empty());
    assert!(a.scan_line("<?php echo 'hello'; ?>", "a.php", 1).is_empty());
}

#[test]
fn literal_that_spans_lines_is_not_detected() {
    let found = analyzer().find_matches("a.php", "add_action(\n'init', 'cb');");
    assert!(found.is_empty());
}

#[test]
fn same_pattern_matches_twice_from_left_to_right() {
    let found = analyzer().scan_line("do_action('a'); do_action(\"b-c\");", "a.php", 3);
    assert_eq!(found.len(), 2);
    assert_eq!(found[0].hook_name, "a");
    assert_eq!(found[1].hook_name, "b-c");
    assert_eq!(found[0].highlighted_line, "`do_action('a'`); do_action(\"b-c\");");
    assert_eq!(found[1].highlighted_line, "do_action('a'); `do_action(\"b-c\"`);");
}

#[test]
fn highlight_marks_the_first_occurrence_only() {
    let found = analyzer().scan_line("do_action('x'); do_action('x');", "a.php", 1);
    assert_eq!(found.len(), 2);
    assert_eq!(found[0].highlighted_line, "`do_action('x'`); do_action('x');");
    assert_eq!(found[1].highlighted_line, "`do_action('x'`); do_action('x');");
    assert_eq!(highlight("abcabc", "bc"), "a`bc`abc");
    assert_eq!(highlight("abc", "x"), "abc");
    assert_eq!(highlight("abc", ""), "``abc");
    assert_eq!(highlight("abc", "abc"), "`abc`");
    assert_eq!(highlight("", "a"), "");
    assert_eq!(highlight("añb→c", "→"), "añb`→`c");
}

#[test]
fn call_without_literal_has_no_hook_name() {
    let found = analyzer().scan_line("if (current_filter() == 'x') {", "a.php", 1);
    assert_eq!(found.len(), 1);
    assert_eq!(found[0].category, "filter");
    assert_eq!(found[0].function, "current_filter");
    assert_eq!(found[0].function_type, "Current Filter Check");
    assert_eq!(found[0].hook_name, "N/A");
    assert_eq!(found[0].highlighted_line, "if (`current_filter(`) == 'x') {");

    let found = analyzer().scan_line("$a = shortcode_atts(array(), $atts);", "a.php", 1);
    assert_eq!(found.len(), 1);
    assert_eq!(found[0].category, "shortcode");
    assert_eq!(found[0].function, "shortcode_atts");
    assert_eq!(found[0].hook_name, "N/A");

    let found = analyzer().scan_line("remove_all_shortcodes();", "a.php", 1);
    assert_eq!(found.len(), 1);
    assert_eq!(found[0].function, "remove_all_shortcodes");
    assert_eq!(found[0].function_type, "All Shortcodes Removal");
}

#[test]
fn overlapping_families_both_fire() {
    let found = analyzer().scan_line("do_action_ref_array('init', $args);", "a.php", 1);
    assert_eq!(found.len(), 1);
    assert_eq!(found[0].function, "do_action_ref_array");
    let found = analyzer().scan_line("xadd_action('init');", "a.php", 1);
    assert_eq!(found.len(), 1);
    assert_eq!(found[0].function, "add_action");
    let found = analyzer().scan_line("wp_hook('a'); add_shortcode(\"b\", 'f');", "a.php", 1);
    assert_eq!(found.len(), 2);
    assert_eq!(found[0].category, "shortcode");
    assert_eq!(found[1].category, "hook");
    assert_eq!(found[1].function_type, "Hook Creation");
}

#[test]
fn every_known_function_is_detected_with_its_label() {
    let table = [
        ("action", "add_action", "Action Registration"),
        ("action", "do_action", "Action Execution"),
        ("action", "has_action", "Action Check"),
        ("action", "remove_action", "Action Removal"),
        ("action", "remove_all_actions", "All Actions Removal"),
        ("action", "did_action", "Action Execution Check"),
        ("action", "do_action_ref_array", "Action Execution (Reference)"),
        ("filter", "add_filter", "Filter Registration"),
        ("filter", "apply_filters", "Filter Application"),
        ("filter", "has_filter", "Filter Check"),
        ("filter", "remove_filter", "Filter Removal"),
        ("filter", "remove_all_filters", "All Filters Removal"),
        ("filter", "current_filter", "Current Filter Check"),
        ("filter", "apply_filters_ref_array", "Filter Application (Reference)"),
        ("shortcode", "add_shortcode", "Shortcode Registration"),
        ("shortcode", "do_shortcode", "Shortcode Execution"),
        ("shortcode", "has_shortcode", "Shortcode Check"),
        ("shortcode", "remove_shortcode", "Shortcode Removal"),
        ("shortcode", "remove_all_shortcodes", "All Shortcodes Removal"),
        ("shortcode", "shortcode_atts", "Shortcode Attributes"),
        ("hook", "wp_hook", "Hook Creation"),
    ];
    let a = analyzer();
    for (category, function, label) in table {
        let line = format!("{}('some-hook_1');", function);
        let found = a.scan_line(&line, "a.php", 1);
        assert_eq!(found.len(), 1, "{}", function);
        assert_eq!(found[0].category, category);
        assert_eq!(found[0].function, function);
        assert_eq!(found[0].function_type, label);
        assert_eq!(a.label_for(function), Some(label.to_string()));
        assert_eq!(a.function_type(function), label);
    }
    assert_eq!(a.label_for("wp_head"), None);
    assert_eq!(a.function_type("wp_head"), "Unknown");
}

#[test]
fn lines_are_trimmed_and_numbered_from_one() {
    let content = "<?php\r\n\t add_action( 'x' );\r\n   do_action(\"save_post\", $id);  \r\n\r\n\u{3000}apply_filters('t', $v)\u{a0}\n";
    let found = analyzer().find_matches("/srv/wp/a.php", content);
    assert_eq!(found.len(), 2);
    assert_eq!(found[0].line_number, 3);
    assert_eq!(found[0].original_line, "do_action(\"save_post\", $id);");
    assert_eq!(found[0].highlighted_line, "`do_action(\"save_post\"`, $id);");
    assert_eq!(found[0].hook_name, "save_post");
    assert_eq!(found[0].file_path, "/srv/wp/a.php");
    assert_eq!(found[1].line_number, 5);
    assert_eq!(found[1].original_line, "apply_filters('t', $v)");
    assert_eq!(found[1].category, "filter");
}

#[test]
fn records_of_a_file_ascend_by_line() {
    let content = "do_action('a');\nadd_filter('b', 'f'); do_action('c');\n\nwp_hook('d');";
    let found = analyzer().find_matches("a.php", content);
    let seen: Vec<(usize, &str)> = found.iter().map(|r| (r.line_number, r.hook_name.as_str())).collect();
    assert_eq!(seen, vec![(1, "a"), (2, "c"), (2, "b"), (4, "d")]);
}

#[test]
fn empty_and_blank_files_yield_nothing() {
    let a = analyzer();
    assert!(a.find_matches("a.php", "").is_empty());
    assert!(a.find_matches("a.php", "\n\n\n").is_empty());
    assert!(a.find_matches("a.php", "   \t  ").is_empty());
}

#[test]
fn function_name_is_the_text_before_the_first_parenthesis() {
    let a = analyzer();
    assert_eq!(a.get_function_name("add_action('init'"), "add_action");
    assert_eq!(a.get_function_name("current_filter("), "current_filter");
    assert_eq!(a.get_function_name("a(b(c"), "a");
    assert_eq!(a.get_function_name("no_parenthesis"), "no_parenthesis");
    assert_eq!(a.get_function_name("(x"), "");
    assert_eq!(a.get_function_name(""), "");
}

#[test]
fn hook_name_strips_the_quotes() {
    assert_eq!(hook_name(Some("'init'".to_string())), "init");
    assert_eq!(hook_name(Some("\"save-post\"".to_string())), "save-post");
    assert_eq!(hook_name(Some("'\"x\"'".to_string())), "x");
    assert_eq!(hook_name(Some("it's".to_string())), "it's");
    assert_eq!(hook_name(Some("''".to_string())), "");
    assert_eq!(hook_name(Some(String::new())), "");
    assert_eq!(hook_name(None), "N/A");
}

#[test]
fn hook_names_have_no_surrounding_quotes() {
    let content = "add_action('a', 'b');\ndo_action(\"c\");\ncurrent_filter();\nadd_shortcode('gallery', 'g');";
    for r in analyzer().find_matches("a.php", content) {
        assert!(r.hook_name == "N/A" || !(r.hook_name.starts_with(['\'', '"']) || r.hook_name.ends_with(['\'', '"'])));
    }
}

#[test]
fn build_record_takes_the_literal_as_given() {
    let a = analyzer();
    let r = a.build_record(Category::Filter, "f.php", 12, "x add_filter('t' y", "add_filter('t'", Some("'t'".to_string()));
    assert_eq!(r.category, "filter");
    assert_eq!(r.function, "add_filter");
    assert_eq!(r.function_type, "Filter Registration");
    assert_eq!(r.hook_name, "t");
    assert_eq!(r.file_path, "f.php");
    assert_eq!(r.line_number, 12);
    assert_eq!(r.original_line, "x add_filter('t' y");
    assert_eq!(r.highlighted_line, "x `add_filter('t'` y");
    let r = a.build_record(Category::Hook, "f.php", 1, "line", "mystery(", None);
    assert_eq!(r.category, "hook");
    assert_eq!(r.function, "mystery");
    assert_eq!(r.function_type, "Unknown");
    assert_eq!(r.hook_name, "N/A");
    assert_eq!(r.highlighted_line, "line");
}

#[test]
fn other_catalogs_can_be_scanned() {
    let functions = vec![
        KnownFunction::new(Category::Hook, "register", true, "Registration"),
        KnownFunction::new(Category::Action, "fire", false, "Firing"),
    ];
    assert_eq!(functions[0].pattern(), "register\\(['\"][\\w-]+['\"]");
    assert_eq!(functions[1].pattern(), "fire\\(");
    let a = WPHooksAnalyzer::with_functions(functions).expect("both patterns compile");
    let found = a.scan_line("fire(); register('x'); add_action('y');", "a", 1);
    assert_eq!(found.len(), 2);
    assert_eq!(found[0].function, "register");
    assert_eq!(found[0].category, "hook");
    assert_eq!(found[0].function_type, "Registration");
    assert_eq!(found[1].function, "fire");
    assert_eq!(found[1].hook_name, "N/A");
    assert!(a.category_mentions(Category::Action, "fire"));
    assert!(!a.category_mentions(Category::Hook, "fire"));
}

#[test]
fn function_outside_the_catalog_is_unknown() {
    let functions = vec![KnownFunction::new(Category::Action, "run\\(now", false, "Run")];
    let a = WPHooksAnalyzer::with_functions(functions).expect("the pattern compiles");
    let found = a.scan_line("run(now(1)", "a", 1);
    assert_eq!(found.len(), 1);
    assert_eq!(found[0].function, "run");
    assert_eq!(found[0].function_type, "Unknown");
}

#[test]
fn rejected_pattern_is_reported() {
    let functions = vec![
        KnownFunction::new(Category::Action, "fine", true, "Fine"),
        KnownFunction::new(Category::Action, "broken(", false, "Broken"),
        KnownFunction::new(Category::Action, "also[", false, "Broken too"),
    ];
    match WPHooksAnalyzer::with_functions(functions) {
        Ok(_) => panic!("an unclosed group is no pattern"),
        Err(e) => assert_eq!(e.source, "broken(\\("),
    }
}

#[test]
fn category_mentions_goes_by_the_pattern_text() {
    let a = analyzer();
    assert!(a.category_mentions(Category::Action, "add_action"));
    assert!(a.category_mentions(Category::Action, "do_action"));
    assert!(a.category_mentions(Category::Action, "action"));
    assert!(a.category_mentions(Category::Action, ""));
    assert!(!a.category_mentions(Category::Filter, "add_action"));
    assert!(!a.category_mentions(Category::Hook, "add_shortcode"));
    assert!(a.category_mentions(Category::Hook, "wp_hook"));
    assert!(a.category_mentions(Category::Filter, "apply_filters"));
}

#[test]
fn str_eq_compares_texts() {
    assert!(str_eq("", ""));
    assert!(str_eq("añ→", "añ→"));
    assert!(!str_eq("a", "b"));
    assert!(!str_eq("a", "ab"));
    assert!(!str_eq("ab", "a"));
}

#[test]
fn category_names_and_titles() {
    let all = Category::all();
    let names: Vec<&str> = all.iter().map(|c| c.as_str()).collect();
    let titles: Vec<&str> = all.iter().map(|c| c.title_str()).collect();
    assert_eq!(names, vec!["action", "filter", "shortcode", "hook"]);
    assert_eq!(titles, vec!["Actions", "Filters", "Shortcodes", "Hooks"]);
}

#[test]
fn catalog_lists_the_known_functions_by_category() {
    let functions = build_known_functions();
    assert_eq!(functions.len(), 21);
    let of = |c: Category| -> Vec<String> { functions.iter().filter(|f| f.category == c).map(|f| f.name.clone()).collect() };
    assert_eq!(of(Category::Action), vec!["add_action", "do_action", "has_action", "remove_action", "remove_all_actions", "did_action", "do_action_ref_array"]);
    assert_eq!(of(Category::Filter), vec!["add_filter", "apply_filters", "has_filter", "remove_filter", "remove_all_filters", "current_filter", "apply_filters_ref_array"]);
    assert_eq!(of(Category::Shortcode), vec!["add_shortcode", "do_shortcode", "has_shortcode", "remove_shortcode", "remove_all_shortcodes", "shortcode_atts"]);
    assert_eq!(of(Category::Hook), vec!["wp_hook"]);
    let bare: Vec<&str> = functions.iter().filter(|f| !f.literal_required).map(|f| f.name.as_str()).collect();
    assert_eq!(bare, vec!["current_filter", "remove_all_shortcodes", "shortcode_atts"]);
    let ranks: Vec<usize> = functions.iter().map(|f| Category::all().iter().position(|c| *c == f.category).unwrap()).collect();
    assert!(ranks.windows(2).all(|w| w[0] <= w[1]));
    assert_eq!(functions[0].pattern(), "add_action\\(['\"][\\w-]+['\"]");
    assert_eq!(functions[12].pattern(), "current_filter\\(");
}

#[test]
fn analyzer_shows_its_catalog() {
    let a = analyzer();
    assert_eq!(a.functions(), &build_known_functions());
    assert_eq!(a.patterns_of(Category::Hook), vec!["wp_hook\\(['\"][\\w-]+['\"]"]);
    assert_eq!(a.patterns_of(Category::Action).len(), 7);
    assert_eq!(a.patterns_of(Category::Filter).len(), 7);
    let shortcode = a.patterns_of(Category::Shortcode);
    assert_eq!(shortcode.len(), 6);
    assert_eq!(shortcode[4], "remove_all_shortcodes\\(");
    assert_eq!(shortcode[0], "add_shortcode\\(['\"][\\w-]+['\"]");
    let own = WPHooksAnalyzer::with_functions(Vec::new()).expect("nothing to reject");
    assert!(own.functions().is_empty());
    assert!(own.scan_line("add_action('x');", "a", 1).is_empty());
}

#[test]
fn every_match_stands_in_its_line() {
    let content = "  add_action('a', 'b'); add_action('a', 'c');\n\tif (current_filter()) { apply_filters(\"t-1\", $v); }\nwp_hook('h'); shortcode_atts($a, $b);";
    let found = analyzer().find_matches("a.php", content);
    assert_eq!(found.len(), 6);
    for r in &found {
        assert!(r.original_line.contains(&r.function), "{r:?}");
        assert_eq!(r.highlighted_line.chars().count(), r.original_line.chars().count() + 2, "{r:?}");
        assert_eq!(r.highlighted_line.replacen('`', "", 2), r.original_line);
        assert!(r.highlighted_line.contains(&format!("`{}(", r.function)));
    }
}

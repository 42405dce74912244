use wp_spotlight::analyzer::WPHooksAnalyzer;
use wp_spotlight::sources::{is_source_file, SourceFile};

fn analyzer() -> WPHooksAnalyzer {
    WPHooksAnalyzer::new().expect("the catalog compiles")
}

fn readable(path: &str, content: &str) -> SourceFile {
    SourceFile { path: path.to_string(), content: Some(content.to_string()) }
}

fn unreadable(path: &str) -> SourceFile {
    SourceFile { path: path.to_string(), content: None }
}

#[test]
fn source_files_end_in_php() {
    for path in ["a.php", "/srv/www/index.php", "dir.d/x.y.php", "./a.php", "..php", "a..php", "dir/.hidden.php", "C:\\site\\a.php"] {
        assert!(is_source_file(path), "{path}");
    }
    for path in ["", "php", ".php", "dir/.php", "a.PHP", "a.php5", "a.php/", "a.php/b", "a.php.bak", "a.", "aphp", "dir.php/readme", "a.php "] {
        assert!(!is_source_file(path), "{path}");
    }
}

#[test]
fn source_files_agree_with_std_paths() {
    for path in ["a.php", "/srv/www/index.php", "dir.d/x.y.php", "./a.php", "a..php", "dir/.hidden.php", "php", ".php", "dir/.php", "a.PHP", "a.php5", "a.php/b", "a.php.bak", "a.", "aphp", "dir.php/readme", "x/y.z/w.php"] {
        let std_says = std::path::Path::new(path).extension().map_or(false, |e| e == "php");
        assert_eq!(is_source_file(path), std_says, "{path}");
    }
}

#[test]
fn file_without_call_contributes_nothing() {
    let a = analyzer();
    let with_call = readable("one.php", "<?php\nadd_action('init', 'f');\n");
    let without = readable("two.php", "<?php\necho 'nothing to see';\n");
    let alone = a.scan_directory(&[with_call.clone()]);
    assert_eq!(alone.len(), 1);
    assert!(a.scan_source(&without).is_empty());
    assert_eq!(a.scan_directory(&[with_call.clone(), without.clone()]), alone);
    assert_eq!(a.scan_directory(&[without.clone(), with_call.clone()]), alone);
    assert!(a.scan_directory(&[without]).is_empty());
    assert!(a.scan_directory(&[]).is_empty());
}

#[test]
fn unreadable_file_is_passed_over() {
    let a = analyzer();
    let files = vec![unreadable("secret.php"), readable("ok.php", "do_action('go');")];
    let found = a.scan_directory(&files);
    assert_eq!(found.len(), 1);
    assert_eq!(found[0].file_path, "ok.php");
    assert_eq!(found[0].hook_name, "go");
    assert_eq!(found[0].line_number, 1);
    assert!(a.scan_source(&files[0]).is_empty());
}

#[test]
fn other_files_are_not_scanned() {
    let a = analyzer();
    let files = vec![
        readable("notes.txt", "add_action('init', 'f');"),
        readable("lib/.php", "add_action('init', 'f');"),
        readable("lib/x.php", "add_action('init', 'f');"),
        readable("lib/x.php.orig", "add_action('init', 'f');"),
    ];
    let found = a.scan_directory(&files);
    assert_eq!(found.len(), 1);
    assert_eq!(found[0].file_path, "lib/x.php");
}

#[test]
fn records_follow_the_order_of_the_listing() {
    let a = analyzer();
    let files = vec![
        readable("b.php", "do_action('b1');\ndo_action('b2');"),
        readable("a.php", "do_action('a1');"),
    ];
    let found = a.scan_directory(&files);
    let seen: Vec<(&str, usize, &str)> = found.iter().map(|r| (r.file_path.as_str(), r.line_number, r.hook_name.as_str())).collect();
    assert_eq!(seen, vec![("b.php", 1, "b1"), ("b.php", 2, "b2"), ("a.php", 1, "a1")]);
    let mut apart = a.scan_source(&files[0]);
    apart.extend(a.scan_source(&files[1]));
    assert_eq!(found, apart);
}

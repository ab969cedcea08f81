use checkabspath::detect::{
    create_regexes_for_abs_paths, match_text, PathDetection, RegExForPath, RegExSetForPath,
};
use checkabspath::ignore::{create_wildmatches, is_ignored, wrap_line};
use checkabspath::scan::{
    check_entry, check_one_file, collect_report, fill_from_content, filter_ignored,
    glob_expression, EntryStatus, PathFinded,
};
use checkabspath::text::split_lines;

fn triples(fs: &[PathFinded]) -> Vec<(String, u64, String)> {
    fs.iter()
        .map(|f| (f.filepath().to_string(), f.line_number(), f.path().to_string()))
        .collect()
}

#[test]
fn test_check_one_file_regex_find() {
    let regex = RegExForPath::new(r"William Droz");
    let contents = Some(String::from("//! Author: William Droz\nfn main() {}\n"));
    let res = check_one_file("src/checkabspath/mod.rs", &contents, &regex);
    assert!(res.is_some())
}

#[test]
fn test_check_one_file_regex_not_find() {
    let regex = RegExForPath::new(r"William Droz");
    let contents = Some(String::from("/target\nCargo.lock\n"));
    let res = check_one_file(".gitignore", &contents, &regex);
    assert!(res.is_none())
}

#[test]
fn unix_path_in_config_file() {
    let set = create_regexes_for_abs_paths();
    let text = "import os\npath = \"/usr/local/bin\"\n";
    let res = fill_from_content(text, &set, "app/config.py");
    assert_eq!(
        triples(&res),
        vec![(String::from("app/config.py"), 2, String::from("\"/usr/local/bin\""))]
    );
}

#[test]
fn windows_drive_path_is_found_whole() {
    let set = create_regexes_for_abs_paths();
    let text = "base = \"C:\\\\Program Files\\\\App\"";
    let res = fill_from_content(text, &set, "a.py");
    assert_eq!(res.len(), 1);
    assert_eq!(res[0].path(), "\"C:\\\\Program Files\\\\App\"");
    assert_eq!(res[0].line_number(), 1);
}

#[test]
fn windows_unc_path_is_found() {
    let set = create_regexes_for_abs_paths();
    let line = "share = '\\\\server\\share\\folder'";
    assert_eq!(set.path_exist(line), "'\\\\server\\share\\folder'");
}

#[test]
fn single_quoted_unix_path_is_found() {
    let set = create_regexes_for_abs_paths();
    assert_eq!(set.path_exist("open('/etc/hosts')"), "'/etc/hosts'");
}

#[test]
fn file_without_paths_gives_clean_report() {
    let set = create_regexes_for_abs_paths();
    let contents = Some(String::from("x = 5"));
    let res = check_one_file("x.py", &contents, &set);
    assert!(res.is_none());
    assert!(collect_report(vec![res]).is_ok());
}

#[test]
fn unquoted_paths_and_urls_are_not_flagged() {
    let set = create_regexes_for_abs_paths();
    let text = "# see /usr/local/bin\ncd /tmp\nurl = https://example.com/a/b\n\n";
    assert!(fill_from_content(text, &set, "f.sh").is_empty());
    assert_eq!(set.path_exist(""), "");
    assert_eq!(set.path_exist("\"relative/path\""), "");
}

#[test]
fn only_first_path_of_a_line_is_reported() {
    let set = create_regexes_for_abs_paths();
    let text = "a = (\"/first/one\", \"/second\")";
    let res = fill_from_content(text, &set, "f.py");
    assert_eq!(res.len(), 1);
    assert_eq!(res[0].path(), "\"/first/one\"");
}

#[test]
fn unix_rule_is_tried_before_windows_rules() {
    let set = create_regexes_for_abs_paths();
    let line = "x = \"C:\\\\dir\" + \"/root\"";
    assert_eq!(set.path_exist(line), "\"/root\"");
}

#[test]
fn findings_follow_line_order() {
    let set = create_regexes_for_abs_paths();
    let text = "\"/a\"\nnothing\r\n'/b/c'\r\n\n\"D:/x\"\n";
    let res = fill_from_content(text, &set, "f");
    let lines: Vec<u64> = res.iter().map(|f| f.line_number()).collect();
    assert_eq!(lines, vec![1, 3, 5]);
    assert_eq!(res[1].path(), "'/b/c'");
    assert_eq!(res[2].path(), "\"D:/x\"");
}

#[test]
fn regex_rule_returns_its_leftmost_match() {
    let rule = RegExForPath::new("b+");
    assert_eq!(rule.path_exist("abbbcb"), "bbb");
    assert_eq!(rule.path_exist("ccc"), "");
    assert_eq!(rule.pattern(), "b+");
}

#[test]
fn invalid_regex_finds_nothing() {
    let rule = RegExForPath::new("(");
    assert_eq!(rule.path_exist("((("), "");
}

#[test]
fn match_text_of_nothing_is_empty() {
    assert_eq!(match_text(None), "");
    assert_eq!(match_text(Some(String::from("'/x'"))), "'/x'");
}

#[test]
fn ignore_line_prunes_vendor_tree() {
    let patterns = create_wildmatches("vendor\n");
    let paths = vec![
        String::from("proj/vendor/lib/config.py"),
        String::from("proj/app/config.py"),
        String::from("proj/vendor"),
    ];
    let kept = filter_ignored(paths, &Some(patterns));
    assert_eq!(kept, vec![String::from("proj/app/config.py")]);
}

#[test]
fn missing_ignore_file_keeps_every_path() {
    let paths = vec![String::from("a/b.rs"), String::from("a/vendor/c.rs")];
    let kept = filter_ignored(paths.clone(), &None);
    assert_eq!(kept, paths);
}

#[test]
fn empty_ignore_lines_are_skipped() {
    let patterns = create_wildmatches("target\n\nnode_modules\r\n");
    assert_eq!(patterns, vec![String::from("*target*"), String::from("*node_modules*")]);
    assert!(!is_ignored("src/main.rs", &patterns));
    assert!(create_wildmatches("").is_empty());
}

#[test]
fn ignore_patterns_use_wildcards() {
    let patterns = create_wildmatches("*.lock\nb?d\n");
    assert!(is_ignored("x/Cargo.lock", &patterns));
    assert!(is_ignored("a/bad/c", &patterns));
    assert!(!is_ignored("a/bd/c", &patterns));
    assert!(!is_ignored("src/lib.rs", &patterns));
    assert!(!is_ignored("anything", &Vec::new()));
    assert!(is_ignored("Vendor/x", &create_wildmatches("Vendor")));
    assert!(!is_ignored("vendor/x", &create_wildmatches("Vendor")));
}

#[test]
fn wrapped_line_has_stars() {
    assert_eq!(wrap_line("vendor"), "*vendor*");
    assert_eq!(wrap_line(""), "**");
}

#[test]
fn unreadable_entry_is_skipped() {
    let set = create_regexes_for_abs_paths();
    let locked = check_entry("root/secret", &EntryStatus::Unreadable, &set);
    assert!(locked.is_none());
    let ok = check_entry(
        "root/ok.py",
        &EntryStatus::File(Some(String::from("p = \"/opt/x\""))),
        &set,
    );
    match collect_report(vec![locked, ok]) {
        Err(fs) => assert_eq!(
            triples(&fs),
            vec![(String::from("root/ok.py"), 1, String::from("\"/opt/x\""))]
        ),
        Ok(()) => panic!("expected one finding"),
    }
}

#[test]
fn directories_and_undecodable_files_give_nothing() {
    let set = create_regexes_for_abs_paths();
    assert!(check_entry("d", &EntryStatus::Directory, &set).is_none());
    assert!(check_entry("bin", &EntryStatus::File(None), &set).is_none());
    assert!(check_one_file("bin", &None, &set).is_none());
}

#[test]
fn report_keeps_entry_order() {
    let set = create_regexes_for_abs_paths();
    let a = check_entry("a", &EntryStatus::File(Some(String::from("'/x'\n'/y'"))), &set);
    let b = check_entry("b", &EntryStatus::File(Some(String::from("\"/z\""))), &set);
    match collect_report(vec![a, None, b]) {
        Err(fs) => assert_eq!(
            triples(&fs),
            vec![
                (String::from("a"), 1, String::from("'/x'")),
                (String::from("a"), 2, String::from("'/y'")),
                (String::from("b"), 1, String::from("\"/z\"")),
            ]
        ),
        Ok(()) => panic!("expected findings"),
    }
    assert!(collect_report(Vec::new()).is_ok());
}

#[test]
fn scanning_twice_gives_the_same_findings() {
    let set = create_regexes_for_abs_paths();
    let run = || {
        let kept = filter_ignored(
            vec![String::from("t/a.py"), String::from("t/skip/b.py")],
            &Some(create_wildmatches("skip")),
        );
        let results: Vec<Option<Vec<PathFinded>>> = kept
            .iter()
            .map(|p| check_entry(p, &EntryStatus::File(Some(String::from("v = \"/srv/data\""))), &set))
            .collect();
        match collect_report(results) {
            Err(fs) => triples(&fs),
            Ok(()) => Vec::new(),
        }
    };
    let first = run();
    assert_eq!(first, vec![(String::from("t/a.py"), 1, String::from("\"/srv/data\""))]);
    assert_eq!(first, run());
}

#[test]
fn glob_expression_inserts_one_separator() {
    assert_eq!(glob_expression("src"), "src/**/*");
    assert_eq!(glob_expression("src/"), "src/**/*");
    assert_eq!(glob_expression(""), "/**/*");
}

#[test]
fn lines_drop_their_endings() {
    assert_eq!(split_lines("a\r\nb\n"), vec![String::from("a"), String::from("b")]);
    assert_eq!(split_lines("a\n\nb"), vec![String::from("a"), String::from(""), String::from("b")]);
    assert!(split_lines("").is_empty());
    assert_eq!(split_lines("\n"), vec![String::from("")]);
    assert_eq!(split_lines("é\rx"), vec![String::from("é\rx")]);
}

#[test]
fn first_rule_that_finds_decides() {
    let set = RegExSetForPath::new(vec![RegExForPath::new("z+"), RegExForPath::new("b"), RegExForPath::new("a")]);
    assert_eq!(set.path_exist("ab"), "b");
    assert_eq!(set.path_exist("zzab"), "zz");
    assert_eq!(set.path_exist("cd"), "");
    assert_eq!(RegExSetForPath::new(Vec::new()).path_exist("ab"), "");
}

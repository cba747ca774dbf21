use rg_search::error::AppError;
use rg_search::lines::split_lines;
use rg_search::ripgrep::{
    decimal_string, default_true, exit_succeeded, is_within_root, join_path, parse_output,
    RipgrepSearcher, SearchOptions,
};

fn options(pattern: &str, path: &str, file_types: Vec<String>) -> SearchOptions {
    SearchOptions {
        pattern: pattern.into(),
        path: path.into(),
        fixed_strings: true,
        case_sensitive: false,
        line_numbers: true,
        context_lines: None,
        file_types,
        max_depth: None,
    }
}

#[test]
fn test_path_traversal_prevention() {
    let searcher = RipgrepSearcher::new("/tmp/work".to_string());
    let options = options("hello", "../../../etc/passwd", vec![]);
    let result = searcher.resolve_search_path(
        &options.path,
        Some("/etc/passwd".to_string()),
        Some("/tmp/work".to_string()),
    );
    assert!(result.is_err());
    match result {
        Err(AppError::PathTraversal(p)) => assert_eq!(p, "../../../etc/passwd"),
        _ => panic!("Expected PathTraversal error"),
    }
}

#[test]
fn sibling_with_shared_prefix_is_traversal() {
    let searcher = RipgrepSearcher::new("/srv/data".to_string());
    let result = searcher.validate_path(
        "../data2",
        Some("/srv/data2".to_string()),
        Some("/srv/data".to_string()),
    );
    assert!(matches!(result, Err(AppError::PathTraversal(p)) if p == "../data2"));
}

#[test]
fn nested_path_is_accepted_and_joined() {
    let searcher = RipgrepSearcher::new("/srv/data".to_string());
    let result = searcher.validate_path(
        "src/../lib",
        Some("/srv/data/lib".to_string()),
        Some("/srv/data".to_string()),
    );
    assert_eq!(result.unwrap(), "/srv/data/src/../lib");
}

#[test]
fn unresolvable_path_is_invalid() {
    let searcher = RipgrepSearcher::new("/srv/data".to_string());
    let result = searcher.validate_path("missing", None, Some("/srv/data".to_string()));
    assert!(matches!(result, Err(AppError::InvalidPath(p)) if p == "missing"));
}

#[test]
fn unresolvable_root_is_config_error() {
    let searcher = RipgrepSearcher::new("/srv/data".to_string());
    let result = searcher.validate_path("x", Some("/srv/data/x".to_string()), None);
    assert!(
        matches!(result, Err(AppError::ConfigError(m)) if m == "Could not resolve root directory")
    );
}

#[test]
fn empty_path_is_the_root_itself() {
    let searcher = RipgrepSearcher::new("/srv/data/".to_string());
    let result = searcher.resolve_search_path("", None, None);
    assert_eq!(result.unwrap(), "/srv/data/");
    assert_eq!(searcher.root_dir(), "/srv/data/");
}

#[test]
fn containment_is_by_whole_components() {
    assert!(is_within_root("/a/b", "/a/b"));
    assert!(is_within_root("/a/b", "/a/b/c"));
    assert!(!is_within_root("/a/b", "/a/bc"));
    assert!(!is_within_root("/a/b", "/a"));
    assert!(!is_within_root("/a/b", "/etc/passwd"));
    assert!(is_within_root("/", "/etc"));
}

#[test]
fn joining_paths() {
    assert_eq!(join_path("/root", "a/b"), "/root/a/b");
    assert_eq!(join_path("/root/", "a"), "/root/a");
    assert_eq!(join_path("/root", "/etc"), "/etc");
    assert_eq!(join_path("", "a"), "a");
    let searcher = RipgrepSearcher::new("/r".to_string());
    assert_eq!(searcher.candidate_path("x"), "/r/x");
}

#[test]
fn decimal_notation() {
    assert_eq!(decimal_string(0), "0");
    assert_eq!(decimal_string(7), "7");
    assert_eq!(decimal_string(1234), "1234");
    assert_eq!(decimal_string(usize::MAX), usize::MAX.to_string());
}

#[test]
fn default_line_numbers_is_true() {
    assert!(default_true());
}

#[test]
fn command_for_defaults() {
    let searcher = RipgrepSearcher::new("/r".to_string());
    let o = options("hello", "", vec![]);
    let args = searcher.build_command(&o, "/r");
    assert_eq!(args, vec!["--no-config", "-F", "-i", "-n", "hello", "/r"]);
}

#[test]
fn command_with_every_option() {
    let searcher = RipgrepSearcher::new("/r".to_string());
    let o = SearchOptions {
        pattern: "fn \\w+".into(),
        path: "src".into(),
        fixed_strings: false,
        case_sensitive: true,
        line_numbers: false,
        context_lines: Some(3),
        file_types: vec!["rust".into(), "js".into()],
        max_depth: Some(12),
    };
    let args = searcher.build_command(&o, "/r/src");
    assert_eq!(
        args,
        vec![
            "--no-config", "-C", "3", "-t", "rust", "-t", "js", "--max-depth", "12", "fn \\w+",
            "/r/src"
        ]
    );
}

#[test]
fn command_keeps_pattern_once_and_types_in_order() {
    let searcher = RipgrepSearcher::new("/r".to_string());
    let o = options("needle", "", vec!["c".into(), "rs".into(), "c".into()]);
    let args = searcher.build_command(&o, "/r");
    assert_eq!(args.iter().filter(|a| *a == "needle").count(), 1);
    let types: Vec<&String> = args
        .iter()
        .enumerate()
        .filter(|(i, _)| *i > 0 && args[i - 1] == "-t")
        .map(|(_, a)| a)
        .collect();
    assert_eq!(types, vec!["c", "rs", "c"]);
}

#[test]
fn exit_statuses() {
    assert!(exit_succeeded(Some(0)));
    assert!(exit_succeeded(Some(1)));
    assert!(!exit_succeeded(Some(2)));
    assert!(!exit_succeeded(None));
}

#[test]
fn hello_search_over_engine_output() {
    let searcher = RipgrepSearcher::new("/r".to_string());
    let all = b"/r/test_file.rs:1:fn hello_world() {\n/r/test_file.js:1:function helloWorld() {\n";
    let result = searcher.finish_search(Some(0), &all.to_vec(), &vec![], 4).unwrap();
    assert!(result.matches.len() >= 2);
    assert_eq!(result.stats.matched_lines, 2);
    assert_eq!(result.matches[1], "/r/test_file.js:1:function helloWorld() {");
    let rs_only = b"/r/test_file.rs:1:fn hello_world() {\n";
    let result = searcher.finish_search(Some(0), &rs_only.to_vec(), &vec![], 4).unwrap();
    assert_eq!(result.matches.len(), 1);
}

#[test]
fn no_match_status_is_success() {
    let searcher = RipgrepSearcher::new("/r".to_string());
    let result = searcher.finish_search(Some(1), &vec![], &vec![], 0).unwrap();
    assert!(result.matches.is_empty());
    assert_eq!(result.stats.matched_lines, 0);
    assert_eq!(result.stats.elapsed_ms, 0);
}

#[test]
fn failing_status_carries_error_text() {
    let searcher = RipgrepSearcher::new("/r".to_string());
    let result = searcher.finish_search(Some(2), &b"x\n".to_vec(), &b"regex parse error".to_vec(), 9);
    match result {
        Err(AppError::RipgrepError(m)) => assert_eq!(m, "Ripgrep failed: regex parse error"),
        _ => panic!("expected an engine error"),
    }
    let killed = searcher.finish_search(None, &vec![], &vec![], 9);
    assert!(matches!(killed, Err(AppError::RipgrepError(m)) if m == "Ripgrep failed: "));
}

#[test]
fn failing_status_with_invalid_error_bytes() {
    let searcher = RipgrepSearcher::new("/r".to_string());
    let result = searcher.finish_search(Some(2), &vec![], &vec![b'a', 0xff, b'b'], 1);
    match result {
        Err(AppError::RipgrepError(m)) => assert_eq!(m, "Ripgrep failed: a\u{FFFD}b"),
        _ => panic!("expected an engine error"),
    }
}

#[test]
fn invalid_output_is_engine_error() {
    let result = parse_output(&vec![b'o', b'k', b'\n', 0xc3, 0x28], 5);
    match result {
        Err(AppError::RipgrepError(m)) => assert_eq!(m, "Invalid UTF-8 in output"),
        _ => panic!("expected an engine error"),
    }
}

#[test]
fn elapsed_time_is_reported() {
    let result = parse_output(&b"a\n".to_vec(), 1234).unwrap();
    assert_eq!(result.stats.elapsed_ms, 1234);
    let empty = parse_output(&vec![], 0).unwrap();
    assert_eq!(empty.stats.elapsed_ms, 0);
    assert!(empty.matches.is_empty());
}

#[test]
fn output_lines_are_kept_verbatim() {
    let out = "a:1:  x  \r\nb:2:é\n\nc:3:y\r".as_bytes().to_vec();
    let result = parse_output(&out, 0).unwrap();
    assert_eq!(result.matches, vec!["a:1:  x  ", "b:2:é", "", "c:3:y\r"]);
    assert_eq!(result.stats.matched_lines, 4);
}

#[test]
fn split_lines_matches_std_lines() {
    let text = "foo\nbar\n\r\nbaz\r";
    let expected: Vec<String> = text.lines().map(|l| l.to_string()).collect();
    assert_eq!(split_lines(&text.as_bytes().to_vec()), expected);
    let text = "one\ntwo\n";
    let expected: Vec<String> = text.lines().map(|l| l.to_string()).collect();
    assert_eq!(split_lines(&text.as_bytes().to_vec()), expected);
}

#[test]
fn error_messages() {
    assert_eq!(AppError::RipgrepError("x".into()).message(), "Ripgrep error: x");
    assert_eq!(AppError::PathTraversal("../a".into()).message(), "Path traversal attempt: ../a");
    assert_eq!(AppError::InvalidPath("b".into()).message(), "Invalid path: b");
    assert_eq!(AppError::ConfigError("c".into()).message(), "Configuration error: c");
    assert_eq!(AppError::MCPError("d".into()).message(), "MCP error: d");
    let io = AppError::IoError(std::io::Error::new(std::io::ErrorKind::NotFound, "no rg"));
    assert_eq!(io.message(), "I/O error: no rg");
}

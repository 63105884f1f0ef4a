use tuisage::completion::{completions_from_output, parse_completion_line};

#[test]
fn test_parse_completion_line_simple() {
    let result = parse_completion_line("auth:Authentication plugin");
    assert_eq!(result, Some(("auth".to_string(), "Authentication plugin".to_string())));
}

#[test]
fn test_parse_completion_line_escaped_colon() {
    let result = parse_completion_line("host\\:port:A host:port pair");
    assert_eq!(result, Some(("host:port".to_string(), "A host:port pair".to_string())));
}

#[test]
fn test_parse_completion_line_no_description() {
    let result = parse_completion_line("simple-value");
    assert_eq!(result, None);
}

#[test]
fn test_completions_plain_lines() {
    let result = completions_from_output(true, "alpha\nbeta\ngamma\n", false);
    let (choices, descs) = result.unwrap();
    assert_eq!(choices, vec!["alpha", "beta", "gamma"]);
    assert_eq!(descs, vec![None, None, None]);
}

#[test]
fn test_completions_with_descriptions() {
    let result = completions_from_output(true, "auth:Authentication\nlog:Logging\nplain\n", true);
    let (choices, descs) = result.unwrap();
    assert_eq!(choices, vec!["auth", "log", "plain"]);
    assert_eq!(descs, vec![Some("Authentication".to_string()), Some("Logging".to_string()), None]);
}

#[test]
fn test_completions_failure_and_empty() {
    assert_eq!(completions_from_output(false, "alpha\n", false), None);
    assert_eq!(completions_from_output(true, "", false), None);
    assert_eq!(completions_from_output(true, "  \n\n", false), None);
}

#[test]
fn test_run_completion_with_descriptions() {
    // What `printf 'auth:Auth plugin\ncache:Cache layer\n'` prints.
    let result = completions_from_output(true, "auth:Auth plugin\ncache:Cache layer\n", true);
    let (choices, descriptions) = result.unwrap();
    assert_eq!(choices, vec!["auth".to_string(), "cache".to_string()]);
    assert_eq!(descriptions, vec![Some("Auth plugin".to_string()), Some("Cache layer".to_string())]);
}

#[test]
fn test_run_completion_simple() {
    // What `printf 'alpha\nbeta\ngamma\n'` prints.
    let (choices, descs) = completions_from_output(true, "alpha\nbeta\ngamma\n", false).unwrap();
    assert_eq!(choices, vec!["alpha".to_string(), "beta".to_string(), "gamma".to_string()]);
    assert!(descs.iter().all(|d| d.is_none()));
}

#[test]
fn test_run_completion_failure() {
    // `false` exits unsuccessfully with no output.
    assert!(completions_from_output(false, "", false).is_none());
}

#[test]
fn test_run_completion_empty_output() {
    // `echo ''` prints a single newline.
    assert!(completions_from_output(true, "\n", false).is_none());
}

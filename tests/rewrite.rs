use aleo_std::rewrite::{rewrite_stmts, truncate, Step, LABEL_LENGTH};

fn texts(items: &[&str]) -> Vec<String> {
    items.iter().map(|t| t.to_string()).collect()
}

#[test]
fn rewrite_keeps_order_and_marks_each() {
    let out = rewrite_stmts(
        "load".to_string(),
        vec!["s1", "s2", "s3"],
        &texts(&["let a = 1 ;", "let b = 2 ;", "a + b"]),
    );
    assert_eq!(
        out,
        vec![
            Step::Begin("load".to_string()),
            Step::Keep("s1"),
            Step::Mark("L0: let a = 1 ;".to_string()),
            Step::Keep("s2"),
            Step::Mark("L1: let b = 2 ;".to_string()),
            Step::Capture("s3"),
            Step::Mark("a + b".to_string()),
            Step::Return,
        ]
    );
}

#[test]
fn rewrite_empty_body() {
    let out = rewrite_stmts::<u32>("empty".to_string(), vec![], &vec![]);
    assert_eq!(out, vec![Step::Begin("empty".to_string())]);
}

#[test]
fn rewrite_single_statement() {
    let out = rewrite_stmts("one".to_string(), vec![7u32], &texts(&["compute ()"]));
    assert_eq!(
        out,
        vec![
            Step::Begin("one".to_string()),
            Step::Capture(7u32),
            Step::Mark("compute ()".to_string()),
            Step::Return,
        ]
    );
}

#[test]
fn rewrite_truncates_labels() {
    let long = "x".repeat(50);
    let out = rewrite_stmts("t".to_string(), vec![1u8, 2u8], &texts(&[&long, &long]));
    let short = format!("{}...", "x".repeat(45));
    assert_eq!(out[2], Step::Mark(format!("L0: {}", short)));
    assert_eq!(out[4], Step::Mark(short));
}

#[test]
fn rewrite_counts_lines_past_ten() {
    let stmts: Vec<u32> = (0..12).collect();
    let labels: Vec<String> = (0..12).map(|i| format!("s{}", i)).collect();
    let out = rewrite_stmts("many".to_string(), stmts, &labels);
    assert_eq!(out.len(), 2 * 12 + 2);
    assert_eq!(out[21], Step::Keep(10));
    assert_eq!(out[22], Step::Mark("L10: s10".to_string()));
    assert_eq!(out[23], Step::Capture(11));
    assert_eq!(out[25], Step::Return);
}

#[test]
fn truncate_at_and_under_limit() {
    let exact = "y".repeat(LABEL_LENGTH);
    assert_eq!(truncate(&exact, LABEL_LENGTH), exact);
    assert_eq!(truncate("short", LABEL_LENGTH), "short");
    assert_eq!(truncate("", LABEL_LENGTH), "");
}

#[test]
fn truncate_over_limit() {
    let over = "z".repeat(LABEL_LENGTH + 1);
    assert_eq!(truncate(&over, LABEL_LENGTH), format!("{}...", "z".repeat(LABEL_LENGTH)));
    assert_eq!(truncate("abcdef", 3), "abc...");
}

#[test]
fn truncate_counts_characters_and_joins_lines() {
    assert_eq!(truncate("let a\n= 1;", 40), "let a = 1;");
    assert_eq!(truncate("\u{b5}\u{b5}\u{b5}\u{b5}", 2), "\u{b5}\u{b5}...");
    assert_eq!(truncate("a\nb\nc", 3), "a b...");
}

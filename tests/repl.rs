use yex::repl::{classify, read_line, LineKind};

#[test]
fn lines_are_trimmed_and_classified() {
    assert_eq!(read_line("  let x = 1  \n"), ("let x = 1".to_string(), LineKind::Definition));
    assert_eq!(read_line("\tdef f x = x"), ("def f x = x".to_string(), LineKind::Definition));
    assert_eq!(read_line(" 1 + 2 "), ("1 + 2".to_string(), LineKind::Expression));
    assert_eq!(read_line("   "), (String::new(), LineKind::Skip));
    assert_eq!(read_line("  // note"), ("// note".to_string(), LineKind::Skip));
}

#[test]
fn classify_prefixes() {
    assert_eq!(classify("type T = A"), LineKind::Definition);
    assert_eq!(classify("ty"), LineKind::Expression);
    assert_eq!(classify("/ 2"), LineKind::Expression);
    assert_eq!(classify(""), LineKind::Skip);
    assert_eq!(classify("letter"), LineKind::Definition);
}

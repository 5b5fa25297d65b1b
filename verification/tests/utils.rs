use rtf_parser::utils::StrUtils;

#[test]
fn test_split_first_whitespace() {
    let text = r"\b I'm a bold string";
    let split = text.split_first_whitespace();
    assert_eq!(split, (r"\b", r"I'm a bold string"));
}

#[test]
fn split_without_a_blank_keeps_the_string() {
    assert_eq!("word".split_first_whitespace(), ("word", ""));
    assert_eq!("".split_first_whitespace(), ("", ""));
}

#[test]
fn split_at_a_leading_blank_keeps_the_string() {
    assert_eq!(" word".split_first_whitespace(), (" word", ""));
}

#[test]
fn split_at_other_blanks() {
    assert_eq!("a\tb c".split_first_whitespace(), ("a", "b c"));
    assert_eq!("a\nb".split_first_whitespace(), ("a", "b"));
    assert_eq!("a ".split_first_whitespace(), ("a", ""));
    assert_eq!("\u{e9}t\u{e9} chaud".split_first_whitespace(), ("\u{e9}t\u{e9}", "chaud"));
    assert_eq!("a\u{2003}b".split_first_whitespace(), ("a\u{2003}b", ""));
}

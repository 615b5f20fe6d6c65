use tali::helpers::ansi::visible_width;

#[test]
fn should_return_normal_width_for_regular_strings() {
    let text = "Hello World!";
    assert_eq!(text.len(), visible_width(text))
}

#[test]
fn should_return_zero_for_empty_string() {
    assert_eq!(0, visible_width(""))
}

#[test]
fn should_correctly_account_for_ansi_codes() {
    let text = "Hello World!";
    let ansi_text = "\x1b[31mHello World!\x1b[0m";
    assert_eq!(text.len(), visible_width(ansi_text))
}

#[test]
fn should_correctly_account_for_nested_ansi_codes() {
    let text = "Hello World!";
    let ansi_text = "\x1b[31mHello \x1b[32mWorld!\x1b[0m";
    assert_eq!(text.len(), visible_width(ansi_text))
}

#[test]
fn visible_width_ignores_escape_sequences() {
    assert_eq!(visible_width("Hello"), 5);
    assert_eq!(visible_width("\x1b[31mHello\x1b[0m"), 5);
    assert_eq!(visible_width("\x1b[31m\x1b[1mHello\x1b[0m"), 5);
}

#[test]
fn unterminated_sequences_count_nothing_further() {
    assert_eq!(visible_width("ab\x1b[123"), 2);
    assert_eq!(visible_width("\x1b"), 0);
}

use kaito::utils::shell_parser::{parse_shell_args, Quote};

fn strs(v: &[&str]) -> Vec<String> {
    v.iter().map(|s| s.to_string()).collect()
}

#[test]
fn quote_marks() {
    assert_eq!(Quote::Unquoted.to_str(), None);
    assert_eq!(Quote::SingleQuoted.to_str(), Some("'"));
    assert_eq!(Quote::DoubleQuoted.to_str(), Some("\""));
}

#[test]
fn splits_on_blanks() {
    assert_eq!(parse_shell_args(false, "a b  c"), strs(&["a", "b", "c"]));
    assert_eq!(parse_shell_args(false, ""), Vec::<String>::new());
    assert_eq!(parse_shell_args(false, "   "), Vec::<String>::new());
    assert_eq!(parse_shell_args(false, "\ta"), strs(&["a"]));
}

#[test]
fn tab_inside_an_argument_stays() {
    assert_eq!(parse_shell_args(false, "a\tb"), strs(&["a\tb"]));
}

#[test]
fn quotes_hold_blanks() {
    assert_eq!(parse_shell_args(false, "'a b' c"), strs(&["a b", "c"]));
    assert_eq!(parse_shell_args(false, "\"a 'b'\" c"), strs(&["a 'b'", "c"]));
    // a quote inside an argument that began without one is a character
    assert_eq!(parse_shell_args(false, "a'b c'd"), strs(&["a'b", "c'd"]));
    assert_eq!(parse_shell_args(false, "'a b'c d"), strs(&["a bc", "d"]));
}

#[test]
fn open_quote_is_kept() {
    assert_eq!(parse_shell_args(false, "'a b"), strs(&["'a b"]));
    assert_eq!(parse_shell_args(false, "\"a"), strs(&["\"a"]));
    assert_eq!(parse_shell_args(false, "'a\\"), strs(&["'a\\"]));
}

#[test]
fn backslash_escapes() {
    assert_eq!(parse_shell_args(false, "a\\ b"), strs(&["a b"]));
    assert_eq!(parse_shell_args(false, "\\'a"), strs(&["'a"]));
    assert_eq!(parse_shell_args(false, "a\\"), strs(&["a\\"]));
    assert_eq!(parse_shell_args(false, "\\"), strs(&["\\"]));
}

#[test]
fn empty_quotes_give_an_empty_argument() {
    assert_eq!(parse_shell_args(false, "''"), strs(&[""]));
}

#[test]
fn code_block_with_blank_is_its_content() {
    assert_eq!(
        parse_shell_args(true, "run ```\nprint(1)\n``` x"),
        strs(&["run", "\nprint(1)\n", "x"])
    );
    assert_eq!(parse_shell_args(true, "``` a b ```"), strs(&[" a b "]));
}

#[test]
fn code_block_with_language_keeps_fences() {
    assert_eq!(
        parse_shell_args(true, "```lua\nprint(1)```"),
        strs(&["```lua\nprint(1)```"])
    );
}

#[test]
fn code_block_takes_the_character_behind_it() {
    assert_eq!(parse_shell_args(true, "``` a```b c"), strs(&[" a", "c"]));
}

#[test]
fn code_block_needs_markdown_and_a_blank_before() {
    assert_eq!(
        parse_shell_args(false, "``` a b ```"),
        strs(&["```", "a", "b", "```"])
    );
    assert_eq!(parse_shell_args(true, "x``` a ```"), strs(&["x```", "a", "```"]));
    assert_eq!(parse_shell_args(true, "``` a b"), strs(&["```", "a", "b"]));
}

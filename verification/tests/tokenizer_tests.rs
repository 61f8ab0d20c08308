use vshell::parser::parse_arguments;

fn toks(line: &str) -> Vec<String> {
    parse_arguments(line)
}

#[test]
fn single_quotes_preserve_internal_whitespace() {
    assert_eq!(toks("echo 'a  b'"), vec!["echo".to_string(), "a  b".to_string()]);
}

#[test]
fn escaped_quote_inside_double_quotes_unescapes() {
    assert_eq!(toks("echo \"a\\\"b\""), vec!["echo".to_string(), "a\"b".to_string()]);
}

#[test]
fn unquoted_escaped_space_joins_words() {
    assert_eq!(toks("echo a\\ b"), vec!["echo".to_string(), "a b".to_string()]);
}

#[test]
fn empty_line_yields_no_tokens() {
    assert_eq!(toks(""), Vec::<String>::new());
}

#[test]
fn whitespace_only_line_yields_no_tokens() {
    assert_eq!(toks("  \t  "), Vec::<String>::new());
}

#[test]
fn runs_of_whitespace_split_once() {
    assert_eq!(toks("a   b\tc"), vec!["a".to_string(), "b".to_string(), "c".to_string()]);
}

#[test]
fn double_quotes_preserve_internal_whitespace() {
    assert_eq!(toks("\"a  b\""), vec!["a  b".to_string()]);
}

#[test]
fn tab_inside_double_quotes_is_kept() {
    assert_eq!(toks("\"a\tb\""), vec!["a\tb".to_string()]);
}

#[test]
fn backslash_before_other_char_kept_in_double_quotes() {
    // Inside double quotes only \ " $ ` and newline drop the backslash.
    assert_eq!(toks("\"a\\nb\""), vec!["a\\nb".to_string()]);
}

#[test]
fn dollar_escape_in_double_quotes_unescapes() {
    assert_eq!(toks("\"\\$x\""), vec!["$x".to_string()]);
}

#[test]
fn backtick_escape_in_double_quotes_unescapes() {
    assert_eq!(toks("\"\\`x\""), vec!["`x".to_string()]);
}

#[test]
fn backslash_is_literal_inside_single_quotes() {
    assert_eq!(toks("'a\\b'"), vec!["a\\b".to_string()]);
}

#[test]
fn double_quote_literal_inside_single_quotes() {
    assert_eq!(toks("'a\"b'"), vec!["a\"b".to_string()]);
}

#[test]
fn single_quote_literal_inside_double_quotes() {
    assert_eq!(toks("\"a'b\""), vec!["a'b".to_string()]);
}

#[test]
fn unterminated_single_quote_flushes_buffer() {
    assert_eq!(toks("'abc"), vec!["abc".to_string()]);
}

#[test]
fn trailing_backslash_is_dropped_silently() {
    assert_eq!(toks("abc\\"), vec!["abc".to_string()]);
}

#[test]
fn empty_quoted_token_is_dropped() {
    assert_eq!(toks("''"), Vec::<String>::new());
}

#[test]
fn adjacent_quoted_pieces_form_one_token() {
    assert_eq!(toks("a'b'\"c\""), vec!["abc".to_string()]);
}

#[test]
fn escape_outside_quotes_drops_backslash() {
    assert_eq!(toks("a\\nb"), vec!["anb".to_string()]);
}

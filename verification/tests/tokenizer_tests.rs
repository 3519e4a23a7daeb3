use zero_shell::tokenizer::tokenize;

fn toks(line: &str) -> Vec<String> {
    tokenize(line)
}

#[test]
fn tokenize_example_with_quotes_and_flags() {
    let r = toks("echo \"hello world\" \"\" a -laF");
    assert_eq!(r, vec!["echo", "hello world", "", "a", "-laF"]);
}

#[test]
fn whitespace_runs_collapse() {
    assert_eq!(toks("a   b"), vec!["a", "b"]);
    assert_eq!(toks("a \t  b"), vec!["a", "b"]);
}

#[test]
fn blank_inputs_have_no_tokens() {
    assert!(toks("").is_empty());
    assert!(toks("   ").is_empty());
    assert!(toks("\t\t").is_empty());
    assert!(toks(" \t \t ").is_empty());
}

#[test]
fn empty_quote_pair_is_the_only_empty_token() {
    assert_eq!(toks("\"\""), vec![""]);
    assert_eq!(toks("a \"\" b"), vec!["a", "", "b"]);
    // quotes around content produce no extra empty token
    assert_eq!(toks("\"a\""), vec!["a"]);
}

#[test]
fn quotes_keep_whitespace_literal() {
    assert_eq!(toks("\"a  b\""), vec!["a  b"]);
    assert_eq!(toks("x \"a\tb\""), vec!["x", "a\tb"]);
}

#[test]
fn unterminated_quote_is_accepted() {
    assert_eq!(toks("\"a b"), vec!["a b"]);
    assert_eq!(toks("x \"y "), vec!["x", "y "]);
}

#[test]
fn quotes_adjacent_to_content() {
    assert_eq!(toks("a\"\"b"), vec!["ab"]);
    assert_eq!(toks("\"\"x"), vec!["", "x"]);
    assert_eq!(toks("a\"b c\"d"), vec!["ab cd"]);
}

#[test]
fn rejoin_preserves_content() {
    // joining the tokens with single spaces keeps every character that is
    // not a separator or a quote, in order
    for line in [
        "a   \"b c\"  d",
        "echo \"hello world\" \"\" a -laF",
        "  x\ty  ",
        "\"unterminated  run",
        "a\"\"b \"\" c",
    ] {
        let joined = toks(line).join(" ");
        let content_of = |s: &str| {
            s.chars()
                .filter(|c| *c != ' ' && *c != '\t' && *c != '"')
                .collect::<String>()
        };
        assert_eq!(content_of(&joined), content_of(line), "line {:?}", line);
    }
}

use zero_shell::command::parse_command;

#[test]
fn parse_example_groups_name_args_flags() {
    let c = parse_command("echo \"hello world\" \"\" a -laF").unwrap();
    assert_eq!(c.name, "echo");
    assert_eq!(c.args, vec!["hello world", "", "a"]);
    assert_eq!(c.flags, vec!['l', 'a', 'F']);
}

#[test]
fn blank_line_parses_to_nothing() {
    assert!(parse_command("").is_none());
    assert!(parse_command("   \t ").is_none());
}

#[test]
fn leading_empty_token_parses_to_nothing() {
    // a command's name is never empty: an empty-quote first token is
    // rejected like a blank line
    assert!(parse_command("\"\"").is_none());
    assert!(parse_command("\"\" a b").is_none());
    assert!(parse_command("\"\" -l").is_none());
    // an empty token elsewhere is an ordinary argument
    let c = parse_command("echo \"\"").unwrap();
    assert_eq!(c.name, "echo");
    assert_eq!(c.args, vec![""]);
}

#[test]
fn bare_dash_is_an_argument() {
    let c = parse_command("ls - -l").unwrap();
    assert_eq!(c.name, "ls");
    assert_eq!(c.args, vec!["-"]);
    assert_eq!(c.flags, vec!['l']);
}

#[test]
fn bare_dash_alone_is_the_name() {
    let c = parse_command("-").unwrap();
    assert_eq!(c.name, "-");
    assert!(c.args.is_empty());
    assert!(c.flags.is_empty());
}

#[test]
fn flag_characters_keep_order_and_duplicates() {
    let c = parse_command("rm -rr -vr x").unwrap();
    assert_eq!(c.flags, vec!['r', 'r', 'v', 'r']);
    assert_eq!(c.args, vec!["x"]);
}

#[test]
fn quoted_dash_token_is_still_a_flag_source() {
    // tokenization strips the quotes; classification sees the dash
    let c = parse_command("ls \"-l\"").unwrap();
    assert_eq!(c.flags, vec!['l']);
    assert!(c.args.is_empty());
}

#[test]
fn argument_order_is_preserved() {
    let c = parse_command("cp -v src1 src2 dest").unwrap();
    assert_eq!(c.args, vec!["src1", "src2", "dest"]);
    assert_eq!(c.flags, vec!['v']);
}

use zero_shell::editor::{EditStep, Key, LineEditor};

fn type_word(ed: &mut LineEditor, word: &str) {
    for c in word.chars() {
        let step = ed.handle_key(Key::Char(c));
        assert!(matches!(step, EditStep::Edited));
    }
}

fn buffer_text(ed: &LineEditor) -> String {
    ed.buffer.iter().collect()
}

#[test]
fn begin_enters_raw_mode_with_empty_buffer() {
    let ed = LineEditor::begin();
    assert!(ed.raw_mode);
    assert!(ed.buffer.is_empty());
}

#[test]
fn printable_characters_append() {
    let mut ed = LineEditor::begin();
    type_word(&mut ed, "ls -l");
    assert_eq!(buffer_text(&ed), "ls -l");
}

#[test]
fn backspace_removes_last_and_is_noop_when_empty() {
    let mut ed = LineEditor::begin();
    assert!(matches!(ed.handle_key(Key::Backspace), EditStep::Edited));
    assert!(ed.buffer.is_empty());
    type_word(&mut ed, "ab");
    ed.handle_key(Key::Backspace);
    assert_eq!(buffer_text(&ed), "a");
}

#[test]
fn tab_appends_a_literal_tab() {
    let mut ed = LineEditor::begin();
    type_word(&mut ed, "a");
    ed.handle_key(Key::Tab);
    assert_eq!(buffer_text(&ed), "a\t");
}

#[test]
fn enter_commits_the_buffer_and_leaves_raw_mode() {
    let mut ed = LineEditor::begin();
    type_word(&mut ed, "pwd");
    match ed.handle_key(Key::Enter) {
        EditStep::Committed(line) => assert_eq!(line, "pwd"),
        _ => panic!("expected a commit"),
    }
    assert!(!ed.raw_mode);
}

#[test]
fn cancel_discards_the_buffer_but_keeps_editing() {
    let mut ed = LineEditor::begin();
    type_word(&mut ed, "rm -rf /");
    let step = ed.handle_key(Key::Cancel);
    // the session goes on: no commit, no end of input, raw mode kept
    assert!(matches!(step, EditStep::Edited));
    assert!(ed.buffer.is_empty());
    assert!(ed.raw_mode);
}

#[test]
fn end_of_input_ends_the_session_and_restores_the_mode() {
    let mut ed = LineEditor::begin();
    type_word(&mut ed, "partial");
    let step = ed.handle_key(Key::EndOfInput);
    assert!(matches!(step, EditStep::NoMoreInput));
    assert!(!ed.raw_mode);
}

#[test]
fn navigation_keys_change_nothing() {
    let mut ed = LineEditor::begin();
    type_word(&mut ed, "abc");
    let step = ed.handle_key(Key::Nav);
    assert!(matches!(step, EditStep::Edited));
    assert_eq!(buffer_text(&ed), "abc");
    assert!(ed.raw_mode);
}

#[test]
fn paste_appends_verbatim() {
    let mut ed = LineEditor::begin();
    type_word(&mut ed, "a");
    ed.handle_key(Key::Paste("b  c".to_string()));
    assert_eq!(buffer_text(&ed), "ab  c");
}

#[test]
fn redraw_is_a_pure_function_of_prompt_and_buffer() {
    let mut ed = LineEditor::begin();
    type_word(&mut ed, "ls");
    let once = ed.render("p$ ");
    let twice = ed.render("p$ ");
    assert_eq!(once, twice);
    assert_eq!(once, "\rp$ ls\u{1b}[K");
}

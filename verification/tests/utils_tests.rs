use wat_lsp_rust::types::Position;
use wat_lsp_rust::syntax::NodeKind;
use wat_lsp_rust::utils::{apply_text_edit, get_word_at_position, is_word_char, node_at_position, position_to_byte};

#[test]
fn test_apply_text_edit_insert() {
    let mut text = String::from("hello world");
    let start = Position::new(0, 6);
    let end = Position::new(0, 6);

    apply_text_edit(&mut text, start, end, "beautiful ");
    assert_eq!(text, "hello beautiful world");
}

#[test]
fn test_apply_text_edit_replace() {
    let mut text = String::from("hello world");
    let start = Position::new(0, 6);
    let end = Position::new(0, 11);

    apply_text_edit(&mut text, start, end, "Rust");
    assert_eq!(text, "hello Rust");
}

#[test]
fn test_apply_text_edit_delete() {
    let mut text = String::from("hello world");
    let start = Position::new(0, 5);
    let end = Position::new(0, 11);

    apply_text_edit(&mut text, start, end, "");
    assert_eq!(text, "hello");
}

#[test]
fn test_apply_text_edit_multiline() {
    let mut text = String::from("hello world");
    let start = Position::new(0, 6);
    let end = Position::new(0, 11);

    let new_end = apply_text_edit(&mut text, start, end, "beautiful\nRust");
    assert_eq!(text, "hello beautiful\nRust");
    assert_eq!(new_end.line, 1);
    assert_eq!(new_end.character, 4);
}


#[test]
fn test_node_at_position_identifier() {
    let source = "(func $test)";
    let text = |n: &wat_lsp_rust::syntax::SyntaxNode| -> String {
        source.chars().skip(n.start).take(n.end - n.start).collect()
    };

    // Position at '$' of $test
    let node = node_at_position(source, Position::new(0, 6)).unwrap();
    assert_eq!(node.kind, NodeKind::Identifier);
    assert_eq!(text(&node), "$test");

    // Position at 't' of $test
    let node = node_at_position(source, Position::new(0, 7)).unwrap();
    assert_eq!(node.kind, NodeKind::Identifier);
    assert_eq!(text(&node), "$test");
}

#[test]
fn position_past_last_line_is_end_of_text() {
    assert_eq!(position_to_byte("ab", Position::new(1, 0)), 2);
    assert_eq!(position_to_byte("ab\ncd", Position::new(5, 3)), 5);
    assert_eq!(position_to_byte("ab\ncd", Position::new(1, 1)), 4);
}

#[test]
fn insert_ending_in_newline_ends_at_next_line_start() {
    let mut text = String::from("xy");
    let p = apply_text_edit(&mut text, Position::new(0, 0), Position::new(0, 0), "ab\n");
    assert_eq!(text, "ab\nxy");
    assert_eq!(p, Position::new(1, 0));
}

#[test]
fn insert_without_newline_moves_right() {
    let mut text = String::from("xy");
    let p = apply_text_edit(&mut text, Position::new(0, 1), Position::new(0, 1), "abc");
    assert_eq!(text, "xabcy");
    assert_eq!(p, Position::new(0, 4));
}

#[test]
fn word_is_longest_run_around_column() {
    assert_eq!(get_word_at_position("(local.get $x)", Position::new(0, 4)).as_deref(), Some("local.get"));
    assert_eq!(get_word_at_position("(local.get $x)", Position::new(0, 1)).as_deref(), Some("local.get"));
    assert_eq!(get_word_at_position("(local.get $x)", Position::new(0, 13)).as_deref(), Some("$x"));
    assert_eq!(get_word_at_position("( )", Position::new(0, 1)), None);
    assert!(is_word_char('a') && is_word_char('_') && !is_word_char('('));
}

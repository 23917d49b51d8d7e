use pound::editor::{Action, Editor, QUIT_TIMES};
use pound::editor_rows::{EditorRows, SaveError};
use pound::keys::{KeyCode, KeyEvent, KeyModifiers};
use pound::output::Output;
use pound::row::{HighlightType, Row, TAB_STOP};
use pound::status::StatusMessage;

fn chars(s: &str) -> Vec<char> {
    s.chars().collect()
}

fn text_of(v: &[char]) -> String {
    v.iter().collect()
}

fn output_with(text: &str, win_size: (usize, usize)) -> Output {
    let rows = EditorRows::from_file(String::from("notes.txt"), &chars(text), None);
    Output::new(win_size, rows, None, StatusMessage::new(String::from("hello"), 0))
}

fn row_text(o: &Output, i: usize) -> String {
    text_of(&o.editor_rows.row_contents[i].row_content)
}

fn cursor(o: &Output) -> (usize, usize) {
    (o.cursor_controller.cursor_x, o.cursor_controller.cursor_y)
}

fn key(code: KeyCode) -> KeyEvent {
    KeyEvent { code, modifiers: KeyModifiers::Plain }
}

fn ctrl(c: char) -> KeyEvent {
    KeyEvent { code: KeyCode::Char(c), modifiers: KeyModifiers::Control }
}

#[test]
fn right_moves_then_wraps_to_next_row() {
    let mut o = output_with("abc\ndef", (80, 24));
    o.move_cursor(KeyCode::Right);
    o.move_cursor(KeyCode::Right);
    o.move_cursor(KeyCode::Right);
    assert_eq!(cursor(&o), (3, 0));
    o.move_cursor(KeyCode::Right);
    assert_eq!(cursor(&o), (0, 1));
}

#[test]
fn right_stops_at_end_of_last_row() {
    let mut o = output_with("ab", (80, 24));
    for _ in 0..5 {
        o.move_cursor(KeyCode::Right);
    }
    assert_eq!(cursor(&o), (2, 0));
}

#[test]
fn insert_char_at_start_of_row() {
    let mut o = output_with("abc", (80, 24));
    o.insert_char('x');
    assert_eq!(row_text(&o, 0), "xabc");
    assert_eq!(cursor(&o), (1, 0));
    assert!(o.dirty > 0);
}

#[test]
fn insert_char_past_the_end_adds_a_row() {
    let mut o = output_with("abc", (80, 24));
    o.move_cursor(KeyCode::Down);
    assert_eq!(cursor(&o), (0, 1));
    o.insert_char('z');
    assert_eq!(o.editor_rows.number_of_rows(), 2);
    assert_eq!(row_text(&o, 1), "z");
    assert_eq!(cursor(&o), (1, 1));
}

#[test]
fn tab_expands_to_next_tab_stop() {
    let row = Row::new(chars("a\tb"));
    assert_eq!(text_of(&row.render), "a       b");
    assert_eq!(row.render.len(), 9);
}

#[test]
fn tabs_end_on_tab_stops() {
    let raw = chars("\tab\t\tc\t");
    let row = Row::new(raw.clone());
    assert!(row.render.len() >= raw.len());
    let mut col = 0;
    for c in &raw {
        if *c == '\t' {
            col += TAB_STOP - col % TAB_STOP;
            assert_eq!(col % TAB_STOP, 0);
        } else {
            col += 1;
        }
    }
    assert_eq!(row.render.len(), col);
    assert_eq!(text_of(&row.render), "        ab              c       ");
}

#[test]
fn search_finds_keyword_on_later_row() {
    let mut o = output_with("abc\ndef", (80, 24));
    o.find_callback(&chars("def"), KeyCode::Char('f'));
    assert_eq!(cursor(&o), (0, 1));
    let h = &o.editor_rows.row_contents[1].highlight;
    assert_eq!(h.len(), 3);
    assert!(h.iter().all(|t| *t == HighlightType::SearchMatch));
    assert!(o.editor_rows.row_contents[0].highlight.iter().all(|t| *t == HighlightType::Normal));
    assert_eq!(o.cursor_controller.row_offset, 2);
}

#[test]
fn search_ends_without_leftover_match() {
    let mut o = output_with("abc\ndef\nxdefx", (80, 24));
    o.find_callback(&chars("d"), KeyCode::Char('d'));
    o.find_callback(&chars("de"), KeyCode::Char('e'));
    o.find_callback(&chars("def"), KeyCode::Down);
    assert_eq!(cursor(&o), (1, 2));
    o.find_callback(&chars("def"), KeyCode::Esc);
    assert!(o.previous_highlight.is_none());
    for row in &o.editor_rows.row_contents {
        assert_eq!(row.highlight.len(), row.render.len());
        assert!(row.highlight.iter().all(|t| *t != HighlightType::SearchMatch));
    }
}

#[test]
fn search_enter_keeps_cursor_at_match() {
    let mut o = output_with("one\ntwo", (80, 24));
    o.find_callback(&chars("wo"), KeyCode::Char('o'));
    assert_eq!(cursor(&o), (1, 1));
    o.find_callback(&chars("wo"), KeyCode::Enter);
    assert_eq!(cursor(&o), (1, 1));
    assert!(o.previous_highlight.is_none());
    assert!(o.editor_rows.row_contents[1].highlight.iter().all(|t| *t == HighlightType::Normal));
}

#[test]
fn search_left_and_right_within_row() {
    let mut o = output_with("ab ab ab", (80, 24));
    o.find_callback(&chars("ab"), KeyCode::Char('b'));
    assert_eq!(cursor(&o), (0, 0));
    o.move_cursor(KeyCode::Right);
    o.find_callback(&chars("ab"), KeyCode::Right);
    assert_eq!(cursor(&o), (3, 0));
    o.move_cursor(KeyCode::Right);
    o.find_callback(&chars("ab"), KeyCode::Right);
    assert_eq!(cursor(&o), (6, 0));
    o.find_callback(&chars("ab"), KeyCode::Left);
    assert_eq!(cursor(&o), (3, 0));
    let h = &o.editor_rows.row_contents[0].highlight;
    assert_eq!(h[3], HighlightType::SearchMatch);
    assert_eq!(h[4], HighlightType::SearchMatch);
    assert_eq!(h[6], HighlightType::Normal);
}

#[test]
fn search_up_scans_rows_above() {
    let mut o = output_with("key\nnone\nkey two\nlast", (80, 24));
    for _ in 0..3 {
        o.move_cursor(KeyCode::Down);
    }
    o.find_callback(&chars("key"), KeyCode::Up);
    assert_eq!(cursor(&o), (0, 2));
}

#[test]
fn search_without_match_leaves_cursor() {
    let mut o = output_with("abc\ndef", (80, 24));
    o.move_cursor(KeyCode::Right);
    o.find_callback(&chars("zzz"), KeyCode::Char('z'));
    assert_eq!(cursor(&o), (1, 0));
    assert!(o.previous_highlight.is_none());
}

#[test]
fn save_then_load_gives_same_rows() {
    let text = "first\n\tsecond\n\nlast line";
    let rows = EditorRows::from_file(String::from("f.txt"), &chars(text), None);
    let saved = rows.save().unwrap();
    assert_eq!(text_of(&saved), text);
    let again = EditorRows::from_file(String::from("f.txt"), &saved, None);
    assert_eq!(again.number_of_rows(), rows.number_of_rows());
    for i in 0..rows.number_of_rows() {
        assert_eq!(again.row_contents[i].row_content, rows.row_contents[i].row_content);
    }
}

#[test]
fn load_splits_lines_without_trailing_empty_row() {
    let rows = EditorRows::from_file(String::from("f.txt"), &chars("a\r\nb\n"), None);
    assert_eq!(rows.number_of_rows(), 2);
    assert_eq!(text_of(&rows.row_contents[0].row_content), "a");
    assert_eq!(text_of(&rows.row_contents[1].row_content), "b");
    let empty = EditorRows::from_file(String::from("f.txt"), &Vec::new(), None);
    assert_eq!(empty.number_of_rows(), 0);
    let blank = EditorRows::from_file(String::from("f.txt"), &chars("\n"), None);
    assert_eq!(blank.number_of_rows(), 1);
}

#[test]
fn save_without_file_name_fails() {
    let rows = EditorRows::new();
    assert_eq!(rows.save(), Err(SaveError::NoFileName));
    assert!(rows.contents().is_empty());
}

#[test]
fn cursor_stays_inside_document() {
    let mut o = output_with("long line here\nab\n\nxyz", (10, 5));
    let keys = [
        KeyCode::End,
        KeyCode::Down,
        KeyCode::Down,
        KeyCode::Right,
        KeyCode::Up,
        KeyCode::Up,
        KeyCode::End,
        KeyCode::Down,
        KeyCode::Left,
        KeyCode::Down,
        KeyCode::Down,
        KeyCode::Down,
        KeyCode::Home,
        KeyCode::Left,
        KeyCode::Right,
    ];
    for k in keys {
        o.move_cursor(k);
        let (x, y) = cursor(&o);
        let n = o.editor_rows.number_of_rows();
        assert!(y <= n);
        let len = if y < n { o.editor_rows.row_contents[y].row_content.len() } else { 0 };
        assert!(x <= len);
    }
}

#[test]
fn left_at_row_start_goes_to_end_of_previous_row() {
    let mut o = output_with("abcdefghijklmnop\nx", (10, 5));
    o.move_cursor(KeyCode::Down);
    o.move_cursor(KeyCode::Left);
    assert_eq!(cursor(&o), (16, 0));
    assert_eq!(o.cursor_controller.column_offset, 6);
}

#[test]
fn end_moves_to_end_of_row_with_tabs() {
    let mut o = output_with("\tab", (80, 24));
    o.move_cursor(KeyCode::End);
    assert_eq!(cursor(&o), (3, 0));
}

#[test]
fn scroll_keeps_cursor_in_viewport() {
    let mut text = String::new();
    for i in 0..30 {
        text.push_str(&format!("line {}\t{}\n", i, "x".repeat(i)));
    }
    let mut o = output_with(&text, (12, 5));
    for _ in 0..12 {
        o.move_cursor(KeyCode::Down);
    }
    for _ in 0..15 {
        o.move_cursor(KeyCode::Right);
    }
    let rows = &o.editor_rows;
    o.cursor_controller.scroll(rows);
    let c = o.cursor_controller;
    assert_eq!(c.cursor_y, 12);
    assert_eq!(c.row_offset, 8);
    assert_eq!(c.render_x, 15);
    assert_eq!(c.column_offset, 4);
    assert!(c.row_offset <= c.cursor_y && c.cursor_y < c.row_offset + 5);
    assert!(c.column_offset <= c.render_x && c.render_x < c.column_offset + 12);
}

#[test]
fn edits_keep_highlight_sized_to_render() {
    let rows = EditorRows::from_file(String::from("m.rs"), &chars("let x = 12;\n\tfoo(3.5)"), Output::select_syntax("rs"));
    let mut o = Output::new((80, 24), rows, Output::select_syntax("rs"), StatusMessage::new(String::new(), 0));
    o.insert_char('\t');
    o.insert_char('7');
    o.insert_newline();
    o.move_cursor(KeyCode::Down);
    o.move_cursor(KeyCode::End);
    o.delete_char();
    o.move_cursor(KeyCode::Home);
    o.delete_char();
    for row in &o.editor_rows.row_contents {
        assert_eq!(row.highlight.len(), row.render.len());
    }
}

#[test]
fn numbers_are_highlighted_after_separators() {
    let rows = EditorRows::from_file(String::from("m.rs"), &chars("a1 12.5 x(3)"), Output::select_syntax("rs"));
    let h = &rows.row_contents[0].highlight;
    let n = HighlightType::Normal;
    let d = HighlightType::Number;
    assert_eq!(h, &vec![n, n, n, d, d, d, d, n, n, n, d, n]);
}

#[test]
fn ideographic_space_separates_numbers() {
    let rows = EditorRows::from_file(String::from("m.rs"), &chars("a\u{3000}5"), Output::select_syntax("rs"));
    let h = &rows.row_contents[0].highlight;
    assert_eq!(h[2], HighlightType::Number);
    let rows = EditorRows::from_file(String::from("m.rs"), &chars("a_5"), Output::select_syntax("rs"));
    assert_eq!(rows.row_contents[0].highlight[2], HighlightType::Normal);
}

#[test]
fn syntax_is_chosen_by_extension() {
    assert!(Output::select_syntax("rs").is_some());
    assert!(Output::select_syntax("rust").is_some());
    assert!(Output::select_syntax("txt").is_none());
    assert!(Output::select_syntax("r").is_none());
}

#[test]
fn newline_splits_row() {
    let mut o = output_with("hello", (80, 24));
    o.move_cursor(KeyCode::Right);
    o.move_cursor(KeyCode::Right);
    o.insert_newline();
    assert_eq!(row_text(&o, 0), "he");
    assert_eq!(row_text(&o, 1), "llo");
    assert_eq!(cursor(&o), (0, 1));
    o.insert_newline();
    assert_eq!(o.editor_rows.number_of_rows(), 3);
    assert_eq!(row_text(&o, 1), "");
    assert_eq!(row_text(&o, 2), "llo");
    assert_eq!(cursor(&o), (0, 2));
}

#[test]
fn backspace_at_row_start_joins_rows() {
    let mut o = output_with("ab\ncd", (80, 24));
    o.move_cursor(KeyCode::Down);
    o.delete_char();
    assert_eq!(o.editor_rows.number_of_rows(), 1);
    assert_eq!(row_text(&o, 0), "abcd");
    assert_eq!(cursor(&o), (2, 0));
    o.delete_char();
    assert_eq!(row_text(&o, 0), "acd");
    assert_eq!(cursor(&o), (1, 0));
}

#[test]
fn backspace_at_document_start_changes_nothing() {
    let mut o = output_with("ab", (80, 24));
    o.delete_char();
    assert_eq!(row_text(&o, 0), "ab");
    assert_eq!(o.dirty, 0);
}

#[test]
fn three_quit_requests_leave_a_dirty_editor() {
    let mut e = Editor::new(output_with("abc", (80, 24)));
    e.process_key(key(KeyCode::Char('x')));
    assert!(e.output.dirty > 0);
    assert_eq!(e.process_key(ctrl('q')), Action::QuitWarning(2));
    assert_eq!(e.process_key(ctrl('q')), Action::QuitWarning(1));
    assert_eq!(e.process_key(ctrl('q')), Action::Quit);
}

#[test]
fn other_key_refills_quit_countdown() {
    let mut e = Editor::new(output_with("abc", (80, 24)));
    e.process_key(key(KeyCode::Char('x')));
    assert_eq!(e.process_key(ctrl('q')), Action::QuitWarning(2));
    assert_eq!(e.process_key(key(KeyCode::Left)), Action::Continue);
    assert_eq!(e.quit_times, QUIT_TIMES);
    assert_eq!(e.process_key(ctrl('q')), Action::QuitWarning(2));
}

#[test]
fn clean_editor_quits_at_once() {
    let mut e = Editor::new(output_with("abc", (80, 24)));
    assert_eq!(e.process_key(ctrl('q')), Action::Quit);
}

#[test]
fn ctrl_s_asks_to_save_and_saved_clears_dirty() {
    let mut e = Editor::new(output_with("abc", (80, 24)));
    e.process_key(key(KeyCode::Tab));
    assert_eq!(row_text(&e.output, 0), "\tabc");
    assert_eq!(e.process_key(ctrl('s')), Action::Save);
    e.saved();
    assert_eq!(e.output.dirty, 0);
}

#[test]
fn delete_key_removes_character_under_cursor() {
    let mut e = Editor::new(output_with("abc", (80, 24)));
    e.process_key(key(KeyCode::Delete));
    assert_eq!(row_text(&e.output, 0), "bc");
    assert_eq!(cursor(&e.output), (0, 0));
}

#[test]
fn page_down_then_up() {
    let mut text = String::new();
    for i in 0..20 {
        text.push_str(&format!("{}\n", i));
    }
    let mut e = Editor::new(output_with(&text, (80, 5)));
    e.process_key(key(KeyCode::PageDown));
    assert_eq!(e.output.cursor_controller.cursor_y, 9);
    e.output.cursor_controller.row_offset = 5;
    e.process_key(key(KeyCode::PageUp));
    assert_eq!(e.output.cursor_controller.cursor_y, 0);
}

#[test]
fn status_message_expires_after_five_seconds() {
    let mut m = StatusMessage::new(String::from("hi"), 1000);
    assert_eq!(m.message(6000).map(|s| s.clone()), Some(String::from("hi")));
    assert_eq!(m.message(6001), None);
    assert!(m.message.is_none());
    m.set_message(String::from("again"), 7000);
    assert_eq!(m.message(7001).map(|s| s.as_str()), Some("again"));
}

#[test]
fn typing_reclassifies_the_row() {
    let rows = EditorRows::from_file(String::from("m.rs"), &chars("a 1"), Output::select_syntax("rs"));
    let mut o = Output::new((80, 24), rows, Output::select_syntax("rs"), StatusMessage::new(String::new(), 0));
    o.move_cursor(KeyCode::End);
    o.insert_char('2');
    assert_eq!(row_text(&o, 0), "a 12");
    let n = HighlightType::Normal;
    let d = HighlightType::Number;
    assert_eq!(o.editor_rows.row_contents[0].highlight, vec![n, n, d, d]);
}

#[test]
fn backspace_past_the_end_changes_nothing() {
    let mut o = output_with("ab\ncd", (80, 24));
    o.move_cursor(KeyCode::Down);
    o.move_cursor(KeyCode::Down);
    assert_eq!(cursor(&o), (0, 2));
    o.delete_char();
    assert_eq!(o.editor_rows.number_of_rows(), 2);
    assert_eq!(row_text(&o, 1), "cd");
    assert_eq!(cursor(&o), (0, 2));
    assert_eq!(o.dirty, 0);
}

#[test]
fn left_wrap_shows_end_of_tabbed_row() {
    let mut o = output_with("\t\tab\nx", (10, 5));
    o.move_cursor(KeyCode::Down);
    o.move_cursor(KeyCode::Left);
    assert_eq!(cursor(&o), (4, 0));
    assert_eq!(o.cursor_controller.column_offset, 8);
}

#[test]
fn page_keys_leave_text_and_dirty_alone() {
    let mut e = Editor::new(output_with("a\nb\nc\nd", (80, 2)));
    e.process_key(key(KeyCode::PageDown));
    assert_eq!(e.output.cursor_controller.cursor_y, 3);
    assert_eq!(e.output.dirty, 0);
    assert_eq!(row_text(&e.output, 3), "d");
}

#[test]
fn unbound_key_changes_nothing_but_the_countdown() {
    let mut e = Editor::new(output_with("abc", (80, 24)));
    e.process_key(key(KeyCode::Char('x')));
    assert_eq!(e.process_key(ctrl('q')), Action::QuitWarning(2));
    let dirty = e.output.dirty;
    let before = cursor(&e.output);
    assert_eq!(e.process_key(ctrl('x')), Action::Continue);
    assert_eq!(e.process_key(key(KeyCode::Other)), Action::Continue);
    assert_eq!(e.output.dirty, dirty);
    assert_eq!(cursor(&e.output), before);
    assert_eq!(row_text(&e.output, 0), "xabc");
    assert_eq!(e.quit_times, QUIT_TIMES);
}

use pound::contents::{Command, EditorContents};
use pound::cursor_controller::CursorController;
use pound::editor_rows::EditorRows;
use pound::keys::KeyCode;
use pound::row::{HighlightType, Row};
use pound::search::{find_from, mark_match, matches_at, rfind_before};

fn chars(s: &str) -> Vec<char> {
    s.chars().collect()
}

#[test]
fn raw_column_for_rendered_column() {
    let row = Row::new(chars("a\tbc"));
    assert_eq!(row.get_row_content_x(0), 0);
    assert_eq!(row.get_row_content_x(1), 1);
    assert_eq!(row.get_row_content_x(7), 1);
    assert_eq!(row.get_row_content_x(8), 2);
    assert_eq!(row.get_row_content_x(9), 3);
    assert_eq!(row.get_row_content_x(10), 0);
}

#[test]
fn rendered_column_of_cursor() {
    let row = Row::new(chars("a\tbc"));
    let mut c = CursorController::new((80, 24));
    c.cursor_x = 2;
    assert_eq!(c.get_render_x(&row), 8);
    c.cursor_x = 4;
    assert_eq!(c.get_render_x(&row), 10);
}

#[test]
fn row_edits_render_again() {
    let mut row = Row::new(chars("ab"));
    row.insert_char(1, '\t');
    assert_eq!(row.row_content, chars("a\tb"));
    assert_eq!(row.render.len(), 9);
    assert_eq!(row.highlight.len(), 9);
    row.delete_char(1);
    assert_eq!(row.render, chars("ab"));
    assert_eq!(row.origin_len(), 2);
    assert_eq!(row.render_len(), 2);
}

#[test]
fn substring_search_forward_and_backward() {
    let text = chars("abcabc");
    let kw = chars("bc");
    assert!(matches_at(&text, &kw, 1));
    assert!(!matches_at(&text, &kw, 2));
    assert!(!matches_at(&text, &kw, 5));
    assert_eq!(find_from(&text, &kw, 0), Some(1));
    assert_eq!(find_from(&text, &kw, 2), Some(4));
    assert_eq!(find_from(&text, &kw, 5), None);
    assert_eq!(rfind_before(&text, &kw, 6), Some(4));
    assert_eq!(rfind_before(&text, &kw, 5), Some(1));
    assert_eq!(rfind_before(&text, &kw, 2), None);
    assert_eq!(find_from(&text, &Vec::new(), 3), Some(3));
    assert_eq!(rfind_before(&text, &Vec::new(), 3), Some(3));
}

#[test]
fn marking_a_match() {
    let mut h = vec![HighlightType::Normal; 5];
    mark_match(&mut h, 1, 3);
    assert_eq!(
        h,
        vec![
            HighlightType::Normal,
            HighlightType::SearchMatch,
            HighlightType::SearchMatch,
            HighlightType::SearchMatch,
            HighlightType::Normal,
        ]
    );
}

#[test]
fn insert_and_join_rows() {
    let mut rows = EditorRows::from_file(String::from("f"), &chars("one\nthree"), None);
    rows.insert_row(1, chars("two"));
    assert_eq!(rows.number_of_rows(), 3);
    assert_eq!(rows.get_editor_row(1).row_content, chars("two"));
    assert_eq!(rows.get_render(2), &chars("three"));
    rows.join_adjacent_rows(2);
    assert_eq!(rows.number_of_rows(), 2);
    assert_eq!(rows.row_contents[1].row_content, chars("twothree"));
    assert_eq!(rows.contents(), chars("one\ntwothree"));
}

#[test]
fn render_row_recomputes_render() {
    let mut row = Row::new(chars("x"));
    row.row_content = chars("\ty");
    EditorRows::render_row(&mut row);
    assert_eq!(row.render, chars("        y"));
    assert_eq!(row.highlight.len(), 9);
}

#[test]
fn output_buffer_collects_commands() {
    let mut out = EditorContents::new();
    out.push('a');
    out.push_str("bc");
    out.queue(Command::ClearUntilNewLine);
    out.push_spaces(2);
    assert_eq!(
        out.content,
        vec![
            Command::Print('a'),
            Command::Print('b'),
            Command::Print('c'),
            Command::ClearUntilNewLine,
            Command::Print(' '),
            Command::Print(' '),
        ]
    );
}

#[test]
fn up_and_down_clamp_column() {
    let rows = EditorRows::from_file(String::from("f"), &chars("long row\nab"), None);
    let mut c = CursorController::new((80, 24));
    c.move_cursor(KeyCode::End, &rows);
    assert_eq!((c.cursor_x, c.cursor_y), (8, 0));
    assert_eq!(c.move_cursor(KeyCode::Down, &rows), (2, 1));
    assert_eq!(c.move_cursor(KeyCode::Down, &rows), (0, 2));
    assert_eq!(c.move_cursor(KeyCode::Down, &rows), (0, 2));
    assert_eq!(c.move_cursor(KeyCode::Up, &rows), (0, 1));
}

use pound::contents::{Color, Command, EditorContents};
use pound::editor_rows::EditorRows;
use pound::highlight::{is_separator, SyntaxHighlight};
use pound::keys::{KeyCode, KeyEvent, KeyModifiers};
use pound::output::Output;
use pound::prompt::{Prompt, PromptStep};
use pound::row::HighlightType;
use pound::screen::decimal_chars;
use pound::status::StatusMessage;

fn chars(s: &str) -> Vec<char> {
    s.chars().collect()
}

fn printed(cmds: &[Command]) -> String {
    cmds.iter()
        .filter_map(|c| match c {
            Command::Print(ch) => Some(*ch),
            _ => None,
        })
        .collect()
}

fn output_for(path: &str, text: &str, win_size: (usize, usize)) -> Output {
    let rows = EditorRows::from_file(String::from(path), &chars(text), None);
    Output::new(win_size, rows, None, StatusMessage::new(String::from("hi there"), 0))
}

fn plain(code: KeyCode) -> KeyEvent {
    KeyEvent { code, modifiers: KeyModifiers::Plain }
}

#[test]
fn prompt_collects_and_edits_input() {
    let mut p = Prompt::new();
    assert_eq!(p.on_key(plain(KeyCode::Char('a'))), PromptStep::Continue);
    assert_eq!(p.on_key(KeyEvent { code: KeyCode::Char('B'), modifiers: KeyModifiers::Shift }), PromptStep::Continue);
    assert_eq!(p.on_key(plain(KeyCode::Char('c'))), PromptStep::Continue);
    assert_eq!(p.on_key(plain(KeyCode::Backspace)), PromptStep::Continue);
    assert_eq!(p.on_key(plain(KeyCode::Up)), PromptStep::Continue);
    assert_eq!(p.input, chars("aB"));
    assert_eq!(p.on_key(plain(KeyCode::Enter)), PromptStep::Done);
    assert_eq!(p.result(), Some(chars("aB")));
}

#[test]
fn prompt_escape_cancels() {
    let mut p = Prompt::new();
    p.on_key(plain(KeyCode::Char('x')));
    assert_eq!(p.on_key(plain(KeyCode::Esc)), PromptStep::Cancelled);
    assert_eq!(p.result(), None);
    let mut q = Prompt::new();
    assert_eq!(q.on_key(plain(KeyCode::Enter)), PromptStep::Done);
    assert_eq!(q.result(), None);
}

#[test]
fn decimal_digits() {
    assert_eq!(decimal_chars(0), chars("0"));
    assert_eq!(decimal_chars(7), chars("7"));
    assert_eq!(decimal_chars(1205), chars("1205"));
}

#[test]
fn separators() {
    assert!(is_separator(' '));
    assert!(is_separator('\t'));
    assert!(is_separator('\u{2003}'));
    assert!(is_separator(';'));
    assert!(!is_separator('a'));
    assert!(!is_separator('_'));
}

#[test]
fn rows_are_drawn_with_tildes_past_the_end() {
    let mut o = output_for("a.txt", "hello\n\tx", (6, 4));
    o.draw_rows();
    assert_eq!(printed(&o.editor_contents.content), "hello\r\n      \r\n~\r\n~\r\n");
    let clears = o.editor_contents.content.iter().filter(|c| **c == Command::ClearUntilNewLine).count();
    assert_eq!(clears, 4);
}

#[test]
fn empty_document_shows_welcome_banner() {
    let rows = EditorRows::new();
    let mut o = Output::new((40, 6), rows, None, StatusMessage::new(String::new(), 0));
    o.draw_rows();
    let text = printed(&o.editor_contents.content);
    let lines: Vec<&str> = text.split("\r\n").collect();
    assert_eq!(lines[0], "~");
    assert_eq!(lines[2], "~    Pound Editor --- Version 0.1.0");
    assert_eq!(lines[5], "~");
}

#[test]
fn welcome_banner_is_cut_to_width() {
    let rows = EditorRows::new();
    let mut o = Output::new((10, 3), rows, None, StatusMessage::new(String::new(), 0));
    o.draw_rows();
    let text = printed(&o.editor_contents.content);
    let lines: Vec<&str> = text.split("\r\n").collect();
    assert_eq!(lines[1], "Pound Edit");
}

#[test]
fn status_bar_shows_name_lines_and_position() {
    let mut o = output_for("dir/notes.txt", "a\nb\nc", (40, 5));
    o.move_cursor(KeyCode::Down);
    o.draw_status_bar();
    assert_eq!(o.editor_contents.content[0], Command::ReverseVideo);
    let text = printed(&o.editor_contents.content);
    assert_eq!(text, "notes.txt  -- 3 lines                2/3\r\n");
    assert_eq!(text.chars().count(), 42);
}

#[test]
fn status_bar_marks_unsaved_document_without_name() {
    let mut o = Output::new((30, 5), EditorRows::new(), None, StatusMessage::new(String::new(), 0));
    o.insert_char('z');
    o.draw_status_bar();
    let text = printed(&o.editor_contents.content);
    assert_eq!(text, "[No Name] (modified) -- 1 line\r\n");
}

#[test]
fn message_bar_shows_live_message_cut_to_width() {
    let mut o = output_for("a.txt", "x", (5, 3));
    o.draw_message_bar(10);
    assert_eq!(printed(&o.editor_contents.content), "hi th");
    let mut o = output_for("a.txt", "x", (5, 3));
    o.draw_message_bar(6000);
    assert_eq!(printed(&o.editor_contents.content), "");
}

#[test]
fn refresh_places_cursor_in_viewport() {
    let mut o = output_for("a.txt", "one\ntwo\nthree\nfour", (10, 2));
    o.move_cursor(KeyCode::Down);
    o.move_cursor(KeyCode::Down);
    o.move_cursor(KeyCode::End);
    o.refresh_screen(1);
    let content = &o.editor_contents.content;
    assert_eq!(content[0], Command::HideCursor);
    assert_eq!(content[1], Command::MoveTo(0, 0));
    assert_eq!(content[content.len() - 2], Command::MoveTo(5, 1));
    assert_eq!(content[content.len() - 1], Command::ShowCursor);
    assert_eq!(o.cursor_controller.row_offset, 1);
    assert!(printed(content).starts_with("two\r\nthree\r\n"));
}

#[test]
fn colored_row_switches_colour_only_on_change() {
    let rows = EditorRows::from_file(String::from("m.rs"), &chars("a 12 b"), Output::select_syntax("rs"));
    let row = &rows.row_contents[0];
    let mut out = EditorContents::new();
    SyntaxHighlight::Rust.color_row(&row.render, &row.highlight, 0, row.render.len(), &mut out);
    assert_eq!(
        out.content,
        vec![
            Command::Print('a'),
            Command::Print(' '),
            Command::SetForegroundColor(Color::Cyan),
            Command::Print('1'),
            Command::Print('2'),
            Command::SetForegroundColor(Color::Reset),
            Command::Print(' '),
            Command::Print('b'),
            Command::ResetColor,
        ]
    );
}

#[test]
fn search_match_is_blue() {
    assert_eq!(SyntaxHighlight::Rust.syntax_color(HighlightType::SearchMatch), Color::Blue);
    assert_eq!(SyntaxHighlight::Rust.syntax_color(HighlightType::Number), Color::Cyan);
    assert_eq!(SyntaxHighlight::Rust.syntax_color(HighlightType::Normal), Color::Reset);
}

#[test]
fn each_row_ends_with_clear_and_line_break() {
    let mut o = output_for("a.txt", "ab\ncd", (5, 3));
    o.draw_rows();
    let c = &o.editor_contents.content;
    let expected = vec![
        Command::Print('a'),
        Command::Print('b'),
        Command::ClearUntilNewLine,
        Command::Print('\r'),
        Command::Print('\n'),
        Command::Print('c'),
        Command::Print('d'),
        Command::ClearUntilNewLine,
        Command::Print('\r'),
        Command::Print('\n'),
        Command::Print('~'),
        Command::ClearUntilNewLine,
        Command::Print('\r'),
        Command::Print('\n'),
    ];
    assert_eq!(c, &expected);
}

#[test]
fn rows_are_coloured_with_a_highlighter() {
    let rows = EditorRows::from_file(String::from("m.rs"), &chars("x 7"), Output::select_syntax("rs"));
    let mut o = Output::new((10, 1), rows, Output::select_syntax("rs"), StatusMessage::new(String::new(), 0));
    o.draw_rows();
    let expected = vec![
        Command::Print('x'),
        Command::Print(' '),
        Command::SetForegroundColor(Color::Cyan),
        Command::Print('7'),
        Command::ResetColor,
        Command::ClearUntilNewLine,
        Command::Print('\r'),
        Command::Print('\n'),
    ];
    assert_eq!(o.editor_contents.content, expected);
}

#[test]
fn status_bar_resets_attributes_after_text() {
    let mut o = output_for("f.txt", "a", (20, 3));
    o.draw_status_bar();
    let c = &o.editor_contents.content;
    let n = c.len();
    assert_eq!(c[0], Command::ReverseVideo);
    assert_eq!(n, 20 + 4);
    assert_eq!(c[n - 3], Command::ResetAttributes);
    assert_eq!(c[n - 2], Command::Print('\r'));
    assert_eq!(c[n - 1], Command::Print('\n'));
}

#[test]
fn message_bar_starts_with_clear() {
    let mut o = output_for("a.txt", "x", (40, 3));
    o.draw_message_bar(1);
    assert_eq!(o.editor_contents.content[0], Command::ClearUntilNewLine);
    assert_eq!(printed(&o.editor_contents.content), "hi there");
}

#[test]
fn syntax_is_chosen_by_file_path() {
    assert!(Output::syntax_for_file("src/main.rs").is_some());
    assert!(Output::syntax_for_file("lib.rust").is_some());
    assert!(Output::syntax_for_file("notes.txt").is_none());
    assert!(Output::syntax_for_file("Makefile").is_none());
    assert!(Output::syntax_for_file("dir.rs/readme").is_none());
}

#[test]
fn whitespace_code_points() {
    assert!(pound::highlight::is_whitespace('\u{85}'));
    assert!(pound::highlight::is_whitespace('\u{2028}'));
    assert!(!pound::highlight::is_whitespace('\u{200B}'));
    assert!(!pound::highlight::is_whitespace('x'));
}

#[test]
fn search_session_escape_restores_cursor() {
    let mut o = output_for("a.txt", "abc\nxyz", (10, 3));
    let saved = o.cursor_controller;
    let mut p = Prompt::new();
    assert_eq!(o.search_key(&mut p, plain(KeyCode::Char('y'))), PromptStep::Continue);
    assert_eq!((o.cursor_controller.cursor_x, o.cursor_controller.cursor_y), (1, 1));
    assert_eq!(o.editor_rows.row_contents[1].highlight[1], HighlightType::SearchMatch);
    let step = o.search_key(&mut p, plain(KeyCode::Esc));
    assert_eq!(step, PromptStep::Cancelled);
    o.end_search(saved, step);
    assert_eq!((o.cursor_controller.cursor_x, o.cursor_controller.cursor_y), (0, 0));
    assert!(o.previous_highlight.is_none());
    assert!(o.editor_rows.row_contents[1].highlight.iter().all(|h| *h == HighlightType::Normal));
}

#[test]
fn search_session_enter_keeps_cursor_on_match() {
    let mut o = output_for("abc\nxyz", "abc\nxyz", (10, 3));
    let saved = o.cursor_controller;
    let mut p = Prompt::new();
    o.search_key(&mut p, plain(KeyCode::Char('z')));
    let step = o.search_key(&mut p, plain(KeyCode::Enter));
    assert_eq!(step, PromptStep::Done);
    o.end_search(saved, step);
    assert_eq!((o.cursor_controller.cursor_x, o.cursor_controller.cursor_y), (2, 1));
    assert!(o.previous_highlight.is_none());
}

#[test]
fn search_key_updates_prompt_and_searches() {
    let mut o = output_for("a.txt", "one\nthe end\nend", (20, 5));
    let mut p = Prompt::new();
    assert_eq!(o.search_key(&mut p, plain(KeyCode::Char('e'))), PromptStep::Continue);
    assert_eq!(p.input, chars("e"));
    assert_eq!((o.cursor_controller.cursor_x, o.cursor_controller.cursor_y), (2, 0));
    o.search_key(&mut p, plain(KeyCode::Char('n')));
    assert_eq!(p.input, chars("en"));
    assert_eq!((o.cursor_controller.cursor_x, o.cursor_controller.cursor_y), (4, 1));
    o.search_key(&mut p, plain(KeyCode::Down));
    assert_eq!((o.cursor_controller.cursor_x, o.cursor_controller.cursor_y), (0, 2));
    o.search_key(&mut p, plain(KeyCode::Backspace));
    assert_eq!(p.input, chars("e"));
    assert_eq!((o.cursor_controller.cursor_x, o.cursor_controller.cursor_y), (2, 0));
}

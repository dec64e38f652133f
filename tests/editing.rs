use poed::controller::{handle_key, Action, Key};
use poed::layout::{frame_buffer, get_name, make_input, place_on_screen, X_PADDING};
use poed::poem::{EditOperation, Poem};

fn chars(s: &str) -> Vec<char> {
    s.chars().collect()
}

fn text(v: &[char]) -> String {
    v.iter().collect()
}

fn poem_at(s: &str, cursor: usize) -> Poem {
    let mut p = Poem::from_str(s);
    p.cursor = cursor;
    p
}

#[test]
fn from_str_starts_at_zero_without_name() {
    let p = Poem::from_str("hello");
    assert_eq!(text(&p.buffer), "hello");
    assert_eq!(p.cursor, 0);
    assert!(p.name.is_none());
    let p = p.with_name(String::from("notes.txt"));
    assert_eq!(p.name.map(|n| text(&n)), Some(String::from("notes.txt")));
}

#[test]
fn insert_advances_cursor_and_places_char() {
    let mut p = poem_at("ac", 1);
    p.modify(EditOperation::Insert('b'));
    assert_eq!(text(&p.buffer), "abc");
    assert_eq!(p.cursor, 2);
    assert_eq!(p.buffer[1], 'b');
}

#[test]
fn delete_backward_removes_before_cursor() {
    let mut p = poem_at("abc", 2);
    p.modify(EditOperation::DeleteLeft);
    assert_eq!(text(&p.buffer), "ac");
    assert_eq!(p.cursor, 1);
}

#[test]
fn delete_backward_at_end_truncates() {
    let mut p = poem_at("abc", 3);
    p.modify(EditOperation::DeleteLeft);
    assert_eq!(text(&p.buffer), "ab");
    assert_eq!(p.cursor, 2);
}

#[test]
fn delete_backward_at_start_is_noop() {
    let mut p = poem_at("abc", 0);
    p.modify(EditOperation::DeleteLeft);
    assert_eq!(text(&p.buffer), "abc");
    assert_eq!(p.cursor, 0);
}

#[test]
fn delete_forward_removes_at_cursor_or_nothing_at_end() {
    let mut p = poem_at("abc", 1);
    p.modify(EditOperation::DeleteRight);
    assert_eq!(text(&p.buffer), "ac");
    assert_eq!(p.cursor, 1);
    let mut q = poem_at("abc", 3);
    q.modify(EditOperation::DeleteRight);
    assert_eq!(text(&q.buffer), "abc");
    assert_eq!(q.cursor, 3);
}

#[test]
fn newline_does_not_advance_and_locate_agrees() {
    let mut p = poem_at("ab", 1);
    p.modify(EditOperation::Newline);
    assert_eq!(text(&p.buffer), "a\nb");
    assert_eq!(p.cursor, 1);
    assert_eq!(p.get_cursor_offset().1, 0);
    p.move_right();
    assert_eq!(p.get_cursor_offset(), (0, 1));
}

#[test]
fn cursor_offset_on_several_lines() {
    let p = poem_at("abc\nde\n\nfgh", 0);
    let expected = [
        (0, 0), (1, 0), (2, 0), (3, 0),
        (0, 1), (1, 1), (2, 1),
        (0, 2),
        (0, 3), (1, 3), (2, 3), (3, 3),
    ];
    for (k, want) in expected.iter().enumerate() {
        let q = poem_at(&text(&p.buffer), k);
        assert_eq!(q.get_cursor_offset(), *want, "offset {}", k);
    }
}

#[test]
fn home_and_end_move_within_line() {
    let mut p = poem_at("abc\ndefg\nhi", 6);
    p.cursor_start_line();
    assert_eq!(p.cursor, 4);
    p.cursor_end_line();
    assert_eq!(p.cursor, 8);
    let mut q = poem_at("abc\n", 4);
    q.cursor_end_line();
    assert_eq!(q.cursor, 4);
}

#[test]
fn down_then_up_returns_to_same_offset() {
    let mut p = poem_at("abc\ndef\nghi", 5);
    assert_eq!(p.get_cursor_offset(), (1, 1));
    p.move_down();
    assert_eq!(p.get_cursor_offset(), (1, 2));
    assert_eq!(p.cursor, 9);
    p.move_up();
    assert_eq!(p.get_cursor_offset(), (1, 1));
    assert_eq!(p.cursor, 5);
}

#[test]
fn down_clamps_to_shorter_line() {
    let mut p = poem_at("abcdef\nxy", 6);
    assert_eq!(p.get_cursor_offset(), (6, 0));
    p.move_down();
    assert_eq!(p.get_cursor_offset(), (2, 1));
    assert_eq!(p.cursor, 9);
    assert_eq!(p.target_line_pos, 6);
}

#[test]
fn up_clamps_to_shorter_line_and_first_row_goes_to_start() {
    let mut p = poem_at("xy\nabcdef", 8);
    p.move_up();
    assert_eq!(p.cursor, 2);
    p.move_up();
    assert_eq!(p.cursor, 0);
}

#[test]
fn down_on_last_line_goes_to_line_end() {
    let mut p = poem_at("ab\ncdef", 4);
    p.move_down();
    assert_eq!(p.cursor, 7);
    let mut e = poem_at("", 0);
    e.move_down();
    assert_eq!(e.cursor, 0);
}

#[test]
fn left_and_right_are_clamped() {
    let mut p = poem_at("ab", 0);
    p.move_left();
    assert_eq!(p.cursor, 0);
    p.move_right();
    p.move_right();
    p.move_right();
    assert_eq!(p.cursor, 2);
    p.move_left();
    assert_eq!(p.cursor, 1);
}

#[test]
fn empty_buffer_has_one_placeholder_row() {
    let (rows, w, h) = make_input(&Vec::new());
    assert_eq!(rows, vec![vec![' ']]);
    assert_eq!((w, h), (1, 1));
}

#[test]
fn display_rows_are_padded_lines() {
    let (rows, w, h) = make_input(&chars("ab\ncdef\n"));
    let rows: Vec<String> = rows.iter().map(|r| text(r)).collect();
    assert_eq!(rows, vec!["ab ", "cdef ", " "]);
    assert_eq!((w, h), (5, 3));
}

#[test]
fn frame_width_is_content_plus_padding_and_borders() {
    let (rows, w, _) = make_input(&chars("a line longer than nine"));
    let (framed, fw, fh) = frame_buffer(&rows, w, None);
    assert_eq!(fw, w + 2 * 3 + 2);
    assert_eq!(fw, w + 2 * X_PADDING + 2);
    assert_eq!(fh, 5);
    assert!(framed.iter().all(|r| r.len() == fw));
}

#[test]
fn frame_of_empty_buffer_is_floored_by_label() {
    let (rows, w, _) = make_input(&Vec::new());
    let (framed, fw, fh) = frame_buffer(&rows, w, None);
    let framed: Vec<String> = framed.iter().map(|r| text(r)).collect();
    assert_eq!(fw, 17);
    assert_eq!(fh, 5);
    assert_eq!(
        framed,
        vec![
            format!("┌{}┐", "─".repeat(15)),
            format!("│{}│", " ".repeat(15)),
            format!("│{}│", " ".repeat(15)),
            format!("│{}│", " ".repeat(15)),
            format!("└{}┘", "─".repeat(15)),
        ]
    );
}

#[test]
fn frame_rows_hold_text_after_padding() {
    let (rows, w, _) = make_input(&chars("ab"));
    let (framed, _, _) = frame_buffer(&rows, w, Some(chars("n")));
    assert_eq!(text(&framed[2]), "│   ab    │");
}

#[test]
fn label_defaults_to_no_name() {
    assert_eq!(text(&get_name(None)), "<no name>");
    assert_eq!(text(&get_name(Some(chars("poem.txt")))), "poem.txt");
}

#[test]
fn placement_centres_frame_and_cursor() {
    let pl = place_on_screen(80, 24, 17, 5, 2, 1);
    assert_eq!((pl.frame_x, pl.frame_y), (32, 10));
    assert_eq!((pl.label_x, pl.label_y), (32, 9));
    assert_eq!((pl.cursor_x, pl.cursor_y), (38, 13));
    let small = place_on_screen(10, 2, 40, 9, 0, 0);
    assert_eq!((small.frame_x, small.frame_y, small.label_y), (0, 0, 0));
}

#[test]
fn save_without_name_takes_first_line() {
    let mut p = poem_at("title\nbody text", 8);
    let (path, contents) = p.take_save_target();
    assert_eq!(text(&path), "title");
    assert_eq!(text(&contents), "body text");
    assert_eq!(p.name.as_ref().map(|n| text(n)), Some(String::from("title")));
    assert_eq!(text(&p.buffer), "body text");
    assert_eq!(p.cursor, 2);
}

#[test]
fn save_without_name_or_newline_takes_whole_text() {
    let mut p = poem_at("only", 2);
    let (path, contents) = p.take_save_target();
    assert_eq!(text(&path), "only");
    assert!(contents.is_empty());
    assert_eq!(p.cursor, 0);
}

#[test]
fn save_with_name_writes_whole_buffer() {
    let mut p = Poem::from_str("a\nb").with_name(String::from("f.txt"));
    let (path, contents) = p.take_save_target();
    assert_eq!(text(&path), "f.txt");
    assert_eq!(text(&contents), "a\nb");
    assert_eq!(text(&p.buffer), "a\nb");
}

#[test]
fn keys_drive_the_buffer() {
    let mut p = Poem::from_str("");
    assert!(matches!(handle_key(&mut p, Key::Char('h')), Action::Redraw));
    handle_key(&mut p, Key::Char('i'));
    assert_eq!(text(&p.buffer), "hi");
    handle_key(&mut p, Key::Home);
    assert_eq!(p.cursor, 0);
    handle_key(&mut p, Key::End);
    assert_eq!(p.cursor, 2);
    handle_key(&mut p, Key::Backspace);
    assert_eq!(text(&p.buffer), "h");
    handle_key(&mut p, Key::BackTab);
    assert_eq!(text(&p.buffer), "h\n");
    handle_key(&mut p, Key::Left);
    handle_key(&mut p, Key::Delete);
    assert_eq!(text(&p.buffer), "\n");
    handle_key(&mut p, Key::Ctrl('x'));
    handle_key(&mut p, Key::Other);
    assert_eq!(text(&p.buffer), "\n");
    assert!(matches!(handle_key(&mut p, Key::Esc), Action::Quit));
}

#[test]
fn ctrl_s_asks_for_a_save() {
    let mut p = Poem::from_str("title\nbody text");
    match handle_key(&mut p, Key::Ctrl('s')) {
        Action::Save { path, contents } => {
            assert_eq!(text(&path), "title");
            assert_eq!(text(&contents), "body text");
        }
        _ => panic!("expected a save"),
    }
}

#[test]
fn typed_line_then_home_and_end() {
    let mut p = Poem::from_str("");
    handle_key(&mut p, Key::Char('h'));
    handle_key(&mut p, Key::Char('i'));
    assert_eq!(p.cursor, 2);
    handle_key(&mut p, Key::Home);
    assert_eq!(p.cursor, 0);
    handle_key(&mut p, Key::End);
    assert_eq!(p.cursor, 2);
    handle_key(&mut p, Key::End);
    assert_eq!(p.cursor, 2);
}

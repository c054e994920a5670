//! The in-memory model: record accessors, the form buffer, table
//! navigation and the per-field editor.

use psu::text::u32_to_string;
use psu::{App, Config, Data, InputField, InputMode, Password, UserInput, ITEM_HEIGHT};

#[test]
fn password_ref_array() {
    let user_input = Password::new(0, "a", "b", "c");
    assert_eq!(user_input.ref_array(), ["0", "a", "b", "c"])
}

#[test]
fn user_input_ref_array() {
    let user_input = UserInput::from_array(&["a", "b", "c"]);
    assert_eq!(user_input.ref_array(), ["a", "b", "c"])
}

#[test]
fn id_renders_in_decimal() {
    assert_eq!(u32_to_string(0), "0");
    assert_eq!(u32_to_string(42), "42");
    assert_eq!(u32_to_string(u32::MAX), "4294967295");
    assert_eq!(Password::new(1322, "s", "l", "p").id(), "1322");
}

#[test]
fn row_to_text_joins_fields() {
    let p = Password::new(3, "github", "alice", "p1");
    assert_eq!(p.to_text(), "github   alice   p1");
}

fn three_rows() -> App {
    let items = vec![
        Password::new(0, "one", "a", "1"),
        Password::new(1, "two", "b", "2"),
        Password::new(2, "three", "c", "3"),
    ];
    App::new(Config::default(), items)
}

#[test]
fn row_wrap_forward() {
    let mut app = three_rows();
    assert_eq!(app.selected_row, Some(0));
    app.next_row();
    assert_eq!(app.selected_row, Some(1));
    assert_eq!(app.scroll_offset, ITEM_HEIGHT);
    app.next_row();
    assert_eq!(app.selected_row, Some(2));
    assert_eq!(app.scroll_offset, 2 * ITEM_HEIGHT);
    app.next_row();
    assert_eq!(app.selected_row, Some(0));
    assert_eq!(app.scroll_offset, 0);
}

#[test]
fn row_wrap_backward() {
    let mut app = three_rows();
    app.previous_row();
    assert_eq!(app.selected_row, Some(2));
    assert_eq!(app.scroll_offset, 2 * ITEM_HEIGHT);
    app.previous_row();
    assert_eq!(app.selected_row, Some(1));
}

#[test]
fn rows_are_no_ops_when_empty() {
    let mut app = App::new(Config::default(), Vec::new());
    app.next_row();
    assert_eq!(app.selected_row, Some(0));
    assert_eq!(app.scroll_offset, 0);
    app.previous_row();
    assert_eq!(app.selected_row, Some(0));
    assert_eq!(app.scroll_offset, 0);
}

#[test]
fn column_cycle() {
    let mut app = three_rows();
    assert_eq!(app.selected_column, 0);
    app.nex_column();
    assert_eq!(app.selected_column, 1);
    app.nex_column();
    assert_eq!(app.selected_column, 2);
    app.nex_column();
    assert_eq!(app.selected_column, 0);
    app.previous_column();
    assert_eq!(app.selected_column, 2);
    for _ in 0..7 {
        app.nex_column();
        assert!(app.selected_column < 3);
        app.previous_column();
        assert!(app.selected_column < 3);
    }
}

#[test]
fn input_mode_cycle() {
    let mut app = three_rows();
    assert_eq!(app.input_mode, InputMode::Service);
    app.next_input_mode();
    assert_eq!(app.input_mode, InputMode::Login);
    app.next_input_mode();
    assert_eq!(app.input_mode, InputMode::Password);
    app.next_input_mode();
    assert_eq!(app.input_mode, InputMode::Service);
    app.prev_input_mode();
    assert_eq!(app.input_mode, InputMode::Password);
}

#[test]
fn editor_inserts_at_cursor() {
    let mut f = InputField::new();
    f.insert('a');
    f.insert('c');
    f.move_left();
    f.insert('b');
    assert_eq!(f.value(), "abc");
    assert_eq!(f.cursor(), 2);
}

#[test]
fn editor_backspace() {
    let mut f = InputField::from_str("abc");
    f.backspace();
    assert_eq!(f.value(), "ab");
    f.move_left();
    f.move_left();
    f.backspace();
    assert_eq!(f.value(), "ab");
    assert_eq!(f.cursor(), 0);
}

#[test]
fn editor_counts_characters_not_bytes() {
    let mut f = InputField::from_str("héllo");
    assert_eq!(f.char_count(), 5);
    assert_eq!(f.cursor(), 5);
    f.backspace();
    f.backspace();
    f.backspace();
    f.backspace();
    assert_eq!(f.value(), "h");
    f.insert('é');
    assert_eq!(f.value(), "hé");
}

#[test]
fn editor_cursor_clamped() {
    let mut f = InputField::from_str("ab");
    f.move_right();
    assert_eq!(f.cursor(), 2);
    f.move_left();
    f.move_left();
    f.move_left();
    assert_eq!(f.cursor(), 0);
}

#[test]
fn visible_offset_keeps_cursor_in_view() {
    let f = InputField::from_str("0123456789");
    assert_eq!(f.cursor(), 10);
    assert_eq!(f.visible_offset(4), 7);
    assert_eq!(f.visible_offset(11), 0);
    let g = InputField::new();
    assert_eq!(g.visible_offset(4), 0);
}

#[test]
fn reset_clears_all_three_fields() {
    let mut u = UserInput::from_array(&["a", "b", "c"]);
    u.reset_data();
    assert_eq!(u.service(), "");
    assert_eq!(u.login(), "");
    assert_eq!(u.password(), "");
}

#[test]
fn form_prefilled_from_entry() {
    let p = Password::new(4, "github", "alice", "p1");
    let u = UserInput::from_entry(&p);
    assert_eq!(u.service(), "github");
    assert_eq!(u.login(), "alice");
    assert_eq!(u.password(), "p1");
}

#[test]
fn clipboard_texts() {
    let mut app = three_rows();
    app.next_row();
    assert_eq!(app.clip_row(), Some("two   b   2".to_string()));
    assert_eq!(app.clip_password(), Some("2".to_string()));
    assert_eq!(app.clip_column(), Some("two".to_string()));
    app.nex_column();
    assert_eq!(app.clip_column(), Some("b".to_string()));
    app.nex_column();
    assert_eq!(app.clip_column(), Some("2".to_string()));
    let empty = App::new(Config::default(), Vec::new());
    assert_eq!(empty.clip_row(), None);
    assert_eq!(empty.clip_password(), None);
    assert_eq!(empty.clip_column(), None);
}

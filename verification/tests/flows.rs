//! Whole flows through the screen state machine, one key at a time.

use psu::codec::parse_file_str;
use psu::{handle_key, Action, App, Config, CurrentScreen, Data, KeyInput, Password, StoreFiles};

fn type_text(app: &mut App, files: &mut StoreFiles, s: &str) {
    for c in s.chars() {
        handle_key(app, files, KeyInput::Char(c));
    }
}

fn press(app: &mut App, files: &mut StoreFiles, key: KeyInput) -> Action {
    handle_key(app, files, key)
}

#[test]
fn quit_from_main() {
    let mut app = App::new(Config::default(), Vec::new());
    let mut files = StoreFiles::new_absent();
    let act = press(&mut app, &mut files, KeyInput::Esc);
    assert!(matches!(act, Action::Quit));
}

#[test]
fn help_opens_and_closes() {
    let mut app = App::new(Config::default(), Vec::new());
    let mut files = StoreFiles::new_absent();
    press(&mut app, &mut files, KeyInput::Char('?'));
    assert_eq!(app.current_screen, CurrentScreen::Help);
    press(&mut app, &mut files, KeyInput::Char('x'));
    assert_eq!(app.current_screen, CurrentScreen::Help);
    press(&mut app, &mut files, KeyInput::Esc);
    assert_eq!(app.current_screen, CurrentScreen::Main);
}

#[test]
fn cancel_discards_form_and_entry() {
    let items = vec![Password::new(0, "github", "alice", "p1")];
    let mut app = App::new(Config::default(), items);
    let mut files = StoreFiles::new_absent();
    files.persist(&mut app.items);
    let file_before = files.main.clone();

    press(&mut app, &mut files, KeyInput::Char('m'));
    assert_eq!(app.current_screen, CurrentScreen::Popup);
    assert!(app.is_modify);
    assert_eq!(app.input.service(), "github");

    type_text(&mut app, &mut files, "XYZ");
    press(&mut app, &mut files, KeyInput::Backspace);
    let act = press(&mut app, &mut files, KeyInput::Esc);

    assert!(!matches!(act, Action::Persist));
    assert_eq!(app.current_screen, CurrentScreen::Main);
    assert!(!app.is_modify);
    assert_eq!(app.input.service(), "");
    assert_eq!(app.items.len(), 1);
    assert_eq!(app.items[0].service, "github");
    assert_eq!(app.items[0].login, "alice");
    assert_eq!(app.items[0].password, "p1");
    assert_eq!(files.main, file_before);
}

#[test]
fn commit_with_empty_form_is_a_no_op() {
    let mut app = App::new(Config::default(), Vec::new());
    let mut files = StoreFiles::new_absent();
    press(&mut app, &mut files, KeyInput::Char('n'));
    assert_eq!(app.current_screen, CurrentScreen::Popup);
    let act = press(&mut app, &mut files, KeyInput::Enter);
    assert!(matches!(act, Action::Idle));
    assert_eq!(app.current_screen, CurrentScreen::Popup);
    assert!(app.items.is_empty());
    assert!(files.main.is_none());
}

#[test]
fn modify_without_usable_row_is_a_no_op() {
    let mut app = App::new(Config::default(), Vec::new());
    let mut files = StoreFiles::new_absent();
    let act = press(&mut app, &mut files, KeyInput::Char('m'));
    assert!(matches!(act, Action::Idle));
    assert_eq!(app.current_screen, CurrentScreen::Main);
    assert!(!app.is_modify);
    assert_eq!(app.input.service(), "");
    assert!(files.main.is_none());
}

#[test]
fn add_delete_modify_scenario() {
    let mut app = App::new(Config::default(), Vec::new());
    let mut files = StoreFiles::new_absent();

    // Add ("github", "alice", "p1").
    press(&mut app, &mut files, KeyInput::Char('n'));
    type_text(&mut app, &mut files, "github");
    press(&mut app, &mut files, KeyInput::Tab);
    type_text(&mut app, &mut files, "alice");
    press(&mut app, &mut files, KeyInput::Tab);
    type_text(&mut app, &mut files, "p1");
    let act = press(&mut app, &mut files, KeyInput::Enter);
    assert!(matches!(act, Action::Persist));
    assert_eq!(app.current_screen, CurrentScreen::Main);

    let rows = parse_file_str(files.main.as_deref().unwrap());
    assert_eq!(rows.len(), 1);
    assert_eq!(rows[0].id, 0);
    assert_eq!(rows[0].service, "github");

    // Add ("gmail", "alice", "p2").
    press(&mut app, &mut files, KeyInput::Char('n'));
    type_text(&mut app, &mut files, "gmail");
    press(&mut app, &mut files, KeyInput::Tab);
    type_text(&mut app, &mut files, "alice");
    press(&mut app, &mut files, KeyInput::Tab);
    type_text(&mut app, &mut files, "p2");
    press(&mut app, &mut files, KeyInput::Enter);

    let rows = parse_file_str(files.main.as_deref().unwrap());
    assert_eq!(rows.len(), 2);
    assert_eq!(rows[1].id, 1);
    assert_eq!(rows[1].service, "gmail");

    // Delete row 0; the gmail entry is renumbered to id 0.
    assert_eq!(app.selected_row, Some(0));
    let act = press(&mut app, &mut files, KeyInput::Char('d'));
    assert!(matches!(act, Action::Persist));
    let rows = parse_file_str(files.main.as_deref().unwrap());
    assert_eq!(rows.len(), 1);
    assert_eq!(rows[0].id, 0);
    assert_eq!(rows[0].service, "gmail");
    assert_eq!(rows[0].login, "alice");
    assert_eq!(rows[0].password, "p2");

    // Modify its password to "p3".
    press(&mut app, &mut files, KeyInput::Char('m'));
    press(&mut app, &mut files, KeyInput::Tab);
    press(&mut app, &mut files, KeyInput::Tab);
    press(&mut app, &mut files, KeyInput::Backspace);
    press(&mut app, &mut files, KeyInput::Backspace);
    type_text(&mut app, &mut files, "p3");
    let act = press(&mut app, &mut files, KeyInput::Enter);
    assert!(matches!(act, Action::Persist));

    let rows = parse_file_str(files.main.as_deref().unwrap());
    assert_eq!(rows.len(), 1);
    assert_eq!(rows[0].id, 0);
    assert_eq!(rows[0].service, "gmail");
    assert_eq!(rows[0].login, "alice");
    assert_eq!(rows[0].password, "p3");
    assert_eq!(app.items[0].password, "p3");
}

#[test]
fn navigation_keys_from_main() {
    let items = vec![
        Password::new(0, "one", "a", "1"),
        Password::new(1, "two", "b", "2"),
    ];
    let mut app = App::new(Config::default(), items);
    let mut files = StoreFiles::new_absent();
    press(&mut app, &mut files, KeyInput::Char('j'));
    assert_eq!(app.selected_row, Some(1));
    press(&mut app, &mut files, KeyInput::Down);
    assert_eq!(app.selected_row, Some(0));
    press(&mut app, &mut files, KeyInput::Char('k'));
    assert_eq!(app.selected_row, Some(1));
    press(&mut app, &mut files, KeyInput::Char('l'));
    assert_eq!(app.selected_column, 1);
    press(&mut app, &mut files, KeyInput::Char('h'));
    assert_eq!(app.selected_column, 0);
    press(&mut app, &mut files, KeyInput::Left);
    assert_eq!(app.selected_column, 2);
}

#[test]
fn delete_with_no_usable_selection_still_persists_file() {
    let mut app = App::new(Config::default(), Vec::new());
    let mut files = StoreFiles::new_absent();
    let act = press(&mut app, &mut files, KeyInput::Char('d'));
    assert!(matches!(act, Action::Persist));
    assert!(app.items.is_empty());
    let rows = parse_file_str(files.main.as_deref().unwrap());
    assert!(rows.is_empty());
}

#[test]
fn clipboard_keys_from_main() {
    let items = vec![Password::new(0, "github", "alice", "p1")];
    let mut app = App::new(Config::default(), items);
    let mut files = StoreFiles::new_absent();
    let act = press(&mut app, &mut files, KeyInput::Char('P'));
    match act {
        Action::Clip(t) => assert_eq!(t, "github   alice   p1"),
        _ => panic!("expected a clipboard action"),
    }
    let act = press(&mut app, &mut files, KeyInput::Char('p'));
    match act {
        Action::Clip(t) => assert_eq!(t, "p1"),
        _ => panic!("expected a clipboard action"),
    }
    let act = press(&mut app, &mut files, KeyInput::Char('c'));
    match act {
        Action::Clip(t) => assert_eq!(t, "github"),
        _ => panic!("expected a clipboard action"),
    }
}

#[test]
fn rep_tilde() {
    if let Some(home) = dirs::home_dir() {
        let home_text = home.to_string_lossy().to_string();
        let conf = Config::new("~/Downloads", psu::Fields::default(), &home_text);
        assert_eq!(conf.path, home.join("Downloads").to_string_lossy().to_string());
    }
}

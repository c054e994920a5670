//! The store's persistence: round trips, reindexing, the header, skipped
//! rows and the atomicity of the write-then-rename sequence.

use psu::codec::{parse_file_str, render_file};
use psu::store::{add, reindex, remove, remove_by_id, update};
use psu::Password;
use psu::StoreFiles;

fn sample() -> Vec<Password> {
    vec![
        Password::new(9, "github", "alice", "p1"),
        Password::new(2, "gmail", "bob", "p2"),
        Password::new(5, "bank", "carol", "p3"),
    ]
}

#[test]
fn round_trip_three_entries() {
    let mut items = sample();
    let mut files = StoreFiles::new_absent();
    files.persist(&mut items);
    let loaded = files.load();
    assert_eq!(loaded.len(), 3);
    for (i, e) in loaded.iter().enumerate() {
        assert_eq!(e.id, i as u32);
        assert_eq!(e.service, items[i].service);
        assert_eq!(e.login, items[i].login);
        assert_eq!(e.password, items[i].password);
    }
}

#[test]
fn round_trip_awkward_text() {
    let mut items = vec![
        Password::new(0, "a\"b", "x,y", "line\nbreak"),
        Password::new(1, "", "", "\"\"quotes\"\""),
        Password::new(2, "héllo", "wörld", "päss"),
    ];
    let mut files = StoreFiles::new_absent();
    files.persist(&mut items);
    let loaded = files.load();
    assert_eq!(loaded.len(), 3);
    assert_eq!(loaded[0].service, "a\"b");
    assert_eq!(loaded[0].login, "x,y");
    assert_eq!(loaded[0].password, "line\nbreak");
    assert_eq!(loaded[1].service, "");
    assert_eq!(loaded[1].password, "\"\"quotes\"\"");
    assert_eq!(loaded[2].service, "héllo");
    assert_eq!(loaded[2].login, "wörld");
    assert_eq!(loaded[2].password, "päss");
}

#[test]
fn header_is_written_first() {
    let items: Vec<Password> = Vec::new();
    let text = render_file(&items);
    assert_eq!(text, "\"Id\",\"Service\",\"Login\",\"Password\"\n");
}

#[test]
fn rendered_rows_have_positional_ids() {
    let mut items = sample();
    reindex(&mut items);
    let text = render_file(&items);
    assert_eq!(
        text,
        "\"Id\",\"Service\",\"Login\",\"Password\"\n\
         0,\"github\",\"alice\",\"p1\"\n\
         1,\"gmail\",\"bob\",\"p2\"\n\
         2,\"bank\",\"carol\",\"p3\"\n"
    );
}

#[test]
fn bad_rows_are_skipped() {
    let text = "\"Id\",\"Service\",\"Login\",\"Password\"\n\
                0,\"good\",\"a\",\"b\"\n\
                not a record at all\n\
                99999999999,\"too\",\"big\",\"id\"\n\
                1,\"unterminated,\"x\",\"y\"\n\
                2,\"fine\",\"c\",\"d\"\n";
    let loaded = parse_file_str(text);
    assert_eq!(loaded.len(), 2);
    assert_eq!(loaded[0].service, "good");
    assert_eq!(loaded[1].service, "fine");
    assert_eq!(loaded[1].id, 2);
}

#[test]
fn plain_unquoted_fields_parse() {
    let text = "\"Id\",\"Service\",\"Login\",\"Password\"\n0,github,alice,1322\n";
    let loaded = parse_file_str(text);
    assert_eq!(loaded.len(), 1);
    assert_eq!(loaded[0].service, "github");
    assert_eq!(loaded[0].login, "alice");
    assert_eq!(loaded[0].password, "1322");
}

#[test]
fn empty_or_absent_file_loads_empty() {
    let files = StoreFiles::new_absent();
    assert!(files.load().is_empty());
    let files2 = StoreFiles { main: Some(String::new()), temp: None };
    assert!(files2.load().is_empty());
}

#[test]
fn reindex_after_add_and_remove() {
    let mut items = Vec::new();
    add(&mut items, Password::new(77, "one", "a", "1"));
    add(&mut items, Password::new(77, "two", "b", "2"));
    add(&mut items, Password::new(77, "three", "c", "3"));
    for (i, e) in items.iter().enumerate() {
        assert_eq!(e.id, i as u32);
    }
    remove(&mut items, 1);
    assert_eq!(items.len(), 2);
    for (i, e) in items.iter().enumerate() {
        assert_eq!(e.id, i as u32);
    }
    assert_eq!(items[1].service, "three");
}

#[test]
fn update_keeps_position_and_id() {
    let mut items = sample();
    reindex(&mut items);
    update(&mut items, 1, "gmail", "bob", "changed");
    assert_eq!(items[1].id, 1);
    assert_eq!(items[1].service, "gmail");
    assert_eq!(items[1].password, "changed");
    assert_eq!(items.len(), 3);
}

#[test]
fn remove_by_id_renumbers_the_rest() {
    let mut items = sample();
    reindex(&mut items);
    remove_by_id(&mut items, 0);
    assert_eq!(items.len(), 2);
    assert_eq!(items[0].service, "gmail");
    assert_eq!(items[0].id, 0);
    assert_eq!(items[1].service, "bank");
    assert_eq!(items[1].id, 1);
}

#[test]
fn failure_before_rename_leaves_file_untouched() {
    // Simulated failure: the temporary file is written, then nothing else
    // happens. The visible file's bytes are exactly the previous version.
    let mut items = vec![Password::new(0, "github", "alice", "p1")];
    let mut files = StoreFiles::new_absent();
    files.persist(&mut items);
    let before = files.main.clone().unwrap();

    files.write_temp(String::from("half-written rendering"));
    assert_eq!(files.main.as_deref(), Some(before.as_str()));

    // Only the rename publishes the new contents.
    files.commit();
    assert_eq!(files.main.as_deref(), Some("half-written rendering"));
    assert!(files.temp.is_none());
}

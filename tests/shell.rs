use keylock_shell::edit::{edit, EditedEntry};
use keylock_shell::model::Entry;
use keylock_shell::prompt::{prompt_expect, Replies};

fn replies(lines: &[&str]) -> Replies {
    Replies::new(lines.iter().map(|l| l.to_string()).collect())
}

fn input_with_empty_string() -> String {
    "".to_string()
}

fn input_y() -> String {
    "y".to_string()
}

fn number_input() -> String {
    "33".to_string()
}

fn sample_entry() -> Entry {
    Entry::new(
        "name".to_string(),
        "url".to_string(),
        "user".to_string(),
        "pass".to_string(),
        "desc".to_string(),
    )
}

#[test]
fn edit_change() {
    let mut input = replies(&[
        "1",
        "newname",
        "2",
        "newurl",
        "3",
        "newusername",
        "4",
        "newpass",
        "6",
        "newdescription",
        "a",
    ]);
    let edited_entry = edit(sample_entry(), &mut input);
    match edited_entry {
        Some(EditedEntry::Replace(new_entry)) => {
            assert!(new_entry.name == "newname");
            assert!(new_entry.url == "newurl");
            assert!(new_entry.user == "newusername");
            assert!(new_entry.pass == "newpass");
            assert!(new_entry.desc == "newdescription");
        }
        _ => assert!(false),
    }
    assert_eq!(input.remaining(), 0);
}

#[test]
fn edit_leave_unchanged() {
    let mut input = Replies::new(vec!["a".to_string()]);
    let edited_entry = edit(sample_entry(), &mut input);
    match edited_entry {
        Some(EditedEntry::Replace(new_entry)) => {
            assert!(new_entry.name == "name");
            assert!(new_entry.url == "url");
            assert!(new_entry.user == "user");
            assert!(new_entry.pass == "pass");
            assert!(new_entry.desc == "desc");
        }
        _ => assert!(false),
    }
}

#[test]
fn prompt_expect_any() {
    let inner_input = keylock_shell::prompt::prompt_expect_any(&mut Replies::new(vec![input_y()]));
    assert!(inner_input.unwrap() == "y");
}

#[test]
fn prompt_expect_number() {
    let inner_input =
        keylock_shell::prompt::prompt_expect_number(&mut Replies::new(vec![number_input()]));
    assert!(inner_input == Some(33));
}

#[test]
fn prompt_expect_success() {
    let expected_inputs = vec!["y".to_string(), "n".to_string()];
    let inner_input = prompt_expect(&expected_inputs, &mut Replies::new(vec![input_y()]), true);
    match inner_input.unwrap().as_str() {
        "y" => assert!(true),
        "n" => assert!(true),
        _ => assert!(false),
    }
}

#[test]
#[should_panic]
fn prompt_expect_fail() {
    let expected_inputs = vec!["y".to_string(), "n".to_string()];
    let _ = prompt_expect(
        &expected_inputs,
        &mut Replies::new(vec![input_with_empty_string()]),
        false,
    )
    .unwrap();
}

#[test]
fn sort_entries() {
    let mut entries = vec![
        Entry::new(
            "Cat".to_string(),
            "url1".to_string(),
            "user1".to_string(),
            "pass1".to_string(),
            "desc1".to_string(),
        ),
        Entry::new(
            "Albatros".to_string(),
            "url2".to_string(),
            "user2".to_string(),
            "pass2".to_string(),
            "desc2".to_string(),
        ),
        Entry::new(
            "Bear".to_string(),
            "url3".to_string(),
            "user3".to_string(),
            "pass3".to_string(),
            "desc3".to_string(),
        ),
    ];

    let editor = keylock_shell::new();
    editor.sort_entries(&mut entries);
    assert!(entries[0].name == "Albatros");
    assert!(entries[1].name == "Bear");
    assert!(entries[2].name == "Cat");
}

#[test]
fn prompt_any_reads_one_reply_as_is() {
    let mut input = replies(&["  spaced ", "next"]);
    let first = keylock_shell::prompt::prompt_expect_any(&mut input);
    assert_eq!(first.unwrap(), "  spaced ");
    assert_eq!(input.remaining(), 1);
    let mut empty = replies(&[]);
    assert!(keylock_shell::prompt::prompt_expect_any(&mut empty).is_none());
}

#[test]
fn prompt_number_retries_until_a_number() {
    let mut input = replies(&["x", "-3", "", "+12", "99"]);
    assert_eq!(keylock_shell::prompt::prompt_expect_number(&mut input), Some(12));
    assert_eq!(input.remaining(), 1);
    let mut none = replies(&["a", "b"]);
    assert_eq!(keylock_shell::prompt::prompt_expect_number(&mut none), None);
    assert_eq!(none.remaining(), 0);
}

#[test]
fn prompt_choice_retries_until_accepted() {
    let tokens = vec!["y".to_string(), "n".to_string()];
    let mut input = replies(&["Y", "yes", "", "n", "y"]);
    let chosen = prompt_expect(&tokens, &mut input, true);
    assert_eq!(chosen.unwrap(), "n");
    assert_eq!(input.remaining(), 1);
    let mut never = replies(&["a", "b"]);
    assert!(prompt_expect(&tokens, &mut never, true).is_none());
    assert_eq!(never.remaining(), 0);
}

#[test]
fn prompt_choice_without_retry_stops_at_first_reply() {
    let tokens = vec!["y".to_string(), "n".to_string()];
    let mut input = replies(&["x", "y"]);
    assert!(prompt_expect(&tokens, &mut input, false).is_none());
    assert_eq!(input.remaining(), 1);
    let mut good = replies(&["y", "n"]);
    assert_eq!(prompt_expect(&tokens, &mut good, false).unwrap(), "y");
    assert_eq!(good.remaining(), 1);
}

use keylock_shell::config::{
    authorization_outcome, configuration_menu, dropbox_decision, edit_nextcloud, ConfigStep,
    DropboxStep,
};
use keylock_shell::edit::{apply_reply, edit, edit_action, EditAction, EditedEntry, Field};
use keylock_shell::menu::{
    delete_selection, edited_selection, entries_menu_selection, entry_menu_selection,
    exit_confirmation, exit_menu, filtered_list, main_menu_selection, menu_flow, EntriesChoice,
    MenuFlow,
};
use keylock_shell::message::{chosen_option, dialog_message, option_at, severity_name};
use keylock_shell::model::{
    DropboxConfiguration, Entry, Menu, MessageSeverity, NextcloudConfiguration, UserOption,
    UserSelection,
};
use keylock_shell::password::{
    password_changed, password_entered, show_change_password, show_password_enter,
};
use keylock_shell::prompt::{find_token, untrimmed_reply, wrong_input_message, Replies};
use keylock_shell::text::{decimal_text, parse_number, single_char, str_eq};
use keylock_shell::ShellLoggerError;

fn script(lines: &[&str]) -> Replies {
    Replies::new(lines.iter().map(|l| l.to_string()).collect())
}

fn entry(name: &str) -> Entry {
    Entry::new(
        name.to_string(),
        "https://example.org".to_string(),
        "me".to_string(),
        "secret".to_string(),
        "notes".to_string(),
    )
}

fn nextcloud() -> NextcloudConfiguration {
    NextcloudConfiguration {
        server_url: "https://cloud".to_string(),
        username: "bob".to_string(),
        password: "pw".to_string(),
        use_self_signed_certificate: false,
    }
}

fn is_list(sel: &UserSelection, filter: &str) -> bool {
    matches!(sel, UserSelection::GoTo(Menu::EntriesList(f)) if f == filter)
}

#[test]
fn blank_field_replies_keep_entry() {
    let mut input = script(&["1", "", "x", "2", "", "3", "", "4", "", "6", "", "a"]);
    match edit(entry("site"), &mut input) {
        Some(EditedEntry::Replace(e)) => {
            assert_eq!(e.name, "site");
            assert_eq!(e.url, "https://example.org");
            assert_eq!(e.user, "me");
            assert_eq!(e.pass, "secret");
            assert_eq!(e.desc, "notes");
        }
        _ => panic!("expected an accepted entry"),
    }
    assert_eq!(input.remaining(), 0);
}

#[test]
fn edit_generate_and_cancel() {
    let mut gen = script(&["4", "new", "5", "a"]);
    match edit(entry("site"), &mut gen) {
        Some(EditedEntry::GeneratePassphrase(e)) => assert_eq!(e.pass, "new"),
        _ => panic!("expected a passphrase request"),
    }
    assert_eq!(gen.remaining(), 1);
    let mut cancel = script(&["1", "other", "c"]);
    assert!(matches!(edit(entry("site"), &mut cancel), Some(EditedEntry::Cancel)));
    let mut short = script(&["1"]);
    assert!(edit(entry("site"), &mut short).is_none());
}

#[test]
fn edit_tokens_and_replies() {
    assert_eq!(edit_action("3"), Some(EditAction::Change(Field::User)));
    assert_eq!(edit_action("5"), Some(EditAction::GeneratePassphrase));
    assert_eq!(edit_action("C"), None);
    assert_eq!(edit_action("11"), None);
    let kept = apply_reply(entry("site"), Field::User, String::new());
    assert_eq!(kept.user, "me");
    assert_eq!(kept.name, "site");
    let changed = apply_reply(entry("site"), Field::Desc, "d2".to_string());
    assert_eq!(changed.desc, "d2");
}

#[test]
fn main_menu_tokens() {
    assert!(is_list(&main_menu_selection("1").unwrap(), ""));
    assert!(matches!(main_menu_selection("2"), Some(UserSelection::GoTo(Menu::Save(false)))));
    assert!(matches!(main_menu_selection("3"), Some(UserSelection::GoTo(Menu::ChangePass))));
    assert!(matches!(main_menu_selection("4"), Some(UserSelection::GoTo(Menu::ShowConfiguration))));
    assert!(matches!(main_menu_selection("5"), Some(UserSelection::GoTo(Menu::ImportEntries))));
    assert!(matches!(main_menu_selection("6"), Some(UserSelection::GoTo(Menu::ExportEntries))));
    assert!(matches!(main_menu_selection("7"), Some(UserSelection::CheckPasswords)));
    assert!(matches!(main_menu_selection("q"), Some(UserSelection::GoTo(Menu::Exit))));
    assert!(main_menu_selection("8").is_none());
    assert!(main_menu_selection("e").is_none());
}

#[test]
fn entries_list_selects_zero_based_index() {
    for k in 1..=12usize {
        let token = k.to_string();
        match entries_menu_selection(&token, 12, false) {
            Some(EntriesChoice::Done(UserSelection::GoTo(Menu::ShowEntry(i)))) => {
                assert_eq!(i, k - 1)
            }
            _ => panic!("index not selected"),
        }
    }
    assert!(entries_menu_selection("0", 3, false).is_none());
    assert!(entries_menu_selection("4", 3, false).is_none());
    assert!(entries_menu_selection("01", 3, false).is_none());
    assert!(entries_menu_selection("+1", 3, false).is_none());
}

#[test]
fn entries_list_letters() {
    assert!(matches!(
        entries_menu_selection("n", 0, false),
        Some(EntriesChoice::Done(UserSelection::GoTo(Menu::NewEntry(None))))
    ));
    assert!(matches!(
        entries_menu_selection("r", 0, false),
        Some(EntriesChoice::Done(UserSelection::GoTo(Menu::Main)))
    ));
    assert!(matches!(entries_menu_selection("f", 2, true), Some(EntriesChoice::AskFilter)));
    assert!(entries_menu_selection("c", 2, false).is_none());
    match entries_menu_selection("c", 2, true) {
        Some(EntriesChoice::Done(sel)) => assert!(is_list(&sel, "")),
        _ => panic!("filter not cleared"),
    }
    assert!(is_list(&filtered_list("ab".to_string()), "ab"));
}

#[test]
fn entry_view_tokens() {
    let e = entry("site");
    assert!(matches!(entry_menu_selection("1", 4, &e), Some(UserSelection::GoTo(Menu::EditEntry(4)))));
    assert!(matches!(entry_menu_selection("2", 4, &e), Some(UserSelection::GoTo(Menu::DeleteEntry(4)))));
    assert!(matches!(entry_menu_selection("3", 4, &e), Some(UserSelection::AddToClipboard(t)) if t == "https://example.org"));
    assert!(matches!(entry_menu_selection("4", 4, &e), Some(UserSelection::AddToClipboard(t)) if t == "me"));
    assert!(matches!(entry_menu_selection("5", 4, &e), Some(UserSelection::AddToClipboard(t)) if t == "secret"));
    assert!(is_list(&entry_menu_selection("r", 4, &e).unwrap(), ""));
    assert!(entry_menu_selection("6", 4, &e).is_none());
}

#[test]
fn cancelled_delete_clears_filter() {
    assert!(matches!(delete_selection("y", 7), Some(UserSelection::DeleteEntry(7))));
    assert!(is_list(&delete_selection("n", 7).unwrap(), ""));
    assert!(delete_selection("Y", 7).is_none());
}

#[test]
fn exit_flow() {
    assert!(matches!(exit_menu(false), Some(UserSelection::GoTo(Menu::ForceExit))));
    assert!(exit_menu(true).is_none());
    assert!(matches!(exit_confirmation("y"), Some(UserSelection::GoTo(Menu::ForceExit))));
    assert!(matches!(exit_confirmation("n"), Some(UserSelection::GoTo(Menu::Main))));
    assert!(exit_confirmation("").is_none());
}

#[test]
fn edited_outcomes() {
    assert!(matches!(edited_selection(EditedEntry::Replace(entry("a")), None), UserSelection::NewEntry(e) if e.name == "a"));
    assert!(matches!(edited_selection(EditedEntry::Replace(entry("a")), Some(2)), UserSelection::ReplaceEntry(2, e) if e.name == "a"));
    assert!(matches!(edited_selection(EditedEntry::GeneratePassphrase(entry("a")), Some(1)), UserSelection::GeneratePassphrase(Some(1), _)));
    assert!(is_list(&edited_selection(EditedEntry::Cancel, Some(1)), ""));
}

#[test]
fn menu_flows() {
    assert_eq!(menu_flow(&Menu::Main), Some(MenuFlow::Main));
    assert_eq!(menu_flow(&Menu::NewEntry(None)), Some(MenuFlow::NewEntry));
    assert_eq!(menu_flow(&Menu::Current), Some(MenuFlow::Current));
    assert_eq!(menu_flow(&Menu::ShowEntry(0)), None);
}

#[test]
fn password_enter_refuses_empty() {
    let mut input = script(&["", "5", "ok", "", "x", "7", "", "secret", "42"]);
    match show_password_enter(&mut input) {
        Some(UserSelection::ProvidedPassword(p, n)) => {
            assert_eq!(p, "secret");
            assert_eq!(n, 42);
        }
        _ => panic!("no password"),
    }
    let mut empty_only = script(&["", "1", "", "", "2", ""]);
    assert!(show_password_enter(&mut empty_only).is_none());
    assert!(password_entered(String::new(), 3).is_none());
    assert!(matches!(password_entered("a".to_string(), 3), Some(UserSelection::ProvidedPassword(p, 3)) if p == "a"));
}

#[test]
fn password_change_restarts_on_mismatch() {
    let mut numbers_differ = script(&["abc", "abc", "5", "7", "", "abc", "abc", "5", "5"]);
    match show_change_password(&mut numbers_differ) {
        Some(UserSelection::ProvidedPassword(p, n)) => {
            assert_eq!(p, "abc");
            assert_eq!(n, 5);
        }
        _ => panic!("no password"),
    }
    assert_eq!(numbers_differ.remaining(), 0);
    let mut passwords_differ = script(&["abc", "xyz", "", "p", "p", "1", "1"]);
    match show_change_password(&mut passwords_differ) {
        Some(UserSelection::ProvidedPassword(p, n)) => {
            assert_eq!(p, "p");
            assert_eq!(n, 1);
        }
        _ => panic!("no password"),
    }
    let mut no_numbers = script(&["abc", "xyz", "5", "5"]);
    assert!(show_change_password(&mut no_numbers).is_none());
    assert!(password_changed("abc".to_string(), "abc", 5, 7).is_none());
    assert!(password_changed("abc".to_string(), "abd", 5, 5).is_none());
    assert!(matches!(password_changed("abc".to_string(), "abc", 5, 5), Some(UserSelection::ProvidedPassword(p, 5)) if p == "abc"));
}

#[test]
fn configuration_menu_tokens() {
    assert!(matches!(configuration_menu("1"), Some(ConfigStep::EditNextcloud)));
    assert!(matches!(configuration_menu("2"), Some(ConfigStep::EditDropbox)));
    match configuration_menu("3") {
        Some(ConfigStep::Done(UserSelection::UpdateConfiguration(all))) => {
            assert_eq!(all.nextcloud.server_url, "");
            assert_eq!(all.nextcloud.username, "");
            assert_eq!(all.nextcloud.password, "");
            assert!(!all.nextcloud.use_self_signed_certificate);
            assert!(!all.dropbox.is_filled());
        }
        _ => panic!("not cleared"),
    }
    assert!(matches!(configuration_menu("r"), Some(ConfigStep::Done(UserSelection::GoTo(Menu::Main)))));
    assert!(configuration_menu("4").is_none());
}

#[test]
fn nextcloud_edit_keeps_blank_fields() {
    let dbx = DropboxConfiguration { token: "tok".to_string() };
    match edit_nextcloud(&nextcloud(), &dbx, String::new(), "alice".to_string(), String::new(), "y") {
        UserSelection::UpdateConfiguration(all) => {
            assert_eq!(all.nextcloud.server_url, "https://cloud");
            assert_eq!(all.nextcloud.username, "alice");
            assert_eq!(all.nextcloud.password, "pw");
            assert!(all.nextcloud.use_self_signed_certificate);
            assert_eq!(all.dropbox.token, "tok");
        }
        _ => panic!("no update"),
    }
    let mut signed = nextcloud();
    signed.use_self_signed_certificate = true;
    match edit_nextcloud(&signed, &dbx, String::new(), String::new(), String::new(), "") {
        UserSelection::UpdateConfiguration(all) => assert!(all.nextcloud.use_self_signed_certificate),
        _ => panic!("no update"),
    }
    match edit_nextcloud(&signed, &dbx, String::new(), String::new(), String::new(), "yes") {
        UserSelection::UpdateConfiguration(all) => assert!(!all.nextcloud.use_self_signed_certificate),
        _ => panic!("no update"),
    }
}

#[test]
fn dropbox_flow() {
    let dbx = DropboxConfiguration { token: "tok".to_string() };
    match dropbox_decision("y", &nextcloud(), &dbx) {
        Some(DropboxStep::OpenAuthorization(url)) => {
            assert!(url.starts_with("https://www.dropbox.com/oauth2/authorize?client_id="));
            assert!(url.len() > "https://www.dropbox.com/oauth2/authorize?client_id=".len());
        }
        _ => panic!("no authorization page"),
    }
    match dropbox_decision("n", &nextcloud(), &dbx) {
        Some(DropboxStep::Done(UserSelection::UpdateConfiguration(all))) => {
            assert_eq!(all.dropbox.token, "tok");
            assert_eq!(all.nextcloud.username, "bob");
        }
        _ => panic!("not kept"),
    }
    assert!(dropbox_decision("", &nextcloud(), &dbx).is_none());
    let opened = authorization_outcome(true, "https://auth".to_string(), &nextcloud(), &dbx);
    assert!(matches!(opened, UserSelection::GoTo(Menu::WaitForExternalCallback(u)) if u == "https://auth"));
    let empty = DropboxConfiguration::unfilled();
    match authorization_outcome(false, "https://auth".to_string(), &nextcloud(), &empty) {
        UserSelection::UpdateConfiguration(all) => assert!(!all.dropbox.is_filled()),
        _ => panic!("no fallback"),
    }
}

#[test]
fn message_dialog_text_and_choice() {
    let options = vec![
        UserOption { label: "Ok".to_string(), short_label: "o".to_string() },
        UserOption { label: "Cancel".to_string(), short_label: "c".to_string() },
    ];
    let text = dialog_message("Saved", &options, MessageSeverity::Warn);
    assert_eq!(text, "[Warn] Saved\n\n\tPress 'Enter' for Ok 'c' for Cancel \n\tSelection: ");
    assert_eq!(chosen_option(&options, "\n"), Some(0));
    assert_eq!(chosen_option(&options, "c"), Some(1));
    assert_eq!(chosen_option(&options, "o"), None);
    assert_eq!(chosen_option(&options, ""), None);
    assert_eq!(option_at(&options, 1).label, "Cancel");
    assert_eq!(severity_name(MessageSeverity::Error), "Error");
}

#[test]
fn untrimmed_reply_keeps_bare_enter() {
    assert_eq!(untrimmed_reply("\n"), "\n");
    assert_eq!(untrimmed_reply("\r\n"), "\n");
    assert_eq!(untrimmed_reply("c\r\n"), "c");
    assert_eq!(untrimmed_reply(" c \n"), " c ");
    assert_eq!(untrimmed_reply("a\r\nb\n"), "a\nb");
    assert_eq!(untrimmed_reply(""), "");
}

#[test]
fn prompt_texts_and_tokens() {
    assert_eq!(wrong_input_message("abc", false), "Error: Wrong input 'abc'\n");
    assert_eq!(wrong_input_message("abc", true), "Error: Wrong input\n");
    let tokens = vec!["a".to_string(), "b".to_string(), "a".to_string()];
    assert_eq!(find_token(&tokens, "a"), Some(0));
    assert_eq!(find_token(&tokens, "b"), Some(1));
    assert_eq!(find_token(&tokens, "A"), None);
}

#[test]
fn numbers_and_text() {
    assert_eq!(parse_number("33"), Some(33));
    assert_eq!(parse_number("+7"), Some(7));
    assert_eq!(parse_number("007"), Some(7));
    assert_eq!(parse_number(""), None);
    assert_eq!(parse_number("+"), None);
    assert_eq!(parse_number("-1"), None);
    assert_eq!(parse_number(" 1"), None);
    assert_eq!(parse_number(&usize::MAX.to_string()), Some(usize::MAX));
    assert_eq!(parse_number(&format!("{}0", usize::MAX)), None);
    assert_eq!(decimal_text(0), "0");
    assert_eq!(decimal_text(1234), "1234");
    assert_eq!(decimal_text(usize::MAX), usize::MAX.to_string());
    assert!(str_eq("abc", "abc"));
    assert!(!str_eq("abc", "abd"));
    assert_eq!(single_char("q"), Some('q'));
    assert_eq!(single_char("qq"), None);
}

#[test]
fn session_records_navigation_only() {
    let mut editor = keylock_shell::new();
    assert!(editor.previous_menu().is_none());
    assert!(matches!(editor.resume(), UserSelection::GoTo(Menu::Main)));
    editor.update_internal_state(&UserSelection::GoTo(Menu::EntriesList("x".to_string())));
    editor.update_internal_state(&UserSelection::Ack);
    editor.update_internal_state(&UserSelection::DeleteEntry(3));
    assert!(matches!(editor.previous_menu(), Some(Menu::EntriesList(f)) if f == "x"));
    assert!(matches!(editor.resume(), UserSelection::GoTo(Menu::EntriesList(f)) if f == "x"));
    editor.update_internal_state(&UserSelection::GoTo(Menu::ShowEntry(2)));
    assert!(matches!(editor.resume(), UserSelection::GoTo(Menu::ShowEntry(2))));
}

#[test]
fn sort_is_case_sensitive_and_keeps_entries() {
    let mut entries = vec![entry("b"), entry("B"), entry("a"), entry("Ab"), entry("A"), entry("b")];
    keylock_shell::new().sort_entries(&mut entries);
    let names: Vec<&str> = entries.iter().map(|e| e.name.as_str()).collect();
    assert_eq!(names, vec!["A", "Ab", "B", "a", "b", "b"]);
    let mut none: Vec<Entry> = Vec::new();
    keylock_shell::new().sort_entries(&mut none);
    assert!(none.is_empty());
}

#[test]
fn logger_error_message() {
    let e = ShellLoggerError::new("no file".to_string());
    assert_eq!(e.to_string(), "no file");
    assert_eq!(e.description(), "ShellLoggerError");
    assert_eq!(e.clone(), e);
}

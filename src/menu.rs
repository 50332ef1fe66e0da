//! The menus of the navigation controller: each maps the reply typed at its
//! prompt to the outcome handed back to the core, or to `None` where the menu
//! does not accept the reply (the prompt then asks again).
use vstd::prelude::*;
use crate::edit::EditedEntry;
use crate::model::{is_unfiltered_list, no_filter, Entry, Menu, UserSelection};
use crate::text::{
    decimal, decimal_text, is_token, lemma_number_of_decimal, number_of, parse_number, single_char,
    str_eq,
};

verus! {

/// The replies the main menu accepts: `1` to `7` and `q`.
pub open spec fn main_menu_accepts(reply: Seq<char>) -> bool {
    reply.len() == 1 && ('1' <= reply[0] <= '7' || reply[0] == 'q')
}

/// The main menu: `1` entries, `2` save, `3` change the master password,
/// `4` configuration, `5` import, `6` export, `7` check passwords, `q` quit.
pub fn main_menu_selection(reply: &str) -> (r: Option<UserSelection>)
    ensures
        r is Some <==> main_menu_accepts(reply@),
        is_token(reply@, '1') ==> (r matches Some(s) && is_unfiltered_list(s)),
        is_token(reply@, '2') ==> r matches Some(UserSelection::GoTo(Menu::Save(false))),
        is_token(reply@, '3') ==> r matches Some(UserSelection::GoTo(Menu::ChangePass)),
        is_token(reply@, '4') ==> r matches Some(UserSelection::GoTo(Menu::ShowConfiguration)),
        is_token(reply@, '5') ==> r matches Some(UserSelection::GoTo(Menu::ImportEntries)),
        is_token(reply@, '6') ==> r matches Some(UserSelection::GoTo(Menu::ExportEntries)),
        is_token(reply@, '7') ==> r matches Some(UserSelection::CheckPasswords),
        is_token(reply@, 'q') ==> r matches Some(UserSelection::GoTo(Menu::Exit)),
{
    match single_char(reply) {
        Some('1') => Some(UserSelection::GoTo(Menu::EntriesList(no_filter()))),
        Some('2') => Some(UserSelection::GoTo(Menu::Save(false))),
        Some('3') => Some(UserSelection::GoTo(Menu::ChangePass)),
        Some('4') => Some(UserSelection::GoTo(Menu::ShowConfiguration)),
        Some('5') => Some(UserSelection::GoTo(Menu::ImportEntries)),
        Some('6') => Some(UserSelection::GoTo(Menu::ExportEntries)),
        Some('7') => Some(UserSelection::CheckPasswords),
        Some('q') => Some(UserSelection::GoTo(Menu::Exit)),
        _ => None,
    }
}

/// The zero-based entry that a reply selects in a list of `count` entries:
/// the reply must be the decimal writing of a number `k` in `1..=count`.
pub open spec fn selected_index(reply: Seq<char>, count: nat) -> Option<nat> {
    match number_of(reply) {
        Some(k) => if 1 <= k <= count && decimal(k) == reply {
            Some((k - 1) as nat)
        } else {
            None
        },
        None => None,
    }
}

/// What the entries list does with an accepted reply.
pub enum EntriesChoice {
    /// The outcome is decided.
    Done(UserSelection),
    /// A filter text is to be asked for; [`filtered_list`] makes the outcome.
    AskFilter,
}

/// The replies the entries list accepts.
pub open spec fn entries_menu_accepts(reply: Seq<char>, count: nat, filter_active: bool) -> bool {
    selected_index(reply, count) is Some || is_token(reply, 'n') || is_token(reply, 'r')
        || is_token(reply, 'f') || (filter_active && is_token(reply, 'c'))
}

/// The entries list of `count` entries: `1..=count` shows that entry, `n` a
/// new entry, `r` the main menu, `f` asks for a filter and, only while a
/// filter is applied, `c` clears it.
pub fn entries_menu_selection(reply: &str, count: usize, filter_active: bool) -> (r: Option<
    EntriesChoice,
>)
    ensures
        r is Some <==> entries_menu_accepts(reply@, count as nat, filter_active),
        selected_index(reply@, count as nat) matches Some(i) ==> r matches Some(
            EntriesChoice::Done(UserSelection::GoTo(Menu::ShowEntry(j))),
        ) && j == i,
        is_token(reply@, 'n') ==> r matches Some(
            EntriesChoice::Done(UserSelection::GoTo(Menu::NewEntry(None))),
        ),
        is_token(reply@, 'r') ==> r matches Some(EntriesChoice::Done(UserSelection::GoTo(Menu::Main))),
        is_token(reply@, 'f') ==> r matches Some(EntriesChoice::AskFilter),
        filter_active && is_token(reply@, 'c') ==> (r matches Some(EntriesChoice::Done(s))
            && is_unfiltered_list(s)),
{
    match single_char(reply) {
        Some('n') => {
            return Some(EntriesChoice::Done(UserSelection::GoTo(Menu::NewEntry(None))));
        },
        Some('r') => {
            return Some(EntriesChoice::Done(UserSelection::GoTo(Menu::Main)));
        },
        Some('f') => {
            return Some(EntriesChoice::AskFilter);
        },
        Some('c') => {
            if filter_active {
                return Some(EntriesChoice::Done(UserSelection::GoTo(Menu::EntriesList(no_filter()))));
            }
            return None;
        },
        _ => {},
    }
    proof {
        if reply@.len() == 1 && (reply@[0] == 'n' || reply@[0] == 'r' || reply@[0] == 'f' || reply@[0] == 'c') {
            assert(number_of(reply@) is None);
        }
    }
    match parse_number(reply) {
        Some(k) => {
            if 1 <= k && k <= count {
                let written = decimal_text(k);
                if str_eq(written.as_str(), reply) {
                    return Some(EntriesChoice::Done(UserSelection::GoTo(Menu::ShowEntry(k - 1))));
                }
            }
            None
        },
        None => None,
    }
}

/// Selecting entry `k` (counted from one) of a list of `count` entries shows
/// the entry at zero-based index `k - 1`.
pub proof fn lemma_select_entry(k: usize, count: usize, filter_active: bool)
    requires
        1 <= k <= count,
    ensures
        selected_index(decimal(k as nat), count as nat) == Some((k - 1) as nat),
        entries_menu_accepts(decimal(k as nat), count as nat, filter_active),
{
    lemma_number_of_decimal(k);
}

/// The entries list filtered by `filter`.
pub fn filtered_list(filter: String) -> (r: UserSelection)
    ensures
        r matches UserSelection::GoTo(Menu::EntriesList(f)) && f@ == filter@,
{
    UserSelection::GoTo(Menu::EntriesList(filter))
}

/// The replies the entry view accepts: `1` to `5` and `r`.
pub open spec fn entry_menu_accepts(reply: Seq<char>) -> bool {
    reply.len() == 1 && ('1' <= reply[0] <= '5' || reply[0] == 'r')
}

/// The view of entry `index`: `1` edit, `2` delete, `3`/`4`/`5` copy the URL,
/// user or password to the clipboard, `r` back to the entries list.
pub fn entry_menu_selection(reply: &str, index: usize, entry: &Entry) -> (r: Option<UserSelection>)
    ensures
        r is Some <==> entry_menu_accepts(reply@),
        is_token(reply@, '1') ==> (r matches Some(UserSelection::GoTo(Menu::EditEntry(i)))
            && i == index),
        is_token(reply@, '2') ==> (r matches Some(UserSelection::GoTo(Menu::DeleteEntry(i)))
            && i == index),
        is_token(reply@, '3') ==> (r matches Some(UserSelection::AddToClipboard(t)) && t@
            == entry.url@),
        is_token(reply@, '4') ==> (r matches Some(UserSelection::AddToClipboard(t)) && t@
            == entry.user@),
        is_token(reply@, '5') ==> (r matches Some(UserSelection::AddToClipboard(t)) && t@
            == entry.pass@),
        is_token(reply@, 'r') ==> (r matches Some(s) && is_unfiltered_list(s)),
{
    match single_char(reply) {
        Some('1') => Some(UserSelection::GoTo(Menu::EditEntry(index))),
        Some('2') => Some(UserSelection::GoTo(Menu::DeleteEntry(index))),
        Some('3') => Some(UserSelection::AddToClipboard(entry.url.clone())),
        Some('4') => Some(UserSelection::AddToClipboard(entry.user.clone())),
        Some('5') => Some(UserSelection::AddToClipboard(entry.pass.clone())),
        Some('r') => Some(UserSelection::GoTo(Menu::EntriesList(no_filter()))),
        _ => None,
    }
}

/// The delete confirmation of entry `index`: `y` deletes it; `n` goes back to
/// the entries list without a filter, whatever filter was applied before.
pub fn delete_selection(reply: &str, index: usize) -> (r: Option<UserSelection>)
    ensures
        r is Some <==> (is_token(reply@, 'y') || is_token(reply@, 'n')),
        is_token(reply@, 'y') ==> (r matches Some(UserSelection::DeleteEntry(i)) && i == index),
        is_token(reply@, 'n') ==> (r matches Some(s) && is_unfiltered_list(s)),
{
    match single_char(reply) {
        Some('y') => Some(UserSelection::DeleteEntry(index)),
        Some('n') => Some(UserSelection::GoTo(Menu::EntriesList(no_filter()))),
        _ => None,
    }
}

/// Leaving without unsaved changes needs no confirmation: `Some` outcome then;
/// `None` where [`exit_confirmation`] is to be asked.
pub fn exit_menu(contents_changed: bool) -> (r: Option<UserSelection>)
    ensures
        r is None <==> contents_changed,
        !contents_changed ==> r matches Some(UserSelection::GoTo(Menu::ForceExit)),
{
    if contents_changed {
        None
    } else {
        Some(UserSelection::GoTo(Menu::ForceExit))
    }
}

/// Leaving with unsaved changes: `y` leaves anyway, `n` back to the main menu.
pub fn exit_confirmation(reply: &str) -> (r: Option<UserSelection>)
    ensures
        r is Some <==> (is_token(reply@, 'y') || is_token(reply@, 'n')),
        is_token(reply@, 'y') ==> r matches Some(UserSelection::GoTo(Menu::ForceExit)),
        is_token(reply@, 'n') ==> r matches Some(UserSelection::GoTo(Menu::Main)),
{
    match single_char(reply) {
        Some('y') => Some(UserSelection::GoTo(Menu::ForceExit)),
        Some('n') => Some(UserSelection::GoTo(Menu::Main)),
        _ => None,
    }
}

/// The outcome of an editing session: on a new entry where `index` is `None`,
/// else on the stored entry at `index`. A cancelled session goes back to the
/// entries list without a filter.
pub fn edited_selection(edited: EditedEntry, index: Option<usize>) -> (r: UserSelection)
    ensures
        match edited {
            EditedEntry::Replace(e) => match index {
                None => r matches UserSelection::NewEntry(x) && x@ == e@,
                Some(i) => r matches UserSelection::ReplaceEntry(j, x) && j == i && x@ == e@,
            },
            EditedEntry::GeneratePassphrase(e) => r matches UserSelection::GeneratePassphrase(j, x)
                && j == index && x@ == e@,
            EditedEntry::Cancel => is_unfiltered_list(r),
        },
{
    match edited {
        EditedEntry::Replace(e) => match index {
            None => UserSelection::NewEntry(e),
            Some(i) => UserSelection::ReplaceEntry(i, e),
        },
        EditedEntry::GeneratePassphrase(e) => UserSelection::GeneratePassphrase(index, e),
        EditedEntry::Cancel => UserSelection::GoTo(Menu::EntriesList(no_filter())),
    }
}

/// The flows that a requested menu is shown with.
#[derive(PartialEq, Eq, Structural, Clone, Copy, Debug)]
pub enum MenuFlow {
    Main,
    NewEntry,
    ExportEntries,
    ImportEntries,
    Current,
}

/// The flow for a menu requested directly; `None` for a menu that is shown
/// otherwise, which the caller must treat as a broken contract.
pub fn menu_flow(menu: &Menu) -> (r: Option<MenuFlow>)
    ensures
        r == (match menu {
            Menu::Main => Some(MenuFlow::Main),
            Menu::NewEntry(_) => Some(MenuFlow::NewEntry),
            Menu::ExportEntries => Some(MenuFlow::ExportEntries),
            Menu::ImportEntries => Some(MenuFlow::ImportEntries),
            Menu::Current => Some(MenuFlow::Current),
            _ => None,
        }),
{
    match menu {
        Menu::Main => Some(MenuFlow::Main),
        Menu::NewEntry(_) => Some(MenuFlow::NewEntry),
        Menu::ExportEntries => Some(MenuFlow::ExportEntries),
        Menu::ImportEntries => Some(MenuFlow::ImportEntries),
        Menu::Current => Some(MenuFlow::Current),
        _ => None,
    }
}

} // verus!

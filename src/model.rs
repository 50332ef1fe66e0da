//! Values exchanged between the shell and the password-manager core.
use vstd::prelude::*;

verus! {

/// One stored credential, as the shell sees it.
pub struct Entry {
    pub name: String,
    pub url: String,
    pub user: String,
    pub pass: String,
    pub desc: String,
    /// The password is known to be leaked or weak (used for colouring only).
    pub leaked_password: bool,
}

/// Mathematical model of an [`Entry`].
pub struct EntryModel {
    pub name: Seq<char>,
    pub url: Seq<char>,
    pub user: Seq<char>,
    pub pass: Seq<char>,
    pub desc: Seq<char>,
    pub leaked_password: bool,
}

impl View for Entry {
    type V = EntryModel;

    open spec fn view(&self) -> EntryModel {
        EntryModel {
            name: self.name@,
            url: self.url@,
            user: self.user@,
            pass: self.pass@,
            desc: self.desc@,
            leaked_password: self.leaked_password,
        }
    }
}

impl Entry {
    pub fn new(name: String, url: String, user: String, pass: String, desc: String) -> (r: Entry)
        ensures
            r.name == name,
            r.url == url,
            r.user == user,
            r.pass == pass,
            r.desc == desc,
            !r.leaked_password,
    {
        Entry { name, url, user, pass, desc, leaked_password: false }
    }

    /// An entry with every text field empty.
    pub fn empty() -> (r: Entry)
        ensures
            r@.name.len() == 0,
            r@.url.len() == 0,
            r@.user.len() == 0,
            r@.pass.len() == 0,
            r@.desc.len() == 0,
            !r.leaked_password,
    {
        Entry {
            name: String::new(),
            url: String::new(),
            user: String::new(),
            pass: String::new(),
            desc: String::new(),
            leaked_password: false,
        }
    }

    /// A copy that keeps every field.
    pub fn duplicate(&self) -> (r: Entry)
        ensures
            r@ == self@,
    {
        Entry {
            name: self.name.clone(),
            url: self.url.clone(),
            user: self.user.clone(),
            pass: self.pass.clone(),
            desc: self.desc.clone(),
            leaked_password: self.leaked_password,
        }
    }
}

/// Connection settings of a self-hosted sync server.
pub struct NextcloudConfiguration {
    pub server_url: String,
    pub username: String,
    pub password: String,
    pub use_self_signed_certificate: bool,
}

impl NextcloudConfiguration {
    pub fn duplicate(&self) -> (r: NextcloudConfiguration)
        ensures
            r.server_url@ == self.server_url@,
            r.username@ == self.username@,
            r.password@ == self.password@,
            r.use_self_signed_certificate == self.use_self_signed_certificate,
    {
        NextcloudConfiguration {
            server_url: self.server_url.clone(),
            username: self.username.clone(),
            password: self.password.clone(),
            use_self_signed_certificate: self.use_self_signed_certificate,
        }
    }

    /// The configuration with every field cleared.
    pub fn unfilled() -> (r: NextcloudConfiguration)
        ensures
            r.server_url@ == Seq::<char>::empty(),
            r.username@ == Seq::<char>::empty(),
            r.password@ == Seq::<char>::empty(),
            !r.use_self_signed_certificate,
    {
        NextcloudConfiguration {
            server_url: String::new(),
            username: String::new(),
            password: String::new(),
            use_self_signed_certificate: false,
        }
    }
}

/// Credentials of a cloud-storage account: an access token, empty when none was acquired.
pub struct DropboxConfiguration {
    pub token: String,
}

impl DropboxConfiguration {
    pub open spec fn spec_is_filled(&self) -> bool {
        self.token@.len() > 0
    }

    /// Whether a token is present.
    #[verifier::when_used_as_spec(spec_is_filled)]
    pub fn is_filled(&self) -> (r: bool)
        ensures
            r == self.spec_is_filled(),
    {
        self.token.unicode_len() > 0
    }

    pub fn duplicate(&self) -> (r: DropboxConfiguration)
        ensures
            r.token@ == self.token@,
    {
        DropboxConfiguration { token: self.token.clone() }
    }

    /// The configuration without a token.
    pub fn unfilled() -> (r: DropboxConfiguration)
        ensures
            r.token@ == Seq::<char>::empty(),
    {
        DropboxConfiguration { token: String::new() }
    }
}

/// Both sub-configurations, as handed back to the core.
pub struct AllConfigurations {
    pub nextcloud: NextcloudConfiguration,
    pub dropbox: DropboxConfiguration,
}

/// An option that the core offers in a message dialog: the token to type and its label.
pub struct UserOption {
    pub label: String,
    pub short_label: String,
}

impl UserOption {
    pub fn duplicate(&self) -> (r: UserOption)
        ensures
            r.label@ == self.label@,
            r.short_label@ == self.short_label@,
    {
        UserOption { label: self.label.clone(), short_label: self.short_label.clone() }
    }
}

/// How a message is emphasised; never changes control flow.
#[derive(PartialEq, Eq, Structural, Clone, Copy, Debug)]
pub enum MessageSeverity {
    Info,
    Warn,
    Error,
    Neutral,
}

/// A navigation target.
pub enum Menu {
    TryPass(bool),
    Main,
    EntriesList(String),
    ShowEntry(usize),
    EditEntry(usize),
    NewEntry(Option<Entry>),
    DeleteEntry(usize),
    ExportEntries,
    ImportEntries,
    ShowConfiguration,
    ChangePass,
    Save(bool),
    Exit,
    ForceExit,
    TryFileRecovery,
    Current,
    WaitForExternalCallback(String),
}

/// Two menus are the same target: same variant, same texts and numbers.
pub open spec fn same_menu(a: Menu, b: Menu) -> bool {
    match (a, b) {
        (Menu::EntriesList(x), Menu::EntriesList(y)) => x@ == y@,
        (Menu::NewEntry(x), Menu::NewEntry(y)) => match (x, y) {
            (Some(e), Some(f)) => e@ == f@,
            (None, None) => true,
            _ => false,
        },
        (Menu::WaitForExternalCallback(x), Menu::WaitForExternalCallback(y)) => x@ == y@,
        _ => a == b,
    }
}

impl Menu {
    /// A copy of the same target.
    pub fn duplicate(&self) -> (r: Menu)
        ensures
            same_menu(r, *self),
    {
        match self {
            Menu::TryPass(b) => Menu::TryPass(*b),
            Menu::Main => Menu::Main,
            Menu::EntriesList(f) => Menu::EntriesList(f.clone()),
            Menu::ShowEntry(i) => Menu::ShowEntry(*i),
            Menu::EditEntry(i) => Menu::EditEntry(*i),
            Menu::NewEntry(e) => match e {
                Some(e) => Menu::NewEntry(Some(e.duplicate())),
                None => Menu::NewEntry(None),
            },
            Menu::DeleteEntry(i) => Menu::DeleteEntry(*i),
            Menu::ExportEntries => Menu::ExportEntries,
            Menu::ImportEntries => Menu::ImportEntries,
            Menu::ShowConfiguration => Menu::ShowConfiguration,
            Menu::ChangePass => Menu::ChangePass,
            Menu::Save(b) => Menu::Save(*b),
            Menu::Exit => Menu::Exit,
            Menu::ForceExit => Menu::ForceExit,
            Menu::TryFileRecovery => Menu::TryFileRecovery,
            Menu::Current => Menu::Current,
            Menu::WaitForExternalCallback(u) => Menu::WaitForExternalCallback(u.clone()),
        }
    }
}

/// The single outcome of an interactive call.
pub enum UserSelection {
    GoTo(Menu),
    NewEntry(Entry),
    ReplaceEntry(usize, Entry),
    DeleteEntry(usize),
    GeneratePassphrase(Option<usize>, Entry),
    AddToClipboard(String),
    ExportTo(String),
    ImportFrom(String, String, usize),
    ProvidedPassword(String, usize),
    UpdateConfiguration(AllConfigurations),
    UserOption(UserOption),
    CheckPasswords,
    Ack,
}

/// Whether `sel` goes to the entries list without a filter.
pub open spec fn is_unfiltered_list(sel: UserSelection) -> bool {
    sel matches UserSelection::GoTo(Menu::EntriesList(f)) && f@.len() == 0
}

/// The empty filter text.
pub fn no_filter() -> (r: String)
    ensures
        r@.len() == 0,
{
    String::new()
}

} // verus!

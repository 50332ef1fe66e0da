//! The configuration editing flow: the self-hosted sync settings are asked
//! field by field (a blank reply keeps a field), the cloud-storage token is
//! acquired or renewed through an authorization page, or all is cleared.
use vstd::prelude::*;
use crate::edit::keep_or_replace;
use crate::model::{
    AllConfigurations, DropboxConfiguration, Menu, NextcloudConfiguration, UserSelection,
};
use crate::text::{is_token, single_char};

verus! {

/// Where the configuration menu leads.
pub enum ConfigStep {
    /// Ask the self-hosted sync fields, then [`edit_nextcloud`].
    EditNextcloud,
    /// Ask about the cloud-storage token, then [`dropbox_decision`].
    EditDropbox,
    /// The outcome is decided.
    Done(UserSelection),
}

/// Whether `s` updates the configuration to exactly these texts and settings.
pub open spec fn updates_to(
    s: UserSelection,
    server_url: Seq<char>,
    username: Seq<char>,
    password: Seq<char>,
    self_signed: bool,
    token: Seq<char>,
) -> bool {
    s matches UserSelection::UpdateConfiguration(all) && all.nextcloud.server_url@ == server_url
        && all.nextcloud.username@ == username && all.nextcloud.password@ == password
        && all.nextcloud.use_self_signed_certificate == self_signed && all.dropbox.token@ == token
}

/// The configuration menu: `1` self-hosted sync, `2` cloud storage, `3` clear
/// all configurations, `r` back to the main menu.
pub fn configuration_menu(reply: &str) -> (r: Option<ConfigStep>)
    ensures
        r is Some <==> (is_token(reply@, '1') || is_token(reply@, '2') || is_token(reply@, '3')
            || is_token(reply@, 'r')),
        is_token(reply@, '1') ==> r matches Some(ConfigStep::EditNextcloud),
        is_token(reply@, '2') ==> r matches Some(ConfigStep::EditDropbox),
        is_token(reply@, '3') ==> (r matches Some(ConfigStep::Done(s)) && updates_to(
            s,
            seq![],
            seq![],
            seq![],
            false,
            seq![],
        )),
        is_token(reply@, 'r') ==> r matches Some(ConfigStep::Done(UserSelection::GoTo(Menu::Main))),
{
    match single_char(reply) {
        Some('1') => Some(ConfigStep::EditNextcloud),
        Some('2') => Some(ConfigStep::EditDropbox),
        Some('3') => Some(
            ConfigStep::Done(
                UserSelection::UpdateConfiguration(
                    AllConfigurations {
                        nextcloud: NextcloudConfiguration::unfilled(),
                        dropbox: DropboxConfiguration::unfilled(),
                    },
                ),
            ),
        ),
        Some('r') => Some(ConfigStep::Done(UserSelection::GoTo(Menu::Main))),
        _ => None,
    }
}

/// The certificate setting after `reply`: blank keeps it, else only `y` sets it.
pub open spec fn self_signed_after(current: bool, reply: Seq<char>) -> bool {
    if reply.len() == 0 {
        current
    } else {
        is_token(reply, 'y')
    }
}

fn keep_or_replace_copy(current: &String, reply: String) -> (r: String)
    ensures
        r@ == keep_or_replace(current@, reply@),
{
    if reply.unicode_len() == 0 {
        current.clone()
    } else {
        reply
    }
}

/// The self-hosted sync settings after the replies to its four prompts
/// (server URL, user name, password, self-signed certificate); the cloud
/// storage settings stay as they are.
pub fn edit_nextcloud(
    nextcloud: &NextcloudConfiguration,
    dropbox: &DropboxConfiguration,
    url_reply: String,
    user_reply: String,
    password_reply: String,
    self_signed_reply: &str,
) -> (r: UserSelection)
    ensures
        updates_to(
            r,
            keep_or_replace(nextcloud.server_url@, url_reply@),
            keep_or_replace(nextcloud.username@, user_reply@),
            keep_or_replace(nextcloud.password@, password_reply@),
            self_signed_after(nextcloud.use_self_signed_certificate, self_signed_reply@),
            dropbox.token@,
        ),
{
    let self_signed = if self_signed_reply.unicode_len() == 0 {
        nextcloud.use_self_signed_certificate
    } else {
        match single_char(self_signed_reply) {
            Some('y') => true,
            _ => false,
        }
    };
    UserSelection::UpdateConfiguration(
        AllConfigurations {
            nextcloud: NextcloudConfiguration {
                server_url: keep_or_replace_copy(&nextcloud.server_url, url_reply),
                username: keep_or_replace_copy(&nextcloud.username, user_reply),
                password: keep_or_replace_copy(&nextcloud.password, password_reply),
                use_self_signed_certificate: self_signed,
            },
            dropbox: dropbox.duplicate(),
        },
    )
}

/// The start of every authorization page address of the cloud storage.
pub open spec fn authorization_site() -> Seq<char> {
    "https://www.dropbox.com/oauth2/authorize?client_id="@
}

/// Relies on rust_keylock's `DropboxConfiguration::dropbox_url`: a fresh
/// authorization page address (its code challenge is random) on the cloud
/// storage's site.
#[verifier::external_body]
fn authorization_url() -> (r: String)
    ensures
        authorization_site().is_prefix_of(r@),
{
    rust_keylock::dropbox::DropboxConfiguration::dropbox_url()
}

/// What the cloud-storage step does with an accepted reply.
pub enum DropboxStep {
    /// Open the authorization page at this address, then [`authorization_outcome`].
    OpenAuthorization(String),
    /// The outcome is decided.
    Done(UserSelection),
}

/// The cloud-storage question (acquire a token where none is present, renew
/// it otherwise): `y` leads to a fresh authorization page; `n` keeps both settings.
pub fn dropbox_decision(
    reply: &str,
    nextcloud: &NextcloudConfiguration,
    dropbox: &DropboxConfiguration,
) -> (r: Option<DropboxStep>)
    ensures
        r is Some <==> (is_token(reply@, 'y') || is_token(reply@, 'n')),
        is_token(reply@, 'y') ==> (r matches Some(DropboxStep::OpenAuthorization(url))
            && authorization_site().is_prefix_of(url@)),
        is_token(reply@, 'n') ==> (r matches Some(DropboxStep::Done(s)) && updates_to(
            s,
            nextcloud.server_url@,
            nextcloud.username@,
            nextcloud.password@,
            nextcloud.use_self_signed_certificate,
            dropbox.token@,
        )),
{
    match single_char(reply) {
        Some('y') => Some(DropboxStep::OpenAuthorization(authorization_url())),
        Some('n') => Some(DropboxStep::Done(kept_configuration(nextcloud, dropbox))),
        _ => None,
    }
}

/// Both settings as they are; a cloud-storage configuration without a token
/// is handed back unfilled.
fn kept_configuration(nextcloud: &NextcloudConfiguration, dropbox: &DropboxConfiguration) -> (r:
    UserSelection)
    ensures
        updates_to(
            r,
            nextcloud.server_url@,
            nextcloud.username@,
            nextcloud.password@,
            nextcloud.use_self_signed_certificate,
            dropbox.token@,
        ),
{
    let dbx = if dropbox.is_filled() {
        dropbox.duplicate()
    } else {
        assert(dropbox.token@ =~= Seq::<char>::empty());
        DropboxConfiguration::unfilled()
    };
    UserSelection::UpdateConfiguration(
        AllConfigurations { nextcloud: nextcloud.duplicate(), dropbox: dbx },
    )
}

/// After trying to open the authorization page at `url`: where it opened,
/// wait for its callback; where it did not, keep both settings.
pub fn authorization_outcome(
    opened: bool,
    url: String,
    nextcloud: &NextcloudConfiguration,
    dropbox: &DropboxConfiguration,
) -> (r: UserSelection)
    ensures
        opened ==> (r matches UserSelection::GoTo(Menu::WaitForExternalCallback(u)) && u@ == url@),
        !opened ==> updates_to(
            r,
            nextcloud.server_url@,
            nextcloud.username@,
            nextcloud.password@,
            nextcloud.use_self_signed_certificate,
            dropbox.token@,
        ),
{
    if opened {
        UserSelection::GoTo(Menu::WaitForExternalCallback(url))
    } else {
        kept_configuration(nextcloud, dropbox)
    }
}

} // verus!

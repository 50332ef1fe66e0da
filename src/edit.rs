//! The entry editing form: a loop over a scratch entry in which each field can
//! be replaced, where a blank reply keeps the field as it is.
use vstd::prelude::*;
use crate::model::{Entry, EntryModel};
use crate::prompt::Replies;
use crate::text::single_char;

verus! {

/// A text field of an entry.
#[derive(PartialEq, Eq, Structural, Clone, Copy, Debug)]
pub enum Field {
    Name,
    Url,
    User,
    Pass,
    Desc,
}

/// What a token of the editing form asks for.
#[derive(PartialEq, Eq, Structural, Clone, Copy, Debug)]
pub enum EditAction {
    Change(Field),
    GeneratePassphrase,
    Accept,
    Cancel,
}

/// How an editing session ended.
pub enum EditedEntry {
    Replace(Entry),
    GeneratePassphrase(Entry),
    Cancel,
}

/// Model of an [`EditedEntry`].
pub enum EditedModel {
    Replace(EntryModel),
    GeneratePassphrase(EntryModel),
    Cancel,
}

impl View for EditedEntry {
    type V = EditedModel;

    open spec fn view(&self) -> EditedModel {
        match self {
            EditedEntry::Replace(e) => EditedModel::Replace(e@),
            EditedEntry::GeneratePassphrase(e) => EditedModel::GeneratePassphrase(e@),
            EditedEntry::Cancel => EditedModel::Cancel,
        }
    }
}

/// The tokens of the form: `1` name, `2` URL, `3` user, `4` password,
/// `5` generate a passphrase, `6` description, `a` accept, `c` cancel.
pub open spec fn edit_action_of(t: Seq<char>) -> Option<EditAction> {
    if t.len() != 1 {
        None
    } else if t[0] == '1' {
        Some(EditAction::Change(Field::Name))
    } else if t[0] == '2' {
        Some(EditAction::Change(Field::Url))
    } else if t[0] == '3' {
        Some(EditAction::Change(Field::User))
    } else if t[0] == '4' {
        Some(EditAction::Change(Field::Pass))
    } else if t[0] == '5' {
        Some(EditAction::GeneratePassphrase)
    } else if t[0] == '6' {
        Some(EditAction::Change(Field::Desc))
    } else if t[0] == 'a' {
        Some(EditAction::Accept)
    } else if t[0] == 'c' {
        Some(EditAction::Cancel)
    } else {
        None
    }
}

/// The action a reply selects; `None` where the form does not accept it.
pub fn edit_action(reply: &str) -> (r: Option<EditAction>)
    ensures
        r == edit_action_of(reply@),
{
    match single_char(reply) {
        Some('1') => Some(EditAction::Change(Field::Name)),
        Some('2') => Some(EditAction::Change(Field::Url)),
        Some('3') => Some(EditAction::Change(Field::User)),
        Some('4') => Some(EditAction::Change(Field::Pass)),
        Some('5') => Some(EditAction::GeneratePassphrase),
        Some('6') => Some(EditAction::Change(Field::Desc)),
        Some('a') => Some(EditAction::Accept),
        Some('c') => Some(EditAction::Cancel),
        _ => None,
    }
}

/// A blank reply keeps the current value; any other replaces it.
pub open spec fn keep_or_replace(current: Seq<char>, reply: Seq<char>) -> Seq<char> {
    if reply.len() == 0 {
        current
    } else {
        reply
    }
}

/// `e` after `reply` was given for `field`.
pub open spec fn with_reply(e: EntryModel, field: Field, reply: Seq<char>) -> EntryModel {
    match field {
        Field::Name => EntryModel { name: keep_or_replace(e.name, reply), ..e },
        Field::Url => EntryModel { url: keep_or_replace(e.url, reply), ..e },
        Field::User => EntryModel { user: keep_or_replace(e.user, reply), ..e },
        Field::Pass => EntryModel { pass: keep_or_replace(e.pass, reply), ..e },
        Field::Desc => EntryModel { desc: keep_or_replace(e.desc, reply), ..e },
    }
}

fn keep_or_replace_text(current: String, reply: String) -> (r: String)
    ensures
        r@ == keep_or_replace(current@, reply@),
{
    if reply.unicode_len() == 0 {
        current
    } else {
        reply
    }
}

/// Applies the reply to a field prompt.
pub fn apply_reply(entry: Entry, field: Field, reply: String) -> (r: Entry)
    ensures
        r@ == with_reply(entry@, field, reply@),
{
    let mut e = entry;
    match field {
        Field::Name => {
            e.name = keep_or_replace_text(e.name, reply);
        },
        Field::Url => {
            e.url = keep_or_replace_text(e.url, reply);
        },
        Field::User => {
            e.user = keep_or_replace_text(e.user, reply);
        },
        Field::Pass => {
            e.pass = keep_or_replace_text(e.pass, reply);
        },
        Field::Desc => {
            e.desc = keep_or_replace_text(e.desc, reply);
        },
    }
    e
}

/// The outcome of an editing session on `e` whose replies are `script`;
/// `None` where the replies run out before the form ends. A reply that the
/// form does not accept is asked again.
pub open spec fn edit_run(e: EntryModel, script: Seq<Seq<char>>) -> Option<EditedModel>
    decreases script.len(),
{
    if script.len() == 0 {
        None
    } else {
        match edit_action_of(script[0]) {
            None => edit_run(e, script.drop_first()),
            Some(EditAction::Change(f)) => if script.len() < 2 {
                None
            } else {
                edit_run(with_reply(e, f, script[1]), script.skip(2))
            },
            Some(EditAction::GeneratePassphrase) => Some(EditedModel::GeneratePassphrase(e)),
            Some(EditAction::Accept) => Some(EditedModel::Replace(e)),
            Some(EditAction::Cancel) => Some(EditedModel::Cancel),
        }
    }
}

/// How many replies an editing session on `script` reads.
pub open spec fn edit_consumed(script: Seq<Seq<char>>) -> nat
    decreases script.len(),
{
    if script.len() == 0 {
        0
    } else {
        match edit_action_of(script[0]) {
            None => 1 + edit_consumed(script.drop_first()),
            Some(EditAction::Change(f)) => if script.len() < 2 {
                1
            } else {
                2 + edit_consumed(script.skip(2))
            },
            Some(_) => 1,
        }
    }
}

/// Runs the editing form on `entry` with scripted replies.
pub fn edit(entry: Entry, input: &mut Replies) -> (r: Option<EditedEntry>)
    ensures
        match r {
            Some(x) => edit_run(entry@, old(input)@) == Some(x@),
            None => edit_run(entry@, old(input)@) is None,
        },
        final(input)@ == old(input)@.skip(edit_consumed(old(input)@) as int),
{
    let mut e = entry;
    loop
        invariant
            edit_run(e@, input@) == edit_run(entry@, old(input)@),
            input@ == old(input)@.skip(old(input)@.len() - input@.len()),
            input@.len() <= old(input)@.len(),
            edit_consumed(input@) + old(input)@.len() - input@.len() == edit_consumed(
                old(input)@,
            ),
        decreases input@.len(),
    {
        let ghost before = input@;
        let token = match input.next_line() {
            None => {
                assert(old(input)@.skip(edit_consumed(old(input)@) as int) == input@);
                return None;
            },
            Some(t) => t,
        };
        assert(before[0] == token@);
        match edit_action(token.as_str()) {
            None => {
                assert(before.drop_first() == input@);
                assert(input@ == old(input)@.skip(old(input)@.len() - input@.len()));
            },
            Some(EditAction::Change(f)) => {
                let ghost mid = input@;
                match input.next_line() {
                    None => {
                        assert(old(input)@.skip(edit_consumed(old(input)@) as int) == input@);
                        return None;
                    },
                    Some(reply) => {
                        assert(before[1] == reply@);
                        assert(before.skip(2) == input@);
                        e = apply_reply(e, f, reply);
                        assert(input@ == old(input)@.skip(old(input)@.len() - input@.len()));
                    },
                }
            },
            Some(EditAction::GeneratePassphrase) => {
                assert(old(input)@.skip(edit_consumed(old(input)@) as int) == input@);
                return Some(EditedEntry::GeneratePassphrase(e));
            },
            Some(EditAction::Accept) => {
                assert(old(input)@.skip(edit_consumed(old(input)@) as int) == input@);
                return Some(EditedEntry::Replace(e));
            },
            Some(EditAction::Cancel) => {
                assert(old(input)@.skip(edit_consumed(old(input)@) as int) == input@);
                return Some(EditedEntry::Cancel);
            },
        }
    }
}

/// Whether every reply that `script` gives to a field prompt is blank.
pub open spec fn blank_field_replies(script: Seq<Seq<char>>) -> bool
    decreases script.len(),
{
    if script.len() == 0 {
        true
    } else {
        match edit_action_of(script[0]) {
            None => blank_field_replies(script.drop_first()),
            Some(EditAction::Change(f)) => script.len() < 2 || (script[1].len() == 0
                && blank_field_replies(script.skip(2))),
            Some(_) => true,
        }
    }
}

/// Blank replies keep the entry: a session in which every field prompt gets a
/// blank reply hands back the entry it started from, whatever the tokens chosen.
pub proof fn lemma_blank_replies_keep_entry(e: EntryModel, script: Seq<Seq<char>>)
    requires
        blank_field_replies(script),
    ensures
        edit_run(e, script) matches Some(EditedModel::Replace(m)) ==> m == e,
        edit_run(e, script) matches Some(EditedModel::GeneratePassphrase(m)) ==> m == e,
    decreases script.len(),
{
    if script.len() > 0 {
        match edit_action_of(script[0]) {
            None => lemma_blank_replies_keep_entry(e, script.drop_first()),
            Some(EditAction::Change(f)) => {
                if script.len() >= 2 {
                    assert(with_reply(e, f, script[1]) == e);
                    lemma_blank_replies_keep_entry(e, script.skip(2));
                }
            },
            Some(_) => {},
        }
    }
}

/// Replacing every field in order (name, URL, user, password, description)
/// with non-blank text and accepting gives an entry of exactly those texts.
pub proof fn lemma_replies_replace_fields(
    e: EntryModel,
    name: Seq<char>,
    url: Seq<char>,
    user: Seq<char>,
    pass: Seq<char>,
    desc: Seq<char>,
)
    requires
        name.len() > 0,
        url.len() > 0,
        user.len() > 0,
        pass.len() > 0,
        desc.len() > 0,
    ensures
        edit_run(
            e,
            seq![
                seq!['1'], name, seq!['2'], url, seq!['3'], user, seq!['4'], pass, seq!['6'], desc,
                seq!['a'],
            ],
        ) == Some(
            EditedModel::Replace(
                EntryModel { name, url, user, pass, desc, leaked_password: e.leaked_password },
            ),
        ),
{
    let s0 = seq![
        seq!['1'], name, seq!['2'], url, seq!['3'], user, seq!['4'], pass, seq!['6'], desc,
        seq!['a'],
    ];
    let s1 = seq![seq!['2'], url, seq!['3'], user, seq!['4'], pass, seq!['6'], desc, seq!['a']];
    let s2 = seq![seq!['3'], user, seq!['4'], pass, seq!['6'], desc, seq!['a']];
    let s3 = seq![seq!['4'], pass, seq!['6'], desc, seq!['a']];
    let s4 = seq![seq!['6'], desc, seq!['a']];
    let s5 = seq![seq!['a']];
    assert(s0.skip(2) == s1);
    assert(s1.skip(2) == s2);
    assert(s2.skip(2) == s3);
    assert(s3.skip(2) == s4);
    assert(s4.skip(2) == s5);
    let e1 = with_reply(e, Field::Name, name);
    let e2 = with_reply(e1, Field::Url, url);
    let e3 = with_reply(e2, Field::User, user);
    let e4 = with_reply(e3, Field::Pass, pass);
    let e5 = with_reply(e4, Field::Desc, desc);
    assert(edit_run(e5, s5) == Some(EditedModel::Replace(e5)));
    assert(edit_run(e4, s4) == edit_run(e5, s5));
    assert(edit_run(e3, s3) == edit_run(e4, s4));
    assert(edit_run(e2, s2) == edit_run(e3, s3));
    assert(edit_run(e1, s1) == edit_run(e2, s2));
    assert(edit_run(e, s0) == edit_run(e1, s1));
}

} // verus!

//! The message dialog: a message from the core with the options it offers,
//! one of which may be chosen with a bare Enter.
use vstd::prelude::*;
use crate::model::{MessageSeverity, UserOption};
use crate::text::str_eq;

verus! {

/// The short label of the option that a bare Enter chooses.
pub open spec fn enter_label() -> Seq<char> {
    seq!['o']
}

/// What is typed to choose `opt`: a bare Enter (read as a newline) for the
/// Enter option, else its short label.
pub open spec fn option_token(opt: UserOption) -> Seq<char> {
    if opt.short_label@ == enter_label() {
        seq!['\n']
    } else {
        opt.short_label@
    }
}

/// How the key for `opt` is shown.
pub open spec fn option_key_text(opt: UserOption) -> Seq<char> {
    if opt.short_label@ == enter_label() {
        "Enter"@
    } else {
        opt.short_label@
    }
}

fn is_enter_option(opt: &UserOption) -> (r: bool)
    ensures
        r == (opt.short_label@ == enter_label()),
{
    proof {
        reveal_strlit("o");
        assert("o"@ =~= enter_label());
    }
    str_eq(opt.short_label.as_str(), "o")
}

/// The option that `reply` chooses: the first whose token it is.
pub fn chosen_option(options: &[UserOption], reply: &str) -> (r: Option<usize>)
    ensures
        r matches Some(i) ==> i < options@.len() && option_token(options@[i as int]) == reply@
            && forall|j: int| 0 <= j < i ==> option_token(options@[j]) != reply@,
        r is None ==> forall|j: int| 0 <= j < options@.len() ==> option_token(options@[j]) != reply@,
{
    let mut i: usize = 0;
    while i < options.len()
        invariant
            i <= options@.len(),
            forall|j: int| 0 <= j < i ==> option_token(options@[j]) != reply@,
        decreases options@.len() - i,
    {
        let opt = &options[i];
        proof {
            reveal_strlit("\n");
            assert("\n"@ =~= seq!['\n']);
        }
        let matched = if is_enter_option(opt) {
            str_eq(reply, "\n")
        } else {
            str_eq(reply, opt.short_label.as_str())
        };
        if matched {
            return Some(i);
        }
        i = i + 1;
    }
    None
}

/// The name a severity is shown with.
pub open spec fn severity_text(severity: MessageSeverity) -> Seq<char> {
    match severity {
        MessageSeverity::Info => "Info"@,
        MessageSeverity::Warn => "Warn"@,
        MessageSeverity::Error => "Error"@,
        MessageSeverity::Neutral => "Neutral"@,
    }
}

pub fn severity_name(severity: MessageSeverity) -> (r: &'static str)
    ensures
        r@ == severity_text(severity),
{
    match severity {
        MessageSeverity::Info => "Info",
        MessageSeverity::Warn => "Warn",
        MessageSeverity::Error => "Error",
        MessageSeverity::Neutral => "Neutral",
    }
}

/// The offer of the first `options`, each as `'key' for label `.
pub open spec fn options_text(options: Seq<UserOption>) -> Seq<char>
    decreases options.len(),
{
    if options.len() == 0 {
        seq![]
    } else {
        options_text(options.drop_last()) + "'"@ + option_key_text(options.last()) + "' for "@
            + options.last().label@ + " "@
    }
}

/// The whole text of the dialog.
pub open spec fn dialog_text(message: Seq<char>, options: Seq<UserOption>, severity: MessageSeverity) -> Seq<
    char,
> {
    "["@ + severity_text(severity) + "] "@ + message + "\n\n\tPress "@ + options_text(options)
        + "\n\tSelection: "@
}

/// Writes the dialog: severity, message, the options and how to choose them.
pub fn dialog_message(message: &str, options: &[UserOption], severity: MessageSeverity) -> (r:
    String)
    ensures
        r@ == dialog_text(message@, options@, severity),
{
    let mut text = String::from_str("[");
    text.append(severity_name(severity));
    text.append("] ");
    text.append(message);
    text.append("\n\n\tPress ");
    let ghost head = text@;
    let mut i: usize = 0;
    while i < options.len()
        invariant
            i <= options@.len(),
            text@ == head + options_text(options@.subrange(0, i as int)),
        decreases options@.len() - i,
    {
        let opt = &options[i];
        let ghost prefix = options@.subrange(0, i as int);
        text.append("'");
        if is_enter_option(opt) {
            text.append("Enter");
        } else {
            text.append(opt.short_label.as_str());
        }
        text.append("' for ");
        text.append(opt.label.as_str());
        text.append(" ");
        proof {
            let next = options@.subrange(0, i + 1);
            assert(next.drop_last() == prefix);
            assert(next.last() == options@[i as int]);
        }
        i = i + 1;
    }
    assert(options@.subrange(0, options@.len() as int) == options@);
    text.append("\n\tSelection: ");
    text
}

/// A copy of the option at `index`.
pub fn option_at(options: &[UserOption], index: usize) -> (r: UserOption)
    requires
        index < options@.len(),
    ensures
        r.label@ == options@[index as int].label@,
        r.short_label@ == options@[index as int].short_label@,
{
    options[index].duplicate()
}

} // verus!

//! Entering the master password, and changing it: both ask again from the
//! start until their replies are acceptable.
use vstd::prelude::*;
use crate::model::UserSelection;
use crate::prompt::Replies;
use crate::text::{number_of, parse_number, str_eq};

verus! {

/// The outcome of the password prompt: `None` (ask again) where the password
/// is empty.
pub fn password_entered(password: String, number: usize) -> (r: Option<UserSelection>)
    ensures
        r is None <==> password@.len() == 0,
        r matches Some(s) ==> (s matches UserSelection::ProvidedPassword(p, n) && p@ == password@
            && n == number),
{
    if password.unicode_len() == 0 {
        None
    } else {
        Some(UserSelection::ProvidedPassword(password, number))
    }
}

/// The outcome of one round of the password change: the new password and
/// number where both were typed the same twice, else `None` (ask again).
pub fn password_changed(first: String, second: &str, number: usize, number_again: usize) -> (r:
    Option<UserSelection>)
    ensures
        r is Some <==> (first@ == second@ && number == number_again),
        r matches Some(s) ==> (s matches UserSelection::ProvidedPassword(p, n) && p@ == first@ && n
            == number),
{
    if str_eq(first.as_str(), second) && number == number_again {
        Some(UserSelection::ProvidedPassword(first, number))
    } else {
        None
    }
}

/// The password prompt on `script`, from `phase`: 0 asks for the password,
/// 1 for the number (after `password`), 2 acknowledges that an empty password
/// was refused. Gives the password and number, or `None` where the replies run
/// out.
pub open spec fn enter_run(phase: nat, password: Seq<char>, script: Seq<Seq<char>>) -> Option<
    (Seq<char>, nat),
>
    decreases script.len(),
{
    if script.len() == 0 {
        None
    } else {
        let rest = script.drop_first();
        if phase == 0 {
            enter_run(1, script[0], rest)
        } else if phase == 1 {
            match number_of(script[0]) {
                None => enter_run(1, password, rest),
                Some(n) => if password.len() == 0 {
                    enter_run(2, password, rest)
                } else {
                    Some((password, n))
                },
            }
        } else {
            enter_run(0, password, rest)
        }
    }
}

/// How many replies [`enter_run`] reads.
pub open spec fn enter_consumed(phase: nat, password: Seq<char>, script: Seq<Seq<char>>) -> nat
    decreases script.len(),
{
    if script.len() == 0 {
        0
    } else {
        let rest = script.drop_first();
        if phase == 0 {
            1 + enter_consumed(1, script[0], rest)
        } else if phase == 1 {
            match number_of(script[0]) {
                None => 1 + enter_consumed(1, password, rest),
                Some(n) => if password.len() == 0 {
                    1 + enter_consumed(2, password, rest)
                } else {
                    1
                },
            }
        } else {
            1 + enter_consumed(0, password, rest)
        }
    }
}

/// The password prompt with scripted replies: a password, then a number
/// (asked again until it is one); an empty password is refused with a
/// message to acknowledge and everything is asked again.
pub fn show_password_enter(input: &mut Replies) -> (r: Option<UserSelection>)
    ensures
        r is Some <==> enter_run(0, seq![], old(input)@) is Some,
        r matches Some(s) ==> (s matches UserSelection::ProvidedPassword(p, n) && enter_run(
            0,
            seq![],
            old(input)@,
        ) == Some((p@, n as nat)) && p@.len() > 0),
        final(input)@ == old(input)@.skip(enter_consumed(0, seq![], old(input)@) as int),
{
    proof {
        lemma_entered_password_not_empty(0, seq![], old(input)@);
    }
    let mut phase: u8 = 0;
    let mut password = String::new();
    loop
        invariant
            phase <= 2,
            enter_run(phase as nat, password@, input@) == enter_run(0, seq![], old(input)@),
            input@ == old(input)@.skip(old(input)@.len() - input@.len()),
            input@.len() <= old(input)@.len(),
            enter_consumed(phase as nat, password@, input@) + old(input)@.len() - input@.len()
                == enter_consumed(0, seq![], old(input)@),
        decreases input@.len(),
    {
        let ghost before = input@;
        let line = match input.next_line() {
            None => {
                assert(old(input)@.skip(enter_consumed(0, seq![], old(input)@) as int) == input@);
                return None;
            },
            Some(l) => l,
        };
        assert(before[0] == line@);
        assert(before.drop_first() == input@);
        if phase == 0 {
            password = line;
            phase = 1;
        } else if phase == 1 {
            match parse_number(line.as_str()) {
                None => {},
                Some(n) => {
                    if password.unicode_len() == 0 {
                        phase = 2;
                    } else {
                        assert(old(input)@.skip(enter_consumed(0, seq![], old(input)@) as int)
                            == input@);
                        return password_entered(password, n);
                    }
                },
            }
        } else {
            phase = 0;
        }
        assert(input@ == old(input)@.skip(old(input)@.len() - input@.len()));
    }
}

/// No run of the password prompt hands back an empty password.
pub proof fn lemma_entered_password_not_empty(phase: nat, password: Seq<char>, script: Seq<Seq<char>>)
    ensures
        enter_run(phase, password, script) matches Some(res) ==> res.0.len() > 0,
    decreases script.len(),
{
    if script.len() > 0 {
        let rest = script.drop_first();
        if phase == 0 {
            lemma_entered_password_not_empty(1, script[0], rest);
        } else if phase == 1 {
            lemma_entered_password_not_empty(1, password, rest);
            lemma_entered_password_not_empty(2, password, rest);
        } else {
            lemma_entered_password_not_empty(0, password, rest);
        }
    }
}

/// An empty password with any number is refused, and after its
/// acknowledgement the prompt starts over on the replies that follow.
pub proof fn lemma_empty_password_starts_over(number: Seq<char>, ack: Seq<char>, rest: Seq<Seq<char>>)
    requires
        number_of(number) is Some,
    ensures
        enter_run(0, seq![], seq![seq![], number, ack] + rest) == enter_run(0, seq![], rest),
{
    let s = seq![seq![], number, ack] + rest;
    assert(s.drop_first() == seq![number, ack] + rest);
    assert(s.drop_first().drop_first() == seq![ack] + rest);
    assert(s.drop_first().drop_first().drop_first() == rest);
    assert(enter_run(0, seq![], s) == enter_run(1, seq![], s.drop_first()));
    assert(enter_run(1, seq![], s.drop_first()) == enter_run(2, seq![], s.drop_first().drop_first()));
}

/// The password change on `script`, from `phase`: 0 asks for the password,
/// 1 for it again, 2 for the number, 3 for it again, 4 acknowledges a
/// mismatch. `first` is the password typed first, `number` the number typed
/// first.
pub open spec fn change_run(phase: nat, first: Seq<char>, number: nat, script: Seq<Seq<char>>) -> Option<
    (Seq<char>, nat),
>
    decreases script.len(),
{
    if script.len() == 0 {
        None
    } else {
        let rest = script.drop_first();
        if phase == 0 {
            change_run(1, script[0], number, rest)
        } else if phase == 1 {
            if script[0] == first {
                change_run(2, first, number, rest)
            } else {
                change_run(4, first, number, rest)
            }
        } else if phase == 2 {
            match number_of(script[0]) {
                None => change_run(2, first, number, rest),
                Some(n) => change_run(3, first, n, rest),
            }
        } else if phase == 3 {
            match number_of(script[0]) {
                None => change_run(3, first, number, rest),
                Some(n) => if n == number {
                    Some((first, number))
                } else {
                    change_run(4, first, number, rest)
                },
            }
        } else {
            change_run(0, first, number, rest)
        }
    }
}

/// How many replies [`change_run`] reads.
pub open spec fn change_consumed(phase: nat, first: Seq<char>, number: nat, script: Seq<Seq<char>>) -> nat
    decreases script.len(),
{
    if script.len() == 0 {
        0
    } else {
        let rest = script.drop_first();
        if phase == 0 {
            1 + change_consumed(1, script[0], number, rest)
        } else if phase == 1 {
            if script[0] == first {
                1 + change_consumed(2, first, number, rest)
            } else {
                1 + change_consumed(4, first, number, rest)
            }
        } else if phase == 2 {
            match number_of(script[0]) {
                None => 1 + change_consumed(2, first, number, rest),
                Some(n) => 1 + change_consumed(3, first, n, rest),
            }
        } else if phase == 3 {
            match number_of(script[0]) {
                None => 1 + change_consumed(3, first, number, rest),
                Some(n) => if n == number {
                    1
                } else {
                    1 + change_consumed(4, first, number, rest)
                },
            }
        } else {
            1 + change_consumed(0, first, number, rest)
        }
    }
}

/// The password change with scripted replies: the password twice, then the
/// number twice (each asked again until it is one). A mismatch of either pair
/// is reported with a message to acknowledge, and everything is asked again;
/// a password mismatch before the numbers are asked.
pub fn show_change_password(input: &mut Replies) -> (r: Option<UserSelection>)
    ensures
        r is Some <==> change_run(0, seq![], 0, old(input)@) is Some,
        r matches Some(s) ==> (s matches UserSelection::ProvidedPassword(p, n) && change_run(
            0,
            seq![],
            0,
            old(input)@,
        ) == Some((p@, n as nat))),
        final(input)@ == old(input)@.skip(change_consumed(0, seq![], 0, old(input)@) as int),
{
    let mut phase: u8 = 0;
    let mut first = String::new();
    let mut number: usize = 0;
    loop
        invariant
            phase <= 4,
            change_run(phase as nat, first@, number as nat, input@) == change_run(
                0,
                seq![],
                0,
                old(input)@,
            ),
            input@ == old(input)@.skip(old(input)@.len() - input@.len()),
            input@.len() <= old(input)@.len(),
            change_consumed(phase as nat, first@, number as nat, input@) + old(input)@.len()
                - input@.len() == change_consumed(0, seq![], 0, old(input)@),
        decreases input@.len(),
    {
        let ghost before = input@;
        let line = match input.next_line() {
            None => {
                assert(old(input)@.skip(change_consumed(0, seq![], 0, old(input)@) as int)
                    == input@);
                return None;
            },
            Some(l) => l,
        };
        assert(before[0] == line@);
        assert(before.drop_first() == input@);
        if phase == 0 {
            first = line;
            phase = 1;
        } else if phase == 1 {
            if str_eq(first.as_str(), line.as_str()) {
                phase = 2;
            } else {
                phase = 4;
            }
        } else if phase == 2 {
            match parse_number(line.as_str()) {
                None => {},
                Some(n) => {
                    number = n;
                    phase = 3;
                },
            }
        } else if phase == 3 {
            match parse_number(line.as_str()) {
                None => {},
                Some(n) => {
                    if n == number {
                        assert(old(input)@.skip(change_consumed(0, seq![], 0, old(input)@) as int)
                            == input@);
                        let same = first.clone();
                        return password_changed(first, same.as_str(), number, n);
                    } else {
                        phase = 4;
                    }
                },
            }
        } else {
            phase = 0;
        }
        assert(input@ == old(input)@.skip(old(input)@.len() - input@.len()));
    }
}

/// Two different passwords are refused before any number is asked: after the
/// acknowledgement the change starts over on the replies that follow.
pub proof fn lemma_password_mismatch_starts_over(
    first: Seq<char>,
    second: Seq<char>,
    ack: Seq<char>,
    rest: Seq<Seq<char>>,
)
    requires
        first != second,
    ensures
        change_run(0, seq![], 0, seq![first, second, ack] + rest) == change_run(0, first, 0, rest),
        change_run(0, first, 0, rest) == change_run(0, seq![], 0, rest),
{
    let s = seq![first, second, ack] + rest;
    assert(s.drop_first() == seq![second, ack] + rest);
    assert(s.drop_first().drop_first() == seq![ack] + rest);
    assert(s.drop_first().drop_first().drop_first() == rest);
    assert(change_run(0, seq![], 0, s) == change_run(1, first, 0, s.drop_first()));
    assert(change_run(1, first, 0, s.drop_first()) == change_run(
        4,
        first,
        0,
        s.drop_first().drop_first(),
    ));
    lemma_change_restart_ignores_state(first, 0, rest);
}

/// Equal passwords with two different numbers are refused: after the
/// acknowledgement the change starts over on the replies that follow.
pub proof fn lemma_number_mismatch_starts_over(
    password: Seq<char>,
    number: Seq<char>,
    number_again: Seq<char>,
    ack: Seq<char>,
    rest: Seq<Seq<char>>,
)
    requires
        number_of(number) is Some,
        number_of(number_again) is Some,
        number_of(number) != number_of(number_again),
    ensures
        change_run(0, seq![], 0, seq![password, password, number, number_again, ack] + rest)
            == change_run(0, seq![], 0, rest),
{
    let s = seq![password, password, number, number_again, ack] + rest;
    let s1 = s.drop_first();
    let s2 = s1.drop_first();
    let s3 = s2.drop_first();
    let s4 = s3.drop_first();
    assert(s1 == seq![password, number, number_again, ack] + rest);
    assert(s2 == seq![number, number_again, ack] + rest);
    assert(s3 == seq![number_again, ack] + rest);
    assert(s4 == seq![ack] + rest);
    assert(s4.drop_first() == rest);
    let n = number_of(number)->Some_0;
    assert(change_run(0, seq![], 0, s) == change_run(1, password, 0, s1));
    assert(change_run(1, password, 0, s1) == change_run(2, password, 0, s2));
    assert(change_run(2, password, 0, s2) == change_run(3, password, n, s3));
    assert(change_run(3, password, n, s3) == change_run(4, password, n, s4));
    assert(change_run(4, password, n, s4) == change_run(0, password, n, rest));
    lemma_change_restart_ignores_state(password, n, rest);
}

/// Both pairs typed the same give that password and number.
pub proof fn lemma_matching_pairs_give_password(
    password: Seq<char>,
    number: Seq<char>,
    number_again: Seq<char>,
    rest: Seq<Seq<char>>,
)
    requires
        number_of(number) is Some,
        number_of(number) == number_of(number_again),
    ensures
        change_run(0, seq![], 0, seq![password, password, number, number_again] + rest) == Some(
            (password, number_of(number)->Some_0),
        ),
{
    let s = seq![password, password, number, number_again] + rest;
    let s1 = s.drop_first();
    let s2 = s1.drop_first();
    let s3 = s2.drop_first();
    assert(s1 == seq![password, number, number_again] + rest);
    assert(s2 == seq![number, number_again] + rest);
    assert(s3 == seq![number_again] + rest);
    let n = number_of(number)->Some_0;
    assert(change_run(0, seq![], 0, s) == change_run(1, password, 0, s1));
    assert(change_run(1, password, 0, s1) == change_run(2, password, 0, s2));
    assert(change_run(2, password, 0, s2) == change_run(3, password, n, s3));
}

/// From the start phase, what was typed in an earlier round plays no part.
proof fn lemma_change_restart_ignores_state(first: Seq<char>, number: nat, rest: Seq<Seq<char>>)
    ensures
        change_run(0, first, number, rest) == change_run(0, seq![], 0, rest),
{
    if rest.len() > 0 {
        lemma_change_number_unused(1, rest[0], number, rest.drop_first());
    }
}

/// Before the first number is typed, a number kept from an earlier round
/// plays no part.
proof fn lemma_change_number_unused(phase: nat, first: Seq<char>, number: nat, script: Seq<Seq<char>>)
    requires
        phase == 0 || phase == 1 || phase == 2 || phase == 4,
    ensures
        change_run(phase, first, number, script) == change_run(phase, first, 0, script),
    decreases script.len(),
{
    if script.len() > 0 {
        let rest = script.drop_first();
        if phase == 0 {
            lemma_change_number_unused(1, script[0], number, rest);
        } else if phase == 1 {
            lemma_change_number_unused(2, first, number, rest);
            lemma_change_number_unused(4, first, number, rest);
        } else if phase == 2 {
            lemma_change_number_unused(2, first, number, rest);
        } else {
            lemma_change_number_unused(0, first, number, rest);
        }
    }
}

} // verus!

//! The validated prompt engine: one reply at a time is checked against what a
//! prompt accepts; a rejected reply is answered with an error and asked again.
use vstd::prelude::*;
use crate::text::{number_of, parse_number, str_eq};

verus! {

/// The texts of a list of strings.
pub open spec fn texts(v: Seq<String>) -> Seq<Seq<char>> {
    v.map_values(|t: String| t@)
}

/// A finite sequence of replies, consumed from the front, standing in for a
/// human at the terminal.
pub struct Replies {
    lines: Vec<String>,
    pos: usize,
}

impl View for Replies {
    type V = Seq<Seq<char>>;

    /// The replies not read yet.
    closed spec fn view(&self) -> Seq<Seq<char>> {
        texts(self.lines@).skip(self.pos as int)
    }
}

impl Replies {
    #[verifier::type_invariant]
    spec fn inv(&self) -> bool {
        self.pos <= self.lines@.len()
    }

    pub fn new(lines: Vec<String>) -> (r: Replies)
        ensures
            r@ == texts(lines@),
    {
        let r = Replies { lines, pos: 0 };
        assert(texts(r.lines@).skip(0) == texts(r.lines@));
        r
    }

    /// The number of replies not read yet.
    pub fn remaining(&self) -> (r: usize)
        ensures
            r == self@.len(),
    {
        proof {
            use_type_invariant(self);
        }
        self.lines.len() - self.pos
    }

    /// Takes the next reply; `None` once all are read.
    pub fn next_line(&mut self) -> (r: Option<String>)
        ensures
            old(self)@.len() == 0 ==> r is None && final(self)@ == old(self)@,
            old(self)@.len() > 0 ==> (r matches Some(l) && l@ == old(self)@[0] && final(self)@
                == old(self)@.drop_first()),
    {
        proof {
            use_type_invariant(&*self);
        }
        if self.pos < self.lines.len() {
            let l = self.lines[self.pos].clone();
            let ghost before = self@;
            self.pos = self.pos + 1;
            assert(self@ == before.drop_first());
            Some(l)
        } else {
            None
        }
    }
}

/// Whether `reply` is one of `tokens`: exact, case-sensitive equality.
pub open spec fn accepts(tokens: Seq<String>, reply: Seq<char>) -> bool {
    texts(tokens).contains(reply)
}

/// The position of the first token equal to `reply`.
pub fn find_token(tokens: &[String], reply: &str) -> (r: Option<usize>)
    ensures
        r matches Some(i) ==> i < tokens@.len() && tokens@[i as int]@ == reply@ && forall|j: int|
            0 <= j < i ==> tokens@[j]@ != reply@,
        r is None <==> !accepts(tokens@, reply@),
{
    let mut i: usize = 0;
    while i < tokens.len()
        invariant
            i <= tokens@.len(),
            forall|j: int| 0 <= j < i ==> tokens@[j]@ != reply@,
        decreases tokens@.len() - i,
    {
        if str_eq(tokens[i].as_str(), reply) {
            proof {
                assert(texts(tokens@)[i as int] == reply@);
            }
            return Some(i);
        }
        i = i + 1;
    }
    proof {
        if accepts(tokens@, reply@) {
            let k = choose|k: int| 0 <= k < texts(tokens@).len() && texts(tokens@)[k] == reply@;
            assert(tokens@[k]@ == reply@);
        }
    }
    None
}

/// The error shown for a rejected reply; a secret reply is not echoed back.
pub open spec fn wrong_input_text(reply: Seq<char>, hide_input: bool) -> Seq<char> {
    if hide_input {
        "Error: Wrong input\n"@
    } else {
        "Error: Wrong input '"@ + reply + "'\n"@
    }
}

pub fn wrong_input_message(reply: &str, hide_input: bool) -> (r: String)
    ensures
        r@ == wrong_input_text(reply@, hide_input),
{
    if hide_input {
        String::from_str("Error: Wrong input\n")
    } else {
        let mut m = String::from_str("Error: Wrong input '");
        m.append(reply);
        m.append("'\n");
        m
    }
}

/// Reads one reply as it is.
pub fn prompt_expect_any(input: &mut Replies) -> (r: Option<String>)
    ensures
        old(input)@.len() == 0 ==> r is None && final(input)@ == old(input)@,
        old(input)@.len() > 0 ==> (r matches Some(l) && l@ == old(input)@[0] && final(input)@
            == old(input)@.drop_first()),
{
    input.next_line()
}

/// How many replies a number prompt reads: up to and including the first that
/// is a number, or all of them.
pub open spec fn number_attempts(script: Seq<Seq<char>>) -> nat
    decreases script.len(),
{
    if script.len() == 0 {
        0
    } else if number_of(script[0]) is Some {
        1
    } else {
        1 + number_attempts(script.drop_first())
    }
}

/// What a number prompt returns on `script`.
pub open spec fn number_answer(script: Seq<Seq<char>>) -> Option<nat>
    decreases script.len(),
{
    if script.len() == 0 {
        None
    } else if number_of(script[0]) is Some {
        number_of(script[0])
    } else {
        number_answer(script.drop_first())
    }
}

pub proof fn lemma_number_attempts_bound(script: Seq<Seq<char>>)
    ensures
        number_attempts(script) <= script.len(),
        number_answer(script) is Some ==> number_attempts(script) > 0,
        number_answer(script) matches Some(n) ==> n <= usize::MAX,
    decreases script.len(),
{
    if script.len() > 0 {
        lemma_number_attempts_bound(script.drop_first());
    }
}

/// Reads replies until one is an unsigned number, and returns it; `None`
/// where the replies run out first.
pub fn prompt_expect_number(input: &mut Replies) -> (r: Option<usize>)
    ensures
        r == (match number_answer(old(input)@) {
            Some(n) => Some(n as usize),
            None => None::<usize>,
        }),
        final(input)@ == old(input)@.skip(number_attempts(old(input)@) as int),
{
    proof {
        lemma_number_attempts_bound(old(input)@);
    }
    loop
        invariant
            number_answer(input@) == number_answer(old(input)@),
            number_attempts(input@) + old(input)@.len() - input@.len() == number_attempts(
                old(input)@,
            ),
            input@ == old(input)@.skip(old(input)@.len() - input@.len()),
            input@.len() <= old(input)@.len(),
        decreases input@.len(),
    {
        let ghost before = input@;
        match input.next_line() {
            None => {
                assert(old(input)@.skip(number_attempts(old(input)@) as int) == input@);
                return None;
            },
            Some(line) => {
                assert(before[0] == line@);
                match parse_number(line.as_str()) {
                    Some(n) => {
                        assert(old(input)@.skip(number_attempts(old(input)@) as int) == input@);
                        return Some(n);
                    },
                    None => {
                        assert(input@ == old(input)@.skip(old(input)@.len() - input@.len()));
                    },
                }
            },
        }
    }
}

/// How many replies a choice prompt reads: up to and including the first
/// accepted one; only one where retrying is off.
pub open spec fn choice_attempts(tokens: Seq<String>, script: Seq<Seq<char>>, retry: bool) -> nat
    decreases script.len(),
{
    if script.len() == 0 {
        0
    } else if accepts(tokens, script[0]) || !retry {
        1
    } else {
        1 + choice_attempts(tokens, script.drop_first(), retry)
    }
}

/// Whether a choice prompt on `script` ends with an accepted reply.
pub open spec fn choice_succeeds(tokens: Seq<String>, script: Seq<Seq<char>>, retry: bool) -> bool {
    let k = choice_attempts(tokens, script, retry);
    k > 0 && accepts(tokens, script[k - 1])
}

pub proof fn lemma_choice_attempts_bound(tokens: Seq<String>, script: Seq<Seq<char>>, retry: bool)
    ensures
        choice_attempts(tokens, script, retry) <= script.len(),
        !retry ==> choice_attempts(tokens, script, retry) == if script.len() == 0 {
            0nat
        } else {
            1nat
        },
    decreases script.len(),
{
    if script.len() > 0 {
        lemma_choice_attempts_bound(tokens, script.drop_first(), retry);
    }
}

/// Without retrying, a rejected first reply ends the prompt at once: nothing
/// after it is read, and no token is returned.
pub proof fn lemma_no_retry_fails_at_once(tokens: Seq<String>, script: Seq<Seq<char>>)
    requires
        script.len() > 0,
        !accepts(tokens, script[0]),
    ensures
        choice_attempts(tokens, script, false) == 1,
        !choice_succeeds(tokens, script, false),
{
}

/// With retrying, replies that hold an accepted token somewhere always end
/// the prompt with a token, the first accepted one.
pub proof fn lemma_retry_reaches_accepted(tokens: Seq<String>, script: Seq<Seq<char>>, i: int)
    requires
        0 <= i < script.len(),
        accepts(tokens, script[i]),
    ensures
        choice_succeeds(tokens, script, true),
        choice_attempts(tokens, script, true) <= i + 1,
    decreases i,
{
    if !accepts(tokens, script[0]) {
        lemma_retry_reaches_accepted(tokens, script.drop_first(), i - 1);
        let k = choice_attempts(tokens, script.drop_first(), true);
        assert(script[k as int] == script.drop_first()[k - 1]);
    }
}

/// Reads replies until one equals one of `tokens` and returns that token.
/// Without `retry` only the first reply is read, and a rejected one ends the
/// prompt with `None`; `None` too where the replies run out.
pub fn prompt_expect<'a>(tokens: &'a [String], input: &mut Replies, retry: bool) -> (r: Option<
    &'a String,
>)
    ensures
        final(input)@ == old(input)@.skip(choice_attempts(tokens@, old(input)@, retry) as int),
        r is Some <==> choice_succeeds(tokens@, old(input)@, retry),
        r matches Some(t) ==> accepts(tokens@, t@) && t@ == old(input)@[choice_attempts(
            tokens@,
            old(input)@,
            retry,
        ) - 1],
{
    proof {
        lemma_choice_attempts_bound(tokens@, old(input)@, retry);
    }
    loop
        invariant
            choice_attempts(tokens@, input@, retry) + old(input)@.len() - input@.len()
                == choice_attempts(tokens@, old(input)@, retry),
            input@ == old(input)@.skip(old(input)@.len() - input@.len()),
            input@.len() <= old(input)@.len(),
            input@.len() < old(input)@.len() ==> retry,
            choice_succeeds(tokens@, input@, retry) == choice_succeeds(
                tokens@,
                old(input)@,
                retry,
            ),
        decreases input@.len(),
    {
        let ghost before = input@;
        match input.next_line() {
            None => {
                assert(old(input)@.skip(choice_attempts(tokens@, old(input)@, retry) as int)
                    == input@);
                return None;
            },
            Some(line) => {
                assert(before[0] == line@);
                match find_token(tokens, line.as_str()) {
                    Some(i) => {
                        assert(texts(tokens@)[i as int] == line@);
                        assert(old(input)@.skip(choice_attempts(tokens@, old(input)@, retry) as int)
                            == input@);
                        return Some(&tokens[i]);
                    },
                    None => {
                        if !retry {
                            assert(old(input)@.skip(
                                choice_attempts(tokens@, old(input)@, retry) as int,
                            ) == input@);
                            return None;
                        }
                        proof {
                            assert(before.drop_first() == input@);
                            let k = choice_attempts(tokens@, input@, retry);
                            lemma_choice_attempts_bound(tokens@, input@, retry);
                            if k > 0 {
                                assert(before[k as int] == input@[k - 1]);
                            }
                        }
                        assert(input@ == old(input)@.skip(old(input)@.len() - input@.len()));
                    },
                }
            },
        }
    }
}

/// `s` with every `\r\n` turned into `\n`.
pub open spec fn crlf_to_lf(s: Seq<char>) -> Seq<char>
    decreases s.len(),
{
    if s.len() == 0 {
        s
    } else if s.len() >= 2 && s[0] == '\r' && s[1] == '\n' {
        seq!['\n'] + crlf_to_lf(s.skip(2))
    } else {
        seq![s[0]] + crlf_to_lf(s.drop_first())
    }
}

/// A line read without trimming, as a dialog reply: line endings made `\n`,
/// the final character (the line's end) dropped, and a bare line end kept
/// as `\n` so that it can be told from no input at all.
pub open spec fn untrimmed_reply_of(line: Seq<char>) -> Seq<char> {
    let s = crlf_to_lf(line);
    if s.len() == 0 {
        s
    } else if s.len() == 1 {
        seq!['\n']
    } else {
        s.drop_last()
    }
}

pub fn untrimmed_reply(line: &str) -> (r: String)
    ensures
        r@ == untrimmed_reply_of(line@),
{
    let n = line.unicode_len();
    let mut out = String::new();
    let mut i: usize = 0;
    assert(line@.skip(0) == line@);
    while i < n
        invariant
            n == line@.len(),
            i <= n,
            out@ + crlf_to_lf(line@.skip(i as int)) == crlf_to_lf(line@),
        decreases n - i,
    {
        let ghost rest = line@.skip(i as int);
        if i + 1 < n && line.get_char(i) == '\r' && line.get_char(i + 1) == '\n' {
            proof {
                reveal_strlit("\n");
                assert("\n"@ =~= seq!['\n']);
                assert(rest.skip(2) == line@.skip(i + 2));
                assert(out@ + "\n"@ + crlf_to_lf(line@.skip(i + 2)) == out@ + crlf_to_lf(rest));
            }
            out.append("\n");
            i = i + 2;
        } else {
            let piece = line.substring_char(i, i + 1);
            proof {
                assert(piece@ =~= seq![rest[0]]);
                assert(rest.drop_first() == line@.skip(i + 1));
                assert(out@ + piece@ + crlf_to_lf(line@.skip(i + 1)) == out@ + crlf_to_lf(rest));
            }
            out.append(piece);
            i = i + 1;
        }
    }
    assert(line@.skip(n as int) == Seq::<char>::empty());
    assert(out@ == crlf_to_lf(line@));
    let m = out.unicode_len();
    if m == 0 {
        out
    } else if m == 1 {
        proof {
            reveal_strlit("\n");
            assert("\n"@ =~= seq!['\n']);
        }
        String::from_str("\n")
    } else {
        let kept = out.as_str().substring_char(0, m - 1);
        String::from_str(kept)
    }
}

} // verus!

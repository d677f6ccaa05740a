//! A command as it is written: `[loop digits] word [argument] [@late]`.

use crate::num;
use crate::shared::Shared;
use crate::text;
use crate::verb;
use crate::verb::Verb;
use vstd::prelude::*;
use vstd::string::*;

verus! {

/// What a line says of its lateness: what follows its last `@`, trimmed.
pub open spec fn late_of(line: Seq<char>) -> Option<Seq<char>> {
    match text::last_of(line, '@') {
        Some(i) => Some(text::trimmed(line.subrange(i as int + 1, line.len() as int))),
        None => None,
    }
}

/// The line without its lateness, trimmed.
pub open spec fn body_of(line: Seq<char>) -> Seq<char> {
    match text::last_of(line, '@') {
        Some(i) => text::trimmed(line.subrange(0, i as int)),
        None => text::trimmed(line),
    }
}

/// Take the lateness off a line.
pub fn split_late<'a>(line: &'a str) -> (r: (&'a str, Option<&'a str>))
    ensures
        r.0@ == body_of(line@),
        r.1 is Some <==> late_of(line@) is Some,
        r.1 matches Some(t) ==> late_of(line@) == Some(t@),
{
    let n: usize = line.unicode_len();
    match text::rfind(line, '@') {
        Some(i) => {
            let cmd = line.substring_char(0, i);
            let ms = line.substring_char(i + 1, n);
            (text::trim(cmd), Some(text::trim(ms)))
        },
        None => (text::trim(line), None),
    }
}

/// How many digits a text starts with.
pub open spec fn lead(s: Seq<char>) -> nat
    decreases s.len(),
{
    if s.len() > 0 && text::is_digit(s[0]) {
        1 + lead(s.subrange(1, s.len() as int))
    } else {
        0
    }
}

proof fn lead_run(s: Seq<char>, n: int)
    requires
        0 <= n <= s.len(),
        forall|i: int| 0 <= i < n ==> text::is_digit(#[trigger] s[i]),
        n == s.len() || !text::is_digit(s[n]),
    ensures
        lead(s) == n,
    decreases n,
{
    if n > 0 {
        let t = s.subrange(1, s.len() as int);
        assert forall|i: int| 0 <= i < n - 1 implies text::is_digit(#[trigger] t[i]) by {
            assert(t[i] == s[i + 1]);
        }
        lead_run(t, n - 1);
    }
}

/// How many digits a text starts with.
pub fn leading(s: &str) -> (r: usize)
    ensures
        r == lead(s@),
        r <= s@.len(),
{
    let n: usize = s.unicode_len();
    let mut i: usize = 0;
    while i < n && text::digit(s.get_char(i))
        invariant
            n == s@.len(),
            i <= n,
            forall|j: int| 0 <= j < i ==> text::is_digit(#[trigger] s@[j]),
        ensures
            i <= n,
            forall|j: int| 0 <= j < i ==> text::is_digit(#[trigger] s@[j]),
            i == n || !text::is_digit(s@[i as int]),
        decreases n - i,
    {
        i = i + 1;
    }
    proof {
        lead_run(s@, i as int);
    }
    i
}

/// What a command is sent to.
#[derive(Clone, Copy, Debug, PartialEq, Eq, Structural)]
pub enum Address {
    /// Nothing: the line is empty.
    Nothing,
    /// A loop number that is none.
    NoNumber,
    /// A loop that there is not.
    NoLoop,
    /// A loop, and nothing more is said: it is selected.
    Select(usize),
    /// A loop, by its number or because it is selected.
    Loop(usize),
}

/// The digits a command starts with.
pub open spec fn digits_of(body: Seq<char>) -> Seq<char> {
    body.subrange(0, lead(body) as int)
}

/// What a command says after its digits.
pub open spec fn rest_of(body: Seq<char>) -> Seq<char> {
    if lead(body) > 0 {
        text::trimmed(body.subrange(lead(body) as int, body.len() as int))
    } else {
        body
    }
}

/// The loop that is selected.
pub open spec fn selected(sh: Shared) -> usize {
    num::smaller(sh.desk.selected as int, sh.size.n_loops - 1) as usize
}

/// What a command is sent to.
pub open spec fn address_of(sh: Shared, body: Seq<char>) -> Address {
    if body.len() == 0 {
        Address::Nothing
    } else if lead(body) == 0 {
        Address::Loop(selected(sh))
    } else {
        match text::number(digits_of(body)) {
            None => Address::NoNumber,
            Some(n) => if n >= sh.size.n_loops {
                Address::NoLoop
            } else if rest_of(body).len() == 0 {
                Address::Select(n)
            } else {
                Address::Loop(n)
            },
        }
    }
}

/// What a command is sent to, and what it says.
pub fn address<'a>(sh: &Shared, body: &'a str) -> (r: (Address, &'a str))
    requires
        sh.wf(),
    ensures
        r.0 == address_of(*sh, body@),
        r.0 is NoNumber ==> r.1@ == digits_of(body@),
        r.0 is Loop ==> r.1@ == rest_of(body@),
        r.0 matches Address::Loop(li) ==> li < sh.size.n_loops,
        r.0 matches Address::Select(li) ==> li < sh.size.n_loops,
{
    let n: usize = body.unicode_len();
    if n == 0 {
        return (Address::Nothing, body);
    }
    let d: usize = leading(body);
    if d == 0 {
        return (Address::Loop(sh.sel()), body);
    }
    let digits = body.substring_char(0, d);
    let rest = text::trim(text::skip(body, d));
    match text::parse_usize(digits) {
        None => (Address::NoNumber, digits),
        Some(li) => {
            if li >= sh.size.n_loops {
                (Address::NoLoop, rest)
            } else if rest.unicode_len() == 0 {
                (Address::Select(li), rest)
            } else {
                (Address::Loop(li), rest)
            }
        },
    }
}

/// The command a line is: the verb and its argument, where the verb is one
/// and its argument is one that may follow it.
pub open spec fn asked(rest: Seq<char>) -> Option<(Verb, Seq<char>)> {
    match verb::command_of(rest) {
        Some((v, arg)) => if verb::admitted(verb::kind_of(v), arg) {
            Some((v, arg))
        } else {
            None
        },
        None => None,
    }
}

/// The verb and the argument of what a command says.
pub fn ask<'a>(rest: &'a str) -> (r: Option<(Verb, &'a str)>)
    ensures
        r is Some <==> asked(rest@) is Some,
        r matches Some((v, arg)) ==> asked(rest@) == Some((v, arg@)),
{
    match verb::tokenize(rest) {
        Some((v, arg)) => {
            if v.arg().admits(arg) {
                Some((v, arg))
            } else {
                None
            }
        },
        None => None,
    }
}

/// What a flag says, where it says anything.
pub open spec fn flag_of(arg: Seq<char>) -> Option<bool> {
    if arg == "1"@ {
        Some(true)
    } else if arg == "0"@ {
        Some(false)
    } else {
        None
    }
}

pub fn flag(arg: &str) -> (r: Option<bool>)
    ensures
        r == flag_of(arg@),
{
    if text::same(arg, "1") {
        Some(true)
    } else if text::same(arg, "0") {
        Some(false)
    } else {
        None
    }
}

/// What has to be worked out for a verb before it can be carried out.
#[derive(Clone, Copy, Debug, PartialEq, Eq, Structural)]
pub enum Wants {
    /// Nothing.
    Nothing,
    /// Its argument as a real number, and what so many decibels are.
    Single,
    /// The same in the wide form, and what so many seconds or milliseconds
    /// are in frames.
    Wide,
    /// The loop's layers folded into one: what is mixed at each position.
    Fold,
}

/// What has to be worked out for a verb.
pub open spec fn wants_of(v: Verb) -> Wants {
    match v {
        Verb::Tone | Verb::Feedback | Verb::Decay | Verb::Chance | Verb::Vol => Wants::Single,
        Verb::Take
        | Verb::Speed
        | Verb::Fix
        | Verb::Blank
        | Verb::Fade
        | Verb::ArmLevel => Wants::Wide,
        Verb::Revox => Wants::Fold,
        _ => Wants::Nothing,
    }
}

pub fn wants(v: Verb) -> (r: Wants)
    ensures
        r == wants_of(v),
{
    match v {
        Verb::Tone | Verb::Feedback | Verb::Decay | Verb::Chance | Verb::Vol => Wants::Single,
        Verb::Take
        | Verb::Speed
        | Verb::Fix
        | Verb::Blank
        | Verb::Fade
        | Verb::ArmLevel => Wants::Wide,
        Verb::Revox => Wants::Fold,
        _ => Wants::Nothing,
    }
}

/// The loop, the verb and the argument a line comes to, where it comes to
/// any.
pub open spec fn command_in(sh: Shared, line: Seq<char>) -> Option<(usize, Verb, Seq<char>)> {
    match address_of(sh, body_of(line)) {
        Address::Loop(li) => match asked(rest_of(body_of(line))) {
            Some((v, arg)) => Some((li, v, arg)),
            None => None,
        },
        _ => None,
    }
}

/// The loop, the verb and the argument a line comes to.
pub fn command<'a>(sh: &Shared, line: &'a str) -> (r: Option<(usize, Verb, &'a str)>)
    requires
        sh.wf(),
    ensures
        r is Some <==> command_in(*sh, line@) is Some,
        r matches Some((li, v, arg)) ==> command_in(*sh, line@) == Some((li, v, arg@)) && li
            < sh.size.n_loops,
{
    let (body, _) = split_late(line);
    match address(sh, body) {
        (Address::Loop(li), rest) => match ask(rest) {
            Some((v, arg)) => Some((li, v, arg)),
            None => None,
        },
        _ => None,
    }
}

proof fn found_last(s: Seq<char>, c: char, n: int)
    requires
        0 <= n < s.len(),
        s[n] == c,
        forall|i: int| n < i < s.len() ==> #[trigger] s[i] != c,
    ensures
        text::last_of(s, c) == Some(n as nat),
    decreases s.len(),
{
    if n < s.len() - 1 {
        found_last(s.subrange(0, s.len() - 1), c, n);
    }
}

/// A lateness is what follows the last `@`: whatever a line says before it
/// is the command, unchanged by how late it is.
pub proof fn a_lateness_is_apart_from_its_command(cmd: Seq<char>, late: Seq<char>)
    requires
        forall|i: int| 0 <= i < late.len() ==> #[trigger] late[i] != '@',
    ensures
        body_of(cmd + seq!['@'] + late) == text::trimmed(cmd),
        late_of(cmd + seq!['@'] + late) == Some(text::trimmed(late)),
{
    let s = cmd + seq!['@'] + late;
    found_last(s, '@', cmd.len() as int);
    assert(s.subrange(cmd.len() as int + 1, s.len() as int) =~= late);
    assert(s.subrange(0, cmd.len() as int) =~= cmd);
}

/// A command is for the loop it names, wherever there is such a loop; where
/// it names none, for the one that is selected.
pub proof fn a_command_is_for_the_loop_it_names(
    sh: Shared,
    digits: Seq<char>,
    rest: Seq<char>,
    n: usize,
)
    requires
        sh.size.n_loops >= 1,
        rest.len() > 0,
        !text::is_digit(rest[0]),
        text::trimmed(rest).len() > 0,
        forall|i: int| 0 <= i < digits.len() ==> text::is_digit(#[trigger] digits[i]),
        text::number(digits) == Some(n),
        digits.len() > 0,
    ensures
        n < sh.size.n_loops <==> address_of(sh, digits + rest) == Address::Loop(n),
        n < sh.size.n_loops <==> address_of(sh, digits) == Address::Select(n),
        n >= sh.size.n_loops <==> address_of(sh, digits + rest) == Address::NoLoop,
        rest_of(digits + rest) == text::trimmed(rest),
        rest_of(rest) == rest,
        sh.desk.selected < sh.size.n_loops ==> address_of(sh, rest) == Address::Loop(
            sh.desk.selected,
        ),
{
    let s = digits + rest;
    lead_run(s, digits.len() as int);
    lead_run(digits, digits.len() as int);
    lead_run(rest, 0);
    assert(s.subrange(0, digits.len() as int) =~= digits);
    assert(s.subrange(digits.len() as int, s.len() as int) =~= rest);
    assert(digits.subrange(0, digits.len() as int) =~= digits);
    let nothing = digits.subrange(digits.len() as int, digits.len() as int);
    assert(nothing.len() == 0);
    assert(text::trimmed(nothing).len() == 0);
}

} // verus!

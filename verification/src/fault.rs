//! What is said of a command line that cannot be taken.

use crate::aggregate;
use crate::aggregate::{Layout, Member};
use crate::inputs;
use crate::inputs::{Misplaced, SourceFault};
use crate::options;
use crate::options::{Fault, Flag};
use crate::text;
use vstd::prelude::*;
use vstd::string::*;

verus! {

/// An argument, or nothing where there is none.
pub open spec fn word(args: Seq<Seq<char>>, i: int) -> Seq<char> {
    if 0 <= i < args.len() {
        args[i]
    } else {
        ""@
    }
}

/// What an option wants for a value.
pub open spec fn wanted(f: Option<Flag>) -> Seq<char> {
    match f {
        Some(Flag::Residual)
        | Some(Flag::MaxSecs)
        | Some(Flag::RingSecs)
        | Some(Flag::CaptureSecs)
        | Some(Flag::PrerollMs)
        | Some(Flag::LoopSecs)
        | Some(Flag::Amp) => "a number"@,
        Some(Flag::FixedSecs) => "a number of seconds"@,
        Some(Flag::WsPort) | Some(Flag::LinkPort) => "a port number"@,
        Some(Flag::ArmDb) => "a number of dBFS"@,
        Some(Flag::Selftest) => "a length in seconds"@,
        _ => "an integer"@,
    }
}

fn want(f: Option<Flag>) -> (r: &'static str)
    ensures
        r@ == wanted(f),
{
    match f {
        Some(Flag::Residual)
        | Some(Flag::MaxSecs)
        | Some(Flag::RingSecs)
        | Some(Flag::CaptureSecs)
        | Some(Flag::PrerollMs)
        | Some(Flag::LoopSecs)
        | Some(Flag::Amp) => "a number",
        Some(Flag::FixedSecs) => "a number of seconds",
        Some(Flag::WsPort) | Some(Flag::LinkPort) => "a port number",
        Some(Flag::ArmDb) => "a number of dBFS",
        Some(Flag::Selftest) => "a length in seconds",
        _ => "an integer",
    }
}

/// The piece of an input that is channel `i` as it is written.
pub open spec fn channel_text(v: Seq<char>, i: int) -> Seq<char> {
    match text::cut(v, '=').1 {
        None => ""@,
        Some(rest) => word(inputs::pieces(inputs::on_member(rest).1, ','), i),
    }
}

/// What is said of an input that cannot be read.
pub open spec fn source_said(why: SourceFault, v: Seq<char>) -> Seq<char> {
    let name = text::cut(v, '=').0;
    match why {
        SourceFault::Shape => "--source wants name=channel, not `"@ + v + "`"@,
        SourceFault::NoName => "--source `"@ + v + "` has no name"@,
        SourceFault::Count(n) => "--source "@ + name + " wants one or 2 channels, not "@
            + text::decimal(n as nat),
        SourceFault::NotNumber(i) => "--source "@ + name + ": `"@ + channel_text(v, i as int)
            + "` is not a channel number"@,
        SourceFault::FromOne => "--source "@ + name + ": channels count from 1"@,
    }
}

fn put_channel(out: &mut String, rest: Option<&str>, i: usize)
    ensures
        final(out)@ == old(out)@ + (match rest {
            None => ""@,
            Some(rest) => word(inputs::pieces(inputs::on_member(rest@).1, ','), i as int),
        }),
{
    match rest {
        None => {
            out.append("");
        },
        Some(rest) => {
            let (_, chans) = inputs::member_of(rest);
            let parts = inputs::split(chans, ',');
            let ghost views = inputs::pieces(chans@, ',');
            assert(views.len() == parts@.len());
            if i < parts.len() {
                assert(views[i as int] == parts@[i as int]@);
                out.append(parts[i]);
            } else {
                out.append("");
            }
        },
    }
}

/// What is said of an input that cannot be read.
pub fn source_words(why: SourceFault, v: &str) -> (r: String)
    ensures
        r@ == source_said(why, v@),
{
    let (name, rest) = text::cut_at(v, '=');
    match why {
        SourceFault::Shape => {
            let mut out = "--source wants name=channel, not `".to_string();
            out.append(v);
            out.append("`");
            out
        },
        SourceFault::NoName => {
            let mut out = "--source `".to_string();
            out.append(v);
            out.append("` has no name");
            out
        },
        SourceFault::Count(n) => {
            let mut out = "--source ".to_string();
            out.append(name);
            out.append(" wants one or 2 channels, not ");
            text::push_number(&mut out, n);
            out
        },
        SourceFault::NotNumber(i) => {
            let mut out = "--source ".to_string();
            out.append(name);
            out.append(": `");
            put_channel(&mut out, rest, i);
            out.append("` is not a channel number");
            out
        },
        SourceFault::FromOne => {
            let mut out = "--source ".to_string();
            out.append(name);
            out.append(": channels count from 1");
            out
        },
    }
}

/// What is said of a fault. Where something is misplaced, what is said of it
/// is [`misplaced_said`].
pub open spec fn said(f: Fault, who: Seq<char>, args: Seq<Seq<char>>) -> Seq<char> {
    match f {
        Fault::NeedsValue(i) => word(args, i as int) + " needs a value"@,
        Fault::Unknown(i) => "unknown option "@ + text::quoted(word(args, i as int)),
        Fault::Wants(i) => word(args, i as int) + " wants "@ + wanted(
            options::flag_of(word(args, i as int)),
        ),
        Fault::AtLeastOne(i) => word(args, i as int) + " wants at least one"@,
        Fault::TooShort(i) => word(args, i as int) + " wants a length greater than zero"@,
        Fault::OutFromOne(i) => word(args, i as int)
            + ": an interface's channels count from 1"@,
        Fault::Source(i, why) => source_said(why, word(args, i + 1)),
        Fault::NoDevice => who + " needs --device"@,
        Fault::Misplaced(_) => ""@,
        Fault::MaxSecs => "--max-secs must be positive"@,
        Fault::LoopSecs => "--loop-secs must be positive"@,
        Fault::AmpRange => "--amp must be between 0 and 1"@,
        Fault::NoRepeats => "--repeats must be at least 1"@,
    }
}

fn word_at(args: &Vec<String>, i: usize) -> (r: &str)
    ensures
        r@ == word(text::views(args@), i as int),
{
    if i < args.len() {
        args[i].as_str()
    } else {
        ""
    }
}

fn value_at(args: &Vec<String>, i: usize) -> (r: &str)
    ensures
        r@ == word(text::views(args@), i + 1),
{
    if i < args.len() {
        word_at(args, i + 1)
    } else {
        ""
    }
}

fn of_word(args: &Vec<String>, i: usize, rest: &str) -> (r: String)
    ensures
        r@ == word(text::views(args@), i as int) + rest@,
{
    let mut out = word_at(args, i).to_string();
    out.append(rest);
    out
}

/// What is said of a fault in the command line of `who`.
pub fn words(f: Fault, who: &str, args: &Vec<String>) -> (r: String)
    ensures
        r@ == said(f, who@, text::views(args@)),
{
    match f {
        Fault::NeedsValue(i) => of_word(args, i, " needs a value"),
        Fault::Unknown(i) => {
            let mut out = "unknown option ".to_string();
            out.append(text::quote(word_at(args, i)).as_str());
            out
        },
        Fault::Wants(i) => {
            let mut out = of_word(args, i, " wants ");
            out.append(want(options::flag(word_at(args, i))));
            out
        },
        Fault::AtLeastOne(i) => of_word(args, i, " wants at least one"),
        Fault::TooShort(i) => of_word(args, i, " wants a length greater than zero"),
        Fault::OutFromOne(i) => of_word(args, i, ": an interface's channels count from 1"),
        Fault::Source(i, why) => source_words(why, value_at(args, i)),
        Fault::NoDevice => {
            let mut out = who.to_string();
            out.append(" needs --device");
            out
        },
        Fault::Misplaced(_) => "".to_string(),
        Fault::MaxSecs => "--max-secs must be positive".to_string(),
        Fault::LoopSecs => "--loop-secs must be positive".to_string(),
        Fault::AmpRange => "--amp must be between 0 and 1".to_string(),
        Fault::NoRepeats => "--repeats must be at least 1".to_string(),
    }
}

/// What an input or the output was asked to be: its name, the interface it is
/// on, and for the output its channel.
pub struct Asked<'a> {
    pub name: &'a str,
    pub on: &'a str,
    pub out_ch: usize,
}

/// That a member has too few channels of a kind.
pub open spec fn too_few(m: Member, n: u32, kind: Seq<char>, ch: usize) -> Seq<char> {
    m.name@ + " has "@ + text::decimal(n as nat) + kind + (if n == 1 {
        ""@
    } else {
        "s"@
    }) + ", so there is no channel "@ + text::decimal((ch + 1) as nat)
}

fn put_too_few(out: &mut String, m: &Member, n: u32, kind: &str, ch: usize)
    ensures
        final(out)@ == old(out)@ + too_few(*m, n, kind@, ch),
{
    let mut s = m.name.as_str().to_string();
    s.append(" has ");
    text::push_number(&mut s, n as usize);
    s.append(kind);
    s.append(
        if n == 1 {
            ""
        } else {
            "s"
        },
    );
    s.append(", so there is no channel ");
    text::push_big(&mut s, ch as u128 + 1);
    out.append(s.as_str());
}

/// That a device has no members.
pub open spec fn no_member(l: Layout, on: Seq<char>) -> Seq<char> {
    text::quoted(l.name@) + " is not an aggregate, so it has no member "@ + text::quoted(on)
}

fn put_no_member(out: &mut String, l: &Layout, on: &str)
    ensures
        final(out)@ == old(out)@ + no_member(*l, on@),
{
    let mut s = text::quote(l.name.as_str());
    s.append(" is not an aggregate, so it has no member ");
    s.append(text::quote(on).as_str());
    out.append(s.as_str());
}

/// That the members do not add up to the device.
pub open spec fn unlike(l: Layout) -> Seq<char> {
    l.name@ + ": its members add up to "@ + text::decimal(
        aggregate::inputs_of(l.members@, l.members@.len() as int) as nat,
    ) + " inputs and the device reports "@ + text::decimal(l.in_ch as nat)
        + ". The channel order is not understood — probably because a member is configured in and not switched on — and resolving a source against a layout that is not understood is how a session gets recorded off the wrong input. Run `itajara sources --device "@
        + text::quoted(l.name@)
        + "` to see it, and either switch the missing interface on or name a device that is all there."@
}

fn unlike_words(l: &Layout) -> (r: String)
    ensures
        r@ == unlike(*l),
{
    let n: usize = l.members.len();
    let mut sum: u128 = 0;
    let mut i: usize = 0;
    while i < n
        invariant
            n == l.members@.len(),
            i <= n,
            sum == aggregate::inputs_of(l.members@, i as int),
            sum <= i * 0x1_0000_0000,
        decreases n - i,
    {
        assert((i + 1) * 0x1_0000_0000 <= 0x1_0000_0000_0000_0000_0000_0000);
        sum = sum + l.members[i].in_ch as u128;
        i = i + 1;
    }
    let mut out = l.name.as_str().to_string();
    out.append(": its members add up to ");
    text::push_big(&mut out, sum);
    out.append(" inputs and the device reports ");
    text::push_number(&mut out, l.in_ch as usize);
    out.append(
        ". The channel order is not understood — probably because a member is configured in and not switched on — and resolving a source against a layout that is not understood is how a session gets recorded off the wrong input. Run `itajara sources --device ",
    );
    out.append(text::quote(l.name.as_str()).as_str());
    out.append(
        "` to see it, and either switch the missing interface on or name a device that is all there.",
    );
    out
}

/// What is said of an input or an output that has no place on a device that
/// is made so.
pub open spec fn nowhere(m: Misplaced, l: Layout, asked: Asked) -> Seq<char> {
    match m {
        Misplaced::NoLayout => ""@,
        Misplaced::OutMember(why) => "--out-ch: "@ + aggregate::refusal(l, asked.on@, why),
        Misplaced::OutAbsent(i) => "--out-ch names "@ + l.members@[i as int].name@
            + ", which is configured into "@ + l.name@
            + " and not switched on. Playback has to go somewhere you can hear it."@,
        Misplaced::OutRange(i) => "--out-ch: "@ + too_few(
            l.members@[i as int],
            l.members@[i as int].out_ch,
            " output"@,
            asked.out_ch,
        ),
        Misplaced::OutPlain => "--out-ch: "@ + no_member(l, asked.on@),
        Misplaced::Inconsistent => unlike(l),
        Misplaced::Member(_, why) => "--source "@ + asked.name@ + ": "@ + aggregate::refusal(
            l,
            asked.on@,
            why,
        ),
        Misplaced::Range(_, i, ch) => "--source "@ + asked.name@ + ": "@ + too_few(
            l.members@[i as int],
            l.members@[i as int].in_ch,
            " input"@,
            ch,
        ),
        Misplaced::Plain(_) => "--source "@ + asked.name@ + ": "@ + no_member(l, asked.on@),
    }
}

/// Whether the member a fault is about, if it is about one, is there.
pub open spec fn about(m: Misplaced, l: Layout) -> bool {
    match m {
        Misplaced::OutAbsent(i) => i < l.members@.len(),
        Misplaced::OutRange(i) => i < l.members@.len(),
        Misplaced::Range(_, i, _) => i < l.members@.len(),
        _ => true,
    }
}

/// What is said of an input or an output that has no place.
pub open spec fn misplaced_said(
    m: Misplaced,
    device: Seq<char>,
    layout: Option<Layout>,
    asked: Asked,
) -> Seq<char> {
    match layout {
        None => "cannot read the layout of "@ + text::quoted(device)
            + ", so a source named by interface cannot be placed"@,
        Some(l) => nowhere(m, l, asked),
    }
}

fn of_source(name: &str) -> (r: String)
    ensures
        r@ == "--source "@ + name@ + ": "@,
{
    let mut out = "--source ".to_string();
    out.append(name);
    out.append(": ");
    out
}

fn nowhere_words(m: Misplaced, l: &Layout, asked: &Asked) -> (r: String)
    requires
        about(m, *l),
    ensures
        r@ == nowhere(m, *l, *asked),
{
    match m {
        Misplaced::NoLayout => "".to_string(),
        Misplaced::OutMember(why) => {
            let mut out = "--out-ch: ".to_string();
            out.append(l.lost(asked.on, why).as_str());
            out
        },
        Misplaced::OutAbsent(i) => {
            let mut out = "--out-ch names ".to_string();
            out.append(l.members[i].name.as_str());
            out.append(", which is configured into ");
            out.append(l.name.as_str());
            out.append(" and not switched on. Playback has to go somewhere you can hear it.");
            out
        },
        Misplaced::OutRange(i) => {
            let mut out = "--out-ch: ".to_string();
            put_too_few(&mut out, &l.members[i], l.members[i].out_ch, " output", asked.out_ch);
            out
        },
        Misplaced::OutPlain => {
            let mut out = "--out-ch: ".to_string();
            put_no_member(&mut out, l, asked.on);
            out
        },
        Misplaced::Inconsistent => unlike_words(l),
        Misplaced::Member(_, why) => {
            let mut out = of_source(asked.name);
            out.append(l.lost(asked.on, why).as_str());
            out
        },
        Misplaced::Range(_, i, ch) => {
            let mut out = of_source(asked.name);
            put_too_few(&mut out, &l.members[i], l.members[i].in_ch, " input", ch);
            out
        },
        Misplaced::Plain(_) => {
            let mut out = of_source(asked.name);
            put_no_member(&mut out, l, asked.on);
            out
        },
    }
}

/// What is said of an input or an output that has no place.
pub fn misplaced_words(
    m: Misplaced,
    device: &str,
    layout: &Option<Layout>,
    asked: &Asked,
) -> (r: String)
    requires
        layout matches Some(l) ==> about(m, *l),
    ensures
        r@ == misplaced_said(m, device@, *layout, *asked),
{
    match layout {
        None => {
            let mut out = "cannot read the layout of ".to_string();
            out.append(text::quote(device).as_str());
            out.append(", so a source named by interface cannot be placed");
            out
        },
        Some(l) => nowhere_words(m, l, asked),
    }
}

} // verus!

//! The inputs a command line names, and where they are on a device.

use crate::aggregate;
use crate::aggregate::{Layout, Lost};
use crate::source::CHANNELS;
use crate::text;
use vstd::prelude::*;
use vstd::string::*;

verus! {

/// An input as a command line names it: its channels, counted from zero, on
/// the device or on one of its members.
#[derive(Debug)]
pub struct Input {
    pub name: String,
    pub ch: [usize; 2],
    /// The member its channels are counted on.
    pub on: Option<String>,
    /// It can be recorded from: its member is switched on.
    pub available: bool,
}

/// What an input says.
pub struct InputView {
    pub name: Seq<char>,
    pub left: usize,
    pub right: usize,
    pub on: Option<Seq<char>>,
    pub available: bool,
}

/// The view of a text that may not be there.
pub open spec fn text_of(s: Option<String>) -> Option<Seq<char>> {
    match s {
        Some(t) => Some(t@),
        None => None,
    }
}

impl View for Input {
    type V = InputView;

    open spec fn view(&self) -> InputView {
        InputView {
            name: self.name@,
            left: self.ch@[0],
            right: self.ch@[1],
            on: text_of(self.on),
            available: self.available,
        }
    }
}

/// The views of inputs.
pub open spec fn input_views(inputs: Seq<Input>) -> Seq<InputView> {
    Seq::new(inputs.len(), |i: int| inputs[i]@)
}

/// Why an input could not be read.
#[derive(Clone, Copy, Debug, PartialEq, Eq, Structural)]
pub enum SourceFault {
    /// It is not a name and channels.
    Shape,
    /// It has no name.
    NoName,
    /// It has so many channels.
    Count(usize),
    /// One of its channels is not a number.
    NotNumber(usize),
    /// Channels count from one.
    FromOne,
}

/// A text in pieces, cut at every `c`.
pub open spec fn pieces(s: Seq<char>, c: char) -> Seq<Seq<char>>
    decreases s.len(),
{
    match text::first_of(s, c) {
        None => seq![s],
        Some(i) => {
            let rest = s.subrange(i as int + 1, s.len() as int);
            if i < s.len() {
                seq![s.subrange(0, i as int)] + pieces(rest, c)
            } else {
                seq![s]
            }
        },
    }
}

/// The views of parts of a text.
pub open spec fn part_views(parts: Seq<&str>) -> Seq<Seq<char>> {
    Seq::new(parts.len(), |i: int| parts[i]@)
}

pub(crate) fn split<'a>(s: &'a str, c: char) -> (r: Vec<&'a str>)
    ensures
        part_views(r@) == pieces(s@, c),
        r@.len() >= 1,
{
    let mut r: Vec<&'a str> = Vec::new();
    let mut rest: &'a str = s;
    loop
        invariant_except_break
            part_views(r@) + pieces(rest@, c) == pieces(s@, c),
        ensures
            part_views(r@) == pieces(s@, c),
            r@.len() >= 1,
        decreases rest@.len(),
    {
        let n: usize = rest.unicode_len();
        let ghost before = part_views(r@);
        match text::find(rest, c) {
            None => {
                r.push(rest);
                assert(part_views(r@) =~= before + seq![rest@]);
                break;
            },
            Some(i) => {
                let head = rest.substring_char(0, i);
                let tail = rest.substring_char(i + 1, n);
                r.push(head);
                assert(part_views(r@) =~= before + seq![head@]);
                assert(before + (seq![head@] + pieces(tail@, c)) =~= (before + seq![head@])
                    + pieces(tail@, c));
                rest = tail;
            },
        }
    }
    r
}

/// A text cut at its last `:`, where there is something on both sides: the
/// member, and what is said of it.
pub open spec fn on_member(s: Seq<char>) -> (Option<Seq<char>>, Seq<char>) {
    match text::last_of(s, ':') {
        Some(i) => if i > 0 && i + 1 < s.len() {
            (
                Some(text::trimmed(s.subrange(0, i as int))),
                s.subrange(i as int + 1, s.len() as int),
            )
        } else {
            (None, s)
        },
        None => (None, s),
    }
}

pub fn member_of<'a>(s: &'a str) -> (r: (Option<String>, &'a str))
    ensures
        text_of(r.0) == on_member(s@).0,
        r.1@ == on_member(s@).1,
{
    let n: usize = s.unicode_len();
    match text::rfind(s, ':') {
        Some(i) => {
            if i > 0 && i + 1 < n {
                let dev = text::trim(s.substring_char(0, i));
                (Some(dev.to_string()), s.substring_char(i + 1, n))
            } else {
                (None, s)
            }
        },
        None => (None, s),
    }
}

/// A channel of an input, which counts from one where it is written.
pub open spec fn channel(part: Seq<char>, i: usize) -> Result<usize, SourceFault> {
    match text::number(text::trimmed(part)) {
        None => Err(SourceFault::NotNumber(i)),
        Some(n) => if n == 0 {
            Err(SourceFault::FromOne)
        } else {
            Ok((n - 1) as usize)
        },
    }
}

fn read_channel(part: &str, i: usize) -> (r: Result<usize, SourceFault>)
    ensures
        r == channel(part@, i),
{
    match text::parse_usize(text::trim(part)) {
        None => Err(SourceFault::NotNumber(i)),
        Some(n) => {
            if n == 0 {
                Err(SourceFault::FromOne)
            } else {
                Ok(n - 1)
            }
        },
    }
}

/// The channels of an input: two, or one that is both.
pub open spec fn channels(parts: Seq<Seq<char>>) -> Result<(usize, usize), SourceFault> {
    if parts.len() > CHANNELS {
        Err(SourceFault::Count(parts.len() as usize))
    } else {
        match channel(parts[0], 0) {
            Err(e) => Err(e),
            Ok(left) => if parts.len() == 1 {
                Ok((left, left))
            } else {
                match channel(parts[1], 1) {
                    Err(e) => Err(e),
                    Ok(right) => Ok((left, right)),
                }
            },
        }
    }
}

/// An input: `name=channel[,channel]` or `name=member:channel[,channel]`.
pub open spec fn source_of(v: Seq<char>) -> Result<InputView, SourceFault> {
    match text::cut(v, '=') {
        (_, None) => Err(SourceFault::Shape),
        (name, Some(rest)) => if name.len() == 0 {
            Err(SourceFault::NoName)
        } else {
            match channels(pieces(on_member(rest).1, ',')) {
                Err(e) => Err(e),
                Ok((left, right)) => Ok(
                    InputView { name, left, right, on: on_member(rest).0, available: true },
                ),
            }
        },
    }
}

/// Read an input.
pub fn parse_source(v: &str) -> (r: Result<Input, SourceFault>)
    ensures
        match r {
            Ok(i) => source_of(v@) == Ok::<InputView, SourceFault>(i@),
            Err(e) => source_of(v@) == Err::<InputView, SourceFault>(e),
        },
{
    let (name, rest) = text::cut_at(v, '=');
    let rest = match rest {
        None => {
            return Err(SourceFault::Shape);
        },
        Some(rest) => rest,
    };
    if name.unicode_len() == 0 {
        return Err(SourceFault::NoName);
    }
    let (on, chans) = member_of(rest);
    let parts = split(chans, ',');
    let ghost views = pieces(chans@, ',');
    assert(views.len() == parts@.len());
    if parts.len() > 2 {
        return Err(SourceFault::Count(parts.len()));
    }
    assert(views[0] == parts@[0]@);
    let left: usize = match read_channel(parts[0], 0) {
        Err(e) => {
            return Err(e);
        },
        Ok(n) => n,
    };
    let mut right: usize = left;
    if parts.len() == 2 {
        assert(views[1] == parts@[1]@);
        match read_channel(parts[1], 1) {
            Err(e) => {
                return Err(e);
            },
            Ok(n) => {
                right = n;
            },
        }
    }
    let input = Input { name: name.to_string(), ch: [left, right], on, available: true };
    Ok(input)
}

/// Why an input or the output could not be placed.
#[derive(Clone, Copy, Debug, PartialEq, Eq, Structural)]
pub enum Misplaced {
    /// What the device is made of is not known.
    NoLayout,
    /// The output's member was not found.
    OutMember(Lost),
    /// The output's member is not switched on.
    OutAbsent(usize),
    /// The output's member has no such channel.
    OutRange(usize),
    /// The device is no aggregate and has no such member, for the output.
    OutPlain,
    /// The members do not add up to the device.
    Inconsistent,
    /// An input's member was not found.
    Member(usize, Lost),
    /// An input's member has no such channel.
    Range(usize, usize, usize),
    /// The device is no aggregate and has no such member, for an input.
    Plain(usize),
}

/// The channels of a layout can be counted from one.
pub open spec fn counted(l: Layout) -> bool {
    forall|i: int|
        0 <= i < l.members@.len() ==> {
            let m = #[trigger] l.members@[i];
            &&& m.first_in >= 1
            &&& m.first_out >= 1
            &&& m.first_in + m.in_ch <= u32::MAX
            &&& m.first_out + m.out_ch <= u32::MAX
        }
}

/// Whether a plain device is the one that is meant.
pub open spec fn named(l: Layout, dev: Seq<char>) -> bool {
    text::holds(text::lowercase(l.name@), text::lowercase(dev))
}

/// Where the output is: on the member that is meant, which has to be switched
/// on.
pub open spec fn out_placed(
    l: Layout,
    out_ch: usize,
    on: Option<Seq<char>>,
) -> Result<usize, Misplaced> {
    match on {
        None => Ok(out_ch),
        Some(dev) => if l.members@.len() == 0 {
            if named(l, dev) {
                Ok(out_ch)
            } else {
                Err(Misplaced::OutPlain)
            }
        } else {
            match aggregate::meant(aggregate::names(l.members@), dev) {
                Err(why) => Err(Misplaced::OutMember(why)),
                Ok(i) => {
                    let m = l.members@[i];
                    if m.absent {
                        Err(Misplaced::OutAbsent(i as usize))
                    } else if out_ch >= m.out_ch {
                        Err(Misplaced::OutRange(i as usize))
                    } else {
                        Ok((out_ch + m.first_out - 1) as usize)
                    }
                },
            }
        },
    }
}

/// Where an input is. One whose member is not switched on keeps its place
/// and cannot be recorded from.
pub open spec fn placed(l: Layout, s: InputView, k: int) -> Result<InputView, Misplaced> {
    match s.on {
        None => Ok(s),
        Some(dev) => if l.members@.len() == 0 {
            if named(l, dev) {
                Ok(s)
            } else {
                Err(Misplaced::Plain(k as usize))
            }
        } else {
            match aggregate::meant(aggregate::names(l.members@), dev) {
                Err(why) => Err(Misplaced::Member(k as usize, why)),
                Ok(i) => {
                    let m = l.members@[i];
                    if m.absent {
                        Ok(InputView { available: false, left: 0, right: 0, ..s })
                    } else if s.left >= m.in_ch {
                        Err(Misplaced::Range(k as usize, i as usize, s.left))
                    } else if s.right >= m.in_ch {
                        Err(Misplaced::Range(k as usize, i as usize, s.right))
                    } else {
                        Ok(
                            InputView {
                                left: (s.left + m.first_in - 1) as usize,
                                right: (s.right + m.first_in - 1) as usize,
                                ..s
                            },
                        )
                    }
                },
            }
        },
    }
}

/// Where the first `n` inputs are, or why the first of them that is nowhere
/// is not.
pub open spec fn all_placed(l: Layout, inputs: Seq<InputView>, n: int) -> Result<
    Seq<InputView>,
    Misplaced,
>
    decreases n,
{
    if n <= 0 {
        Ok(Seq::empty())
    } else {
        match all_placed(l, inputs, n - 1) {
            Err(e) => Err(e),
            Ok(before) => match placed(l, inputs[n - 1], n - 1) {
                Err(e) => Err(e),
                Ok(s) => Ok(before.push(s)),
            },
        }
    }
}

/// Whether anything has to be placed.
pub open spec fn unplaced(inputs: Seq<InputView>, out_on: Option<Seq<char>>) -> bool {
    out_on is Some || exists|i: int| 0 <= i < inputs.len() && (#[trigger] inputs[i]).on is Some
}

/// Where the output and every input are on a device.
pub open spec fn resolved(
    inputs: Seq<InputView>,
    out_ch: usize,
    out_on: Option<Seq<char>>,
    layout: Option<Layout>,
) -> Result<(usize, Seq<InputView>), Misplaced> {
    if !unplaced(inputs, out_on) {
        Ok((out_ch, inputs))
    } else {
        match layout {
            None => Err(Misplaced::NoLayout),
            Some(l) => match out_placed(l, out_ch, out_on) {
                Err(e) => Err(e),
                Ok(out) => if aggregate::inputs_of(l.members@, l.members@.len() as int) != l.in_ch
                    && l.members@.len() > 0 {
                    Err(Misplaced::Inconsistent)
                } else {
                    match all_placed(l, inputs, inputs.len() as int) {
                        Err(e) => Err(e),
                        Ok(all) => Ok((out, all)),
                    }
                },
            },
        }
    }
}

fn meant_plainly(l: &Layout, dev: &str) -> (r: bool)
    ensures
        r == named(*l, dev@),
{
    let name = text::to_lower(l.name.as_str());
    let lower = text::to_lower(dev);
    text::contains(name.as_str(), lower.as_str())
}

fn place_out(l: &Layout, out_ch: usize, on: &Option<String>) -> (r: Result<usize, Misplaced>)
    requires
        counted(*l),
    ensures
        r == out_placed(*l, out_ch, text_of(*on)),
{
    let dev = match on {
        None => {
            return Ok(out_ch);
        },
        Some(dev) => dev.as_str(),
    };
    if !l.is_aggregate() {
        return if meant_plainly(l, dev) {
            Ok(out_ch)
        } else {
            Err(Misplaced::OutPlain)
        };
    }
    match l.find(dev) {
        Err(why) => Err(Misplaced::OutMember(why)),
        Ok(i) => {
            let m = &l.members[i];
            if m.absent {
                return Err(Misplaced::OutAbsent(i));
            }
            if out_ch as u64 >= m.out_ch as u64 {
                return Err(Misplaced::OutRange(i));
            }
            Ok(out_ch + (m.first_out - 1) as usize)
        },
    }
}

fn copy_on(on: &Option<String>) -> (r: Option<String>)
    ensures
        text_of(r) == text_of(*on),
{
    match on {
        None => None,
        Some(t) => Some(t.as_str().to_string()),
    }
}

fn place(l: &Layout, s: &Input, k: usize) -> (r: Result<Input, Misplaced>)
    requires
        counted(*l),
    ensures
        match r {
            Ok(i) => placed(*l, s@, k as int) == Ok::<InputView, Misplaced>(i@),
            Err(e) => placed(*l, s@, k as int) == Err::<InputView, Misplaced>(e),
        },
{
    let name = s.name.as_str().to_string();
    let on = copy_on(&s.on);
    let left: usize = s.ch[0];
    let right: usize = s.ch[1];
    let dev = match &s.on {
        None => {
            return Ok(Input { name, ch: [left, right], on, available: s.available });
        },
        Some(dev) => dev.as_str(),
    };
    if !l.is_aggregate() {
        return if meant_plainly(l, dev) {
            Ok(Input { name, ch: [left, right], on, available: s.available })
        } else {
            Err(Misplaced::Plain(k))
        };
    }
    match l.find(dev) {
        Err(why) => Err(Misplaced::Member(k, why)),
        Ok(i) => {
            let m = &l.members[i];
            if m.absent {
                return Ok(Input { name, ch: [0, 0], on, available: false });
            }
            if left as u64 >= m.in_ch as u64 {
                return Err(Misplaced::Range(k, i, left));
            }
            if right as u64 >= m.in_ch as u64 {
                return Err(Misplaced::Range(k, i, right));
            }
            let base: usize = (m.first_in - 1) as usize;
            Ok(
                Input {
                    name,
                    ch: [left + base, right + base],
                    on,
                    available: s.available,
                },
            )
        },
    }
}

fn copy_input(s: &Input) -> (r: Input)
    ensures
        r@ == s@,
{
    Input {
        name: s.name.as_str().to_string(),
        ch: [s.ch[0], s.ch[1]],
        on: copy_on(&s.on),
        available: s.available,
    }
}

fn place_all(l: &Layout, inputs: &Vec<Input>) -> (r: Result<Vec<Input>, Misplaced>)
    requires
        counted(*l),
    ensures
        match r {
            Ok(all) => all_placed(*l, input_views(inputs@), inputs@.len() as int) == Ok::<
                Seq<InputView>,
                Misplaced,
            >(input_views(all@)),
            Err(e) => all_placed(*l, input_views(inputs@), inputs@.len() as int) == Err::<
                Seq<InputView>,
                Misplaced,
            >(e),
        },
{
    let ghost views = input_views(inputs@);
    let n: usize = inputs.len();
    let mut r: Vec<Input> = Vec::new();
    let mut k: usize = 0;
    assert(input_views(r@) =~= Seq::empty());
    while k < n
        invariant
            counted(*l),
            n == inputs@.len(),
            views == input_views(inputs@),
            k <= n,
            all_placed(*l, views, k as int) == Ok::<Seq<InputView>, Misplaced>(input_views(r@)),
        decreases n - k,
    {
        match place(l, &inputs[k], k) {
            Err(e) => {
                proof {
                    fault_stays(*l, views, k + 1, n as int);
                }
                return Err(e);
            },
            Ok(i) => {
                let ghost before = input_views(r@);
                r.push(i);
                assert(input_views(r@) =~= before.push(i@));
            },
        }
        k = k + 1;
    }
    Ok(r)
}

proof fn fault_stays(l: Layout, inputs: Seq<InputView>, k: int, n: int)
    requires
        0 <= k <= n,
        all_placed(l, inputs, k) is Err,
    ensures
        all_placed(l, inputs, n) == all_placed(l, inputs, k),
    decreases n - k,
{
    if k < n {
        fault_stays(l, inputs, k, n - 1);
    }
}

fn any_on(inputs: &Vec<Input>) -> (r: bool)
    ensures
        r == exists|i: int|
            0 <= i < inputs@.len() && (#[trigger] input_views(inputs@)[i]).on is Some,
{
    let n: usize = inputs.len();
    let mut i: usize = 0;
    while i < n
        invariant
            n == inputs@.len(),
            i <= n,
            forall|k: int| 0 <= k < i ==> (#[trigger] input_views(inputs@)[k]).on is None,
        decreases n - i,
    {
        assert(input_views(inputs@)[i as int] == inputs@[i as int]@);
        if inputs[i].on.is_some() {
            return true;
        }
        i = i + 1;
    }
    false
}

/// Place the output and every input on a device, by what it is made of now.
pub fn resolve_sources(
    inputs: &Vec<Input>,
    out_ch: usize,
    out_on: &Option<String>,
    layout: &Option<Layout>,
) -> (r: Result<(usize, Vec<Input>), Misplaced>)
    requires
        layout matches Some(l) ==> counted(*l),
    ensures
        match r {
            Ok((out, all)) => resolved(
                input_views(inputs@),
                out_ch,
                text_of(*out_on),
                *layout,
            ) == Ok::<(usize, Seq<InputView>), Misplaced>((out, input_views(all@))),
            Err(e) => resolved(input_views(inputs@), out_ch, text_of(*out_on), *layout) == Err::<
                (usize, Seq<InputView>),
                Misplaced,
            >(e),
        },
{
    if out_on.is_none() && !any_on(inputs) {
        let all = copy_inputs(inputs);
        return Ok((out_ch, all));
    }
    let l = match layout {
        None => {
            return Err(Misplaced::NoLayout);
        },
        Some(l) => l,
    };
    let out: usize = match place_out(l, out_ch, out_on) {
        Err(e) => {
            return Err(e);
        },
        Ok(out) => out,
    };
    if l.is_aggregate() && !l.consistent() {
        return Err(Misplaced::Inconsistent);
    }
    match place_all(l, inputs) {
        Err(e) => Err(e),
        Ok(all) => Ok((out, all)),
    }
}

fn copy_inputs(inputs: &Vec<Input>) -> (r: Vec<Input>)
    ensures
        input_views(r@) == input_views(inputs@),
{
    let n: usize = inputs.len();
    let mut r: Vec<Input> = Vec::new();
    let mut i: usize = 0;
    while i < n
        invariant
            n == inputs@.len(),
            i <= n,
            r@.len() == i,
            forall|k: int| 0 <= k < i ==> (#[trigger] r@[k])@ == inputs@[k]@,
        decreases n - i,
    {
        r.push(copy_input(&inputs[i]));
        i = i + 1;
    }
    assert(input_views(r@) =~= input_views(inputs@));
    r
}

/// An input lands on its member: as far from the member's first channel as
/// it says, among that member's channels and no other's. One whose member is
/// not switched on cannot be recorded from.
pub proof fn an_input_lands_on_its_member(l: Layout, s: InputView, k: int, i: int)
    requires
        counted(l),
        s.on is Some,
        l.members@.len() > 0,
        aggregate::meant(aggregate::names(l.members@), s.on.unwrap()) == Ok::<int, Lost>(i),
    ensures
        ({
            let m = l.members@[i];
            let r = placed(l, s, k);
            &&& m.absent ==> r is Ok && !r->Ok_0.available && r->Ok_0.name == s.name
            &&& !m.absent ==> (r is Ok <==> s.left < m.in_ch && s.right < m.in_ch)
            &&& !m.absent && r is Ok ==> {
                let p = r->Ok_0;
                &&& p.left + 1 - m.first_in == s.left
                &&& p.right + 1 - m.first_in == s.right
                &&& m.first_in <= p.left + 1 < m.first_in + m.in_ch
                &&& m.first_in <= p.right + 1 < m.first_in + m.in_ch
                &&& p.name == s.name
                &&& p.available == s.available
            }
        }),
{
    aggregate::a_member_found_is_the_one_meant(aggregate::names(l.members@), s.on.unwrap(), 0);
}

/// The output lands on its member, which has to be switched on and to have
/// such a channel.
pub proof fn the_output_lands_on_its_member(l: Layout, out_ch: usize, dev: Seq<char>, i: int)
    requires
        counted(l),
        l.members@.len() > 0,
        out_ch + u32::MAX <= usize::MAX,
        aggregate::meant(aggregate::names(l.members@), dev) == Ok::<int, Lost>(i),
    ensures
        ({
            let m = l.members@[i];
            let r = out_placed(l, out_ch, Some(dev));
            &&& r is Ok <==> !m.absent && out_ch < m.out_ch
            &&& r matches Ok(p) ==> p + 1 - m.first_out == out_ch && m.first_out <= p + 1
                < m.first_out + m.out_ch
        }),
{
    aggregate::a_member_found_is_the_one_meant(aggregate::names(l.members@), dev, 0);
}

proof fn placed_one_by_one(l: Layout, inputs: Seq<InputView>, n: int, k: int)
    requires
        0 <= k < n <= inputs.len(),
        all_placed(l, inputs, n) is Ok,
    ensures
        all_placed(l, inputs, n)->Ok_0.len() == n,
        placed(l, inputs[k], k) == Ok::<InputView, Misplaced>(all_placed(l, inputs, n)->Ok_0[k]),
    decreases n,
{
    if k < n - 1 {
        placed_one_by_one(l, inputs, n - 1, k);
    } else if n > 1 {
        placed_one_by_one(l, inputs, n - 1, 0);
    }
}

/// What names no member stays where it is, and needs nothing to be known of
/// the device.
pub proof fn an_input_without_a_member_stays(
    inputs: Seq<InputView>,
    out_ch: usize,
    out_on: Option<Seq<char>>,
    layout: Option<Layout>,
    k: int,
)
    requires
        0 <= k < inputs.len(),
        inputs[k].on is None,
    ensures
        resolved(inputs, out_ch, out_on, layout) matches Ok((out, all)) ==> all.len()
            == inputs.len() && all[k] == inputs[k] && (out_on is None ==> out == out_ch),
        out_on is None && (forall|i: int|
            0 <= i < inputs.len() ==> (#[trigger] inputs[i]).on is None) ==> resolved(
            inputs,
            out_ch,
            out_on,
            layout,
        ) == Ok::<(usize, Seq<InputView>), Misplaced>((out_ch, inputs)),
{
    if let Some(l) = layout {
        if all_placed(l, inputs, inputs.len() as int) is Ok {
            placed_one_by_one(l, inputs, inputs.len() as int, k);
        }
    }
}

/// Channels are counted from one where they are written and from zero where
/// they are kept, and one channel is both.
pub proof fn a_channel_counts_from_one(part: Seq<char>, other: Seq<char>, i: usize, n: usize, m: usize)
    requires
        text::number(text::trimmed(part)) == Some(n),
        text::number(text::trimmed(other)) == Some(m),
    ensures
        channel(part, i) is Ok <==> n >= 1,
        n >= 1 ==> channel(part, i)->Ok_0 + 1 == n,
        n >= 1 ==> channels(seq![part]) == Ok::<(usize, usize), SourceFault>(
            ((n - 1) as usize, (n - 1) as usize),
        ),
        n >= 1 && m >= 1 ==> channels(seq![part, other]) == Ok::<(usize, usize), SourceFault>(
            ((n - 1) as usize, (m - 1) as usize),
        ),
{
}

} // verus!

//! The residual: the frames by which the device's own account of its latency
//! is out, and where that number comes from.

use crate::text;
use vstd::prelude::*;
use vstd::string::*;

verus! {

/// What a line of the calibration says of a key: nothing where it is empty,
/// a remark, or of another key.
pub open spec fn entry(line: Seq<char>, key: Seq<char>) -> Option<Seq<char>> {
    let t = text::trimmed(line);
    if t.len() == 0 || t[0] == '#' {
        None
    } else {
        match text::cut(t, '=') {
            (k, Some(v)) => if text::trimmed(k) == key {
                Some(text::trimmed(v))
            } else {
                None
            },
            (_, None) => None,
        }
    }
}

/// What a calibration says of a key: the last line that does.
pub open spec fn stored(s: Seq<char>, key: Seq<char>) -> Option<Seq<char>>
    decreases s.len(),
{
    match text::first_of(s, '\n') {
        None => entry(s, key),
        Some(i) => if i < s.len() {
            match stored(s.subrange(i as int + 1, s.len() as int), key) {
                Some(v) => Some(v),
                None => entry(s.subrange(0, i as int), key),
            }
        } else {
            None
        },
    }
}

fn read_entry(line: &str, key: &str) -> (r: Option<String>)
    ensures
        match r {
            Some(v) => entry(line@, key@) == Some(v@),
            None => entry(line@, key@) is None,
        },
{
    let t = text::trim(line);
    if t.unicode_len() == 0 || t.get_char(0) == '#' {
        return None;
    }
    let (k, v) = text::cut_at(t, '=');
    match v {
        None => None,
        Some(v) => {
            if text::same(text::trim(k), key) {
                Some(text::trim(v).to_string())
            } else {
                None
            }
        },
    }
}

/// What the rest of a calibration says of a key, or what was found before.
pub open spec fn stored_or(s: Seq<char>, key: Seq<char>, found: Option<Seq<char>>) -> Option<
    Seq<char>,
> {
    match stored(s, key) {
        Some(v) => Some(v),
        None => found,
    }
}

/// A text that may not be there.
pub open spec fn told(v: Option<String>) -> Option<Seq<char>> {
    match v {
        Some(s) => Some(s@),
        None => None,
    }
}

/// What a calibration says of a key.
pub fn look_up(s: &str, key: &str) -> (r: Option<String>)
    ensures
        told(r) == stored(s@, key@),
{
    let mut rest: &str = s;
    let mut found: Option<String> = None;
    loop
        invariant
            stored(s@, key@) == stored_or(rest@, key@, told(found)),
        decreases rest@.len(),
    {
        let n: usize = rest.unicode_len();
        match text::find(rest, '\n') {
            None => {
                let last = read_entry(rest, key);
                if last.is_some() {
                    return last;
                }
                return found;
            },
            Some(i) => {
                proof {
                    text::first_of_inside(rest@, '\n');
                }
                let line = rest.substring_char(0, i);
                let mine = read_entry(line, key);
                if mine.is_some() {
                    found = mine;
                }
                rest = rest.substring_char(i + 1, n);
            },
        }
    }
}

/// What a calibration holds.
pub struct Calibration {
    /// The device it was measured on.
    pub device: Option<String>,
    /// The residual, as text.
    pub residual: Option<String>,
    pub measured_at: Option<String>,
    /// What had the device open when it was measured.
    pub clients: Option<String>,
}

/// Whether a calibration holds what a text says.
pub open spec fn holds(c: Calibration, s: Seq<char>) -> bool {
    &&& told(c.device) == stored(s, "device"@)
    &&& told(c.residual) == stored(s, "residual_samples"@)
    &&& told(c.measured_at) == stored(s, "measured_at"@)
    &&& told(c.clients) == stored(s, "clients"@)
}

/// Read a calibration.
pub fn read_calibration(s: &str) -> (r: Calibration)
    ensures
        holds(r, s@),
{
    Calibration {
        device: look_up(s, "device"),
        residual: look_up(s, "residual_samples"),
        measured_at: look_up(s, "measured_at"),
        clients: look_up(s, "clients"),
    }
}

/// Where a residual comes from.
#[derive(Clone, Copy, Debug, PartialEq, Eq, Structural)]
pub enum Origin {
    /// It was given.
    Given,
    /// It is the calibration's.
    Stored,
    /// It is assumed. There is no calibration, or none that says.
    Assumed,
    /// It is assumed. There is a calibration, of another device.
    OtherDevice,
}

/// Whether a calibration is of a device: it names none, or part of its name.
pub open spec fn measured_on(c: Calibration, device: Seq<char>) -> bool {
    match c.device {
        None => true,
        Some(d) => d@.len() == 0 || text::holds(text::lowercase(device), text::lowercase(d@)),
    }
}

/// Whether a calibration that names a device is of one: by what it names,
/// and by that and the device's name in lower case.
pub fn names_part_of(named: &str, low_named: &str, low_device: &str) -> (r: bool)
    ensures
        r == (named@.len() == 0 || text::holds(low_device@, low_named@)),
{
    named.unicode_len() == 0 || text::contains(low_device, low_named)
}

/// Whether a calibration is of a device.
pub fn is_of(c: &Calibration, device: &str) -> (r: bool)
    ensures
        r == measured_on(*c, device@),
{
    match &c.device {
        None => true,
        Some(d) => names_part_of(
            d.as_str(),
            text::to_lower(d.as_str()).as_str(),
            text::to_lower(device).as_str(),
        ),
    }
}

/// The residual in force and where it comes from, as wide bits: the one that
/// was given; else the calibration's, where it is of this device and its
/// residual is a number; else the one that is assumed. `read` is the
/// calibration's residual as a real number.
pub open spec fn residual(
    assumed: u64,
    given: bool,
    device: Seq<char>,
    c: Option<Calibration>,
    read: Option<u64>,
) -> (u64, Origin) {
    if given {
        (assumed, Origin::Given)
    } else {
        match c {
            None => (assumed, Origin::Assumed),
            Some(c) => if !measured_on(c, device) {
                (assumed, Origin::OtherDevice)
            } else {
                match (c.residual, read) {
                    (Some(_), Some(x)) => (x, Origin::Stored),
                    _ => (assumed, Origin::Assumed),
                }
            },
        }
    }
}

/// The residual in force and where it comes from.
pub fn resolve_residual(
    assumed: u64,
    given: bool,
    device: &str,
    c: &Option<Calibration>,
    read: Option<u64>,
) -> (r: (u64, Origin))
    ensures
        r == residual(assumed, given, device@, *c, read),
{
    if given {
        return (assumed, Origin::Given);
    }
    match c {
        None => (assumed, Origin::Assumed),
        Some(c) => {
            if !is_of(c, device) {
                return (assumed, Origin::OtherDevice);
            }
            if c.residual.is_some() {
                if let Some(x) = read {
                    return (x, Origin::Stored);
                }
            }
            (assumed, Origin::Assumed)
        },
    }
}

/// A residual that was given stands, whatever is stored; and one that is
/// stored for another device is never used.
pub proof fn a_stored_residual_is_of_its_device(
    assumed: u64,
    given: bool,
    device: Seq<char>,
    c: Option<Calibration>,
    read: Option<u64>,
)
    ensures
        given ==> residual(assumed, given, device, c, read).0 == assumed,
        residual(assumed, given, device, c, read).1 == Origin::Stored ==> c is Some && measured_on(
            c.unwrap(),
            device,
        ),
        residual(assumed, given, device, c, read).1 != Origin::Stored ==> residual(
            assumed,
            given,
            device,
            c,
            read,
        ).0 == assumed,
{
}

/// A residual that is stored is used, where none was given and it is a
/// number, if the calibration names no device or one that this one's name
/// holds in any case; and not if it names another.
pub proof fn a_residual_is_used_where_it_was_measured(
    assumed: u64,
    device: Seq<char>,
    c: Calibration,
    x: u64,
)
    requires
        c.residual is Some,
    ensures
        c.device is None ==> residual(assumed, false, device, Some(c), Some(x)) == (
            x,
            Origin::Stored,
        ),
        c.device matches Some(d) ==> d@.len() == 0 ==> residual(
            assumed,
            false,
            device,
            Some(c),
            Some(x),
        ) == (x, Origin::Stored),
        c.device matches Some(d) ==> text::holds(text::lowercase(device), text::lowercase(d@))
            ==> residual(assumed, false, device, Some(c), Some(x)) == (x, Origin::Stored),
        c.device matches Some(d) ==> d@.len() > 0 && !text::holds(
            text::lowercase(device),
            text::lowercase(d@),
        ) ==> residual(assumed, false, device, Some(c), Some(x)) == (
            assumed,
            Origin::OtherDevice,
        ),
        residual(assumed, true, device, Some(c), Some(x)) == (assumed, Origin::Given),
        residual(assumed, false, device, None, Some(x)) == (assumed, Origin::Assumed),
{
}

/// What is said later in a calibration stands: a line before another says
/// nothing of a key that the rest speaks of, and all there is where the rest
/// does not.
pub proof fn the_last_word_of_a_calibration_stands(line: Seq<char>, rest: Seq<char>, key: Seq<char>)
    requires
        forall|i: int| 0 <= i < line.len() ==> #[trigger] line[i] != '\n',
    ensures
        stored(rest, key) is Some ==> stored(line + seq!['\n'] + rest, key) == stored(rest, key),
        stored(rest, key) is None ==> stored(line + seq!['\n'] + rest, key) == entry(line, key),
{
    let s = line + seq!['\n'] + rest;
    text::first_of_inside(s, '\n');
    found_first(s, '\n', line.len() as int);
    assert(s.subrange(line.len() as int + 1, s.len() as int) =~= rest);
    assert(s.subrange(0, line.len() as int) =~= line);
}

proof fn found_first(s: Seq<char>, c: char, n: int)
    requires
        0 <= n < s.len(),
        s[n] == c,
        forall|i: int| 0 <= i < n ==> #[trigger] s[i] != c,
    ensures
        text::first_of(s, c) == Some(n as nat),
    decreases n,
{
    if n > 0 {
        let t = s.subrange(1, s.len() as int);
        assert forall|i: int| 0 <= i < n - 1 implies #[trigger] t[i] != c by {
            assert(t[i] == s[i + 1]);
        }
        found_first(t, c, n - 1);
    }
}

/// A remark says nothing, and neither does an empty line or one with no
/// value.
pub proof fn a_remark_says_nothing(line: Seq<char>, key: Seq<char>)
    requires
        text::trimmed(line).len() == 0 || text::trimmed(line)[0] == '#' || !text::trimmed(
            line,
        ).contains('='),
    ensures
        entry(line, key) is None,
{
    text::first_of_inside(text::trimmed(line), '=');
}

} // verus!

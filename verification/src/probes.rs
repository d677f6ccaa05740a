//! The command lines of the alignment, the meter and the measurement: each
//! takes some of the options, over numbers it starts from.

use crate::bits;
use crate::bits::ONE_WIDE;
use crate::options;
use crate::options::{Fault, Flag};
use crate::text;
use vstd::prelude::*;
use vstd::string::*;

verus! {

/// What is run beside the looper.
#[derive(Clone, Copy, Debug, PartialEq, Eq, Structural)]
pub enum Tool {
    Align,
    Levels,
    Measure,
}

/// The numbers such a tool is told. Seconds, amplitudes and the residual are
/// wide bits.
#[derive(Clone, Copy, Debug, PartialEq, Eq, Structural)]
pub struct Numbers {
    pub in_ch: usize,
    pub out_ch: usize,
    pub residual: u64,
    pub residual_given: bool,
    pub loop_secs: u64,
    pub cycles: usize,
    pub amplitude: u64,
    pub sample_rate: u32,
    pub buffer: Option<u32>,
    pub seconds: usize,
    pub repeats: usize,
    pub json: bool,
}

/// Whether a tool has an option.
pub open spec fn takes(t: Tool, f: Flag) -> bool {
    match f {
        Flag::Device | Flag::Rate => true,
        Flag::OutCh | Flag::Amp | Flag::Buffer => t != Tool::Levels,
        Flag::InCh | Flag::Residual | Flag::LoopSecs | Flag::Cycles => t == Tool::Align,
        Flag::Seconds => t == Tool::Levels,
        Flag::Repeats => t == Tool::Measure,
        _ => false,
    }
}

fn has(t: Tool, f: Flag) -> (r: bool)
    ensures
        r == takes(t, f),
{
    match f {
        Flag::Device | Flag::Rate => true,
        Flag::OutCh | Flag::Amp | Flag::Buffer => t != Tool::Levels,
        Flag::InCh | Flag::Residual | Flag::LoopSecs | Flag::Cycles => t == Tool::Align,
        Flag::Seconds => t == Tool::Levels,
        Flag::Repeats => t == Tool::Measure,
        _ => false,
    }
}

/// Whether an option's value is a real number.
pub open spec fn is_real(f: Flag) -> bool {
    f == Flag::Residual || f == Flag::LoopSecs || f == Flag::Amp
}

/// What an option makes of the numbers, or nothing where its value is not of
/// the kind it wants. `read` is the value as a real number.
pub open spec fn set_to(n: Numbers, f: Flag, v: Seq<char>, read: Option<u64>) -> Option<Numbers> {
    if is_real(f) {
        match read {
            None => None,
            Some(x) => Some(
                match f {
                    Flag::Residual => Numbers { residual: x, residual_given: true, ..n },
                    Flag::LoopSecs => Numbers { loop_secs: x, ..n },
                    _ => Numbers { amplitude: x, ..n },
                },
            ),
        }
    } else if f == Flag::Rate || f == Flag::Buffer {
        match options::up_to(v, u32::MAX as int) {
            None => None,
            Some(x) => Some(
                if f == Flag::Rate {
                    Numbers { sample_rate: x as u32, ..n }
                } else {
                    Numbers { buffer: Some(x as u32), ..n }
                },
            ),
        }
    } else {
        match text::number(v) {
            None => None,
            Some(x) => Some(
                match f {
                    Flag::InCh => Numbers { in_ch: x, ..n },
                    Flag::OutCh => Numbers { out_ch: x, ..n },
                    Flag::Cycles => Numbers { cycles: x, ..n },
                    Flag::Seconds => Numbers { seconds: x, ..n },
                    _ => Numbers { repeats: x, ..n },
                },
            ),
        }
    }
}

fn set(n: Numbers, f: Flag, v: &str, read: Option<u64>) -> (r: Option<Numbers>)
    ensures
        r == set_to(n, f, v@, read),
{
    let mut n = n;
    if f == Flag::Residual || f == Flag::LoopSecs || f == Flag::Amp {
        let x: u64 = match read {
            None => {
                return None;
            },
            Some(x) => x,
        };
        if f == Flag::Residual {
            n.residual = x;
            n.residual_given = true;
        } else if f == Flag::LoopSecs {
            n.loop_secs = x;
        } else {
            n.amplitude = x;
        }
        return Some(n);
    }
    if f == Flag::Rate || f == Flag::Buffer {
        let x: usize = match options::small(v, 0xFFFF_FFFF) {
            None => {
                return None;
            },
            Some(x) => x,
        };
        if f == Flag::Rate {
            n.sample_rate = x as u32;
        } else {
            n.buffer = Some(x as u32);
        }
        return Some(n);
    }
    let x: usize = match text::parse_usize(v) {
        None => {
            return None;
        },
        Some(x) => x,
    };
    match f {
        Flag::InCh => {
            n.in_ch = x;
        },
        Flag::OutCh => {
            n.out_ch = x;
        },
        Flag::Cycles => {
            n.cycles = x;
        },
        Flag::Seconds => {
            n.seconds = x;
        },
        _ => {
            n.repeats = x;
        },
    }
    Some(n)
}

/// Whether a word is an option of a tool.
pub open spec fn known(t: Tool, w: Seq<char>) -> bool {
    options::flag_of(w) matches Some(f) && takes(t, f)
}

/// What the arguments from `i` on say: the device and the numbers, or what
/// is wrong. The measurement looks whether it knows an option before it looks
/// for the value; the others look for the value first.
pub open spec fn told_from(
    t: Tool,
    args: Seq<Seq<char>>,
    reals: Seq<Option<u64>>,
    i: int,
    device: Seq<char>,
    n: Numbers,
) -> Result<(Seq<char>, Numbers), Fault>
    decreases args.len() - i,
{
    if i < 0 || i >= args.len() {
        Ok((device, n))
    } else if t == Tool::Measure && options::flag_of(args[i]) == Some(Flag::Json) {
        told_from(t, args, reals, i + 1, device, Numbers { json: true, ..n })
    } else if t == Tool::Measure && !known(t, args[i]) {
        Err(Fault::Unknown(i as usize))
    } else if i + 1 >= args.len() {
        Err(Fault::NeedsValue(i as usize))
    } else if !known(t, args[i]) {
        Err(Fault::Unknown(i as usize))
    } else {
        let f = options::flag_of(args[i]).unwrap();
        if f == Flag::Device {
            told_from(t, args, reals, i + 2, args[i + 1], n)
        } else {
            match set_to(n, f, args[i + 1], reals[i + 1]) {
                None => Err(Fault::Wants(i as usize)),
                Some(m) => told_from(t, args, reals, i + 2, device, m),
            }
        }
    }
}

fn read_args(t: Tool, base: Numbers, args: &Vec<String>, reals: &Vec<Option<u64>>) -> (r: Result<
    (String, Numbers),
    Fault,
>)
    requires
        reals@.len() == args@.len(),
    ensures
        match r {
            Ok((d, n)) => told_from(t, text::views(args@), reals@, 0, Seq::empty(), base) == Ok::<
                (Seq<char>, Numbers),
                Fault,
            >((d@, n)),
            Err(e) => told_from(t, text::views(args@), reals@, 0, Seq::empty(), base) == Err::<
                (Seq<char>, Numbers),
                Fault,
            >(e),
        },
{
    let ghost words = text::views(args@);
    let total: usize = args.len();
    let mut device = String::new();
    let mut n = base;
    let mut i: usize = 0;
    assert(device@ =~= Seq::empty());
    while i < total
        invariant
            total == args@.len(),
            reals@.len() == total,
            words == text::views(args@),
            i <= total,
            told_from(t, words, reals@, 0, Seq::empty(), base) == told_from(
                t,
                words,
                reals@,
                i as int,
                device@,
                n,
            ),
        decreases total - i,
    {
        assert(words[i as int] == args@[i as int]@);
        let found = options::flag(args[i].as_str());
        if t == Tool::Measure {
            if let Some(Flag::Json) = found {
                n.json = true;
                i = i + 1;
                continue ;
            }
        }
        let mine: bool = match found {
            None => false,
            Some(f) => has(t, f),
        };
        if t == Tool::Measure && !mine {
            return Err(Fault::Unknown(i));
        }
        if i + 1 >= total {
            return Err(Fault::NeedsValue(i));
        }
        if !mine {
            return Err(Fault::Unknown(i));
        }
        assert(words[i + 1] == args@[i + 1]@);
        if let Some(f) = found {
            if f == Flag::Device {
                device = args[i + 1].as_str().to_string();
            } else {
                match set(n, f, args[i + 1].as_str(), reals[i + 1]) {
                    None => {
                        return Err(Fault::Wants(i));
                    },
                    Some(m) => {
                        n = m;
                    },
                }
            }
        }
        i = i + 2;
    }
    Ok((device, n))
}

/// What is still wrong once everything is read.
pub open spec fn amiss(t: Tool, device: Seq<char>, n: Numbers) -> Option<Fault> {
    if device.len() == 0 {
        Some(Fault::NoDevice)
    } else if t == Tool::Align && bits::up_to_wide(n.loop_secs, 0) {
        Some(Fault::LoopSecs)
    } else if t == Tool::Measure && !(bits::up_to_wide(0, n.amplitude) && bits::up_to_wide(
        n.amplitude,
        ONE_WIDE,
    )) {
        Some(Fault::AmpRange)
    } else if t == Tool::Measure && n.repeats == 0 {
        Some(Fault::NoRepeats)
    } else {
        None
    }
}

/// What a tool is told by a command line.
pub open spec fn tool_told(
    t: Tool,
    base: Numbers,
    args: Seq<Seq<char>>,
    reals: Seq<Option<u64>>,
) -> Result<(Seq<char>, Numbers), Fault> {
    match told_from(t, args, reals, 0, Seq::empty(), base) {
        Err(e) => Err(e),
        Ok((d, n)) => match amiss(t, d, n) {
            Some(e) => Err(e),
            None => Ok((d, n)),
        },
    }
}

/// Whether a result says what the command line says.
pub open spec fn read_right(
    t: Tool,
    base: Numbers,
    args: Seq<Seq<char>>,
    reals: Seq<Option<u64>>,
    r: Result<(String, Numbers), Fault>,
) -> bool {
    match r {
        Ok((d, n)) => tool_told(t, base, args, reals) == Ok::<(Seq<char>, Numbers), Fault>((d@, n)),
        Err(e) => tool_told(t, base, args, reals) == Err::<(Seq<char>, Numbers), Fault>(e),
    }
}

/// Read the alignment's command line.
pub fn parse_align(base: Numbers, args: &Vec<String>, reals: &Vec<Option<u64>>) -> (r: Result<
    (String, Numbers),
    Fault,
>)
    requires
        reals@.len() == args@.len(),
    ensures
        read_right(Tool::Align, base, text::views(args@), reals@, r),
{
    let (device, n) = match read_args(Tool::Align, base, args, reals) {
        Err(e) => {
            return Err(e);
        },
        Ok(x) => x,
    };
    if device.as_str().unicode_len() == 0 {
        return Err(Fault::NoDevice);
    }
    if bits::at_most_wide(n.loop_secs, 0) {
        return Err(Fault::LoopSecs);
    }
    Ok((device, n))
}

/// Read the meter's command line.
pub fn parse_levels(base: Numbers, args: &Vec<String>, reals: &Vec<Option<u64>>) -> (r: Result<
    (String, Numbers),
    Fault,
>)
    requires
        reals@.len() == args@.len(),
    ensures
        read_right(Tool::Levels, base, text::views(args@), reals@, r),
{
    let (device, n) = match read_args(Tool::Levels, base, args, reals) {
        Err(e) => {
            return Err(e);
        },
        Ok(x) => x,
    };
    if device.as_str().unicode_len() == 0 {
        return Err(Fault::NoDevice);
    }
    Ok((device, n))
}

/// Read the measurement's command line.
pub fn parse_measure(base: Numbers, args: &Vec<String>, reals: &Vec<Option<u64>>) -> (r: Result<
    (String, Numbers),
    Fault,
>)
    requires
        reals@.len() == args@.len(),
    ensures
        read_right(Tool::Measure, base, text::views(args@), reals@, r),
{
    let (device, n) = match read_args(Tool::Measure, base, args, reals) {
        Err(e) => {
            return Err(e);
        },
        Ok(x) => x,
    };
    if device.as_str().unicode_len() == 0 {
        return Err(Fault::NoDevice);
    }
    if !(bits::at_most_wide(0, n.amplitude) && bits::at_most_wide(n.amplitude, ONE_WIDE)) {
        return Err(Fault::AmpRange);
    }
    if n.repeats == 0 {
        return Err(Fault::NoRepeats);
    }
    Ok((device, n))
}

} // verus!

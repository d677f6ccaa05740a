//! The command line: the options there are, and what the looper is told by
//! them.
//!
//! What a value is as a real number comes beside it, as wide bits.

use crate::aggregate::Layout;
use crate::bits;
use crate::inputs;
use crate::inputs::{Input, InputView, Misplaced, SourceFault};
use crate::shared::{DEFAULT_LAYERS, DEFAULT_LOOPS};
use crate::text;
use vstd::prelude::*;
use vstd::string::*;

verus! {

/// The port the looper is served on where no other is named.
pub const WS_PORT: u16 = 3028;

/// The port a clock is heard on where no other is named.
pub const ANCHOR_PORT: u16 = 57125;

/// An option.
#[derive(Clone, Copy, Debug, PartialEq, Eq, Structural)]
pub enum Flag {
    Yes,
    Click,
    Ws,
    Link,
    Monitor,
    MonoOut,
    Device,
    InCh,
    Source,
    OutCh,
    Residual,
    MaxSecs,
    Loops,
    Layers,
    FixedSecs,
    Rate,
    Buffer,
    WsPort,
    RingSecs,
    CaptureSecs,
    TakesDir,
    LinkPort,
    PrerollMs,
    ArmDb,
    Selftest,
    LoopSecs,
    Cycles,
    Amp,
    Seconds,
    Json,
    Repeats,
}

/// The option a word is, if it is one.
pub open spec fn flag_of(w: Seq<char>) -> Option<Flag> {
    if w == "--yes"@ {
        Some(Flag::Yes)
    } else if w == "--click"@ {
        Some(Flag::Click)
    } else if w == "--ws"@ {
        Some(Flag::Ws)
    } else if w == "--link"@ {
        Some(Flag::Link)
    } else if w == "--monitor"@ {
        Some(Flag::Monitor)
    } else if w == "--mono-out"@ {
        Some(Flag::MonoOut)
    } else if w == "--device"@ {
        Some(Flag::Device)
    } else if w == "--in-ch"@ {
        Some(Flag::InCh)
    } else if w == "--source"@ {
        Some(Flag::Source)
    } else if w == "--out-ch"@ {
        Some(Flag::OutCh)
    } else if w == "--residual"@ {
        Some(Flag::Residual)
    } else if w == "--max-secs"@ {
        Some(Flag::MaxSecs)
    } else if w == "--loops"@ {
        Some(Flag::Loops)
    } else if w == "--layers"@ {
        Some(Flag::Layers)
    } else if w == "--fixed-secs"@ {
        Some(Flag::FixedSecs)
    } else if w == "--rate"@ {
        Some(Flag::Rate)
    } else if w == "--buffer"@ {
        Some(Flag::Buffer)
    } else if w == "--ws-port"@ {
        Some(Flag::WsPort)
    } else if w == "--ring-secs"@ {
        Some(Flag::RingSecs)
    } else if w == "--capture-secs"@ {
        Some(Flag::CaptureSecs)
    } else if w == "--takes-dir"@ {
        Some(Flag::TakesDir)
    } else if w == "--link-port"@ {
        Some(Flag::LinkPort)
    } else if w == "--preroll-ms"@ {
        Some(Flag::PrerollMs)
    } else if w == "--arm-db"@ {
        Some(Flag::ArmDb)
    } else if w == "--selftest"@ {
        Some(Flag::Selftest)
    } else if w == "--loop-secs"@ {
        Some(Flag::LoopSecs)
    } else if w == "--cycles"@ {
        Some(Flag::Cycles)
    } else if w == "--amp"@ {
        Some(Flag::Amp)
    } else if w == "--seconds"@ {
        Some(Flag::Seconds)
    } else if w == "--json"@ {
        Some(Flag::Json)
    } else if w == "--repeats"@ {
        Some(Flag::Repeats)
    } else {
        None
    }
}

/// The option a word is.
pub fn flag(w: &str) -> (r: Option<Flag>)
    ensures
        r == flag_of(w@),
{
    if text::same(w, "--yes") {
        Some(Flag::Yes)
    } else if text::same(w, "--click") {
        Some(Flag::Click)
    } else if text::same(w, "--ws") {
        Some(Flag::Ws)
    } else if text::same(w, "--link") {
        Some(Flag::Link)
    } else if text::same(w, "--monitor") {
        Some(Flag::Monitor)
    } else if text::same(w, "--mono-out") {
        Some(Flag::MonoOut)
    } else if text::same(w, "--device") {
        Some(Flag::Device)
    } else if text::same(w, "--in-ch") {
        Some(Flag::InCh)
    } else if text::same(w, "--source") {
        Some(Flag::Source)
    } else if text::same(w, "--out-ch") {
        Some(Flag::OutCh)
    } else if text::same(w, "--residual") {
        Some(Flag::Residual)
    } else if text::same(w, "--max-secs") {
        Some(Flag::MaxSecs)
    } else if text::same(w, "--loops") {
        Some(Flag::Loops)
    } else if text::same(w, "--layers") {
        Some(Flag::Layers)
    } else if text::same(w, "--fixed-secs") {
        Some(Flag::FixedSecs)
    } else if text::same(w, "--rate") {
        Some(Flag::Rate)
    } else if text::same(w, "--buffer") {
        Some(Flag::Buffer)
    } else if text::same(w, "--ws-port") {
        Some(Flag::WsPort)
    } else if text::same(w, "--ring-secs") {
        Some(Flag::RingSecs)
    } else if text::same(w, "--capture-secs") {
        Some(Flag::CaptureSecs)
    } else if text::same(w, "--takes-dir") {
        Some(Flag::TakesDir)
    } else if text::same(w, "--link-port") {
        Some(Flag::LinkPort)
    } else if text::same(w, "--preroll-ms") {
        Some(Flag::PrerollMs)
    } else if text::same(w, "--arm-db") {
        Some(Flag::ArmDb)
    } else if text::same(w, "--selftest") {
        Some(Flag::Selftest)
    } else if text::same(w, "--loop-secs") {
        Some(Flag::LoopSecs)
    } else if text::same(w, "--cycles") {
        Some(Flag::Cycles)
    } else if text::same(w, "--amp") {
        Some(Flag::Amp)
    } else if text::same(w, "--seconds") {
        Some(Flag::Seconds)
    } else if text::same(w, "--json") {
        Some(Flag::Json)
    } else if text::same(w, "--repeats") {
        Some(Flag::Repeats)
    } else {
        None
    }
}

/// What is wrong with a command line. A number says which argument it is.
#[derive(Clone, Copy, Debug, PartialEq, Eq, Structural)]
pub enum Fault {
    /// An option that wants a value has none.
    NeedsValue(usize),
    /// There is no such option.
    Unknown(usize),
    /// An option's value is not of the kind it wants.
    Wants(usize),
    /// An option wants at least one.
    AtLeastOne(usize),
    /// An option wants a length greater than zero.
    TooShort(usize),
    /// An interface's channels count from one.
    OutFromOne(usize),
    /// An input could not be read.
    Source(usize, SourceFault),
    /// The device is not named.
    NoDevice,
    /// An input or the output is nowhere.
    Misplaced(Misplaced),
    /// The longest loop has to have a length.
    MaxSecs,
    /// The loop has to have a length.
    LoopSecs,
    /// The amplitude is between zero and one.
    AmpRange,
    /// There has to be one click.
    NoRepeats,
}

/// The settings of the looper that are numbers and switches. Seconds,
/// milliseconds and decibels are wide bits.
#[derive(Clone, Copy, Debug)]
pub struct Settings {
    pub in_ch: usize,
    pub out_ch: usize,
    pub residual: u64,
    pub residual_given: bool,
    pub max_secs: u64,
    pub max_secs_given: bool,
    pub loops: usize,
    pub layers: usize,
    pub fixed_secs: Option<u64>,
    pub yes: bool,
    pub sample_rate: u32,
    pub buffer: Option<u32>,
    pub click: bool,
    pub selftest: Option<u64>,
    pub ring_secs: u64,
    pub capture_secs: u64,
    pub preroll_ms: u64,
    pub dual: bool,
    pub monitor: bool,
    pub ws_port: Option<u16>,
    pub link_port: Option<u16>,
    pub arm_db: u64,
}

/// What the looper is told.
#[derive(Debug)]
pub struct Opts {
    pub device: String,
    pub sources: Vec<Input>,
    /// The member the output is counted on.
    pub out_on: Option<String>,
    /// Where takes go, where it is said.
    pub takes_dir: Option<String>,
    pub set: Settings,
}

/// What the looper's options say.
pub struct OptsView {
    pub device: Seq<char>,
    pub sources: Seq<InputView>,
    pub out_on: Option<Seq<char>>,
    pub takes_dir: Option<Seq<char>>,
    pub set: Settings,
}

impl View for Opts {
    type V = OptsView;

    open spec fn view(&self) -> OptsView {
        OptsView {
            device: self.device@,
            sources: inputs::input_views(self.sources@),
            out_on: inputs::text_of(self.out_on),
            takes_dir: inputs::text_of(self.takes_dir),
            set: self.set,
        }
    }
}

/// The settings where nothing says otherwise: a residual of 252 frames,
/// loops of up to 300 seconds, 60 seconds of the past, captures of up to 900
/// seconds, and a level of minus 36 decibels.
pub open spec fn usual() -> Settings {
    Settings {
        in_ch: 0,
        out_ch: 0,
        residual: 0x406F_8000_0000_0000,
        residual_given: false,
        max_secs: 0x4072_C000_0000_0000,
        max_secs_given: false,
        loops: DEFAULT_LOOPS,
        layers: DEFAULT_LAYERS,
        fixed_secs: None,
        yes: false,
        sample_rate: 48000,
        buffer: None,
        click: false,
        selftest: None,
        ring_secs: 0x404E_0000_0000_0000,
        capture_secs: 0x408C_2000_0000_0000,
        preroll_ms: 0,
        dual: true,
        monitor: false,
        ws_port: None,
        link_port: None,
        arm_db: 0xC042_0000_0000_0000,
    }
}

/// The options where nothing says otherwise.
pub open spec fn untold() -> OptsView {
    OptsView {
        device: Seq::empty(),
        sources: Seq::empty(),
        out_on: None,
        takes_dir: None,
        set: usual(),
    }
}

impl Default for Opts {
    fn default() -> (r: Opts)
        ensures
            r@ == untold(),
    {
        let r = Opts {
            device: String::new(),
            sources: Vec::new(),
            out_on: None,
            takes_dir: None,
            set: Settings {
                in_ch: 0,
                out_ch: 0,
                residual: 0x406F_8000_0000_0000,
                residual_given: false,
                max_secs: 0x4072_C000_0000_0000,
                max_secs_given: false,
                loops: DEFAULT_LOOPS,
                layers: DEFAULT_LAYERS,
                fixed_secs: None,
                yes: false,
                sample_rate: 48000,
                buffer: None,
                click: false,
                selftest: None,
                ring_secs: 0x404E_0000_0000_0000,
                capture_secs: 0x408C_2000_0000_0000,
                preroll_ms: 0,
                dual: true,
                monitor: false,
                ws_port: None,
                link_port: None,
                arm_db: 0xC042_0000_0000_0000,
            },
        };
        assert(r.sources@ =~= Seq::empty());
        assert(r@.sources =~= Seq::empty());
        assert(r@.device =~= Seq::empty());
        r
    }
}

/// The number a text is, up to a limit.
pub open spec fn up_to(s: Seq<char>, most: int) -> Option<usize> {
    match text::number(s) {
        Some(n) if n <= most => Some(n),
        _ => None,
    }
}

pub(crate) fn small(s: &str, most: usize) -> (r: Option<usize>)
    ensures
        r == up_to(s@, most as int),
{
    match text::parse_usize(s) {
        Some(n) => {
            if n <= most {
                Some(n)
            } else {
                None
            }
        },
        None => None,
    }
}

/// What an option that stands alone sets, or nothing where it does not.
pub open spec fn switched(s: Settings, f: Option<Flag>) -> Option<Settings> {
    match f {
        Some(Flag::Yes) => Some(Settings { yes: true, ..s }),
        Some(Flag::Click) => Some(Settings { click: true, ..s }),
        Some(Flag::Ws) => Some(Settings { ws_port: Some(WS_PORT), ..s }),
        Some(Flag::Link) => Some(Settings { link_port: Some(ANCHOR_PORT), ..s }),
        Some(Flag::Monitor) => Some(Settings { monitor: true, ..s }),
        Some(Flag::MonoOut) => Some(Settings { dual: false, ..s }),
        _ => None,
    }
}

fn switch(s: Settings, f: Option<Flag>) -> (r: Option<Settings>)
    ensures
        r == switched(s, f),
{
    let mut s = s;
    match f {
        Some(Flag::Yes) => {
            s.yes = true;
        },
        Some(Flag::Click) => {
            s.click = true;
        },
        Some(Flag::Ws) => {
            s.ws_port = Some(WS_PORT);
        },
        Some(Flag::Link) => {
            s.link_port = Some(ANCHOR_PORT);
        },
        Some(Flag::Monitor) => {
            s.monitor = true;
        },
        Some(Flag::MonoOut) => {
            s.dual = false;
        },
        _ => {
            return None;
        },
    }
    Some(s)
}

/// What an option with a real number sets.
pub open spec fn measured(s: Settings, f: Flag, v: u64) -> Settings {
    match f {
        Flag::Residual => Settings { residual: v, residual_given: true, ..s },
        Flag::MaxSecs => Settings { max_secs: v, max_secs_given: true, ..s },
        Flag::FixedSecs => Settings { fixed_secs: Some(v), ..s },
        Flag::RingSecs => Settings { ring_secs: v, ..s },
        Flag::CaptureSecs => Settings { capture_secs: v, ..s },
        Flag::PrerollMs => Settings { preroll_ms: v, ..s },
        Flag::ArmDb => Settings { arm_db: v, ..s },
        _ => Settings { selftest: Some(v), ..s },
    }
}

fn measure(s: Settings, f: Flag, v: u64) -> (r: Settings)
    ensures
        r == measured(s, f, v),
{
    let mut s = s;
    match f {
        Flag::Residual => {
            s.residual = v;
            s.residual_given = true;
        },
        Flag::MaxSecs => {
            s.max_secs = v;
            s.max_secs_given = true;
        },
        Flag::FixedSecs => {
            s.fixed_secs = Some(v);
        },
        Flag::RingSecs => {
            s.ring_secs = v;
        },
        Flag::CaptureSecs => {
            s.capture_secs = v;
        },
        Flag::PrerollMs => {
            s.preroll_ms = v;
        },
        Flag::ArmDb => {
            s.arm_db = v;
        },
        _ => {
            s.selftest = Some(v);
        },
    }
    s
}

/// Whether an option's value is a real number.
pub open spec fn is_real(f: Flag) -> bool {
    match f {
        Flag::Residual
        | Flag::MaxSecs
        | Flag::FixedSecs
        | Flag::RingSecs
        | Flag::CaptureSecs
        | Flag::PrerollMs
        | Flag::ArmDb
        | Flag::Selftest => true,
        _ => false,
    }
}

fn real_flag(f: Flag) -> (r: bool)
    ensures
        r == is_real(f),
{
    match f {
        Flag::Residual
        | Flag::MaxSecs
        | Flag::FixedSecs
        | Flag::RingSecs
        | Flag::CaptureSecs
        | Flag::PrerollMs
        | Flag::ArmDb
        | Flag::Selftest => true,
        _ => false,
    }
}

/// What an option with a whole number sets, or why it does not.
pub open spec fn numbered(s: Settings, f: Flag, v: Seq<char>, i: usize) -> Result<Settings, Fault> {
    match f {
        Flag::InCh => match text::number(v) {
            Some(n) => Ok(Settings { in_ch: n, ..s }),
            None => Err(Fault::Wants(i)),
        },
        Flag::Loops => match text::number(v) {
            Some(n) => if n < 1 {
                Err(Fault::AtLeastOne(i))
            } else {
                Ok(Settings { loops: n, ..s })
            },
            None => Err(Fault::Wants(i)),
        },
        Flag::Layers => match text::number(v) {
            Some(n) => if n < 1 {
                Err(Fault::AtLeastOne(i))
            } else {
                Ok(Settings { layers: n, ..s })
            },
            None => Err(Fault::Wants(i)),
        },
        Flag::Rate => match up_to(v, u32::MAX as int) {
            Some(n) => Ok(Settings { sample_rate: n as u32, ..s }),
            None => Err(Fault::Wants(i)),
        },
        Flag::Buffer => match up_to(v, u32::MAX as int) {
            Some(n) => Ok(Settings { buffer: Some(n as u32), ..s }),
            None => Err(Fault::Wants(i)),
        },
        Flag::WsPort => match up_to(v, u16::MAX as int) {
            Some(n) => Ok(Settings { ws_port: Some(n as u16), ..s }),
            None => Err(Fault::Wants(i)),
        },
        Flag::LinkPort => match up_to(v, u16::MAX as int) {
            Some(n) => Ok(Settings { link_port: Some(n as u16), ..s }),
            None => Err(Fault::Wants(i)),
        },
        _ => Err(Fault::Unknown(i)),
    }
}

fn count(s: Settings, f: Flag, v: &str, i: usize) -> (r: Result<Settings, Fault>)
    ensures
        r == numbered(s, f, v@, i),
{
    let mut s = s;
    match f {
        Flag::InCh | Flag::Loops | Flag::Layers => {
            let n: usize = match text::parse_usize(v) {
                None => {
                    return Err(Fault::Wants(i));
                },
                Some(n) => n,
            };
            if f == Flag::InCh {
                s.in_ch = n;
                return Ok(s);
            }
            if n < 1 {
                return Err(Fault::AtLeastOne(i));
            }
            if f == Flag::Loops {
                s.loops = n;
            } else {
                s.layers = n;
            }
            Ok(s)
        },
        Flag::Rate | Flag::Buffer => {
            let n: usize = match small(v, 0xFFFF_FFFF) {
                None => {
                    return Err(Fault::Wants(i));
                },
                Some(n) => n,
            };
            if f == Flag::Rate {
                s.sample_rate = n as u32;
            } else {
                s.buffer = Some(n as u32);
            }
            Ok(s)
        },
        Flag::WsPort | Flag::LinkPort => {
            let n: usize = match small(v, 0xFFFF) {
                None => {
                    return Err(Fault::Wants(i));
                },
                Some(n) => n,
            };
            if f == Flag::WsPort {
                s.ws_port = Some(n as u16);
            } else {
                s.link_port = Some(n as u16);
            }
            Ok(s)
        },
        _ => Err(Fault::Unknown(i)),
    }
}

/// Where the output is: a channel of the device counted from zero, or one of
/// a member counted from one.
pub open spec fn out_of(v: Seq<char>, i: usize) -> Result<(Option<Seq<char>>, usize), Fault> {
    let (dev, n) = inputs::on_member(v);
    match text::number(text::trimmed(n)) {
        None => Err(Fault::Wants(i)),
        Some(raw) => if dev is None {
            Ok((dev, raw))
        } else if raw == 0 {
            Err(Fault::OutFromOne(i))
        } else {
            Ok((dev, (raw - 1) as usize))
        },
    }
}

/// What an option with a value sets, or why it does not.
pub open spec fn told(
    o: OptsView,
    f: Option<Flag>,
    v: Seq<char>,
    read: Option<u64>,
    i: usize,
) -> Result<OptsView, Fault> {
    match f {
        None => Err(Fault::Unknown(i)),
        Some(Flag::Device) => Ok(OptsView { device: v, ..o }),
        Some(Flag::TakesDir) => Ok(OptsView { takes_dir: Some(v), ..o }),
        Some(Flag::Source) => match inputs::source_of(v) {
            Err(e) => Err(Fault::Source(i, e)),
            Ok(s) => Ok(OptsView { sources: o.sources.push(s), ..o }),
        },
        Some(Flag::OutCh) => match out_of(v, i) {
            Err(e) => Err(e),
            Ok((dev, n)) => Ok(
                OptsView { out_on: dev, set: Settings { out_ch: n, ..o.set }, ..o },
            ),
        },
        Some(f) => if is_real(f) {
            match read {
                None => Err(Fault::Wants(i)),
                Some(x) => if f == Flag::FixedSecs && bits::up_to_wide(x, 0) {
                    Err(Fault::TooShort(i))
                } else {
                    Ok(OptsView { set: measured(o.set, f, x), ..o })
                },
            }
        } else {
            match numbered(o.set, f, v, i) {
                Err(e) => Err(e),
                Ok(s) => Ok(OptsView { set: s, ..o }),
            }
        },
    }
}

fn tell(opts: Opts, f: Option<Flag>, v: &str, read: Option<u64>, i: usize) -> (r: Result<
    Opts,
    Fault,
>)
    ensures
        match r {
            Ok(o) => told(opts@, f, v@, read, i) == Ok::<OptsView, Fault>(o@),
            Err(e) => told(opts@, f, v@, read, i) == Err::<OptsView, Fault>(e),
        },
{
    let ghost pre = opts@;
    let mut o = opts;
    let f: Flag = match f {
        None => {
            return Err(Fault::Unknown(i));
        },
        Some(f) => f,
    };
    match f {
        Flag::Device => {
            o.device = v.to_string();
            return Ok(o);
        },
        Flag::TakesDir => {
            o.takes_dir = Some(v.to_string());
            return Ok(o);
        },
        Flag::Source => {
            return match inputs::parse_source(v) {
                Err(e) => Err(Fault::Source(i, e)),
                Ok(s) => {
                    o.sources.push(s);
                    assert(o@.sources =~= pre.sources.push(s@));
                    Ok(o)
                },
            };
        },
        Flag::OutCh => {
            let (dev, n) = inputs::member_of(v);
            let raw: usize = match text::parse_usize(text::trim(n)) {
                None => {
                    return Err(Fault::Wants(i));
                },
                Some(raw) => raw,
            };
            if dev.is_some() {
                if raw == 0 {
                    return Err(Fault::OutFromOne(i));
                }
                o.set.out_ch = raw - 1;
            } else {
                o.set.out_ch = raw;
            }
            o.out_on = dev;
            return Ok(o);
        },
        _ => {},
    }
    if real_flag(f) {
        return match read {
            None => Err(Fault::Wants(i)),
            Some(x) => {
                if f == Flag::FixedSecs && bits::at_most_wide(x, 0) {
                    return Err(Fault::TooShort(i));
                }
                o.set = measure(o.set, f, x);
                Ok(o)
            },
        };
    }
    match count(o.set, f, v, i) {
        Err(e) => Err(e),
        Ok(s) => {
            o.set = s;
            Ok(o)
        },
    }
}

/// What the arguments from `i` on make of the options.
pub open spec fn told_from(
    args: Seq<Seq<char>>,
    reals: Seq<Option<u64>>,
    i: int,
    o: OptsView,
) -> Result<OptsView, Fault>
    decreases args.len() - i,
{
    if i < 0 || i >= args.len() {
        Ok(o)
    } else {
        let f = flag_of(args[i]);
        match switched(o.set, f) {
            Some(s) => told_from(args, reals, i + 1, OptsView { set: s, ..o }),
            None => if i + 1 >= args.len() {
                Err(Fault::NeedsValue(i as usize))
            } else {
                match told(o, f, args[i + 1], reals[i + 1], i as usize) {
                    Err(e) => Err(e),
                    Ok(o) => told_from(args, reals, i + 2, o),
                }
            },
        }
    }
}

/// What the looper is told by a command line: the device has to be named.
pub open spec fn loop_told(args: Seq<Seq<char>>, reals: Seq<Option<u64>>) -> Result<
    OptsView,
    Fault,
> {
    match told_from(args, reals, 0, untold()) {
        Err(e) => Err(e),
        Ok(o) => if o.device.len() == 0 {
            Err(Fault::NoDevice)
        } else {
            Ok(o)
        },
    }
}

/// Read the looper's command line. `reals` holds what each argument is as a
/// real number.
pub fn parse_loop(args: &Vec<String>, reals: &Vec<Option<u64>>) -> (r: Result<Opts, Fault>)
    requires
        reals@.len() == args@.len(),
    ensures
        match r {
            Ok(o) => loop_told(text::views(args@), reals@) == Ok::<OptsView, Fault>(o@),
            Err(e) => loop_told(text::views(args@), reals@) == Err::<OptsView, Fault>(e),
        },
{
    let ghost words = text::views(args@);
    let n: usize = args.len();
    let mut o = Opts::default();
    let mut i: usize = 0;
    while i < n
        invariant
            n == args@.len(),
            reals@.len() == n,
            words == text::views(args@),
            i <= n,
            told_from(words, reals@, 0, untold()) == told_from(words, reals@, i as int, o@),
        decreases n - i,
    {
        assert(words[i as int] == args@[i as int]@);
        let f = flag(args[i].as_str());
        if let Some(s) = switch(o.set, f) {
            o.set = s;
            i = i + 1;
            continue ;
        }
        if i + 1 >= n {
            return Err(Fault::NeedsValue(i));
        }
        assert(words[i + 1] == args@[i + 1]@);
        match tell(o, f, args[i + 1].as_str(), reals[i + 1], i) {
            Err(e) => {
                return Err(e);
            },
            Ok(next) => {
                o = next;
            },
        }
        i = i + 2;
    }
    if o.device.as_str().unicode_len() == 0 {
        return Err(Fault::NoDevice);
    }
    Ok(o)
}

/// The settings once everything is said: a fixed length stands in for the
/// longest where none was given.
pub open spec fn settled(s: Settings, out_ch: usize) -> Settings {
    Settings {
        out_ch,
        max_secs: if !s.max_secs_given && s.fixed_secs is Some {
            s.fixed_secs.unwrap()
        } else {
            s.max_secs
        },
        ..s
    }
}

/// The options once the inputs and the output have their place.
pub open spec fn loop_settled(o: OptsView, layout: Option<Layout>) -> Result<OptsView, Fault> {
    match inputs::resolved(o.sources, o.set.out_ch, o.out_on, layout) {
        Err(e) => Err(Fault::Misplaced(e)),
        Ok((out, sources)) => if bits::up_to_wide(o.set.max_secs, 0) {
            Err(Fault::MaxSecs)
        } else {
            Ok(OptsView { sources, set: settled(o.set, out), ..o })
        },
    }
}

/// Give the inputs and the output their place on the device, by what it is
/// made of now.
pub fn settle_loop(opts: Opts, layout: &Option<Layout>) -> (r: Result<Opts, Fault>)
    requires
        layout matches Some(l) ==> inputs::counted(*l),
    ensures
        match r {
            Ok(o) => loop_settled(opts@, *layout) == Ok::<OptsView, Fault>(o@),
            Err(e) => loop_settled(opts@, *layout) == Err::<OptsView, Fault>(e),
        },
{
    let (out, sources) = match inputs::resolve_sources(
        &opts.sources,
        opts.set.out_ch,
        &opts.out_on,
        layout,
    ) {
        Err(e) => {
            return Err(Fault::Misplaced(e));
        },
        Ok(x) => x,
    };
    if bits::at_most_wide(opts.set.max_secs, 0) {
        return Err(Fault::MaxSecs);
    }
    let mut o = opts;
    o.sources = sources;
    o.set.out_ch = out;
    if let Some(x) = o.set.fixed_secs {
        if !o.set.max_secs_given {
            o.set.max_secs = x;
        }
    }
    Ok(o)
}

/// A rig of tapes is as long as its tapes, unless it was said how long it may
/// be; any other is as long as was said, or as usual.
pub proof fn a_rig_of_tapes_is_as_long_as_they_are(s: Settings, out_ch: usize)
    ensures
        s.max_secs_given ==> settled(s, out_ch).max_secs == s.max_secs,
        !s.max_secs_given && s.fixed_secs is Some ==> settled(s, out_ch).max_secs
            == s.fixed_secs.unwrap(),
        s.fixed_secs is None ==> settled(s, out_ch).max_secs == s.max_secs,
        settled(s, out_ch).out_ch == out_ch,
        settled(s, out_ch) == (Settings {
            out_ch,
            max_secs: settled(s, out_ch).max_secs,
            ..s
        }),
{
}

/// A switch sets itself and nothing else, and needs no value; an option that
/// is a number sets what it names, and says that it was given where that is
/// asked later.
pub proof fn an_option_sets_what_it_names(s: Settings, v: u64)
    ensures
        switched(s, Some(Flag::Yes)) == Some(Settings { yes: true, ..s }),
        switched(s, Some(Flag::Click)) == Some(Settings { click: true, ..s }),
        switched(s, Some(Flag::Monitor)) == Some(Settings { monitor: true, ..s }),
        switched(s, Some(Flag::MonoOut)) == Some(Settings { dual: false, ..s }),
        switched(s, Some(Flag::Ws)) is Some && switched(s, Some(Flag::Ws)).unwrap().ws_port is Some,
        switched(s, Some(Flag::Link)) is Some && switched(
            s,
            Some(Flag::Link),
        ).unwrap().link_port is Some,
        switched(s, None) is None,
        measured(s, Flag::Residual, v) == (Settings { residual: v, residual_given: true, ..s }),
        measured(s, Flag::MaxSecs, v) == (Settings { max_secs: v, max_secs_given: true, ..s }),
        measured(s, Flag::FixedSecs, v) == (Settings { fixed_secs: Some(v), ..s }),
        measured(s, Flag::RingSecs, v) == (Settings { ring_secs: v, ..s }),
        measured(s, Flag::CaptureSecs, v) == (Settings { capture_secs: v, ..s }),
        measured(s, Flag::PrerollMs, v) == (Settings { preroll_ms: v, ..s }),
        measured(s, Flag::ArmDb, v) == (Settings { arm_db: v, ..s }),
        measured(s, Flag::Selftest, v) == (Settings { selftest: Some(v), ..s }),
{
}

/// An output channel on a member counts from one, as an input does; on the
/// device itself it counts from zero.
pub proof fn an_output_on_a_member_counts_from_one(v: Seq<char>, i: usize)
    ensures
        out_of(v, i) matches Ok((Some(_), n)) ==> text::number(
            text::trimmed(inputs::on_member(v).1),
        ) == Some((n + 1) as usize) && n < usize::MAX,
        out_of(v, i) matches Ok((None, n)) ==> text::number(
            text::trimmed(inputs::on_member(v).1),
        ) == Some(n),
        out_of(v, i) matches Ok((dev, _)) ==> dev == inputs::on_member(v).0,
{
}

/// A rig without a device is refused, whatever else is said.
pub proof fn a_rig_has_a_device(args: Seq<Seq<char>>, reals: Seq<Option<u64>>)
    ensures
        loop_told(args, reals) matches Ok(o) ==> o.device.len() > 0,
{
}

/// A source is one more beside those that were named before, and an option
/// with a value leaves all the others as they were told.
pub proof fn a_source_is_one_more(
    o: OptsView,
    v: Seq<char>,
    read: Option<u64>,
    i: usize,
)
    ensures
        told(o, Some(Flag::Source), v, read, i) matches Ok(r) ==> {
            &&& r.sources.len() == o.sources.len() + 1
            &&& forall|k: int| 0 <= k < o.sources.len() ==> #[trigger] r.sources[k] == o.sources[k]
            &&& inputs::source_of(v) == Ok::<inputs::InputView, inputs::SourceFault>(
                r.sources[r.sources.len() - 1],
            )
            &&& r.device == o.device
            &&& r.set == o.set
        },
        told(o, Some(Flag::Device), v, read, i) == Ok::<OptsView, Fault>(
            OptsView { device: v, ..o },
        ),
{
}

} // verus!

use itajara::aggregate::{Layout, Lost, Member};
use itajara::calibration::{look_up, names_part_of, read_calibration, resolve_residual, Origin};
use itajara::fault::{misplaced_words, words as fault_words, Asked};
use itajara::inputs::{parse_source, resolve_sources, Input, Misplaced, SourceFault};
use itajara::options::{parse_loop, settle_loop, Fault, Opts, ANCHOR_PORT, WS_PORT};
use itajara::phase::Phase;
use itajara::probes::{parse_align, parse_levels, parse_measure, Numbers};
use itajara::shared::{Shared, Size};
use itajara::source::Source;
use itajara::start::{
    agrees, footprint, room, sources_of, thread_all, source_beyond, Room, Start,
};

fn words(line: &str) -> (Vec<String>, Vec<Option<u64>>) {
    let args: Vec<String> = line.split_whitespace().map(|w| w.to_string()).collect();
    let reals = args.iter().map(|a| a.parse::<f64>().ok().map(|v| v.to_bits())).collect();
    (args, reals)
}

fn told(line: &str) -> Result<Opts, Fault> {
    let (args, reals) = words(line);
    parse_loop(&args, &reals)
}

fn fault(line: &str) -> Fault {
    match told(line) {
        Err(e) => e,
        Ok(o) => panic!("`{}` was read as {:?}", line, o),
    }
}

fn member(name: &str, in_ch: u32, first_in: u32, absent: bool) -> Member {
    Member {
        uid: format!("uid-{name}"),
        name: name.to_string(),
        in_ch,
        first_in,
        out_ch: in_ch,
        first_out: first_in,
        absent,
    }
}

fn both() -> Layout {
    Layout {
        name: "Both".to_string(),
        uid: "agg".to_string(),
        in_ch: 24,
        members: vec![
            member("ES-9", 16, 1, false),
            member("AUDIO4c", 8, 17, false),
            member("Scarlett", 0, 25, true),
        ],
    }
}

fn plain() -> Layout {
    Layout { name: "AUDIO4c".to_string(), uid: "u".to_string(), in_ch: 8, members: vec![] }
}

#[test]
fn what_is_not_said_is_as_usual() {
    let o = told("--device rig").unwrap();
    assert_eq!(o.device, "rig");
    assert!(o.sources.is_empty());
    assert_eq!(o.out_on, None);
    assert_eq!(o.takes_dir, None);
    let s = o.set;
    assert_eq!((s.in_ch, s.out_ch, s.loops, s.layers), (0, 0, 8, 4));
    assert_eq!(f64::from_bits(s.residual), 252.0);
    assert_eq!(f64::from_bits(s.max_secs), 300.0);
    assert_eq!(f64::from_bits(s.ring_secs), 60.0);
    assert_eq!(f64::from_bits(s.capture_secs), 900.0);
    assert_eq!(f64::from_bits(s.arm_db), -36.0);
    assert_eq!(f64::from_bits(s.preroll_ms), 0.0);
    assert_eq!(s.sample_rate, 48_000);
    assert!(s.dual && !s.monitor && !s.click && !s.yes);
    assert_eq!((s.ws_port, s.link_port, s.buffer), (None, None, None));
}

#[test]
fn every_option_is_heard() {
    let o = told(
        "--yes --click --ws --link --monitor --mono-out --device ES-9 --in-ch 3 --source \
         board=17,18 --out-ch AUDIO4c:5 --residual 12.5 --max-secs 30 --loops 6 --layers 3 \
         --fixed-secs 13 --rate 44100 --buffer 64 --ring-secs 5 --capture-secs 6 --takes-dir \
         /tmp/takes --preroll-ms 20 --arm-db -40 --selftest 2",
    )
    .unwrap();
    assert_eq!(o.device, "ES-9");
    assert_eq!(o.sources.len(), 1);
    assert_eq!(o.sources[0].ch, [16, 17]);
    assert_eq!(o.out_on.as_deref(), Some("AUDIO4c"));
    assert_eq!(o.takes_dir.as_deref(), Some("/tmp/takes"));
    let s = o.set;
    assert!(s.yes && s.click && s.monitor && !s.dual);
    assert_eq!((s.ws_port, s.link_port), (Some(WS_PORT), Some(ANCHOR_PORT)));
    assert_eq!((s.in_ch, s.out_ch, s.loops, s.layers), (3, 4, 6, 3));
    assert_eq!(f64::from_bits(s.residual), 12.5);
    assert!(s.residual_given && s.max_secs_given);
    assert_eq!(s.fixed_secs.map(f64::from_bits), Some(13.0));
    assert_eq!((s.sample_rate, s.buffer), (44_100, Some(64)));
    assert_eq!(f64::from_bits(s.arm_db), -40.0);
    assert_eq!(s.selftest.map(f64::from_bits), Some(2.0));
    let o = told("--device d --ws-port 4000 --link-port 4001").unwrap();
    assert_eq!((o.set.ws_port, o.set.link_port), (Some(4000), Some(4001)));
}

#[test]
fn a_command_line_that_is_wrong_says_where() {
    assert_eq!(fault("--loops 2"), Fault::NoDevice);
    assert_eq!(fault("--yes --device"), Fault::NeedsValue(1));
    assert_eq!(fault("--device d --nonsense 3"), Fault::Unknown(2));
    assert_eq!(fault("--device d --cycles 3"), Fault::Unknown(2));
    assert_eq!(fault("--device d --loops x"), Fault::Wants(2));
    assert_eq!(fault("--device d --loops 0"), Fault::AtLeastOne(2));
    assert_eq!(fault("--layers 0 --device d"), Fault::AtLeastOne(0));
    assert_eq!(fault("--device d --residual x"), Fault::Wants(2));
    assert_eq!(fault("--device d --ws-port 65536"), Fault::Wants(2));
    assert_eq!(fault("--device d --fixed-secs 0"), Fault::TooShort(2));
    assert_eq!(fault("--device d --out-ch x"), Fault::Wants(2));
    assert_eq!(fault("--device d --out-ch ES-9:0"), Fault::OutFromOne(2));
    assert_eq!(fault("--device d --source x"), Fault::Source(2, SourceFault::Shape));
}

#[test]
fn a_source_is_a_name_and_its_channels() {
    let s = parse_source("board=1,2").unwrap();
    assert_eq!((s.name.as_str(), s.ch, s.on.as_deref()), ("board", [0, 1], None));
    let s = parse_source("mic=3").unwrap();
    assert_eq!(s.ch, [2, 2], "one channel is read on both sides");
    let s = parse_source("board= AUDIO4c :1,2").unwrap();
    assert_eq!((s.ch, s.on.as_deref(), s.available), ([0, 1], Some("AUDIO4c"), true));
    let s = parse_source("board=a:b:7").unwrap();
    assert_eq!((s.ch, s.on.as_deref()), ([6, 6], Some("a:b")), "the last colon counts");
    let why = |v: &str| parse_source(v).unwrap_err();
    assert_eq!(why("board"), SourceFault::Shape);
    assert_eq!(why("=1"), SourceFault::NoName);
    assert_eq!(why("board=1,2,3"), SourceFault::Count(3));
    assert_eq!(why("board=1,x"), SourceFault::NotNumber(1));
    assert_eq!(why("board=0"), SourceFault::FromOne);
}

fn on(name: &str, ch: [usize; 2], on: &str) -> Input {
    Input { name: name.to_string(), ch, on: Some(on.to_string()), available: true }
}

#[test]
fn inputs_are_placed_by_what_the_device_is_made_of() {
    let l = Some(both());
    let (out, all) =
        resolve_sources(&vec![on("board", [0, 1], "audio4c")], 2, &Some("ES-9".to_string()), &l)
            .unwrap();
    assert_eq!(out, 2);
    assert_eq!(all[0].ch, [16, 17]);
    let (_, all) = resolve_sources(&vec![on("mic", [0, 0], "scarlett")], 0, &None, &l).unwrap();
    assert!(!all[0].available, "a member that is off is waited for");
    let plainly = Some(plain());
    let (_, all) = resolve_sources(&vec![on("b", [3, 3], "audio4c")], 0, &None, &plainly).unwrap();
    assert_eq!(all[0].ch, [3, 3]);
    let absolute = Input { name: "b".to_string(), ch: [30, 31], on: None, available: true };
    let (out, all) = resolve_sources(&vec![absolute], 9, &None, &None).unwrap();
    assert_eq!((out, all[0].ch), (9, [30, 31]), "absolute channels need no layout");
}

#[test]
fn an_input_or_an_output_that_is_nowhere_says_why() {
    let l = Some(both());
    let plainly = Some(plain());
    let none = None;
    let place = |s: Vec<Input>, out: usize, o: Option<&str>, l: &Option<Layout>| {
        resolve_sources(&s, out, &o.map(|o| o.to_string()), l).unwrap_err()
    };
    assert_eq!(place(vec![on("b", [0, 0], "x")], 0, None, &none), Misplaced::NoLayout);
    assert_eq!(place(vec![], 0, Some("x"), &l), Misplaced::OutMember(Lost::Nowhere));
    assert_eq!(place(vec![], 0, Some("Scarlett"), &l), Misplaced::OutAbsent(2));
    assert_eq!(place(vec![], 8, Some("AUDIO4c"), &l), Misplaced::OutRange(1));
    assert_eq!(place(vec![], 0, Some("x"), &plainly), Misplaced::OutPlain);
    assert_eq!(
        place(vec![on("b", [0, 0], "x")], 0, None, &l),
        Misplaced::Member(0, Lost::Nowhere)
    );
    assert_eq!(
        place(vec![on("b", [0, 8], "AUDIO4c")], 0, None, &l),
        Misplaced::Range(0, 1, 8)
    );
    assert_eq!(place(vec![on("b", [0, 0], "x")], 0, None, &plainly), Misplaced::Plain(0));
    let mut odd = both();
    odd.in_ch = 20;
    assert_eq!(
        place(vec![on("b", [0, 0], "ES-9")], 0, None, &Some(odd)),
        Misplaced::Inconsistent
    );
}

#[test]
fn a_fixed_length_stands_in_for_the_longest() {
    let o = settle_loop(told("--device d --fixed-secs 13").unwrap(), &None).unwrap();
    assert_eq!(f64::from_bits(o.set.max_secs), 13.0);
    let o = settle_loop(told("--device d --fixed-secs 13 --max-secs 60").unwrap(), &None).unwrap();
    assert_eq!(f64::from_bits(o.set.max_secs), 60.0);
    let e = settle_loop(told("--device d --max-secs 0").unwrap(), &None).unwrap_err();
    assert_eq!(e, Fault::MaxSecs);
    let e = settle_loop(told("--device d --source b=x:1").unwrap(), &None).unwrap_err();
    assert_eq!(e, Fault::Misplaced(Misplaced::NoLayout));
    let o = settle_loop(told("--device d --out-ch AUDIO4c:2").unwrap(), &Some(both())).unwrap();
    assert_eq!(o.set.out_ch, 17);
}

fn base() -> Numbers {
    Numbers {
        in_ch: 0,
        out_ch: 0,
        residual: 252.0f64.to_bits(),
        residual_given: false,
        loop_secs: 2.0f64.to_bits(),
        cycles: 4,
        amplitude: 0.5f64.to_bits(),
        sample_rate: 48_000,
        buffer: None,
        seconds: 10,
        repeats: 8,
        json: false,
    }
}

#[test]
fn the_tools_take_their_own_options_and_no_others() {
    let align = |line: &str| {
        let (a, r) = words(line);
        parse_align(base(), &a, &r)
    };
    let levels = |line: &str| {
        let (a, r) = words(line);
        parse_levels(base(), &a, &r)
    };
    let measure = |line: &str| {
        let (a, r) = words(line);
        parse_measure(base(), &a, &r)
    };
    let (d, n) = align("--device es --loop-secs 3 --cycles 5 --residual 10 --in-ch 1").unwrap();
    assert_eq!(d, "es");
    assert_eq!((f64::from_bits(n.loop_secs), n.cycles, n.in_ch), (3.0, 5, 1));
    assert!(n.residual_given);
    assert_eq!(align("--device es --loop-secs 0").unwrap_err(), Fault::LoopSecs);
    assert_eq!(align("--device es --seconds 3").unwrap_err(), Fault::Unknown(2));
    assert_eq!(align("--cycles 3").unwrap_err(), Fault::NoDevice);
    let (d, n) = levels("--device es --seconds 3 --rate 44100").unwrap();
    assert_eq!((d.as_str(), n.seconds, n.sample_rate), ("es", 3, 44_100));
    assert_eq!(levels("--device es --amp 0.5").unwrap_err(), Fault::Unknown(2));
    let (_, n) = measure("--device es --json --repeats 3 --amp 0.25").unwrap();
    assert!(n.json);
    assert_eq!((n.repeats, f64::from_bits(n.amplitude)), (3, 0.25));
    assert_eq!(measure("--device es --amp 1.5").unwrap_err(), Fault::AmpRange);
    assert_eq!(measure("--device es --repeats 0").unwrap_err(), Fault::NoRepeats);
    assert_eq!(measure("--device es --repeats").unwrap_err(), Fault::NeedsValue(2));
}

const STORED: &str = "# written by the sweep\ndevice = ES-9\nresidual_samples = 240.5\n\nclients = none\nresidual_samples = 241\nmeasured_at=noon\n";

#[test]
fn a_calibration_is_read_line_by_line_and_the_last_one_counts() {
    assert_eq!(look_up(STORED, "residual_samples").as_deref(), Some("241"));
    assert_eq!(look_up(STORED, "# written by the sweep"), None);
    let c = read_calibration(STORED);
    assert_eq!(c.device.as_deref(), Some("ES-9"));
    assert_eq!(c.measured_at.as_deref(), Some("noon"));
    assert_eq!(c.clients.as_deref(), Some("none"));
    assert_eq!(look_up("", "device"), None);
}

#[test]
fn a_residual_that_is_given_stands_and_one_of_another_device_does_not() {
    let c = Some(read_calibration(STORED));
    let stored = Some(241.0f64.to_bits());
    let (x, why) = resolve_residual(252.0f64.to_bits(), false, "Expert es-9", &c, stored);
    assert_eq!((f64::from_bits(x), why), (241.0, Origin::Stored));
    let (x, why) = resolve_residual(7.0f64.to_bits(), true, "es-9", &c, stored);
    assert_eq!((f64::from_bits(x), why), (7.0, Origin::Given));
    let (x, why) = resolve_residual(252.0f64.to_bits(), false, "AUDIO4c", &c, stored);
    assert_eq!((f64::from_bits(x), why), (252.0, Origin::OtherDevice));
    let (_, why) = resolve_residual(0, false, "es-9", &c, None);
    assert_eq!(why, Origin::Assumed);
    let (_, why) = resolve_residual(0, false, "es-9", &None, stored);
    assert_eq!(why, Origin::Assumed);
}

#[test]
fn a_rig_is_weighed_before_it_is_built() {
    let sample = 4u128;
    let loops = 4u128 * 4 * 1000 * 2 * sample;
    let ring = 500u128 * 2 * sample;
    let total = footprint(4, 4, 1000, 500, 1).unwrap();
    assert_eq!(total, loops + ring);
    assert_eq!(footprint(usize::MAX, usize::MAX, usize::MAX, 1, 1), None);
    assert_eq!(room(100, None, false), Room::Fits);
    assert_eq!(room(101, Some(100), true), Room::TooLarge);
    assert_eq!(room(26, Some(100), false), Room::Ask);
    assert_eq!(room(26, Some(100), true), Room::Fits);
    assert_eq!(room(25, Some(100), false), Room::Fits);
    assert!(agrees(" y\n") && agrees("Y") && agrees("yes"));
    assert!(!agrees("") && !agrees("n") && !agrees("YES"));
}

#[test]
fn a_source_on_an_input_that_is_not_there_is_found() {
    let named = vec![
        Input { name: "a".to_string(), ch: [0, 1], on: None, available: true },
        Input { name: "b".to_string(), ch: [1, 7], on: None, available: true },
    ];
    let s = sources_of(&named, 0);
    assert_eq!(source_beyond(&s, 8), None);
    assert_eq!(source_beyond(&s, 7), Some((1, 7)));
    let s = sources_of(&vec![], 3);
    assert_eq!((s.len(), s[0].name.as_str(), s[0].ch), (1, "in", [3, 3]));
    assert_eq!(s[0].describe(), "in (in 4)");
    assert_eq!(sources_of(&named, 0)[0].describe(), "a (in 1+2)");
}

#[test]
fn a_rig_with_a_fixed_length_starts_as_tapes() {
    let size = Size {
        max_frames: 200,
        n_loops: 2,
        max_layers: 2,
        fixed_frames: 130,
        ring_len: 10,
        max_fade: 0,
        claim_frames: 10,
    };
    let start = Start { click: true, monitor: true, preroll: 3, arm_thresh: 9, arm_reach: 4 };
    let mut sh = Shared::new(size, vec![Source::mono("in", 0)], start);
    assert!(sh.desk.click && sh.desk.monitor);
    assert_eq!((sh.desk.preroll, sh.desk.arm_thresh, sh.desk.arm_reach), (3, 9, 4));
    assert!(sh.loops.iter().all(|l| l.state == Phase::Idle && l.body.loop_len == 0));
    assert!(sh.arena.iter().flatten().flatten().all(|&s| s == 0));
    thread_all(&mut sh);
    assert!(sh.loops.iter().all(|l| l.body.loop_len == 130 && l.body.threaded));
}

#[test]
fn a_calibration_that_names_part_of_a_device_is_of_it() {
    assert!(names_part_of("ES-9", "es-9", "es-9 usb"));
    assert!(!names_part_of("ES-9", "es-9", "audio4c"));
    assert!(names_part_of("", "", "audio4c"));
}

#[test]
fn a_wrong_command_line_is_answered_in_words() {
    let say = |line: &str| {
        let (args, _) = words(line);
        fault_words(fault(line), "loop", &args)
    };
    assert_eq!(say("--loops 2"), "loop needs --device");
    assert_eq!(say("--yes --device"), "--device needs a value");
    assert_eq!(say("--device d --nonsense 3"), "unknown option \"--nonsense\"");
    assert_eq!(say("--device d --loops x"), "--loops wants an integer");
    assert_eq!(say("--device d --in-ch x"), "--in-ch wants an integer");
    assert_eq!(say("--device d --loops 0"), "--loops wants at least one");
    assert_eq!(say("--device d --residual x"), "--residual wants a number");
    assert_eq!(say("--device d --ws-port 65536"), "--ws-port wants a port number");
    assert_eq!(say("--device d --fixed-secs x"), "--fixed-secs wants a number of seconds");
    assert_eq!(say("--device d --fixed-secs 0"), "--fixed-secs wants a length greater than zero");
    assert_eq!(say("--device d --arm-db x"), "--arm-db wants a number of dBFS");
    assert_eq!(say("--device d --selftest x"), "--selftest wants a length in seconds");
    assert_eq!(
        say("--device d --out-ch ES-9:0"),
        "--out-ch: an interface's channels count from 1"
    );
    assert_eq!(say("--device d --source x"), "--source wants name=channel, not `x`");
    assert_eq!(say("--device d --source =1"), "--source `=1` has no name");
    assert_eq!(
        say("--device d --source b=1,2,3"),
        "--source b wants one or 2 channels, not 3"
    );
    assert_eq!(
        say("--device d --source b=AUDIO4c:1,x"),
        "--source b: `x` is not a channel number"
    );
    assert_eq!(say("--device d --source b=0"), "--source b: channels count from 1");
    let none: Vec<String> = vec![];
    assert_eq!(fault_words(Fault::MaxSecs, "loop", &none), "--max-secs must be positive");
    assert_eq!(fault_words(Fault::LoopSecs, "align", &none), "--loop-secs must be positive");
    assert_eq!(fault_words(Fault::AmpRange, "measure", &none), "--amp must be between 0 and 1");
    assert_eq!(fault_words(Fault::NoRepeats, "measure", &none), "--repeats must be at least 1");
    assert_eq!(fault_words(Fault::NoDevice, "levels", &none), "levels needs --device");
}

#[test]
fn what_is_misplaced_is_answered_in_words() {
    let say = |m: Misplaced, l: &Option<Layout>, on: &str| {
        misplaced_words(m, "Both", l, &Asked { name: "board", on, out_ch: 8 })
    };
    let l = Some(both());
    assert_eq!(
        say(Misplaced::NoLayout, &None, "x"),
        "cannot read the layout of \"Both\", so a source named by interface cannot be placed"
    );
    assert_eq!(
        say(Misplaced::OutMember(Lost::Nowhere), &l, "x"),
        "--out-ch: \"x\" is not in Both. It holds: ES-9, AUDIO4c, Scarlett"
    );
    assert_eq!(
        say(Misplaced::OutAbsent(2), &l, "Scarlett"),
        "--out-ch names Scarlett, which is configured into Both and not switched on. Playback \
         has to go somewhere you can hear it."
    );
    assert_eq!(
        say(Misplaced::OutRange(1), &l, "AUDIO4c"),
        "--out-ch: AUDIO4c has 8 outputs, so there is no channel 9"
    );
    let plainly = Some(plain());
    assert_eq!(
        say(Misplaced::OutPlain, &plainly, "x"),
        "--out-ch: \"AUDIO4c\" is not an aggregate, so it has no member \"x\""
    );
    assert_eq!(
        say(Misplaced::Member(0, Lost::Nowhere), &l, "x"),
        "--source board: \"x\" is not in Both. It holds: ES-9, AUDIO4c, Scarlett"
    );
    assert_eq!(
        say(Misplaced::Range(0, 1, 8), &l, "AUDIO4c"),
        "--source board: AUDIO4c has 8 inputs, so there is no channel 9"
    );
    assert_eq!(
        say(Misplaced::Plain(0), &plainly, "x"),
        "--source board: \"AUDIO4c\" is not an aggregate, so it has no member \"x\""
    );
    let odd = say(Misplaced::Inconsistent, &l, "");
    assert!(odd.starts_with("Both: its members add up to 24 inputs and the device reports 24."));
    assert!(odd.ends_with("or name a device that is all there."), "{}", odd);
}

#[test]
fn a_source_that_is_off_stays_off_and_in_its_place() {
    let o = told("--device d --source mic=Scarlett:1 --source board=AUDIO4c:1,2").unwrap();
    let o = settle_loop(o, &Some(both())).unwrap();
    let s = sources_of(&o.sources, 0);
    assert_eq!((s[0].name.as_str(), s[0].available, s[0].ch), ("mic", false, [0, 0]));
    assert_eq!((s[1].name.as_str(), s[1].available, s[1].ch), ("board", true, [16, 17]));
    assert!(sources_of(&vec![], 0)[0].available);
}

#[test]
fn a_member_of_one_input_reads_wherever_it_is() {
    let l = Layout {
        name: "Far".to_string(),
        uid: "far".to_string(),
        in_ch: 1,
        members: vec![member("Last", 1, u32::MAX, false), member("None", 0, u32::MAX, true)],
    };
    let d = l.describe();
    assert!(d.contains("4294967295            Last\n"), "{}", d);
    assert!(d.contains("(no inputs)     None\n"), "{}", d);
}

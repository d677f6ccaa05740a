use itajara::ack::{Ack, Misread, Said, Writing};
use itajara::audio::Heard;
use itajara::beat;
use itajara::bits;
use itajara::closing::{Caller, Take};
use itajara::commit;
use itajara::commit::Closed;
use itajara::copy;
use itajara::cycle;
use itajara::dispatch::{Lateness, Reading as Worked};
use itajara::export;
use itajara::finish;
use itajara::frame;
use itajara::input;
use itajara::input::Landed;
use itajara::lane;
use itajara::lane::Command;
use itajara::layer::Shape;
use itajara::line::{command, split_late, wants, Wants};
use itajara::loop_state::{Loop, OLDEST};
use itajara::mixer;
use itajara::mixer::Reading;
use itajara::next_take::{FIRE, NEVER};
use itajara::note;
use itajara::note::Note;
use itajara::pairing;
use itajara::phase::Phase;
use itajara::render;
use itajara::say;
use itajara::say::{unread, unread_quoted};
use itajara::selftest;
use itajara::shared::{Shared, Size, DEFAULT_LAYERS, DEFAULT_LOOPS};
use itajara::source;
use itajara::source::{Source, CHANNELS};
use itajara::stamp;
use itajara::start::Start;
use itajara::verb::{verbs, Verb};
use itajara::watch;
use itajara::wide::whole as wide_bits;
use itajara::words::{
    decay_words, draw_layer, fade_words, fb_words, odds_words, tone_words, vol_words, COLUMNS,
};
use rand::rngs::SmallRng;
use rand::{Rng, SeedableRng};

const LEN: usize = 1000;
const SR: u32 = 1000;
const NOW: usize = 50;
const BAR: usize = 400;
const STAMP_FRAMES: usize = 16;
const LOOP: usize = 100;
const ARM_REACH_MS: f64 = 50.0;
const MAX_FADE_MS: f64 = 500.0;
const MAX_FRAMES: usize = 0x1FFF_FFFF;

fn db(mag: f32) -> f64 {
    20.0 * (mag.max(1e-9) as f64).log10()
}

fn db_to_mag(db: f64) -> f32 {
    (10f64.powf(db / 20.0)).clamp(1e-6, 1.0) as f32
}

fn db_to_gain(db: f32, floor: bool) -> f32 {
    if floor && db <= -60.0 {
        0.0
    } else {
        10f32.powf(db / 20.0)
    }
}

fn tempo_of(len: usize, bars: usize, sr: u32, quantum: f64) -> f64 {
    let secs = len as f64 / sr as f64;
    let beats_per_bar = if quantum >= 1.0 { quantum } else { 4.0 };
    60.0 * beats_per_bar * bars.max(1) as f64 / secs
}

fn pan_position(pan: usize) -> f32 {
    let v = pan.min(127) as f32;
    if v <= 64.0 {
        v / 128.0
    } else {
        0.5 + (v - 64.0) / 126.0
    }
}

fn pan_gains(pan: usize) -> (f32, f32) {
    let theta = pan_position(pan) * std::f32::consts::FRAC_PI_2;
    (theta.cos(), theta.sin())
}

fn balance_gains(pan: usize) -> (f32, f32) {
    let p = pan_position(pan);
    ((2.0 * (1.0 - p)).min(1.0), (2.0 * p).min(1.0))
}

fn wrap_mix(head: f32, tail: f32, p: usize, n: usize) -> f32 {
    let t = (p + 1) as f32 / (n + 1) as f32;
    tail * (1.0 - t) + head * t
}

fn raw_pos(lp: &Loop, out_frame: i64) -> f64 {
    f64::from_bits(lp.play.warp) + (out_frame - lp.body.origin) as f64 * f64::from_bits(lp.play.speed)
}

fn play_pos(lp: &Loop, out_frame: i64, len: usize) -> f64 {
    if len == 0 {
        return 0.0;
    }
    if let Some(raw) = lp.travelled(out_frame) {
        return lp.play_pos(raw, len) as f64;
    }
    let raw = raw_pos(lp, out_frame);
    let (start, span) = lp.cycle(len);
    let lenf = span as f64;
    let c = if lp.play.pendulum {
        let q = raw.rem_euclid(2.0 * lenf);
        if q < lenf {
            q
        } else {
            (2.0 * lenf - q).min(lenf - 1.0).max(0.0)
        }
    } else {
        raw.rem_euclid(lenf)
    };
    let turned = (c + (lp.edit.rot % span.max(1)) as f64).rem_euclid(lenf);
    start as f64 + turned
}

fn pass_index(lp: &Loop, out_frame: i64, len: usize) -> i64 {
    if let Some(raw) = lp.travelled(out_frame) {
        return lp.pass_index(raw, len);
    }
    if len == 0 {
        return 0;
    }
    let (_, cyc) = lp.cycle(len);
    let span = if lp.play.pendulum { 2 * cyc } else { cyc } as f64;
    (raw_pos(lp, out_frame) / span).floor() as i64
}

fn adopt(lp: &mut Loop, out_frame: i64, len: usize, speed: f64, pend: bool) {
    let (start, span) = lp.cycle(len);
    let r = lp.edit.rot % span.max(1);
    let here = (play_pos(lp, out_frame, len) - start as f64 - r as f64).rem_euclid(span.max(1) as f64);
    let warp = if len == 0 {
        0.0
    } else {
        here - (out_frame - lp.body.origin) as f64 * speed
    };
    lp.adopt(len, speed.to_bits(), pend, warp.to_bits(), warp.round() as i64);
}

fn powers(decay: u32, oldest: i64) -> Vec<u32> {
    let d = f32::from_bits(decay);
    (0..=oldest.max(0)).map(|n| d.powi(n as i32).to_bits()).collect()
}

fn age(lp: &mut Loop, out_frame: i64) {
    let now = pass_index(lp, out_frame, lp.body.loop_len);
    let powers = powers(lp.play.decay, OLDEST);
    lp.age(now, &powers);
}

fn read(sh: &Shared, li: usize, layer: usize, pos: usize, ch: usize) -> f32 {
    f32::from_bits(sh.read(li, layer, pos, ch))
}

fn mix_at(sh: &Shared, li: usize, n: usize, pos: usize, live: bool) -> [f32; CHANNELS] {
    let mut v = [0.0f32; CHANNELS];
    for (layer, heard, gain) in sh.mix_at(li, n, pos, live) {
        let g = f32::from_bits(gain);
        for (ch, out) in v.iter_mut().enumerate() {
            *out += match heard {
                Heard::Silence => 0.0,
                Heard::Frame { at } => read(sh, li, layer, at, ch) * g,
                Heard::Wrap { at, tail, step, of } => {
                    wrap_mix(read(sh, li, layer, at, ch), read(sh, li, layer, tail, ch), step, of) * g
                }
            };
        }
    }
    v
}

fn heard(sh: &Shared, li: usize, n: usize, reading: &Reading, frac: f32) -> [f32; CHANNELS] {
    let at = |p: Option<usize>| match p {
        Some(p) => mix_at(sh, li, n, p, true),
        None => [0.0; CHANNELS],
    };
    let mut out = at(reading.at);
    if frac != 0.0 {
        let b = at(reading.after);
        for ch in 0..CHANNELS {
            out[ch] = out[ch] * (1.0 - frac) + b[ch] * frac;
        }
    }
    if let Some((tail, k, xf)) = reading.wrap {
        let t = at(tail);
        for ch in 0..CHANNELS {
            out[ch] = wrap_mix(out[ch], t[ch], k, xf);
        }
    }
    out
}

fn loop_at(sh: &mut Shared, li: usize, out_frame: i64, rng: &mut SmallRng, live: bool) -> [f32; CHANNELS] {
    let raw = raw_pos(&sh.loops[li], out_frame).floor() as i64;
    if !mixer::gate(&mut sh.loops[li], out_frame, raw, live, rng) {
        return [0.0; CHANNELS];
    }
    let lp = &sh.loops[li];
    let pf = play_pos(lp, out_frame, lp.body.loop_len);
    let p0 = pf.floor() as i64;
    let reading = mixer::loop_at(lp, p0);
    heard(sh, li, lp.body.n_layers, &reading, (pf - p0 as f64) as f32)
}

fn placement(lp: &Loop) -> (bool, f32, f32) {
    let v = f32::from_bits(lp.play.vol);
    let fold = lp.play.mono;
    let (l, r) = if fold { pan_gains(lp.play.pan) } else { balance_gains(lp.play.pan) };
    (fold, l * v, r * v)
}

fn placed(s: [f32; CHANNELS], how: (bool, f32, f32)) -> (f32, f32) {
    let (fold, l, r) = how;
    if fold {
        let m = (s[0] + s[1]) * 0.5;
        (m * l, m * r)
    } else {
        (s[0] * l, s[1] * r)
    }
}

fn render_loop(sh: &Shared, li: usize) -> Option<Vec<f32>> {
    let lp = sh.lp(li);
    let len = lp.body.loop_len;
    let rate = f64::from_bits(lp.play.speed);
    let mut given: Vec<i64> = Vec::new();
    let mut fracs: Vec<f32> = Vec::new();
    let whole = rate.abs() == 1.0 && f64::from_bits(lp.play.warp) == 0.0;
    let frames = render::frames(lp, MAX_FRAMES)?;
    if !whole {
        let f0 = lp.body.origin - (f64::from_bits(lp.play.warp) / rate).round() as i64;
        for f in 0..frames {
            let pf = play_pos(lp, f0 + f as i64, len);
            given.push(pf.floor() as i64);
            fracs.push((pf - pf.floor()) as f32);
        }
    }
    let readings = sh.render_loop(li, &given, MAX_FRAMES)?;
    let how = placement(lp);
    let mut out = Vec::with_capacity(readings.len() * CHANNELS);
    for (f, reading) in readings.iter().enumerate() {
        let frac = fracs.get(f).copied().unwrap_or(0.0);
        let (l, r) = placed(heard(sh, li, lp.body.n_layers, reading, frac), how);
        out.push(l);
        out.push(r);
    }
    Some(out)
}

fn folded(sh: &Shared, li: usize) -> Vec<u32> {
    let lp = sh.lp(li);
    let mut out = Vec::new();
    for p in 0..lp.body.loop_len {
        for v in mix_at(sh, li, lp.body.n_layers, p, true) {
            out.push(v.to_bits());
        }
    }
    out
}

fn peaks(sh: &Shared, li: usize, buckets: usize) -> (Vec<i64>, Vec<i64>) {
    let lp = sh.lp(li);
    let n = lp.body.n_layers;
    let mut lo = Vec::with_capacity(buckets);
    let mut hi = Vec::with_capacity(buckets);
    for b in 0..buckets {
        let (from, to) = render::stretch(lp, b, buckets);
        let (mut mn, mut mx) = (0.0f32, 0.0f32);
        for p in from..to {
            for v in mix_at(sh, li, n, p, false) {
                mn = mn.min(v);
                mx = mx.max(v);
            }
        }
        lo.push((mn * 1000.0).round() as i64);
        hi.push((mx * 1000.0).round() as i64);
    }
    (lo, hi)
}

fn take_back(sh: &mut Shared, li: usize, take: &Take) {
    let layer = sh.lp(li).body.n_layers;
    for (_, at, a, b) in finish::overhang(sh, li, take) {
        let Some(pos) = at else { continue };
        for (ch, bits) in [a, b].into_iter().enumerate() {
            let v = read(sh, li, layer, pos, ch) - f32::from_bits(bits);
            sh.write(li, layer, pos, ch, v.to_bits());
        }
    }
}

fn one(bits: u32) -> f32 {
    f32::from_bits(bits)
}

fn wide(bits: u64) -> f64 {
    f64::from_bits(bits)
}

fn down(gain: f32) -> f32 {
    -20.0 * gain.max(1e-9).log10()
}

fn feedback(lp: &Loop) -> String {
    fb_words(lp.habit.fb, &format!("{:.0}", down(one(lp.habit.fb))))
}

fn fade(lp: &Loop, sr: u32) -> String {
    let ms = lp.play.fade as f64 / sr as f64 * 1000.0;
    fade_words(lp.play.fade, &format!("{:.0}", ms))
}

fn threshold(sh: &Shared) -> String {
    format!("{:.0} dBFS", 20.0 * (one(sh.desk.arm_thresh).max(1e-9) as f64).log10())
}

/// The texts with real numbers that a sentence is made with.
fn told(said: &Said, sh: &Shared, sr: u32) -> Vec<String> {
    let sec = |n: usize| n as f64 / sr as f64;
    let at = |n: i64| n as f64 / sr as f64;
    let s1 = |n: usize| format!("{:.1}", sec(n));
    let s2 = |n: usize| format!("{:.2}", sec(n));
    let s3 = |n: usize| format!("{:.3}", sec(n));
    let pace = |speed: u64| format!("{}", wide(speed).abs());
    match *said {
        Said::Windows { from, to, len, .. } => vec![
            format!("{:.3}", at(from)),
            format!("{:.3}", at(to)),
            format!("{:.3}", at(to - from)),
            s3(len),
        ],
        Said::Rotated { next, by, .. } => vec![s3(next), format!("{:+.3}", at(by))],
        Said::TapeSpeed { speed, .. }
        | Said::NotPlain { speed, .. }
        | Said::Speed { speed, .. }
        | Said::PlaysWay { speed, .. } => vec![pace(speed)],
        Said::Multiplying { recovered, .. } => vec![s2(recovered)],
        Said::MultiplyPast { cycles, len, max_frames, .. } => {
            vec![format!("{:.1}", cycles as f64 * sec(len)), s1(max_frames)]
        }
        Said::MultiplyEndsOnBoundary { wait, .. }
        | Said::StartsOnGrid { wait, .. }
        | Said::ClosesOnBar { wait, .. }
        | Said::FiresOnGrid { wait, .. } => vec![format!("{:.2}", at(wait))],
        Said::Started { wait, .. } => vec![format!("{:.2}", at(wait.unwrap_or(0)))],
        Said::Multiplied { len, cycle, waited, .. } => {
            vec![s3(len), s3(cycle), format!("{:.2}", at(waited))]
        }
        Said::NowListening { .. } | Said::ArmLevel { .. } => vec![threshold(sh)],
        Said::WaitsForSound { .. } => vec![threshold(sh), format!("{:.0}", ARM_REACH_MS)],
        Said::Drawn { len, .. }
        | Said::Committed { len, .. }
        | Said::OnTape { len, .. }
        | Said::Fixed { len, .. }
        | Said::BarsSized { len, .. }
        | Said::BarsResized { len, .. }
        | Said::EmptyNow { len, .. }
        | Said::Threaded { len, .. }
        | Said::ClearedTape { len, .. } => vec![s3(len)],
        Said::LengthForgotten { was } => vec![s3(was)],
        Said::FollowsClock { bar, .. } | Said::FollowsLoop { bar, .. } => vec![s3(bar)],
        Said::BarsDeclared { bars, len, .. } => vec![s3(len / bars.max(1))],
        Said::BarsPast { len, max_frames, .. } => vec![s1(len), s1(max_frames)],
        Said::LayerTooLong { longest, len, .. } => vec![s3(longest), s3(len)],
        Said::TookLoop { len, got, .. } => {
            vec![s2(got), s2(len), s3(len), format!("{:.1}", 240.0 / sec(len))]
        }
        Said::TookLayer { len, got, .. } => vec![s2(got), s2(len)],
        Said::TempoFrom { len, bars, .. } => {
            let bpm = tempo_of(len, bars, sr, wide(sh.link.link_quantum));
            if (20.0..=999.0).contains(&bpm) {
                vec![s3(len), format!("{:.2}", bpm)]
            } else {
                vec![s3(len), format!("{:.1}", bpm)]
            }
        }
        Said::FixOnePass { len, asked, .. } => vec![s3(len), format!("{:.1}", wide(asked))],
        Said::FixPast { asked, max_frames } | Said::TapePast { asked, max_frames } => {
            vec![format!("{:.1}", wide(asked)), s1(max_frames)]
        }
        Said::CopiedLayer { len, .. } => vec![format!("{:.3}", len as f64 / 48_000.0)],
        Said::Tone { li } => {
            let tone = sh.lp(li).habit.tone;
            vec![tone_words(tone, &format!("{:.1}", one(tone) / 1000.0))]
        }
        Said::Decay { li } => {
            let decay = sh.lp(li).play.decay;
            vec![decay_words(decay, &format!("{:.0}", down(one(decay))))]
        }
        Said::Level { li } => {
            let vol = sh.lp(li).play.vol;
            vec![vol_words(vol, &format!("{:.1}", down(one(vol))))]
        }
        Said::TapeNow { li, .. } | Said::Feedback { li } => vec![feedback(sh.lp(li))],
        Said::Fade { li } | Said::FadeSet { li, .. } => vec![fade(sh.lp(li), sr)],
        Said::Odds { bits, .. } => {
            vec![odds_words(bits, &format!("{:.0}", one(bits) * 100.0))]
        }
        Said::RecordsFrom { source, .. } => vec![sh.sources[source].describe()],
        Said::SourceAway { source, .. } => vec![sh.sources[source].name.clone()],
        Said::NoSource { .. } => vec![source::list(&sh.sources)],
        Said::ToneRange { bits }
        | Said::FeedbackGain { bits }
        | Said::FeedbackRange { bits }
        | Said::DecayGain { bits }
        | Said::DecayRange { bits }
        | Said::ChanceRange { bits }
        | Said::LevelGain { bits }
        | Said::LevelRange { bits } => vec![format!("{}", one(bits))],
        Said::SpeedRange { bits } | Said::ArmRange { bits } => vec![format!("{}", wide(bits))],
        Said::FadeRange { bits } => {
            vec![format!("{:.0}", MAX_FADE_MS), format!("{}", wide(bits))]
        }
        Said::Panned { pan, .. } => {
            let (l, r) = pan_gains(pan);
            vec![format!("{:.2}", l), format!("{:.2}", r)]
        }
        Said::Levels { input, output } => {
            vec![format!("{:>7.1}", db(one(input))), format!("{:>7.1}", db(one(output)))]
        }
        _ => Vec::new(),
    }
}

/// What a real number decides about a sentence.
fn beside(said: &Said, sh: &Shared, sr: u32) -> bool {
    match *said {
        Said::TempoFrom { len, bars, .. } => {
            let bpm = tempo_of(len, bars, sr, wide(sh.link.link_quantum));
            !(20.0..=999.0).contains(&bpm)
        }
        Said::FixOnePass { len, asked, .. } => {
            (len as f64 / sr as f64 - wide(asked)).abs() > 0.01
        }
        Said::Levels { input, .. } => one(input) < 1e-6,
        _ => false,
    }
}

/// What was done, or why it was not.
fn sentence(said: &Said, sh: &Shared, sr: u32) -> String {
    say::sentence(said, &told(said, sh, sr), beside(said, sh, sr))
}

fn rig(max_frames: usize) -> Shared {
    let size = Size {
        max_frames,
        n_loops: DEFAULT_LOOPS,
        max_layers: DEFAULT_LAYERS,
        fixed_frames: 0,
        ring_len: 1,
        max_fade: 0,
        claim_frames: 8 * 48_000,
    };
    let start = Start {
        click: false,
        monitor: false,
        preroll: 0,
        arm_thresh: 0.01f32.to_bits(),
        arm_reach: 0,
    };
    let mut sh = Shared::new(size, vec![Source::mono("test", 0)], start);
    sh.clock.p0_needed = false;
    sh
}

fn lay(sh: &mut Shared, li: usize, layer: usize, len: usize, v: f32) {
    for p in 0..len {
        for ch in 0..CHANNELS {
            sh.write(li, layer, p, ch, v.to_bits());
        }
    }
    let lp = &mut sh.loops[li];
    lp.set_layer_shape(layer, Shape { len, tail: 0, born: 0 });
    lp.body.n_layers = layer + 1;
}

fn one_layer_loop(sh: &mut Shared, li: usize, len: usize, v: f32) {
    lay(sh, li, 0, len, v);
    sh.loops[li].body.loop_len = len;
    sh.loops[li].body.origin = 0;
}

fn ramp(sh: &mut Shared, li: usize, layer: usize, len: usize) {
    for p in 0..len {
        for ch in 0..CHANNELS {
            sh.write(li, layer, p, ch, (p as f32).to_bits());
        }
    }
}

/// The edit that is held takes effect.
fn settle(sh: &mut Shared, li: usize) {
    let lp = &mut sh.loops[li];
    assert!(lp.edit.pend_set, "an edit was held");
    let at = lp.edit.edit_restart;
    let origin = lp.body.origin;
    stamp::settle_edit(lp, at + 1);
    lp.body.origin = origin;
    assert!(!lp.edit.pend_set);
    assert_eq!(lp.edit.edit_restart, 0);
}

fn worked(sh: &Shared, sr: u32, text: &str) -> Worked {
    let Some((li, verb, arg)) = command(sh, text) else {
        return Worked::Unread;
    };
    match wants(verb) {
        Wants::Nothing => Worked::Unread,
        Wants::Single => match arg.parse::<f32>() {
            Ok(v) => Worked::Single {
                bits: v.to_bits(),
                gain: db_to_gain(v, verb != Verb::Decay).to_bits(),
            },
            Err(_) => Worked::Unread,
        },
        Wants::Wide => match arg.parse::<f64>() {
            Ok(v) => {
                let secs = if verb == Verb::Fade { v / 1000.0 } else { v };
                Worked::Wide {
                    bits: v.to_bits(),
                    frames: (secs * sr as f64).round() as usize,
                    gain: db_to_mag(v).to_bits(),
                }
            }
            Err(_) => Worked::Unread,
        },
        Wants::Fold => Worked::Folded(folded(sh, li)),
    }
}

fn lateness(sr: u32, text: &str) -> Option<Lateness> {
    let (_, late) = split_late(text);
    let ms = late?.trim().parse::<f64>().ok()?;
    Some(Lateness { bits: ms.to_bits(), frames: (ms / 1000.0 * sr as f64).round() as i64 })
}

/// A command, carried through to what is said of it: a close is waited for.
fn dispatch(sh: &mut Shared, sr: u32, text: &str) -> String {
    let reading = worked(sh, sr, text);
    let ack = itajara::dispatch::dispatch(sh, text, lateness(sr, text), &reading, Caller::App, 0);
    match ack {
        Ack::Nothing => String::new(),
        Ack::Said(Said::Draining { li }) => finished(sh, sr, li),
        Ack::Said(Said::Drawn { li, buckets, len }) => {
            let (lo, hi) = peaks(sh, li, buckets);
            render::note_peaks(sh, li, buckets, &lo, &hi);
            sentence(&Said::Drawn { li, buckets, len }, sh, sr)
        }
        Ack::Said(s) => sentence(&s, sh, sr),
        Ack::Misread(m, t) => unread(m, &t),
        Ack::Write(what, li, name) => written(sh, what, li, &name),
    }
}

fn finished(sh: &mut Shared, sr: u32, li: usize) -> String {
    match finish::take_drained(sh, li, u64::MAX) {
        Some(t) => {
            take_back(sh, li, &t);
            let s = finish::finish_take(sh, li, &t);
            sentence(&s, sh, sr)
        }
        None => String::new(),
    }
}

fn written(sh: &Shared, what: Writing, li: usize, name: &str) -> String {
    let put = match what {
        Writing::Take => export::save_take(sh, li, name, 7),
        Writing::Loops => export::export_set(sh, name, 7),
        Writing::Layers => export::export_layers(sh, name, 7),
    };
    match put {
        Err(e) => format!("{:?}", e),
        Ok(name) => {
            if export::loops_held(sh).is_empty() {
                "nothing to export — no loop has anything in it.".to_string()
            } else {
                name
            }
        }
    }
}

fn at_origin() -> Loop {
    Loop::new(0, DEFAULT_LAYERS)
}

#[test]
fn a_window_and_a_rotation_change_where_a_pass_starts_and_ends() {
    let mut sh = rig(LEN);
    one_layer_loop(&mut sh, 0, 100, 0.0);
    ramp(&mut sh, 0, 0, 100);
    let first = |sh: &Shared| render_loop(sh, 0).expect("renders")[0];
    assert_eq!(first(&sh), 0.0);
    assert!(dispatch(&mut sh, 48_000, "0rot10").contains("starts"));
    assert_eq!(first(&sh), 0.0, "held, not applied: the loop plays on as it was");
    assert!(sh.lp(0).edit.edit_restart > 0, "an edit schedules a restart");
    settle(&mut sh, 0);
    assert_eq!(first(&sh), 10.0, "a rotation starts the pass later in the arena");
    assert!(dispatch(&mut sh, 48_000, "0in20").contains("windows"));
    assert!(dispatch(&mut sh, 48_000, "0out60").contains("windows"), "the second edit is against the first");
    settle(&mut sh, 0);
    let out = render_loop(&sh, 0).expect("renders");
    assert_eq!(out.len(), 40 * CHANNELS, "the render is the window");
    assert_eq!(out[0], 30.0, "start of the window, plus the rotation");
    assert_eq!(out[(40 - 1) * CHANNELS], 29.0, "and it wraps inside the window");
    assert!(dispatch(&mut sh, 48_000, "0x").contains("window"), "no multiplying a window; an overdub is allowed now");
    assert!(dispatch(&mut sh, 48_000, "0out201").contains("may reach"), "one loop of silence is the most");
    assert!(dispatch(&mut sh, 48_000, "0win").contains("whole loop"));
    settle(&mut sh, 0);
    assert!(dispatch(&mut sh, 48_000, "0rot-10").contains("starts"));
    settle(&mut sh, 0);
    assert_eq!(first(&sh), 0.0, "and back");
    assert!(dispatch(&mut sh, 48_000, "0pk16").contains("16 buckets"));
    assert!(sh.peaks.contains(r#""buckets":16"#));
    assert!(dispatch(&mut sh, 48_000, "0in-20").contains("with silence"));
    assert!(dispatch(&mut sh, 48_000, "0out120").contains("with silence"));
    settle(&mut sh, 0);
    let out = render_loop(&sh, 0).expect("renders");
    assert_eq!(out.len(), 140 * CHANNELS, "twenty of rest, the loop, twenty of rest");
    assert_eq!(out[0], 0.0, "rest before the loop");
    assert_eq!(out[21 * CHANNELS], 1.0, "the loop, where it was");
    assert_eq!(out[125 * CHANNELS], 0.0, "rest after it");
    assert!(dispatch(&mut sh, 48_000, "0in-200").contains("may reach"));
    assert!(dispatch(&mut sh, 48_000, "0pk16").contains("16 buckets"));
    assert!(sh.peaks.contains(r#""from":-20,"to":120"#));
}

#[test]
fn the_write_head_lands_where_the_play_head_is() {
    let mut sh = rig(LEN);
    one_layer_loop(&mut sh, 0, 100, 0.0);
    fn check(sh: &Shared, what: &str) {
        let lp = sh.lp(0);
        for out_frame in 0..400i64 {
            let heard = play_pos(lp, out_frame, 100);
            let wrote = lp.write_pos(out_frame - lp.body.origin, 100);
            if heard >= 0.0 && heard < 100.0 {
                assert_eq!(wrote, Some(heard.floor() as usize), "{}: frame {}", what, out_frame);
            } else {
                assert_eq!(wrote, None, "{}: frame {} heard silence at {}", what, out_frame, heard);
            }
        }
    }
    check(&sh, "whole loop");
    assert!(dispatch(&mut sh, 48_000, "0rot30").contains("starts"));
    settle(&mut sh, 0);
    check(&sh, "rotated");
    assert!(dispatch(&mut sh, 48_000, "0in20").contains("windows"));
    assert!(dispatch(&mut sh, 48_000, "0out60").contains("windows"));
    settle(&mut sh, 0);
    check(&sh, "windowed and rotated");
    assert!(dispatch(&mut sh, 48_000, "0in-20").contains("with silence"));
    settle(&mut sh, 0);
    check(&sh, "window into silence before the loop");
    assert!(dispatch(&mut sh, 48_000, "0x").contains("multiplying"));
    assert!(!dispatch(&mut sh, 48_000, "0r").contains("window"), "an overdub goes in");
}

#[test]
fn a_layer_window_plays_its_slice_and_the_picture_sees_the_arena() {
    let mut sh = rig(LEN);
    one_layer_loop(&mut sh, 0, 100, 0.0);
    ramp(&mut sh, 0, 0, 100);
    assert!(dispatch(&mut sh, 48_000, "0lw1:20:60").contains("plays 20..60"));
    assert_eq!(mix_at(&sh, 0, 1, 5, true)[0], 25.0, "the window's start plus the position");
    assert_eq!(mix_at(&sh, 0, 1, 45, true)[0], 25.0, "and it comes round inside the span");
    assert_eq!(mix_at(&sh, 0, 1, 5, false)[0], 5.0, "the picture reads the arena as stored");
    assert!(dispatch(&mut sh, 48_000, "0lw1:-10:30").contains("with silence"));
    assert_eq!(mix_at(&sh, 0, 1, 5, true)[0], 0.0, "silence where the window reaches before the layer");
    assert!(dispatch(&mut sh, 48_000, "0lw1").contains("whole again"));
    assert_eq!(mix_at(&sh, 0, 1, 5, true)[0], 5.0);
    assert!(dispatch(&mut sh, 48_000, "0lw1:20:60").contains("plays"));
    assert!(dispatch(&mut sh, 48_000, "0dp1").contains("duplicated as layer 2"));
    assert_eq!(sh.lp(0).body.n_layers, 2);
    assert_eq!(read(&sh, 0, 1, 50, 0), 50.0);
    assert_eq!(sh.lp(0).layer_window(1), Some((20, 60)));
    assert!(dispatch(&mut sh, 48_000, "0lw2:40:80").contains("plays 40..80"));
    assert_eq!(sh.lp(0).layer_window(0), Some((20, 60)), "each layer keeps its own");
    assert!(dispatch(&mut sh, 48_000, "0dp3").contains("not a layer 3"));
    assert!(dispatch(&mut sh, 48_000, "1cp0").contains("copied 2 layers"));
    assert_eq!(sh.lp(1).layer_window(1), Some((40, 80)));
}

#[test]
fn fixing_the_next_take_sizes_an_empty_loop_and_nothing_else() {
    let mut sh = rig(LEN);
    let ack = dispatch(&mut sh, 1000, "1fix0.5");
    assert!(ack.contains("closes itself"), "{}", ack);
    assert_eq!(sh.lp(1).body.loop_len, 500);
    assert_eq!(sh.lp(1).body.n_layers, 0, "sized, not threaded");
    assert!(!sh.lp(1).body.threaded);
    one_layer_loop(&mut sh, 0, 100, 0.25);
    let ack = dispatch(&mut sh, 1000, "0fix0.5");
    assert!(ack.contains("adds one layer of 0.100 s") && ack.contains("not 0.5 s"), "{}", ack);
    assert_eq!(sh.lp(0).body.loop_len, 100, "untouched");
    assert!(sh.lp(0).next.one_pass);
    let ack = dispatch(&mut sh, 1000, "0r");
    assert!(ack.contains("one pass"), "{}", ack);
    assert_eq!(sh.lp(0).next.request_at, i64::MIN, "on the press, not at zero");
    assert!(dispatch(&mut sh, 1000, "2fix2").contains("past --max-secs"));
    assert!(dispatch(&mut sh, 1000, "2fix").contains("wants a length"));
    assert!(dispatch(&mut sh, 1000, "2fix0").contains("wants a length"));
    assert_eq!(sh.lp(2).body.loop_len, 0);
    assert!(!dispatch(&mut sh, 1000, "2f").contains("wants a length"));
}

#[test]
fn a_verb_is_read_whole_with_its_loop_and_its_lateness() {
    let mut sh = rig(LEN);
    let ack = dispatch(&mut sh, 48_000, "3tone3000@250");
    assert!(ack.contains("loop 3") && ack.contains("3.0 kHz"), "ack was: {}", ack);
    assert_eq!(dispatch(&mut sh, 48_000, "3t3000@250"), "no input has arrived yet.");
    assert!(dispatch(&mut sh, 48_000, "2sp0.5@10").contains("x0.5"));
    assert!(dispatch(&mut sh, 48_000, "2s4").contains("nothing to spread"));
    assert!(dispatch(&mut sh, 48_000, "exlriff").contains("nothing"), "exl on an empty rig");
    assert_eq!(dispatch(&mut sh, 48_000, "1size13"), "unknown command \"size13\"");
    assert_eq!(dispatch(&mut sh, 48_000, "size13@100"), "unknown command \"size13\"");
    assert_eq!(dispatch(&mut sh, 48_000, "tx"), "unknown command \"tx\"");
    assert_eq!(dispatch(&mut sh, 48_000, "0x1"), "unknown command \"x1\"");
    assert_eq!(dispatch(&mut sh, 48_000, "0g5"), "unknown command \"g5\"");
    assert_eq!(dispatch(&mut sh, 48_000, "play"), "unknown command \"play\"");
    assert!(dispatch(&mut sh, 48_000, "3tone3000@x").contains("not a lateness"));
    assert_eq!(dispatch(&mut sh, 48_000, "3"), "loop 3 selected.");
    assert_eq!(dispatch(&mut sh, 48_000, ""), "");
    assert_eq!(dispatch(&mut sh, 48_000, "3k1"), "click on.");
    assert_eq!(dispatch(&mut sh, 48_000, "3k1"), "click on.");
    assert_eq!(dispatch(&mut sh, 48_000, "k0"), "click off.");
}

#[test]
fn copying_lands_whole_and_in_phase_on_an_empty_loop_only() {
    let mut sh = rig(LEN);
    one_layer_loop(&mut sh, 0, 100, 0.25);
    lay(&mut sh, 0, 1, 100, 0.5);
    sh.loops[0].body.n_layers = 2;
    sh.loops[0].body.origin = 77;
    assert!(dispatch(&mut sh, 48_000, "0in10").contains("windows"));
    settle(&mut sh, 0);

    let ack = dispatch(&mut sh, 48_000, "2cp0");
    assert!(ack.contains("copied 2 layers"), "{}", ack);
    assert_eq!(sh.lp(2).body.n_layers, 2);
    assert_eq!(sh.lp(2).body.loop_len, 100);
    assert_eq!(sh.lp(2).body.origin, 77, "in phase with the source");
    assert_eq!(read(&sh, 2, 1, 50, 0), 0.5, "the audio came across");
    assert!(sh.lp(2).window().is_none(), "the source's window stays its own");
    assert!(dispatch(&mut sh, 48_000, "2cp0").contains("not empty"));
    assert!(dispatch(&mut sh, 48_000, "3cp0l2").contains("layer 2 of loop 0"));
    assert_eq!(sh.lp(3).body.n_layers, 1);
    assert_eq!(read(&sh, 3, 0, 50, 0), 0.5);
    assert!(dispatch(&mut sh, 48_000, "4cp0l3").contains("not 3"));
    assert!(dispatch(&mut sh, 48_000, "4cp5").contains("nothing to copy"));
    assert!(dispatch(&mut sh, 48_000, "0cp0").contains("itself"));
    assert!(!dispatch(&mut sh, 48_000, "3c").contains("wants a source"));
}

#[test]
fn a_layer_switched_off_leaves_the_mix_and_comes_back_whole() {
    let mut sh = rig(LEN);
    one_layer_loop(&mut sh, 0, 100, 0.5);
    assert_eq!(render_loop(&sh, 0).expect("renders")[0], 0.5);
    assert!(dispatch(&mut sh, 48_000, "0ly10").contains("off"));
    assert!(!sh.lp(0).layer_on(0));
    assert_eq!(render_loop(&sh, 0).expect("still renders")[0], 0.0, "parked, not gone");
    assert!(dispatch(&mut sh, 48_000, "0ly11").contains("on"));
    assert_eq!(render_loop(&sh, 0).expect("renders")[0], 0.5, "back whole");
    assert!(dispatch(&mut sh, 48_000, "0ly20").contains("not a layer"));
    assert!(dispatch(&mut sh, 48_000, "0ly1").contains("wants a layer number"));
}

#[test]
fn a_sparse_layer_renders_where_it_lands() {
    let mut sh = rig(LEN);
    let bar = 100;
    one_layer_loop(&mut sh, 0, bar, 0.5);
    sh.loops[0].body.loop_len = 4 * bar;
    sh.loops[0].layers[0].period = 4;
    sh.loops[0].layers[0].phase = 2;
    let out = render_loop(&sh, 0).expect("renders");
    assert_eq!(out.len(), 4 * bar * CHANNELS, "one cycle, not more");
    let quarter = |q: usize| out[q * bar * CHANNELS];
    assert_eq!(quarter(0), 0.0);
    assert_eq!(quarter(1), 0.0);
    assert_eq!(quarter(2), 0.5, "the third quarter is where it was placed");
    assert_eq!(quarter(3), 0.0);
}

#[test]
fn the_render_ignores_what_only_decides_whether_you_hear_it() {
    let mut sh = rig(LEN);
    one_layer_loop(&mut sh, 0, 100, 0.5);
    sh.loops[0].play.chance = 0.0f32.to_bits();
    sh.loops[0].play.one_shot = true;
    sh.loops[0].play.muted = true;
    let out = render_loop(&sh, 0).expect("renders anyway");
    assert!(out.iter().any(|&v| v != 0.0), "silence would be the bug");

    let mut rng = SmallRng::seed_from_u64(1);
    assert_eq!(loop_at(&mut sh, 0, 0, &mut rng, true), [0.0; CHANNELS]);
}

#[test]
fn half_speed_renders_twice_the_file() {
    let mut sh = rig(LEN);
    one_layer_loop(&mut sh, 0, 100, 0.5);
    sh.loops[0].play.speed = 0.5f64.to_bits();
    let out = render_loop(&sh, 0).expect("renders");
    assert_eq!(out.len(), 200 * CHANNELS);
}

fn spans(a: f64, b: f64) -> Vec<(i64, f32)> {
    let (lo, hi) = if a <= b { (a, b) } else { (b, a) };
    let mut out = Vec::new();
    let mut slot = lo.floor() as i64;
    while (slot as f64) < hi {
        let cover = (((slot + 1) as f64).min(hi) - (slot as f64).max(lo)).max(0.0) as f32;
        if cover > 0.0 {
            out.push((slot, cover));
        }
        slot += 1;
    }
    out
}

#[test]
fn one_input_frame_lands_once_however_fast_the_head_is_moving() {
    assert_eq!(spans(10.0, 11.0), vec![(10, 1.0)]);
    assert_eq!(spans(11.0, 10.0), vec![(10, 1.0)]);
    let first = spans(10.0, 10.5);
    let second = spans(10.5, 11.0);
    assert_eq!(first, vec![(10, 0.5)]);
    assert_eq!(second, vec![(10, 0.5)]);
    let total: f32 = first.iter().chain(second.iter()).map(|(_, w)| w).sum();
    assert!((total - 1.0).abs() < 1e-6, "two frames, one slot's worth");
    assert_eq!(spans(10.0, 12.0), vec![(10, 1.0), (11, 1.0)]);
    assert!(spans(10.0, 10.0).is_empty());
    for (num, den) in [(1, 3), (2, 3), (7, 4), (13, 5)] {
        let step = num as f64 / den as f64;
        for (_, w) in spans(3.25, 3.25 + step) {
            assert!(w <= 1.0 + 1e-6, "weight {} over span {}", w, step);
        }
    }

    // Each slot is one position of the loop, whatever the window makes of it.
    let mut lp = at_origin();
    lp.body.loop_len = 100;
    lp.edit.win_in = 20;
    lp.edit.win_out = 60;
    assert_eq!(lp.write_pos(10, 100), Some(30));
    assert_eq!(lp.write_pos(50, 100), Some(30), "it comes round inside the window");
}

#[test]
fn nothing_recorded_renders_to_nothing() {
    let sh = rig(LEN);
    assert!(render_loop(&sh, 0).is_none());
}

#[test]
fn a_one_channel_source_reads_the_same_input_twice() {
    let s = Source::mono("di", 2);
    assert_eq!(s.ch, [2, 2]);
    assert!(s.is_mono());
    assert_eq!(s.describe(), "di (in 3)");

    let board = Source { name: "board".to_string(), ch: [0, 1], available: true };
    assert!(!board.is_mono());
    assert_eq!(board.describe(), "board (in 1+2)");
}

#[test]
fn clearing_forgets_the_length_and_the_bar_count_together() {
    let mut lp = Loop::new(0, DEFAULT_LAYERS);
    lp.body.loop_len = 4 * 96_000;
    lp.body.cycles = 4;
    lp.take.rec_len = 4 * 96_000;
    lp.take.close_at = 1_234_567;

    lp.cleared();

    assert_eq!(lp.body.loop_len, 0, "kept its length");
    assert_eq!(
        lp.body.cycles, 0,
        "kept its bar count, so the encoder still reads four bars on an \
         empty loop and cannot be turned to four"
    );
    assert_eq!(lp.take.rec_len, 0, "kept an asked-for length");
    assert_eq!(lp.take.close_at, i64::MIN, "kept a timer pointed at a take nobody has played");
    let fresh = Loop::new(0, DEFAULT_LAYERS);
    assert_eq!(lp.body.loop_len, fresh.body.loop_len);
    assert_eq!(lp.body.cycles, fresh.body.cycles);
}

#[test]
fn rate_one_is_the_subtraction_it_always_was() {
    let lp = at_origin();
    for f in [0i64, 1, 999, 1000, 1001, 48_000_000] {
        let p = play_pos(&lp, f, LEN);
        assert_eq!(p, p.floor(), "frame {} landed between samples", f);
        assert_eq!(p as i64, f.rem_euclid(LEN as i64));
    }
    assert!(lp.plain());
}

#[test]
fn half_speed_travels_half_as_far() {
    let mut lp = at_origin();
    adopt(&mut lp, 0, LEN, 0.5, false);
    assert_eq!(play_pos(&lp, 0, LEN), 0.0);
    assert_eq!(play_pos(&lp, 400, LEN), 200.0);
    assert_eq!(play_pos(&lp, 1999, LEN), 999.5);
    assert_eq!(play_pos(&lp, 2000, LEN), 0.0);
    assert!(!lp.plain());
}

#[test]
fn a_negative_rate_walks_backwards_and_reappears_at_the_far_end() {
    let mut lp = at_origin();
    adopt(&mut lp, 0, LEN, -1.0, false);
    assert_eq!(play_pos(&lp, 0, LEN), 0.0);
    assert_eq!(play_pos(&lp, 1, LEN), 999.0);
    assert_eq!(play_pos(&lp, 400, LEN), 600.0);
}

#[test]
fn a_pendulum_reflects_rather_than_wrapping() {
    let mut lp = at_origin();
    adopt(&mut lp, 0, LEN, 1.0, true);
    assert_eq!(play_pos(&lp, 250, LEN), 250.0);
    assert_eq!(play_pos(&lp, 1200, LEN), 800.0);
    assert_eq!(play_pos(&lp, 2000, LEN), 0.0);
    for f in 0..4000i64 {
        let p = play_pos(&lp, f, LEN);
        assert!(p >= 0.0 && p < LEN as f64, "frame {} gave {}", f, p);
    }
}

#[test]
fn changing_speed_does_not_move_the_playhead() {
    for &(from, to) in &[(1.0, 0.5), (1.0, 2.0), (1.0, -1.0), (0.5, -2.0), (-1.5, 0.25), (2.0, 1.0)] {
        for &at in &[1i64, 777, 123_456, 9_999_999] {
            let mut lp = at_origin();
            adopt(&mut lp, 0, LEN, from, false);
            let before = play_pos(&lp, at, LEN);
            adopt(&mut lp, at, LEN, to, false);
            let after = play_pos(&lp, at, LEN);
            assert!(
                (before - after).abs() <= 0.5,
                "x{} -> x{} at {} moved the playhead from {} to {}",
                from,
                to,
                at,
                before,
                after
            );
        }
    }
}

#[test]
fn returning_to_rate_one_makes_a_loop_recordable_again() {
    let mut lp = at_origin();
    adopt(&mut lp, 0, LEN, 0.5, false);
    adopt(&mut lp, 4321, LEN, 1.0, false);
    assert!(lp.plain(), "still carrying an offset after returning to x1");
    let p = play_pos(&lp, 9999, LEN);
    assert_eq!(p, p.floor());
}

#[test]
fn clearing_forgets_every_resolution() {
    let mut lp = at_origin();
    adopt(&mut lp, 0, LEN, -0.25, true);
    lp.plainly();
    assert!(lp.plain());
    assert_eq!(f64::from_bits(lp.speed()), 1.0);
    assert!(!lp.play.pendulum);
}

#[test]
fn a_cleared_slot_has_nobody_s_habits() {
    let mut lp = at_origin();
    adopt(&mut lp, 0, LEN, -0.5, true);
    lp.play.muted = true;
    lp.play.pan = 100;
    lp.play.one_shot = true;
    lp.habit.level_arm = true;
    lp.habit.quant = true;
    lp.play.fade = 250;
    lp.play.decay = 0.5f32.to_bits();
    lp.play.chance = 0.5f32.to_bits();
    lp.play.vol = 0.001f32.to_bits();
    lp.body.n_layers = 3;
    lp.body.loop_len = LEN;

    lp.cleared();

    assert_eq!(f64::from_bits(lp.speed()), 1.0, "speed");
    assert!(!lp.play.pendulum, "pendulum");
    assert!(!lp.play.muted, "muted");
    assert_eq!(lp.play.pan, 64, "pan");
    assert!(!lp.play.one_shot, "one shot");
    assert!(!lp.habit.level_arm, "level arm");
    assert!(!lp.habit.quant, "quantise");
    assert_eq!(lp.play.fade, 0, "fade");
    assert_eq!(f32::from_bits(lp.play.decay), 1.0, "decay");
    assert_eq!(f32::from_bits(lp.play.chance), 1.0, "chance");
    assert_eq!(f32::from_bits(lp.play.vol), 1.0, "level");
    assert_eq!(lp.body.n_layers, 0, "layers");
    assert_eq!(lp.body.loop_len, 0, "length");
}

#[test]
fn a_pass_lasts_as_long_as_the_speed_makes_it() {
    let mut lp = at_origin();
    assert_eq!(lp.pass_frames(LEN), LEN as i64);
    adopt(&mut lp, 0, LEN, 0.5, false);
    assert_eq!(lp.pass_frames(LEN), 2 * LEN as i64, "half speed, twice as long");
    adopt(&mut lp, 0, LEN, 2.0, false);
    assert_eq!(lp.pass_frames(LEN), LEN as i64 / 2);
}

#[test]
fn backwards_takes_just_as_long_and_a_pendulum_takes_twice() {
    let mut lp = at_origin();
    adopt(&mut lp, 0, LEN, -1.0, false);
    assert_eq!(lp.pass_frames(LEN), LEN as i64);
    adopt(&mut lp, 0, LEN, -0.5, true);
    assert_eq!(lp.pass_frames(LEN), 4 * LEN as i64, "there and back at half speed");
}

#[test]
fn a_pass_is_one_trip_through_the_loop_however_long_that_takes() {
    let mut lp = at_origin();
    assert_eq!(pass_index(&lp, 0, LEN), 0);
    assert_eq!(pass_index(&lp, LEN as i64 - 1, LEN), 0);
    assert_eq!(pass_index(&lp, LEN as i64, LEN), 1);
    assert_eq!(pass_index(&lp, -1, LEN), -1);

    adopt(&mut lp, 0, LEN, 0.5, false);
    assert_eq!(pass_index(&lp, 2 * LEN as i64 - 1, LEN), 0);
    assert_eq!(pass_index(&lp, 2 * LEN as i64, LEN), 1);

    let mut sw = at_origin();
    adopt(&mut sw, 0, LEN, 1.0, true);
    assert_eq!(pass_index(&sw, 2 * LEN as i64 - 1, LEN), 0);
    assert_eq!(pass_index(&sw, 2 * LEN as i64, LEN), 1);
}

#[test]
fn a_pass_sounds_as_often_as_the_rung_says() {
    let mut rng = SmallRng::seed_from_u64(0xDEAD_BEEF_CAFE_F00D);
    const N: usize = 40_000;
    for p in [1.0f32, 0.75, 0.5, 0.25, 0.125] {
        let hits = (0..N).filter(|_| mixer::rolled(rng.gen::<u32>(), p.to_bits())).count() as f64 / N as f64;
        assert!(
            (hits - p as f64).abs() < 0.01,
            "at {} it came up {:.4} of the time",
            p,
            hits
        );
    }
}

#[test]
fn a_roll_comes_up_where_the_draw_is_below_the_chance() {
    let mut rng = SmallRng::seed_from_u64(11);
    for p in [1.0f32, 0.75, 0.5, 0.3, 0.125, 1.0e-3, 1.0e-30, 1.0e-42, 0.0, -1.0, 2.0, f32::NAN] {
        for _ in 0..2000 {
            let draw = rng.gen::<u32>();
            let unit = (draw >> 8) as f32 * (1.0 / 16_777_216.0);
            assert_eq!(mixer::rolled(draw, p.to_bits()), unit < p, "{} of {}", unit, p);
        }
    }
}

#[test]
fn every_layer_recedes_from_its_own_beginning() {
    let mut lp = at_origin();
    lp.body.loop_len = LEN;
    lp.play.decay = 10f32.powf(-6.0206 / 20.0).to_bits();
    lp.set_layer_shape(0, Shape { len: LEN, tail: 0, born: 0 });
    lp.set_layer_shape(1, Shape { len: LEN, tail: 0, born: 3 });
    let gain = |lp: &Loop, l: usize| f32::from_bits(lp.layer_gain(l));

    age(&mut lp, 3 * LEN as i64);
    assert!(
        (gain(&lp, 0) - 0.125).abs() < 0.01,
        "three passes old should be an eighth, got {}",
        gain(&lp, 0)
    );
    assert!(
        (gain(&lp, 1) - 1.0).abs() < 0.01,
        "a layer laid this pass enters at full, got {}",
        gain(&lp, 1)
    );

    age(&mut lp, 6 * LEN as i64);
    assert!((gain(&lp, 1) - 0.125).abs() < 0.01);
    assert!(gain(&lp, 0) < gain(&lp, 1));
}

#[test]
fn decay_is_a_resolution_and_undoes_by_being_turned_off() {
    let mut lp = at_origin();
    lp.body.loop_len = LEN;
    lp.set_layer_shape(0, Shape { len: LEN, tail: 0, born: 0 });
    lp.play.decay = 0.5f32.to_bits();
    age(&mut lp, 8 * LEN as i64);
    assert!(f32::from_bits(lp.layer_gain(0)) < 0.01, "should have faded away by now");
    lp.play.decay = 1.0f32.to_bits();
    age(&mut lp, 8 * LEN as i64);
    assert_eq!(f32::from_bits(lp.layer_gain(0)), 1.0, "turning decay off must bring it back");
}

#[test]
fn a_one_shot_sounds_only_inside_its_pass() {
    let mut lp = at_origin();
    lp.play.one_shot = true;
    assert!(!lp.firing(0), "silent before it has ever been fired");
    lp.play.shot_end = 500 + lp.pass_frames(LEN);
    assert!(lp.firing(500));
    assert!(lp.firing(500 + LEN as i64 - 1));
    assert!(!lp.firing(500 + LEN as i64));
    lp.play.one_shot = false;
    assert!(!lp.firing(500));
}

/// The arguments under which every verb is asked for once.
fn spelled(v: Verb) -> Vec<String> {
    ["", "1", "0", "11", "1:0:50", "0.5", "-6", "name"]
        .iter()
        .filter(|a| v.arg().admits(a))
        .map(|a| format!("0{}{}", v.word(), a))
        .collect()
}

#[test]
fn the_table_and_the_match_agree() {
    let words: Vec<&str> = verbs().iter().map(|v| v.word()).collect();
    for (i, w) in words.iter().enumerate() {
        assert!(!words[..i].contains(w), "`{}` is in the table twice", w);
    }
    for v in verbs() {
        let carried = spelled(v).iter().any(|text| {
            let mut sh = rig(LEN);
            one_layer_loop(&mut sh, 0, LOOP, 0.25);
            !dispatch(&mut sh, SR, text).starts_with("unknown command")
        });
        assert!(carried, "`{}` is in the table and has no arm", v.word());
    }
    for w in ["size", "tx", "spread", "alt", "q"] {
        assert!(!words.contains(&w));
        let mut sh = rig(LEN);
        assert!(dispatch(&mut sh, SR, w).starts_with("unknown command"));
    }
}

/// What a loop is doing, from what is held of it.
fn artifact_state(sh: &Shared, li: usize) -> &'static str {
    let lp = sh.lp(li);
    let len = lp.body.loop_len;
    let layers = lp.body.n_layers;
    let waits = lp.next.waits_for_boundary();
    let closes = lp.take.close_at != i64::MIN;
    match lp.phase() {
        Phase::Armed if waits => "armed-by-sound",
        Phase::Armed => "armed-by-level",
        Phase::First if closes => "recording-sized",
        Phase::First => "recording-open",
        Phase::Overdub if closes => "overdubbing-one-pass",
        Phase::Overdub => "overdubbing-open",
        Phase::Multiply => "multiplying",
        Phase::Idle | Phase::Playing if waits => "armed-for-grid",
        Phase::Playing if layers > 0 && lp.body.threaded => "tape",
        Phase::Playing if layers > 0 => "playing",
        Phase::Idle | Phase::Playing if len > 0 => "sized",
        Phase::Idle | Phase::Playing => "empty",
    }
}

fn refusal_tag(ack: &str) -> Option<&'static str> {
    const TABLE: &[(&str, &str)] = &[
        ("has the input", "input-held"),
        ("is swinging", "not-writable"),
        ("is a tape running at", "not-writable"),
        ("is playing at x", "not-plain"),
        ("the ceiling", "at-ceiling"),
        ("finish that first", "still-recording"),
        ("nothing to undo", "nothing-to-undo"),
        ("nothing to multiply", "nothing-to-multiply"),
        ("has something in it", "has-material"),
        ("still playing —", "has-material"),
        ("no length set", "no-length"),
        ("no bar yet", "no-grid"),
    ];
    TABLE.iter().find(|(needle, _)| ack.contains(needle)).map(|(_, tag)| *tag)
}

fn stamp_loop(sh: &mut Shared, li: usize) {
    let now = sh.clock.out_frames;
    stamp::stamp(sh, li, now, STAMP_FRAMES);
}

#[test]
fn the_mapping_reads_sized_from_a_playing_byte() {
    let mut sh = rig(LEN);
    one_layer_loop(&mut sh, 0, LOOP, 0.25);
    sh.loops[0].enter(Phase::Playing);
    assert_eq!(artifact_state(&sh, 0), "playing");
    assert!(dispatch(&mut sh, SR, "0u").contains("Empty now"));
    assert_eq!(sh.lp(0).phase(), Phase::Playing);
    assert_eq!(artifact_state(&sh, 0), "sized");
    assert!(dispatch(&mut sh, SR, "0z").contains("length forgotten"));
    assert_eq!(artifact_state(&sh, 0), "empty");
    assert!(dispatch(&mut sh, SR, "0blank0.1").contains("tape"));
    assert_eq!(artifact_state(&sh, 0), "tape");
}

#[test]
fn claiming_the_past_waits_for_the_take_in_hand() {
    let mut sh = rig(LEN);
    sh.clock.k_set = true;
    dispatch(&mut sh, SR, "0lev1");
    assert!(dispatch(&mut sh, SR, "0r").contains("listening"));
    let ack = dispatch(&mut sh, SR, "0t0.1");
    assert_eq!(refusal_tag(&ack), Some("still-recording"), "{}", ack);
    assert_eq!(sh.lp(0).phase(), Phase::Armed, "the arm stands");
    assert!(dispatch(&mut sh, SR, "0r").contains("stopped listening"), "give the input back");
    sh.link.link_bar_frames = BAR;
    sh.clock.out_frames = NOW;
    dispatch(&mut sh, SR, "1g1");
    assert!(dispatch(&mut sh, SR, "1r").contains("starts on the grid"));
    let ack = dispatch(&mut sh, SR, "1t0.1");
    assert!(ack.contains("waiting for the bar"), "{}", ack);
    assert!(sh.lp(1).next.waits_for_boundary(), "the request stands");
    sh.loops[2].enter(Phase::First);
    assert_eq!(refusal_tag(&dispatch(&mut sh, SR, "2t0.1")), Some("still-recording"));
    assert_eq!(sh.lp(2).phase(), Phase::First);
}

fn layer_state(sh: &Shared, li: usize, slot: usize) -> &'static str {
    let lp = sh.lp(li);
    let n = lp.body.n_layers;
    if lp.is_recording() && slot == n {
        "writing"
    } else if slot < n {
        if lp.layer_on(slot) {
            "sounding"
        } else {
            "off"
        }
    } else if slot < lp.body.redo_to {
        "undone"
    } else {
        "free"
    }
}

#[test]
fn the_mapping_walks_a_slot_through_its_life() {
    let mut sh = rig(LEN);
    sh.clock.out_frames = NOW;
    assert_eq!(layer_state(&sh, 0, 0), "free");
    assert!(dispatch(&mut sh, SR, "0r").contains("recording"));
    stamp_loop(&mut sh, 0);
    assert_eq!(layer_state(&sh, 0, 0), "writing");
    assert_eq!(layer_state(&sh, 0, 1), "free", "only the slot under write is writing");
    sh.loops[0].take.reached = LOOP;
    assert!(dispatch(&mut sh, SR, "0r").contains("committed"));
    assert_eq!(layer_state(&sh, 0, 0), "sounding");
    assert!(dispatch(&mut sh, SR, "0ly10").contains("is off"));
    assert_eq!(layer_state(&sh, 0, 0), "off");
    assert!(dispatch(&mut sh, SR, "0lw1:0:50").contains("plays 0..50"));
    assert!(dispatch(&mut sh, SR, "0u").contains("Empty now"));
    assert_eq!(layer_state(&sh, 0, 0), "undone");
    assert_eq!(sh.lp(0).layer_window(0), Some((0, 50)), "undo keeps the window with the audio");
    assert!(dispatch(&mut sh, SR, "0y").contains("redone"));
    assert_eq!(layer_state(&sh, 0, 0), "off", "back as it was undone");
    assert!(dispatch(&mut sh, SR, "0ly11").contains("is on"));
    assert_eq!(layer_state(&sh, 0, 0), "sounding");
    assert!(dispatch(&mut sh, SR, "0u").contains("Empty now"));
    assert!(dispatch(&mut sh, SR, "0r").contains("recording"));
    stamp_loop(&mut sh, 0);
    assert_eq!(layer_state(&sh, 0, 0), "writing");
    assert_eq!(sh.lp(0).body.redo_to, 0, "the kept take is dropped");
    sh.loops[0].take.reached = LOOP;
    assert!(dispatch(&mut sh, SR, "0r").contains("committed"));
    assert_eq!(layer_state(&sh, 0, 0), "sounding");
    assert_eq!(sh.lp(0).layer_window(0), None, "`set_shape` dropped the window");
}

fn cmds(lines: &[&str]) -> Vec<Command> {
    lines.iter().map(|l| Command { from: Caller::App, line: l.to_string() }).collect()
}

#[test]
fn a_batch_coalesces_pictures_and_nothing_else() {
    let out: Vec<String> = lane::coalesce(cmds(&[
        "0in20", "0pk16", "0in30", "0pk32", "1pk16", "0rot10", "0rot-10", "0pk64@3", "pk8",
    ]))
    .into_iter()
    .map(|c| c.line)
    .collect();
    assert_eq!(out, vec!["0in20", "0in30", "1pk16", "0rot10", "0rot-10", "0pk64@3", "pk8"]);
}

/// One command as the lane runs it, on a clock of its own: what was said.
fn run(sh: &mut Shared, clock: &mut u64, cmd: &Command) -> Vec<String> {
    let mut said = Vec::new();
    for li in lane::touched(sh, &cmd.line) {
        let (_, wait) = lane::hold_for(sh, li, *clock);
        if let Some(ms) = wait {
            *clock += ms;
            if let Some(t) = finish::take_drained(sh, li, *clock) {
                take_back(sh, li, &t);
                let s = finish::finish_take(sh, li, &t);
                said.push(sentence(&s, sh, SR));
            }
        }
    }
    let reading = worked(sh, SR, &cmd.line);
    let late = lateness(SR, &cmd.line);
    match itajara::dispatch::dispatch(sh, &cmd.line, late, &reading, cmd.from, *clock) {
        Ack::Said(s) => said.push(sentence(&s, sh, SR)),
        Ack::Misread(m, t) => said.push(unread(m, &t)),
        _ => {}
    }
    said.retain(|s| !s.is_empty());
    said
}

#[test]
fn a_command_on_a_draining_loop_is_held_until_the_layer_is_laid() {
    let mut sh = rig(1000);
    sh.loops[0].enter(Phase::First);
    sh.loops[0].take.reached = 100;
    sh.clock.out_frames = 100;
    let mut clock: u64 = 0;
    let mut got = Vec::new();
    for cmd in lane::coalesce(cmds(&["0r", "1vol-6", "0u"])) {
        got.extend(run(&mut sh, &mut clock, &cmd));
    }
    assert_eq!(
        got,
        vec![
            "loop 1 plays 6.0 dB down.".to_string(),
            "loop 0 committed: 0.100 s, 1 layer playing.".to_string(),
            "loop 0 layer 1 removed. Empty now, but still 0.100 s long, so the next take lands on the same grid — `0z` to forget the length.".to_string(),
        ]
    );
    assert_eq!(clock, commit::DRAIN_MS);
}

#[test]
fn commands_from_two_producers_are_dispatched_in_each_one_s_order() {
    const N: usize = 40;
    let app = |i: usize| Command { from: Caller::App, line: format!("0vol-{}", i) };
    let console = |i: usize| Command { from: Caller::Console, line: format!("1vol-{}", i) };
    let turns: Vec<Command> = (1..=N).flat_map(|i| [app(i), console(i)]).collect();
    let runs: Vec<Command> = (1..=N).map(app).chain((1..=N).map(console)).collect();
    for batch in [turns, runs] {
        let mut sh = rig(1000);
        let mut clock: u64 = 0;
        let mut got: Vec<String> = Vec::new();
        for cmd in lane::coalesce(batch) {
            got.extend(run(&mut sh, &mut clock, &cmd));
        }
        assert_eq!(got.len(), 2 * N, "an ack for every command");
        let of = |head: &str| -> Vec<f64> {
            got.iter()
                .filter(|a| a.starts_with(head))
                .map(|a| a[head.len()..].split(' ').next().unwrap().parse::<f64>().unwrap())
                .collect()
        };
        for head in ["loop 0 plays ", "loop 1 plays "] {
            let seen = of(head);
            assert_eq!(seen.len(), N, "{}", head);
            assert!(seen.windows(2).all(|w| w[0] < w[1]), "{}: {:?}", head, seen);
        }
        assert_eq!(f32::from_bits(sh.lp(0).play.vol), 10f32.powf(-(N as f32) / 20.0));
    }
}

#[test]
fn exporting_layers_writes_a_take_per_loop_and_one_set_manifest() {
    let mut sh = rig(LEN);
    one_layer_loop(&mut sh, 0, 100, 0.25);
    lay(&mut sh, 0, 1, 100, 0.5);
    sh.loops[0].body.n_layers = 2;
    one_layer_loop(&mut sh, 2, 80, 0.75);
    sh.loops[2].body.n_layers = 1;
    assert!(dispatch(&mut sh, 48_000, "2in10").contains("windows"));
    settle(&mut sh, 2);

    assert_eq!(dispatch(&mut sh, 48_000, "exlriff"), "riff");
    assert_eq!(export::loops_held(&sh), vec![0, 2], "an empty loop gets no folder");
    let mut entries = Vec::new();
    let mut files = Vec::new();
    for li in export::loops_held(&sh) {
        let lp = sh.lp(li);
        let (which, stopped) = export::write_layers(lp, MAX_FRAMES);
        assert_eq!(stopped, None);
        let gains = which.iter().map(|&l| format!("{:.5}", f32::from_bits(lp.layer_gain(l)))).collect();
        let reals = export::Reals {
            secs: format!("{:.6}", lp.body.loop_len as f64 / 48_000.0),
            tempo: "120.0000".to_string(),
            chance: format!("{:.4}", f32::from_bits(lp.chance_of())),
            gains,
        };
        let name = export::name_loop(li);
        for &l in &which {
            files.push(format!("{}/{}", name, export::file_of(l)));
        }
        let take = export::write_take(lp, &which, 48_000, &reals.secs);
        assert!(take.contains("\"version\": 1"), "{}", take);
        assert!(take.contains(&format!("\"loopFrames\": {}", lp.body.loop_len)), "{}", take);
        entries.push(export::write_layer_set(&sh, li, &which, &reals));
    }
    assert_eq!(files, vec!["loop-1/layer-00.wav", "loop-1/layer-01.wav", "loop-3/layer-00.wav"]);
    let m = export::write_manifest(true, 48_000, "4", &entries).expect("something was written");
    assert!(m.contains("\"version\": 2"), "{}", m);
    assert!(m.contains("\"kind\": \"layers\""), "{}", m);
    assert!(m.contains(r#""loop":3"#), "{}", m);
    assert!(m.contains(r#""window":{"in":10,"out":80}"#), "the edit is recorded: {}", m);
    assert!(m.contains(r#""window":null"#), "and its absence: {}", m);
    assert!(m.contains(r#""source":"test""#), "{}", m);
    assert!(m.contains(r#""gain":1.00000"#), "{}", m);
    assert_eq!(sh.lp(2).layer_shape(0).0, 80, "the layer was cropped to the window");
    assert_eq!(dispatch(&mut sh, 48_000, "exriff2"), "riff2");
}

fn acked(sh: &mut Shared, text: &str) -> Ack {
    let reading = worked(sh, SR, text);
    itajara::dispatch::dispatch(sh, text, lateness(SR, text), &reading, Caller::App, 0)
}

fn said(sh: &mut Shared, text: &str) -> Said {
    match acked(sh, text) {
        Ack::Said(s) => s,
        other => panic!("`{}` said {:?}", text, other),
    }
}

fn misread(text: &str) -> (Misread, String) {
    let mut sh = rig(LEN);
    match acked(&mut sh, text) {
        Ack::Misread(m, t) => (m, t),
        other => panic!("`{}` said {:?}", text, other),
    }
}

/// A rig whose input has arrived: `n` frames of it, all of them `v`.
fn fed(n: usize, v: f32) -> Shared {
    let size = Size {
        max_frames: LEN,
        n_loops: DEFAULT_LOOPS,
        max_layers: DEFAULT_LAYERS,
        fixed_frames: 0,
        ring_len: 2000,
        max_fade: 8,
        claim_frames: 100,
    };
    let start = Start {
        click: false,
        monitor: false,
        preroll: 0,
        arm_thresh: 0.01f32.to_bits(),
        arm_reach: 0,
    };
    let mut sh = Shared::new(size, vec![Source::mono("test", 0)], start);
    sh.clock.p0_needed = false;
    sh.clock.k = 0;
    sh.clock.k_set = true;
    for at in 0..n {
        for ch in 0..CHANNELS {
            sh.ring[0][2 * (at % 2000) + ch] = v.to_bits();
        }
    }
    sh.clock.in_frames = n;
    sh.clock.out_frames = n;
    sh
}

#[test]
fn what_cannot_be_read_is_said_by_its_kind() {
    let cases = [
        ("r@soon", Misread::Lateness, "soon"),
        ("99999999999999999999r", Misread::LoopNumber, "99999999999999999999"),
        ("0tone-", Misread::Tone, "-"),
        ("0src-", Misread::Source, "-"),
        ("0sp-", Misread::Speed, "-"),
        ("0s-", Misread::Count, "s-"),
        ("0ly", Misread::LayerSwitch, "ly"),
        ("0lw", Misread::LayerWindow, "lw"),
        ("0dp", Misread::Duplicate, "dp"),
        ("0lq-", Misread::Beats, "lq-"),
        ("0fix", Misread::FixLength, "fix"),
        ("0len", Misread::Bars, "len"),
        ("0ph-", Misread::Slot, "ph-"),
        ("0cp", Misread::Copy, "cp"),
        ("0blank0", Misread::TapeLength, "0"),
        ("0blank", Misread::Tape, ""),
        ("0fb-", Misread::Feedback, "-"),
        ("0dec-", Misread::Decay, "-"),
        ("0xf-", Misread::Fade, "-"),
        ("0ch-", Misread::Chance, "-"),
        ("0arm-", Misread::ArmLevel, "-"),
        ("0vol-", Misread::Level, "-"),
        ("0pan-", Misread::Pan, "-"),
        ("0qq", Misread::Unknown, "qq"),
    ];
    for (text, want, part) in cases {
        let (got, t) = misread(text);
        assert_eq!(got, want, "{}", text);
        assert_eq!(t, part, "{}", text);
    }
}

#[test]
fn a_window_that_cannot_be_read_or_played_changes_nothing() {
    let mut sh = rig(LEN);
    let s = said(&mut sh, "0in10");
    assert!(matches!(s, Said::NoLengthToWindow { li: 0 }), "{:?}", s);
    let s = said(&mut sh, "0rot5");
    assert!(matches!(s, Said::NothingToRotate { li: 0 }), "{:?}", s);
    let s = said(&mut sh, "0pk");
    assert!(matches!(s, Said::NothingToDraw { li: 0 }), "{:?}", s);
    one_layer_loop(&mut sh, 0, 100, 0.5);
    assert!(matches!(acked(&mut sh, "0in-"), Ack::Misread(Misread::Position, _)));
    assert!(matches!(acked(&mut sh, "0rot"), Ack::Misread(Misread::Rotation, _)));
    let s = said(&mut sh, "0in-101");
    assert!(matches!(s, Said::WindowReach { li: 0, len: 100, asked: -101 }), "{:?}", s);
    let s = said(&mut sh, "0out201");
    assert!(matches!(s, Said::WindowReach { li: 0, len: 100, asked: 201 }), "{:?}", s);
    let s = said(&mut sh, "0in100");
    assert!(matches!(s, Said::WindowOrder { li: 0, from: 100, to: 100 }), "{:?}", s);
    assert_eq!(sh.loops[0].window(), None);
    assert!(!sh.loops[0].edit.pend_set);
    let s = said(&mut sh, "0in-20");
    assert!(matches!(s, Said::Windows { li: 0, from: -20, to: 100, len: 100, padded: true }), "{:?}", s);
    let s = said(&mut sh, "0rot-1");
    assert!(matches!(s, Said::Rotated { li: 0, next: 119, by: -1 }), "{:?}", s);
    let s = said(&mut sh, "0in0");
    assert!(matches!(s, Said::WholeAgain { li: 0 }), "{:?}", s);
    let s = said(&mut sh, "0win");
    assert!(matches!(s, Said::WholeAgain { li: 0 }), "{:?}", s);
    let s = said(&mut sh, "0pk");
    assert!(matches!(s, Said::Drawn { li: 0, buckets: 600, len: 100 }), "{:?}", s);
    let s = said(&mut sh, "0pk1");
    assert!(matches!(s, Said::Drawn { li: 0, buckets: 16, len: 100 }), "{:?}", s);
    let s = said(&mut sh, "0pk9999");
    assert!(matches!(s, Said::Drawn { li: 0, buckets: 4000, len: 100 }), "{:?}", s);
}

#[test]
fn a_loop_that_is_not_there_is_not_addressed() {
    let mut sh = rig(LEN);
    let s = said(&mut sh, "9r");
    assert!(matches!(s, Said::LoopCount { n_loops: DEFAULT_LOOPS }), "{:?}", s);
    let s = said(&mut sh, "2");
    assert!(matches!(s, Said::Selected { li: 2 }), "{:?}", s);
    let s = said(&mut sh, "h");
    assert!(matches!(s, Said::Halted { li: 2, on: true }), "{:?}", s);
    let s = said(&mut sh, "h");
    assert!(matches!(s, Said::Halted { li: 2, on: false }), "{:?}", s);
    let s = said(&mut sh, "h1");
    assert!(matches!(s, Said::Halted { li: 2, on: false }), "{:?}", s);
    let s = said(&mut sh, "0h0");
    assert!(matches!(s, Said::Halted { li: 0, on: true }), "{:?}", s);
    assert!(matches!(acked(&mut sh, ""), Ack::Nothing));
}

#[test]
fn one_loop_records_at_a_time() {
    let mut sh = rig(LEN);
    let s = said(&mut sh, "0r");
    assert!(matches!(s, Said::FirstTake { li: 0 }), "{:?}", s);
    stamp_loop(&mut sh, 0);
    let s = said(&mut sh, "1r");
    assert!(matches!(s, Said::InputHeld { other: 0, phase: Phase::First }), "{:?}", s);
    assert_eq!(sh.loops[1].state, Phase::Idle);
    assert_eq!(sh.loops[1].next.request, 0);
    assert_eq!(sh.loops[0].state, Phase::First);
    let s = said(&mut sh, "0u");
    assert!(matches!(s, Said::Recording { li: 0 }), "{:?}", s);
    let s = said(&mut sh, "0src1");
    assert!(matches!(s, Said::SourceMidTake { li: 0 }), "{:?}", s);
    let s = said(&mut sh, "0sp2");
    assert!(matches!(s, Said::SpeedMidTake { li: 0 }), "{:?}", s);
    let s = said(&mut sh, "1cp0");
    assert!(matches!(s, Said::SourceRecording { src: 0 }), "{:?}", s);
    let s = said(&mut sh, "0cp1");
    assert!(matches!(s, Said::TargetRecording { li: 0 }), "{:?}", s);
    assert_eq!(sh.recording_loop(), Some(0));
}

#[test]
fn a_loop_that_swings_or_is_full_is_not_recorded_over() {
    let mut sh = rig(LEN);
    one_layer_loop(&mut sh, 0, 100, 0.5);
    sh.loops[0].play.pendulum = true;
    let s = said(&mut sh, "0r");
    assert!(matches!(s, Said::Swinging { li: 0 }), "{:?}", s);
    sh.loops[0].play.pendulum = false;
    sh.loops[0].play.speed = 2.0f64.to_bits();
    let s = said(&mut sh, "0x");
    assert!(matches!(s, Said::NotPlain { li: 0, .. }), "{:?}", s);
    sh.loops[0].habit.revox = true;
    let s = said(&mut sh, "0r");
    assert!(matches!(s, Said::TapeSpeed { li: 0, .. }), "{:?}", s);
    sh.loops[0].habit.revox = false;
    sh.loops[0].play.speed = 1.0f64.to_bits();
    sh.loops[0].body.n_layers = DEFAULT_LAYERS;
    let s = said(&mut sh, "0r");
    assert!(matches!(s, Said::Ceiling { li: 0, max_layers: DEFAULT_LAYERS }), "{:?}", s);
    let s = said(&mut sh, "1x");
    assert!(matches!(s, Said::NothingToMultiply { li: 1 }), "{:?}", s);
    sh.loops[2].body.loop_len = 100;
    sh.loops[2].play.speed = 2.0f64.to_bits();
    let s = said(&mut sh, "2r");
    assert!(matches!(s, Said::NotPlain { li: 2, .. }), "a first take wants rate one: {:?}", s);
}

#[test]
fn a_press_that_waits_for_the_grid_is_placed_on_it() {
    let mut sh = rig(LEN);
    one_layer_loop(&mut sh, 0, 100, 0.5);
    sh.loops[0].enter(Phase::Playing);
    sh.loops[0].body.cycles = 1;
    sh.desk.anchor = 0;
    sh.clock.out_frames = 130;
    let s = said(&mut sh, "1g1");
    assert!(matches!(s, Said::FollowsLoop { li: 1, bar: 100, anchor: 0 }), "{:?}", s);
    let s = said(&mut sh, "1r");
    assert!(matches!(s, Said::StartsOnGrid { li: 1, wait: 70 }), "{:?}", s);
    assert_eq!(sh.loops[1].next.request_at, 200);
    let s = said(&mut sh, "1g0");
    assert!(matches!(s, Said::Free { li: 1 }), "{:?}", s);
    let mut empty = rig(LEN);
    let s = said(&mut empty, "1g1");
    assert!(matches!(s, Said::NoGridYet { li: 1 }), "{:?}", s);
}

#[test]
fn listening_is_taken_back_by_the_next_press() {
    let mut sh = rig(LEN);
    let s = said(&mut sh, "0lev1");
    assert!(matches!(s, Said::WaitsForSound { li: 0 }), "{:?}", s);
    let s = said(&mut sh, "0r");
    assert!(matches!(s, Said::NowListening { li: 0 }), "{:?}", s);
    assert_eq!(sh.loops[0].state, Phase::Armed);
    let s = said(&mut sh, "0u");
    assert!(matches!(s, Said::Listening { li: 0 }), "{:?}", s);
    let s = said(&mut sh, "0r");
    assert!(matches!(s, Said::StoppedListening { li: 0 }), "{:?}", s);
    assert_eq!(sh.loops[0].state, Phase::Idle);
    let s = said(&mut sh, "0lev0");
    assert!(matches!(s, Said::OnThePress { li: 0 }), "{:?}", s);
}

#[test]
fn an_undo_is_taken_back_and_a_new_take_forgets_it() {
    let mut sh = rig(LEN);
    let s = said(&mut sh, "0u");
    assert!(matches!(s, Said::NothingToUndo { li: 0 }), "{:?}", s);
    let s = said(&mut sh, "0y");
    assert!(matches!(s, Said::NothingToRedo { li: 0 }), "{:?}", s);
    one_layer_loop(&mut sh, 0, 100, 0.25);
    lay(&mut sh, 0, 1, 100, 0.5);
    sh.loops[0].body.redo_to = 2;
    sh.loops[0].enter(Phase::Playing);
    let s = said(&mut sh, "0y");
    assert!(matches!(s, Said::AtLastTake { li: 0 }), "{:?}", s);
    let s = said(&mut sh, "0u");
    assert!(matches!(s, Said::Removed { li: 0, layer: 2, left: 1 }), "{:?}", s);
    let s = said(&mut sh, "0u");
    assert!(matches!(s, Said::EmptyNow { li: 0, len: 100 }), "{:?}", s);
    assert_eq!(sh.loops[0].body.loop_len, 100);
    let s = said(&mut sh, "0y");
    assert!(matches!(s, Said::Redone { li: 0, n: 1 }), "{:?}", s);
    let s = said(&mut sh, "0y");
    assert!(matches!(s, Said::Redone { li: 0, n: 2 }), "{:?}", s);
    assert_eq!(read(&sh, 0, 1, 7, 0), 0.5);
    let s = said(&mut sh, "0u");
    assert!(matches!(s, Said::Removed { .. }), "{:?}", s);
    let s = said(&mut sh, "0r");
    assert!(matches!(s, Said::Overdubbing { li: 0, layer: 2 }), "{:?}", s);
    let s = said(&mut sh, "0y");
    assert!(matches!(s, Said::AtLastTake { li: 0 }), "{:?}", s);
    assert_eq!(read(&sh, 0, 1, 7, 0), 0.0, "what it will write over is silent");
}

#[test]
fn a_length_is_let_go_only_when_nothing_plays() {
    let mut sh = rig(LEN);
    let s = said(&mut sh, "0z");
    assert!(matches!(s, Said::NoLengthSet), "{:?}", s);
    one_layer_loop(&mut sh, 0, 100, 0.5);
    let s = said(&mut sh, "0z");
    assert!(matches!(s, Said::StillPlaying { n: 1 }), "{:?}", s);
    sh.loops[0].body.n_layers = 0;
    let s = said(&mut sh, "0z");
    assert!(matches!(s, Said::LengthForgotten { was: 100 }), "{:?}", s);
    assert_eq!(sh.loops[0].body.loop_len, 0);
}

#[test]
fn a_layer_is_spread_moved_placed_and_filled() {
    let mut sh = rig(LEN);
    let s = said(&mut sh, "0s4");
    assert!(matches!(s, Said::NothingToSpread), "{:?}", s);
    let s = said(&mut sh, "0o");
    assert!(matches!(s, Said::NothingToMove), "{:?}", s);
    let s = said(&mut sh, "0d");
    assert!(matches!(s, Said::NothingToFill), "{:?}", s);
    let s = said(&mut sh, "0ph1");
    assert!(matches!(s, Said::NothingToPlace), "{:?}", s);
    one_layer_loop(&mut sh, 0, 100, 0.5);
    let s = said(&mut sh, "0o");
    assert!(matches!(s, Said::AlreadyEverywhere), "{:?}", s);
    let s = said(&mut sh, "0ph1");
    assert!(matches!(s, Said::OneSlot { li: 0, layer: 0 }), "{:?}", s);
    let s = said(&mut sh, "0s0");
    assert!(matches!(s, Said::EveryRange { asked: 0 }), "{:?}", s);
    let s = said(&mut sh, "0s33");
    assert!(matches!(s, Said::EveryRange { asked: 33 }), "{:?}", s);
    let s = said(&mut sh, "0s4");
    assert!(matches!(s, Said::OnceEvery { layer: 0, period: 4, slot: 0 }), "{:?}", s);
    let s = said(&mut sh, "0o");
    assert!(matches!(s, Said::Moved { layer: 0, slot: 1, period: 4 }), "{:?}", s);
    let s = said(&mut sh, "0ph8");
    assert!(matches!(s, Said::OnSlot { layer: 0, slot: 3, period: 4 }), "{:?}", s);
    assert_eq!(sh.loops[0].layer_pos(0, 300 + 7), Some(7), "it sounds in the fourth slot");
    assert_eq!(sh.loops[0].layer_pos(0, 7), None, "and in no other");
    let s = said(&mut sh, "0d");
    assert!(matches!(s, Said::EveryTimeAgain { layer: 0 }), "{:?}", s);
    let s = said(&mut sh, "0s1");
    assert!(matches!(s, Said::EveryTime { layer: 0 }), "{:?}", s);
    sh.loops[0].layers[0].len = 0;
    let s = said(&mut sh, "0s4");
    assert!(matches!(s, Said::LayerHasNoLength), "{:?}", s);
}

#[test]
fn a_loop_is_said_to_be_so_many_bars() {
    let mut sh = rig(LEN);
    let s = said(&mut sh, "0len0");
    assert!(matches!(s, Said::BarsRange { asked: 0 }), "{:?}", s);
    let s = said(&mut sh, "0len33");
    assert!(matches!(s, Said::BarsRange { asked: 33 }), "{:?}", s);
    let s = said(&mut sh, "0len4");
    assert!(matches!(s, Said::NoBarYet), "{:?}", s);
    one_layer_loop(&mut sh, 0, 100, 0.5);
    sh.loops[0].enter(Phase::Playing);
    sh.desk.anchor = 0;
    let s = said(&mut sh, "0len1");
    assert!(matches!(s, Said::BarsDeclared { li: 0, bars: 1, len: 100 }), "{:?}", s);
    let s = said(&mut sh, "1len3");
    assert!(matches!(s, Said::BarsSized { li: 1, bars: 3, len: 300 }), "{:?}", s);
    let s = said(&mut sh, "2len32");
    assert!(matches!(s, Said::BarsPast { bars: 32, len: 3200, max_frames: LEN }), "{:?}", s);
    lay(&mut sh, 1, 0, 250, 0.5);
    let s = said(&mut sh, "1len4");
    assert!(matches!(s, Said::BarsResized { li: 1, bars: 4, len: 400 }), "{:?}", s);
    let s = said(&mut sh, "1len2");
    assert!(matches!(s, Said::LayerTooLong { li: 1, longest: 250, bars: 2, len: 200 }), "{:?}", s);
}

#[test]
fn a_copy_that_cannot_land_says_why() {
    let mut sh = rig(LEN);
    one_layer_loop(&mut sh, 0, 100, 0.5);
    one_layer_loop(&mut sh, 1, 100, 0.5);
    let s = said(&mut sh, "2cp9");
    assert!(matches!(s, Said::NoLoop { src: 9 }), "{:?}", s);
    let s = said(&mut sh, "0cp0");
    assert!(matches!(s, Said::OntoItself { li: 0 }), "{:?}", s);
    let s = said(&mut sh, "0cp2");
    assert!(matches!(s, Said::NothingToCopy { src: 2 }), "{:?}", s);
    let s = said(&mut sh, "1cp0");
    assert!(matches!(s, Said::NotEmpty { li: 1 }), "{:?}", s);
    let s = said(&mut sh, "2cp0l5");
    assert!(matches!(s, Said::CopyNoLayer { src: 0, n: 1, .. }), "{:?}", s);
    let s = said(&mut sh, "2cp0");
    assert!(matches!(s, Said::Copied { n: 1, src: 0, li: 2 }), "{:?}", s);
    assert_eq!(read(&sh, 2, 0, 42, 1), 0.5);
}

#[test]
fn what_is_set_of_a_layer_needs_a_layer() {
    let mut sh = rig(LEN);
    let s = said(&mut sh, "0ly11");
    assert!(matches!(s, Said::NoSuchLayer { li: 0, n: 0, .. }), "{:?}", s);
    one_layer_loop(&mut sh, 0, 100, 0.5);
    let s = said(&mut sh, "0ly10");
    assert!(matches!(s, Said::LayerIs { li: 0, layer: 1, on: false }), "{:?}", s);
    assert!(matches!(acked(&mut sh, "0lw1:x:y"), Ack::Misread(Misread::TwoFrames, _)));
    assert!(matches!(acked(&mut sh, "0lw1:2"), Ack::Misread(Misread::LayerWindowShape, _)));
    let s = said(&mut sh, "0lw1:20:20");
    assert!(matches!(s, Said::LayerWindowBad { li: 0, layer: 1 }), "{:?}", s);
    let s = said(&mut sh, "0lw1:10:60");
    assert!(matches!(s, Said::LayerPlays { li: 0, layer: 1, from: 10, to: 60, len: 100 }), "{:?}", s);
    let s = said(&mut sh, "0lw1");
    assert!(matches!(s, Said::LayerWhole { li: 0, layer: 1 }), "{:?}", s);
    let s = said(&mut sh, "0dp1");
    assert!(matches!(s, Said::Duplicated { li: 0, layer: 1, copy: 2 }), "{:?}", s);
    assert_eq!(read(&sh, 0, 1, 3, 0), 0.5);
    sh.loops[0].body.n_layers = DEFAULT_LAYERS;
    let s = said(&mut sh, "0dp1");
    assert!(matches!(s, Said::LayersFull { li: 0, max_layers: DEFAULT_LAYERS }), "{:?}", s);
}

#[test]
fn knobs_turn_inside_their_range() {
    let mut sh = rig(LEN);
    let s = said(&mut sh, "0vol1");
    assert!(matches!(s, Said::LevelGain { .. }), "{:?}", s);
    let s = said(&mut sh, "0vol-61");
    assert!(matches!(s, Said::LevelRange { .. }), "{:?}", s);
    let s = said(&mut sh, "0vol-6");
    assert!(matches!(s, Said::Level { li: 0 }), "{:?}", s);
    assert_eq!(f32::from_bits(sh.loops[0].play.vol), db_to_gain(-6.0, true));
    let s = said(&mut sh, "0dec1");
    assert!(matches!(s, Said::DecayGain { .. }), "{:?}", s);
    let s = said(&mut sh, "0dec-61");
    assert!(matches!(s, Said::DecayRange { .. }), "{:?}", s);
    let s = said(&mut sh, "0dec-3");
    assert!(matches!(s, Said::Decay { li: 0 }), "{:?}", s);
    let s = said(&mut sh, "0fb1");
    assert!(matches!(s, Said::FeedbackGain { .. }), "{:?}", s);
    let s = said(&mut sh, "0fb-61");
    assert!(matches!(s, Said::FeedbackRange { .. }), "{:?}", s);
    let s = said(&mut sh, "0fb-3");
    assert!(matches!(s, Said::Feedback { li: 0 }), "{:?}", s);
    let s = said(&mut sh, "0xf501");
    assert!(matches!(s, Said::FadeRange { .. }), "{:?}", s);
    let s = said(&mut sh, "0ch2");
    assert!(matches!(s, Said::ChanceRange { .. }), "{:?}", s);
    let s = said(&mut sh, "0ch0.5");
    assert!(matches!(s, Said::Odds { li: 0, .. }), "{:?}", s);
    let s = said(&mut sh, "0sp5");
    assert!(matches!(s, Said::SpeedRange { .. }), "{:?}", s);
    let s = said(&mut sh, "0sp0.1");
    assert!(matches!(s, Said::SpeedRange { .. }), "{:?}", s);
    let s = said(&mut sh, "0sp-2");
    assert!(matches!(s, Said::Speed { li: 0, .. }), "{:?}", s);
    let s = said(&mut sh, "0src9");
    assert!(matches!(s, Said::NoSource { sources: 1, asked: 9 }), "{:?}", s);
    let s = said(&mut sh, "0src1");
    assert!(matches!(s, Said::RecordsFrom { li: 0, source: 0 }), "{:?}", s);
    let s = said(&mut sh, "0pan127");
    assert!(matches!(s, Said::Panned { li: 0, pan: 127 }), "{:?}", s);
    let s = said(&mut sh, "0mono1");
    assert!(matches!(s, Said::Folds { li: 0, on: true }), "{:?}", s);
    let s = said(&mut sh, "0lq65");
    assert!(matches!(s, Said::LaunchRange { asked: 65 }), "{:?}", s);
    let s = said(&mut sh, "0lq0");
    assert!(matches!(s, Said::LaunchNow), "{:?}", s);
    let s = said(&mut sh, "0lq-1");
    assert!(matches!(s, Said::LaunchBar), "{:?}", s);
    let s = said(&mut sh, "0lq4");
    assert!(matches!(s, Said::LaunchBeats { beats: 4 }), "{:?}", s);
    let s = said(&mut sh, "0rev1");
    assert!(matches!(s, Said::PlaysWay { li: 0, back: true, .. }), "{:?}", s);
    let s = said(&mut sh, "0pend1");
    assert!(matches!(s, Said::Swings { li: 0, on: true }), "{:?}", s);
    let s = said(&mut sh, "0one1");
    assert!(matches!(s, Said::OneShot { li: 0, on: true }), "{:?}", s);
    let s = said(&mut sh, "k1");
    assert!(matches!(s, Said::Click { on: true }), "{:?}", s);
    let s = said(&mut sh, "m0");
    assert!(matches!(s, Said::Monitoring { on: false }), "{:?}", s);
    let s = said(&mut sh, "0p");
    assert!(matches!(s, Said::Show { li: 0 }), "{:?}", s);
    let s = said(&mut sh, "!lose");
    assert!(matches!(s, Said::DeviceLost), "{:?}", s);
    assert!(sh.clock.device_lost);
}

#[test]
fn a_one_shot_fires_and_nothing_else_does() {
    let mut sh = rig(LEN);
    let s = said(&mut sh, "0f");
    assert!(matches!(s, Said::NothingToFire { li: 0 }), "{:?}", s);
    one_layer_loop(&mut sh, 0, 100, 0.5);
    sh.loops[0].enter(Phase::Playing);
    let s = said(&mut sh, "0f");
    assert!(matches!(s, Said::NotOneShot { li: 0 }), "{:?}", s);
    sh.loops[0].play.one_shot = true;
    let s = said(&mut sh, "0f");
    assert!(matches!(s, Said::Fires { li: 0 }), "{:?}", s);
}

#[test]
fn a_tempo_is_taken_from_a_loop_that_says_its_bars() {
    let mut sh = rig(LEN);
    let s = said(&mut sh, "0bpm");
    assert!(matches!(s, Said::NoTempo { li: 0 }), "{:?}", s);
    one_layer_loop(&mut sh, 0, 100, 0.5);
    let s = said(&mut sh, "0bpm");
    assert!(matches!(s, Said::NoBars { li: 0 }), "{:?}", s);
    sh.loops[0].body.cycles = 2;
    let s = said(&mut sh, "0bpm");
    assert!(matches!(s, Said::TempoFrom { li: 0, len: 100, bars: 2, .. }), "{:?}", s);
    let s = said(&mut sh, "play1");
    assert!(matches!(s, Said::Transport { on: true }), "{:?}", s);
}

#[test]
fn everything_starts_together_or_says_that_nothing_can() {
    let mut sh = rig(LEN);
    let s = said(&mut sh, "go");
    assert!(matches!(s, Said::NothingToStart { busy: false }), "{:?}", s);
    one_layer_loop(&mut sh, 0, 100, 0.5);
    one_layer_loop(&mut sh, 1, 80, 0.5);
    sh.loops[0].enter(Phase::Playing);
    sh.loops[1].enter(Phase::Playing);
    let s = said(&mut sh, "go");
    assert!(matches!(s, Said::Started { n: 2, wait: None, busy: 0 }), "{:?}", s);
}

#[test]
fn a_tape_is_threaded_only_where_there_is_nothing() {
    let mut sh = rig(LEN);
    one_layer_loop(&mut sh, 0, 100, 0.5);
    let s = said(&mut sh, "0blank0.5");
    assert!(matches!(s, Said::HasMaterial { li: 0 }), "{:?}", s);
    let s = said(&mut sh, "1blank9");
    assert!(matches!(s, Said::TapePast { .. }), "{:?}", s);
    let s = said(&mut sh, "1blank0.3");
    assert!(matches!(s, Said::Threaded { li: 1, len: 300, .. }), "{:?}", s);
    assert_eq!(sh.loops[1].body.loop_len, 300);
    assert!(sh.loops[1].body.threaded);
    let s = said(&mut sh, "1c");
    assert!(matches!(s, Said::Cleared { li: 1 }), "{:?}", s);
    assert_eq!(sh.loops[1].body.loop_len, 0);
    sh.size.fixed_frames = 500;
    let s = said(&mut sh, "1c");
    assert!(matches!(s, Said::ClearedTape { li: 1, len: 500 }), "{:?}", s);
    sh.size.fixed_frames = 0;
    let s = said(&mut sh, "0rvx1");
    assert!(matches!(s, Said::TapeNow { li: 0, .. }), "{:?}", s);
    let s = said(&mut sh, "0rvx0");
    assert!(matches!(s, Said::LayersAgain { li: 0 }), "{:?}", s);
    let s = said(&mut sh, "0c");
    assert!(matches!(s, Said::Cleared { li: 0 }), "{:?}", s);
}

#[test]
fn folding_makes_one_layer_of_what_was_heard() {
    let mut sh = rig(LEN);
    one_layer_loop(&mut sh, 0, 100, 0.25);
    lay(&mut sh, 0, 1, 100, 0.5);
    sh.loops[0].enter(Phase::Playing);
    let s = said(&mut sh, "0rvx1");
    assert!(matches!(s, Said::TapeNow { li: 0, folded: 2 }), "{:?}", s);
    assert_eq!(sh.loops[0].body.n_layers, 1);
    assert_eq!(read(&sh, 0, 0, 10, 0), 0.75);
}

#[test]
fn a_tape_is_heard_as_its_layers_were() {
    let heard = |sh: &Shared| -> Vec<[f32; CHANNELS]> {
        (0..100).map(|p| mix_at(sh, 0, sh.loops[0].body.n_layers, p, true)).collect()
    };
    let stacks: [fn(&mut Shared); 5] = [
        |sh| {
            // A short layer that sounds in the second of its four slots.
            lay(sh, 0, 1, 25, 0.5);
            sh.loops[0].layers[1].period = 4;
            sh.loops[0].layers[1].phase = 1;
        },
        |sh| {
            lay(sh, 0, 1, 100, 0.5);
            sh.loops[0].layers[1].win_in = 60;
            sh.loops[0].layers[1].win_out = 140;
        },
        |sh| {
            lay(sh, 0, 1, 100, 0.5);
            sh.loops[0].layers[0].on = false;
            sh.loops[0].layers[1].gain = 0.25f32.to_bits();
        },
        |sh| sh.loops[0].layers[0].gain = 0.5f32.to_bits(),
        |sh| {
            sh.loops[0].layers[0].win_in = 80;
            sh.loops[0].layers[0].win_out = 120;
        },
    ];
    for stack in stacks {
        let mut sh = rig(LEN);
        one_layer_loop(&mut sh, 0, 100, 0.25);
        stack(&mut sh);
        sh.loops[0].enter(Phase::Playing);
        let before = heard(&sh);
        assert!(before.iter().any(|f| f[0] != 0.25), "not a plain layer");
        said(&mut sh, "0rvx1");
        assert_eq!(sh.loops[0].body.n_layers, 1);
        assert_eq!(heard(&sh), before);
    }
}

#[test]
fn the_past_is_claimed_as_a_loop_and_then_as_a_layer() {
    let mut silent = rig(LEN);
    let s = said(&mut silent, "0t");
    assert!(matches!(s, Said::NoInputYet), "{:?}", s);
    let mut early = fed(50, 0.5);
    let s = said(&mut early, "0t0.1");
    assert!(matches!(s, Said::BeforeStart), "{:?}", s);
    let mut sh = fed(500, 0.5);
    let s = said(&mut sh, "0t0.2");
    assert!(matches!(s, Said::TookLoop { li: 0, len: 200, got: 200, layers: 1 }), "{:?}", s);
    assert_eq!(sh.loops[0].body.origin, 300);
    assert_eq!(sh.loops[0].state, Phase::Playing);
    assert_eq!(read(&sh, 0, 0, 0, 0), 0.5);
    assert_eq!(read(&sh, 0, 0, 199, 1), 0.5);
    let s = said(&mut sh, "0t");
    assert!(matches!(s, Said::TookLayer { li: 0, len: 200, got: 200, layers: 2 }), "{:?}", s);
    sh.loops[1].body.loop_len = 600;
    let s = said(&mut sh, "1t");
    assert!(matches!(s, Said::NoCycleYet { li: 1 }), "{:?}", s);
    sh.loops[0].edit.win_in = 10;
    sh.loops[0].edit.win_out = 90;
    let s = said(&mut sh, "0t");
    assert!(matches!(s, Said::WindowFirst { li: 0 }), "{:?}", s);
}

#[test]
fn a_claim_takes_the_default_length_where_none_is_said() {
    let mut sh = fed(500, 0.5);
    let s = said(&mut sh, "0t");
    assert!(matches!(s, Said::TookLoop { li: 0, len: 100, got: 100, layers: 1 }), "{:?}", s);
}

#[test]
fn what_the_past_no_longer_holds_is_not_claimed() {
    let mut sh = fed(500, 0.5);
    sh.clock.out_frames = 5000;
    sh.clock.in_frames = 5000;
    for at in 3000..5000 {
        sh.ring[0][2 * (at % 2000)] = 0.25f32.to_bits();
        sh.ring[0][2 * (at % 2000) + 1] = 0.25f32.to_bits();
    }
    let s = said(&mut sh, "0t0.2@4500");
    assert!(matches!(s, Said::PastTooShort), "{:?}", s);
    let s = said(&mut sh, "0t0.2");
    assert!(matches!(s, Said::TookLoop { li: 0, len: 200, .. }), "{:?}", s);
    assert_eq!(read(&sh, 0, 0, 0, 0), 0.25);
}

#[test]
fn a_multiply_starts_at_the_top_of_its_cycle() {
    let mut sh = fed(500, 0.5);
    one_layer_loop(&mut sh, 0, 100, 0.25);
    sh.loops[0].enter(Phase::Playing);
    sh.clock.out_frames = 430;
    let s = said(&mut sh, "0x");
    assert!(matches!(s, Said::Multiplying { li: 0, behind: 30, recovered: 30 }), "{:?}", s);
    assert_eq!(sh.loops[0].state, Phase::Multiply);
    assert_eq!(sh.loops[0].take.rec_from, 400);
    assert_eq!(read(&sh, 0, 1, 29, 0), 0.5, "what had gone by of the cycle came from the past");
    assert_eq!(read(&sh, 0, 1, 30, 0), 0.0);
    sh.clock.out_frames = 590;
    let s = said(&mut sh, "0x");
    assert!(matches!(s, Said::MultiplyEndsOnBoundary { li: 0, wait: 10, cycles: 2 }), "{:?}", s);
    sh.clock.out_frames = 600;
    sh.clock.in_frames = 600;
    sh.loops[0].take.reached = 200;
    let fired = commit::fire_due(&mut sh, 0, 600, 0);
    assert!(matches!(fired, Some(Closed::Draining)));
    let t = finish::take_drained(&mut sh, 0, u64::MAX).expect("it drains");
    let s = finish::finish_take(&mut sh, 0, &t);
    assert!(matches!(
        s,
        Said::Multiplied { li: 0, cycles: 2, len: 200, cycle: 100, layers: 2, .. }
    ));
    assert_eq!(sh.loops[0].body.loop_len, 200);
    assert_eq!(sh.loops[0].layer_pos(0, 150), Some(50), "what was there comes round twice");
}

#[test]
fn a_multiply_past_the_room_keeps_the_length() {
    let mut sh = rig(LEN);
    one_layer_loop(&mut sh, 0, 400, 0.25);
    sh.loops[0].enter(Phase::Multiply);
    sh.clock.out_frames = 1250;
    let s = said(&mut sh, "0x");
    assert!(matches!(s, Said::MultiplyPast { li: 0, cycles: 3, len: 400, max_frames: LEN }), "{:?}", s);
    assert_eq!(sh.loops[0].state, Phase::Playing);
    assert_eq!(sh.loops[0].body.loop_len, 400);
}

#[test]
fn a_take_that_follows_the_grid_closes_on_the_bar() {
    let mut sh = rig(LEN);
    one_layer_loop(&mut sh, 0, 100, 0.5);
    sh.loops[0].enter(Phase::Playing);
    sh.loops[0].body.cycles = 1;
    sh.desk.anchor = 0;
    sh.loops[1].habit.quant = true;
    sh.loops[1].enter(Phase::First);
    sh.loops[1].body.origin = 200;
    sh.loops[1].take.reached = 170;
    sh.clock.out_frames = 370;
    let s = said(&mut sh, "1r");
    assert!(matches!(s, Said::ClosesOnBar { li: 1, wait: 30, cycles: 2 }), "{:?}", s);
    assert_eq!(sh.loops[1].state, Phase::First, "it goes on recording until the bar");
    sh.clock.out_frames = 400;
    sh.loops[1].take.reached = 200;
    assert!(matches!(commit::fire_due(&mut sh, 1, 400, 0), Some(Closed::Draining)));
    let s = finished(&mut sh, SR, 1);
    assert!(s.contains("committed"), "{}", s);
    assert_eq!(sh.loops[1].body.loop_len, 200);
}

#[test]
fn a_take_nobody_heard_leaves_nothing() {
    let mut sh = rig(LEN);
    sh.loops[0].enter(Phase::First);
    sh.clock.out_frames = 10;
    let s = said(&mut sh, "0r");
    assert!(matches!(s, Said::Draining { li: 0 }), "{:?}", s);
    let t = finish::take_drained(&mut sh, 0, u64::MAX).expect("it drains");
    assert!(matches!(finish::finish_take(&mut sh, 0, &t), Said::RecordedNothing { li: 0 }));
    assert_eq!(sh.loops[0].body.n_layers, 0);
    assert_eq!(sh.loops[0].body.loop_len, 0);
}

#[test]
fn a_next_take_is_sized_in_seconds() {
    let mut sh = rig(LEN);
    let s = said(&mut sh, "0fix9");
    assert!(matches!(s, Said::FixPast { max_frames: LEN, .. }), "{:?}", s);
    let s = said(&mut sh, "0fix0.5");
    assert!(matches!(s, Said::Fixed { li: 0, len: 500 }), "{:?}", s);
    one_layer_loop(&mut sh, 1, 100, 0.5);
    let s = said(&mut sh, "1fix0.5");
    assert!(matches!(s, Said::FixOnePass { li: 1, len: 100, .. }), "{:?}", s);
    let s = said(&mut sh, "1r");
    assert!(matches!(s, Said::OnePass { li: 1, layer: 2 }), "{:?}", s);
}

#[test]
fn a_clock_that_stands_still_is_noticed_after_two_seconds() {
    let mut w = watch::watch(100);
    for _ in 0..7 {
        let (next, loss) = watch::supervise(w, 100, false);
        assert_eq!(loss, None);
        w = next;
    }
    let (_, loss) = watch::supervise(w, 100, false);
    assert_eq!(loss, Some(watch::Loss::Stalled));
    let (moved, loss) = watch::supervise(w, 101, false);
    assert_eq!((moved, loss), (watch::watch(101), None));
    let (_, loss) = watch::supervise(w, 101, true);
    assert_eq!(loss, Some(watch::Loss::Reported));
}

#[test]
fn an_outage_drops_the_take_and_keeps_the_layers() {
    let mut sh = rig(LEN);
    one_layer_loop(&mut sh, 0, 100, 0.5);
    sh.loops[0].enter(Phase::Overdub);
    lay(&mut sh, 0, 1, 100, 0.25);
    sh.loops[0].body.n_layers = 1;
    sh.loops[1].next.request_at = 900;
    sh.clock.k_set = true;
    assert_eq!(watch::drop_takes(&mut sh), Some(0));
    assert_eq!(sh.loops[0].state, Phase::Playing);
    assert_eq!(sh.loops[1].next.request_at, NEVER);
    assert_eq!(read(&sh, 0, 0, 5, 0), 0.5);
    assert_eq!(read(&sh, 0, 1, 5, 0), 0.0);
    assert_eq!(watch::drop_takes(&mut sh), None);
    pairing::unpair(&mut sh);
    assert!(!sh.clock.k_set && sh.clock.p0_needed);
    sh.clock.device_lost = true;
    watch::reopened(&mut sh);
    assert!(!sh.clock.device_lost);
    assert_eq!(sh.clock.reopens, 1);
}

#[test]
fn an_edit_moves_no_audio() {
    let mut sh = rig(LEN);
    one_layer_loop(&mut sh, 0, 100, 0.5);
    let before = sh.arena[0][0].clone();
    for edit in ["0in10", "0out90", "0rot7", "0win"] {
        let _ = said(&mut sh, edit);
        settle(&mut sh, 0);
    }
    assert_eq!(sh.arena[0][0], before);
    assert_eq!(sh.loops[0].window(), None);
}

#[test]
fn the_self_test_finds_where_a_click_begins() {
    let mut sh = rig(LEN);
    assert_eq!(selftest::onset_of(&sh, 0, 0, 100), None);
    for (p, v) in [(98, 0.5f32), (99, 0.9), (0, 0.7)] {
        sh.write(0, 0, p, 0, v.to_bits());
    }
    assert_eq!(selftest::onset_of(&sh, 0, 0, 100), Some((-2, 0.9f32.to_bits())));
    assert_eq!(selftest::multiple(300, 100), Some(3));
    assert_eq!(selftest::multiple(301, 100), None);
    let near = selftest::boundary(1, 100, 300);
    assert_eq!(near.len(), 128);
    assert_eq!(&near[..4], &[100, 99, 101, 98]);
    let first = selftest::boundary(0, 100, 300);
    assert_eq!(&first[..4], &[0, 299, 1, 298]);
    let levels = vec![0.0f32.to_bits(), 0.5f32.to_bits(), 0.001f32.to_bits()];
    assert_eq!(selftest::sounding(&levels), vec![1]);
    assert!(selftest::alone(&levels, 1));
    assert!(!selftest::alone(&levels, 0));
    assert_eq!(selftest::verdict(2, 0, -2), selftest::Verdict::Aligned);
    assert_eq!(selftest::verdict(0, 0, -3), selftest::Verdict::PastOut(3));
    assert_eq!(selftest::verdict(5, 0, 0), selftest::Verdict::FirstOut(5));
    assert_eq!(selftest::verdict(-2, 1, 0), selftest::Verdict::Slips(3));
}

#[test]
fn a_layer_is_sketched_in_columns() {
    let mut tape = vec![0u32; 2 * 112];
    tape[2 * 3 + 1] = 0.25f32.to_bits();
    tape[2 * 111] = (-1.0f32).to_bits();
    let s = draw_layer(&tape, 112);
    assert_eq!(s.columns.len(), COLUMNS);
    assert_eq!(f32::from_bits(s.columns[1]), 0.25);
    assert_eq!(f32::from_bits(s.columns[55]), 1.0);
    assert!(s.clipped && !s.silent);
    assert_eq!(f32::from_bits(s.peak), 1.0);
    let s = draw_layer(&vec![0u32; 8], 4);
    assert!(s.silent && !s.clipped);
}

#[test]
fn settings_are_put_into_words() {
    let b = |v: f32| v.to_bits();
    assert_eq!(vol_words(b(0.0), "6.0"), "is turned all the way down");
    assert_eq!(vol_words(b(0.5), "6.0"), "plays 6.0 dB down");
    assert_eq!(vol_words(b(1.0), "6.0"), "plays at full level");
    assert_eq!(fb_words(b(0.0), "3"), "nothing");
    assert_eq!(fb_words(b(0.7), "3"), "3 dB down");
    assert_eq!(fb_words(b(1.0), "3"), "everything");
    assert_eq!(decay_words(b(0.9), "1"), "loses 1 dB a pass");
    assert_eq!(decay_words(b(1.0), "1"), "holds every layer for ever");
    assert_eq!(tone_words(b(8000.0), "8.0"), "loses everything above 8.0 kHz each pass");
    assert_eq!(tone_words(b(20000.0), "20.0"), "keeps every pass exactly as bright");
    assert_eq!(fade_words(0, "5"), "a hard join");
    assert_eq!(fade_words(5, "5"), "5 ms of crossfade");
    for (p, want) in [
        (1.0, "every pass"),
        (0.0, "never"),
        (0.75, "3 passes in 4"),
        (0.50005, "1 pass in 2"),
        (0.25, "1 pass in 4"),
        (0.12505, "1 pass in 8"),
        (0.6, "60% of passes"),
    ] {
        assert_eq!(odds_words(b(p), "60"), want, "{}", p);
    }
    for i in 0..=100_000u32 {
        let p = i as f32 / 100_000.0;
        let want = if p >= 1.0 {
            "every pass"
        } else if p <= 0.0 {
            "never"
        } else if (p - 0.75).abs() < 1e-4 {
            "3 passes in 4"
        } else if (p - 0.5).abs() < 1e-4 {
            "1 pass in 2"
        } else if (p - 0.25).abs() < 1e-4 {
            "1 pass in 4"
        } else if (p - 0.125).abs() < 1e-4 {
            "1 pass in 8"
        } else {
            "x% of passes"
        };
        assert_eq!(odds_words(b(p), "x"), want, "{}", p);
    }
}

#[test]
fn a_name_stays_where_it_is_put() {
    assert_eq!(export::safe_name("  my take  ", 7), "my-take");
    assert_eq!(export::safe_name("../../etc/passwd", 7), "etc-passwd");
    assert_eq!(export::safe_name("", 7), "take-7");
    assert_eq!(export::safe_name("...", 7), "take-7");
}

#[test]
fn what_is_still_recording_is_not_written() {
    let mut sh = rig(LEN);
    assert_eq!(export::save_take(&sh, 0, "x", 7), Err(export::Unsaved::Nothing));
    assert_eq!(dispatch(&mut sh, SR, "exx"), "nothing to export — no loop has anything in it.");
    one_layer_loop(&mut sh, 0, 100, 0.5);
    assert_eq!(export::save_take(&sh, 0, "x", 7), Ok("x".to_string()));
    sh.loops[0].enter(Phase::Overdub);
    assert_eq!(export::save_take(&sh, 0, "x", 7), Err(export::Unsaved::TakeInHand));
    assert_eq!(export::export_set(&sh, "x", 7), Err(export::Unsaved::StillRecording(0)));
    assert_eq!(export::export_layers(&sh, "x", 7), Err(export::Unsaved::StillRecording(0)));
}

#[test]
fn a_layer_too_long_for_a_file_stops_the_take() {
    let mut sh = rig(LEN);
    one_layer_loop(&mut sh, 0, 100, 0.5);
    lay(&mut sh, 0, 1, 300, 0.5);
    assert_eq!(export::write_layers(sh.lp(0), 299), (vec![0], Some(1)));
    assert_eq!(export::write_layers(sh.lp(0), 300), (vec![0, 1], None));
    assert_eq!(export::file_of(3), "layer-03.wav");
    assert_eq!(export::file_of(12), "layer-12.wav");
    assert_eq!(export::name_loop(0), "loop-1");
    assert_eq!(export::write_manifest(false, 48_000, "4", &vec![]), None);
}

#[test]
fn nothing_is_placed_until_the_streams_pair() {
    let mut sh = rig(LEN);
    sh.clock.p0_needed = true;
    sh.clock.out_frames = 256;
    assert!(pairing::note_first(&mut sh));
    assert_eq!(sh.clock.p0_frame, 256);
    sh.clock.out_frames = 512;
    assert!(!pairing::note_first(&mut sh));
    assert_eq!(sh.clock.p0_frame, 256);
    pairing::pass_by(&mut sh, 64);
    assert_eq!(sh.clock.in_frames, 64);
    pairing::pair(&mut sh, -12);
    assert!(sh.clock.k_set);
    assert_eq!(sh.clock.k, -12);
}

#[test]
fn the_input_is_kept_and_a_first_take_is_written_as_it_came() {
    let mut sh = fed(0, 0.0);
    sh.loops[0].enter(Phase::First);
    sh.clock.k = 10;
    sh.loops[0].take.rec_from = 12;
    let data: Vec<u32> = (0..8).map(|i| (i as f32 / 8.0).to_bits()).collect();
    assert!(matches!(input::input(&mut sh, &data, 1, 8), Landed::Nothing));
    assert_eq!(sh.clock.in_frames, 8);
    assert_eq!(sh.clock.k, 10, "the pairing stays");
    for f in 0..8 {
        assert_eq!(sh.ring_at(0, f, 0), Some((f as f32 / 8.0).to_bits()));
        assert_eq!(sh.ring_at(0, f, 1), Some((f as f32 / 8.0).to_bits()));
    }
    assert_eq!(sh.ring_at(0, 8, 0), None, "it has not come yet");
    assert_eq!(f32::from_bits(sh.in_peak[0]), 7.0 / 8.0);
    assert_eq!(sh.loops[0].take.reached, 6, "two frames were before the start");
    assert_eq!(read(&sh, 0, 0, 0, 0), 2.0 / 8.0);
    assert_eq!(read(&sh, 0, 0, 5, 1), 7.0 / 8.0);
}

#[test]
fn an_overdub_lands_where_the_play_head_is() {
    let mut sh = fed(0, 0.0);
    one_layer_loop(&mut sh, 0, 100, 0.5);
    sh.loops[0].enter(Phase::Overdub);
    sh.clock.in_frames = 198;
    let data = vec![0.25f32.to_bits(); 4];
    match input::input(&mut sh, &data, 1, 4) {
        Landed::Onto { li: 0, layer: 1, at } => {
            assert_eq!(at, vec![(0, 98), (1, 99), (2, 0), (3, 1)]);
        }
        other => panic!("{:?}", other),
    }
    sh.loops[0].habit.revox = true;
    match input::input(&mut sh, &data, 1, 4) {
        Landed::Over { li: 0, at } => assert_eq!(at, vec![(0, 2), (1, 3), (2, 4), (3, 5)]),
        other => panic!("{:?}", other),
    }
    sh.loops[0].habit.revox = false;
    sh.loops[0].play.speed = 0.5f64.to_bits();
    assert!(matches!(
        input::input(&mut sh, &data, 1, 4),
        Landed::Spread { li: 0, layer: 1 }
    ));
}

#[test]
fn a_listening_loop_starts_at_the_first_sound() {
    let mut sh = fed(0, 0.0);
    sh.desk.arm_reach = 5;
    sh.loops[1].enter(Phase::Armed);
    let quiet = vec![0.001f32.to_bits(); 16];
    assert!(matches!(input::input(&mut sh, &quiet, 1, 16), Landed::Nothing));
    assert!(!sh.loops[1].next.is_pending());
    let mut data = quiet.clone();
    data[7] = (-0.5f32).to_bits();
    data[9] = 0.9f32.to_bits();
    input::input(&mut sh, &data, 1, 16);
    assert!(sh.loops[1].next.is_pending());
    assert_eq!(sh.loops[1].next.arm_from, 16 + 7 - 5);
}

#[test]
fn a_claim_is_what_a_take_would_have_been() {
    let data: Vec<u32> = (0..300).map(|i| ((i % 97) as f32 / 97.0).to_bits()).collect();
    let mut taken = fed(0, 0.0);
    taken.loops[0].enter(Phase::First);
    taken.loops[0].take.rec_from = 100;
    input::input(&mut taken, &data, 1, 300);
    let mut claimed = fed(0, 0.0);
    input::input(&mut claimed, &data, 1, 300);
    claimed.clock.out_frames = 300;
    let s = said(&mut claimed, "0t0.2");
    assert!(matches!(s, Said::TookLoop { li: 0, len: 200, got: 200, layers: 1 }), "{:?}", s);
    assert_eq!(claimed.loops[0].body.origin, 100);
    assert_eq!(claimed.arena[0][0][..400], taken.arena[0][0][..400]);
}

#[test]
fn a_command_touches_its_own_loop() {
    let mut sh = rig(LEN);
    for li in 0..DEFAULT_LOOPS {
        one_layer_loop(&mut sh, li, 100, 0.5);
        sh.loops[li].enter(Phase::Playing);
    }
    let before: Vec<String> = sh.loops.iter().map(|l| format!("{:?}", l)).collect();
    let audio = sh.arena.clone();
    for line in ["2vol-6", "2s4", "2in10", "2r", "2pan3", "2c", "2t", "2len2", "2fix0.1", "2u"] {
        acked(&mut sh, line);
        for li in (0..DEFAULT_LOOPS).filter(|&li| li != 2) {
            assert_eq!(format!("{:?}", sh.loops[li]), before[li], "`{}` on loop {}", line, li);
            assert_eq!(sh.arena[li], audio[li], "`{}` on loop {}", line, li);
        }
    }
}

#[test]
fn what_cannot_be_read_changes_nothing() {
    let mut sh = rig(LEN);
    one_layer_loop(&mut sh, 0, 100, 0.5);
    let before = format!("{:?}", sh);
    for line in ["", "0qq", "0vol-", "0in-", "99r", "r@never", "0lw1:2", "0cp", "0blank0"] {
        acked(&mut sh, line);
        assert_eq!(format!("{:?}", sh), before, "`{}`", line);
    }
}

#[test]
fn the_grid_stays_with_the_loop_that_gave_it() {
    let mut sh = rig(LEN);
    assert_eq!(sh.grid(), None);
    one_layer_loop(&mut sh, 1, 100, 0.5);
    one_layer_loop(&mut sh, 2, 70, 0.5);
    sh.claim_anchor(1);
    sh.claim_anchor(2);
    assert_eq!(sh.grid(), Some((0, 100)), "the first to ask gives it");
    sh.release_anchor(2);
    assert_eq!(sh.grid(), Some((0, 100)), "only the one that gives it lets it go");
    let s = said(&mut sh, "1u");
    assert!(matches!(s, Said::EmptyNow { .. }), "{:?}", s);
    assert_eq!(sh.grid(), Some((0, 100)), "an undo leaves it");
    sh.release_anchor(1);
    assert_eq!(sh.grid(), None);
}

#[test]
fn bits_are_compared_as_the_numbers_they_are() {
    let some = [
        f32::NEG_INFINITY,
        -1.5,
        -f32::MIN_POSITIVE,
        -0.0,
        0.0,
        f32::MIN_POSITIVE,
        0.1,
        1.0,
        f32::INFINITY,
        f32::NAN,
        -f32::NAN,
    ];
    for a in some {
        assert_eq!(bits::number(a.to_bits()), !a.is_nan());
        assert_eq!(bits::number_wide((a as f64).to_bits()), !a.is_nan());
        for b in some {
            assert_eq!(bits::less(a.to_bits(), b.to_bits()), a < b, "{} {}", a, b);
            assert_eq!(bits::at_most(a.to_bits(), b.to_bits()), a <= b, "{} {}", a, b);
            let (x, y) = (a as f64, b as f64);
            assert_eq!(bits::less_wide(x.to_bits(), y.to_bits()), x < y, "{} {}", x, y);
            assert_eq!(bits::at_most_wide(x.to_bits(), y.to_bits()), x <= y, "{} {}", x, y);
            if a.is_sign_positive() && !a.is_nan() {
                let louder = f32::from_bits(bits::loudest(a.to_bits(), b.to_bits()));
                assert_eq!(louder, a.max(b.abs()), "{} {}", a, b);
            }
        }
    }
}

#[test]
fn what_a_loop_says_of_itself() {
    let mut sh = rig(LEN);
    let lp = &mut sh.loops[0];
    assert_eq!(lp.state_name(), Phase::Idle.wire_word());
    assert_eq!(lp.rec_frames(0), 0);
    assert_eq!(f32::from_bits(lp.decay_of()), 1.0);
    assert_eq!(lp.layer_born(0), 0);
    assert_eq!(lp.pending_in(0), -1);
    lp.next.set(itajara::next_take::ARMED, 70);
    assert_eq!(lp.pending_in(50), 20);
    assert_eq!(lp.pending_in(90), 0);
    lp.next.clear();
    lp.enter(Phase::First);
    lp.take.reached = 33;
    assert_eq!(lp.rec_frames(0), 33);
    lp.enter(Phase::Playing);
    lp.body.loop_len = 100;
    lp.enter(Phase::Overdub);
    lp.take.close_at = 170;
    assert_eq!(lp.rec_frames(120), 50);
    assert_eq!(lp.rec_frames(10), 0);
    assert_eq!(lp.rec_frames(200), 100);
    lp.mark_rec_env(3, 0.5f32.to_bits());
    lp.mark_rec_env(3, 0.25f32.to_bits());
    assert_eq!(f32::from_bits(lp.rec_env_bytes()[3]), 0.5);
    lp.clear_rec_env();
    assert!(lp.rec_env_bytes().iter().all(|&b| b == 0));
    lp.enter(Phase::Playing);
    lp.play.chance = 0.5f32.to_bits();
    lp.play.chance_pass = 2;
    lp.play.chance_sounds = false;
    assert!(lp.skipping(250, 100));
    assert!(!lp.skipping(150, 100));
    assert_eq!(lane::closing_stage(lp), None);
}

#[test]
fn each_move_between_phases_is_noted_once() {
    let mut seen = std::collections::BTreeSet::new();
    for from in Phase::all() {
        for to in Phase::all() {
            assert!(seen.insert(itajara::phase::move_bit(from, to)));
        }
    }
    assert_eq!(seen.len(), 36);
    assert_eq!(itajara::phase::move_bit(Phase::Idle, Phase::Idle), 0);
}

#[test]
fn one_roll_decides_a_whole_pass() {
    let mut lp = at_origin();
    lp.body.loop_len = 100;
    lp.body.n_layers = 1;
    lp.enter(Phase::Playing);
    lp.play.chance = 0.5f32.to_bits();
    assert!(!mixer::gate_with(&mut lp, 10, 10, true, u32::MAX));
    assert!(!mixer::gate_with(&mut lp, 11, 11, true, 0), "the pass was rolled for");
    assert!(mixer::gate_with(&mut lp, 110, 110, true, 0));
    assert!(mixer::gate_with(&mut lp, 199, 199, true, u32::MAX));
    let mut rng = SmallRng::seed_from_u64(7);
    let mut heard = 0;
    for pass in 2..2002i64 {
        if mixer::gate(&mut lp, pass * 100, pass * 100, true, &mut rng) {
            heard += 1;
        }
    }
    assert!((900..1100).contains(&heard), "{} of 2000", heard);
}

#[test]
fn a_late_close_is_as_of_the_press() {
    let mut sh = fed(1000, 0.5);
    sh.loops[0].enter(Phase::First);
    sh.loops[0].body.origin = 700;
    sh.loops[0].take.rec_from = 700;
    sh.loops[0].take.reached = 300;
    let s = said(&mut sh, "0r@100");
    assert!(matches!(s, Said::Draining { li: 0 }), "{:?}", s);
    let s = finished(&mut sh, SR, 0);
    assert!(s.contains("committed"), "{}", s);
    assert_eq!(sh.loops[0].body.loop_len, 200);
    assert_eq!(sh.loops[0].layer_shape(0).0, 200);
}

#[test]
fn an_overdub_through_a_window_lands_inside_it() {
    let mut sh = fed(0, 0.0);
    one_layer_loop(&mut sh, 0, 100, 0.5);
    sh.loops[0].edit.win_in = -2;
    sh.loops[0].edit.win_out = 2;
    sh.loops[0].body.origin = 3;
    sh.loops[0].enter(Phase::Overdub);
    sh.loops[0].take.rec_from = 1;
    let data = vec![0.25f32.to_bits(); 8];
    match input::input(&mut sh, &data, 1, 8) {
        Landed::Onto { li: 0, layer: 1, at } => {
            assert_eq!(at, vec![(1, 0), (2, 1), (5, 0), (6, 1)]);
        }
        other => panic!("{:?}", other),
    }
    assert_eq!(sh.loops[0].take.reached, 100);
    assert_eq!(sh.loops[0].take.rec_reached, 8, "silence past an end is still the take's");
}

#[test]
fn what_was_played_comes_round() {
    let mut sh = fed(0, 0.0);
    let s = said(&mut sh, "0r");
    assert!(matches!(s, Said::FirstTake { li: 0 }), "{:?}", s);
    sh.clock.in_frames = 40;
    sh.clock.out_frames = 40;
    stamp::stamp(&mut sh, 0, 40, 16);
    assert_eq!(sh.loops[0].body.origin, 40);
    let data: Vec<u32> = (0..100).map(|i| (i as f32 / 100.0).to_bits()).collect();
    assert!(matches!(input::input(&mut sh, &data, 1, 100), Landed::Nothing));
    sh.clock.out_frames = 140;
    let s = said(&mut sh, "0r");
    assert!(matches!(s, Said::Draining { li: 0 }), "{:?}", s);
    assert!(finished(&mut sh, SR, 0).contains("committed"));
    assert_eq!(sh.loops[0].body.loop_len, 100);
    let mut rng = SmallRng::seed_from_u64(1);
    for cycle in 0..3 {
        for f in [0, 1, 57, 99] {
            let at = 140 + 100 * cycle + f;
            let v = loop_at(&mut sh, 0, at, &mut rng, true);
            assert_eq!(v, [f as f32 / 100.0; CHANNELS], "frame {}", at);
        }
    }
}

#[test]
fn a_launch_waits_for_beats_of_the_bar_as_it_is() {
    let mut sh = rig(LEN);
    one_layer_loop(&mut sh, 0, BAR, 0.5);
    sh.loops[0].body.origin = 0;
    sh.claim_anchor(0);
    assert_eq!(dispatch(&mut sh, SR, "lq1"), "launches wait for the next 1 beat (rig-wide).");
    // No clock: a beat is a quarter of the bar.
    assert_eq!(sh.next_boundary(1), Some(100));
    assert_eq!(sh.next_boundary(100), Some(100));
    // The bar is half as long, and so is the beat.
    sh.loops[0].body.cycles = 2;
    assert_eq!(sh.next_boundary(1), Some(50));
    sh.loops[0].body.cycles = 1;
    // Three beats to the bar, and one of them is a third of it.
    sh.link.link_quantum = 3.0f64.to_bits();
    assert_eq!(sh.launch_grid(), Some((0, 133)));
    dispatch(&mut sh, SR, "lq3");
    assert_eq!(sh.launch_grid(), Some((0, 400)));
    dispatch(&mut sh, SR, "lq0");
    assert_eq!(sh.launch_grid(), None);
    dispatch(&mut sh, SR, "lq-1");
    assert_eq!(sh.launch_grid(), Some((0, 400)));
    // A quantum that is no metre is none.
    dispatch(&mut sh, SR, "lq64");
    for q in [0.0, 0.5, -3.0, f64::NAN] {
        sh.link.link_quantum = f64::to_bits(q);
        assert_eq!(sh.launch_grid(), Some((0, 6400)), "{}", q);
    }
    sh.link.link_quantum = f64::INFINITY.to_bits();
    assert_eq!(sh.launch_grid(), Some((0, 1)));
}

#[test]
fn beats_are_the_real_quotient_to_the_nearest_frame() {
    let quanta = [1.0, 1.5, 2.0, 3.0, 3.3, 4.0, 5.0, 6.0, 7.0, 7.7, 9.0, 11.0, 13.0, 1e3, 1e9, 1e30];
    for bar in [1usize, 2, 3, 7, 400, 48_000, 96_001, 1 << 30, (1 << 40) + 7, (1 << 53) + 1] {
        for q in quanta {
            for n in [1i64, 2, 3, 4, 5, 7, 16, 33, 63, 64] {
                let want = ((bar as f64 / q) * n as f64).round() as usize;
                let got = beat::frames_of(bar, q.to_bits(), n);
                assert_eq!(got, want.max(1).min(frame::far()), "{} {} {}", bar, q, n);
            }
        }
        let quarter = ((bar as f64 / 4.0) * 3.0).round() as usize;
        if bar < 1 << 50 {
            assert_eq!(beat::frames_of(bar, 0, 3), quarter.max(1), "{}", bar);
        }
    }
}

#[test]
fn a_whole_number_has_the_bits_of_the_real_one() {
    for n in (0..70_000u64).chain((1..59).map(|e| (1u64 << e) + 1)).chain((1..60).map(|e| (1u64 << e) - 1)) {
        assert_eq!(wide_bits(n), (n as f64).to_bits(), "{}", n);
    }
    assert_eq!(wide_bits((1 << 53) + 1), ((1u64 << 53) as f64).to_bits());
    assert_eq!(wide_bits((1 << 53) + 3), ((1u64 << 53) as f64 + 4.0).to_bits());
}

#[test]
fn a_one_shot_ends_when_its_pass_does_at_any_rate() {
    for (speed, want) in [
        (1.0, 100),
        (-1.0, 100),
        (0.5, 200),
        (-2.0, 50),
        (3.0, 33),
        (0.3, 333),
        (1e-9, 100_000_000),
        (f64::NAN, 100_000_000),
        (f64::INFINITY, 0),
    ] {
        let mut sh = rig(LEN);
        one_layer_loop(&mut sh, 0, LOOP, 0.5);
        sh.clock.out_frames = 40;
        sh.loops[0].play.one_shot = true;
        sh.loops[0].play.speed = f64::to_bits(speed);
        sh.loops[0].next.set(FIRE, NEVER);
        stamp::stamp(&mut sh, 0, 40, 16);
        assert_eq!(sh.loops[0].play.shot_end, 40 + want, "{}", speed);
        let top = if speed < 0.0 { 99.0f64 } else { 0.0 };
        assert_eq!(sh.loops[0].play.warp, top.to_bits(), "{}", speed);
    }
}

#[test]
fn an_overdub_backwards_lands_on_what_it_passes_over() {
    for (speed, pend, want) in [
        (-1.0f64, false, vec![(0, 59), (1, 58), (2, 57), (3, 56)]),
        (1.0, true, vec![(0, 40), (1, 41), (2, 42), (3, 43)]),
        (-1.0, true, vec![(0, 59), (1, 58), (2, 57), (3, 56)]),
    ] {
        let mut sh = rig(LEN);
        one_layer_loop(&mut sh, 0, LOOP, 0.5);
        sh.loops[0].body.origin = 0;
        sh.loops[0].enter(Phase::Overdub);
        sh.loops[0].take.rec_from = 0;
        sh.loops[0].play.speed = speed.to_bits();
        sh.loops[0].play.pendulum = pend;
        sh.clock.k = 0;
        sh.clock.k_set = true;
        sh.clock.in_frames = 40;
        let data: Vec<u32> = (0..4).map(|i| (i as f32 * 0.1).to_bits()).collect();
        match input::input(&mut sh, &data, 1, 4) {
            Landed::Onto { li: 0, layer: 1, at } => assert_eq!(at, want, "{} {}", speed, pend),
            other => panic!("{:?}", other),
        }
        assert_eq!(sh.loops[0].take.rec_reached, 44);
    }
}

#[test]
fn what_could_not_be_read_is_said_with_its_text() {
    assert_eq!(unread(Misread::Unknown, "a\"b"), "unknown command \"a\\\"b\"");
    assert_eq!(unread_quoted(Misread::Unknown, "a", "<a>"), "unknown command <a>");
    assert_eq!(unread(Misread::Lateness, " x "), "`@x` is not a lateness in milliseconds.");
    assert_eq!(unread(Misread::Pan, "q"), "pan wants 0-127, not `q`.");
}

#[test]
fn the_click_ticks_the_beats_of_the_bar() {
    for (q, want) in [
        (0.0, 4),
        (0.9, 4),
        (1.0, 1),
        (2.5, 3),
        (3.0, 3),
        (3.49, 3),
        (7.0, 7),
        (1e30, usize::MAX),
        (f64::INFINITY, usize::MAX),
        (f64::NAN, 4),
    ] {
        assert_eq!(beat::beats_in_bar(f64::to_bits(q)), want, "{}", q);
    }
    let mut sh = rig(LEN);
    one_layer_loop(&mut sh, 0, BAR, 0.5);
    sh.loops[0].body.origin = 7;
    assert_eq!(mixer::click_of(&sh), (7, 400, 400), "no grid: the loop that is selected");
    sh.claim_anchor(0);
    assert_eq!(mixer::click_of(&sh), (7, 400, 100));
    sh.link.link_quantum = 3.0f64.to_bits();
    assert_eq!(mixer::click_of(&sh), (7, 400, 133));
}

/// A rig with a source that is off before one that is on.
fn half_on() -> Shared {
    let size = Size {
        max_frames: LEN,
        n_loops: 3,
        max_layers: 2,
        fixed_frames: 0,
        ring_len: 100,
        max_fade: 0,
        claim_frames: 10,
    };
    let start = Start { click: false, monitor: false, preroll: 0, arm_thresh: 9, arm_reach: 0 };
    let off = Source { name: "modular".to_string(), ch: [0, 0], available: false };
    Shared::new(size, vec![off, Source::mono("board", 1), Source::mono("mic", 2)], start)
}

#[test]
fn a_source_that_is_off_cannot_be_selected() {
    let mut sh = half_on();
    assert!(sh.loops.iter().all(|l| l.habit.src == 1), "every loop starts on one that is on");
    let s = said(&mut sh, "0src1");
    assert!(matches!(s, Said::SourceAway { li: 0, source: 0 }), "{:?}", s);
    assert_eq!(
        sentence(&s, &sh, SR),
        "loop 0 cannot record from modular: its interface is not switched on."
    );
    assert_eq!(sh.loops[0].habit.src, 1);
    let s = said(&mut sh, "0src3");
    assert!(matches!(s, Said::RecordsFrom { li: 0, source: 2 }), "it keeps its number: {:?}", s);
    let s = said(&mut sh, "0src4");
    assert!(matches!(s, Said::NoSource { sources: 3, asked: 4 }), "{:?}", s);
    sh.loops[1].enter(Phase::First);
    let s = said(&mut sh, "1src1");
    assert!(matches!(s, Said::SourceAway { li: 1, source: 0 }), "{:?}", s);
    let s = said(&mut sh, "1src3");
    assert!(matches!(s, Said::SourceMidTake { li: 1 }), "{:?}", s);
    assert_eq!(source::first_on(&sh.sources), 1);
    let none = vec![Source { name: "x".to_string(), ch: [0, 0], available: false }];
    assert_eq!(source::first_on(&none), 0);
}

#[test]
fn a_loop_that_starts_on_what_is_on_records_it() {
    let mut sh = half_on();
    sh.clock.k_set = true;
    sh.clock.p0_needed = false;
    sh.loops[0].enter(Phase::First);
    let data: Vec<u32> = [0.9f32, 0.5, 0.1, 0.9, 0.5, 0.1].iter().map(|v| v.to_bits()).collect();
    input::input(&mut sh, &data, 3, 2);
    assert_eq!((read(&sh, 0, 0, 0, 0), read(&sh, 0, 0, 1, 1)), (0.5, 0.5));
}

#[test]
fn a_number_of_bars_out_of_range_is_said_of_a_recording_loop_too() {
    let mut sh = rig(LEN);
    sh.loops[0].enter(Phase::First);
    let s = said(&mut sh, "0len0");
    assert!(matches!(s, Said::BarsRange { asked: 0 }), "{:?}", s);
    let s = said(&mut sh, "0len33");
    assert!(matches!(s, Said::BarsRange { asked: 33 }), "{:?}", s);
    let s = said(&mut sh, "0len4");
    assert!(matches!(s, Said::Recording { li: 0 }), "{:?}", s);
}

/// A first take of `reached` frames from frame 500, with a front of `preroll`
/// and a told length, closed: what is noted of it and the layer it makes.
fn first_take(reached: usize, preroll: usize, told: usize, origin: i64) -> (Vec<Note>, Shared) {
    let mut sh = fed(1000, 0.5);
    sh.desk.preroll = preroll;
    sh.loops[0].enter(Phase::First);
    sh.loops[0].body.origin = origin;
    sh.loops[0].take.rec_from = origin;
    sh.loops[0].take.reached = reached;
    sh.loops[0].take.rec_len = told;
    for p in 0..reached {
        for ch in 0..CHANNELS {
            sh.write(0, 0, p, ch, 0.25f32.to_bits());
        }
    }
    let s = said(&mut sh, "0r");
    assert!(matches!(s, Said::Draining { li: 0 }), "{:?}", s);
    let t = finish::take_drained(&mut sh, 0, u64::MAX).expect("it drains");
    let notes = note::notes(&sh, 0, &t);
    finish::finish_take(&mut sh, 0, &t);
    (notes, sh)
}

#[test]
fn what_a_first_take_keeps_past_its_end_was_recorded() {
    let (notes, sh) = first_take(300, 20, 0, 500);
    assert_eq!(sh.loops[0].body.loop_len, 320);
    assert_eq!(sh.loops[0].layer_tail(0), 0, "nothing was recorded past the end");
    assert_eq!(notes, vec![Note::FrontRecovered { got: 20, of: 20 }, Note::Length(320)]);

    let (notes, sh) = first_take(300, 20, 250, 500);
    assert_eq!(sh.loops[0].body.loop_len, 250, "a length that was told is kept");
    assert_eq!(sh.loops[0].layer_tail(0), 70, "what was moved past the end carries on");
    assert_eq!(read(&sh, 0, 0, 250, 0), 0.25);
    assert_eq!(read(&sh, 0, 0, 319, 1), 0.25);
    assert_eq!(read(&sh, 0, 0, 320, 0), 0.0);
    assert_eq!(notes, vec![Note::FrontRecovered { got: 20, of: 20 }, Note::Length(250)]);

    let (notes, sh) = first_take(300, 20, 0, 10);
    assert_eq!(sh.loops[0].layer_tail(0), 0, "a front that is not claimed leaves no tail");
    assert_eq!(notes, vec![Note::Length(300)]);

    let (notes, sh) = first_take(990, 20, 0, 10);
    assert_eq!((sh.loops[0].body.loop_len, sh.loops[0].layer_tail(0)), (990, 0));
    assert_eq!(notes, vec![Note::FrontSkipped, Note::Length(990)]);

    let (notes, _) = first_take(200, 0, 250, 500);
    assert_eq!(notes, vec![Note::Behind(50), Note::Length(250)]);
    let (notes, _) = first_take(0, 20, 0, 500);
    assert_eq!(notes, vec![]);
}

#[test]
fn a_late_close_notes_what_it_drops_or_unwraps() {
    let mut sh = fed(1000, 0.5);
    sh.loops[0].enter(Phase::First);
    sh.loops[0].body.origin = 700;
    sh.loops[0].take.rec_from = 700;
    sh.loops[0].take.reached = 300;
    said(&mut sh, "0r@100");
    let t = finish::take_drained(&mut sh, 0, u64::MAX).expect("it drains");
    assert_eq!(note::notes(&sh, 0, &t), vec![Note::Dropped(100), Note::Length(200)]);
    finish::finish_take(&mut sh, 0, &t);
    assert_eq!(sh.loops[0].layer_tail(0), 100);

    sh.loops[0].enter(Phase::Overdub);
    sh.loops[0].take.rec_from = 900;
    sh.loops[0].take.rec_reached = 1000;
    said(&mut sh, "0r@30");
    let t = finish::take_drained(&mut sh, 0, u64::MAX).expect("it drains");
    assert_eq!(note::notes(&sh, 0, &t), vec![Note::Unwrapped { undone: 30, kept: 30 }]);
    finish::finish_take(&mut sh, 0, &t);
    assert_eq!(sh.loops[0].layer_tail(1), 30);
}

#[test]
fn a_copy_has_what_carries_on_past_the_end() {
    let mut sh = rig(LEN);
    one_layer_loop(&mut sh, 0, 100, 0.25);
    for p in 100..140 {
        sh.write(0, 0, p, 0, 0.5f32.to_bits());
    }
    sh.loops[0].set_layer_shape(0, Shape { len: 100, tail: 30, born: 0 });
    sh.loops[0].enter(Phase::Playing);
    let s = said(&mut sh, "1cp0");
    assert!(matches!(s, Said::Copied { n: 1, src: 0, li: 1 }), "{:?}", s);
    assert_eq!(sh.loops[1].layer_tail(0), 30);
    assert_eq!(read(&sh, 1, 0, 129, 0), 0.5);
    assert_eq!(read(&sh, 1, 0, 130, 0), 0.0, "and nothing past that");
    assert!(matches!(copy::duplicate(&mut sh, 0, 1), Said::Duplicated { .. }));
    assert_eq!(read(&sh, 0, 1, 129, 0), 0.5);
    assert_eq!(read(&sh, 0, 1, 130, 0), 0.0);
}

#[test]
fn redo_offers_nothing_that_was_recorded_over() {
    let stacked = || {
        let mut sh = fed(500, 0.5);
        one_layer_loop(&mut sh, 0, 100, 0.25);
        lay(&mut sh, 0, 1, 100, 0.5);
        lay(&mut sh, 0, 2, 100, 0.75);
        sh.loops[0].body.redo_to = 3;
        sh.loops[0].enter(Phase::Playing);
        sh
    };
    let mut sh = stacked();
    said(&mut sh, "0u");
    let s = said(&mut sh, "0rvx1");
    assert!(matches!(s, Said::TapeNow { li: 0, folded: 2 }), "{:?}", s);
    let s = said(&mut sh, "0y");
    assert!(matches!(s, Said::AtLastTake { li: 0 }), "{:?}", s);

    let mut sh = stacked();
    said(&mut sh, "0u");
    said(&mut sh, "0u");
    let s = said(&mut sh, "0rvx1");
    assert!(matches!(s, Said::TapeNow { li: 0, folded: 0 }), "{:?}", s);
    let s = said(&mut sh, "0y");
    assert!(matches!(s, Said::Redone { li: 0, n: 2 }), "nothing was folded: {:?}", s);
    assert_eq!(read(&sh, 0, 1, 7, 0), 0.5);

    let mut sh = stacked();
    said(&mut sh, "0u");
    let s = said(&mut sh, "0x");
    assert!(matches!(s, Said::Multiplying { li: 0, .. }), "{:?}", s);
    sh.clock.out_frames = 2000;
    let s = said(&mut sh, "0x");
    assert!(matches!(s, Said::MultiplyPast { li: 0, .. }), "{:?}", s);
    let s = said(&mut sh, "0y");
    assert!(matches!(s, Said::AtLastTake { li: 0 }), "{:?}", s);

    let mut sh = stacked();
    said(&mut sh, "0u");
    sh.clock.out_frames = 5000;
    sh.clock.in_frames = 500;
    let s = said(&mut sh, "0t");
    assert!(matches!(s, Said::PastTooShort), "{:?}", s);
    assert_eq!(read(&sh, 0, 2, 7, 0), 0.0);
    let s = said(&mut sh, "0y");
    assert!(matches!(s, Said::AtLastTake { li: 0 }), "{:?}", s);
}

#[test]
fn a_speed_is_taken_up_where_the_play_head_is() {
    for rot in [0usize, 30] {
        for (win_in, win_out) in [(0i64, 0i64), (100, 700)] {
            for at in [0i64, 1, 777, 123_456] {
                let mut lp = at_origin();
                lp.edit.rot = rot;
                lp.edit.win_in = win_in;
                lp.edit.win_out = win_out;
                for (speed, pend) in [(-1.0, false), (1.0, true), (-1.0, true), (1.0, false)] {
                    let before = play_pos(&lp, at, LEN);
                    adopt(&mut lp, at, LEN, speed, pend);
                    assert_eq!(play_pos(&lp, at, LEN), before, "{} {} at {}", speed, pend, at);
                }
                assert!(bits::zero_wide(lp.play.warp), "back at rate one nothing offsets it");
            }
        }
    }
    let mut lp = at_origin();
    assert_eq!(lp.take_asked(), None);
    lp.want(2.0f64.to_bits(), true);
    assert_eq!(lp.take_asked(), Some((2.0f64.to_bits(), true)));
    assert_eq!(lp.take_asked(), None, "once");
}

#[test]
fn the_self_test_sizes_arms_and_spreads_its_loop() {
    let mut sh = rig(LEN);
    selftest::size_loop(&mut sh, 0, 100);
    assert_eq!(sh.loops[0].body.loop_len, 100);
    selftest::arm(&mut sh, 0);
    assert_eq!((sh.loops[0].next.request, sh.loops[0].next.request_at), (1, NEVER));
    one_layer_loop(&mut sh, 0, 100, 0.5);
    cycle::spread(&mut sh, 0, 0, 3, 2);
    assert_eq!(sh.loops[0].layer_shape(0), (100, 3, 2));
    assert_eq!(selftest::onset_of(&sh, 0, 0, 0), None, "nothing is in no frames");
}

#[test]
fn what_can_be_counted_is_told_apart() {
    assert!(frame::is_near(0) && frame::is_near(-1_000_000_000));
    assert!(!frame::is_near(frame::LIMIT));
    assert!(frame::is_in_range(frame::LIMIT) && !frame::is_in_range(frame::LIMIT + 1));
    assert!(frame::is_in_range(-frame::LIMIT) && !frame::is_in_range(i64::MIN));
    assert!(frame::is_short(48_000 * 3600) && !frame::is_short(usize::MAX / 16));
}

#[test]
fn the_first_recording_on_an_empty_tape_closes_itself() {
    let mut sh = rig(LEN);
    let s = said(&mut sh, "0blank0.3");
    assert!(matches!(s, Said::Threaded { li: 0, len: 300, .. }), "{:?}", s);
    let s = said(&mut sh, "0r");
    assert!(matches!(s, Said::OnePass { li: 0, layer: 2 }), "{:?}", s);
    stamp::stamp_loop(&mut sh.loops[0], DEFAULT_LAYERS, 50, 66);
    assert_eq!(sh.loops[0].state, Phase::Overdub);
    assert_eq!(sh.loops[0].take.close_at, 350);
    assert!(!sh.loops[0].body.threaded);
    sh.clock.out_frames = 350;
    assert!(matches!(commit::fire_due(&mut sh, 0, 350, 0), Some(Closed::Draining)));
    finished(&mut sh, SR, 0);
    assert_eq!(sh.loops[0].body.n_layers, 2);
    said(&mut sh, "0r");
    stamp::stamp_loop(&mut sh.loops[0], DEFAULT_LAYERS, 360, 376);
    assert_eq!(sh.loops[0].take.close_at, NEVER, "the next goes on until it is stopped");

    let mut sh = rig(LEN);
    said(&mut sh, "0blank0.3");
    said(&mut sh, "0rvx1");
    said(&mut sh, "0r");
    stamp::stamp_loop(&mut sh.loops[0], DEFAULT_LAYERS, 50, 66);
    assert_eq!(sh.loops[0].take.close_at, NEVER, "a tape comes round until it is stopped");
}

#[test]
fn a_late_close_takes_off_what_landed_where_it_landed() {
    for (rot, win, back) in [(0, (0, 0), false), (30, (0, 0), false), (7, (20, 90), false), (0, (0, 0), true)] {
        let mut sh = fed(400, 0.5);
        one_layer_loop(&mut sh, 0, 100, 0.25);
        sh.loops[0].edit.rot = rot;
        sh.loops[0].edit.win_in = win.0;
        sh.loops[0].edit.win_out = win.1;
        if back {
            sh.loops[0].play.speed = (-1.0f64).to_bits();
        }
        sh.loops[0].enter(Phase::Overdub);
        sh.loops[0].take.rec_from = 0;
        let data = vec![0.5f32.to_bits(); 60];
        match input::input(&mut sh, &data, 1, 60) {
            Landed::Onto { li: 0, layer: 1, at } => {
                for (f, pos) in at {
                    for ch in 0..CHANNELS {
                        let v = read(&sh, 0, 1, pos, ch) + f32::from_bits(data[f]);
                        sh.write(0, 1, pos, ch, v.to_bits());
                    }
                }
            }
            other => panic!("{:?}", other),
        }
        sh.clock.out_frames = 460;
        let s = said(&mut sh, "0r@60");
        assert!(matches!(s, Said::Draining { li: 0 }), "{:?}", s);
        let t = finish::take_drained(&mut sh, 0, u64::MAX).expect("it drains");
        assert_eq!(finish::overhang(&sh, 0, &t).len(), 60);
        take_back(&mut sh, 0, &t);
        for p in 0..100 {
            assert_eq!(read(&sh, 0, 1, p, 0), 0.0, "rot {} win {:?} back {} at {}", rot, win, back, p);
        }
    }
    let mut sh = fed(400, 0.5);
    one_layer_loop(&mut sh, 0, 100, 0.25);
    sh.loops[0].habit.revox = true;
    sh.loops[0].enter(Phase::Overdub);
    sh.loops[0].take.rec_reached = 400;
    said(&mut sh, "0r@60");
    let t = finish::take_drained(&mut sh, 0, u64::MAX).expect("it drains");
    assert!(finish::overhang(&sh, 0, &t).is_empty(), "a tape was written over, not added to");
}

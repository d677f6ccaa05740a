use itajara::capture::{Capture, Unwritten};

fn feed(c: &mut Capture, in_channels: usize, ch: [usize; 2], frames: &[[f32; 2]]) {
    let mut data = vec![0u32; frames.len() * in_channels];
    for (f, v) in frames.iter().enumerate() {
        data[f * in_channels + ch[0]] = v[0].to_bits();
        data[f * in_channels + ch[1]] = v[1].to_bits();
    }
    c.take(&data, in_channels);
}

fn at(c: &Capture, frame: usize, ch: usize) -> f32 {
    f32::from_bits(c.at(frame, ch))
}

fn peak(c: &Capture) -> f32 {
    match c.peak() {
        Some((lo, hi)) => (f32::from_bits(hi) - f32::from_bits(lo)) / 2.0,
        None => 0.0,
    }
}

#[test]
fn a_capture_reads_its_source_and_nothing_else() {
    let mut c = Capture::new(16);
    c.start(4, [6, 7]);
    feed(&mut c, 24, [6, 7], &[[0.5, -0.25], [0.1, 0.2]]);
    assert_eq!(c.frames(), 2);
    assert_eq!(at(&c, 0, 0), 0.5);
    assert_eq!(at(&c, 0, 1), -0.25);
    assert_eq!(at(&c, 1, 0), 0.1);
}

#[test]
fn filling_the_buffer_stops_and_says_so() {
    let mut c = Capture::new(3);
    c.start(1, [0, 1]);
    feed(&mut c, 2, [0, 1], &[[0.1, 0.1]; 5]);
    assert_eq!(c.frames(), 3, "kept what fitted");
    assert!(c.full(), "and said it filled");
    assert!(!c.is_on(), "and stopped");
}

#[test]
fn a_count_closes_the_capture() {
    let mut c = Capture::new(100);
    c.start(1, [0, 1]);
    c.set_stop_at(4);
    feed(&mut c, 2, [0, 1], &[[0.2, 0.2]; 3]);
    assert!(c.is_on(), "three of four is not four");
    feed(&mut c, 2, [0, 1], &[[0.2, 0.2]; 3]);
    assert!(!c.is_on(), "closed itself at the count");
    assert!(!c.full(), "reaching a count is not filling the buffer");
}

#[test]
fn a_counted_capture_holds_its_count_and_no_more() {
    let mut c = Capture::new(100);
    c.start(1, [0, 1]);
    c.set_stop_at(4);
    feed(&mut c, 2, [0, 1], &[[0.2, 0.2]; 3]);
    feed(&mut c, 2, [0, 1], &[[0.2, 0.2], [0.9, -0.9], [0.9, -0.9]]);
    assert_eq!(c.frames(), 4);
    assert!(c.holds());
    assert_eq!(peak(&c), 0.0, "nothing past the count was taken");

    let mut c = Capture::new(3);
    c.start(1, [0, 1]);
    c.set_stop_at(5);
    feed(&mut c, 2, [0, 1], &[[0.2, 0.2]; 6]);
    assert_eq!(c.frames(), 3);
    assert!(c.full(), "there was no room for the count");
    assert!(!c.is_on());

    let mut c = Capture::new(100);
    c.start(1, [0, 1]);
    feed(&mut c, 2, [0, 1], &[[0.2, 0.2]; 6]);
    c.set_stop_at(4);
    feed(&mut c, 2, [0, 1], &[[0.2, 0.2]; 6]);
    assert_eq!(c.frames(), 6, "the count had passed");
    assert!(!c.is_on() && !c.full());
}

#[test]
fn the_head_trim_only_moves_the_start() {
    let mut c = Capture::new(100);
    c.start(1, [0, 1]);
    let mut frames = vec![[0.0f32, 0.0]; 20];
    frames[10] = [0.6, 0.6];
    feed(&mut c, 2, [0, 1], &frames);
    assert_eq!(c.frames(), 20, "everything was recorded either way");

    assert_eq!(c.head(0.3f32.to_bits(), 4), 0, "unarmed, the take is whole");
    c.set_armed(true);
    assert_eq!(c.head(0.3f32.to_bits(), 4), 6, "the crossing at 10, less the reach of 4");
    assert_eq!(c.head(0.3f32.to_bits(), 100), 0, "a reach past the start clamps to it");
    assert_eq!(c.head(0.9f32.to_bits(), 4), 0, "nothing crossed, so the take is kept whole");
}

#[test]
fn silence_is_measured_with_the_offset_removed() {
    let mut c = Capture::new(100);
    c.start(1, [0, 1]);
    feed(&mut c, 2, [0, 1], &[[-0.023, -0.023]; 8]);
    assert!(peak(&c) < 1.0e-3, "a DC offset is not signal: {}", peak(&c));
    feed(&mut c, 2, [0, 1], &[[0.477, -0.523]; 8]);
    assert!((peak(&c) - 0.5).abs() < 1.0e-6, "a 1.0 swing about the offset: {}", peak(&c));
}

#[test]
fn starting_again_is_the_whole_of_clearing() {
    let mut c = Capture::new(100);
    c.start(1, [0, 1]);
    feed(&mut c, 2, [0, 1], &[[0.5, 0.5]; 6]);
    c.stop();
    assert!(c.holds());
    c.start(1, [0, 1]);
    assert_eq!(c.frames(), 0);
    assert!(!c.holds(), "recording, so it holds nothing finished");
}

#[test]
fn a_picture_of_a_capture_has_its_lowest_and_its_highest() {
    let mut c = Capture::new(8);
    c.start(1, [0, 1]);
    feed(&mut c, 2, [0, 1], &[[0.5, -0.25], [0.1, 0.2], [-0.75, 0.0], [0.0, 0.3]]);
    let (lo, hi) = c.picture(0, 4, 2);
    let f = |v: &Vec<u32>| v.iter().map(|b| f32::from_bits(*b)).collect::<Vec<f32>>();
    assert_eq!(f(&lo), vec![-0.25, -0.75]);
    assert_eq!(f(&hi), vec![0.5, 0.3]);
}

#[test]
fn only_what_a_file_can_hold_is_written() {
    let mut c = Capture::new(8);
    c.start(1, [0, 1]);
    feed(&mut c, 2, [0, 1], &[[0.5, -0.25], [0.1, 0.2], [-0.75, 0.0], [0.0, 0.3]]);
    assert_eq!(c.write(2, 2, 100, 48_000, "0"), Err(Unwritten::Empty));
    assert_eq!(c.write(0, 4, 3, 48_000, "0"), Err(Unwritten::TooLong));
    let (samples, manifest) = c.write(1, 3, 2, 48_000, "0.000042").unwrap();
    let samples: Vec<f32> = samples.into_iter().map(f32::from_bits).collect();
    assert_eq!(samples, vec![0.1, 0.2, -0.75, 0.0]);
    assert_eq!(
        manifest,
        "{\n  \"version\": 1,\n  \"sampleRate\": 48000,\n  \"loopFrames\": 2,\n  \"loopSecs\": \
         0.000042,\n  \"layers\": [\n    {\"file\":\"capture-00.wav\",\"len\":2,\"channels\":2,\
         \"period\":1,\"phase\":0}\n  ]\n}\n"
    );
}

#[test]
fn a_discarded_capture_holds_nothing() {
    let mut c = Capture::new(8);
    c.start(1, [0, 1]);
    feed(&mut c, 2, [0, 1], &[[0.5, 0.5]; 4]);
    assert_eq!(c.stop(), 4);
    c.discard();
    assert_eq!(c.frames(), 0);
    assert!(!c.holds());
}

#[test]
fn a_capture_without_room_drops_everything_and_says_so() {
    let mut c = Capture::new(0);
    c.start(1, [0, 1]);
    assert!(c.is_on());
    c.take(&vec![], 2);
    assert!(c.is_on() && !c.full(), "nothing came, and nothing was dropped");
    feed(&mut c, 2, [0, 1], &[[0.1, 0.1]]);
    assert_eq!(c.frames(), 0);
    assert!(c.full());
    assert!(!c.is_on());
    assert_eq!(c.peak(), None);
}

#[test]
fn the_extremes_are_of_everything_since_the_start() {
    let mut c = Capture::new(16);
    c.start(1, [0, 1]);
    feed(&mut c, 2, [0, 1], &[[0.9, -0.9]]);
    c.start(1, [0, 1]);
    assert_eq!(c.peak(), None);
    feed(&mut c, 2, [0, 1], &[[0.1, 0.2]]);
    feed(&mut c, 2, [0, 1], &[[-0.3, 0.0], [f32::NAN, 0.25]]);
    assert_eq!(c.peak(), Some(((-0.3f32).to_bits(), 0.25f32.to_bits())));
}

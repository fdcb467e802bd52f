use sequencer::looper::Looper;

#[test]
fn frames_per_beat_uses_integer_division() {
    let l = Looper::new(240, 48000, 16);
    assert_eq!(l.frames_per_beat, 12000);
    assert_eq!((l.beat, l.sub_beat_frame), (0, 0));
    let l = Looper::new(7, 44100, 16);
    assert_eq!(l.frames_per_beat, 378000);
    let l = Looper::new(7, 1, 16);
    assert_eq!(l.frames_per_beat, 8);
}

#[test]
fn next_counts_frames_then_beats() {
    let mut l = Looper::new(60, 3, 4);
    assert_eq!(l.frames_per_beat, 3);
    assert_eq!(l.next(), (0, 1));
    assert_eq!(l.next(), (0, 2));
    assert_eq!(l.next(), (1, 0));
    assert_eq!(l.next(), (1, 1));
}

#[test]
fn looper_returns_to_start_after_one_pattern() {
    for &(bpm, rate, len) in &[(240usize, 48usize, 16usize), (120, 10, 4), (60, 1, 3), (7, 2, 5)] {
        let mut l = Looper::new(bpm, rate, len);
        let period = len * l.frames_per_beat;
        let mut last = (usize::MAX, usize::MAX);
        for k in 0..period {
            last = l.next();
            if k + 1 < period {
                assert_ne!(last, (0, 0));
            }
        }
        assert_eq!(last, (0, 0));
        assert_eq!((l.beat, l.sub_beat_frame), (0, 0));
    }
}

#[test]
fn beat_wraps_at_pattern_length() {
    let mut l = Looper::new(1, 1, 2);
    assert_eq!(l.frames_per_beat, 60);
    for _ in 0..60 {
        l.next();
    }
    assert_eq!((l.beat, l.sub_beat_frame), (1, 0));
    for _ in 0..59 {
        l.next();
    }
    assert_eq!(l.next(), (0, 0));
}

use crossbeam_channel::bounded;
use sequencer::config::Config;
use sequencer::engine::Engine;
use sequencer::sample::Sample;
use sequencer::state::{Command, EngineState, Outcome, Reaction};

fn small() -> Config {
    // one bar of four beats, two tracks, 60 beats per minute
    Config::new(1, 4, 2, 60).unwrap()
}

fn mono(data: Vec<i16>) -> Sample {
    Sample::new(2, 1, data)
}

fn render(e: &mut Engine, n: usize) -> (Vec<i64>, Vec<i64>) {
    let mut l = vec![7; n];
    let mut r = vec![7; n];
    e.render(&mut l, &mut r);
    (l, r)
}

#[test]
fn config_rejects_bad_shapes() {
    assert!(Config::new(0, 4, 2, 60).is_none());
    assert!(Config::new(4, 0, 2, 60).is_none());
    assert!(Config::new(4, 4, 2, 0).is_none());
    assert!(Config::new(usize::MAX, 2, 1, 60).is_none());
    assert!(Config::new(1, 1, usize::MAX, 60).is_none());
    let c = Config::new(4, 4, 20, 240).unwrap();
    assert!(c == Config::standard());
    assert_eq!(c.pattern_len(), 16);
}

#[test]
fn new_state_is_empty_and_paused() {
    let s = EngineState::new(Config::standard());
    assert_eq!(s.tracks.len(), 20);
    assert!(s.tracks.iter().all(|t| t.is_none()));
    assert_eq!(s.grid.len(), 20 * 16);
    assert!(s.grid.iter().all(|c| !*c));
    assert!(!s.playing);
    assert_eq!(s.bpm, 240);
}

#[test]
fn apply_updates_and_rejects() {
    let mut s = EngineState::new(small());
    assert_eq!(s.apply(Command::SetStep(1, 3, true)), Outcome::Updated);
    assert!(s.is_step_on(1, 3));
    assert!(!s.is_step_on(0, 3));
    assert_eq!(s.grid[1 * 4 + 3], true);
    assert_eq!(s.apply(Command::SetStep(2, 0, true)), Outcome::Rejected);
    assert_eq!(s.apply(Command::SetStep(0, 4, true)), Outcome::Rejected);
    assert_eq!(s.apply(Command::SetStep(1, 3, false)), Outcome::Updated);
    assert!(!s.is_step_on(1, 3));
    assert_eq!(s.apply(Command::Play), Outcome::Updated);
    assert!(s.playing);
    assert_eq!(s.apply(Command::Pause), Outcome::Updated);
    assert!(!s.playing);
    assert_eq!(s.apply(Command::AssignSample(2, mono(vec![1]))), Outcome::Rejected);
    assert!(s.tracks.iter().all(|t| t.is_none()));
    assert_eq!(s.apply(Command::Shutdown), Outcome::Shutdown);
}

#[test]
fn reassigning_a_sample_resets_playback() {
    let mut s = EngineState::new(small());
    assert_eq!(s.apply(Command::AssignSample(0, mono(vec![1, 2, 3]))), Outcome::Updated);
    {
        let t = s.tracks[0].as_mut().unwrap();
        t.reset();
        t.progress();
        assert_eq!(t.cursor, 1);
    }
    assert_eq!(s.apply(Command::AssignSample(0, mono(vec![9, 8]))), Outcome::Updated);
    let t = s.tracks[0].as_ref().unwrap();
    assert_eq!(t.sample.data, vec![9, 8]);
    assert!(!t.playing);
    assert_eq!(t.cursor, 0);
    assert!(s.tracks[1].is_none());
}

#[test]
fn reduce_publishes_copies_and_stops() {
    let mut s = EngineState::new(small());
    match s.reduce(Command::SetStep(0, 2, true)) {
        Reaction::Publish(p) => {
            assert_eq!(p.grid, s.grid);
            assert!(p.is_step_on(0, 2));
            assert_eq!(p.playing, s.playing);
        }
        _ => panic!("expected a snapshot"),
    }
    assert!(matches!(s.reduce(Command::SetStep(5, 0, true)), Reaction::Ignore));
    assert!(matches!(s.reduce(Command::Shutdown), Reaction::Stop));
}

#[test]
fn playing_engine_triggers_and_mixes() {
    let mut s = EngineState::new(small());
    s.apply(Command::AssignSample(0, mono(vec![100, 200, 300])));
    s.apply(Command::AssignSample(1, Sample::new(2, 2, vec![10, -10, 20, -20])));
    s.apply(Command::SetStep(0, 1, true));
    s.apply(Command::SetStep(1, 2, true));
    s.apply(Command::Play);
    let mut e = Engine::new(small(), 2);
    assert_eq!(e.looper.frames_per_beat, 2);
    e.adopt(s.snapshot());
    // clock phases: (0,1) (1,0) (1,1) (2,0) (2,1) (3,0)
    let (l, r) = render(&mut e, 6);
    assert_eq!(l, vec![0, 100, 200, 300 + 10, 20, 0]);
    assert_eq!(r, vec![0, 100, 200, 300 - 10, -20, 0]);
    assert_eq!((e.looper.beat, e.looper.sub_beat_frame), (3, 0));
}

#[test]
fn mixed_sum_exceeds_sixteen_bits() {
    let mut s = EngineState::new(small());
    s.apply(Command::AssignSample(0, mono(vec![i16::MAX])));
    s.apply(Command::AssignSample(1, mono(vec![i16::MAX])));
    s.apply(Command::SetStep(0, 1, true));
    s.apply(Command::SetStep(1, 1, true));
    s.apply(Command::Play);
    let mut e = Engine::new(small(), 2);
    e.adopt(s.snapshot());
    let (l, _) = render(&mut e, 2);
    assert_eq!(l, vec![0, 2 * i16::MAX as i64]);
}

#[test]
fn pause_freezes_and_resume_continues() {
    let mut s = EngineState::new(small());
    s.apply(Command::AssignSample(0, mono(vec![5, 6, 7, 8, 9])));
    s.apply(Command::SetStep(0, 0, true));
    s.apply(Command::Play);
    let mut e = Engine::new(small(), 2);
    e.adopt(s.snapshot());
    render(&mut e, 3);
    let at_pause = (e.looper.beat, e.looper.sub_beat_frame);
    assert_eq!(at_pause, (1, 1));
    s.apply(Command::Pause);
    e.adopt(s.snapshot());
    let (l, r) = render(&mut e, 5);
    assert_eq!(l, vec![0; 5]);
    assert_eq!(r, vec![0; 5]);
    assert_eq!((e.looper.beat, e.looper.sub_beat_frame), at_pause);
    s.apply(Command::Play);
    e.adopt(s.snapshot());
    assert_eq!(e.next_frame(), (0, 0));
    assert_eq!((e.looper.beat, e.looper.sub_beat_frame), (2, 0));
    // (2,1) (3,0) (3,1) then beat 0 triggers the sample
    render(&mut e, 3);
    assert_eq!(e.next_frame(), (5, 5));
    assert_eq!(e.next_frame(), (6, 6));
}

#[test]
fn unassigned_track_never_sounds() {
    let mut s = EngineState::new(small());
    for step in 0..4 {
        s.apply(Command::SetStep(1, step, true));
    }
    s.apply(Command::Play);
    let mut e = Engine::new(small(), 2);
    e.adopt(s.snapshot());
    let (l, r) = render(&mut e, 40);
    assert!(l.iter().all(|x| *x == 0));
    assert!(r.iter().all(|x| *x == 0));
}

#[test]
fn final_state_reaches_audio_side_through_small_queue() {
    let (tx, rx) = bounded::<EngineState>(2);
    let mut reducer = EngineState::new(small());
    let mut e = Engine::new(small(), 2);
    let mut dropped = 0;
    for k in 0..20usize {
        let cmd = Command::SetStep(k % 2, k % 4, k % 3 != 0);
        if let Reaction::Publish(snap) = reducer.reduce(cmd) {
            if tx.try_send(snap).is_err() {
                dropped += 1;
            }
        }
        if k % 5 == 3 {
            for snap in rx.try_iter() {
                e.adopt(snap);
            }
        }
    }
    for snap in rx.try_iter() {
        e.adopt(snap);
    }
    assert!(dropped > 0);
    assert_eq!(e.state.grid, reducer.grid);
}

#[test]
fn paused_buffer_is_silenced() {
    let mut e = Engine::new(small(), 2);
    let (l, r) = render(&mut e, 4);
    assert_eq!(l, vec![0; 4]);
    assert_eq!(r, vec![0; 4]);
    assert_eq!((e.looper.beat, e.looper.sub_beat_frame), (0, 0));
}

use vad_core::{
    Controller, Phase, ResumeOutcome, ResumePoll, RingBuffer, StreamParams, WindowOutcome,
};

const THRESHOLD: i32 = 100;

fn mono_params() -> StreamParams {
    StreamParams::new(48_000, 1).expect("valid configuration")
}

fn tone(len: usize) -> Vec<i32> {
    (0..len).map(|i| if i % 2 == 0 { 8000 } else { -8000 }).collect()
}

#[test]
fn boundary_pauses_capture_and_hands_one_utterance_off() {
    let mut ctl = Controller::new(mono_params(), THRESHOLD, 8);
    let mut queue = RingBuffer::new(64);
    queue.push_block(&tone(6));
    queue.push_block(&vec![0i32; 8]);
    match ctl.ingest(&mut queue, false) {
        WindowOutcome::Emit(utt) => {
            assert_eq!(utt.samples, tone(6));
            assert_eq!(utt.sample_rate, 48_000);
            assert_eq!(utt.channels, 1);
        }
        _ => panic!("a completed utterance was expected"),
    }
    assert_eq!(ctl.phase(), Phase::AwaitingResume);
    // the queue was drained before the pause: nothing stale is buffered
    assert_eq!(queue.len(), 0);
}

#[test]
fn silence_backs_off_and_keeps_capturing() {
    let mut ctl = Controller::new(mono_params(), THRESHOLD, 8);
    let mut queue = RingBuffer::new(64);
    queue.push_block(&vec![0i32; 16]);
    assert!(matches!(ctl.ingest(&mut queue, false), WindowOutcome::Backoff));
    assert_eq!(ctl.phase(), Phase::Capturing);
    assert_eq!(queue.len(), 0);
}

#[test]
fn quit_flag_stops_the_loop_iteration() {
    let mut ctl = Controller::new(mono_params(), THRESHOLD, 8);
    let mut queue = RingBuffer::new(64);
    queue.push_block(&vec![0i32; 4]);
    assert!(matches!(ctl.ingest(&mut queue, true), WindowOutcome::Stop));
    assert_eq!(ctl.phase(), Phase::Stopped);
}

#[test]
fn no_stale_samples_in_the_next_utterance() {
    let mut ctl = Controller::new(mono_params(), THRESHOLD, 8);
    let mut queue = RingBuffer::new(256);
    let mut first = tone(6);
    first.extend(vec![0i32; 8]);
    queue.push_block(&first);
    assert!(matches!(ctl.ingest(&mut queue, false), WindowOutcome::Emit(_)));
    assert!(matches!(
        ctl.on_resume_poll(ResumePoll::Signal(true), false),
        ResumeOutcome::Resume
    ));
    // a second round: only samples captured after the boundary appear
    let mut second = tone(4);
    second.extend(vec![0i32; 8]);
    queue.push_block(&second);
    match ctl.ingest(&mut queue, false) {
        WindowOutcome::Emit(utt) => assert_eq!(utt.samples, tone(4)),
        _ => panic!("a second utterance was expected"),
    }
}

#[test]
fn stereo_capture_is_downmixed_before_analysis() {
    let params = StreamParams::new(44_100, 2).expect("valid configuration");
    assert_eq!(params.analysis_rate(), 22_050);
    let mut ctl = Controller::new(params, THRESHOLD, 4);
    let mut queue = RingBuffer::new(64);
    // interleaved stereo frames: mean of each frame drives the analysis
    queue.push_block(&vec![8000, 6000, -8000, -6000, 8000, 6000]);
    queue.push_block(&vec![0i32, 0, 0, 0, 0, 0, 0, 0]);
    match ctl.ingest(&mut queue, false) {
        WindowOutcome::Emit(utt) => {
            assert_eq!(utt.samples, vec![7000, -7000, 7000]);
            assert_eq!(utt.channels, 2);
        }
        _ => panic!("a completed utterance was expected"),
    }
}

#[test]
fn resume_needs_an_explicit_true_signal() {
    let mut ctl = Controller::new(mono_params(), THRESHOLD, 8);
    let mut queue = RingBuffer::new(64);
    let mut w = tone(6);
    w.extend(vec![0i32; 8]);
    queue.push_block(&w);
    assert!(matches!(ctl.ingest(&mut queue, false), WindowOutcome::Emit(_)));

    // a false signal or an empty poll keeps the pause in place
    assert!(matches!(
        ctl.on_resume_poll(ResumePoll::Signal(false), false),
        ResumeOutcome::Wait
    ));
    assert_eq!(ctl.phase(), Phase::AwaitingResume);
    assert!(matches!(
        ctl.on_resume_poll(ResumePoll::Empty, false),
        ResumeOutcome::Wait
    ));
    assert_eq!(ctl.phase(), Phase::AwaitingResume);

    // only the explicit go-ahead resumes capture
    assert!(matches!(
        ctl.on_resume_poll(ResumePoll::Signal(true), false),
        ResumeOutcome::Resume
    ));
    assert_eq!(ctl.phase(), Phase::Capturing);
}

#[test]
fn closed_resume_channel_is_fatal_without_resuming() {
    let mut ctl = Controller::new(mono_params(), THRESHOLD, 8);
    let mut queue = RingBuffer::new(64);
    let mut w = tone(6);
    w.extend(vec![0i32; 8]);
    queue.push_block(&w);
    assert!(matches!(ctl.ingest(&mut queue, false), WindowOutcome::Emit(_)));
    assert!(matches!(
        ctl.on_resume_poll(ResumePoll::Closed, false),
        ResumeOutcome::ChannelLost
    ));
    assert_eq!(ctl.phase(), Phase::Stopped);
}

#[test]
fn shutdown_during_pause_wait_exits_within_one_poll() {
    let mut ctl = Controller::new(mono_params(), THRESHOLD, 8);
    let mut queue = RingBuffer::new(64);
    let mut w = tone(6);
    w.extend(vec![0i32; 8]);
    queue.push_block(&w);
    assert!(matches!(ctl.ingest(&mut queue, false), WindowOutcome::Emit(_)));
    // the poll that observes the quit flag exits at once, resume or not
    assert!(matches!(
        ctl.on_resume_poll(ResumePoll::Signal(true), true),
        ResumeOutcome::Stop
    ));
    assert_eq!(ctl.phase(), Phase::Stopped);
}

//! The processing-loop controller: one utterance in flight at a time.
//!
//! Each iteration drains the capture queue, down-mixes it, and feeds the
//! segmenter. On an utterance boundary the controller moves to a paused
//! state and the host must pause the input stream, clear the capture queue
//! and hand the utterance downstream; capture resumes only on an explicit
//! `true` resume signal. A cooperative shutdown flag is observed once per
//! iteration and once per resume poll, so the loop exits promptly even while
//! it is waiting for a resume.

use vstd::prelude::*;
use crate::config::StreamParams;
use crate::mix::{downmix, downmixed};
use crate::ring::RingBuffer;
use crate::vad::{emits, has_speech, phase_of, utterance_span, Segmenter, VadPhase};

verus! {

/// A completed utterance: one contiguous mono sample sequence at the
/// session's analysis layout. Ownership moves to the downstream consumer on
/// emission; the core never reads it again.
pub struct Utterance {
    pub samples: Vec<i32>,
    pub sample_rate: u32,
    pub channels: u16,
}

/// Where a capture session stands.
#[derive(Clone, Copy, Debug, PartialEq, Eq, Structural)]
pub enum Phase {
    /// The input stream is running and windows are being analyzed.
    Capturing,
    /// An utterance was handed off; capture is paused until an explicit
    /// resume signal arrives.
    AwaitingResume,
    /// The session is over; the host must stop the stream.
    Stopped,
}

/// What the host loop must do after feeding one drained window through.
pub enum WindowOutcome {
    /// A boundary was found: pause the input stream, clear the capture
    /// queue, hand the utterance to the channel, then poll for resume.
    Emit(Utterance),
    /// Only silence so far: sleep briefly before draining again, to avoid
    /// busy-spinning.
    Backoff,
    /// Shutdown was requested: stop the input stream and exit the loop.
    Stop,
}

/// One observation of the resume channel while capture is paused.
#[derive(Clone, Copy, Debug, PartialEq, Eq, Structural)]
pub enum ResumePoll {
    /// The collaborator sent a value.
    Signal(bool),
    /// Nothing arrived within this poll interval.
    Empty,
    /// The sending end is gone for good.
    Closed,
}

/// What the host loop must do after one resume poll.
#[derive(Clone, Copy, Debug, PartialEq, Eq, Structural)]
pub enum ResumeOutcome {
    /// The explicit go-ahead arrived: play the input stream and capture
    /// again.
    Resume,
    /// No usable signal yet: sleep one poll interval and poll again.
    Wait,
    /// Shutdown was requested: exit without resuming.
    Stop,
    /// The downstream partner is gone: fatal for the session, exit without
    /// resuming.
    ChannelLost,
}

/// Serializes capture with downstream consumption: owns the segmenter and
/// the session phase, and decides, from each drained window or resume poll,
/// what the host loop does next.
pub struct Controller {
    params: StreamParams,
    seg: Segmenter,
    phase: Phase,
}

impl Controller {
    pub closed spec fn params_spec(self) -> StreamParams {
        self.params
    }

    pub closed spec fn seg_spec(self) -> Segmenter {
        self.seg
    }

    pub closed spec fn phase_spec(self) -> Phase {
        self.phase
    }

    pub closed spec fn wf(self) -> bool {
        self.params.valid() && self.seg.wf()
    }

    /// A controller for a fresh capture session: capturing, idle segmenter.
    /// `threshold` is the speech amplitude bound; `need` the trailing
    /// silence, in analysis samples, that closes an utterance.
    pub fn new(params: StreamParams, threshold: i32, need: usize) -> (r: Controller)
        requires
            params.valid(),
            threshold >= 0,
            need >= 1,
        ensures
            r.wf(),
            r.params_spec() == params,
            r.phase_spec() == Phase::Capturing,
            r.seg_spec().threshold_spec() == threshold,
            r.seg_spec().need_spec() == need,
            r.seg_spec().pending_spec() == Seq::<i32>::empty(),
    {
        Controller { params, seg: Segmenter::new(threshold, need), phase: Phase::Capturing }
    }

    pub fn phase(&self) -> (r: Phase)
        ensures
            r == self.phase_spec(),
    {
        self.phase
    }

    /// Feeds one already-down-mixed window through the segmenter and turns
    /// the result into the host's next action. The shutdown flag is
    /// observed once, after the window is classified, as one iteration's
    /// cancellation point.
    pub fn on_window(&mut self, window: &Vec<i32>, quit: bool) -> (r: WindowOutcome)
        requires
            old(self).wf(),
            old(self).phase_spec() == Phase::Capturing,
        ensures
            final(self).wf(),
            final(self).params_spec() == old(self).params_spec(),
            final(self).seg_spec().threshold_spec() == old(self).seg_spec().threshold_spec(),
            final(self).seg_spec().need_spec() == old(self).seg_spec().need_spec(),
            ({
                let h = old(self).seg_spec().pending_spec() + window@;
                let t = old(self).seg_spec().threshold_spec();
                let need = old(self).seg_spec().need_spec();
                if emits(h, t, need) {
                    &&& r matches WindowOutcome::Emit(u) && u.samples@ == utterance_span(h, t)
                        && u.sample_rate == old(self).params_spec().sample_rate && u.channels
                        == old(self).params_spec().channels
                    &&& final(self).phase_spec() == Phase::AwaitingResume
                    &&& final(self).seg_spec().pending_spec() == Seq::<i32>::empty()
                    &&& final(self).seg_spec().phase() == VadPhase::Idle
                } else if quit {
                    &&& r is Stop
                    &&& final(self).phase_spec() == Phase::Stopped
                } else {
                    &&& r is Backoff
                    &&& final(self).phase_spec() == Phase::Capturing
                    &&& final(self).seg_spec().pending_spec() == (if has_speech(h, t) {
                        h
                    } else {
                        Seq::<i32>::empty()
                    })
                    &&& final(self).seg_spec().phase() == phase_of(h, t)
                }
            }),
    {
        match self.seg.accept_window(window) {
            Some(samples) => {
                self.phase = Phase::AwaitingResume;
                WindowOutcome::Emit(
                    Utterance {
                        samples,
                        sample_rate: self.params.sample_rate,
                        channels: self.params.channels,
                    },
                )
            },
            None => {
                if quit {
                    self.phase = Phase::Stopped;
                    WindowOutcome::Stop
                } else {
                    WindowOutcome::Backoff
                }
            },
        }
    }

    /// One full processing iteration: drain everything the capture callback
    /// buffered, down-mix it to the analysis signal, classify, and decide.
    /// The queue is left empty in every case; on an utterance boundary the
    /// segmenter is reset too, so nothing captured before the boundary can
    /// reach the next utterance.
    pub fn ingest(&mut self, queue: &mut RingBuffer, quit: bool) -> (r: WindowOutcome)
        requires
            old(self).wf(),
            old(self).phase_spec() == Phase::Capturing,
            old(queue).wf(),
        ensures
            final(self).wf(),
            final(queue).wf(),
            final(queue).capacity_spec() == old(queue).capacity_spec(),
            final(queue)@ == Seq::<i32>::empty(),
            final(self).params_spec() == old(self).params_spec(),
            final(self).seg_spec().threshold_spec() == old(self).seg_spec().threshold_spec(),
            final(self).seg_spec().need_spec() == old(self).seg_spec().need_spec(),
            ({
                let h = old(self).seg_spec().pending_spec() + downmixed(
                    old(queue)@,
                    old(self).params_spec().channels as int,
                );
                let t = old(self).seg_spec().threshold_spec();
                let need = old(self).seg_spec().need_spec();
                if emits(h, t, need) {
                    &&& r matches WindowOutcome::Emit(u) && u.samples@ == utterance_span(h, t)
                        && u.sample_rate == old(self).params_spec().sample_rate && u.channels
                        == old(self).params_spec().channels
                    &&& final(self).phase_spec() == Phase::AwaitingResume
                    &&& final(self).seg_spec().pending_spec() == Seq::<i32>::empty()
                } else if quit {
                    &&& r is Stop
                    &&& final(self).phase_spec() == Phase::Stopped
                } else {
                    &&& r is Backoff
                    &&& final(self).phase_spec() == Phase::Capturing
                    &&& final(self).seg_spec().pending_spec() == (if has_speech(h, t) {
                        h
                    } else {
                        Seq::<i32>::empty()
                    })
                }
            }),
    {
        let raw = queue.drain();
        let window = downmix(&raw, self.params.channels);
        self.on_window(&window, quit)
    }

    /// One poll of the resume channel while an utterance is downstream.
    ///
    /// Only the explicit go-ahead `Signal(true)` resumes capture; `false`,
    /// an empty poll, or a closed channel never do. A requested shutdown is
    /// honored on the very poll that observes it, so a pause-wait never
    /// outlives the shutdown flag by more than one poll interval; a closed
    /// channel is fatal and also ends the session without resuming.
    pub fn on_resume_poll(&mut self, poll: ResumePoll, quit: bool) -> (r: ResumeOutcome)
        requires
            old(self).wf(),
            old(self).phase_spec() == Phase::AwaitingResume,
        ensures
            final(self).wf(),
            final(self).params_spec() == old(self).params_spec(),
            final(self).seg_spec() == old(self).seg_spec(),
            quit ==> r == ResumeOutcome::Stop && final(self).phase_spec() == Phase::Stopped,
            !quit && poll == ResumePoll::Signal(true) ==> r == ResumeOutcome::Resume,
            !quit && poll == ResumePoll::Closed ==> r == ResumeOutcome::ChannelLost
                && final(self).phase_spec() == Phase::Stopped,
            !quit && (poll == ResumePoll::Signal(false) || poll == ResumePoll::Empty) ==> r
                == ResumeOutcome::Wait && final(self).phase_spec() == Phase::AwaitingResume,
            (final(self).phase_spec() == Phase::Capturing) <==> (!quit && poll
                == ResumePoll::Signal(true)),
            (r == ResumeOutcome::Resume) <==> (!quit && poll == ResumePoll::Signal(true)),
    {
        if quit {
            self.phase = Phase::Stopped;
            ResumeOutcome::Stop
        } else {
            match poll {
                ResumePoll::Signal(true) => {
                    self.phase = Phase::Capturing;
                    ResumeOutcome::Resume
                },
                ResumePoll::Signal(false) => ResumeOutcome::Wait,
                ResumePoll::Empty => ResumeOutcome::Wait,
                ResumePoll::Closed => {
                    self.phase = Phase::Stopped;
                    ResumeOutcome::ChannelLost
                },
            }
        }
    }
}

} // verus!

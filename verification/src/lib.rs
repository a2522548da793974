//! Core of a microphone capture and segmentation pipeline: a bounded
//! single-producer/single-consumer sample queue, a voice-activity-driven
//! utterance segmenter, and the pause/resume protocol that serializes
//! capture with downstream consumption of each utterance.

use vstd::prelude::*;

pub mod config;
pub mod coordinator;
pub mod mix;
pub mod ring;
pub mod vad;

pub use config::{queue_capacity, silence_samples_for, StreamParams};
pub use coordinator::{Controller, Phase, ResumeOutcome, ResumePoll, Utterance, WindowOutcome};
pub use mix::downmix;
pub use ring::{PushOutcome, RingBuffer};
pub use vad::{Segmenter, VadPhase};

verus! {

/// Fatal and non-fatal conditions of a capture session.
#[derive(Clone, Copy, Debug, PartialEq, Eq, Structural)]
pub enum PipelineError {
    /// No usable input device, or stream negotiation/start/pause/resume failed.
    Device,
    /// The downstream end of the utterance or resume channel is gone.
    ChannelClosed,
    /// A stream configuration with zero sample rate or zero channels.
    BadConfig,
}

} // verus!

//! Stream configuration negotiated once at startup, and the sizing rules
//! derived from it: the analysis rate after down-mixing and the capacity of
//! the capture queue for a given latency budget.

use vstd::prelude::*;
use crate::PipelineError;

verus! {

/// The sample layout of a capture session: rate in Hz and channel count.
/// Samples are handled as plain integer amplitudes. Both fields are fixed
/// for the lifetime of a session.
#[derive(Clone, Copy, Debug, PartialEq, Eq, Structural)]
pub struct StreamParams {
    pub sample_rate: u32,
    pub channels: u16,
}

impl StreamParams {
    /// A configuration is malformed when either the rate or the channel
    /// count is zero; such a configuration is rejected before any stream
    /// is opened.
    pub open spec fn valid(self) -> bool {
        self.sample_rate > 0 && self.channels > 0
    }

    /// Builds a configuration, rejecting a malformed one.
    pub fn new(sample_rate: u32, channels: u16) -> (r: Result<StreamParams, PipelineError>)
        ensures
            sample_rate > 0 && channels > 0 ==> (r == Ok::<StreamParams, PipelineError>(
                StreamParams { sample_rate, channels },
            )),
            !(sample_rate > 0 && channels > 0) ==> (r == Err::<StreamParams, PipelineError>(
                PipelineError::BadConfig,
            )),
            r is Ok ==> r.unwrap().valid(),
    {
        if sample_rate > 0 && channels > 0 {
            Ok(StreamParams { sample_rate, channels })
        } else {
            Err(PipelineError::BadConfig)
        }
    }

    /// The rate at which a down-mixed mono signal is analyzed: one analysis
    /// sample per captured frame, so the capture rate divided by the actual
    /// channel count rather than a hard-coded divisor.
    pub fn analysis_rate(&self) -> (r: u32)
        requires
            self.valid(),
        ensures
            r == self.sample_rate as int / self.channels as int,
    {
        self.sample_rate / (self.channels as u32)
    }
}

/// Converts the trailing-silence duration from milliseconds to a count of
/// analysis samples, for a segmenter built over this rate.
pub fn silence_samples_for(threshold_ms: u32, analysis_rate: u32) -> (r: usize)
    requires
        threshold_ms as int * analysis_rate as int / 1000 <= usize::MAX as int,
    ensures
        r as int == threshold_ms as int * analysis_rate as int / 1000,
{
    proof {
        assert(threshold_ms as int * analysis_rate as int <= 0xffff_ffff * 0xffff_ffff)
            by (nonlinear_arith)
            requires
                0 <= threshold_ms as int <= 0xffff_ffff,
                0 <= analysis_rate as int <= 0xffff_ffff,
        ;
    }
    let total: u64 = (threshold_ms as u64) * (analysis_rate as u64) / 1000;
    total as usize
}

/// How many samples the capture queue must hold for a given latency budget:
/// twice the samples that accumulate over `latency_ms`, giving slack against
/// scheduling jitter between the capture callback and the processing loop.
pub fn queue_capacity(latency_ms: u32, params: StreamParams) -> (r: usize)
    requires
        params.valid(),
        2 * (latency_ms as int * params.sample_rate as int / 1000) * params.channels as int
            <= usize::MAX as int,
    ensures
        r as int == 2 * (latency_ms as int * params.sample_rate as int / 1000)
            * params.channels as int,
{
    proof {
        assert(latency_ms as int * params.sample_rate as int <= 0xffff_ffff * 0xffff_ffff)
            by (nonlinear_arith)
            requires
                0 <= latency_ms as int <= 0xffff_ffff,
                0 <= params.sample_rate as int <= 0xffff_ffff,
        ;
    }
    let frames: u64 = (latency_ms as u64) * (params.sample_rate as u64) / 1000;
    proof {
        assert(2 * frames as int * params.channels as int <= usize::MAX as int)
            by (nonlinear_arith)
            requires
                frames as int == latency_ms as int * params.sample_rate as int / 1000,
                params.channels as int >= 1,
                2 * (latency_ms as int * params.sample_rate as int / 1000)
                    * params.channels as int <= usize::MAX as int,
        ;
    }
    let total: u64 = 2 * frames * (params.channels as u64);
    total as usize
}

} // verus!

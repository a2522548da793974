//! Voice-activity segmentation: classifies samples against an amplitude
//! threshold, tracks whether speech has been observed and how much contiguous
//! silence has followed it, and closes an utterance once the trailing silence
//! reaches the configured duration.
//!
//! The segmenter works on down-mixed mono samples, so durations are counted
//! at the analysis rate (one sample per captured frame).

use vstd::prelude::*;

verus! {

/// A sample counts as speech when its amplitude is strictly above the
/// threshold in either direction.
pub open spec fn is_speech(sample: i32, threshold: i32) -> bool {
    sample > threshold || sample < -threshold
}

/// Whether any sample of the window counts as speech.
pub open spec fn has_speech(w: Seq<i32>, threshold: i32) -> bool {
    exists|k: int| 0 <= k < w.len() && is_speech(w[k], threshold)
}

/// Length of the contiguous run of silence at the end of the window.
pub open spec fn trailing_silence(w: Seq<i32>, threshold: i32) -> int
    decreases w.len(),
{
    if w.len() == 0 {
        0
    } else if is_speech(w.last(), threshold) {
        0
    } else {
        1 + trailing_silence(w.drop_last(), threshold)
    }
}

/// Index of the first speech sample of the window; meaningful only when the
/// window has speech.
pub open spec fn first_speech(w: Seq<i32>, threshold: i32) -> int
    decreases w.len(),
{
    if w.len() == 0 {
        0
    } else if has_speech(w.drop_last(), threshold) {
        first_speech(w.drop_last(), threshold)
    } else {
        w.len() - 1
    }
}

/// The rolling segmentation state: no speech yet, speech in progress, or
/// silence accumulating after speech.
#[derive(Clone, Copy, Debug, PartialEq, Eq, Structural)]
pub enum VadPhase {
    Idle,
    Speaking,
    TrailingSilence,
}

/// The phase that a history of accumulated samples puts the segmenter in.
pub open spec fn phase_of(w: Seq<i32>, threshold: i32) -> VadPhase {
    if !has_speech(w, threshold) {
        VadPhase::Idle
    } else if trailing_silence(w, threshold) == 0 {
        VadPhase::Speaking
    } else {
        VadPhase::TrailingSilence
    }
}

/// Whether a history of accumulated samples completes an utterance: speech
/// was observed, and at least `need` samples of contiguous silence follow it.
pub open spec fn emits(w: Seq<i32>, threshold: i32, need: int) -> bool {
    has_speech(w, threshold) && trailing_silence(w, threshold) >= need
}

/// The utterance carved out of a completed history: from the first speech
/// sample up to the onset of the trailing silence.
pub open spec fn utterance_span(w: Seq<i32>, threshold: i32) -> Seq<i32> {
    w.subrange(first_speech(w, threshold), w.len() - trailing_silence(w, threshold))
}

/// Trailing silence is a well-formed run: it never exceeds the window, every
/// sample inside it is silent, and the sample just before it (if any) is
/// speech.
pub proof fn lemma_trailing_silence_run(w: Seq<i32>, threshold: i32)
    ensures
        0 <= trailing_silence(w, threshold) <= w.len(),
        forall|k: int|
            w.len() - trailing_silence(w, threshold) <= k < w.len() ==> !is_speech(
                w[k],
                threshold,
            ),
        trailing_silence(w, threshold) < w.len() ==> is_speech(
            w[w.len() - trailing_silence(w, threshold) - 1],
            threshold,
        ),
    decreases w.len(),
{
    if w.len() == 0 {
    } else if is_speech(w.last(), threshold) {
    } else {
        let sub = w.drop_last();
        lemma_trailing_silence_run(sub, threshold);
        assert forall|k: int|
            w.len() - trailing_silence(w, threshold) <= k < w.len() implies !is_speech(
            w[k],
            threshold,
        ) by {
            if k < w.len() - 1 {
                assert(w[k] == sub[k]);
            }
        }
        if trailing_silence(w, threshold) < w.len() {
            assert(w[w.len() - trailing_silence(w, threshold) - 1] == sub[sub.len()
                - trailing_silence(sub, threshold) - 1]);
        }
    }
}

/// The first speech index is what its name says: in range, speech, and
/// nothing before it is speech.
pub proof fn lemma_first_speech(w: Seq<i32>, threshold: i32)
    requires
        has_speech(w, threshold),
    ensures
        0 <= first_speech(w, threshold) < w.len(),
        is_speech(w[first_speech(w, threshold)], threshold),
        forall|k: int| 0 <= k < first_speech(w, threshold) ==> !is_speech(w[k], threshold),
    decreases w.len(),
{
    let sub = w.drop_last();
    if has_speech(sub, threshold) {
        lemma_first_speech(sub, threshold);
        assert(w[first_speech(sub, threshold)] == sub[first_speech(sub, threshold)]);
        assert forall|k: int| 0 <= k < first_speech(w, threshold) implies !is_speech(
            w[k],
            threshold,
        ) by {
            assert(w[k] == sub[k]);
        }
    } else {
        let k = choose|k: int| 0 <= k < w.len() && is_speech(w[k], threshold);
        if k < w.len() - 1 {
            assert(sub[k] == w[k]);
            assert(is_speech(sub[k], threshold));
            assert(false);
        }
        assert forall|j: int| 0 <= j < w.len() - 1 implies !is_speech(w[j], threshold) by {
            assert(sub[j] == w[j]);
            assert(!is_speech(sub[j], threshold));
        }
    }
}

/// How one appended sample moves the segmentation quantities: speech resets
/// the silence run and fixes the first-speech index the first time; silence
/// extends the run.
pub proof fn lemma_extend_history(w: Seq<i32>, x: i32, threshold: i32)
    ensures
        has_speech(w.push(x), threshold) == (has_speech(w, threshold) || is_speech(x, threshold)),
        trailing_silence(w.push(x), threshold) == if is_speech(x, threshold) {
            0int
        } else {
            trailing_silence(w, threshold) + 1
        },
        has_speech(w, threshold) ==> first_speech(w.push(x), threshold) == first_speech(
            w,
            threshold,
        ),
        !has_speech(w, threshold) && is_speech(x, threshold) ==> first_speech(w.push(x), threshold)
            == w.len(),
{
    let w1 = w.push(x);
    assert(w1.drop_last() =~= w);
    assert(w1.last() == x);
    if has_speech(w, threshold) {
        let k = choose|k: int| 0 <= k < w.len() && is_speech(w[k], threshold);
        assert(is_speech(w1[k], threshold));
    }
    if is_speech(x, threshold) {
        assert(is_speech(w1[w.len() as int], threshold));
    }
    if has_speech(w1, threshold) && !is_speech(x, threshold) {
        let k = choose|k: int| 0 <= k < w1.len() && is_speech(w1[k], threshold);
        assert(k < w.len());
        assert(is_speech(w[k], threshold));
    }
}

/// The utterance segmenter: accumulates drained windows since the last
/// boundary, tracks the rolling speech/silence state, and closes an
/// utterance once enough trailing silence has been observed.
pub struct Segmenter {
    /// Amplitude above which a sample counts as speech.
    threshold: i32,
    /// Contiguous silent samples (at the analysis rate) needed after speech
    /// to close an utterance.
    need: usize,
    /// Samples accumulated since the last boundary or discard.
    pending: Vec<i32>,
    /// Whether any accumulated sample counted as speech.
    speech_seen: bool,
    /// Length of the silent run at the end of `pending`; maintained once
    /// speech has been seen.
    trailing: usize,
    /// Index in `pending` of the first speech sample; meaningful only while
    /// `speech_seen` holds.
    first_idx: usize,
}

impl Segmenter {
    pub closed spec fn threshold_spec(self) -> i32 {
        self.threshold
    }

    pub closed spec fn need_spec(self) -> int {
        self.need as int
    }

    /// The samples accumulated since the last boundary.
    pub closed spec fn pending_spec(self) -> Seq<i32> {
        self.pending@
    }

    /// Internal invariant: the cached flags and cursors agree with the
    /// accumulated samples, and a segmenter with no observed speech holds
    /// nothing (pure silence is discarded, never accumulated).
    pub closed spec fn wf(self) -> bool {
        &&& self.threshold >= 0
        &&& self.need >= 1
        &&& self.speech_seen == has_speech(self.pending@, self.threshold)
        &&& (self.speech_seen ==> self.trailing as int == trailing_silence(
            self.pending@,
            self.threshold,
        ) && self.first_idx as int == first_speech(self.pending@, self.threshold))
        &&& (!self.speech_seen ==> self.pending@.len() == 0)
    }

    /// The phase of the state machine the segmenter is in.
    pub open spec fn phase(self) -> VadPhase {
        phase_of(self.pending_spec(), self.threshold_spec())
    }

    /// A fresh, idle segmenter. `threshold` is the speech amplitude bound;
    /// `need` is the trailing-silence duration in analysis samples that
    /// closes an utterance.
    pub fn new(threshold: i32, need: usize) -> (r: Segmenter)
        requires
            threshold >= 0,
            need >= 1,
        ensures
            r.wf(),
            r.threshold_spec() == threshold,
            r.need_spec() == need,
            r.pending_spec() == Seq::<i32>::empty(),
            r.phase() == VadPhase::Idle,
    {
        let r = Segmenter {
            threshold,
            need,
            pending: Vec::new(),
            speech_seen: false,
            trailing: 0,
            first_idx: 0,
        };
        proof {
            assert(r.pending@ =~= Seq::<i32>::empty());
        }
        r
    }

    /// The phase the segmenter is currently in.
    pub fn current_phase(&self) -> (r: VadPhase)
        requires
            self.wf(),
        ensures
            r == self.phase(),
    {
        proof {
            if self.speech_seen {
                lemma_trailing_silence_run(self.pending@, self.threshold);
            }
        }
        if !self.speech_seen {
            VadPhase::Idle
        } else if self.trailing == 0 {
            VadPhase::Speaking
        } else {
            VadPhase::TrailingSilence
        }
    }

    /// Feeds one drained window of analysis samples through the segmenter.
    ///
    /// Over the whole accumulated history (what was pending plus this
    /// window), exactly one of three things happens:
    /// - the history completes an utterance: the span from the first speech
    ///   sample to the onset of the trailing silence is returned, and the
    ///   segmenter resets to idle with nothing accumulated;
    /// - the history holds no speech at all: it is discarded as pure silence,
    ///   nothing is returned, and the segmenter stays idle;
    /// - speech was observed but the trailing silence is still short of the
    ///   threshold: nothing is returned and the whole history stays
    ///   accumulated, the phase following the history's tail.
    #[verifier::rlimit(100)]
    pub fn accept_window(&mut self, window: &Vec<i32>) -> (r: Option<Vec<i32>>)
        requires
            old(self).wf(),
        ensures
            final(self).wf(),
            final(self).threshold_spec() == old(self).threshold_spec(),
            final(self).need_spec() == old(self).need_spec(),
            ({
                let h = old(self).pending_spec() + window@;
                let t = old(self).threshold_spec();
                if emits(h, t, old(self).need_spec()) {
                    &&& r matches Some(u) && u@ == utterance_span(h, t)
                    &&& final(self).pending_spec() == Seq::<i32>::empty()
                    &&& final(self).phase() == VadPhase::Idle
                } else if !has_speech(h, t) {
                    &&& r is None
                    &&& final(self).pending_spec() == Seq::<i32>::empty()
                    &&& final(self).phase() == VadPhase::Idle
                } else {
                    &&& r is None
                    &&& final(self).pending_spec() == h
                    &&& final(self).phase() == phase_of(h, t)
                }
            }),
    {
        let ghost pre = self.pending@;
        let mut i: usize = 0;
        while i < window.len()
            invariant
                self.threshold == old(self).threshold,
                self.need == old(self).need,
                self.threshold >= 0,
                self.need >= 1,
                i <= window@.len(),
                self.pending@ == pre + window@.take(i as int),
                self.speech_seen == has_speech(self.pending@, self.threshold),
                self.speech_seen ==> self.trailing as int == trailing_silence(
                    self.pending@,
                    self.threshold,
                ) && self.first_idx as int == first_speech(self.pending@, self.threshold),
                !self.speech_seen ==> pre.len() == 0,
            decreases window@.len() - i,
        {
            let s = window[i];
            let speech = s > self.threshold || s < -self.threshold;
            proof {
                lemma_extend_history(self.pending@, s, self.threshold);
                lemma_trailing_silence_run(self.pending@, self.threshold);
                assert((pre + window@.take(i as int)).push(s) =~= pre + window@.take(i + 1));
            }
            if speech {
                if !self.speech_seen {
                    self.first_idx = self.pending.len();
                }
                self.pending.push(s);
                self.speech_seen = true;
                self.trailing = 0;
            } else {
                self.pending.push(s);
                if self.speech_seen {
                    // the silent run is bounded by the vector's usize length
                    let _len: usize = self.pending.len();
                    self.trailing = self.trailing + 1;
                }
            }
            i = i + 1;
        }
        proof {
            assert(pre + window@.take(window@.len() as int) =~= pre + window@);
        }
        let ghost h = self.pending@;
        let ghost t = self.threshold;
        if self.speech_seen && self.trailing >= self.need {
            proof {
                lemma_trailing_silence_run(h, t);
                lemma_first_speech(h, t);
            }
            let end = self.pending.len() - self.trailing;
            let start = self.first_idx;
            let mut out: Vec<i32> = Vec::new();
            let mut j: usize = start;
            proof {
                assert(out@ =~= h.subrange(start as int, start as int));
            }
            while j < end
                invariant
                    self.pending@ == h,
                    start <= j <= end <= self.pending@.len(),
                    out@ == h.subrange(start as int, j as int),
                decreases end - j,
            {
                proof {
                    assert(h.subrange(start as int, j + 1) =~= h.subrange(
                        start as int,
                        j as int,
                    ).push(h[j as int]));
                }
                out.push(self.pending[j]);
                j = j + 1;
            }
            self.pending = Vec::new();
            self.speech_seen = false;
            self.trailing = 0;
            self.first_idx = 0;
            proof {
                assert(self.pending@ =~= Seq::<i32>::empty());
            }
            Some(out)
        } else if !self.speech_seen {
            self.pending = Vec::new();
            proof {
                assert(self.pending@ =~= Seq::<i32>::empty());
            }
            None
        } else {
            None
        }
    }
}

/// Law: a history with no sample above the speech threshold never completes
/// an utterance and leaves the segmenter idle. Fed to `accept_window` on an
/// idle segmenter (whose accumulation is empty, so the history is the window
/// alone), such a window is discarded with no emission.
pub proof fn lemma_silent_window_never_emits(w: Seq<i32>, threshold: i32, need: int)
    requires
        forall|k: int| 0 <= k < w.len() ==> !is_speech(w[k], threshold),
    ensures
        !has_speech(w, threshold),
        !emits(w, threshold, need),
        phase_of(w, threshold) == VadPhase::Idle,
{
}

/// Law: once speech has been observed and the trailing silence reaches the
/// configured duration, the history completes exactly one utterance: it
/// spans from the first speech sample to the onset of the trailing silence
/// — it begins with speech, nothing before it is speech, and everything
/// after its end is silence. `accept_window` then resets to idle.
pub proof fn lemma_trailing_silence_closes_utterance(w: Seq<i32>, threshold: i32, need: int)
    requires
        1 <= need,
        has_speech(w, threshold),
        trailing_silence(w, threshold) >= need,
    ensures
        emits(w, threshold, need),
        utterance_span(w, threshold).len() == w.len() - trailing_silence(w, threshold)
            - first_speech(w, threshold),
        utterance_span(w, threshold).len() > 0,
        utterance_span(w, threshold)[0] == w[first_speech(w, threshold)],
        is_speech(utterance_span(w, threshold)[0], threshold),
        forall|k: int| 0 <= k < first_speech(w, threshold) ==> !is_speech(w[k], threshold),
        forall|k: int|
            w.len() - trailing_silence(w, threshold) <= k < w.len() ==> !is_speech(
                w[k],
                threshold,
            ),
{
    lemma_first_speech(w, threshold);
    lemma_trailing_silence_run(w, threshold);
    let fs = first_speech(w, threshold);
    let ts = trailing_silence(w, threshold);
    assert(fs < w.len() - ts);
}

/// Law: renewed speech after a sub-threshold run of silence cancels the run
/// instead of closing an utterance — no boundary is declared at the brief
/// silence, and the segmenter is speaking again.
pub proof fn lemma_renewed_speech_cancels_silence(w: Seq<i32>, x: i32, threshold: i32, need: int)
    requires
        1 <= need,
        has_speech(w, threshold),
        trailing_silence(w, threshold) < need,
        is_speech(x, threshold),
    ensures
        !emits(w, threshold, need),
        !emits(w.push(x), threshold, need),
        phase_of(w.push(x), threshold) == VadPhase::Speaking,
{
    lemma_extend_history(w, x, threshold);
}

/// Law: every sample of an utterance carved from a history comes from that
/// history alone, at the offset past the first speech sample. Because an
/// emission (and the queue clear that accompanies it) leaves both the
/// segmenter and the queue empty, the next utterance is carved from samples
/// that arrived after the boundary — never from stale pre-boundary ones.
pub proof fn lemma_no_stale_samples(w: Seq<i32>, threshold: i32)
    requires
        has_speech(w, threshold),
    ensures
        forall|k: int|
            0 <= k < utterance_span(w, threshold).len() ==> utterance_span(w, threshold)[k] == w[
                first_speech(w, threshold) + k
            ],
{
    lemma_first_speech(w, threshold);
    lemma_trailing_silence_run(w, threshold);
}

} // verus!

//! Audio pipeline: bounded, restartable sessions that produce visualizer
//! frames at a fixed cadence. A session enforces the framing contract —
//! strictly increasing gap-free sequence numbers, a fixed bar count per
//! frame, a frame budget derived from the requested duration — identically
//! for the live capture source (whose raw magnitudes the caller feeds in)
//! and the deterministic synthetic generator, so downstream consumers are
//! source-agnostic.

use vstd::prelude::*;
use vstd::arithmetic::div_mod::lemma_fundamental_div_mod;
use vstd::arithmetic::mul::lemma_mul_inequality;
use crate::options::AudioBarsSource;

verus! {

/// Why a stream could not be opened.
#[derive(Debug, Clone, Copy, PartialEq, Eq, Structural)]
pub enum AudioError {
    /// The requested capture device cannot be opened. The synthetic source
    /// is never substituted silently.
    SourceUnavailable,
}

/// One visualizer frame: monotonic sequence number, timestamp on the
/// session's cadence, the bar magnitudes, and the source that produced it.
#[derive(Debug, Clone, PartialEq, Eq)]
pub struct AudioFrame {
    pub seq_no: u64,
    pub timestamp_ms: u64,
    pub bars: Vec<u16>,
    pub source: AudioBarsSource,
}

/// Frames a bounded session of `seconds` at one frame per `interval_ms`
/// produces.
pub open spec fn spec_frame_count(seconds: u64, interval_ms: u64) -> int {
    (seconds * 1000) as int / interval_ms as int
}

/// The deterministic magnitude of bar `bar` in frame `seq_no` of the
/// synthetic waveform.
pub open spec fn spec_synth_bar(seq_no: u64, bar: int) -> u16 {
    ((((seq_no % 101) * 37) + ((bar % 101) * 17)) % 101) as u16
}

/// A frame as a session must produce it: sequence number and cadence
/// timestamp in step, the session's bar count and source tag.
pub open spec fn frame_ok(f: AudioFrame, seq_no: u64, interval_ms: u64, bar_count: usize, source: AudioBarsSource) -> bool {
    &&& f.seq_no == seq_no
    &&& f.timestamp_ms == seq_no * interval_ms
    &&& f.bars@.len() == bar_count
    &&& f.source == source
}

/// An open bounded stream of audio frames.
#[derive(Debug, Clone, PartialEq, Eq)]
pub struct AudioSession {
    pub source: AudioBarsSource,
    pub interval_ms: u64,
    pub bar_count: usize,
    /// Frames the whole session may produce.
    pub total_frames: u64,
    /// Sequence number of the next frame; frames already produced.
    pub next_seq: u64,
    pub cancelled: bool,
}

impl AudioSession {
    /// Session invariant: the cadence is positive, production never exceeds
    /// the budget, and every timestamp of the session fits the clock.
    pub open spec fn wf(self) -> bool {
        &&& self.interval_ms >= 1
        &&& self.next_seq <= self.total_frames
        &&& self.total_frames * self.interval_ms <= u64::MAX
    }

    /// A session still owing frames.
    pub open spec fn active(self) -> bool {
        !self.cancelled && self.next_seq < self.total_frames
    }

    /// Stops frame production. The caller releases the underlying capture
    /// resource; every later `next_frame` returns `None`.
    pub fn cancel(&mut self)
        ensures
            final(self).cancelled,
            final(self).source == old(self).source,
            final(self).interval_ms == old(self).interval_ms,
            final(self).bar_count == old(self).bar_count,
            final(self).total_frames == old(self).total_frames,
            final(self).next_seq == old(self).next_seq,
    {
        self.cancelled = true;
    }

    /// Produces the next frame of the session, or `None` once the session
    /// is cancelled or its budget is spent. For the live source the raw
    /// captured magnitudes are framed to the session's bar count, padding
    /// with silence; the synthetic source ignores them and emits its
    /// deterministic waveform. Sequence numbers increase strictly with no
    /// gaps.
    pub fn next_frame(&mut self, captured: &Vec<u16>) -> (r: Option<AudioFrame>)
        requires
            old(self).wf(),
        ensures
            final(self).wf(),
            final(self).source == old(self).source,
            final(self).interval_ms == old(self).interval_ms,
            final(self).bar_count == old(self).bar_count,
            final(self).total_frames == old(self).total_frames,
            final(self).cancelled == old(self).cancelled,
            old(self).active() ==> (r matches Some(f) && frame_ok(
                f,
                old(self).next_seq,
                old(self).interval_ms,
                old(self).bar_count,
                old(self).source,
            ) && final(self).next_seq == old(self).next_seq + 1),
            !old(self).active() ==> r is None && final(self).next_seq == old(self).next_seq,
            (match r {
                Some(f) => (match old(self).source {
                    AudioBarsSource::Synth => forall|b: int|
                        0 <= b < f.bars@.len() ==> f.bars@[b] == spec_synth_bar(f.seq_no, b),
                    AudioBarsSource::Pulse => forall|b: int|
                        0 <= b < f.bars@.len() ==> f.bars@[b] == (if b < captured@.len() {
                            captured@[b]
                        } else {
                            0u16
                        }),
                }),
                None => true,
            }),
    {
        if self.cancelled || self.next_seq >= self.total_frames {
            return None;
        }
        let seq_no = self.next_seq;
        proof {
            lemma_mul_inequality(seq_no as int, self.total_frames as int, self.interval_ms as int);
        }
        let timestamp_ms = seq_no * self.interval_ms;
        let mut bars: Vec<u16> = Vec::new();
        let synth = matches!(self.source, AudioBarsSource::Synth);
        let mut b: usize = 0;
        while b < self.bar_count
            invariant
                0 <= b <= self.bar_count,
                bars@.len() == b,
                synth == (self.source is Synth),
                synth ==> forall|k: int| 0 <= k < b ==> bars@[k] == spec_synth_bar(seq_no, k),
                !synth ==> forall|k: int|
                    0 <= k < b ==> bars@[k] == (if k < captured@.len() {
                        captured@[k]
                    } else {
                        0u16
                    }),
            decreases self.bar_count - b,
        {
            let v: u16 = if synth {
                ((((seq_no % 101) * 37) + (((b as u64) % 101) * 17)) % 101) as u16
            } else if b < captured.len() {
                captured[b]
            } else {
                0
            };
            bars.push(v);
            b = b + 1;
        }
        self.next_seq = seq_no + 1;
        Some(AudioFrame { seq_no, timestamp_ms, bars, source: self.source })
    }
}

/// Opens a bounded frame stream: one frame per `interval_ms` until the
/// `seconds` budget is spent or the handle is cancelled. `source_available`
/// reports whether the live capture device could be opened; an unavailable
/// live source is an error, never a silent fall back to the synthetic
/// generator. The synthetic generator needs no device and always opens.
pub fn open_session(
    source: AudioBarsSource,
    source_available: bool,
    seconds: u64,
    interval_ms: u64,
    bar_count: usize,
) -> (r: Result<AudioSession, AudioError>)
    requires
        interval_ms >= 1,
        seconds <= u64::MAX / 1000,
    ensures
        r is Err <==> (source is Pulse && !source_available),
        r matches Err(e) ==> e == AudioError::SourceUnavailable,
        (match r {
            Ok(s) => {
                &&& s.wf()
                &&& s.source == source
                &&& s.interval_ms == interval_ms
                &&& s.bar_count == bar_count
                &&& s.next_seq == 0
                &&& !s.cancelled
                &&& s.total_frames == spec_frame_count(seconds, interval_ms)
            },
            Err(_) => true,
        }),
{
    if matches!(source, AudioBarsSource::Pulse) && !source_available {
        return Err(AudioError::SourceUnavailable);
    }
    proof {
        assert(seconds * 1000 <= u64::MAX) by (nonlinear_arith)
            requires
                seconds <= u64::MAX / 1000,
        ;
    }
    let budget_ms = seconds * 1000;
    let total_frames = budget_ms / interval_ms;
    proof {
        lemma_fundamental_div_mod(budget_ms as int, interval_ms as int);
        assert(total_frames * interval_ms <= budget_ms) by (nonlinear_arith)
            requires
                interval_ms >= 1,
                total_frames == budget_ms as int / interval_ms as int,
                budget_ms >= 0,
        ;
    }
    Ok(
        AudioSession {
            source,
            interval_ms,
            bar_count,
            total_frames,
            next_seq: 0,
            cancelled: false,
        },
    )
}

/// Runs a whole bounded synthetic session and collects its frames: exactly
/// `floor(seconds * 1000 / interval_ms)` frames, sequence numbers strictly
/// increasing from zero with no gaps, timestamps on the cadence, every frame
/// carrying `bar_count` bars of the deterministic waveform.
pub fn run_bounded_synth(seconds: u64, interval_ms: u64, bar_count: usize) -> (r: Vec<AudioFrame>)
    requires
        interval_ms >= 1,
        seconds <= u64::MAX / 1000,
    ensures
        r@.len() == spec_frame_count(seconds, interval_ms),
        forall|i: int|
            0 <= i < r@.len() ==> frame_ok(
                #[trigger] r@[i],
                i as u64,
                interval_ms,
                bar_count,
                AudioBarsSource::Synth,
            ),
        forall|i: int, b: int|
            0 <= i < r@.len() && 0 <= b < r@[i].bars@.len() ==> #[trigger] r@[i].bars@[b]
                == spec_synth_bar(i as u64, b),
{
    let session = open_session(AudioBarsSource::Synth, false, seconds, interval_ms, bar_count);
    let mut session = match session {
        Ok(s) => s,
        Err(AudioError::SourceUnavailable) => {
            proof {
                assert(false);
            }
            unreached()
        },
    };
    let empty: Vec<u16> = Vec::new();
    let mut frames: Vec<AudioFrame> = Vec::new();
    let ghost total = session.total_frames;
    loop
        invariant
            session.wf(),
            !session.cancelled,
            session.source is Synth,
            session.interval_ms == interval_ms,
            session.bar_count == bar_count,
            session.total_frames == total,
            total == spec_frame_count(seconds, interval_ms),
            frames@.len() == session.next_seq,
            forall|i: int|
                0 <= i < frames@.len() ==> frame_ok(
                    #[trigger] frames@[i],
                    i as u64,
                    interval_ms,
                    bar_count,
                    AudioBarsSource::Synth,
                ),
            forall|i: int, b: int|
                0 <= i < frames@.len() && 0 <= b < frames@[i].bars@.len()
                    ==> #[trigger] frames@[i].bars@[b] == spec_synth_bar(i as u64, b),
        ensures
            frames@.len() == total,
        decreases session.total_frames - session.next_seq,
    {
        match session.next_frame(&empty) {
            Some(f) => {
                frames.push(f);
            },
            None => {
                break;
            },
        }
    }
    frames
}

} // verus!

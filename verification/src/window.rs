//! The segment windowing controller.
//!
//! Captured audio accumulates in the window of the current segment.  A cycle
//! takes in what was captured since the last one, decides whether the engine
//! is to run over the window, records what it recognized, and rolls over to a
//! new segment once the current one has lasted long enough.

use vstd::prelude::*;
use vstd::arithmetic::div_mod::{lemma_fundamental_div_mod, lemma_fundamental_div_mod_converse};
use crate::audio::{lemma_trim_keeps_loud_ends, trim_silence, trimmed};
use crate::ident::{fresh_segment_id, SEGMENT_ID_LEN};
use crate::sample::Sample;
use crate::whisper::{RecognitionError, WhisperSegment, WhisperSegmentView, WhisperText};

verus! {

/// Seconds a segment lasts unless configured otherwise.
pub const DEFAULT_SEGMENT_SECS: u64 = 15;

/// The window has to hold more samples than this for the engine to run.
pub const MIN_WINDOW_SAMPLES: usize = 4000;

/// What becomes of the window's audio when a segment is sealed.
#[derive(Clone, Copy, Debug, PartialEq, Eq, Structural)]
pub enum RolloverPolicy {
    /// All of it is dropped.
    Discard,
    /// The last `samples` samples are kept as context for the next segment.
    RetainTail { samples: usize },
}

/// The settings of the controller.
#[derive(Clone, Copy, Debug, PartialEq, Eq, Structural)]
pub struct WindowSettings {
    /// Seconds after which the current segment is sealed.
    pub segment_secs: u64,
    /// The window has to hold more samples than this for the engine to run.
    pub min_samples: usize,
    /// Level below which the ends of a captured block are cut away.
    pub threshold: Sample,
    /// What becomes of the window's audio at rollover.
    pub policy: RolloverPolicy,
}

impl Default for WindowSettings {
    fn default() -> (settings: Self)
        ensures
            settings.segment_secs == DEFAULT_SEGMENT_SECS,
            settings.min_samples == MIN_WINDOW_SAMPLES,
            settings.threshold.bits == crate::sample::SILENCE_THRESHOLD_BITS,
            settings.policy == RolloverPolicy::Discard,
    {
        WindowSettings {
            segment_secs: DEFAULT_SEGMENT_SECS,
            min_samples: MIN_WINDOW_SAMPLES,
            threshold: Sample::silence_threshold(),
            policy: RolloverPolicy::Discard,
        }
    }
}

/// The audio that survives a rollover.
pub open spec fn retained(audio: Seq<Sample>, policy: RolloverPolicy) -> Seq<Sample> {
    match policy {
        RolloverPolicy::Discard => Seq::empty(),
        RolloverPolicy::RetainTail { samples } => if audio.len() > samples {
            audio.subrange(audio.len() - samples, audio.len() as int)
        } else {
            audio
        },
    }
}

/// A segment that started at `started_ms` is due for rollover at `now_ms`:
/// more than `segment_secs` seconds have gone by.  A clock that stands
/// before the start counts as no time gone by.
pub open spec fn rollover_due(started_ms: u64, now_ms: u64, segment_secs: u64) -> bool {
    now_ms - started_ms > segment_secs * 1000
}

/// Polls it takes until a segment is due, when polls come `step_ms` apart
/// and the segment started at a poll: the first poll at which more than
/// `segment_secs` seconds have gone by.
pub open spec fn polls_per_segment(step_ms: int, segment_secs: int) -> int {
    (segment_secs * 1000) / step_ms + 1
}

/// The controller after `polls` cycles of a run that starts at time 0 with
/// an empty window, when a cycle ends every `step_ms` milliseconds, every
/// cycle takes in `chunk` samples that all reach the threshold, no engine
/// run fails and audio is discarded at rollover: the index of the current
/// segment, the time at which it started, and the length of its window.
pub open spec fn polled(step_ms: int, segment_secs: int, chunk: int, polls: nat) -> (int, int, int)
    decreases polls,
{
    if polls == 0 {
        (0, 0, 0)
    } else {
        cycle_step(
            polled(step_ms, segment_secs, chunk, (polls - 1) as nat),
            polls * step_ms,
            segment_secs,
            chunk,
        )
    }
}

/// One cycle without a failed engine run, with audio discarded at rollover,
/// seen from outside: `state` holds the index of the current segment, the
/// time at which it started and the length of its window; the cycle takes in
/// `chunk` samples and ends at the time `now`.
pub open spec fn cycle_step(state: (int, int, int), now: int, segment_secs: int, chunk: int) -> (
    int,
    int,
    int,
) {
    if now - state.1 > segment_secs * 1000 {
        (state.0 + 1, now, 0)
    } else {
        (state.0, state.1, state.2 + chunk)
    }
}

/// What the controller shows of itself to `cycle_step`.
pub open spec fn outline(window: SegmentWindow) -> (int, int, int) {
    (window.segment().index as int, window.started() as int, window.audio().len() as int)
}

/// A cycle of the controller is a `cycle_step`: what `ingest` and
/// `finish_cycle` promise of a cycle in which the engine does not fail, the
/// captured block starts and ends above the threshold and audio is discarded
/// at rollover, moves the outline of the controller as `cycle_step` says.
pub proof fn lemma_cycle_is_a_step(
    before: SegmentWindow,
    taken: SegmentWindow,
    after: SegmentWindow,
    captured: Seq<Sample>,
    settings: WindowSettings,
    now_ms: u64,
)
    requires
        settings.policy == RolloverPolicy::Discard,
        captured.len() > 0 ==> captured.first().reaches(settings.threshold)
            && captured.last().reaches(settings.threshold),
        taken.audio() == before.audio() + trimmed(captured, settings.threshold),
        taken.segment() == before.segment(),
        taken.started() == before.started(),
        rollover_due(taken.started(), now_ms, settings.segment_secs) ==> {
            &&& after.segment().index == taken.segment().index + 1
            &&& after.audio() == retained(taken.audio(), settings.policy)
            &&& after.started() == now_ms
        },
        !rollover_due(taken.started(), now_ms, settings.segment_secs) ==> {
            &&& after.segment().index == taken.segment().index
            &&& after.audio() == taken.audio()
            &&& after.started() == taken.started()
        },
    ensures
        outline(after) == cycle_step(
            outline(before),
            now_ms as int,
            settings.segment_secs as int,
            captured.len() as int,
        ),
{
    if captured.len() > 0 {
        lemma_trim_keeps_loud_ends(captured, settings.threshold);
    } else {
        assert(trimmed(captured, settings.threshold) =~= captured);
    }
}

/// A segment is never sealed while no more than its duration has gone by.
pub proof fn lemma_no_rollover_within_duration(started_ms: u64, now_ms: u64, segment_secs: u64)
    requires
        now_ms - started_ms <= segment_secs * 1000,
    ensures
        !rollover_due(started_ms, now_ms, segment_secs),
{
}

/// With audio discarded at rollover, a steady run rolls over at every
/// `polls_per_segment`-th poll and at no other: after `polls` polls the
/// current segment is the one with index `polls / polls_per_segment`, it
/// started at the last such poll, and its window holds exactly what the
/// polls since then took in.  (With polls a second apart and segments of 15
/// seconds that is every 16th poll: 20 seconds of audio make two segments,
/// the second with the audio of the last 4 polls.)
pub proof fn lemma_steady_run(step_ms: int, segment_secs: int, chunk: int, polls: nat)
    requires
        step_ms > 0,
        segment_secs >= 0,
        chunk >= 0,
    ensures
        polls_per_segment(step_ms, segment_secs) > 0,
        polled(step_ms, segment_secs, chunk, polls) == (
            polls as int / polls_per_segment(step_ms, segment_secs),
            (polls as int / polls_per_segment(step_ms, segment_secs)) * polls_per_segment(
                step_ms,
                segment_secs,
            ) * step_ms,
            (polls as int % polls_per_segment(step_ms, segment_secs)) * chunk,
        ),
    decreases polls,
{
    let duration = segment_secs * 1000;
    let whole = duration / step_ms;
    let every = polls_per_segment(step_ms, segment_secs);
    lemma_fundamental_div_mod(duration, step_ms);
    assert(whole >= 0) by (nonlinear_arith)
        requires
            duration >= 0,
            step_ms > 0,
            whole == duration / step_ms,
    ;
    assert(every > 0);
    if polls == 0 {
        assert(0 == 0 * every + 0) by (nonlinear_arith);
        lemma_fundamental_div_mod_converse(0, every, 0, 0);
    } else {
        let before = (polls - 1) as nat;
        lemma_steady_run(step_ms, segment_secs, chunk, before);
        let q = before as int / every;
        let r = before as int % every;
        lemma_fundamental_div_mod(before as int, every);
        assert(0 <= r < every);
        assert(before as int == every * q + r);
        let started = q * every * step_ms;
        let now = polls * step_ms;
        if r + 1 < every {
            assert(polls as int == q * every + (r + 1)) by (nonlinear_arith)
                requires
                    polls as int == every * q + r + 1,
            ;
            lemma_fundamental_div_mod_converse(polls as int, every, q, r + 1);
            assert(now - started == (r + 1) * step_ms) by (nonlinear_arith)
                requires
                    now == polls * step_ms,
                    started == q * every * step_ms,
                    polls == every * q + r + 1,
            ;
            assert((r + 1) * step_ms <= whole * step_ms) by (nonlinear_arith)
                requires
                    r + 1 <= whole,
                    step_ms > 0,
            ;
            assert(whole * step_ms <= duration) by (nonlinear_arith)
                requires
                    duration == step_ms * whole + duration % step_ms,
                    0 <= duration % step_ms,
            ;
            assert((r + 1) * chunk == r * chunk + chunk) by (nonlinear_arith);
        } else {
            assert(polls as int == (q + 1) * every + 0) by (nonlinear_arith)
                requires
                    polls as int == every * q + every,
            ;
            lemma_fundamental_div_mod_converse(polls as int, every, q + 1, 0);
            assert(now - started == every * step_ms) by (nonlinear_arith)
                requires
                    now == polls * step_ms,
                    started == q * every * step_ms,
                    polls == every * q + every,
            ;
            assert(every * step_ms > duration) by (nonlinear_arith)
                requires
                    every == whole + 1,
                    duration == step_ms * whole + duration % step_ms,
                    duration % step_ms < step_ms,
            ;
            assert((q + 1) * every * step_ms == now) by (nonlinear_arith)
                requires
                    now == polls * step_ms,
                    polls == every * q + every,
            ;
            assert(0 * chunk == 0);
        }
    }
}

/// A cycle in which the engine fails drops no audio: the window of the next
/// cycle is the window of the failed one with what was captured since behind
/// it, less only the silence at the ends of the newly captured block.
pub proof fn lemma_failed_cycle_keeps_audio(
    before: SegmentWindow,
    failed: SegmentWindow,
    next: SegmentWindow,
    captured: Seq<Sample>,
    threshold: Sample,
)
    requires
        failed == before,
        next.audio() == failed.audio() + trimmed(captured, threshold),
    ensures
        next.audio() == before.audio() + trimmed(captured, threshold),
        next.audio().subrange(0, before.audio().len() as int) == before.audio(),
        captured.len() > 0 && captured.first().reaches(threshold) && captured.last().reaches(
            threshold,
        ) ==> next.audio() == before.audio() + captured,
{
    assert(next.audio().subrange(0, before.audio().len() as int) =~= before.audio());
    if captured.len() > 0 && captured.first().reaches(threshold) && captured.last().reaches(
        threshold,
    ) {
        lemma_trim_keeps_loud_ends(captured, threshold);
    }
}

/// What a cycle gives to the outside: the snapshots to publish, in order.
#[derive(Debug, PartialEq, Eq)]
pub struct CycleReport {
    /// The current segment with the units just recognized, if the engine ran
    /// and succeeded.
    pub recognized: Option<WhisperSegment>,
    /// The segment that was opened, if the cycle ended in a rollover.
    pub opened: Option<WhisperSegment>,
}

/// The controller: the current segment, the audio of its window and the time
/// at which it started.
#[derive(Debug, PartialEq, Eq)]
pub struct SegmentWindow {
    current: WhisperSegment,
    samples: Vec<Sample>,
    started_ms: u64,
}

impl SegmentWindow {
    /// The current segment.
    pub closed spec fn segment(&self) -> WhisperSegmentView {
        self.current@
    }

    /// The audio of the window.
    pub closed spec fn audio(&self) -> Seq<Sample> {
        self.samples@
    }

    /// When the current segment started, in milliseconds.
    pub closed spec fn started(&self) -> u64 {
        self.started_ms
    }

    /// A controller whose first segment has the given id and starts at
    /// `now_ms` with an empty window.
    pub fn new(id: String, now_ms: u64) -> (window: SegmentWindow)
        ensures
            window.segment() == (WhisperSegmentView { id: id@, index: 0, items: Seq::empty() }),
            window.audio() == Seq::<Sample>::empty(),
            window.started() == now_ms,
    {
        let current = WhisperSegment { id, index: 0, items: Vec::new() };
        assert(current.items.deep_view() =~= Seq::empty());
        SegmentWindow { current, samples: Vec::new(), started_ms: now_ms }
    }

    /// A controller whose first segment gets a fresh id.
    pub fn start(now_ms: u64) -> (window: SegmentWindow)
        ensures
            window.segment().id.len() == SEGMENT_ID_LEN,
            window.segment().index == 0,
            window.segment().items == Seq::<crate::whisper::WhisperTextView>::empty(),
            window.audio() == Seq::<Sample>::empty(),
            window.started() == now_ms,
    {
        SegmentWindow::new(fresh_segment_id(), now_ms)
    }

    /// The current segment.
    pub fn current(&self) -> (segment: &WhisperSegment)
        ensures
            segment@ == self.segment(),
    {
        &self.current
    }

    /// The audio of the window: what the engine is to run over.
    pub fn samples(&self) -> (samples: &Vec<Sample>)
        ensures
            samples@ == self.audio(),
    {
        &self.samples
    }

    /// When the current segment started, in milliseconds.
    pub fn started_ms(&self) -> (ms: u64)
        ensures
            ms == self.started(),
    {
        self.started_ms
    }

    /// Takes in what was captured since the last cycle.  The silent runs at
    /// both ends of `captured` are cut away and the rest is appended to the
    /// window; `captured` is left empty.  The engine is to run if anything was
    /// added and the window now holds more than `min_samples` samples.
    pub fn ingest(&mut self, captured: &mut Vec<Sample>, settings: &WindowSettings) -> (invoke:
        bool)
        ensures
            final(captured)@ == Seq::<Sample>::empty(),
            final(self).audio() == old(self).audio() + trimmed(old(captured)@, settings.threshold),
            final(self).segment() == old(self).segment(),
            final(self).started() == old(self).started(),
            invoke == (trimmed(old(captured)@, settings.threshold).len() > 0
                && final(self).audio().len() > settings.min_samples),
    {
        trim_silence(captured, settings.threshold);
        let added = captured.len();
        self.samples.append(captured);
        added > 0 && self.samples.len() > settings.min_samples
    }

    /// Replaces the units of the current segment by what the engine
    /// recognized in the window.
    pub fn record(&mut self, units: Vec<WhisperText>)
        ensures
            final(self).segment() == (WhisperSegmentView {
                items: units.deep_view(),
                ..old(self).segment()
            }),
            final(self).audio() == old(self).audio(),
            final(self).started() == old(self).started(),
    {
        self.current.items = units;
    }

    /// Whether the current segment has lasted longer than `segment_secs`.
    pub fn is_due(&self, now_ms: u64, segment_secs: u64) -> (due: bool)
        ensures
            due == rollover_due(self.started(), now_ms, segment_secs),
    {
        if now_ms <= self.started_ms {
            false
        } else {
            (now_ms - self.started_ms) as u128 > (segment_secs as u128) * 1000
        }
    }

    /// Seals the current segment and opens the next one under the given id:
    /// its index is one higher, it holds no units yet, it starts at `now_ms`,
    /// and the window keeps what the policy retains.
    pub fn roll_over(&mut self, id: String, now_ms: u64, policy: RolloverPolicy)
        requires
            old(self).segment().index < u64::MAX,
        ensures
            final(self).segment() == (WhisperSegmentView {
                id: id@,
                index: (old(self).segment().index + 1) as u64,
                items: Seq::empty(),
            }),
            final(self).audio() == retained(old(self).audio(), policy),
            final(self).started() == now_ms,
    {
        match policy {
            RolloverPolicy::Discard => {
                self.samples.clear();
            },
            RolloverPolicy::RetainTail { samples } => {
                let len = self.samples.len();
                if len > samples {
                    let tail = self.samples.split_off(len - samples);
                    self.samples = tail;
                }
            },
        }
        self.started_ms = now_ms;
        let next = WhisperSegment { id, index: self.current.index + 1, items: Vec::new() };
        assert(next.items.deep_view() =~= Seq::empty());
        self.current = next;
    }

    /// Ends a cycle.  `recognition` is what came of the engine run, or `None`
    /// if the engine was not run.
    ///
    /// A failed run skips the rest of the cycle: segment, window and start
    /// time stay as they are, so that the next cycle runs over the same audio
    /// and whatever is captured until then.  Otherwise the recognized units,
    /// if any, are recorded, and the segment is rolled over if it is due; the
    /// new segment gets a fresh id.
    pub fn finish_cycle(
        &mut self,
        recognition: Option<Result<Vec<WhisperText>, RecognitionError>>,
        now_ms: u64,
        settings: &WindowSettings,
    ) -> (report: CycleReport)
        requires
            old(self).segment().index < u64::MAX,
        ensures
            recognition matches Some(Err(_)) ==> {
                &&& *final(self) == *old(self)
                &&& report.recognized is None
                &&& report.opened is None
            },
            recognition matches Some(Ok(units)) ==> {
                &&& report.recognized matches Some(snapshot)
                &&& snapshot@ == (WhisperSegmentView {
                    items: units.deep_view(),
                    ..old(self).segment()
                })
            },
            recognition is None ==> report.recognized is None,
            !(recognition matches Some(Err(_))) ==> {
                let due = rollover_due(old(self).started(), now_ms, settings.segment_secs);
                &&& report.opened is Some == due
                &&& report.opened matches Some(opened) ==> opened@ == final(self).segment()
                &&& due ==> {
                    &&& final(self).segment().id.len() == SEGMENT_ID_LEN
                    &&& final(self).segment().index == old(self).segment().index + 1
                    &&& final(self).segment().items == Seq::<
                        crate::whisper::WhisperTextView,
                    >::empty()
                    &&& final(self).audio() == retained(old(self).audio(), settings.policy)
                    &&& final(self).started() == now_ms
                }
                &&& !due ==> {
                    &&& final(self).audio() == old(self).audio()
                    &&& final(self).started() == old(self).started()
                    &&& recognition matches Some(Ok(units)) ==> final(self).segment() == (
                    WhisperSegmentView { items: units.deep_view(), ..old(self).segment() })
                    &&& recognition is None ==> final(self).segment() == old(self).segment()
                }
            },
    {
        let recognized = match recognition {
            Some(Err(_)) => {
                return CycleReport { recognized: None, opened: None };
            },
            Some(Ok(units)) => {
                self.record(units);
                Some(self.current.clone())
            },
            None => None,
        };
        let opened = if self.is_due(now_ms, settings.segment_secs) {
            self.roll_over(fresh_segment_id(), now_ms, settings.policy);
            Some(self.current.clone())
        } else {
            None
        };
        CycleReport { recognized, opened }
    }
}

} // verus!

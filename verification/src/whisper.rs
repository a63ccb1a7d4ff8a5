//! Text units, segments, recognition parameters and the bookkeeping of the
//! recognition gate.
//!
//! The speech engine itself runs outside this library.  One run of it over a
//! window of audio yields a list of spans; [`WhisperManager::process_samples`]
//! turns that list into the text units that are handed on, numbering them
//! across the whole run.

use vstd::prelude::*;

verus! {

/// One recognized text span, or a synthetic boundary marker.
#[derive(Debug, PartialEq, Eq)]
pub struct WhisperText {
    pub index: u64,
    pub start_time: i64,
    pub end_time: i64,
    pub text: String,
}

/// A text unit with its text as a sequence of characters.
pub struct WhisperTextView {
    pub index: u64,
    pub start_time: i64,
    pub end_time: i64,
    pub text: Seq<char>,
}

impl View for WhisperText {
    type V = WhisperTextView;

    open spec fn view(&self) -> WhisperTextView {
        WhisperTextView {
            index: self.index,
            start_time: self.start_time,
            end_time: self.end_time,
            text: self.text@,
        }
    }
}

impl DeepView for WhisperText {
    type V = WhisperTextView;

    open spec fn deep_view(&self) -> WhisperTextView {
        self@
    }
}

impl Clone for WhisperText {
    fn clone(&self) -> (copy: Self)
        ensures
            copy == *self,
    {
        WhisperText {
            index: self.index,
            start_time: self.start_time,
            end_time: self.end_time,
            text: self.text.clone(),
        }
    }
}

impl Default for WhisperText {
    fn default() -> (unit: Self)
        ensures
            unit@ == (WhisperTextView { index: 0, start_time: 0, end_time: 0, text: Seq::empty() }),
    {
        WhisperText { index: 0, start_time: 0, end_time: 0, text: String::new() }
    }
}

/// A time-boxed window of the run with the text units recognized in it.
#[derive(Debug, PartialEq, Eq)]
pub struct WhisperSegment {
    pub id: String,
    pub index: u64,
    pub items: Vec<WhisperText>,
}

/// A segment with its id and its items as mathematical sequences.
pub struct WhisperSegmentView {
    pub id: Seq<char>,
    pub index: u64,
    pub items: Seq<WhisperTextView>,
}

impl View for WhisperSegment {
    type V = WhisperSegmentView;

    open spec fn view(&self) -> WhisperSegmentView {
        WhisperSegmentView { id: self.id@, index: self.index, items: self.items.deep_view() }
    }
}

impl DeepView for WhisperSegment {
    type V = WhisperSegmentView;

    open spec fn deep_view(&self) -> WhisperSegmentView {
        self@
    }
}

/// A copy of `units`, unit by unit.
pub fn clone_units(units: &Vec<WhisperText>) -> (copy: Vec<WhisperText>)
    ensures
        copy@ == units@,
        copy.deep_view() == units.deep_view(),
{
    let mut copy: Vec<WhisperText> = Vec::new();
    let mut i: usize = 0;
    while i < units.len()
        invariant
            i <= units.len(),
            copy@ == units@.subrange(0, i as int),
        decreases units.len() - i,
    {
        copy.push(units[i].clone());
        i += 1;
        assert(copy@ =~= units@.subrange(0, i as int));
    }
    assert(copy@ =~= units@);
    assert(copy.deep_view() =~= units.deep_view());
    copy
}

impl Clone for WhisperSegment {
    fn clone(&self) -> (copy: Self)
        ensures
            copy@ == self@,
            copy.id == self.id,
            copy.items@ == self.items@,
    {
        WhisperSegment { id: self.id.clone(), index: self.index, items: clone_units(&self.items) }
    }
}

impl Default for WhisperSegment {
    fn default() -> (segment: Self)
        ensures
            segment@ == (WhisperSegmentView { id: Seq::empty(), index: 0, items: Seq::empty() }),
    {
        let segment = WhisperSegment { id: String::new(), index: 0, items: Vec::new() };
        assert(segment.items.deep_view() =~= Seq::empty());
        segment
    }
}

/// The switches of one recognition call.
#[derive(Clone, Copy, Debug, PartialEq, Eq, Structural)]
pub struct WhisperToggles {
    pub translate: bool,
    pub suppress_blanks: bool,
    pub print_special: bool,
    pub print_progress: bool,
    pub token_timestamps: bool,
    pub single_segment: bool,
    pub split_on_word: bool,
    pub tdrz_enable: bool,
}

impl Default for WhisperToggles {
    fn default() -> (toggles: Self)
        ensures
            toggles == (WhisperToggles {
                translate: false,
                suppress_blanks: true,
                print_special: false,
                print_progress: false,
                token_timestamps: true,
                single_segment: true,
                split_on_word: false,
                tdrz_enable: false,
            }),
    {
        WhisperToggles {
            translate: false,
            suppress_blanks: true,
            print_special: false,
            print_progress: false,
            token_timestamps: true,
            single_segment: true,
            split_on_word: false,
            tdrz_enable: false,
        }
    }
}

/// Everything a recognition call is configured with.
#[derive(Debug, PartialEq, Eq)]
pub struct WhisperParams {
    pub toggles: WhisperToggles,
    pub language: String,
}

impl Clone for WhisperParams {
    fn clone(&self) -> (copy: Self)
        ensures
            copy == *self,
    {
        WhisperParams { toggles: self.toggles, language: self.language.clone() }
    }
}

impl Default for WhisperParams {
    fn default() -> (params: Self)
        ensures
            params.toggles == WhisperToggles::default_spec(),
            params.language@ == "auto"@,
    {
        WhisperParams { toggles: WhisperToggles::default(), language: "auto".to_owned() }
    }
}

impl WhisperToggles {
    /// The switches a fresh configuration starts with.
    pub open spec fn default_spec() -> WhisperToggles {
        WhisperToggles {
            translate: false,
            suppress_blanks: true,
            print_special: false,
            print_progress: false,
            token_timestamps: true,
            single_segment: true,
            split_on_word: false,
            tdrz_enable: false,
        }
    }
}

/// The units of one recognition call, as they are handed on together.
#[derive(Debug, PartialEq, Eq)]
pub struct Batch {
    pub segments: Vec<WhisperText>,
}

/// The recognition parameters in one flat record.
#[derive(Debug, PartialEq, Eq)]
pub struct Params {
    pub translate: bool,
    pub suppress_blanks: bool,
    pub print_special: bool,
    pub print_progress: bool,
    pub token_timestamps: bool,
    pub single_segment: bool,
    pub split_on_word: bool,
    pub tdrz_enable: bool,
    pub language: String,
}

impl Default for Params {
    fn default() -> (params: Self)
        ensures
            !params.translate,
            !params.suppress_blanks,
            !params.print_special,
            !params.print_progress,
            !params.token_timestamps,
            !params.single_segment,
            !params.split_on_word,
            !params.tdrz_enable,
            params.language@ == Seq::<char>::empty(),
    {
        Params {
            translate: false,
            suppress_blanks: false,
            print_special: false,
            print_progress: false,
            token_timestamps: false,
            single_segment: false,
            split_on_word: false,
            tdrz_enable: false,
            language: String::new(),
        }
    }
}

/// One span as the engine reports it: its text, its offsets relative to the
/// start of the audio it was given, and whether the engine saw a boundary
/// (a change of speaker) right after it.
#[derive(Debug, PartialEq, Eq)]
pub struct EngineSpan {
    pub text: String,
    pub start_time: i64,
    pub end_time: i64,
    pub speaker_turn_next: bool,
}

/// The text of a boundary marker.
pub open spec fn boundary_text() -> Seq<char> {
    "<Speaker change>"@
}

/// The marker that follows a span after which the engine flagged a boundary:
/// a unit of zero length, numbered like every other unit.
pub open spec fn boundary_marker(index: int) -> WhisperTextView {
    WhisperTextView { index: index as u64, start_time: 0, end_time: 0, text: boundary_text() }
}

/// The unit that stands for `span` when it is given the number `index`.
pub open spec fn span_unit(span: EngineSpan, index: int) -> WhisperTextView {
    WhisperTextView {
        index: index as u64,
        start_time: span.start_time,
        end_time: span.end_time,
        text: span.text@,
    }
}

/// What one span contributes to the output when `index` is the next number
/// to hand out: its unit, and behind it, with the number after, a boundary
/// marker if the engine flagged one.
pub open spec fn units_for(span: EngineSpan, index: int) -> Seq<WhisperTextView> {
    if span.speaker_turn_next {
        seq![span_unit(span, index), boundary_marker(index + 1)]
    } else {
        seq![span_unit(span, index)]
    }
}

/// Number of units that `spans` give: one for each span and one more for
/// each boundary the engine flagged.
pub open spec fn unit_count(spans: Seq<EngineSpan>) -> nat
    decreases spans.len(),
{
    if spans.len() == 0 {
        0
    } else {
        unit_count(spans.drop_last()) + if spans.last().speaker_turn_next {
            2nat
        } else {
            1nat
        }
    }
}

/// The units handed on for `spans` when `base` is the next number to hand
/// out: the units of the spans in their order, numbered `base`, `base + 1`
/// and so on without a gap, markers included.
pub open spec fn emitted(base: int, spans: Seq<EngineSpan>) -> Seq<WhisperTextView>
    decreases spans.len(),
{
    if spans.len() == 0 {
        Seq::empty()
    } else {
        emitted(base, spans.drop_last()) + units_for(
            spans.last(),
            base + unit_count(spans.drop_last()),
        )
    }
}

/// The continuity hint after one more span: the span's text, unless that is
/// what the hint already held, in which case the hint is cleared.
pub open spec fn hint_step(hint: Seq<char>, text: Seq<char>) -> Seq<char> {
    if text == hint {
        Seq::empty()
    } else {
        text
    }
}

/// The continuity hint after all of `spans`.
pub open spec fn hint_after(hint: Seq<char>, spans: Seq<EngineSpan>) -> Seq<char>
    decreases spans.len(),
{
    if spans.len() == 0 {
        hint
    } else {
        hint_step(hint_after(hint, spans.drop_last()), spans.last().text@)
    }
}

/// Position in `emitted(_, spans)` of the unit that stands for span `i`: the
/// number of units that the spans before it give.
pub open spec fn span_slot(spans: Seq<EngineSpan>, i: int) -> int {
    unit_count(spans.subrange(0, i)) as int
}

/// The spans of an engine run; a failed run has none.
pub open spec fn spans_of(outcome: Result<Vec<EngineSpan>, String>) -> Seq<EngineSpan> {
    match outcome {
        Ok(spans) => spans@,
        Err(_) => Seq::empty(),
    }
}

/// Number of units that the engine runs of `calls` give together.
pub open spec fn run_count(calls: Seq<Result<Vec<EngineSpan>, String>>) -> nat
    decreases calls.len(),
{
    if calls.len() == 0 {
        0
    } else {
        run_count(calls.drop_last()) + unit_count(spans_of(calls.last()))
    }
}

/// The units handed on over a whole run, in the order in which they are
/// emitted, when the outcomes of the engine runs come in the order of
/// `calls` and `base` is the first number handed out.  A failed run hands
/// on nothing and uses up no number.
pub open spec fn run_units(base: int, calls: Seq<Result<Vec<EngineSpan>, String>>) -> Seq<
    WhisperTextView,
>
    decreases calls.len(),
{
    if calls.len() == 0 {
        Seq::empty()
    } else {
        run_units(base, calls.drop_last()) + emitted(
            base + run_count(calls.drop_last()),
            spans_of(calls.last()),
        )
    }
}

/// More spans give no fewer units.
pub proof fn lemma_unit_count_monotonic(spans: Seq<EngineSpan>, i: int, j: int)
    requires
        0 <= i <= j <= spans.len(),
    ensures
        unit_count(spans.subrange(0, i)) <= unit_count(spans.subrange(0, j)),
        i < j ==> unit_count(spans.subrange(0, i)) < unit_count(spans.subrange(0, j)),
    decreases j - i,
{
    if i < j {
        lemma_unit_count_monotonic(spans, i, j - 1);
        assert(spans.subrange(0, j).drop_last() =~= spans.subrange(0, j - 1));
    }
}

/// Every unit of one call carries the number of its place: unit `j` carries
/// `base + j`, be it the unit of a span or a boundary marker.
pub proof fn lemma_emitted_numbers(base: int, spans: Seq<EngineSpan>)
    requires
        0 <= base,
        base + unit_count(spans) <= u64::MAX,
    ensures
        emitted(base, spans).len() == unit_count(spans),
        forall|j: int|
            0 <= j < emitted(base, spans).len() ==> (#[trigger] emitted(base, spans)[j]).index
                == base + j,
    decreases spans.len(),
{
    if spans.len() > 0 {
        lemma_emitted_numbers(base, spans.drop_last());
    }
}

/// Where the units stand in the output of one call: the unit of span `i`
/// stands at `span_slot(spans, i)`, and the slot behind it holds a boundary
/// marker if the engine flagged a boundary after that span.
pub proof fn lemma_emitted_slots(base: int, spans: Seq<EngineSpan>)
    ensures
        emitted(base, spans).len() == unit_count(spans),
        forall|i: int|
            0 <= i < spans.len() ==> {
                &&& 0 <= #[trigger] span_slot(spans, i) < emitted(base, spans).len()
                &&& emitted(base, spans)[span_slot(spans, i)] == span_unit(
                    spans[i],
                    base + span_slot(spans, i),
                )
                &&& spans[i].speaker_turn_next ==> span_slot(spans, i) + 1 < emitted(
                    base,
                    spans,
                ).len() && emitted(base, spans)[span_slot(spans, i) + 1] == boundary_marker(
                    base + span_slot(spans, i) + 1,
                )
            },
    decreases spans.len(),
{
    if spans.len() > 0 {
        let n = spans.len() as int;
        let front = spans.drop_last();
        lemma_emitted_slots(base, front);
        assert forall|i: int| 0 <= i < spans.len() implies {
            &&& 0 <= #[trigger] span_slot(spans, i) < emitted(base, spans).len()
            &&& emitted(base, spans)[span_slot(spans, i)] == span_unit(
                spans[i],
                base + span_slot(spans, i),
            )
            &&& spans[i].speaker_turn_next ==> span_slot(spans, i) + 1 < emitted(
                base,
                spans,
            ).len() && emitted(base, spans)[span_slot(spans, i) + 1] == boundary_marker(
                base + span_slot(spans, i) + 1,
            )
        } by {
            if i < n - 1 {
                assert(front.subrange(0, i) =~= spans.subrange(0, i));
                assert(front[i] == spans[i]);
                assert(span_slot(front, i) == span_slot(spans, i));
            } else {
                assert(spans.subrange(0, i) =~= front);
            }
        }
    }
}

/// The units of a whole run are as many as its calls give together.
pub proof fn lemma_run_units_len(base: int, calls: Seq<Result<Vec<EngineSpan>, String>>)
    ensures
        run_units(base, calls).len() == run_count(calls),
    decreases calls.len(),
{
    if calls.len() > 0 {
        lemma_run_units_len(base, calls.drop_last());
        lemma_emitted_slots(base + run_count(calls.drop_last()), spans_of(calls.last()));
    }
}

/// Across any sequence of calls in one run, failed ones among them, every
/// unit handed on carries a number above that of the unit before it: the
/// units of the run, in the order in which they are emitted, are numbered
/// `base`, `base + 1` and so on, boundary markers like the units of spans.
pub proof fn lemma_indices_strictly_increase(
    base: int,
    calls: Seq<Result<Vec<EngineSpan>, String>>,
)
    requires
        0 <= base,
        base + run_count(calls) <= u64::MAX,
    ensures
        run_units(base, calls).len() == run_count(calls),
        forall|j: int|
            0 <= j < run_units(base, calls).len() ==> (#[trigger] run_units(base, calls)[j]).index
                == base + j,
        forall|i: int, j: int|
            0 <= i < j < run_units(base, calls).len() ==> (#[trigger] run_units(
                base,
                calls,
            )[i]).index < (#[trigger] run_units(base, calls)[j]).index,
    decreases calls.len(),
{
    lemma_run_units_len(base, calls);
    if calls.len() > 0 {
        let front = calls.drop_last();
        lemma_indices_strictly_increase(base, front);
        lemma_run_units_len(base, front);
        lemma_emitted_numbers(base + run_count(front), spans_of(calls.last()));
    }
}

/// Where the engine flags no boundary, the output holds one unit per span
/// and nothing else.
pub proof fn lemma_emitted_without_boundaries(base: int, spans: Seq<EngineSpan>)
    requires
        forall|i: int| 0 <= i < spans.len() ==> !(#[trigger] spans[i]).speaker_turn_next,
    ensures
        unit_count(spans) == spans.len(),
        emitted(base, spans).len() == spans.len(),
        forall|i: int|
            0 <= i < spans.len() ==> #[trigger] emitted(base, spans)[i] == span_unit(
                spans[i],
                base + i,
            ),
    decreases spans.len(),
{
    if spans.len() > 0 {
        let front = spans.drop_last();
        assert forall|i: int| 0 <= i < front.len() implies !(#[trigger] front[i]).speaker_turn_next by {
            assert(front[i] == spans[i]);
        }
        lemma_emitted_without_boundaries(base, front);
        assert forall|i: int| 0 <= i < spans.len() implies #[trigger] emitted(base, spans)[i]
            == span_unit(spans[i], base + i) by {
            if i < front.len() {
                assert(front[i] == spans[i]);
            }
        }
    }
}

/// What happens around engine runs: a caller asks for leave to start one,
/// or the run that is under way ends.
pub enum RunEvent {
    Begin,
    Finish,
}

/// Whether a run is under way after the events of `trace`, given whether one
/// was before.
pub open spec fn running_after(running: bool, trace: Seq<RunEvent>) -> bool {
    if trace.len() == 0 {
        running
    } else {
        trace.last() is Begin
    }
}

/// Event `i` of `trace` is a request that is given leave: no run is under
/// way when it comes.
pub open spec fn admitted_at(running: bool, trace: Seq<RunEvent>, i: int) -> bool {
    &&& 0 <= i < trace.len()
    &&& trace[i] is Begin
    &&& !running_after(running, trace.take(i))
}

/// No two engine runs are ever under way at once: between two requests that
/// are given leave, a run has ended.
pub proof fn lemma_single_flight(running: bool, trace: Seq<RunEvent>, i: int, j: int)
    requires
        admitted_at(running, trace, i),
        admitted_at(running, trace, j),
        i < j,
    ensures
        exists|k: int| i < k < j && #[trigger] trace[k] is Finish,
{
    let before = trace.take(j);
    assert(before.len() == j);
    assert(before.last() == trace[j - 1]);
    assert(trace[j - 1] is Finish);
    assert(j - 1 != i);
}

/// Why a recognition cycle produced nothing.
#[derive(Debug, PartialEq, Eq)]
pub enum RecognitionError {
    /// The engine could not be built from the model it was pointed at.
    EngineInit(String),
    /// One run of the engine failed; the next cycle may well succeed.
    Transient(String),
}

/// Bookkeeping of the recognition gate: the next number to hand out, the
/// continuity hint, and whether an engine run is under way.
#[derive(Debug, PartialEq, Eq)]
pub struct WhisperManager {
    last_prompt: String,
    segment_index: u64,
    running: bool,
}

impl WhisperManager {
    /// The number the next span will get.
    pub closed spec fn next_index(&self) -> u64 {
        self.segment_index
    }

    /// The continuity hint: the text of the last span, or nothing.
    pub closed spec fn hint(&self) -> Seq<char> {
        self.last_prompt@
    }

    /// An engine run is under way.
    pub closed spec fn in_flight(&self) -> bool {
        self.running
    }

    /// The bookkeeping at the start of a run, once the engine has been built
    /// from its model: nothing numbered yet, no hint.  `loaded` is what came
    /// of building the engine; a failure to build it is passed on as
    /// [`RecognitionError::EngineInit`].
    pub fn new(loaded: Result<(), String>) -> (manager: Result<WhisperManager, RecognitionError>)
        ensures
            match loaded {
                Ok(_) => {
                    &&& manager matches Ok(fresh)
                    &&& fresh.next_index() == 0
                    &&& fresh.hint() == Seq::<char>::empty()
                    &&& !fresh.in_flight()
                },
                Err(reason) => manager == Err::<WhisperManager, RecognitionError>(
                    RecognitionError::EngineInit(reason),
                ),
            },
    {
        match loaded {
            Ok(_) => Ok(
                WhisperManager { last_prompt: String::new(), segment_index: 0, running: false },
            ),
            Err(reason) => Err(RecognitionError::EngineInit(reason)),
        }
    }

    /// The number the next span will get.
    pub fn segment_index(&self) -> (index: u64)
        ensures
            index == self.next_index(),
    {
        self.segment_index
    }

    /// The continuity hint.
    pub fn last_prompt(&self) -> (hint: &String)
        ensures
            hint@ == self.hint(),
    {
        &self.last_prompt
    }

    /// Whether there are numbers left for all the units that `spans` give.
    pub fn has_room_for(&self, spans: &Vec<EngineSpan>) -> (room: bool)
        ensures
            room == (self.next_index() + unit_count(spans@) <= u64::MAX),
    {
        let mut left: u64 = u64::MAX - self.segment_index;
        let mut i: usize = 0;
        assert(spans@.subrange(0, 0) =~= Seq::empty());
        while i < spans.len()
            invariant
                i <= spans.len(),
                left == u64::MAX - self.segment_index - unit_count(spans@.subrange(0, i as int)),
            decreases spans.len() - i,
        {
            let needed: u64 = if spans[i].speaker_turn_next {
                2
            } else {
                1
            };
            proof {
                assert(spans@.subrange(0, i + 1).drop_last() =~= spans@.subrange(0, i as int));
                lemma_unit_count_monotonic(spans@, i + 1, spans.len() as int);
                assert(spans@.subrange(0, spans.len() as int) =~= spans@);
            }
            if left < needed {
                return false;
            }
            left -= needed;
            i += 1;
        }
        assert(spans@.subrange(0, spans.len() as int) =~= spans@);
        true
    }

    /// Whether an engine run is under way.
    pub fn is_running(&self) -> (running: bool)
        ensures
            running == self.in_flight(),
    {
        self.running
    }

    /// Asks for leave to start an engine run.  Leave is given if no run is
    /// under way; the run then counts as under way until its outcome is
    /// handed to [`Self::process_samples`].  A caller that is refused waits
    /// and asks again.
    pub fn begin_run(&mut self) -> (admitted: bool)
        ensures
            admitted == !old(self).in_flight(),
            admitted == admitted_at(old(self).in_flight(), seq![RunEvent::Begin], 0),
            final(self).in_flight(),
            final(self).in_flight() == running_after(
                old(self).in_flight(),
                seq![RunEvent::Begin],
            ),
            final(self).next_index() == old(self).next_index(),
            final(self).hint() == old(self).hint(),
    {
        let admitted = !self.running;
        self.running = true;
        assert(seq![RunEvent::Begin].take(0) =~= Seq::<RunEvent>::empty());
        admitted
    }

    /// Takes the outcome of one engine run, which ends with this.  Every
    /// unit handed on, be it the unit of a span or the boundary marker behind
    /// a span after which the engine flagged a boundary, gets the next number
    /// after the last one handed out, in this call or an earlier one.  A
    /// failed run uses up no number, leaves the hint as it was and is
    /// reported as transient.
    pub fn process_samples(&mut self, outcome: Result<Vec<EngineSpan>, String>) -> (result: Result<
        Vec<WhisperText>,
        RecognitionError,
    >)
        requires
            old(self).next_index() + unit_count(spans_of(outcome)) <= u64::MAX,
        ensures
            outcome matches Err(message) ==> {
                &&& result == Err::<Vec<WhisperText>, RecognitionError>(
                    RecognitionError::Transient(message),
                )
                &&& final(self).hint() == old(self).hint()
            },
            !final(self).in_flight(),
            final(self).in_flight() == running_after(
                old(self).in_flight(),
                seq![RunEvent::Finish],
            ),
            final(self).next_index() == old(self).next_index() + unit_count(spans_of(outcome)),
            outcome matches Ok(spans) ==> {
                &&& result matches Ok(units)
                &&& units.deep_view() == emitted(old(self).next_index() as int, spans@)
                &&& final(self).next_index() == old(self).next_index() + units.len()
                &&& forall|j: int|
                    0 <= j < units.len() ==> (#[trigger] units[j]).index == old(self).next_index()
                        + j
                &&& final(self).hint() == hint_after(old(self).hint(), spans@)
            },
    {
        self.running = false;
        match outcome {
            Err(message) => Err(RecognitionError::Transient(message)),
            Ok(spans) => Ok(self.number_spans(spans)),
        }
    }

    /// The success path of [`Self::process_samples`]: unit `j` of the output
    /// carries the number `j` places after the next one to hand out.
    pub fn number_spans(&mut self, spans: Vec<EngineSpan>) -> (units: Vec<WhisperText>)
        requires
            old(self).next_index() + unit_count(spans@) <= u64::MAX,
        ensures
            units.deep_view() == emitted(old(self).next_index() as int, spans@),
            units.len() == unit_count(spans@),
            forall|j: int|
                0 <= j < units.len() ==> (#[trigger] units[j]).index == old(self).next_index() + j,
            final(self).next_index() == old(self).next_index() + units.len(),
            final(self).hint() == hint_after(old(self).hint(), spans@),
            final(self).in_flight() == old(self).in_flight(),
    {
        let ghost base = self.segment_index as int;
        let ghost hint = self.last_prompt@;
        let mut units: Vec<WhisperText> = Vec::new();
        let mut i: usize = 0;
        assert(spans@.subrange(0, 0) =~= Seq::empty());
        assert(units.deep_view() =~= emitted(base, spans@.subrange(0, 0)));
        while i < spans.len()
            invariant
                i <= spans.len(),
                base + unit_count(spans@) <= u64::MAX,
                self.segment_index == base + unit_count(spans@.subrange(0, i as int)),
                self.running == old(self).running,
                units.deep_view() == emitted(base, spans@.subrange(0, i as int)),
                self.last_prompt@ == hint_after(hint, spans@.subrange(0, i as int)),
            decreases spans.len() - i,
        {
            let span = &spans[i];
            let ghost before = units.deep_view();
            let ghost prefix = spans@.subrange(0, i as int);
            let ghost grown = spans@.subrange(0, i + 1);
            let ghost next = self.segment_index as int;
            proof {
                assert(grown.drop_last() =~= prefix);
                assert(grown.last() == spans@[i as int]);
                lemma_unit_count_monotonic(spans@, i + 1, spans.len() as int);
                assert(spans@.subrange(0, spans.len() as int) =~= spans@);
            }
            units.push(
                WhisperText {
                    index: self.segment_index,
                    start_time: span.start_time,
                    end_time: span.end_time,
                    text: span.text.clone(),
                },
            );
            if span.text == self.last_prompt {
                self.last_prompt = String::new();
            } else {
                self.last_prompt = span.text.clone();
            }
            self.segment_index += 1;
            if span.speaker_turn_next {
                units.push(
                    WhisperText {
                        index: self.segment_index,
                        start_time: 0,
                        end_time: 0,
                        text: "<Speaker change>".to_owned(),
                    },
                );
                self.segment_index += 1;
            }
            i += 1;
            assert(units.deep_view() =~= before + units_for(spans@[i - 1], next));
        }
        assert(spans@.subrange(0, spans.len() as int) =~= spans@);
        proof {
            lemma_emitted_numbers(base, spans@);
            assert forall|j: int| 0 <= j < units.len() implies (#[trigger] units[j]).index == base
                + j by {
                assert(units.deep_view()[j].index == base + j);
            }
        }
        units
    }
}

} // verus!

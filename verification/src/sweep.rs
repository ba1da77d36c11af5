//! Bookkeeping for a sweep over a range of block heights: which heights may
//! be fetched next, which are in flight, and how each one ended.

use crate::indexer::FetchError;
use vstd::prelude::*;

verus! {

/// Why the rows of a fetched block did not reach the store.
#[derive(Clone, Copy, Debug, PartialEq, Eq, Structural)]
pub enum WriteError {
    /// The rows could not be built.
    Conversion,
    /// The store refused the rows or could not be reached.
    Store,
}

/// Why a height failed.
#[derive(Clone, Copy, Debug, PartialEq, Eq, Structural)]
pub enum Fault {
    Fetch(FetchError),
    Write(WriteError),
}

/// One failed height.
#[derive(Clone, Copy, Debug, PartialEq, Eq, Structural)]
pub struct Failure {
    pub height: u64,
    pub fault: Fault,
}

/// Where one height stands. A block that was fetched is handed to its write
/// at once, so a height goes from `Fetching` straight to `Writing`.
/// `Committed`, `FetchFailed` and `WriteFailed` are final.
#[derive(Clone, Copy, Debug, PartialEq, Eq, Structural)]
pub enum UnitState {
    Pending,
    Fetching,
    Writing,
    Committed,
    FetchFailed,
    WriteFailed,
}

/// What the outside world reports back to the sweep.
#[derive(Clone, Copy, Debug, PartialEq, Eq, Structural)]
pub enum Event {
    /// The block at this height was fetched and its write has been started.
    FetchSucceeded(u64),
    /// The block at this height could not be fetched.
    FetchFailed(u64, FetchError),
    /// The rows of the block at this height are in the store.
    WriteSucceeded(u64),
    /// The rows of the block at this height did not reach the store.
    WriteFailed(u64, WriteError),
}

impl Event {
    /// The height that the event is about.
    pub open spec fn height(self) -> u64 {
        match self {
            Event::FetchSucceeded(h) => h,
            Event::FetchFailed(h, _) => h,
            Event::WriteSucceeded(h) => h,
            Event::WriteFailed(h, _) => h,
        }
    }

    /// Whether the event ends a fetch, as opposed to a write.
    pub open spec fn ends_fetch(self) -> bool {
        self is FetchSucceeded || self is FetchFailed
    }
}

/// `list` without its entry `h`.
pub open spec fn without(list: Seq<u64>, h: u64) -> Seq<u64> {
    list.remove(list.index_of(h))
}

/// The heights of a list of failures, in the list's order.
pub open spec fn heights(failed: Seq<Failure>) -> Seq<u64> {
    Seq::new(failed.len(), |i: int| failed[i].height)
}

/// One if `b`, else zero.
pub open spec fn count_of(b: bool) -> nat {
    if b {
        1
    } else {
        0
    }
}

/// The state of a sweep over the heights from `start` up to, not including,
/// `end`, with at most `width` fetches in flight.
pub ghost struct SweepState {
    pub start: u64,
    pub end: u64,
    pub width: usize,
    /// The lowest height whose fetch has not been started.
    pub next: u64,
    /// Heights whose fetch is in flight, in the order in which they were started.
    pub fetching: Seq<u64>,
    /// Heights whose write is in flight.
    pub writing: Seq<u64>,
    /// Heights whose rows are in the store.
    pub committed: Set<u64>,
    /// Heights that failed, in the order in which the failures were recorded.
    pub failed: Seq<Failure>,
}

impl SweepState {
    /// The state before any fetch is started.
    pub open spec fn initial(start: u64, end: u64, width: usize) -> SweepState {
        SweepState {
            start,
            end,
            width,
            next: start,
            fetching: Seq::empty(),
            writing: Seq::empty(),
            committed: Set::empty(),
            failed: Seq::empty(),
        }
    }

    /// In how many of the four collections the height `h` stands.
    pub open spec fn places(self, h: u64) -> nat {
        count_of(self.fetching.contains(h)) + count_of(self.writing.contains(h)) + count_of(
            self.committed.contains(h),
        ) + count_of(heights(self.failed).contains(h))
    }

    /// The invariant of a sweep: the heights started so far are exactly
    /// those from `start` up to `next`, each of them stands in exactly one
    /// collection and no other height stands in any, and no more than
    /// `width` fetches are in flight.
    pub open spec fn valid(self) -> bool {
        &&& self.width >= 1
        &&& self.start <= self.next <= self.end
        &&& self.fetching.len() <= self.width
        &&& self.fetching.no_duplicates()
        &&& self.writing.no_duplicates()
        &&& heights(self.failed).no_duplicates()
        &&& self.committed.finite()
        &&& forall|h: u64| #[trigger]
            self.places(h) == count_of(self.start <= h < self.next)
        &&& self.fetching.len() + self.writing.len() + self.committed.len() + self.failed.len()
            == self.next - self.start
    }

    /// Whether another fetch may be started: a height is left and a fetch
    /// slot is free.
    pub open spec fn can_start(self) -> bool {
        self.next < self.end && self.fetching.len() < self.width
    }

    /// Whether every height of the range has reached a final state.
    pub open spec fn finished(self) -> bool {
        self.next == self.end && self.fetching.len() == 0 && self.writing.len() == 0
    }

    /// The state after the fetch of the height `next` is started.
    pub open spec fn started(self) -> SweepState {
        SweepState {
            next: (self.next + 1) as u64,
            fetching: self.fetching.push(self.next),
            ..self
        }
    }

    /// Whether `event` is about a height whose fetch, or write, is in flight.
    pub open spec fn accepts(self, event: Event) -> bool {
        if event.ends_fetch() {
            self.fetching.contains(event.height())
        } else {
            self.writing.contains(event.height())
        }
    }

    /// The state after `event`.
    pub open spec fn apply(self, event: Event) -> SweepState {
        match event {
            Event::FetchSucceeded(h) => SweepState {
                fetching: without(self.fetching, h),
                writing: self.writing.push(h),
                ..self
            },
            Event::FetchFailed(h, error) => SweepState {
                fetching: without(self.fetching, h),
                failed: self.failed.push(Failure { height: h, fault: Fault::Fetch(error) }),
                ..self
            },
            Event::WriteSucceeded(h) => SweepState {
                writing: without(self.writing, h),
                committed: self.committed.insert(h),
                ..self
            },
            Event::WriteFailed(h, error) => SweepState {
                writing: without(self.writing, h),
                failed: self.failed.push(Failure { height: h, fault: Fault::Write(error) }),
                ..self
            },
        }
    }

    /// Where the height `h` stands. A height whose fetch has not been
    /// started is `Pending`; so is one outside the range, which never
    /// leaves that state.
    pub open spec fn phase(self, h: u64) -> UnitState {
        if self.fetching.contains(h) {
            UnitState::Fetching
        } else if self.writing.contains(h) {
            UnitState::Writing
        } else if self.committed.contains(h) {
            UnitState::Committed
        } else if heights(self.failed).contains(h) {
            match self.failed[heights(self.failed).index_of(h)].fault {
                Fault::Fetch(_) => UnitState::FetchFailed,
                Fault::Write(_) => UnitState::WriteFailed,
            }
        } else {
            UnitState::Pending
        }
    }
}

/// Taking an entry out of a list without repeats leaves the other entries,
/// and it does not matter at which index the entry was found.
pub proof fn lemma_without(list: Seq<u64>, index: int)
    requires
        list.no_duplicates(),
        0 <= index < list.len(),
    ensures
        list.remove(index) == without(list, list[index]),
        without(list, list[index]).no_duplicates(),
        without(list, list[index]).len() == list.len() - 1,
        forall|x: u64| #[trigger]
            without(list, list[index]).contains(x) <==> list.contains(x) && x != list[index],
{
    let h = list[index];
    assert(list.contains(h));
    let found = list.index_of(h);
    assert(found == index);
    let rest = list.remove(index);
    assert forall|x: u64| #[trigger] rest.contains(x) <==> list.contains(x) && x != h by {
        if rest.contains(x) {
            let i = choose|i: int| 0 <= i < rest.len() && rest[i] == x;
            if i < index {
                assert(list[i] == x);
            } else {
                assert(list[i + 1] == x);
            }
        }
        if list.contains(x) && x != h {
            let i = choose|i: int| 0 <= i < list.len() && list[i] == x;
            if i < index {
                assert(rest[i] == x);
            } else {
                assert(rest[i - 1] == x);
            }
        }
    }
    assert forall|i: int, j: int| 0 <= i < rest.len() && 0 <= j < rest.len() && i != j implies rest[i]
        != rest[j] by {
        let a = if i < index { i } else { i + 1 };
        let b = if j < index { j } else { j + 1 };
        assert(rest[i] == list[a] && rest[j] == list[b]);
    }
}

/// Appending an entry that a list without repeats does not hold keeps it
/// without repeats and adds that entry alone.
pub proof fn lemma_push_fresh(list: Seq<u64>, h: u64)
    requires
        list.no_duplicates(),
        !list.contains(h),
    ensures
        list.push(h).no_duplicates(),
        forall|x: u64| #[trigger] list.push(h).contains(x) <==> list.contains(x) || x == h,
{
    let more = list.push(h);
    assert forall|x: u64| #[trigger] more.contains(x) <==> list.contains(x) || x == h by {
        if more.contains(x) {
            let i = choose|i: int| 0 <= i < more.len() && more[i] == x;
            if i < list.len() {
                assert(list[i] == x);
            }
        }
        if list.contains(x) {
            let i = choose|i: int| 0 <= i < list.len() && list[i] == x;
            assert(more[i] == x);
        }
        if x == h {
            assert(more[list.len() as int] == x);
        }
    }
    assert forall|i: int, j: int| 0 <= i < more.len() && 0 <= j < more.len() && i != j implies more[i]
        != more[j] by {
        if i < list.len() && j < list.len() {
        } else if i < list.len() {
            assert(list.contains(list[i]));
        } else if j < list.len() {
            assert(list.contains(list[j]));
        }
    }
}

/// The heights of a list of failures with one more failure are the heights
/// of the list with one more height.
pub proof fn lemma_heights_push(failed: Seq<Failure>, failure: Failure)
    ensures
        heights(failed.push(failure)) == heights(failed).push(failure.height),
{
    assert(heights(failed.push(failure)) =~= heights(failed).push(failure.height));
}

/// A sweep starts out in a state that meets the invariant.
pub proof fn lemma_initial_valid(start: u64, end: u64, width: usize)
    requires
        start <= end,
        width >= 1,
    ensures
        SweepState::initial(start, end, width).valid(),
{
    let s = SweepState::initial(start, end, width);
    assert(heights(s.failed) =~= Seq::<u64>::empty());
    assert forall|h: u64| #[trigger] s.places(h) == count_of(s.start <= h < s.next) by {}
}

/// Starting the next fetch keeps the invariant.
pub proof fn lemma_started_valid(s: SweepState)
    requires
        s.valid(),
        s.can_start(),
    ensures
        s.started().valid(),
{
    let t = s.started();
    assert(s.places(s.next) == 0);
    lemma_push_fresh(s.fetching, s.next);
    assert forall|h: u64| #[trigger] t.places(h) == count_of(t.start <= h < t.next) by {
        assert(s.places(h) == count_of(s.start <= h < s.next));
    }
}

/// An event that the state accepts keeps the invariant.
pub proof fn lemma_apply_valid(s: SweepState, event: Event)
    requires
        s.valid(),
        s.accepts(event),
    ensures
        s.apply(event).valid(),
{
    let t = s.apply(event);
    let h = event.height();
    assert(s.places(h) == count_of(s.start <= h < s.next));
    if event.ends_fetch() {
        lemma_without(s.fetching, s.fetching.index_of(h));
    } else {
        lemma_without(s.writing, s.writing.index_of(h));
    }
    match event {
        Event::FetchSucceeded(_) => {
            lemma_push_fresh(s.writing, h);
        },
        Event::FetchFailed(_, error) => {
            lemma_heights_push(s.failed, Failure { height: h, fault: Fault::Fetch(error) });
            lemma_push_fresh(heights(s.failed), h);
        },
        Event::WriteSucceeded(_) => {},
        Event::WriteFailed(_, error) => {
            lemma_heights_push(s.failed, Failure { height: h, fault: Fault::Write(error) });
            lemma_push_fresh(heights(s.failed), h);
        },
    }
    assert forall|x: u64| #[trigger] t.places(x) == count_of(t.start <= x < t.next) by {
        assert(s.places(x) == count_of(s.start <= x < s.next));
    }
}

/// What the sweep does next, or what happened: the start of the next fetch,
/// or an event reported back.
pub enum Step {
    Start,
    Report(Event),
}

impl SweepState {
    /// Whether `step` may be taken.
    pub open spec fn allows(self, step: Step) -> bool {
        match step {
            Step::Start => self.can_start(),
            Step::Report(event) => self.accepts(event),
        }
    }

    /// The state after `step`.
    pub open spec fn after(self, step: Step) -> SweepState {
        match step {
            Step::Start => self.started(),
            Step::Report(event) => self.apply(event),
        }
    }

    /// Whether `steps` may be taken one after the other.
    pub open spec fn allows_all(self, steps: Seq<Step>) -> bool
        decreases steps.len(),
    {
        steps.len() > 0 ==> self.allows(steps[0]) && self.after(steps[0]).allows_all(
            steps.drop_first(),
        )
    }

    /// The state after `steps`, taken one after the other.
    pub open spec fn after_all(self, steps: Seq<Step>) -> SweepState
        decreases steps.len(),
    {
        if steps.len() == 0 {
            self
        } else {
            self.after(steps[0]).after_all(steps.drop_first())
        }
    }
}

/// However the fetches and writes of a sweep interleave, the state meets
/// the invariant after every step, so never more than `width` fetches are in
/// flight.
pub proof fn lemma_every_state_valid(start: u64, end: u64, width: usize, steps: Seq<Step>)
    requires
        start <= end,
        width >= 1,
        SweepState::initial(start, end, width).allows_all(steps),
    ensures
        SweepState::initial(start, end, width).after_all(steps).valid(),
        SweepState::initial(start, end, width).after_all(steps).fetching.len() <= width,
{
    lemma_initial_valid(start, end, width);
    lemma_steps_keep_valid(SweepState::initial(start, end, width), steps);
}

/// Steps that may be taken from a state that meets the invariant lead to a
/// state that meets it.
pub proof fn lemma_steps_keep_valid(s: SweepState, steps: Seq<Step>)
    requires
        s.valid(),
        s.allows_all(steps),
    ensures
        s.after_all(steps).valid(),
        s.after_all(steps).start == s.start,
        s.after_all(steps).end == s.end,
        s.after_all(steps).width == s.width,
    decreases steps.len(),
{
    if steps.len() > 0 {
        match steps[0] {
            Step::Start => lemma_started_valid(s),
            Step::Report(event) => lemma_apply_valid(s, event),
        }
        lemma_steps_keep_valid(s.after(steps[0]), steps.drop_first());
    }
}

/// Once a sweep has finished, every height of its range is either committed
/// or failed and never both, no height is listed as failed twice, nothing
/// outside the range is counted, and the two counts add up to the length of
/// the range.
pub proof fn lemma_finished_covers_range(s: SweepState)
    requires
        s.valid(),
        s.finished(),
    ensures
        s.committed.len() + s.failed.len() == s.end - s.start,
        heights(s.failed).no_duplicates(),
        forall|h: u64|
            s.start <= h < s.end ==> (#[trigger] s.committed.contains(h)) != heights(
                s.failed,
            ).contains(h),
        forall|h: u64|
            !(s.start <= h < s.end) ==> !(#[trigger] s.committed.contains(h)) && !heights(
                s.failed,
            ).contains(h),
        forall|h: u64|
            s.start <= h < s.end ==> #[trigger] s.phase(h) is Committed || s.phase(h) is FetchFailed
                || s.phase(h) is WriteFailed,
{
    assert forall|h: u64|
        s.start <= h < s.end implies (#[trigger] s.committed.contains(h)) != heights(
        s.failed,
    ).contains(h) by {
        assert(s.places(h) == 1);
    }
    assert forall|h: u64| !(s.start <= h < s.end) implies !(#[trigger] s.committed.contains(h))
        && !heights(s.failed).contains(h) by {
        assert(s.places(h) == 0);
    }
    assert forall|h: u64| s.start <= h < s.end implies #[trigger] s.phase(h) is Committed
        || s.phase(h) is FetchFailed || s.phase(h) is WriteFailed by {
        assert(s.places(h) == 1);
    }
}

/// An event moves the height it is about, from `Fetching` or `Writing` to
/// where the event says, and leaves every other height where it stood: a
/// height that failed holds no other height back, and a height in a final
/// state stays there.
pub proof fn lemma_event_moves_one_height(s: SweepState, event: Event, other: u64)
    requires
        s.valid(),
        s.accepts(event),
    ensures
        s.phase(event.height()) == if event.ends_fetch() {
            UnitState::Fetching
        } else {
            UnitState::Writing
        },
        s.apply(event).phase(event.height()) == match event {
            Event::FetchSucceeded(_) => UnitState::Writing,
            Event::FetchFailed(_, _) => UnitState::FetchFailed,
            Event::WriteSucceeded(_) => UnitState::Committed,
            Event::WriteFailed(_, _) => UnitState::WriteFailed,
        },
        other != event.height() ==> s.apply(event).phase(other) == s.phase(other),
{
    let t = s.apply(event);
    let h = event.height();
    lemma_apply_valid(s, event);
    assert(s.places(h) == count_of(s.start <= h < s.next));
    assert(t.places(h) == count_of(t.start <= h < t.next));
    assert(s.places(other) == count_of(s.start <= other < s.next));
    assert(t.places(other) == count_of(t.start <= other < t.next));
    if event.ends_fetch() {
        lemma_without(s.fetching, s.fetching.index_of(h));
    } else {
        lemma_without(s.writing, s.writing.index_of(h));
    }
    match event {
        Event::FetchSucceeded(_) => {
            lemma_push_fresh(s.writing, h);
        },
        Event::FetchFailed(_, error) => {
            lemma_failure_recorded(s.failed, Failure { height: h, fault: Fault::Fetch(error) }, other);
        },
        Event::WriteSucceeded(_) => {},
        Event::WriteFailed(_, error) => {
            lemma_failure_recorded(s.failed, Failure { height: h, fault: Fault::Write(error) }, other);
        },
    }
}

/// Whether `step` reports that the rows of the block at `h` are in the store.
pub open spec fn commits(step: Step, h: u64) -> bool {
    step == Step::Report(Event::WriteSucceeded(h))
}

/// Whether `step` reports that the fetch or the write of `h` failed.
pub open spec fn fails(step: Step, h: u64) -> bool {
    step matches Step::Report(event) && event.height() == h && (event is FetchFailed
        || event is WriteFailed)
}

/// How a height ends depends on the events about that height alone. After
/// any steps, a height is committed exactly if it was committed before or
/// one of the steps reports its write as done, and it is listed as failed
/// exactly if it was listed before or one of the steps reports a failure of
/// it. What was reported about other heights plays no part.
pub proof fn lemma_outcome_follows_own_events(s: SweepState, steps: Seq<Step>, h: u64)
    requires
        s.valid(),
        s.allows_all(steps),
    ensures
        s.after_all(steps).committed.contains(h) <==> s.committed.contains(h) || exists|i: int|
            0 <= i < steps.len() && commits(#[trigger] steps[i], h),
        heights(s.after_all(steps).failed).contains(h) <==> heights(s.failed).contains(h)
            || exists|i: int| 0 <= i < steps.len() && fails(#[trigger] steps[i], h),
    decreases steps.len(),
{
    if steps.len() > 0 {
        let first = steps[0];
        let rest = steps.drop_first();
        let t = s.after(first);
        match first {
            Step::Start => {
                lemma_started_valid(s);
            },
            Step::Report(event) => {
                lemma_apply_valid(s, event);
                assert(s.places(event.height()) == count_of(
                    s.start <= event.height() < s.next,
                ));
                match event {
                    Event::FetchFailed(failed, error) => {
                        lemma_failure_recorded(
                            s.failed,
                            Failure { height: failed, fault: Fault::Fetch(error) },
                            h,
                        );
                    },
                    Event::WriteFailed(failed, error) => {
                        lemma_failure_recorded(
                            s.failed,
                            Failure { height: failed, fault: Fault::Write(error) },
                            h,
                        );
                    },
                    _ => {},
                }
            },
        }
        assert(t.committed.contains(h) <==> s.committed.contains(h) || commits(first, h));
        assert(heights(t.failed).contains(h) <==> heights(s.failed).contains(h) || fails(first, h));
        lemma_outcome_follows_own_events(t, rest, h);
        assert forall|j: int| 0 <= j < rest.len() implies #[trigger] rest[j] == steps[j + 1] by {}
        if exists|i: int| 0 <= i < steps.len() && commits(#[trigger] steps[i], h) {
            let i = choose|i: int| 0 <= i < steps.len() && commits(#[trigger] steps[i], h);
            if i > 0 {
                assert(commits(rest[i - 1], h));
            }
        }
        if exists|j: int| 0 <= j < rest.len() && commits(#[trigger] rest[j], h) {
            let j = choose|j: int| 0 <= j < rest.len() && commits(#[trigger] rest[j], h);
            assert(commits(steps[j + 1], h));
        }
        if exists|i: int| 0 <= i < steps.len() && fails(#[trigger] steps[i], h) {
            let i = choose|i: int| 0 <= i < steps.len() && fails(#[trigger] steps[i], h);
            if i > 0 {
                assert(fails(rest[i - 1], h));
            }
        }
        if exists|j: int| 0 <= j < rest.len() && fails(#[trigger] rest[j], h) {
            let j = choose|j: int| 0 <= j < rest.len() && fails(#[trigger] rest[j], h);
            assert(fails(steps[j + 1], h));
        }
    }
}

/// Recording a failure for a height that has none lists that height with
/// the failure's fault, and leaves the fault of any other height as it was.
pub proof fn lemma_failure_recorded(failed: Seq<Failure>, failure: Failure, other: u64)
    requires
        heights(failed).no_duplicates(),
        !heights(failed).contains(failure.height),
    ensures
        heights(failed.push(failure)).contains(failure.height),
        failed.push(failure)[heights(failed.push(failure)).index_of(failure.height)] == failure,
        heights(failed.push(failure)).contains(other) <==> heights(failed).contains(other) || other
            == failure.height,
        heights(failed).contains(other) ==> failed.push(failure)[heights(
            failed.push(failure),
        ).index_of(other)] == failed[heights(failed).index_of(other)],
{
    let more = failed.push(failure);
    lemma_heights_push(failed, failure);
    lemma_push_fresh(heights(failed), failure.height);
    assert(heights(more)[failed.len() as int] == failure.height);
    let at = heights(more).index_of(failure.height);
    assert(at == failed.len());
    if heights(failed).contains(other) {
        let i = heights(failed).index_of(other);
        assert(heights(more)[i] == other);
        let j = heights(more).index_of(other);
        assert(i == j);
    }
}

/// Starting the next fetch moves the height `next` from `Pending` to
/// `Fetching` and leaves every other height where it stood.
pub proof fn lemma_start_moves_one_height(s: SweepState, other: u64)
    requires
        s.valid(),
        s.can_start(),
    ensures
        s.phase(s.next) == UnitState::Pending,
        s.started().phase(s.next) == UnitState::Fetching,
        other != s.next ==> s.started().phase(other) == s.phase(other),
{
    assert(s.places(s.next) == 0);
    lemma_push_fresh(s.fetching, s.next);
}

/// Why a sweep cannot be set up.
#[derive(Clone, Copy, Debug, PartialEq, Eq, Structural)]
pub enum ConfigError {
    /// The range ends before it starts.
    InvertedRange,
    /// No fetch could ever be started.
    ZeroWidth,
}

/// What the driver of a sweep is to do next.
#[derive(Clone, Copy, Debug, PartialEq, Eq, Structural)]
pub enum Action {
    /// Start fetching the block at this height.
    Fetch(u64),
    /// No fetch may be started and fetches are in flight: wait for one of
    /// them and report how it ended.
    AwaitFetch,
    /// Every height has been fetched or has failed and writes are in
    /// flight: wait for one of them and report how it ended.
    AwaitWrite,
    /// Every height has reached a final state.
    Finish,
}

/// An event about a height that is not in flight.
#[derive(Clone, Copy, Debug, PartialEq, Eq, Structural)]
pub enum ProtocolError {
    /// No fetch is in flight for this height.
    NotFetching(u64),
    /// No write is in flight for this height.
    NotWriting(u64),
}

/// The counts of a sweep.
#[derive(Clone, Copy, Debug, PartialEq, Eq, Structural)]
pub struct Report {
    /// Heights whose fetch has been started.
    pub attempted: u64,
    /// Heights whose rows are in the store.
    pub committed: u64,
    /// Heights that failed.
    pub failed: u64,
}

/// A sweep over a range of heights. It hands out the heights to fetch, in
/// ascending order and never more than `width` at a time, and takes back how
/// each fetch and each write ended.
pub struct Sweep {
    start: u64,
    end: u64,
    width: usize,
    next: u64,
    fetching: Vec<u64>,
    writing: Vec<u64>,
    completed: u64,
    committed: Ghost<Set<u64>>,
    errors: Vec<Failure>,
}

impl View for Sweep {
    type V = SweepState;

    closed spec fn view(&self) -> SweepState {
        SweepState {
            start: self.start,
            end: self.end,
            width: self.width,
            next: self.next,
            fetching: self.fetching@,
            writing: self.writing@,
            committed: self.committed@,
            failed: self.errors@,
        }
    }
}

/// The index at which `list` holds `h`, if it holds it.
fn position(list: &Vec<u64>, h: u64) -> (found: Option<usize>)
    ensures
        match found {
            Some(index) => index < list.len() && list[index as int] == h,
            None => !list@.contains(h),
        },
{
    let mut i: usize = 0;
    while i < list.len()
        invariant
            i <= list.len(),
            forall|j: int| 0 <= j < i ==> list[j] != h,
        decreases list.len() - i,
    {
        if list[i] == h {
            return Some(i);
        }
        i += 1;
    }
    None
}

impl Sweep {
    /// Whether the counter of committed heights is right.
    pub closed spec fn tally_matches(&self) -> bool {
        self.completed == self.committed@.len()
    }

    /// The sweep's state meets the invariant and its counter is right.
    pub open spec fn wf(&self) -> bool {
        self@.valid() && self.tally_matches()
    }

    /// A sweep over the heights from `start` up to, not including, `end`,
    /// with at most `width` fetches in flight.
    pub fn new(start: u64, end: u64, width: usize) -> (sweep: Result<Sweep, ConfigError>)
        ensures
            match sweep {
                Ok(s) => start <= end && width >= 1 && s.wf() && s@ == SweepState::initial(
                    start,
                    end,
                    width,
                ),
                Err(ConfigError::InvertedRange) => start > end,
                Err(ConfigError::ZeroWidth) => start <= end && width == 0,
            },
    {
        if start > end {
            return Err(ConfigError::InvertedRange);
        }
        if width == 0 {
            return Err(ConfigError::ZeroWidth);
        }
        proof {
            lemma_initial_valid(start, end, width);
        }
        Ok(
            Sweep {
                start,
                end,
                width,
                next: start,
                fetching: Vec::new(),
                writing: Vec::new(),
                completed: 0,
                committed: Ghost(Set::empty()),
                errors: Vec::new(),
            },
        )
    }

    /// Decides what to do next. Where a height is left and a fetch slot is
    /// free, the fetch of the next height is started.
    pub fn next_action(&mut self) -> (action: Action)
        requires
            old(self).wf(),
        ensures
            final(self).wf(),
            match action {
                Action::Fetch(h) => old(self)@.can_start() && h == old(self)@.next && final(self)@
                    == old(self)@.started(),
                Action::AwaitFetch => !old(self)@.can_start() && old(self)@.fetching.len() > 0
                    && final(self)@ == old(self)@,
                Action::AwaitWrite => !old(self)@.can_start() && old(self)@.fetching.len() == 0
                    && old(self)@.writing.len() > 0 && final(self)@ == old(self)@,
                Action::Finish => old(self)@.finished() && final(self)@ == old(self)@,
            },
    {
        if self.next < self.end && self.fetching.len() < self.width {
            let h = self.next;
            proof {
                lemma_started_valid(self@);
            }
            self.fetching.push(h);
            self.next = h + 1;
            Action::Fetch(h)
        } else if self.fetching.len() > 0 {
            Action::AwaitFetch
        } else if self.writing.len() > 0 {
            Action::AwaitWrite
        } else {
            Action::Finish
        }
    }

    /// Takes in how a fetch or a write ended. An event about a height that
    /// is not in flight is refused and changes nothing.
    pub fn record(&mut self, event: Event) -> (outcome: Result<(), ProtocolError>)
        requires
            old(self).wf(),
        ensures
            final(self).wf(),
            old(self)@.accepts(event) ==> outcome is Ok && final(self)@ == old(self)@.apply(event),
            !old(self)@.accepts(event) ==> final(self)@ == old(self)@ && outcome == Err::<
                (),
                ProtocolError,
            >(
                if event.ends_fetch() {
                    ProtocolError::NotFetching(event.height())
                } else {
                    ProtocolError::NotWriting(event.height())
                },
            ),
    {
        match event {
            Event::FetchSucceeded(h) => {
                match position(&self.fetching, h) {
                    Some(index) => {
                        proof {
                            lemma_apply_valid(self@, event);
                            lemma_without(self.fetching@, index as int);
                        }
                        self.fetching.remove(index);
                        self.writing.push(h);
                        Ok(())
                    },
                    None => Err(ProtocolError::NotFetching(h)),
                }
            },
            Event::FetchFailed(h, error) => {
                match position(&self.fetching, h) {
                    Some(index) => {
                        proof {
                            lemma_apply_valid(self@, event);
                            lemma_without(self.fetching@, index as int);
                        }
                        self.fetching.remove(index);
                        self.errors.push(Failure { height: h, fault: Fault::Fetch(error) });
                        Ok(())
                    },
                    None => Err(ProtocolError::NotFetching(h)),
                }
            },
            Event::WriteSucceeded(h) => {
                match position(&self.writing, h) {
                    Some(index) => {
                        proof {
                            lemma_apply_valid(self@, event);
                            lemma_without(self.writing@, index as int);
                            assert(self@.places(h) == count_of(self@.start <= h < self@.next));
                        }
                        self.writing.remove(index);
                        self.completed = self.completed + 1;
                        self.committed = Ghost(self.committed@.insert(h));
                        Ok(())
                    },
                    None => Err(ProtocolError::NotWriting(h)),
                }
            },
            Event::WriteFailed(h, error) => {
                match position(&self.writing, h) {
                    Some(index) => {
                        proof {
                            lemma_apply_valid(self@, event);
                            lemma_without(self.writing@, index as int);
                        }
                        self.writing.remove(index);
                        self.errors.push(Failure { height: h, fault: Fault::Write(error) });
                        Ok(())
                    },
                    None => Err(ProtocolError::NotWriting(h)),
                }
            },
        }
    }

    /// The counts so far. Once the sweep has finished, `attempted` is the
    /// length of the range and is the sum of the other two.
    pub fn report(&self) -> (report: Report)
        requires
            self.wf(),
        ensures
            report.attempted == self@.next - self@.start,
            report.committed == self@.committed.len(),
            report.failed == self@.failed.len(),
            report.attempted == self@.fetching.len() + self@.writing.len() + report.committed
                + report.failed,
            self@.finished() ==> report.attempted == self@.end - self@.start && report.attempted
                == report.committed + report.failed,
    {
        Report {
            attempted: self.next - self.start,
            committed: self.completed,
            failed: self.errors.len() as u64,
        }
    }

    /// Whether every height of the range has reached a final state.
    pub fn is_finished(&self) -> (finished: bool)
        ensures
            finished == self@.finished(),
    {
        self.next == self.end && self.fetching.len() == 0 && self.writing.len() == 0
    }

    /// The number of fetches in flight.
    pub fn in_flight(&self) -> (count: usize)
        ensures
            count == self@.fetching.len(),
    {
        self.fetching.len()
    }

    /// The failures recorded so far, oldest first.
    pub fn errors(&self) -> (failed: &Vec<Failure>)
        ensures
            failed@ == self@.failed,
    {
        &self.errors
    }
}

} // verus!

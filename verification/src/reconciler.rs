use crate::err::{Error, ErrorView};
use crate::record::{Record, RecordView};
use crate::storage::{earlier, lemma_earlier_asymmetric, Storage};
use vstd::prelude::*;

verus! {

/// What one poll of the window source saw in the foreground.
#[derive(Clone, Debug, PartialEq, Eq)]
pub struct Observation {
    pub title: String,
    pub process_name: String,
}

/// An `Observation` as contracts see it.
pub struct ObservationView {
    pub title: Seq<char>,
    pub process_name: Seq<char>,
}

impl View for Observation {
    type V = ObservationView;

    open spec fn view(&self) -> ObservationView {
        ObservationView { title: self.title@, process_name: self.process_name@ }
    }
}

/// Where a tick stands: what it asks of its surroundings next, or how it
/// ended.
#[derive(Debug, PartialEq, Eq)]
pub enum UpdateStep {
    /// Poll the window source.
    Fetch,
    /// Look up the last record of the store; the observation waits.
    ReadLast { title: String, process_name: String },
    /// Add one second to the record that started at `start_time`.
    Increment { start_time: String },
    /// Insert a record for a session that has just begun.
    Insert { title: String, process_name: String },
    /// The tick is over.
    Done(Result<(), Error>),
}

/// An `UpdateStep` as contracts see it.
pub enum UpdateStepView {
    Fetch,
    ReadLast { title: Seq<char>, process_name: Seq<char> },
    Increment { start_time: Seq<char> },
    Insert { title: Seq<char>, process_name: Seq<char> },
    Done(Result<(), ErrorView>),
}

impl View for UpdateStep {
    type V = UpdateStepView;

    open spec fn view(&self) -> UpdateStepView {
        match self {
            UpdateStep::Fetch => UpdateStepView::Fetch,
            UpdateStep::ReadLast { title, process_name } => UpdateStepView::ReadLast {
                title: title@,
                process_name: process_name@,
            },
            UpdateStep::Increment { start_time } => UpdateStepView::Increment {
                start_time: start_time@,
            },
            UpdateStep::Insert { title, process_name } => UpdateStepView::Insert {
                title: title@,
                process_name: process_name@,
            },
            UpdateStep::Done(Ok(())) => UpdateStepView::Done(Ok(())),
            UpdateStep::Done(Err(error)) => UpdateStepView::Done(Err(error@)),
        }
    }
}

/// What the surroundings answer to a step. A failure of the store comes with
/// its cause as text.
#[derive(Debug, PartialEq, Eq)]
pub enum UpdateEvent {
    /// The window source was polled; `None` where it failed.
    Window(Option<Observation>),
    /// The last record was looked up.
    Last(Result<Option<Record>, String>),
    /// The increment or the insert was carried out.
    Written(Result<(), String>),
}

/// An `UpdateEvent` as contracts see it.
pub enum UpdateEventView {
    Window(Option<ObservationView>),
    Last(Result<Option<RecordView>, Seq<char>>),
    Written(Result<(), Seq<char>>),
}

impl View for UpdateEvent {
    type V = UpdateEventView;

    open spec fn view(&self) -> UpdateEventView {
        match self {
            UpdateEvent::Window(None) => UpdateEventView::Window(None),
            UpdateEvent::Window(Some(seen)) => UpdateEventView::Window(Some(seen@)),
            UpdateEvent::Last(Ok(None)) => UpdateEventView::Last(Ok(None)),
            UpdateEvent::Last(Ok(Some(record))) => UpdateEventView::Last(Ok(Some(record@))),
            UpdateEvent::Last(Err(cause)) => UpdateEventView::Last(Err(cause@)),
            UpdateEvent::Written(Ok(())) => UpdateEventView::Written(Ok(())),
            UpdateEvent::Written(Err(cause)) => UpdateEventView::Written(Err(cause@)),
        }
    }
}

impl UpdateStepView {
    /// The step that follows this one once `event` has come in.
    ///
    /// A failed poll ends the tick before the store is touched. A last record
    /// with the title and the process of the observation is extended by one
    /// second; anything else opens a new record. A failure of the store ends
    /// the tick with that failure. An event that does not answer the step
    /// leaves it as it is.
    pub open spec fn after(self, event: UpdateEventView) -> UpdateStepView {
        match (self, event) {
            (UpdateStepView::Fetch, UpdateEventView::Window(Some(seen))) => UpdateStepView::ReadLast {
                title: seen.title,
                process_name: seen.process_name,
            },
            (UpdateStepView::Fetch, UpdateEventView::Window(None)) => UpdateStepView::Done(
                Err(ErrorView::Fetch),
            ),
            (
                UpdateStepView::ReadLast { title, process_name },
                UpdateEventView::Last(Ok(Some(record))),
            ) => if record.matches(title, process_name) {
                UpdateStepView::Increment { start_time: record.start_time }
            } else {
                UpdateStepView::Insert { title, process_name }
            },
            (
                UpdateStepView::ReadLast { title, process_name },
                UpdateEventView::Last(Ok(None)),
            ) => UpdateStepView::Insert { title, process_name },
            (UpdateStepView::ReadLast { .. }, UpdateEventView::Last(Err(cause))) => UpdateStepView::Done(
                Err(ErrorView::Database(cause)),
            ),
            (UpdateStepView::Increment { .. }, UpdateEventView::Written(written)) => written_step(
                written,
            ),
            (UpdateStepView::Insert { .. }, UpdateEventView::Written(written)) => written_step(
                written,
            ),
            _ => self,
        }
    }

    /// This step asks for something of the store.
    pub open spec fn calls_store(self) -> bool {
        self is ReadLast || self is Increment || self is Insert
    }
}

/// How a tick ends once its write has been carried out.
pub open spec fn written_step(written: Result<(), Seq<char>>) -> UpdateStepView {
    match written {
        Ok(()) => UpdateStepView::Done(Ok(())),
        Err(cause) => UpdateStepView::Done(Err(ErrorView::Database(cause))),
    }
}

fn after_write(written: Result<(), String>) -> (next: UpdateStep)
    ensures
        next@ == written_step(
            match written {
                Ok(()) => Ok(()),
                Err(cause) => Err(cause@),
            },
        ),
{
    match written {
        Ok(()) => UpdateStep::Done(Ok(())),
        Err(cause) => UpdateStep::Done(Err(Error::Database(cause))),
    }
}

/// Takes a tick one step further: from the step that was pending and the
/// answer that came in to the step that is pending now. A tick starts at
/// `UpdateStep::Fetch` and is over at `UpdateStep::Done`.
pub fn update(step: UpdateStep, event: UpdateEvent) -> (next: UpdateStep)
    ensures
        next@ == step@.after(event@),
{
    match step {
        UpdateStep::Fetch => match event {
            UpdateEvent::Window(Some(seen)) => UpdateStep::ReadLast {
                title: seen.title,
                process_name: seen.process_name,
            },
            UpdateEvent::Window(None) => UpdateStep::Done(Err(Error::Fetch)),
            _ => UpdateStep::Fetch,
        },
        UpdateStep::ReadLast { title, process_name } => match event {
            UpdateEvent::Last(Ok(Some(record))) => {
                if record.matches(&title, &process_name) {
                    UpdateStep::Increment { start_time: record.start_time }
                } else {
                    UpdateStep::Insert { title, process_name }
                }
            },
            UpdateEvent::Last(Ok(None)) => UpdateStep::Insert { title, process_name },
            UpdateEvent::Last(Err(cause)) => UpdateStep::Done(Err(Error::Database(cause))),
            _ => UpdateStep::ReadLast { title, process_name },
        },
        UpdateStep::Increment { start_time } => match event {
            UpdateEvent::Written(written) => after_write(written),
            _ => UpdateStep::Increment { start_time },
        },
        UpdateStep::Insert { title, process_name } => match event {
            UpdateEvent::Written(written) => after_write(written),
            _ => UpdateStep::Insert { title, process_name },
        },
        UpdateStep::Done(outcome) => UpdateStep::Done(outcome),
    }
}

/// What the surroundings answer in the course of one tick: what the window
/// source saw, what the store gave as its last record, how the write went,
/// and the time at which a new record would start.
pub struct TickAnswers {
    pub window: Option<ObservationView>,
    pub last: Result<Option<RecordView>, Seq<char>>,
    pub written: Result<(), Seq<char>>,
    pub now: Seq<char>,
}

/// The step at which a tick stands when its write, if it asks for one, is
/// due: the window source and the lookup of the last record have answered.
pub open spec fn decide(answers: TickAnswers) -> UpdateStepView {
    UpdateStepView::Fetch.after(UpdateEventView::Window(answers.window)).after(
        UpdateEventView::Last(answers.last),
    )
}

/// The store after one tick. The store changes only where the tick came to a
/// write and the write succeeded.
pub open spec fn tick(store: Storage, answers: TickAnswers) -> Storage {
    match (decide(answers), answers.written) {
        (UpdateStepView::Increment { start_time }, Ok(())) => store.update_record(start_time),
        (UpdateStepView::Insert { title, process_name }, Ok(())) => store.insert_record(
            title,
            process_name,
            answers.now,
        ),
        _ => store,
    }
}

/// How one tick ends.
pub open spec fn tick_outcome(answers: TickAnswers) -> UpdateStepView {
    decide(answers).after(UpdateEventView::Written(answers.written))
}

/// The store after one tick for each of `answers`, in their order.
pub open spec fn run(store: Storage, answers: Seq<TickAnswers>) -> Storage
    decreases answers.len(),
{
    if answers.len() == 0 {
        store
    } else {
        tick(run(store, answers.drop_last()), answers.last())
    }
}

/// In every tick of `answers` the window source saw `seen`, the store gave
/// a last record that it holds at that moment, and the write succeeded.
pub open spec fn steady(store: Storage, seen: ObservationView, answers: Seq<TickAnswers>) -> bool
    decreases answers.len(),
{
    answers.len() == 0 || {
        &&& steady(store, seen, answers.drop_last())
        &&& answers.last().window == Some(seen)
        &&& answers.last().last matches Ok(last)
        &&& run(store, answers.drop_last()).last_record(last)
        &&& answers.last().written is Ok
    }
}

/// `record` with `ticks` more active seconds.
pub open spec fn extended(record: RecordView, ticks: nat) -> RecordView {
    RecordView { active_seconds: record.active_seconds + ticks, ..record }
}

/// The newest record of `store` started later than every other.
pub open spec fn newest_is_latest(store: Storage) -> bool {
    forall|i: int|
        0 <= i < store.records.len() - 1 ==> earlier(
            (#[trigger] store.records[i]).start_time,
            store.records.last().start_time,
        )
}

/// A tick ends, whatever the store and the window source answer, and once
/// it has ended no event moves it.
pub proof fn lemma_tick_ends(answers: TickAnswers, event: UpdateEventView)
    ensures
        tick_outcome(answers) is Done,
        tick_outcome(answers).after(event) == tick_outcome(answers),
{
}

/// A tick changes the store by one insert or one increment at most. It keeps
/// the store well-formed, touches no checkpoint, removes no record, and
/// leaves of every record the id, the start time, the title and the process
/// as they were; active seconds never go down.
pub proof fn lemma_tick_keeps_history(store: Storage, answers: TickAnswers)
    requires
        store.wf(),
    ensures
        tick(store, answers).wf(),
        tick(store, answers).syncs == store.syncs,
        store.records.len() <= tick(store, answers).records.len() <= store.records.len() + 1,
        forall|i: int|
            0 <= i < store.records.len() ==> {
                let before = #[trigger] store.records[i];
                let after = tick(store, answers).records[i];
                &&& after.id == before.id
                &&& after.start_time == before.start_time
                &&& after.title == before.title
                &&& after.process_name == before.process_name
                &&& before.active_seconds <= after.active_seconds <= before.active_seconds + 1
            },
{
    match (decide(answers), answers.written) {
        (UpdateStepView::Increment { start_time }, Ok(())) => {
            store.lemma_update_record(start_time);
        },
        (UpdateStepView::Insert { title, process_name }, Ok(())) => {
            store.lemma_insert_record(title, process_name, answers.now);
            let after = store.insert_record(title, process_name, answers.now);
            assert forall|i: int| 0 <= i < store.records.len() implies after.records[i]
                == #[trigger] store.records[i] by {
                assert(after.records.drop_last()[i] == after.records[i]);
            }
        },
        _ => {},
    }
}

/// Where the newest record started later than every other, it is the one
/// that a lookup of the last record gives.
pub proof fn lemma_newest_is_last(store: Storage, answer: Option<RecordView>)
    requires
        store.records.len() >= 1,
        newest_is_latest(store),
        store.last_record(answer),
    ensures
        answer == Some(store.records.last()),
{
    let record = answer->Some_0;
    let at = choose|i: int| 0 <= i < store.records.len() && store.records[i] == record;
    if at < store.records.len() - 1 {
        assert(earlier(store.records[at].start_time, store.records.last().start_time));
        assert(!earlier(
            record.start_time,
            store.records[store.records.len() - 1].start_time,
        ));
    }
}

/// One tick that sees the window of the newest record, which started later
/// than every other, adds one second to that record and changes nothing
/// else.
proof fn lemma_tick_extends_newest(store: Storage, seen: ObservationView, answers: TickAnswers)
    requires
        store.wf(),
        store.records.len() >= 1,
        newest_is_latest(store),
        store.records.last().matches(seen.title, seen.process_name),
        answers.window == Some(seen),
        answers.last matches Ok(last) && store.last_record(last),
        answers.written is Ok,
    ensures
        tick(store, answers).records == store.records.drop_last().push(
            extended(store.records.last(), 1),
        ),
        tick(store, answers).syncs == store.syncs,
        tick(store, answers).wf(),
        newest_is_latest(tick(store, answers)),
{
    let newest = store.records.last();
    lemma_newest_is_last(store, answers.last->Ok_0);
    assert(decide(answers) == UpdateStepView::Increment { start_time: newest.start_time });
    store.lemma_update_record(newest.start_time);
    let after = store.update_record(newest.start_time);
    assert forall|i: int| 0 <= i < store.records.len() - 1 implies #[trigger] after.records[i]
        == store.records[i] by {
        lemma_earlier_asymmetric(store.records[i].start_time, newest.start_time);
    }
    assert(after.records == store.records.drop_last().push(extended(newest, 1)));
    assert forall|i: int| 0 <= i < after.records.len() - 1 implies earlier(
        (#[trigger] after.records[i]).start_time,
        after.records.last().start_time,
    ) by {
        assert(earlier(store.records[i].start_time, newest.start_time));
    }
}

/// A session goes on: while the window of the newest record stays in the
/// foreground, every tick adds one second to that record, and no tick
/// creates a record or changes another.
pub proof fn lemma_session_continues(
    store: Storage,
    seen: ObservationView,
    answers: Seq<TickAnswers>,
)
    requires
        store.wf(),
        store.records.len() >= 1,
        newest_is_latest(store),
        store.records.last().matches(seen.title, seen.process_name),
        steady(store, seen, answers),
    ensures
        run(store, answers).records == store.records.drop_last().push(
            extended(store.records.last(), answers.len()),
        ),
        run(store, answers).syncs == store.syncs,
        run(store, answers).wf(),
        newest_is_latest(run(store, answers)),
    decreases answers.len(),
{
    if answers.len() == 0 {
        assert(store.records == store.records.drop_last().push(extended(store.records.last(), 0)));
    } else {
        lemma_session_continues(store, seen, answers.drop_last());
        let before = run(store, answers.drop_last());
        lemma_tick_extends_newest(before, seen, answers.last());
        assert(before.records.drop_last() == store.records.drop_last());
    }
}

/// No double counting: a run of ticks that all see the same window, begun
/// when the store's last record is another window's and the clock has moved
/// past every stored start time, creates exactly one record, and that
/// record has one active second for each tick of the run. Every older
/// record and every checkpoint stays as it was.
pub proof fn lemma_no_double_counting(
    store: Storage,
    seen: ObservationView,
    answers: Seq<TickAnswers>,
)
    requires
        store.wf(),
        answers.len() >= 1,
        steady(store, seen, answers),
        forall|last: RecordView|
            store.is_last_record(last) ==> !last.matches(seen.title, seen.process_name),
        forall|i: int|
            0 <= i < store.records.len() ==> earlier(
                (#[trigger] store.records[i]).start_time,
                answers[0].now,
            ),
    ensures
        run(store, answers).records == store.records.push(
            RecordView {
                id: store.max_id() + 1,
                start_time: answers[0].now,
                title: seen.title,
                process_name: seen.process_name,
                active_seconds: answers.len(),
            },
        ),
        run(store, answers).syncs == store.syncs,
        run(store, answers).wf(),
        newest_is_latest(run(store, answers)),
    decreases answers.len(),
{
    let before = run(store, answers.drop_last());
    if answers.len() == 1 {
        assert(before == store);
        assert(before.last_record(answers.last().last->Ok_0));
        assert(decide(answers.last()) == UpdateStepView::Insert {
            title: seen.title,
            process_name: seen.process_name,
        });
        store.lemma_insert_record(seen.title, seen.process_name, answers[0].now);
        let after = store.insert_record(seen.title, seen.process_name, answers[0].now);
        assert forall|i: int| 0 <= i < after.records.len() - 1 implies earlier(
            (#[trigger] after.records[i]).start_time,
            after.records.last().start_time,
        ) by {
            assert(after.records[i] == store.records[i]);
        }
    } else {
        assert(answers.drop_last()[0] == answers[0]);
        lemma_no_double_counting(store, seen, answers.drop_last());
        lemma_tick_extends_newest(before, seen, answers.last());
        assert(before.records.drop_last() == store.records);
    }
}

/// Session split: a tick that sees another window than that of the store's
/// last record opens a new record with one active second, whether or not an
/// older record has the same title and process. Nothing is merged.
pub proof fn lemma_session_split(store: Storage, seen: ObservationView, answers: TickAnswers)
    requires
        store.wf(),
        answers.window == Some(seen),
        answers.last matches Ok(last) && store.last_record(last),
        answers.last matches Ok(Some(last)) ==> !last.matches(seen.title, seen.process_name),
        answers.written is Ok,
    ensures
        tick(store, answers) == store.insert_record(seen.title, seen.process_name, answers.now),
        tick(store, answers).records.drop_last() == store.records,
        tick(store, answers).records.last() == (RecordView {
            id: store.max_id() + 1,
            start_time: answers.now,
            title: seen.title,
            process_name: seen.process_name,
            active_seconds: 1,
        }),
{
    store.lemma_insert_record(seen.title, seen.process_name, answers.now);
}

/// Fetch failure isolation: a tick in which the window source fails ends
/// with that failure before it asks anything of the store, and leaves the
/// store as it was.
pub proof fn lemma_fetch_failure_isolation(store: Storage, answers: TickAnswers)
    requires
        answers.window is None,
    ensures
        UpdateStepView::Fetch.after(UpdateEventView::Window(answers.window)) == UpdateStepView::Done(
            Err(ErrorView::Fetch),
        ),
        !decide(answers).calls_store(),
        tick_outcome(answers) == UpdateStepView::Done(Err(ErrorView::Fetch)),
        tick(store, answers) == store,
{
}

/// A failure of the store costs at most the second of the tick in which it
/// happens: the tick ends with that failure and the store stays as it was.
pub proof fn lemma_store_failure_changes_nothing(store: Storage, answers: TickAnswers)
    requires
        answers.window is Some,
        answers.last is Err || answers.written is Err,
    ensures
        tick(store, answers) == store,
        tick_outcome(answers) matches UpdateStepView::Done(Err(ErrorView::Database(_))),
{
}

} // verus!

use crate::config::{Config, ConfigView};
use crate::err::{Error, ErrorView, Response, ResponseView};
use crate::record::{record_views, Record, RecordView};
use crate::storage::Storage;
use crate::wire::{on_wire, to_wire_batch};
use vstd::prelude::*;

verus! {

/// The status with which the collector confirms an upload. No other status
/// counts as success.
pub const STATUS_OK: u16 = 200;

/// One upload as it goes over the wire: a POST to `url` with these two
/// headers and this body.
#[derive(Clone, Debug, PartialEq, Eq)]
pub struct Request {
    pub url: String,
    pub authorization: String,
    pub content_type: String,
    pub body: String,
}

/// A `Request` as contracts see it.
pub struct RequestView {
    pub url: Seq<char>,
    pub authorization: Seq<char>,
    pub content_type: Seq<char>,
    pub body: Seq<char>,
}

impl View for Request {
    type V = RequestView;

    open spec fn view(&self) -> RequestView {
        RequestView {
            url: self.url@,
            authorization: self.authorization@,
            content_type: self.content_type@,
            body: self.body@,
        }
    }
}

/// Where a sync cycle stands: what it asks of its surroundings next, or how
/// it ended.
#[derive(Debug, PartialEq, Eq)]
pub enum SyncStep {
    /// Look up the newest checkpoint, 0 where there is none.
    ReadCheckpoint,
    /// Read the records with an id above `offset`, by ascending id.
    ReadBacklog { offset: usize },
    /// Encode `records`, which are in their wire form, as one JSON array.
    Encode { last_record_id: usize, records: Vec<Record> },
    /// Send `request` and wait for the answer.
    Post { last_record_id: usize, request: Request },
    /// Append the checkpoint `last_record_id`.
    WriteCheckpoint { last_record_id: usize },
    /// The cycle is over.
    Done(Result<(), Error>),
}

/// A `SyncStep` as contracts see it.
pub enum SyncStepView {
    ReadCheckpoint,
    ReadBacklog { offset: nat },
    Encode { last_record_id: nat, records: Seq<RecordView> },
    Post { last_record_id: nat, request: RequestView },
    WriteCheckpoint { last_record_id: nat },
    Done(Result<(), ErrorView>),
}

impl View for SyncStep {
    type V = SyncStepView;

    open spec fn view(&self) -> SyncStepView {
        match self {
            SyncStep::ReadCheckpoint => SyncStepView::ReadCheckpoint,
            SyncStep::ReadBacklog { offset } => SyncStepView::ReadBacklog { offset: *offset as nat },
            SyncStep::Encode { last_record_id, records } => SyncStepView::Encode {
                last_record_id: *last_record_id as nat,
                records: record_views(records@),
            },
            SyncStep::Post { last_record_id, request } => SyncStepView::Post {
                last_record_id: *last_record_id as nat,
                request: request@,
            },
            SyncStep::WriteCheckpoint { last_record_id } => SyncStepView::WriteCheckpoint {
                last_record_id: *last_record_id as nat,
            },
            SyncStep::Done(Ok(())) => SyncStepView::Done(Ok(())),
            SyncStep::Done(Err(error)) => SyncStepView::Done(Err(error@)),
        }
    }
}

/// What the surroundings answer to a step. A failure comes with its cause as
/// text.
#[derive(Debug, PartialEq, Eq)]
pub enum SyncEvent {
    /// The newest checkpoint was looked up.
    Checkpoint(Result<usize, String>),
    /// The backlog was read.
    Backlog(Result<Vec<Record>, String>),
    /// The records were encoded.
    Encoded(Result<String, String>),
    /// The request was sent: the collector's answer, or why none came.
    Sent(Result<Response, String>),
    /// The checkpoint was appended.
    Written(Result<(), String>),
}

/// A `SyncEvent` as contracts see it.
pub enum SyncEventView {
    Checkpoint(Result<nat, Seq<char>>),
    Backlog(Result<Seq<RecordView>, Seq<char>>),
    Encoded(Result<Seq<char>, Seq<char>>),
    Sent(Result<ResponseView, Seq<char>>),
    Written(Result<(), Seq<char>>),
}

impl View for SyncEvent {
    type V = SyncEventView;

    open spec fn view(&self) -> SyncEventView {
        match self {
            SyncEvent::Checkpoint(Ok(offset)) => SyncEventView::Checkpoint(Ok(*offset as nat)),
            SyncEvent::Checkpoint(Err(cause)) => SyncEventView::Checkpoint(Err(cause@)),
            SyncEvent::Backlog(Ok(records)) => SyncEventView::Backlog(Ok(record_views(records@))),
            SyncEvent::Backlog(Err(cause)) => SyncEventView::Backlog(Err(cause@)),
            SyncEvent::Encoded(Ok(body)) => SyncEventView::Encoded(Ok(body@)),
            SyncEvent::Encoded(Err(cause)) => SyncEventView::Encoded(Err(cause@)),
            SyncEvent::Sent(Ok(response)) => SyncEventView::Sent(Ok(response@)),
            SyncEvent::Sent(Err(cause)) => SyncEventView::Sent(Err(cause@)),
            SyncEvent::Written(Ok(())) => SyncEventView::Written(Ok(())),
            SyncEvent::Written(Err(cause)) => SyncEventView::Written(Err(cause@)),
        }
    }
}

/// The upload of `body` as `config` asks for it: to the configured address,
/// with the access token as a bearer token, declared as JSON.
pub open spec fn upload(config: ConfigView, body: Seq<char>) -> RequestView {
    RequestView {
        url: config.sync.url,
        authorization: "Bearer "@ + config.sync.access_token,
        content_type: "application/json"@,
        body,
    }
}

impl SyncStepView {
    /// The step that follows this one once `event` has come in.
    ///
    /// An empty backlog ends the cycle at once, with success: nothing is
    /// sent and no checkpoint is written. A backlog of `n` records above
    /// `offset` is sent in its wire form as one request, and only the status
    /// `STATUS_OK` lets the checkpoint `offset + n` be written. Any failure
    /// ends the cycle with that failure and without a checkpoint. An event
    /// that does not answer the step leaves it as it is.
    pub open spec fn after(self, config: ConfigView, event: SyncEventView) -> SyncStepView {
        match (self, event) {
            (
                SyncStepView::ReadCheckpoint,
                SyncEventView::Checkpoint(Ok(offset)),
            ) => SyncStepView::ReadBacklog { offset },
            (
                SyncStepView::ReadCheckpoint,
                SyncEventView::Checkpoint(Err(cause)),
            ) => SyncStepView::Done(Err(ErrorView::Database(cause))),
            (
                SyncStepView::ReadBacklog { offset },
                SyncEventView::Backlog(Ok(records)),
            ) => if records.len() == 0 {
                SyncStepView::Done(Ok(()))
            } else {
                SyncStepView::Encode {
                    last_record_id: offset + records.len(),
                    records: records.map_values(|record: RecordView| on_wire(record)),
                }
            },
            (
                SyncStepView::ReadBacklog { .. },
                SyncEventView::Backlog(Err(cause)),
            ) => SyncStepView::Done(Err(ErrorView::Database(cause))),
            (
                SyncStepView::Encode { last_record_id, .. },
                SyncEventView::Encoded(Ok(body)),
            ) => SyncStepView::Post { last_record_id, request: upload(config, body) },
            (
                SyncStepView::Encode { .. },
                SyncEventView::Encoded(Err(cause)),
            ) => SyncStepView::Done(Err(ErrorView::Serialization(cause))),
            (
                SyncStepView::Post { last_record_id, .. },
                SyncEventView::Sent(Ok(response)),
            ) => if response.status == STATUS_OK {
                SyncStepView::WriteCheckpoint { last_record_id }
            } else {
                SyncStepView::Done(Err(ErrorView::Sync(response)))
            },
            (SyncStepView::Post { .. }, SyncEventView::Sent(Err(cause))) => SyncStepView::Done(
                Err(ErrorView::Connection(cause)),
            ),
            (
                SyncStepView::WriteCheckpoint { .. },
                SyncEventView::Written(Ok(())),
            ) => SyncStepView::Done(Ok(())),
            (
                SyncStepView::WriteCheckpoint { .. },
                SyncEventView::Written(Err(cause)),
            ) => SyncStepView::Done(Err(ErrorView::Database(cause))),
            _ => self,
        }
    }

    /// The checkpoint that `event` leads to can be held in a `usize`.
    pub open spec fn fits(self, event: SyncEventView) -> bool {
        match (self, event) {
            (
                SyncStepView::ReadBacklog { offset },
                SyncEventView::Backlog(Ok(records)),
            ) => offset + records.len() <= usize::MAX,
            _ => true,
        }
    }
}

fn make_upload(config: &Config, body: String) -> (request: Request)
    ensures
        request@ == upload(config@, body@),
{
    let mut authorization = String::from_str("Bearer ");
    authorization.append(config.sync.access_token.as_str());
    Request {
        url: config.sync.url.clone(),
        authorization,
        content_type: String::from_str("application/json"),
        body,
    }
}

/// Takes a sync cycle one step further: from the step that was pending and
/// the answer that came in to the step that is pending now. A cycle starts at
/// `SyncStep::ReadCheckpoint` and is over at `SyncStep::Done`.
pub fn sync(config: &Config, step: SyncStep, event: SyncEvent) -> (next: SyncStep)
    requires
        step@.fits(event@),
    ensures
        next@ == step@.after(config@, event@),
{
    match step {
        SyncStep::ReadCheckpoint => match event {
            SyncEvent::Checkpoint(Ok(offset)) => SyncStep::ReadBacklog { offset },
            SyncEvent::Checkpoint(Err(cause)) => SyncStep::Done(Err(Error::Database(cause))),
            _ => SyncStep::ReadCheckpoint,
        },
        SyncStep::ReadBacklog { offset } => match event {
            SyncEvent::Backlog(Ok(records)) => {
                if records.len() == 0 {
                    SyncStep::Done(Ok(()))
                } else {
                    SyncStep::Encode {
                        last_record_id: offset + records.len(),
                        records: to_wire_batch(&records),
                    }
                }
            },
            SyncEvent::Backlog(Err(cause)) => SyncStep::Done(Err(Error::Database(cause))),
            _ => SyncStep::ReadBacklog { offset },
        },
        SyncStep::Encode { last_record_id, records } => match event {
            SyncEvent::Encoded(Ok(body)) => SyncStep::Post {
                last_record_id,
                request: make_upload(config, body),
            },
            SyncEvent::Encoded(Err(cause)) => SyncStep::Done(Err(Error::Serialization(cause))),
            _ => SyncStep::Encode { last_record_id, records },
        },
        SyncStep::Post { last_record_id, request } => match event {
            SyncEvent::Sent(Ok(response)) => {
                if response.status == STATUS_OK {
                    SyncStep::WriteCheckpoint { last_record_id }
                } else {
                    SyncStep::Done(Err(Error::Sync(response)))
                }
            },
            SyncEvent::Sent(Err(cause)) => SyncStep::Done(Err(Error::Connection(cause))),
            _ => SyncStep::Post { last_record_id, request },
        },
        SyncStep::WriteCheckpoint { last_record_id } => match event {
            SyncEvent::Written(Ok(())) => SyncStep::Done(Ok(())),
            SyncEvent::Written(Err(cause)) => SyncStep::Done(Err(Error::Database(cause))),
            _ => SyncStep::WriteCheckpoint { last_record_id },
        },
        SyncStep::Done(outcome) => SyncStep::Done(outcome),
    }
}

/// What the surroundings answer in the course of one sync cycle, apart from
/// the store's two lookups: how the encoding went, what came of the request,
/// and how the write of the checkpoint went.
pub struct SyncAnswers {
    pub encoded: Result<Seq<char>, Seq<char>>,
    pub sent: Result<ResponseView, Seq<char>>,
    pub written: Result<(), Seq<char>>,
}

/// The step at which a cycle stands once `store` has given its newest
/// checkpoint and the backlog above it.
pub open spec fn plan(config: ConfigView, store: Storage) -> SyncStepView {
    SyncStepView::ReadCheckpoint.after(
        config,
        SyncEventView::Checkpoint(Ok(store.last_synced_record())),
    ).after(
        config,
        SyncEventView::Backlog(Ok(store.get_records(store.last_synced_record()))),
    )
}

/// The step at which a cycle stands when the write of its checkpoint, if it
/// comes to one, is due.
pub open spec fn settle(config: ConfigView, store: Storage, answers: SyncAnswers) -> SyncStepView {
    plan(config, store).after(config, SyncEventView::Encoded(answers.encoded)).after(
        config,
        SyncEventView::Sent(answers.sent),
    )
}

/// The store after one sync cycle. The store changes only where the cycle
/// came to the write of a checkpoint and the write succeeded.
pub open spec fn cycle(config: ConfigView, store: Storage, answers: SyncAnswers) -> Storage {
    match (settle(config, store, answers), answers.written) {
        (SyncStepView::WriteCheckpoint { last_record_id }, Ok(())) => store.add_sync_record(
            last_record_id,
        ),
        _ => store,
    }
}

/// How one sync cycle ends.
pub open spec fn cycle_outcome(
    config: ConfigView,
    store: Storage,
    answers: SyncAnswers,
) -> SyncStepView {
    settle(config, store, answers).after(config, SyncEventView::Written(answers.written))
}

/// The collector has confirmed the upload and the checkpoint was written.
pub open spec fn confirmed(answers: SyncAnswers) -> bool {
    &&& answers.encoded is Ok
    &&& answers.sent matches Ok(response)
    &&& response.status == STATUS_OK
    &&& answers.written is Ok
}

/// The failure with which a cycle ends that had a backlog to send and was
/// not confirmed: the first thing that went wrong.
pub open spec fn failure(answers: SyncAnswers) -> ErrorView {
    match (answers.encoded, answers.sent, answers.written) {
        (Err(cause), _, _) => ErrorView::Serialization(cause),
        (Ok(_), Err(cause), _) => ErrorView::Connection(cause),
        (Ok(_), Ok(response), Err(cause)) => if response.status == STATUS_OK {
            ErrorView::Database(cause)
        } else {
            ErrorView::Sync(response)
        },
        (Ok(_), Ok(response), Ok(())) => ErrorView::Sync(response),
    }
}

/// A sync cycle ends, whatever its surroundings answer, and once it has
/// ended no event moves it.
pub proof fn lemma_cycle_ends(
    config: ConfigView,
    store: Storage,
    answers: SyncAnswers,
    event: SyncEventView,
)
    ensures
        cycle_outcome(config, store, answers) is Done,
        cycle_outcome(config, store, answers).after(config, event) == cycle_outcome(
            config,
            store,
            answers,
        ),
{
}

/// However a sync cycle goes, it keeps the store well-formed: the
/// checkpoint never runs ahead of the records and never falls back. The
/// records are not touched: the wire form of a record is made for the
/// request alone. And the checkpoint moves only once the collector has
/// confirmed an upload of every record up to it.
pub proof fn lemma_cycle_keeps_store(config: ConfigView, store: Storage, answers: SyncAnswers)
    requires
        store.wf(),
    ensures
        cycle(config, store, answers).wf(),
        cycle(config, store, answers).records == store.records,
        store.last_synced_record() <= cycle(config, store, answers).last_synced_record()
            <= store.max_id(),
        cycle(config, store, answers) != store ==> {
            &&& confirmed(answers)
            &&& plan(config, store) matches SyncStepView::Encode { records, .. }
            &&& records == store.records.skip(store.last_synced_record() as int).map_values(
                |record: RecordView| on_wire(record),
            )
            &&& cycle(config, store, answers) == store.add_sync_record(store.max_id())
        },
{
    if store.syncs.len() > 0 {
        assert(store.syncs[store.syncs.len() - 1] <= store.max_id());
    }
    store.lemma_get_records(store.last_synced_record());
    if store.last_synced_record() < store.max_id() {
        lemma_plan_sends_backlog(config, store);
        store.lemma_add_sync_record(store.max_id());
    }
}

/// Empty sync is a no-op: where the newest checkpoint is the highest id of
/// the store, the cycle ends with success as soon as the backlog has been
/// read. It never comes to a request, and the store stays as it was.
pub proof fn lemma_empty_sync_is_noop(config: ConfigView, store: Storage, answers: SyncAnswers)
    requires
        store.wf(),
        store.last_synced_record() == store.max_id(),
    ensures
        plan(config, store) == SyncStepView::Done(Ok(())),
        cycle_outcome(config, store, answers) == SyncStepView::Done(Ok(())),
        cycle(config, store, answers) == store,
{
    store.lemma_get_records(store.last_synced_record());
}

/// A cycle with a backlog sends all of it at once: every record above the
/// newest checkpoint, in its wire form and by ascending id, and nothing
/// else. The checkpoint it aims at is the id of the last of them, the highest
/// of the store.
pub proof fn lemma_plan_sends_backlog(config: ConfigView, store: Storage)
    requires
        store.wf(),
        store.last_synced_record() < store.max_id(),
    ensures
        ({
            let offset = store.last_synced_record();
            let backlog = store.get_records(offset);
            &&& backlog == store.records.skip(offset as int)
            &&& backlog.len() > 0
            &&& offset + backlog.len() == backlog.last().id == store.max_id()
            &&& plan(config, store) == SyncStepView::Encode {
                last_record_id: store.max_id(),
                records: backlog.map_values(|record: RecordView| on_wire(record)),
            }
        }),
{
    store.lemma_get_records(store.last_synced_record());
}

/// A confirmed sync moves the checkpoint to the end of the backlog: the
/// request carries the encoded backlog to the configured address, and once
/// the collector has answered with `STATUS_OK` the checkpoint is the id of
/// the last record sent. The records stay as they were, and nothing is left
/// to send.
pub proof fn lemma_confirmed_sync_advances(
    config: ConfigView,
    store: Storage,
    answers: SyncAnswers,
)
    requires
        store.wf(),
        store.last_synced_record() < store.max_id(),
        confirmed(answers),
    ensures
        plan(config, store).after(config, SyncEventView::Encoded(answers.encoded))
            == (SyncStepView::Post {
            last_record_id: store.max_id(),
            request: upload(config, answers.encoded->Ok_0),
        }),
        settle(config, store, answers) == (SyncStepView::WriteCheckpoint {
            last_record_id: store.max_id(),
        }),
        cycle_outcome(config, store, answers) == SyncStepView::Done(Ok(())),
        cycle(config, store, answers) == store.add_sync_record(store.max_id()),
        cycle(config, store, answers).wf(),
        cycle(config, store, answers).records == store.records,
        cycle(config, store, answers).last_synced_record() == store.get_records(
            store.last_synced_record(),
        ).last().id,
        cycle(config, store, answers).get_records(
            cycle(config, store, answers).last_synced_record(),
        ).len() == 0,
{
    lemma_plan_sends_backlog(config, store);
    store.lemma_add_sync_record(store.max_id());
    let after = store.add_sync_record(store.max_id());
    after.lemma_get_records(after.last_synced_record());
}

/// A sync that is not confirmed changes nothing: whether the encoding, the
/// transport or the write of the checkpoint failed, or the collector
/// answered with another status than `STATUS_OK`, the cycle ends with that
/// failure and the store is as it was, so that the next cycle finds the same
/// checkpoint and reads the same backlog.
pub proof fn lemma_failed_sync_changes_nothing(
    config: ConfigView,
    store: Storage,
    answers: SyncAnswers,
)
    requires
        store.wf(),
        store.last_synced_record() < store.max_id(),
        !confirmed(answers),
    ensures
        cycle(config, store, answers) == store,
        cycle_outcome(config, store, answers) == SyncStepView::Done(Err(failure(answers))),
        plan(config, cycle(config, store, answers)) == plan(config, store),
{
    lemma_plan_sends_backlog(config, store);
}

/// Records that are inserted while a backlog waits join it at its end, and
/// a second added to a record leaves the ids of the backlog as they were.
pub proof fn lemma_backlog_keeps_growing(
    store: Storage,
    offset: nat,
    title: Seq<char>,
    process_name: Seq<char>,
    now: Seq<char>,
)
    requires
        store.wf(),
        offset <= store.max_id(),
    ensures
        store.insert_record(title, process_name, now).get_records(offset) == store.get_records(
            offset,
        ).push(store.insert_record(title, process_name, now).records.last()),
        store.update_record(now).get_records(offset).len() == store.get_records(offset).len(),
        forall|i: int|
            0 <= i < store.get_records(offset).len() ==> (#[trigger] store.update_record(
                now,
            ).get_records(offset)[i]).id == store.get_records(offset)[i].id,
{
    store.lemma_get_records(offset);
    store.lemma_insert_record(title, process_name, now);
    store.insert_record(title, process_name, now).lemma_get_records(offset);
    store.lemma_update_record(now);
    store.update_record(now).lemma_get_records(offset);
}

} // verus!

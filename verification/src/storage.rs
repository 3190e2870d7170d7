use crate::record::RecordView;
use vstd::prelude::*;

verus! {

/// `a` sorts before `b` as text, character by character. Timestamps of one
/// format sort by time under this order.
pub open spec fn earlier(a: Seq<char>, b: Seq<char>) -> bool
    decreases a.len(),
{
    if b.len() == 0 {
        false
    } else if a.len() == 0 {
        true
    } else if a[0] != b[0] {
        (a[0] as u32) < (b[0] as u32)
    } else {
        earlier(a.skip(1), b.skip(1))
    }
}

/// No text sorts both before and after another; none sorts before itself.
pub proof fn lemma_earlier_asymmetric(a: Seq<char>, b: Seq<char>)
    ensures
        earlier(a, b) ==> !earlier(b, a),
    decreases a.len(),
{
    if a.len() > 0 && b.len() > 0 && a[0] == b[0] {
        lemma_earlier_asymmetric(a.skip(1), b.skip(1));
    }
}

/// The record store as the rules of this library see it: the rows of its two
/// tables, oldest first. The database itself is kept by the program that
/// drives the library; every operation on it is one atomic statement, and what
/// such a statement does is stated here.
pub struct Storage {
    /// The activity records.
    pub records: Seq<RecordView>,
    /// The checkpoints: each is the id of the last record of an upload that
    /// was confirmed. Only the newest counts.
    pub syncs: Seq<nat>,
}

impl Storage {
    /// A store that was just created: both tables are empty.
    pub open spec fn init() -> Storage {
        Storage { records: Seq::empty(), syncs: Seq::empty() }
    }

    /// Ids count up from 1 without a gap, every record has been active for at
    /// least one tick, and the checkpoints never run ahead of the records nor
    /// fall back.
    pub open spec fn wf(self) -> bool {
        &&& forall|i: int| 0 <= i < self.records.len() ==> (#[trigger] self.records[i]).id == i + 1
        &&& forall|i: int|
            0 <= i < self.records.len() ==> (#[trigger] self.records[i]).active_seconds >= 1
        &&& forall|i: int| 0 <= i < self.syncs.len() ==> #[trigger] self.syncs[i] <= self.max_id()
        &&& forall|i: int, j: int|
            0 <= i <= j < self.syncs.len() ==> #[trigger] self.syncs[i] <= #[trigger] self.syncs[j]
    }

    /// The highest id in the store, 0 while it holds no record. Ids ascend, so
    /// it is the id of the newest record.
    pub open spec fn max_id(self) -> nat {
        if self.records.len() == 0 {
            0
        } else {
            self.records.last().id
        }
    }

    /// `record` is in the store and no record started later. Where several
    /// records share the latest start time, each of them qualifies.
    pub open spec fn is_last_record(self, record: RecordView) -> bool {
        &&& self.records.contains(record)
        &&& forall|i: int|
            0 <= i < self.records.len() ==> !earlier(
                record.start_time,
                (#[trigger] self.records[i]).start_time,
            )
    }

    /// `answer` is what a lookup of the last record may return: nothing from
    /// an empty store, else a record that started latest.
    pub open spec fn last_record(self, answer: Option<RecordView>) -> bool {
        match answer {
            None => self.records.len() == 0,
            Some(record) => self.is_last_record(record),
        }
    }

    /// The store after a record for `title` and `process_name` was inserted
    /// at the time `now`: it gets the next id and one active second.
    pub open spec fn insert_record(
        self,
        title: Seq<char>,
        process_name: Seq<char>,
        now: Seq<char>,
    ) -> Storage {
        Storage {
            records: self.records.push(
                RecordView {
                    id: self.max_id() + 1,
                    start_time: now,
                    title,
                    process_name,
                    active_seconds: 1,
                },
            ),
            ..self
        }
    }

    /// The store after one second was added to every record that started at
    /// `start_time`. Where none did, nothing changes.
    pub open spec fn update_record(self, start_time: Seq<char>) -> Storage {
        Storage {
            records: self.records.map_values(
                |record: RecordView|
                    if record.start_time == start_time {
                        RecordView { active_seconds: record.active_seconds + 1, ..record }
                    } else {
                        record
                    },
            ),
            ..self
        }
    }

    /// The id up to which records are known to have been uploaded: the newest
    /// checkpoint, 0 where there is none.
    pub open spec fn last_synced_record(self) -> nat {
        if self.syncs.len() == 0 {
            0
        } else {
            self.syncs.last()
        }
    }

    /// The records with an id above `offset`, by ascending id.
    pub open spec fn get_records(self, offset: nat) -> Seq<RecordView> {
        self.records.filter(|record: RecordView| record.id > offset)
    }

    /// The store after the checkpoint `last_record_id` was appended.
    pub open spec fn add_sync_record(self, last_record_id: nat) -> Storage {
        Storage { syncs: self.syncs.push(last_record_id), ..self }
    }

    /// A store that was just created is well-formed: it has no last record
    /// and no checkpoint.
    pub proof fn lemma_init()
        ensures
            Storage::init().wf(),
            Storage::init().last_record(None),
            Storage::init().last_synced_record() == 0,
            Storage::init().max_id() == 0,
    {
    }

    /// In a well-formed store the highest id is the number of records.
    pub proof fn lemma_max_id(self)
        requires
            self.wf(),
        ensures
            self.max_id() == self.records.len(),
    {
    }

    /// An insert keeps the store well-formed and every older record as it
    /// was.
    pub proof fn lemma_insert_record(
        self,
        title: Seq<char>,
        process_name: Seq<char>,
        now: Seq<char>,
    )
        requires
            self.wf(),
        ensures
            self.insert_record(title, process_name, now).wf(),
            self.insert_record(title, process_name, now).records.len() == self.records.len() + 1,
            self.insert_record(title, process_name, now).records.drop_last() == self.records,
            self.insert_record(title, process_name, now).syncs == self.syncs,
    {
        let after = self.insert_record(title, process_name, now);
        assert(after.records.drop_last() == self.records);
        assert forall|i: int| 0 <= i < after.syncs.len() implies #[trigger] after.syncs[i]
            <= after.max_id() by {
            assert(self.syncs[i] <= self.max_id());
        }
    }

    /// An increment keeps the store well-formed: it changes no id, no start
    /// time and no fingerprint, and adds to no record more than one second.
    pub proof fn lemma_update_record(self, start_time: Seq<char>)
        requires
            self.wf(),
        ensures
            self.update_record(start_time).wf(),
            self.update_record(start_time).records.len() == self.records.len(),
            self.update_record(start_time).syncs == self.syncs,
            forall|i: int|
                0 <= i < self.records.len() ==> {
                    let before = #[trigger] self.records[i];
                    let after = self.update_record(start_time).records[i];
                    &&& after.id == before.id
                    &&& after.start_time == before.start_time
                    &&& after.title == before.title
                    &&& after.process_name == before.process_name
                    &&& after.active_seconds == before.active_seconds + (if before.start_time
                        == start_time {
                        1nat
                    } else {
                        0nat
                    })
                },
    {
        let after = self.update_record(start_time);
        assert forall|i: int| 0 <= i < after.records.len() implies (#[trigger] after.records[i]).id
            == i + 1 by {
            assert(self.records[i].id == i + 1);
        }
        assert forall|i: int| 0 <= i < after.records.len() implies (
        #[trigger] after.records[i]).active_seconds >= 1 by {
            assert(self.records[i].active_seconds >= 1);
        }
        assert forall|i: int| 0 <= i < after.syncs.len() implies #[trigger] after.syncs[i]
            <= after.max_id() by {
            assert(self.syncs[i] <= self.max_id());
        }
    }

    /// An increment by a start time that no record has changes nothing.
    pub proof fn lemma_update_record_without_match(self, start_time: Seq<char>)
        requires
            forall|i: int|
                0 <= i < self.records.len() ==> (#[trigger] self.records[i]).start_time
                    != start_time,
        ensures
            self.update_record(start_time) == self,
    {
        assert(self.update_record(start_time).records == self.records);
    }

    /// In a well-formed store the records above `offset` are those behind
    /// the first `offset` ones.
    pub proof fn lemma_get_records(self, offset: nat)
        requires
            self.wf(),
        ensures
            offset <= self.records.len() ==> self.get_records(offset) == self.records.skip(
                offset as int,
            ),
            offset >= self.records.len() ==> self.get_records(offset) == Seq::<RecordView>::empty(),
        decreases self.records.len(),
    {
        reveal(Seq::filter);
        if self.records.len() > 0 {
            let rest = Storage { records: self.records.drop_last(), syncs: Seq::empty() };
            rest.lemma_get_records(offset);
            if offset < self.records.len() {
                assert(self.records.skip(offset as int) == rest.records.skip(offset as int).push(
                    self.records.last(),
                ));
            }
        }
    }

    /// A checkpoint that neither runs ahead of the records nor falls behind
    /// the newest one keeps the store well-formed, and is the newest from
    /// then on.
    pub proof fn lemma_add_sync_record(self, last_record_id: nat)
        requires
            self.wf(),
            self.last_synced_record() <= last_record_id <= self.max_id(),
        ensures
            self.add_sync_record(last_record_id).wf(),
            self.add_sync_record(last_record_id).last_synced_record() == last_record_id,
            self.add_sync_record(last_record_id).records == self.records,
    {
        let after = self.add_sync_record(last_record_id);
        assert forall|i: int, j: int| 0 <= i <= j < after.syncs.len() implies #[trigger] after.syncs[i]
            <= #[trigger] after.syncs[j] by {
            if j < self.syncs.len() {
                assert(self.syncs[i] <= self.syncs[j]);
            } else if i < self.syncs.len() {
                assert(self.syncs[i] <= self.syncs[self.syncs.len() - 1]);
            }
        }
    }
}

} // verus!

use vstd::prelude::*;

verus! {

/// One stored activity session: a run of ticks during which the same window
/// of the same process was in the foreground.
#[derive(Clone, Debug, PartialEq, Eq)]
pub struct Record {
    pub id: usize,
    pub start_time: String,
    pub title: String,
    pub process_name: String,
    pub active_seconds: usize,
}

/// A `Record` as contracts see it.
pub struct RecordView {
    pub id: nat,
    pub start_time: Seq<char>,
    pub title: Seq<char>,
    pub process_name: Seq<char>,
    pub active_seconds: nat,
}

impl View for Record {
    type V = RecordView;

    open spec fn view(&self) -> RecordView {
        RecordView {
            id: self.id as nat,
            start_time: self.start_time@,
            title: self.title@,
            process_name: self.process_name@,
            active_seconds: self.active_seconds as nat,
        }
    }
}

/// The views of `records`, in their order.
pub open spec fn record_views(records: Seq<Record>) -> Seq<RecordView> {
    records.map_values(|record: Record| record@)
}

impl Record {
    /// Whether this record stands for the window `title` of `process_name`.
    pub fn matches(&self, title: &String, process_name: &String) -> (same: bool)
        ensures
            same == self@.matches(title@, process_name@),
    {
        self.title == *title && self.process_name == *process_name
    }
}

impl RecordView {
    /// Both fields of the fingerprint agree, character for character.
    pub open spec fn matches(self, title: Seq<char>, process_name: Seq<char>) -> bool {
        self.title == title && self.process_name == process_name
    }
}

} // verus!

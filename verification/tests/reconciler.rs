use activity_tracker::err::Error;
use activity_tracker::reconciler::{update, Observation, UpdateEvent, UpdateStep};
use activity_tracker::record::Record;

/// A record store held in memory, which counts the calls made to it.
struct MemoryStore {
    records: Vec<Record>,
    calls: usize,
    broken: bool,
}

impl MemoryStore {
    fn new() -> Self {
        MemoryStore { records: Vec::new(), calls: 0, broken: false }
    }

    fn last_record(&mut self) -> Result<Option<Record>, String> {
        self.calls += 1;
        if self.broken {
            return Err("disk I/O error".to_string());
        }
        let mut last: Option<&Record> = None;
        for record in &self.records {
            if last.map_or(true, |found| found.start_time <= record.start_time) {
                last = Some(record);
            }
        }
        Ok(last.cloned())
    }

    fn insert_record(&mut self, title: &str, process_name: &str, now: &str) -> Result<(), String> {
        self.calls += 1;
        if self.broken {
            return Err("disk I/O error".to_string());
        }
        let id = self.records.iter().map(|record| record.id).max().unwrap_or(0) + 1;
        self.records.push(Record {
            id,
            start_time: now.to_string(),
            title: title.to_string(),
            process_name: process_name.to_string(),
            active_seconds: 1,
        });
        Ok(())
    }

    fn update_record(&mut self, start_time: &str) -> Result<(), String> {
        self.calls += 1;
        if self.broken {
            return Err("disk I/O error".to_string());
        }
        for record in self.records.iter_mut() {
            if record.start_time == start_time {
                record.active_seconds += 1;
            }
        }
        Ok(())
    }
}

fn seen(title: &str, process_name: &str) -> Option<Observation> {
    Some(Observation { title: title.to_string(), process_name: process_name.to_string() })
}

/// Drives one tick to its end: carries out what each step asks for and hands
/// the answer back.
fn tick(store: &mut MemoryStore, window: Option<Observation>, now: &str) -> Result<(), Error> {
    let mut window = Some(window);
    let mut step = UpdateStep::Fetch;
    loop {
        let event = match &step {
            UpdateStep::Fetch => UpdateEvent::Window(window.take().unwrap()),
            UpdateStep::ReadLast { .. } => UpdateEvent::Last(store.last_record()),
            UpdateStep::Increment { start_time } => {
                UpdateEvent::Written(store.update_record(start_time))
            }
            UpdateStep::Insert { title, process_name } => {
                UpdateEvent::Written(store.insert_record(title, process_name, now))
            }
            UpdateStep::Done(_) => break,
        };
        step = update(step, event);
    }
    match step {
        UpdateStep::Done(outcome) => outcome,
        _ => unreachable!(),
    }
}

fn stamp(second: usize) -> String {
    format!("2024-01-02 03:04:{:02}", second)
}

#[test]
fn identical_observations_are_counted_once_each() {
    for k in 1..=20usize {
        let mut store = MemoryStore::new();
        for second in 0..k {
            assert_eq!(tick(&mut store, seen("Editor", "C:\\bin\\code.exe"), &stamp(second)), Ok(()));
        }
        assert_eq!(store.records.len(), 1);
        assert_eq!(
            store.records[0],
            Record {
                id: 1,
                start_time: stamp(0),
                title: "Editor".to_string(),
                process_name: "C:\\bin\\code.exe".to_string(),
                active_seconds: k,
            }
        );
    }
}

#[test]
fn a_run_after_another_window_creates_one_record() {
    let mut store = MemoryStore::new();
    assert_eq!(tick(&mut store, seen("Mail", "mail.exe"), &stamp(0)), Ok(()));
    assert_eq!(tick(&mut store, seen("Mail", "mail.exe"), &stamp(1)), Ok(()));
    for second in 2..9 {
        assert_eq!(tick(&mut store, seen("Editor", "code.exe"), &stamp(second)), Ok(()));
    }
    assert_eq!(store.records.len(), 2);
    assert_eq!(store.records[0].active_seconds, 2);
    assert_eq!(store.records[1].id, 2);
    assert_eq!(store.records[1].start_time, stamp(2));
    assert_eq!(store.records[1].title, "Editor");
    assert_eq!(store.records[1].active_seconds, 7);
}

#[test]
fn session_split() {
    let mut store = MemoryStore::new();
    assert_eq!(tick(&mut store, seen("A", "a.exe"), &stamp(0)), Ok(()));
    assert_eq!(tick(&mut store, seen("A", "a.exe"), &stamp(1)), Ok(()));
    assert_eq!(tick(&mut store, seen("B", "b.exe"), &stamp(2)), Ok(()));
    assert_eq!(tick(&mut store, seen("A", "a.exe"), &stamp(3)), Ok(()));
    assert_eq!(store.records.len(), 3);
    assert_eq!(
        store.records[0],
        Record {
            id: 1,
            start_time: stamp(0),
            title: "A".to_string(),
            process_name: "a.exe".to_string(),
            active_seconds: 2,
        }
    );
    assert_eq!(
        store.records[1],
        Record {
            id: 2,
            start_time: stamp(2),
            title: "B".to_string(),
            process_name: "b.exe".to_string(),
            active_seconds: 1,
        }
    );
    assert_eq!(
        store.records[2],
        Record {
            id: 3,
            start_time: stamp(3),
            title: "A".to_string(),
            process_name: "a.exe".to_string(),
            active_seconds: 1,
        }
    );
}

#[test]
fn a_changed_title_of_the_same_process_is_a_new_session() {
    let mut store = MemoryStore::new();
    assert_eq!(tick(&mut store, seen("Inbox - Browser", "browser.exe"), &stamp(0)), Ok(()));
    assert_eq!(tick(&mut store, seen("News - Browser", "browser.exe"), &stamp(1)), Ok(()));
    assert_eq!(store.records.len(), 2);
    assert_eq!(store.records[0].active_seconds, 1);
    assert_eq!(store.records[1].title, "News - Browser");
    assert_eq!(store.records[1].active_seconds, 1);
}

#[test]
fn the_same_title_of_another_process_is_a_new_session() {
    let mut store = MemoryStore::new();
    assert_eq!(tick(&mut store, seen("Untitled", "notepad.exe"), &stamp(0)), Ok(()));
    assert_eq!(tick(&mut store, seen("Untitled", "paint.exe"), &stamp(1)), Ok(()));
    assert_eq!(store.records.len(), 2);
    assert_eq!(store.records[1].process_name, "paint.exe");
}

#[test]
fn fetch_failure_isolation() {
    let mut store = MemoryStore::new();
    assert_eq!(tick(&mut store, seen("A", "a.exe"), &stamp(0)), Ok(()));
    assert_eq!(tick(&mut store, seen("A", "a.exe"), &stamp(1)), Ok(()));
    let before = store.records.clone();
    let calls = store.calls;
    assert_eq!(tick(&mut store, None, &stamp(2)), Err(Error::Fetch));
    assert_eq!(store.calls, calls);
    assert_eq!(store.records, before);
    assert_eq!(store.records[0].active_seconds, 2);
    assert_eq!(tick(&mut store, seen("A", "a.exe"), &stamp(3)), Ok(()));
    assert_eq!(store.records.len(), 1);
    assert_eq!(store.records[0].active_seconds, 3);
}

#[test]
fn a_failed_lookup_ends_the_tick_without_a_write() {
    let mut store = MemoryStore::new();
    assert_eq!(tick(&mut store, seen("A", "a.exe"), &stamp(0)), Ok(()));
    let before = store.records.clone();
    let calls = store.calls;
    store.broken = true;
    assert_eq!(
        tick(&mut store, seen("A", "a.exe"), &stamp(1)),
        Err(Error::Database("disk I/O error".to_string()))
    );
    assert_eq!(store.calls, calls + 1);
    assert_eq!(store.records, before);
}

#[test]
fn a_failed_poll_asks_nothing_of_the_store() {
    assert_eq!(
        update(UpdateStep::Fetch, UpdateEvent::Window(None)),
        UpdateStep::Done(Err(Error::Fetch))
    );
}

#[test]
fn an_observation_waits_for_the_last_record() {
    assert_eq!(
        update(UpdateStep::Fetch, UpdateEvent::Window(seen("Editor", "code.exe"))),
        UpdateStep::ReadLast { title: "Editor".to_string(), process_name: "code.exe".to_string() }
    );
}

fn waiting() -> UpdateStep {
    UpdateStep::ReadLast { title: "Editor".to_string(), process_name: "code.exe".to_string() }
}

fn stored(title: &str, process_name: &str) -> Record {
    Record {
        id: 41,
        start_time: "2024-01-02 03:04:05".to_string(),
        title: title.to_string(),
        process_name: process_name.to_string(),
        active_seconds: 9,
    }
}

#[test]
fn a_matching_last_record_is_incremented_by_its_start_time() {
    assert_eq!(
        update(waiting(), UpdateEvent::Last(Ok(Some(stored("Editor", "code.exe"))))),
        UpdateStep::Increment { start_time: "2024-01-02 03:04:05".to_string() }
    );
}

#[test]
fn an_empty_store_gets_an_insert() {
    assert_eq!(
        update(waiting(), UpdateEvent::Last(Ok(None))),
        UpdateStep::Insert { title: "Editor".to_string(), process_name: "code.exe".to_string() }
    );
}

#[test]
fn a_last_record_that_differs_in_one_field_gets_an_insert() {
    let insert =
        UpdateStep::Insert { title: "Editor".to_string(), process_name: "code.exe".to_string() };
    assert_eq!(update(waiting(), UpdateEvent::Last(Ok(Some(stored("Editor", "vim.exe"))))), insert);
    assert_eq!(update(waiting(), UpdateEvent::Last(Ok(Some(stored("Shell", "code.exe"))))), insert);
    assert_eq!(update(waiting(), UpdateEvent::Last(Ok(Some(stored("editor", "code.exe"))))), insert);
    assert_eq!(update(waiting(), UpdateEvent::Last(Ok(Some(stored("Editor ", "code.exe"))))), insert);
}

#[test]
fn a_failed_lookup_is_a_database_error() {
    assert_eq!(
        update(waiting(), UpdateEvent::Last(Err("no such table: records".to_string()))),
        UpdateStep::Done(Err(Error::Database("no such table: records".to_string())))
    );
}

#[test]
fn a_write_ends_the_tick() {
    let increment = || UpdateStep::Increment { start_time: "2024-01-02 03:04:05".to_string() };
    let insert =
        || UpdateStep::Insert { title: "Editor".to_string(), process_name: "code.exe".to_string() };
    assert_eq!(update(increment(), UpdateEvent::Written(Ok(()))), UpdateStep::Done(Ok(())));
    assert_eq!(update(insert(), UpdateEvent::Written(Ok(()))), UpdateStep::Done(Ok(())));
    assert_eq!(
        update(increment(), UpdateEvent::Written(Err("database is locked".to_string()))),
        UpdateStep::Done(Err(Error::Database("database is locked".to_string())))
    );
    assert_eq!(
        update(insert(), UpdateEvent::Written(Err("database is locked".to_string()))),
        UpdateStep::Done(Err(Error::Database("database is locked".to_string())))
    );
}

#[test]
fn an_event_that_answers_another_step_is_ignored() {
    assert_eq!(update(UpdateStep::Fetch, UpdateEvent::Written(Ok(()))), UpdateStep::Fetch);
    assert_eq!(update(UpdateStep::Fetch, UpdateEvent::Last(Ok(None))), UpdateStep::Fetch);
    assert_eq!(update(waiting(), UpdateEvent::Window(None)), waiting());
    assert_eq!(update(waiting(), UpdateEvent::Written(Ok(()))), waiting());
    assert_eq!(
        update(
            UpdateStep::Increment { start_time: "2024-01-02 03:04:05".to_string() },
            UpdateEvent::Last(Ok(None))
        ),
        UpdateStep::Increment { start_time: "2024-01-02 03:04:05".to_string() }
    );
    assert_eq!(
        update(
            UpdateStep::Insert { title: "Editor".to_string(), process_name: "code.exe".to_string() },
            UpdateEvent::Window(seen("Mail", "mail.exe"))
        ),
        UpdateStep::Insert { title: "Editor".to_string(), process_name: "code.exe".to_string() }
    );
}

#[test]
fn a_tick_that_is_over_stays_over() {
    assert_eq!(
        update(UpdateStep::Done(Ok(())), UpdateEvent::Window(seen("Mail", "mail.exe"))),
        UpdateStep::Done(Ok(()))
    );
    assert_eq!(
        update(UpdateStep::Done(Err(Error::Fetch)), UpdateEvent::Written(Ok(()))),
        UpdateStep::Done(Err(Error::Fetch))
    );
}

#[test]
fn a_record_matches_on_both_fields_exactly() {
    let record = stored("Editor", "code.exe");
    assert!(record.matches(&"Editor".to_string(), &"code.exe".to_string()));
    assert!(!record.matches(&"Editor".to_string(), &"Code.exe".to_string()));
    assert!(!record.matches(&"".to_string(), &"code.exe".to_string()));
    assert!(!record.matches(&"code.exe".to_string(), &"Editor".to_string()));
}

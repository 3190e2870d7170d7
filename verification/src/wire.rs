use crate::record::{record_views, Record, RecordView};
use vstd::prelude::*;

verus! {

/// The characters that part the directories of a path.
pub open spec fn is_separator(c: char) -> bool {
    c == '/' || c == '\\'
}

/// Where the base name of `path` begins: behind its last separator, or at
/// the front where it has none.
pub open spec fn base_name_start(path: Seq<char>) -> nat
    decreases path.len(),
{
    if path.len() == 0 {
        0
    } else if is_separator(path.last()) {
        path.len()
    } else {
        base_name_start(path.drop_last())
    }
}

/// `path` without its directories.
pub open spec fn base_name(path: Seq<char>) -> Seq<char> {
    path.skip(base_name_start(path) as int)
}

/// The base name is the longest end of the path that holds no separator:
/// it holds none, and what stands before it is empty or ends in one.
pub proof fn lemma_base_name(path: Seq<char>)
    ensures
        base_name_start(path) <= path.len(),
        path == path.take(base_name_start(path) as int) + base_name(path),
        forall|i: int| 0 <= i < base_name(path).len() ==> !is_separator(#[trigger] base_name(path)[i]),
        base_name_start(path) > 0 ==> is_separator(path[base_name_start(path) - 1]),
    decreases path.len(),
{
    if path.len() > 0 && !is_separator(path.last()) {
        let front = path.drop_last();
        lemma_base_name(front);
        assert forall|i: int| 0 <= i < base_name(path).len() implies !is_separator(
            #[trigger] base_name(path)[i],
        ) by {
            if i < base_name(front).len() {
                assert(base_name(path)[i] == base_name(front)[i]);
            }
        }
        if base_name_start(path) > 0 {
            assert(path[base_name_start(path) - 1] == front[base_name_start(front) - 1]);
        }
    }
}

/// The directories of a path are stripped whole: what is left of a path
/// that ends in `name`, behind a separator, is `name`, where `name` holds no
/// separator itself.
pub proof fn lemma_base_name_of_joined(directory: Seq<char>, separator: char, name: Seq<char>)
    requires
        is_separator(separator),
        forall|i: int| 0 <= i < name.len() ==> !is_separator(#[trigger] name[i]),
    ensures
        base_name_start(directory.push(separator) + name) == directory.len() + 1,
        base_name(directory.push(separator) + name) == name,
    decreases name.len(),
{
    let path = directory.push(separator) + name;
    if name.len() == 0 {
        assert(path == directory.push(separator));
    } else {
        lemma_base_name_of_joined(directory, separator, name.drop_last());
        assert(path.drop_last() == directory.push(separator) + name.drop_last());
        assert(path.last() == name.last());
    }
    assert(path.skip(directory.len() as int + 1) == name);
}

/// The base name of `path`: what stands behind its last `/` or `\`, and all
/// of it where it holds neither.
pub fn to_base_name(path: &str) -> (name: String)
    ensures
        name@ == base_name(path@),
{
    let len: usize = path.unicode_len();
    let mut start: usize = 0;
    let mut seen: usize = 0;
    for c in it: path.chars()
        invariant
            len == path@.len(),
            seen == it.index(),
            it.seq() == path@,
            start <= seen <= len,
            start == base_name_start(path@.take(seen as int)),
    {
        proof {
            let upto = path@.take(seen + 1);
            assert(upto.drop_last() == path@.take(seen as int));
            assert(upto.last() == c);
        }
        seen = seen + 1;
        if c == '/' || c == '\\' {
            start = seen;
        }
    }
    proof {
        assert(path@.take(seen as int) == path@);
    }
    String::from_str(path.substring_char(start, seen))
}

/// A stored timestamp as it is sent: every space gives way to a `T`, so that
/// `2024-01-02 03:04:05` reads `2024-01-02T03:04:05`.
pub open spec fn iso_timestamp(stored: Seq<char>) -> Seq<char> {
    stored.map_values(|c: char| if c == ' ' { 'T' } else { c })
}

/// The ISO form of a stored timestamp.
pub fn to_iso_timestamp(stored: &str) -> (sent: String)
    ensures
        sent@ == iso_timestamp(stored@),
{
    let len: usize = stored.unicode_len();
    let mut sent = String::new();
    let mut copied: usize = 0;
    let mut seen: usize = 0;
    for c in it: stored.chars()
        invariant
            len == stored@.len(),
            seen == it.index(),
            it.seq() == stored@,
            copied <= seen <= len,
            sent@ == iso_timestamp(stored@.take(copied as int)),
            forall|i: int| copied <= i < seen ==> stored@[i] != ' ',
    {
        if c == ' ' {
            sent.append(stored.substring_char(copied, seen));
            sent.append("T");
            proof {
                reveal_strlit("T");
                assert(sent@ == iso_timestamp(stored@.take(seen + 1)));
            }
            copied = seen + 1;
        }
        seen = seen + 1;
    }
    sent.append(stored.substring_char(copied, seen));
    proof {
        assert(stored@.take(seen as int) == stored@);
        assert(sent@ == iso_timestamp(stored@));
    }
    sent
}

/// A record as it is sent to the collector: the timestamp in its ISO form
/// and the process without its directories. The stored record stays as it is.
pub open spec fn on_wire(stored: RecordView) -> RecordView {
    RecordView {
        start_time: iso_timestamp(stored.start_time),
        process_name: base_name(stored.process_name),
        ..stored
    }
}

/// The wire form of a stored record. The stored record is left as it is.
pub fn to_wire(stored: &Record) -> (sent: Record)
    ensures
        sent@ == on_wire(stored@),
{
    Record {
        id: stored.id,
        start_time: to_iso_timestamp(stored.start_time.as_str()),
        title: stored.title.clone(),
        process_name: to_base_name(stored.process_name.as_str()),
        active_seconds: stored.active_seconds,
    }
}

/// The wire form of each record of a batch, in the order of the batch.
pub fn to_wire_batch(stored: &Vec<Record>) -> (sent: Vec<Record>)
    ensures
        record_views(sent@) == record_views(stored@).map_values(|record: RecordView| on_wire(record)),
{
    let mut sent: Vec<Record> = Vec::new();
    let mut done: usize = 0;
    while done < stored.len()
        invariant
            done <= stored.len(),
            sent.len() == done,
            forall|i: int| 0 <= i < done ==> (#[trigger] sent[i])@ == on_wire(stored[i]@),
        decreases stored.len() - done,
    {
        sent.push(to_wire(&stored[done]));
        done = done + 1;
    }
    assert(record_views(sent@) == record_views(stored@).map_values(
        |record: RecordView| on_wire(record),
    ));
    sent
}

} // verus!

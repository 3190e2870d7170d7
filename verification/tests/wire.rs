use activity_tracker::record::Record;
use activity_tracker::wire::{to_base_name, to_iso_timestamp, to_wire, to_wire_batch};

#[test]
fn timestamp_transform() {
    assert_eq!(to_iso_timestamp("2024-01-02 03:04:05"), "2024-01-02T03:04:05");
}

#[test]
fn timestamp_without_a_space_is_kept() {
    assert_eq!(to_iso_timestamp("2024-01-02T03:04:05"), "2024-01-02T03:04:05");
    assert_eq!(to_iso_timestamp(""), "");
}

#[test]
fn every_space_of_a_timestamp_gives_way() {
    assert_eq!(to_iso_timestamp(" 2024-01-02  03:04:05 "), "T2024-01-02TT03:04:05T");
    assert_eq!(to_iso_timestamp(" "), "T");
    assert_eq!(to_iso_timestamp("1\u{e9} 2"), "1\u{e9}T2");
}

#[test]
fn process_name_normalization() {
    assert_eq!(to_base_name("C:\\bin\\app.exe"), "app.exe");
}

#[test]
fn base_name_of_other_paths() {
    assert_eq!(to_base_name("app.exe"), "app.exe");
    assert_eq!(to_base_name("/usr/bin/app"), "app");
    assert_eq!(to_base_name("C:\\Program Files\\A B\\my app.exe"), "my app.exe");
    assert_eq!(to_base_name("C:/bin\\sub/app.exe"), "app.exe");
    assert_eq!(to_base_name("C:\\bin/sub\\app.exe"), "app.exe");
    assert_eq!(to_base_name("\\app.exe"), "app.exe");
    assert_eq!(to_base_name("C:\\b\u{fc}ro\\t\u{e4}st.exe"), "t\u{e4}st.exe");
}

#[test]
fn base_name_of_a_path_without_a_name() {
    assert_eq!(to_base_name(""), "");
    assert_eq!(to_base_name("C:\\bin\\"), "");
    assert_eq!(to_base_name("/"), "");
}

fn stored() -> Record {
    Record {
        id: 7,
        start_time: "2024-01-02 03:04:05".to_string(),
        title: "notes.txt - Editor".to_string(),
        process_name: "C:\\bin\\app.exe".to_string(),
        active_seconds: 42,
    }
}

#[test]
fn wire_form_of_a_record() {
    let record = stored();
    assert_eq!(
        to_wire(&record),
        Record {
            id: 7,
            start_time: "2024-01-02T03:04:05".to_string(),
            title: "notes.txt - Editor".to_string(),
            process_name: "app.exe".to_string(),
            active_seconds: 42,
        }
    );
    assert_eq!(record, stored());
}

#[test]
fn wire_form_of_a_batch_keeps_its_order() {
    let mut second = stored();
    second.id = 8;
    second.start_time = "2024-01-02 03:05:00".to_string();
    second.process_name = "D:\\tools\\shell.exe".to_string();
    let batch = vec![stored(), second];
    let sent = to_wire_batch(&batch);
    assert_eq!(sent.len(), 2);
    assert_eq!(sent[0].id, 7);
    assert_eq!(sent[0].start_time, "2024-01-02T03:04:05");
    assert_eq!(sent[0].process_name, "app.exe");
    assert_eq!(sent[1].id, 8);
    assert_eq!(sent[1].start_time, "2024-01-02T03:05:00");
    assert_eq!(sent[1].process_name, "shell.exe");
    assert_eq!(batch[0], stored());
    assert_eq!(to_wire_batch(&Vec::new()), Vec::new());
}

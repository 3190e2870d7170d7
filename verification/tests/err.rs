use activity_tracker::err::{Error, Response};

#[test]
fn message_of_a_fetch_failure() {
    assert_eq!(Error::Fetch.message(), "Failed to fetch active window");
}

#[test]
fn message_of_a_rejected_sync() {
    let response = Response { status: 503, detail: "Response { status: 503 }".to_string() };
    assert_eq!(
        Error::Sync(response).message(),
        "Failed to sync records(Response { status: 503 })"
    );
}

#[test]
fn message_of_a_connection_failure() {
    assert_eq!(
        Error::Connection("connection refused".to_string()).message(),
        "Failed to sync records: connection error(connection refused)"
    );
}

#[test]
fn message_of_a_serialization_failure() {
    assert_eq!(
        Error::Serialization("key must be a string".to_string()).message(),
        "Failed to sync records: json serialization error(key must be a string)"
    );
}

#[test]
fn message_of_a_database_failure() {
    assert_eq!(
        Error::Database("no such table: records".to_string()).message(),
        "Database error(no such table: records)"
    );
    assert_eq!(Error::Database(String::new()).message(), "Database error()");
}

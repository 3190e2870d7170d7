use vstd::prelude::*;

verus! {

/// What the remote collector answered to an upload.
#[derive(Clone, Debug, PartialEq, Eq)]
pub struct Response {
    /// The HTTP status code.
    pub status: u16,
    /// The answer as it is written to the log.
    pub detail: String,
}

/// A `Response` as contracts see it.
pub struct ResponseView {
    pub status: u16,
    pub detail: Seq<char>,
}

impl View for Response {
    type V = ResponseView;

    open spec fn view(&self) -> ResponseView {
        ResponseView { status: self.status, detail: self.detail@ }
    }
}

/// Why a tick or a sync cycle ended without doing its work. Each cause is
/// carried as the text that goes to the log.
#[derive(Clone, Debug, PartialEq, Eq)]
pub enum Error {
    /// The focused window could not be read.
    Fetch,
    /// The collector answered, but not with success.
    Sync(Response),
    /// The collector could not be reached.
    Connection(String),
    /// The records could not be encoded.
    Serialization(String),
    /// The record store failed.
    Database(String),
}

/// An `Error` as contracts see it.
pub enum ErrorView {
    Fetch,
    Sync(ResponseView),
    Connection(Seq<char>),
    Serialization(Seq<char>),
    Database(Seq<char>),
}

impl View for Error {
    type V = ErrorView;

    open spec fn view(&self) -> ErrorView {
        match self {
            Error::Fetch => ErrorView::Fetch,
            Error::Sync(response) => ErrorView::Sync(response@),
            Error::Connection(cause) => ErrorView::Connection(cause@),
            Error::Serialization(cause) => ErrorView::Serialization(cause@),
            Error::Database(cause) => ErrorView::Database(cause@),
        }
    }
}

/// A label followed by its cause in round brackets.
pub open spec fn with_cause(label: Seq<char>, cause: Seq<char>) -> Seq<char> {
    label + seq!['('] + cause + seq![')']
}

impl ErrorView {
    /// The line that reports this error.
    pub open spec fn message(self) -> Seq<char> {
        match self {
            ErrorView::Fetch => "Failed to fetch active window"@,
            ErrorView::Sync(response) => with_cause("Failed to sync records"@, response.detail),
            ErrorView::Connection(cause) => with_cause(
                "Failed to sync records: connection error"@,
                cause,
            ),
            ErrorView::Serialization(cause) => with_cause(
                "Failed to sync records: json serialization error"@,
                cause,
            ),
            ErrorView::Database(cause) => with_cause("Database error"@, cause),
        }
    }
}

fn label_with_cause(label: &str, cause: &str) -> (text: String)
    ensures
        text@ == with_cause(label@, cause@),
{
    let mut text = String::from_str(label);
    text.append("(");
    text.append(cause);
    text.append(")");
    proof {
        reveal_strlit("(");
        reveal_strlit(")");
        assert("("@ == seq!['(']);
        assert(")"@ == seq![')']);
    }
    text
}

impl Error {
    /// The line that reports this error: what went wrong, and the cause where
    /// one is known.
    pub fn message(&self) -> (text: String)
        ensures
            text@ == self@.message(),
    {
        match self {
            Error::Fetch => String::from_str("Failed to fetch active window"),
            Error::Sync(response) => label_with_cause(
                "Failed to sync records",
                response.detail.as_str(),
            ),
            Error::Connection(cause) => label_with_cause(
                "Failed to sync records: connection error",
                cause.as_str(),
            ),
            Error::Serialization(cause) => label_with_cause(
                "Failed to sync records: json serialization error",
                cause.as_str(),
            ),
            Error::Database(cause) => label_with_cause("Database error", cause.as_str()),
        }
    }
}

} // verus!

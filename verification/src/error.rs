//! What can go wrong in the tracker.

use vstd::prelude::*;
use vstd::std_specs::convert::FromSpecImpl;
use vstd::string::*;

verus! {

/// Why an operation of the tracker failed.
#[derive(Debug)]
pub enum TrackerError {
    /// The store could not be read, for another reason than its absence.
    ReadDBError(std::io::Error),
    /// The store does not hold a list of tasks.
    ParseDBError(serde_json::Error),
    /// An index addresses no task of the collection.
    IndexOutOfRange,
    /// A project was to be created without a name.
    EmptyInputRejected,
    /// A timer is said to have started after the present moment.
    ClockSkew,
}

impl From<std::io::Error> for TrackerError {
    /// A failed read is the read error of the tracker.
    fn from(e: std::io::Error) -> (r: TrackerError) {
        TrackerError::ReadDBError(e)
    }
}

impl FromSpecImpl<std::io::Error> for TrackerError {
    open spec fn obeys_from_spec() -> bool {
        true
    }

    open spec fn from_spec(e: std::io::Error) -> TrackerError {
        TrackerError::ReadDBError(e)
    }
}

impl From<serde_json::Error> for TrackerError {
    /// A failed parse is the parse error of the tracker.
    fn from(e: serde_json::Error) -> (r: TrackerError) {
        TrackerError::ParseDBError(e)
    }
}

impl FromSpecImpl<serde_json::Error> for TrackerError {
    open spec fn obeys_from_spec() -> bool {
        true
    }

    open spec fn from_spec(e: serde_json::Error) -> TrackerError {
        TrackerError::ParseDBError(e)
    }
}

/// What std says of a failed read, through the `to_string` of
/// `std::io::Error`. Nothing is claimed of the text.
#[verifier::external_body]
fn io_error_text(e: &std::io::Error) -> (r: String) {
    e.to_string()
}

/// What serde_json says of a failed parse, through the `to_string` of
/// `serde_json::Error`. Nothing is claimed of the text.
#[verifier::external_body]
fn json_error_text(e: &serde_json::Error) -> (r: String) {
    e.to_string()
}

impl TrackerError {
    /// The words with which the error's message begins; for the errors of
    /// the tracker's own they are the whole message.
    pub open spec fn headline(self) -> Seq<char> {
        match self {
            TrackerError::ReadDBError(_) => "error reading the DB file: "@,
            TrackerError::ParseDBError(_) => "error parsing the DB file: "@,
            TrackerError::IndexOutOfRange => "no project at the selected place"@,
            TrackerError::EmptyInputRejected => "a project needs a name"@,
            TrackerError::ClockSkew => "a timer started after the present moment"@,
        }
    }

    /// Whether the error only says that there was nothing to act on: no task
    /// at the selected place, or no name for a new project. Such an error
    /// leaves the collection as it was and is not shown to the user.
    pub open spec fn is_harmless(self) -> bool {
        self is IndexOutOfRange || self is EmptyInputRejected
    }

    /// Whether the error came from outside and brings words of its own.
    pub open spec fn has_detail(self) -> bool {
        self is ReadDBError || self is ParseDBError
    }

    /// The error in words: the headline, and behind it what the outside
    /// error says of itself, where there is one.
    pub fn message(&self) -> (r: String)
        ensures
            !self.has_detail() ==> r@ == self.headline(),
            self.has_detail() ==> exists|detail: Seq<char>| r@ == self.headline() + detail,
    {
        match self {
            TrackerError::ReadDBError(e) => {
                let detail = io_error_text(e);
                let mut out = "error reading the DB file: ".to_owned();
                out.append(detail.as_str());
                assert(out@ == self.headline() + detail@);
                out
            },
            TrackerError::ParseDBError(e) => {
                let detail = json_error_text(e);
                let mut out = "error parsing the DB file: ".to_owned();
                out.append(detail.as_str());
                assert(out@ == self.headline() + detail@);
                out
            },
            TrackerError::IndexOutOfRange => "no project at the selected place".to_owned(),
            TrackerError::EmptyInputRejected => "a project needs a name".to_owned(),
            TrackerError::ClockSkew => "a timer started after the present moment".to_owned(),
        }
    }
}

/// Lets a harmless error pass as success: an operation that found no task at
/// the selected place, or no name for a new project, has done nothing and
/// counts as done. Every other outcome is handed on as it came.
pub fn tolerate(result: Result<(), TrackerError>) -> (r: Result<(), TrackerError>)
    ensures
        (result matches Err(e) && e.is_harmless()) ==> r is Ok,
        !(result matches Err(e) && e.is_harmless()) ==> r == result,
{
    match result {
        Err(TrackerError::IndexOutOfRange) => Ok(()),
        Err(TrackerError::EmptyInputRejected) => Ok(()),
        other => other,
    }
}

} // verus!

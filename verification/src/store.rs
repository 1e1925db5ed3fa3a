//! The text of the store, between the file and the parser.

use vstd::prelude::*;
use crate::error::TrackerError;

verus! {

/// What an attempt to read the store gave.
#[derive(Debug)]
pub enum StoreRead {
    /// The store is there and holds this text.
    Content(String),
    /// There is no store yet.
    Missing,
    /// The store could not be read.
    Failed(std::io::Error),
}

/// The text of a store that holds no task.
pub open spec fn empty_store() -> Seq<char> {
    "[]"@
}

/// The text that is to be parsed for a store that holds `content`: an empty
/// store stands for no tasks.
pub open spec fn text_of(content: Seq<char>) -> Seq<char> {
    if content.len() == 0 {
        empty_store()
    } else {
        content
    }
}

/// Whether a failed read failed because nothing is there to be read: whether
/// `kind` of `std::io::Error` gives `NotFound` for the error.
pub uninterp spec fn read_not_found(e: std::io::Error) -> bool;

/// Tells whether a failed read failed because nothing is there to be read,
/// through `kind` of `std::io::Error`. The kind is a part of the error, so
/// the answer is the same whenever the same error is asked.
#[verifier::external_body]
fn is_not_found(e: &std::io::Error) -> (r: bool)
    ensures
        r == read_not_found(*e),
{
    e.kind() == std::io::ErrorKind::NotFound
}

/// What a read of the store gave, sorted: the text that was read; a store
/// that is missing, where the read failed because nothing was found; else a
/// read that failed, with the error as it came.
pub open spec fn classified(read: Result<String, std::io::Error>) -> StoreRead {
    match read {
        Ok(text) => StoreRead::Content(text),
        Err(e) => if read_not_found(e) {
            StoreRead::Missing
        } else {
            StoreRead::Failed(e)
        },
    }
}

/// Sorts what a read of the store gave: the text that was read, a store
/// that is missing, or a read that failed for another reason, with the
/// error as it came.
pub fn classify_read(read: Result<String, std::io::Error>) -> (r: StoreRead)
    ensures
        r == classified(read),
{
    match read {
        Ok(text) => StoreRead::Content(text),
        Err(e) => {
            if is_not_found(&e) {
                StoreRead::Missing
            } else {
                StoreRead::Failed(e)
            }
        },
    }
}

/// The text that is to be parsed after a read of the store. A missing store
/// and an empty one both stand for no tasks and give the text of the empty
/// list; any other content is handed on as it is; a failed read is the read
/// error, with the error as it came.
pub fn store_text(read: StoreRead) -> (r: Result<String, TrackerError>)
    ensures
        read matches StoreRead::Content(content) ==> (r matches Ok(text) && text@ == text_of(
            content@,
        )),
        read is Missing ==> (r matches Ok(text) && text@ == empty_store()),
        read matches StoreRead::Failed(e) ==> r == Err::<String, TrackerError>(
            TrackerError::ReadDBError(e),
        ),
{
    match read {
        StoreRead::Content(content) => {
            if content.as_str().is_empty() {
                Ok("[]".to_owned())
            } else {
                Ok(content)
            }
        },
        StoreRead::Missing => Ok("[]".to_owned()),
        StoreRead::Failed(e) => Err(TrackerError::ReadDBError(e)),
    }
}

} // verus!

//! The kinds of failure and how they are shown to a reader.

use vstd::prelude::*;
use vstd::string::*;

verus! {

/// The body of an error response.
#[derive(Debug)]
pub struct ResponseError {
    pub code: u16,
    pub message: String,
}

/// What can go wrong.
#[derive(Debug)]
pub enum IndexerError {
    /// A request or a reply could not be read.
    DeserializationError,
    /// A node could not be reached.
    ReqwestError,
    /// A task did not end as it should.
    TokioJoinError,
    /// The analytics store failed.
    RedisError,
    /// A node or the relational store did not give what was asked.
    ProviderError(String),
}

/// The status of every error response.
pub const BAD_REQUEST: u16 = 400;

/// The status of a failure that is not the reader's.
pub const INTERNAL_SERVER_ERROR: u16 = 500;

impl IndexerError {
    /// The kinds that have a numeric code of their own.
    pub open spec fn has_code(&self) -> bool {
        self is DeserializationError || self is ReqwestError || self is TokioJoinError
    }

    /// The numeric code of a kind.
    pub open spec fn code(&self) -> int {
        match self {
            IndexerError::DeserializationError => 1001,
            IndexerError::ReqwestError => 1002,
            _ => 1004,
        }
    }

    /// The short text of a kind.
    pub open spec fn summary(&self) -> Seq<char> {
        match self {
            IndexerError::DeserializationError => "Deserialization Error"@,
            IndexerError::ReqwestError => "Reqwest Error"@,
            IndexerError::TokioJoinError => "Tokio Join Error"@,
            IndexerError::RedisError => "Redis Error"@,
            IndexerError::ProviderError(_) => "External Provider Error"@,
        }
    }

    /// The numeric code of a deserialization, node or task failure.
    pub fn get_error_code(&self) -> (code: i64)
        requires
            self.has_code(),
        ensures
            code == self.code(),
    {
        match self {
            IndexerError::DeserializationError => 1001,
            IndexerError::ReqwestError => 1002,
            _ => 1004,
        }
    }

    /// The short text of the kind.
    pub fn to_string(&self) -> (text: String)
        ensures
            text@ == self.summary(),
    {
        match self {
            IndexerError::DeserializationError => String::from_str("Deserialization Error"),
            IndexerError::ReqwestError => String::from_str("Reqwest Error"),
            IndexerError::TokioJoinError => String::from_str("Tokio Join Error"),
            IndexerError::RedisError => String::from_str("Redis Error"),
            IndexerError::ProviderError(_) => String::from_str("External Provider Error"),
        }
    }

    /// Status, code and message in the numbered scheme: a request that
    /// could not be read is the reader's failure and says so; every
    /// other failure is internal and says no more than that.
    pub fn into_status_and_value(&self) -> (shown: (u16, i64, String))
        requires
            self.has_code(),
        ensures
            shown.0 == if self is DeserializationError {
                BAD_REQUEST
            } else {
                INTERNAL_SERVER_ERROR
            },
            shown.1 == self.code(),
            shown.2@ == if self is DeserializationError {
                self.summary()
            } else {
                "Internal server error"@
            },
    {
        let code = self.get_error_code();
        match self {
            IndexerError::DeserializationError => (BAD_REQUEST, code, self.to_string()),
            _ => (INTERNAL_SERVER_ERROR, code, String::from_str("Internal server error")),
        }
    }
}

/// The text shown for a failure, or for a rejection of no known kind.
pub open spec fn rejection_text(error: Option<IndexerError>) -> Seq<char> {
    match error {
        Some(e) => e.summary(),
        None => "Unknown Error Code"@,
    }
}

/// The response to a rejected request: whatever went wrong, the status
/// is 400 and the message names the kind of failure.
pub fn handle_rejection(error: Option<&IndexerError>) -> (response: ResponseError)
    ensures
        response.code == BAD_REQUEST,
        response.message@ == rejection_text(
            match error {
                Some(e) => Some(*e),
                None => None,
            },
        ),
{
    let message = match error {
        Some(e) => e.to_string(),
        None => String::from_str("Unknown Error Code"),
    };
    ResponseError { code: BAD_REQUEST, message }
}

} // verus!

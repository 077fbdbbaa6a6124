//! What can go wrong with a request.
use std::time::Duration;
use vstd::prelude::*;

verus! {

/// An error that the database reported in answer to a request.
#[derive(Clone, Copy, Debug, PartialEq, Eq)]
pub enum DbError {
    /// The submitted query has a syntax error.
    SyntaxError,
    /// The query is syntactically correct but invalid.
    Invalid,
    /// Attempted to create a keyspace or a table that already exists.
    AlreadyExists,
    /// A user-defined function failed during execution.
    FunctionFailure,
    /// Authentication failed: bad credentials.
    AuthenticationError,
    /// The logged-in user may not perform the query.
    Unauthorized,
    /// The query is invalid because of a configuration issue.
    ConfigError,
    /// Not enough nodes are alive to satisfy the required consistency level.
    Unavailable,
    /// The request cannot be processed because the coordinator node is
    /// overloaded.
    Overloaded,
    /// The coordinator node is still bootstrapping.
    IsBootstrapping,
    /// Error during a truncate operation.
    TruncateError,
    /// Not enough nodes responded to the read request in time.
    ReadTimeout,
    /// Not enough nodes responded to the write request in time.
    WriteTimeout,
    /// A non-timeout error during a read request.
    ReadFailure,
    /// A non-timeout error during a write request.
    WriteFailure,
    /// Tried to execute a prepared statement that the node does not know.
    Unprepared,
    /// Internal server error: a bug in the database.
    ServerError,
    /// Invalid protocol message received from the driver.
    ProtocolError,
    /// The rate limit of the partition was exceeded.
    RateLimitReached,
    /// An error with a code that the driver does not know.
    Other(i32),
}

impl DbError {
    /// Whether the same request may well succeed on another node: the error
    /// tells of the state of the node or of its replicas, not of the request.
    pub open spec fn retry_safe(self) -> bool {
        ||| self is Unavailable
        ||| self is Overloaded
        ||| self is IsBootstrapping
        ||| self is ReadTimeout
        ||| self is WriteTimeout
        ||| self is ReadFailure
        ||| self is WriteFailure
        ||| self is Unprepared
        ||| self is ServerError
        ||| self is RateLimitReached
    }

    /// Decides if an error reported by one node can be answered by sending
    /// the request to another node as well.
    pub fn can_speculative_retry(&self) -> (safe: bool)
        ensures
            safe == self.retry_safe(),
    {
        match self {
            // Errors that will almost certainly appear on other nodes as well
            DbError::SyntaxError
            | DbError::Invalid
            | DbError::AlreadyExists
            | DbError::Unauthorized
            | DbError::ProtocolError => false,
            // Errors that should not appear there - thus, should not be ignored.
            DbError::AuthenticationError | DbError::Other(_) => false,
            // A failure of a user-defined function is taken not to be transient.
            DbError::FunctionFailure => false,
            // It is not known when these appear - they are not ignored.
            DbError::ConfigError | DbError::TruncateError => false,
            // Errors that we can ignore and perform a retry on some other node
            DbError::Unavailable
            | DbError::Overloaded
            | DbError::IsBootstrapping
            | DbError::ReadTimeout
            | DbError::WriteTimeout
            | DbError::ReadFailure
            | DbError::WriteFailure
            // Preparation may succeed on some other node.
            | DbError::Unprepared
            | DbError::ServerError
            | DbError::RateLimitReached => true,
        }
    }
}

/// Why one attempt to run a request on one node failed.
#[derive(Debug, PartialEq, Eq)]
pub enum RequestAttemptError {
    /// The values of the request could not be serialized.
    SerializationError(String),
    /// The request could not be serialized.
    CqlRequestSerialization(String),
    /// The connection has no stream id left for the request.
    UnableToAllocStreamId,
    /// The connection broke while the request was under way.
    BrokenConnectionError(String),
    /// The extensions in the body of the response could not be parsed.
    BodyExtensionsParseError(String),
    /// The result in the response could not be parsed.
    CqlResultParseError(String),
    /// The error in the response could not be parsed.
    CqlErrorParseError(String),
    /// The database answered with an error, and a message.
    DbError(DbError, String),
    /// The response is of a kind that does not answer the request.
    UnexpectedResponse(String),
    /// A statement got another id when it was prepared again.
    RepreparedIdChanged { statement: String, expected_id: Vec<u8>, reprepared_id: Vec<u8> },
    /// A statement that was prepared again is not in the batch.
    RepreparedIdMissingInBatch,
    /// A query that is not paged left a paging state behind.
    NonfinishedPagingState,
}

/// Why a request failed as a whole.
#[derive(Debug, PartialEq, Eq)]
pub enum RequestError {
    /// The load balancing policy returned no node to send the request to.
    EmptyPlan,
    /// No connection to the chosen node could be had from its pool.
    ConnectionPoolError(String),
    /// The request did not finish within the client's timeout.
    RequestTimeout(Duration),
    /// The last attempt to run the request failed.
    LastAttemptError(RequestAttemptError),
}

} // verus!

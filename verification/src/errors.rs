//! Error taxonomy: store-level errors, job-level errors, and the errors
//! returned to players for vote, task and sabotage submissions.

use vstd::prelude::*;

verus! {

/// Errors of the underlying key-value store client.
#[derive(Clone, Copy, PartialEq, Eq, Structural, Debug)]
pub enum RedisHelperError {
    /// The requested key is absent, as distinguished from every other failure.
    MissingKey,
    Deserialization,
    Serialization,
    RedisError,
    Unknown,
}

pub open spec fn redis_helper_error_text(e: RedisHelperError) -> Seq<char> {
    match e {
        RedisHelperError::MissingKey => "Error: object is missing from the state"@,
        RedisHelperError::Deserialization => "Error: deserialization error"@,
        RedisHelperError::Serialization => "Error: serialization error"@,
        RedisHelperError::RedisError => "Error: redis error"@,
        RedisHelperError::Unknown => "Error: unknown error"@,
    }
}

impl RedisHelperError {
    /// Human-readable description of the error.
    pub fn message(&self) -> (m: String)
        ensures
            m@ == redis_helper_error_text(*self),
    {
        match self {
            RedisHelperError::MissingKey => "Error: object is missing from the state".to_owned(),
            RedisHelperError::Deserialization => "Error: deserialization error".to_owned(),
            RedisHelperError::Serialization => "Error: serialization error".to_owned(),
            RedisHelperError::RedisError => "Error: redis error".to_owned(),
            RedisHelperError::Unknown => "Error: unknown error".to_owned(),
        }
    }
}

/// Errors of the periodic jobs (clock, proximity, phase advancement).
#[derive(Clone, Copy, PartialEq, Eq, Structural, Debug)]
pub enum JobError {
    RedisError,
    ClientError,
    SerializationError,
    Unknown,
}

pub open spec fn job_error_text(e: JobError) -> Seq<char> {
    match e {
        JobError::SerializationError => "Error: serialization error"@,
        JobError::RedisError => "Error: redis error"@,
        JobError::ClientError => "Error: client error"@,
        JobError::Unknown => "Error: unknown error"@,
    }
}

impl JobError {
    /// Human-readable description of the error.
    pub fn message(&self) -> (m: String)
        ensures
            m@ == job_error_text(*self),
    {
        match self {
            JobError::SerializationError => "Error: serialization error".to_owned(),
            JobError::RedisError => "Error: redis error".to_owned(),
            JobError::ClientError => "Error: client error".to_owned(),
            JobError::Unknown => "Error: unknown error".to_owned(),
        }
    }
}

/// How a store error surfaces from a job.
pub open spec fn job_error_of(e: RedisHelperError) -> JobError {
    match e {
        RedisHelperError::Deserialization => JobError::SerializationError,
        RedisHelperError::Serialization => JobError::SerializationError,
        _ => JobError::Unknown,
    }
}

impl From<RedisHelperError> for JobError {
    fn from(e: RedisHelperError) -> (r: JobError)
        ensures
            r == job_error_of(e),
    {
        match e {
            RedisHelperError::Deserialization => JobError::SerializationError,
            RedisHelperError::Serialization => JobError::SerializationError,
            _ => JobError::Unknown,
        }
    }
}

impl vstd::std_specs::convert::FromSpecImpl<RedisHelperError> for JobError {
    open spec fn obeys_from_spec() -> bool {
        true
    }

    open spec fn from_spec(e: RedisHelperError) -> JobError {
        job_error_of(e)
    }
}

/// Errors returned synchronously to a player who submits a vote, task or
/// sabotage, and by the read accessors.
#[derive(Clone, Copy, PartialEq, Eq, Structural, Debug)]
pub enum GameError {
    /// A record that the operation needs is absent.
    NotFound,
    /// The operation was attempted outside its phase or for the wrong round.
    PhaseViolation,
    /// The actor is not on the roster, has the wrong role, or a role-specific
    /// precondition failed (the sabotage target is a saboteur or immune).
    NotEligible,
    /// A proximity precondition failed: the target or building is not nearby.
    OutOfRange,
    /// A record already exists for this actor and round.
    DuplicateSubmission,
    /// An underlying store failure, mapped in by the caller.
    StoreFailure,
    /// The world feed could not resolve a required unit.
    FeedFailure,
}

} // verus!

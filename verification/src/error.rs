//! Failures the service reports and the response statuses they map to.
use vstd::prelude::*;

verus! {

/// Why an operation could not be carried out.
#[derive(Clone, Copy, Debug, PartialEq, Eq, Structural)]
pub enum Error {
    /// A field of the request is malformed.
    Validation,
    /// A row with the same unique key is already stored.
    Conflict,
    /// The repository, package or build that the request names is not stored.
    NotFound,
    /// More rows were asked for than one page may hold.
    LimitExceeded,
    /// The package index of the repository host could not be fetched.
    FeedUnavailable,
    /// The package index was fetched but could not be read.
    FeedMalformed,
    /// The store cannot be reached.
    StoreUnavailable,
    /// A failure notice could not be delivered.
    NotificationFailure,
    /// The clock gives no time that a build could be recorded under.
    ClockUnavailable,
}

/// Response status of an endpoint.
#[derive(Clone, Copy, Debug, PartialEq, Eq, Structural)]
pub enum Status {
    Created,
    NoContent,
    BadRequest,
    Forbidden,
    NotFound,
    Conflict,
    /// The request asks for more than it may.
    UnprocessableEntity,
    InternalServerError,
}

impl Error {
    /// The status that answers a request that failed in this way.
    pub open spec fn spec_status(self) -> Status {
        match self {
            Error::Validation => Status::BadRequest,
            Error::Conflict => Status::Conflict,
            Error::NotFound => Status::NotFound,
            Error::LimitExceeded => Status::UnprocessableEntity,
            Error::FeedUnavailable => Status::InternalServerError,
            Error::FeedMalformed => Status::InternalServerError,
            Error::StoreUnavailable => Status::InternalServerError,
            Error::NotificationFailure => Status::InternalServerError,
            Error::ClockUnavailable => Status::InternalServerError,
        }
    }

    /// The status that answers a request that failed in this way.
    pub fn status(self) -> (r: Status)
        ensures
            r == self.spec_status(),
    {
        match self {
            Error::Validation => Status::BadRequest,
            Error::Conflict => Status::Conflict,
            Error::NotFound => Status::NotFound,
            Error::LimitExceeded => Status::UnprocessableEntity,
            Error::FeedUnavailable => Status::InternalServerError,
            Error::FeedMalformed => Status::InternalServerError,
            Error::StoreUnavailable => Status::InternalServerError,
            Error::NotificationFailure => Status::InternalServerError,
            Error::ClockUnavailable => Status::InternalServerError,
        }
    }
}

impl Status {
    /// The numeric code of the status.
    pub open spec fn spec_code(self) -> int {
        match self {
            Status::Created => 201,
            Status::NoContent => 204,
            Status::BadRequest => 400,
            Status::Forbidden => 403,
            Status::NotFound => 404,
            Status::Conflict => 409,
            Status::UnprocessableEntity => 422,
            Status::InternalServerError => 500,
        }
    }

    /// The numeric code of the status.
    pub fn code(self) -> (r: u16)
        ensures
            r == self.spec_code(),
    {
        match self {
            Status::Created => 201,
            Status::NoContent => 204,
            Status::BadRequest => 400,
            Status::Forbidden => 403,
            Status::NotFound => 404,
            Status::Conflict => 409,
            Status::UnprocessableEntity => 422,
            Status::InternalServerError => 500,
        }
    }
}

} // verus!

use vstd::prelude::*;

verus! {

/// The kinds of failure that the API reports to its callers.
#[derive(Clone, Copy, Debug, PartialEq, Eq, Structural)]
pub enum ErrorKind {
    /// Malformed input, header or key.
    BadRequest,
    /// Wrong shared secret, or impersonation by a non-admin.
    Unauthorized,
    /// A user or invite code that does not exist.
    NotFound,
    /// An impersonation target that does not exist.
    UnprocessableEntity,
    /// A login or invite code that is already taken.
    Conflict,
    /// A failure of the server itself.
    Internal,
}

impl ErrorKind {
    pub open spec fn spec_status_code(self) -> u16 {
        match self {
            ErrorKind::BadRequest => 400,
            ErrorKind::Unauthorized => 401,
            ErrorKind::NotFound => 404,
            ErrorKind::UnprocessableEntity => 422,
            ErrorKind::Conflict => 409,
            ErrorKind::Internal => 500,
        }
    }

    /// The HTTP status code under which this kind of failure is reported.
    pub fn status_code(&self) -> (r: u16)
        ensures
            r == self.spec_status_code(),
    {
        match self {
            ErrorKind::BadRequest => 400,
            ErrorKind::Unauthorized => 401,
            ErrorKind::NotFound => 404,
            ErrorKind::UnprocessableEntity => 422,
            ErrorKind::Conflict => 409,
            ErrorKind::Internal => 500,
        }
    }
}

/// A failure: a stable kind and a short human-readable message.
#[derive(Debug)]
pub struct ApiError {
    pub kind: ErrorKind,
    pub message: String,
}

/// Whether `r` is an error of kind `kind`.
pub open spec fn fails_with<T>(r: Result<T, ApiError>, kind: ErrorKind) -> bool {
    match r {
        Ok(_) => false,
        Err(e) => e.kind == kind,
    }
}

impl ApiError {
    /// Builds an error of the given kind with the given message.
    pub fn new(kind: ErrorKind, message: &str) -> (r: ApiError)
        ensures
            r.kind == kind,
            r.message@ == message@,
    {
        ApiError { kind, message: message.to_owned() }
    }

    /// The HTTP status code of this error.
    pub fn status_code(&self) -> (r: u16)
        ensures
            r == self.kind.spec_status_code(),
    {
        self.kind.status_code()
    }
}

} // verus!

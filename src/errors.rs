use vstd::prelude::*;

verus! {

/// Why an authentication or a token check failed.
#[derive(Debug, Clone, Copy, PartialEq, Eq, Structural)]
pub enum AuthenticateError {
    /// Unknown username or wrong password; the two are never told apart.
    WrongCredentials,
    /// Signing a token failed.
    TokenCreation,
    /// The token's signature, format or time claims do not hold.
    InvalidToken,
    /// The account is under lockout.
    Locked,
    /// The store's session for the token's user has passed its expiry.
    SessionExpired,
}

/// A request that could not be understood.
#[derive(Debug, Clone, Copy, PartialEq, Eq, Structural)]
pub struct BadRequest {}

/// A requested record does not exist.
#[derive(Debug, Clone, Copy, PartialEq, Eq, Structural)]
pub struct NotFound {}

/// A failure of the record store. The cause is meant for server-side logs only.
#[derive(Debug, Clone, PartialEq, Eq)]
pub enum StoreError {
    /// No record has the key that was looked up.
    RecordNotFound,
    /// A record with the same unique key already exists.
    DuplicateKey,
    /// No identifier is left to give to a new record.
    IdsExhausted,
    /// The storage backend failed.
    Backend(String),
}

/// Every error the library reports.
#[derive(Debug, Clone, PartialEq, Eq)]
pub enum AppError {
    Authenticate(AuthenticateError),
    BadRequest(BadRequest),
    NotFound(NotFound),
    Store(StoreError),
    Unknown,
}

/// The HTTP status and the stable application code of an error.
pub open spec fn codes_of(e: AppError) -> (u16, u16) {
    match e {
        AppError::BadRequest(_) => (400, 40002),
        AppError::NotFound(_) => (404, 40003),
        AppError::Authenticate(a) => match a {
            AuthenticateError::WrongCredentials => (401, 40004),
            AuthenticateError::InvalidToken => (401, 40005),
            AuthenticateError::Locked => (423, 40006),
            AuthenticateError::SessionExpired => (401, 40007),
            AuthenticateError::TokenCreation => (500, 5001),
        },
        AppError::Store(_) => (500, 5002),
        AppError::Unknown => (500, 5000),
    }
}

/// The message that a client sees for an error.
pub open spec fn message_of(e: AppError) -> Seq<char> {
    match e {
        AppError::BadRequest(_) => "Bad Request"@,
        AppError::NotFound(_) => "Not found"@,
        AppError::Authenticate(a) => match a {
            AuthenticateError::WrongCredentials => "Wrong authentication credentials"@,
            AuthenticateError::InvalidToken => "Invalid authentication credentials"@,
            AuthenticateError::Locked => "User is locked"@,
            AuthenticateError::SessionExpired => "Session expired"@,
            AuthenticateError::TokenCreation => "Failed to create authentication token"@,
        },
        AppError::Store(_) => "Internal storage error"@,
        AppError::Unknown => "Unknown error"@,
    }
}

impl AppError {
    pub open spec fn not_found_spec() -> AppError {
        AppError::NotFound(NotFound {})
    }

    pub fn bad_request() -> (r: AppError)
        ensures
            r == AppError::BadRequest(BadRequest {}),
    {
        AppError::BadRequest(BadRequest {})
    }

    pub fn not_found() -> (r: AppError)
        ensures
            r == AppError::not_found_spec(),
    {
        AppError::NotFound(NotFound {})
    }

    /// The HTTP status and the application code under which this error is reported.
    /// A store failure maps to one code whatever its cause, so no detail reaches a client.
    pub fn get_codes(&self) -> (r: (u16, u16))
        ensures
            r == codes_of(*self),
    {
        match self {
            AppError::BadRequest(_) => (400, 40002),
            AppError::NotFound(_) => (404, 40003),
            AppError::Authenticate(a) => match a {
                AuthenticateError::WrongCredentials => (401, 40004),
                AuthenticateError::InvalidToken => (401, 40005),
                AuthenticateError::Locked => (423, 40006),
                AuthenticateError::SessionExpired => (401, 40007),
                AuthenticateError::TokenCreation => (500, 5001),
            },
            AppError::Store(_) => (500, 5002),
            AppError::Unknown => (500, 5000),
        }
    }

    /// The message shown to a client. A store failure never shows its cause.
    pub fn message(&self) -> (r: &'static str)
        ensures
            r@ == message_of(*self),
    {
        match self {
            AppError::BadRequest(_) => "Bad Request",
            AppError::NotFound(_) => "Not found",
            AppError::Authenticate(a) => match a {
                AuthenticateError::WrongCredentials => "Wrong authentication credentials",
                AuthenticateError::InvalidToken => "Invalid authentication credentials",
                AuthenticateError::Locked => "User is locked",
                AuthenticateError::SessionExpired => "Session expired",
                AuthenticateError::TokenCreation => "Failed to create authentication token",
            },
            AppError::Store(_) => "Internal storage error",
            AppError::Unknown => "Unknown error",
        }
    }
}

} // verus!

//! Password authentication with progressive account lockout, and signed session tokens
//! backed by a session store.

pub mod errors;
pub mod user;
pub mod session;
pub mod token;
pub mod store;
pub mod cookie;

pub use errors::{AppError, AuthenticateError, BadRequest, NotFound, StoreError};
pub use session::{Claims, Session, SESSION_TTL_S};
pub use store::MemoryStore;
pub use user::{CreateUser, LoginInfo, UnlockOutcome, User, UserPublic, MAX_TIMESTAMP};

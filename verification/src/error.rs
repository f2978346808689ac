//! Error type and process exit codes.

use vstd::prelude::*;

verus! {

/// Exit code for success.
pub const SUCCESS: i32 = 0;

/// Exit code for user errors (bad arguments, invalid state, missing files).
pub const USER_ERROR: i32 = 1;

/// Exit code for validation failures (scope or stub violations, failed checks).
pub const VALIDATION_FAILURE: i32 = 2;

/// Exit code for git failures (rebase conflicts, non fast-forward merges, push failures).
pub const GIT_FAILURE: i32 = 3;

/// Exit code for lock contention.
pub const LOCK_FAILURE: i32 = 4;

/// Errors reported by burl operations.
#[derive(Debug, Clone)]
pub enum BurlError {
    /// The user asked for something that cannot be done.
    UserError(String),
    /// A validation gate failed.
    ValidationError(String),
    /// A git operation failed.
    GitError(String),
    /// A lock could not be acquired.
    LockError(String),
    /// The command is not implemented.
    NotImplemented(String),
}

/// Whether `e` is a user error carrying the message `m`.
pub open spec fn user_error(e: BurlError, m: Seq<char>) -> bool {
    e matches BurlError::UserError(s) && s@ == m
}

impl BurlError {
    /// The process exit code for this error.
    pub open spec fn spec_exit_code(&self) -> i32 {
        match self {
            BurlError::UserError(_) => USER_ERROR,
            BurlError::ValidationError(_) => VALIDATION_FAILURE,
            BurlError::GitError(_) => GIT_FAILURE,
            BurlError::LockError(_) => LOCK_FAILURE,
            BurlError::NotImplemented(_) => USER_ERROR,
        }
    }

    /// The process exit code for this error.
    pub fn exit_code(&self) -> (r: i32)
        ensures
            r == self.spec_exit_code(),
    {
        match self {
            BurlError::UserError(_) => USER_ERROR,
            BurlError::ValidationError(_) => VALIDATION_FAILURE,
            BurlError::GitError(_) => GIT_FAILURE,
            BurlError::LockError(_) => LOCK_FAILURE,
            BurlError::NotImplemented(_) => USER_ERROR,
        }
    }

    /// The text carried by this error.
    pub open spec fn text(&self) -> Seq<char> {
        match self {
            BurlError::UserError(m) => m@,
            BurlError::ValidationError(m) => m@,
            BurlError::GitError(m) => m@,
            BurlError::LockError(m) => m@,
            BurlError::NotImplemented(m) => m@,
        }
    }

    /// The message shown to the user (what `Display` printed).
    pub fn message(&self) -> (r: String)
        ensures
            r@ == self.text(),
    {
        match self {
            BurlError::UserError(m) => m.clone(),
            BurlError::ValidationError(m) => m.clone(),
            BurlError::GitError(m) => m.clone(),
            BurlError::LockError(m) => m.clone(),
            BurlError::NotImplemented(m) => m.clone(),
        }
    }
}

} // verus!

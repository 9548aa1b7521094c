use vstd::prelude::*;

verus! {

/// The failure taxonomy of the library.
///
/// Path rejections are never fatal and therefore have no variant here: a
/// rejected entry is skipped and the walk continues.  Everything below aborts
/// the operation that produced it.
#[derive(Debug, Clone)]
pub enum AppError {
    /// The persisted configuration could not be located or decoded.
    ConfigFailure(String),
    /// The archive is structurally unreadable, or an entry failed to decode
    /// for a reason other than a missing password.
    FailedUnzip(String),
    /// A supplied path is not usable.
    InvalidPath(String),
    /// An input/output operation failed; carries the underlying rendering.
    IoError(String),
    /// No credential arrived for an encrypted entry, or the wait was
    /// cancelled.
    PasswordFail,
    /// A structural notification could not be delivered to the observer.
    EventError(String),
}

} // verus!

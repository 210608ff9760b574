//! The signals with which a call ends when it does not simply succeed.

use vstd::prelude::*;

verus! {

/// Code of [`Signal::NoGrant`].
pub const CODE_NO_GRANT: u16 = 1;

/// Code of [`Signal::EmptyGrant`].
pub const CODE_EMPTY_GRANT: u16 = 2;

/// Code of [`Signal::LengthMismatch`].
pub const CODE_LENGTH_MISMATCH: u16 = 3;

/// Code of [`Signal::Reached`].
pub const CODE_REACHED: u16 = 777;

/// How a call ends when it ends in a signal. Every signal aborts the call
/// that raised it; none is recovered from locally.
#[derive(Clone, Copy, Debug, PartialEq, Eq, Structural)]
pub enum Signal {
    /// Access denied: no capability was ever granted to the caller.
    NoGrant,
    /// Access denied: the capability sequence handed to the local
    /// accumulation step was empty.
    EmptyGrant,
    /// Validation error: a distribution batch whose two sequences differ in
    /// length.
    LengthMismatch,
    /// The marker that privileged code ran. Not an error.
    Reached,
    /// The caller's context holds no token of the required group.
    InvalidContext,
}

/// The classes of signals.
#[derive(Clone, Copy, Debug, PartialEq, Eq, Structural)]
pub enum SignalKind {
    /// The principal has no grant, or lacks group membership at the host.
    /// Only the authority can mend this, by distributing again.
    AuthorizationDenied,
    /// Malformed setup input: a fault of setup, not a condition of a run.
    ValidationError,
    /// Privileged code ran.
    Marker,
}

impl Signal {
    /// The numeric code a user sees, where the signal has one.
    pub open spec fn spec_user_code(self) -> Option<u16> {
        match self {
            Signal::NoGrant => Some(1u16),
            Signal::EmptyGrant => Some(2u16),
            Signal::LengthMismatch => Some(3u16),
            Signal::Reached => Some(777u16),
            Signal::InvalidContext => None,
        }
    }

    /// The numeric code a user sees; `None` for the host-level denial, which
    /// carries none.
    #[verifier::when_used_as_spec(spec_user_code)]
    pub fn user_code(self) -> (code: Option<u16>)
        ensures
            code == self.spec_user_code(),
    {
        match self {
            Signal::NoGrant => Some(CODE_NO_GRANT),
            Signal::EmptyGrant => Some(CODE_EMPTY_GRANT),
            Signal::LengthMismatch => Some(CODE_LENGTH_MISMATCH),
            Signal::Reached => Some(CODE_REACHED),
            Signal::InvalidContext => None,
        }
    }

    /// The class a signal belongs to.
    pub open spec fn spec_kind(self) -> SignalKind {
        match self {
            Signal::NoGrant | Signal::EmptyGrant | Signal::InvalidContext => {
                SignalKind::AuthorizationDenied
            },
            Signal::LengthMismatch => SignalKind::ValidationError,
            Signal::Reached => SignalKind::Marker,
        }
    }

    /// The class a signal belongs to: a missing or empty grant and the
    /// host's refusal deny authorization, a mismatched batch is a
    /// validation error, and the marker is no error.
    #[verifier::when_used_as_spec(spec_kind)]
    pub fn kind(self) -> (kind: SignalKind)
        ensures
            kind == self.spec_kind(),
    {
        match self {
            Signal::NoGrant | Signal::EmptyGrant | Signal::InvalidContext => {
                SignalKind::AuthorizationDenied
            },
            Signal::LengthMismatch => SignalKind::ValidationError,
            Signal::Reached => SignalKind::Marker,
        }
    }
}

/// The signal that carries a numeric code, if any does.
pub fn from_user_code(code: u16) -> (s: Option<Signal>)
    ensures
        s matches Some(sig) ==> sig.spec_user_code() == Some(code),
        s is None <==> forall|sig: Signal| sig.spec_user_code() != Some(code),
{
    if code == CODE_NO_GRANT {
        Some(Signal::NoGrant)
    } else if code == CODE_EMPTY_GRANT {
        Some(Signal::EmptyGrant)
    } else if code == CODE_LENGTH_MISMATCH {
        Some(Signal::LengthMismatch)
    } else if code == CODE_REACHED {
        Some(Signal::Reached)
    } else {
        None
    }
}

} // verus!

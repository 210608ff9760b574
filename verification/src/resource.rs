//! The protected resource: the gated operation and the test a retrieved
//! token has to pass before a principal takes it into its context.

use vstd::prelude::*;
use crate::signal::Signal;
use crate::token::{is_sentinel_view, Token};

verus! {

/// Name of the group whose tokens admit to the gated operation.
pub open spec fn admin_group() -> Seq<char> {
    "admin"@
}

/// What the gated operation signals to a caller that the membership check
/// admitted or not.
pub open spec fn gated_signal(admitted: bool) -> Signal {
    if admitted {
        Signal::Reached
    } else {
        Signal::InvalidContext
    }
}

/// The protected entry point. `admitted` is the answer of the host's
/// membership check for the caller, made before the body runs. An admitted
/// caller reaches the privileged code, which signals the fixed marker; any
/// other caller is turned away with the host-level denial.
pub fn gated_operation(admitted: bool) -> (signal: Signal)
    ensures
        signal == gated_signal(admitted),
{
    if admitted {
        Signal::Reached
    } else {
        Signal::InvalidContext
    }
}

/// Tests what the standalone broker handed out: the sentinel means that
/// no capability was ever granted to the caller; any other token is the
/// caller's grant.
pub fn check_grant(retrieved: Token) -> (grant: Result<Token, Signal>)
    ensures
        is_sentinel_view(retrieved@) ==> grant == Err::<Token, Signal>(Signal::NoGrant),
        !is_sentinel_view(retrieved@) ==> grant == Ok::<Token, Signal>(retrieved),
{
    if retrieved.is_sentinel() {
        Err(Signal::NoGrant)
    } else {
        Ok(retrieved)
    }
}

/// Where a principal stands on its way to the gated operation.
#[derive(Clone, Copy, Debug, PartialEq, Eq, Structural)]
pub enum AccessState {
    /// The broker holds nothing for the principal.
    Unregistered,
    /// The broker holds a grant for the principal, which has not taken it
    /// into its context.
    Registered,
    /// The principal's context holds a token of the group.
    Activated,
}

/// The state of a principal for which the broker holds a grant or not,
/// and whose context passes the membership check or not.
pub open spec fn state_of(granted: bool, admitted: bool) -> AccessState {
    if admitted {
        AccessState::Activated
    } else if granted {
        AccessState::Registered
    } else {
        AccessState::Unregistered
    }
}

/// Infers a principal's state from what the broker holds for it and from
/// the membership check of its context. The state is kept nowhere.
pub fn access_state(granted: bool, admitted: bool) -> (state: AccessState)
    ensures
        state == state_of(granted, admitted),
{
    if admitted {
        AccessState::Activated
    } else if granted {
        AccessState::Registered
    } else {
        AccessState::Unregistered
    }
}

/// The gated operation is reached from the activated state and from no
/// other: a principal that is unregistered, or registered only, is turned
/// away with the host-level denial.
pub proof fn lemma_only_activated_reach(granted: bool, admitted: bool)
    ensures
        gated_signal(admitted) == Signal::Reached <==> state_of(granted, admitted)
            == AccessState::Activated,
        gated_signal(admitted) == Signal::InvalidContext <==> state_of(granted, admitted)
            != AccessState::Activated,
{
}

} // verus!

//! Cooperative cancellation for long-running execute paths.
//!
//! A host installs a [`CancelHandle`] for a task and cancels it from a signal
//! handler; running work polls the handle.

use tokio_util::sync::CancellationToken;
use vstd::prelude::*;

verus! {

/// `tokio_util`'s cancellation token.
#[verifier::external_type_specification]
#[verifier::external_body]
pub struct ExCancellationToken(CancellationToken);

/// `CancellationToken::new` makes a token of its own that is not cancelled.
/// Its state is shared with its clones and children and changes under them, so
/// nothing is claimed of it.
pub assume_specification[ CancellationToken::new ]() -> CancellationToken
;

/// `CancellationToken::child_token` makes a token that is cancelled with this
/// one. Nothing is claimed of the shared state.
pub assume_specification[ CancellationToken::child_token ](
    token: &CancellationToken,
) -> CancellationToken
;

/// `CancellationToken::cancel` cancels the token, its clones, and its
/// children. Nothing is claimed of the shared state.
pub assume_specification[ CancellationToken::cancel ](token: &CancellationToken)
;

/// `CancellationToken::is_cancelled` reads the shared state. Nothing is
/// claimed of it: another task may cancel at any time.
pub assume_specification[ CancellationToken::is_cancelled ](token: &CancellationToken) -> bool
;

/// `CancellationToken::clone` makes another handle over the same shared state.
/// Claimed: the two are one token.
pub assume_specification[ <CancellationToken as Clone>::clone ](
    token: &CancellationToken,
) -> (copy: CancellationToken)
    ensures
        copy == *token,
;

/// A cloneable flag that wakes waiters when cancelled.
///
/// Clones share one state: cancelling any clone cancels every clone.
/// Cancelling is idempotent and irreversible.
#[derive(Debug)]
#[non_exhaustive]
pub struct CancelHandle {
    token: CancellationToken,
}

impl Clone for CancelHandle {
    fn clone(&self) -> (copy: CancelHandle)
        ensures
            copy.shared() == self.shared(),
    {
        CancelHandle { token: self.token.clone() }
    }
}

impl Default for CancelHandle {
    fn default() -> (handle: CancelHandle)
        ensures
            call_ensures(CancellationToken::new, (), handle.shared()),
    {
        CancelHandle { token: CancellationToken::new() }
    }
}

impl CancelHandle {
    /// The token behind the handle.
    pub closed spec fn shared(&self) -> CancellationToken {
        self.token
    }

    /// Creates a handle that is not yet cancelled: its token is a new one.
    #[must_use]
    pub fn new() -> (handle: CancelHandle)
        ensures
            call_ensures(CancellationToken::new, (), handle.shared()),
    {
        CancelHandle { token: CancellationToken::new() }
    }

    /// Returns a fresh handle cancelled when this handle (or any ancestor) is
    /// cancelled. Cancelling the child never affects the parent or siblings.
    /// Its token is a child of this handle's token.
    #[must_use]
    pub fn child(&self) -> (child: CancelHandle)
        ensures
            call_ensures(CancellationToken::child_token, (&self.shared(),), child.shared()),
    {
        CancelHandle { token: self.token.child_token() }
    }

    /// Marks this handle (and every clone) cancelled and wakes every waiter:
    /// its token is cancelled.
    pub fn cancel(&self)
        ensures
            call_ensures(CancellationToken::cancel, (&self.shared(),), ()),
    {
        self.token.cancel();
    }

    /// Returns whether the handle or any clone was cancelled, as its token
    /// reads.
    #[must_use]
    pub fn is_cancelled(&self) -> (cancelled: bool)
        ensures
            call_ensures(CancellationToken::is_cancelled, (&self.shared(),), cancelled),
    {
        self.token.is_cancelled()
    }

    /// The token behind the handle, to await.
    #[must_use]
    pub fn token(&self) -> (token: &CancellationToken)
        ensures
            *token == self.shared(),
    {
        &self.token
    }
}

/// What a task reads of its cancellation: whether the installed handle is
/// cancelled, and `false` when no handle is installed.
#[must_use]
pub fn reads_cancelled(installed: Option<bool>) -> (cancelled: bool)
    ensures
        cancelled == (installed == Some(true)),
{
    match installed {
        Some(cancelled) => cancelled,
        None => false,
    }
}

/// Reads the flag of the handle installed on a task, without awaiting.
///
/// Returns what the installed handle's token reads, and `false` when no handle
/// is installed.
#[must_use]
pub fn is_cancelled(installed: Option<&CancelHandle>) -> (cancelled: bool)
    ensures
        installed is None ==> !cancelled,
        installed matches Some(handle) ==> call_ensures(
            CancellationToken::is_cancelled,
            (&handle.shared(),),
            cancelled,
        ),
{
    let reading = match installed {
        Some(handle) => Some(handle.is_cancelled()),
        None => None,
    };
    reads_cancelled(reading)
}

} // verus!

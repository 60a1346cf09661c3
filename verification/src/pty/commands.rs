//! The four commands of the session manager.

use vstd::prelude::*;
use uuid::Uuid;
use crate::error::CoreError;
use crate::pty::protocol::step;
use crate::pty::protocol::Command;
use crate::pty::protocol::Reply;
use crate::state::SessionStore;

verus! {

/// Calls `Uuid::new_v4` and renders the identifier with `to_string`, which
/// writes the hyphenated form: 36 characters, whatever the random bits.
/// Nothing else is claimed of the result: two calls may return anything.
/// The call panics only where the system has no random bytes to give.
#[verifier::external_body]
fn fresh_token() -> (r: String)
    ensures
        r@.len() == 36,
{
    Uuid::new_v4().to_string()
}

/// Opens a session under the given token, which the caller has drawn.
///
/// `opened` holds the handles of the pseudo-terminal that the backend
/// allocated, or nothing if it could not. The session is stored, and the
/// token returned as its identifier, exactly when there are handles and the
/// token was never handed out before. Otherwise the store is unchanged and
/// the handles, if any, are released.
pub fn admit_terminal<H>(
    token: String,
    rows: u16,
    cols: u16,
    opened: Option<H>,
    state: &mut SessionStore<H>,
) -> (r: Result<String, CoreError>)
    requires
        old(state).wf(),
        rows > 0,
        cols > 0,
    ensures
        final(state).wf(),
        match r {
            Ok(id) => {
                &&& id@ == token@
                &&& opened is Some
                &&& !old(state)@.issued.contains(token@)
                &&& final(state)@ == old(state)@.opened(token@, rows, cols, opened->0)
            },
            Err(e) => {
                &&& e == CoreError::PtyCreationFailure
                &&& (opened is None || old(state)@.issued.contains(token@))
                &&& final(state)@ == old(state)@
            },
        },
        step(old(state)@, Command::Spawn { token: token@, rows, cols, opened }) == (
            final(state)@,
            match r {
                Ok(id) => Reply::Spawned(id@),
                Err(e) => Reply::Failed(e),
            },
        ),
{
    match opened {
        Some(handles) => {
            let id = token.clone();
            match state.open(token, rows, cols, handles) {
                Ok(_) => Ok(id),
                Err(_) => Err(CoreError::PtyCreationFailure),
            }
        },
        None => Err(CoreError::PtyCreationFailure),
    }
}

/// Opens a session of the given dimensions under a freshly drawn identifier
/// and returns the identifier.
///
/// The identifier is random, so the contract says what holds whichever was
/// drawn: a returned identifier was never handed out before, the new
/// session is the only change to the store, and a failure changes nothing.
///
/// It fails only where no pseudo-terminal was allocated, or where the
/// identifier drawn, of 36 characters, was handed out before. So with
/// handles given it succeeds on every store that has handed out no
/// identifier of that length, a new store among them.
pub fn spawn_terminal<H>(rows: u16, cols: u16, opened: Option<H>, state: &mut SessionStore<H>) -> (r:
    Result<String, CoreError>)
    requires
        old(state).wf(),
        rows > 0,
        cols > 0,
    ensures
        final(state).wf(),
        match r {
            Ok(id) => {
                &&& opened is Some
                &&& id@.len() == 36
                &&& !old(state)@.issued.contains(id@)
                &&& final(state)@ == old(state)@.opened(id@, rows, cols, opened->0)
            },
            Err(e) => e == CoreError::PtyCreationFailure && final(state)@ == old(state)@,
        },
        opened is None ==> r is Err,
        r is Err ==> (opened is None || exists|t: Seq<char>|
            t.len() == 36 && #[trigger] old(state)@.issued.contains(t)),
{
    let token = fresh_token();
    admit_terminal(token, rows, cols, opened, state)
}

/// Finds the session to which input is to be written and hands out its
/// handles. Fails with `SessionNotFound` if `session_id` names no live
/// session. What the caller leaves in the handles is what the store then
/// holds; nothing else changes.
pub fn write_to_terminal<'a, H>(session_id: &str, state: &'a mut SessionStore<H>) -> (r: Result<
    &'a mut H,
    CoreError,
>)
    requires
        old(state).wf(),
    ensures
        final(state).wf(),
        match r {
            Ok(h) => {
                &&& old(state)@.live.contains_key(session_id@)
                &&& *h == old(state)@.live[session_id@].handles
                &&& final(state)@ == old(state)@.with_handles(session_id@, *final(h))
                &&& step(old(state)@, Command::Write { id: session_id@, left: *final(h) }) == (
                    final(state)@,
                    Reply::Forwarded,
                )
            },
            Err(e) => {
                &&& e == CoreError::SessionNotFound
                &&& !old(state)@.live.contains_key(session_id@)
                &&& final(state)@ == old(state)@
            },
        },
{
    match state.handles_mut(session_id) {
        Some(h) => Ok(h),
        None => Err(CoreError::SessionNotFound),
    }
}

/// Records the outcome of a resize request: `resized` tells whether the
/// operating system accepted the new dimensions. Fails with
/// `SessionNotFound` if `session_id` names no live session, and with
/// `IOFailure`, the stored dimensions unchanged, if the system refused.
pub fn resize_terminal<H>(
    session_id: &str,
    rows: u16,
    cols: u16,
    resized: bool,
    state: &mut SessionStore<H>,
) -> (r: Result<(), CoreError>)
    requires
        old(state).wf(),
    ensures
        final(state).wf(),
        match r {
            Ok(_) => {
                &&& old(state)@.live.contains_key(session_id@)
                &&& resized
                &&& final(state)@ == old(state)@.resized(session_id@, rows, cols)
            },
            Err(e) => {
                &&& final(state)@ == old(state)@
                &&& e == (if old(state)@.live.contains_key(session_id@) {
                    CoreError::IOFailure
                } else {
                    CoreError::SessionNotFound
                })
                &&& !(old(state)@.live.contains_key(session_id@) && resized)
            },
        },
        step(old(state)@, Command::Resize { id: session_id@, rows, cols, resized }) == (
            final(state)@,
            match r {
                Ok(_) => Reply::Resized,
                Err(e) => Reply::Failed(e),
            },
        ),
{
    if !state.contains(session_id) {
        Err(CoreError::SessionNotFound)
    } else if !resized {
        Err(CoreError::IOFailure)
    } else {
        state.resize(session_id, rows, cols);
        Ok(())
    }
}

/// Closes a session: takes it out of the store and releases its handles.
/// Fails with `SessionNotFound` if `session_id` names no live session, as it
/// does when the session was closed before.
pub fn close_terminal<H>(session_id: &str, state: &mut SessionStore<H>) -> (r: Result<
    (),
    CoreError,
>)
    requires
        old(state).wf(),
    ensures
        final(state).wf(),
        match r {
            Ok(_) => {
                &&& old(state)@.live.contains_key(session_id@)
                &&& final(state)@ == old(state)@.closed(session_id@)
            },
            Err(e) => {
                &&& e == CoreError::SessionNotFound
                &&& !old(state)@.live.contains_key(session_id@)
                &&& final(state)@ == old(state)@
            },
        },
        step(old(state)@, Command::Close { id: session_id@ }) == (
            final(state)@,
            match r {
                Ok(_) => Reply::Closed,
                Err(e) => Reply::Failed(e),
            },
        ),
{
    match state.close(session_id) {
        Some(_) => Ok(()),
        None => Err(CoreError::SessionNotFound),
    }
}

} // verus!

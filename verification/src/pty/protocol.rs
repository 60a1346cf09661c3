//! The rules of the session manager, as steps on the store's mapping, and
//! what holds of every sequence of such steps.

use vstd::prelude::*;
use crate::error::CoreError;
use crate::state::SessionView;
use crate::state::StoreView;

verus! {

/// One request to the session manager, with what the outside world answered
/// where the request needs the outside world.
pub enum Command<H> {
    /// Open a session under `token`; `opened` holds the handles of the new
    /// pseudo-terminal, or nothing if none could be allocated.
    Spawn { token: Seq<char>, rows: u16, cols: u16, opened: Option<H> },
    /// Forward input to session `id`; `left` is what the handles are after
    /// the write.
    Write { id: Seq<char>, left: H },
    /// Give session `id` new dimensions; `resized` tells whether the
    /// operating system accepted them.
    Resize { id: Seq<char>, rows: u16, cols: u16, resized: bool },
    /// Close session `id`.
    Close { id: Seq<char> },
}

/// The manager's answer to a request.
pub enum Reply {
    /// A session was opened under this identifier.
    Spawned(Seq<char>),
    /// The input may be written to the session's handles.
    Forwarded,
    /// The new dimensions were recorded.
    Resized,
    /// The session was closed.
    Closed,
    /// The request failed; the store is as it was.
    Failed(CoreError),
}

/// The store and the answer after one request.
///
/// - A spawn succeeds when a pseudo-terminal was allocated and the token was
///   never handed out; it fails with `PtyCreationFailure` otherwise.
/// - A write, a resize and a close fail with `SessionNotFound` when `id` names
///   no live session.
/// - A resize that the operating system refused fails with `IOFailure` and
///   leaves the dimensions as they were.
pub open spec fn step<H>(s: StoreView<H>, c: Command<H>) -> (StoreView<H>, Reply) {
    match c {
        Command::Spawn { token, rows, cols, opened } => match opened {
            Some(handles) if !s.issued.contains(token) => (
                s.opened(token, rows, cols, handles),
                Reply::Spawned(token),
            ),
            _ => (s, Reply::Failed(CoreError::PtyCreationFailure)),
        },
        Command::Write { id, left } => if s.live.contains_key(id) {
            (s.with_handles(id, left), Reply::Forwarded)
        } else {
            (s, Reply::Failed(CoreError::SessionNotFound))
        },
        Command::Resize { id, rows, cols, resized } => if !s.live.contains_key(id) {
            (s, Reply::Failed(CoreError::SessionNotFound))
        } else if !resized {
            (s, Reply::Failed(CoreError::IOFailure))
        } else {
            (s.resized(id, rows, cols), Reply::Resized)
        },
        Command::Close { id } => if s.live.contains_key(id) {
            (s.closed(id), Reply::Closed)
        } else {
            (s, Reply::Failed(CoreError::SessionNotFound))
        },
    }
}

/// The store after the first `n` of the requests `cs`.
pub open spec fn state_after<H>(s: StoreView<H>, cs: Seq<Command<H>>, n: int) -> StoreView<H>
    decreases n,
{
    if n <= 0 {
        s
    } else {
        step(state_after(s, cs, n - 1), cs[n - 1]).0
    }
}

/// The answer to request number `n` of `cs`, counted from 0.
pub open spec fn reply_at<H>(s: StoreView<H>, cs: Seq<Command<H>>, n: int) -> Reply {
    step(state_after(s, cs, n), cs[n]).1
}

/// The identifier that a request speaks of, where it speaks of a session
/// that must be live.
pub open spec fn target<H>(c: Command<H>) -> Option<Seq<char>> {
    match c {
        Command::Spawn { .. } => None,
        Command::Write { id, .. } => Some(id),
        Command::Resize { id, .. } => Some(id),
        Command::Close { id } => Some(id),
    }
}

/// One step keeps the store well-formed and forgets no identifier that was
/// handed out.
pub proof fn lemma_step_keeps<H>(s: StoreView<H>, c: Command<H>)
    requires
        s.wf(),
    ensures
        step(s, c).0.wf(),
        s.issued.subset_of(step(s, c).0.issued),
{
}

/// Any number of steps keeps the store well-formed and forgets no identifier
/// that was handed out.
pub proof fn lemma_run_keeps<H>(s: StoreView<H>, cs: Seq<Command<H>>, m: int, n: int)
    requires
        s.wf(),
        0 <= m <= n <= cs.len(),
    ensures
        state_after(s, cs, n).wf(),
        state_after(s, cs, m).issued.subset_of(state_after(s, cs, n).issued),
    decreases n,
{
    if n > 0 {
        if m < n {
            lemma_run_keeps(s, cs, m, n - 1);
        } else {
            lemma_run_keeps(s, cs, n - 1, n - 1);
        }
        lemma_step_keeps(state_after(s, cs, n - 1), cs[n - 1]);
    }
}

/// An identifier that was handed out and names no live session names none
/// ever after, and no later spawn returns it.
pub proof fn lemma_retired_stays<H>(
    s: StoreView<H>,
    cs: Seq<Command<H>>,
    m: int,
    n: int,
    id: Seq<char>,
)
    requires
        s.wf(),
        0 <= m <= n <= cs.len(),
        state_after(s, cs, m).issued.contains(id),
        !state_after(s, cs, m).live.contains_key(id),
    ensures
        state_after(s, cs, n).issued.contains(id),
        !state_after(s, cs, n).live.contains_key(id),
        forall|k: int| m <= k < n ==> #[trigger] reply_at(s, cs, k) != Reply::Spawned(id),
    decreases n,
{
    if m < n {
        lemma_retired_stays(s, cs, m, n - 1, id);
    }
}

/// Whatever requests are made in whatever order, two spawns never return
/// the same identifier.
pub proof fn law_spawned_identifiers_distinct<H>(
    s: StoreView<H>,
    cs: Seq<Command<H>>,
    i: int,
    j: int,
    a: Seq<char>,
    b: Seq<char>,
)
    requires
        s.wf(),
        0 <= i < j < cs.len(),
        reply_at(s, cs, i) == Reply::Spawned(a),
        reply_at(s, cs, j) == Reply::Spawned(b),
    ensures
        a != b,
{
    // After request i the identifier a is handed out, and it stays so.
    lemma_run_keeps(s, cs, i + 1, j);
    assert(state_after(s, cs, i + 1).issued.contains(a));
}

/// A write, a resize or a close that names an identifier which was not live
/// at the start and which no spawn has returned since fails with
/// `SessionNotFound`.
pub proof fn law_unknown_identifier_not_found<H>(
    s: StoreView<H>,
    cs: Seq<Command<H>>,
    n: int,
    id: Seq<char>,
)
    requires
        s.wf(),
        0 <= n < cs.len(),
        target(cs[n]) == Some(id),
        !s.live.contains_key(id),
        forall|k: int| 0 <= k < n ==> #[trigger] reply_at(s, cs, k) != Reply::Spawned(id),
    ensures
        reply_at(s, cs, n) == Reply::Failed(CoreError::SessionNotFound),
        state_after(s, cs, n + 1) == state_after(s, cs, n),
{
    lemma_never_spawned_not_live(s, cs, n, id);
}

/// An identifier that was not live at the start and that no spawn has
/// returned is not live.
proof fn lemma_never_spawned_not_live<H>(
    s: StoreView<H>,
    cs: Seq<Command<H>>,
    n: int,
    id: Seq<char>,
)
    requires
        0 <= n <= cs.len(),
        !s.live.contains_key(id),
        forall|k: int| 0 <= k < n ==> #[trigger] reply_at(s, cs, k) != Reply::Spawned(id),
    ensures
        !state_after(s, cs, n).live.contains_key(id),
    decreases n,
{
    if n > 0 {
        lemma_never_spawned_not_live(s, cs, n - 1, id);
        assert(reply_at(s, cs, n - 1) != Reply::Spawned(id));
    }
}

/// Once a session is closed, every later write, resize and close that names
/// its identifier fails with `SessionNotFound`, and no later spawn returns
/// that identifier.
pub proof fn law_closed_identifier_never_returns<H>(
    s: StoreView<H>,
    cs: Seq<Command<H>>,
    i: int,
    n: int,
    id: Seq<char>,
)
    requires
        s.wf(),
        0 <= i < n < cs.len(),
        cs[i] == (Command::<H>::Close { id }),
        reply_at(s, cs, i) == Reply::Closed,
    ensures
        target(cs[n]) == Some(id) ==> reply_at(s, cs, n) == Reply::Failed(
            CoreError::SessionNotFound,
        ),
        reply_at(s, cs, n) != Reply::Spawned(id),
{
    lemma_run_keeps(s, cs, i, i);
    assert(state_after(s, cs, i).live.contains_key(id));
    assert(state_after(s, cs, i + 1) == state_after(s, cs, i).closed(id));
    lemma_retired_stays(s, cs, i + 1, n + 1, id);
    lemma_retired_stays(s, cs, i + 1, n, id);
}

/// The identifier that a request may touch: the token of a spawn, the
/// target of the others.
pub open spec fn subject<H>(c: Command<H>) -> Seq<char> {
    match c {
        Command::Spawn { token, .. } => token,
        Command::Write { id, .. } => id,
        Command::Resize { id, .. } => id,
        Command::Close { id } => id,
    }
}

/// A request, whether it succeeds or fails, leaves every session but its
/// own as it was: live or not, with the same dimensions and handles.
pub proof fn law_other_sessions_untouched<H>(s: StoreView<H>, c: Command<H>, other: Seq<char>)
    requires
        other != subject(c),
    ensures
        step(s, c).0.live.contains_key(other) == s.live.contains_key(other),
        s.live.contains_key(other) ==> step(s, c).0.live[other] == s.live[other],
        step(s, c).0.issued.contains(other) == s.issued.contains(other),
{
}

/// A request that fails changes nothing.
pub proof fn law_failure_changes_nothing<H>(s: StoreView<H>, c: Command<H>)
    requires
        step(s, c).1 is Failed,
    ensures
        step(s, c).0 == s,
{
}

/// The life of a session, from spawn to close. A spawn with handles under
/// a token that was never handed out opens a session of the dimensions
/// asked for and adds nothing else to the store; input to it is forwarded;
/// a resize that the operating system accepted is recorded; a close
/// succeeds; and input to the closed session fails with `SessionNotFound`.
pub proof fn law_session_lifecycle<H>(
    s: StoreView<H>,
    token: Seq<char>,
    rows: u16,
    cols: u16,
    handles: H,
    left: H,
    new_rows: u16,
    new_cols: u16,
)
    requires
        s.wf(),
        !s.issued.contains(token),
    ensures
        ({
            let spawned = step(s, Command::Spawn { token, rows, cols, opened: Some(handles) });
            let written = step(spawned.0, Command::Write { id: token, left });
            let resized = step(
                written.0,
                Command::Resize { id: token, rows: new_rows, cols: new_cols, resized: true },
            );
            let closed = step(resized.0, Command::<H>::Close { id: token });
            let late = step(closed.0, Command::Write { id: token, left });
            &&& spawned.1 == Reply::Spawned(token)
            &&& spawned.0.live.dom() == s.live.dom().insert(token)
            &&& spawned.0.live[token] == (SessionView { rows, cols, handles })
            &&& written.1 == Reply::Forwarded
            &&& written.0.live[token] == (SessionView { rows, cols, handles: left })
            &&& resized.1 == Reply::Resized
            &&& resized.0.live[token] == (SessionView {
                rows: new_rows,
                cols: new_cols,
                handles: left,
            })
            &&& closed.1 == Reply::Closed
            &&& closed.0.live == s.live
            &&& late.1 == Reply::Failed(CoreError::SessionNotFound)
            &&& late.0 == closed.0
        }),
{
    let spawned = step(s, Command::Spawn { token, rows, cols, opened: Some(handles) });
    let written = step(spawned.0, Command::Write { id: token, left });
    let resized = step(
        written.0,
        Command::Resize { id: token, rows: new_rows, cols: new_cols, resized: true },
    );
    let closed = step(resized.0, Command::<H>::Close { id: token });
    assert(!s.live.contains_key(token));
    assert(spawned.0.live.dom() =~= s.live.dom().insert(token));
    assert(closed.0.live =~= s.live);
}

} // verus!

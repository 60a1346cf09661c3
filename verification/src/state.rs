//! The session store: which terminal sessions are live, their dimensions and
//! their capability handles, and which identifiers were ever handed out.

use vstd::prelude::*;
use vstd::hash_set::StringHashSet;
use crate::text::same_text;

verus! {

/// One live interactive shell: its identifier, its dimensions as of the last
/// resize, and the handles through which its pseudo-terminal is read,
/// written and controlled.
pub struct PtySession<H> {
    pub id: String,
    pub rows: u16,
    pub cols: u16,
    pub handles: H,
}

/// What the store knows of one live session, apart from its identifier.
pub struct SessionView<H> {
    pub rows: u16,
    pub cols: u16,
    pub handles: H,
}

impl<H> View for PtySession<H> {
    type V = SessionView<H>;

    open spec fn view(&self) -> SessionView<H> {
        SessionView { rows: self.rows, cols: self.cols, handles: self.handles }
    }
}

/// The store as a mapping: the live sessions by identifier, and every
/// identifier that was ever handed out.
pub struct StoreView<H> {
    pub live: Map<Seq<char>, SessionView<H>>,
    pub issued: Set<Seq<char>>,
}

impl<H> StoreView<H> {
    /// Every live identifier was handed out.
    pub open spec fn wf(self) -> bool {
        self.live.dom().subset_of(self.issued)
    }

    /// The store with nothing in it.
    pub open spec fn empty() -> Self {
        StoreView { live: Map::empty(), issued: Set::empty() }
    }

    /// The store after a session was opened under a new identifier.
    pub open spec fn opened(self, id: Seq<char>, rows: u16, cols: u16, handles: H) -> Self {
        StoreView {
            live: self.live.insert(id, SessionView { rows, cols, handles }),
            issued: self.issued.insert(id),
        }
    }

    /// The store after the handles of session `id` were used and left as
    /// `handles`.
    pub open spec fn with_handles(self, id: Seq<char>, handles: H) -> Self {
        StoreView {
            live: self.live.insert(id, SessionView { handles, ..self.live[id] }),
            issued: self.issued,
        }
    }

    /// The store after session `id` took new dimensions.
    pub open spec fn resized(self, id: Seq<char>, rows: u16, cols: u16) -> Self {
        StoreView {
            live: self.live.insert(id, SessionView { rows, cols, ..self.live[id] }),
            issued: self.issued,
        }
    }

    /// The store after session `id` was closed: the identifier stays handed
    /// out.
    pub open spec fn closed(self, id: Seq<char>) -> Self {
        StoreView { live: self.live.remove(id), issued: self.issued }
    }
}

/// The sessions of a terminal manager.
pub struct SessionStore<H> {
    sessions: Vec<PtySession<H>>,
    issued: StringHashSet,
}

/// The state that the commands of the session manager share: a store with
/// no session.
pub fn create_state<H>() -> (r: SessionStore<H>)
    ensures
        r.wf(),
        r@ == StoreView::<H>::empty(),
{
    SessionStore::new()
}

/// Whether some session of `s` has the identifier `id`.
spec fn holds<H>(s: Seq<PtySession<H>>, id: Seq<char>) -> bool {
    exists|i: int| 0 <= i < s.len() && #[trigger] s[i].id@ == id
}

/// A position at which `s` has the identifier `id`.
spec fn position<H>(s: Seq<PtySession<H>>, id: Seq<char>) -> int {
    choose|i: int| 0 <= i < s.len() && #[trigger] s[i].id@ == id
}

/// No two sessions of `s` share an identifier.
spec fn distinct<H>(s: Seq<PtySession<H>>) -> bool {
    forall|i: int, j: int|
        0 <= i < s.len() && 0 <= j < s.len() && #[trigger] s[i].id@ == #[trigger] s[j].id@ ==> i
            == j
}

/// The sessions of `s` by identifier.
spec fn by_id<H>(s: Seq<PtySession<H>>) -> Map<Seq<char>, SessionView<H>> {
    Map::new(|id: Seq<char>| holds(s, id), |id: Seq<char>| s[position(s, id)]@)
}

/// In a sequence without shared identifiers, each session is found under its
/// own identifier.
proof fn lemma_by_id_at<H>(s: Seq<PtySession<H>>, i: int)
    requires
        distinct(s),
        0 <= i < s.len(),
    ensures
        holds(s, s[i].id@),
        position(s, s[i].id@) == i,
        by_id(s)[s[i].id@] == s[i]@,
{
    assert(s[i].id@ == s[i].id@);
}

/// Adding a session under an identifier that none has adds it to the mapping.
proof fn lemma_by_id_push<H>(s: Seq<PtySession<H>>, p: PtySession<H>)
    requires
        distinct(s),
        !holds(s, p.id@),
    ensures
        distinct(s.push(p)),
        by_id(s.push(p)) == by_id(s).insert(p.id@, p@),
{
    let t = s.push(p);
    assert forall|i: int, j: int|
        0 <= i < t.len() && 0 <= j < t.len() && #[trigger] t[i].id@ == #[trigger] t[j].id@ implies i
        == j by {
        if i < s.len() {
            assert(t[i] == s[i]);
        }
        if j < s.len() {
            assert(t[j] == s[j]);
        }
    }
    assert forall|id: Seq<char>| holds(t, id) <==> (holds(s, id) || id == p.id@) by {
        if holds(s, id) {
            let i = position(s, id);
            assert(t[i].id@ == id);
        }
        if id == p.id@ {
            assert(t[s.len() as int].id@ == id);
        }
        if holds(t, id) {
            let i = position(t, id);
            if i < s.len() {
                assert(s[i].id@ == id);
            }
        }
    }
    assert forall|id: Seq<char>| holds(t, id) implies #[trigger] by_id(t)[id] == by_id(s).insert(
        p.id@,
        p@,
    )[id] by {
        let i = position(t, id);
        lemma_by_id_at(t, i);
        if i < s.len() {
            assert(s[i].id@ == id);
            lemma_by_id_at(s, i);
        }
    }
    assert(by_id(t) =~= by_id(s).insert(p.id@, p@));
}

/// Replacing a session by one of the same identifier replaces it in the
/// mapping.
proof fn lemma_by_id_update<H>(s: Seq<PtySession<H>>, i: int, p: PtySession<H>)
    requires
        distinct(s),
        0 <= i < s.len(),
        p.id@ == s[i].id@,
    ensures
        distinct(s.update(i, p)),
        by_id(s.update(i, p)) == by_id(s).insert(p.id@, p@),
{
    let t = s.update(i, p);
    assert forall|a: int| 0 <= a < s.len() implies #[trigger] t[a].id@ == s[a].id@ by {}
    assert forall|a: int, b: int|
        0 <= a < t.len() && 0 <= b < t.len() && #[trigger] t[a].id@ == #[trigger] t[b].id@ implies a
        == b by {
        assert(s[a].id@ == s[b].id@);
    }
    assert forall|id: Seq<char>| holds(t, id) <==> holds(s, id) by {
        if holds(s, id) {
            let a = position(s, id);
            assert(t[a].id@ == id);
        }
        if holds(t, id) {
            let a = position(t, id);
            assert(s[a].id@ == id);
        }
    }
    lemma_by_id_at(s, i);
    assert forall|id: Seq<char>| holds(t, id) implies #[trigger] by_id(t)[id] == by_id(s).insert(
        p.id@,
        p@,
    )[id] by {
        let a = position(t, id);
        lemma_by_id_at(t, a);
        assert(s[a].id@ == id);
        lemma_by_id_at(s, a);
    }
    assert(by_id(t) =~= by_id(s).insert(p.id@, p@));
}

/// Taking a session out takes its identifier out of the mapping.
proof fn lemma_by_id_remove<H>(s: Seq<PtySession<H>>, i: int)
    requires
        distinct(s),
        0 <= i < s.len(),
    ensures
        distinct(s.remove(i)),
        by_id(s.remove(i)) == by_id(s).remove(s[i].id@),
{
    let t = s.remove(i);
    let gone = s[i].id@;
    assert forall|a: int| 0 <= a < t.len() implies #[trigger] t[a] == s[if a < i {
        a
    } else {
        a + 1
    }] by {}
    assert forall|a: int, b: int|
        0 <= a < t.len() && 0 <= b < t.len() && #[trigger] t[a].id@ == #[trigger] t[b].id@ implies a
        == b by {
        let sa = if a < i { a } else { a + 1 };
        let sb = if b < i { b } else { b + 1 };
        assert(t[a] == s[sa] && t[b] == s[sb]);
        assert(s[sa].id@ == s[sb].id@);
    }
    assert forall|id: Seq<char>| holds(t, id) <==> (holds(s, id) && id != gone) by {
        if holds(s, id) && id != gone {
            let a = position(s, id);
            let ta = if a < i { a } else { a - 1 };
            assert(t[ta] == s[a]);
            assert(t[ta].id@ == id);
        }
        if holds(t, id) {
            let a = position(t, id);
            let sa = if a < i { a } else { a + 1 };
            assert(t[a] == s[sa]);
            assert(s[sa].id@ == id);
            if id == gone {
                assert(s[sa].id@ == s[i].id@);
            }
        }
    }
    assert forall|id: Seq<char>| holds(t, id) implies #[trigger] by_id(t)[id] == by_id(s).remove(
        gone,
    )[id] by {
        let a = position(t, id);
        lemma_by_id_at(t, a);
        let sa = if a < i { a } else { a + 1 };
        assert(t[a] == s[sa]);
        lemma_by_id_at(s, sa);
    }
    assert(by_id(t) =~= by_id(s).remove(gone));
}

impl<H> View for SessionStore<H> {
    type V = StoreView<H>;

    closed spec fn view(&self) -> StoreView<H> {
        StoreView { live: by_id(self.sessions@), issued: self.issued@ }
    }
}

impl<H> SessionStore<H> {
    /// No two live sessions share an identifier, and every live identifier
    /// was handed out.
    pub closed spec fn wf(&self) -> bool {
        &&& distinct(self.sessions@)
        &&& forall|i: int|
            0 <= i < self.sessions.len() ==> self.issued@.contains(#[trigger] self.sessions[i].id@)
    }

    /// A well-formed store is a well-formed mapping.
    pub proof fn lemma_view_wf(&self)
        requires
            self.wf(),
        ensures
            self@.wf(),
    {
        assert forall|id: Seq<char>| self@.live.dom().contains(id) implies self@.issued.contains(
            id,
        ) by {
            let i = position(self.sessions@, id);
            assert(self.sessions[i].id@ == id);
        }
    }

    /// A store with no session and no identifier handed out.
    pub fn new() -> (r: Self)
        ensures
            r.wf(),
            r@ == StoreView::<H>::empty(),
    {
        let r = SessionStore { sessions: Vec::new(), issued: StringHashSet::new() };
        assert(r@.live =~= Map::empty());
        r
    }

    /// The position of the live session `id`, if there is one.
    fn find(&self, id: &str) -> (r: Option<usize>)
        ensures
            match r {
                Some(i) => i < self.sessions.len() && self.sessions[i as int].id@ == id@,
                None => !holds(self.sessions@, id@),
            },
    {
        let mut i: usize = 0;
        while i < self.sessions.len()
            invariant
                i <= self.sessions.len(),
                forall|j: int| 0 <= j < i ==> self.sessions[j].id@ != id@,
            decreases self.sessions.len() - i,
        {
            if same_text(self.sessions[i].id.as_str(), id) {
                return Some(i);
            }
            i += 1;
        }
        None
    }

    /// Whether `id` names a live session.
    pub fn contains(&self, id: &str) -> (r: bool)
        ensures
            r == self@.live.contains_key(id@),
    {
        match self.find(id) {
            Some(i) => {
                assert(self.sessions@[i as int].id@ == id@);
                true
            },
            None => false,
        }
    }

    /// Whether `id` was ever handed out, to a session live or closed.
    pub fn was_issued(&self, id: &str) -> (r: bool)
        ensures
            r == self@.issued.contains(id@),
    {
        self.issued.contains(id)
    }

    /// The dimensions of the live session `id` as of its last resize.
    pub fn dimensions(&self, id: &str) -> (r: Option<(u16, u16)>)
        requires
            self.wf(),
        ensures
            r == (if self@.live.contains_key(id@) {
                Some((self@.live[id@].rows, self@.live[id@].cols))
            } else {
                None
            }),
    {
        match self.find(id) {
            Some(i) => {
                proof {
                    lemma_by_id_at(self.sessions@, i as int);
                }
                Some((self.sessions[i].rows, self.sessions[i].cols))
            },
            None => None,
        }
    }

    /// The handles of the live session `id`.
    pub fn handles(&self, id: &str) -> (r: Option<&H>)
        requires
            self.wf(),
        ensures
            r == (if self@.live.contains_key(id@) {
                Some(&self@.live[id@].handles)
            } else {
                None
            }),
    {
        match self.find(id) {
            Some(i) => {
                proof {
                    lemma_by_id_at(self.sessions@, i as int);
                }
                Some(&self.sessions[i].handles)
            },
            None => None,
        }
    }

    /// The handles of the live session `id`, for use: whatever the caller
    /// leaves in them is what the store then holds, and nothing else changes.
    pub fn handles_mut(&mut self, id: &str) -> (r: Option<&mut H>)
        requires
            old(self).wf(),
        ensures
            final(self).wf(),
            match r {
                Some(h) => {
                    &&& old(self)@.live.contains_key(id@)
                    &&& *h == old(self)@.live[id@].handles
                    &&& final(self)@ == old(self)@.with_handles(id@, *final(h))
                },
                None => !old(self)@.live.contains_key(id@) && final(self)@ == old(self)@,
            },
    {
        match self.find(id) {
            Some(i) => {
                let ghost before = self.sessions@;
                let ghost issued = self.issued@;
                let h = &mut self.sessions[i].handles;
                proof {
                    lemma_by_id_at(before, i as int);
                    let after = PtySession { handles: *final(h), ..before[i as int] };
                    lemma_by_id_update(before, i as int, after);
                    assert(after@ == (SessionView {
                        handles: *final(h),
                        ..by_id(before)[id@]
                    }));
                    assert forall|j: int| 0 <= j < before.len() implies issued.contains(
                        #[trigger] before.update(i as int, after)[j].id@,
                    ) by {
                        assert(before.update(i as int, after)[j].id@ == before[j].id@);
                    }
                }
                Some(h)
            },
            None => None,
        }
    }

    /// Opens a session under `token` if that identifier was never handed
    /// out; hands the handles back if it was.
    pub fn open(&mut self, token: String, rows: u16, cols: u16, handles: H) -> (r: Result<(), H>)
        requires
            old(self).wf(),
        ensures
            final(self).wf(),
            match r {
                Ok(_) => {
                    &&& !old(self)@.issued.contains(token@)
                    &&& final(self)@ == old(self)@.opened(token@, rows, cols, handles)
                },
                Err(h) => {
                    &&& old(self)@.issued.contains(token@)
                    &&& h == handles
                    &&& final(self)@ == old(self)@
                },
            },
    {
        if self.issued.contains(token.as_str()) {
            return Err(handles);
        }
        let ghost before = self.sessions@;
        let record = token.clone();
        let session = PtySession { id: token, rows, cols, handles };
        proof {
            if holds(before, session.id@) {
                let i = position(before, session.id@);
                assert(self.issued@.contains(before[i].id@));
            }
            lemma_by_id_push(before, session);
        }
        self.issued.insert(record);
        self.sessions.push(session);
        proof {
            assert forall|j: int| 0 <= j < self.sessions.len() implies self.issued@.contains(
                #[trigger] self.sessions[j].id@,
            ) by {
                if j < before.len() {
                    assert(self.sessions[j] == before[j]);
                }
            }
        }
        Ok(())
    }

    /// Records new dimensions for the live session `id`; tells whether there
    /// is such a session.
    pub fn resize(&mut self, id: &str, rows: u16, cols: u16) -> (r: bool)
        requires
            old(self).wf(),
        ensures
            final(self).wf(),
            r == old(self)@.live.contains_key(id@),
            final(self)@ == (if r {
                old(self)@.resized(id@, rows, cols)
            } else {
                old(self)@
            }),
    {
        match self.find(id) {
            Some(i) => {
                let ghost before = self.sessions@;
                self.sessions[i].rows = rows;
                self.sessions[i].cols = cols;
                proof {
                    let after = PtySession { rows, cols, ..before[i as int] };
                    assert(self.sessions@ =~= before.update(i as int, after));
                    lemma_by_id_at(before, i as int);
                    lemma_by_id_update(before, i as int, after);
                    assert forall|j: int| 0 <= j < before.len() implies self.issued@.contains(
                        #[trigger] self.sessions[j].id@,
                    ) by {
                        assert(self.sessions[j].id@ == before[j].id@);
                    }
                }
                true
            },
            None => false,
        }
    }

    /// Takes the live session `id` out of the store and hands it over, its
    /// handles with it. The identifier stays handed out.
    pub fn close(&mut self, id: &str) -> (r: Option<PtySession<H>>)
        requires
            old(self).wf(),
        ensures
            final(self).wf(),
            match r {
                Some(p) => {
                    &&& old(self)@.live.contains_key(id@)
                    &&& p.id@ == id@
                    &&& p@ == old(self)@.live[id@]
                    &&& final(self)@ == old(self)@.closed(id@)
                },
                None => !old(self)@.live.contains_key(id@) && final(self)@ == old(self)@,
            },
    {
        match self.find(id) {
            Some(i) => {
                let ghost before = self.sessions@;
                proof {
                    lemma_by_id_at(before, i as int);
                    lemma_by_id_remove(before, i as int);
                }
                let p = self.sessions.remove(i);
                proof {
                    assert forall|j: int| 0 <= j < self.sessions.len() implies self.issued@.contains(
                        #[trigger] self.sessions[j].id@,
                    ) by {
                        assert(self.sessions[j] == before[if j < i { j } else { j + 1 }]);
                    }
                }
                Some(p)
            },
            None => None,
        }
    }

    /// The number of live sessions.
    pub fn len(&self) -> (r: usize)
        requires
            self.wf(),
        ensures
            r == self@.live.dom().len(),
            self@.live.dom().finite(),
    {
        proof {
            lemma_by_id_size(self.sessions@);
        }
        self.sessions.len()
    }
}

/// A sequence without shared identifiers has as many identifiers as
/// sessions.
proof fn lemma_by_id_size<H>(s: Seq<PtySession<H>>)
    requires
        distinct(s),
    ensures
        by_id(s).dom().finite(),
        by_id(s).dom().len() == s.len(),
    decreases s.len(),
{
    if s.len() == 0 {
        assert(by_id(s).dom() =~= Set::empty());
    } else {
        let front = s.drop_last();
        let p = s.last();
        assert(s =~= front.push(p));
        assert(distinct(front)) by {
            assert forall|i: int, j: int|
                0 <= i < front.len() && 0 <= j < front.len() && #[trigger] front[i].id@
                    == #[trigger] front[j].id@ implies i == j by {
                assert(s[i].id@ == s[j].id@);
            }
        }
        assert(!holds(front, p.id@)) by {
            if holds(front, p.id@) {
                let i = position(front, p.id@);
                assert(s[i].id@ == s[s.len() - 1].id@);
            }
        }
        lemma_by_id_push(front, p);
        lemma_by_id_size(front);
        assert(by_id(s).dom() =~= by_id(front).dom().insert(p.id@));
    }
}

} // verus!

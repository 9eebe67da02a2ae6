use vstd::prelude::*;

verus! {

/// The sessions the server holds, each under its session id.
pub struct GDBManager<S> {
    sessions: Vec<(String, S)>,
}

/// Whether some entry of `entries` is filed under `id`.
pub open spec fn has_id<S>(entries: Seq<(String, S)>, id: Seq<char>) -> bool {
    exists|i: int| 0 <= i < entries.len() && #[trigger] entries[i].0@ == id
}

/// No two entries share an id.
pub open spec fn ids_unique<S>(entries: Seq<(String, S)>) -> bool {
    forall|i: int, j: int|
        0 <= i < entries.len() && 0 <= j < entries.len() && i != j ==> #[trigger] entries[i].0@
            != #[trigger] entries[j].0@
}

/// The sessions as a map from id to session.
pub open spec fn entries_map<S>(entries: Seq<(String, S)>) -> Map<Seq<char>, S> {
    Map::new(
        |id: Seq<char>| has_id(entries, id),
        |id: Seq<char>| entries[choose|i: int| 0 <= i < entries.len() && #[trigger] entries[i].0@ == id].1,
    )
}

proof fn lemma_entry_value<S>(entries: Seq<(String, S)>, i: int)
    requires
        ids_unique(entries),
        0 <= i < entries.len(),
    ensures
        entries_map(entries).contains_key(entries[i].0@),
        entries_map(entries)[entries[i].0@] == entries[i].1,
{
    let id = entries[i].0@;
    assert(has_id(entries, id));
    let j = choose|j: int| 0 <= j < entries.len() && #[trigger] entries[j].0@ == id;
    assert(entries[j].0@ == id);
}

proof fn lemma_remove_entry<S>(entries: Seq<(String, S)>, i: int)
    requires
        ids_unique(entries),
        0 <= i < entries.len(),
    ensures
        ids_unique(entries.remove(i)),
        entries_map(entries.remove(i)) == entries_map(entries).remove(entries[i].0@),
{
    let rest = entries.remove(i);
    let id = entries[i].0@;
    assert forall|a: int, b: int|
        0 <= a < rest.len() && 0 <= b < rest.len() && a != b implies #[trigger] rest[a].0@
        != #[trigger] rest[b].0@ by {
        let a0 = if a < i { a } else { a + 1 };
        let b0 = if b < i { b } else { b + 1 };
        assert(rest[a] == entries[a0]);
        assert(rest[b] == entries[b0]);
    }
    let m = entries_map(rest);
    let expected = entries_map(entries).remove(id);
    assert forall|k: Seq<char>| #[trigger] m.contains_key(k) <==> expected.contains_key(k) by {
        if m.contains_key(k) {
            let a = choose|a: int| 0 <= a < rest.len() && #[trigger] rest[a].0@ == k;
            let a0 = if a < i { a } else { a + 1 };
            assert(rest[a] == entries[a0]);
            assert(entries[a0].0@ == k);
            assert(has_id(entries, k));
        }
        if expected.contains_key(k) {
            let a0 = choose|a: int| 0 <= a < entries.len() && #[trigger] entries[a].0@ == k;
            assert(a0 != i);
            let a = if a0 < i { a0 } else { a0 - 1 };
            assert(rest[a] == entries[a0]);
            assert(rest[a].0@ == k);
        }
    }
    assert forall|k: Seq<char>| #[trigger] m.contains_key(k) implies m[k] == expected[k] by {
        let a = choose|a: int| 0 <= a < rest.len() && #[trigger] rest[a].0@ == k;
        let a0 = if a < i { a } else { a + 1 };
        assert(rest[a] == entries[a0]);
        lemma_entry_value(rest, a);
        lemma_entry_value(entries, a0);
    }
    assert(m =~= expected);
}

proof fn lemma_push_entry<S>(entries: Seq<(String, S)>, id: String, s: S)
    requires
        ids_unique(entries),
        !has_id(entries, id@),
    ensures
        ids_unique(entries.push((id, s))),
        entries_map(entries.push((id, s))) == entries_map(entries).insert(id@, s),
{
    let more = entries.push((id, s));
    assert forall|a: int, b: int|
        0 <= a < more.len() && 0 <= b < more.len() && a != b implies #[trigger] more[a].0@
        != #[trigger] more[b].0@ by {
        if a == entries.len() {
            assert(more[b] == entries[b]);
        } else if b == entries.len() {
            assert(more[a] == entries[a]);
        } else {
            assert(more[a] == entries[a]);
            assert(more[b] == entries[b]);
        }
    }
    let m = entries_map(more);
    let expected = entries_map(entries).insert(id@, s);
    assert forall|k: Seq<char>| #[trigger] m.contains_key(k) <==> expected.contains_key(k) by {
        if m.contains_key(k) && k != id@ {
            let a = choose|a: int| 0 <= a < more.len() && #[trigger] more[a].0@ == k;
            assert(a != entries.len());
            assert(more[a] == entries[a]);
            assert(has_id(entries, k));
        }
        if expected.contains_key(k) {
            if k == id@ {
                assert(more[entries.len() as int].0@ == k);
            } else {
                let a = choose|a: int| 0 <= a < entries.len() && #[trigger] entries[a].0@ == k;
                assert(more[a] == entries[a]);
            }
        }
    }
    assert forall|k: Seq<char>| #[trigger] m.contains_key(k) implies m[k] == expected[k] by {
        let a = choose|a: int| 0 <= a < more.len() && #[trigger] more[a].0@ == k;
        lemma_entry_value(more, a);
        if a < entries.len() {
            assert(more[a] == entries[a]);
            lemma_entry_value(entries, a);
        }
    }
    assert(m =~= expected);
}

impl<S> GDBManager<S> {
    #[verifier::type_invariant]
    spec fn well_formed(self) -> bool {
        ids_unique(self.sessions@)
    }

    /// The sessions, by id.
    pub closed spec fn spec_sessions(&self) -> Map<Seq<char>, S> {
        entries_map(self.sessions@)
    }

    /// A registry that holds no session.
    pub fn new() -> (m: GDBManager<S>)
        ensures
            m.spec_sessions() == Map::<Seq<char>, S>::empty(),
    {
        let m = GDBManager { sessions: Vec::new() };
        assert(m.spec_sessions() =~= Map::<Seq<char>, S>::empty());
        m
    }

    fn find(&self, id: &String) -> (r: Option<usize>)
        ensures
            r is None ==> !has_id(self.sessions@, id@),
            r matches Some(i) ==> i < self.sessions@.len() && self.sessions@[i as int].0@ == id@,
    {
        let mut i: usize = 0;
        while i < self.sessions.len()
            invariant
                i <= self.sessions@.len(),
                forall|j: int| 0 <= j < i ==> #[trigger] self.sessions@[j].0@ != id@,
            decreases self.sessions@.len() - i,
        {
            if self.sessions[i].0 == *id {
                return Some(i);
            }
            i = i + 1;
        }
        None
    }

    /// The session filed under `id`, if any.
    pub fn get_session(&self, id: &String) -> (r: Option<&S>)
        ensures
            r is Some <==> self.spec_sessions().contains_key(id@),
            r matches Some(s) ==> *s == self.spec_sessions()[id@],
    {
        proof {
            use_type_invariant(self);
        }
        match self.find(id) {
            Some(i) => {
                proof {
                    lemma_entry_value(self.sessions@, i as int);
                }
                Some(&self.sessions[i].1)
            },
            None => None,
        }
    }

    /// Files `session` under `id`; a session that was filed under `id`
    /// before is handed back.
    pub fn create_session(&mut self, id: String, session: S) -> (r: Option<S>)
        ensures
            final(self).spec_sessions() == old(self).spec_sessions().insert(id@, session),
            r is Some <==> old(self).spec_sessions().contains_key(id@),
            r matches Some(s) ==> s == old(self).spec_sessions()[id@],
    {
        proof {
            use_type_invariant(&*self);
        }
        let found = self.find(&id);
        match found {
            Some(i) => {
                let ghost before = self.sessions@;
                proof {
                    lemma_entry_value(before, i as int);
                    lemma_remove_entry(before, i as int);
                }
                let mut sessions = Vec::new();
                std::mem::swap(&mut sessions, &mut self.sessions);
                let old_entry = sessions.remove(i);
                proof {
                    let rest = before.remove(i as int);
                    assert(!has_id(rest, id@));
                    lemma_push_entry(rest, id, session);
                    assert(entries_map(before).remove(id@).insert(id@, session) =~= entries_map(
                        before,
                    ).insert(id@, session));
                }
                sessions.push((id, session));
                self.sessions = sessions;
                Some(old_entry.1)
            },
            None => {
                proof {
                    lemma_push_entry(self.sessions@, id, session);
                }
                let mut sessions = Vec::new();
                std::mem::swap(&mut sessions, &mut self.sessions);
                sessions.push((id, session));
                self.sessions = sessions;
                None
            },
        }
    }

    /// Takes the session filed under `id` out of the registry.
    pub fn close_session(&mut self, id: &String) -> (r: Option<S>)
        ensures
            final(self).spec_sessions() == old(self).spec_sessions().remove(id@),
            r is Some <==> old(self).spec_sessions().contains_key(id@),
            r matches Some(s) ==> s == old(self).spec_sessions()[id@],
    {
        proof {
            use_type_invariant(&*self);
        }
        match self.find(id) {
            Some(i) => {
                let ghost before = self.sessions@;
                proof {
                    lemma_entry_value(before, i as int);
                    lemma_remove_entry(before, i as int);
                }
                let mut sessions = Vec::new();
                std::mem::swap(&mut sessions, &mut self.sessions);
                let entry = sessions.remove(i);
                self.sessions = sessions;
                Some(entry.1)
            },
            None => {
                assert(old(self).spec_sessions().remove(id@) =~= old(self).spec_sessions());
                None
            },
        }
    }

    /// The ids of all sessions, each once.
    pub fn get_all_sessions(&self) -> (ids: Vec<String>)
        ensures
            ids.deep_view().no_duplicates(),
            forall|k: Seq<char>|
                #[trigger] ids.deep_view().contains(k) <==> self.spec_sessions().contains_key(k),
    {
        proof {
            use_type_invariant(self);
        }
        let mut ids: Vec<String> = Vec::new();
        let mut i: usize = 0;
        while i < self.sessions.len()
            invariant
                i <= self.sessions@.len(),
                ids_unique(self.sessions@),
                ids@.len() == i,
                forall|j: int| 0 <= j < i ==> #[trigger] ids@[j]@ == self.sessions@[j].0@,
            decreases self.sessions@.len() - i,
        {
            ids.push(self.sessions[i].0.clone());
            i = i + 1;
        }
        let ghost dv = ids.deep_view();
        assert forall|a: int, b: int| 0 <= a < dv.len() && 0 <= b < dv.len() && a != b implies dv[a]
            != dv[b] by {
            assert(dv[a] == self.sessions@[a].0@);
            assert(dv[b] == self.sessions@[b].0@);
        }
        assert forall|k: Seq<char>| #[trigger] dv.contains(k) <==> self.spec_sessions().contains_key(
            k,
        ) by {
            if dv.contains(k) {
                let a = choose|a: int| 0 <= a < dv.len() && dv[a] == k;
                assert(self.sessions@[a].0@ == k);
            }
            if self.spec_sessions().contains_key(k) {
                let a = choose|a: int| 0 <= a < self.sessions@.len() && #[trigger] self.sessions@[a].0@ == k;
                assert(dv[a] == k);
            }
        }
        ids
    }
}


/// A session reads back as it was filed, and filing it leaves every other
/// session as it was.
pub proof fn law_get_after_create<S>(
    before: GDBManager<S>,
    after: GDBManager<S>,
    id: Seq<char>,
    session: S,
    other: Seq<char>,
)
    requires
        after.spec_sessions() == before.spec_sessions().insert(id, session),
    ensures
        after.spec_sessions().contains_key(id),
        after.spec_sessions()[id] == session,
        other != id ==> (after.spec_sessions().contains_key(other) <==> before.spec_sessions().contains_key(other)),
        other != id && before.spec_sessions().contains_key(other) ==> after.spec_sessions()[other]
            == before.spec_sessions()[other],
{
}

/// A closed session is gone, and closing it leaves every other session as
/// it was.
pub proof fn law_get_after_close<S>(
    before: GDBManager<S>,
    after: GDBManager<S>,
    id: Seq<char>,
    other: Seq<char>,
)
    requires
        after.spec_sessions() == before.spec_sessions().remove(id),
    ensures
        !after.spec_sessions().contains_key(id),
        other != id ==> (after.spec_sessions().contains_key(other) <==> before.spec_sessions().contains_key(other)),
        other != id && before.spec_sessions().contains_key(other) ==> after.spec_sessions()[other]
            == before.spec_sessions()[other],
{
}

/// Closing a session that was just created under a new id gives back the
/// registry as it was before.
pub proof fn law_close_undoes_create<S>(
    before: GDBManager<S>,
    created: GDBManager<S>,
    closed: GDBManager<S>,
    id: Seq<char>,
    session: S,
)
    requires
        !before.spec_sessions().contains_key(id),
        created.spec_sessions() == before.spec_sessions().insert(id, session),
        closed.spec_sessions() == created.spec_sessions().remove(id),
    ensures
        closed.spec_sessions() == before.spec_sessions(),
{
    assert(closed.spec_sessions() =~= before.spec_sessions());
}

} // verus!

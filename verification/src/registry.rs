//! The shared session registry: a mapping from client identifier (the bytes
//! of a UTF-8 string) to the token of an open connection. Registration
//! replaces any earlier entry for the same identifier; lookup and removal
//! are plain map operations. The surrounding program holds one `Registry`
//! under a single exclusive lock, so the operations here never interleave.

use vstd::prelude::*;

use crate::text::bytes_eq;

verus! {

/// The mapping an entry list denotes: later entries win.
pub open spec fn entries_map(s: Seq<(Vec<u8>, u64)>) -> Map<Seq<u8>, u64>
    decreases s.len(),
{
    if s.len() == 0 {
        Map::empty()
    } else {
        entries_map(s.drop_last()).insert(s.last().0@, s.last().1)
    }
}

proof fn lemma_entries_map_dom(s: Seq<(Vec<u8>, u64)>)
    ensures
        forall|k: Seq<u8>|
            entries_map(s).contains_key(k) <==> (exists|i: int|
                0 <= i < s.len() && #[trigger] s[i].0@ == k),
    decreases s.len(),
{
    if s.len() > 0 {
        lemma_entries_map_dom(s.drop_last());
        assert forall|k: Seq<u8>| entries_map(s).contains_key(k) implies (exists|i: int|
            0 <= i < s.len() && #[trigger] s[i].0@ == k) by {
            if k == s.last().0@ {
                assert(s[s.len() - 1].0@ == k);
            } else {
                assert(entries_map(s.drop_last()).contains_key(k));
                let i = choose|i: int| 0 <= i < s.drop_last().len() && #[trigger] s.drop_last()[i].0@
                    == k;
                assert(s.drop_last()[i] == s[i]);
                assert(s[i].0@ == k);
            }
        }
        assert forall|k: Seq<u8>|
            (exists|i: int| 0 <= i < s.len() && #[trigger] s[i].0@ == k) implies entries_map(
            s,
        ).contains_key(k) by {
            let i = choose|i: int| 0 <= i < s.len() && #[trigger] s[i].0@ == k;
            if i < s.len() - 1 {
                assert(s.drop_last()[i].0@ == k);
                assert(entries_map(s.drop_last()).contains_key(k));
            }
        }
    }
}

/// Unique keys: no identifier occurs twice in the entry list.
pub open spec fn unique_keys(s: Seq<(Vec<u8>, u64)>) -> bool {
    forall|i: int, j: int| 0 <= i < j < s.len() ==> s[i].0@ != s[j].0@
}

proof fn lemma_entries_map_at(s: Seq<(Vec<u8>, u64)>, i: int)
    requires
        unique_keys(s),
        0 <= i < s.len(),
    ensures
        entries_map(s).contains_key(s[i].0@),
        entries_map(s)[s[i].0@] == s[i].1,
    decreases s.len(),
{
    lemma_entries_map_dom(s);
    if i < s.len() - 1 {
        assert(s[i].0@ != s.last().0@);
        lemma_entries_map_at(s.drop_last(), i);
        assert(s.drop_last()[i] == s[i]);
    }
}

proof fn lemma_entries_map_push(s: Seq<(Vec<u8>, u64)>, e: (Vec<u8>, u64))
    ensures
        entries_map(s.push(e)) == entries_map(s).insert(e.0@, e.1),
{
    assert(s.push(e).drop_last() =~= s);
    assert(s.push(e).last() == e);
}

proof fn lemma_entries_map_remove(s: Seq<(Vec<u8>, u64)>, i: int)
    requires
        unique_keys(s),
        0 <= i < s.len(),
    ensures
        entries_map(s.remove(i)) =~= entries_map(s).remove(s[i].0@),
    decreases s.len(),
{
    lemma_entries_map_dom(s.drop_last());
    if i == s.len() - 1 {
        assert(s.remove(i) =~= s.drop_last());
        assert(!entries_map(s.drop_last()).contains_key(s.last().0@));
    } else {
        assert(s.remove(i).drop_last() =~= s.drop_last().remove(i));
        assert(s.remove(i).last() == s.last());
        lemma_entries_map_remove(s.drop_last(), i);
        assert(s.drop_last()[i] == s[i]);
        assert(s[i].0@ != s.last().0@);
    }
}

proof fn lemma_entries_map_len(s: Seq<(Vec<u8>, u64)>)
    requires
        unique_keys(s),
    ensures
        entries_map(s).dom().finite(),
        entries_map(s).dom().len() == s.len(),
    decreases s.len(),
{
    if s.len() > 0 {
        lemma_entries_map_len(s.drop_last());
        lemma_entries_map_dom(s.drop_last());
        assert(!entries_map(s.drop_last()).contains_key(s.last().0@));
    }
}

/// The identifier-to-connection mapping used to route messages. Keys are the
/// bytes of client identifiers; values are connection tokens chosen by the
/// surrounding program, one per accepted connection.
pub struct Registry {
    entries: Vec<(Vec<u8>, u64)>,
}

impl View for Registry {
    type V = Map<Seq<u8>, u64>;

    closed spec fn view(&self) -> Map<Seq<u8>, u64> {
        entries_map(self.entries@)
    }
}

impl Registry {
    /// At most one entry per identifier at any instant.
    pub closed spec fn wf(&self) -> bool {
        unique_keys(self.entries@)
    }

    /// An empty registry.
    pub fn new() -> (r: Registry)
        ensures
            r.wf(),
            r@ == Map::<Seq<u8>, u64>::empty(),
    {
        Registry { entries: Vec::new() }
    }

    fn find_index(&self, id: &Vec<u8>) -> (r: Option<usize>)
        ensures
            match r {
                Some(i) => i < self.entries@.len() && self.entries@[i as int].0@ == id@,
                None => forall|i: int| 0 <= i < self.entries@.len() ==> self.entries@[i].0@ != id@,
            },
    {
        let mut i: usize = 0;
        while i < self.entries.len()
            invariant
                i <= self.entries@.len(),
                forall|k: int| 0 <= k < i ==> self.entries@[k].0@ != id@,
            decreases self.entries@.len() - i,
        {
            if bytes_eq(&self.entries[i].0, id) {
                return Some(i);
            }
            i = i + 1;
        }
        None
    }

    /// Inserts or replaces the mapping for `id`. Always succeeds; any
    /// earlier connection token for that identifier is discarded.
    pub fn register(&mut self, id: Vec<u8>, conn: u64)
        requires
            old(self).wf(),
        ensures
            final(self).wf(),
            final(self)@ == old(self)@.insert(id@, conn),
    {
        let ghost s0 = self.entries@;
        match self.find_index(&id) {
            Some(i) => {
                proof {
                    lemma_entries_map_remove(s0, i as int);
                }
                self.entries.remove(i);
            },
            None => {
                proof {
                    lemma_entries_map_dom(s0);
                    assert(entries_map(s0).remove(id@) =~= entries_map(s0));
                }
            },
        }
        let ghost s1 = self.entries@;
        proof {
            lemma_entries_map_push(s1, (id, conn));
            assert(entries_map(s1) == entries_map(s0).remove(id@));
            assert(entries_map(s0).remove(id@).insert(id@, conn) =~= entries_map(s0).insert(
                id@,
                conn,
            ));
        }
        self.entries.push((id, conn));
    }

    /// The connection token registered for `id`, or nothing when `id` is not
    /// registered.
    pub fn lookup(&self, id: &Vec<u8>) -> (r: Option<u64>)
        requires
            self.wf(),
        ensures
            match r {
                Some(c) => self@.contains_key(id@) && self@[id@] == c,
                None => !self@.contains_key(id@),
            },
    {
        proof {
            lemma_entries_map_dom(self.entries@);
        }
        match self.find_index(id) {
            Some(i) => {
                proof {
                    lemma_entries_map_at(self.entries@, i as int);
                }
                Some(self.entries[i].1)
            },
            None => None,
        }
    }

    /// Removes the mapping for `id` if present; does nothing when absent.
    pub fn unregister(&mut self, id: &Vec<u8>)
        requires
            old(self).wf(),
        ensures
            final(self).wf(),
            final(self)@ == old(self)@.remove(id@),
    {
        let ghost s0 = self.entries@;
        match self.find_index(id) {
            Some(i) => {
                proof {
                    lemma_entries_map_remove(s0, i as int);
                }
                self.entries.remove(i);
            },
            None => {
                proof {
                    lemma_entries_map_dom(s0);
                    assert(entries_map(s0).remove(id@) =~= entries_map(s0));
                }
            },
        }
    }

    /// Registration is visible until revoked: after `register(id, c)`,
    /// `lookup(id)` returns `c`; registering or unregistering any other
    /// identifier leaves that unchanged; a later `register(id, c2)`
    /// replaces the entry, and `unregister(id)` removes it. Stated over
    /// the registry's map model, which `register`, `lookup` and
    /// `unregister` are proved to follow.
    pub proof fn lemma_register_lookup(
        m: Map<Seq<u8>, u64>,
        id: Seq<u8>,
        c: u64,
        other: Seq<u8>,
        c2: u64,
    )
        requires
            other != id,
        ensures
            m.insert(id, c).contains_key(id),
            m.insert(id, c)[id] == c,
            m.insert(id, c).insert(other, c2)[id] == c,
            m.insert(id, c).remove(other)[id] == c,
            m.insert(id, c).insert(id, c2)[id] == c2,
            !m.insert(id, c).remove(id).contains_key(id),
    {
    }

    /// Registrations of two distinct identifiers commute: whichever order
    /// the two sessions reach the registry in, it ends with both entries,
    /// each under its own identifier; starting from empty it holds exactly
    /// those two.
    pub proof fn lemma_distinct_registrations(
        m: Map<Seq<u8>, u64>,
        a: Seq<u8>,
        ca: u64,
        b: Seq<u8>,
        cb: u64,
    )
        requires
            a != b,
        ensures
            m.insert(a, ca).insert(b, cb) == m.insert(b, cb).insert(a, ca),
            m.insert(a, ca).insert(b, cb)[a] == ca,
            m.insert(a, ca).insert(b, cb)[b] == cb,
            Map::<Seq<u8>, u64>::empty().insert(a, ca).insert(b, cb).dom() == set![a, b],
    {
        assert(m.insert(a, ca).insert(b, cb) =~= m.insert(b, cb).insert(a, ca));
        assert(Map::<Seq<u8>, u64>::empty().insert(a, ca).insert(b, cb).dom() =~= set![a, b]);
    }

    /// One session's end touches only its own entry: removing one
    /// identifier leaves every other identifier's registration exactly as
    /// it was, so one connection's failure never unregisters another.
    pub proof fn lemma_remove_isolates(m: Map<Seq<u8>, u64>, id: Seq<u8>, other: Seq<u8>)
        requires
            other != id,
        ensures
            m.remove(id).contains_key(other) == m.contains_key(other),
            m.contains_key(other) ==> m.remove(id)[other] == m[other],
    {
    }

    /// How many identifiers are registered.
    pub fn count(&self) -> (r: usize)
        requires
            self.wf(),
        ensures
            r == self@.dom().len(),
    {
        proof {
            lemma_entries_map_len(self.entries@);
        }
        self.entries.len()
    }
}

} // verus!

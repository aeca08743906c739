//! The per-surface connection registry of the stream relay: each UI surface
//! owns at most one active streaming connection, identified by a process-wide
//! monotonically increasing id.  A newer connect for the same surface
//! supersedes the older connection, which observes the change cooperatively.

use vstd::prelude::*;

verus! {

/// No two entries name the same surface.
pub open spec fn keys_unique(s: Seq<(String, u64)>) -> bool {
    forall|i: int, j: int| 0 <= i < j < s.len() ==> s[i].0@ != s[j].0@
}

/// The mapping from surface to active connection id that a sequence of
/// entries denotes.
pub open spec fn entries_map(s: Seq<(String, u64)>) -> Map<Seq<char>, u64>
    decreases s.len(),
{
    if s.len() == 0 {
        Map::empty()
    } else {
        entries_map(s.drop_last()).insert(s.last().0@, s.last().1)
    }
}

/// Registry of active streaming connections, one entry per surface.  The
/// caller serializes access; the registry decides which connection id is the
/// active one for each surface.
pub struct ConnectionRegistry {
    next_id: u64,
    active: Vec<(String, u64)>,
}

impl View for ConnectionRegistry {
    type V = Map<Seq<char>, u64>;

    closed spec fn view(&self) -> Map<Seq<char>, u64> {
        entries_map(self.active@)
    }
}

proof fn lemma_entries_map_index(s: Seq<(String, u64)>, i: int)
    requires
        keys_unique(s),
        0 <= i < s.len(),
    ensures
        entries_map(s).contains_key(s[i].0@),
        entries_map(s)[s[i].0@] == s[i].1,
    decreases s.len(),
{
    if i == s.len() - 1 {
    } else {
        assert(s[i].0@ != s.last().0@);
        assert(keys_unique(s.drop_last()));
        assert(s.drop_last()[i] == s[i]);
        lemma_entries_map_index(s.drop_last(), i);
    }
}

proof fn lemma_entries_map_absent(s: Seq<(String, u64)>, k: Seq<char>)
    requires
        forall|i: int| 0 <= i < s.len() ==> s[i].0@ != k,
    ensures
        !entries_map(s).contains_key(k),
    decreases s.len(),
{
    if s.len() > 0 {
        assert(forall|i: int| 0 <= i < s.drop_last().len() ==> s.drop_last()[i] == s[i]);
        lemma_entries_map_absent(s.drop_last(), k);
        assert(s.last().0@ != k);
    }
}

proof fn lemma_remove_structure(s: Seq<(String, u64)>, i: int)
    requires
        0 <= i < s.len(),
    ensures
        s.remove(i).len() == s.len() - 1,
        forall|j: int|
            0 <= j < s.remove(i).len() ==> s.remove(i)[j] == (if j < i {
                s[j]
            } else {
                s[j + 1]
            }),
{
    assert forall|j: int| 0 <= j < s.remove(i).len() implies s.remove(i)[j] == (if j < i {
        s[j]
    } else {
        s[j + 1]
    }) by {
        assert(s.remove(i) == s.subrange(0, i) + s.subrange(i + 1, s.len() as int));
    }
}

proof fn lemma_entries_map_remove(s: Seq<(String, u64)>, i: int)
    requires
        keys_unique(s),
        0 <= i < s.len(),
    ensures
        keys_unique(s.remove(i)),
        forall|j: int| 0 <= j < s.remove(i).len() ==> s.remove(i)[j].0@ != s[i].0@,
        entries_map(s.remove(i)) == entries_map(s).remove(s[i].0@),
    decreases s.len(),
{
    lemma_remove_structure(s, i);
    let k = s[i].0@;
    if i == s.len() - 1 {
        assert(s.remove(i) =~= s.drop_last());
        assert(forall|j: int| 0 <= j < s.drop_last().len() ==> s.drop_last()[j].0@ != k);
        lemma_entries_map_absent(s.drop_last(), k);
        assert(entries_map(s.drop_last()).insert(k, s[i].1).remove(k) =~= entries_map(
            s.drop_last(),
        ));
    } else {
        let t = s.remove(i);
        let dl = s.drop_last();
        assert(keys_unique(dl));
        assert(dl[i] == s[i]);
        lemma_entries_map_remove(dl, i);
        assert(t.last() == s.last());
        assert(t.drop_last() =~= dl.remove(i)) by {
            lemma_remove_structure(dl, i);
        }
        assert(entries_map(t) == entries_map(dl).remove(k).insert(s.last().0@, s.last().1));
        assert(s.last().0@ != k);
        assert(entries_map(dl).remove(k).insert(s.last().0@, s.last().1) =~= entries_map(
            dl,
        ).insert(s.last().0@, s.last().1).remove(k));
    }
}

impl ConnectionRegistry {
    /// Entries name distinct surfaces, and no stored id exceeds the counter.
    pub closed spec fn wf(&self) -> bool {
        keys_unique(self.active@) && (forall|i: int|
            0 <= i < self.active@.len() ==> self.active@[i].1 <= self.next_id)
    }

    /// The highest connection id handed out so far; later connections always
    /// receive strictly larger ids, so an id is never reused.
    pub closed spec fn id_bound(&self) -> u64 {
        self.next_id
    }

    /// An empty registry: no surface has an active connection.
    pub fn new() -> (r: Self)
        ensures
            r.wf(),
            r@ == Map::<Seq<char>, u64>::empty(),
            r.id_bound() == 0,
    {
        let r = ConnectionRegistry { next_id: 0, active: Vec::new() };
        proof {
            assert(r.active@.len() == 0);
        }
        r
    }

    /// The position of a surface's entry, if it has one.
    fn find(&self, surface: &String) -> (r: Option<usize>)
        ensures
            match r {
                Option::Some(i) => i < self.active@.len() && self.active@[i as int].0@
                    == surface@,
                Option::None => forall|j: int|
                    0 <= j < self.active@.len() ==> self.active@[j].0@ != surface@,
            },
    {
        let mut j: usize = 0;
        while j < self.active.len()
            invariant
                j <= self.active@.len(),
                forall|t: int| 0 <= t < j ==> self.active@[t].0@ != surface@,
            decreases self.active@.len() - j,
        {
            if self.active[j].0 == *surface {
                return Some(j);
            }
            j += 1;
        }
        None
    }

    /// Accepts a connect request: allocates the next connection id and makes
    /// it the sole active connection for the surface, superseding any entry
    /// the surface had before.  Connections for other surfaces are
    /// untouched.
    pub fn connect(&mut self, surface: &String) -> (id: u64)
        requires
            old(self).wf(),
            old(self).id_bound() < u64::MAX,
        ensures
            final(self).wf(),
            id == old(self).id_bound() + 1,
            final(self).id_bound() == id,
            final(self)@ == old(self)@.insert(surface@, id),
    {
        self.next_id = self.next_id + 1;
        let id = self.next_id;
        let ghost s0 = self.active@;
        match self.find(surface) {
            Some(i) => {
                proof {
                    lemma_entries_map_remove(s0, i as int);
                }
                self.active.remove(i);
                proof {
                    assert(entries_map(self.active@) == entries_map(s0).remove(surface@));
                }
            },
            None => {
                proof {
                    lemma_entries_map_absent(s0, surface@);
                    assert(entries_map(s0).remove(surface@) =~= entries_map(s0));
                }
            },
        }
        let ghost s1 = self.active@;
        proof {
            assert(forall|j: int| 0 <= j < s1.len() ==> s1[j].0@ != surface@);
            assert(keys_unique(s1));
            assert(forall|j: int| 0 <= j < s1.len() ==> s1[j].1 <= self.next_id);
            assert(entries_map(s1) == entries_map(s0).remove(surface@));
        }
        let key = surface.clone();
        let ghost gk = key@;
        proof {
            assert(gk == surface@);
        }
        self.active.push((key, id));
        proof {
            assert(self.active@.drop_last() =~= s1);
            assert(self.active@.last().0@ == surface@ && self.active@.last().1 == id);
            assert(entries_map(self.active@) == entries_map(s1).insert(surface@, id));
            assert(entries_map(s0).remove(surface@).insert(surface@, id) =~= entries_map(
                s0,
            ).insert(surface@, id));
            assert forall|i: int, j: int| 0 <= i < j < self.active@.len() implies self.active@[i].0@
                != self.active@[j].0@ by {
                if j == self.active@.len() - 1 {
                    assert(self.active@[i] == s1[i]);
                }
            }
        }
        id
    }

    /// Clears the active connection for a surface, if any: idempotent, and
    /// a no-op when nothing is active.  The in-flight read loop of a cleared
    /// connection observes the change at its next activity check.
    pub fn disconnect(&mut self, surface: &String)
        requires
            old(self).wf(),
        ensures
            final(self).wf(),
            final(self).id_bound() == old(self).id_bound(),
            final(self)@ == old(self)@.remove(surface@),
    {
        let ghost s0 = self.active@;
        match self.find(surface) {
            Some(i) => {
                proof {
                    lemma_entries_map_remove(s0, i as int);
                    lemma_remove_structure(s0, i as int);
                }
                self.active.remove(i);
            },
            None => {
                proof {
                    lemma_entries_map_absent(s0, surface@);
                    assert(entries_map(s0).remove(surface@) =~= entries_map(s0));
                }
            },
        }
    }

    /// Whether the given connection id is still the active one for the
    /// surface.  A relay read loop consults this before every read and
    /// terminates cooperatively once superseded or disconnected.
    pub fn is_active(&self, surface: &String, conn_id: u64) -> (b: bool)
        requires
            self.wf(),
        ensures
            b == (self@.contains_key(surface@) && self@[surface@] == conn_id),
    {
        match self.find(surface) {
            Some(i) => {
                proof {
                    lemma_entries_map_index(self.active@, i as int);
                }
                self.active[i].1 == conn_id
            },
            None => {
                proof {
                    lemma_entries_map_absent(self.active@, surface@);
                }
                false
            },
        }
    }

    /// How many connection ids have been handed out; the caller checks this
    /// against the id space before asking for another connection.
    pub fn ids_handed_out(&self) -> (n: u64)
        ensures
            n == self.id_bound(),
    {
        self.next_id
    }

    /// Every active connection id was handed out by this registry: none
    /// exceeds the id counter.
    pub proof fn lemma_ids_bounded(&self, k: Seq<char>)
        requires
            self.wf(),
            self@.contains_key(k),
        ensures
            self@[k] <= self.id_bound(),
    {
        let s = self.active@;
        if !(exists|i: int| 0 <= i < s.len() && s[i].0@ == k) {
            lemma_entries_map_absent(s, k);
        }
        let i = choose|i: int| 0 <= i < s.len() && s[i].0@ == k;
        lemma_entries_map_index(s, i);
    }
}

/// Per surface, at most one connection is active at any instant: two ids
/// both observed active for the same surface are the same id.
pub proof fn lemma_at_most_one_active(
    r: ConnectionRegistry,
    surface: Seq<char>,
    id1: u64,
    id2: u64,
)
    requires
        r@.contains_key(surface),
        r@[surface] == id1,
        r@[surface] == id2,
    ensures
        id1 == id2,
{
}

/// A connect supersedes the surface's previous connection: the new id is
/// strictly larger than every id the registry ever handed out before, so
/// the superseded connection's id is no longer active and never comes back.
pub proof fn lemma_connect_supersedes(
    r0: ConnectionRegistry,
    r1: ConnectionRegistry,
    surface: Seq<char>,
    prev: u64,
    id: u64,
)
    requires
        r0.wf(),
        r0@.contains_key(surface),
        r0@[surface] == prev,
        id == r0.id_bound() + 1,
        r1@ == r0@.insert(surface, id),
    ensures
        r1@[surface] == id,
        prev != id,
        !(r1@.contains_key(surface) && r1@[surface] == prev),
{
    r0.lemma_ids_bounded(surface);
}

} // verus!

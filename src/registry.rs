//! The directory of live sessions, keyed by identifier.

use vstd::prelude::*;

verus! {

/// What a listing says of one session.
pub struct SessionInfo {
    pub id: String,
}

struct Entry<T> {
    id: String,
    generation: u64,
    session: T,
}

/// Live sessions by identifier; each identifier appears at most once. Each
/// registration gets a generation number never given before, so that a
/// registration can be told apart from a later one under the same
/// identifier.
pub struct SessionRegistry<T> {
    entries: Vec<Entry<T>>,
    next_generation: u64,
}

impl<T> View for SessionRegistry<T> {
    /// Each identifier's generation and session.
    type V = Map<Seq<char>, (u64, T)>;

    closed spec fn view(&self) -> Map<Seq<char>, (u64, T)> {
        Map::new(
            |k: Seq<char>| exists|i: int| 0 <= i < self.entries@.len() && self.entries@[i].id@ == k,
            |k: Seq<char>|
                {
                    let i = choose|i: int| 0 <= i < self.entries@.len() && self.entries@[i].id@ == k;
                    (self.entries@[i].generation, self.entries@[i].session)
                },
        )
    }
}

impl<T> SessionRegistry<T> {
    /// The generation the next registration gets.
    pub closed spec fn next_generation(&self) -> u64 {
        self.next_generation
    }

    pub closed spec fn entries_wf(&self) -> bool {
        &&& forall|i: int, j: int|
            0 <= i < self.entries@.len() && 0 <= j < self.entries@.len() && i != j
                ==> #[trigger] self.entries@[i].id@ != #[trigger] self.entries@[j].id@
        &&& forall|i: int|
            0 <= i < self.entries@.len() ==> #[trigger] self.entries@[i].generation
                < self.next_generation
    }

    /// Every registration has a generation given before the next one.
    pub open spec fn wf(&self) -> bool {
        &&& self.entries_wf()
        &&& forall|k: Seq<char>| #[trigger] self@.contains_key(k) ==> self@[k].0 < self.next_generation()
    }

    proof fn lemma_view_at(&self, i: int)
        requires
            self.entries_wf(),
            0 <= i < self.entries@.len(),
        ensures
            self@.contains_key(self.entries@[i].id@),
            self@[self.entries@[i].id@] == (self.entries@[i].generation, self.entries@[i].session),
    {
        let k = self.entries@[i].id@;
        assert(exists|j: int| 0 <= j < self.entries@.len() && self.entries@[j].id@ == k);
        let j = choose|j: int| 0 <= j < self.entries@.len() && self.entries@[j].id@ == k;
        assert(i == j);
    }

    proof fn lemma_view_key(&self, k: Seq<char>) -> (i: int)
        requires
            self.entries_wf(),
            self@.contains_key(k),
        ensures
            0 <= i < self.entries@.len(),
            self.entries@[i].id@ == k,
    {
        choose|i: int| 0 <= i < self.entries@.len() && self.entries@[i].id@ == k
    }

    proof fn lemma_wf(&self)
        requires
            self.entries_wf(),
        ensures
            self.wf(),
    {
        assert forall|k: Seq<char>| #[trigger] self@.contains_key(k) implies self@[k].0
            < self.next_generation() by {
            let i = self.lemma_view_key(k);
            self.lemma_view_at(i);
        }
    }

    pub fn new() -> (r: SessionRegistry<T>)
        ensures
            r.wf(),
            r@ == Map::<Seq<char>, (u64, T)>::empty(),
            r.next_generation() == 0,
    {
        let r = SessionRegistry { entries: Vec::new(), next_generation: 0 };
        assert(r@ =~= Map::<Seq<char>, (u64, T)>::empty());
        r
    }

    fn find(&self, id: &String) -> (r: Option<usize>)
        requires
            self.entries_wf(),
        ensures
            r matches Some(i) ==> i < self.entries@.len() && self.entries@[i as int].id@ == id@,
            r is None ==> !self@.contains_key(id@),
    {
        let mut i: usize = 0;
        while i < self.entries.len()
            invariant
                i <= self.entries@.len(),
                forall|j: int| 0 <= j < i ==> self.entries@[j].id@ != id@,
            decreases self.entries@.len() - i,
        {
            if self.entries[i].id == *id {
                return Some(i);
            }
            i = i + 1;
        }
        None
    }

    /// Whether another registration can be given a fresh generation.
    pub fn can_register(&self) -> (r: bool)
        ensures
            r == (self.next_generation() < u64::MAX),
    {
        self.next_generation < u64::MAX
    }

    /// Registers `session` under `id` and returns its generation. A session
    /// already registered under that identifier is taken out and handed
    /// back, so that its owner can shut it down.
    pub fn create_session(&mut self, id: String, session: T) -> (r: (u64, Option<T>))
        requires
            old(self).wf(),
            old(self).next_generation() < u64::MAX,
        ensures
            final(self).wf(),
            r.0 == old(self).next_generation(),
            final(self).next_generation() == old(self).next_generation() + 1,
            final(self)@ == old(self)@.insert(id@, (r.0, session)),
            r.1 is Some <==> old(self)@.contains_key(id@),
            r.1 matches Some(prev) ==> prev == old(self)@[id@].1,
    {
        let ghost before = *self;
        let ghost key = id@;
        let ghost value = session;
        let generation = self.next_generation;
        let ghost mut pos: int = 0;
        let entry = Entry { id, generation, session };
        let prev = match self.find(&entry.id) {
            Some(i) => {
                proof {
                    before.lemma_view_at(i as int);
                    pos = i as int;
                }
                let old_entry = self.entries.remove(i);
                self.entries.insert(i, entry);
                Some(old_entry.session)
            },
            None => {
                proof {
                    pos = self.entries@.len() as int;
                }
                self.entries.push(entry);
                None
            },
        };
        self.next_generation = generation + 1;
        assert(self.entries@[pos].id@ == key);
        assert(forall|j: int| 0 <= j < self.entries@.len() && self.entries@[j].id@ != key
            ==> j < before.entries@.len() && #[trigger] self.entries@[j] == before.entries@[j]);
        assert(self.entries_wf());
        let ghost expected = before@.insert(key, (generation, value));
        assert forall|k: Seq<char>| #[trigger] self@.contains_key(k) implies expected.contains_key(k)
            && self@[k] == expected[k] by {
            let j = self.lemma_view_key(k);
            self.lemma_view_at(j);
            if k != key {
                before.lemma_view_at(j);
            }
        }
        assert forall|k: Seq<char>| #[trigger] expected.contains_key(k) implies self@.contains_key(k) by {
            if k == key {
                self.lemma_view_at(pos);
            } else {
                let j = before.lemma_view_key(k);
                self.lemma_view_at(j);
            }
        }
        assert(self@ =~= expected);
        proof {
            self.lemma_wf();
        }
        (generation, prev)
    }

    /// The session registered under `id`, if any.
    pub fn get_session(&self, id: &str) -> (r: Option<&T>)
        requires
            self.wf(),
        ensures
            r is Some <==> self@.contains_key(id@),
            r matches Some(s) ==> *s == self@[id@].1,
    {
        let key = id.to_owned();
        match self.find(&key) {
            Some(i) => {
                proof {
                    self.lemma_view_at(i as int);
                }
                Some(&self.entries[i].session)
            },
            None => None,
        }
    }

    /// One entry per registered session, in no particular order.
    pub fn list_sessions(&self) -> (r: Vec<SessionInfo>)
        requires
            self.wf(),
        ensures
            forall|i: int| 0 <= i < r@.len() ==> self@.contains_key(#[trigger] r@[i].id@),
            forall|k: Seq<char>| #[trigger] self@.contains_key(k) ==> exists|i: int|
                0 <= i < r@.len() && r@[i].id@ == k,
            forall|i: int, j: int|
                0 <= i < r@.len() && 0 <= j < r@.len() && i != j ==> #[trigger] r@[i].id@
                    != #[trigger] r@[j].id@,
    {
        let mut out: Vec<SessionInfo> = Vec::new();
        let mut i: usize = 0;
        while i < self.entries.len()
            invariant
                self.wf(),
                i <= self.entries@.len(),
                out@.len() == i,
                forall|j: int| 0 <= j < i ==> #[trigger] out@[j].id@ == self.entries@[j].id@,
            decreases self.entries@.len() - i,
        {
            out.push(SessionInfo { id: self.entries[i].id.clone() });
            i = i + 1;
        }
        proof {
            assert forall|j: int| 0 <= j < out@.len() implies self@.contains_key(#[trigger] out@[j].id@) by {
                self.lemma_view_at(j);
            }
            assert forall|k: Seq<char>| #[trigger] self@.contains_key(k) implies exists|j: int|
                0 <= j < out@.len() && out@[j].id@ == k by {
                let j = self.lemma_view_key(k);
                assert(out@[j].id@ == k);
            }
        }
        out
    }

    /// Takes the entry at `i` out, keeping the other entries in order.
    fn take_at(&mut self, i: usize) -> (r: T)
        requires
            old(self).entries_wf(),
            i < old(self).entries@.len(),
        ensures
            final(self).wf(),
            final(self).next_generation() == old(self).next_generation(),
            final(self)@ == old(self)@.remove(old(self).entries@[i as int].id@),
            r == old(self)@[old(self).entries@[i as int].id@].1,
    {
        let ghost before = *self;
        let ghost key = self.entries@[i as int].id@;
        proof {
            before.lemma_view_at(i as int);
        }
        let e = self.entries.remove(i);
        assert(self.entries_wf()) by {
            assert forall|a: int, b: int|
                0 <= a < self.entries@.len() && 0 <= b < self.entries@.len() && a != b
                implies #[trigger] self.entries@[a].id@ != #[trigger] self.entries@[b].id@ by {
                let a0 = if a < i { a } else { a + 1 };
                let b0 = if b < i { b } else { b + 1 };
                assert(self.entries@[a] == before.entries@[a0]);
                assert(self.entries@[b] == before.entries@[b0]);
            }
            assert forall|a: int| 0 <= a < self.entries@.len() implies #[trigger] self.entries@[a].generation
                < self.next_generation by {
                let a0 = if a < i { a } else { a + 1 };
                assert(self.entries@[a] == before.entries@[a0]);
            }
        }
        let ghost expected = before@.remove(key);
        assert forall|k: Seq<char>| #[trigger] self@.contains_key(k) implies expected.contains_key(k)
            && self@[k] == expected[k] by {
            let j = self.lemma_view_key(k);
            self.lemma_view_at(j);
            let j0 = if j < i { j } else { j + 1 };
            assert(self.entries@[j] == before.entries@[j0]);
            before.lemma_view_at(j0);
        }
        assert forall|k: Seq<char>| #[trigger] expected.contains_key(k) implies self@.contains_key(k) by {
            let j0 = before.lemma_view_key(k);
            let j = if j0 < i { j0 } else { j0 - 1 };
            assert(self.entries@[j] == before.entries@[j0]);
            self.lemma_view_at(j);
        }
        assert(self@ =~= expected);
        proof {
            self.lemma_wf();
        }
        e.session
    }

    /// Takes the session registered under `id` out of the directory,
    /// whatever its generation.
    pub fn remove_session(&mut self, id: &str) -> (r: Option<T>)
        requires
            old(self).wf(),
        ensures
            final(self).wf(),
            final(self).next_generation() == old(self).next_generation(),
            final(self)@ == old(self)@.remove(id@),
            r is Some <==> old(self)@.contains_key(id@),
            r matches Some(prev) ==> prev == old(self)@[id@].1,
    {
        let key = id.to_owned();
        match self.find(&key) {
            Some(i) => Some(self.take_at(i)),
            None => {
                assert(self@ =~= old(self)@.remove(id@));
                None
            },
        }
    }

    /// Takes the session registered under `id` out only if it is the
    /// registration of the given generation; a later registration under the
    /// same identifier is left in place.
    pub fn remove_generation(&mut self, id: &str, generation: u64) -> (r: Option<T>)
        requires
            old(self).wf(),
        ensures
            final(self).wf(),
            final(self).next_generation() == old(self).next_generation(),
            r is Some <==> (old(self)@.contains_key(id@) && old(self)@[id@].0 == generation),
            r is Some ==> final(self)@ == old(self)@.remove(id@),
            r is None ==> final(self)@ == old(self)@,
            r matches Some(prev) ==> prev == old(self)@[id@].1,
    {
        let key = id.to_owned();
        match self.find(&key) {
            Some(i) => {
                proof {
                    self.lemma_view_at(i as int);
                }
                if self.entries[i].generation == generation {
                    Some(self.take_at(i))
                } else {
                    None
                }
            },
            None => None,
        }
    }
}

/// A generation handed out before a registration is never the generation
/// of that registration, so removing by the older generation leaves the
/// newer registration in place.
pub proof fn lemma_stale_generation_spares_successor<T>(
    before: SessionRegistry<T>,
    after: SessionRegistry<T>,
    id: Seq<char>,
    stale: u64,
    fresh: u64,
    session: T,
)
    requires
        stale < before.next_generation(),
        fresh == before.next_generation(),
        after@ == before@.insert(id, (fresh, session)),
    ensures
        after@.contains_key(id),
        after@[id].0 != stale,
{
}

} // verus!

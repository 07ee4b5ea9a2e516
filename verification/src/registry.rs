//! Connections kept by the server, keyed by a connection number (before a
//! client has authenticated) or by the client's id.

use vstd::prelude::*;

verus! {

/// Connections that have done the handshake but not authenticated yet. Each
/// gets a number that was never handed out before.
#[derive(Debug)]
pub struct UnauthedConnections<C> {
    pub next_id: usize,
    pub inner: Vec<(usize, C)>,
}

/// Numbers of a list of connections.
pub open spec fn conn_ids<C>(v: Seq<(usize, C)>) -> Seq<usize> {
    v.map_values(|e: (usize, C)| e.0)
}

/// The characters of each string.
pub open spec fn string_views(v: Seq<String>) -> Seq<Seq<char>> {
    v.map_values(|s: String| s@)
}

/// The entries of `v` whose elapsed time, at the same position in
/// `elapsed`, is at most `limit`, in their order.
pub open spec fn fresh_entries<T>(v: Seq<T>, elapsed: Seq<u64>, limit: u64) -> Seq<T>
    decreases v.len(),
{
    if v.len() == 0 {
        Seq::<T>::empty()
    } else {
        (if elapsed[0] > limit {
            Seq::<T>::empty()
        } else {
            seq![v[0]]
        }) + fresh_entries(v.drop_first(), elapsed.drop_first(), limit)
    }
}

/// The entries of `v` whose elapsed time exceeds `limit`, in their order.
pub open spec fn stale_entries<T>(v: Seq<T>, elapsed: Seq<u64>, limit: u64) -> Seq<T>
    decreases v.len(),
{
    if v.len() == 0 {
        Seq::<T>::empty()
    } else {
        (if elapsed[0] > limit {
            seq![v[0]]
        } else {
            Seq::<T>::empty()
        }) + stale_entries(v.drop_first(), elapsed.drop_first(), limit)
    }
}

/// A sweep neither loses nor invents entries: every entry is either kept
/// or removed.
pub proof fn law_sweep_partitions<T>(v: Seq<T>, elapsed: Seq<u64>, limit: u64)
    requires
        elapsed.len() == v.len(),
    ensures
        fresh_entries(v, elapsed, limit).len() + stale_entries(v, elapsed, limit).len() == v.len(),
    decreases v.len(),
{
    if v.len() > 0 {
        law_sweep_partitions(v.drop_first(), elapsed.drop_first(), limit);
    }
}

proof fn lemma_remove_keeps_distinct<T>(s: Seq<T>, i: int)
    requires
        s.no_duplicates(),
        0 <= i < s.len(),
    ensures
        s.remove(i).no_duplicates(),
{
    assert forall|a: int, b: int|
        0 <= a < s.remove(i).len() && 0 <= b < s.remove(i).len() && a != b implies s.remove(i)[a]
        != s.remove(i)[b] by {
        let a0 = if a < i {
            a
        } else {
            a + 1
        };
        let b0 = if b < i {
            b
        } else {
            b + 1
        };
        assert(s[a0] != s[b0]);
    }
}

/// One backward step of removing stale entries: with the suffix from `j`
/// described by the suffix from `j + 1` and the entry at `j`.
proof fn lemma_entries_step<T>(v: Seq<T>, e: Seq<u64>, limit: u64, j: int)
    requires
        0 <= j < v.len(),
        v.len() == e.len(),
    ensures
        fresh_entries(v.skip(j), e.skip(j), limit) == (if e[j] > limit {
            Seq::<T>::empty()
        } else {
            seq![v[j]]
        }) + fresh_entries(v.skip(j + 1), e.skip(j + 1), limit),
        stale_entries(v.skip(j), e.skip(j), limit) == (if e[j] > limit {
            seq![v[j]]
        } else {
            Seq::<T>::empty()
        }) + stale_entries(v.skip(j + 1), e.skip(j + 1), limit),
{
    assert(v.skip(j).drop_first() =~= v.skip(j + 1));
    assert(e.skip(j).drop_first() =~= e.skip(j + 1));
    assert(v.skip(j)[0] == v[j]);
    assert(e.skip(j)[0] == e[j]);
}

impl<C> UnauthedConnections<C> {
    /// Every number is below the next one and occurs once.
    pub open spec fn wf(&self) -> bool {
        &&& forall|i: int| 0 <= i < self.inner@.len() ==> (#[trigger] self.inner@[i]).0 < self.next_id
        &&& conn_ids(self.inner@).no_duplicates()
    }

    pub fn new() -> (r: Self)
        ensures
            r.wf(),
            r.next_id == 0,
            r.inner@.len() == 0,
    {
        UnauthedConnections { next_id: 0, inner: Vec::new() }
    }

    /// Adds a connection under a fresh number, which is returned.
    pub fn insert(&mut self, conn: C) -> (id: usize)
        requires
            old(self).wf(),
            old(self).next_id < usize::MAX,
        ensures
            final(self).wf(),
            id == old(self).next_id,
            final(self).next_id == old(self).next_id + 1,
            !conn_ids(old(self).inner@).contains(id),
            final(self).inner@ == old(self).inner@.push((id, conn)),
    {
        let id = self.next_id;
        let ghost before = self.inner@;
        proof {
            if conn_ids(before).contains(id) {
                let k = choose|k: int| 0 <= k < conn_ids(before).len() && conn_ids(before)[k] == id;
                assert(before[k].0 < id);
            }
        }
        self.next_id = self.next_id + 1;
        self.inner.push((id, conn));
        assert(conn_ids(self.inner@) =~= conn_ids(before).push(id));
        id
    }

    /// Position of the connection with this number.
    pub fn position(&self, id: usize) -> (res: Option<usize>)
        ensures
            match res {
                Some(i) => conn_ids(self.inner@).index_of_first(id) == Some(i as int),
                None => conn_ids(self.inner@).index_of_first(id) is None,
            },
    {
        let ghost ids = conn_ids(self.inner@);
        proof {
            ids.index_of_first_ensures(id);
        }
        let mut i: usize = 0;
        while i < self.inner.len()
            invariant
                i <= self.inner@.len(),
                ids == conn_ids(self.inner@),
                forall|j: int| 0 <= j < i ==> ids[j] != id,
                match ids.index_of_first(id) {
                    Some(index) => {
                        &&& 0 <= index < ids.len()
                        &&& ids[index] == id
                        &&& forall|j: int| 0 <= j < index ==> ids[j] != id
                    },
                    None => !ids.contains(id),
                },
            decreases self.inner.len() - i,
        {
            if self.inner[i].0 == id {
                assert(ids[i as int] == id);
                let ghost k = ids.index_of_first(id)->0;
                assert(!(k < i));
                assert(!(i < k));
                return Some(i);
            }
            i = i + 1;
        }
        proof {
            if ids.contains(id) {
                let j = choose|j: int| 0 <= j < ids.len() && ids[j] == id;
                assert(ids[j] != id);
            }
        }
        None
    }

    /// Takes out every connection whose last heartbeat, `elapsed[i]`
    /// milliseconds ago for the connection at position `i`, is older than
    /// `limit`; returns their numbers in order.
    pub fn remove_stale(&mut self, elapsed: &Vec<u64>, limit: u64) -> (removed: Vec<usize>)
        requires
            old(self).wf(),
            elapsed@.len() == old(self).inner@.len(),
        ensures
            final(self).wf(),
            final(self).next_id == old(self).next_id,
            final(self).inner@ == fresh_entries(old(self).inner@, elapsed@, limit),
            removed@ == conn_ids(stale_entries(old(self).inner@, elapsed@, limit)),
    {
        let ghost start = self.inner@;
        let mut removed: Vec<usize> = Vec::new();
        let mut i = self.inner.len();
        assert(start.skip(i as int) =~= Seq::<(usize, C)>::empty());
        assert(start.take(i as int) =~= start);
        assert(start.take(i as int) + fresh_entries(start.skip(i as int), elapsed@.skip(i as int), limit) =~= start);
        assert(conn_ids(stale_entries(start.skip(i as int), elapsed@.skip(i as int), limit)) =~= Seq::<usize>::empty());
        while i > 0
            invariant
                i <= start.len(),
                elapsed@.len() == start.len(),
                self.wf(),
                self.next_id == old(self).next_id,
                start == old(self).inner@,
                self.inner@ == start.take(i as int) + fresh_entries(start.skip(i as int), elapsed@.skip(i as int), limit),
                removed@ == conn_ids(stale_entries(start.skip(i as int), elapsed@.skip(i as int), limit)),
            decreases i,
        {
            let j = i - 1;
            proof {
                lemma_entries_step(start, elapsed@, limit, j as int);
            }
            let ghost rest = fresh_entries(start.skip(i as int), elapsed@.skip(i as int), limit);
            assert(start.take(i as int) =~= start.take(j as int).push(start[j as int]));
            assert(self.inner@[j as int] == start[j as int]);
            if elapsed[j] > limit {
                let ghost before = self.inner@;
                let (id, _) = self.inner.remove(j);
                proof {
                    assert(conn_ids(self.inner@) =~= conn_ids(before).remove(j as int));
                    lemma_remove_keeps_distinct(conn_ids(before), j as int);
                }
                assert(self.inner@ =~= start.take(j as int) + rest);
                let ghost removed_before = removed@;
                removed.insert(0, id);
                assert(removed@ =~= conn_ids(seq![start[j as int]] + stale_entries(start.skip(i as int), elapsed@.skip(i as int), limit)));
            } else {
                assert(self.inner@ =~= start.take(j as int) + (seq![start[j as int]] + rest));
                assert(stale_entries(start.skip(j as int), elapsed@.skip(j as int), limit) =~= stale_entries(
                    start.skip(i as int),
                    elapsed@.skip(i as int),
                    limit,
                ));
            }
            i = j;
        }
        assert(start.skip(0) =~= start);
        assert(elapsed@.skip(0) =~= elapsed@);
        assert(self.inner@ =~= fresh_entries(start, elapsed@, limit));
        removed
    }

    /// Takes out the connection with this number.
    pub fn remove(&mut self, id: usize) -> (res: Option<C>)
        requires
            old(self).wf(),
        ensures
            final(self).wf(),
            final(self).next_id == old(self).next_id,
            match conn_ids(old(self).inner@).index_of_first(id) {
                Some(i) => res == Some(old(self).inner@[i].1) && final(self).inner@ == old(
                    self,
                ).inner@.remove(i),
                None => res is None && final(self).inner@ == old(self).inner@,
            },
    {
        proof {
            conn_ids(self.inner@).index_of_first_ensures(id);
        }
        match self.position(id) {
            Some(i) => {
                let ghost before = self.inner@;
                let (_, c) = self.inner.remove(i);
                assert(conn_ids(self.inner@) =~= conn_ids(before).remove(i as int));
                assert forall|a: int, b: int|
                    0 <= a < conn_ids(self.inner@).len() && 0 <= b < conn_ids(self.inner@).len()
                        && a != b implies conn_ids(self.inner@)[a] != conn_ids(self.inner@)[b] by {
                    let a0 = if a < i { a } else { a + 1 };
                    let b0 = if b < i { b } else { b + 1 };
                    assert(conn_ids(before)[a0] != conn_ids(before)[b0]);
                }
                assert forall|k: int| 0 <= k < self.inner@.len() implies (#[trigger] self.inner@[k]).0 < self.next_id by {
                    let k0 = if k < i { k } else { k + 1 };
                    assert(before[k0] == self.inner@[k]);
                }
                Some(c)
            },
            None => None,
        }
    }

    /// The connection with this number, for sending on it.
    pub fn get_mut(&mut self, id: usize) -> (res: Option<&mut C>)
        requires
            old(self).wf(),
        ensures
            match conn_ids(old(self).inner@).index_of_first(id) {
                Some(i) => res matches Some(c) && *c == old(self).inner@[i].1 && final(self).inner@
                    == old(self).inner@.update(i, (id, *final(c))) && final(self).next_id == old(
                    self,
                ).next_id,
                None => res is None && final(self).inner@ == old(self).inner@ && final(self).next_id
                    == old(self).next_id,
            },
    {
        proof {
            conn_ids(self.inner@).index_of_first_ensures(id);
        }
        match self.position(id) {
            Some(i) => Some(&mut self.inner[i].1),
            None => None,
        }
    }
}

/// Authenticated clients, keyed by their id, each with its name.
#[derive(Debug)]
pub struct Clients<C> {
    pub inner: Vec<(String, String, C)>,
}

/// Ids of a list of clients.
pub open spec fn client_ids<C>(v: Seq<(String, String, C)>) -> Seq<Seq<char>> {
    v.map_values(|e: (String, String, C)| e.0@)
}

impl<C> Clients<C> {
    /// Every id occurs once.
    pub open spec fn wf(&self) -> bool {
        client_ids(self.inner@).no_duplicates()
    }

    pub fn new() -> (r: Self)
        ensures
            r.wf(),
            r.inner@.len() == 0,
    {
        Clients { inner: Vec::new() }
    }

    /// Position of the client with this id.
    pub fn position(&self, id: &String) -> (res: Option<usize>)
        ensures
            match res {
                Some(i) => client_ids(self.inner@).index_of_first(id@) == Some(i as int),
                None => client_ids(self.inner@).index_of_first(id@) is None,
            },
    {
        let ghost ids = client_ids(self.inner@);
        proof {
            ids.index_of_first_ensures(id@);
        }
        let mut i: usize = 0;
        while i < self.inner.len()
            invariant
                i <= self.inner@.len(),
                ids == client_ids(self.inner@),
                forall|j: int| 0 <= j < i ==> ids[j] != id@,
                match ids.index_of_first(id@) {
                    Some(index) => {
                        &&& 0 <= index < ids.len()
                        &&& ids[index] == id@
                        &&& forall|j: int| 0 <= j < index ==> ids[j] != id@
                    },
                    None => !ids.contains(id@),
                },
            decreases self.inner.len() - i,
        {
            if self.inner[i].0 == *id {
                assert(ids[i as int] == id@);
                let ghost k = ids.index_of_first(id@)->0;
                assert(!(k < i));
                assert(!(i < k));
                return Some(i);
            }
            i = i + 1;
        }
        proof {
            if ids.contains(id@) {
                let j = choose|j: int| 0 <= j < ids.len() && ids[j] == id@;
                assert(ids[j] != id@);
            }
        }
        None
    }

    /// Adds a client; one with the same id is replaced.
    pub fn insert(&mut self, id: String, name: String, conn: C)
        requires
            old(self).wf(),
        ensures
            final(self).wf(),
            final(self).inner@ == match client_ids(old(self).inner@).index_of_first(id@) {
                Some(i) => old(self).inner@.update(i, (id, name, conn)),
                None => old(self).inner@.push((id, name, conn)),
            },
    {
        let ghost before = self.inner@;
        proof {
            client_ids(before).index_of_first_ensures(id@);
        }
        match self.position(&id) {
            Some(i) => {
                self.inner.set(i, (id, name, conn));
                assert(client_ids(self.inner@) =~= client_ids(before));
            },
            None => {
                self.inner.push((id, name, conn));
                assert(client_ids(self.inner@) =~= client_ids(before).push(id@));
            },
        }
    }

    /// Takes out every client whose last heartbeat, `elapsed[i]`
    /// milliseconds ago for the client at position `i`, is older than
    /// `limit`; returns their ids in order.
    pub fn remove_stale(&mut self, elapsed: &Vec<u64>, limit: u64) -> (removed: Vec<String>)
        requires
            old(self).wf(),
            elapsed@.len() == old(self).inner@.len(),
        ensures
            final(self).wf(),
            final(self).inner@ == fresh_entries(old(self).inner@, elapsed@, limit),
            string_views(removed@) == client_ids(stale_entries(old(self).inner@, elapsed@, limit)),
    {
        let ghost start = self.inner@;
        let mut removed: Vec<String> = Vec::new();
        let mut i = self.inner.len();
        assert(start.skip(i as int) =~= Seq::<(String, String, C)>::empty());
        assert(start.take(i as int) =~= start);
        assert(start.take(i as int) + fresh_entries(start.skip(i as int), elapsed@.skip(i as int), limit) =~= start);
        assert(client_ids(stale_entries(start.skip(i as int), elapsed@.skip(i as int), limit)) =~= Seq::<Seq<char>>::empty());
        assert(string_views(removed@) =~= Seq::<Seq<char>>::empty());
        while i > 0
            invariant
                i <= start.len(),
                elapsed@.len() == start.len(),
                self.wf(),
                start == old(self).inner@,
                self.inner@ == start.take(i as int) + fresh_entries(start.skip(i as int), elapsed@.skip(i as int), limit),
                string_views(removed@) == client_ids(stale_entries(start.skip(i as int), elapsed@.skip(i as int), limit)),
            decreases i,
        {
            let j = i - 1;
            proof {
                lemma_entries_step(start, elapsed@, limit, j as int);
            }
            let ghost rest = fresh_entries(start.skip(i as int), elapsed@.skip(i as int), limit);
            assert(start.take(i as int) =~= start.take(j as int).push(start[j as int]));
            assert(self.inner@[j as int] == start[j as int]);
            if elapsed[j] > limit {
                let ghost before = self.inner@;
                let (id, _, _) = self.inner.remove(j);
                proof {
                    assert(client_ids(self.inner@) =~= client_ids(before).remove(j as int));
                    lemma_remove_keeps_distinct(client_ids(before), j as int);
                }
                assert(self.inner@ =~= start.take(j as int) + rest);
                let ghost rb = removed@;
                let ghost idv = id@;
                assert(idv == start[j as int].0@);
                removed.insert(0, id);
                let ghost tail = stale_entries(start.skip(i as int), elapsed@.skip(i as int), limit);
                assert(string_views(rb) == client_ids(tail));
                assert(string_views(rb).len() == rb.len());
                assert(client_ids(tail).len() == tail.len());
                assert(removed@.len() == rb.len() + 1);
                assert forall|k: int| 0 <= k < removed@.len() implies #[trigger] string_views(removed@)[k]
                    == client_ids(seq![start[j as int]] + tail)[k] by {
                    if k > 0 {
                        assert(removed@[k] == rb[k - 1]);
                        assert((seq![start[j as int]] + tail)[k] == tail[k - 1]);
                        assert(string_views(rb)[k - 1] == client_ids(tail)[k - 1]);
                    }
                }
                assert(string_views(removed@) =~= client_ids(
                    seq![start[j as int]] + stale_entries(start.skip(i as int), elapsed@.skip(i as int), limit),
                ));
            } else {
                assert(self.inner@ =~= start.take(j as int) + (seq![start[j as int]] + rest));
                assert(stale_entries(start.skip(j as int), elapsed@.skip(j as int), limit) =~= stale_entries(
                    start.skip(i as int),
                    elapsed@.skip(i as int),
                    limit,
                ));
            }
            i = j;
        }
        assert(start.skip(0) =~= start);
        assert(elapsed@.skip(0) =~= elapsed@);
        assert(self.inner@ =~= fresh_entries(start, elapsed@, limit));
        removed
    }

    /// Takes out the client with this id.
    pub fn remove(&mut self, id: &String) -> (res: Option<(String, C)>)
        requires
            old(self).wf(),
        ensures
            final(self).wf(),
            match client_ids(old(self).inner@).index_of_first(id@) {
                Some(i) => res matches Some((name, c)) && name == old(self).inner@[i].1 && c
                    == old(self).inner@[i].2 && final(self).inner@ == old(self).inner@.remove(i),
                None => res is None && final(self).inner@ == old(self).inner@,
            },
    {
        proof {
            client_ids(self.inner@).index_of_first_ensures(id@);
        }
        match self.position(id) {
            Some(i) => {
                let ghost before = self.inner@;
                let (_, name, c) = self.inner.remove(i);
                assert(client_ids(self.inner@) =~= client_ids(before).remove(i as int));
                assert forall|a: int, b: int|
                    0 <= a < client_ids(self.inner@).len() && 0 <= b < client_ids(self.inner@).len()
                        && a != b implies client_ids(self.inner@)[a] != client_ids(self.inner@)[b] by {
                    let a0 = if a < i { a } else { a + 1 };
                    let b0 = if b < i { b } else { b + 1 };
                    assert(client_ids(before)[a0] != client_ids(before)[b0]);
                }
                Some((name, c))
            },
            None => None,
        }
    }

    /// The client with this id, for sending on it.
    pub fn get_mut(&mut self, id: &String) -> (res: Option<&mut C>)
        ensures
            match client_ids(old(self).inner@).index_of_first(id@) {
                Some(i) => res matches Some(c) && *c == old(self).inner@[i].2 && final(self).inner@
                    == old(self).inner@.update(i, (old(self).inner@[i].0, old(self).inner@[i].1, *final(c))),
                None => res is None && final(self).inner@ == old(self).inner@,
            },
    {
        proof {
            client_ids(self.inner@).index_of_first_ensures(id@);
        }
        match self.position(id) {
            Some(i) => Some(&mut self.inner[i].2),
            None => None,
        }
    }

    /// `(id, name)` of every client.
    pub fn names(&self) -> (out: Vec<(String, String)>)
        ensures
            out@.len() == self.inner@.len(),
            forall|k: int|
                0 <= k < out@.len() ==> (#[trigger] out@[k]).0 == self.inner@[k].0 && out@[k].1
                    == self.inner@[k].1,
    {
        let mut out: Vec<(String, String)> = Vec::new();
        let mut i: usize = 0;
        while i < self.inner.len()
            invariant
                i <= self.inner@.len(),
                out@.len() == i,
                forall|k: int|
                    0 <= k < i ==> (#[trigger] out@[k]).0 == self.inner@[k].0 && out@[k].1
                        == self.inner@[k].1,
            decreases self.inner.len() - i,
        {
            out.push((self.inner[i].0.clone(), self.inner[i].1.clone()));
            i = i + 1;
        }
        out
    }
}

} // verus!

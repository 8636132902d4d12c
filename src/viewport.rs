//! The table of per-client viewport sizes and the rule that reconciles them
//! into one terminal size.

use vstd::prelude::*;

verus! {

/// Identifier of one attached client connection.
pub type ClientId = u128;

/// The model of a viewport table: each attached client's (rows, cols).
pub type Viewports = Map<ClientId, (u16, u16)>;

pub open spec fn has_clients(m: Viewports) -> bool {
    exists|k: ClientId| m.contains_key(k)
}

/// `r` is the fewest rows any attached client asked for.
pub open spec fn is_min_rows(m: Viewports, r: u16) -> bool {
    &&& exists|k: ClientId| m.contains_key(k) && m[k].0 == r
    &&& forall|k: ClientId| m.contains_key(k) ==> r <= #[trigger] m[k].0
}

/// `c` is the fewest columns any attached client asked for.
pub open spec fn is_min_cols(m: Viewports, c: u16) -> bool {
    &&& exists|k: ClientId| m.contains_key(k) && m[k].1 == c
    &&& forall|k: ClientId| m.contains_key(k) ==> c <= #[trigger] m[k].1
}

/// The shared terminal size of a non-empty table: the minimum rows and the
/// minimum columns over all attached clients.
pub open spec fn reconciled(m: Viewports, size: (u16, u16)) -> bool {
    is_min_rows(m, size.0) && is_min_cols(m, size.1)
}

/// One client's declared terminal dimensions.
#[derive(Clone, Copy)]
pub struct ClientViewport {
    pub client: ClientId,
    pub rows: u16,
    pub cols: u16,
}

/// Viewport sizes keyed by client; each client appears at most once.
pub struct ViewportTable {
    entries: Vec<ClientViewport>,
}

impl View for ViewportTable {
    type V = Viewports;

    closed spec fn view(&self) -> Viewports {
        Map::new(
            |k: ClientId| exists|i: int| 0 <= i < self.entries@.len() && self.entries@[i].client == k,
            |k: ClientId|
                {
                    let i = choose|i: int| 0 <= i < self.entries@.len() && self.entries@[i].client == k;
                    (self.entries@[i].rows, self.entries@[i].cols)
                },
        )
    }
}

impl ViewportTable {
    pub closed spec fn wf(&self) -> bool {
        forall|i: int, j: int|
            0 <= i < self.entries@.len() && 0 <= j < self.entries@.len() && i != j
                ==> #[trigger] self.entries@[i].client != #[trigger] self.entries@[j].client
    }

    proof fn lemma_view_at(&self, i: int)
        requires
            self.wf(),
            0 <= i < self.entries@.len(),
        ensures
            self@.contains_key(self.entries@[i].client),
            self@[self.entries@[i].client] == (self.entries@[i].rows, self.entries@[i].cols),
    {
        let k = self.entries@[i].client;
        assert(exists|j: int| 0 <= j < self.entries@.len() && self.entries@[j].client == k);
        let j = choose|j: int| 0 <= j < self.entries@.len() && self.entries@[j].client == k;
        assert(i == j);
    }

    proof fn lemma_view_key(&self, k: ClientId) -> (i: int)
        requires
            self.wf(),
            self@.contains_key(k),
        ensures
            0 <= i < self.entries@.len(),
            self.entries@[i].client == k,
    {
        choose|i: int| 0 <= i < self.entries@.len() && self.entries@[i].client == k
    }

    pub fn new() -> (r: ViewportTable)
        ensures
            r.wf(),
            r@ == Map::<ClientId, (u16, u16)>::empty(),
    {
        let r = ViewportTable { entries: Vec::new() };
        assert(r@ =~= Map::<ClientId, (u16, u16)>::empty());
        r
    }

    /// Position of `client` in the table, if it is there.
    fn find(&self, client: ClientId) -> (r: Option<usize>)
        requires
            self.wf(),
        ensures
            r matches Some(i) ==> i < self.entries@.len() && self.entries@[i as int].client == client,
            r is None ==> !self@.contains_key(client),
    {
        let mut i: usize = 0;
        while i < self.entries.len()
            invariant
                i <= self.entries@.len(),
                forall|j: int| 0 <= j < i ==> self.entries@[j].client != client,
            decreases self.entries@.len() - i,
        {
            if self.entries[i].client == client {
                return Some(i);
            }
            i = i + 1;
        }
        None
    }

    /// The size declared by `client`, if it is attached.
    pub fn get(&self, client: ClientId) -> (r: Option<(u16, u16)>)
        requires
            self.wf(),
        ensures
            r == (if self@.contains_key(client) {
                Some(self@[client])
            } else {
                None::<(u16, u16)>
            }),
    {
        match self.find(client) {
            Some(i) => {
                proof {
                    self.lemma_view_at(i as int);
                }
                Some((self.entries[i].rows, self.entries[i].cols))
            },
            None => None,
        }
    }

    /// Sets the size of `client`, adding it when it was not attached.
    pub fn upsert(&mut self, client: ClientId, rows: u16, cols: u16)
        requires
            old(self).wf(),
        ensures
            final(self).wf(),
            final(self)@ == old(self)@.insert(client, (rows, cols)),
    {
        let ghost before = *self;
        let entry = ClientViewport { client, rows, cols };
        match self.find(client) {
            Some(i) => {
                self.entries[i] = entry;
            },
            None => {
                self.entries.push(entry);
            },
        }
        assert(self.wf());
        let ghost expected = before@.insert(client, (rows, cols));
        assert forall|k: ClientId| #[trigger] self@.contains_key(k) implies expected.contains_key(k)
            && self@[k] == expected[k] by {
            let i = self.lemma_view_key(k);
            self.lemma_view_at(i);
            if k != client {
                assert(i < before.entries@.len());
                before.lemma_view_at(i);
            }
        }
        assert forall|k: ClientId| #[trigger] expected.contains_key(k) implies self@.contains_key(k) by {
            if k == client {
                let j = if self.entries@.len() > before.entries@.len() {
                    self.entries@.len() - 1
                } else {
                    choose|j: int| 0 <= j < self.entries@.len() && self.entries@[j].client == client
                };
                self.lemma_view_at(j);
            } else {
                let i = before.lemma_view_key(k);
                self.lemma_view_at(i);
            }
        }
        assert(self@ =~= expected);
    }

    /// Detaches `client`, returning the size it had declared.
    pub fn remove(&mut self, client: ClientId) -> (r: Option<(u16, u16)>)
        requires
            old(self).wf(),
        ensures
            final(self).wf(),
            final(self)@ == old(self)@.remove(client),
            r == (if old(self)@.contains_key(client) {
                Some(old(self)@[client])
            } else {
                None::<(u16, u16)>
            }),
    {
        let ghost before = *self;
        match self.find(client) {
            Some(i) => {
                proof {
                    before.lemma_view_at(i as int);
                }
                let e = self.entries.remove(i);
                assert(self.wf()) by {
                    assert forall|a: int, b: int|
                        0 <= a < self.entries@.len() && 0 <= b < self.entries@.len() && a != b
                        implies #[trigger] self.entries@[a].client != #[trigger] self.entries@[b].client by {
                        let a0 = if a < i { a } else { a + 1 };
                        let b0 = if b < i { b } else { b + 1 };
                        assert(self.entries@[a] == before.entries@[a0]);
                        assert(self.entries@[b] == before.entries@[b0]);
                    }
                }
                let ghost expected = before@.remove(client);
                assert forall|k: ClientId| #[trigger] self@.contains_key(k) implies expected.contains_key(k)
                    && self@[k] == expected[k] by {
                    let j = self.lemma_view_key(k);
                    self.lemma_view_at(j);
                    let j0 = if j < i { j } else { j + 1 };
                    assert(self.entries@[j] == before.entries@[j0]);
                    before.lemma_view_at(j0);
                }
                assert forall|k: ClientId| #[trigger] expected.contains_key(k) implies self@.contains_key(k) by {
                    let j0 = before.lemma_view_key(k);
                    let j = if j0 < i { j0 } else { j0 - 1 };
                    assert(self.entries@[j] == before.entries@[j0]);
                    self.lemma_view_at(j);
                }
                assert(self@ =~= expected);
                Some((e.rows, e.cols))
            },
            None => {
                assert(self@ =~= before@.remove(client));
                None
            },
        }
    }

    /// Whether any client is attached.
    pub fn is_empty(&self) -> (r: bool)
        requires
            self.wf(),
        ensures
            r == !has_clients(self@),
    {
        if self.entries.len() == 0 {
            true
        } else {
            proof {
                self.lemma_view_at(0);
            }
            false
        }
    }

    /// The reconciled size: minimum rows and minimum columns over all
    /// attached clients, or `None` when none is attached.
    pub fn min_size(&self) -> (r: Option<(u16, u16)>)
        requires
            self.wf(),
        ensures
            r is None <==> !has_clients(self@),
            r matches Some(size) ==> reconciled(self@, size),
    {
        let n = self.entries.len();
        if n == 0 {
            return None;
        }
        let mut rows: u16 = self.entries[0].rows;
        let mut cols: u16 = self.entries[0].cols;
        let mut ri: usize = 0;
        let mut ci: usize = 0;
        let mut i: usize = 1;
        while i < n
            invariant
                n == self.entries@.len(),
                1 <= i <= n,
                ri < i,
                ci < i,
                self.entries@[ri as int].rows == rows,
                self.entries@[ci as int].cols == cols,
                forall|j: int| 0 <= j < i ==> rows <= #[trigger] self.entries@[j].rows,
                forall|j: int| 0 <= j < i ==> cols <= #[trigger] self.entries@[j].cols,
            decreases n - i,
        {
            if self.entries[i].rows < rows {
                rows = self.entries[i].rows;
                ri = i;
            }
            if self.entries[i].cols < cols {
                cols = self.entries[i].cols;
                ci = i;
            }
            i = i + 1;
        }
        proof {
            self.lemma_view_at(ri as int);
            self.lemma_view_at(ci as int);
            assert forall|k: ClientId| self@.contains_key(k) implies rows <= #[trigger] self@[k].0
                && cols <= self@[k].1 by {
                let j = self.lemma_view_key(k);
                self.lemma_view_at(j);
            }
        }
        Some((rows, cols))
    }
}

} // verus!

//! One live session's reconciliation state: who is attached with which
//! viewport, and the size the terminal was last given.

use vstd::prelude::*;
use crate::viewport::{
    has_clients, is_min_cols, is_min_rows, reconciled, ClientId, ViewportTable, Viewports,
};

verus! {

/// Rows of a freshly spawned terminal.
pub const INITIAL_ROWS: u16 = 24;

/// Columns of a freshly spawned terminal.
pub const INITIAL_COLS: u16 = 80;

/// A new terminal size, to apply to the terminal and announce to every
/// attached client.
#[derive(Clone, Copy, Debug, PartialEq, Eq, Structural)]
pub struct SetSize {
    pub rows: u16,
    pub cols: u16,
}

/// The notice owed when the terminal size goes from `before` to `after`:
/// none when nothing changed.
pub open spec fn resize_notice(before: (u16, u16), after: (u16, u16)) -> Option<SetSize> {
    if before == after {
        None
    } else {
        Some(SetSize { rows: after.0, cols: after.1 })
    }
}

/// `k` alone holds the fewest rows of `m`.
pub open spec fn sole_min_rows(m: Viewports, k: ClientId) -> bool {
    &&& m.contains_key(k)
    &&& forall|j: ClientId| #[trigger] m.contains_key(j) && j != k ==> m[k].0 < m[j].0
}

/// `k` alone holds the fewest columns of `m`.
pub open spec fn sole_min_cols(m: Viewports, k: ClientId) -> bool {
    &&& m.contains_key(k)
    &&& forall|j: ClientId| #[trigger] m.contains_key(j) && j != k ==> m[k].1 < m[j].1
}

/// A table has one reconciled size.
pub proof fn lemma_reconciled_unique(m: Viewports, a: (u16, u16), b: (u16, u16))
    requires
        reconciled(m, a),
        reconciled(m, b),
    ensures
        a == b,
{
    let ka = choose|k: ClientId| m.contains_key(k) && m[k].0 == a.0;
    let kb = choose|k: ClientId| m.contains_key(k) && m[k].0 == b.0;
    assert(a.0 <= m[kb].0 && b.0 <= m[ka].0);
    let ca = choose|k: ClientId| m.contains_key(k) && m[k].1 == a.1;
    let cb = choose|k: ClientId| m.contains_key(k) && m[k].1 == b.1;
    assert(a.1 <= m[cb].1 && b.1 <= m[ca].1);
}

/// Removing a client that does not alone hold a minimum leaves the
/// reconciled size as it was.
pub proof fn lemma_remove_non_minimal(m: Viewports, size: (u16, u16), k: ClientId)
    requires
        reconciled(m, size),
        m.contains_key(k),
        !sole_min_rows(m, k),
        !sole_min_cols(m, k),
    ensures
        has_clients(m.remove(k)),
        reconciled(m.remove(k), size),
{
    let r = m.remove(k);
    let kr = choose|j: ClientId| m.contains_key(j) && m[j].0 == size.0;
    let kc = choose|j: ClientId| m.contains_key(j) && m[j].1 == size.1;
    // a client other than `k` holds the fewest rows
    let wr = if kr != k {
        kr
    } else {
        let j = choose|j: ClientId| !(#[trigger] m.contains_key(j) && j != k ==> m[k].0 < m[j].0);
        j
    };
    let wc = if kc != k {
        kc
    } else {
        let j = choose|j: ClientId| !(#[trigger] m.contains_key(j) && j != k ==> m[k].1 < m[j].1);
        j
    };
    assert(r.contains_key(wr) && r[wr].0 == size.0);
    assert(r.contains_key(wc) && r[wc].1 == size.1);
    assert(is_min_rows(r, size.0));
    assert(is_min_cols(r, size.1));
}

/// Removing the client that alone holds the fewest rows (or columns) grows
/// that dimension to the new minimum of the clients that remain.
pub proof fn lemma_remove_sole_minimal(
    m: Viewports,
    size: (u16, u16),
    k: ClientId,
    next: (u16, u16),
)
    requires
        reconciled(m, size),
        reconciled(m.remove(k), next),
    ensures
        sole_min_rows(m, k) ==> next.0 > size.0,
        !sole_min_rows(m, k) && m.contains_key(k) ==> next.0 == size.0,
        sole_min_cols(m, k) ==> next.1 > size.1,
        !sole_min_cols(m, k) && m.contains_key(k) ==> next.1 == size.1,
{
    let r = m.remove(k);
    let kr = choose|j: ClientId| r.contains_key(j) && r[j].0 == next.0;
    let kc = choose|j: ClientId| r.contains_key(j) && r[j].1 == next.1;
    assert(m.contains_key(kr) && m.contains_key(kc));
    if sole_min_rows(m, k) {
        assert(m[k].0 == size.0) by {
            let w = choose|j: ClientId| m.contains_key(j) && m[j].0 == size.0;
            if w != k {
                assert(m[k].0 < m[w].0);
            }
        }
        assert(m[k].0 < m[kr].0);
    } else if m.contains_key(k) {
        let w = choose|j: ClientId| m.contains_key(j) && m[j].0 == size.0;
        let w2 = if w != k {
            w
        } else {
            choose|j: ClientId| !(#[trigger] m.contains_key(j) && j != k ==> m[k].0 < m[j].0)
        };
        assert(r.contains_key(w2));
        assert(next.0 <= r[w2].0);
    }
    if sole_min_cols(m, k) {
        assert(m[k].1 == size.1) by {
            let w = choose|j: ClientId| m.contains_key(j) && m[j].1 == size.1;
            if w != k {
                assert(m[k].1 < m[w].1);
            }
        }
        assert(m[k].1 < m[kc].1);
    } else if m.contains_key(k) {
        let w = choose|j: ClientId| m.contains_key(j) && m[j].1 == size.1;
        let w2 = if w != k {
            w
        } else {
            choose|j: ClientId| !(#[trigger] m.contains_key(j) && j != k ==> m[k].1 < m[j].1)
        };
        assert(r.contains_key(w2));
        assert(next.1 <= r[w2].1);
    }
}

/// The viewport state of one session.
pub struct Session {
    id: String,
    viewports: ViewportTable,
    size: (u16, u16),
}

impl Session {
    /// The identifier of the session.
    pub closed spec fn session_id(&self) -> Seq<char> {
        self.id@
    }

    /// The attached clients and their viewports.
    pub closed spec fn clients(&self) -> Viewports {
        self.viewports@
    }

    /// The size the terminal was last given.
    pub closed spec fn current_size(&self) -> (u16, u16) {
        self.size
    }

    pub closed spec fn table_wf(&self) -> bool {
        self.viewports.wf()
    }

    /// Whenever a client is attached, the terminal has the reconciled size.
    pub open spec fn wf(&self) -> bool {
        &&& self.table_wf()
        &&& has_clients(self.clients()) ==> reconciled(self.clients(), self.current_size())
    }

    /// A session with no client attached and a terminal of the initial size.
    pub fn new(id: String) -> (r: Session)
        ensures
            r.wf(),
            r.session_id() == id@,
            r.clients() == Map::<ClientId, (u16, u16)>::empty(),
            r.current_size() == (INITIAL_ROWS, INITIAL_COLS),
    {
        Session { id, viewports: ViewportTable::new(), size: (INITIAL_ROWS, INITIAL_COLS) }
    }

    /// Recomputes the terminal size after the table changed; returns the
    /// notice owed, if the size moved.
    fn reconcile(&mut self) -> (r: Option<SetSize>)
        requires
            old(self).table_wf(),
        ensures
            final(self).wf(),
            final(self).session_id() == old(self).session_id(),
            final(self).clients() == old(self).clients(),
            !has_clients(old(self).clients()) ==> final(self).current_size() == old(self).current_size(),
            r == resize_notice(old(self).current_size(), final(self).current_size()),
    {
        match self.viewports.min_size() {
            None => None,
            Some(next) => {
                if next.0 == self.size.0 && next.1 == self.size.1 {
                    None
                } else {
                    self.size = next;
                    Some(SetSize { rows: next.0, cols: next.1 })
                }
            },
        }
    }

    /// Records the viewport of `client` and reconciles the terminal size.
    pub fn update_client_size(&mut self, client: ClientId, rows: u16, cols: u16) -> (r: Option<SetSize>)
        requires
            old(self).wf(),
        ensures
            final(self).wf(),
            final(self).session_id() == old(self).session_id(),
            final(self).clients() == old(self).clients().insert(client, (rows, cols)),
            reconciled(final(self).clients(), final(self).current_size()),
            r == resize_notice(old(self).current_size(), final(self).current_size()),
    {
        self.viewports.upsert(client, rows, cols);
        let r = self.reconcile();
        assert(self.clients().contains_key(client));
        r
    }

    /// Forgets the viewport of `client`; when others remain attached the
    /// terminal size is reconciled again, otherwise it is kept.
    pub fn remove_client(&mut self, client: ClientId) -> (r: Option<SetSize>)
        requires
            old(self).wf(),
        ensures
            final(self).wf(),
            final(self).session_id() == old(self).session_id(),
            final(self).clients() == old(self).clients().remove(client),
            !has_clients(final(self).clients()) ==> final(self).current_size() == old(self).current_size(),
            !old(self).clients().contains_key(client) ==> final(self).current_size() == old(self).current_size(),
            r == resize_notice(old(self).current_size(), final(self).current_size()),
    {
        match self.viewports.remove(client) {
            Some(_) => self.reconcile(),
            None => {
                assert(self.clients() =~= old(self).clients());
                None
            },
        }
    }

    pub fn id(&self) -> (r: &String)
        ensures
            r@ == self.session_id(),
    {
        &self.id
    }

    /// The size the terminal was last given.
    pub fn size(&self) -> (r: (u16, u16))
        ensures
            r == self.current_size(),
    {
        self.size
    }

    /// The viewport declared by `client`, if it is attached.
    pub fn viewport(&self, client: ClientId) -> (r: Option<(u16, u16)>)
        requires
            self.wf(),
        ensures
            r == (if self.clients().contains_key(client) {
                Some(self.clients()[client])
            } else {
                None::<(u16, u16)>
            }),
    {
        self.viewports.get(client)
    }

    /// Whether any client is attached.
    pub fn has_clients(&self) -> (r: bool)
        requires
            self.wf(),
        ensures
            r == has_clients(self.clients()),
    {
        !self.viewports.is_empty()
    }
}

} // verus!

//! The bounded transcript of a session's terminal output.

use vstd::prelude::*;

verus! {

/// Largest number of bytes a session keeps for replay (100 KiB).
pub const HISTORY_CAP: usize = 102_400;

/// The bytes kept of `all` output: the most recent `HISTORY_CAP` of them.
pub open spec fn retained(all: Seq<u8>) -> Seq<u8> {
    if all.len() <= HISTORY_CAP {
        all
    } else {
        all.subrange(all.len() - HISTORY_CAP, all.len() as int)
    }
}

/// Every chunk of `chunks` in order, joined.
pub open spec fn joined(chunks: Seq<Seq<u8>>) -> Seq<u8>
    decreases chunks.len(),
{
    if chunks.len() == 0 {
        Seq::empty()
    } else {
        joined(chunks.drop_last()) + chunks.last()
    }
}

/// The history after appending each chunk of `chunks` in turn, from empty.
pub open spec fn history_after(chunks: Seq<Seq<u8>>) -> Seq<u8>
    decreases chunks.len(),
{
    if chunks.len() == 0 {
        Seq::empty()
    } else {
        retained(history_after(chunks.drop_last()) + chunks.last())
    }
}

/// Trimming before an append keeps what trimming after it would.
proof fn lemma_retained_absorbs(a: Seq<u8>, c: Seq<u8>)
    ensures
        retained(retained(a) + c) == retained(a + c),
{
    if a.len() > HISTORY_CAP {
        let r = retained(a);
        let n = (a + c).len();
        let m = (r + c).len();
        assert forall|i: int| 0 <= i < m implies (r + c)[i] == (a + c)[i + (n - m)] by {
            if i < r.len() {
            } else {
            }
        }
        if m <= HISTORY_CAP {
            assert(retained(r + c) =~= retained(a + c));
        } else {
            assert(retained(r + c) =~= retained(a + c));
        }
    }
}

/// The history of a session is always the most recent suffix of all its
/// output, no longer than `HISTORY_CAP`; once more than that has been
/// written it holds exactly `HISTORY_CAP` bytes.
pub proof fn lemma_history_is_recent_suffix(chunks: Seq<Seq<u8>>)
    ensures
        history_after(chunks) == retained(joined(chunks)),
        history_after(chunks).len() <= HISTORY_CAP,
        joined(chunks).len() > HISTORY_CAP ==> history_after(chunks).len() == HISTORY_CAP,
        history_after(chunks) =~= joined(chunks).subrange(
            joined(chunks).len() - history_after(chunks).len(),
            joined(chunks).len() as int,
        ),
    decreases chunks.len(),
{
    if chunks.len() > 0 {
        lemma_history_is_recent_suffix(chunks.drop_last());
        lemma_retained_absorbs(joined(chunks.drop_last()), chunks.last());
    }
}

/// Output history of one session, trimmed from the front to `HISTORY_CAP`.
pub struct History {
    bytes: Vec<u8>,
}

impl View for History {
    type V = Seq<u8>;

    closed spec fn view(&self) -> Seq<u8> {
        self.bytes@
    }
}

impl History {
    pub open spec fn wf(&self) -> bool {
        self@.len() <= HISTORY_CAP
    }

    pub fn new() -> (r: History)
        ensures
            r@ == Seq::<u8>::empty(),
            r.wf(),
    {
        History { bytes: Vec::new() }
    }

    /// Appends `chunk` and drops the oldest bytes beyond the cap.
    pub fn append(&mut self, chunk: &[u8])
        requires
            old(self).wf(),
        ensures
            final(self)@ == retained(old(self)@ + chunk@),
            final(self).wf(),
    {
        let old_len = self.bytes.len();
        let room: usize = HISTORY_CAP - old_len;
        if chunk.len() <= room {
            let mut i: usize = 0;
            while i < chunk.len()
                invariant
                    i <= chunk@.len(),
                    old_len == old(self)@.len(),
                    self@ == old(self)@ + chunk@.subrange(0, i as int),
                decreases chunk@.len() - i,
            {
                self.bytes.push(chunk[i]);
                i = i + 1;
                assert(self@ =~= old(self)@ + chunk@.subrange(0, i as int));
            }
            assert(chunk@.subrange(0, chunk@.len() as int) =~= chunk@);
        } else {
            let ghost all = old(self)@ + chunk@;
            let skip: usize = chunk.len() - room;
            let mut kept: Vec<u8> = Vec::with_capacity(HISTORY_CAP);
            let mut i: usize = skip;
            while i < old_len
                invariant
                    skip <= i,
                    old_len == self@.len(),
                    self@ == old(self)@,
                    all == old(self)@ + chunk@,
                    skip as int == all.len() - HISTORY_CAP,
                    i <= old_len || i == skip,
                    i <= old_len ==> kept@ == all.subrange(skip as int, i as int),
                    i > old_len ==> kept@.len() == 0,
                decreases old_len - i,
            {
                kept.push(self.bytes[i]);
                i = i + 1;
                assert(kept@ =~= all.subrange(skip as int, i as int));
            }
            let start: usize = if skip > old_len {
                skip - old_len
            } else {
                0
            };
            assert(kept@ == all.subrange(skip as int, (old_len + start) as int)) by {
                if skip > old_len {
                    assert(all.subrange(skip as int, skip as int) =~= Seq::<u8>::empty());
                } else {
                }
            }
            let mut j: usize = start;
            while j < chunk.len()
                invariant
                    start <= j <= chunk@.len(),
                    all == old(self)@ + chunk@,
                    old_len == old(self)@.len(),
                    skip as int == all.len() - HISTORY_CAP,
                    skip <= old_len + start,
                    kept@ == all.subrange(skip as int, (old_len + j) as int),
                decreases chunk@.len() - j,
            {
                kept.push(chunk[j]);
                j = j + 1;
                assert(kept@ =~= all.subrange(skip as int, (old_len + j) as int));
            }
            self.bytes = kept;
        }
    }

    /// A copy of the bytes held now.
    pub fn snapshot(&self) -> (r: Vec<u8>)
        ensures
            r@ == self@,
    {
        self.bytes.clone()
    }

    pub fn len(&self) -> (r: usize)
        ensures
            r == self@.len(),
    {
        self.bytes.len()
    }

    pub fn is_empty(&self) -> (r: bool)
        ensures
            r == (self@.len() == 0),
    {
        self.bytes.len() == 0
    }
}

} // verus!

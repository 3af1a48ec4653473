//! The k-way merge of the AsAd frame streams: which stream hands out the
//! next frame so that event ids come out in non-decreasing order.
use vstd::prelude::*;

verus! {

/// Lookahead of every stream that still has frames: pairs of the event id
/// of its next frame and the stream's index.
#[derive(Debug, Clone)]
pub struct Merger {
    heap: Vec<(u32, usize)>,
}

/// Position of an entry with the smallest event id.
pub open spec fn is_min_entry(entries: Seq<(u32, usize)>, i: int) -> bool {
    0 <= i < entries.len() && forall|j: int| 0 <= j < entries.len() ==> entries[i].0 <= #[trigger] entries[j].0
}

impl Merger {
    pub closed spec fn entries(&self) -> Seq<(u32, usize)> {
        self.heap@
    }

    pub fn new() -> (r: Merger)
        ensures
            r.entries().len() == 0,
    {
        Merger { heap: Vec::new() }
    }

    /// Registers the event id of the next frame of stream `stack`.
    pub fn push(&mut self, event_id: u32, stack: usize)
        ensures
            final(self).entries() == old(self).entries().push((event_id, stack)),
    {
        self.heap.push((event_id, stack));
    }

    pub fn is_empty(&self) -> (r: bool)
        ensures
            r == (self.entries().len() == 0),
    {
        self.heap.len() == 0
    }

    pub fn len(&self) -> (r: usize)
        ensures
            r == self.entries().len(),
    {
        self.heap.len()
    }

    /// Removes and returns an entry with the smallest event id (the first
    /// such entry on a tie); `None` when no stream has frames left.
    pub fn pop_next(&mut self) -> (r: Option<(u32, usize)>)
        ensures
            r is None <==> old(self).entries().len() == 0,
            r is None ==> final(self).entries() == old(self).entries(),
            r matches Some(e) ==> exists|i: int|
                is_min_entry(old(self).entries(), i) && old(self).entries()[i] == e && final(self).entries()
                    == old(self).entries().remove(i),
    {
        let n = self.heap.len();
        if n == 0 {
            return None;
        }
        let mut best: usize = 0;
        let mut i: usize = 1;
        while i < n
            invariant
                n == self.heap@.len(),
                best < n,
                1 <= i <= n,
                forall|j: int| 0 <= j < i ==> self.heap@[best as int].0 <= #[trigger] self.heap@[j].0,
            decreases n - i,
        {
            if self.heap[i].0 < self.heap[best].0 {
                best = i;
            }
            i = i + 1;
        }
        let e = self.heap.remove(best);
        assert(is_min_entry(old(self).entries(), best as int));
        Some(e)
    }
}

/// The merger's ordering law. The merger pops a smallest entry, takes a frame
/// from that entry's stream, and pushes back that stream's next event id if
/// it has more frames. When each stream's event ids do not decrease (the id
/// pushed back is at least the one popped), every entry left is at least the
/// id popped, so the next pop is too: the merged ids do not decrease.
pub proof fn lemma_merge_order(entries: Seq<(u32, usize)>, i: int, next: u32)
    requires
        is_min_entry(entries, i),
        next >= entries[i].0,
    ensures
        forall|j: int|
            0 <= j < entries.remove(i).len() ==> entries[i].0 <= #[trigger] entries.remove(i)[j].0,
        forall|j: int|
            0 <= j < entries.remove(i).push((next, entries[i].1)).len() ==> entries[i].0
                <= #[trigger] entries.remove(i).push((next, entries[i].1))[j].0,
{
    let rest = entries.remove(i);
    assert forall|j: int| 0 <= j < rest.len() implies entries[i].0 <= #[trigger] rest[j].0 by {
        if j < i {
            assert(rest[j] == entries[j]);
        } else {
            assert(rest[j] == entries[j + 1]);
        }
    }
    let pushed = rest.push((next, entries[i].1));
    assert forall|j: int| 0 <= j < pushed.len() implies entries[i].0 <= #[trigger] pushed[j].0 by {
        if j < rest.len() {
            assert(pushed[j] == rest[j]);
        }
    }
}

} // verus!

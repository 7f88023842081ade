use vstd::prelude::*;
use crate::schedule::RenderError;

verus! {

/// The indices `0..n` in increasing order.
pub open spec fn index_range(n: int) -> Seq<usize> {
    Seq::new(n as nat, |i: int| i as usize)
}

/// The band indices of a pass that no worker has claimed yet. Workers always
/// take the lowest pending index, so the queue holds a run of consecutive
/// indices ending at the band count.
pub struct WorkQueue {
    pending: Vec<usize>,
    total: usize,
}

impl WorkQueue {
    pub closed spec fn pending(self) -> Seq<usize> {
        self.pending@
    }

    pub closed spec fn total(self) -> nat {
        self.total as nat
    }

    /// The indices handed out so far, in the order they were handed out.
    pub open spec fn handed_out(self) -> Seq<usize> {
        index_range(self.total() - self.pending().len())
    }

    pub open spec fn wf(self) -> bool {
        &&& self.pending().len() <= self.total()
        &&& forall|i: int|
            0 <= i < self.pending().len() ==> #[trigger] self.pending()[i] == self.total()
                - self.pending().len() + i
    }

    /// A queue that holds every band index `0..band_count`.
    pub fn new(band_count: usize) -> (q: WorkQueue)
        ensures
            q.wf(),
            q.total() == band_count,
            q.pending() == index_range(band_count as int),
            q.handed_out().len() == 0,
    {
        let mut pending: Vec<usize> = Vec::new();
        let mut i: usize = 0;
        while i < band_count
            invariant
                i <= band_count,
                pending@ == index_range(i as int),
            decreases band_count - i,
        {
            pending.push(i);
            i = i + 1;
            assert(pending@ =~= index_range(i as int));
        }
        WorkQueue { pending, total: band_count }
    }

    pub fn is_empty(&self) -> (r: bool)
        ensures
            r == (self.pending().len() == 0),
    {
        self.pending.len() == 0
    }

    /// Claims the lowest pending band index, or reports that none is left.
    pub fn take_next(&mut self) -> (r: Option<usize>)
        requires
            old(self).wf(),
        ensures
            final(self).wf(),
            final(self).total() == old(self).total(),
            old(self).pending().len() == 0 ==> r is None && *final(self) == *old(self),
            old(self).pending().len() > 0 ==> {
                &&& r == Some(old(self).pending()[0])
                &&& r->Some_0 == old(self).handed_out().len()
                &&& final(self).pending() == old(self).pending().drop_first()
                &&& final(self).handed_out() == old(self).handed_out().push(r->Some_0)
            },
    {
        if self.pending.len() == 0 {
            return None;
        }
        let index = self.pending.remove(0);
        proof {
            assert(self.handed_out() =~= old(self).handed_out().push(index));
        }
        Some(index)
    }
}

/// Each band index of a pass is handed out exactly once: what has been handed
/// out and what is pending are together the indices `0..band_count` in order,
/// and a drained queue has handed out every one of them.
pub proof fn lemma_each_band_handed_out_once(q: WorkQueue)
    requires
        q.wf(),
    ensures
        q.handed_out() + q.pending() == index_range(q.total() as int),
        (q.handed_out() + q.pending()).no_duplicates(),
        q.pending().len() == 0 ==> q.handed_out() == index_range(q.total() as int),
{
    let all = q.handed_out() + q.pending();
    assert(all =~= index_range(q.total() as int));
    assert forall|i: int, j: int| 0 <= i < all.len() && 0 <= j < all.len() && i != j implies all[i]
        != all[j] by {
        assert(all[i] == i as usize && all[j] == j as usize);
    }
}

/// Finished band buffers of a pass, addressed by band index.
pub struct ResultsTable<T> {
    slots: Vec<Option<T>>,
}

impl<T> ResultsTable<T> {
    pub closed spec fn slots(self) -> Seq<Option<T>> {
        self.slots@
    }

    /// An empty slot for each of `band_count` bands.
    pub fn new(band_count: usize) -> (t: ResultsTable<T>)
        ensures
            t.slots().len() == band_count,
            forall|i: int| 0 <= i < band_count ==> #[trigger] t.slots()[i] is None,
    {
        let mut slots: Vec<Option<T>> = Vec::new();
        let mut i: usize = 0;
        while i < band_count
            invariant
                i <= band_count,
                slots@.len() == i,
                forall|k: int| 0 <= k < i ==> #[trigger] slots@[k] is None,
            decreases band_count - i,
        {
            slots.push(None);
            i = i + 1;
        }
        ResultsTable { slots }
    }

    pub fn len(&self) -> (r: usize)
        ensures
            r == self.slots().len(),
    {
        self.slots.len()
    }

    /// Stores the finished buffer of band `index`. A slot takes one buffer
    /// per pass; an index outside the table or a second buffer is refused
    /// and leaves the table as it was.
    pub fn store(&mut self, index: usize, band: T) -> (r: Result<(), RenderError>)
        ensures
            index >= old(self).slots().len() <==> r == Err::<(), RenderError>(
                RenderError::BandOutOfRange,
            ),
            (index < old(self).slots().len() && old(self).slots()[index as int] is Some) <==> r
                == Err::<(), RenderError>(RenderError::BandAlreadyStored),
            (index < old(self).slots().len() && old(self).slots()[index as int] is None) <==> r is Ok,
            r is Ok ==> final(self).slots() == old(self).slots().update(index as int, Some(band)),
            r is Err ==> final(self).slots() == old(self).slots(),
    {
        if index >= self.slots.len() {
            return Err(RenderError::BandOutOfRange);
        }
        if self.slots[index].is_some() {
            return Err(RenderError::BandAlreadyStored);
        }
        self.slots.set(index, Some(band));
        Ok(())
    }

    /// Whether every band has its buffer.
    pub fn is_complete(&self) -> (r: bool)
        ensures
            r == (forall|i: int| 0 <= i < self.slots().len() ==> #[trigger] self.slots()[i] is Some),
    {
        let mut i: usize = 0;
        while i < self.slots.len()
            invariant
                i <= self.slots@.len(),
                forall|k: int| 0 <= k < i ==> #[trigger] self.slots@[k] is Some,
            decreases self.slots@.len() - i,
        {
            if self.slots[i].is_none() {
                return false;
            }
            i = i + 1;
        }
        true
    }

    /// The band buffers in index order, or `MissingBand` where some band has
    /// none.
    pub fn finish(self) -> (r: Result<Vec<T>, RenderError>)
        ensures
            (exists|i: int| 0 <= i < self.slots().len() && #[trigger] self.slots()[i] is None)
                <==> r == Err::<Vec<T>, RenderError>(RenderError::MissingBand),
            (forall|i: int| 0 <= i < self.slots().len() ==> #[trigger] self.slots()[i] is Some)
                <==> r is Ok,
            r is Ok ==> {
                let v = r->Ok_0;
                &&& v@.len() == self.slots().len()
                &&& forall|i: int| 0 <= i < v@.len() ==> self.slots()[i] == Some(#[trigger] v@[i])
            },
    {
        if !self.is_complete() {
            return Err(RenderError::MissingBand);
        }
        let ghost orig = self.slots@;
        let mut slots = self.slots;
        let mut out: Vec<T> = Vec::new();
        while slots.len() > 0
            invariant
                out@.len() + slots@.len() == orig.len(),
                slots@ == orig.skip(out@.len() as int),
                forall|i: int| 0 <= i < out@.len() ==> orig[i] == Some(#[trigger] out@[i]),
                forall|i: int| 0 <= i < orig.len() ==> #[trigger] orig[i] is Some,
            decreases slots@.len(),
        {
            let first = slots.remove(0);
            proof {
                assert(first == orig[out@.len() as int]);
            }
            match first {
                Some(band) => {
                    out.push(band);
                },
                None => {
                    proof {
                        assert(false);
                    }
                },
            }
            assert(slots@ =~= orig.skip(out@.len() as int));
        }
        Ok(out)
    }
}

/// Stores into distinct slots commute: the finished table does not depend on
/// the order in which workers delivered their bands.
pub proof fn lemma_store_order_irrelevant<T>(
    slots: Seq<Option<T>>,
    i: int,
    a: T,
    j: int,
    b: T,
)
    requires
        0 <= i < slots.len(),
        0 <= j < slots.len(),
        i != j,
    ensures
        slots.update(i, Some(a)).update(j, Some(b)) == slots.update(j, Some(b)).update(i, Some(a)),
{
    assert(slots.update(i, Some(a)).update(j, Some(b)) =~= slots.update(j, Some(b)).update(
        i,
        Some(a),
    ));
}

} // verus!

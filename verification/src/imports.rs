//! Grouping the records of a CSV import into batches of a fixed size, each
//! written with one statement, and counting the records handed out.

use vstd::prelude::*;

verus! {

/// The batches handed out, followed by the records still pending, are
/// exactly the records read, in order; fewer records than a batch are
/// ever pending; the count is the number of records handed out.
pub open spec fn keeps_every_record<T>(b: RecordBatcher<T>) -> bool {
    &&& flatten_batches(b.batches()) + b.pending() == b.records()
    &&& b.pending().len() < b.size()
    &&& b.written() == flatten_batches(b.batches()).len()
}

/// All batches one after the other.
pub open spec fn flatten_batches<T>(batches: Seq<Seq<T>>) -> Seq<T>
    decreases batches.len(),
{
    if batches.len() == 0 {
        Seq::empty()
    } else {
        flatten_batches(batches.drop_last()) + batches.last()
    }
}

/// Groups records into batches of `batch_size` as they are read: every
/// batch it hands out but the last has exactly `batch_size` records, and
/// the batches hold the records in the order they were read.
pub struct RecordBatcher<T> {
    batch_size: usize,
    pending: Vec<T>,
    written: usize,
    read_count: usize,
    /// Every record read so far.
    read: Ghost<Seq<T>>,
    /// Every batch handed out so far.
    handed_out: Ghost<Seq<Seq<T>>>,
}

impl<T> RecordBatcher<T> {
    #[verifier::type_invariant]
    spec fn batches_partition_the_records(self) -> bool {
        &&& self.batch_size > 0
        &&& self.pending.len() < self.batch_size
        &&& flatten_batches(self.handed_out@) + self.pending@ == self.read@
        &&& self.written == flatten_batches(self.handed_out@).len()
        &&& self.read_count == self.read@.len()
    }

    /// The batch size.
    pub closed spec fn size(self) -> nat {
        self.batch_size as nat
    }

    /// The records read so far.
    pub closed spec fn records(self) -> Seq<T> {
        self.read@
    }

    /// The batches handed out so far.
    pub closed spec fn batches(self) -> Seq<Seq<T>> {
        self.handed_out@
    }

    /// The records read but not handed out yet.
    pub closed spec fn pending(self) -> Seq<T> {
        self.pending@
    }

    /// The number of records handed out in batches.
    pub closed spec fn written(self) -> nat {
        self.written as nat
    }

    /// Starts an import that writes `batch_size` records at a time.
    pub fn new(batch_size: usize) -> (res: Self)
        requires
            batch_size > 0,
        ensures
            res.size() == batch_size,
            res.records() == Seq::<T>::empty(),
            res.batches() == Seq::<Seq<T>>::empty(),
            res.pending() == Seq::<T>::empty(),
            res.written() == 0,
            keeps_every_record(res),
    {
        RecordBatcher {
            batch_size,
            pending: Vec::new(),
            written: 0,
            read_count: 0,
            read: Ghost(Seq::empty()),
            handed_out: Ghost(Seq::empty()),
        }
    }

    /// Takes the next record read; hands out a batch when it is full.
    pub fn push(&mut self, record: T) -> (res: Option<Vec<T>>)
        requires
            old(self).records().len() < usize::MAX,
        ensures
            final(self).size() == old(self).size(),
            keeps_every_record(*final(self)),
            final(self).records() == old(self).records().push(record),
            old(self).pending().len() + 1 == old(self).size() ==> {
                &&& res matches Some(b) && b@ == old(self).pending().push(record)
                &&& final(self).batches() == old(self).batches().push(old(self).pending().push(record))
                &&& final(self).pending() == Seq::<T>::empty()
            },
            old(self).pending().len() + 1 < old(self).size() ==> {
                &&& res is None
                &&& final(self).batches() == old(self).batches()
                &&& final(self).pending() == old(self).pending().push(record)
            },
    {
        proof {
            use_type_invariant(&*self);
        }
        let size = self.batch_size;
        let mut taken = RecordBatcher::new(size);
        std::mem::swap(self, &mut taken);
        proof {
            use_type_invariant(&taken);
        }
        let RecordBatcher { batch_size, mut pending, written, read_count, read, handed_out } = taken;
        let ghost now_read = read@.push(record);
        assert((flatten_batches(handed_out@) + pending@).len() == read@.len());
        pending.push(record);
        let read_count = read_count + 1;
        if pending.len() == batch_size {
            let ghost now_handed_out = handed_out@.push(pending@);
            proof {
                assert(now_handed_out.drop_last() =~= handed_out@);
                assert(flatten_batches(now_handed_out) + Seq::<T>::empty() =~= now_read);
            }
            let written = written + batch_size;
            *self = RecordBatcher {
                batch_size,
                pending: Vec::new(),
                written,
                read_count,
                read: Ghost(now_read),
                handed_out: Ghost(now_handed_out),
            };
            Some(pending)
        } else {
            proof {
                assert(flatten_batches(handed_out@) + pending@ =~= now_read);
            }
            *self = RecordBatcher {
                batch_size,
                pending,
                written,
                read_count,
                read: Ghost(now_read),
                handed_out,
            };
            None
        }
    }

    /// Called when no record is left: hands out the last, partly filled
    /// batch if there is one.
    pub fn finish(&mut self) -> (res: Option<Vec<T>>)
        ensures
            final(self).size() == old(self).size(),
            keeps_every_record(*final(self)),
            final(self).records() == old(self).records(),
            final(self).pending() == Seq::<T>::empty(),
            old(self).pending().len() > 0 ==> {
                &&& res matches Some(b) && b@ == old(self).pending()
                &&& final(self).batches() == old(self).batches().push(old(self).pending())
            },
            old(self).pending().len() == 0 ==> res is None && final(self).batches() == old(
                self,
            ).batches(),
    {
        proof {
            use_type_invariant(&*self);
        }
        if self.pending.len() == 0 {
            return None;
        }
        let size = self.batch_size;
        let mut taken = RecordBatcher::new(size);
        std::mem::swap(self, &mut taken);
        proof {
            use_type_invariant(&taken);
        }
        let RecordBatcher { batch_size, pending, written, read_count, read, handed_out } = taken;
        assert((flatten_batches(handed_out@) + pending@).len() == read@.len());
        let written = written + pending.len();
        let ghost now_handed_out = handed_out@.push(pending@);
        proof {
            assert(now_handed_out.drop_last() =~= handed_out@);
            assert(flatten_batches(now_handed_out) + Seq::<T>::empty() =~= read@);
        }
        *self = RecordBatcher {
            batch_size,
            pending: Vec::new(),
            written,
            read_count,
            read,
            handed_out: Ghost(now_handed_out),
        };
        Some(pending)
    }

    /// The number of records handed out in batches so far.
    pub fn total(&self) -> (res: usize)
        ensures
            res == self.written(),
            res == flatten_batches(self.batches()).len(),
    {
        proof {
            use_type_invariant(self);
        }
        self.written
    }

    /// The number of records read so far.
    pub fn records_read(&self) -> (res: usize)
        ensures
            res == self.records().len(),
    {
        proof {
            use_type_invariant(self);
        }
        self.read_count
    }

}

} // verus!

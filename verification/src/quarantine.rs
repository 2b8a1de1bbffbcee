//! Keeping track of a quarantine file written with vectored writes.
use vstd::prelude::*;

verus! {

/// The total length of `lens` from index `i` on.
pub open spec fn sum_from(lens: Seq<usize>, i: int) -> int
    decreases lens.len() - i,
{
    if i < 0 || i >= lens.len() {
        0
    } else {
        lens[i] + sum_from(lens, i + 1)
    }
}

/// The lengths that are not zero, in order.
pub open spec fn nonzero(lens: Seq<usize>) -> Seq<usize>
    decreases lens.len(),
{
    if lens.len() == 0 {
        Seq::empty()
    } else if lens.last() == 0 {
        nonzero(lens.drop_last())
    } else {
        nonzero(lens.drop_last()).push(lens.last())
    }
}

/// How far a vectored write of a list of byte slices has come: the slices
/// still (partly) to write start at `idx`, of which `offset` bytes were written.
pub struct WriteCursor {
    lens: Vec<usize>,
    idx: usize,
    offset: usize,
}

proof fn lemma_sum_push(lens: Seq<usize>, x: usize, i: int)
    requires
        0 <= i <= lens.len(),
    ensures
        sum_from(lens.push(x), i) == sum_from(lens, i) + x,
    decreases lens.len() - i,
{
    if i < lens.len() {
        lemma_sum_push(lens, x, i + 1);
        assert(lens.push(x)[i] == lens[i]);
    } else {
        assert(lens.push(x)[i] == x);
        assert(sum_from(lens.push(x), i + 1) == 0);
    }
}

proof fn lemma_sum_nonzero(lens: Seq<usize>)
    ensures
        sum_from(nonzero(lens), 0) == sum_from(lens, 0),
    decreases lens.len(),
{
    if lens.len() > 0 {
        let prev = lens.drop_last();
        lemma_sum_nonzero(prev);
        lemma_sum_push(prev, lens.last(), 0);
        assert(prev.push(lens.last()) =~= lens);
        if lens.last() != 0 {
            lemma_sum_push(nonzero(prev), lens.last(), 0);
        }
    }
}

proof fn lemma_nonzero_positive(lens: Seq<usize>)
    ensures
        forall|i: int| 0 <= i < nonzero(lens).len() ==> #[trigger] nonzero(lens)[i] > 0,
    decreases lens.len(),
{
    if lens.len() > 0 {
        let prev = lens.drop_last();
        lemma_nonzero_positive(prev);
        assert forall|i: int| 0 <= i < nonzero(lens).len() implies #[trigger] nonzero(lens)[i] > 0 by {
            if lens.last() != 0 && i < nonzero(prev).len() {
                assert(nonzero(lens)[i] == nonzero(prev)[i]);
            }
        }
    }
}

impl WriteCursor {
    /// The lengths of the slices (empty slices left out).
    pub closed spec fn lens(&self) -> Seq<usize> {
        self.lens@
    }

    /// The index of the first slice not yet fully written.
    pub closed spec fn index(&self) -> int {
        self.idx as int
    }

    /// How many bytes of that slice were written.
    pub closed spec fn written_of_current(&self) -> int {
        self.offset as int
    }

    /// The cursor points into its slices, and no slice is empty.
    pub closed spec fn inv(&self) -> bool {
        &&& self.idx <= self.lens@.len()
        &&& forall|i: int| 0 <= i < self.lens@.len() ==> #[trigger] self.lens@[i] > 0
        &&& self.idx < self.lens@.len() ==> self.offset < self.lens@[self.idx as int]
        &&& self.idx == self.lens@.len() ==> self.offset == 0
    }

    /// How many bytes remain to be written.
    pub closed spec fn remaining(&self) -> int {
        sum_from(self.lens@, self.idx as int) - self.offset
    }

    /// A cursor at the start of the slices of the given lengths (empty ones left out).
    pub fn new(lens: &Vec<usize>) -> (c: WriteCursor)
        ensures
            c.inv(),
            c.lens() == nonzero(lens@),
            c.index() == 0,
            c.written_of_current() == 0,
            c.remaining() == sum_from(lens@, 0),
    {
        let mut kept: Vec<usize> = Vec::new();
        let mut i: usize = 0;
        assert(lens@.subrange(0, 0) =~= Seq::<usize>::empty());
        while i < lens.len()
            invariant
                i <= lens@.len(),
                kept@ == nonzero(lens@.subrange(0, i as int)),
            decreases lens@.len() - i,
        {
            let ghost sub = lens@.subrange(0, i as int + 1);
            assert(sub.drop_last() =~= lens@.subrange(0, i as int));
            if lens[i] != 0 {
                kept.push(lens[i]);
            }
            i = i + 1;
        }
        assert(lens@.subrange(0, lens@.len() as int) =~= lens@);
        proof {
            lemma_sum_nonzero(lens@);
            lemma_nonzero_positive(lens@);
        }
        let c = WriteCursor { lens: kept, idx: 0, offset: 0 };
        assert(c.remaining() == sum_from(nonzero(lens@), 0));
        c
    }

    /// Whether everything was written.
    pub fn is_done(&self) -> (b: bool)
        requires
            self.inv(),
        ensures
            b == (self.remaining() == 0),
    {
        proof {
            self.lemma_remaining_positive();
        }
        self.idx == self.lens.len()
    }

    /// The slice to continue with and how many of its bytes were written.
    pub fn position(&self) -> (p: (usize, usize))
        ensures
            p.0 == self.index(),
            p.1 == self.written_of_current(),
    {
        (self.idx, self.offset)
    }

    proof fn lemma_remaining_positive(&self)
        requires
            self.inv(),
        ensures
            self.idx < self.lens@.len() ==> self.remaining() > 0,
            self.idx == self.lens@.len() ==> self.remaining() == 0,
    {
        if self.idx < self.lens@.len() {
            lemma_sum_nonneg(self.lens@, self.idx as int + 1);
        }
    }

    /// Moves past `bytes` written bytes: past whole slices while they fit,
    /// then into the current slice.
    pub fn advance(&mut self, bytes: usize)
        requires
            old(self).inv(),
            bytes <= old(self).remaining(),
        ensures
            final(self).inv(),
            final(self).lens() == old(self).lens(),
            final(self).remaining() == old(self).remaining() - bytes,
    {
        let mut bytes = bytes;
        let ghost target = self.remaining() - bytes;
        while bytes != 0
            invariant
                self.inv(),
                self.lens@ == old(self).lens@,
                bytes <= self.remaining(),
                self.remaining() - bytes == target,
            decreases bytes,
        {
            proof {
                self.lemma_remaining_positive();
            }
            let n = self.lens.len();
            assert(self.idx < n);
            let cur = self.lens[self.idx] - self.offset;
            if bytes >= cur {
                bytes = bytes - cur;
                self.idx = self.idx + 1;
                self.offset = 0;
            } else {
                self.offset = self.offset + bytes;
                bytes = 0;
            }
        }
    }
}

proof fn lemma_sum_nonneg(lens: Seq<usize>, i: int)
    ensures
        sum_from(lens, i) >= 0,
    decreases lens.len() - i,
{
    if 0 <= i < lens.len() {
        lemma_sum_nonneg(lens, i + 1);
    }
}

} // verus!

//! Access to memory-mapped registers.
//!
//! The library reaches registers through a [`Bus`], which keeps, as ghost
//! state, the trace of every access made through it in order: each write
//! with its value, each read with the value it returned. What a read
//! returns is up to the hardware; contracts say which accesses a function
//! makes and how its result and its writes follow from the values read.

use vstd::prelude::*;

verus! {

/// A 32-bit register bus. Reads return what the hardware holds, which the
/// library does not predict.
pub trait Mmio {
    fn read32(&mut self, addr: usize) -> u32;

    fn write32(&mut self, addr: usize, value: u32);
}

/// One register access: a write of `value`, or a read that returned
/// `value`.
pub struct Access {
    pub write: bool,
    pub addr: usize,
    pub value: u32,
}

pub open spec fn rd(addr: usize, value: u32) -> Access {
    Access { write: false, addr, value }
}

pub open spec fn wr(addr: usize, value: u32) -> Access {
    Access { write: true, addr, value }
}

/// The writes among `t`, in order: what was handed to the bus.
pub open spec fn writes_of(t: Seq<Access>) -> Seq<(usize, u32)>
    decreases t.len(),
{
    if t.len() == 0 {
        Seq::empty()
    } else if t.last().write {
        writes_of(t.drop_last()).push((t.last().addr, t.last().value))
    } else {
        writes_of(t.drop_last())
    }
}

/// A read adds no write.
pub proof fn lemma_writes_of_read(t: Seq<Access>, addr: usize, v: u32)
    ensures
        writes_of(t.push(rd(addr, v))) == writes_of(t),
{
    assert(t.push(rd(addr, v)).drop_last() =~= t);
}

/// Reads add no write.
pub proof fn lemma_writes_of_reads(t: Seq<Access>, addr: usize, values: Seq<u32>)
    ensures
        writes_of(t + reads(addr, values)) == writes_of(t),
    decreases values.len(),
{
    if values.len() == 0 {
        assert(t + reads(addr, values) =~= t);
    } else {
        let front = values.drop_last();
        lemma_writes_of_reads(t, addr, front);
        assert(t + reads(addr, values) =~= (t + reads(addr, front)).push(rd(addr, values.last())));
        lemma_writes_of_read(t + reads(addr, front), addr, values.last());
    }
}

/// The writes of a concatenation are those of each part, in order.
pub proof fn lemma_writes_of_concat(a: Seq<Access>, b: Seq<Access>)
    ensures
        writes_of(a + b) == writes_of(a) + writes_of(b),
    decreases b.len(),
{
    if b.len() == 0 {
        assert(a + b =~= a);
        assert(writes_of(a) + writes_of(b) =~= writes_of(a));
    } else {
        lemma_writes_of_concat(a, b.drop_last());
        assert((a + b).drop_last() =~= a + b.drop_last());
        assert((a + b).last() == b.last());
        if b.last().write {
            assert(writes_of(a) + writes_of(b) =~= (writes_of(a) + writes_of(b.drop_last())).push(
                (b.last().addr, b.last().value),
            ));
        }
    }
}

/// A trace of reads only hands no write to the bus.
pub proof fn lemma_writes_of_no_write(t: Seq<Access>)
    requires
        forall|i: int| 0 <= i < t.len() ==> !(#[trigger] t[i]).write,
    ensures
        writes_of(t) == Seq::<(usize, u32)>::empty(),
    decreases t.len(),
{
    if t.len() > 0 {
        let front = t.drop_last();
        assert forall|i: int| 0 <= i < front.len() implies !(#[trigger] front[i]).write by {
            assert(front[i] == t[i]);
        }
        lemma_writes_of_no_write(front);
        assert(!t[t.len() - 1].write);
    }
}

/// The value of the `k`-th access that `after` adds to `before`.
pub open spec fn got(before: Seq<Access>, after: Seq<Access>, k: int) -> u32 {
    after[before.len() + k].value
}

/// Reads of `addr` that returned `values`, in order.
pub open spec fn reads(addr: usize, values: Seq<u32>) -> Seq<Access> {
    Seq::new(values.len(), |i: int| rd(addr, values[i]))
}

/// A poll of at most `limit` reads that stops at the first value for
/// which `done` holds: `found` says whether one did; without one, all
/// `limit` reads were made.
pub open spec fn polled(values: Seq<u32>, done: spec_fn(u32) -> bool, limit: nat, found: bool) -> bool {
    &&& values.len() <= limit
    &&& forall|i: int| 0 <= i < values.len() - 1 ==> !done(#[trigger] values[i])
    &&& found ==> values.len() > 0 && done(values.last())
    &&& !found ==> values.len() == limit && (values.len() > 0 ==> !done(values.last()))
}

/// A bus with the trace of the accesses made through it.
pub struct Bus<B> {
    pub io: B,
    pub trace: Ghost<Seq<Access>>,
}

impl<B: Mmio> Bus<B> {
    pub fn new(io: B) -> (r: Self)
        ensures
            r.trace@ == Seq::<Access>::empty(),
    {
        Bus { io, trace: Ghost(Seq::empty()) }
    }

    pub fn read32(&mut self, addr: usize) -> (r: u32)
        ensures
            final(self).trace@ == old(self).trace@.push(rd(addr, r)),
            writes_of(final(self).trace@) == writes_of(old(self).trace@),
    {
        let r = self.io.read32(addr);
        proof {
            lemma_writes_of_read(self.trace@, addr, r);
            self.trace = Ghost(self.trace@.push(rd(addr, r)));
        }
        r
    }

    pub fn write32(&mut self, addr: usize, value: u32)
        ensures
            final(self).trace@ == old(self).trace@.push(wr(addr, value)),
            writes_of(final(self).trace@) == writes_of(old(self).trace@).push((addr, value)),
    {
        self.io.write32(addr, value);
        proof {
            assert(self.trace@.push(wr(addr, value)).drop_last() =~= self.trace@);
            self.trace = Ghost(self.trace@.push(wr(addr, value)));
        }
    }
}

/// One more read appended to a poll's values keeps the reads' trace.
pub proof fn lemma_reads_push(addr: usize, values: Seq<u32>, v: u32)
    ensures
        reads(addr, values.push(v)) == reads(addr, values).push(rd(addr, v)),
{
    assert(reads(addr, values.push(v)) =~= reads(addr, values).push(rd(addr, v)));
}

/// The accesses from `before` to `after` are one poll of `addr`, as
/// `polled` describes it.
pub open spec fn polls(
    before: Seq<Access>,
    after: Seq<Access>,
    addr: usize,
    done: spec_fn(u32) -> bool,
    limit: nat,
    found: bool,
) -> bool {
    exists|values: Seq<u32>|
        after == before + #[trigger] reads(addr, values) && polled(values, done, limit, found)
}

/// A poll only appends: what came before it stays.
pub proof fn lemma_polls_keep_prefix(
    before: Seq<Access>,
    after: Seq<Access>,
    addr: usize,
    done: spec_fn(u32) -> bool,
    limit: nat,
    found: bool,
)
    requires
        polls(before, after, addr, done, limit, found),
    ensures
        after.len() >= before.len(),
        forall|i: int| 0 <= i < before.len() ==> #[trigger] after[i] == before[i],
{
    let values = choose|values: Seq<u32>|
        after == before + #[trigger] reads(addr, values) && polled(values, done, limit, found);
    assert(after == before + reads(addr, values));
}

/// Whether the bits of `mask` in a value are set (`set`) or clear.
pub open spec fn mask_is(mask: u32, set: bool) -> spec_fn(u32) -> bool {
    |v: u32| (v & mask != 0) == set
}

/// Reads `addr` at most `limit` times until the bits of `mask` are all
/// clear (`set` false) or not all clear (`set` true); returns whether they
/// became so.
pub fn poll_mask<B: Mmio>(bus: &mut Bus<B>, addr: usize, mask: u32, set: bool, limit: usize) -> (r: bool)
    ensures
        polls(old(bus).trace@, final(bus).trace@, addr, mask_is(mask, set), limit as nat, r),
        writes_of(final(bus).trace@) == writes_of(old(bus).trace@),
{
    let ghost start = bus.trace@;
    let ghost mut values: Seq<u32> = Seq::empty();
    assert(start + reads(addr, values) =~= start);
    let mut i: usize = 0;
    let mut found = false;
    while i < limit && !found
        invariant
            i <= limit,
            values.len() == i,
            bus.trace@ == start + reads(addr, values),
            found ==> i > 0 && mask_is(mask, set)(values.last()),
            forall|j: int|
                0 <= j < values.len() - (if found { 1int } else { 0int }) ==> !mask_is(mask, set)(
                    #[trigger] values[j],
                ),
        decreases limit - i,
    {
        let v = bus.read32(addr);
        let ghost prev = values;
        proof {
            lemma_reads_push(addr, values, v);
            assert(start + reads(addr, values.push(v)) =~= (start + reads(addr, values)).push(
                rd(addr, v),
            ));
            values = values.push(v);
            assert forall|j: int| 0 <= j < values.len() - 1 implies values[j] == prev[j] by {}
        }
        found = (v & mask != 0) == set;
        i += 1;
    }
    assert(polled(values, mask_is(mask, set), limit as nat, found));
    proof {
        lemma_writes_of_reads(start, addr, values);
    }
    found
}

/// Whether a value is below `bound`.
pub open spec fn below(bound: u32) -> spec_fn(u32) -> bool {
    |v: u32| v < bound
}

/// Reads `addr` at most `limit` times until a value below `bound` comes
/// back; returns whether one did.
pub fn poll_below<B: Mmio>(bus: &mut Bus<B>, addr: usize, bound: u32, limit: usize) -> (r: bool)
    ensures
        polls(old(bus).trace@, final(bus).trace@, addr, below(bound), limit as nat, r),
        writes_of(final(bus).trace@) == writes_of(old(bus).trace@),
{
    let ghost start = bus.trace@;
    let ghost mut values: Seq<u32> = Seq::empty();
    assert(start + reads(addr, values) =~= start);
    let mut i: usize = 0;
    let mut found = false;
    while i < limit && !found
        invariant
            i <= limit,
            values.len() == i,
            bus.trace@ == start + reads(addr, values),
            found ==> i > 0 && below(bound)(values.last()),
            forall|j: int|
                0 <= j < values.len() - (if found { 1int } else { 0int }) ==> !below(bound)(
                    #[trigger] values[j],
                ),
        decreases limit - i,
    {
        let v = bus.read32(addr);
        let ghost prev = values;
        proof {
            lemma_reads_push(addr, values, v);
            assert(start + reads(addr, values.push(v)) =~= (start + reads(addr, values)).push(
                rd(addr, v),
            ));
            values = values.push(v);
            assert forall|j: int| 0 <= j < values.len() - 1 implies values[j] == prev[j] by {}
        }
        found = v < bound;
        i += 1;
    }
    assert(polled(values, below(bound), limit as nat, found));
    proof {
        lemma_writes_of_reads(start, addr, values);
    }
    found
}

} // verus!

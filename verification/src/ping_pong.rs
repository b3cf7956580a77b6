use vstd::prelude::*;

verus! {

/// Two buffers of equal size that trade roles every frame: one is read from,
/// the other written to. `current` names the slot that is written.
pub struct PingPongBuffers<B> {
    pub buffers: [B; 2],
    pub current: usize,
}

impl<B> PingPongBuffers<B> {
    /// The slot index is one of the two buffers.
    pub open spec fn wf(&self) -> bool {
        self.current < 2
    }

    /// The slot that the compute pass writes to.
    pub open spec fn write_slot(&self) -> int {
        self.current as int
    }

    /// The slot that the compute pass reads from.
    pub open spec fn read_slot(&self) -> int {
        1 - self.current
    }

    /// The value after one `swap`.
    pub open spec fn swapped(self) -> Self {
        PingPongBuffers { buffers: self.buffers, current: self.current ^ 1 }
    }

    /// Pairs up two buffers; the first one is written first.
    pub fn new(buffers: [B; 2]) -> (pp: Self)
        ensures
            pp.buffers == buffers,
            pp.current == 0,
            pp.wf(),
    {
        PingPongBuffers { buffers, current: 0 }
    }

    /// The buffer that holds the last frame's output.
    pub fn read_buf(&self) -> (r: &B)
        requires
            self.wf(),
        ensures
            *r == self.buffers@[self.read_slot()],
    {
        &self.buffers[1 - self.current]
    }

    /// The buffer that this frame writes.
    pub fn write_buf(&self) -> (r: &B)
        requires
            self.wf(),
        ensures
            *r == self.buffers@[self.write_slot()],
    {
        &self.buffers[self.current]
    }

    /// Exchanges the roles of the two buffers.
    pub fn swap(&mut self)
        ensures
            *final(self) == old(self).swapped(),
    {
        self.current = self.current ^ 1;
    }
}

/// Flipping the low bit of a slot index in `0..2` gives the other slot.
pub proof fn lemma_flip_slot(x: usize)
    requires
        x < 2,
    ensures
        x ^ 1 == 1 - x,
        (x ^ 1) < 2,
{
    assert(x < 2 ==> x ^ 1usize == 1 - x) by (bit_vector);
}

/// Swapping twice gives back the buffers as they were.
pub proof fn lemma_swap_twice<B>(p: PingPongBuffers<B>)
    ensures
        p.swapped().swapped() == p,
{
    let c = p.current;
    assert((c ^ 1usize) ^ 1usize == c) by (bit_vector);
}

/// A swap keeps the slot index valid.
pub proof fn lemma_swap_wf<B>(p: PingPongBuffers<B>)
    requires
        p.wf(),
    ensures
        p.swapped().wf(),
{
    lemma_flip_slot(p.current);
}

/// The read and write buffers are never the same slot: no pass reads what it
/// writes.
pub proof fn lemma_no_aliasing<B>(p: PingPongBuffers<B>)
    requires
        p.wf(),
    ensures
        p.read_slot() != p.write_slot(),
        0 <= p.read_slot() < 2,
        0 <= p.write_slot() < 2,
{
}

/// After a swap, the buffer read is the one written before the swap: every
/// frame reads the previous frame's output, and writes over the older one.
pub proof fn lemma_swap_reads_last_output<B>(p: PingPongBuffers<B>)
    requires
        p.wf(),
    ensures
        p.swapped().read_slot() == p.write_slot(),
        p.swapped().write_slot() == p.read_slot(),
        p.swapped().buffers == p.buffers,
{
    lemma_flip_slot(p.current);
}

} // verus!

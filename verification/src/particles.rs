use vstd::prelude::*;
use crate::ping_pong::{PingPongBuffers, lemma_flip_slot};

verus! {

/// Number of particles advected every frame.
pub const NUM_PARTICLES: usize = 100_000;

/// Invocations per compute workgroup of the advection shader.
pub const WORKGROUP_SIZE: u32 = 256;

/// Mixed into the simulation time to seed the shader's random respawns.
pub const SEED_MIX: u32 = 0xDEAD_BEEF;

/// The number of workgroups that covers `n` particles: `n / 256` rounded up.
pub open spec fn workgroups_for(n: int) -> int {
    (n + WORKGROUP_SIZE - 1) / (WORKGROUP_SIZE as int)
}

/// Workgroups to dispatch so that every one of `n` particles gets an
/// invocation, and no workgroup is launched without a particle.
pub fn workgroup_count(n: u32) -> (groups: u32)
    ensures
        groups == workgroups_for(n as int),
        groups * WORKGROUP_SIZE >= n,
        groups == 0 || (groups - 1) * WORKGROUP_SIZE < n,
{
    let whole: u32 = n / WORKGROUP_SIZE;
    if n % WORKGROUP_SIZE == 0 {
        whole
    } else {
        whole + 1
    }
}

/// The random seed handed to the advection shader for a frame, from the
/// frame's time in whole milliseconds.
pub open spec fn seed_for(millis: u32) -> u32 {
    millis ^ SEED_MIX
}

/// Seed of the advection shader's random generator for a frame whose
/// simulation time is `millis` whole milliseconds.
pub fn sim_seed(millis: u32) -> (seed: u32)
    ensures
        seed == seed_for(millis),
{
    millis ^ SEED_MIX
}

/// Distinct frame times give distinct seeds, and the time can be read back
/// from the seed.
pub proof fn lemma_seed_injective(a: u32, b: u32)
    ensures
        seed_for(a) == seed_for(b) <==> a == b,
        seed_for(seed_for(a)) == a,
{
    assert((a ^ 0xDEAD_BEEFu32) == (b ^ 0xDEAD_BEEFu32) <==> a == b) by (bit_vector);
    assert((a ^ 0xDEAD_BEEFu32) ^ 0xDEAD_BEEFu32 == a) by (bit_vector);
}

/// Which particle buffers a compute bind group connects: it reads the
/// previous positions from `read_slot` and writes the new ones to
/// `write_slot`.
pub struct ComputeBinding {
    pub read_slot: usize,
    pub write_slot: usize,
}

impl ComputeBinding {
    /// The bind group that writes slot `w` reads the other slot.
    pub open spec fn for_write_slot(w: usize) -> ComputeBinding {
        ComputeBinding { read_slot: (1 - w) as usize, write_slot: w }
    }
}

/// The buffers of the compute bind group that writes slot `write_idx`.
pub fn compute_binding(write_idx: usize) -> (binding: ComputeBinding)
    requires
        write_idx < 2,
    ensures
        binding == ComputeBinding::for_write_slot(write_idx),
{
    ComputeBinding { read_slot: 1 - write_idx, write_slot: write_idx }
}

/// What one frame's update and draw use: the compute bind group, the render
/// bind group, the workgroup count and the number of vertices drawn.
pub struct FramePlan {
    pub compute_group: usize,
    pub render_group: usize,
    pub workgroups: u32,
    pub vertex_count: u32,
}

/// Starts a frame: swaps the particle buffers, then picks the bind groups
/// for the swapped state and the dispatch size for `n` particles.
pub fn plan_frame<B>(buffers: &mut PingPongBuffers<B>, n: usize) -> (plan: FramePlan)
    requires
        old(buffers).wf(),
    ensures
        *final(buffers) == old(buffers).swapped(),
        final(buffers).wf(),
        plan.compute_group == final(buffers).current,
        plan.render_group == final(buffers).current,
        plan.workgroups == workgroups_for((n as u32) as int),
        plan.vertex_count == n as u32,
{
    proof {
        lemma_flip_slot(buffers.current);
    }
    buffers.swap();
    let count: u32 = n as u32;
    let groups = workgroup_count(count);
    FramePlan {
        compute_group: buffers.current,
        render_group: buffers.current,
        workgroups: groups,
        vertex_count: count,
    }
}

/// The state of the buffers after `k` frames, each of which swaps once.
pub open spec fn after_frames<B>(p: PingPongBuffers<B>, k: nat) -> PingPongBuffers<B>
    decreases k,
{
    if k == 0 {
        p
    } else {
        after_frames(p, (k - 1) as nat).swapped()
    }
}

/// The compute bind group picked by a frame reads the buffer that holds the
/// last output and writes the other one; the frame then draws the buffer
/// the compute pass just wrote.
pub proof fn lemma_frame_bindings<B>(p: PingPongBuffers<B>)
    requires
        p.wf(),
    ensures
        ({
            let q = p.swapped();
            let b = ComputeBinding::for_write_slot(q.current);
            &&& q.wf()
            &&& b.read_slot == q.read_slot()
            &&& b.write_slot == q.write_slot()
            &&& b.read_slot == p.write_slot()
            &&& b.read_slot != b.write_slot
        }),
{
    lemma_flip_slot(p.current);
}

/// From freshly paired buffers A (slot 0) and B (slot 1), frame `k` reads
/// slot `k % 2` and writes slot `(k + 1) % 2`: frame 0 reads A and writes B,
/// frame 1 reads B and writes A, and so on.
pub proof fn lemma_frame_schedule<B>(p: PingPongBuffers<B>, k: nat)
    requires
        p.current == 0,
    ensures
        after_frames(p, k + 1).wf(),
        after_frames(p, k + 1).read_slot() == k % 2,
        after_frames(p, k + 1).write_slot() == (k + 1) % 2,
        after_frames(p, k + 1).buffers == p.buffers,
    decreases k,
{
    if k == 0 {
        lemma_flip_slot(0);
        assert(after_frames(p, 0) == p);
        assert(after_frames(p, 1) == p.swapped());
    } else {
        lemma_frame_schedule(p, (k - 1) as nat);
        let prev = after_frames(p, k);
        assert(after_frames(p, k + 1) == prev.swapped());
        lemma_flip_slot(prev.current);
    }
}

} // verus!

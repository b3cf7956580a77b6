use particle_advection::particles::{
    compute_binding, plan_frame, sim_seed, workgroup_count, NUM_PARTICLES, SEED_MIX,
    WORKGROUP_SIZE,
};
use particle_advection::ping_pong::PingPongBuffers;

#[test]
fn sim_uniforms_seed_varies_with_time() {
    let seed1 = sim_seed((1.0f32 * 1_000.0) as u32);
    let seed2 = sim_seed((1.001f32 * 1_000.0) as u32);
    let seed3 = sim_seed((2.0f32 * 1_000.0) as u32);
    assert_ne!(seed1, seed3, "seeds at different times should differ");
    let _ = seed2;
}

#[test]
fn dispatch_workgroup_count_covers_all_particles() {
    let n = NUM_PARTICLES as u32;
    let workgroups = workgroup_count(n);
    assert!(
        workgroups * 256 >= n,
        "workgroups {workgroups} × 256 does not cover {n} particles"
    );
}

#[test]
fn dispatch_workgroup_count_is_minimal() {
    let n = NUM_PARTICLES as u32;
    let workgroups = workgroup_count(n);
    assert!(
        (workgroups - 1) * 256 < n,
        "launching unnecessary workgroups"
    );
}

#[test]
fn workgroup_count_exact_values() {
    assert_eq!(workgroup_count(0), 0);
    assert_eq!(workgroup_count(1), 1);
    assert_eq!(workgroup_count(256), 1);
    assert_eq!(workgroup_count(257), 2);
    assert_eq!(workgroup_count(100_000), 391);
    assert_eq!(workgroup_count(u32::MAX), 16_777_216);
    assert_eq!(WORKGROUP_SIZE, 256);
}

#[test]
fn seed_mixes_with_constant() {
    assert_eq!(sim_seed(0), 0xDEAD_BEEF);
    assert_eq!(sim_seed(1000), 1000 ^ 0xDEAD_BEEF);
    assert_eq!(sim_seed(sim_seed(1234)), 1234);
    assert_eq!(SEED_MIX, 0xDEAD_BEEF);
}

#[test]
fn compute_binding_reads_other_slot() {
    let b0 = compute_binding(0);
    assert_eq!((b0.read_slot, b0.write_slot), (1, 0));
    let b1 = compute_binding(1);
    assert_eq!((b1.read_slot, b1.write_slot), (0, 1));
}

#[test]
fn frames_alternate_buffers() {
    let mut pp = PingPongBuffers::new(["A", "B"]);
    // frame 0: read A, write B, render B
    let plan = plan_frame(&mut pp, NUM_PARTICLES);
    assert_eq!(*pp.read_buf(), "A");
    assert_eq!(*pp.write_buf(), "B");
    assert_eq!(plan.compute_group, 1);
    assert_eq!(plan.render_group, 1);
    assert_eq!(plan.workgroups, 391);
    assert_eq!(plan.vertex_count, 100_000);
    let b = compute_binding(plan.compute_group);
    assert_eq!(pp.buffers[b.read_slot], "A");
    assert_eq!(pp.buffers[b.write_slot], "B");
    assert_eq!(pp.buffers[plan.render_group], "B");
    // frame 1: read B, write A, render A
    let plan = plan_frame(&mut pp, NUM_PARTICLES);
    assert_eq!(*pp.read_buf(), "B");
    assert_eq!(*pp.write_buf(), "A");
    assert_eq!(pp.buffers[plan.render_group], "A");
    // frame 2: read A again
    let plan = plan_frame(&mut pp, 5);
    assert_eq!(*pp.read_buf(), "A");
    assert_eq!(plan.render_group, 1);
    assert_eq!(plan.workgroups, 1);
    assert_eq!(plan.vertex_count, 5);
}

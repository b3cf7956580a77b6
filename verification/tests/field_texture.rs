use particle_advection::field_texture::{FieldRefresh, FIELD_REFRESH_MS};
use particle_advection::field_texture::{
    texel_copy_layout, texel_grid, BYTES_PER_CHANNEL, CHANNELS, FIELD_RES,
};

#[test]
fn texel_grid_order_x_fastest() {
    let t = texel_grid(2);
    assert_eq!(
        t,
        vec![
            (0, 0, 0),
            (1, 0, 0),
            (0, 1, 0),
            (1, 1, 0),
            (0, 0, 1),
            (1, 0, 1),
            (0, 1, 1),
            (1, 1, 1)
        ]
    );
    assert_eq!(texel_grid(0), vec![]);
}

#[test]
fn texel_grid_default_resolution() {
    let t = texel_grid(FIELD_RES);
    assert_eq!(t.len(), 64 * 64 * 64);
    assert_eq!(t[1], (1, 0, 0));
    assert_eq!(t[64], (0, 1, 0));
    assert_eq!(t[64 * 64], (0, 0, 1));
    assert_eq!(t[t.len() - 1], (63, 63, 63));
}

#[test]
fn copy_layout_covers_samples() {
    let l = texel_copy_layout(FIELD_RES);
    assert_eq!(l.bytes_per_row, 512);
    assert_eq!(l.rows_per_image, 64);
    let sample_bytes = (FIELD_RES * FIELD_RES * FIELD_RES * CHANNELS * BYTES_PER_CHANNEL) as u64;
    assert_eq!(l.bytes_per_row as u64 * l.rows_per_image as u64 * FIELD_RES as u64, sample_bytes);
    // the texture takes 2 MiB
    assert_eq!(sample_bytes, 2 * 1024 * 1024);
}

#[test]
fn field_refresh_every_500_ms_in_texture_mode() {
    assert_eq!(FIELD_REFRESH_MS, 500);
    let mut r = FieldRefresh::new(0);
    assert!(!r.check(true, 499));
    assert_eq!(r.last_upload_ms, 0);
    assert!(r.check(true, 500));
    assert_eq!(r.last_upload_ms, 500);
    assert!(!r.check(true, 999));
    assert!(r.check(true, 1200));
    assert_eq!(r.last_upload_ms, 1200);
    // analytical mode never uploads
    assert!(!r.check(false, 5000));
    assert_eq!(r.last_upload_ms, 1200);
    // time that runs backwards uploads nothing
    assert!(!r.check(true, 100));
}

#[test]
fn field_refresh_over_a_run_of_frames() {
    // frames every 16 ms for 3 s in texture mode: uploads about every 0.5 s
    let mut r = FieldRefresh::new(0);
    let mut uploads = Vec::new();
    let mut t: u64 = 0;
    while t <= 3000 {
        if r.check(true, t) {
            uploads.push(t);
        }
        t += 16;
    }
    assert_eq!(uploads, vec![512, 1024, 1536, 2048, 2560]);
    for w in uploads.windows(2) {
        assert!(w[1] - w[0] >= FIELD_REFRESH_MS);
    }
}

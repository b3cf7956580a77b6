use vstd::prelude::*;
use crate::grid::{grid_cell, grid_volume, lemma_grid_cell_of, lemma_grid_cell_inside};

verus! {

/// Texels along each side of the cubic field texture.
pub const FIELD_RES: u32 = 64;

/// Channels per texel (RGBA); the fourth one is always zero.
pub const CHANNELS: u32 = 4;

/// Bytes per channel: each channel is a 16-bit float.
pub const BYTES_PER_CHANNEL: u32 = 2;

/// The `k`-th texel sampled, as `(x, y, z)`: `x` varies fastest, then `y`,
/// then `z`, which is the order in which texel rows, images and layers are
/// laid out in the uploaded data.
pub open spec fn texel_at(res: int, k: int) -> (u32, u32, u32) {
    let (z, y, x) = grid_cell(res, k);
    (x, y, z)
}

/// The inputs on which the field can be sampled: the number of 16-bit values
/// sampled, four per texel, fits in a `u32`.
pub open spec fn field_res_ok(res: u32) -> bool {
    CHANNELS * grid_volume(res as int) <= u32::MAX
}

/// The texels at which the field is sampled, in upload order: `z` slowest,
/// then `y`, then `x`.
pub fn texel_grid(res: u32) -> (texels: Vec<(u32, u32, u32)>)
    requires
        field_res_ok(res),
    ensures
        texels@.len() == grid_volume(res as int),
        forall|k: int| 0 <= k < texels@.len() ==> #[trigger] texels@[k] == texel_at(res as int, k),
{
    proof {
        assert(res * res <= res * res * res && res * res * res <= CHANNELS * (res * res * res))
            by (nonlinear_arith)
            requires
                CHANNELS == 4,
        ;
    }
    let capacity: u32 = res * res * res;
    let mut texels: Vec<(u32, u32, u32)> = Vec::with_capacity(capacity as usize);
    let mut z: u32 = 0;
    while z < res
        invariant
            z <= res,
            field_res_ok(res),
            texels@.len() == z * res * res,
            forall|k: int|
                0 <= k < texels@.len() ==> #[trigger] texels@[k] == texel_at(res as int, k),
        decreases res - z,
    {
        let mut y: u32 = 0;
        while y < res
            invariant
                z < res,
                y <= res,
                texels@.len() == (z * res + y) * res,
                forall|k: int|
                    0 <= k < texels@.len() ==> #[trigger] texels@[k] == texel_at(res as int, k),
            decreases res - y,
        {
            let mut x: u32 = 0;
            while x < res
                invariant
                    z < res,
                    y < res,
                    x <= res,
                    texels@.len() == (z * res + y) * res + x,
                    forall|k: int|
                        0 <= k < texels@.len() ==> #[trigger] texels@[k] == texel_at(
                            res as int,
                            k,
                        ),
                decreases res - x,
            {
                proof {
                    lemma_grid_cell_of(res as int, z as int, y as int, x as int);
                }
                texels.push((x, y, z));
                x = x + 1;
            }
            proof {
                assert((z * res + y) * res + res == (z * res + y + 1) * res) by (nonlinear_arith);
            }
            y = y + 1;
        }
        proof {
            assert((z * res + res) * res == (z + 1) * res * res) by (nonlinear_arith);
        }
        z = z + 1;
    }
    proof {
        assert(texels@.len() == grid_volume(res as int)) by (nonlinear_arith)
            requires
                texels@.len() == z * res * res,
                z == res,
        ;
    }
    texels
}

/// How the sampled data is laid out for the upload to the texture: bytes
/// from one texel row to the next, and rows from one layer to the next.
pub struct TexelCopyLayout {
    pub bytes_per_row: u32,
    pub rows_per_image: u32,
}

/// The copy layout of a `res × res × res` texture of four 16-bit channels,
/// rows packed without padding.
pub fn texel_copy_layout(res: u32) -> (layout: TexelCopyLayout)
    requires
        res * CHANNELS * BYTES_PER_CHANNEL <= u32::MAX,
    ensures
        layout.bytes_per_row == res * CHANNELS * BYTES_PER_CHANNEL,
        layout.rows_per_image == res,
{
    TexelCopyLayout { bytes_per_row: res * CHANNELS * BYTES_PER_CHANNEL, rows_per_image: res }
}

/// The copy layout covers the sampled data exactly, and the `k`-th sampled
/// texel lands at its own place in the texture: its bytes start at
/// `x` texels into row `y` of layer `z`.
pub proof fn lemma_layout_matches_samples(res: u32, k: int)
    requires
        res >= 1,
        field_res_ok(res),
        0 <= k < grid_volume(res as int),
    ensures
        ({
            let bpr = res * CHANNELS * BYTES_PER_CHANNEL;
            let rpi = res as int;
            let (x, y, z) = texel_at(res as int, k);
            &&& bpr * rpi * res == BYTES_PER_CHANNEL * (CHANNELS * grid_volume(res as int))
            &&& BYTES_PER_CHANNEL * CHANNELS * k == x * (BYTES_PER_CHANNEL * CHANNELS) + y * bpr + z
                * bpr * rpi
            &&& x < res && y < res && z < res
        }),
{
    lemma_grid_cell_inside(res as int, k);
    let (z, y, x) = grid_cell(res as int, k);
    let r = res as int;
    assert(k == (z * r + y) * r + x);
    assert(8 * k == x * 8 + y * (r * 8) + z * (r * 8) * r) by (nonlinear_arith)
        requires
            k == (z * r + y) * r + x,
    ;
    assert((r * 8) * r * r == 2 * (4 * (r * r * r))) by (nonlinear_arith);
}

/// Longest time, in milliseconds, that a drawn frame may use a field texture
/// sampled earlier.
pub const FIELD_REFRESH_MS: u64 = 500;

/// When the field texture was last sampled and uploaded.
pub struct FieldRefresh {
    /// Simulation time of the last upload, in whole milliseconds.
    pub last_upload_ms: u64,
}

impl FieldRefresh {
    /// A new upload is due at `now_ms`: the field is looked up in the
    /// texture, and at least `FIELD_REFRESH_MS` have passed since the last
    /// upload.
    pub open spec fn due(self, texture: bool, now_ms: u64) -> bool {
        texture && now_ms >= self.last_upload_ms + FIELD_REFRESH_MS
    }

    /// The tracker after an upload at `now_ms`, if one is due then.
    pub open spec fn after(self, texture: bool, now_ms: u64) -> Self {
        if self.due(texture, now_ms) {
            FieldRefresh { last_upload_ms: now_ms }
        } else {
            self
        }
    }

    /// Starts tracking from an upload made at `now_ms`.
    pub fn new(now_ms: u64) -> (r: Self)
        ensures
            r.last_upload_ms == now_ms,
    {
        FieldRefresh { last_upload_ms: now_ms }
    }

    /// Says whether the texture must be sampled and uploaded again at
    /// `now_ms`, and if so records the upload.
    pub fn check(&mut self, texture: bool, now_ms: u64) -> (upload: bool)
        ensures
            upload == old(self).due(texture, now_ms),
            *final(self) == old(self).after(texture, now_ms),
    {
        if texture && now_ms >= self.last_upload_ms && now_ms - self.last_upload_ms
            >= FIELD_REFRESH_MS {
            self.last_upload_ms = now_ms;
            true
        } else {
            false
        }
    }
}

/// While the field comes from the texture and time does not run backwards,
/// every check leaves the texture less than `FIELD_REFRESH_MS` old, and it
/// uploads only when the texture has reached that age, recording the upload
/// at the time it is made.
pub proof fn lemma_texture_stays_fresh(r: FieldRefresh, now_ms: u64)
    requires
        r.last_upload_ms <= now_ms,
    ensures
        now_ms - r.after(true, now_ms).last_upload_ms < FIELD_REFRESH_MS,
        r.due(true, now_ms) <==> now_ms - r.last_upload_ms >= FIELD_REFRESH_MS,
        r.after(false, now_ms) == r,
        r.after(true, now_ms) == (if now_ms >= r.last_upload_ms + FIELD_REFRESH_MS {
            FieldRefresh { last_upload_ms: now_ms }
        } else {
            r
        }),
{
}

/// The tracker after `k` redraws at the times `ts[0]`, ..., `ts[k - 1]`,
/// all rendered while the field comes from the texture.
pub open spec fn refresh_run(r: FieldRefresh, ts: Seq<u64>, k: nat) -> FieldRefresh
    decreases k,
{
    if k == 0 {
        r
    } else {
        refresh_run(r, ts, (k - 1) as nat).after(true, ts[k - 1])
    }
}

/// The redraw at `ts[k]` uploads the texture.
pub open spec fn uploads_at(r: FieldRefresh, ts: Seq<u64>, k: nat) -> bool {
    refresh_run(r, ts, k).due(true, ts[k as int])
}

/// Redraw times that never run backwards, none before the last upload.
pub open spec fn times_ok(r: FieldRefresh, ts: Seq<u64>) -> bool {
    &&& forall|a: int, b: int| 0 <= a <= b < ts.len() ==> ts[a] <= ts[b]
    &&& ts.len() > 0 ==> r.last_upload_ms <= ts[0]
}

proof fn lemma_run_fresh(r: FieldRefresh, ts: Seq<u64>, k: nat)
    requires
        times_ok(r, ts),
        0 < k <= ts.len(),
    ensures
        refresh_run(r, ts, k).last_upload_ms <= ts[k - 1],
        ts[k - 1] - refresh_run(r, ts, k).last_upload_ms < FIELD_REFRESH_MS,
    decreases k,
{
    if k > 1 {
        lemma_run_fresh(r, ts, (k - 1) as nat);
        assert(ts[k - 2] <= ts[k - 1]);
    } else {
        assert(refresh_run(r, ts, 0) == r);
    }
}

proof fn lemma_run_monotone(r: FieldRefresh, ts: Seq<u64>, n: nat, m: nat)
    requires
        n <= m <= ts.len(),
    ensures
        refresh_run(r, ts, n).last_upload_ms <= refresh_run(r, ts, m).last_upload_ms,
    decreases m,
{
    if m > n {
        lemma_run_monotone(r, ts, n, (m - 1) as nat);
    }
}

proof fn lemma_run_unchanged(r: FieldRefresh, ts: Seq<u64>, i: nat, m: nat)
    requires
        i + 1 <= m <= ts.len(),
        forall|k: nat| i < k < m ==> !#[trigger] uploads_at(r, ts, k),
    ensures
        refresh_run(r, ts, m) == refresh_run(r, ts, i + 1),
    decreases m,
{
    if m > i + 1 {
        lemma_run_unchanged(r, ts, i, (m - 1) as nat);
        assert(!uploads_at(r, ts, (m - 1) as nat));
    }
}

/// Over a run of redraws in texture mode, with time never running
/// backwards, every stretch from a redraw at `ts[i]` to a redraw at
/// `ts[j]` at least `FIELD_REFRESH_MS` later holds an upload at a time in
/// `(ts[i], ts[j]]`; and two uploads are always at least
/// `FIELD_REFRESH_MS` apart, so the texture is not uploaded on every frame.
pub proof fn lemma_texture_refreshed_every_interval(r: FieldRefresh, ts: Seq<u64>, i: nat, j: nat)
    requires
        times_ok(r, ts),
        i < j < ts.len(),
        ts[j as int] >= ts[i as int] + FIELD_REFRESH_MS,
    ensures
        exists|k: nat|
            i < k <= j && #[trigger] uploads_at(r, ts, k) && ts[i as int] < ts[k as int] <= ts[j
                as int],
{
    lemma_run_fresh(r, ts, i + 1);
    if exists|k: nat| i < k < j && #[trigger] uploads_at(r, ts, k) {
        let k = choose|k: nat| i < k < j && #[trigger] uploads_at(r, ts, k);
        lemma_run_monotone(r, ts, i + 1, k);
        assert(ts[k as int] <= ts[j as int]);
        assert(uploads_at(r, ts, k));
    } else {
        lemma_run_unchanged(r, ts, i, j);
        assert(uploads_at(r, ts, j));
    }
}

/// Two uploads in a run of texture-mode redraws are at least
/// `FIELD_REFRESH_MS` apart.
pub proof fn lemma_uploads_spaced(r: FieldRefresh, ts: Seq<u64>, k1: nat, k2: nat)
    requires
        k1 < k2 < ts.len(),
        uploads_at(r, ts, k1),
        uploads_at(r, ts, k2),
    ensures
        ts[k2 as int] >= ts[k1 as int] + FIELD_REFRESH_MS,
{
    assert(refresh_run(r, ts, k1 + 1).last_upload_ms == ts[k1 as int]);
    lemma_run_monotone(r, ts, k1 + 1, k2);
}

} // verus!

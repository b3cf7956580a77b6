use vstd::prelude::*;
use crate::grid::{grid_cell, grid_volume, lemma_grid_cell_of};

verus! {

/// Number of streamlines traced from fixed seed points.
pub const N_SEEDS: u32 = 512;

/// Number of vertices traced along each streamline.
pub const N_STEPS: u32 = 256;

/// Vertex `i` of streamline `s` sits at this place in the vertex buffer:
/// the streamlines are stored one after the other.
pub open spec fn vertex_index(n_steps: int, s: int, i: int) -> int {
    s * n_steps + i
}

/// Segment `i` of streamline `s` (joining its vertices `i` and `i + 1`)
/// starts at this place in the index buffer: two indices per segment,
/// `n_steps - 1` segments per streamline.
pub open spec fn segment_slot(n_steps: int, s: int, i: int) -> int {
    2 * (s * (n_steps - 1) + i)
}

/// `ix` holds segment `i` of streamline `s` at the segment's place: the
/// segment's first vertex, then the vertex after it.
pub open spec fn holds_segment(ix: Seq<u32>, n_steps: int, s: int, i: int) -> bool {
    &&& ix[segment_slot(n_steps, s, i)] == vertex_index(n_steps, s, i)
    &&& ix[segment_slot(n_steps, s, i) + 1] == vertex_index(n_steps, s, i) + 1
}

/// The length of the index buffer: two indices for each of the
/// `n_steps - 1` segments of each of the `n_seeds` streamlines.
pub open spec fn index_count(n_seeds: int, n_steps: int) -> int {
    2 * (n_seeds * (n_steps - 1))
}

/// The value at place `j` of the index buffer: place `j` belongs to segment
/// `j / 2`, which is segment `(j / 2) % (n_steps - 1)` of streamline
/// `(j / 2) / (n_steps - 1)`; even places hold the segment's first vertex,
/// odd places the vertex after it.
pub open spec fn index_value(n_steps: int, j: int) -> int {
    let k = j / 2;
    vertex_index(n_steps, k / (n_steps - 1), k % (n_steps - 1)) + j % 2
}

/// The whole index buffer for `n_seeds` streamlines of `n_steps` vertices.
pub open spec fn streamline_indices(n_seeds: int, n_steps: int) -> Seq<u32> {
    Seq::new(index_count(n_seeds, n_steps) as nat, |j: int| index_value(n_steps, j) as u32)
}

/// The inputs on which the index buffer can be built: at least one vertex
/// per streamline, every vertex index fits in a `u32`, and the buffer's
/// length fits in a `usize`.
pub open spec fn index_buffer_inputs_ok(n_seeds: u32, n_steps: u32) -> bool {
    &&& n_steps >= 1
    &&& n_seeds * n_steps <= u32::MAX + 1
    &&& index_count(n_seeds as int, n_steps as int) <= usize::MAX
}

/// Where a segment's place lies relative to the buffer and its neighbours.
proof fn lemma_slot_bounds(n_steps: int, s: int, i: int, n_seeds: int)
    by (nonlinear_arith)
    requires
        n_steps >= 1,
        0 <= s < n_seeds,
        0 <= i < n_steps - 1,
    ensures
        0 <= segment_slot(n_steps, s, i),
        segment_slot(n_steps, s, i) + 1 < index_count(n_seeds, n_steps),
        segment_slot(n_steps, s, i) + 2 <= segment_slot(n_steps, s + 1, 0),
        segment_slot(n_steps, s, i) + 2 == segment_slot(n_steps, s, i + 1),
{
}

/// The closed form of the buffer gives a segment's two vertices at its place.
proof fn lemma_slot_value(n_steps: int, s: int, i: int, b: int)
    requires
        n_steps >= 2,
        0 <= s,
        0 <= i < n_steps - 1,
        0 <= b < 2,
    ensures
        index_value(n_steps, segment_slot(n_steps, s, i) + b) == vertex_index(n_steps, s, i) + b,
{
    let seg = n_steps - 1;
    let k = s * seg + i;
    assert(segment_slot(n_steps, s, i) + b == 2 * k + b);
    vstd::arithmetic::div_mod::lemma_fundamental_div_mod_converse(2 * k + b, 2, k, b);
    assert(0 <= k) by (nonlinear_arith)
        requires
            0 <= s,
            0 <= i,
            seg >= 1,
            k == s * seg + i,
    ;
    vstd::arithmetic::div_mod::lemma_fundamental_div_mod_converse(k, seg, s, i);
}

/// Splits a place of the index buffer into streamline, segment and end.
proof fn lemma_place_decompose(n_seeds: int, n_steps: int, j: int)
    requires
        n_steps >= 2,
        n_seeds >= 0,
        0 <= j < index_count(n_seeds, n_steps),
    ensures
        ({
            let k = j / 2;
            let s = k / (n_steps - 1);
            let i = k % (n_steps - 1);
            &&& 0 <= s < n_seeds
            &&& 0 <= i < n_steps - 1
            &&& j == segment_slot(n_steps, s, i) + j % 2
        }),
{
    let seg = n_steps - 1;
    let k = j / 2;
    let s = k / seg;
    let i = k % seg;
    assert(j == 2 * k + j % 2);
    assert(k < n_seeds * seg);
    assert(k == seg * s + i) by {
        vstd::arithmetic::div_mod::lemma_fundamental_div_mod(k, seg);
    }
    assert(0 <= i < seg) by {
        vstd::arithmetic::div_mod::lemma_mod_bound(k, seg);
    }
    assert(0 <= s < n_seeds) by (nonlinear_arith)
        requires
            k == seg * s + i,
            0 <= i < seg,
            0 <= k < n_seeds * seg,
            seg >= 1,
    ;
    assert(j == segment_slot(n_steps, s, i) + j % 2) by (nonlinear_arith)
        requires
            j == 2 * k + j % 2,
            k == seg * s + i,
            seg == n_steps - 1,
    ;
}

/// A vertex of one of the `n_seeds` streamlines lies in the vertex buffer.
proof fn lemma_vertex_bounds(n_steps: int, s: int, i: int, n_seeds: int)
    by (nonlinear_arith)
    requires
        n_steps >= 1,
        0 <= s < n_seeds,
        0 <= i < n_steps,
    ensures
        0 <= vertex_index(n_steps, s, i) < n_seeds * n_steps,
        s * n_steps <= (n_seeds - 1) * n_steps,
{
}

/// A sequence of the right length that holds every segment's two vertex
/// indices at the segment's place is the whole index buffer.
proof fn lemma_pairs_determine_buffer(ix: Seq<u32>, n_seeds: u32, n_steps: u32)
    requires
        index_buffer_inputs_ok(n_seeds, n_steps),
        ix.len() == index_count(n_seeds as int, n_steps as int),
        forall|s: int, i: int|
            0 <= s < n_seeds && 0 <= i < n_steps - 1 ==> #[trigger] holds_segment(ix, n_steps as int, s, i),
    ensures
        ix == streamline_indices(n_seeds as int, n_steps as int),
{
    let want = streamline_indices(n_seeds as int, n_steps as int);
    assert forall|j: int| 0 <= j < ix.len() implies ix[j] == want[j] by {
        let k = j / 2;
        let t = k / (n_steps - 1);
        let i = k % (n_steps - 1);
        lemma_place_decompose(n_seeds as int, n_steps as int, j);
        lemma_slot_value(n_steps as int, t, i, j % 2);
        assert(holds_segment(ix, n_steps as int, t, i));
        lemma_vertex_bounds(n_steps as int, t, i + 1, n_seeds as int);
    }
    assert(ix =~= want);
}

/// Builds the line-list index buffer that draws every streamline as a chain
/// of segments between consecutive vertices.
pub fn build_index_buffer(n_seeds: u32, n_steps: u32) -> (indices: Vec<u32>)
    requires
        index_buffer_inputs_ok(n_seeds, n_steps),
    ensures
        indices@ == streamline_indices(n_seeds as int, n_steps as int),
        indices@.len() == index_count(n_seeds as int, n_steps as int),
        forall|s: int, i: int|
            0 <= s < n_seeds && 0 <= i < n_steps - 1 ==> #[trigger] holds_segment(
                indices@,
                n_steps as int,
                s,
                i,
            ),
{
    let segments: u32 = n_steps - 1;
    proof {
        assert(0 <= n_seeds * segments <= n_seeds * n_steps) by (nonlinear_arith)
            requires
                segments == n_steps - 1,
                n_steps >= 1,
        ;
    }
    let capacity: usize = (n_seeds as usize) * (segments as usize) * 2;
    let mut indices: Vec<u32> = Vec::with_capacity(capacity);
    let mut s: u32 = 0;
    while s < n_seeds
        invariant
            index_buffer_inputs_ok(n_seeds, n_steps),
            segments == n_steps - 1,
            s <= n_seeds,
            indices@.len() == segment_slot(n_steps as int, s as int, 0),
            forall|t: int, i: int|
                0 <= t < s && 0 <= i < n_steps - 1 ==> #[trigger] holds_segment(indices@, n_steps as int, t, i),
        decreases n_seeds - s,
    {
        proof {
            lemma_vertex_bounds(n_steps as int, s as int, 0, n_seeds as int);
            assert((n_seeds - 1) * n_steps + n_steps == n_seeds * n_steps) by (nonlinear_arith);
        }
        let base: u32 = s * n_steps;
        let mut i: u32 = 0;
        while i < segments
            invariant
                index_buffer_inputs_ok(n_seeds, n_steps),
                segments == n_steps - 1,
                s < n_seeds,
                i <= segments,
                base == s * n_steps,
                base + n_steps <= n_seeds * n_steps,
                indices@.len() == segment_slot(n_steps as int, s as int, i as int),
                forall|t: int, j: int|
                    (0 <= t < s && 0 <= j < n_steps - 1) || (t == s && 0 <= j < i) ==> #[trigger] holds_segment(indices@, n_steps as int, t, j),
            decreases segments - i,
        {
            let ghost before = indices@;
            indices.push(base + i);
            indices.push(base + i + 1);
            proof {
                lemma_slot_bounds(n_steps as int, s as int, i as int, (s + 1) as int);
                assert forall|t: int, j: int|
                    (0 <= t < s && 0 <= j < n_steps - 1) || (t == s && 0 <= j < i + 1) implies
                    #[trigger] holds_segment(indices@, n_steps as int, t, j) by {
                    if t == s && j == i {
                    } else {
                        assert(holds_segment(before, n_steps as int, t, j));
                        if t < s {
                            lemma_slot_bounds(n_steps as int, t, j, s as int);
                            assert(segment_slot(n_steps as int, s as int, 0) <= segment_slot(
                                n_steps as int,
                                s as int,
                                i as int,
                            )) by (nonlinear_arith)
                                requires
                                    i >= 0,
                                    n_steps >= 1,
                            ;
                        } else {
                            lemma_slot_bounds(n_steps as int, t, j, (s + 1) as int);
                        }
                    }
                }
            }
            i = i + 1;
        }
        proof {
            assert(segment_slot(n_steps as int, s as int, segments as int) == segment_slot(
                n_steps as int,
                (s + 1) as int,
                0,
            )) by (nonlinear_arith)
                requires
                    segments == n_steps - 1,
            ;
        }
        s = s + 1;
    }
    proof {
        assert(s == n_seeds);
        assert(forall|t: int, j: int|
            0 <= t < n_seeds && 0 <= j < n_steps - 1 ==> #[trigger] holds_segment(indices@, n_steps as int, t, j));
        assert(segment_slot(n_steps as int, n_seeds as int, 0) == index_count(
            n_seeds as int,
            n_steps as int,
        ));
        lemma_pairs_determine_buffer(indices@, n_seeds, n_steps);
    }
    indices
}

/// Every index names a vertex of the vertex buffer, which holds
/// `n_seeds * n_steps` vertices.
pub proof fn lemma_indices_in_range(n_seeds: u32, n_steps: u32)
    requires
        index_buffer_inputs_ok(n_seeds, n_steps),
    ensures
        forall|j: int|
            0 <= j < streamline_indices(n_seeds as int, n_steps as int).len() ==> #[trigger]
            streamline_indices(n_seeds as int, n_steps as int)[j] < n_seeds * n_steps,
{
    let ix = streamline_indices(n_seeds as int, n_steps as int);
    assert forall|j: int| 0 <= j < ix.len() implies #[trigger] ix[j] < n_seeds * n_steps by {
        let k = j / 2;
        let t = k / (n_steps - 1);
        let i = k % (n_steps - 1);
        lemma_place_decompose(n_seeds as int, n_steps as int, j);
        lemma_vertex_bounds(n_steps as int, t, i + 1, n_seeds as int);
        lemma_slot_value(n_steps as int, t, i, j % 2);
    }
}

/// The two vertex indices of segment `k` of the index buffer.
pub open spec fn segment_ends(n_seeds: int, n_steps: int, k: int) -> (int, int) {
    let ix = streamline_indices(n_seeds, n_steps);
    (ix[2 * k] as int, ix[2 * k + 1] as int)
}

/// Every segment joins a vertex to the next vertex of the same streamline:
/// no segment bridges the end of one streamline and the start of another.
pub proof fn lemma_segments_stay_on_streamline(n_seeds: u32, n_steps: u32)
    requires
        index_buffer_inputs_ok(n_seeds, n_steps),
    ensures
        forall|k: int|
            0 <= k < n_seeds * (n_steps - 1) ==> {
                let (a, b) = #[trigger] segment_ends(n_seeds as int, n_steps as int, k);
                &&& b == a + 1
                &&& a / (n_steps as int) == b / (n_steps as int)
            },
{
    assert forall|k: int| 0 <= k < n_seeds * (n_steps - 1) implies {
        let (a, b) = #[trigger] segment_ends(n_seeds as int, n_steps as int, k);
        &&& b == a + 1
        &&& a / (n_steps as int) == b / (n_steps as int)
    } by {
        let seg = n_steps - 1;
        let t = k / seg;
        let i = k % seg;
        let ix = streamline_indices(n_seeds as int, n_steps as int);
        lemma_place_decompose(n_seeds as int, n_steps as int, 2 * k);
        lemma_place_decompose(n_seeds as int, n_steps as int, 2 * k + 1);
        lemma_slot_value(n_steps as int, t, i, 0);
        lemma_slot_value(n_steps as int, t, i, 1);
        lemma_vertex_bounds(n_steps as int, t, i + 1, n_seeds as int);
        let v = vertex_index(n_steps as int, t, i);
        assert(ix[2 * k] as int == v);
        assert(ix[2 * k + 1] as int == v + 1);
        assert(v / (n_steps as int) == t) by {
            vstd::arithmetic::div_mod::lemma_fundamental_div_mod_converse(v, n_steps as int, t, i);
        }
        assert((v + 1) / (n_steps as int) == t) by {
            vstd::arithmetic::div_mod::lemma_fundamental_div_mod_converse(
                v + 1,
                n_steps as int,
                t,
                i + 1,
            );
        }
    }
}

/// The grid points that streamline seeds start from: the first `n` cells of
/// a `side × side × side` grid, first coordinate slowest, or the whole grid
/// when it has fewer than `n` cells.
pub fn grid_seed_cells(n: u32, side: u32) -> (cells: Vec<(u32, u32, u32)>)
    ensures
        cells@.len() == if grid_volume(side as int) < n {
            grid_volume(side as int)
        } else {
            n as int
        },
        forall|k: int| 0 <= k < cells@.len() ==> #[trigger] cells@[k] == grid_cell(side as int, k),
{
    let mut cells: Vec<(u32, u32, u32)> = Vec::with_capacity(n as usize);
    let mut xi: u32 = 0;
    while xi < side
        invariant
            xi <= side,
            cells@.len() == xi * side * side,
            cells@.len() <= n,
            forall|k: int| 0 <= k < cells@.len() ==> #[trigger] cells@[k] == grid_cell(side as int, k),
        decreases side - xi,
    {
        let mut yi: u32 = 0;
        while yi < side
            invariant
                xi < side,
                yi <= side,
                cells@.len() == (xi * side + yi) * side,
                cells@.len() <= n,
                forall|k: int|
                    0 <= k < cells@.len() ==> #[trigger] cells@[k] == grid_cell(side as int, k),
            decreases side - yi,
        {
            let mut zi: u32 = 0;
            while zi < side
                invariant
                    xi < side,
                    yi < side,
                    zi <= side,
                    cells@.len() == (xi * side + yi) * side + zi,
                    cells@.len() <= n,
                    forall|k: int|
                        0 <= k < cells@.len() ==> #[trigger] cells@[k] == grid_cell(side as int, k),
                decreases side - zi,
            {
                if cells.len() >= n as usize {
                    proof {
                        assert(cells@.len() < grid_volume(side as int)) by (nonlinear_arith)
                            requires
                                cells@.len() == (xi * side + yi) * side + zi,
                                xi < side,
                                yi < side,
                                zi < side,
                        ;
                    }
                    return cells;
                }
                proof {
                    lemma_grid_cell_of(side as int, xi as int, yi as int, zi as int);
                }
                cells.push((xi, yi, zi));
                zi = zi + 1;
            }
            proof {
                assert((xi * side + yi) * side + side == (xi * side + yi + 1) * side)
                    by (nonlinear_arith);
            }
            yi = yi + 1;
        }
        proof {
            assert((xi * side + side) * side == (xi + 1) * side * side) by (nonlinear_arith);
        }
        xi = xi + 1;
    }
    proof {
        assert(cells@.len() == grid_volume(side as int)) by (nonlinear_arith)
            requires
                cells@.len() == xi * side * side,
                xi == side,
        ;
    }
    cells
}

} // verus!

use vstd::prelude::*;

verus! {

/// Corner `j` (0..6) of the two triangles covering grid cell (`ix`, `iz`)
/// of a grid `sx` cells wide (vertex row stride `sx + 1`): triangles
/// (i0, i1, i2) and (i0, i2, i3).
pub open spec fn grid_corner(sx: int, iz: int, ix: int, j: int) -> int {
    let stride = sx + 1;
    let i0 = iz * stride + ix;
    let i1 = iz * stride + ix + 1;
    let i2 = (iz + 1) * stride + ix + 1;
    let i3 = (iz + 1) * stride + ix;
    if j == 0 || j == 3 {
        i0
    } else if j == 1 {
        i1
    } else if j == 2 || j == 4 {
        i2
    } else {
        i3
    }
}

proof fn lemma_grid_corner_bound(sx: int, sz: int, iz: int, ix: int, j: int)
    requires
        0 <= iz < sz,
        0 <= ix < sx,
        0 <= j < 6,
    ensures
        0 <= grid_corner(sx, iz, ix, j) < (sx + 1) * (sz + 1),
{
    assert(0 <= iz * (sx + 1)) by (nonlinear_arith)
        requires
            0 <= iz,
            0 <= sx,
    ;
    assert((iz + 1) * (sx + 1) + ix + 1 < (sx + 1) * (sz + 1)) by (nonlinear_arith)
        requires
            0 <= iz < sz,
            0 <= ix < sx,
    ;
    assert((iz + 1) * (sx + 1) == iz * (sx + 1) + sx + 1) by (nonlinear_arith);
}

/// Triangle indices of a grid of `sx` by `sz` cells over a
/// (`sx` + 1) by (`sz` + 1) vertex lattice stored row by row (the
/// curved-ramp and sphere meshes): six indices per cell, cells in row
/// order.
pub fn grid_indices(sx: u32, sz: u32) -> (out: Vec<u32>)
    requires
        (sx + 1) * (sz + 1) <= u32::MAX,
    ensures
        out@.len() == 6 * sx * sz,
        forall|iz: int, ix: int, j: int|
            0 <= iz < sz && 0 <= ix < sx && 0 <= j < 6 ==> #[trigger] out@[6 * (iz * sx + ix) + j]
                == grid_corner(sx as int, iz, ix, j),
        forall|k: int| 0 <= k < out@.len() ==> #[trigger] out@[k] < (sx + 1) * (sz + 1),
{
    let mut out: Vec<u32> = Vec::new();
    assert(sx + 1 <= (sx + 1) * (sz + 1)) by (nonlinear_arith);
    let stride = sx + 1;
    let mut iz: u32 = 0;
    while iz < sz
        invariant
            stride == sx + 1,
            (sx + 1) * (sz + 1) <= u32::MAX,
            iz <= sz,
            out@.len() == 6 * (iz * sx),
            forall|a: int, b: int, j: int|
                0 <= a < iz && 0 <= b < sx && 0 <= j < 6 ==> #[trigger] out@[6 * (a * sx + b) + j]
                    == grid_corner(sx as int, a, b, j),
            forall|k: int| 0 <= k < out@.len() ==> #[trigger] out@[k] < (sx + 1) * (sz + 1),
        decreases sz - iz,
    {
        let mut ix: u32 = 0;
        while ix < sx
            invariant
                stride == sx + 1,
                (sx + 1) * (sz + 1) <= u32::MAX,
                iz < sz,
                ix <= sx,
                out@.len() == 6 * (iz * sx + ix),
                forall|a: int, b: int, j: int|
                    0 <= a && 0 <= b < sx && 0 <= j < 6 && (a < iz || (a == iz && b < ix))
                        ==> #[trigger] out@[6 * (a * sx + b) + j] == grid_corner(sx as int, a, b, j),
                forall|k: int| 0 <= k < out@.len() ==> #[trigger] out@[k] < (sx + 1) * (sz + 1),
            decreases sx - ix,
        {
            proof {
                assert forall|j: int| 0 <= j < 6 implies 0 <= #[trigger] grid_corner(
                    sx as int,
                    iz as int,
                    ix as int,
                    j,
                ) < (sx + 1) * (sz + 1) by {
                    lemma_grid_corner_bound(sx as int, sz as int, iz as int, ix as int, j);
                }
                assert(grid_corner(sx as int, iz as int, ix as int, 5) == (iz + 1) * stride + ix);
                assert(grid_corner(sx as int, iz as int, ix as int, 2) == (iz + 1) * stride + ix + 1);
                assert(grid_corner(sx as int, iz as int, ix as int, 0) == iz * stride + ix);
                assert(iz * stride + ix <= (iz + 1) * stride + ix) by (nonlinear_arith)
                    requires
                        stride >= 1,
                ;
            }
            let i0 = iz * stride + ix;
            let i1 = iz * stride + ix + 1;
            let i2 = (iz + 1) * stride + ix + 1;
            let i3 = (iz + 1) * stride + ix;
            let ghost before = out@;
            out.push(i0);
            out.push(i1);
            out.push(i2);
            out.push(i0);
            out.push(i2);
            out.push(i3);
            proof {
                let base = 6 * (iz * sx + ix);
                assert(out@.len() == base + 6);
                assert forall|a: int, b: int, j: int|
                    0 <= a && 0 <= b < sx && 0 <= j < 6 && (a < iz || (a == iz && b < ix + 1))
                        implies #[trigger] out@[6 * (a * sx + b) + j] == grid_corner(sx as int, a, b, j) by {
                    if a == iz && b == ix {
                    } else {
                        assert(a * sx + b < iz * sx + ix) by (nonlinear_arith)
                            requires
                                0 <= b < sx,
                                0 <= ix,
                                a < iz || (a == iz && b < ix),
                        ;
                        assert(6 * (a * sx + b) + j < base);
                        assert(0 <= 6 * (a * sx + b) + j) by (nonlinear_arith)
                            requires
                                0 <= a,
                                0 <= b,
                                0 <= sx,
                                0 <= j,
                        ;
                        assert(out@[6 * (a * sx + b) + j] == before[6 * (a * sx + b) + j]);
                    }
                }
            }
            ix = ix + 1;
        }
        proof {
            assert(iz * sx + sx == (iz + 1) * sx) by (nonlinear_arith);
        }
        iz = iz + 1;
    }
    proof {
        assert(6 * (sz * sx) == 6 * sx * sz) by (nonlinear_arith);
    }
    out
}


/// Number of vertices of the cylinder mesh with `seg` segments: a bottom
/// and top vertex per side column (`seg + 1` columns), two cap centres,
/// and four rim vertices per segment for the caps.
pub open spec fn cylinder_vertex_count(seg: int) -> int {
    2 * (seg + 1) + 2 + 4 * seg
}

/// Index `k` of the cylinder's index buffer: first the side quads
/// (segment `i` uses columns `i` and `i + 1`), then per segment a top cap
/// triangle (centre, rim i, rim i+1) and a bottom cap triangle (centre,
/// rim i+1, rim i).
pub open spec fn cylinder_index(seg: int, k: int) -> int {
    if k < 6 * seg {
        let i = k / 6;
        let j = k % 6;
        if j == 0 || j == 3 {
            2 * i
        } else if j == 1 {
            2 * i + 1
        } else if j == 2 || j == 4 {
            2 * i + 3
        } else {
            2 * i + 2
        }
    } else {
        let m = k - 6 * seg;
        let i = m / 6;
        let j = m % 6;
        let top = 2 * (seg + 1);
        let rim = top + 2 + 4 * i;
        if j == 0 {
            top
        } else if j == 1 {
            rim
        } else if j == 2 {
            rim + 1
        } else if j == 3 {
            top + 1
        } else if j == 4 {
            rim + 3
        } else {
            rim + 2
        }
    }
}

/// The index buffer of the cylinder mesh with `segments` segments.
pub fn cylinder_indices(segments: u32) -> (out: Vec<u32>)
    requires
        6 * segments + 4 <= u32::MAX,
    ensures
        out@.len() == 12 * segments,
        forall|k: int| 0 <= k < out@.len() ==> #[trigger] out@[k] == cylinder_index(segments as int, k),
        forall|k: int|
            0 <= k < out@.len() ==> #[trigger] out@[k] < cylinder_vertex_count(segments as int),
{
    let mut out: Vec<u32> = Vec::new();
    let mut i: u32 = 0;
    while i < segments
        invariant
            6 * segments + 4 <= u32::MAX,
            i <= segments,
            out@.len() == 6 * i,
            forall|k: int| 0 <= k < out@.len() ==> #[trigger] out@[k] == cylinder_index(segments as int, k),
        decreases segments - i,
    {
        let ghost before = out@;
        out.push(i * 2);
        out.push(i * 2 + 1);
        out.push(i * 2 + 3);
        out.push(i * 2);
        out.push(i * 2 + 3);
        out.push(i * 2 + 2);
        assert forall|k: int| 0 <= k < out@.len() implies #[trigger] out@[k] == cylinder_index(
            segments as int,
            k,
        ) by {
            if k < 6 * i {
                assert(out@[k] == before[k]);
            }
        }
        i = i + 1;
    }
    let top = 2 * (segments + 1);
    let bottom = top + 1;
    let mut i: u32 = 0;
    while i < segments
        invariant
            6 * segments + 4 <= u32::MAX,
            top == 2 * (segments + 1),
            bottom == top + 1,
            i <= segments,
            out@.len() == 6 * segments + 6 * i,
            forall|k: int| 0 <= k < out@.len() ==> #[trigger] out@[k] == cylinder_index(segments as int, k),
        decreases segments - i,
    {
        let ghost before = out@;
        let rim = top + 2 + 4 * i;
        out.push(top);
        out.push(rim);
        out.push(rim + 1);
        out.push(bottom);
        out.push(rim + 3);
        out.push(rim + 2);
        assert forall|k: int| 0 <= k < out@.len() implies #[trigger] out@[k] == cylinder_index(
            segments as int,
            k,
        ) by {
            if k < 6 * segments + 6 * i {
                assert(out@[k] == before[k]);
            }
        }
        i = i + 1;
    }
    assert forall|k: int| 0 <= k < out@.len() implies #[trigger] out@[k] < cylinder_vertex_count(
        segments as int,
    ) by {
        assert(out@[k] == cylinder_index(segments as int, k));
    }
    out
}

/// Segment `i` of a cylinder with `seg` segments: its side quad joins
/// columns `i` and `i + 1` (vertices `2i`, `2i + 1`, `2i + 2`, `2i + 3`)
/// as triangles (2i, 2i+1, 2i+3) and (2i, 2i+3, 2i+2); its top cap
/// triangle joins the top centre `2(seg + 1)` with the segment's own two
/// top rim vertices, and its bottom cap triangle joins the bottom centre
/// `2(seg + 1) + 1` with its own two bottom rim vertices, in reverse order.
/// Each segment has four rim vertices of its own, from
/// `2(seg + 1) + 2 + 4i` on.
pub proof fn lemma_cylinder_segment(seg: int, i: int)
    requires
        0 <= i < seg,
    ensures
        cylinder_index(seg, 6 * i) == 2 * i,
        cylinder_index(seg, 6 * i + 1) == 2 * i + 1,
        cylinder_index(seg, 6 * i + 2) == 2 * i + 3,
        cylinder_index(seg, 6 * i + 3) == 2 * i,
        cylinder_index(seg, 6 * i + 4) == 2 * i + 3,
        cylinder_index(seg, 6 * i + 5) == 2 * i + 2,
        cylinder_index(seg, 6 * seg + 6 * i) == 2 * (seg + 1),
        cylinder_index(seg, 6 * seg + 6 * i + 1) == 2 * (seg + 1) + 2 + 4 * i,
        cylinder_index(seg, 6 * seg + 6 * i + 2) == 2 * (seg + 1) + 2 + 4 * i + 1,
        cylinder_index(seg, 6 * seg + 6 * i + 3) == 2 * (seg + 1) + 1,
        cylinder_index(seg, 6 * seg + 6 * i + 4) == 2 * (seg + 1) + 2 + 4 * i + 3,
        cylinder_index(seg, 6 * seg + 6 * i + 5) == 2 * (seg + 1) + 2 + 4 * i + 2,
{
    assert({
        &&& (6 * i) / 6 == i && (6 * i) % 6 == 0
        &&& (6 * i + 1) / 6 == i && (6 * i + 1) % 6 == 1
        &&& (6 * i + 2) / 6 == i && (6 * i + 2) % 6 == 2
        &&& (6 * i + 3) / 6 == i && (6 * i + 3) % 6 == 3
        &&& (6 * i + 4) / 6 == i && (6 * i + 4) % 6 == 4
        &&& (6 * i + 5) / 6 == i && (6 * i + 5) % 6 == 5
    }) by (nonlinear_arith)
        requires
            0 <= i,
    ;
    assert(6 * i + 5 < 6 * seg);
    assert((6 * seg + 6 * i) - 6 * seg == 6 * i);
    assert((6 * seg + 6 * i + 1) - 6 * seg == 6 * i + 1);
    assert((6 * seg + 6 * i + 2) - 6 * seg == 6 * i + 2);
    assert((6 * seg + 6 * i + 3) - 6 * seg == 6 * i + 3);
    assert((6 * seg + 6 * i + 4) - 6 * seg == 6 * i + 4);
    assert((6 * seg + 6 * i + 5) - 6 * seg == 6 * i + 5);
    assert(6 * i + 0 == 6 * i);
}

/// The cap triangles of two different segments share no rim vertex: they
/// meet only in the two centres.
pub proof fn lemma_cylinder_caps_apart(seg: int, i: int, k: int, j: int, l: int)
    requires
        0 <= i < seg,
        0 <= k < seg,
        i != k,
        j == 1 || j == 2 || j == 4 || j == 5,
        l == 1 || l == 2 || l == 4 || l == 5,
    ensures
        cylinder_index(seg, 6 * seg + 6 * i + j) != cylinder_index(seg, 6 * seg + 6 * k + l),
{
    lemma_cylinder_segment(seg, i);
    lemma_cylinder_segment(seg, k);
}

/// Cell (`ix`, `iz`) of a grid `sx` cells wide, whose vertex rows hold
/// `sx + 1` vertices, is covered by the triangles (v, v+1, v+sx+2) and
/// (v, v+sx+2, v+sx+1), where v = iz * (sx + 1) + ix is its corner with the
/// smallest index.
pub proof fn lemma_grid_cell(sx: int, iz: int, ix: int)
    ensures
        grid_corner(sx, iz, ix, 0) == iz * (sx + 1) + ix,
        grid_corner(sx, iz, ix, 1) == iz * (sx + 1) + ix + 1,
        grid_corner(sx, iz, ix, 2) == iz * (sx + 1) + ix + sx + 2,
        grid_corner(sx, iz, ix, 3) == iz * (sx + 1) + ix,
        grid_corner(sx, iz, ix, 4) == iz * (sx + 1) + ix + sx + 2,
        grid_corner(sx, iz, ix, 5) == iz * (sx + 1) + ix + sx + 1,
{
    assert((iz + 1) * (sx + 1) == iz * (sx + 1) + sx + 1) by (nonlinear_arith);
}

} // verus!

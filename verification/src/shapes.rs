//! The shapes of the scenes, built atom by atom on the integer lattice.
//!
//! Shapes are centered around the origin, and most span `number_per_side` lattice
//! steps along an edge. The colorful hollow cube instead has `number_per_side`
//! atoms along an edge, which puts it off center by one step when that number is even.
use vstd::prelude::*;
use crate::lattice::{
    LatticePoint, AtomColor, LatticeAtom, point, rgba, rgb, atom, concat_range, cell2, slab2,
    grid2, cell3, row3, slab3, grid3, cell4, row4, sheet4, slab4, grid4, neg, has_point,
    centered, point_within, within, mirrored2, mirrored3, mirrored4, bounded2, bounded3,
    bounded4, lemma_grid2_shape, lemma_grid3_shape, lemma_grid4_shape, lemma_concat_member,
    lemma_concat_has, lemma_own_point, lemma_grid3_member, lemma_grid3_has, lemma_grid2_has, all_atoms, lemma_grid2_all, lemma_grid3_all, lemma_grid4_all, lemma_concat_all, lemma_grid4_has, distinct_points, lemma_concat_distinct, lemma_grid2_distinct, lemma_grid3_distinct, lemma_grid4_distinct, lemma_concat_uniform_len, lemma_grid2_len, lemma_grid3_len,
};

verus! {

pub open spec fn red() -> AtomColor { rgb(255, 0, 0) }
pub open spec fn green() -> AtomColor { rgb(0, 255, 0) }
pub open spec fn blue() -> AtomColor { rgb(0, 0, 255) }
pub open spec fn yellow() -> AtomColor { rgb(255, 255, 0) }
pub open spec fn cyan() -> AtomColor { rgb(0, 255, 255) }
pub open spec fn purple() -> AtomColor { rgb(255, 0, 255) }
pub open spec fn white() -> AtomColor { rgb(255, 255, 255) }
pub open spec fn black() -> AtomColor { rgb(0, 0, 0) }
pub open spec fn orange() -> AtomColor { rgb(255, 140, 26) }

fn rgb8(r: u8, g: u8, b: u8) -> (c: AtomColor)
    ensures
        c == rgb(r as int, g as int, b as int),
{
    AtomColor::Rgba8 { r, g, b, a: 255 }
}

fn orange_color() -> (c: AtomColor)
    ensures
        c == orange(),
{
    rgb8(255, 140, 26)
}

fn lattice_atom(x: i32, y: i32, z: i32, w: i32, color: AtomColor) -> (a: LatticeAtom)
    ensures
        a == atom(point(x as int, y as int, z as int, w as int), color),
{
    LatticeAtom { point: LatticePoint { x, y, z, w }, color }
}

/// Whether a coordinate lies strictly inside the two outer layers of `[start, end]`.
pub open spec fn deep_inside(c: int, start: int, end: int) -> bool {
    start + 1 < c < end - 1
}

/// The color channel for coordinate `c` in a shape spanning `[-end, end]`
/// with `n` steps per side: an eight-bit ramp from `-end` upward.
pub open spec fn channel(c: int, end: int, n: int) -> int {
    (((c + end) * 255) / n) as u8 as int
}

fn channel_exec(c: i32, end: i32, n: i32) -> (r: u8)
    requires
        0 <= c + end <= 2 * end,
        n > 0,
        2 * end * 255 <= i32::MAX,
    ensures
        r == channel(c as int, end as int, n as int),
{
    ((c + end) * 255 / n) as u8
}

// ---------------------------------------------------------------------------
// Blocks shared by several shapes.

/// The eight atoms placed for the cell `(a, b, c)` of a hypercube surface, one on
/// each of its eight bounding cubes, at coordinates `low` and `high`.
pub open spec fn hyper_faces(a: int, b: int, c: int, low: int, high: int) -> Seq<LatticeAtom> {
    seq![
        atom(point(a, b, c, low), purple()),
        atom(point(a, b, c, high), cyan()),
        atom(point(a, b, low, c), green()),
        atom(point(a, b, high, c), blue()),
        atom(point(a, low, b, c), yellow()),
        atom(point(a, high, b, c), white()),
        atom(point(low, a, b, c), red()),
        atom(point(high, a, b, c), orange()),
    ]
}

fn push_hyper_faces(atoms: &mut Vec<LatticeAtom>, a: i32, b: i32, c: i32, low: i32, high: i32)
    ensures
        final(atoms)@ == old(atoms)@ + hyper_faces(a as int, b as int, c as int, low as int, high as int),
{
    atoms.push(lattice_atom(a, b, c, low, rgb8(255, 0, 255)));
    atoms.push(lattice_atom(a, b, c, high, rgb8(0, 255, 255)));
    atoms.push(lattice_atom(a, b, low, c, rgb8(0, 255, 0)));
    atoms.push(lattice_atom(a, b, high, c, rgb8(0, 0, 255)));
    atoms.push(lattice_atom(a, low, b, c, rgb8(255, 255, 0)));
    atoms.push(lattice_atom(a, high, b, c, rgb8(255, 255, 255)));
    atoms.push(lattice_atom(low, a, b, c, rgb8(255, 0, 0)));
    atoms.push(lattice_atom(high, a, b, c, orange_color()));
}

/// The six atoms placed for the cell `(a, b)` of a cube surface in the `w = 0` space,
/// one on each face, at coordinates `low` and `high`.
pub open spec fn cube_faces(a: int, b: int, low: int, high: int) -> Seq<LatticeAtom> {
    seq![
        atom(point(a, b, low, 0), green()),
        atom(point(a, b, high, 0), blue()),
        atom(point(a, low, b, 0), yellow()),
        atom(point(a, high, b, 0), white()),
        atom(point(low, a, b, 0), red()),
        atom(point(high, a, b, 0), orange()),
    ]
}

fn push_cube_faces(atoms: &mut Vec<LatticeAtom>, a: i32, b: i32, low: i32, high: i32)
    ensures
        final(atoms)@ == old(atoms)@ + cube_faces(a as int, b as int, low as int, high as int),
{
    atoms.push(lattice_atom(a, b, low, 0, rgb8(0, 255, 0)));
    atoms.push(lattice_atom(a, b, high, 0, rgb8(0, 0, 255)));
    atoms.push(lattice_atom(a, low, b, 0, rgb8(255, 255, 0)));
    atoms.push(lattice_atom(a, high, b, 0, rgb8(255, 255, 255)));
    atoms.push(lattice_atom(low, a, b, 0, rgb8(255, 0, 0)));
    atoms.push(lattice_atom(high, a, b, 0, orange_color()));
}

// ---------------------------------------------------------------------------
// Hollow cube with color ramps.

/// The first lattice coordinate of an edge of `n` positions, `-(n / 2)`; the
/// last is `colorful_last(n)`, so an edge holds exactly `n` positions.
pub open spec fn colorful_first(n: int) -> int {
    -(n / 2)
}

pub open spec fn colorful_last(n: int) -> int {
    colorful_first(n) + n - 1
}

pub open spec fn cube_surface_colorful_cell(start: int, end: int, n: int) -> spec_fn(int, int, int) -> Seq<LatticeAtom> {
    |x: int, y: int, z: int|
        if deep_inside(x, start, end) && deep_inside(y, start, end) && deep_inside(z, start, end) {
            Seq::empty()
        } else {
            seq![atom(point(x, y, z, 0), AtomColor::RgbRatio {
                red: (x - start) as u32, green: (y - start) as u32, blue: (z - start) as u32, scale: n as u32,
            })]
        }
}

/// The cube of `n` positions per edge, from `colorful_first(n)` to `colorful_last(n)`.
pub open spec fn cube_surface_colorful(n: int) -> Seq<LatticeAtom> {
    grid3(colorful_first(n), colorful_last(n),
        cube_surface_colorful_cell(colorful_first(n), colorful_last(n), n))
}

/// A hollow 3D cube made of `number_per_side` smaller cubes along each edge, at the
/// lattice coordinates `-(number_per_side / 2)` and the `number_per_side - 1` after it.
/// It keeps two layers on every side; the color channels are the coordinates
/// shifted to start at zero, over `number_per_side`.
pub fn create_cube_surface_colorful(number_per_side: usize) -> (atoms: Vec<LatticeAtom>)
    requires
        number_per_side <= i32::MAX,
    ensures
        atoms@ == cube_surface_colorful(number_per_side as int),
{
    let scale = number_per_side as u32;
    let n = number_per_side as i32;
    let start = -(n / 2);
    let end = start + n - 1;
    let ghost lo = start as int;
    let ghost hi = end as int;
    let ghost b = cube_surface_colorful_cell(lo, hi, number_per_side as int);
    let mut atoms: Vec<LatticeAtom> = Vec::new();
    let mut x = start;
    while x <= end
        invariant
            scale as int == number_per_side,
            number_per_side <= i32::MAX,
            lo == start, hi == end,
            start == colorful_first(number_per_side as int),
            end == colorful_last(number_per_side as int),
            b == cube_surface_colorful_cell(lo, hi, number_per_side as int),
            start <= x <= end + 1,
            atoms@ == concat_range(lo, x - 1, slab3(lo, hi, b)),
        decreases end + 1 - x,
    {
        let ghost pre_x = atoms@;
        let mut y = start;
        while y <= end
            invariant
                scale as int == number_per_side,
                number_per_side <= i32::MAX,
                lo == start, hi == end,
                start == colorful_first(number_per_side as int),
                end == colorful_last(number_per_side as int),
                b == cube_surface_colorful_cell(lo, hi, number_per_side as int),
                start <= x <= end,
                start <= y <= end + 1,
                atoms@ == pre_x + concat_range(lo, y - 1, row3(lo, hi, b, x as int)),
            decreases end + 1 - y,
        {
            let ghost pre_y = atoms@;
            let mut z = start;
            while z <= end
                invariant
                    scale as int == number_per_side,
                    number_per_side <= i32::MAX,
                    lo == start, hi == end,
                    start == colorful_first(number_per_side as int),
                    end == colorful_last(number_per_side as int),
                    b == cube_surface_colorful_cell(lo, hi, number_per_side as int),
                    start <= x <= end,
                    start <= y <= end,
                    start <= z <= end + 1,
                    atoms@ == pre_y + concat_range(lo, z - 1, cell3(b, x as int, y as int)),
                decreases end + 1 - z,
            {
                if !(x > start + 1 && x < end - 1 && y > start + 1 && y < end - 1
                    && z > start + 1 && z < end - 1)
                {
                    let color = AtomColor::RgbRatio {
                        red: (x - start) as u32,
                        green: (y - start) as u32,
                        blue: (z - start) as u32,
                        scale,
                    };
                    atoms.push(lattice_atom(x, y, z, 0, color));
                }
                assert(atoms@ == pre_y + concat_range(lo, z as int, cell3(b, x as int, y as int)));
                z = z + 1;
            }
            assert(atoms@ == pre_x + concat_range(lo, y as int, row3(lo, hi, b, x as int)));
            y = y + 1;
        }
        assert(atoms@ == concat_range(lo, x as int, slab3(lo, hi, b)));
        x = x + 1;
    }
    atoms
}

// ---------------------------------------------------------------------------
// Hollow hypercube.

pub open spec fn cube_4d_cell(end: int, n: int) -> spec_fn(int, int, int, int) -> Seq<LatticeAtom> {
    |x: int, y: int, z: int, w: int|
        if deep_inside(x, -end, end) && deep_inside(y, -end, end) && deep_inside(z, -end, end)
            && deep_inside(w, -end, end) {
            Seq::empty()
        } else {
            seq![atom(point(x, y, z, w), rgba(channel(x, end, n), channel(y, end, n), channel(z, end, n), channel(w, end, n)))]
        }
}

pub open spec fn cube_4d(n: int) -> Seq<LatticeAtom> {
    grid4(-(n / 2), n / 2, cube_4d_cell(n / 2, n))
}

/// A hypercube whose atoms keep two layers on every side. The four color
/// channels (red, green, blue, alpha) ramp along the four axes.
pub fn create_cube_4d(number_per_side: usize) -> (atoms: Vec<LatticeAtom>)
    requires
        0 < number_per_side <= i32::MAX,
        number_per_side / 2 * 2 * 255 <= i32::MAX,
    ensures
        atoms@ == cube_4d(number_per_side as int),
{
    let n = number_per_side as i32;
    let end = (number_per_side / 2) as i32;
    let start = -end;
    let ghost lo = start as int;
    let ghost hi = end as int;
    let ghost b = cube_4d_cell(hi, n as int);
    let mut atoms: Vec<LatticeAtom> = Vec::new();
    let mut x = start;
    while x <= end
        invariant
            n as int == number_per_side,
            end as int == number_per_side as int / 2,
            start == -end, lo == start, hi == end,
            b == cube_4d_cell(hi, n as int),
            0 < n, 2 * end * 255 <= i32::MAX,
            start <= x <= end + 1,
            atoms@ == concat_range(lo, x - 1, slab4(lo, hi, b)),
        decreases end + 1 - x,
    {
        let ghost pre_x = atoms@;
        let mut y = start;
        while y <= end
            invariant
                n as int == number_per_side,
                end as int == number_per_side as int / 2,
                start == -end, lo == start, hi == end,
                b == cube_4d_cell(hi, n as int),
                0 < n, 2 * end * 255 <= i32::MAX,
                start <= x <= end,
                start <= y <= end + 1,
                atoms@ == pre_x + concat_range(lo, y - 1, sheet4(lo, hi, b, x as int)),
            decreases end + 1 - y,
        {
            let ghost pre_y = atoms@;
            let mut z = start;
            while z <= end
                invariant
                    n as int == number_per_side,
                    end as int == number_per_side as int / 2,
                    start == -end, lo == start, hi == end,
                    b == cube_4d_cell(hi, n as int),
                    0 < n, 2 * end * 255 <= i32::MAX,
                    start <= x <= end,
                    start <= y <= end,
                    start <= z <= end + 1,
                    atoms@ == pre_y + concat_range(lo, z - 1, row4(lo, hi, b, x as int, y as int)),
                decreases end + 1 - z,
            {
                let ghost pre_z = atoms@;
                let mut w = start;
                while w <= end
                    invariant
                        n as int == number_per_side,
                        end as int == number_per_side as int / 2,
                        start == -end, lo == start, hi == end,
                        b == cube_4d_cell(hi, n as int),
                        0 < n, 2 * end * 255 <= i32::MAX,
                        start <= x <= end,
                        start <= y <= end,
                        start <= z <= end,
                        start <= w <= end + 1,
                        atoms@ == pre_z + concat_range(lo, w - 1, cell4(b, x as int, y as int, z as int)),
                    decreases end + 1 - w,
                {
                    if !(x > start + 1 && x < end - 1 && y > start + 1 && y < end - 1
                        && z > start + 1 && z < end - 1 && w > start + 1 && w < end - 1)
                    {
                        let color = AtomColor::Rgba8 {
                            r: channel_exec(x, end, n),
                            g: channel_exec(y, end, n),
                            b: channel_exec(z, end, n),
                            a: channel_exec(w, end, n),
                        };
                        atoms.push(lattice_atom(x, y, z, w, color));
                    }
                    assert(atoms@ == pre_z + concat_range(lo, w as int, cell4(b, x as int, y as int, z as int)));
                    w = w + 1;
                }
                assert(atoms@ == pre_y + concat_range(lo, z as int, row4(lo, hi, b, x as int, y as int)));
                z = z + 1;
            }
            assert(atoms@ == pre_x + concat_range(lo, y as int, sheet4(lo, hi, b, x as int)));
            y = y + 1;
        }
        assert(atoms@ == concat_range(lo, x as int, slab4(lo, hi, b)));
        x = x + 1;
    }
    atoms
}

// ---------------------------------------------------------------------------
// Surface of the hypercube: its eight bounding cubes.

pub open spec fn cube_4d_surface_cell(end: int) -> spec_fn(int, int, int) -> Seq<LatticeAtom> {
    |a: int, b: int, c: int| hyper_faces(a, b, c, -end - 1, end + 1)
}

pub open spec fn cube_4d_surface(n: int) -> Seq<LatticeAtom> {
    grid3(-(n / 2 - 1), n / 2 - 1, cube_4d_surface_cell(n / 2 - 1))
}

/// The eight bounding cubes of a hypercube, one atom per cube for every cell
/// `(a, b, c)` of the inner cube, colored by the face it lies on.
pub fn create_cube_4d_surface(number_per_side: usize) -> (atoms: Vec<LatticeAtom>)
    requires
        number_per_side <= i32::MAX,
    ensures
        atoms@ == cube_4d_surface(number_per_side as int),
{
    let end = (number_per_side / 2) as i32 - 1;
    let start = -end;
    let low = start - 1;
    let high = end + 1;
    let ghost lo = start as int;
    let ghost hi = end as int;
    let ghost f = cube_4d_surface_cell(hi);
    let mut atoms: Vec<LatticeAtom> = Vec::new();
    let mut a = start;
    while a <= end
        invariant
            end as int == number_per_side as int / 2 - 1,
            number_per_side <= i32::MAX,
            start == -end, lo == start, hi == end, low == -end - 1, high == end + 1,
            f == cube_4d_surface_cell(hi),
            start <= a <= end + 1 || (start > end && a == start),
            atoms@ == concat_range(lo, a - 1, slab3(lo, hi, f)),
        decreases end + 1 - a,
    {
        let ghost pre_a = atoms@;
        let mut b = start;
        while b <= end
            invariant
                end as int == number_per_side as int / 2 - 1,
                number_per_side <= i32::MAX,
                start == -end, lo == start, hi == end, low == -end - 1, high == end + 1,
                f == cube_4d_surface_cell(hi),
                start <= a <= end,
                start <= b <= end + 1,
                atoms@ == pre_a + concat_range(lo, b - 1, row3(lo, hi, f, a as int)),
            decreases end + 1 - b,
        {
            let ghost pre_b = atoms@;
            let mut c = start;
            while c <= end
                invariant
                    end as int == number_per_side as int / 2 - 1,
                    number_per_side <= i32::MAX,
                    start == -end, lo == start, hi == end, low == -end - 1, high == end + 1,
                    f == cube_4d_surface_cell(hi),
                    start <= a <= end,
                    start <= b <= end,
                    start <= c <= end + 1,
                    atoms@ == pre_b + concat_range(lo, c - 1, cell3(f, a as int, b as int)),
                decreases end + 1 - c,
            {
                push_hyper_faces(&mut atoms, a, b, c, low, high);
                assert(atoms@ == pre_b + concat_range(lo, c as int, cell3(f, a as int, b as int)));
                c = c + 1;
            }
            assert(atoms@ == pre_a + concat_range(lo, b as int, row3(lo, hi, f, a as int)));
            b = b + 1;
        }
        assert(atoms@ == concat_range(lo, a as int, slab3(lo, hi, f)));
        a = a + 1;
    }
    atoms
}


// ---------------------------------------------------------------------------
// Corners of the hypercube.

/// The sixteen corners in the order `create_cube_4d_corners` lists them: binary
/// counting over `(x, y, z, w)`, with `s` for 0 and `e` for 1.
pub open spec fn cube_4d_corners_of(s: int, e: int) -> Seq<LatticeAtom> {
    seq![
        atom(point(s, s, s, s), red()),
        atom(point(s, s, s, e), yellow()),
        atom(point(s, s, e, s), green()),
        atom(point(s, s, e, e), cyan()),
        atom(point(s, e, s, s), purple()),
        atom(point(s, e, s, e), white()),
        atom(point(s, e, e, s), blue()),
        atom(point(s, e, e, e), black()),
        atom(point(e, s, s, s), red()),
        atom(point(e, s, s, e), yellow()),
        atom(point(e, s, e, s), green()),
        atom(point(e, s, e, e), cyan()),
        atom(point(e, e, s, s), purple()),
        atom(point(e, e, s, e), white()),
        atom(point(e, e, e, s), blue()),
        atom(point(e, e, e, e), black()),
    ]
}

pub open spec fn cube_4d_corners(n: int) -> Seq<LatticeAtom> {
    cube_4d_corners_of(-(n / 2), n / 2)
}

/// The sixteen corners of the hypercube `[-number_per_side / 2, number_per_side / 2]^4`.
pub fn create_cube_4d_corners(number_per_side: usize) -> (atoms: Vec<LatticeAtom>)
    requires
        number_per_side <= i32::MAX,
    ensures
        atoms@ == cube_4d_corners(number_per_side as int),
{
    let e = (number_per_side / 2) as i32;
    let s = -e;
    let mut atoms: Vec<LatticeAtom> = Vec::new();
    atoms.push(lattice_atom(s, s, s, s, rgb8(255, 0, 0)));
    atoms.push(lattice_atom(s, s, s, e, rgb8(255, 255, 0)));
    atoms.push(lattice_atom(s, s, e, s, rgb8(0, 255, 0)));
    atoms.push(lattice_atom(s, s, e, e, rgb8(0, 255, 255)));
    atoms.push(lattice_atom(s, e, s, s, rgb8(255, 0, 255)));
    atoms.push(lattice_atom(s, e, s, e, rgb8(255, 255, 255)));
    atoms.push(lattice_atom(s, e, e, s, rgb8(0, 0, 255)));
    atoms.push(lattice_atom(s, e, e, e, rgb8(0, 0, 0)));
    atoms.push(lattice_atom(e, s, s, s, rgb8(255, 0, 0)));
    atoms.push(lattice_atom(e, s, s, e, rgb8(255, 255, 0)));
    atoms.push(lattice_atom(e, s, e, s, rgb8(0, 255, 0)));
    atoms.push(lattice_atom(e, s, e, e, rgb8(0, 255, 255)));
    atoms.push(lattice_atom(e, e, s, s, rgb8(255, 0, 255)));
    atoms.push(lattice_atom(e, e, s, e, rgb8(255, 255, 255)));
    atoms.push(lattice_atom(e, e, e, s, rgb8(0, 0, 255)));
    atoms.push(lattice_atom(e, e, e, e, rgb8(0, 0, 0)));
    assert(atoms@ == cube_4d_corners(number_per_side as int));
    atoms
}

// ---------------------------------------------------------------------------
// Edges of the hypercube, drawn on its eight bounding cubes.

pub open spec fn on_rim(c: int, start: int, end: int) -> int {
    if c == start || c == end { 1 } else { 0 }
}

pub open spec fn cube_4d_edges_cell(end: int) -> spec_fn(int, int, int) -> Seq<LatticeAtom> {
    |a: int, b: int, c: int|
        if on_rim(a, -end, end) + on_rim(b, -end, end) + on_rim(c, -end, end) == 2 {
            hyper_faces(a, b, c, -end - 1, end + 1)
        } else {
            Seq::empty()
        }
}

pub open spec fn cube_4d_edges(n: int) -> Seq<LatticeAtom> {
    grid3(-(n / 2 - 1), n / 2 - 1, cube_4d_edges_cell(n / 2 - 1))
}

/// Thick edges of a hypercube: the cells `(a, b, c)` with exactly two coordinates on
/// the rim of the inner cube, each placed on the eight bounding cubes.
pub fn create_cube_4d_edges(number_per_side: usize) -> (atoms: Vec<LatticeAtom>)
    requires
        number_per_side <= i32::MAX,
    ensures
        atoms@ == cube_4d_edges(number_per_side as int),
{
    let end = (number_per_side / 2) as i32 - 1;
    let start = -end;
    let low = start - 1;
    let high = end + 1;
    let ghost lo = start as int;
    let ghost hi = end as int;
    let ghost f = cube_4d_edges_cell(hi);
    let mut atoms: Vec<LatticeAtom> = Vec::new();
    let mut a = start;
    while a <= end
        invariant
            end as int == number_per_side as int / 2 - 1,
            number_per_side <= i32::MAX,
            start == -end, lo == start, hi == end, low == -end - 1, high == end + 1,
            f == cube_4d_edges_cell(hi),
            start <= a <= end + 1 || (start > end && a == start),
            atoms@ == concat_range(lo, a - 1, slab3(lo, hi, f)),
        decreases end + 1 - a,
    {
        let ghost pre_a = atoms@;
        let mut b = start;
        while b <= end
            invariant
                end as int == number_per_side as int / 2 - 1,
                number_per_side <= i32::MAX,
                start == -end, lo == start, hi == end, low == -end - 1, high == end + 1,
                f == cube_4d_edges_cell(hi),
                start <= a <= end,
                start <= b <= end + 1,
                atoms@ == pre_a + concat_range(lo, b - 1, row3(lo, hi, f, a as int)),
            decreases end + 1 - b,
        {
            let ghost pre_b = atoms@;
            let mut c = start;
            while c <= end
                invariant
                    end as int == number_per_side as int / 2 - 1,
                    number_per_side <= i32::MAX,
                    start == -end, lo == start, hi == end, low == -end - 1, high == end + 1,
                    f == cube_4d_edges_cell(hi),
                    start <= a <= end,
                    start <= b <= end,
                    start <= c <= end + 1,
                    atoms@ == pre_b + concat_range(lo, c - 1, cell3(f, a as int, b as int)),
                decreases end + 1 - c,
            {
                let mut count: u32 = 0;
                if a == start || a == end {
                    count += 1;
                }
                if b == start || b == end {
                    count += 1;
                }
                if c == start || c == end {
                    count += 1;
                }
                if count == 2 {
                    push_hyper_faces(&mut atoms, a, b, c, low, high);
                }
                assert(atoms@ == pre_b + concat_range(lo, c as int, cell3(f, a as int, b as int)));
                c = c + 1;
            }
            assert(atoms@ == pre_a + concat_range(lo, b as int, row3(lo, hi, f, a as int)));
            b = b + 1;
        }
        assert(atoms@ == concat_range(lo, a as int, slab3(lo, hi, f)));
        a = a + 1;
    }
    atoms
}

// ---------------------------------------------------------------------------
// A filled square in the y = 0 plane.

pub open spec fn square_cell(end: int, n: int) -> spec_fn(int, int) -> Seq<LatticeAtom> {
    |x: int, z: int| seq![atom(point(x, 0, z, 0), rgb(channel(x, end, n), channel(z, end, n), 128))]
}

pub open spec fn square(n: int) -> Seq<LatticeAtom> {
    grid2(-(n / 2), n / 2, square_cell(n / 2, n))
}

/// A filled square in the `(x, z)` plane; red ramps along `x`, green along `z`.
pub fn create_square(number_per_side: usize) -> (atoms: Vec<LatticeAtom>)
    requires
        0 < number_per_side <= i32::MAX,
        number_per_side / 2 * 2 * 255 <= i32::MAX,
    ensures
        atoms@ == square(number_per_side as int),
{
    let n = number_per_side as i32;
    let end = (number_per_side / 2) as i32;
    let start = -end;
    let ghost lo = start as int;
    let ghost hi = end as int;
    let ghost f = square_cell(hi, n as int);
    let mut atoms: Vec<LatticeAtom> = Vec::new();
    let mut x = start;
    while x <= end
        invariant
            n as int == number_per_side,
            end as int == number_per_side as int / 2,
            start == -end, lo == start, hi == end,
            f == square_cell(hi, n as int),
            0 < n, 2 * end * 255 <= i32::MAX,
            start <= x <= end + 1,
            atoms@ == concat_range(lo, x - 1, slab2(lo, hi, f)),
        decreases end + 1 - x,
    {
        let ghost pre_x = atoms@;
        let mut z = start;
        while z <= end
            invariant
                n as int == number_per_side,
                end as int == number_per_side as int / 2,
                start == -end, lo == start, hi == end,
                f == square_cell(hi, n as int),
                0 < n, 2 * end * 255 <= i32::MAX,
                start <= x <= end,
                start <= z <= end + 1,
                atoms@ == pre_x + concat_range(lo, z - 1, cell2(f, x as int)),
            decreases end + 1 - z,
        {
            let color = rgb8(channel_exec(x, end, n), channel_exec(z, end, n), 128);
            atoms.push(lattice_atom(x, 0, z, 0, color));
            assert(atoms@ == pre_x + concat_range(lo, z as int, cell2(f, x as int)));
            z = z + 1;
        }
        assert(atoms@ == concat_range(lo, x as int, slab2(lo, hi, f)));
        x = x + 1;
    }
    atoms
}

// ---------------------------------------------------------------------------
// Surface of a 3D cube.

pub open spec fn cube_surface_cell(end: int) -> spec_fn(int, int) -> Seq<LatticeAtom> {
    |a: int, b: int| cube_faces(a, b, -end - 1, end + 1)
}

pub open spec fn cube_surface(n: int) -> Seq<LatticeAtom> {
    grid2(-(n / 2 - 1), n / 2 - 1, cube_surface_cell(n / 2 - 1))
}

/// The six faces of a 3D cube (in the `w = 0` space), one atom per face for every
/// cell `(a, b)` of the inner square, colored by face.
pub fn create_cube_surface(number_per_side: usize) -> (atoms: Vec<LatticeAtom>)
    requires
        number_per_side <= i32::MAX,
    ensures
        atoms@ == cube_surface(number_per_side as int),
{
    let end = (number_per_side / 2) as i32 - 1;
    let start = -end;
    let low = start - 1;
    let high = end + 1;
    let ghost lo = start as int;
    let ghost hi = end as int;
    let ghost f = cube_surface_cell(hi);
    let mut atoms: Vec<LatticeAtom> = Vec::new();
    let mut a = start;
    while a <= end
        invariant
            end as int == number_per_side as int / 2 - 1,
            number_per_side <= i32::MAX,
            start == -end, lo == start, hi == end, low == -end - 1, high == end + 1,
            f == cube_surface_cell(hi),
            start <= a <= end + 1 || (start > end && a == start),
            atoms@ == concat_range(lo, a - 1, slab2(lo, hi, f)),
        decreases end + 1 - a,
    {
        let ghost pre_a = atoms@;
        let mut b = start;
        while b <= end
            invariant
                end as int == number_per_side as int / 2 - 1,
                number_per_side <= i32::MAX,
                start == -end, lo == start, hi == end, low == -end - 1, high == end + 1,
                f == cube_surface_cell(hi),
                start <= a <= end,
                start <= b <= end + 1,
                atoms@ == pre_a + concat_range(lo, b - 1, cell2(f, a as int)),
            decreases end + 1 - b,
        {
            push_cube_faces(&mut atoms, a, b, low, high);
            assert(atoms@ == pre_a + concat_range(lo, b as int, cell2(f, a as int)));
            b = b + 1;
        }
        assert(atoms@ == concat_range(lo, a as int, slab2(lo, hi, f)));
        a = a + 1;
    }
    atoms
}

// ---------------------------------------------------------------------------
// Outline of a square.

pub open spec fn square_sides(a: int, low: int, high: int) -> Seq<LatticeAtom> {
    seq![
        atom(point(low, 0, a, 0), red()),
        atom(point(high, 0, a, 0), orange()),
        atom(point(a, 0, low, 0), green()),
        atom(point(a, 0, high, 0), blue()),
    ]
}

pub open spec fn square_surface_cell(end: int) -> spec_fn(int) -> Seq<LatticeAtom> {
    |a: int| square_sides(a, -end - 1, end + 1)
}

pub open spec fn square_surface(n: int) -> Seq<LatticeAtom> {
    concat_range(-(n / 2 - 1), n / 2 - 1, square_surface_cell(n / 2 - 1))
}

/// The four sides of a square in the `(x, z)` plane, colored by side.
pub fn create_square_surface(number_per_side: usize) -> (atoms: Vec<LatticeAtom>)
    requires
        number_per_side <= i32::MAX,
    ensures
        atoms@ == square_surface(number_per_side as int),
{
    let end = (number_per_side / 2) as i32 - 1;
    let start = -end;
    let low = start - 1;
    let high = end + 1;
    let ghost lo = start as int;
    let ghost hi = end as int;
    let ghost f = square_surface_cell(hi);
    let mut atoms: Vec<LatticeAtom> = Vec::new();
    let mut a = start;
    while a <= end
        invariant
            end as int == number_per_side as int / 2 - 1,
            number_per_side <= i32::MAX,
            start == -end, lo == start, hi == end, low == -end - 1, high == end + 1,
            f == square_surface_cell(hi),
            start <= a <= end + 1 || (start > end && a == start),
            atoms@ == concat_range(lo, a - 1, f),
        decreases end + 1 - a,
    {
        let ghost pre_a = atoms@;
        atoms.push(lattice_atom(low, 0, a, 0, rgb8(255, 0, 0)));
        atoms.push(lattice_atom(high, 0, a, 0, orange_color()));
        atoms.push(lattice_atom(a, 0, low, 0, rgb8(0, 255, 0)));
        atoms.push(lattice_atom(a, 0, high, 0, rgb8(0, 0, 255)));
        assert(atoms@ == concat_range(lo, a as int, f));
        a = a + 1;
    }
    atoms
}

// ---------------------------------------------------------------------------
// Thick edges of a 3D cube.

pub open spec fn cube_edges_cell(end: int) -> spec_fn(int, int) -> Seq<LatticeAtom> {
    |a: int, b: int|
        if a == -end || a == end || b == -end || b == end {
            cube_faces(a, b, -end - 1, end + 1)
        } else {
            Seq::empty()
        }
}

pub open spec fn cube_edges(n: int) -> Seq<LatticeAtom> {
    grid2(-(n / 2 - 1), n / 2 - 1, cube_edges_cell(n / 2 - 1))
}

/// Thick edges of a 3D cube: the rim cells of the inner square, placed on each of
/// the six faces.
pub fn create_cube_edges(number_per_side: usize) -> (atoms: Vec<LatticeAtom>)
    requires
        number_per_side <= i32::MAX,
    ensures
        atoms@ == cube_edges(number_per_side as int),
{
    let end = (number_per_side / 2) as i32 - 1;
    let start = -end;
    let low = start - 1;
    let high = end + 1;
    let ghost lo = start as int;
    let ghost hi = end as int;
    let ghost f = cube_edges_cell(hi);
    let mut atoms: Vec<LatticeAtom> = Vec::new();
    let mut a = start;
    while a <= end
        invariant
            end as int == number_per_side as int / 2 - 1,
            number_per_side <= i32::MAX,
            start == -end, lo == start, hi == end, low == -end - 1, high == end + 1,
            f == cube_edges_cell(hi),
            start <= a <= end + 1 || (start > end && a == start),
            atoms@ == concat_range(lo, a - 1, slab2(lo, hi, f)),
        decreases end + 1 - a,
    {
        let ghost pre_a = atoms@;
        let mut b = start;
        while b <= end
            invariant
                end as int == number_per_side as int / 2 - 1,
                number_per_side <= i32::MAX,
                start == -end, lo == start, hi == end, low == -end - 1, high == end + 1,
                f == cube_edges_cell(hi),
                start <= a <= end,
                start <= b <= end + 1,
                atoms@ == pre_a + concat_range(lo, b - 1, cell2(f, a as int)),
            decreases end + 1 - b,
        {
            if a == start || a == end || b == start || b == end {
                push_cube_faces(&mut atoms, a, b, low, high);
            }
            assert(atoms@ == pre_a + concat_range(lo, b as int, cell2(f, a as int)));
            b = b + 1;
        }
        assert(atoms@ == concat_range(lo, a as int, slab2(lo, hi, f)));
        a = a + 1;
    }
    atoms
}

// ---------------------------------------------------------------------------
// The four positive coordinate axes.

pub open spec fn tripod_cell() -> spec_fn(int) -> Seq<LatticeAtom> {
    |a: int| seq![
        atom(point(a, 0, 0, 0), red()),
        atom(point(0, a, 0, 0), green()),
        atom(point(0, 0, a, 0), blue()),
        atom(point(0, 0, 0, a), yellow()),
    ]
}

pub open spec fn tripod_4d(n: int) -> Seq<LatticeAtom> {
    seq![atom(point(0, 0, 0, 0), white())] + concat_range(1, n, tripod_cell())
}

/// The origin and `number_per_side` atoms along each of the four positive axes.
pub fn create_tripod_4d(number_per_side: usize) -> (atoms: Vec<LatticeAtom>)
    requires
        number_per_side <= i32::MAX,
    ensures
        atoms@ == tripod_4d(number_per_side as int),
{
    let ghost f = tripod_cell();
    let mut atoms: Vec<LatticeAtom> = Vec::new();
    atoms.push(lattice_atom(0, 0, 0, 0, rgb8(255, 255, 255)));
    let ghost origin = atoms@;
    let mut a: usize = 1;
    while a <= number_per_side
        invariant
            number_per_side <= i32::MAX,
            f == tripod_cell(),
            origin == seq![atom(point(0, 0, 0, 0), white())],
            1 <= a <= number_per_side + 1,
            atoms@ == origin + concat_range(1, a - 1, f),
        decreases number_per_side + 1 - a,
    {
        let c = a as i32;
        atoms.push(lattice_atom(c, 0, 0, 0, rgb8(255, 0, 0)));
        atoms.push(lattice_atom(0, c, 0, 0, rgb8(0, 255, 0)));
        atoms.push(lattice_atom(0, 0, c, 0, rgb8(0, 0, 255)));
        atoms.push(lattice_atom(0, 0, 0, c, rgb8(255, 255, 0)));
        assert(atoms@ == origin + concat_range(1, a as int, f));
        a = a + 1;
    }
    atoms
}

// ---------------------------------------------------------------------------
// Laws: the shapes are centered around the origin and lie in their bounding cube.

proof fn lemma_hyper_faces_mirror(a: int, b: int, c: int, e: int, p: LatticePoint)
    requires
        -e <= a <= e,
        -e <= b <= e,
        -e <= c <= e,
        e < i32::MAX,
        has_point(hyper_faces(a, b, c, -e - 1, e + 1), p),
    ensures
        has_point(hyper_faces(-a, -b, -c, -e - 1, e + 1), neg(p)),
        point_within(p, e + 1),
{
    let f = hyper_faces(a, b, c, -e - 1, e + 1);
    let g = hyper_faces(-a, -b, -c, -e - 1, e + 1);
    let j = choose|j: int| 0 <= j < f.len() && (#[trigger] f[j]).point == p;
    let k = if j % 2 == 0 { j + 1 } else { j - 1 };
    assert(g[k].point == neg(f[j].point));
}

proof fn lemma_cube_faces_mirror(a: int, b: int, e: int, p: LatticePoint)
    requires
        -e <= a <= e,
        -e <= b <= e,
        e < i32::MAX,
        has_point(cube_faces(a, b, -e - 1, e + 1), p),
    ensures
        has_point(cube_faces(-a, -b, -e - 1, e + 1), neg(p)),
        point_within(p, e + 1),
{
    let f = cube_faces(a, b, -e - 1, e + 1);
    let g = cube_faces(-a, -b, -e - 1, e + 1);
    let j = choose|j: int| 0 <= j < f.len() && (#[trigger] f[j]).point == p;
    let k = if j % 2 == 0 { j + 1 } else { j - 1 };
    assert(g[k].point == neg(f[j].point));
}

/// The hollow hypercube is centered around the origin and lies in
/// `[-number_per_side / 2, number_per_side / 2]^4`.
pub proof fn law_cube_4d_centered(n: int)
    requires
        0 < n <= i32::MAX,
        n / 2 * 2 * 255 <= i32::MAX,
    ensures
        centered(cube_4d(n)),
        within(cube_4d(n), n / 2),
{
    let hi = n / 2;
    let b = cube_4d_cell(hi, n);
    assert(mirrored4(hi, b) && bounded4(hi, b, hi)) by {
        assert forall|x: int, y: int, z: int, w: int, p: LatticePoint|
            -hi <= x <= hi && -hi <= y <= hi && -hi <= z <= hi && -hi <= w <= hi
                && #[trigger] has_point(b(x, y, z, w), p)
            implies has_point(b(-x, -y, -z, -w), neg(p)) && point_within(p, hi) by {
            assert(b(-x, -y, -z, -w)[0].point == neg(b(x, y, z, w)[0].point));
        }
    }
    lemma_grid4_shape(hi, b, hi);
}

/// An edge of the colorful hollow cube holds exactly `number_per_side` atoms: along
/// the edge through the first corner, an atom sits at `x` exactly when `x` is one of
/// the `number_per_side` coordinates from `-(number_per_side / 2)` on. Every atom
/// lies in that range on all three axes, in the `w = 0` space.
pub proof fn law_cube_surface_colorful_edge(n: int, x: int)
    requires
        0 <= n <= i32::MAX,
        i32::MIN <= x <= i32::MAX,
    ensures
        has_point(cube_surface_colorful(n), point(x, colorful_first(n), colorful_first(n), 0))
            <==> colorful_first(n) <= x <= colorful_last(n),
        forall|i: int| 0 <= i < cube_surface_colorful(n).len() ==> {
            let p = #[trigger] cube_surface_colorful(n)[i].point;
            &&& colorful_first(n) <= p.x <= colorful_last(n)
            &&& colorful_first(n) <= p.y <= colorful_last(n)
            &&& colorful_first(n) <= p.z <= colorful_last(n)
            &&& p.w == 0
        },
{
    let lo = colorful_first(n);
    let hi = colorful_last(n);
    let b = cube_surface_colorful_cell(lo, hi, n);
    let s = cube_surface_colorful(n);
    assert forall|i: int| 0 <= i < s.len() implies {
        let p = #[trigger] s[i].point;
        &&& lo <= p.x <= hi
        &&& lo <= p.y <= hi
        &&& lo <= p.z <= hi
        &&& p.w == 0
    } by {
        lemma_own_point(s, i);
        lemma_grid3_member(lo, hi, b, s[i].point);
        let (cx, cy, cz) = choose|cx: int, cy: int, cz: int| lo <= cx <= hi && lo <= cy <= hi
            && lo <= cz <= hi && #[trigger] has_point(b(cx, cy, cz), s[i].point);
        let c = b(cx, cy, cz);
        let j = choose|j: int| 0 <= j < c.len() && (#[trigger] c[j]).point == s[i].point;
        assert(c[j].point == point(cx, cy, cz, 0));
    }
    let q = point(x, lo, lo, 0);
    if lo <= x <= hi {
        assert(b(x, lo, lo)[0].point == q);
        lemma_grid3_has(lo, hi, b, x, lo, lo, q);
    }
    if has_point(s, q) {
        let i = choose|i: int| 0 <= i < s.len() && (#[trigger] s[i]).point == q;
        assert(s[i].point == q);
    }
}

/// For an odd `number_per_side` the colorful hollow cube is centered around the
/// origin and lies in `[-number_per_side / 2, number_per_side / 2]^4`. (For an even
/// `number_per_side` its edges of `number_per_side` lattice positions cannot be
/// centered on the lattice.)
pub proof fn law_cube_surface_colorful_centered(n: int)
    requires
        0 <= n <= i32::MAX,
        n % 2 == 1,
    ensures
        centered(cube_surface_colorful(n)),
        within(cube_surface_colorful(n), n / 2),
{
    let hi = n / 2;
    assert(colorful_first(n) == -hi && colorful_last(n) == hi);
    let b = cube_surface_colorful_cell(-hi, hi, n);
    assert(mirrored3(hi, b) && bounded3(hi, b, hi)) by {
        assert forall|x: int, y: int, z: int, p: LatticePoint|
            -hi <= x <= hi && -hi <= y <= hi && -hi <= z <= hi && #[trigger] has_point(b(x, y, z), p)
            implies has_point(b(-x, -y, -z), neg(p)) && point_within(p, hi) by {
            assert(b(-x, -y, -z)[0].point == neg(b(x, y, z)[0].point));
        }
    }
    lemma_grid3_shape(hi, b, hi);
}

/// The surface of the hypercube is centered around the origin and lies in
/// `[-number_per_side / 2, number_per_side / 2]^4`.
pub proof fn law_cube_4d_surface_centered(n: int)
    requires
        0 <= n <= i32::MAX,
    ensures
        centered(cube_4d_surface(n)),
        within(cube_4d_surface(n), n / 2),
{
    let e = n / 2 - 1;
    let b = cube_4d_surface_cell(e);
    assert(mirrored3(e, b) && bounded3(e, b, e + 1)) by {
        assert forall|x: int, y: int, z: int, p: LatticePoint|
            -e <= x <= e && -e <= y <= e && -e <= z <= e && #[trigger] has_point(b(x, y, z), p)
            implies has_point(b(-x, -y, -z), neg(p)) && point_within(p, e + 1) by {
            lemma_hyper_faces_mirror(x, y, z, e, p);
        }
    }
    lemma_grid3_shape(e, b, e + 1);
}

/// The edges of the hypercube are centered around the origin and lie in
/// `[-number_per_side / 2, number_per_side / 2]^4`.
pub proof fn law_cube_4d_edges_centered(n: int)
    requires
        0 <= n <= i32::MAX,
    ensures
        centered(cube_4d_edges(n)),
        within(cube_4d_edges(n), n / 2),
{
    let e = n / 2 - 1;
    let b = cube_4d_edges_cell(e);
    assert(mirrored3(e, b) && bounded3(e, b, e + 1)) by {
        assert forall|x: int, y: int, z: int, p: LatticePoint|
            -e <= x <= e && -e <= y <= e && -e <= z <= e && #[trigger] has_point(b(x, y, z), p)
            implies has_point(b(-x, -y, -z), neg(p)) && point_within(p, e + 1) by {
            assert(on_rim(-x, -e, e) == on_rim(x, -e, e));
            assert(on_rim(-y, -e, e) == on_rim(y, -e, e));
            assert(on_rim(-z, -e, e) == on_rim(z, -e, e));
            lemma_hyper_faces_mirror(x, y, z, e, p);
        }
    }
    lemma_grid3_shape(e, b, e + 1);
}

/// The filled square is centered around the origin and lies in
/// `[-number_per_side / 2, number_per_side / 2]^4`.
pub proof fn law_square_centered(n: int)
    requires
        0 < n <= i32::MAX,
        n / 2 * 2 * 255 <= i32::MAX,
    ensures
        centered(square(n)),
        within(square(n), n / 2),
{
    let hi = n / 2;
    let b = square_cell(hi, n);
    assert(mirrored2(hi, b) && bounded2(hi, b, hi)) by {
        assert forall|x: int, y: int, p: LatticePoint|
            -hi <= x <= hi && -hi <= y <= hi && #[trigger] has_point(b(x, y), p)
            implies has_point(b(-x, -y), neg(p)) && point_within(p, hi) by {
            assert(b(-x, -y)[0].point == neg(b(x, y)[0].point));
        }
    }
    lemma_grid2_shape(hi, b, hi);
}

/// The surface of the cube is centered around the origin and lies in
/// `[-number_per_side / 2, number_per_side / 2]^4`.
pub proof fn law_cube_surface_centered(n: int)
    requires
        0 <= n <= i32::MAX,
    ensures
        centered(cube_surface(n)),
        within(cube_surface(n), n / 2),
{
    let e = n / 2 - 1;
    let b = cube_surface_cell(e);
    assert(mirrored2(e, b) && bounded2(e, b, e + 1)) by {
        assert forall|x: int, y: int, p: LatticePoint|
            -e <= x <= e && -e <= y <= e && #[trigger] has_point(b(x, y), p)
            implies has_point(b(-x, -y), neg(p)) && point_within(p, e + 1) by {
            lemma_cube_faces_mirror(x, y, e, p);
        }
    }
    lemma_grid2_shape(e, b, e + 1);
}

/// The edges of the cube are centered around the origin and lie in
/// `[-number_per_side / 2, number_per_side / 2]^4`.
pub proof fn law_cube_edges_centered(n: int)
    requires
        0 <= n <= i32::MAX,
    ensures
        centered(cube_edges(n)),
        within(cube_edges(n), n / 2),
{
    let e = n / 2 - 1;
    let b = cube_edges_cell(e);
    assert(mirrored2(e, b) && bounded2(e, b, e + 1)) by {
        assert forall|x: int, y: int, p: LatticePoint|
            -e <= x <= e && -e <= y <= e && #[trigger] has_point(b(x, y), p)
            implies has_point(b(-x, -y), neg(p)) && point_within(p, e + 1) by {
            lemma_cube_faces_mirror(x, y, e, p);
        }
    }
    lemma_grid2_shape(e, b, e + 1);
}

/// The outline of the square is centered around the origin and lies in
/// `[-number_per_side / 2, number_per_side / 2]^4`.
pub proof fn law_square_surface_centered(n: int)
    requires
        0 <= n <= i32::MAX,
    ensures
        centered(square_surface(n)),
        within(square_surface(n), n / 2),
{
    let e = n / 2 - 1;
    let f = square_surface_cell(e);
    let s = square_surface(n);
    assert forall|i: int| 0 <= i < s.len() implies
        has_point(s, neg(#[trigger] s[i].point)) && point_within(s[i].point, e + 1) by {
        lemma_own_point(s, i);
        lemma_concat_member(-e, e, f, s[i].point);
        let a = choose|a: int| -e <= a <= e && has_point(#[trigger] f(a), s[i].point);
        let g = f(a);
        let h = f(-a);
        let j = choose|j: int| 0 <= j < g.len() && (#[trigger] g[j]).point == s[i].point;
        let k = if j % 2 == 0 { j + 1 } else { j - 1 };
        assert(h[k].point == neg(g[j].point));
        lemma_concat_has(-e, e, f, -a, neg(s[i].point));
    }
}

/// Which sign pattern a corner has: bit 3 for `x`, bit 2 for `y`, bit 1 for `z`,
/// bit 0 for `w`, set where the coordinate is positive.
pub open spec fn corner_code(p: LatticePoint) -> int {
    (if p.x > 0 { 8int } else { 0 }) + (if p.y > 0 { 4int } else { 0 })
        + (if p.z > 0 { 2int } else { 0 }) + (if p.w > 0 { 1int } else { 0 })
}

proof fn lemma_corner(n: int, i: int)
    requires
        0 <= n <= i32::MAX,
        0 <= i < 16,
    ensures
        n / 2 > 0 ==> corner_code(cube_4d_corners(n)[i].point) == i,
        cube_4d_corners(n)[15 - i].point == neg(cube_4d_corners(n)[i].point),
        point_within(cube_4d_corners(n)[i].point, n / 2),
{
    if i == 0 {
    } else if i == 1 {
    } else if i == 2 {
    } else if i == 3 {
    } else if i == 4 {
    } else if i == 5 {
    } else if i == 6 {
    } else if i == 7 {
    } else if i == 8 {
    } else if i == 9 {
    } else if i == 10 {
    } else if i == 11 {
    } else if i == 12 {
    } else if i == 13 {
    } else if i == 14 {
    } else {
    }
}

/// The sixteen corners are the sign patterns of `(±e, ±e, ±e, ±e)` with
/// `e = number_per_side / 2`: the corner at index `i` has the pattern of the bits
/// of `i`, so they are pairwise distinct when `e > 0`; they are centered around the origin.
pub proof fn law_cube_4d_corners(n: int)
    requires
        0 <= n <= i32::MAX,
    ensures
        cube_4d_corners(n).len() == 16,
        n / 2 > 0 ==> forall|i: int| 0 <= i < 16 ==> corner_code(#[trigger] cube_4d_corners(n)[i].point) == i,
        n / 2 > 0 ==> forall|i: int, j: int| 0 <= i < j < 16
            ==> #[trigger] cube_4d_corners(n)[i].point != #[trigger] cube_4d_corners(n)[j].point,
        centered(cube_4d_corners(n)),
        within(cube_4d_corners(n), n / 2),
{
    let s = cube_4d_corners(n);
    assert forall|i: int| 0 <= i < 16 implies
        has_point(s, neg(#[trigger] s[i].point)) && point_within(s[i].point, n / 2)
            && (n / 2 > 0 ==> corner_code(s[i].point) == i) by {
        lemma_corner(n, i);
        assert(s[15 - i].point == neg(s[i].point));
    }
    if n / 2 > 0 {
        assert forall|i: int, j: int| 0 <= i < j < 16 implies
            #[trigger] s[i].point != #[trigger] s[j].point by {
            lemma_corner(n, i);
            lemma_corner(n, j);
        }
    }
}

/// The tripod starts at the origin and lies in `[0, number_per_side]` on every axis,
/// with one coordinate at most nonzero per atom.
pub proof fn law_tripod_4d_axes(n: int)
    requires
        0 <= n <= i32::MAX,
    ensures
        tripod_4d(n)[0].point == point(0, 0, 0, 0),
        tripod_4d(n).len() == 4 * n + 1,
        within(tripod_4d(n), n),
{
    let f = tripod_cell();
    let s = tripod_4d(n);
    lemma_tripod_len(n);
    assert forall|i: int| 0 <= i < s.len() implies point_within(#[trigger] s[i].point, n) by {
        if i > 0 {
            let t = concat_range(1, n, f);
            assert(s[i] == t[i - 1]);
            lemma_own_point(t, i - 1);
            lemma_concat_member(1, n, f, t[i - 1].point);
            let a = choose|a: int| 1 <= a <= n && has_point(#[trigger] f(a), t[i - 1].point);
        }
    }
}

proof fn lemma_tripod_len(n: int)
    requires
        0 <= n,
    ensures
        concat_range(1, n, tripod_cell()).len() == 4 * n,
    decreases n,
{
    if n > 0 {
        lemma_tripod_len(n - 1);
    }
}


/// Each of the `m^3` cells of the inner cube, `m = 2 * (number_per_side / 2) - 1`,
/// puts one atom on each of the eight bounding cubes of the hypercube.
pub proof fn law_cube_4d_surface_count(n: int)
    requires
        2 <= n <= i32::MAX,
    ensures
        cube_4d_surface(n).len() == 8 * (2 * (n / 2) - 1) * (2 * (n / 2) - 1) * (2 * (n / 2) - 1),
{
    let e = n / 2 - 1;
    lemma_grid3_len(-e, e, cube_4d_surface_cell(e), 8);
}

/// Each of the `m^2` cells of the inner square, `m = 2 * (number_per_side / 2) - 1`,
/// puts one atom on each of the six faces of the cube.
pub proof fn law_cube_surface_count(n: int)
    requires
        2 <= n <= i32::MAX,
    ensures
        cube_surface(n).len() == 6 * (2 * (n / 2) - 1) * (2 * (n / 2) - 1),
{
    let e = n / 2 - 1;
    lemma_grid2_len(-e, e, cube_surface_cell(e), 6);
}

/// Each of the `m` steps along a side, `m = 2 * (number_per_side / 2) - 1`, puts
/// one atom on each of the four sides of the square.
pub proof fn law_square_surface_count(n: int)
    requires
        2 <= n <= i32::MAX,
    ensures
        square_surface(n).len() == 4 * (2 * (n / 2) - 1),
{
    let e = n / 2 - 1;
    lemma_concat_uniform_len(-e, e, square_surface_cell(e), 4);
}

// ---------------------------------------------------------------------------
// Laws: which lattice points the surface and edge shapes cover, and in which color.

/// Whether coordinate `c` lies strictly between `-m` and `m`.
pub open spec fn inner(c: int, m: int) -> bool {
    -m < c < m
}

/// Whether coordinate `c` lies on one of the two sides `-m` and `m`.
pub open spec fn on_side(c: int, m: int) -> bool {
    c == -m || c == m
}

/// Whether coordinate `c` lies on the rim of the inner range, at `-(m - 1)` or `m - 1`.
pub open spec fn on_inner_rim(c: int, m: int) -> int {
    if c == -(m - 1) || c == m - 1 { 1 } else { 0 }
}

/// Whether `p` lies on the boundary of the hypercube `[-m, m]^4` but on none of its
/// 2-faces: exactly one coordinate is `-m` or `m`, the other three lie strictly inside.
pub open spec fn hypercube_surface_point(p: LatticePoint, m: int) -> bool {
    ||| on_side(p.w as int, m) && inner(p.x as int, m) && inner(p.y as int, m) && inner(p.z as int, m)
    ||| on_side(p.z as int, m) && inner(p.x as int, m) && inner(p.y as int, m) && inner(p.w as int, m)
    ||| on_side(p.y as int, m) && inner(p.x as int, m) && inner(p.z as int, m) && inner(p.w as int, m)
    ||| on_side(p.x as int, m) && inner(p.y as int, m) && inner(p.z as int, m) && inner(p.w as int, m)
}

/// The number of the three coordinates other than the one on a side of `[-m, m]^4`
/// that lie on the rim `-(m - 1)` or `m - 1`.
pub open spec fn hypercube_rim_count(p: LatticePoint, m: int) -> int {
    if on_side(p.w as int, m) {
        on_inner_rim(p.x as int, m) + on_inner_rim(p.y as int, m) + on_inner_rim(p.z as int, m)
    } else if on_side(p.z as int, m) {
        on_inner_rim(p.x as int, m) + on_inner_rim(p.y as int, m) + on_inner_rim(p.w as int, m)
    } else if on_side(p.y as int, m) {
        on_inner_rim(p.x as int, m) + on_inner_rim(p.z as int, m) + on_inner_rim(p.w as int, m)
    } else {
        on_inner_rim(p.y as int, m) + on_inner_rim(p.z as int, m) + on_inner_rim(p.w as int, m)
    }
}

/// The color of the bounding cube of `[-m, m]^4` that `p` lies on: purple and cyan
/// for `w = -m` and `w = m`, green and blue for `z`, yellow and white for `y`, red
/// and orange for `x`.
pub open spec fn hypercube_face_color(p: LatticePoint, m: int) -> AtomColor {
    if p.w == -m {
        purple()
    } else if p.w == m {
        cyan()
    } else if p.z == -m {
        green()
    } else if p.z == m {
        blue()
    } else if p.y == -m {
        yellow()
    } else if p.y == m {
        white()
    } else if p.x == -m {
        red()
    } else {
        orange()
    }
}

/// Whether `p` lies in the `w = 0` space on a face of the cube `[-m, m]^3` but on
/// none of its edges: exactly one of `x`, `y`, `z` is `-m` or `m`, the other two lie
/// strictly inside.
pub open spec fn cube_surface_point(p: LatticePoint, m: int) -> bool {
    &&& p.w == 0
    &&& {
        ||| on_side(p.z as int, m) && inner(p.x as int, m) && inner(p.y as int, m)
        ||| on_side(p.y as int, m) && inner(p.x as int, m) && inner(p.z as int, m)
        ||| on_side(p.x as int, m) && inner(p.y as int, m) && inner(p.z as int, m)
    }
}

/// The number of the two coordinates other than the one on a side of `[-m, m]^3`
/// that lie on the rim `-(m - 1)` or `m - 1`.
pub open spec fn cube_rim_count(p: LatticePoint, m: int) -> int {
    if on_side(p.z as int, m) {
        on_inner_rim(p.x as int, m) + on_inner_rim(p.y as int, m)
    } else if on_side(p.y as int, m) {
        on_inner_rim(p.x as int, m) + on_inner_rim(p.z as int, m)
    } else {
        on_inner_rim(p.y as int, m) + on_inner_rim(p.z as int, m)
    }
}

/// The color of the face of `[-m, m]^3` that `p` lies on: green and blue for
/// `z = -m` and `z = m`, yellow and white for `y`, red and orange for `x`.
pub open spec fn cube_face_color(p: LatticePoint, m: int) -> AtomColor {
    if p.z == -m {
        green()
    } else if p.z == m {
        blue()
    } else if p.y == -m {
        yellow()
    } else if p.y == m {
        white()
    } else if p.x == -m {
        red()
    } else {
        orange()
    }
}

/// The inner cell that a point of the surface of `[-m, m]^4` comes from: its three
/// coordinates other than the one on a side.
pub open spec fn hypercube_cell(p: LatticePoint, m: int) -> (int, int, int) {
    if on_side(p.w as int, m) {
        (p.x as int, p.y as int, p.z as int)
    } else if on_side(p.z as int, m) {
        (p.x as int, p.y as int, p.w as int)
    } else if on_side(p.y as int, m) {
        (p.x as int, p.z as int, p.w as int)
    } else {
        (p.y as int, p.z as int, p.w as int)
    }
}

/// The inner cell that a point of the surface of `[-m, m]^3` comes from: its two
/// coordinates other than the one on a side.
pub open spec fn cube_cell(p: LatticePoint, m: int) -> (int, int) {
    if on_side(p.z as int, m) {
        (p.x as int, p.y as int)
    } else if on_side(p.y as int, m) {
        (p.x as int, p.z as int)
    } else {
        (p.y as int, p.z as int)
    }
}

proof fn lemma_hyper_faces_cell(a: int, b: int, c: int, m: int)
    requires
        1 <= m < i32::MAX,
        inner(a, m),
        inner(b, m),
        inner(c, m),
    ensures
        forall|j: int| 0 <= j < 8 ==> {
            let q = #[trigger] hyper_faces(a, b, c, -m, m)[j];
            &&& hypercube_surface_point(q.point, m)
            &&& q.color == hypercube_face_color(q.point, m)
            &&& hypercube_rim_count(q.point, m) == on_inner_rim(a, m) + on_inner_rim(b, m) + on_inner_rim(c, m)
            &&& hypercube_cell(q.point, m) == (a, b, c)
        },
        distinct_points(hyper_faces(a, b, c, -m, m)),
{
}

proof fn lemma_cube_faces_cell(a: int, b: int, m: int)
    requires
        1 <= m < i32::MAX,
        inner(a, m),
        inner(b, m),
    ensures
        forall|j: int| 0 <= j < 6 ==> {
            let q = #[trigger] cube_faces(a, b, -m, m)[j];
            &&& cube_surface_point(q.point, m)
            &&& q.color == cube_face_color(q.point, m)
            &&& cube_rim_count(q.point, m) == on_inner_rim(a, m) + on_inner_rim(b, m)
            &&& cube_cell(q.point, m) == (a, b)
        },
        distinct_points(cube_faces(a, b, -m, m)),
{
}

/// The surface of the hypercube covers exactly the points of the boundary of
/// `[-m, m]^4`, `m = number_per_side / 2`, that lie on none of its 2-faces: every
/// atom lies there, colored by its bounding cube, and every such point holds an atom.
pub proof fn law_cube_4d_surface_points(n: int)
    requires
        0 <= n <= i32::MAX,
    ensures
        forall|i: int| 0 <= i < cube_4d_surface(n).len() ==> {
            let q = #[trigger] cube_4d_surface(n)[i];
            hypercube_surface_point(q.point, n / 2) && q.color == hypercube_face_color(q.point, n / 2)
        },
        forall|p: LatticePoint| #[trigger] hypercube_surface_point(p, n / 2)
            ==> has_point(cube_4d_surface(n), p),
{
    let m = n / 2;
    let e = m - 1;
    let b = cube_4d_surface_cell(e);
    let s = cube_4d_surface(n);
    let pr = |q: LatticeAtom| hypercube_surface_point(q.point, m) && q.color == hypercube_face_color(q.point, m);
    assert forall|x: int, y: int, z: int| -e <= x <= e && -e <= y <= e && -e <= z <= e
        implies all_atoms(#[trigger] b(x, y, z), pr) by {
        lemma_hyper_faces_cell(x, y, z, m);
    }
    lemma_grid3_all(-e, e, b, pr);
    assert forall|i: int| 0 <= i < s.len() implies {
        let q = #[trigger] s[i];
        hypercube_surface_point(q.point, m) && q.color == hypercube_face_color(q.point, m)
    } by {
        assert(pr(s[i]));
    }
    assert forall|p: LatticePoint| #[trigger] hypercube_surface_point(p, m) implies has_point(s, p) by {
        let (x, y, z, w) = (p.x as int, p.y as int, p.z as int, p.w as int);
        if on_side(w, m) && inner(x, m) && inner(y, m) && inner(z, m) {
            let c = b(x, y, z);
            if w == -m { assert(c[0].point == p); } else { assert(c[1].point == p); }
            lemma_grid3_has(-e, e, b, x, y, z, p);
        } else if on_side(z, m) && inner(x, m) && inner(y, m) && inner(w, m) {
            let c = b(x, y, w);
            if z == -m { assert(c[2].point == p); } else { assert(c[3].point == p); }
            lemma_grid3_has(-e, e, b, x, y, w, p);
        } else if on_side(y, m) && inner(x, m) && inner(z, m) && inner(w, m) {
            let c = b(x, z, w);
            if y == -m { assert(c[4].point == p); } else { assert(c[5].point == p); }
            lemma_grid3_has(-e, e, b, x, z, w, p);
        } else {
            let c = b(y, z, w);
            if x == -m { assert(c[6].point == p); } else { assert(c[7].point == p); }
            lemma_grid3_has(-e, e, b, y, z, w, p);
        }
    }
}

/// The thick edges of the hypercube cover exactly the points of its surface (see
/// `law_cube_4d_surface_points`) that lie next to one of its 2-faces in two
/// directions: exactly two of the three coordinates that lie strictly inside are on
/// the rim `-(m - 1)` or `m - 1`. Every atom lies there, colored by its bounding cube,
/// and every such point holds an atom.
pub proof fn law_cube_4d_edges_points(n: int)
    requires
        0 <= n <= i32::MAX,
    ensures
        forall|i: int| 0 <= i < cube_4d_edges(n).len() ==> {
            let q = #[trigger] cube_4d_edges(n)[i];
            &&& hypercube_surface_point(q.point, n / 2)
            &&& hypercube_rim_count(q.point, n / 2) == 2
            &&& q.color == hypercube_face_color(q.point, n / 2)
        },
        forall|p: LatticePoint| #[trigger] hypercube_surface_point(p, n / 2)
            && hypercube_rim_count(p, n / 2) == 2 ==> has_point(cube_4d_edges(n), p),
{
    let m = n / 2;
    let e = m - 1;
    let b = cube_4d_edges_cell(e);
    let s = cube_4d_edges(n);
    let pr = |q: LatticeAtom| hypercube_surface_point(q.point, m) && hypercube_rim_count(q.point, m) == 2
        && q.color == hypercube_face_color(q.point, m);
    assert forall|x: int, y: int, z: int| -e <= x <= e && -e <= y <= e && -e <= z <= e
        implies all_atoms(#[trigger] b(x, y, z), pr) by {
        lemma_hyper_faces_cell(x, y, z, m);
    }
    lemma_grid3_all(-e, e, b, pr);
    assert forall|i: int| 0 <= i < s.len() implies {
        let q = #[trigger] s[i];
        &&& hypercube_surface_point(q.point, m)
        &&& hypercube_rim_count(q.point, m) == 2
        &&& q.color == hypercube_face_color(q.point, m)
    } by {
        assert(pr(s[i]));
    }
    assert forall|p: LatticePoint| #[trigger] hypercube_surface_point(p, m) && hypercube_rim_count(p, m) == 2
        implies has_point(s, p) by {
        let (x, y, z, w) = (p.x as int, p.y as int, p.z as int, p.w as int);
        if on_side(w, m) && inner(x, m) && inner(y, m) && inner(z, m) {
            let c = b(x, y, z);
            if w == -m { assert(c[0].point == p); } else { assert(c[1].point == p); }
            lemma_grid3_has(-e, e, b, x, y, z, p);
        } else if on_side(z, m) && inner(x, m) && inner(y, m) && inner(w, m) {
            let c = b(x, y, w);
            if z == -m { assert(c[2].point == p); } else { assert(c[3].point == p); }
            lemma_grid3_has(-e, e, b, x, y, w, p);
        } else if on_side(y, m) && inner(x, m) && inner(z, m) && inner(w, m) {
            let c = b(x, z, w);
            if y == -m { assert(c[4].point == p); } else { assert(c[5].point == p); }
            lemma_grid3_has(-e, e, b, x, z, w, p);
        } else {
            let c = b(y, z, w);
            if x == -m { assert(c[6].point == p); } else { assert(c[7].point == p); }
            lemma_grid3_has(-e, e, b, y, z, w, p);
        }
    }
}

/// The surface of the cube covers exactly the points of the `w = 0` space on the
/// faces of `[-m, m]^3`, `m = number_per_side / 2`, that lie on none of its edges:
/// every atom lies there, colored by its face, and every such point holds an atom.
pub proof fn law_cube_surface_points(n: int)
    requires
        0 <= n <= i32::MAX,
    ensures
        forall|i: int| 0 <= i < cube_surface(n).len() ==> {
            let q = #[trigger] cube_surface(n)[i];
            cube_surface_point(q.point, n / 2) && q.color == cube_face_color(q.point, n / 2)
        },
        forall|p: LatticePoint| #[trigger] cube_surface_point(p, n / 2)
            ==> has_point(cube_surface(n), p),
{
    let m = n / 2;
    let e = m - 1;
    let b = cube_surface_cell(e);
    let s = cube_surface(n);
    let pr = |q: LatticeAtom| cube_surface_point(q.point, m) && q.color == cube_face_color(q.point, m);
    assert forall|x: int, y: int| -e <= x <= e && -e <= y <= e implies all_atoms(#[trigger] b(x, y), pr) by {
        lemma_cube_faces_cell(x, y, m);
    }
    lemma_grid2_all(-e, e, b, pr);
    assert forall|i: int| 0 <= i < s.len() implies {
        let q = #[trigger] s[i];
        cube_surface_point(q.point, m) && q.color == cube_face_color(q.point, m)
    } by {
        assert(pr(s[i]));
    }
    assert forall|p: LatticePoint| #[trigger] cube_surface_point(p, m) implies has_point(s, p) by {
        let (x, y, z) = (p.x as int, p.y as int, p.z as int);
        if on_side(z, m) && inner(x, m) && inner(y, m) {
            let c = b(x, y);
            if z == -m { assert(c[0].point == p); } else { assert(c[1].point == p); }
            lemma_grid2_has(e, b, x, y, p);
        } else if on_side(y, m) && inner(x, m) && inner(z, m) {
            let c = b(x, z);
            if y == -m { assert(c[2].point == p); } else { assert(c[3].point == p); }
            lemma_grid2_has(e, b, x, z, p);
        } else {
            let c = b(y, z);
            if x == -m { assert(c[4].point == p); } else { assert(c[5].point == p); }
            lemma_grid2_has(e, b, y, z, p);
        }
    }
}

/// The thick edges of the cube cover exactly the points of its surface (see
/// `law_cube_surface_points`) next to one of its edges: at least one of the two
/// coordinates that lie strictly inside is on the rim `-(m - 1)` or `m - 1`. Every
/// atom lies there, colored by its face, and every such point holds an atom.
pub proof fn law_cube_edges_points(n: int)
    requires
        0 <= n <= i32::MAX,
    ensures
        forall|i: int| 0 <= i < cube_edges(n).len() ==> {
            let q = #[trigger] cube_edges(n)[i];
            &&& cube_surface_point(q.point, n / 2)
            &&& cube_rim_count(q.point, n / 2) >= 1
            &&& q.color == cube_face_color(q.point, n / 2)
        },
        forall|p: LatticePoint| #[trigger] cube_surface_point(p, n / 2) && cube_rim_count(p, n / 2) >= 1
            ==> has_point(cube_edges(n), p),
{
    let m = n / 2;
    let e = m - 1;
    let b = cube_edges_cell(e);
    let s = cube_edges(n);
    let pr = |q: LatticeAtom| cube_surface_point(q.point, m) && cube_rim_count(q.point, m) >= 1
        && q.color == cube_face_color(q.point, m);
    assert forall|x: int, y: int| -e <= x <= e && -e <= y <= e implies all_atoms(#[trigger] b(x, y), pr) by {
        lemma_cube_faces_cell(x, y, m);
    }
    lemma_grid2_all(-e, e, b, pr);
    assert forall|i: int| 0 <= i < s.len() implies {
        let q = #[trigger] s[i];
        &&& cube_surface_point(q.point, m)
        &&& cube_rim_count(q.point, m) >= 1
        &&& q.color == cube_face_color(q.point, m)
    } by {
        assert(pr(s[i]));
    }
    assert forall|p: LatticePoint| #[trigger] cube_surface_point(p, m) && cube_rim_count(p, m) >= 1
        implies has_point(s, p) by {
        let (x, y, z) = (p.x as int, p.y as int, p.z as int);
        if on_side(z, m) && inner(x, m) && inner(y, m) {
            let c = b(x, y);
            if z == -m { assert(c[0].point == p); } else { assert(c[1].point == p); }
            lemma_grid2_has(e, b, x, y, p);
        } else if on_side(y, m) && inner(x, m) && inner(z, m) {
            let c = b(x, z);
            if y == -m { assert(c[2].point == p); } else { assert(c[3].point == p); }
            lemma_grid2_has(e, b, x, z, p);
        } else {
            let c = b(y, z);
            if x == -m { assert(c[4].point == p); } else { assert(c[5].point == p); }
            lemma_grid2_has(e, b, y, z, p);
        }
    }
}

/// Whether `p` lies in the `(x, z)` plane on a side of the square `[-m, m]^2` but on
/// none of its corners.
pub open spec fn square_outline_point(p: LatticePoint, m: int) -> bool {
    &&& p.y == 0
    &&& p.w == 0
    &&& {
        ||| on_side(p.x as int, m) && inner(p.z as int, m)
        ||| on_side(p.z as int, m) && inner(p.x as int, m)
    }
}

/// The color of the side of `[-m, m]^2` that `p` lies on: red and orange for
/// `x = -m` and `x = m`, green and blue for `z = -m` and `z = m`.
pub open spec fn square_side_color(p: LatticePoint, m: int) -> AtomColor {
    if p.x == -m {
        red()
    } else if p.x == m {
        orange()
    } else if p.z == -m {
        green()
    } else {
        blue()
    }
}

/// The outline of the square covers exactly the points of the sides of
/// `[-m, m]^2`, `m = number_per_side / 2`, in the `(x, z)` plane, without its
/// corners: every atom lies there, colored by its side, and every such point holds
/// an atom.
pub proof fn law_square_surface_points(n: int)
    requires
        0 <= n <= i32::MAX,
    ensures
        forall|i: int| 0 <= i < square_surface(n).len() ==> {
            let q = #[trigger] square_surface(n)[i];
            square_outline_point(q.point, n / 2) && q.color == square_side_color(q.point, n / 2)
        },
        forall|p: LatticePoint| #[trigger] square_outline_point(p, n / 2)
            ==> has_point(square_surface(n), p),
{
    let m = n / 2;
    let e = m - 1;
    let f = square_surface_cell(e);
    let s = square_surface(n);
    let pr = |q: LatticeAtom| square_outline_point(q.point, m) && q.color == square_side_color(q.point, m);
    assert forall|a: int| -e <= a <= e implies all_atoms(#[trigger] f(a), pr) by {
        let c = f(a);
        assert forall|j: int| 0 <= j < c.len() implies pr(#[trigger] c[j]) by {}
    }
    lemma_concat_all(-e, e, f, pr);
    assert forall|i: int| 0 <= i < s.len() implies {
        let q = #[trigger] s[i];
        square_outline_point(q.point, m) && q.color == square_side_color(q.point, m)
    } by {
        assert(pr(s[i]));
    }
    assert forall|p: LatticePoint| #[trigger] square_outline_point(p, m) implies has_point(s, p) by {
        let (x, z) = (p.x as int, p.z as int);
        if on_side(x, m) && inner(z, m) {
            let c = f(z);
            if x == -m { assert(c[0].point == p); } else { assert(c[1].point == p); }
            lemma_concat_has(-e, e, f, z, p);
        } else {
            let c = f(x);
            if z == -m { assert(c[2].point == p); } else { assert(c[3].point == p); }
            lemma_concat_has(-e, e, f, x, p);
        }
    }
}

/// Whether `p` is the origin or lies on one of the four positive half axes within
/// distance `n`.
pub open spec fn tripod_point(p: LatticePoint, n: int) -> bool {
    ||| p.x == 0 && p.y == 0 && p.z == 0 && p.w == 0
    ||| 1 <= p.x <= n && p.y == 0 && p.z == 0 && p.w == 0
    ||| p.x == 0 && 1 <= p.y <= n && p.z == 0 && p.w == 0
    ||| p.x == 0 && p.y == 0 && 1 <= p.z <= n && p.w == 0
    ||| p.x == 0 && p.y == 0 && p.z == 0 && 1 <= p.w <= n
}

/// The color of the axis that `p` lies on: red, green, blue and yellow for the `x`,
/// `y`, `z` and `w` axes, white for the origin.
pub open spec fn tripod_color(p: LatticePoint) -> AtomColor {
    if p.x != 0 {
        red()
    } else if p.y != 0 {
        green()
    } else if p.z != 0 {
        blue()
    } else if p.w != 0 {
        yellow()
    } else {
        white()
    }
}

/// The tripod covers exactly the origin and the points of the four positive half
/// axes up to distance `number_per_side`: every atom lies there, colored by its
/// axis, and every such point holds an atom.
pub proof fn law_tripod_4d_points(n: int)
    requires
        0 <= n <= i32::MAX,
    ensures
        forall|i: int| 0 <= i < tripod_4d(n).len() ==> {
            let q = #[trigger] tripod_4d(n)[i];
            tripod_point(q.point, n) && q.color == tripod_color(q.point)
        },
        forall|p: LatticePoint| #[trigger] tripod_point(p, n) ==> has_point(tripod_4d(n), p),
{
    let f = tripod_cell();
    let t = concat_range(1, n, f);
    let s = tripod_4d(n);
    let pr = |q: LatticeAtom| tripod_point(q.point, n) && q.color == tripod_color(q.point);
    assert forall|a: int| 1 <= a <= n implies all_atoms(#[trigger] f(a), pr) by {
        let c = f(a);
        assert forall|j: int| 0 <= j < c.len() implies pr(#[trigger] c[j]) by {}
    }
    lemma_concat_all(1, n, f, pr);
    assert forall|i: int| 0 <= i < s.len() implies {
        let q = #[trigger] s[i];
        tripod_point(q.point, n) && q.color == tripod_color(q.point)
    } by {
        if i > 0 {
            assert(s[i] == t[i - 1]);
            assert(pr(t[i - 1]));
        }
    }
    assert forall|p: LatticePoint| #[trigger] tripod_point(p, n) implies has_point(s, p) by {
        let (x, y, z, w) = (p.x as int, p.y as int, p.z as int, p.w as int);
        if x == 0 && y == 0 && z == 0 && w == 0 {
            assert(s[0].point == p);
        } else {
            let a = if x != 0 { x } else if y != 0 { y } else if z != 0 { z } else { w };
            let k: int = if x != 0 { 0 } else if y != 0 { 1 } else if z != 0 { 2 } else { 3 };
            assert(f(a)[k].point == p);
            lemma_concat_has(1, n, f, a, p);
            let j = choose|j: int| 0 <= j < t.len() && (#[trigger] t[j]).point == p;
            assert(s[j + 1] == t[j]);
        }
    }
}

/// Whether `p` lies in the `(x, z)` plane in the square `[-m, m]^2`.
pub open spec fn square_point(p: LatticePoint, m: int) -> bool {
    &&& p.y == 0
    &&& p.w == 0
    &&& -m <= p.x <= m
    &&& -m <= p.z <= m
}

/// The filled square covers exactly the points of `[-m, m]^2`, `m = number_per_side
/// / 2`, in the `(x, z)` plane; red ramps from 0 along `x`, green along `z`, in
/// steps of `255 / number_per_side`, and blue is half.
pub proof fn law_square_points(n: int)
    requires
        0 < n <= i32::MAX,
        n / 2 * 2 * 255 <= i32::MAX,
    ensures
        forall|i: int| 0 <= i < square(n).len() ==> {
            let q = #[trigger] square(n)[i];
            &&& square_point(q.point, n / 2)
            &&& q.color == rgb(
                (((q.point.x + n / 2) * 255) / n) as u8 as int,
                (((q.point.z + n / 2) * 255) / n) as u8 as int,
                128,
            )
        },
        forall|p: LatticePoint| #[trigger] square_point(p, n / 2) ==> has_point(square(n), p),
{
    let m = n / 2;
    let b = square_cell(m, n);
    let s = square(n);
    let pr = |q: LatticeAtom| square_point(q.point, m) && q.color == rgb(
        (((q.point.x + m) * 255) / n) as u8 as int,
        (((q.point.z + m) * 255) / n) as u8 as int,
        128,
    );
    assert forall|x: int, z: int| -m <= x <= m && -m <= z <= m implies all_atoms(#[trigger] b(x, z), pr) by {
        let c = b(x, z);
        assert forall|j: int| 0 <= j < c.len() implies pr(#[trigger] c[j]) by {}
    }
    lemma_grid2_all(-m, m, b, pr);
    assert forall|i: int| 0 <= i < s.len() implies {
        let q = #[trigger] s[i];
        &&& square_point(q.point, m)
        &&& q.color == rgb((((q.point.x + m) * 255) / n) as u8 as int, (((q.point.z + m) * 255) / n) as u8 as int, 128)
    } by {
        assert(pr(s[i]));
    }
    assert forall|p: LatticePoint| #[trigger] square_point(p, m) implies has_point(s, p) by {
        let (x, z) = (p.x as int, p.z as int);
        assert(b(x, z)[0].point == p);
        lemma_grid2_has(m, b, x, z, p);
    }
}

/// Whether `p` lies in the hypercube `[-m, m]^4` but not two or more steps inside
/// its boundary on every axis: the hollow hypercube keeps two layers on every side.
pub open spec fn hollow_hypercube_point(p: LatticePoint, m: int) -> bool {
    &&& point_within(p, m)
    &&& !(deep_inside(p.x as int, -m, m) && deep_inside(p.y as int, -m, m)
        && deep_inside(p.z as int, -m, m) && deep_inside(p.w as int, -m, m))
}

/// The hollow hypercube covers exactly the points of `[-m, m]^4`, `m =
/// number_per_side / 2`, that lie within two steps of its boundary on some axis;
/// each channel (red, green, blue, alpha) ramps from 0 along its axis.
pub proof fn law_cube_4d_points(n: int)
    requires
        0 < n <= i32::MAX,
        n / 2 * 2 * 255 <= i32::MAX,
    ensures
        forall|i: int| 0 <= i < cube_4d(n).len() ==> {
            let q = #[trigger] cube_4d(n)[i];
            &&& hollow_hypercube_point(q.point, n / 2)
            &&& q.color == rgba(
                (((q.point.x + n / 2) * 255) / n) as u8 as int,
                (((q.point.y + n / 2) * 255) / n) as u8 as int,
                (((q.point.z + n / 2) * 255) / n) as u8 as int,
                (((q.point.w + n / 2) * 255) / n) as u8 as int,
            )
        },
        forall|p: LatticePoint| #[trigger] hollow_hypercube_point(p, n / 2) ==> has_point(cube_4d(n), p),
{
    let m = n / 2;
    let b = cube_4d_cell(m, n);
    let s = cube_4d(n);
    let pr = |q: LatticeAtom| hollow_hypercube_point(q.point, m) && q.color == rgba(
        (((q.point.x + m) * 255) / n) as u8 as int,
        (((q.point.y + m) * 255) / n) as u8 as int,
        (((q.point.z + m) * 255) / n) as u8 as int,
        (((q.point.w + m) * 255) / n) as u8 as int,
    );
    assert forall|x: int, y: int, z: int, w: int| -m <= x <= m && -m <= y <= m && -m <= z <= m && -m <= w <= m
        implies all_atoms(#[trigger] b(x, y, z, w), pr) by {
        let c = b(x, y, z, w);
        assert forall|j: int| 0 <= j < c.len() implies pr(#[trigger] c[j]) by {}
    }
    lemma_grid4_all(-m, m, b, pr);
    assert forall|i: int| 0 <= i < s.len() implies {
        let q = #[trigger] s[i];
        &&& hollow_hypercube_point(q.point, m)
        &&& q.color == rgba(
            (((q.point.x + m) * 255) / n) as u8 as int,
            (((q.point.y + m) * 255) / n) as u8 as int,
            (((q.point.z + m) * 255) / n) as u8 as int,
            (((q.point.w + m) * 255) / n) as u8 as int,
        )
    } by {
        assert(pr(s[i]));
    }
    assert forall|p: LatticePoint| #[trigger] hollow_hypercube_point(p, m) implies has_point(s, p) by {
        let (x, y, z, w) = (p.x as int, p.y as int, p.z as int, p.w as int);
        assert(b(x, y, z, w)[0].point == p);
        lemma_grid4_has(m, b, x, y, z, w, p);
    }
}

/// The colorful hollow cube covers exactly the points of the `w = 0` space in the
/// cube of `number_per_side` positions per edge that lie within two steps of its
/// boundary on some axis; its color channels count the steps from the first corner,
/// over `number_per_side`.
pub proof fn law_cube_surface_colorful_points(n: int)
    requires
        0 <= n <= i32::MAX,
    ensures
        forall|i: int| 0 <= i < cube_surface_colorful(n).len() ==> {
            let q = #[trigger] cube_surface_colorful(n)[i];
            let (f, l) = (colorful_first(n), colorful_last(n));
            &&& f <= q.point.x <= l && f <= q.point.y <= l && f <= q.point.z <= l && q.point.w == 0
            &&& !(deep_inside(q.point.x as int, f, l) && deep_inside(q.point.y as int, f, l)
                && deep_inside(q.point.z as int, f, l))
            &&& q.color == (AtomColor::RgbRatio {
                red: (q.point.x - f) as u32,
                green: (q.point.y - f) as u32,
                blue: (q.point.z - f) as u32,
                scale: n as u32,
            })
        },
        forall|p: LatticePoint| {
            let (f, l) = (colorful_first(n), colorful_last(n));
            f <= p.x <= l && f <= p.y <= l && f <= p.z <= l && p.w == 0
                && !(deep_inside(p.x as int, f, l) && deep_inside(p.y as int, f, l)
                && deep_inside(p.z as int, f, l))
        } ==> #[trigger] has_point(cube_surface_colorful(n), p),
{
    let f = colorful_first(n);
    let l = colorful_last(n);
    let b = cube_surface_colorful_cell(f, l, n);
    let s = cube_surface_colorful(n);
    let pr = |q: LatticeAtom| f <= q.point.x <= l && f <= q.point.y <= l && f <= q.point.z <= l
        && q.point.w == 0
        && !(deep_inside(q.point.x as int, f, l) && deep_inside(q.point.y as int, f, l)
            && deep_inside(q.point.z as int, f, l))
        && q.color == (AtomColor::RgbRatio {
            red: (q.point.x - f) as u32,
            green: (q.point.y - f) as u32,
            blue: (q.point.z - f) as u32,
            scale: n as u32,
        });
    assert forall|x: int, y: int, z: int| f <= x <= l && f <= y <= l && f <= z <= l
        implies all_atoms(#[trigger] b(x, y, z), pr) by {
        let c = b(x, y, z);
        assert forall|j: int| 0 <= j < c.len() implies pr(#[trigger] c[j]) by {}
    }
    lemma_grid3_all(f, l, b, pr);
    assert forall|i: int| 0 <= i < s.len() implies {
        let q = #[trigger] s[i];
        &&& f <= q.point.x <= l && f <= q.point.y <= l && f <= q.point.z <= l && q.point.w == 0
        &&& !(deep_inside(q.point.x as int, f, l) && deep_inside(q.point.y as int, f, l)
            && deep_inside(q.point.z as int, f, l))
        &&& q.color == (AtomColor::RgbRatio {
            red: (q.point.x - f) as u32,
            green: (q.point.y - f) as u32,
            blue: (q.point.z - f) as u32,
            scale: n as u32,
        })
    } by {
        assert(pr(s[i]));
    }
    assert forall|p: LatticePoint|
        f <= p.x <= l && f <= p.y <= l && f <= p.z <= l && p.w == 0
            && !(deep_inside(p.x as int, f, l) && deep_inside(p.y as int, f, l)
            && deep_inside(p.z as int, f, l))
        implies #[trigger] has_point(s, p) by {
        let (x, y, z) = (p.x as int, p.y as int, p.z as int);
        assert(b(x, y, z)[0].point == p);
        lemma_grid3_has(f, l, b, x, y, z, p);
    }
}

/// No two atoms of the hypercube's surface sit at the same point.
pub proof fn law_cube_4d_surface_distinct(n: int)
    requires
        0 <= n <= i32::MAX,
    ensures
        distinct_points(cube_4d_surface(n)),
{
    let m = n / 2;
    let e = m - 1;
    let b = cube_4d_surface_cell(e);
    let kx = |p: LatticePoint| hypercube_cell(p, m).0;
    let ky = |p: LatticePoint| hypercube_cell(p, m).1;
    let kz = |p: LatticePoint| hypercube_cell(p, m).2;
    assert forall|x: int, y: int, z: int| -e <= x <= e && -e <= y <= e && -e <= z <= e
        implies distinct_points(#[trigger] b(x, y, z))
            && all_atoms(b(x, y, z), |q: LatticeAtom| kx(q.point) == x && ky(q.point) == y && kz(q.point) == z) by {
        lemma_hyper_faces_cell(x, y, z, m);
    }
    lemma_grid3_distinct(-e, e, b, kx, ky, kz);
}

/// No two atoms of the hypercube's thick edges sit at the same point.
pub proof fn law_cube_4d_edges_distinct(n: int)
    requires
        0 <= n <= i32::MAX,
    ensures
        distinct_points(cube_4d_edges(n)),
{
    let m = n / 2;
    let e = m - 1;
    let b = cube_4d_edges_cell(e);
    let kx = |p: LatticePoint| hypercube_cell(p, m).0;
    let ky = |p: LatticePoint| hypercube_cell(p, m).1;
    let kz = |p: LatticePoint| hypercube_cell(p, m).2;
    assert forall|x: int, y: int, z: int| -e <= x <= e && -e <= y <= e && -e <= z <= e
        implies distinct_points(#[trigger] b(x, y, z))
            && all_atoms(b(x, y, z), |q: LatticeAtom| kx(q.point) == x && ky(q.point) == y && kz(q.point) == z) by {
        lemma_hyper_faces_cell(x, y, z, m);
    }
    lemma_grid3_distinct(-e, e, b, kx, ky, kz);
}

/// No two atoms of the cube's surface sit at the same point.
pub proof fn law_cube_surface_distinct(n: int)
    requires
        0 <= n <= i32::MAX,
    ensures
        distinct_points(cube_surface(n)),
{
    let m = n / 2;
    let e = m - 1;
    let b = cube_surface_cell(e);
    let kx = |p: LatticePoint| cube_cell(p, m).0;
    let ky = |p: LatticePoint| cube_cell(p, m).1;
    assert forall|x: int, y: int| -e <= x <= e && -e <= y <= e
        implies distinct_points(#[trigger] b(x, y))
            && all_atoms(b(x, y), |q: LatticeAtom| kx(q.point) == x && ky(q.point) == y) by {
        lemma_cube_faces_cell(x, y, m);
    }
    lemma_grid2_distinct(-e, e, b, kx, ky);
}

/// No two atoms of the cube's thick edges sit at the same point.
pub proof fn law_cube_edges_distinct(n: int)
    requires
        0 <= n <= i32::MAX,
    ensures
        distinct_points(cube_edges(n)),
{
    let m = n / 2;
    let e = m - 1;
    let b = cube_edges_cell(e);
    let kx = |p: LatticePoint| cube_cell(p, m).0;
    let ky = |p: LatticePoint| cube_cell(p, m).1;
    assert forall|x: int, y: int| -e <= x <= e && -e <= y <= e
        implies distinct_points(#[trigger] b(x, y))
            && all_atoms(b(x, y), |q: LatticeAtom| kx(q.point) == x && ky(q.point) == y) by {
        lemma_cube_faces_cell(x, y, m);
    }
    lemma_grid2_distinct(-e, e, b, kx, ky);
}

/// No two atoms of the square's outline sit at the same point.
pub proof fn law_square_surface_distinct(n: int)
    requires
        0 <= n <= i32::MAX,
    ensures
        distinct_points(square_surface(n)),
{
    let m = n / 2;
    let e = m - 1;
    let f = square_surface_cell(e);
    let key = |p: LatticePoint| if on_side(p.x as int, m) { p.z as int } else { p.x as int };
    assert forall|a: int| -e <= a <= e implies distinct_points(#[trigger] f(a))
        && all_atoms(f(a), |q: LatticeAtom| key(q.point) == a) by {
        let c = f(a);
        assert forall|j: int| 0 <= j < c.len() implies (|q: LatticeAtom| key(q.point) == a)(#[trigger] c[j]) by {}
    }
    lemma_concat_distinct(-e, e, f, key);
}

/// No two atoms of the filled square sit at the same point.
pub proof fn law_square_distinct(n: int)
    requires
        0 <= n <= i32::MAX,
    ensures
        distinct_points(square(n)),
{
    let m = n / 2;
    let b = square_cell(m, n);
    let kx = |p: LatticePoint| p.x as int;
    let kz = |p: LatticePoint| p.z as int;
    assert forall|x: int, z: int| -m <= x <= m && -m <= z <= m
        implies distinct_points(#[trigger] b(x, z))
            && all_atoms(b(x, z), |q: LatticeAtom| kx(q.point) == x && kz(q.point) == z) by {
        let c = b(x, z);
        assert forall|j: int| 0 <= j < c.len()
            implies (|q: LatticeAtom| kx(q.point) == x && kz(q.point) == z)(#[trigger] c[j]) by {}
    }
    lemma_grid2_distinct(-m, m, b, kx, kz);
}

/// No two atoms of the hollow hypercube sit at the same point.
pub proof fn law_cube_4d_distinct(n: int)
    requires
        0 <= n <= i32::MAX,
    ensures
        distinct_points(cube_4d(n)),
{
    let m = n / 2;
    let b = cube_4d_cell(m, n);
    let kx = |p: LatticePoint| p.x as int;
    let ky = |p: LatticePoint| p.y as int;
    let kz = |p: LatticePoint| p.z as int;
    let kw = |p: LatticePoint| p.w as int;
    assert forall|x: int, y: int, z: int, w: int| -m <= x <= m && -m <= y <= m && -m <= z <= m && -m <= w <= m
        implies distinct_points(#[trigger] b(x, y, z, w))
            && all_atoms(b(x, y, z, w), |q: LatticeAtom| kx(q.point) == x && ky(q.point) == y
                && kz(q.point) == z && kw(q.point) == w) by {
        let c = b(x, y, z, w);
        assert forall|j: int| 0 <= j < c.len()
            implies (|q: LatticeAtom| kx(q.point) == x && ky(q.point) == y && kz(q.point) == z
                && kw(q.point) == w)(#[trigger] c[j]) by {}
    }
    lemma_grid4_distinct(-m, m, b, kx, ky, kz, kw);
}

/// No two atoms of the colorful hollow cube sit at the same point.
pub proof fn law_cube_surface_colorful_distinct(n: int)
    requires
        0 <= n <= i32::MAX,
    ensures
        distinct_points(cube_surface_colorful(n)),
{
    let f = colorful_first(n);
    let l = colorful_last(n);
    let b = cube_surface_colorful_cell(f, l, n);
    let kx = |p: LatticePoint| p.x as int;
    let ky = |p: LatticePoint| p.y as int;
    let kz = |p: LatticePoint| p.z as int;
    assert forall|x: int, y: int, z: int| f <= x <= l && f <= y <= l && f <= z <= l
        implies distinct_points(#[trigger] b(x, y, z))
            && all_atoms(b(x, y, z), |q: LatticeAtom| kx(q.point) == x && ky(q.point) == y && kz(q.point) == z) by {
        let c = b(x, y, z);
        assert forall|j: int| 0 <= j < c.len()
            implies (|q: LatticeAtom| kx(q.point) == x && ky(q.point) == y && kz(q.point) == z)(#[trigger] c[j]) by {}
    }
    lemma_grid3_distinct(f, l, b, kx, ky, kz);
}

/// No two atoms of the tripod sit at the same point.
pub proof fn law_tripod_4d_distinct(n: int)
    requires
        0 <= n <= i32::MAX,
    ensures
        distinct_points(tripod_4d(n)),
{
    let f = tripod_cell();
    let t = concat_range(1, n, f);
    let s = tripod_4d(n);
    let key = |p: LatticePoint| p.x + p.y + p.z + p.w;
    assert forall|a: int| 1 <= a <= n implies distinct_points(#[trigger] f(a))
        && all_atoms(f(a), |q: LatticeAtom| key(q.point) == a) by {
        let c = f(a);
        assert forall|j: int| 0 <= j < c.len() implies (|q: LatticeAtom| key(q.point) == a)(#[trigger] c[j]) by {}
    }
    lemma_concat_distinct(1, n, f, key);
    assert forall|i: int, j: int| 0 <= i < j < s.len() implies #[trigger] s[i].point != #[trigger] s[j].point by {
        assert(s[j] == t[j - 1]);
        assert((|q: LatticeAtom| 1 <= key(q.point) <= n)(t[j - 1]));
        if i > 0 {
            assert(s[i] == t[i - 1]);
        }
    }
}

} // verus!

//! Lattice-aligned atom shapes.
//!
//! Every shape is a sequence of atoms whose positions are integer lattice
//! coordinates; multiplying them by the lattice spacing gives world positions.
//! The order of the atoms is part of each contract: shapes are enumerated
//! coordinate by coordinate, `x` outermost, and every lattice cell contributes
//! a fixed block of atoms.
use vstd::prelude::*;

verus! {

/// A point of the integer lattice in four dimensions.
#[derive(PartialEq, Eq, Structural, Clone, Copy, Debug)]
pub struct LatticePoint {
    pub x: i32,
    pub y: i32,
    pub z: i32,
    pub w: i32,
}

/// The color of an atom.
#[derive(PartialEq, Eq, Structural, Clone, Copy, Debug)]
pub enum AtomColor {
    /// Eight-bit red, green, blue and alpha channels.
    Rgba8 { r: u8, g: u8, b: u8, a: u8 },
    /// An opaque color whose channels are `red / scale`, `green / scale` and `blue / scale`.
    RgbRatio { red: u32, green: u32, blue: u32, scale: u32 },
}

/// One atom: a lattice position and a color.
#[derive(PartialEq, Eq, Structural, Clone, Copy, Debug)]
pub struct LatticeAtom {
    pub point: LatticePoint,
    pub color: AtomColor,
}

pub open spec fn point(x: int, y: int, z: int, w: int) -> LatticePoint {
    LatticePoint { x: x as i32, y: y as i32, z: z as i32, w: w as i32 }
}

pub open spec fn rgba(r: int, g: int, b: int, a: int) -> AtomColor {
    AtomColor::Rgba8 { r: r as u8, g: g as u8, b: b as u8, a: a as u8 }
}

pub open spec fn rgb(r: int, g: int, b: int) -> AtomColor {
    rgba(r, g, b, 255)
}

pub open spec fn atom(p: LatticePoint, c: AtomColor) -> LatticeAtom {
    LatticeAtom { point: p, color: c }
}

/// The blocks `f(lo), f(lo + 1), ..., f(hi)` joined in that order.
pub open spec fn concat_range<A>(lo: int, hi: int, f: spec_fn(int) -> Seq<A>) -> Seq<A>
    decreases hi - lo + 1,
{
    if hi < lo {
        Seq::empty()
    } else {
        concat_range(lo, hi - 1, f) + f(hi)
    }
}

// Enumeration of the cube [lo, hi]^4, with cell blocks given by `b`.
pub open spec fn cell4<A>(b: spec_fn(int, int, int, int) -> Seq<A>, x: int, y: int, z: int) -> spec_fn(int) -> Seq<A> {
    |w: int| b(x, y, z, w)
}

pub open spec fn row4<A>(lo: int, hi: int, b: spec_fn(int, int, int, int) -> Seq<A>, x: int, y: int) -> spec_fn(int) -> Seq<A> {
    |z: int| concat_range(lo, hi, cell4(b, x, y, z))
}

pub open spec fn sheet4<A>(lo: int, hi: int, b: spec_fn(int, int, int, int) -> Seq<A>, x: int) -> spec_fn(int) -> Seq<A> {
    |y: int| concat_range(lo, hi, row4(lo, hi, b, x, y))
}

pub open spec fn slab4<A>(lo: int, hi: int, b: spec_fn(int, int, int, int) -> Seq<A>) -> spec_fn(int) -> Seq<A> {
    |x: int| concat_range(lo, hi, sheet4(lo, hi, b, x))
}

/// All cells of the cube `[lo, hi]^4` in lexicographic order of `(x, y, z, w)`.
pub open spec fn grid4<A>(lo: int, hi: int, b: spec_fn(int, int, int, int) -> Seq<A>) -> Seq<A> {
    concat_range(lo, hi, slab4(lo, hi, b))
}

// Enumeration of the cube [lo, hi]^3, with cell blocks given by `b`.
pub open spec fn cell3<A>(b: spec_fn(int, int, int) -> Seq<A>, x: int, y: int) -> spec_fn(int) -> Seq<A> {
    |z: int| b(x, y, z)
}

pub open spec fn row3<A>(lo: int, hi: int, b: spec_fn(int, int, int) -> Seq<A>, x: int) -> spec_fn(int) -> Seq<A> {
    |y: int| concat_range(lo, hi, cell3(b, x, y))
}

pub open spec fn slab3<A>(lo: int, hi: int, b: spec_fn(int, int, int) -> Seq<A>) -> spec_fn(int) -> Seq<A> {
    |x: int| concat_range(lo, hi, row3(lo, hi, b, x))
}

/// All cells of the cube `[lo, hi]^3` in lexicographic order.
pub open spec fn grid3<A>(lo: int, hi: int, b: spec_fn(int, int, int) -> Seq<A>) -> Seq<A> {
    concat_range(lo, hi, slab3(lo, hi, b))
}

// Enumeration of the square [lo, hi]^2, with cell blocks given by `b`.
pub open spec fn cell2<A>(b: spec_fn(int, int) -> Seq<A>, x: int) -> spec_fn(int) -> Seq<A> {
    |y: int| b(x, y)
}

pub open spec fn slab2<A>(lo: int, hi: int, b: spec_fn(int, int) -> Seq<A>) -> spec_fn(int) -> Seq<A> {
    |x: int| concat_range(lo, hi, cell2(b, x))
}

/// All cells of the square `[lo, hi]^2` in lexicographic order.
pub open spec fn grid2<A>(lo: int, hi: int, b: spec_fn(int, int) -> Seq<A>) -> Seq<A> {
    concat_range(lo, hi, slab2(lo, hi, b))
}


// ---------------------------------------------------------------------------
// Where the atoms of a shape lie.

/// The point mirrored through the origin.
pub open spec fn neg(p: LatticePoint) -> LatticePoint {
    point(-(p.x as int), -(p.y as int), -(p.z as int), -(p.w as int))
}

/// Whether some atom of `s` sits at `p`.
pub open spec fn has_point(s: Seq<LatticeAtom>, p: LatticePoint) -> bool {
    exists|j: int| 0 <= j < s.len() && (#[trigger] s[j]).point == p
}

/// Whether the points of `s` are symmetric about the origin: for every atom,
/// some atom sits at the mirrored point.
pub open spec fn centered(s: Seq<LatticeAtom>) -> bool {
    forall|i: int| 0 <= i < s.len() ==> has_point(s, neg(#[trigger] s[i].point))
}

/// Whether every coordinate of `p` lies in `[-r, r]`.
pub open spec fn point_within(p: LatticePoint, r: int) -> bool {
    &&& -r <= p.x <= r
    &&& -r <= p.y <= r
    &&& -r <= p.z <= r
    &&& -r <= p.w <= r
}

/// Whether every atom of `s` lies in the cube `[-r, r]^4`.
pub open spec fn within(s: Seq<LatticeAtom>, r: int) -> bool {
    forall|i: int| 0 <= i < s.len() ==> point_within(#[trigger] s[i].point, r)
}

pub proof fn lemma_concat_member(lo: int, hi: int, f: spec_fn(int) -> Seq<LatticeAtom>, p: LatticePoint)
    requires
        has_point(concat_range(lo, hi, f), p),
    ensures
        exists|k: int| lo <= k <= hi && has_point(#[trigger] f(k), p),
    decreases hi - lo + 1,
{
    if hi >= lo {
        let a = concat_range(lo, hi - 1, f);
        let b = f(hi);
        let j = choose|j: int| 0 <= j < (a + b).len() && (#[trigger] (a + b)[j]).point == p;
        if j < a.len() {
            assert(a[j] == (a + b)[j]);
            lemma_concat_member(lo, hi - 1, f, p);
        } else {
            assert(b[j - a.len()] == (a + b)[j]);
            assert(has_point(f(hi), p));
        }
    }
}

pub proof fn lemma_concat_has(lo: int, hi: int, f: spec_fn(int) -> Seq<LatticeAtom>, k: int, p: LatticePoint)
    requires
        lo <= k <= hi,
        has_point(f(k), p),
    ensures
        has_point(concat_range(lo, hi, f), p),
    decreases hi - lo + 1,
{
    let a = concat_range(lo, hi - 1, f);
    let b = f(hi);
    assert(concat_range(lo, hi, f) == a + b);
    if k == hi {
        let j = choose|j: int| 0 <= j < b.len() && (#[trigger] b[j]).point == p;
        assert((a + b)[a.len() + j] == b[j]);
    } else {
        lemma_concat_has(lo, hi - 1, f, k, p);
        let j = choose|j: int| 0 <= j < a.len() && (#[trigger] a[j]).point == p;
        assert((a + b)[j] == a[j]);
    }
}

/// Every atom of `s` sits at a point of `s`.
pub proof fn lemma_own_point(s: Seq<LatticeAtom>, i: int)
    requires
        0 <= i < s.len(),
    ensures
        has_point(s, s[i].point),
{
    assert(s[i].point == s[i].point);
}

// Cells of a grid whose atoms mirror each other through the origin.
pub open spec fn mirrored2(hi: int, b: spec_fn(int, int) -> Seq<LatticeAtom>) -> bool {
    forall|x: int, y: int, p: LatticePoint|
        -hi <= x <= hi && -hi <= y <= hi && #[trigger] has_point(b(x, y), p)
            ==> has_point(b(-x, -y), neg(p))
}

pub open spec fn mirrored3(hi: int, b: spec_fn(int, int, int) -> Seq<LatticeAtom>) -> bool {
    forall|x: int, y: int, z: int, p: LatticePoint|
        -hi <= x <= hi && -hi <= y <= hi && -hi <= z <= hi && #[trigger] has_point(b(x, y, z), p)
            ==> has_point(b(-x, -y, -z), neg(p))
}

pub open spec fn mirrored4(hi: int, b: spec_fn(int, int, int, int) -> Seq<LatticeAtom>) -> bool {
    forall|x: int, y: int, z: int, w: int, p: LatticePoint|
        -hi <= x <= hi && -hi <= y <= hi && -hi <= z <= hi && -hi <= w <= hi
            && #[trigger] has_point(b(x, y, z, w), p)
            ==> has_point(b(-x, -y, -z, -w), neg(p))
}

// Cells of a grid whose atoms lie in the cube [-r, r]^4.
pub open spec fn bounded2(hi: int, b: spec_fn(int, int) -> Seq<LatticeAtom>, r: int) -> bool {
    forall|x: int, y: int, p: LatticePoint|
        -hi <= x <= hi && -hi <= y <= hi && #[trigger] has_point(b(x, y), p) ==> point_within(p, r)
}

pub open spec fn bounded3(hi: int, b: spec_fn(int, int, int) -> Seq<LatticeAtom>, r: int) -> bool {
    forall|x: int, y: int, z: int, p: LatticePoint|
        -hi <= x <= hi && -hi <= y <= hi && -hi <= z <= hi && #[trigger] has_point(b(x, y, z), p)
            ==> point_within(p, r)
}

pub open spec fn bounded4(hi: int, b: spec_fn(int, int, int, int) -> Seq<LatticeAtom>, r: int) -> bool {
    forall|x: int, y: int, z: int, w: int, p: LatticePoint|
        -hi <= x <= hi && -hi <= y <= hi && -hi <= z <= hi && -hi <= w <= hi
            && #[trigger] has_point(b(x, y, z, w), p) ==> point_within(p, r)
}

pub proof fn lemma_grid2_member(hi: int, b: spec_fn(int, int) -> Seq<LatticeAtom>, p: LatticePoint)
    requires
        has_point(grid2(-hi, hi, b), p),
    ensures
        exists|x: int, y: int| -hi <= x <= hi && -hi <= y <= hi && #[trigger] has_point(b(x, y), p),
{
    lemma_concat_member(-hi, hi, slab2(-hi, hi, b), p);
    let x = choose|x: int| -hi <= x <= hi && has_point(#[trigger] slab2(-hi, hi, b)(x), p);
    lemma_concat_member(-hi, hi, cell2(b, x), p);
    let y = choose|y: int| -hi <= y <= hi && has_point(#[trigger] cell2(b, x)(y), p);
    assert(has_point(b(x, y), p));
}

pub proof fn lemma_grid2_has(hi: int, b: spec_fn(int, int) -> Seq<LatticeAtom>, x: int, y: int, p: LatticePoint)
    requires
        -hi <= x <= hi,
        -hi <= y <= hi,
        has_point(b(x, y), p),
    ensures
        has_point(grid2(-hi, hi, b), p),
{
    assert(has_point(cell2(b, x)(y), p));
    lemma_concat_has(-hi, hi, cell2(b, x), y, p);
    assert(has_point(slab2(-hi, hi, b)(x), p));
    lemma_concat_has(-hi, hi, slab2(-hi, hi, b), x, p);
}

pub proof fn lemma_grid3_member(lo: int, hi: int, b: spec_fn(int, int, int) -> Seq<LatticeAtom>, p: LatticePoint)
    requires
        has_point(grid3(lo, hi, b), p),
    ensures
        exists|x: int, y: int, z: int|
            lo <= x <= hi && lo <= y <= hi && lo <= z <= hi && #[trigger] has_point(b(x, y, z), p),
{
    lemma_concat_member(lo, hi, slab3(lo, hi, b), p);
    let x = choose|x: int| lo <= x <= hi && has_point(#[trigger] slab3(lo, hi, b)(x), p);
    lemma_concat_member(lo, hi, row3(lo, hi, b, x), p);
    let y = choose|y: int| lo <= y <= hi && has_point(#[trigger] row3(lo, hi, b, x)(y), p);
    lemma_concat_member(lo, hi, cell3(b, x, y), p);
    let z = choose|z: int| lo <= z <= hi && has_point(#[trigger] cell3(b, x, y)(z), p);
    assert(has_point(b(x, y, z), p));
}

pub proof fn lemma_grid3_has(
    lo: int,
    hi: int,
    b: spec_fn(int, int, int) -> Seq<LatticeAtom>,
    x: int,
    y: int,
    z: int,
    p: LatticePoint,
)
    requires
        lo <= x <= hi,
        lo <= y <= hi,
        lo <= z <= hi,
        has_point(b(x, y, z), p),
    ensures
        has_point(grid3(lo, hi, b), p),
{
    assert(has_point(cell3(b, x, y)(z), p));
    lemma_concat_has(lo, hi, cell3(b, x, y), z, p);
    assert(has_point(row3(lo, hi, b, x)(y), p));
    lemma_concat_has(lo, hi, row3(lo, hi, b, x), y, p);
    assert(has_point(slab3(lo, hi, b)(x), p));
    lemma_concat_has(lo, hi, slab3(lo, hi, b), x, p);
}

pub proof fn lemma_grid4_member(hi: int, b: spec_fn(int, int, int, int) -> Seq<LatticeAtom>, p: LatticePoint)
    requires
        has_point(grid4(-hi, hi, b), p),
    ensures
        exists|x: int, y: int, z: int, w: int|
            -hi <= x <= hi && -hi <= y <= hi && -hi <= z <= hi && -hi <= w <= hi
                && #[trigger] has_point(b(x, y, z, w), p),
{
    lemma_concat_member(-hi, hi, slab4(-hi, hi, b), p);
    let x = choose|x: int| -hi <= x <= hi && has_point(#[trigger] slab4(-hi, hi, b)(x), p);
    lemma_concat_member(-hi, hi, sheet4(-hi, hi, b, x), p);
    let y = choose|y: int| -hi <= y <= hi && has_point(#[trigger] sheet4(-hi, hi, b, x)(y), p);
    lemma_concat_member(-hi, hi, row4(-hi, hi, b, x, y), p);
    let z = choose|z: int| -hi <= z <= hi && has_point(#[trigger] row4(-hi, hi, b, x, y)(z), p);
    lemma_concat_member(-hi, hi, cell4(b, x, y, z), p);
    let w = choose|w: int| -hi <= w <= hi && has_point(#[trigger] cell4(b, x, y, z)(w), p);
    assert(has_point(b(x, y, z, w), p));
}

pub proof fn lemma_grid4_has(
    hi: int,
    b: spec_fn(int, int, int, int) -> Seq<LatticeAtom>,
    x: int,
    y: int,
    z: int,
    w: int,
    p: LatticePoint,
)
    requires
        -hi <= x <= hi,
        -hi <= y <= hi,
        -hi <= z <= hi,
        -hi <= w <= hi,
        has_point(b(x, y, z, w), p),
    ensures
        has_point(grid4(-hi, hi, b), p),
{
    assert(has_point(cell4(b, x, y, z)(w), p));
    lemma_concat_has(-hi, hi, cell4(b, x, y, z), w, p);
    assert(has_point(row4(-hi, hi, b, x, y)(z), p));
    lemma_concat_has(-hi, hi, row4(-hi, hi, b, x, y), z, p);
    assert(has_point(sheet4(-hi, hi, b, x)(y), p));
    lemma_concat_has(-hi, hi, sheet4(-hi, hi, b, x), y, p);
    assert(has_point(slab4(-hi, hi, b)(x), p));
    lemma_concat_has(-hi, hi, slab4(-hi, hi, b), x, p);
}

/// A grid over a box symmetric about the origin, whose cells mirror each other,
/// is centered; a grid whose cells lie in `[-r, r]^4` lies there too.
pub proof fn lemma_grid2_shape(hi: int, b: spec_fn(int, int) -> Seq<LatticeAtom>, r: int)
    ensures
        mirrored2(hi, b) ==> centered(grid2(-hi, hi, b)),
        bounded2(hi, b, r) ==> within(grid2(-hi, hi, b), r),
{
    let s = grid2(-hi, hi, b);
    assert forall|i: int| 0 <= i < s.len() implies
        (mirrored2(hi, b) ==> has_point(s, neg(#[trigger] s[i].point)))
        && (bounded2(hi, b, r) ==> point_within(s[i].point, r)) by {
        lemma_own_point(s, i);
        lemma_grid2_member(hi, b, s[i].point);
        let (x, y) = choose|x: int, y: int| -hi <= x <= hi && -hi <= y <= hi
            && #[trigger] has_point(b(x, y), s[i].point);
        if mirrored2(hi, b) {
            lemma_grid2_has(hi, b, -x, -y, neg(s[i].point));
        }
    }
}

pub proof fn lemma_grid3_shape(hi: int, b: spec_fn(int, int, int) -> Seq<LatticeAtom>, r: int)
    ensures
        mirrored3(hi, b) ==> centered(grid3(-hi, hi, b)),
        bounded3(hi, b, r) ==> within(grid3(-hi, hi, b), r),
{
    let s = grid3(-hi, hi, b);
    assert forall|i: int| 0 <= i < s.len() implies
        (mirrored3(hi, b) ==> has_point(s, neg(#[trigger] s[i].point)))
        && (bounded3(hi, b, r) ==> point_within(s[i].point, r)) by {
        lemma_own_point(s, i);
        lemma_grid3_member(-hi, hi, b, s[i].point);
        let (x, y, z) = choose|x: int, y: int, z: int| -hi <= x <= hi && -hi <= y <= hi
            && -hi <= z <= hi && #[trigger] has_point(b(x, y, z), s[i].point);
        if mirrored3(hi, b) {
            lemma_grid3_has(-hi, hi, b, -x, -y, -z, neg(s[i].point));
        }
    }
}

#[verifier::spinoff_prover]
pub proof fn lemma_grid4_shape(hi: int, b: spec_fn(int, int, int, int) -> Seq<LatticeAtom>, r: int)
    ensures
        mirrored4(hi, b) ==> centered(grid4(-hi, hi, b)),
        bounded4(hi, b, r) ==> within(grid4(-hi, hi, b), r),
{
    let s = grid4(-hi, hi, b);
    assert forall|i: int| 0 <= i < s.len() implies
        (mirrored4(hi, b) ==> has_point(s, neg(#[trigger] s[i].point)))
        && (bounded4(hi, b, r) ==> point_within(s[i].point, r)) by {
        lemma_own_point(s, i);
        lemma_grid4_member(hi, b, s[i].point);
        let (x, y, z, w) = choose|x: int, y: int, z: int, w: int| -hi <= x <= hi && -hi <= y <= hi
            && -hi <= z <= hi && -hi <= w <= hi && #[trigger] has_point(b(x, y, z, w), s[i].point);
        if mirrored4(hi, b) {
            lemma_grid4_has(hi, b, -x, -y, -z, -w, neg(s[i].point));
        }
    }
}


/// Joining `hi - lo + 1` blocks of `k` atoms each gives `k * (hi - lo + 1)` atoms.
pub proof fn lemma_concat_uniform_len(lo: int, hi: int, f: spec_fn(int) -> Seq<LatticeAtom>, k: int)
    requires
        lo <= hi + 1,
        forall|i: int| lo <= i <= hi ==> (#[trigger] f(i)).len() == k,
    ensures
        concat_range(lo, hi, f).len() == k * (hi - lo + 1),
    decreases hi - lo + 1,
{
    if hi >= lo {
        lemma_concat_uniform_len(lo, hi - 1, f, k);
        assert(k * (hi - 1 - lo + 1) + k == k * (hi - lo + 1)) by (nonlinear_arith);
        assert(f(hi).len() == k);
    } else {
        assert(k * (hi - lo + 1) == 0) by (nonlinear_arith)
            requires
                hi - lo + 1 == 0,
        ;
    }
}

/// A square grid of side `m = hi - lo + 1` with `k` atoms per cell has `k * m * m` atoms.
pub proof fn lemma_grid2_len(lo: int, hi: int, b: spec_fn(int, int) -> Seq<LatticeAtom>, k: int)
    requires
        lo <= hi + 1,
        forall|x: int, y: int| lo <= x <= hi && lo <= y <= hi ==> (#[trigger] b(x, y)).len() == k,
    ensures
        grid2(lo, hi, b).len() == k * (hi - lo + 1) * (hi - lo + 1),
{
    let m = hi - lo + 1;
    assert forall|x: int| lo <= x <= hi implies (#[trigger] slab2(lo, hi, b)(x)).len() == k * m by {
        assert forall|y: int| lo <= y <= hi implies (#[trigger] cell2(b, x)(y)).len() == k by {
            assert(cell2(b, x)(y) == b(x, y));
        }
        lemma_concat_uniform_len(lo, hi, cell2(b, x), k);
    }
    lemma_concat_uniform_len(lo, hi, slab2(lo, hi, b), k * m);
}

/// A cubic grid of side `m = hi - lo + 1` with `k` atoms per cell has `k * m * m * m` atoms.
pub proof fn lemma_grid3_len(lo: int, hi: int, b: spec_fn(int, int, int) -> Seq<LatticeAtom>, k: int)
    requires
        lo <= hi + 1,
        forall|x: int, y: int, z: int| lo <= x <= hi && lo <= y <= hi && lo <= z <= hi
            ==> (#[trigger] b(x, y, z)).len() == k,
    ensures
        grid3(lo, hi, b).len() == k * (hi - lo + 1) * (hi - lo + 1) * (hi - lo + 1),
{
    let m = hi - lo + 1;
    assert forall|x: int| lo <= x <= hi implies (#[trigger] slab3(lo, hi, b)(x)).len() == k * m * m by {
        assert forall|y: int| lo <= y <= hi implies (#[trigger] row3(lo, hi, b, x)(y)).len() == k * m by {
            assert forall|z: int| lo <= z <= hi implies (#[trigger] cell3(b, x, y)(z)).len() == k by {
                assert(cell3(b, x, y)(z) == b(x, y, z));
            }
            lemma_concat_uniform_len(lo, hi, cell3(b, x, y), k);
        }
        lemma_concat_uniform_len(lo, hi, row3(lo, hi, b, x), k * m);
    }
    lemma_concat_uniform_len(lo, hi, slab3(lo, hi, b), k * m * m);
}

// ---------------------------------------------------------------------------
// Properties that every atom of a shape has.

/// Whether every atom of `s` has the property `pr`.
pub open spec fn all_atoms(s: Seq<LatticeAtom>, pr: spec_fn(LatticeAtom) -> bool) -> bool {
    forall|i: int| 0 <= i < s.len() ==> pr(#[trigger] s[i])
}

pub proof fn lemma_concat_all(lo: int, hi: int, f: spec_fn(int) -> Seq<LatticeAtom>, pr: spec_fn(LatticeAtom) -> bool)
    requires
        forall|k: int| lo <= k <= hi ==> all_atoms(#[trigger] f(k), pr),
    ensures
        all_atoms(concat_range(lo, hi, f), pr),
    decreases hi - lo + 1,
{
    if hi >= lo {
        lemma_concat_all(lo, hi - 1, f, pr);
        let a = concat_range(lo, hi - 1, f);
        let b = f(hi);
        assert(all_atoms(b, pr));
        assert forall|i: int| 0 <= i < (a + b).len() implies pr(#[trigger] (a + b)[i]) by {
            if i < a.len() {
                assert((a + b)[i] == a[i]);
            } else {
                assert((a + b)[i] == b[i - a.len()]);
            }
        }
    }
}

/// A grid whose cells all consist of atoms with the property `pr` has only such atoms.
pub proof fn lemma_grid2_all(lo: int, hi: int, b: spec_fn(int, int) -> Seq<LatticeAtom>, pr: spec_fn(LatticeAtom) -> bool)
    requires
        forall|x: int, y: int| lo <= x <= hi && lo <= y <= hi ==> all_atoms(#[trigger] b(x, y), pr),
    ensures
        all_atoms(grid2(lo, hi, b), pr),
{
    assert forall|x: int| lo <= x <= hi implies all_atoms(#[trigger] slab2(lo, hi, b)(x), pr) by {
        assert forall|y: int| lo <= y <= hi implies all_atoms(#[trigger] cell2(b, x)(y), pr) by {
            assert(cell2(b, x)(y) == b(x, y));
        }
        lemma_concat_all(lo, hi, cell2(b, x), pr);
    }
    lemma_concat_all(lo, hi, slab2(lo, hi, b), pr);
}

pub proof fn lemma_grid3_all(lo: int, hi: int, b: spec_fn(int, int, int) -> Seq<LatticeAtom>, pr: spec_fn(LatticeAtom) -> bool)
    requires
        forall|x: int, y: int, z: int| lo <= x <= hi && lo <= y <= hi && lo <= z <= hi
            ==> all_atoms(#[trigger] b(x, y, z), pr),
    ensures
        all_atoms(grid3(lo, hi, b), pr),
{
    assert forall|x: int| lo <= x <= hi implies all_atoms(#[trigger] slab3(lo, hi, b)(x), pr) by {
        assert forall|y: int| lo <= y <= hi implies all_atoms(#[trigger] row3(lo, hi, b, x)(y), pr) by {
            assert forall|z: int| lo <= z <= hi implies all_atoms(#[trigger] cell3(b, x, y)(z), pr) by {
                assert(cell3(b, x, y)(z) == b(x, y, z));
            }
            lemma_concat_all(lo, hi, cell3(b, x, y), pr);
        }
        lemma_concat_all(lo, hi, row3(lo, hi, b, x), pr);
    }
    lemma_concat_all(lo, hi, slab3(lo, hi, b), pr);
}

pub proof fn lemma_grid4_all(lo: int, hi: int, b: spec_fn(int, int, int, int) -> Seq<LatticeAtom>, pr: spec_fn(LatticeAtom) -> bool)
    requires
        forall|x: int, y: int, z: int, w: int| lo <= x <= hi && lo <= y <= hi && lo <= z <= hi && lo <= w <= hi
            ==> all_atoms(#[trigger] b(x, y, z, w), pr),
    ensures
        all_atoms(grid4(lo, hi, b), pr),
{
    assert forall|x: int| lo <= x <= hi implies all_atoms(#[trigger] slab4(lo, hi, b)(x), pr) by {
        assert forall|y: int| lo <= y <= hi implies all_atoms(#[trigger] sheet4(lo, hi, b, x)(y), pr) by {
            assert forall|z: int| lo <= z <= hi implies all_atoms(#[trigger] row4(lo, hi, b, x, y)(z), pr) by {
                assert forall|w: int| lo <= w <= hi implies all_atoms(#[trigger] cell4(b, x, y, z)(w), pr) by {
                    assert(cell4(b, x, y, z)(w) == b(x, y, z, w));
                }
                lemma_concat_all(lo, hi, cell4(b, x, y, z), pr);
            }
            lemma_concat_all(lo, hi, row4(lo, hi, b, x, y), pr);
        }
        lemma_concat_all(lo, hi, sheet4(lo, hi, b, x), pr);
    }
    lemma_concat_all(lo, hi, slab4(lo, hi, b), pr);
}

// ---------------------------------------------------------------------------
// Shapes whose atoms all sit at different points.

/// Whether no two atoms of `s` sit at the same point.
pub open spec fn distinct_points(s: Seq<LatticeAtom>) -> bool {
    forall|i: int, j: int| 0 <= i < j < s.len() ==> #[trigger] s[i].point != #[trigger] s[j].point
}

/// Blocks of atoms at different points, where `key` tells from a point which block
/// it belongs to, join to a sequence of atoms at different points.
pub proof fn lemma_concat_distinct(
    lo: int,
    hi: int,
    f: spec_fn(int) -> Seq<LatticeAtom>,
    key: spec_fn(LatticePoint) -> int,
)
    requires
        forall|k: int| lo <= k <= hi ==> distinct_points(#[trigger] f(k)),
        forall|k: int| lo <= k <= hi ==> all_atoms(#[trigger] f(k), |q: LatticeAtom| key(q.point) == k),
    ensures
        distinct_points(concat_range(lo, hi, f)),
        all_atoms(concat_range(lo, hi, f), |q: LatticeAtom| lo <= key(q.point) <= hi),
    decreases hi - lo + 1,
{
    if hi >= lo {
        lemma_concat_distinct(lo, hi - 1, f, key);
        let a = concat_range(lo, hi - 1, f);
        let b = f(hi);
        let s = a + b;
        assert(distinct_points(b));
        assert(all_atoms(b, |q: LatticeAtom| key(q.point) == hi));
        assert forall|i: int| 0 <= i < s.len() implies lo <= key((#[trigger] s[i]).point) <= hi by {
            if i < a.len() {
                assert(s[i] == a[i]);
            } else {
                assert(s[i] == b[i - a.len()]);
            }
        }
        assert forall|i: int, j: int| 0 <= i < j < s.len() implies #[trigger] s[i].point != #[trigger] s[j].point by {
            if j < a.len() {
                assert(s[i] == a[i] && s[j] == a[j]);
            } else if i >= a.len() {
                assert(s[i] == b[i - a.len()] && s[j] == b[j - a.len()]);
            } else {
                assert(s[i] == a[i] && s[j] == b[j - a.len()]);
                assert(key(a[i].point) <= hi - 1);
                assert(key(b[j - a.len()].point) == hi);
            }
        }
    }
}

/// A square grid whose cells hold atoms at different points, with the cell of each
/// point given by `kx` and `ky`, has all its atoms at different points.
pub proof fn lemma_grid2_distinct(
    lo: int,
    hi: int,
    b: spec_fn(int, int) -> Seq<LatticeAtom>,
    kx: spec_fn(LatticePoint) -> int,
    ky: spec_fn(LatticePoint) -> int,
)
    requires
        forall|x: int, y: int| lo <= x <= hi && lo <= y <= hi ==> distinct_points(#[trigger] b(x, y)),
        forall|x: int, y: int| lo <= x <= hi && lo <= y <= hi
            ==> all_atoms(#[trigger] b(x, y), |q: LatticeAtom| kx(q.point) == x && ky(q.point) == y),
    ensures
        distinct_points(grid2(lo, hi, b)),
{
    assert forall|x: int| lo <= x <= hi implies distinct_points(#[trigger] slab2(lo, hi, b)(x))
        && all_atoms(slab2(lo, hi, b)(x), |q: LatticeAtom| kx(q.point) == x) by {
        let c = cell2(b, x);
        assert forall|y: int| lo <= y <= hi implies distinct_points(#[trigger] c(y))
            && all_atoms(c(y), |q: LatticeAtom| ky(q.point) == y)
            && all_atoms(c(y), |q: LatticeAtom| kx(q.point) == x) by {
            assert(c(y) == b(x, y));
            assert(all_atoms(b(x, y), |q: LatticeAtom| kx(q.point) == x && ky(q.point) == y));
        }
        lemma_concat_distinct(lo, hi, c, ky);
        lemma_concat_all(lo, hi, c, |q: LatticeAtom| kx(q.point) == x);
    }
    lemma_concat_distinct(lo, hi, slab2(lo, hi, b), kx);
}

/// A cubic grid whose cells hold atoms at different points, with the cell of each
/// point given by `kx`, `ky` and `kz`, has all its atoms at different points.
pub proof fn lemma_grid3_distinct(
    lo: int,
    hi: int,
    b: spec_fn(int, int, int) -> Seq<LatticeAtom>,
    kx: spec_fn(LatticePoint) -> int,
    ky: spec_fn(LatticePoint) -> int,
    kz: spec_fn(LatticePoint) -> int,
)
    requires
        forall|x: int, y: int, z: int| lo <= x <= hi && lo <= y <= hi && lo <= z <= hi
            ==> distinct_points(#[trigger] b(x, y, z)),
        forall|x: int, y: int, z: int| lo <= x <= hi && lo <= y <= hi && lo <= z <= hi
            ==> all_atoms(#[trigger] b(x, y, z),
                |q: LatticeAtom| kx(q.point) == x && ky(q.point) == y && kz(q.point) == z),
    ensures
        distinct_points(grid3(lo, hi, b)),
{
    assert forall|x: int| lo <= x <= hi implies distinct_points(#[trigger] slab3(lo, hi, b)(x))
        && all_atoms(slab3(lo, hi, b)(x), |q: LatticeAtom| kx(q.point) == x) by {
        let r = row3(lo, hi, b, x);
        assert forall|y: int| lo <= y <= hi implies distinct_points(#[trigger] r(y))
            && all_atoms(r(y), |q: LatticeAtom| ky(q.point) == y)
            && all_atoms(r(y), |q: LatticeAtom| kx(q.point) == x) by {
            let c = cell3(b, x, y);
            assert forall|z: int| lo <= z <= hi implies distinct_points(#[trigger] c(z))
                && all_atoms(c(z), |q: LatticeAtom| kz(q.point) == z)
                && all_atoms(c(z), |q: LatticeAtom| ky(q.point) == y)
                && all_atoms(c(z), |q: LatticeAtom| kx(q.point) == x) by {
                assert(c(z) == b(x, y, z));
                assert(all_atoms(b(x, y, z),
                    |q: LatticeAtom| kx(q.point) == x && ky(q.point) == y && kz(q.point) == z));
            }
            lemma_concat_distinct(lo, hi, c, kz);
            lemma_concat_all(lo, hi, c, |q: LatticeAtom| ky(q.point) == y);
            lemma_concat_all(lo, hi, c, |q: LatticeAtom| kx(q.point) == x);
        }
        lemma_concat_distinct(lo, hi, r, ky);
        lemma_concat_all(lo, hi, r, |q: LatticeAtom| kx(q.point) == x);
    }
    lemma_concat_distinct(lo, hi, slab3(lo, hi, b), kx);
}

/// A grid of the cube `[lo, hi]^4` whose cells hold atoms at different points, with
/// the cell of each point given by `kx`, `ky`, `kz` and `kw`, has all its atoms at
/// different points.
pub proof fn lemma_grid4_distinct(
    lo: int,
    hi: int,
    b: spec_fn(int, int, int, int) -> Seq<LatticeAtom>,
    kx: spec_fn(LatticePoint) -> int,
    ky: spec_fn(LatticePoint) -> int,
    kz: spec_fn(LatticePoint) -> int,
    kw: spec_fn(LatticePoint) -> int,
)
    requires
        forall|x: int, y: int, z: int, w: int| lo <= x <= hi && lo <= y <= hi && lo <= z <= hi && lo <= w <= hi
            ==> distinct_points(#[trigger] b(x, y, z, w)),
        forall|x: int, y: int, z: int, w: int| lo <= x <= hi && lo <= y <= hi && lo <= z <= hi && lo <= w <= hi
            ==> all_atoms(#[trigger] b(x, y, z, w),
                |q: LatticeAtom| kx(q.point) == x && ky(q.point) == y && kz(q.point) == z && kw(q.point) == w),
    ensures
        distinct_points(grid4(lo, hi, b)),
{
    assert forall|x: int| lo <= x <= hi implies distinct_points(#[trigger] slab4(lo, hi, b)(x))
        && all_atoms(slab4(lo, hi, b)(x), |q: LatticeAtom| kx(q.point) == x) by {
        let sh = sheet4(lo, hi, b, x);
        assert forall|y: int| lo <= y <= hi implies distinct_points(#[trigger] sh(y))
            && all_atoms(sh(y), |q: LatticeAtom| ky(q.point) == y)
            && all_atoms(sh(y), |q: LatticeAtom| kx(q.point) == x) by {
            let r = row4(lo, hi, b, x, y);
            assert forall|z: int| lo <= z <= hi implies distinct_points(#[trigger] r(z))
                && all_atoms(r(z), |q: LatticeAtom| kz(q.point) == z)
                && all_atoms(r(z), |q: LatticeAtom| ky(q.point) == y)
                && all_atoms(r(z), |q: LatticeAtom| kx(q.point) == x) by {
                let c = cell4(b, x, y, z);
                assert forall|w: int| lo <= w <= hi implies distinct_points(#[trigger] c(w))
                    && all_atoms(c(w), |q: LatticeAtom| kw(q.point) == w)
                    && all_atoms(c(w), |q: LatticeAtom| kz(q.point) == z)
                    && all_atoms(c(w), |q: LatticeAtom| ky(q.point) == y)
                    && all_atoms(c(w), |q: LatticeAtom| kx(q.point) == x) by {
                    assert(c(w) == b(x, y, z, w));
                    assert(all_atoms(b(x, y, z, w), |q: LatticeAtom| kx(q.point) == x && ky(q.point) == y
                        && kz(q.point) == z && kw(q.point) == w));
                }
                lemma_concat_distinct(lo, hi, c, kw);
                lemma_concat_all(lo, hi, c, |q: LatticeAtom| kz(q.point) == z);
                lemma_concat_all(lo, hi, c, |q: LatticeAtom| ky(q.point) == y);
                lemma_concat_all(lo, hi, c, |q: LatticeAtom| kx(q.point) == x);
            }
            lemma_concat_distinct(lo, hi, r, kz);
            lemma_concat_all(lo, hi, r, |q: LatticeAtom| ky(q.point) == y);
            lemma_concat_all(lo, hi, r, |q: LatticeAtom| kx(q.point) == x);
        }
        lemma_concat_distinct(lo, hi, sh, ky);
        lemma_concat_all(lo, hi, sh, |q: LatticeAtom| kx(q.point) == x);
    }
    lemma_concat_distinct(lo, hi, slab4(lo, hi, b), kx);
}

} // verus!

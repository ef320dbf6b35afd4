//! The neighbour table: for each cell, the identifiers of the in-bounds cells
//! of its 3x3x3 block, itself excluded, in order of `z`, then `y`, then `x`.
use vstd::prelude::*;
use crate::codec::{encode, decode_spec, id_of, lemma_decode_encode};

verus! {

broadcast use vstd::seq_lib::lemma_seq_concat_contains_all_elements;

/// A coordinate lies inside a lattice of edge `n`.
pub open spec fn in_room(a: int, n: int) -> bool {
    0 <= a < n
}

/// The three coordinates lie inside a lattice of edge `n`.
pub open spec fn in_lattice(x: int, y: int, z: int, n: int) -> bool {
    in_room(x, n) && in_room(y, n) && in_room(z, n)
}

/// Cell `(a, b, c)` is a neighbour of cell `(x, y, z)`: another cell within
/// one step on every axis.
pub open spec fn adjacent(x: int, y: int, z: int, a: int, b: int, c: int) -> bool {
    &&& x - 1 <= a <= x + 1
    &&& y - 1 <= b <= y + 1
    &&& z - 1 <= c <= z + 1
    &&& (a, b, c) != (x, y, z)
}

/// The entry that position `(a, b, c)` of the block around `(x, y, z)`
/// contributes: its identifier when it is an in-bounds neighbour, else nothing.
pub open spec fn block_entry(x: int, y: int, z: int, n: int, a: int, b: int, c: int) -> Seq<u32> {
    if in_lattice(a, b, c, n) && (a, b, c) != (x, y, z) {
        seq![id_of(a, b, c)]
    } else {
        seq![]
    }
}

/// The first `k` entries of the row at height `b`, depth `c` of the block.
pub open spec fn row_upto(x: int, y: int, z: int, n: int, b: int, c: int, k: int) -> Seq<u32>
    decreases k,
{
    if k <= 0 {
        seq![]
    } else {
        row_upto(x, y, z, n, b, c, k - 1) + block_entry(x, y, z, n, x + k - 2, b, c)
    }
}

/// The first `j` rows of the plane at depth `c` of the block.
pub open spec fn plane_upto(x: int, y: int, z: int, n: int, c: int, j: int) -> Seq<u32>
    decreases j,
{
    if j <= 0 {
        seq![]
    } else {
        plane_upto(x, y, z, n, c, j - 1) + row_upto(x, y, z, n, y + j - 2, c, 3)
    }
}

/// The first `m` planes of the block.
pub open spec fn block_upto(x: int, y: int, z: int, n: int, m: int) -> Seq<u32>
    decreases m,
{
    if m <= 0 {
        seq![]
    } else {
        block_upto(x, y, z, n, m - 1) + plane_upto(x, y, z, n, z + m - 2, 3)
    }
}

/// The neighbour list of cell `(x, y, z)` in a lattice of edge `n`.
pub open spec fn neighbor_seq(x: int, y: int, z: int, n: int) -> Seq<u32> {
    block_upto(x, y, z, n, 3)
}

/// How many of `a - 1`, `a`, `a + 1` lie inside a lattice of edge `n`.
pub open spec fn span(a: int, n: int) -> int {
    (if in_room(a - 1, n) { 1int } else { 0int }) + (if in_room(a, n) { 1int } else { 0int }) + (
    if in_room(a + 1, n) { 1int } else { 0int })
}

/// How many of the three coordinates lie on a face of the lattice.
pub open spec fn boundary_axes(x: int, y: int, z: int, n: int) -> int {
    (if x == 0 || x == n - 1 { 1int } else { 0int }) + (if y == 0 || y == n - 1 { 1int } else { 0int })
        + (if z == 0 || z == n - 1 { 1int } else { 0int })
}

/// An identifier names a cell of a lattice of edge `n`.
pub open spec fn is_cell_id(id: u32, n: int) -> bool {
    let (x, y, z) = decode_spec(id as int);
    in_lattice(x, y, z, n) && id == id_of(x, y, z)
}

proof fn lemma_row_len(x: int, y: int, z: int, n: int, b: int, c: int)
    requires
        in_lattice(x, y, z, n),
    ensures
        row_upto(x, y, z, n, b, c, 3).len() == if in_room(b, n) && in_room(c, n) {
            span(x, n) - (if b == y && c == z { 1int } else { 0int })
        } else {
            0
        },
{
    reveal_with_fuel(row_upto, 4);
}

proof fn lemma_plane_len(x: int, y: int, z: int, n: int, c: int)
    requires
        in_lattice(x, y, z, n),
    ensures
        plane_upto(x, y, z, n, c, 3).len() == if in_room(c, n) {
            span(y, n) * span(x, n) - (if c == z { 1int } else { 0int })
        } else {
            0
        },
{
    reveal_with_fuel(plane_upto, 4);
    lemma_row_len(x, y, z, n, y - 1, c);
    lemma_row_len(x, y, z, n, y, c);
    lemma_row_len(x, y, z, n, y + 1, c);
    let sx = span(x, n);
    let sy = span(y, n);
    if sy == 1 {
        assert(sy * sx == sx) by (nonlinear_arith) requires sy == 1;
    } else if sy == 2 {
        assert(sy * sx == sx + sx) by (nonlinear_arith) requires sy == 2;
    } else {
        assert(sy * sx == sx + sx + sx) by (nonlinear_arith) requires sy == 3;
    }
}

/// The length of a neighbour list: the in-bounds part of the 3x3x3 block,
/// less the cell itself. It is at most 26, and for an edge of at least 3 it is
/// 26 inside, 17 on a face, 11 on an edge and 7 at a corner.
pub proof fn lemma_neighbor_count(x: int, y: int, z: int, n: int)
    requires
        in_lattice(x, y, z, n),
    ensures
        neighbor_seq(x, y, z, n).len() == span(z, n) * span(y, n) * span(x, n) - 1,
        neighbor_seq(x, y, z, n).len() <= 26,
        n >= 3 ==> (boundary_axes(x, y, z, n) == 0 <==> neighbor_seq(x, y, z, n).len() == 26),
        n >= 3 ==> (boundary_axes(x, y, z, n) == 1 <==> neighbor_seq(x, y, z, n).len() == 17),
        n >= 3 ==> (boundary_axes(x, y, z, n) == 2 <==> neighbor_seq(x, y, z, n).len() == 11),
        n >= 3 ==> (boundary_axes(x, y, z, n) == 3 <==> neighbor_seq(x, y, z, n).len() == 7),
{
    reveal_with_fuel(block_upto, 4);
    lemma_plane_len(x, y, z, n, z - 1);
    lemma_plane_len(x, y, z, n, z);
    lemma_plane_len(x, y, z, n, z + 1);
    let sx = span(x, n);
    let sy = span(y, n);
    let sz = span(z, n);
    let p = sy * sx;
    assert(1 <= sx <= 3 && 1 <= sy <= 3 && 1 <= sz <= 3);
    assert(n >= 3 ==> (sx == 2 <==> (x == 0 || x == n - 1)) && (sx == 3 <==> !(x == 0 || x == n - 1)));
    assert(n >= 3 ==> (sy == 2 <==> (y == 0 || y == n - 1)) && (sy == 3 <==> !(y == 0 || y == n - 1)));
    assert(n >= 3 ==> (sz == 2 <==> (z == 0 || z == n - 1)) && (sz == 3 <==> !(z == 0 || z == n - 1)));
    assert(1 <= p <= 9) by (nonlinear_arith)
        requires p == sy * sx, 1 <= sx <= 3, 1 <= sy <= 3;
    if sz == 1 {
        assert(sz * sy * sx == p) by (nonlinear_arith) requires sz == 1, p == sy * sx;
    } else if sz == 2 {
        assert(sz * sy * sx == p + p) by (nonlinear_arith) requires sz == 2, p == sy * sx;
    } else {
        assert(sz * sy * sx == p + p + p) by (nonlinear_arith) requires sz == 3, p == sy * sx;
    }
    if n >= 3 {
        if sx == 2 {
            if sy == 2 {
                assert(p == 4) by (nonlinear_arith) requires p == sy * sx, sx == 2, sy == 2;
            } else {
                assert(p == 6) by (nonlinear_arith) requires p == sy * sx, sx == 2, sy == 3;
            }
        } else {
            if sy == 2 {
                assert(p == 6) by (nonlinear_arith) requires p == sy * sx, sx == 3, sy == 2;
            } else {
                assert(p == 9) by (nonlinear_arith) requires p == sy * sx, sx == 3, sy == 3;
            }
        }
    }
}

proof fn lemma_entry_contains(x: int, y: int, z: int, n: int, e: int, f: int, g: int, a: int, b: int, c: int)
    requires
        n <= 0x100,
        in_lattice(a, b, c, n),
    ensures
        block_entry(x, y, z, n, e, f, g).contains(id_of(a, b, c)) <==> (in_lattice(e, f, g, n) && (e, f, g)
            != (x, y, z) && (e, f, g) == (a, b, c)),
        block_entry(x, y, z, n, e, f, g).contains(id_of(a, b, c)) ==> is_cell_id(id_of(a, b, c), n),
{
    lemma_decode_encode(a, b, c);
    if in_lattice(e, f, g, n) && (e, f, g) != (x, y, z) {
        let s = block_entry(x, y, z, n, e, f, g);
        assert(s[0] == id_of(e, f, g));
        if (e, f, g) != (a, b, c) {
            crate::codec::lemma_encode_injective(e, f, g, a, b, c);
        }
    }
}

proof fn lemma_entry_ids(x: int, y: int, z: int, n: int, e: int, f: int, g: int, id: u32)
    requires
        n <= 0x100,
        block_entry(x, y, z, n, e, f, g).contains(id),
    ensures
        is_cell_id(id, n),
{
    lemma_decode_encode(e, f, g);
    let s = block_entry(x, y, z, n, e, f, g);
    assert(s[0] == id_of(e, f, g));
}

proof fn lemma_row_contains(x: int, y: int, z: int, n: int, f: int, g: int, a: int, b: int, c: int)
    requires
        n <= 0x100,
        in_lattice(a, b, c, n),
    ensures
        row_upto(x, y, z, n, f, g, 3).contains(id_of(a, b, c)) <==> (b == f && c == g && x - 1 <= a <= x + 1
            && (a, b, c) != (x, y, z)),
{
    reveal_with_fuel(row_upto, 4);
    lemma_entry_contains(x, y, z, n, x - 1, f, g, a, b, c);
    lemma_entry_contains(x, y, z, n, x, f, g, a, b, c);
    lemma_entry_contains(x, y, z, n, x + 1, f, g, a, b, c);
}

proof fn lemma_plane_contains(x: int, y: int, z: int, n: int, g: int, a: int, b: int, c: int)
    requires
        n <= 0x100,
        in_lattice(a, b, c, n),
    ensures
        plane_upto(x, y, z, n, g, 3).contains(id_of(a, b, c)) <==> (c == g && y - 1 <= b <= y + 1 && x - 1
            <= a <= x + 1 && (a, b, c) != (x, y, z)),
{
    reveal_with_fuel(plane_upto, 4);
    lemma_row_contains(x, y, z, n, y - 1, g, a, b, c);
    lemma_row_contains(x, y, z, n, y, g, a, b, c);
    lemma_row_contains(x, y, z, n, y + 1, g, a, b, c);
}

/// A cell of the lattice is in the neighbour list of `(x, y, z)` exactly when
/// it is adjacent to it.
pub proof fn lemma_neighbor_membership(x: int, y: int, z: int, a: int, b: int, c: int, n: int)
    requires
        n <= 0x100,
        in_lattice(a, b, c, n),
    ensures
        neighbor_seq(x, y, z, n).contains(id_of(a, b, c)) <==> adjacent(x, y, z, a, b, c),
{
    reveal_with_fuel(block_upto, 4);
    lemma_plane_contains(x, y, z, n, z - 1, a, b, c);
    lemma_plane_contains(x, y, z, n, z, a, b, c);
    lemma_plane_contains(x, y, z, n, z + 1, a, b, c);
}

/// The neighbour relation is symmetric: `B` is in the list of `A` exactly when
/// `A` is in the list of `B`.
pub proof fn lemma_neighbors_symmetric(x: int, y: int, z: int, a: int, b: int, c: int, n: int)
    requires
        n <= 0x100,
        in_lattice(x, y, z, n),
        in_lattice(a, b, c, n),
    ensures
        neighbor_seq(x, y, z, n).contains(id_of(a, b, c)) <==> neighbor_seq(a, b, c, n).contains(
            id_of(x, y, z),
        ),
{
    lemma_neighbor_membership(x, y, z, a, b, c, n);
    lemma_neighbor_membership(a, b, c, x, y, z, n);
}

proof fn lemma_row_ids(x: int, y: int, z: int, n: int, f: int, g: int, id: u32)
    requires
        n <= 0x100,
        row_upto(x, y, z, n, f, g, 3).contains(id),
    ensures
        is_cell_id(id, n),
{
    reveal_with_fuel(row_upto, 4);
    if block_entry(x, y, z, n, x - 1, f, g).contains(id) {
        lemma_entry_ids(x, y, z, n, x - 1, f, g, id);
    } else if block_entry(x, y, z, n, x, f, g).contains(id) {
        lemma_entry_ids(x, y, z, n, x, f, g, id);
    } else {
        lemma_entry_ids(x, y, z, n, x + 1, f, g, id);
    }
}

proof fn lemma_plane_ids(x: int, y: int, z: int, n: int, g: int, id: u32)
    requires
        n <= 0x100,
        plane_upto(x, y, z, n, g, 3).contains(id),
    ensures
        is_cell_id(id, n),
{
    reveal_with_fuel(plane_upto, 4);
    if row_upto(x, y, z, n, y - 1, g, 3).contains(id) {
        lemma_row_ids(x, y, z, n, y - 1, g, id);
    } else if row_upto(x, y, z, n, y, g, 3).contains(id) {
        lemma_row_ids(x, y, z, n, y, g, id);
    } else {
        lemma_row_ids(x, y, z, n, y + 1, g, id);
    }
}

/// Every identifier in a neighbour list names a cell of the lattice.
pub proof fn lemma_neighbor_ids_in_lattice(x: int, y: int, z: int, n: int)
    requires
        n <= 0x100,
    ensures
        forall|id: u32| #[trigger] neighbor_seq(x, y, z, n).contains(id) ==> is_cell_id(id, n),
{
    reveal_with_fuel(block_upto, 4);
    assert forall|id: u32| #[trigger] neighbor_seq(x, y, z, n).contains(id) implies is_cell_id(id, n) by {
        if plane_upto(x, y, z, n, z - 1, 3).contains(id) {
            lemma_plane_ids(x, y, z, n, z - 1, id);
        } else if plane_upto(x, y, z, n, z, 3).contains(id) {
            lemma_plane_ids(x, y, z, n, z, id);
        } else {
            lemma_plane_ids(x, y, z, n, z + 1, id);
        }
    }
}

fn push_row(v: &mut Vec<u32>, x: u8, y: u8, z: u8, n: u8, f: i16, g: i16)
    requires
        x < n && y < n && z < n,
        -1 <= f <= 256 && -1 <= g <= 256,
    ensures
        final(v)@ == old(v)@ + row_upto(x as int, y as int, z as int, n as int, f as int, g as int, 3),
{
    let mut k: i16 = 0;
    while k < 3
        invariant
            0 <= k <= 3,
            x < n && y < n && z < n,
            -1 <= f <= 256 && -1 <= g <= 256,
            v@ == old(v)@ + row_upto(x as int, y as int, z as int, n as int, f as int, g as int, k as int),
        decreases 3 - k,
    {
        let e: i16 = x as i16 + k - 1;
        let bound = n as i16;
        if 0 <= e && e < bound && 0 <= f && f < bound && 0 <= g && g < bound && !(e == x as i16 && f
            == y as i16 && g == z as i16) {
            let id = encode(e as u8, f as u8, g as u8);
            v.push(id);
        }
        proof {
            assert(v@ =~= old(v)@ + row_upto(x as int, y as int, z as int, n as int, f as int, g as int, k + 1));
        }
        k = k + 1;
    }
}

fn push_plane(v: &mut Vec<u32>, x: u8, y: u8, z: u8, n: u8, g: i16)
    requires
        x < n && y < n && z < n,
        -1 <= g <= 256,
    ensures
        final(v)@ == old(v)@ + plane_upto(x as int, y as int, z as int, n as int, g as int, 3),
{
    let mut j: i16 = 0;
    while j < 3
        invariant
            0 <= j <= 3,
            x < n && y < n && z < n,
            -1 <= g <= 256,
            v@ == old(v)@ + plane_upto(x as int, y as int, z as int, n as int, g as int, j as int),
        decreases 3 - j,
    {
        push_row(v, x, y, z, n, y as i16 + j - 1, g);
        proof {
            assert(v@ =~= old(v)@ + plane_upto(x as int, y as int, z as int, n as int, g as int, j + 1));
        }
        j = j + 1;
    }
}

/// Builds the neighbour list of cell `(x, y, z)` in a lattice of edge `n`.
pub fn neighbor_ids(x: u8, y: u8, z: u8, n: u8) -> (r: Vec<u32>)
    requires
        x < n && y < n && z < n,
    ensures
        r@ == neighbor_seq(x as int, y as int, z as int, n as int),
        r@.len() <= 26,
        forall|id: u32| #[trigger] r@.contains(id) ==> is_cell_id(id, n as int),
{
    let mut v: Vec<u32> = Vec::with_capacity(26);
    let mut m: i16 = 0;
    while m < 3
        invariant
            0 <= m <= 3,
            x < n && y < n && z < n,
            v@ == block_upto(x as int, y as int, z as int, n as int, m as int),
        decreases 3 - m,
    {
        push_plane(&mut v, x, y, z, n, z as i16 + m - 1);
        proof {
            assert(v@ =~= block_upto(x as int, y as int, z as int, n as int, m + 1));
        }
        m = m + 1;
    }
    proof {
        lemma_neighbor_count(x as int, y as int, z as int, n as int);
        lemma_neighbor_ids_in_lattice(x as int, y as int, z as int, n as int);
    }
    v
}

} // verus!

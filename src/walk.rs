use vstd::prelude::*;
use crate::map::{cell_index, TileType};

verus! {

/// Whether `(x, y)` is inside a `w` by `h` grid and its tile is not wall.
pub open spec fn passable(tiles: Seq<TileType>, w: int, h: int, x: int, y: int) -> bool {
    &&& 0 <= x < w
    &&& 0 <= y < h
    &&& 0 <= cell_index(w, x, y) < tiles.len()
    &&& tiles[cell_index(w, x, y)] != TileType::Wall
}

/// Whether two points are orthogonal neighbours.
pub open spec fn adjacent(a: (int, int), b: (int, int)) -> bool {
    ||| (a.0 == b.0 && (a.1 == b.1 + 1 || b.1 == a.1 + 1))
    ||| (a.1 == b.1 && (a.0 == b.0 + 1 || b.0 == a.0 + 1))
}

/// A non-empty sequence of passable points, each a neighbour of the next.
pub open spec fn is_walk(tiles: Seq<TileType>, w: int, h: int, p: Seq<(int, int)>) -> bool {
    &&& p.len() > 0
    &&& forall|i: int| 0 <= i < p.len() ==> passable(tiles, w, h, #[trigger] p[i].0, p[i].1)
    &&& forall|i: int| 0 <= i < p.len() - 1 ==> adjacent(#[trigger] p[i], p[i + 1])
}

/// Whether `b` can be reached from `a` by steps between neighbouring non-wall cells.
pub open spec fn reachable(tiles: Seq<TileType>, w: int, h: int, a: (int, int), b: (int, int)) -> bool {
    exists|p: Seq<(int, int)>| #[trigger] is_walk(tiles, w, h, p) && p[0] == a && p.last() == b
}

/// Every cell that is not wall in `t1` is not wall in `t2` either.
pub open spec fn walls_only_removed(t1: Seq<TileType>, t2: Seq<TileType>) -> bool {
    &&& t1.len() == t2.len()
    &&& forall|i: int| 0 <= i < t1.len() && t1[i] != TileType::Wall ==> #[trigger] t2[i] != TileType::Wall
}

/// Turning walls into open ground keeps every walk open.
pub proof fn lemma_reachable_kept(t1: Seq<TileType>, t2: Seq<TileType>, w: int, h: int, a: (int, int), b: (int, int))
    requires
        reachable(t1, w, h, a, b),
        walls_only_removed(t1, t2),
    ensures
        reachable(t2, w, h, a, b),
{
    let p = choose|p: Seq<(int, int)>| #[trigger] is_walk(t1, w, h, p) && p[0] == a && p.last() == b;
    assert forall|i: int| 0 <= i < p.len() implies passable(t2, w, h, #[trigger] p[i].0, p[i].1) by {
        assert(passable(t1, w, h, p[i].0, p[i].1));
    }
    assert(is_walk(t2, w, h, p));
}

/// Reachability chains: a walk to `b` and one from `b` to `c` make one to `c`.
pub proof fn lemma_reachable_trans(t: Seq<TileType>, w: int, h: int, a: (int, int), b: (int, int), c: (int, int))
    requires
        reachable(t, w, h, a, b),
        reachable(t, w, h, b, c),
    ensures
        reachable(t, w, h, a, c),
{
    let p = choose|p: Seq<(int, int)>| #[trigger] is_walk(t, w, h, p) && p[0] == a && p.last() == b;
    let q = choose|q: Seq<(int, int)>| #[trigger] is_walk(t, w, h, q) && q[0] == b && q.last() == c;
    let r = p + q.subrange(1, q.len() as int);
    assert forall|i: int| 0 <= i < r.len() implies passable(t, w, h, #[trigger] r[i].0, r[i].1) by {
        if i < p.len() {
            assert(r[i] == p[i]);
        } else {
            assert(r[i] == q[i - p.len() + 1]);
        }
    }
    assert forall|i: int| 0 <= i < r.len() - 1 implies adjacent(#[trigger] r[i], r[i + 1]) by {
        if i < p.len() - 1 {
            assert(r[i] == p[i] && r[i + 1] == p[i + 1]);
        } else if i == p.len() - 1 {
            assert(r[i] == q[0] && r[i + 1] == q[1]);
        } else {
            assert(r[i] == q[i - p.len() + 1] && r[i + 1] == q[i - p.len() + 2]);
        }
    }
    assert(is_walk(t, w, h, r));
    if q.len() == 1 {
        assert(r.last() == p.last());
    } else {
        assert(r.last() == q.last());
    }
}

/// A passable cell reaches itself.
pub proof fn lemma_reachable_self(t: Seq<TileType>, w: int, h: int, a: (int, int))
    requires
        passable(t, w, h, a.0, a.1),
    ensures
        reachable(t, w, h, a, a),
{
    let p = seq![a];
    assert(is_walk(t, w, h, p));
}

/// A straight run of passable cells along row `y` joins its two ends.
pub proof fn lemma_row_reachable(t: Seq<TileType>, w: int, h: int, y: int, xa: int, xb: int)
    requires
        forall|x: int|
            #![trigger cell_index(w, x, y)]
            (xa <= x <= xb || xb <= x <= xa) ==> passable(t, w, h, x, y),
    ensures
        reachable(t, w, h, (xa, y), (xb, y)),
{
    if xa <= xb {
        let p = Seq::new((xb - xa + 1) as nat, |i: int| (xa + i, y));
        assert forall|i: int| 0 <= i < p.len() implies passable(t, w, h, #[trigger] p[i].0, p[i].1) by {
            assert(cell_index(w, xa + i, y) == cell_index(w, p[i].0, p[i].1));
        }
        assert(is_walk(t, w, h, p));
    } else {
        let p = Seq::new((xa - xb + 1) as nat, |i: int| (xa - i, y));
        assert forall|i: int| 0 <= i < p.len() implies passable(t, w, h, #[trigger] p[i].0, p[i].1) by {
            assert(cell_index(w, xa - i, y) == cell_index(w, p[i].0, p[i].1));
        }
        assert(is_walk(t, w, h, p));
    }
}

/// A straight run of passable cells along column `x` joins its two ends.
pub proof fn lemma_column_reachable(t: Seq<TileType>, w: int, h: int, x: int, ya: int, yb: int)
    requires
        forall|y: int|
            #![trigger cell_index(w, x, y)]
            (ya <= y <= yb || yb <= y <= ya) ==> passable(t, w, h, x, y),
    ensures
        reachable(t, w, h, (x, ya), (x, yb)),
{
    if ya <= yb {
        let p = Seq::new((yb - ya + 1) as nat, |i: int| (x, ya + i));
        assert forall|i: int| 0 <= i < p.len() implies passable(t, w, h, #[trigger] p[i].0, p[i].1) by {
            assert(cell_index(w, x, ya + i) == cell_index(w, p[i].0, p[i].1));
        }
        assert(is_walk(t, w, h, p));
    } else {
        let p = Seq::new((ya - yb + 1) as nat, |i: int| (x, ya - i));
        assert forall|i: int| 0 <= i < p.len() implies passable(t, w, h, #[trigger] p[i].0, p[i].1) by {
            assert(cell_index(w, x, ya - i) == cell_index(w, p[i].0, p[i].1));
        }
        assert(is_walk(t, w, h, p));
    }
}

} // verus!

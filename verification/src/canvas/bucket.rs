use crate::canvas::{
    color_at, half_block_cells, index_of, lemma_index_of_bounds, lemma_index_of_injective,
    valid_point, Canvas, Cell, CELL_COUNT,
};
use crate::terminal::{extends, lemma_extends_trans, Terminal};
use crate::util::{Color, Point, Size};
use vstd::prelude::*;
use vstd::set_lib::{lemma_int_range, lemma_len_subset, set_int_range};

verus! {

/// A point lies inside the drawable area for the given terminal size:
/// `0 <= x < width` and `0 <= y < 2 * height`, symmetrically on both edges.
pub open spec fn in_bounds(sz: Size, p: Point) -> bool {
    &&& (p.x as int) < sz.width as int
    &&& (p.y as int) < 2 * (sz.height as int)
}

/// 4-connectivity in logical pixel space: one step along exactly one axis.
pub open spec fn adjacent(p: Point, q: Point) -> bool {
    ||| (p.x == q.x && p.y + 1 == q.y)
    ||| (p.x == q.x && q.y + 1 == p.y)
    ||| (p.y == q.y && p.x + 1 == q.x)
    ||| (p.y == q.y && q.x + 1 == p.x)
}

/// One growth step of the fill region: every in-bounds neighbor of the
/// region that shows the seed color on the original grid joins it.
pub open spec fn flood_grow(cells0: Seq<Cell>, first: Color, sz: Size, s: Set<Point>) -> Set<
    Point,
> {
    s.union(
        Set::new(
            |q: Point|
                in_bounds(sz, q) && color_at(cells0, q) == first && exists|p: Point|
                    #[trigger] s.contains(p) && adjacent(p, q),
        ),
    )
}

/// The fill region after `n` growth steps from the seed.
pub open spec fn flood_n(cells0: Seq<Cell>, first: Color, sz: Size, seed: Point, n: nat) -> Set<
    Point,
>
    decreases n,
{
    if n == 0 {
        Set::empty().insert(seed)
    } else {
        flood_grow(cells0, first, sz, flood_n(cells0, first, sz, seed, (n - 1) as nat))
    }
}

/// The 4-connected region the fill paints: everything reachable from the
/// seed through in-bounds points showing the seed's color. The canvas has
/// fewer than `2^16` distinct points, so the growth has stabilized after
/// that many steps.
pub open spec fn flood_region(cells0: Seq<Cell>, first: Color, sz: Size, seed: Point) -> Set<
    Point,
> {
    flood_n(cells0, first, sz, seed, 65536)
}

/// The fill region never leaves the boundary formed by differently colored
/// or out-of-bounds cells: besides the seed itself, it holds only in-bounds
/// points that show the seed color on the original grid.
pub proof fn lemma_flood_region_members(
    cells0: Seq<Cell>,
    first: Color,
    sz: Size,
    seed: Point,
    n: nat,
)
    ensures
        forall|q: Point| #[trigger]
            flood_n(cells0, first, sz, seed, n).contains(q) ==> q == seed || (in_bounds(sz, q)
                && color_at(cells0, q) == first),
    decreases n,
{
    if n > 0 {
        lemma_flood_region_members(cells0, first, sz, seed, (n - 1) as nat);
        assert forall|q: Point| #[trigger]
            flood_n(cells0, first, sz, seed, n).contains(q) implies q == seed || (in_bounds(
            sz,
            q,
        ) && color_at(cells0, q) == first) by {
            if !flood_n(cells0, first, sz, seed, (n - 1) as nat).contains(q) {
                assert(in_bounds(sz, q) && color_at(cells0, q) == first);
            }
        }
    }
}

/// Once one growth step adds nothing, no later step does.
pub proof fn lemma_flood_stable(
    cells0: Seq<Cell>,
    first: Color,
    sz: Size,
    seed: Point,
    k: nat,
    m: nat,
)
    requires
        flood_grow(cells0, first, sz, flood_n(cells0, first, sz, seed, k)) == flood_n(
            cells0,
            first,
            sz,
            seed,
            k,
        ),
        m >= k,
    ensures
        flood_n(cells0, first, sz, seed, m) == flood_n(cells0, first, sz, seed, k),
    decreases m - k,
{
    if m > k {
        lemma_flood_stable(cells0, first, sz, seed, k, (m - 1) as nat);
    }
}

/// Two valid points with the same storage slot and the same row parity are
/// the same point.
pub proof fn lemma_same_slot_same_point(p: Point, q: Point)
    requires
        valid_point(p),
        valid_point(q),
        index_of(p) == index_of(q),
        p.y % 2 == q.y % 2,
    ensures
        p == q,
{
    lemma_index_of_injective(p, q);
    assert(p.y as int == 2 * (p.y as int / 2) + p.y as int % 2);
    assert(q.y as int == 2 * (q.y as int / 2) + q.y as int % 2);
}

/// Whether some region point occupies storage slot `i` with row parity
/// `par`, and which point that is. By `lemma_same_slot_same_point` there can
/// be at most one.
pub open spec fn slot_hit(region: Set<Point>, i: int, par: int) -> bool {
    exists|p: Point|
        #[trigger] region.contains(p) && valid_point(p) && index_of(p) == i && p.y % 2 == par
}

pub open spec fn slot_point(region: Set<Point>, i: int, par: int) -> Point {
    choose|p: Point|
        #[trigger] region.contains(p) && valid_point(p) && index_of(p) == i && p.y % 2 == par
}

pub proof fn lemma_slot_unique(p: Point, i: int, par: int, region: Set<Point>)
    requires
        region.contains(p),
        valid_point(p),
        index_of(p) == i,
        p.y % 2 == par,
    ensures
        slot_hit(region, i, par),
        slot_point(region, i, par) == p,
{
    assert(slot_hit(region, i, par));
    let w = slot_point(region, i, par);
    lemma_same_slot_same_point(w, p);
}

/// One cell after the whole region is painted: each half whose point is in
/// the region takes the fill color and remembers that point; a painted half
/// clears any character override.
pub open spec fn region_paint_cell(c: Cell, i: int, region: Set<Point>, color: Color) -> Cell {
    Cell {
        upper_block: if slot_hit(region, i, 0) {
            Some(color)
        } else {
            c.upper_block
        },
        upper_point: if slot_hit(region, i, 0) {
            slot_point(region, i, 0)
        } else {
            c.upper_point
        },
        lower_block: if slot_hit(region, i, 1) {
            Some(color)
        } else {
            c.lower_block
        },
        lower_point: if slot_hit(region, i, 1) {
            slot_point(region, i, 1)
        } else {
            c.lower_point
        },
        character: if slot_hit(region, i, 0) || slot_hit(region, i, 1) {
            None
        } else {
            c.character
        },
    }
}

/// The grid after every point of the region is painted with the fill color;
/// everything outside the region is untouched.
pub open spec fn region_paint(cells: Seq<Cell>, region: Set<Point>, color: Color) -> Seq<Cell> {
    Seq::new(cells.len(), |i: int| region_paint_cell(cells[i], i, region, color))
}

pub proof fn lemma_region_paint_empty(cells: Seq<Cell>, color: Color)
    ensures
        region_paint(cells, Set::empty(), color) == cells,
{
    assert(region_paint(cells, Set::empty(), color) =~= cells);
}

/// What a point shows after a region paint: the fill color inside the
/// region, its original color outside.
pub proof fn lemma_region_paint_color_at(
    cells0: Seq<Cell>,
    region: Set<Point>,
    color: Color,
    q: Point,
)
    requires
        valid_point(q),
        cells0.len() == CELL_COUNT,
    ensures
        color_at(region_paint(cells0, region, color), q) == (if region.contains(q) {
            color
        } else {
            color_at(cells0, q)
        }),
{
    lemma_index_of_bounds(q);
    let iq = index_of(q);
    let pq = q.y as int % 2;
    if region.contains(q) {
        lemma_slot_unique(q, iq, pq, region);
    } else {
        if slot_hit(region, iq, pq) {
            let w = slot_point(region, iq, pq);
            lemma_same_slot_same_point(w, q);
        }
    }
}

/// Painting one more point on top of a region paint gives the paint of the
/// grown region.
pub proof fn lemma_region_paint_insert(
    cells0: Seq<Cell>,
    region: Set<Point>,
    color: Color,
    q: Point,
)
    requires
        valid_point(q),
        cells0.len() == CELL_COUNT,
    ensures
        half_block_cells(region_paint(cells0, region, color), q, color) == region_paint(
            cells0,
            region.insert(q),
            color,
        ),
{
    lemma_index_of_bounds(q);
    let iq = index_of(q);
    let pq = q.y as int % 2;
    let bigger = region.insert(q);
    let lhs = half_block_cells(region_paint(cells0, region, color), q, color);
    let rhs = region_paint(cells0, bigger, color);
    lemma_slot_unique(q, iq, pq, bigger);
    assert forall|i: int, par: int|
        0 <= i < cells0.len() && (par == 0 || par == 1) && (i != iq || par != pq) implies {
        &&& slot_hit(region, i, par) == slot_hit(bigger, i, par)
        &&& (slot_hit(region, i, par) ==> slot_point(region, i, par) == slot_point(
            bigger,
            i,
            par,
        ))
    } by {
        if slot_hit(bigger, i, par) {
            let w = slot_point(bigger, i, par);
            assert(bigger.contains(w) && valid_point(w) && index_of(w) == i && w.y % 2 == par);
            if w == q {
                assert(false);
            }
            assert(region.contains(w));
        }
        if slot_hit(region, i, par) {
            let a = slot_point(region, i, par);
            assert(region.contains(a) && valid_point(a) && index_of(a) == i && a.y % 2 == par);
            assert(bigger.contains(a));
            if slot_hit(bigger, i, par) {
                let b = slot_point(bigger, i, par);
                lemma_same_slot_same_point(a, b);
            }
        }
    }
    assert forall|i: int| 0 <= i < cells0.len() implies lhs[i] == rhs[i] by {
        if i == iq {
            assert(slot_hit(bigger, iq, pq));
            assert(slot_point(bigger, iq, pq) == q);
        }
    }
    assert(lhs =~= rhs);
}

/// An injective integer code for canvas points, used to bound how many
/// points a fill can ever paint.
pub open spec fn point_code(p: Point) -> int {
    p.x + 256 * (p.y as int)
}

pub proof fn lemma_point_code_injective(p: Point, q: Point)
    requires
        point_code(p) == point_code(q),
    ensures
        p == q,
{
}

/// A set of point codes has at most `2^16` elements.
pub proof fn lemma_code_set_bound(s: Set<int>)
    requires
        forall|j: int| #[trigger] s.contains(j) ==> 0 <= j < 65536,
    ensures
        s.finite(),
        s.len() <= 65536,
{
    lemma_int_range(0, 65536);
    assert(s.subset_of(set_int_range(0, 65536)));
    lemma_len_subset(s, set_int_range(0, 65536));
}

/// The ghost bookkeeping that ties the painted set to its code set.
pub open spec fn codes_ok(painted: Set<Point>, codes: Set<int>) -> bool {
    &&& (forall|p: Point| #[trigger] painted.contains(p) <==> codes.contains(point_code(p)))
    &&& (forall|j: int| #[trigger] codes.contains(j) ==> 0 <= j < 65536)
}

/// Every painted point is in bounds and showed the seed color originally.
pub open spec fn region_ok(cells0: Seq<Cell>, first: Color, sz: Size, painted: Set<Point>) -> bool {
    forall|p: Point| #[trigger]
        painted.contains(p) ==> in_bounds(sz, p) && color_at(cells0, p) == first
}

pub open spec fn in_seq(s: Seq<Point>, q: Point) -> bool {
    exists|i: int| 0 <= i < s.len() && s[i] == q
}

/// A point still waiting to have its neighbors examined: it sits in the
/// fresh frontier or in the unprocessed tail of the current batch.
pub open spec fn pending(np: Seq<Point>, batch: Seq<Point>, j: int, p: Point) -> bool {
    in_seq(np, p) || exists|i: int| j <= i < batch.len() && batch[i] == p
}

/// Every matching in-bounds neighbor of an already-examined painted point is
/// itself painted.
pub open spec fn frontier_closed(
    cells0: Seq<Cell>,
    first: Color,
    sz: Size,
    painted: Set<Point>,
    np: Seq<Point>,
    batch: Seq<Point>,
    j: int,
) -> bool {
    forall|p: Point, q: Point|
        #![trigger painted.contains(p), adjacent(p, q)]
        painted.contains(p) && !pending(np, batch, j, p) && adjacent(p, q) && in_bounds(sz, q)
            && color_at(cells0, q) == first ==> painted.contains(q)
}

/// One neighbor is accounted for: if it matches the region's original color
/// and lies in bounds, it has been painted.
pub open spec fn neighbor_done(
    cells0: Seq<Cell>,
    first: Color,
    sz: Size,
    painted: Set<Point>,
    p: Point,
) -> bool {
    in_bounds(sz, p) && color_at(cells0, p) == first ==> painted.contains(p)
}

/// Adding one freshly discovered point to the painted set preserves the
/// fill loop's bookkeeping.
proof fn lemma_discover(
    cells0: Seq<Cell>,
    first: Color,
    sz: Size,
    p0: Set<Point>,
    painted: Set<Point>,
    codes: Set<int>,
    np: Seq<Point>,
    batch: Seq<Point>,
    j: int,
    q: Point,
)
    requires
        0 <= j < batch.len(),
        p0.contains(batch[j]),
        p0.subset_of(painted),
        region_ok(cells0, first, sz, painted),
        forall|i: int|
            0 <= i < np.len() ==> painted.contains(#[trigger] np[i]) && !p0.contains(np[i]),
        forall|x: Point| #[trigger]
            painted.contains(x) <==> (p0.contains(x) || in_seq(np, x)),
        forall|x: Point| #[trigger]
            painted.contains(x) && !p0.contains(x) ==> in_bounds(sz, x) && color_at(cells0, x)
                == first && (exists|p: Point| #[trigger] p0.contains(p) && adjacent(p, x)),
        frontier_closed(cells0, first, sz, painted, np, batch, j),
        codes_ok(painted, codes),
        in_bounds(sz, q),
        color_at(cells0, q) == first,
        !painted.contains(q),
        adjacent(batch[j], q),
    ensures
        p0.subset_of(painted.insert(q)),
        region_ok(cells0, first, sz, painted.insert(q)),
        forall|i: int|
            0 <= i < np.push(q).len() ==> painted.insert(q).contains(#[trigger] np.push(q)[i])
                && !p0.contains(np.push(q)[i]),
        forall|x: Point| #[trigger]
            painted.insert(q).contains(x) <==> (p0.contains(x) || in_seq(np.push(q), x)),
        forall|x: Point| #[trigger]
            painted.insert(q).contains(x) && !p0.contains(x) ==> in_bounds(sz, x) && color_at(
                cells0,
                x,
            ) == first && (exists|p: Point| #[trigger] p0.contains(p) && adjacent(p, x)),
        frontier_closed(cells0, first, sz, painted.insert(q), np.push(q), batch, j),
        codes_ok(painted.insert(q), codes.insert(point_code(q))),
{
    let painted2 = painted.insert(q);
    let np2 = np.push(q);
    assert(in_seq(np2, q)) by {
        assert(np2[np.len() as int] == q);
    }
    assert forall|x: Point| in_seq(np, x) implies in_seq(np2, x) by {
        let i = choose|i: int| 0 <= i < np.len() && np[i] == x;
        assert(np2[i] == x);
    }
    assert forall|x: Point| #[trigger] painted2.contains(x) implies (p0.contains(x) || in_seq(
        np2,
        x,
    )) by {
        if x == q {
        } else {
            assert(painted.contains(x));
            if in_seq(np, x) {
                assert(in_seq(np2, x));
            }
        }
    }
    assert forall|x: Point| (p0.contains(x) || in_seq(np2, x)) implies #[trigger] painted2.contains(
        x,
    ) by {
        if in_seq(np2, x) {
            let i = choose|i: int| 0 <= i < np2.len() && np2[i] == x;
            if i < np.len() {
                assert(np[i] == x);
                assert(in_seq(np, x));
                assert(painted.contains(x));
            } else {
                assert(x == q);
            }
        }
    }
    assert forall|x: Point| #[trigger]
        painted2.contains(x) && !p0.contains(x) implies in_bounds(sz, x) && color_at(cells0, x)
        == first && (exists|p: Point| #[trigger] p0.contains(p) && adjacent(p, x)) by {
        if x == q {
            assert(p0.contains(batch[j]) && adjacent(batch[j], q));
        } else {
            assert(painted.contains(x));
        }
    }
    assert forall|p: Point, q2: Point|
        painted2.contains(p) && !pending(np2, batch, j, p) && #[trigger] adjacent(p, q2)
            && in_bounds(sz, q2) && color_at(cells0, q2) == first implies #[trigger] painted2.contains(
        q2,
    ) by {
        if p == q {
            assert(pending(np2, batch, j, p));
        } else {
            assert(painted.contains(p));
            if in_seq(np, p) {
                assert(in_seq(np2, p));
            }
            assert(!pending(np, batch, j, p));
            assert(painted.contains(q2));
        }
    }
    assert forall|x: Point| #[trigger] painted2.contains(x) implies codes.insert(
        point_code(q),
    ).contains(point_code(x)) by {
        if x != q {
            assert(painted.contains(x));
        }
    }
    assert forall|x: Point| codes.insert(point_code(q)).contains(point_code(x)) implies #[trigger] painted2.contains(
        x,
    ) by {
        if point_code(x) == point_code(q) {
            lemma_point_code_injective(x, q);
        } else {
            assert(codes.contains(point_code(x)));
            assert(painted.contains(x));
        }
    }
    assert(0 <= point_code(q) < 65536);
}

/// Once all four neighbors of the batch point under examination are
/// accounted for, that point no longer needs to be pending.
proof fn lemma_advance(
    cells0: Seq<Cell>,
    first: Color,
    sz: Size,
    painted: Set<Point>,
    np: Seq<Point>,
    batch: Seq<Point>,
    j: int,
)
    requires
        0 <= j < batch.len(),
        frontier_closed(cells0, first, sz, painted, np, batch, j),
        batch[j].x >= 1 ==> neighbor_done(
            cells0,
            first,
            sz,
            painted,
            Point { x: (batch[j].x - 1) as u8, y: batch[j].y },
        ),
        batch[j].x + 1 < sz.width ==> neighbor_done(
            cells0,
            first,
            sz,
            painted,
            Point { x: (batch[j].x + 1) as u8, y: batch[j].y },
        ),
        batch[j].y >= 1 ==> neighbor_done(
            cells0,
            first,
            sz,
            painted,
            Point { x: batch[j].x, y: (batch[j].y - 1) as u8 },
        ),
        batch[j].y < 255 && batch[j].y + 1 < 2 * (sz.height as int) ==> neighbor_done(
            cells0,
            first,
            sz,
            painted,
            Point { x: batch[j].x, y: (batch[j].y + 1) as u8 },
        ),
    ensures
        frontier_closed(cells0, first, sz, painted, np, batch, j + 1),
{
    let pstar = batch[j];
    assert forall|p: Point, q: Point|
        painted.contains(p) && !pending(np, batch, j + 1, p) && #[trigger] adjacent(p, q)
            && in_bounds(sz, q) && color_at(cells0, q) == first implies #[trigger] painted.contains(
        q,
    ) by {
        if p == pstar {
            if p.y == q.y && q.x + 1 == p.x {
                assert(q == (Point { x: (pstar.x - 1) as u8, y: pstar.y }));
            } else if p.y == q.y && p.x + 1 == q.x {
                assert(q.x as int == pstar.x + 1);
                assert(q.x < sz.width);
                assert(q == (Point { x: (pstar.x + 1) as u8, y: pstar.y }));
            } else if p.x == q.x && q.y + 1 == p.y {
                assert(q == (Point { x: pstar.x, y: (pstar.y - 1) as u8 }));
            } else {
                assert(p.x == q.x && p.y + 1 == q.y);
                assert((q.y as int) < 2 * (sz.height as int));
                assert(q == (Point { x: pstar.x, y: (pstar.y + 1) as u8 }));
            }
        } else {
            assert(!pending(np, batch, j, p)) by {
                if pending(np, batch, j, p) {
                    if in_seq(np, p) {
                        assert(pending(np, batch, j + 1, p));
                    } else {
                        let i = choose|i: int| j <= i < batch.len() && batch[i] == p;
                        assert(i != j);
                        assert(j + 1 <= i < batch.len() && batch[i] == p);
                        assert(pending(np, batch, j + 1, p));
                    }
                }
            }
        }
    }
}

impl Canvas {
    /// Paints one candidate point if it still shows the region's original
    /// color, and then queues it as new frontier.
    fn process_point(
        &mut self,
        term: &mut Terminal,
        point: Point,
        first_color: Color,
        color: Color,
        new_points: &mut Vec<Point>,
    )
        requires
            old(self).wf(),
            valid_point(point),
        ensures
            final(self).wf(),
            final(self).size == old(self).size,
            extends(*old(term), *final(term)),
            color_at(old(self).cells@, point) == first_color ==> {
                &&& final(self).cells@ == half_block_cells(old(self).cells@, point, color)
                &&& final(new_points)@ == old(new_points)@.push(point)
            },
            color_at(old(self).cells@, point) != first_color ==> {
                &&& final(self).cells@ == old(self).cells@
                &&& final(new_points)@ == old(new_points)@
            },
    {
        if self.get_color(point) == first_color {
            self.block(term, point, color);
            new_points.push(point);
        }
    }

    /// Flood fill: repaints the 4-connected region of the seed point's
    /// current color with the target color, bounded by the terminal size.
    /// A fill whose target color already equals the seed's current color is
    /// a no-op. The frontier expands breadth-first; every point is painted
    /// at most once, so the loop measure is bounded by the canvas area.
    #[verifier::loop_isolation(false)]
    #[verifier::rlimit(100)]
    pub fn bucket(&mut self, term: &mut Terminal, point: Point, color: Color)
        requires
            old(self).wf(),
            in_bounds(old(self).size, point),
        ensures
            final(self).wf(),
            final(self).size == old(self).size,
            extends(*old(term), *final(term)),
            color_at(old(self).cells@, point) == color ==> final(self).cells@ == old(self).cells@,
            color_at(old(self).cells@, point) != color ==> final(self).cells@ == region_paint(
                old(self).cells@,
                flood_region(
                    old(self).cells@,
                    color_at(old(self).cells@, point),
                    old(self).size,
                    point,
                ),
                color,
            ),
    {
        let ghost cells0 = self.cells@;
        let ghost sz = self.size;
        assert(valid_point(point));
        let first_color = self.get_color(point);
        if first_color == color {
            return;
        }
        let width = self.size.width;
        let height_doubled: u16 = 2 * (self.size.height as u16);

        self.block(term, point, color);
        let ghost mut painted: Set<Point> = Set::empty().insert(point);
        let ghost mut painted_codes: Set<int> = Set::empty().insert(point_code(point));
        let ghost mut rounds: nat = 0;
        let mut new_points: Vec<Point> = Vec::new();
        new_points.push(point);
        proof {
            lemma_region_paint_empty(cells0, color);
            lemma_region_paint_insert(cells0, Set::empty(), color, point);
            vstd::set::axiom_set_insert_len(Set::empty(), point_code(point));
            assert(painted_codes.len() == 1);
            assert(in_seq(new_points@, point)) by {
                assert(new_points@[0] == point);
            }
            assert forall|x: Point| #[trigger]
                painted.contains(x) implies painted_codes.contains(point_code(x)) by {}
            assert forall|x: Point| painted_codes.contains(point_code(x)) implies #[trigger] painted.contains(
                x,
            ) by {
                if point_code(x) == point_code(point) {
                    lemma_point_code_injective(x, point);
                }
            }
        }
        while new_points.len() != 0
            invariant
                self.wf(),
                self.size == sz,
                extends(*old(term), *term),
                painted.contains(point),
                region_ok(cells0, first_color, sz, painted),
                forall|i: int|
                    0 <= i < new_points@.len() ==> painted.contains(#[trigger] new_points@[i]),
                frontier_closed(
                    cells0,
                    first_color,
                    sz,
                    painted,
                    new_points@,
                    Seq::<Point>::empty(),
                    0,
                ),
                self.cells@ == region_paint(cells0, painted, color),
                codes_ok(painted, painted_codes),
                painted == flood_n(cells0, first_color, sz, point, rounds),
                rounds <= painted_codes.len(),
                new_points@.len() > 0 ==> painted_codes.len() >= rounds + 1,
            decreases 2 * (65536 - painted_codes.len()) + vstd::math::min(
                new_points@.len() as int,
                1,
            ),
        {
            proof {
                lemma_code_set_bound(painted_codes);
            }
            let ghost p0 = painted;
            let ghost codes0 = painted_codes;
            let mut batch: Vec<Point> = Vec::new();
            core::mem::swap(&mut batch, &mut new_points);
            let mut j: usize = 0;
            while j < batch.len()
                invariant
                    j <= batch@.len(),
                    self.wf(),
                    self.size == sz,
                    extends(*old(term), *term),
                    forall|i: int| 0 <= i < batch@.len() ==> p0.contains(#[trigger] batch@[i]),
                    p0.subset_of(painted),
                    painted.contains(point),
                    region_ok(cells0, first_color, sz, painted),
                    forall|i: int|
                        0 <= i < new_points@.len() ==> painted.contains(#[trigger] new_points@[i])
                            && !p0.contains(new_points@[i]),
                    forall|x: Point| #[trigger]
                        painted.contains(x) <==> (p0.contains(x) || in_seq(new_points@, x)),
                    forall|x: Point| #[trigger]
                        painted.contains(x) && !p0.contains(x) ==> in_bounds(sz, x) && color_at(
                            cells0,
                            x,
                        ) == first_color && (exists|p: Point|
                            #[trigger] p0.contains(p) && adjacent(p, x)),
                    frontier_closed(
                        cells0,
                        first_color,
                        sz,
                        painted,
                        new_points@,
                        batch@,
                        j as int,
                    ),
                    self.cells@ == region_paint(cells0, painted, color),
                    codes_ok(painted, painted_codes),
                    codes0.subset_of(painted_codes),
                decreases batch@.len() - j,
            {
                let current_point = batch[j];
                proof {
                    assert(p0.contains(batch@[j as int]));
                    assert(painted.contains(current_point));
                    assert(in_bounds(sz, current_point));
                }

                if current_point.x != 0 {
                    let neighbor = Point { x: current_point.x - 1, y: current_point.y };
                    let ghost pre_painted = painted;
                    let ghost np_pre = new_points@;
                    let ghost term_pre = *term;
                    proof {
                        assert(in_bounds(sz, neighbor));
                        lemma_region_paint_color_at(cells0, pre_painted, color, neighbor);
                    }
                    self.process_point(term, neighbor, first_color, color, &mut new_points);
                    proof {
                        lemma_extends_trans(*old(term), term_pre, *term);
                        if !pre_painted.contains(neighbor) && color_at(cells0, neighbor)
                            == first_color {
                            lemma_region_paint_insert(cells0, pre_painted, color, neighbor);
                            lemma_discover(
                                cells0,
                                first_color,
                                sz,
                                p0,
                                pre_painted,
                                painted_codes,
                                np_pre,
                                batch@,
                                j as int,
                                neighbor,
                            );
                            painted = pre_painted.insert(neighbor);
                            painted_codes = painted_codes.insert(point_code(neighbor));
                        }
                        assert(neighbor_done(cells0, first_color, sz, painted, neighbor));
                    }
                }
                let ghost painted_a = painted;

                if current_point.x + 1 < width {
                    let neighbor = Point { x: current_point.x + 1, y: current_point.y };
                    let ghost pre_painted = painted;
                    let ghost np_pre = new_points@;
                    let ghost term_pre = *term;
                    proof {
                        assert(in_bounds(sz, neighbor));
                        lemma_region_paint_color_at(cells0, pre_painted, color, neighbor);
                    }
                    self.process_point(term, neighbor, first_color, color, &mut new_points);
                    proof {
                        lemma_extends_trans(*old(term), term_pre, *term);
                        if !pre_painted.contains(neighbor) && color_at(cells0, neighbor)
                            == first_color {
                            lemma_region_paint_insert(cells0, pre_painted, color, neighbor);
                            lemma_discover(
                                cells0,
                                first_color,
                                sz,
                                p0,
                                pre_painted,
                                painted_codes,
                                np_pre,
                                batch@,
                                j as int,
                                neighbor,
                            );
                            painted = pre_painted.insert(neighbor);
                            painted_codes = painted_codes.insert(point_code(neighbor));
                        }
                        assert(neighbor_done(cells0, first_color, sz, painted, neighbor));
                    }
                }
                let ghost painted_b = painted;

                if current_point.y != 0 {
                    let neighbor = Point { x: current_point.x, y: current_point.y - 1 };
                    let ghost pre_painted = painted;
                    let ghost np_pre = new_points@;
                    let ghost term_pre = *term;
                    proof {
                        assert(in_bounds(sz, neighbor));
                        lemma_region_paint_color_at(cells0, pre_painted, color, neighbor);
                    }
                    self.process_point(term, neighbor, first_color, color, &mut new_points);
                    proof {
                        lemma_extends_trans(*old(term), term_pre, *term);
                        if !pre_painted.contains(neighbor) && color_at(cells0, neighbor)
                            == first_color {
                            lemma_region_paint_insert(cells0, pre_painted, color, neighbor);
                            lemma_discover(
                                cells0,
                                first_color,
                                sz,
                                p0,
                                pre_painted,
                                painted_codes,
                                np_pre,
                                batch@,
                                j as int,
                                neighbor,
                            );
                            painted = pre_painted.insert(neighbor);
                            painted_codes = painted_codes.insert(point_code(neighbor));
                        }
                        assert(neighbor_done(cells0, first_color, sz, painted, neighbor));
                    }
                }
                let ghost painted_c = painted;

                if current_point.y < 255 && (current_point.y as u16) + 1 < height_doubled {
                    let neighbor = Point { x: current_point.x, y: current_point.y + 1 };
                    let ghost pre_painted = painted;
                    let ghost np_pre = new_points@;
                    let ghost term_pre = *term;
                    proof {
                        assert(in_bounds(sz, neighbor));
                        lemma_region_paint_color_at(cells0, pre_painted, color, neighbor);
                    }
                    self.process_point(term, neighbor, first_color, color, &mut new_points);
                    proof {
                        lemma_extends_trans(*old(term), term_pre, *term);
                        if !pre_painted.contains(neighbor) && color_at(cells0, neighbor)
                            == first_color {
                            lemma_region_paint_insert(cells0, pre_painted, color, neighbor);
                            lemma_discover(
                                cells0,
                                first_color,
                                sz,
                                p0,
                                pre_painted,
                                painted_codes,
                                np_pre,
                                batch@,
                                j as int,
                                neighbor,
                            );
                            painted = pre_painted.insert(neighbor);
                            painted_codes = painted_codes.insert(point_code(neighbor));
                        }
                        assert(neighbor_done(cells0, first_color, sz, painted, neighbor));
                    }
                }

                proof {
                    assert(painted_a.subset_of(painted));
                    assert(painted_b.subset_of(painted));
                    assert(painted_c.subset_of(painted));
                    lemma_advance(
                        cells0,
                        first_color,
                        sz,
                        painted,
                        new_points@,
                        batch@,
                        j as int,
                    );
                }
                j = j + 1;
            }

            proof {
                // the whole batch is processed: the painted set has grown by
                // exactly one flood step
                assert forall|x: Point|
                    flood_grow(cells0, first_color, sz, p0).contains(x) implies painted.contains(
                    x,
                ) by {
                    if !p0.contains(x) {
                        let p = choose|p: Point| #[trigger] p0.contains(p) && adjacent(p, x);
                        assert(!pending(new_points@, batch@, batch@.len() as int, p)) by {
                            if in_seq(new_points@, p) {
                                let i = choose|i: int|
                                    0 <= i < new_points@.len() && new_points@[i] == p;
                                assert(!p0.contains(new_points@[i]));
                            }
                        }
                        assert(painted.contains(p));
                        assert(adjacent(p, x) && in_bounds(sz, x) && color_at(cells0, x)
                            == first_color);
                    }
                }
                assert forall|x: Point|
                    painted.contains(x) implies flood_grow(cells0, first_color, sz, p0).contains(
                    x,
                ) by {
                    if !p0.contains(x) {
                        assert(in_bounds(sz, x) && color_at(cells0, x) == first_color);
                        assert(exists|p: Point| #[trigger] p0.contains(p) && adjacent(p, x));
                    }
                }
                assert(flood_grow(cells0, first_color, sz, p0) =~= painted);
                rounds = rounds + 1;
                assert(painted == flood_n(cells0, first_color, sz, point, rounds));

                assert(frontier_closed(
                    cells0,
                    first_color,
                    sz,
                    painted,
                    new_points@,
                    Seq::<Point>::empty(),
                    0,
                )) by {
                    assert forall|p: Point, q: Point|
                        painted.contains(p) && !pending(new_points@, Seq::<Point>::empty(), 0, p)
                            && #[trigger] adjacent(p, q) && in_bounds(sz, q) && color_at(cells0, q)
                            == first_color implies #[trigger] painted.contains(q) by {
                        assert(!pending(new_points@, batch@, batch@.len() as int, p));
                    }
                }

                lemma_code_set_bound(painted_codes);
                lemma_len_subset(codes0, painted_codes);
                if new_points.len() != 0 {
                    let x = new_points@[0];
                    assert(painted.contains(x) && !p0.contains(x));
                    assert(painted_codes.contains(point_code(x)));
                    assert(!codes0.contains(point_code(x)));
                    codes0.lemma_subset_not_in_lt(painted_codes, point_code(x));
                }
            }
        }

        proof {
            assert forall|x: Point|
                flood_grow(cells0, first_color, sz, painted).contains(x) implies painted.contains(
                x,
            ) by {
                if !painted.contains(x) {
                    let p = choose|p: Point| #[trigger] painted.contains(p) && adjacent(p, x);
                    assert(!pending(new_points@, Seq::<Point>::empty(), 0, p));
                }
            }
            assert(flood_grow(cells0, first_color, sz, painted) =~= painted);
            lemma_code_set_bound(painted_codes);
            lemma_flood_stable(cells0, first_color, sz, point, rounds, 65536);
        }
    }
}

} // verus!

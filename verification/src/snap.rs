//! Dragging a window snaps it to the edges of the other visible windows.

use vstd::prelude::*;

verus! {

/// Distance within which a window snaps to an edge.
pub const SNAP_THRESHOLD: i32 = 16;

/// Coordinates this far from zero are handled without overflow.
pub const COORD_BOUND: i32 = 0x1000_0000;

/// The last known geometry of a window, whether it is shown, and whether
/// it should be raised at the next update.
#[derive(Debug, Clone, Copy, PartialEq, Eq, Structural, Default)]
pub struct WindowEdges {
    pub left: i32,
    pub right: i32,
    pub top: i32,
    pub bottom: i32,
    pub width: i32,
    pub height: i32,
    pub shown: bool,
    pub wants_front: bool,
}

pub open spec fn in_bounds(v: int) -> bool {
    -COORD_BOUND <= v <= COORD_BOUND
}

pub open spec fn edges_in_bounds(e: WindowEdges) -> bool {
    in_bounds(e.left as int) && in_bounds(e.right as int) && in_bounds(e.top as int) && in_bounds(
        e.bottom as int,
    )
}

pub open spec fn abs(v: int) -> int {
    if v < 0 {
        -v
    } else {
        v
    }
}

/// Two spans `[a0, a1]` and `[b0, b1]` overlap (as the drag code tests it).
pub open spec fn spans_overlap(a0: int, a1: int, b0: int, b1: int) -> bool {
    (a0 > b0 && a0 < b1) || (a1 > b0 && a1 < b1) || (b0 > a0 && b0 < a1) || (b1 > a0 && b1 < a1)
}

/// A window that can be snapped to: another shown window.
pub open spec fn snap_target(edges: Seq<WindowEdges>, id: int, i: int) -> bool {
    i != id && edges[i].shown
}

/// Candidate horizontal positions, with their distances, for a window at
/// `[l, r] x [t, b]` of width `w`: side by side with a window it overlaps
/// vertically, or flush with the sides of a window just above or below it.
pub open spec fn x_candidates(edges: Seq<WindowEdges>, id: int, l: int, r: int, t: int, b: int, w: int, n: int) -> Seq<(int, int)>
    decreases n,
{
    if n <= 0 {
        seq![]
    } else {
        let o = edges[n - 1];
        let side: Seq<(int, int)> = if snap_target(edges, id, n - 1) && spans_overlap(
            t,
            b,
            o.top as int,
            o.bottom as int,
        ) {
            seq![(abs(o.left - r), o.left - w), (abs(o.right - l), o.right as int)]
        } else {
            seq![]
        };
        let flush: Seq<(int, int)> = if snap_target(edges, id, n - 1) && (abs(t - o.bottom)
            < SNAP_THRESHOLD || abs(o.top - b) < SNAP_THRESHOLD) {
            seq![(abs(l - o.left), o.left as int), (abs(r - o.right), o.right - w)]
        } else {
            seq![]
        };
        x_candidates(edges, id, l, r, t, b, w, n - 1) + side + flush
    }
}

/// `p` comes first in the order of (distance, position).
pub open spec fn lex_le(p: (int, int), q: (int, int)) -> bool {
    p.0 < q.0 || (p.0 == q.0 && p.1 <= q.1)
}

/// Where the window goes along one axis: to the nearest candidate (the
/// first in the order of distance, then position) if it is nearer than the
/// threshold, otherwise where it was dragged.
pub open spec fn snapped(cands: Seq<(int, int)>, pos: int, res: int) -> bool {
    if exists|k: int| 0 <= k < cands.len() && cands[k].0 < SNAP_THRESHOLD {
        exists|k: int|
            0 <= k < cands.len() && res == cands[k].1 && cands[k].0 < SNAP_THRESHOLD && forall|j: int|
                0 <= j < cands.len() ==> lex_le(cands[k], #[trigger] cands[j])
    } else {
        res == pos
    }
}

/// The first candidate in the order of (distance, position).
fn nearest(cands: &Vec<(i32, i32)>) -> (res: Option<(i32, i32)>)
    ensures
        match res {
            Some(m) => exists|k: int|
                0 <= k < cands@.len() && cands@[k] == m && forall|j: int|
                    0 <= j < cands@.len() ==> lex_le(
                        (m.0 as int, m.1 as int),
                        (#[trigger] cands@[j].0 as int, cands@[j].1 as int),
                    ),
            None => cands@.len() == 0,
        },
{
    if cands.len() == 0 {
        return None;
    }
    let mut best = cands[0];
    let ghost mut best_k: int = 0;
    let mut i: usize = 1;
    while i < cands.len()
        invariant
            1 <= i <= cands@.len(),
            0 <= best_k < cands@.len(),
            cands@[best_k] == best,
            forall|j: int|
                0 <= j < i ==> lex_le(
                    (best.0 as int, best.1 as int),
                    (#[trigger] cands@[j].0 as int, cands@[j].1 as int),
                ),
        decreases cands.len() - i,
    {
        let c = cands[i];
        if c.0 < best.0 || (c.0 == best.0 && c.1 < best.1) {
            best = c;
            proof {
                best_k = i as int;
            }
        }
        i = i + 1;
    }
    Some(best)
}

fn abs_i32(v: i32) -> (r: i32)
    requires
        v > i32::MIN,
    ensures
        r == abs(v as int),
{
    if v < 0 {
        -v
    } else {
        v
    }
}

/// The candidates of `x_candidates`, computed.
fn collect_x_candidates(edges: &[WindowEdges], id: usize, l: i32, r: i32, t: i32, b: i32, w: i32) -> (res: Vec<(i32, i32)>)
    requires
        forall|i: int| 0 <= i < edges@.len() ==> edges_in_bounds(#[trigger] edges@[i]),
        in_bounds(l as int) && in_bounds(r as int) && in_bounds(t as int) && in_bounds(b as int)
            && in_bounds(w as int),
    ensures
        res@.len() == x_candidates(edges@, id as int, l as int, r as int, t as int, b as int, w as int, edges@.len() as int).len(),
        forall|k: int|
            0 <= k < res@.len() ==> ((#[trigger] res@[k]).0 as int, res@[k].1 as int) == x_candidates(
                edges@,
                id as int,
                l as int,
                r as int,
                t as int,
                b as int,
                w as int,
                edges@.len() as int,
            )[k],
{
    let mut out: Vec<(i32, i32)> = Vec::new();
    let mut n: usize = 0;
    while n < edges.len()
        invariant
            n <= edges@.len(),
            forall|i: int| 0 <= i < edges@.len() ==> edges_in_bounds(#[trigger] edges@[i]),
            in_bounds(l as int) && in_bounds(r as int) && in_bounds(t as int) && in_bounds(b as int)
                && in_bounds(w as int),
            out@.len() == x_candidates(edges@, id as int, l as int, r as int, t as int, b as int, w as int, n as int).len(),
            forall|k: int|
                0 <= k < out@.len() ==> ((#[trigger] out@[k]).0 as int, out@[k].1 as int)
                    == x_candidates(edges@, id as int, l as int, r as int, t as int, b as int, w as int, n as int)[k],
        decreases edges.len() - n,
    {
        let o = edges[n];
        let ghost before = out@;
        let ghost prev = x_candidates(edges@, id as int, l as int, r as int, t as int, b as int, w as int, n as int);
        let target = n != id && o.shown;
        if target && ((t > o.top && t < o.bottom) || (b > o.top && b < o.bottom) || (o.top > t
            && o.top < b) || (o.bottom > t && o.bottom < b)) {
            out.push((abs_i32(o.left - r), o.left - w));
            out.push((abs_i32(o.right - l), o.right));
        }
        let ghost mid = out@;
        if target && (abs_i32(t - o.bottom) < SNAP_THRESHOLD || abs_i32(o.top - b) < SNAP_THRESHOLD) {
            out.push((abs_i32(l - o.left), o.left));
            out.push((abs_i32(r - o.right), o.right - w));
        }
        proof {
            let next = x_candidates(edges@, id as int, l as int, r as int, t as int, b as int, w as int, n + 1);
            assert(edges@[n as int] == o);
            assert(out@.len() == next.len());
            assert forall|k: int| 0 <= k < out@.len() implies ((#[trigger] out@[k]).0 as int, out@[k].1 as int) == next[k] by {
                if k < before.len() {
                    assert(out@[k] == before[k]);
                    assert(next[k] == prev[k]);
                }
            }
        }
        n = n + 1;
    }
    out
}

/// The same windows with the axes swapped, so that vertical snapping is
/// horizontal snapping of the swapped geometry.
pub open spec fn transposed(edges: Seq<WindowEdges>) -> Seq<WindowEdges> {
    edges.map_values(
        |e: WindowEdges|
            WindowEdges {
                left: e.top,
                right: e.bottom,
                top: e.left,
                bottom: e.right,
                width: e.height,
                height: e.width,
                shown: e.shown,
                wants_front: e.wants_front,
            },
    )
}

/// Where a window of size `w` x `h`, dragged to `(x, y)`, ends up: each
/// coordinate snaps independently to the nearest candidate edge within the
/// threshold.
pub open spec fn spec_snap(edges: Seq<WindowEdges>, id: int, x: int, y: int, w: int, h: int, res: (i32, i32)) -> bool {
    &&& snapped(x_candidates(edges, id, x, x + w, y, y + h, w, edges.len() as int), x, res.0 as int)
    &&& snapped(
        x_candidates(transposed(edges), id, y, y + h, x, x + w, h, edges.len() as int),
        y,
        res.1 as int,
    )
}

fn snap_axis(cands: &Vec<(i32, i32)>, pos: i32) -> (res: i32)
    ensures
        snapped(cands@.map_values(|c: (i32, i32)| (c.0 as int, c.1 as int)), pos as int, res as int),
{
    let ghost view = cands@.map_values(|c: (i32, i32)| (c.0 as int, c.1 as int));
    match nearest(cands) {
        Some(m) => {
            let ghost k = choose|k: int|
                0 <= k < cands@.len() && cands@[k] == m && forall|j: int|
                    0 <= j < cands@.len() ==> lex_le(
                        (m.0 as int, m.1 as int),
                        (#[trigger] cands@[j].0 as int, cands@[j].1 as int),
                    );
            if m.0 < SNAP_THRESHOLD {
                assert(view[k] == (m.0 as int, m.1 as int));
                assert forall|j: int| 0 <= j < view.len() implies lex_le(view[k], #[trigger] view[j]) by {
                    assert(view[j] == (cands@[j].0 as int, cands@[j].1 as int));
                }
                m.1
            } else {
                assert forall|j: int| 0 <= j < view.len() implies !(#[trigger] view[j].0 < SNAP_THRESHOLD) by {
                    assert(lex_le((m.0 as int, m.1 as int), (cands@[j].0 as int, cands@[j].1 as int)));
                }
                pos
            }
        },
        None => pos,
    }
}

/// Where a dragged window goes; see `spec_snap`.
pub fn snap_position(edges: &[WindowEdges], id: usize, x: i32, y: i32, w: i32, h: i32) -> (res: (i32, i32))
    requires
        forall|i: int| 0 <= i < edges@.len() ==> edges_in_bounds(#[trigger] edges@[i]),
        in_bounds(x as int) && in_bounds(y as int),
        0 <= w <= COORD_BOUND && 0 <= h <= COORD_BOUND,
        in_bounds(x + w) && in_bounds(y + h),
    ensures
        spec_snap(edges@, id as int, x as int, y as int, w as int, h as int, res),
{
    let xs = collect_x_candidates(edges, id, x, x + w, y, y + h, w);
    let ghost xv = x_candidates(edges@, id as int, x as int, (x + w) as int, y as int, (y + h) as int, w as int, edges@.len() as int);
    assert(xs@.map_values(|c: (i32, i32)| (c.0 as int, c.1 as int)) =~= xv);
    let new_x = snap_axis(&xs, x);

    let mut swapped: Vec<WindowEdges> = Vec::new();
    let mut i: usize = 0;
    while i < edges.len()
        invariant
            i <= edges@.len(),
            swapped@ == transposed(edges@.take(i as int)),
        decreases edges.len() - i,
    {
        let e = edges[i];
        swapped.push(
            WindowEdges {
                left: e.top,
                right: e.bottom,
                top: e.left,
                bottom: e.right,
                width: e.height,
                height: e.width,
                shown: e.shown,
                wants_front: e.wants_front,
            },
        );
        assert(edges@.take(i + 1) =~= edges@.take(i as int).push(e));
        assert(swapped@ =~= transposed(edges@.take(i + 1)));
        i = i + 1;
    }
    assert(edges@.take(edges@.len() as int) =~= edges@);
    let ys = collect_x_candidates(swapped.as_slice(), id, y, y + h, x, x + w, h);
    let ghost yv = x_candidates(transposed(edges@), id as int, y as int, (y + h) as int, x as int, (x + w) as int, h as int, edges@.len() as int);
    assert(ys@.map_values(|c: (i32, i32)| (c.0 as int, c.1 as int)) =~= yv);
    let new_y = snap_axis(&ys, y);
    (new_x, new_y)
}

/// Each candidate position lies exactly its distance away from where the
/// window is (for a window at `l` of width `w`, so that `r == l + w`).
proof fn lemma_candidate_distance(edges: Seq<WindowEdges>, id: int, l: int, r: int, t: int, b: int, w: int, n: int)
    requires
        r == l + w,
    ensures
        forall|k: int|
            0 <= k < x_candidates(edges, id, l, r, t, b, w, n).len() ==> abs(
                (#[trigger] x_candidates(edges, id, l, r, t, b, w, n)[k]).1 - l,
            ) == x_candidates(edges, id, l, r, t, b, w, n)[k].0,
    decreases n,
{
    if n > 0 {
        lemma_candidate_distance(edges, id, l, r, t, b, w, n - 1);
        let prev = x_candidates(edges, id, l, r, t, b, w, n - 1);
        let all = x_candidates(edges, id, l, r, t, b, w, n);
        assert forall|k: int| 0 <= k < all.len() implies abs((#[trigger] all[k]).1 - l) == all[k].0 by {
            if k < prev.len() {
                assert(all[k] == prev[k]);
            }
        }
    }
}

/// Snapping moves a window by less than the threshold along each axis: it
/// only ever jumps to an edge that was already near.
pub proof fn law_snap_moves_little(edges: Seq<WindowEdges>, id: int, x: int, y: int, w: int, h: int, res: (i32, i32))
    requires
        spec_snap(edges, id, x, y, w, h, res),
    ensures
        abs(res.0 - x) < SNAP_THRESHOLD,
        abs(res.1 - y) < SNAP_THRESHOLD,
{
    let n = edges.len() as int;
    lemma_candidate_distance(edges, id, x, x + w, y, y + h, w, n);
    lemma_candidate_distance(transposed(edges), id, y, y + h, x, x + w, h, n);
    let xs = x_candidates(edges, id, x, x + w, y, y + h, w, n);
    let ys = x_candidates(transposed(edges), id, y, y + h, x, x + w, h, n);
    if exists|k: int| 0 <= k < xs.len() && xs[k].0 < SNAP_THRESHOLD {
        let k = choose|k: int|
            0 <= k < xs.len() && res.0 == xs[k].1 && xs[k].0 < SNAP_THRESHOLD && forall|j: int|
                0 <= j < xs.len() ==> lex_le(xs[k], #[trigger] xs[j]);
        assert(abs(xs[k].1 - x) == xs[k].0);
    }
    if exists|k: int| 0 <= k < ys.len() && ys[k].0 < SNAP_THRESHOLD {
        let k = choose|k: int|
            0 <= k < ys.len() && res.1 == ys[k].1 && ys[k].0 < SNAP_THRESHOLD && forall|j: int|
                0 <= j < ys.len() ==> lex_le(ys[k], #[trigger] ys[j]);
        assert(abs(ys[k].1 - y) == ys[k].0);
    }
}

/// A horizontal position that puts the window (of width `w`) beside or flush
/// with a side of another shown window.
pub open spec fn at_window_side(edges: Seq<WindowEdges>, id: int, w: int, x: int) -> bool {
    exists|i: int|
        0 <= i < edges.len() && i != id && edges[i].shown && (x == edges[i].left || x == edges[i].right - w
            || x == edges[i].left - w || x == edges[i].right as int)
}

/// Every candidate position is beside or flush with a side of a window that
/// can be snapped to.
proof fn lemma_candidate_origin(edges: Seq<WindowEdges>, id: int, l: int, r: int, t: int, b: int, w: int, n: int)
    requires
        n <= edges.len(),
    ensures
        forall|k: int|
            0 <= k < x_candidates(edges, id, l, r, t, b, w, n).len() ==> at_window_side(
                edges,
                id,
                w,
                (#[trigger] x_candidates(edges, id, l, r, t, b, w, n)[k]).1,
            ),
    decreases n,
{
    if n > 0 {
        lemma_candidate_origin(edges, id, l, r, t, b, w, n - 1);
        let prev = x_candidates(edges, id, l, r, t, b, w, n - 1);
        let all = x_candidates(edges, id, l, r, t, b, w, n);
        let o = edges[n - 1];
        assert forall|k: int| 0 <= k < all.len() implies at_window_side(edges, id, w, (#[trigger] all[k]).1) by {
            if k < prev.len() {
                assert(all[k] == prev[k]);
            } else {
                let x = all[k].1;
                assert(x == o.left || x == o.right - w || x == o.left - w || x == o.right as int);
                assert(0 <= n - 1 < edges.len() && n - 1 != id && edges[n - 1].shown);
            }
        }
    }
}

/// Candidates of the first `j` windows stay where they are when more windows
/// are looked at.
proof fn lemma_candidates_prefix(edges: Seq<WindowEdges>, id: int, l: int, r: int, t: int, b: int, w: int, j: int, n: int)
    requires
        0 <= j <= n,
    ensures
        x_candidates(edges, id, l, r, t, b, w, j).len() <= x_candidates(edges, id, l, r, t, b, w, n).len(),
        forall|k: int|
            0 <= k < x_candidates(edges, id, l, r, t, b, w, j).len() ==> #[trigger] x_candidates(
                edges,
                id,
                l,
                r,
                t,
                b,
                w,
                n,
            )[k] == x_candidates(edges, id, l, r, t, b, w, j)[k],
    decreases n - j,
{
    if j < n {
        lemma_candidates_prefix(edges, id, l, r, t, b, w, j, n - 1);
    }
}

/// The window at `[l, l + w] x [t, t + h]` is just above or just below
/// window `o`: its top is near `o`'s bottom or its bottom near `o`'s top.
pub open spec fn just_above_or_below(o: WindowEdges, t: int, h: int) -> bool {
    abs(t - o.bottom) < SNAP_THRESHOLD || abs(o.top - (t + h)) < SNAP_THRESHOLD
}

/// Along one axis: the result of snapping is a side of some other window,
/// at least as near as any side of window `j` that is within reach.
proof fn lemma_snap_axis_reaches(
    edges: Seq<WindowEdges>,
    id: int,
    l: int,
    t: int,
    w: int,
    h: int,
    res: int,
    j: int,
)
    requires
        snapped(x_candidates(edges, id, l, l + w, t, t + h, w, edges.len() as int), l, res),
        0 <= j < edges.len(),
        j != id,
        edges[j].shown,
    ensures
        ({
            let o = edges[j];
            let flush = just_above_or_below(o, t, h);
            let side = spans_overlap(t, t + h, o.top as int, o.bottom as int);
            &&& (flush && abs(l - o.left) < SNAP_THRESHOLD) ==> abs(res - l) <= abs(l - o.left)
            &&& (flush && abs(l + w - o.right) < SNAP_THRESHOLD) ==> abs(res - l) <= abs(l + w - o.right)
            &&& (side && abs(o.left - (l + w)) < SNAP_THRESHOLD) ==> abs(res - l) <= abs(o.left - (l + w))
            &&& (side && abs(o.right - l) < SNAP_THRESHOLD) ==> abs(res - l) <= abs(o.right - l)
            &&& ((flush && (abs(l - o.left) < SNAP_THRESHOLD || abs(l + w - o.right) < SNAP_THRESHOLD)) || (side
                && (abs(o.left - (l + w)) < SNAP_THRESHOLD || abs(o.right - l) < SNAP_THRESHOLD)))
                ==> at_window_side(edges, id, w, res)
        }),
{
    let n = edges.len() as int;
    let (r, b) = (l + w, t + h);
    let o = edges[j];
    lemma_candidate_distance(edges, id, l, r, t, b, w, n);
    lemma_candidate_origin(edges, id, l, r, t, b, w, n);
    lemma_candidates_prefix(edges, id, l, r, t, b, w, j + 1, n);
    let xs = x_candidates(edges, id, l, r, t, b, w, n);
    let upto = x_candidates(edges, id, l, r, t, b, w, j + 1);
    let before = x_candidates(edges, id, l, r, t, b, w, j);
    let is_side = spans_overlap(t, b, o.top as int, o.bottom as int);
    let is_flush = just_above_or_below(o, t, h);
    let side: Seq<(int, int)> = if is_side {
        seq![(abs(o.left - r), o.left - w), (abs(o.right - l), o.right as int)]
    } else {
        seq![]
    };
    let flush: Seq<(int, int)> = if is_flush {
        seq![(abs(l - o.left), o.left as int), (abs(r - o.right), o.right - w)]
    } else {
        seq![]
    };
    assert(upto == before + side + flush);
    let s0: int = before.len() as int;
    let f0: int = s0 + side.len();
    if is_side {
        assert(xs[s0] == upto[s0] && upto[s0] == (abs(o.left - r), o.left - w));
        assert(xs[s0 + 1] == upto[s0 + 1] && upto[s0 + 1] == (abs(o.right - l), o.right as int));
    }
    if is_flush {
        assert(xs[f0] == upto[f0] && upto[f0] == (abs(l - o.left), o.left as int));
        assert(xs[f0 + 1] == upto[f0 + 1] && upto[f0 + 1] == (abs(r - o.right), o.right - w));
    }
    if exists|k: int| 0 <= k < xs.len() && xs[k].0 < SNAP_THRESHOLD {
        let k = choose|k: int|
            0 <= k < xs.len() && res == xs[k].1 && xs[k].0 < SNAP_THRESHOLD && forall|i: int|
                0 <= i < xs.len() ==> lex_le(xs[k], #[trigger] xs[i]);
        assert(abs(xs[k].1 - l) == xs[k].0);
        assert(at_window_side(edges, id, w, xs[k].1));
        if is_side {
            assert(lex_le(xs[k], xs[s0]));
            assert(lex_le(xs[k], xs[s0 + 1]));
        }
        if is_flush {
            assert(lex_le(xs[k], xs[f0]));
            assert(lex_le(xs[k], xs[f0 + 1]));
        }
    } else {
        if is_side {
            assert(!(xs[s0].0 < SNAP_THRESHOLD));
            assert(!(xs[s0 + 1].0 < SNAP_THRESHOLD));
        }
        if is_flush {
            assert(!(xs[f0].0 < SNAP_THRESHOLD));
            assert(!(xs[f0 + 1].0 < SNAP_THRESHOLD));
        }
    }
}

/// A window just above or just below another shown window lines up with
/// that window's sides: where its left edge (or right edge) is within the
/// threshold of the other's, it ends up on the side of some other window
/// at least as near as that one.
pub proof fn law_snap_flush_above_or_below(
    edges: Seq<WindowEdges>,
    id: int,
    x: int,
    y: int,
    w: int,
    h: int,
    res: (i32, i32),
    j: int,
)
    requires
        spec_snap(edges, id, x, y, w, h, res),
        0 <= j < edges.len(),
        j != id,
        edges[j].shown,
        abs(y - edges[j].bottom) < SNAP_THRESHOLD || abs(edges[j].top - (y + h)) < SNAP_THRESHOLD,
        abs(x - edges[j].left) < SNAP_THRESHOLD || abs(x + w - edges[j].right) < SNAP_THRESHOLD,
    ensures
        at_window_side(edges, id, w, res.0 as int),
        abs(x - edges[j].left) < SNAP_THRESHOLD ==> abs(res.0 - x) <= abs(x - edges[j].left),
        abs(x + w - edges[j].right) < SNAP_THRESHOLD ==> abs(res.0 - x) <= abs(x + w - edges[j].right),
{
    lemma_snap_axis_reaches(edges, id, x, y, w, h, res.0 as int, j);
}

/// A window beside another shown window (their vertical spans overlap)
/// docks against it: where its right edge is within the threshold of the
/// other's left edge (or its left edge of the other's right edge), it ends
/// up on the side of some other window at least as near as that one.
pub proof fn law_snap_beside(
    edges: Seq<WindowEdges>,
    id: int,
    x: int,
    y: int,
    w: int,
    h: int,
    res: (i32, i32),
    j: int,
)
    requires
        spec_snap(edges, id, x, y, w, h, res),
        0 <= j < edges.len(),
        j != id,
        edges[j].shown,
        spans_overlap(y, y + h, edges[j].top as int, edges[j].bottom as int),
        abs(edges[j].left - (x + w)) < SNAP_THRESHOLD || abs(edges[j].right - x) < SNAP_THRESHOLD,
    ensures
        at_window_side(edges, id, w, res.0 as int),
        abs(edges[j].left - (x + w)) < SNAP_THRESHOLD ==> abs(res.0 - x) <= abs(edges[j].left - (x + w)),
        abs(edges[j].right - x) < SNAP_THRESHOLD ==> abs(res.0 - x) <= abs(edges[j].right - x),
{
    lemma_snap_axis_reaches(edges, id, x, y, w, h, res.0 as int, j);
}

/// A vertical position that puts the window (of height `h`) above, below or
/// level with an edge of another shown window.
pub open spec fn at_window_end(edges: Seq<WindowEdges>, id: int, h: int, y: int) -> bool {
    exists|i: int|
        0 <= i < edges.len() && i != id && edges[i].shown && (y == edges[i].top || y == edges[i].bottom - h
            || y == edges[i].top - h || y == edges[i].bottom as int)
}

proof fn lemma_transposed(edges: Seq<WindowEdges>, i: int)
    requires
        0 <= i < edges.len(),
    ensures
        transposed(edges).len() == edges.len(),
        transposed(edges)[i].left == edges[i].top,
        transposed(edges)[i].right == edges[i].bottom,
        transposed(edges)[i].top == edges[i].left,
        transposed(edges)[i].bottom == edges[i].right,
        transposed(edges)[i].shown == edges[i].shown,
{
}

proof fn lemma_transposed_side(edges: Seq<WindowEdges>, id: int, h: int, y: int)
    requires
        at_window_side(transposed(edges), id, h, y),
    ensures
        at_window_end(edges, id, h, y),
{
    let te = transposed(edges);
    let i = choose|i: int|
        0 <= i < te.len() && i != id && te[i].shown && (y == te[i].left || y == te[i].right - h || y
            == te[i].left - h || y == te[i].right as int);
    lemma_transposed(edges, i);
}

/// The same along the other axis: a window just left or right of another
/// shown window lines up with its top or bottom, and a window above or below
/// another (their horizontal spans overlap) docks against it; either way it
/// ends up level with, above or below an edge of some other window, at
/// least as near as the edge of that window that was within reach.
pub proof fn law_snap_vertical(
    edges: Seq<WindowEdges>,
    id: int,
    x: int,
    y: int,
    w: int,
    h: int,
    res: (i32, i32),
    j: int,
)
    requires
        spec_snap(edges, id, x, y, w, h, res),
        0 <= j < edges.len(),
        j != id,
        edges[j].shown,
    ensures
        ({
            let o = edges[j];
            let flush = abs(x - o.right) < SNAP_THRESHOLD || abs(o.left - (x + w)) < SNAP_THRESHOLD;
            let side = spans_overlap(x, x + w, o.left as int, o.right as int);
            &&& (flush && abs(y - o.top) < SNAP_THRESHOLD) ==> abs(res.1 - y) <= abs(y - o.top)
            &&& (flush && abs(y + h - o.bottom) < SNAP_THRESHOLD) ==> abs(res.1 - y) <= abs(y + h - o.bottom)
            &&& (side && abs(o.top - (y + h)) < SNAP_THRESHOLD) ==> abs(res.1 - y) <= abs(o.top - (y + h))
            &&& (side && abs(o.bottom - y) < SNAP_THRESHOLD) ==> abs(res.1 - y) <= abs(o.bottom - y)
            &&& ((flush && (abs(y - o.top) < SNAP_THRESHOLD || abs(y + h - o.bottom) < SNAP_THRESHOLD)) || (side
                && (abs(o.top - (y + h)) < SNAP_THRESHOLD || abs(o.bottom - y) < SNAP_THRESHOLD)))
                ==> at_window_end(edges, id, h, res.1 as int)
        }),
{
    let te = transposed(edges);
    lemma_transposed(edges, j);
    lemma_snap_axis_reaches(te, id, y, x, h, w, res.1 as int, j);
    let o = edges[j];
    let flush = abs(x - o.right) < SNAP_THRESHOLD || abs(o.left - (x + w)) < SNAP_THRESHOLD;
    let side = spans_overlap(x, x + w, o.left as int, o.right as int);
    if (flush && (abs(y - o.top) < SNAP_THRESHOLD || abs(y + h - o.bottom) < SNAP_THRESHOLD)) || (side && (abs(
        o.top - (y + h),
    ) < SNAP_THRESHOLD || abs(o.bottom - y) < SNAP_THRESHOLD)) {
        lemma_transposed_side(edges, id, h, res.1 as int);
    }
}

impl WindowEdges {
    /// Records a window's geometry; returns whether it should be raised now
    /// (it was asked for and the window is shown), which clears the request.
    pub fn update(&mut self, x: i32, y: i32, width: i32, height: i32, shown: bool) -> (raise: bool)
        requires
            in_bounds(x as int) && in_bounds(y as int),
            0 <= width <= COORD_BOUND && 0 <= height <= COORD_BOUND,
        ensures
            raise == (old(self).wants_front && shown),
            *final(self) == (WindowEdges {
                left: x,
                right: (x + width) as i32,
                top: y,
                bottom: (y + height) as i32,
                width,
                height,
                shown,
                wants_front: old(self).wants_front && !shown,
            }),
    {
        self.left = x;
        self.right = x + width;
        self.top = y;
        self.bottom = y + height;
        self.width = width;
        self.height = height;
        self.shown = shown;
        if self.wants_front && self.shown {
            self.wants_front = false;
            true
        } else {
            false
        }
    }
}

/// The edges of every window, by window number.
pub struct AllWindowEdges {
    pub edges: Vec<WindowEdges>,
}

impl AllWindowEdges {
    /// Asks for window `id` to be raised at its next update.
    pub fn front(&mut self, id: usize)
        requires
            id < old(self).edges@.len(),
        ensures
            final(self).edges@ == old(self).edges@.update(
                id as int,
                WindowEdges { wants_front: true, ..old(self).edges@[id as int] },
            ),
    {
        let mut e = self.edges[id];
        e.wants_front = true;
        self.edges.set(id, e);
    }

    /// Asks for every shown window to be raised at its next update.
    pub fn front_all(&mut self)
        ensures
            final(self).edges@.len() == old(self).edges@.len(),
            forall|i: int|
                0 <= i < final(self).edges@.len() ==> #[trigger] final(self).edges@[i] == (WindowEdges {
                    wants_front: old(self).edges@[i].shown,
                    ..old(self).edges@[i]
                }),
    {
        let mut i: usize = 0;
        while i < self.edges.len()
            invariant
                i <= self.edges@.len(),
                self.edges@.len() == old(self).edges@.len(),
                forall|k: int|
                    0 <= k < i ==> #[trigger] self.edges@[k] == (WindowEdges {
                        wants_front: old(self).edges@[k].shown,
                        ..old(self).edges@[k]
                    }),
                forall|k: int| i <= k < self.edges@.len() ==> #[trigger] self.edges@[k] == old(self).edges@[k],
            decreases self.edges.len() - i,
        {
            let mut e = self.edges[i];
            e.wants_front = e.shown;
            self.edges.set(i, e);
            i = i + 1;
        }
    }
}

} // verus!

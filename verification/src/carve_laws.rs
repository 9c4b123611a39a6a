//! When things begin on a track from which a stretch has been taken.
use vstd::prelude::*;

use crate::carve::{
    carve_child, carve_step, carved, extracted_children, lifted_children, overwritten_children,
    plus_opt, segment, solid_start, Carved, Fill,
};
use crate::edit::{child_seconds, clip_seconds, gap_of, start_of};
use crate::gap::merged_all;
use crate::model::{ClipModel, TrackChildModel, TrackModel};
use crate::move_clip::first_rate;
use crate::num::{micro, milli, zero, Num};
use crate::text::Str;
use crate::time_laws::{
    gaps_count, kept_in_time, law_merging_moves_nothing, lemma_prefix, on_clock, ticks,
};

verus! {

/// Whether every child of a track lasts longer than a thousandth, or takes no time
/// at all.
pub open spec fn no_slivers(children: Seq<TrackChildModel>) -> bool {
    forall|k: int|
        0 <= k < children.len() ==> child_seconds(#[trigger] children[k]) == zero() || milli().less(
            child_seconds(children[k]),
        )
}

/// Whether a time is the edge of a child, or further than a thousandth from every
/// edge.
pub open spec fn clear_of_edges(children: Seq<TrackChildModel>, at: Num) -> bool {
    forall|n: int|
        0 <= n <= children.len() ==> {
            let t = ticks(#[trigger] start_of(children, n));
            t == ticks(at) || t - ticks(at) > ticks(milli()) || ticks(at) - t > ticks(milli())
        }
}

/// Whether a stretch of time can be cut out of a track without leaving slivers.
pub open spec fn cuts_clean(children: Seq<TrackChildModel>, start: Num, end: Num) -> bool {
    &&& on_clock(children)
    &&& gaps_count(children)
    &&& no_slivers(children)
    &&& start is Fin
    &&& end is Fin
    &&& 0 <= ticks(start)
    &&& ticks(end) - ticks(start) > ticks(milli())
    &&& clear_of_edges(children, start)
    &&& clear_of_edges(children, end)
}

/// Whether a child is found at a time.
pub open spec fn begins_at(children: Seq<TrackChildModel>, c: TrackChildModel, t: int) -> bool {
    exists|m: int|
        0 <= m < children.len() && #[trigger] children[m] == c && start_of(children, m) is Fin
            && ticks(start_of(children, m)) == t
}

/// How much of the time up to one time lies in a stretch.
pub open spec fn part_in(start: Num, end: Num, t: int) -> int {
    if t <= ticks(start) {
        0
    } else if t < ticks(end) {
        t - ticks(start)
    } else {
        ticks(end) - ticks(start)
    }
}

/// What becomes of a time when a stretch is taken out and filled.
pub open spec fn time_after(start: Num, end: Num, fill: Fill, t: int) -> int {
    match fill {
        Fill::Empty(_) => t,
        Fill::Nothing => t - part_in(start, end, t),
        Fill::With(_) => if ticks(start) < t < ticks(end) {
            ticks(end)
        } else {
            t
        },
    }
}

/// A child that is put behind others begins when they end.
pub proof fn lemma_push(s: Seq<TrackChildModel>, c: TrackChildModel)
    requires
        on_clock(s),
        child_seconds(c) is Fin,
        0 <= ticks(child_seconds(c)),
        ticks(start_of(s, s.len() as int)) + ticks(child_seconds(c)) <= i128::MAX,
    ensures
        on_clock(s.push(c)),
        start_of(s.push(c), s.push(c).len() as int) is Fin,
        ticks(start_of(s.push(c), s.push(c).len() as int)) == ticks(start_of(s, s.len() as int))
            + ticks(child_seconds(c)),
        begins_at(s.push(c), c, ticks(start_of(s, s.len() as int))),
        forall|x: TrackChildModel, t: int| begins_at(s, x, t) ==> #[trigger] begins_at(s.push(c), x, t),
        gaps_count(s) && (c is Gap ==> milli().less(child_seconds(c))) ==> gaps_count(s.push(c)),
{
    let p = s.push(c);
    let len = s.len() as int;
    assert forall|n: int| 0 <= n <= len implies #[trigger] start_of(p, n) == start_of(s, n) by {
        lemma_prefix(p, s, n);
    }
    assert(start_of(s, len) is Fin);
    assert(start_of(p, len + 1) == start_of(p, len).plus(child_seconds(p[len])));
    assert forall|n: int| 0 <= n <= p.len() implies (#[trigger] start_of(p, n)) is Fin && 0
        <= ticks(start_of(p, n)) by {
        if n <= len {
            assert(start_of(s, n) is Fin);
        }
    }
    assert(p[len] == c);
    assert forall|x: TrackChildModel, t: int| begins_at(s, x, t) implies #[trigger] begins_at(
        p,
        x,
        t,
    ) by {
        let m = choose|m: int|
            0 <= m < s.len() && #[trigger] s[m] == x && start_of(s, m) is Fin && ticks(
                start_of(s, m),
            ) == t;
        assert(p[m] == x);
        assert(start_of(p, m) == start_of(s, m));
    }
}

/// What holds of a track of which the first children have been carved.
pub open spec fn carved_so_far(
    children: Seq<TrackChildModel>,
    start: Num,
    end: Num,
    fill: Fill,
    c: Carved,
    n: int,
) -> bool {
    let t = ticks(start_of(children, n));
    let out = c.children;
    &&& solid_start(children, n) == start_of(children, n)
    &&& on_clock(out)
    &&& gaps_count(out)
    &&& ticks(start_of(out, out.len() as int)) == time_after(start, end, fill, t)
    &&& fill is With ==> (c.placed <==> part_in(start, end, t) > 0)
    &&& fill is With && c.placed ==> begins_at(
        out,
        TrackChildModel::Clip(fill->With_0),
        ticks(start),
    )
    &&& rest_found(children, start, end, fill, out, n)
}

/// Whether the clips outside a stretch are found again.
pub open spec fn rest_found(
    children: Seq<TrackChildModel>,
    start: Num,
    end: Num,
    fill: Fill,
    out: Seq<TrackChildModel>,
    n: int,
) -> bool {
    forall|k: int|
        0 <= k < n && (#[trigger] children[k]) is Clip && child_seconds(children[k]) != zero() && (
        ticks(start_of(children, k + 1)) <= ticks(start) || ticks(end) <= ticks(
            start_of(children, k),
        )) ==> begins_at(
            out,
            children[k],
            time_after(start, end, fill, ticks(start_of(children, k))),
        )
}

/// What is asked of what fills a stretch.
pub open spec fn fits(children: Seq<TrackChildModel>, start: Num, end: Num, fill: Fill) -> bool {
    fill matches Fill::With(c) ==> clip_seconds(c) is Fin && ticks(clip_seconds(c)) == ticks(end)
        - ticks(start) && ticks(start_of(children, children.len() as int)) + ticks(end) <= i128::MAX
}

/// What holds of a track of which the first children have been carved.
pub proof fn lemma_carved(
    children: Seq<TrackChildModel>,
    start: Num,
    end: Num,
    fill: Fill,
    ids: Seq<Str>,
    n: int,
)
    requires
        cuts_clean(children, start, end),
        fits(children, start, end, fill),
        0 <= n <= children.len(),
    ensures
        carved_so_far(
            children,
            start,
            end,
            fill,
            carved(children, start, end, fill, ids, n),
            n,
        ),
    decreases n,
{
    if n > 0 {
        lemma_carved(children, start, end, fill, ids, n - 1);
        let s = carved(children, start, end, fill, ids, n - 1);
        lemma_carve_step(children, start, end, fill, ids, s, n);
    } else {
        let c = carved(children, start, end, fill, ids, 0);
        assert forall|m: int| 0 <= m <= c.children.len() implies (#[trigger] start_of(
            c.children,
            m,
        )) is Fin && 0 <= ticks(start_of(c.children, m)) by {}
    }
}

#[verifier::rlimit(30)]
proof fn lemma_carve_step(
    children: Seq<TrackChildModel>,
    start: Num,
    end: Num,
    fill: Fill,
    ids: Seq<Str>,
    s: Carved,
    n: int,
)
    requires
        cuts_clean(children, start, end),
        fits(children, start, end, fill),
        0 < n <= children.len(),
        carved_so_far(children, start, end, fill, s, n - 1),
    ensures
        carved_so_far(
            children,
            start,
            end,
            fill,
            carve_step(
                s,
                children[n - 1],
                solid_start(children, n - 1),
                start,
                end,
                fill,
                ids,
            ),
            n,
        ),
{
    let c = children[n - 1];
    let at = start_of(children, n - 1);
    let till = start_of(children, n);
    let d = child_seconds(c);
    let out = carve_step(s, c, at, start, end, fill, ids);
    let a = ticks(at);
    let z = ticks(till);
    assert(at is Fin && 0 <= a);
    assert(till is Fin && 0 <= z);
    assert(d is Fin && z == a + ticks(d));
    assert(a == ticks(start) || a - ticks(start) > ticks(milli()) || ticks(start) - a > ticks(milli()));
    assert(z == ticks(start) || z - ticks(start) > ticks(milli()) || ticks(start) - z > ticks(milli()));
    assert(a == ticks(end) || a - ticks(end) > ticks(milli()) || ticks(end) - a > ticks(milli()));
    assert(z == ticks(end) || z - ticks(end) > ticks(milli()) || ticks(end) - z > ticks(milli()));
    lemma_room(children, n);
    assert(solid_start(children, n) == till);
    let t0 = time_after(start, end, fill, a);
    if ticks(d) == 0 {
        let kept = at.less(start) || end.at_most(at);
        let x = if kept {
            Some(c)
        } else {
            None
        };
        assert(out == Carved { children: plus_opt(s.children, x), ..s });
        lemma_carving(children, start, end, fill, s.children, n - 1, t0, x, 0);
        assert(rest_found(children, start, end, fill, out.children, n));
    } else if z <= ticks(start) || ticks(end) <= a {
        lemma_apart(s, c, at, start, end, fill, ids);
        lemma_carving(children, start, end, fill, s.children, n - 1, t0, Some(c), ticks(d));
        assert(out.children == plus_opt(s.children, Some(c)));
        assert(t0 + ticks(d) == time_after(start, end, fill, z));
        assert(rest_found(children, start, end, fill, out.children, n));
    } else {
        lemma_touched(s, c, at, start, end, fill, ids);
        lemma_carve_child(children, start, end, fill, ids, s, n);
    }
}

/// A child outside the stretch stays.
pub proof fn lemma_apart(
    s: Carved,
    c: TrackChildModel,
    at: Num,
    start: Num,
    end: Num,
    fill: Fill,
    ids: Seq<Str>,
)
    requires
        at is Fin && start is Fin && end is Fin,
        child_seconds(c) is Fin,
        0 <= ticks(at),
        milli().less(child_seconds(c)),
        ticks(at) + ticks(child_seconds(c)) <= i128::MAX,
        0 <= ticks(start) < ticks(end),
        ticks(at) + ticks(child_seconds(c)) <= ticks(start) || (ticks(end) <= ticks(at) && (
        fill is With ==> s.placed)),
    ensures
        carve_step(s, c, at, start, end, fill, ids) == (Carved {
            children: s.children.push(c),
            ..s
        }),
{
}

/// A child that reaches into the stretch is carved.
pub proof fn lemma_touched(
    s: Carved,
    c: TrackChildModel,
    at: Num,
    start: Num,
    end: Num,
    fill: Fill,
    ids: Seq<Str>,
)
    requires
        at is Fin && start is Fin && end is Fin,
        child_seconds(c) is Fin,
        0 <= ticks(at),
        milli().less(child_seconds(c)),
        ticks(at) + ticks(child_seconds(c)) <= i128::MAX,
        0 <= ticks(start),
        ticks(end) - ticks(start) > ticks(milli()),
        ticks(at) + ticks(child_seconds(c)) - ticks(start) > ticks(milli()),
        ticks(end) - ticks(at) > ticks(milli()),
    ensures
        carve_step(s, c, at, start, end, fill, ids) == carve_child(
            s,
            c,
            at,
            start,
            end,
            fill,
            ids,
        ),
{
}

/// No child ends behind the end of its track.
pub proof fn lemma_room(children: Seq<TrackChildModel>, n: int)
    requires
        on_clock(children),
        no_slivers(children),
        0 <= n <= children.len(),
    ensures
        ticks(start_of(children, n)) <= ticks(start_of(children, children.len() as int)),
    decreases children.len() - n,
{
    if n < children.len() {
        lemma_room(children, n + 1);
        assert(start_of(children, n) is Fin);
        assert(start_of(children, n + 1) is Fin);
        assert(child_seconds(children[n]) is Fin);
    }
}

/// A part of a child that lasts longer than a thousandth.
proof fn lemma_segment(c: TrackChildModel, at: Num, from: Num, to: Num, id: Option<Str>)
    requires
        milli().less(child_seconds(c)),
        from is Fin,
        to is Fin,
        0 <= ticks(from),
        ticks(to) - ticks(from) > ticks(milli()),
    ensures
        segment(c, at, from, to, id) matches Some(x) && child_seconds(x) is Fin && ticks(
            child_seconds(x),
        ) == ticks(to) - ticks(from) && (x is Gap ==> milli().less(child_seconds(x))),
{
}

/// A further child leaves what is there as it is.
proof fn lemma_push_carved(
    children: Seq<TrackChildModel>,
    start: Num,
    end: Num,
    fill: Fill,
    out: Seq<TrackChildModel>,
    c: TrackChildModel,
    n: int,
)
    requires
        on_clock(out),
        gaps_count(out),
        rest_found(children, start, end, fill, out, n),
        child_seconds(c) is Fin,
        0 <= ticks(child_seconds(c)),
        c is Gap ==> milli().less(child_seconds(c)),
        ticks(start_of(out, out.len() as int)) + ticks(child_seconds(c)) <= i128::MAX,
    ensures
        on_clock(out.push(c)),
        gaps_count(out.push(c)),
        rest_found(children, start, end, fill, out.push(c), n),
        ticks(start_of(out.push(c), out.push(c).len() as int)) == ticks(
            start_of(out, out.len() as int),
        ) + ticks(child_seconds(c)),
        begins_at(out.push(c), c, ticks(start_of(out, out.len() as int))),
        forall|x: TrackChildModel, t: int|
            begins_at(out, x, t) ==> #[trigger] begins_at(out.push(c), x, t),
{
    lemma_push(out, c);
}

/// What holds between the pushes of one child that is carved.
spec fn carving(
    children: Seq<TrackChildModel>,
    start: Num,
    end: Num,
    fill: Fill,
    out: Seq<TrackChildModel>,
    n: int,
    t: int,
) -> bool {
    &&& on_clock(out)
    &&& gaps_count(out)
    &&& rest_found(children, start, end, fill, out, n)
    &&& ticks(start_of(out, out.len() as int)) == t
}

proof fn lemma_carving(
    children: Seq<TrackChildModel>,
    start: Num,
    end: Num,
    fill: Fill,
    out: Seq<TrackChildModel>,
    n: int,
    t: int,
    x: Option<TrackChildModel>,
    d: int,
)
    requires
        carving(children, start, end, fill, out, n, t),
        match x {
            Some(c) => child_seconds(c) is Fin && ticks(child_seconds(c)) == d && 0 <= d && t + d
                <= i128::MAX && (c is Gap ==> milli().less(child_seconds(c))),
            None => d == 0,
        },
    ensures
        carving(children, start, end, fill, plus_opt(out, x), n, t + d),
        x matches Some(c) ==> begins_at(plus_opt(out, x), c, t),
        forall|y: TrackChildModel, u: int|
            begins_at(out, y, u) ==> #[trigger] begins_at(plus_opt(out, x), y, u),
{
    match x {
        Some(c) => {
            lemma_push_carved(children, start, end, fill, out, c, n);
        },
        None => {},
    }
}

/// What is left of a child in front of a stretch.
pub open spec fn lead_of(c: TrackChildModel, at: Num, till: Num, start: Num) -> Option<TrackChildModel> {
    if at.less(start) {
        segment(c, at, at, start.smaller(till), None)
    } else {
        None
    }
}

/// What is left of a child behind a stretch.
pub open spec fn trail_of(c: TrackChildModel, at: Num, till: Num, end: Num, id: Option<Str>) -> Option<
    TrackChildModel,
> {
    if end.less(till) {
        segment(c, at, end.larger(at), till, id)
    } else {
        None
    }
}

/// What a stretch of a child is filled with.
pub open spec fn middle_of(fill: Fill, overlap: Num, placed: bool) -> Option<TrackChildModel> {
    match fill {
        Fill::Empty(rate) => Some(gap_of(overlap, rate)),
        Fill::Nothing => None,
        Fill::With(clip) => if placed {
            None
        } else {
            Some(TrackChildModel::Clip(clip))
        },
    }
}

/// What is left of a child lasts as long as it reaches out of the stretch.
pub proof fn lemma_parts(c: TrackChildModel, at: Num, till: Num, start: Num, end: Num, id: Option<Str>)
    requires
        milli().less(child_seconds(c)),
        at is Fin && till is Fin && start is Fin && end is Fin,
        0 <= ticks(at) < ticks(till),
        0 <= ticks(start),
        ticks(start) < ticks(till),
        ticks(at) < ticks(end),
        ticks(at) < ticks(start) ==> ticks(start) - ticks(at) > ticks(milli()),
        ticks(end) < ticks(till) ==> ticks(till) - ticks(end) > ticks(milli()),
    ensures
        match lead_of(c, at, till, start) {
            Some(x) => ticks(at) < ticks(start) && child_seconds(x) is Fin && ticks(
                child_seconds(x),
            ) == ticks(start) - ticks(at) && (x is Gap ==> milli().less(child_seconds(x))),
            None => ticks(start) <= ticks(at),
        },
        match trail_of(c, at, till, end, id) {
            Some(x) => ticks(end) < ticks(till) && child_seconds(x) is Fin && ticks(
                child_seconds(x),
            ) == ticks(till) - ticks(end) && (x is Gap ==> milli().less(child_seconds(x))),
            None => ticks(till) <= ticks(end),
        },
{
    if ticks(at) < ticks(start) {
        assert(start.smaller(till) == start);
        lemma_segment(c, at, at, start, None);
    }
    if ticks(end) < ticks(till) {
        assert(end.larger(at) == end);
        lemma_segment(c, at, end, till, id);
    }
}

/// How much of a child lies in a stretch.
pub open spec fn overlap_of(at: Num, till: Num, start: Num, end: Num) -> Num {
    till.smaller(end).minus(at.larger(start))
}

/// What a child loses is what it has of the stretch.
pub proof fn lemma_overlap(at: Num, till: Num, start: Num, end: Num)
    requires
        at is Fin && till is Fin && start is Fin && end is Fin,
        0 <= ticks(at),
        ticks(till) - ticks(at) > ticks(milli()),
        0 <= ticks(start),
        ticks(end) - ticks(start) > ticks(milli()),
        ticks(till) - ticks(start) > ticks(milli()),
        ticks(end) - ticks(at) > ticks(milli()),
    ensures
        overlap_of(at, till, start, end) is Fin,
        milli().less(overlap_of(at, till, start, end)),
        ticks(overlap_of(at, till, start, end)) == part_in(start, end, ticks(till)) - part_in(
            start,
            end,
            ticks(at),
        ),
{
}

#[verifier::rlimit(30)]
proof fn lemma_carve_child(
    children: Seq<TrackChildModel>,
    start: Num,
    end: Num,
    fill: Fill,
    ids: Seq<Str>,
    s: Carved,
    n: int,
)
    requires
        cuts_clean(children, start, end),
        fits(children, start, end, fill),
        0 < n <= children.len(),
        carved_so_far(children, start, end, fill, s, n - 1),
        milli().less(child_seconds(children[n - 1])),
        ticks(start) < ticks(start_of(children, n)),
        ticks(start_of(children, n - 1)) < ticks(end),
        solid_start(children, n) == start_of(children, n),
    ensures
        carved_so_far(
            children,
            start,
            end,
            fill,
            carve_child(s, children[n - 1], start_of(children, n - 1), start, end, fill, ids),
            n,
        ),
{
    let c = children[n - 1];
    let at = start_of(children, n - 1);
    let till = start_of(children, n);
    let a = ticks(at);
    let z = ticks(till);
    let from = ticks(start);
    let to = ticks(end);
    assert(at is Fin && 0 <= a);
    assert(till is Fin && z == a + ticks(child_seconds(c)));
    assert(a == from || a - from > ticks(milli()) || from - a > ticks(milli()));
    assert(z == from || z - from > ticks(milli()) || from - z > ticks(milli()));
    assert(a == to || a - to > ticks(milli()) || to - a > ticks(milli()));
    assert(z == to || z - to > ticks(milli()) || to - z > ticks(milli()));
    lemma_room(children, n);
    let lead = lead_of(c, at, till, start);
    let again = lead matches Some(TrackChildModel::Clip(_));
    let id = if again {
        Some(ids[s.used as int])
    } else {
        None
    };
    let trail = trail_of(c, at, till, end, id);
    let overlap = overlap_of(at, till, start, end);
    let middle = middle_of(fill, overlap, s.placed);
    lemma_parts(c, at, till, start, end, id);
    lemma_overlap(at, till, start, end);
    let t0 = time_after(start, end, fill, a);
    let d1 = if a < from {
        from - a
    } else {
        0
    };
    let d2 = match fill {
        Fill::Empty(_) => ticks(overlap),
        Fill::Nothing => 0,
        Fill::With(_) => if s.placed {
            0
        } else {
            to - from
        },
    };
    let d3 = if to < z {
        z - to
    } else {
        0
    };
    assert(t0 + d1 + d2 + d3 == time_after(start, end, fill, z));
    assert(t0 + d1 + d2 + d3 <= i128::MAX);
    lemma_carving(children, start, end, fill, s.children, n - 1, t0, lead, d1);
    let led = plus_opt(s.children, lead);
    lemma_carving(children, start, end, fill, led, n - 1, t0 + d1, middle, d2);
    let filled = plus_opt(led, middle);
    lemma_carving(children, start, end, fill, filled, n - 1, t0 + d1 + d2, trail, d3);
    let out = carve_child(s, c, at, start, end, fill, ids);
    assert(out.children == plus_opt(filled, trail));
    assert(rest_found(children, start, end, fill, out.children, n));
}

/// What holds of a track from which a stretch has been taken, after its empty
/// time has been merged.
proof fn lemma_merged_carved(
    children: Seq<TrackChildModel>,
    start: Num,
    end: Num,
    fill: Fill,
    out: Seq<TrackChildModel>,
    rate: Num,
    k: int,
)
    requires
        on_clock(out),
        gaps_count(out),
        rest_found(children, start, end, fill, out, children.len() as int),
        0 <= k < children.len(),
        children[k] is Clip,
        child_seconds(children[k]) != zero(),
        ticks(start_of(children, k + 1)) <= ticks(start) || ticks(end) <= ticks(
            start_of(children, k),
        ),
    ensures
        begins_at(
            merged_all(out, rate),
            children[k],
            time_after(start, end, fill, ticks(start_of(children, k))),
        ),
{
    lemma_merged_keeps_time(
        out,
        rate,
        children[k],
        time_after(start, end, fill, ticks(start_of(children, k))),
    );
}

/// A clip begins at its time also when empty time has been merged.
pub proof fn lemma_merged_keeps_time(out: Seq<TrackChildModel>, rate: Num, c: TrackChildModel, t: int)
    requires
        on_clock(out),
        gaps_count(out),
        c is Clip,
        begins_at(out, c, t),
    ensures
        begins_at(merged_all(out, rate), c, t),
{
    law_merging_moves_nothing(out, rate);
    let after = merged_all(out, rate);
    let m = choose|m: int|
        0 <= m < out.len() && #[trigger] out[m] == c && start_of(out, m) is Fin && ticks(
            start_of(out, m),
        ) == t;
    assert(kept_in_time(out, after, m));
    let x = choose|x: int|
        0 <= x < after.len() && #[trigger] after[x] == out[m] && start_of(after, x) == start_of(
            out,
            m,
        );
    assert(after[x] == c);
}

/// A stretch that is lifted leaves empty time behind: the track lasts as long as
/// before, and every clip outside the stretch is still there and begins when it
/// did.
pub proof fn law_lift_moves_nothing(t: TrackModel, start: Num, end: Num, ids: Seq<Str>, k: int)
    requires
        cuts_clean(t.children, start, end),
    ensures
        ({
            let before = t.children;
            let after = lifted_children(t, start, end, ids).children;
            &&& start_of(after, after.len() as int) == start_of(before, before.len() as int)
            &&& 0 <= k < before.len() && before[k] is Clip && child_seconds(before[k]) != zero() && (
            start_of(before, k + 1).at_most(start) || end.at_most(start_of(before, k)))
                ==> begins_at(after, before[k], ticks(start_of(before, k)))
        }),
{
    let n = t.children.len() as int;
    let rate = first_rate(t.children, 0);
    let fill = Fill::Empty(rate);
    lemma_carved(t.children, start, end, fill, ids, n);
    let out = carved(t.children, start, end, fill, ids, n).children;
    law_merging_moves_nothing(out, rate);
    assert(start_of(out, out.len() as int) is Fin);
    assert(start_of(t.children, n) is Fin);
    if 0 <= k < n {
        assert(start_of(t.children, k) is Fin);
        assert(start_of(t.children, k + 1) is Fin);
        if t.children[k] is Clip && child_seconds(t.children[k]) != zero() && (start_of(
            t.children,
            k + 1,
        ).at_most(start) || end.at_most(start_of(t.children, k))) {
            lemma_merged_carved(t.children, start, end, fill, out, rate, k);
        }
    }
}

/// A stretch that is extracted closes up: the track is shorter by what it held of
/// the stretch, the clips in front of the stretch begin when they did, and those
/// behind it earlier by its length.
pub proof fn law_extract_closes_up(t: TrackModel, start: Num, end: Num, ids: Seq<Str>, k: int)
    requires
        cuts_clean(t.children, start, end),
    ensures
        ({
            let before = t.children;
            let after = extracted_children(t, start, end, ids).children;
            let whole = ticks(start_of(before, before.len() as int));
            &&& ticks(start_of(after, after.len() as int)) == whole - part_in(start, end, whole)
            &&& 0 <= k < before.len() && before[k] is Clip && child_seconds(before[k]) != zero()
                && start_of(before, k + 1).at_most(start) ==> begins_at(
                after,
                before[k],
                ticks(start_of(before, k)),
            )
            &&& 0 <= k < before.len() && before[k] is Clip && child_seconds(before[k]) != zero()
                && end.at_most(start_of(before, k)) ==> begins_at(
                after,
                before[k],
                ticks(start_of(before, k)) - (ticks(end) - ticks(start)),
            )
        }),
{
    let n = t.children.len() as int;
    let fill = Fill::Nothing;
    lemma_carved(t.children, start, end, fill, ids, n);
    let out = carved(t.children, start, end, fill, ids, n).children;
    let rate = first_rate(out, 0);
    law_merging_moves_nothing(out, rate);
    if 0 <= k < n {
        assert(start_of(t.children, k) is Fin);
        assert(start_of(t.children, k + 1) is Fin);
        assert(child_seconds(t.children[k]) is Fin);
        if t.children[k] is Clip && child_seconds(t.children[k]) != zero() && (start_of(
            t.children,
            k + 1,
        ).at_most(start) || end.at_most(start_of(t.children, k))) {
            lemma_merged_carved(t.children, start, end, fill, out, rate, k);
        }
    }
}

/// A clip that overwrites a stretch of its length begins at its start, and every
/// clip outside the stretch is still there and begins when it did.  The track
/// lasts as long as before, or to the end of the stretch if that is later.
pub proof fn law_overwrite_moves_nothing(
    t: TrackModel,
    start: Num,
    end: Num,
    clip: ClipModel,
    ids: Seq<Str>,
    k: int,
)
    requires
        cuts_clean(t.children, start, end),
        clip_seconds(clip) == end.minus(start),
        ticks(start_of(t.children, t.children.len() as int)) + ticks(end) <= i128::MAX,
    ensures
        ({
            let before = t.children;
            let after = overwritten_children(t, start, end, clip, ids).children;
            let whole = ticks(start_of(before, before.len() as int));
            &&& ticks(start_of(after, after.len() as int)) == (if whole < ticks(end) {
                ticks(end)
            } else {
                whole
            })
            &&& begins_at(after, TrackChildModel::Clip(clip), ticks(start))
            &&& 0 <= k < before.len() && before[k] is Clip && child_seconds(before[k]) != zero() && (
            start_of(before, k + 1).at_most(start) || end.at_most(start_of(before, k)))
                ==> begins_at(after, before[k], ticks(start_of(before, k)))
        }),
{
    let n = t.children.len() as int;
    let rate = first_rate(t.children, 0);
    let fill = Fill::With(clip);
    lemma_carved(t.children, start, end, fill, ids, n);
    let c = carved(t.children, start, end, fill, ids, n);
    let cursor = start_of(t.children, n);
    assert(cursor is Fin && 0 <= ticks(cursor));
    assert(ticks(cursor) == ticks(start) || ticks(cursor) - ticks(start) > ticks(milli()) || ticks(start)
        - ticks(cursor) > ticks(milli()));
    let new = TrackChildModel::Clip(clip);
    let full = if c.placed {
        c.children
    } else if cursor.less(start.minus(micro())) {
        c.children.push(gap_of(start.minus(cursor), rate)).push(new)
    } else {
        c.children.push(new)
    };
    if !c.placed {
        assert(ticks(cursor) <= ticks(start));
        if cursor.less(start.minus(micro())) {
            let gap = gap_of(start.minus(cursor), rate);
            lemma_push_carved(t.children, start, end, fill, c.children, gap, n);
            lemma_push_carved(t.children, start, end, fill, c.children.push(gap), new, n);
        } else {
            lemma_push_carved(t.children, start, end, fill, c.children, new, n);
        }
    }
    assert(overwritten_children(t, start, end, clip, ids).children == merged_all(full, rate));
    law_merging_moves_nothing(full, rate);
    lemma_merged_keeps_time(full, rate, new, ticks(start));
    if 0 <= k < n {
        assert(start_of(t.children, k) is Fin);
        assert(start_of(t.children, k + 1) is Fin);
        assert(child_seconds(t.children[k]) is Fin);
        if t.children[k] is Clip && child_seconds(t.children[k]) != zero() && (start_of(
            t.children,
            k + 1,
        ).at_most(start) || end.at_most(start_of(t.children, k))) {
            lemma_merged_carved(t.children, start, end, fill, full, rate, k);
        }
    }
}

} // verus!

//! What lifting, extracting and overwriting a stretch leave of a track, wherever it
//! is cut.
use vstd::prelude::*;

use crate::carve::{
    carve_child, carve_step, carved, extracted_children, lifted_children, overwritten_children,
    plus_opt, segment, solid_start, Carved, Fill,
};
use crate::carve_laws::{lemma_push, no_slivers, part_in};
use crate::edit::{child_seconds, clip_seconds, gap_of, start_of};
use crate::gap::{merged, merged_all};
use crate::merge_laws::{law_merging_keeps_the_rest, lemma_same_front, solids};
use crate::model::{ClipModel, TrackChildModel, TrackModel};
use crate::move_clip::first_rate;
use crate::move_laws::lemma_front;
use crate::num::{centi, micro, milli, zero, Num};
use crate::shift_laws::{goes_forward, lemma_forward};
use crate::text::Str;
use crate::time_laws::{begins_near, gaps_count, lemma_prefix, on_clock, ticks};

verus! {

// ---- the pieces ---------------------------------------------------------------

/// All children that are no empty time, in order.
pub open spec fn pieces(children: Seq<TrackChildModel>) -> Seq<TrackChildModel> {
    solids(children, children.len() as int)
}

proof fn lemma_pieces_push(s: Seq<TrackChildModel>, c: TrackChildModel)
    ensures
        pieces(s.push(c)) == (if c is Gap {
            pieces(s)
        } else {
            pieces(s).push(c)
        }),
{
    lemma_same_front(s.push(c), s, s.len() as int);
}

proof fn lemma_same_carving(
    children: Seq<TrackChildModel>,
    start: Num,
    end: Num,
    rate: Num,
    ids: Seq<Str>,
    n: int,
)
    ensures
        ({
            let a = carved(children, start, end, Fill::Empty(rate), ids, n);
            let b = carved(children, start, end, Fill::Nothing, ids, n);
            a.amount == b.amount && a.used == b.used && pieces(a.children) == pieces(b.children)
        }),
    decreases n,
{
    if n > 0 {
        lemma_same_carving(children, start, end, rate, ids, n - 1);
        let a = carved(children, start, end, Fill::Empty(rate), ids, n - 1);
        let b = carved(children, start, end, Fill::Nothing, ids, n - 1);
        let c = children[n - 1];
        let at = solid_start(children, n - 1);
        lemma_pieces_push(a.children, c);
        lemma_pieces_push(b.children, c);
        lemma_same_child(a, b, c, at, start, end, rate, ids);
    }
}

proof fn lemma_pieces_plus(s: Seq<TrackChildModel>, x: Option<TrackChildModel>)
    ensures
        pieces(plus_opt(s, x)) == (match x {
            Some(c) => if c is Gap {
                pieces(s)
            } else {
                pieces(s).push(c)
            },
            None => pieces(s),
        }),
{
    if x is Some {
        lemma_pieces_push(s, x->0);
    }
}

proof fn lemma_same_child(
    a: Carved,
    b: Carved,
    c: TrackChildModel,
    at: Num,
    start: Num,
    end: Num,
    rate: Num,
    ids: Seq<Str>,
)
    requires
        a.amount == b.amount,
        a.used == b.used,
        pieces(a.children) == pieces(b.children),
    ensures
        ({
            let x = carve_child(a, c, at, start, end, Fill::Empty(rate), ids);
            let y = carve_child(b, c, at, start, end, Fill::Nothing, ids);
            x.amount == y.amount && x.used == y.used && pieces(x.children) == pieces(y.children)
        }),
{
    let child_end = at.plus(child_seconds(c));
    let overlap = child_end.smaller(end).minus(at.larger(start));
    let lead = lead_of(c, at, start, child_end);
    let trail = trail_of(c, at, start, end, child_end, ids[a.used as int]);
    let gap = Some(gap_of(overlap, rate));
    let a1 = plus_opt(a.children, lead);
    let b1 = plus_opt(b.children, lead);
    lemma_pieces_plus(a.children, lead);
    lemma_pieces_plus(b.children, lead);
    lemma_pieces_plus(a1, gap);
    lemma_pieces_plus(plus_opt(a1, gap), trail);
    lemma_pieces_plus(b1, trail);
}

/// What is left of a child in front of a stretch.
spec fn lead_of(c: TrackChildModel, at: Num, start: Num, child_end: Num) -> Option<TrackChildModel> {
    if at.less(start) {
        segment(c, at, at, start.smaller(child_end), None)
    } else {
        None
    }
}

/// What is left of a child behind a stretch.
spec fn trail_of(
    c: TrackChildModel,
    at: Num,
    start: Num,
    end: Num,
    child_end: Num,
    id: Str,
) -> Option<TrackChildModel> {
    if end.less(child_end) {
        segment(
            c,
            at,
            end.larger(at),
            child_end,
            if lead_of(c, at, start, child_end) matches Some(TrackChildModel::Clip(_)) {
                Some(id)
            } else {
                None
            },
        )
    } else {
        None
    }
}

/// Lifting and extracting a stretch take out the same time, and leave the same
/// pieces in the same order.
pub proof fn law_lift_and_extract_leave_the_same(
    t: TrackModel,
    start: Num,
    end: Num,
    ids: Seq<Str>,
)
    ensures
        ({
            let l = lifted_children(t, start, end, ids);
            let x = extracted_children(t, start, end, ids);
            &&& l.amount == x.amount
            &&& l.used == x.used
            &&& pieces(l.children) == pieces(x.children)
        }),
{
    let rate = first_rate(t.children, 0);
    let n = t.children.len() as int;
    lemma_same_carving(t.children, start, end, rate, ids, n);
    let a = carved(t.children, start, end, Fill::Empty(rate), ids, n).children;
    let b = carved(t.children, start, end, Fill::Nothing, ids, n).children;
    law_merging_keeps_the_rest(a, rate);
    law_merging_keeps_the_rest(b, first_rate(b, 0));
}

// ---- the lengths --------------------------------------------------------------

/// How long children last together.
pub open spec fn lasting(children: Seq<TrackChildModel>) -> int {
    ticks(start_of(children, children.len() as int))
}

/// The empty time among the first `n` children that lasts a thousandth or less.
spec fn small_time(children: Seq<TrackChildModel>, n: int) -> int
    decreases n,
{
    if n <= 0 {
        0
    } else {
        small_time(children, n - 1) + small(children[n - 1])
    }
}

spec fn small(c: TrackChildModel) -> int {
    if c is Gap && child_seconds(c).at_most(milli()) {
        ticks(child_seconds(c))
    } else {
        0
    }
}

proof fn lemma_small_front(a: Seq<TrackChildModel>, b: Seq<TrackChildModel>, n: int)
    requires
        n <= a.len(),
        n <= b.len(),
        forall|k: int| 0 <= k < n ==> #[trigger] a[k] == b[k],
    ensures
        small_time(a, n) == small_time(b, n),
    decreases n,
{
    if n > 0 {
        lemma_small_front(a, b, n - 1);
    }
}

/// Whether children run on the clock, none of them backwards.
spec fn runs(children: Seq<TrackChildModel>) -> bool {
    on_clock(children) && goes_forward(children)
}

proof fn lemma_runs_push(s: Seq<TrackChildModel>, c: TrackChildModel)
    requires
        runs(s),
        child_seconds(c) is Fin,
        0 <= ticks(child_seconds(c)),
        lasting(s) + ticks(child_seconds(c)) <= i128::MAX,
    ensures
        runs(s.push(c)),
        lasting(s.push(c)) == lasting(s) + ticks(child_seconds(c)),
        small_time(s.push(c), s.push(c).len() as int) == small_time(s, s.len() as int) + small(c),
{
    lemma_push(s, c);
    let p = s.push(c);
    assert forall|k: int| 0 <= k < p.len() implies child_seconds(#[trigger] p[k]) is Fin && 0
        <= ticks(child_seconds(p[k])) by {
        if k < s.len() {
            assert(child_seconds(s[k]) is Fin);
        }
    }
    lemma_small_front(p, s, s.len() as int);
}

proof fn lemma_merged_length(s: Seq<TrackChildModel>, rate: Num, n: int)
    requires
        runs(s),
        0 <= n <= s.len(),
    ensures
        runs(merged(s, rate, n)),
        lasting(merged(s, rate, n)) == ticks(start_of(s, n)) - small_time(s, n),
        0 <= small_time(s, n),
    decreases n,
{
    if n == 0 {
        assert(start_of(merged(s, rate, 0), 0) is Fin);
    } else {
        lemma_merged_length(s, rate, n - 1);
        let m = merged(s, rate, n - 1);
        let c = s[n - 1];
        let len = m.len() as int;
        assert(child_seconds(c) is Fin);
        assert(start_of(s, n - 1) is Fin);
        assert(start_of(s, n) is Fin);
        assert(ticks(start_of(s, n)) == ticks(start_of(s, n - 1)) + ticks(child_seconds(c)));
        if c is Gap && child_seconds(c).at_most(milli()) {
        } else if c is Gap && len > 0 && m.last() is Gap {
            let was = child_seconds(m[len - 1]);
            let front = m.take(len - 1);
            lemma_front(m, len - 1);
            assert(was is Fin);
            assert(start_of(m, len) is Fin);
            assert(start_of(m, len - 1) is Fin);
            assert(lasting(m) == lasting(front) + ticks(was));
            let total = gap_of(was.plus(child_seconds(c)), rate);
            lemma_runs_push(front, total);
            assert(merged(s, rate, n) =~= front.push(total));
        } else {
            lemma_runs_push(m, c);
        }
    }
}

/// Whether the edges of a stretch lie before a time.
spec fn passed(start: Num, end: Num, t: int) -> int {
    (if ticks(start) < t {
        1int
    } else {
        0
    }) + (if ticks(end) < t {
        1int
    } else {
        0
    })
}

/// What holds of the lengths when a stretch has been taken out of the first
/// children of a track.
spec fn gauged(
    children: Seq<TrackChildModel>,
    start: Num,
    end: Num,
    fill: Fill,
    c: Carved,
    n: int,
) -> bool {
    let t = ticks(start_of(children, n));
    let p = passed(start, end, t);
    let out = c.children;
    let whole = lasting(out) + (if fill is Nothing {
        ticks(c.amount)
    } else {
        0
    });
    &&& solid_start(children, n) == start_of(children, n)
    &&& runs(out)
    &&& c.amount is Fin
    &&& 0 <= ticks(c.amount)
    &&& part_in(start, end, t) - p * 1_000_000_000 <= ticks(c.amount) <= part_in(start, end, t)
    &&& t - p * 1_000_000_000 <= whole <= t
    &&& 0 <= small_time(out, out.len() as int) <= p * (if fill is Nothing {
        1_000_000_000_000
    } else {
        2_000_000_000_000int
    })
}

/// Whether a stretch can be cut out of a track whose children last longer than a
/// thousandth or take no time at all.
pub open spec fn cuts_through(children: Seq<TrackChildModel>, start: Num, end: Num) -> bool {
    &&& on_clock(children)
    &&& gaps_count(children)
    &&& no_slivers(children)
    &&& start is Fin
    &&& end is Fin
    &&& 0 <= ticks(start) < ticks(end)
}

proof fn lemma_gauge(
    children: Seq<TrackChildModel>,
    start: Num,
    end: Num,
    fill: Fill,
    ids: Seq<Str>,
    n: int,
)
    requires
        cuts_through(children, start, end),
        !(fill is With),
        0 <= n <= children.len(),
    ensures
        gauged(children, start, end, fill, carved(children, start, end, fill, ids, n), n),
    decreases n,
{
    let c = carved(children, start, end, fill, ids, n);
    if n == 0 {
        assert(start_of(c.children, 0) is Fin);
    } else {
        lemma_gauge(children, start, end, fill, ids, n - 1);
        let s = carved(children, start, end, fill, ids, n - 1);
        lemma_gauge_step(children, start, end, fill, ids, s, n);
    }
}

proof fn lemma_gauge_step(
    children: Seq<TrackChildModel>,
    start: Num,
    end: Num,
    fill: Fill,
    ids: Seq<Str>,
    s: Carved,
    n: int,
)
    requires
        cuts_through(children, start, end),
        !(fill is With),
        0 < n <= children.len(),
        gauged(children, start, end, fill, s, n - 1),
    ensures
        gauged(
            children,
            start,
            end,
            fill,
            carve_step(s, children[n - 1], solid_start(children, n - 1), start, end, fill, ids),
            n,
        ),
{
    let c = children[n - 1];
    let at = start_of(children, n - 1);
    let d = child_seconds(c);
    let child_end = start_of(children, n);
    assert(at is Fin && 0 <= ticks(at));
    assert(child_end is Fin);
    assert(d is Fin);
    assert(child_end == at.plus(d));
    lemma_part_step(start, end, ticks(at), ticks(child_end));
    assert(0 <= lasting(s.children)) by {
        assert(start_of(s.children, s.children.len() as int) is Fin);
    }
    if d == zero() {
        assert(!(c is Gap));
        lemma_runs_push(s.children, c);
    } else {
        assert(milli().less(d));
        if child_end.smaller(end).at_most(at.larger(start).plus(micro())) {
            lemma_runs_push(s.children, c);
        } else {
            lemma_gauge_child(c, at, child_end, start, end, fill, ids, s);
        }
    }
}

/// How much of a stretch lies between two times.
proof fn lemma_part_step(start: Num, end: Num, from: int, to: int)
    requires
        ticks(start) < ticks(end),
        from <= to,
    ensures
        ({
            let first = if from < ticks(start) {
                ticks(start)
            } else {
                from
            };
            let last = if ticks(end) < to {
                ticks(end)
            } else {
                to
            };
            let more = part_in(start, end, to) - part_in(start, end, from);
            &&& more == (if first < last {
                last - first
            } else {
                0
            })
            &&& passed(start, end, from) <= passed(start, end, to)
            &&& 0 < more < to - from ==> passed(start, end, from) < passed(start, end, to)
            &&& first < last ==> passed(start, end, to) - passed(start, end, from) == (if from
                <= ticks(start) {
                1int
            } else {
                0
            }) + (if ticks(end) < to {
                1int
            } else {
                0
            })
            &&& 0 <= part_in(start, end, from)
        }),
{
}

/// A part of a child lasts from its start to its end, if that is more than a
/// millionth.
proof fn lemma_part(c: TrackChildModel, at: Num, from: Num, to: Num, id: Option<Str>)
    requires
        child_seconds(c) != zero(),
        child_seconds(c) is Fin,
        from is Fin,
        to is Fin,
        0 <= ticks(from) <= ticks(to),
    ensures
        ({
            let x = segment(c, at, from, to, id);
            let long = ticks(to) - ticks(from);
            if long <= 1_000_000_000 {
                x is None
            } else {
                x is Some && child_seconds(x->0) is Fin && ticks(child_seconds(x->0)) == long && 0
                    <= small(x->0) <= 1_000_000_000_000
            }
        }),
{
}

proof fn lemma_plus(s: Seq<TrackChildModel>, x: Option<TrackChildModel>)
    requires
        runs(s),
        x matches Some(c) ==> child_seconds(c) is Fin && 0 <= ticks(child_seconds(c)) && lasting(s)
            + ticks(child_seconds(c)) <= i128::MAX,
    ensures
        runs(plus_opt(s, x)),
        lasting(plus_opt(s, x)) == lasting(s) + (match x {
            Some(c) => ticks(child_seconds(c)),
            None => 0,
        }),
        small_time(plus_opt(s, x), plus_opt(s, x).len() as int) == small_time(s, s.len() as int) + (
        match x {
            Some(c) => small(c),
            None => 0,
        }),
{
    if x is Some {
        lemma_runs_push(s, x->0);
    }
}

/// The lengths of what is left of one child.
proof fn lemma_gauge_child(
    c: TrackChildModel,
    at: Num,
    child_end: Num,
    start: Num,
    end: Num,
    fill: Fill,
    ids: Seq<Str>,
    s: Carved,
)
    requires
        at is Fin,
        0 <= ticks(at),
        child_end is Fin,
        child_seconds(c) is Fin,
        milli().less(child_seconds(c)),
        child_end == at.plus(child_seconds(c)),
        start is Fin,
        end is Fin,
        0 <= ticks(start) < ticks(end),
        !(fill is With),
        !child_end.smaller(end).at_most(at.larger(start).plus(micro())),
        runs(s.children),
        s.amount is Fin,
        0 <= ticks(s.amount),
        0 <= lasting(s.children),
        lasting(s.children) + ticks(s.amount) <= ticks(at) || (fill is Empty && lasting(s.children)
            <= ticks(at) && ticks(s.amount) <= ticks(at)),
    ensures
        ({
            let out = carve_child(s, c, at, start, end, fill, ids);
            let first = if ticks(at) < ticks(start) {
                ticks(start)
            } else {
                ticks(at)
            };
            let last = if ticks(end) < ticks(child_end) {
                ticks(end)
            } else {
                ticks(child_end)
            };
            let crossed = (if ticks(at) < ticks(start) {
                1int
            } else {
                0
            }) + (if ticks(end) < ticks(child_end) {
                1int
            } else {
                0
            });
            let filled = if fill is Nothing {
                0
            } else {
                last - first
            };
            let kept = ticks(child_end) - ticks(at) - (last - first);
            let more = lasting(out.children) - lasting(s.children) - filled;
            let smaller = small_time(out.children, out.children.len() as int) - small_time(
                s.children,
                s.children.len() as int,
            );
            &&& runs(out.children)
            &&& out.amount is Fin
            &&& ticks(out.amount) == ticks(s.amount) + (last - first)
            &&& kept - crossed * 1_000_000_000 <= more <= kept
            &&& 0 <= smaller <= crossed * (if fill is Nothing {
                1_000_000_000_000
            } else {
                2_000_000_000_000int
            })
        }),
{
    let overlap = child_end.smaller(end).minus(at.larger(start));
    let lead = lead_of(c, at, start, child_end);
    let trail = trail_of(c, at, start, end, child_end, ids[s.used as int]);
    let middle = match fill {
        Fill::Empty(rate) => Some(gap_of(overlap, rate)),
        _ => None,
    };
    if at.less(start) {
        lemma_part(c, at, at, start.smaller(child_end), None);
    }
    if end.less(child_end) {
        lemma_part(
            c,
            at,
            end.larger(at),
            child_end,
            if lead matches Some(TrackChildModel::Clip(_)) {
                Some(ids[s.used as int])
            } else {
                None
            },
        );
    }
    let one = plus_opt(s.children, lead);
    lemma_plus(s.children, lead);
    let two = plus_opt(one, middle);
    lemma_plus(one, middle);
    lemma_plus(two, trail);
}

/// Lifting and extracting a stretch take out as much as the track holds of it.  A
/// track from which it is lifted lasts as long as before; one from which it is
/// extracted is shorter by what was taken out.  All this to within a hundredth of a
/// second, for cuts that fall next to the edge of a child leave no slivers.
pub proof fn law_lift_and_extract_take_the_same(
    t: TrackModel,
    start: Num,
    end: Num,
    ids: Seq<Str>,
)
    requires
        cuts_through(t.children, start, end),
    ensures
        ({
            let l = lifted_children(t, start, end, ids);
            let x = extracted_children(t, start, end, ids);
            let whole = lasting(t.children);
            let held = part_in(start, end, whole);
            let near = ticks(centi());
            &&& l.amount is Fin
            &&& l.amount == x.amount
            &&& held - near <= ticks(x.amount) <= held
            &&& whole - near <= lasting(l.children) <= whole
            &&& whole - ticks(x.amount) - near <= lasting(x.children) <= whole - ticks(x.amount)
        }),
{
    let rate = first_rate(t.children, 0);
    let n = t.children.len() as int;
    law_lift_and_extract_leave_the_same(t, start, end, ids);
    lemma_gauge(t.children, start, end, Fill::Empty(rate), ids, n);
    lemma_gauge(t.children, start, end, Fill::Nothing, ids, n);
    let a = carved(t.children, start, end, Fill::Empty(rate), ids, n).children;
    let b = carved(t.children, start, end, Fill::Nothing, ids, n).children;
    lemma_merged_length(a, rate, a.len() as int);
    lemma_merged_length(b, first_rate(b, 0), b.len() as int);
}

// ---- overwriting --------------------------------------------------------------

proof fn lemma_near_push(s: Seq<TrackChildModel>, c: TrackChildModel)
    ensures
        forall|x: TrackChildModel, t: int, w: int|
            begins_near(s, x, t, w) ==> #[trigger] begins_near(s.push(c), x, t, w),
        forall|t: int, w: int|
            start_of(s, s.len() as int) is Fin && t - w <= lasting(s) <= t + w
                ==> #[trigger] begins_near(s.push(c), c, t, w),
{
    let p = s.push(c);
    let len = s.len() as int;
    lemma_prefix(p, s, len);
    assert(p[len] == c);
    assert forall|x: TrackChildModel, t: int, w: int| begins_near(s, x, t, w) implies #[trigger] begins_near(
        p,
        x,
        t,
        w,
    ) by {
        let m = choose|m: int|
            0 <= m < s.len() && #[trigger] s[m] == x && start_of(s, m) is Fin && t - w <= ticks(
                start_of(s, m),
            ) <= t + w;
        lemma_prefix(p, s, m);
        assert(p[m] == x);
    }
}

/// What is left of a child in front of a time.
pub open spec fn front_part(children: Seq<TrackChildModel>, k: int, start: Num) -> Option<
    TrackChildModel,
> {
    let at = start_of(children, k);
    segment(children[k], at, at, start, None)
}

/// What is left of a child behind a time; where there is also a part in front of a
/// stretch, this one gets an id of its own.
pub open spec fn back_part(
    children: Seq<TrackChildModel>,
    k: int,
    start: Num,
    end: Num,
    id: Str,
) -> Option<TrackChildModel> {
    let at = start_of(children, k);
    segment(
        children[k],
        at,
        end,
        start_of(children, k + 1),
        if ticks(at) + ticks(micro()) < ticks(start) {
            Some(id)
        } else {
            None
        },
    )
}

/// Whether a child that lies outside a stretch begins when it did, and what lies
/// outside it of a child that it cuts begins when that did: the part in front of it
/// with the child, the part behind it with the end of the stretch.  All this to
/// within so much; parts of a millionth or less need not be there.
pub open spec fn outer_parts_stay(
    children: Seq<TrackChildModel>,
    start: Num,
    end: Num,
    id: Str,
    out: Seq<TrackChildModel>,
    k: int,
    within: int,
) -> bool {
    let at = ticks(start_of(children, k));
    let till = ticks(start_of(children, k + 1));
    let least = ticks(micro());
    let front = front_part(children, k, start);
    let back = back_part(children, k, start, end, id);
    &&& till <= ticks(start) || ticks(end) <= at ==> begins_near(out, children[k], at, within)
    &&& at + least < ticks(start) && ticks(start) + least < till ==> front is Some && begins_near(
        out,
        front->0,
        at,
        within,
    )
    &&& at + least < ticks(end) && ticks(end) + least < till ==> back is Some && begins_near(
        out,
        back->0,
        ticks(end),
        within,
    )
}

/// What holds of the lengths when a clip has been written over a stretch of the
/// first children of a track.
spec fn over_gauge(
    children: Seq<TrackChildModel>,
    start: Num,
    end: Num,
    c: Carved,
    n: int,
) -> bool {
    let t = ticks(start_of(children, n));
    let p = passed(start, end, t);
    let out = c.children;
    let due = if t < ticks(end) {
        ticks(end)
    } else {
        t
    };
    &&& solid_start(children, n) == start_of(children, n)
    &&& runs(out)
    &&& c.used == 0 || ticks(end) < t
    &&& 0 <= small_time(out, out.len() as int) <= p * 1_000_000_000_000
    &&& !c.placed ==> lasting(out) == t && t <= ticks(start) + 1_000_000_000
    &&& c.placed ==> ticks(start) < t && due - p * 1_000_000_000 <= lasting(out) <= due + p
        * 1_000_000_000
}

/// What holds of the children when a clip has been written over a stretch of the
/// first children of a track.
spec fn over_rest(
    children: Seq<TrackChildModel>,
    start: Num,
    end: Num,
    clip: ClipModel,
    id: Str,
    out: Seq<TrackChildModel>,
    placed: bool,
    n: int,
) -> bool {
    &&& placed ==> begins_near(out, TrackChildModel::Clip(clip), ticks(start), 2_000_000_000)
    &&& forall|k: int|
        0 <= k < n && (#[trigger] children[k]) is Clip && child_seconds(children[k]) != zero()
            ==> outer_parts_stay(children, start, end, id, out, k, 2_000_000_000)
}

proof fn lemma_rest_push(
    children: Seq<TrackChildModel>,
    start: Num,
    end: Num,
    clip: ClipModel,
    id: Str,
    out: Seq<TrackChildModel>,
    c: TrackChildModel,
    placed: bool,
    n: int,
)
    requires
        over_rest(children, start, end, clip, id, out, placed, n),
    ensures
        over_rest(children, start, end, clip, id, out.push(c), placed, n),
{
    lemma_near_push(out, c);
    assert forall|k: int|
        0 <= k < n && (#[trigger] children[k]) is Clip && child_seconds(children[k])
            != zero() implies outer_parts_stay(
        children,
        start,
        end,
        id,
        out.push(c),
        k,
        2_000_000_000,
    ) by {
        assert(outer_parts_stay(children, start, end, id, out, k, 2_000_000_000));
    }
}

proof fn lemma_rest_plus(
    children: Seq<TrackChildModel>,
    start: Num,
    end: Num,
    clip: ClipModel,
    id: Str,
    out: Seq<TrackChildModel>,
    x: Option<TrackChildModel>,
    placed: bool,
    n: int,
)
    requires
        over_rest(children, start, end, clip, id, out, placed, n),
    ensures
        over_rest(children, start, end, clip, id, plus_opt(out, x), placed, n),
{
    if x is Some {
        lemma_rest_push(children, start, end, clip, id, out, x->0, placed, n);
    }
}

/// Whether a clip can be written over a stretch of a track: it lasts as long as the
/// stretch, which is longer than a millionth, and the clock can show all times.
pub open spec fn writes_over(
    children: Seq<TrackChildModel>,
    start: Num,
    end: Num,
    clip: ClipModel,
) -> bool {
    &&& cuts_through(children, start, end)
    &&& ticks(micro()) < ticks(end) - ticks(start)
    &&& clip_seconds(clip) == end.minus(start)
    &&& lasting(children) + ticks(end) + ticks(centi()) <= i128::MAX
}

proof fn lemma_over(
    children: Seq<TrackChildModel>,
    start: Num,
    end: Num,
    clip: ClipModel,
    ids: Seq<Str>,
    n: int,
)
    requires
        writes_over(children, start, end, clip),
        0 <= n <= children.len(),
    ensures
        ({
            let c = carved(children, start, end, Fill::With(clip), ids, n);
            &&& over_gauge(children, start, end, c, n)
            &&& over_rest(children, start, end, clip, ids[0], c.children, c.placed, n)
        }),
    decreases n,
{
    if n == 0 {
        let c = carved(children, start, end, Fill::With(clip), ids, 0);
        assert(start_of(c.children, 0) is Fin);
    } else {
        lemma_over(children, start, end, clip, ids, n - 1);
        let s = carved(children, start, end, Fill::With(clip), ids, n - 1);
        lemma_over_step(children, start, end, clip, ids, s, n);
    }
}

/// The times of one child of a track.
proof fn lemma_child_times(children: Seq<TrackChildModel>, start: Num, end: Num, n: int)
    requires
        cuts_through(children, start, end),
        0 < n <= children.len(),
    ensures
        ({
            let at = start_of(children, n - 1);
            let d = child_seconds(children[n - 1]);
            let till = start_of(children, n);
            &&& at is Fin
            &&& d is Fin
            &&& till is Fin
            &&& 0 <= ticks(at)
            &&& till == at.plus(d)
            &&& ticks(till) == ticks(at) + ticks(d)
            &&& d == zero() || milli().less(d)
            &&& small(children[n - 1]) == 0
            &&& ticks(till) <= lasting(children)
        }),
{
    assert(start_of(children, n - 1) is Fin);
    assert(start_of(children, n) is Fin);
    assert(child_seconds(children[n - 1]) == zero() || milli().less(child_seconds(children[n - 1])));
    assert forall|k: int| 0 <= k < children.len() implies child_seconds(
        #[trigger] children[k],
    ) is Fin && 0 <= ticks(child_seconds(children[k])) by {
        assert(start_of(children, k) is Fin);
        assert(start_of(children, k + 1) is Fin);
        assert(child_seconds(children[k]) == zero() || milli().less(child_seconds(children[k])));
    }
    lemma_forward(children, n);
}

proof fn lemma_over_step(
    children: Seq<TrackChildModel>,
    start: Num,
    end: Num,
    clip: ClipModel,
    ids: Seq<Str>,
    s: Carved,
    n: int,
)
    requires
        writes_over(children, start, end, clip),
        0 < n <= children.len(),
        over_gauge(children, start, end, s, n - 1),
        over_rest(children, start, end, clip, ids[0], s.children, s.placed, n - 1),
    ensures
        ({
            let out = carve_step(
                s,
                children[n - 1],
                solid_start(children, n - 1),
                start,
                end,
                Fill::With(clip),
                ids,
            );
            &&& over_gauge(children, start, end, out, n)
            &&& over_rest(children, start, end, clip, ids[0], out.children, out.placed, n)
        }),
{
    let c = children[n - 1];
    let at = start_of(children, n - 1);
    let d = child_seconds(c);
    let till = start_of(children, n);
    lemma_child_times(children, start, end, n);
    if d == zero() {
        lemma_runs_push(s.children, c);
        lemma_rest_push(children, start, end, clip, ids[0], s.children, c, s.placed, n - 1);
    } else if till.at_most(start.plus(micro())) {
        lemma_over_kept(children, start, end, clip, ids, s, n);
    } else if !s.placed && end.minus(micro()).at_most(at) {
        lemma_over_before(children, start, end, clip, ids, s, n);
    } else if till.smaller(end).at_most(at.larger(start).plus(micro())) {
        lemma_over_kept(children, start, end, clip, ids, s, n);
    } else {
        lemma_over_child(children, start, end, clip, ids, s, n);
    }
}

/// A child that stays.
proof fn lemma_over_kept(
    children: Seq<TrackChildModel>,
    start: Num,
    end: Num,
    clip: ClipModel,
    ids: Seq<Str>,
    s: Carved,
    n: int,
)
    requires
        writes_over(children, start, end, clip),
        0 < n <= children.len(),
        over_gauge(children, start, end, s, n - 1),
        over_rest(children, start, end, clip, ids[0], s.children, s.placed, n - 1),
        child_seconds(children[n - 1]) != zero(),
        ({
            let at = start_of(children, n - 1);
            let till = start_of(children, n);
            ||| till.at_most(start.plus(micro()))
            ||| !(!s.placed && end.minus(micro()).at_most(at)) && till.smaller(end).at_most(
                at.larger(start).plus(micro()),
            )
        }),
    ensures
        ({
            let out = Carved { children: s.children.push(children[n - 1]), ..s };
            &&& over_gauge(children, start, end, out, n)
            &&& over_rest(children, start, end, clip, ids[0], out.children, out.placed, n)
        }),
{
    let c = children[n - 1];
    let at = start_of(children, n - 1);
    let till = start_of(children, n);
    lemma_child_times(children, start, end, n);
    lemma_runs_push(s.children, c);
    lemma_rest_push(children, start, end, clip, ids[0], s.children, c, s.placed, n - 1);
    lemma_near_push(s.children, c);
    assert(start_of(s.children, s.children.len() as int) is Fin);
    if !s.placed {
        assert(ticks(till) <= ticks(start) + 1_000_000_000);
    } else {
        assert(ticks(end) <= ticks(at) + 1_000_000_000);
    }
    assert(outer_parts_stay(
        children,
        start,
        end,
        ids[0],
        s.children.push(c),
        n - 1,
        2_000_000_000,
    ));
}

/// The clip comes in front of a child.
proof fn lemma_over_before(
    children: Seq<TrackChildModel>,
    start: Num,
    end: Num,
    clip: ClipModel,
    ids: Seq<Str>,
    s: Carved,
    n: int,
)
    requires
        writes_over(children, start, end, clip),
        0 < n <= children.len(),
        over_gauge(children, start, end, s, n - 1),
        over_rest(children, start, end, clip, ids[0], s.children, s.placed, n - 1),
        child_seconds(children[n - 1]) != zero(),
        !start_of(children, n).at_most(start.plus(micro())),
        !s.placed,
        end.minus(micro()).at_most(start_of(children, n - 1)),
    ensures
        ({
            let out = Carved {
                children: s.children.push(TrackChildModel::Clip(clip)).push(children[n - 1]),
                placed: true,
                ..s
            };
            &&& over_gauge(children, start, end, out, n)
            &&& over_rest(children, start, end, clip, ids[0], out.children, out.placed, n)
        }),
{
    let c = children[n - 1];
    let new = TrackChildModel::Clip(clip);
    let one = s.children.push(new);
    lemma_child_times(children, start, end, n);
    assert(start_of(s.children, s.children.len() as int) is Fin);
    lemma_runs_push(s.children, new);
    lemma_rest_push(children, start, end, clip, ids[0], s.children, new, false, n - 1);
    lemma_near_push(s.children, new);
    assert(begins_near(one, new, ticks(start), 2_000_000_000));
    assert(over_rest(children, start, end, clip, ids[0], one, true, n - 1));
    assert(start_of(one, one.len() as int) is Fin);
    lemma_runs_push(one, c);
    lemma_rest_push(children, start, end, clip, ids[0], one, c, true, n - 1);
    assert(outer_parts_stay(children, start, end, ids[0], one.push(c), n - 1, 2_000_000_000));
}

/// The lengths of what is left of a child that the stretch cuts or covers, with the
/// clip between its parts where it has not been put.
proof fn lemma_over_lengths(
    c: TrackChildModel,
    at: Num,
    till: Num,
    start: Num,
    end: Num,
    clip: ClipModel,
    id: Str,
    s: Seq<TrackChildModel>,
    placed: bool,
)
    requires
        at is Fin,
        0 <= ticks(at),
        till is Fin,
        child_seconds(c) is Fin,
        child_seconds(c) != zero(),
        ticks(till) == ticks(at) + ticks(child_seconds(c)),
        start is Fin,
        end is Fin,
        0 <= ticks(start),
        ticks(start) + 1_000_000_000 < ticks(end),
        ticks(at) + 1_000_000_000 < ticks(end),
        ticks(start) < ticks(till),
        ticks(at) < ticks(till),
        clip_seconds(clip) == end.minus(start),
        ticks(till) + ticks(end) + 10_000_000_000_000 <= i128::MAX,
        runs(s),
        !placed ==> lasting(s) == ticks(at) && ticks(at) <= ticks(start) + 1_000_000_000,
        placed ==> ticks(start) < ticks(at) && ticks(end) - 1_000_000_000 <= lasting(s) <= ticks(
            end,
        ) + 1_000_000_000,
    ensures
        ({
            let lead = lead_of(c, at, start, till);
            let middle = if placed {
                None
            } else {
                Some(TrackChildModel::Clip(clip))
            };
            let trail = trail_of(c, at, start, end, till, id);
            let one = plus_opt(s, lead);
            let two = plus_opt(one, middle);
            let three = plus_opt(two, trail);
            let smaller = small_time(three, three.len() as int) - small_time(s, s.len() as int);
            let crossed = (if ticks(at) < ticks(start) {
                1int
            } else {
                0
            }) + (if ticks(end) < ticks(till) {
                1int
            } else {
                0
            });
            &&& runs(one)
            &&& runs(two)
            &&& runs(three)
            &&& lead is Some ==> lasting(s) == ticks(at)
            &&& !placed ==> ticks(start) - 1_000_000_000 <= lasting(one) <= ticks(start)
                + 1_000_000_000
            &&& ticks(end) - 1_000_000_000 <= lasting(two) <= ticks(end) + 1_000_000_000
            &&& if ticks(end) < ticks(till) {
                ticks(till) - 2_000_000_000 <= lasting(three) <= ticks(till) + 1_000_000_000
            } else {
                lasting(three) == lasting(two)
            }
            &&& 0 <= smaller <= crossed * 1_000_000_000_000
        }),
{
    let lead = lead_of(c, at, start, till);
    let middle = if placed {
        None
    } else {
        Some(TrackChildModel::Clip(clip))
    };
    let trail = trail_of(c, at, start, end, till, id);
    if at.less(start) {
        lemma_part(c, at, at, start.smaller(till), None);
    }
    if end.less(till) {
        lemma_part(
            c,
            at,
            end.larger(at),
            till,
            if lead matches Some(TrackChildModel::Clip(_)) {
                Some(id)
            } else {
                None
            },
        );
    }
    let one = plus_opt(s, lead);
    lemma_plus(s, lead);
    let two = plus_opt(one, middle);
    lemma_plus(one, middle);
    lemma_plus(two, trail);
}

/// What is left of a child that the stretch cuts or covers begins when it did.
proof fn lemma_over_rest(
    children: Seq<TrackChildModel>,
    start: Num,
    end: Num,
    clip: ClipModel,
    id: Str,
    s: Seq<TrackChildModel>,
    lead: Option<TrackChildModel>,
    trail: Option<TrackChildModel>,
    placed: bool,
    n: int,
)
    requires
        over_rest(children, start, end, clip, id, s, placed, n),
        start_of(s, s.len() as int) is Fin,
        lead is Some ==> lasting(s) == ticks(start_of(children, n)),
        ({
            let new = TrackChildModel::Clip(clip);
            let one = plus_opt(s, lead);
            let two = if placed {
                one
            } else {
                one.push(new)
            };
            &&& start_of(one, one.len() as int) is Fin
            &&& start_of(two, two.len() as int) is Fin
            &&& !placed ==> ticks(start) - 1_000_000_000 <= lasting(one) <= ticks(start)
                + 1_000_000_000
            &&& ticks(end) - 1_000_000_000 <= lasting(two) <= ticks(end) + 1_000_000_000
        }),
        children[n] is Clip ==> ({
            let at = ticks(start_of(children, n));
            let till = ticks(start_of(children, n + 1));
            &&& ticks(start) < till
            &&& at < ticks(end)
            &&& at + ticks(micro()) < ticks(start) ==> lead is Some && lead == front_part(
                children,
                n,
                start,
            )
            &&& ticks(end) + ticks(micro()) < till ==> trail is Some && trail == back_part(
                children,
                n,
                start,
                end,
                id,
            )
        }),
    ensures
        over_rest(
            children,
            start,
            end,
            clip,
            id,
            plus_opt(
                plus_opt(
                    plus_opt(s, lead),
                    if placed {
                        None
                    } else {
                        Some(TrackChildModel::Clip(clip))
                    },
                ),
                trail,
            ),
            true,
            n + 1,
        ),
{
    let new = TrackChildModel::Clip(clip);
    let one = plus_opt(s, lead);
    let middle = if placed {
        None
    } else {
        Some(new)
    };
    let two = plus_opt(one, middle);
    let three = plus_opt(two, trail);
    lemma_rest_plus(children, start, end, clip, id, s, lead, placed, n);
    lemma_rest_plus(children, start, end, clip, id, one, middle, placed, n);
    if !placed {
        lemma_near_push(one, new);
        assert(begins_near(two, new, ticks(start), 2_000_000_000));
    }
    lemma_rest_plus(children, start, end, clip, id, two, trail, true, n);
    if children[n] is Clip {
        lemma_over_parts(s, lead, middle, trail, ticks(start_of(children, n)), ticks(end));
        assert(outer_parts_stay(children, start, end, id, three, n, 2_000_000_000));
    }
}

/// A child that the stretch cuts or covers.
proof fn lemma_over_child(
    children: Seq<TrackChildModel>,
    start: Num,
    end: Num,
    clip: ClipModel,
    ids: Seq<Str>,
    s: Carved,
    n: int,
)
    requires
        writes_over(children, start, end, clip),
        0 < n <= children.len(),
        over_gauge(children, start, end, s, n - 1),
        over_rest(children, start, end, clip, ids[0], s.children, s.placed, n - 1),
        child_seconds(children[n - 1]) != zero(),
        !start_of(children, n).at_most(start.plus(micro())),
        !start_of(children, n).smaller(end).at_most(
            start_of(children, n - 1).larger(start).plus(micro()),
        ),
    ensures
        ({
            let out = carve_child(
                s,
                children[n - 1],
                start_of(children, n - 1),
                start,
                end,
                Fill::With(clip),
                ids,
            );
            &&& over_gauge(children, start, end, out, n)
            &&& over_rest(children, start, end, clip, ids[0], out.children, out.placed, n)
        }),
{
    let c = children[n - 1];
    let at = start_of(children, n - 1);
    let till = start_of(children, n);
    lemma_child_times(children, start, end, n);
    assert(ticks(at) + 1_000_000_000 < ticks(end));
    assert(ticks(start) < ticks(till));
    assert(s.used == 0);
    let id = ids[0];
    lemma_over_lengths(c, at, till, start, end, clip, id, s.children, s.placed);
    let lead = lead_of(c, at, start, till);
    let trail = trail_of(c, at, start, end, till, id);
    let one = plus_opt(s.children, lead);
    let two = plus_opt(
        one,
        if s.placed {
            None
        } else {
            Some(TrackChildModel::Clip(clip))
        },
    );
    assert(start_of(s.children, s.children.len() as int) is Fin);
    assert(start_of(one, one.len() as int) is Fin);
    assert(start_of(two, two.len() as int) is Fin);
    lemma_over_rest(
        children,
        start,
        end,
        clip,
        id,
        s.children,
        lead,
        trail,
        s.placed,
        n - 1,
    );
    let out = carve_child(s, c, at, start, end, Fill::With(clip), ids);
    assert(out.children == plus_opt(two, trail));
}

/// The parts of a child begin where they are put.
proof fn lemma_over_parts(
    s: Seq<TrackChildModel>,
    lead: Option<TrackChildModel>,
    middle: Option<TrackChildModel>,
    trail: Option<TrackChildModel>,
    at: int,
    end: int,
)
    requires
        start_of(s, s.len() as int) is Fin,
        lead is Some ==> lasting(s) == at,
        trail is Some ==> ({
            let two = plus_opt(plus_opt(s, lead), middle);
            start_of(two, two.len() as int) is Fin && end - 2_000_000_000 <= lasting(two) <= end
                + 2_000_000_000
        }),
    ensures
        ({
            let out = plus_opt(plus_opt(plus_opt(s, lead), middle), trail);
            &&& lead matches Some(x) ==> begins_near(out, x, at, 2_000_000_000)
            &&& trail matches Some(x) ==> begins_near(out, x, end, 2_000_000_000)
        }),
{
    let one = plus_opt(s, lead);
    let two = plus_opt(one, middle);
    if lead is Some {
        lemma_near_push(s, lead->0);
        assert(begins_near(one, lead->0, at, 2_000_000_000));
    }
    if middle is Some {
        lemma_near_push(one, middle->0);
    }
    if trail is Some {
        lemma_near_push(two, trail->0);
        assert(begins_near(two.push(trail->0), trail->0, end, 2_000_000_000));
    }
}

/// What is no empty time begins, after empty time has been merged, earlier by the
/// stretches of a thousandth or less in front of it.
proof fn lemma_merged_found(s: Seq<TrackChildModel>, rate: Num, n: int)
    requires
        runs(s),
        0 <= n <= s.len(),
    ensures
        forall|k: int|
            0 <= k < n && !((#[trigger] s[k]) is Gap) ==> begins_near(
                merged(s, rate, n),
                s[k],
                ticks(start_of(s, k)) - small_time(s, k),
                0,
            ),
    decreases n,
{
    if n > 0 {
        lemma_merged_found(s, rate, n - 1);
        lemma_merged_length(s, rate, n - 1);
        let m = merged(s, rate, n - 1);
        let out = merged(s, rate, n);
        let c = s[n - 1];
        let len = m.len() as int;
        assert(start_of(m, len) is Fin);
        lemma_near_push(m, c);
        assert forall|k: int| 0 <= k < n && !((#[trigger] s[k]) is Gap) implies begins_near(
            out,
            s[k],
            ticks(start_of(s, k)) - small_time(s, k),
            0,
        ) by {
            let t = ticks(start_of(s, k)) - small_time(s, k);
            if k < n - 1 {
                assert(begins_near(m, s[k], t, 0));
                if c is Gap && !child_seconds(c).at_most(milli()) && len > 0 && m.last() is Gap {
                    let front = m.take(len - 1);
                    assert(out =~= front.push(out.last()));
                    lemma_near_push(front, out.last());
                    let x = choose|x: int|
                        0 <= x < m.len() && #[trigger] m[x] == s[k] && start_of(m, x) is Fin && t
                            - 0 <= ticks(start_of(m, x)) <= t + 0;
                    assert(x < len - 1);
                    lemma_prefix(front, m, x);
                    assert(front[x] == s[k]);
                    assert(begins_near(front, s[k], t, 0));
                }
            }
        }
    }
}

proof fn lemma_small_grows(s: Seq<TrackChildModel>, k: int, n: int)
    requires
        runs(s),
        0 <= k <= n <= s.len(),
    ensures
        0 <= small_time(s, k) <= small_time(s, n),
    decreases n,
{
    if n > 0 {
        assert(child_seconds(s[n - 1]) is Fin);
        if k < n {
            lemma_small_grows(s, k, n - 1);
        } else {
            lemma_small_grows(s, k - 1, n - 1);
        }
    }
}

/// What begins near a time still does when empty time has been merged, but for the
/// stretches of a thousandth or less.
proof fn lemma_near_merged(
    s: Seq<TrackChildModel>,
    rate: Num,
    c: TrackChildModel,
    t: int,
    within: int,
)
    requires
        runs(s),
        !(c is Gap),
        0 <= within,
        begins_near(s, c, t, within),
        small_time(s, s.len() as int) + within <= ticks(centi()),
    ensures
        begins_near(merged_all(s, rate), c, t, ticks(centi())),
{
    let n = s.len() as int;
    let after = merged_all(s, rate);
    lemma_merged_found(s, rate, n);
    let m = choose|m: int|
        0 <= m < s.len() && #[trigger] s[m] == c && start_of(s, m) is Fin && t - within <= ticks(
            start_of(s, m),
        ) <= t + within;
    lemma_small_grows(s, m, n);
    let u = ticks(start_of(s, m)) - small_time(s, m);
    assert(begins_near(after, s[m], u, 0));
    let x = choose|x: int|
        0 <= x < after.len() && #[trigger] after[x] == s[m] && start_of(after, x) is Fin && u - 0
            <= ticks(start_of(after, x)) <= u + 0;
    assert(after[x] == c);
}

/// A clip that overwrites a stretch of its length begins at its start.  Every clip
/// outside the stretch is still there and begins when it did, and so are the outer
/// parts of the clips that it cuts: the part in front of it begins with the clip,
/// the part behind it when the stretch ends.  The track lasts as long as before, or
/// to the end of the stretch if that is later.  All this to within a hundredth of a
/// second, wherever the stretch lies.
pub proof fn law_overwrite_keeps_what_is_outside(
    t: TrackModel,
    start: Num,
    end: Num,
    clip: ClipModel,
    ids: Seq<Str>,
    k: int,
)
    requires
        writes_over(t.children, start, end, clip),
    ensures
        ({
            let after = overwritten_children(t, start, end, clip, ids).children;
            let near = ticks(centi());
            let whole = lasting(t.children);
            let due = if whole < ticks(end) {
                ticks(end)
            } else {
                whole
            };
            &&& begins_near(after, TrackChildModel::Clip(clip), ticks(start), near)
            &&& due - near <= lasting(after) <= due + near
            &&& 0 <= k < t.children.len() && t.children[k] is Clip && child_seconds(t.children[k])
                != zero() ==> outer_parts_stay(t.children, start, end, ids[0], after, k, near)
        }),
{
    let n = t.children.len() as int;
    let rate = first_rate(t.children, 0);
    let new = TrackChildModel::Clip(clip);
    lemma_over(t.children, start, end, clip, ids, n);
    let c = carved(t.children, start, end, Fill::With(clip), ids, n);
    let cursor = start_of(t.children, n);
    assert(cursor is Fin && 0 <= ticks(cursor));
    let full = if c.placed {
        c.children
    } else if cursor.less(start.minus(micro())) {
        c.children.push(gap_of(start.minus(cursor), rate)).push(new)
    } else {
        c.children.push(new)
    };
    lemma_over_end(t.children, start, end, clip, ids, rate, c);
    assert(overwritten_children(t, start, end, clip, ids).children == merged_all(full, rate));
    lemma_merged_length(full, rate, full.len() as int);
    lemma_near_merged(full, rate, new, ticks(start), 2_000_000_000);
    if 0 <= k < n && t.children[k] is Clip && child_seconds(t.children[k]) != zero() {
        lemma_parts_merged(t.children, start, end, ids[0], full, rate, k);
    }
}

/// The parts of a clip when empty time has been merged.
proof fn lemma_parts_merged(
    children: Seq<TrackChildModel>,
    start: Num,
    end: Num,
    id: Str,
    full: Seq<TrackChildModel>,
    rate: Num,
    k: int,
)
    requires
        runs(full),
        small_time(full, full.len() as int) <= 3_000_000_000_000,
        0 <= k < children.len(),
        children[k] is Clip,
        outer_parts_stay(children, start, end, id, full, k, 2_000_000_000),
    ensures
        outer_parts_stay(children, start, end, id, merged_all(full, rate), k, ticks(centi())),
{
    let at = ticks(start_of(children, k));
    let till = ticks(start_of(children, k + 1));
    let least = ticks(micro());
    if till <= ticks(start) || ticks(end) <= at {
        lemma_near_merged(full, rate, children[k], at, 2_000_000_000);
    }
    if at + least < ticks(start) && ticks(start) + least < till {
        let front = front_part(children, k, start)->0;
        lemma_near_merged(full, rate, front, at, 2_000_000_000);
    }
    if at + least < ticks(end) && ticks(end) + least < till {
        let back = back_part(children, k, start, end, id)->0;
        lemma_near_merged(full, rate, back, ticks(end), 2_000_000_000);
    }
}

/// The clip comes behind all where it has not been put.
proof fn lemma_over_end(
    children: Seq<TrackChildModel>,
    start: Num,
    end: Num,
    clip: ClipModel,
    ids: Seq<Str>,
    rate: Num,
    c: Carved,
)
    requires
        writes_over(children, start, end, clip),
        over_gauge(children, start, end, c, children.len() as int),
        over_rest(
            children,
            start,
            end,
            clip,
            ids[0],
            c.children,
            c.placed,
            children.len() as int,
        ),
    ensures
        ({
            let new = TrackChildModel::Clip(clip);
            let cursor = start_of(children, children.len() as int);
            let full = if c.placed {
                c.children
            } else if cursor.less(start.minus(micro())) {
                c.children.push(gap_of(start.minus(cursor), rate)).push(new)
            } else {
                c.children.push(new)
            };
            let whole = ticks(cursor);
            let due = if whole < ticks(end) {
                ticks(end)
            } else {
                whole
            };
            &&& runs(full)
            &&& 0 <= small_time(full, full.len() as int) <= 3_000_000_000_000
            &&& due - 2_000_000_000 <= lasting(full) <= due + 2_000_000_000
            &&& over_rest(
                children,
                start,
                end,
                clip,
                ids[0],
                full,
                true,
                children.len() as int,
            )
        }),
{
    let n = children.len() as int;
    let new = TrackChildModel::Clip(clip);
    let cursor = start_of(children, n);
    let s = c.children;
    assert(cursor is Fin && 0 <= ticks(cursor));
    assert(start_of(s, s.len() as int) is Fin);
    if !c.placed {
        if cursor.less(start.minus(micro())) {
            let gap = gap_of(start.minus(cursor), rate);
            let one = s.push(gap);
            lemma_runs_push(s, gap);
            lemma_rest_push(children, start, end, clip, ids[0], s, gap, false, n);
            assert(start_of(one, one.len() as int) is Fin);
            lemma_runs_push(one, new);
            lemma_rest_push(children, start, end, clip, ids[0], one, new, false, n);
            lemma_near_push(one, new);
            assert(begins_near(one.push(new), new, ticks(start), 2_000_000_000));
        } else {
            lemma_runs_push(s, new);
            lemma_rest_push(children, start, end, clip, ids[0], s, new, false, n);
            lemma_near_push(s, new);
            assert(begins_near(s.push(new), new, ticks(start), 2_000_000_000));
        }
    }
}

} // verus!

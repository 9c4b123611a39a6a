//! When things begin after a clip has been moved, empty time has been closed or a
//! program has been put together.
use vstd::prelude::*;

use crate::carve_laws::{begins_at, lemma_merged_keeps_time, lemma_push};
use crate::clip::link_group_of;
use crate::edit::{child_seconds, clip_at, gap_of, start_of, track_at};
use crate::gap::{merged_all, put_at_time, rate_or_24};
use crate::model::{ClipLocator, TimelineModel, TrackChildModel, TrackModel};
use crate::move_clip::{eaten, moved_to_time, shift_rate, shifted};
use crate::multicam::{
    decision_clip, decision_ok, decisions_ok, decisions_ok_from, previous_end, program_children,
};
use crate::num::{centi, milli, rate24, Num};
use crate::op::{GapSide, MulticamDecision};
use crate::text::Str;
use crate::time_laws::{
    gaps_count, law_child_as_long_moves_nothing, lemma_closed_up, lemma_prefix, on_clock, ticks,
};
use crate::tracks::{deleted_gap, gap_beside, without_child, without_linked_gaps};

verus! {

// ---- ripple moves -----------------------------------------------------------

/// What follows two starts that differ goes on to differ by as much.
proof fn lemma_tail_shifted(
    a: Seq<TrackChildModel>,
    b: Seq<TrackChildModel>,
    i: int,
    off: int,
    by: int,
    n: int,
)
    requires
        on_clock(a),
        0 <= i <= n <= a.len(),
        b.len() == a.len() + off,
        0 <= i + off,
        forall|k: int| i <= k < a.len() ==> #[trigger] a[k] == b[k + off],
        start_of(b, i + off) is Fin,
        ticks(start_of(b, i + off)) == ticks(start_of(a, i)) + by,
        forall|k: int|
            i <= k <= a.len() ==> ticks(#[trigger] start_of(a, k)) + by <= i128::MAX,
        i128::MIN <= by,
    ensures
        start_of(b, n + off) is Fin,
        ticks(start_of(b, n + off)) == ticks(start_of(a, n)) + by,
    decreases n - i,
{
    if n > i {
        lemma_tail_shifted(a, b, i, off, by, n - 1);
        assert(a[n - 1] == b[n - 1 + off]);
        assert(start_of(a, n - 1) is Fin);
        assert(start_of(a, n) is Fin);
        assert(start_of(a, n) == start_of(a, n - 1).plus(child_seconds(a[n - 1])));
        assert(start_of(b, n + off) == start_of(b, n - 1 + off).plus(
            child_seconds(b[n - 1 + off]),
        ));
    }
}

/// A clip that is moved to a later time with a ripple takes all behind it along by
/// as much, and leaves all in front of it alone.
pub proof fn law_ripple_move_shifts(
    children: Seq<TrackChildModel>,
    j: int,
    delta: Num,
    n: int,
)
    requires
        on_clock(children),
        0 <= j < children.len(),
        delta is Fin,
        milli().at_most(delta),
        forall|k: int|
            j <= k <= children.len() ==> ticks(#[trigger] start_of(children, k)) + ticks(delta)
                <= i128::MAX,
        0 <= n <= children.len(),
    ensures
        ({
            let after = shifted(children, j, delta);
            let more = after.len() - children.len();
            &&& n < j ==> start_of(after, n) == start_of(children, n)
            &&& n >= j ==> ticks(start_of(after, n + more)) == ticks(start_of(children, n)) + ticks(
                delta,
            )
            &&& j <= n < children.len() ==> after[n + more] == children[n]
        }),
{
    let after = shifted(children, j, delta);
    let rate = shift_rate(children, j);
    let by = ticks(delta);
    assert(start_of(children, j) is Fin);
    if j > 0 {
        assert(start_of(children, j - 1) is Fin);
        assert(start_of(children, j) == start_of(children, j - 1).plus(
            child_seconds(children[j - 1]),
        ));
    }
    if !(j > 0 && children[j - 1] is Gap) {
        assert(after == children.insert(j, gap_of(delta, rate)));
        lemma_prefix(after, children, j);
        assert(after[j] == gap_of(delta, rate));
        assert(start_of(after, j + 1) == start_of(after, j).plus(child_seconds(after[j])));
        assert forall|k: int| j <= k < children.len() implies #[trigger] children[k] == after[k
            + 1] by {}
        if n >= j {
            lemma_tail_shifted(children, after, j, 1, by, n);
        } else {
            lemma_prefix(after, children, n);
        }
    } else {
        let d = child_seconds(children[j - 1]);
        assert(d is Fin);
        let longer = d.plus(delta);
        assert(after == children.update(j - 1, gap_of(longer, rate)));
        lemma_prefix(after, children, j - 1);
        assert(after[j - 1] == gap_of(longer, rate));
        assert(start_of(after, j) == start_of(after, j - 1).plus(child_seconds(after[j - 1])));
        assert(ticks(start_of(children, j)) + by <= i128::MAX);
        assert(ticks(start_of(after, j)) == ticks(start_of(children, j)) + by);
        assert forall|k: int| j <= k < children.len() implies #[trigger] children[k] == after[k] by {}
        if n >= j {
            lemma_tail_shifted(children, after, j, 0, by, n);
        } else {
            lemma_prefix(after, children, n);
        }
    }
}

/// The empty time directly in front of a child.
pub open spec fn empty_before(children: Seq<TrackChildModel>, j: int) -> int
    decreases j,
{
    if 0 < j <= children.len() && children[j - 1] is Gap {
        empty_before(children, j - 1) + ticks(child_seconds(children[j - 1]))
    } else {
        0
    }
}

proof fn lemma_empty_before(a: Seq<TrackChildModel>, b: Seq<TrackChildModel>, j: int)
    requires
        0 <= j <= a.len(),
        j <= b.len(),
        forall|k: int| 0 <= k < j ==> #[trigger] a[k] == b[k],
    ensures
        empty_before(a, j) == empty_before(b, j),
    decreases j,
{
    if j > 0 {
        lemma_empty_before(a, b, j - 1);
    }
}

proof fn lemma_empty_is_before(children: Seq<TrackChildModel>, j: int)
    requires
        on_clock(children),
        goes_forward(children),
        0 <= j <= children.len(),
    ensures
        0 <= empty_before(children, j) <= ticks(start_of(children, j)),
    decreases j,
{
    assert(start_of(children, j) is Fin);
    if j > 0 {
        lemma_empty_is_before(children, j - 1);
        assert(child_seconds(children[j - 1]) is Fin);
        assert(start_of(children, j - 1) is Fin);
    }
}

/// What holds when up to so much empty time has been eaten in front of a child.
spec fn ate(
    children: Seq<TrackChildModel>,
    j: int,
    left: int,
    out: Seq<TrackChildModel>,
    by: int,
) -> bool {
    let now = j - (children.len() - out.len());
    let empty = empty_before(children, j);
    let least = ticks(milli());
    &&& on_clock(out)
    &&& goes_forward(out)
    &&& gaps_count(out)
    &&& 0 <= now <= j
    &&& out.len() <= children.len()
    &&& ticks(start_of(out, now)) == ticks(start_of(children, j)) - by
    &&& forall|k: int| j <= k < children.len() ==> #[trigger] children[k] == out[k - j + now]
    &&& forall|k: int|
        0 <= k < j && !((#[trigger] children[k]) is Gap) ==> k < now && out[k] == children[k]
            && start_of(out, k) == start_of(children, k)
    &&& 0 <= by <= empty
    &&& by <= left + least || by == 0
    &&& by >= left - least || by == empty
    &&& empty + least < left ==> by == empty
    &&& j > 0 && children[j - 1] is Gap && least < left && ticks(child_seconds(children[j - 1]))
        > left + least ==> by == left
}

proof fn lemma_eaten(children: Seq<TrackChildModel>, j: int, left: Num, rate: Num) -> (by: int)
    requires
        on_clock(children),
        goes_forward(children),
        gaps_count(children),
        0 <= j <= children.len(),
        left is Fin,
    ensures
        ate(children, j, ticks(left), eaten(children, j, left, rate), by),
    decreases j,
{
    if j == 0 || !milli().less(left) || !(children[j - 1] is Gap) {
        lemma_empty_is_before(children, j);
        assert(start_of(children, j) is Fin);
        0
    } else {
        let d = child_seconds(children[j - 1]);
        assert(d is Fin && milli().less(d));
        if d.at_most(left.plus(milli())) {
            let less = children.remove(j - 1);
            lemma_removed(children, j - 1);
            let more = lemma_eaten(less, j - 1, left.minus(d), rate);
            lemma_ate_whole(children, j, left, eaten(children, j, left, rate), more);
            more + ticks(d)
        } else {
            lemma_ate_part(children, j, left, rate);
            ticks(left)
        }
    }
}

/// The empty time directly in front of a child is eaten whole, and more in front
/// of it.
proof fn lemma_ate_whole(
    children: Seq<TrackChildModel>,
    j: int,
    left: Num,
    out: Seq<TrackChildModel>,
    more: int,
)
    requires
        on_clock(children),
        goes_forward(children),
        gaps_count(children),
        0 < j <= children.len(),
        left is Fin,
        children[j - 1] is Gap,
        milli().less(left),
        child_seconds(children[j - 1]) is Fin,
        milli().less(child_seconds(children[j - 1])),
        child_seconds(children[j - 1]).at_most(left.plus(milli())),
        ate(
            children.remove(j - 1),
            j - 1,
            ticks(left.minus(child_seconds(children[j - 1]))),
            out,
            more,
        ),
    ensures
        ate(children, j, ticks(left), out, more + ticks(child_seconds(children[j - 1]))),
{
    let d = child_seconds(children[j - 1]);
    let less = children.remove(j - 1);
    let len = children.len() as int;
    let now = j - (len - out.len());
    lemma_empty_before(less, children, j - 1);
    lemma_empty_is_before(children, j - 1);
    lemma_prefix(less, children, j - 1);
    assert(start_of(children, j) is Fin);
    assert(start_of(children, j - 1) is Fin);
    assert(ticks(start_of(children, j)) == ticks(start_of(children, j - 1)) + ticks(d));
    assert(ticks(left.minus(d)) == ticks(left) - ticks(d));
    assert(empty_before(children, j) == empty_before(less, j - 1) + ticks(d));
    assert forall|k: int| j <= k < len implies #[trigger] children[k] == out[k - j + now] by {
        assert(less[k - 1] == children[k]);
    }
    assert forall|k: int| 0 <= k < j && !((#[trigger] children[k]) is Gap) implies k < now && out[k]
        == children[k] && start_of(out, k) == start_of(children, k) by {
        assert(k < j - 1);
        assert(less[k] == children[k]);
        lemma_prefix(less, children, k);
    }
}

/// Of the empty time directly in front of a child a part is eaten.
proof fn lemma_ate_part(children: Seq<TrackChildModel>, j: int, left: Num, rate: Num)
    requires
        on_clock(children),
        goes_forward(children),
        gaps_count(children),
        0 < j <= children.len(),
        left is Fin,
        children[j - 1] is Gap,
        milli().less(left),
        child_seconds(children[j - 1]) is Fin,
        !child_seconds(children[j - 1]).at_most(left.plus(milli())),
    ensures
        ate(children, j, ticks(left), eaten(children, j, left, rate), ticks(left)),
{
    let d = child_seconds(children[j - 1]);
    let out = children.update(j - 1, gap_of(d.minus(left), rate));
    assert(eaten(children, j, left, rate) == out);
    lemma_empty_is_before(children, j - 1);
    lemma_shrunk(children, j, d.minus(left), rate);
    assert(empty_before(children, j) == empty_before(children, j - 1) + ticks(d));
    assert forall|k: int| j <= k < children.len() implies #[trigger] children[k] == out[k] by {}
    assert forall|k: int| 0 <= k < j && !((#[trigger] children[k]) is Gap) implies out[k]
        == children[k] && start_of(out, k) == start_of(children, k) by {
        assert(k < j - 1);
        lemma_prefix(out, children, k);
    }
}

/// A track from which a child is taken out.
proof fn lemma_removed(children: Seq<TrackChildModel>, i: int)
    requires
        on_clock(children),
        goes_forward(children),
        gaps_count(children),
        0 <= i < children.len(),
    ensures
        on_clock(children.remove(i)),
        goes_forward(children.remove(i)),
        gaps_count(children.remove(i)),
{
    let out = children.remove(i);
    assert(child_seconds(children[i]) is Fin);
    assert forall|n: int| 0 <= n <= out.len() implies (#[trigger] start_of(out, n)) is Fin && 0
        <= ticks(start_of(out, n)) by {
        lemma_closed_up(children, i, n);
        assert(start_of(children, n) is Fin);
        if n > i {
            lemma_from(children, i + 1, n + 1);
            assert(start_of(children, i + 1) is Fin);
            assert(start_of(children, i) is Fin);
        }
    }
    assert forall|k: int| 0 <= k < out.len() implies #[trigger] out[k] == children[if k < i {
        k
    } else {
        k + 1
    }] by {}
}

/// No child begins before one in front of it.
proof fn lemma_from(children: Seq<TrackChildModel>, i: int, n: int)
    requires
        on_clock(children),
        goes_forward(children),
        0 <= i <= n <= children.len(),
    ensures
        ticks(start_of(children, i)) <= ticks(start_of(children, n)),
    decreases n - i,
{
    if i < n {
        lemma_from(children, i, n - 1);
        assert(child_seconds(children[n - 1]) is Fin);
        assert(start_of(children, n - 1) is Fin);
        assert(start_of(children, n) is Fin);
    }
}

/// A track on which empty time is made shorter.
proof fn lemma_shrunk(children: Seq<TrackChildModel>, j: int, d: Num, rate: Num)
    requires
        on_clock(children),
        goes_forward(children),
        gaps_count(children),
        0 < j <= children.len(),
        d is Fin,
        milli().less(d),
        ticks(d) <= ticks(child_seconds(children[j - 1])),
    ensures
        ({
            let out = children.update(j - 1, gap_of(d, rate));
            let by = ticks(child_seconds(children[j - 1])) - ticks(d);
            &&& on_clock(out)
            &&& goes_forward(out)
            &&& gaps_count(out)
            &&& ticks(start_of(out, j)) == ticks(start_of(children, j)) - by
        }),
{
    let out = children.update(j - 1, gap_of(d, rate));
    let by = ticks(child_seconds(children[j - 1])) - ticks(d);
    assert(child_seconds(children[j - 1]) is Fin);
    assert(start_of(children, j - 1) is Fin);
    assert(start_of(children, j) is Fin);
    lemma_prefix(out, children, j - 1);
    assert(out[j - 1] == gap_of(d, rate));
    assert(start_of(out, j) == start_of(out, j - 1).plus(d));
    assert forall|k: int| j <= k < children.len() implies #[trigger] children[k] == out[k] by {}
    assert forall|n: int| 0 <= n <= out.len() implies (#[trigger] start_of(out, n)) is Fin && 0
        <= ticks(start_of(out, n)) by {
        assert(start_of(children, n) is Fin);
        if n < j {
            lemma_prefix(out, children, n);
        } else {
            lemma_less(children, out, j, by, n);
            lemma_from(children, j, n);
        }
    }
    assert forall|k: int| 0 <= k < out.len() implies child_seconds(#[trigger] out[k]) is Fin && 0
        <= ticks(child_seconds(out[k])) by {
        if k != j - 1 {
            assert(child_seconds(children[k]) is Fin);
        }
    }
    assert forall|k: int| 0 <= k < out.len() implies ((#[trigger] out[k]) matches
        TrackChildModel::Gap(g) ==> milli().less(g.source_range.duration.seconds)) by {
        if k != j - 1 {
            assert(out[k] == children[k]);
        }
    }
}

proof fn lemma_less(
    before: Seq<TrackChildModel>,
    after: Seq<TrackChildModel>,
    j: int,
    by: int,
    n: int,
)
    requires
        on_clock(before),
        goes_forward(before),
        0 <= j <= n <= before.len(),
        after.len() == before.len(),
        start_of(after, j) is Fin,
        0 <= by,
        0 <= ticks(start_of(after, j)) == ticks(start_of(before, j)) - by,
        forall|k: int| j <= k < before.len() ==> #[trigger] before[k] == after[k],
    ensures
        start_of(after, n) is Fin,
        ticks(start_of(after, n)) == ticks(start_of(before, n)) - by,
    decreases n,
{
    if n > j {
        lemma_less(before, after, j, by, n - 1);
        lemma_from(before, j, n);
        lemma_from(before, j, n - 1);
        assert(before[n - 1] == after[n - 1]);
        assert(child_seconds(before[n - 1]) is Fin);
        assert(start_of(before, n - 1) is Fin);
        assert(start_of(before, n) is Fin);
    }
}

/// Whether the clips of a track in front of a place begin when they did, and those
/// from the place on earlier by so much.
pub open spec fn moves_back_by(
    before: Seq<TrackChildModel>,
    after: Seq<TrackChildModel>,
    j: int,
    by: int,
) -> bool {
    forall|k: int|
        0 <= k < before.len() && (#[trigger] before[k]) is Clip ==> begins_at(
            after,
            before[k],
            ticks(start_of(before, k)) - (if k < j {
                0
            } else {
                by
            }),
        )
}

/// A clip that is moved to an earlier time with a ripple moves by what was asked
/// for or by the empty time directly in front of it, whichever is less, to within a
/// thousandth, and so never to a time below zero.  It takes all clips behind it
/// along by as much; those in front of it stay.  It moves by exactly what was asked
/// for where the empty time in front of it is longer by more than a thousandth, and
/// by exactly all of it where it is shorter by more than a thousandth.
pub proof fn law_ripple_move_back(children: Seq<TrackChildModel>, j: int, delta: Num)
    requires
        on_clock(children),
        goes_forward(children),
        gaps_count(children),
        0 <= j < children.len(),
        delta is Fin,
        delta.negated() is Fin,
        delta.at_most(milli().negated()),
    ensures
        ({
            let after = shifted(children, j, delta);
            let asked = -ticks(delta);
            let empty = empty_before(children, j);
            let least = ticks(milli());
            exists|by: int| #[trigger]
                moves_back_by(children, after, j, by) && {
                    &&& 0 <= by <= empty
                    &&& by <= ticks(start_of(children, j))
                    &&& by <= asked + least
                    &&& by >= asked - least || by == empty
                    &&& empty + least < asked ==> by == empty
                    &&& least < asked && j > 0 && children[j - 1] is Gap && ticks(
                        child_seconds(children[j - 1]),
                    ) > asked + least ==> by == asked
                }
        }),
{
    let rate = shift_rate(children, j);
    let left = delta.negated();
    let out = eaten(children, j, left, rate);
    let after = shifted(children, j, delta);
    lemma_empty_is_before(children, j);
    let by = lemma_eaten(children, j, left, rate);
    let now = j - (children.len() - out.len());
    assert(after == merged_all(out, rate));
    assert forall|k: int| 0 <= k < children.len() && (#[trigger] children[k]) is Clip implies begins_at(
        after,
        children[k],
        ticks(start_of(children, k)) - (if k < j {
            0
        } else {
            by
        }),
    ) by {
        assert(start_of(children, k) is Fin);
        if k < j {
            assert(out[k] == children[k]);
            assert(begins_at(out, children[k], ticks(start_of(children, k))));
            lemma_merged_keeps_time(out, rate, children[k], ticks(start_of(children, k)));
        } else {
            let m = k - j + now;
            lemma_follows(children, out, j, now, by, k);
            assert(out[m] == children[k]);
            assert(begins_at(out, children[k], ticks(start_of(children, k)) - by));
            lemma_merged_keeps_time(out, rate, children[k], ticks(start_of(children, k)) - by);
        }
    }
    assert(moves_back_by(children, after, j, by));
}

proof fn lemma_follows(
    before: Seq<TrackChildModel>,
    after: Seq<TrackChildModel>,
    j: int,
    now: int,
    by: int,
    k: int,
)
    requires
        on_clock(before),
        on_clock(after),
        0 <= j <= k <= before.len(),
        0 <= now,
        now - j == after.len() - before.len(),
        ticks(start_of(after, now)) == ticks(start_of(before, j)) - by,
        forall|i: int| j <= i < before.len() ==> #[trigger] before[i] == after[i - j + now],
    ensures
        start_of(after, k - j + now) is Fin,
        ticks(start_of(after, k - j + now)) == ticks(start_of(before, k)) - by,
    decreases k,
{
    assert(start_of(after, k - j + now) is Fin);
    assert(start_of(before, k) is Fin);
    if k > j {
        lemma_follows(before, after, j, now, by, k - 1);
        assert(before[k - 1] == after[k - 1 - j + now]);
        assert(start_of(before, k - 1) is Fin);
        assert(start_of(after, k - 1 - j + now) is Fin);
    }
}

// ---- closing up -------------------------------------------------------------

/// The linked tracks are others.
proof fn lemma_linked_elsewhere(tl: TimelineModel, but: int, group: Str, side: GapSide, n: int)
    requires
        0 <= n,
    ensures
        track_at(without_linked_gaps(tl, but, group, side, n).0, but) == track_at(tl, but),
    decreases n,
{
    if n > 0 {
        lemma_linked_elsewhere(tl, but, group, side, n - 1);
    }
}

/// Empty time beside a clip that is deleted closes up: all behind it on the clip's
/// track begins earlier by its length, all in front of it when it did.
pub proof fn law_delete_gap_closes_up(
    tl: TimelineModel,
    index: usize,
    side: GapSide,
    loc: ClipLocator,
    n: int,
)
    requires
        gap_beside(tl, loc.track_index as int, loc.child_index as int, side) is Ok,
        on_clock(track_at(tl, loc.track_index as int)->0.children),
        gaps_count(track_at(tl, loc.track_index as int)->0.children),
        0 <= n < track_at(tl, loc.track_index as int)->0.children.len(),
    ensures
        deleted_gap(tl, index, side, Some(loc)) matches Ok(p) && {
            let i = loc.track_index as int;
            let k = gap_beside(tl, i, loc.child_index as int, side)->Ok_0;
            let before = track_at(tl, i)->0.children;
            let after = track_at(p.0, i)->0.children;
            &&& track_at(p.0, i) is Some
            &&& after == before.remove(k)
            &&& n <= k ==> start_of(after, n) == start_of(before, n)
            &&& n >= k ==> start_of(after, n) is Fin && ticks(start_of(after, n)) == ticks(
                start_of(before, n + 1),
            ) - ticks(child_seconds(before[k]))
        },
{
    let i = loc.track_index as int;
    let k = gap_beside(tl, i, loc.child_index as int, side)->Ok_0;
    let before = track_at(tl, i)->0.children;
    let closed = without_child(tl, i, k);
    assert(before[k] is Gap);
    lemma_closed_up(before, k, n);
    match clip_at(tl, loc) {
        Some(c) => match link_group_of(c) {
            Some(g) => {
                lemma_linked_elsewhere(
                    closed,
                    i,
                    g,
                    side,
                    closed.tracks.children.len() as int,
                );
            },
            None => {},
        },
        None => {},
    }
}

// ---- moves to a time --------------------------------------------------------

/// Whether no child of a track ends before it begins.
pub open spec fn goes_forward(children: Seq<TrackChildModel>) -> bool {
    forall|k: int|
        0 <= k < children.len() ==> child_seconds(#[trigger] children[k]) is Fin && 0 <= ticks(
            child_seconds(children[k]),
        )
}

/// No child of a track begins behind its end.
pub proof fn lemma_forward(children: Seq<TrackChildModel>, n: int)
    requires
        on_clock(children),
        goes_forward(children),
        0 <= n <= children.len(),
    ensures
        ticks(start_of(children, n)) <= ticks(start_of(children, children.len() as int)),
    decreases children.len() - n,
{
    if n < children.len() {
        lemma_forward(children, n + 1);
        assert(child_seconds(children[n]) is Fin);
        assert(start_of(children, n) is Fin);
        assert(start_of(children, n + 1) is Fin);
    }
}

/// A child that is put behind the end of a track.
proof fn lemma_put_behind(
    children: Seq<TrackChildModel>,
    c: TrackChildModel,
    at: Num,
    length: Num,
    rate: Num,
    i: int,
)
    requires
        on_clock(children),
        goes_forward(children),
        at is Fin,
        ticks(start_of(children, children.len() as int)) + ticks(milli()) < ticks(at),
        0 <= i <= children.len(),
    ensures
        put_at_time(children, c, at, length, rate, i) == children.push(
            gap_of(at.minus(start_of(children, children.len() as int)), rate),
        ).push(c),
    decreases children.len() - i,
{
    lemma_forward(children, i);
    assert(start_of(children, i) is Fin);
    if i < children.len() {
        lemma_forward(children, i + 1);
        assert(child_seconds(children[i]) is Fin);
        assert(start_of(children, i + 1) is Fin);
        assert(start_of(children, i + 1) == start_of(children, i).plus(
            child_seconds(children[i]),
        ));
        lemma_put_behind(children, c, at, length, rate, i + 1);
    }
}

/// A clip that is moved behind the end of its track begins at the time that was
/// asked for, and leaves empty time behind: every other clip begins when it did.
pub proof fn law_move_behind_begins_on_time(
    index: usize,
    t: TrackModel,
    j: int,
    at: Num,
    k: int,
)
    requires
        on_clock(t.children),
        goes_forward(t.children),
        gaps_count(t.children),
        0 <= j < t.children.len(),
        t.children[j] is Clip,
        milli().less(child_seconds(t.children[j])),
        at is Fin,
        ticks(start_of(t.children, t.children.len() as int)) + ticks(centi()) < ticks(at),
        ticks(at) + ticks(child_seconds(t.children[j])) <= i128::MAX,
    ensures
        moved_to_time(index, t, j, at) matches Ok(p) && {
            &&& begins_at(p.0.children, t.children[j], ticks(at))
            &&& 0 <= k < t.children.len() && k != j && t.children[k] is Clip ==> begins_at(
                p.0.children,
                t.children[k],
                ticks(start_of(t.children, k)),
            )
        },
{
    let c = t.children[j];
    let n = t.children.len() as int;
    let length = child_seconds(c);
    let rate = rate_or_24(c);
    let hole = gap_of(length, rate);
    let left = t.children.update(j, hole);
    assert(start_of(t.children, j) is Fin);
    lemma_forward(t.children, j);
    assert forall|m: int| 0 <= m <= n implies #[trigger] start_of(left, m) == start_of(
        t.children,
        m,
    ) by {
        law_child_as_long_moves_nothing(t.children, j, hole, m);
    }
    assert(on_clock(left)) by {
        assert forall|m: int| 0 <= m <= left.len() implies (#[trigger] start_of(left, m)) is Fin
            && 0 <= ticks(start_of(left, m)) by {
            assert(start_of(t.children, m) is Fin);
        }
    }
    let gap = gap_of(at.minus(start_of(left, n)), rate);
    lemma_put_behind(left, c, at, length, rate, 0);
    lemma_push(left, gap);
    lemma_push(left.push(gap), c);
    let out = left.push(gap).push(c);
    lemma_merged_keeps_time(out, rate, c, ticks(at));
    if 0 <= k < n && k != j && t.children[k] is Clip {
        assert(left[k] == t.children[k]);
        assert(start_of(left, k) is Fin);
        assert(begins_at(left, t.children[k], ticks(start_of(t.children, k))));
        lemma_merged_keeps_time(out, rate, t.children[k], ticks(start_of(t.children, k)));
    }
}

// ---- programs ---------------------------------------------------------------

/// Whether each decision of a plan begins where the one before it ends, or later
/// by more than a thousandth.
pub open spec fn joins(ds: Seq<MulticamDecision>) -> bool {
    forall|k: int|
        0 <= k < ds.len() ==> (#[trigger] ds[k]).start_s == previous_end(ds, k) || ticks(
            ds[k].start_s,
        ) - ticks(previous_end(ds, k)) > ticks(milli())
}

proof fn lemma_decision(index: usize, ds: Seq<MulticamDecision>, from: int, k: int)
    requires
        decisions_ok_from(index, ds, from) is Ok,
        0 <= from <= k < ds.len(),
    ensures
        decision_ok(index, ds, k) is Ok,
    decreases k - from,
{
    if from < k {
        lemma_decision(index, ds, from + 1, k);
    }
}

#[verifier::rlimit(30)]
proof fn lemma_program(index: usize, ds: Seq<MulticamDecision>, ids: Seq<Str>, n: int)
    requires
        decisions_ok_from(index, ds, 0) is Ok,
        joins(ds),
        0 <= n <= ds.len(),
    ensures
        on_clock(program_children(ds, ids, n)),
        start_of(program_children(ds, ids, n), program_children(ds, ids, n).len() as int)
            == previous_end(ds, n),
        forall|k: int|
            0 <= k < n ==> begins_at(
                program_children(ds, ids, n),
                TrackChildModel::Clip(#[trigger] decision_clip(ds[k], k as nat, ids[k])),
                ticks(ds[k].start_s),
            ),
    decreases n,
{
    let out = program_children(ds, ids, n);
    if n > 0 {
        lemma_program(index, ds, ids, n - 1);
        lemma_decision(index, ds, 0, n - 1);
        let d = ds[n - 1];
        let rest = program_children(ds, ids, n - 1);
        let before = previous_end(ds, n - 1);
        let clip = TrackChildModel::Clip(decision_clip(d, (n - 1) as nat, ids[n - 1]));
        assert(start_of(rest, rest.len() as int) is Fin);
        assert(child_seconds(clip) == d.end_s.minus(d.start_s));
        if before.plus(milli()).less(d.start_s) {
            let gap = gap_of(d.start_s.minus(before), rate24());
            lemma_push(rest, gap);
            lemma_push(rest.push(gap), clip);
        } else {
            lemma_push(rest, clip);
        }
    } else {
        assert forall|m: int| 0 <= m <= out.len() implies (#[trigger] start_of(out, m)) is Fin && 0
            <= ticks(start_of(out, m)) by {}
    }
}

/// Each decision of a plan is shown from its time on, and the program ends with
/// the last.
pub proof fn law_program_runs_on_time(index: usize, ds: Seq<MulticamDecision>, ids: Seq<Str>, k: int)
    requires
        decisions_ok(index, ds) is Ok,
        joins(ds),
        0 <= k < ds.len(),
    ensures
        begins_at(
            program_children(ds, ids, ds.len() as int),
            TrackChildModel::Clip(decision_clip(ds[k], k as nat, ids[k])),
            ticks(ds[k].start_s),
        ),
        start_of(
            program_children(ds, ids, ds.len() as int),
            program_children(ds, ids, ds.len() as int).len() as int,
        ) == ds.last().end_s,
{
    lemma_program(index, ds, ids, ds.len() as int);
}

} // verus!

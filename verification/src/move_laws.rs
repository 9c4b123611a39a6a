//! When a clip begins that has been moved to a time or put in at one.
use vstd::prelude::*;

use crate::carve_laws::{begins_at, lemma_merged_keeps_time, lemma_push};
use crate::edit::{child_seconds, gap_of, spliced, start_of};
use crate::gap::{framed, put_at_time, rate_or_24};
use crate::insert::{child_at_time, last_before, place_at_time};
use crate::model::{TrackChildModel, TrackModel};
use crate::move_clip::moved_to_time;
use crate::num::{centi, milli, rate24, zero, Num};
use crate::shift_laws::{goes_forward, lemma_forward};
use crate::time_laws::{
    begins_near, gaps_count, law_child_as_long_moves_nothing, lemma_prefix, lemma_shifted, on_clock,
    ticks,
};

verus! {

// ---- the clock of a track that is put together ------------------------------

proof fn lemma_join_step(a: Seq<TrackChildModel>, b: Seq<TrackChildModel>, n: int)
    requires
        on_clock(a),
        on_clock(b),
        goes_forward(b),
        ticks(start_of(a, a.len() as int)) + ticks(start_of(b, b.len() as int)) <= i128::MAX,
        0 <= n <= b.len(),
    ensures
        start_of(a + b, a.len() + n) is Fin,
        ticks(start_of(a + b, a.len() + n)) == ticks(start_of(a, a.len() as int)) + ticks(
            start_of(b, n),
        ),
    decreases n,
{
    let len = a.len() as int;
    assert(start_of(a, len) is Fin);
    assert(start_of(b, n) is Fin);
    if n == 0 {
        lemma_prefix(a + b, a, len);
    } else {
        lemma_join_step(a, b, n - 1);
        lemma_forward(b, n);
        assert((a + b)[len + n - 1] == b[n - 1]);
        assert(child_seconds(b[n - 1]) is Fin);
        assert(start_of(b, n - 1) is Fin);
    }
}

/// Two runs of children that are put one behind the other.
proof fn lemma_join(a: Seq<TrackChildModel>, b: Seq<TrackChildModel>)
    requires
        on_clock(a),
        goes_forward(a),
        on_clock(b),
        goes_forward(b),
        ticks(start_of(a, a.len() as int)) + ticks(start_of(b, b.len() as int)) <= i128::MAX,
    ensures
        on_clock(a + b),
        goes_forward(a + b),
        ticks(start_of(a + b, (a + b).len() as int)) == ticks(start_of(a, a.len() as int)) + ticks(
            start_of(b, b.len() as int),
        ),
        gaps_count(a) && gaps_count(b) ==> gaps_count(a + b),
{
    let len = a.len() as int;
    lemma_join_step(a, b, b.len() as int);
    assert forall|n: int| 0 <= n <= (a + b).len() implies (#[trigger] start_of(a + b, n)) is Fin && 0
        <= ticks(start_of(a + b, n)) by {
        assert(start_of(a, len) is Fin);
        if n <= len {
            lemma_prefix(a + b, a, n);
            assert(start_of(a, n) is Fin);
        } else {
            lemma_join_step(a, b, n - len);
            assert(start_of(b, n - len) is Fin);
        }
    }
    assert forall|k: int| 0 <= k < (a + b).len() implies child_seconds(#[trigger] (a + b)[k]) is Fin
        && 0 <= ticks(child_seconds((a + b)[k])) by {
        if k < len {
            assert(child_seconds(a[k]) is Fin);
        } else {
            assert(child_seconds(b[k - len]) is Fin);
        }
    }
    if gaps_count(a) && gaps_count(b) {
        assert forall|k: int| 0 <= k < (a + b).len() implies ((#[trigger] (a + b)[k]) matches
            TrackChildModel::Gap(g) ==> milli().less(g.source_range.duration.seconds)) by {
            if k < len {
                assert((a + b)[k] == a[k]);
            } else {
                assert((a + b)[k] == b[k - len]);
            }
        }
    }
}

/// The front of a track.
pub proof fn lemma_front(children: Seq<TrackChildModel>, i: int)
    requires
        on_clock(children),
        goes_forward(children),
        0 <= i <= children.len(),
    ensures
        on_clock(children.take(i)),
        goes_forward(children.take(i)),
        start_of(children.take(i), i) == start_of(children, i),
        gaps_count(children) ==> gaps_count(children.take(i)),
{
    let a = children.take(i);
    assert forall|n: int| 0 <= n <= a.len() implies (#[trigger] start_of(a, n)) is Fin && 0 <= ticks(
        start_of(a, n),
    ) by {
        lemma_prefix(a, children, n);
        assert(start_of(children, n) is Fin);
    }
    lemma_prefix(a, children, i);
    assert forall|k: int| 0 <= k < a.len() implies #[trigger] a[k] == children[k] by {}
}

proof fn lemma_rest_step(children: Seq<TrackChildModel>, i: int, n: int)
    requires
        on_clock(children),
        goes_forward(children),
        0 <= i,
        0 <= n,
        i + n <= children.len(),
    ensures
        start_of(children.skip(i), n) is Fin,
        0 <= ticks(start_of(children.skip(i), n)),
        ticks(start_of(children.skip(i), n)) == ticks(start_of(children, i + n)) - ticks(
            start_of(children, i),
        ),
    decreases n,
{
    assert(start_of(children, i) is Fin);
    assert(start_of(children, i + n) is Fin);
    if n > 0 {
        lemma_rest_step(children, i, n - 1);
        assert(children.skip(i)[n - 1] == children[i + n - 1]);
        assert(child_seconds(children[i + n - 1]) is Fin);
        assert(start_of(children, i + n - 1) is Fin);
    }
}

/// The rest of a track.
proof fn lemma_rest(children: Seq<TrackChildModel>, i: int)
    requires
        on_clock(children),
        goes_forward(children),
        0 <= i <= children.len(),
    ensures
        on_clock(children.skip(i)),
        goes_forward(children.skip(i)),
        ticks(start_of(children.skip(i), children.len() - i)) == ticks(
            start_of(children, children.len() as int),
        ) - ticks(start_of(children, i)),
        gaps_count(children) ==> gaps_count(children.skip(i)),
{
    let b = children.skip(i);
    lemma_rest_step(children, i, children.len() - i);
    assert forall|n: int| 0 <= n <= b.len() implies (#[trigger] start_of(b, n)) is Fin && 0 <= ticks(
        start_of(b, n),
    ) by {
        lemma_rest_step(children, i, n);
    }
    assert forall|k: int| 0 <= k < b.len() implies #[trigger] b[k] == children[i + k] by {}
}

proof fn lemma_nothing()
    ensures
        on_clock(Seq::<TrackChildModel>::empty()),
        goes_forward(Seq::<TrackChildModel>::empty()),
        gaps_count(Seq::<TrackChildModel>::empty()),
        ticks(start_of(Seq::<TrackChildModel>::empty(), 0)) == 0,
{
    assert(start_of(Seq::<TrackChildModel>::empty(), 0) is Fin);
}

/// A child between stretches of empty time.
proof fn lemma_framed(before: Num, c: TrackChildModel, after: Num, rate: Num)
    requires
        before is Fin,
        milli().less(before),
        after is Fin,
        0 <= ticks(after),
        !(c is Gap),
        child_seconds(c) is Fin,
        0 <= ticks(child_seconds(c)),
        ticks(before) + ticks(child_seconds(c)) + ticks(after) <= i128::MAX,
    ensures
        ({
            let m = framed(before, c, after, rate, milli());
            &&& on_clock(m)
            &&& goes_forward(m)
            &&& gaps_count(m)
            &&& m.len() == (if milli().less(after) {
                3int
            } else {
                2
            })
            &&& m[0] == gap_of(before, rate)
            &&& m[1] == c
            &&& ticks(start_of(m, m.len() as int)) == ticks(before) + ticks(child_seconds(c)) + (
            if milli().less(after) {
                ticks(after)
            } else {
                0
            })
        }),
{
    let none = Seq::<TrackChildModel>::empty();
    let gap = gap_of(before, rate);
    lemma_nothing();
    lemma_push(none, gap);
    lemma_push(none.push(gap), c);
    let m = framed(before, c, after, rate, milli());
    assert(seq![gap] =~= none.push(gap));
    let two = none.push(gap).push(c);
    if milli().less(after) {
        let last = gap_of(after, rate);
        lemma_push(two, last);
        assert(m =~= two.push(last));
    } else {
        assert(m =~= two);
    }
}

// ---- moves to a time --------------------------------------------------------

/// Whether a time lies in no child of a track but empty time, or within a
/// thousandth of the edge of one.
pub open spec fn in_the_open(children: Seq<TrackChildModel>, at: Num) -> bool {
    forall|k: int|
        0 <= k < children.len() && !((#[trigger] children[k]) is Gap) ==> ticks(at) <= ticks(
            start_of(children, k),
        ) + ticks(milli()) || ticks(start_of(children, k + 1)) - ticks(milli()) <= ticks(at)
}

proof fn lemma_put_in(children: Seq<TrackChildModel>, c: TrackChildModel, i: int)
    requires
        on_clock(children),
        goes_forward(children),
        gaps_count(children),
        !(c is Gap),
        child_seconds(c) is Fin,
        0 <= ticks(child_seconds(c)),
        ticks(start_of(children, children.len() as int)) + ticks(child_seconds(c)) <= i128::MAX,
        0 <= i <= children.len(),
    ensures
        on_clock(children.insert(i, c)),
        gaps_count(children.insert(i, c)),
        children.insert(i, c)[i] == c,
        start_of(children.insert(i, c), i) == start_of(children, i),
{
    let front = children.take(i);
    let rest = children.skip(i);
    lemma_front(children, i);
    lemma_rest(children, i);
    assert(start_of(children, i) is Fin);
    lemma_forward(children, i);
    lemma_push(front, c);
    let both = front.push(c);
    assert(goes_forward(both)) by {
        assert forall|k: int| 0 <= k < both.len() implies child_seconds(#[trigger] both[k]) is Fin && 0
            <= ticks(child_seconds(both[k])) by {
            if k < i {
                assert(child_seconds(front[k]) is Fin);
            }
        }
    }
    lemma_join(both, rest);
    assert(children.insert(i, c) =~= both + rest);
    lemma_prefix(children.insert(i, c), children, i);
}

proof fn lemma_put_at_time(
    children: Seq<TrackChildModel>,
    c: TrackChildModel,
    at: Num,
    rate: Num,
    i: int,
)
    requires
        on_clock(children),
        goes_forward(children),
        gaps_count(children),
        in_the_open(children, at),
        !(c is Gap),
        child_seconds(c) is Fin,
        0 <= ticks(child_seconds(c)),
        at is Fin,
        0 <= ticks(at),
        ticks(at) + ticks(child_seconds(c)) + ticks(start_of(children, children.len() as int))
            <= i128::MAX,
        0 <= i <= children.len(),
        ticks(start_of(children, i)) <= ticks(at) + ticks(milli()),
    ensures
        ({
            let out = put_at_time(children, c, at, child_seconds(c), rate, i);
            &&& on_clock(out)
            &&& gaps_count(out)
            &&& begins_near(out, c, ticks(at), ticks(milli()))
        }),
    decreases children.len() - i,
{
    let n = children.len() as int;
    let length = child_seconds(c);
    let cursor = start_of(children, i);
    let out = put_at_time(children, c, at, length, rate, i);
    assert(cursor is Fin);
    assert(start_of(children, n) is Fin);
    lemma_forward(children, i);
    if i == n {
        if cursor.plus(milli()).less(at) {
            let gap = gap_of(at.minus(cursor), rate);
            lemma_push(children, gap);
            lemma_push(children.push(gap), c);
            assert(out == children.push(gap).push(c));
            assert(out[n + 1] == c);
            lemma_prefix(out, children.push(gap), n + 1);
        } else {
            lemma_put_in(children, c, n);
            assert(out =~= children.insert(n, c));
        }
    } else {
        let end = start_of(children, i + 1);
        assert(end is Fin);
        lemma_forward(children, i + 1);
        if at.at_most(cursor.plus(milli())) {
            lemma_put_in(children, c, i);
        } else if at.less(end.minus(milli())) {
            assert(children[i] is Gap);
            let before = at.minus(cursor).larger(zero());
            let after = end.minus(at).minus(length).larger(zero());
            lemma_framed(before, c, after, rate);
            let middle = framed(before, c, after, rate, milli());
            lemma_front(children, i);
            lemma_rest(children, i + 1);
            lemma_join(children.take(i), middle);
            lemma_join(children.take(i) + middle, children.skip(i + 1));
            assert(out[i + 1] == c);
            assert(out[i] == gap_of(before, rate));
            lemma_prefix(out, children, i);
            assert(start_of(out, i + 1) == start_of(out, i).plus(child_seconds(out[i])));
        } else {
            lemma_put_at_time(children, c, at, rate, i + 1);
        }
    }
}

/// The track of a clip with empty time in its place.
pub open spec fn without_clip(t: TrackModel, j: int) -> Seq<TrackChildModel> {
    t.children.update(j, gap_of(child_seconds(t.children[j]), rate_or_24(t.children[j])))
}

/// Whether a track, its clip at a place and a time are such that the clock can
/// show the track with the clip put in at the time.
pub open spec fn can_move(t: TrackModel, j: int, at: Num) -> bool {
    &&& on_clock(t.children)
    &&& goes_forward(t.children)
    &&& gaps_count(t.children)
    &&& 0 <= j < t.children.len()
    &&& t.children[j] is Clip
    &&& milli().less(child_seconds(t.children[j]))
    &&& at is Fin
    &&& 0 <= ticks(at)
    &&& ticks(at) + ticks(child_seconds(t.children[j])) + ticks(
        start_of(t.children, t.children.len() as int),
    ) <= i128::MAX
}

proof fn lemma_without_clip(t: TrackModel, j: int, at: Num)
    requires
        can_move(t, j, at),
    ensures
        on_clock(without_clip(t, j)),
        goes_forward(without_clip(t, j)),
        gaps_count(without_clip(t, j)),
        forall|m: int|
            0 <= m <= t.children.len() ==> #[trigger] start_of(without_clip(t, j), m) == start_of(
                t.children,
                m,
            ),
{
    let left = without_clip(t, j);
    let hole = left[j];
    assert forall|m: int| 0 <= m <= t.children.len() implies #[trigger] start_of(left, m)
        == start_of(t.children, m) by {
        law_child_as_long_moves_nothing(t.children, j, hole, m);
    }
    assert forall|m: int| 0 <= m <= left.len() implies (#[trigger] start_of(left, m)) is Fin && 0
        <= ticks(start_of(left, m)) by {
        assert(start_of(t.children, m) is Fin);
    }
    assert(child_seconds(t.children[j]) is Fin);
    assert forall|k: int| 0 <= k < left.len() implies child_seconds(#[trigger] left[k]) is Fin && 0
        <= ticks(child_seconds(left[k])) by {
        if k != j {
            assert(child_seconds(t.children[k]) is Fin);
        }
    }
    assert forall|k: int| 0 <= k < left.len() implies ((#[trigger] left[k]) matches
        TrackChildModel::Gap(g) ==> milli().less(g.source_range.duration.seconds)) by {
        if k != j {
            assert(left[k] == t.children[k]);
        }
    }
}

/// A clip that is moved to a time begins at that time, to within a hundredth of a
/// second, unless another child of its track lies there.
pub proof fn law_move_begins_on_time(index: usize, t: TrackModel, j: int, at: Num)
    requires
        can_move(t, j, at),
        in_the_open(without_clip(t, j), at),
    ensures
        moved_to_time(index, t, j, at) matches Ok(p) && begins_near(
            p.0.children,
            t.children[j],
            ticks(at),
            ticks(centi()),
        ),
{
    let c = t.children[j];
    let was = start_of(t.children, j);
    assert(child_seconds(c) is Fin);
    assert(was is Fin);
    if !at.near(was, centi()) {
        let left = without_clip(t, j);
        let rate = rate_or_24(c);
        lemma_without_clip(t, j, at);
        assert(start_of(left, left.len() as int) == start_of(t.children, left.len() as int));
        lemma_put_at_time(left, c, at, rate, 0);
        let out = put_at_time(left, c, at, child_seconds(c), rate, 0);
        let m = choose|m: int|
            0 <= m < out.len() && #[trigger] out[m] == c && start_of(out, m) is Fin && ticks(at)
                - ticks(milli()) <= ticks(start_of(out, m)) <= ticks(at) + ticks(milli());
        let found = ticks(start_of(out, m));
        assert(begins_at(out, c, found));
        lemma_merged_keeps_time(out, rate, c, found);
    }
}

/// Whether the empty time at a place of a track reaches from more than a
/// thousandth before a time to the end of what is put there, and either ends with
/// it or lasts more than a thousandth longer.
pub open spec fn has_room(children: Seq<TrackChildModel>, g: int, at: Num, length: Num) -> bool {
    let more = ticks(start_of(children, g + 1)) - ticks(at) - ticks(length);
    &&& 0 <= g < children.len()
    &&& children[g] is Gap
    &&& ticks(start_of(children, g)) + ticks(milli()) < ticks(at)
    &&& more == 0 || more > ticks(milli())
}

proof fn lemma_put_into_gap(
    children: Seq<TrackChildModel>,
    c: TrackChildModel,
    at: Num,
    length: Num,
    rate: Num,
    g: int,
    i: int,
)
    requires
        on_clock(children),
        goes_forward(children),
        at is Fin,
        length is Fin,
        ticks(milli()) < ticks(length),
        has_room(children, g, at, length),
        0 <= i <= g,
    ensures
        put_at_time(children, c, at, length, rate, i) == spliced(
            children,
            g,
            g + 1,
            framed(
                at.minus(start_of(children, g)),
                c,
                start_of(children, g + 1).minus(at).minus(length),
                rate,
                milli(),
            ),
        ),
    decreases g - i,
{
    assert(start_of(children, i) is Fin);
    assert(start_of(children, i + 1) is Fin);
    assert(child_seconds(children[i]) is Fin);
    assert(start_of(children, g) is Fin);
    assert(start_of(children, g + 1) is Fin);
    if i < g {
        lemma_before(children, i + 1, g);
        lemma_put_into_gap(children, c, at, length, rate, g, i + 1);
    }
}

proof fn lemma_before(children: Seq<TrackChildModel>, i: int, g: int)
    requires
        on_clock(children),
        goes_forward(children),
        0 <= i <= g <= children.len(),
    ensures
        ticks(start_of(children, i)) <= ticks(start_of(children, g)),
    decreases g - i,
{
    if i < g {
        lemma_before(children, i + 1, g);
        assert(child_seconds(children[i]) is Fin);
        assert(start_of(children, i) is Fin);
        assert(start_of(children, i + 1) is Fin);
    }
}

/// A clip that is moved into empty time in which there is room for it begins at
/// the time that was asked for, and every other clip begins when it did.
pub proof fn law_move_into_room_moves_nothing(
    index: usize,
    t: TrackModel,
    j: int,
    at: Num,
    g: int,
    k: int,
)
    requires
        can_move(t, j, at),
        has_room(without_clip(t, j), g, at, child_seconds(t.children[j])),
        !at.near(start_of(t.children, j), centi()),
        0 <= k < t.children.len(),
        k != j,
        t.children[k] is Clip,
    ensures
        moved_to_time(index, t, j, at) matches Ok(p) && {
            &&& begins_at(p.0.children, t.children[j], ticks(at))
            &&& begins_at(p.0.children, t.children[k], ticks(start_of(t.children, k)))
        },
{
    let c = t.children[j];
    let length = child_seconds(c);
    let left = without_clip(t, j);
    let rate = rate_or_24(c);
    assert(length is Fin);
    lemma_without_clip(t, j, at);
    lemma_put_into_gap(left, c, at, length, rate, g, 0);
    let start = start_of(left, g);
    let end = start_of(left, g + 1);
    assert(start is Fin && end is Fin);
    lemma_forward(left, g + 1);
    assert(start_of(left, left.len() as int) == start_of(t.children, left.len() as int));
    let before = at.minus(start);
    let after = end.minus(at).minus(length);
    lemma_framed(before, c, after, rate);
    let middle = framed(before, c, after, rate, milli());
    let out = spliced(left, g, g + 1, middle);
    lemma_front(left, g);
    lemma_rest(left, g + 1);
    lemma_join(left.take(g), middle);
    lemma_join(left.take(g) + middle, left.skip(g + 1));
    assert(out =~= left.take(g) + middle + left.skip(g + 1));
    lemma_prefix(out, left, g);
    assert(out[g] == gap_of(before, rate));
    assert(out[g + 1] == c);
    assert(start_of(out, g + 1) == start_of(out, g).plus(child_seconds(out[g])));
    assert(begins_at(out, c, ticks(at)));
    lemma_merged_keeps_time(out, rate, c, ticks(at));
    let to = g + middle.len();
    let front = left.take(g) + middle;
    lemma_prefix(out, front, to);
    assert(start_of(out, to) == end);
    assert(left[k] == t.children[k]);
    assert(start_of(left, k) is Fin);
    if k < g {
        lemma_prefix(out, left, k);
        assert(out[k] == left[k]);
    } else {
        assert(k != g);
        lemma_shifted(left, out, g + 1, to, k);
        assert(out[k + to - (g + 1)] == left[k]);
    }
    assert(begins_at(out, t.children[k], ticks(start_of(t.children, k))));
    lemma_merged_keeps_time(out, rate, t.children[k], ticks(start_of(t.children, k)));
}

// ---- inserts at a time ------------------------------------------------------

proof fn lemma_child_at_time(children: Seq<TrackChildModel>, time: Num, from: int)
    requires
        0 <= from,
    ensures
        child_at_time(children, time, from) matches Some(i) ==> from <= i < children.len()
            && start_of(children, i).minus(time).size().at_most(milli()),
    decreases children.len() - from,
{
    if from < children.len() && !start_of(children, from).minus(time).size().at_most(milli()) {
        lemma_child_at_time(children, time, from + 1);
    }
}

proof fn lemma_last_before(children: Seq<TrackChildModel>, time: Num, n: int)
    requires
        on_clock(children),
        time is Fin,
        0 <= ticks(time),
        0 < n <= children.len(),
    ensures
        ({
            let last = last_before(children, time, n);
            &&& 0 <= last < n
            &&& ticks(start_of(children, last)) <= ticks(time)
            &&& last + 1 < n ==> ticks(time) < ticks(start_of(children, last + 1))
        }),
    decreases n,
{
    assert(start_of(children, n - 1) is Fin);
    if n > 1 {
        lemma_last_before(children, time, n - 1);
    }
}

/// A clip that is put in at a time begins at that time, to within a thousandth of a
/// second, unless the time lies inside a child: it then begins when that child did.
pub proof fn law_insert_begins_on_time_or_at_the_edge_before(
    children: Seq<TrackChildModel>,
    time: Num,
)
    requires
        on_clock(children),
        time is Fin,
        0 <= ticks(time),
    ensures
        ({
            let (filled, i) = place_at_time(children, time);
            &&& 0 <= i <= filled.len()
            &&& start_of(filled, i) is Fin
            &&& {
                ||| -ticks(milli()) <= ticks(start_of(filled, i)) - ticks(time) <= ticks(milli())
                ||| filled == children && i < children.len() && ticks(start_of(children, i))
                    <= ticks(time) < ticks(start_of(children, i + 1))
            }
        }),
{
    let (filled, i) = place_at_time(children, time);
    let n = children.len() as int;
    let end = start_of(children, n);
    assert(end is Fin && 0 <= ticks(end));
    lemma_child_at_time(children, time, 0);
    match child_at_time(children, time, 0) {
        Some(k) => {
            assert(start_of(children, k) is Fin);
        },
        None => {
            if end.plus(milli()).less(time) {
                let gap = gap_of(time.minus(end), rate24());
                lemma_push(children, gap);
                assert(filled == children.push(gap));
            } else if !end.minus(time).at_most(milli()) {
                lemma_last_before(children, time, n);
                assert(start_of(children, i) is Fin);
                assert(start_of(children, i + 1) is Fin);
            }
        },
    }
}

} // verus!

//! What edits do to the times at which things begin.
use vstd::prelude::*;

use crate::adjust::{
    cut_moved, end_moved, roll_words, rolled, slid, slide_clips, slide_words, slipped, start_moved,
};
use crate::clip::end_of;
use crate::edit::{child_seconds, clip_at, clip_in, clip_seconds, gap_of, start_of, track_at};
use crate::gap::{deleted_clip, merged, merged_all, rate_or_24, without_transitions_around};
use crate::model::{ClipLocator, ClipModel, TimelineModel, TrackChildModel};
use crate::num::{milli, zero, Num};
use crate::op::{BetweenPlaces, RippleTrimEdge};
use crate::ripple::{ripple_deleted, ripple_trimmed};
use crate::split::{left_part, right_part, split_at};
use crate::text::Str;

verus! {

// ---- the clock ------------------------------------------------------------

/// The quadrillionths in a number.
pub open spec fn ticks(x: Num) -> int {
    match x {
        Num::Fin(n) => n as int,
        _ => 0,
    }
}

/// Whether all children of a track begin and end at a time that the clock can
/// show.
pub open spec fn on_clock(children: Seq<TrackChildModel>) -> bool {
    forall|n: int|
        0 <= n <= children.len() ==> (#[trigger] start_of(children, n)) is Fin && 0 <= ticks(
            start_of(children, n),
        )
}

/// Whether empty time on a track always lasts longer than a thousandth.
pub open spec fn gaps_count(children: Seq<TrackChildModel>) -> bool {
    forall|k: int|
        0 <= k < children.len() ==> ((#[trigger] children[k]) matches TrackChildModel::Gap(g)
            ==> milli().less(g.source_range.duration.seconds))
}

/// Whether a child is found again, and begins when it did.
pub open spec fn kept_in_time(before: Seq<TrackChildModel>, after: Seq<TrackChildModel>, k: int) -> bool {
    exists|m: int|
        0 <= m < after.len() && #[trigger] after[m] == before[k] && start_of(after, m) == start_of(
            before,
            k,
        )
}

/// Whether a child begins at a time, or so near to it.
pub open spec fn begins_near(
    children: Seq<TrackChildModel>,
    c: TrackChildModel,
    t: int,
    within: int,
) -> bool {
    exists|m: int|
        0 <= m < children.len() && #[trigger] children[m] == c && start_of(children, m) is Fin && t
            - within <= ticks(start_of(children, m)) <= t + within
}

proof fn lemma_step(children: Seq<TrackChildModel>, n: int)
    requires
        on_clock(children),
        0 <= n < children.len(),
    ensures
        child_seconds(children[n]) is Fin,
        ticks(start_of(children, n + 1)) == ticks(start_of(children, n)) + ticks(
            child_seconds(children[n]),
        ),
{
    assert(start_of(children, n) is Fin);
    assert(start_of(children, n + 1) is Fin);
}

/// Children as long as others begin when those do.
pub proof fn lemma_prefix(a: Seq<TrackChildModel>, b: Seq<TrackChildModel>, n: int)
    requires
        0 <= n <= a.len(),
        n <= b.len(),
        forall|k: int| 0 <= k < n ==> child_seconds(#[trigger] a[k]) == child_seconds(b[k]),
    ensures
        start_of(a, n) == start_of(b, n),
    decreases n,
{
    if n > 0 {
        assert(child_seconds(a[n - 1]) == child_seconds(b[n - 1]));
        lemma_prefix(a, b, n - 1);
    }
}

/// Children that follow the same begin when those do, if the first of them does.
pub proof fn lemma_shifted(
    before: Seq<TrackChildModel>,
    after: Seq<TrackChildModel>,
    from: int,
    to: int,
    k: int,
)
    requires
        0 <= from <= k <= before.len(),
        from <= to,
        after.len() == before.len() + to - from,
        start_of(after, to) == start_of(before, from),
        forall|m: int|
            from <= m < before.len() ==> #[trigger] before[m] == after[m + to - from],
    ensures
        start_of(after, k + to - from) == start_of(before, k),
    decreases k,
{
    if k > from {
        lemma_shifted(before, after, from, to, k - 1);
        assert(before[k - 1] == after[k - 1 + to - from]);
    }
}

/// A child that takes the place of one as long moves nothing.
pub proof fn law_child_as_long_moves_nothing(
    children: Seq<TrackChildModel>,
    j: int,
    c: TrackChildModel,
    n: int,
)
    requires
        0 <= j < children.len(),
        0 <= n <= children.len(),
        child_seconds(c) == child_seconds(children[j]),
    ensures
        start_of(children.update(j, c), n) == start_of(children, n),
{
    lemma_prefix(children.update(j, c), children, n);
}

// ---- empty time -----------------------------------------------------------

#[verifier::rlimit(30)]
proof fn lemma_merged(children: Seq<TrackChildModel>, rate: Num, n: int)
    requires
        on_clock(children),
        gaps_count(children),
        0 <= n <= children.len(),
    ensures
        on_clock(merged(children, rate, n)),
        gaps_count(merged(children, rate, n)),
        start_of(merged(children, rate, n), merged(children, rate, n).len() as int) == start_of(
            children,
            n,
        ),
        forall|k: int|
            0 <= k < n && !((#[trigger] children[k]) is Gap) ==> kept_in_time(
                children,
                merged(children, rate, n),
                k,
            ),
    decreases n,
{
    let now = merged(children, rate, n);
    if n > 0 {
        lemma_merged(children, rate, n - 1);
        let m = merged(children, rate, n - 1);
        let len = m.len() as int;
        let c = children[n - 1];
        lemma_step(children, n - 1);
        if c is Gap && len > 0 && m.last() is Gap {
            lemma_step(m, len - 1);
            let d = c->Gap_0.source_range.duration.seconds;
            let joined = m.last()->Gap_0.source_range.duration.seconds.plus(d);
            assert(now == m.update(len - 1, gap_of(joined, rate)));
            lemma_prefix(now, m, len - 1);
            assert(start_of(m, len - 1) is Fin);
            assert(start_of(children, n) is Fin);
            assert(joined is Fin);
            assert(start_of(now, len) == start_of(children, n));
            assert forall|k: int| 0 <= k <= now.len() implies (#[trigger] start_of(now, k)) is Fin
                && 0 <= ticks(start_of(now, k)) by {
                if k < len {
                    lemma_prefix(now, m, k);
                    assert(start_of(m, k) is Fin);
                }
            }
            assert forall|k: int| 0 <= k < n && !((#[trigger] children[k]) is Gap) implies kept_in_time(
                children,
                now,
                k,
            ) by {
                assert(kept_in_time(children, m, k));
                let x = choose|x: int|
                    0 <= x < m.len() && #[trigger] m[x] == children[k] && start_of(m, x)
                        == start_of(children, k);
                assert(x != len - 1);
                assert(now[x] == children[k]);
                lemma_prefix(now, m, x);
            }
        } else {
            assert(now == m.push(c));
            lemma_prefix(now, m, len);
            assert(start_of(now, len + 1) == start_of(children, n));
            assert forall|k: int| 0 <= k <= now.len() implies (#[trigger] start_of(now, k)) is Fin
                && 0 <= ticks(start_of(now, k)) by {
                if k <= len {
                    lemma_prefix(now, m, k);
                    assert(start_of(m, k) is Fin);
                } else {
                    assert(start_of(children, n) is Fin);
                }
            }
            assert forall|k: int| 0 <= k < n && !((#[trigger] children[k]) is Gap) implies kept_in_time(
                children,
                now,
                k,
            ) by {
                if k < n - 1 {
                    assert(kept_in_time(children, m, k));
                    let x = choose|x: int|
                        0 <= x < m.len() && #[trigger] m[x] == children[k] && start_of(m, x)
                            == start_of(children, k);
                    assert(now[x] == children[k]);
                    lemma_prefix(now, m, x);
                } else {
                    assert(now[len] == children[k]);
                }
            }
        }
    } else {
        assert forall|k: int| 0 <= k <= now.len() implies (#[trigger] start_of(now, k)) is Fin
            && 0 <= ticks(start_of(now, k)) by {}
    }
}

proof fn lemma_merged_apart(children: Seq<TrackChildModel>, rate: Num, n: int)
    requires
        0 <= n <= children.len(),
    ensures
        forall|k: int|
            0 <= k < merged(children, rate, n).len() - 1 ==> !((#[trigger] merged(
                children,
                rate,
                n,
            )[k]) is Gap && merged(children, rate, n)[k + 1] is Gap),
    decreases n,
{
    if n > 0 {
        lemma_merged_apart(children, rate, n - 1);
    }
}

/// Merging empty time moves nothing: the track lasts as long as before, and all
/// but empty time is found again and begins when it did.  No two stretches of
/// empty time are left side by side.
pub proof fn law_merging_moves_nothing(children: Seq<TrackChildModel>, rate: Num)
    requires
        on_clock(children),
        gaps_count(children),
    ensures
        start_of(merged_all(children, rate), merged_all(children, rate).len() as int) == start_of(
            children,
            children.len() as int,
        ),
        forall|k: int|
            0 <= k < children.len() && !((#[trigger] children[k]) is Gap) ==> kept_in_time(
                children,
                merged_all(children, rate),
                k,
            ),
        forall|k: int|
            0 <= k < merged_all(children, rate).len() - 1 ==> !((#[trigger] merged_all(
                children,
                rate,
            )[k]) is Gap && merged_all(children, rate)[k + 1] is Gap),
{
    lemma_merged(children, rate, children.len() as int);
    lemma_merged_apart(children, rate, children.len() as int);
}

proof fn lemma_without_empty(children: Seq<TrackChildModel>, r: int)
    requires
        on_clock(children),
        gaps_count(children),
        0 <= r < children.len(),
        child_seconds(children[r]) == zero(),
    ensures
        on_clock(children.remove(r)),
        gaps_count(children.remove(r)),
        forall|k: int|
            0 <= k < children.len() && k != r ==> kept_in_time(children, children.remove(r), k),
{
    let after = children.remove(r);
    assert forall|n: int| 0 <= n <= after.len() implies #[trigger] start_of(after, n) == (if n <= r {
        start_of(children, n)
    } else {
        start_of(children, n + 1)
    }) by {
        lemma_removed_start(children, r, n);
    }
    assert forall|k: int| 0 <= k < children.len() && k != r implies kept_in_time(
        children,
        after,
        k,
    ) by {
        let x = if k < r {
            k
        } else {
            k - 1
        };
        assert(after[x] == children[k]);
        assert(start_of(after, x) == start_of(children, k)) by {
            if k == r + 1 {
                lemma_step(children, r);
                assert(start_of(children, r + 1) is Fin);
                assert(start_of(children, r) is Fin);
            }
        }
    }
    assert forall|n: int| 0 <= n <= after.len() implies (#[trigger] start_of(after, n)) is Fin && 0
        <= ticks(start_of(after, n)) by {
        if n <= r {
            assert(start_of(children, n) is Fin);
        } else {
            assert(start_of(children, n + 1) is Fin);
        }
    }
}

proof fn lemma_removed_start(children: Seq<TrackChildModel>, r: int, n: int)
    requires
        on_clock(children),
        0 <= r < children.len(),
        child_seconds(children[r]) == zero(),
        0 <= n < children.len(),
    ensures
        start_of(children.remove(r), n) == (if n <= r {
            start_of(children, n)
        } else {
            start_of(children, n + 1)
        }),
    decreases n,
{
    let after = children.remove(r);
    if n <= r {
        lemma_prefix(after, children, n);
    } else {
        lemma_removed_start(children, r, n - 1);
        assert(after[n - 1] == children[n]);
        if n == r + 1 {
            lemma_step(children, r);
            assert(start_of(children, r) is Fin);
            assert(start_of(children, r + 1) is Fin);
        }
    }
}

proof fn lemma_kept_through(
    a: Seq<TrackChildModel>,
    b: Seq<TrackChildModel>,
    c: Seq<TrackChildModel>,
    k: int,
)
    requires
        kept_in_time(a, b, k),
        forall|x: int| 0 <= x < b.len() && #[trigger] b[x] == a[k] ==> kept_in_time(b, c, x),
    ensures
        kept_in_time(a, c, k),
{
    let x = choose|x: int|
        0 <= x < b.len() && #[trigger] b[x] == a[k] && start_of(b, x) == start_of(a, k);
    assert(kept_in_time(b, c, x));
    let y = choose|y: int|
        0 <= y < c.len() && #[trigger] c[y] == b[x] && start_of(c, y) == start_of(b, x);
    assert(c[y] == a[k]);
}

/// A clip that is deleted leaves empty time behind: every other clip on its track
/// is still there and begins when it did.
pub proof fn law_delete_moves_no_other_clip(tl: TimelineModel, index: usize, loc: ClipLocator, k: int)
    requires
        deleted_clip(tl, index, Some(loc)) is Ok,
        on_clock(track_at(tl, loc.track_index as int)->0.children),
        gaps_count(track_at(tl, loc.track_index as int)->0.children),
        milli().less(
            child_seconds(
                track_at(tl, loc.track_index as int)->0.children[loc.child_index as int],
            ),
        ),
        0 <= k < track_at(tl, loc.track_index as int)->0.children.len(),
        k != loc.child_index,
        track_at(tl, loc.track_index as int)->0.children[k] is Clip,
    ensures
        ({
            let after = deleted_clip(tl, index, Some(loc))->Ok_0.0;
            track_at(after, loc.track_index as int) is Some && kept_in_time(
                track_at(tl, loc.track_index as int)->0.children,
                track_at(after, loc.track_index as int)->0.children,
                k,
            )
        }),
{
    let i = loc.track_index as int;
    let j = loc.child_index as int;
    let t = track_at(tl, i)->0;
    let a = t.children;
    let c = a[j];
    let rate = rate_or_24(c);
    let u = a.update(j, gap_of(child_seconds(c), rate));
    assert forall|n: int| 0 <= n <= u.len() implies (#[trigger] start_of(u, n)) is Fin && 0
        <= ticks(start_of(u, n)) by {
        lemma_prefix(u, a, n);
        assert(start_of(a, n) is Fin);
    }
    lemma_prefix(u, a, k);
    assert(u[k] == a[k]);
    assert(kept_in_time(a, u, k));
    let v = if j + 1 < u.len() && u[j + 1] is Transition {
        u.remove(j + 1)
    } else {
        u
    };
    if j + 1 < u.len() && u[j + 1] is Transition {
        lemma_without_empty(u, j + 1);
        lemma_kept_through(a, u, v, k);
    }
    let w = without_transitions_around(u, j).0;
    if 0 < j <= v.len() && v[j - 1] is Transition {
        lemma_without_empty(v, j - 1);
        lemma_kept_through(a, v, w, k);
    } else {
        assert(w == v);
    }
    let b = merged_all(w, rate);
    law_merging_moves_nothing(w, rate);
    lemma_kept_through(a, w, b, k);
    let after = deleted_clip(tl, index, Some(loc))->Ok_0.0;
    assert(track_at(after, i)->0.children == b);
}

// ---- ripples --------------------------------------------------------------

/// A clip that is deleted with a ripple closes up: all behind it on its track
/// begins earlier by the clip's length, all in front of it when it did.
pub proof fn law_ripple_delete_closes_up(tl: TimelineModel, index: usize, loc: ClipLocator, n: int)
    requires
        ripple_deleted(tl, index, Some(loc)) is Ok,
        on_clock(track_at(tl, loc.track_index as int)->0.children),
        0 <= n < track_at(tl, loc.track_index as int)->0.children.len(),
    ensures
        ({
            let i = loc.track_index as int;
            let j = loc.child_index as int;
            let before = track_at(tl, i)->0.children;
            let out = ripple_deleted(tl, index, Some(loc))->Ok_0.0;
            let after = track_at(out, i)->0.children;
            &&& track_at(out, i) is Some
            &&& after == before.remove(j)
            &&& n <= j ==> start_of(after, n) == start_of(before, n)
            &&& n >= j ==> start_of(after, n) is Fin && ticks(start_of(after, n)) == ticks(
                start_of(before, n + 1),
            ) - ticks(child_seconds(before[j]))
        }),
{
    let i = loc.track_index as int;
    let j = loc.child_index as int;
    let t = track_at(tl, i)->0;
    let out = ripple_deleted(tl, index, Some(loc))->Ok_0.0;
    assert(track_at(out, i)->0.children == t.children.remove(j));
    lemma_closed_up(t.children, j, n);
}

/// What is behind a child that is removed begins earlier by its length.
pub proof fn lemma_closed_up(before: Seq<TrackChildModel>, j: int, n: int)
    requires
        on_clock(before),
        0 <= j < before.len(),
        0 <= ticks(child_seconds(before[j])),
        0 <= n < before.len(),
    ensures
        n <= j ==> start_of(before.remove(j), n) == start_of(before, n),
        n >= j ==> start_of(before.remove(j), n) is Fin && ticks(start_of(before.remove(j), n))
            == ticks(start_of(before, n + 1)) - ticks(child_seconds(before[j])),
    decreases n,
{
    let after = before.remove(j);
    lemma_step(before, j);
    if n <= j {
        lemma_prefix(after, before, n);
        assert(start_of(before, n) is Fin);
    } else {
        lemma_closed_up(before, j, n - 1);
        lemma_step(before, n);
        assert(after[n - 1] == before[n]);
        assert(start_of(before, n) is Fin);
        assert(start_of(before, n + 1) is Fin);
        assert(start_of(before, j) is Fin && 0 <= ticks(start_of(before, j)));
        assert(start_of(before, j + 1) is Fin && 0 <= ticks(start_of(before, j + 1)));
    }
}

proof fn lemma_longer(
    before: Seq<TrackChildModel>,
    j: int,
    c: TrackChildModel,
    n: int,
)
    requires
        on_clock(before),
        on_clock(before.update(j, c)),
        0 <= j < before.len(),
        0 <= n <= before.len(),
    ensures
        n <= j ==> start_of(before.update(j, c), n) == start_of(before, n),
        n > j ==> ticks(start_of(before.update(j, c), n)) == ticks(start_of(before, n)) + ticks(
            child_seconds(c),
        ) - ticks(child_seconds(before[j])),
    decreases n,
{
    let after = before.update(j, c);
    if n <= j {
        lemma_prefix(after, before, n);
    } else {
        lemma_longer(before, j, c, n - 1);
        lemma_step(before, n - 1);
        lemma_step(after, n - 1);
    }
}

/// An edge that is trimmed with a ripple moves all behind the clip by as much as
/// the clip becomes longer or shorter, and nothing in front of it.
pub proof fn law_ripple_trim_moves_what_follows(
    tl: TimelineModel,
    index: usize,
    edge: RippleTrimEdge,
    value_s: Num,
    loc: ClipLocator,
    n: int,
)
    requires
        ripple_trimmed(tl, index, edge, value_s, Some(loc)) is Ok,
        on_clock(track_at(tl, loc.track_index as int)->0.children),
        on_clock(
            track_at(
                ripple_trimmed(tl, index, edge, value_s, Some(loc))->Ok_0.0,
                loc.track_index as int,
            )->0.children,
        ),
        0 <= n <= track_at(tl, loc.track_index as int)->0.children.len(),
    ensures
        ({
            let i = loc.track_index as int;
            let j = loc.child_index as int;
            let before = track_at(tl, i)->0.children;
            let out = ripple_trimmed(tl, index, edge, value_s, Some(loc))->Ok_0.0;
            let after = track_at(out, i)->0.children;
            &&& after.len() == before.len()
            &&& n <= j ==> start_of(after, n) == start_of(before, n)
            &&& n > j ==> ticks(start_of(after, n)) == ticks(start_of(before, n)) + ticks(
                child_seconds(after[j]),
            ) - ticks(child_seconds(before[j]))
        }),
{
    let i = loc.track_index as int;
    let j = loc.child_index as int;
    let before = track_at(tl, i)->0.children;
    let out = ripple_trimmed(tl, index, edge, value_s, Some(loc))->Ok_0.0;
    let after = track_at(out, i)->0.children;
    assert(after == before.update(j, after[j]));
    lemma_longer(before, j, after[j], n);
}

// ---- adjustments ----------------------------------------------------------

/// A clip that slips keeps its length, and nothing on its track moves.
pub proof fn law_slip_moves_nothing(
    tl: TimelineModel,
    index: usize,
    delta_s: Num,
    loc: ClipLocator,
    n: int,
)
    requires
        slipped(tl, index, delta_s, Some(loc)) is Ok,
        0 <= n <= track_at(tl, loc.track_index as int)->0.children.len(),
    ensures
        ({
            let i = loc.track_index as int;
            let before = track_at(tl, i)->0.children;
            let out = slipped(tl, index, delta_s, Some(loc))->Ok_0.0;
            let after = track_at(out, i)->0.children;
            &&& track_at(out, i) is Some
            &&& after.len() == before.len()
            &&& clip_seconds(clip_at(out, loc)->0) == clip_seconds(clip_at(tl, loc)->0)
            &&& start_of(after, n) == start_of(before, n)
        }),
{
    let i = loc.track_index as int;
    let j = loc.child_index as int;
    let before = track_at(tl, i)->0.children;
    let out = slipped(tl, index, delta_s, Some(loc))->Ok_0.0;
    let after = track_at(out, i)->0.children;
    assert(after == before.update(j, after[j]));
    law_child_as_long_moves_nothing(before, j, after[j], n);
}

/// A clip that slides stays as it is, and begins later by the slide; all beyond
/// its two neighbours begins when it did.
pub proof fn law_slide_moves_one_clip(
    tl: TimelineModel,
    index: usize,
    delta_s: Num,
    loc: ClipLocator,
    n: int,
)
    requires
        slid(tl, index, delta_s, Some(loc)) is Ok,
        on_clock(track_at(tl, loc.track_index as int)->0.children),
        on_clock(
            track_at(
                slid(tl, index, delta_s, Some(loc))->Ok_0.0,
                loc.track_index as int,
            )->0.children,
        ),
        end_of(
            clip_in(track_at(tl, loc.track_index as int)->0, loc.child_index - 1)->0.source_range->0,
        ) is Fin,
        end_of(
            clip_in(track_at(tl, loc.track_index as int)->0, loc.child_index + 1)->0.source_range->0,
        ) is Fin,
        0 <= n <= track_at(tl, loc.track_index as int)->0.children.len(),
    ensures
        ({
            let i = loc.track_index as int;
            let j = loc.child_index as int;
            let before = track_at(tl, i)->0.children;
            let out = slid(tl, index, delta_s, Some(loc))->Ok_0.0;
            let after = track_at(out, i)->0.children;
            &&& after.len() == before.len()
            &&& after[j] == before[j]
            &&& n != j && n != j + 1 ==> start_of(after, n) == start_of(before, n)
            &&& n == j || n == j + 1 ==> ticks(start_of(after, n)) == ticks(start_of(before, n))
                + ticks(delta_s)
        }),
{
    let i = loc.track_index as int;
    let j = loc.child_index as int;
    let t = track_at(tl, i)->0;
    let before = t.children;
    let out = slid(tl, index, delta_s, Some(loc))->Ok_0.0;
    let after = track_at(out, i)->0.children;
    let p = clip_in(t, j - 1)->0;
    let q = clip_in(t, j + 1)->0;
    assert(slide_clips(tl, index, Some(loc)) is Ok);
    let (a, b) = cut_moved(index, p, q, delta_s, slide_words())->Ok_0;
    assert(a == end_moved(p, delta_s));
    assert(b == start_moved(q, delta_s));
    assert(after =~= before.update(j - 1, TrackChildModel::Clip(a)).update(
        j + 1,
        TrackChildModel::Clip(b),
    ));
    lemma_cut_lengths(before, after, j - 1, j + 1, p, q, delta_s);
    lemma_moved_cut(before, after, j - 1, j + 1, delta_s, n);
}

/// A cut that rolls moves alone: what begins at it begins later by the roll, all
/// else when it did.
pub proof fn law_roll_moves_one_cut(
    tl: TimelineModel,
    index: usize,
    delta_s: Num,
    places: BetweenPlaces,
    n: int,
)
    requires
        rolled(tl, index, delta_s, places) is Ok,
        on_clock(track_at(tl, places.from->Ok_0.track_index as int)->0.children),
        on_clock(
            track_at(
                rolled(tl, index, delta_s, places)->Ok_0.0,
                places.from->Ok_0.track_index as int,
            )->0.children,
        ),
        end_of(clip_at(tl, places.from->Ok_0)->0.source_range->0) is Fin,
        end_of(clip_at(tl, places.to->Ok_0)->0.source_range->0) is Fin,
        0 <= n <= track_at(tl, places.from->Ok_0.track_index as int)->0.children.len(),
    ensures
        ({
            let i = places.from->Ok_0.track_index as int;
            let j = places.to->Ok_0.child_index as int;
            let before = track_at(tl, i)->0.children;
            let out = rolled(tl, index, delta_s, places)->Ok_0.0;
            let after = track_at(out, i)->0.children;
            &&& after.len() == before.len()
            &&& n != j ==> start_of(after, n) == start_of(before, n)
            &&& n == j ==> ticks(start_of(after, n)) == ticks(start_of(before, n)) + ticks(delta_s)
        }),
{
    let from = places.from->Ok_0;
    let to = places.to->Ok_0;
    let i = from.track_index as int;
    let j = to.child_index as int;
    let t = track_at(tl, i)->0;
    let before = t.children;
    let out = rolled(tl, index, delta_s, places)->Ok_0.0;
    let after = track_at(out, i)->0.children;
    let p = clip_in(t, j - 1)->0;
    let q = clip_in(t, j)->0;
    let (a, b) = cut_moved(index, p, q, delta_s, roll_words())->Ok_0;
    assert(a == end_moved(p, delta_s));
    assert(b == start_moved(q, delta_s));
    assert(after =~= before.update(j - 1, TrackChildModel::Clip(a)).update(
        j,
        TrackChildModel::Clip(b),
    ));
    lemma_cut_lengths(before, after, j - 1, j, p, q, delta_s);
    lemma_moved_cut(before, after, j - 1, j, delta_s, n);
}

proof fn lemma_cut_lengths(
    before: Seq<TrackChildModel>,
    after: Seq<TrackChildModel>,
    x: int,
    y: int,
    p: ClipModel,
    q: ClipModel,
    delta: Num,
)
    requires
        on_clock(before),
        on_clock(after),
        0 <= x < y < before.len(),
        after.len() == before.len(),
        before[x] == TrackChildModel::Clip(p),
        before[y] == TrackChildModel::Clip(q),
        after[x] == TrackChildModel::Clip(end_moved(p, delta)),
        after[y] == TrackChildModel::Clip(start_moved(q, delta)),
        p.source_range is Some,
        q.source_range is Some,
        delta is Fin,
        end_of(p.source_range->0) is Fin,
        end_of(q.source_range->0) is Fin,
    ensures
        ticks(child_seconds(after[x])) == ticks(child_seconds(before[x])) + ticks(delta),
        ticks(child_seconds(after[y])) == ticks(child_seconds(before[y])) - ticks(delta),
{
    lemma_step(before, x);
    lemma_step(before, y);
    lemma_step(after, x);
    lemma_step(after, y);
    let a = p.source_range->0;
    let b = q.source_range->0;
    assert(a.start_time.seconds is Fin);
    assert(b.start_time.seconds is Fin);
    assert(end_of(a).plus(delta) is Fin);
    assert(b.start_time.seconds.plus(delta) is Fin);
}

proof fn lemma_moved_cut(
    before: Seq<TrackChildModel>,
    after: Seq<TrackChildModel>,
    x: int,
    y: int,
    delta: Num,
    n: int,
)
    requires
        on_clock(before),
        on_clock(after),
        0 <= x < y < before.len(),
        after.len() == before.len(),
        forall|k: int|
            0 <= k < before.len() && k != x && k != y ==> #[trigger] after[k] == before[k],
        ticks(child_seconds(after[x])) == ticks(child_seconds(before[x])) + ticks(delta),
        ticks(child_seconds(after[y])) == ticks(child_seconds(before[y])) - ticks(delta),
        0 <= n <= before.len(),
    ensures
        !(x < n <= y) ==> start_of(after, n) == start_of(before, n),
        x < n <= y ==> ticks(start_of(after, n)) == ticks(start_of(before, n)) + ticks(delta),
    decreases n,
{
    assert(start_of(after, n) is Fin);
    assert(start_of(before, n) is Fin);
    if n > 0 {
        lemma_moved_cut(before, after, x, y, delta, n - 1);
        lemma_step(before, n - 1);
        lemma_step(after, n - 1);
        assert(start_of(after, n - 1) is Fin);
        assert(start_of(before, n - 1) is Fin);
    }
}

// ---- splits ---------------------------------------------------------------

/// The two parts of a clip that is split meet at the cut, are together as long as
/// it was, and all behind them begins when it did.
pub proof fn law_split_moves_nothing(tl: TimelineModel, loc: ClipLocator, at: Num, id: Str, n: int)
    requires
        clip_at(tl, loc) is Some,
        clip_at(tl, loc)->0.source_range is Some,
        at is Fin,
        clip_at(tl, loc)->0.source_range->0.start_time.seconds is Fin,
        end_of(clip_at(tl, loc)->0.source_range->0) is Fin,
        clip_at(tl, loc)->0.source_range->0.start_time.seconds.at_most(at),
        at.at_most(end_of(clip_at(tl, loc)->0.source_range->0)),
        on_clock(track_at(tl, loc.track_index as int)->0.children),
        loc.child_index < n <= track_at(tl, loc.track_index as int)->0.children.len(),
    ensures
        ({
            let i = loc.track_index as int;
            let j = loc.child_index as int;
            let c = clip_at(tl, loc)->0;
            let r = c.source_range->0;
            let before = track_at(tl, i)->0.children;
            let after = track_at(split_at(tl, loc, at, id), i)->0.children;
            let a = clip_in(track_at(split_at(tl, loc, at, id), i)->0, j)->0.source_range->0;
            let b = clip_in(track_at(split_at(tl, loc, at, id), i)->0, j + 1)->0.source_range->0;
            &&& a.start_time.seconds == r.start_time.seconds
            &&& end_of(a) == at
            &&& b.start_time.seconds == at
            &&& ticks(a.duration.seconds) + ticks(b.duration.seconds) == ticks(end_of(r)) - ticks(
                r.start_time.seconds,
            )
            &&& start_of(after, n + 1) == start_of(before, n)
        }),
    decreases n,
{
    let i = loc.track_index as int;
    let j = loc.child_index as int;
    let c = clip_at(tl, loc)->0;
    let r = c.source_range->0;
    let before = track_at(tl, i)->0.children;
    let out = split_at(tl, loc, at, id);
    let after = track_at(out, i)->0.children;
    let left = TrackChildModel::Clip(left_part(c, r, at));
    let right = TrackChildModel::Clip(right_part(c, r, at, id));
    assert(after == before.update(j, left).insert(j + 1, right));
    assert(after[j] == left);
    assert(after[j + 1] == right);
    lemma_step(before, j);
    lemma_prefix(after, before, j);
    assert(start_of(before, j) is Fin && 0 <= ticks(start_of(before, j)));
    assert(start_of(before, j + 1) is Fin);
    assert(child_seconds(left) == at.minus(r.start_time.seconds));
    assert(child_seconds(right) == end_of(r).minus(at));
    if n == j + 1 {
        let first = start_of(after, j + 1);
        assert(first == start_of(before, j).plus(child_seconds(left)));
        assert(start_of(after, j + 2) == first.plus(child_seconds(right)));
    } else {
        law_split_moves_nothing(tl, loc, at, id, n - 1);
        assert(after[n] == before[n - 1]);
    }
}

} // verus!

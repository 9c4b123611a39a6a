//! What happens to clips that are put where there is room, or where there is none.
use vstd::prelude::*;

use crate::adjust_laws::only_row;
use crate::edit::{gap_of, spliced, start_of};
use crate::error::Refusal;
use crate::gap::{framed, put_at_time};
use crate::measures::{
    has_row, law_a_place_is_found, law_starts_add_up, length, millionth, most, onset, row,
    thousandth, tick,
};
use crate::model::{ClipLocator, TimelineModel, TrackChildModel};
use crate::move_clip::{moved_clip, moved_to_time};
use crate::num::{micro, Num};
use crate::op::SnapOptions;
use crate::overlay::{overlaid, put_in_gap};
use crate::playback::{
    all_timed, frame, lemma_nothing_outside, lemma_onsets, lemma_shown_front, lemma_shown_push,
    lemma_shown_rest, lemma_shown_while, lemma_steady, shown_at, steady, timed, whole,
};
use crate::snap::snapped;
use crate::split_laws::lemma_before;

verus! {

/// Children that together last as long as one whose place they take change only what is
/// shown while that lasted.
pub proof fn lemma_some_for_one(
    before: Seq<TrackChildModel>,
    i: int,
    middle: Seq<TrackChildModel>,
    t: int,
)
    requires
        all_timed(before),
        all_timed(middle),
        0 <= i < before.len(),
        whole(middle) == length(before[i]),
    ensures
        ({
            let after = spliced(before, i, i + 1, middle);
            let a = onset(before, i);
            &&& all_timed(after)
            &&& whole(after) == whole(before)
            &&& shown_at(after, t) == (if a <= t < a + length(before[i]) {
                shown_at(middle, t - a)
            } else {
                shown_at(before, t)
            })
        }),
{
    let after = spliced(before, i, i + 1, middle);
    let n = before.len() as int;
    let m = middle.len() as int;
    assert(after =~= before.take(i) + middle + before.skip(i + 1));
    assert(after.len() == n - 1 + m);
    assert forall|k: int| 0 <= k < after.len() implies timed(#[trigger] after[k]) by {
        if k < i {
            assert(after[k] == before[k]);
            assert(timed(before[k]));
        } else if k < i + m {
            assert(after[k] == middle[k - i]);
            assert(timed(middle[k - i]));
        } else {
            assert(after[k] == before[k - m + 1]);
            assert(timed(before[k - m + 1]));
        }
    }
    lemma_shown_front(after, before, i, t);
    let a = onset(before, i);
    assert(timed(before[i]));
    assert forall|k: int| 0 <= k < m implies #[trigger] middle[k] == after[k + i] by {}
    lemma_shown_rest(middle, after, 0, i, m, 0);
    assert(onset(after, i + m) == a + whole(middle));
    assert(onset(before, i + 1) == a + length(before[i]));
    assert forall|k: int| i + 1 <= k < n implies #[trigger] before[k] == after[k + m - 1] by {}
    lemma_shown_rest(before, after, i + 1, m - 1, n, onset(before, i + 1));
    if t < a {
        lemma_before(before, i, n, t);
        lemma_before(after, i, n - 1 + m, t);
    } else if t < a + length(before[i]) {
        lemma_shown_rest(middle, after, 0, i, m, t - a);
        lemma_before(after, i + m, n - 1 + m, t);
    } else {
        lemma_shown_rest(before, after, i + 1, m - 1, n, t);
    }
}

proof fn lemma_framed_shows(
    before: Num,
    c: TrackChildModel,
    after: Num,
    rate: Num,
    least: Num,
    t: int,
)
    requires
        before is Fin,
        after is Fin,
        least is Fin,
        0 <= tick(least),
        tick(before) == 0 || tick(least) < tick(before),
        tick(after) == 0 || tick(least) < tick(after),
        timed(c),
        0 <= length(c),
    ensures
        ({
            let middle = framed(before, c, after, rate, least);
            &&& all_timed(middle)
            &&& whole(middle) == tick(before) + length(c) + tick(after)
            &&& shown_at(middle, t) == (if tick(before) <= t < tick(before) + length(c) {
                frame(c, t - tick(before))
            } else {
                None
            })
        }),
{
    let s0 = Seq::<TrackChildModel>::empty();
    let front = least.less(before);
    let back = least.less(after);
    let s1 = if front {
        s0.push(gap_of(before, rate))
    } else {
        s0
    };
    if front {
        lemma_shown_push(s0, gap_of(before, rate), t);
    }
    assert(whole(s1) == tick(before));
    assert(shown_at(s1, t) is None);
    let s2 = s1.push(c);
    lemma_shown_push(s1, c, t);
    let s3 = if back {
        s2.push(gap_of(after, rate))
    } else {
        s2
    };
    if back {
        lemma_shown_push(s2, gap_of(after, rate), t);
    }
    assert(framed(before, c, after, rate, least) =~= s3);
}

// ---- over empty time ------------------------------------------------------------------------

/// Whether a stretch lies in empty time at a place of a track, at its edges or further than
/// a millionth from them.
pub open spec fn room_at(children: Seq<TrackChildModel>, i: int, at: int, long: int) -> bool {
    &&& 0 <= i < children.len()
    &&& children[i] is Gap
    &&& at == onset(children, i) || onset(children, i) + millionth() < at
    &&& at + long == onset(children, i + 1) || at + long + millionth() < onset(children, i + 1)
}

proof fn lemma_in_gap(
    children: Seq<TrackChildModel>,
    c: TrackChildModel,
    at: Num,
    long: Num,
    rate: Num,
    g: int,
    i: int,
)
    requires
        steady(children),
        at is Fin,
        long is Fin,
        0 <= tick(at),
        millionth() < tick(long),
        tick(at) + tick(long) <= i128::MAX,
        room_at(children, g, tick(at), tick(long)),
        0 <= i <= g,
    ensures
        put_in_gap(children, c, at, long, rate, i) == Some(
            spliced(
                children,
                g,
                g + 1,
                framed(
                    Num::Fin((tick(at) - onset(children, g)) as i128),
                    c,
                    Num::Fin((onset(children, g + 1) - tick(at) - tick(long)) as i128),
                    rate,
                    micro(),
                ),
            ),
        ),
    decreases g - i,
{
    let n = children.len() as int;
    lemma_steady(children);
    law_starts_add_up(children, i);
    law_starts_add_up(children, i + 1);
    lemma_onsets(children, 0, i);
    lemma_onsets(children, i, i + 1);
    lemma_onsets(children, i + 1, n);
    assert(timed(children[i]));
    assert(timed(children[g]));
    assert(onset(children, g + 1) == onset(children, g) + length(children[g]));
    if i < g {
        lemma_onsets(children, i + 1, g);
        lemma_in_gap(children, c, at, long, rate, g, i + 1);
    }
}

/// A clip that is laid over a track goes into empty time where there is room for it, or
/// behind the end: it is shown for as long as it lasts from the time asked for on, and at
/// all other times the track shows what it did.
pub proof fn law_overlay_covers_only_empty_time(
    children: Seq<TrackChildModel>,
    c: TrackChildModel,
    at: Num,
    long: Num,
    rate: Num,
    g: int,
    t: int,
)
    requires
        steady(children),
        timed(c),
        at is Fin,
        long is Fin,
        0 <= tick(at),
        millionth() < tick(long),
        length(c) == tick(long),
        tick(at) + tick(long) + millionth() <= i128::MAX,
        whole(children) + millionth() <= i128::MAX,
        room_at(children, g, tick(at), tick(long)) || whole(children) == tick(at) || whole(children)
            + millionth() < tick(at),
    ensures
        overlaid(children, c, at, long, rate) matches Some(after) && shown_at(after, t) == (if tick(
            at,
        ) <= t < tick(at) + tick(long) {
            frame(c, t - tick(at))
        } else {
            shown_at(children, t)
        }) && whole(after) == most(whole(children), tick(at) + tick(long)),
{
    let n = children.len() as int;
    lemma_steady(children);
    law_starts_add_up(children, n);
    lemma_onsets(children, 0, n);
    if room_at(children, g, tick(at), tick(long)) {
        lemma_onsets(children, g + 1, n);
        lemma_onsets(children, 0, g);
        lemma_in_gap(children, c, at, long, rate, g, 0);
        let before = Num::Fin((tick(at) - onset(children, g)) as i128);
        let after = Num::Fin((onset(children, g + 1) - tick(at) - tick(long)) as i128);
        lemma_framed_shows(before, c, after, rate, micro(), t - onset(children, g));
        lemma_some_for_one(children, g, framed(before, c, after, rate, micro()), t);
        if onset(children, g) <= t < onset(children, g + 1) {
            lemma_shown_while(children, n, g, t);
        }
    } else {
        if whole(children) <= t {
            lemma_nothing_outside(children, n, t);
        }
        if whole(children) < tick(at) {
            let gap = gap_of(at.minus(start_of(children, n)), rate);
            lemma_shown_push(children, gap, t);
            lemma_shown_push(children.push(gap), c, t);
        } else {
            lemma_shown_push(children, c, t);
        }
    }
}

proof fn lemma_no_gap(
    children: Seq<TrackChildModel>,
    c: TrackChildModel,
    at: Num,
    long: Num,
    rate: Num,
    g: int,
    i: int,
)
    requires
        steady(children),
        at is Fin,
        long is Fin,
        0 <= tick(at),
        millionth() < tick(long),
        tick(at) + tick(long) <= i128::MAX,
        0 <= i <= g < children.len(),
        onset(children, g) <= tick(at) < onset(children, g + 1) - millionth(),
        children[g] !is Gap || onset(children, g + 1) + millionth() < tick(at) + tick(long),
    ensures
        put_in_gap(children, c, at, long, rate, i) is None,
    decreases g - i,
{
    let n = children.len() as int;
    lemma_steady(children);
    law_starts_add_up(children, i);
    law_starts_add_up(children, i + 1);
    lemma_onsets(children, 0, i);
    lemma_onsets(children, i, i + 1);
    lemma_onsets(children, i + 1, n);
    assert(timed(children[i]));
    if i < g {
        lemma_onsets(children, i + 1, g);
        lemma_no_gap(children, c, at, long, rate, g, i + 1);
    }
}

/// A clip is laid over no track on which something else is there at the time, or on which
/// empty time there does not last as long.
pub proof fn law_overlay_covers_nothing_else(
    children: Seq<TrackChildModel>,
    c: TrackChildModel,
    at: Num,
    long: Num,
    rate: Num,
    g: int,
)
    requires
        steady(children),
        at is Fin,
        long is Fin,
        0 <= tick(at),
        millionth() < tick(long),
        tick(at) + tick(long) <= i128::MAX,
        0 <= g < children.len(),
        onset(children, g) <= tick(at) < onset(children, g + 1) - millionth(),
        children[g] !is Gap || onset(children, g + 1) + millionth() < tick(at) + tick(long),
    ensures
        overlaid(children, c, at, long, rate) is None,
{
    let n = children.len() as int;
    lemma_steady(children);
    law_starts_add_up(children, n);
    lemma_onsets(children, g + 1, n);
    lemma_no_gap(children, c, at, long, rate, g, 0);
}

// ---- moves to a time ----------------------------------------------------------------------------

proof fn lemma_put_skips(
    children: Seq<TrackChildModel>,
    c: TrackChildModel,
    at: Num,
    long: Num,
    rate: Num,
    g: int,
    i: int,
)
    requires
        steady(children),
        at is Fin,
        0 <= i <= g < children.len(),
        onset(children, g) + thousandth() < tick(at) < onset(children, g + 1) - thousandth(),
    ensures
        put_at_time(children, c, at, long, rate, i) == put_at_time(children, c, at, long, rate, g),
    decreases g - i,
{
    let n = children.len() as int;
    lemma_steady(children);
    law_starts_add_up(children, i);
    law_starts_add_up(children, i + 1);
    lemma_onsets(children, 0, i);
    lemma_onsets(children, i, i + 1);
    lemma_onsets(children, i + 1, n);
    assert(timed(children[i]));
    if i < g {
        lemma_onsets(children, i + 1, g);
        lemma_onsets(children, g + 1, n);
        lemma_put_skips(children, c, at, long, rate, g, i + 1);
    }
}

/// A child that is put at a time at which another lasts goes in front of that one in its
/// first half, and behind it in its second.
pub proof fn law_put_goes_to_the_nearer_edge(
    children: Seq<TrackChildModel>,
    c: TrackChildModel,
    at: Num,
    long: Num,
    rate: Num,
    g: int,
)
    requires
        steady(children),
        at is Fin,
        0 <= g < children.len(),
        children[g] !is Gap,
        onset(children, g) + thousandth() < tick(at) < onset(children, g + 1) - thousandth(),
    ensures
        ({
            let into = tick(at) - onset(children, g);
            let out = put_at_time(children, c, at, long, rate, 0);
            &&& 2 * into + 2 <= length(children[g]) ==> out == children.insert(g, c)
            &&& 2 * into >= length(children[g]) ==> out == children.insert(g + 1, c)
        }),
{
    let n = children.len() as int;
    lemma_steady(children);
    law_starts_add_up(children, g);
    law_starts_add_up(children, g + 1);
    lemma_onsets(children, 0, g);
    lemma_onsets(children, g + 1, n);
    assert(timed(children[g]));
    lemma_put_skips(children, c, at, long, rate, g, 0);
}

/// A clip is moved to the time asked for, or to the one to which that snaps, on its track
/// alone: exactly where that can be counted and is not before zero, and the clip lasts.
/// Where it begins within a hundredth of the time already, nothing changes.
pub proof fn law_move_to_a_time_stays_on_the_track(
    tl: TimelineModel,
    index: usize,
    to_position: usize,
    at_s: Num,
    snap: Option<SnapOptions>,
    loc: ClipLocator,
    at: Num,
)
    requires
        has_row(tl, loc.track_index as int),
        loc.child_index < row(tl, loc.track_index as int).len(),
        steady(row(tl, loc.track_index as int)),
        snapped(tl, index, at_s, snap) == Ok::<Num, Refusal>(at),
    ensures
        ({
            let i = loc.track_index as int;
            let j = loc.child_index as int;
            let before = row(tl, i);
            match moved_clip(tl, index, to_position, Some(at_s), snap, Some(loc)) {
                Ok((out, _)) => {
                    &&& at is Fin && 0 <= tick(at)
                    &&& 0 < length(before[j])
                    &&& only_row(tl, out, i)
                    &&& -10 * thousandth() < tick(at) - onset(before, j) < 10 * thousandth()
                        ==> row(out, i) == before
                    &&& moved_to_time(index, tl.tracks.children[i]->Track_0, j, at) matches Ok((
                        t,
                        _,
                    )) && out.tracks.children[i]->Track_0 == t
                },
                Err(_) => at !is Fin || tick(at) < 0 || length(before[j]) == 0,
            }
        }),
{
    law_a_place_is_found(tl, loc);
    let i = loc.track_index as int;
    let j = loc.child_index as int;
    let before = row(tl, i);
    lemma_steady(before);
    law_starts_add_up(before, j);
    lemma_onsets(before, 0, j);
    assert(timed(before[j]));
}

} // verus!

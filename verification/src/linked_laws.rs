//! Clips that are linked stay in step on all tracks.
use vstd::prelude::*;

use crate::clip::{end_of, link_group_of};
use crate::edit::{child_seconds, clip_at, start_of};
use crate::error::Refusal;
use crate::measures::{
    first, first_linked, has_clip, has_row, last, law_a_place_is_found, law_first_linked_is_found,
    law_linked_clips_are_found, law_starts_add_up, lemma_onset_front, lemma_onset_rest, length,
    linked, long, most, none_linked, onset, plain, row, the_clip, thousandth, tick,
};
use crate::model::{
    ClipLocator, ClipModel, StackChildModel, TimeRange, TimelineModel, TrackChildModel,
};
use crate::move_clip::{ripple_moved, shifted, shifted_layer};
use crate::num::{milli, zero, Num};
use crate::op::{RippleTrimEdge, SnapOptions};
use crate::ripple::{downstream_shift, edge_moved, edge_shifted_layer, ripple_trimmed};
use crate::shift_laws::{
    empty_before, goes_forward, law_ripple_move_back, lemma_forward, moves_back_by,
};
use crate::snap::snapped;
use crate::text::Str;
use crate::time_laws::{gaps_count, on_clock};

verus! {

// ---- ripple trims -------------------------------------------------------------

/// Whether two clips differ in their source range alone.
pub open spec fn same_but_range(a: ClipModel, b: ClipModel) -> bool {
    &&& a.name == b.name
    &&& a.media_reference == b.media_reference
    &&& a.effects == b.effects
    &&& a.markers == b.markers
    &&& a.metadata == b.metadata
}

/// Whether two tracks are the same but for one child.
pub open spec fn same_but_one(a: Seq<TrackChildModel>, b: Seq<TrackChildModel>, k: int) -> bool {
    &&& a.len() == b.len()
    &&& forall|n: int| 0 <= n < a.len() && n != k ==> #[trigger] a[n] == b[n]
}

/// A ripple trim moves the edge that was asked for to the time that was asked for,
/// but leaves the clip a thousandth at least and goes to no time before zero.  The
/// other edge stays, and so does everything else about the clip and every other
/// child of its track.
pub proof fn law_ripple_trim_moves_one_edge(
    tl: TimelineModel,
    index: usize,
    edge: RippleTrimEdge,
    value_s: Num,
    loc: ClipLocator,
)
    requires
        has_clip(tl, loc),
        the_clip(tl, loc).source_range is Some,
        plain(the_clip(tl, loc).source_range->0),
        last(the_clip(tl, loc).source_range->0) + thousandth() <= i128::MAX,
        value_s is Fin,
        0 <= tick(value_s),
    ensures
        ({
            let i = loc.track_index as int;
            let was = the_clip(tl, loc).source_range->0;
            match ripple_trimmed(tl, index, edge, value_s, Some(loc)) {
                Ok((out, _)) => {
                    let now = the_clip(out, loc).source_range->0;
                    &&& has_clip(out, loc)
                    &&& the_clip(out, loc).source_range is Some
                    &&& same_but_range(the_clip(out, loc), the_clip(tl, loc))
                    &&& same_but_one(row(out, i), row(tl, i), loc.child_index as int)
                    &&& plain(now)
                    &&& match edge {
                        RippleTrimEdge::End => {
                            &&& first(now) == first(was)
                            &&& last(now) == most(tick(value_s), first(was) + thousandth())
                        },
                        RippleTrimEdge::Start => {
                            &&& last(now) == last(was)
                            &&& 0 < long(now)
                            &&& tick(value_s) + thousandth() <= last(was) ==> first(now) == tick(
                                value_s,
                            )
                            &&& last(was) < tick(value_s) + thousandth() ==> first(now) == most(
                                0,
                                last(was) - thousandth(),
                            )
                        },
                    }
                },
                Err(_) => edge == RippleTrimEdge::Start && last(was) == 0,
            }
        }),
{
    law_a_place_is_found(tl, loc);
    if let Ok((out, _)) = ripple_trimmed(tl, index, edge, value_s, Some(loc)) {
        let i = loc.track_index as int;
        assert(row(out, i) =~= row(tl, i).update(
            loc.child_index as int,
            row(out, i)[loc.child_index as int],
        ));
        law_a_place_is_found(out, loc);
    }
}

/// Whether an edge of the first clip of a link group on a track has moved by so much,
/// as far as the clip lasts, and nothing else has changed there.
pub open spec fn edge_moved_by(
    before: Seq<TrackChildModel>,
    after: Seq<TrackChildModel>,
    k: int,
    edge: RippleTrimEdge,
    by: int,
) -> bool {
    let b = before[k]->Clip_0.source_range->0;
    let a = after[k]->Clip_0.source_range->0;
    &&& same_but_one(after, before, k)
    &&& after[k] is Clip
    &&& same_but_range(after[k]->Clip_0, before[k]->Clip_0)
    &&& after[k]->Clip_0.source_range is Some
    &&& edge == RippleTrimEdge::End ==> first(a) == first(b) && last(a) == most(
        last(b) + by,
        first(b) + thousandth(),
    )
    &&& edge == RippleTrimEdge::Start ==> last(a) == last(b) && first(a) == (if most(
        first(b) + by,
        0,
    ) < last(b) {
        most(first(b) + by, 0)
    } else {
        first(b)
    })
}

/// Whether the times can still be counted when an edge has moved by so much.
pub open spec fn room_for(r: TimeRange, edge: RippleTrimEdge, by: int) -> bool {
    &&& plain(r)
    &&& first(r) + thousandth() <= i128::MAX
    &&& match edge {
        RippleTrimEdge::End => last(r) + by <= i128::MAX,
        RippleTrimEdge::Start => first(r) + by <= i128::MAX,
    }
}

proof fn lemma_trimmed_layer(
    tl: TimelineModel,
    index: usize,
    edge: RippleTrimEdge,
    value_s: Num,
    loc: ClipLocator,
    group: Str,
    s: int,
)
    requires
        clip_at(tl, loc) is Some,
        link_group_of(clip_at(tl, loc)->0) == Some(group),
        ripple_trimmed(tl, index, edge, value_s, Some(loc)) is Ok,
        0 <= s < tl.tracks.children.len(),
        s != loc.track_index,
    ensures
        ({
            let r = clip_at(tl, loc)->0.source_range->0;
            let (start, end) = edge_moved(r, edge, value_s);
            let by = match edge {
                RippleTrimEdge::Start => start.minus(r.start_time.seconds),
                RippleTrimEdge::End => end.minus(end_of(r)),
            };
            let out = ripple_trimmed(tl, index, edge, value_s, Some(loc))->Ok_0.0;
            &&& out.tracks.children.len() == tl.tracks.children.len()
            &&& out.tracks.children[s] == (if downstream_shift(edge, by).size().less(milli()) {
                tl.tracks.children[s]
            } else {
                edge_shifted_layer(tl.tracks.children[s], group, edge, by)
            })
        }),
{
}

proof fn lemma_edge_moved(
    layer: StackChildModel,
    group: Str,
    edge: RippleTrimEdge,
    by: Num,
    k: int,
)
    requires
        by is Fin,
    ensures
        ({
            let before = layer->Track_0.children;
            let after = edge_shifted_layer(layer, group, edge, by);
            let b = before[k]->Clip_0.source_range;
            &&& layer !is Track || none_linked(before, group) ==> after == layer
            &&& (layer is Track && first_linked(before, group, k) && b is Some && room_for(
                b->0,
                edge,
                tick(by),
            )) ==> after is Track && edge_moved_by(
                before,
                after->Track_0.children,
                k,
                edge,
                tick(by),
            )
        }),
{
    if layer is Track {
        let before = layer->Track_0.children;
        law_first_linked_is_found(before, group);
        if first_linked(before, group, k) {
            assert(linked(before[k], group));
        }
    }
}

/// The clips that are linked to one whose edge is moved with a ripple are changed
/// alike: on every other track, the same edge of the first clip of the group moves
/// by as much, the other edge stays, and so does everything else on that track.  An
/// end that would come before the start stops a thousandth behind it; a start stops
/// at zero, and moves not at all where nothing would be left.  Tracks without a clip
/// of the group, and all tracks where the edge moves by less than a thousandth, stay.
pub proof fn law_ripple_trim_moves_linked_edges_alike(
    tl: TimelineModel,
    index: usize,
    edge: RippleTrimEdge,
    value_s: Num,
    loc: ClipLocator,
    group: Str,
    s: int,
    k: int,
)
    requires
        has_clip(tl, loc),
        the_clip(tl, loc).source_range is Some,
        plain(the_clip(tl, loc).source_range->0),
        last(the_clip(tl, loc).source_range->0) + thousandth() <= i128::MAX,
        value_s is Fin,
        0 <= tick(value_s),
        linked(TrackChildModel::Clip(the_clip(tl, loc)), group),
        ripple_trimmed(tl, index, edge, value_s, Some(loc)) is Ok,
        0 <= s < tl.tracks.children.len(),
        s != loc.track_index,
    ensures
        ({
            let out = ripple_trimmed(tl, index, edge, value_s, Some(loc))->Ok_0.0;
            let was = the_clip(tl, loc).source_range->0;
            let now = the_clip(out, loc).source_range->0;
            let by = match edge {
                RippleTrimEdge::End => last(now) - last(was),
                RippleTrimEdge::Start => first(now) - first(was),
            };
            let b = row(tl, s)[k]->Clip_0.source_range;
            &&& out.tracks.children.len() == tl.tracks.children.len()
            &&& -thousandth() < by < thousandth() || !has_row(tl, s) || none_linked(
                row(tl, s),
                group,
            ) ==> out.tracks.children[s] == tl.tracks.children[s]
            &&& (has_row(tl, s) && first_linked(row(tl, s), group, k) && b is Some && room_for(
                b->0,
                edge,
                by,
            ) && (by <= -thousandth() || thousandth() <= by)) ==> has_row(out, s) && edge_moved_by(
                row(tl, s),
                row(out, s),
                k,
                edge,
                by,
            )
        }),
{
    law_a_place_is_found(tl, loc);
    law_ripple_trim_moves_one_edge(tl, index, edge, value_s, loc);
    let c = the_clip(tl, loc);
    law_linked_clips_are_found(c, group);
    let out = ripple_trimmed(tl, index, edge, value_s, Some(loc))->Ok_0.0;
    let was = c.source_range->0;
    let now = the_clip(out, loc).source_range->0;
    let moved = match edge {
        RippleTrimEdge::End => end_of(now).minus(end_of(was)),
        RippleTrimEdge::Start => now.start_time.seconds.minus(was.start_time.seconds),
    };
    assert(moved is Fin);
    lemma_trimmed_layer(tl, index, edge, value_s, loc, group, s);
    lemma_edge_moved(tl.tracks.children[s], group, edge, moved, k);
}

/// A linked clip on another track that showed the same stretch as the clip whose
/// edge is moved with a ripple shows the same stretch as that clip afterwards.
pub proof fn law_ripple_trim_keeps_linked_clips_in_step(
    tl: TimelineModel,
    index: usize,
    edge: RippleTrimEdge,
    value_s: Num,
    loc: ClipLocator,
    group: Str,
    s: int,
    k: int,
)
    requires
        has_clip(tl, loc),
        the_clip(tl, loc).source_range is Some,
        plain(the_clip(tl, loc).source_range->0),
        last(the_clip(tl, loc).source_range->0) + thousandth() <= i128::MAX,
        value_s is Fin,
        0 <= tick(value_s),
        linked(TrackChildModel::Clip(the_clip(tl, loc)), group),
        ripple_trimmed(tl, index, edge, value_s, Some(loc)) is Ok,
        has_row(tl, s),
        s != loc.track_index,
        first_linked(row(tl, s), group, k),
        row(tl, s)[k]->Clip_0.source_range is Some,
        row(tl, s)[k]->Clip_0.source_range->0.start_time.seconds == the_clip(
            tl,
            loc,
        ).source_range->0.start_time.seconds,
        row(tl, s)[k]->Clip_0.source_range->0.duration.seconds == the_clip(
            tl,
            loc,
        ).source_range->0.duration.seconds,
    ensures
        ({
            let out = ripple_trimmed(tl, index, edge, value_s, Some(loc))->Ok_0.0;
            let was = the_clip(tl, loc).source_range->0;
            let now = the_clip(out, loc).source_range->0;
            let also = row(out, s)[k]->Clip_0.source_range->0;
            let by = long(now) - long(was);
            by <= -thousandth() || thousandth() <= by ==> first(also) == first(now) && last(also)
                == last(now)
        }),
{
    law_ripple_trim_moves_one_edge(tl, index, edge, value_s, loc);
    law_ripple_trim_moves_linked_edges_alike(tl, index, edge, value_s, loc, group, s, k);
}

// ---- ripple moves -------------------------------------------------------------

/// Whether from a place on everything on a track has moved to a time later by so
/// much: nothing is lost, only the empty time in front of the place has grown.
pub open spec fn later_by(
    before: Seq<TrackChildModel>,
    after: Seq<TrackChildModel>,
    k: int,
    by: int,
) -> bool {
    let more = after.len() - before.len();
    &&& more == (if k > 0 && before[k - 1] is Gap {
        0int
    } else {
        1
    })
    &&& forall|n: int|
        0 <= n < k && !(n == k - 1 && before[n] is Gap) ==> #[trigger] after[n] == before[n]
    &&& forall|n: int| 0 <= n < k ==> #[trigger] onset(after, n) == onset(before, n)
    &&& after[k + more - 1] is Gap
    &&& forall|n: int|
        k <= n < before.len() ==> (#[trigger] before[n]) == after[n + more]
    &&& forall|n: int|
        k <= n <= before.len() ==> (#[trigger] onset(before, n)) + by == onset(after, n + more)
}

proof fn lemma_later(children: Seq<TrackChildModel>, k: int, delta: Num)
    requires
        0 <= k < children.len(),
        delta is Fin,
        thousandth() <= tick(delta),
        k > 0 && children[k - 1] is Gap ==> child_seconds(children[k - 1]) is Fin && length(
            children[k - 1],
        ) + tick(delta) <= i128::MAX,
    ensures
        later_by(children, shifted(children, k, delta), k, tick(delta)),
{
    let after = shifted(children, k, delta);
    let more = after.len() - children.len();
    assert forall|n: int| 0 <= n < k implies #[trigger] onset(after, n) == onset(children, n) by {
        lemma_onset_front(after, children, n);
    }
    if k > 0 && children[k - 1] is Gap {
        assert(onset(after, k) == onset(after, k - 1) + length(after[k - 1]));
        assert(onset(children, k) == onset(children, k - 1) + length(children[k - 1]));
    } else {
        lemma_onset_front(after, children, k);
        assert(onset(after, k + 1) == onset(after, k) + length(after[k]));
    }
    assert forall|n: int| k <= n <= children.len() implies (#[trigger] onset(children, n)) + tick(
        delta,
    ) == onset(after, n + more) by {
        lemma_onset_rest(children, after, k, more, n);
    }
}

/// Whether a clip, and all behind it on its track, can be counted at times later by
/// so much.
pub open spec fn room_behind(children: Seq<TrackChildModel>, by: int) -> bool {
    &&& on_clock(children)
    &&& goes_forward(children)
    &&& gaps_count(children)
    &&& onset(children, children.len() as int) + by <= i128::MAX
}

proof fn lemma_gap_fits(children: Seq<TrackChildModel>, k: int, by: int)
    requires
        room_behind(children, by),
        0 <= k < children.len(),
    ensures
        child_seconds(children[k]) is Fin,
        0 <= length(children[k]),
        length(children[k]) + by <= i128::MAX,
{
    law_starts_add_up(children, k);
    law_starts_add_up(children, k + 1);
    law_starts_add_up(children, children.len() as int);
    lemma_forward(children, k + 1);
    assert(start_of(children, k) is Fin && 0 <= tick(start_of(children, k)));
    assert(child_seconds(children[k]) is Fin);
}

/// Whether clips have moved by a time as a ripple move moves them: to later times by
/// exactly so much; to earlier times by so much or by the empty time directly in
/// front of the first, whichever is less, to within a thousandth.
pub open spec fn rippled_by(
    before: Seq<TrackChildModel>,
    after: Seq<TrackChildModel>,
    k: int,
    by: int,
) -> bool {
    &&& thousandth() <= by ==> later_by(before, after, k, by)
    &&& by <= -thousandth() ==> exists|back: int| #[trigger]
        moves_back_by(before, after, k, back) && {
            &&& 0 <= back <= empty_before(before, k)
            &&& back <= onset(before, k)
            &&& back <= -by + thousandth()
            &&& back >= -by - thousandth() || back == empty_before(before, k)
            &&& empty_before(before, k) + thousandth() < -by ==> back == empty_before(before, k)
            &&& thousandth() < -by && k > 0 && before[k - 1] is Gap && length(before[k - 1]) > -by
                + thousandth() ==> back == -by
        }
}

proof fn lemma_rippled(children: Seq<TrackChildModel>, k: int, delta: Num)
    requires
        0 <= k < children.len(),
        delta is Fin,
        i128::MIN < tick(delta),
        room_behind(children, tick(delta)),
    ensures
        rippled_by(children, shifted(children, k, delta), k, tick(delta)),
{
    law_starts_add_up(children, k);
    if thousandth() <= tick(delta) {
        if k > 0 {
            lemma_gap_fits(children, k - 1, tick(delta));
        }
        lemma_later(children, k, delta);
    }
    if tick(delta) <= -thousandth() {
        law_ripple_move_back(children, k, delta);
    }
}

proof fn lemma_moved_layers(
    tl: TimelineModel,
    index: usize,
    delta_s: Num,
    snap: Option<SnapOptions>,
    loc: ClipLocator,
    at: Num,
)
    requires
        has_clip(tl, loc),
        delta_s is Fin,
        ({
            let was = start_of(row(tl, loc.track_index as int), loc.child_index as int);
            snapped(tl, index, was.plus(delta_s).larger(zero()), snap) == Ok::<Num, Refusal>(at)
        }),
    ensures
        ({
            let i = loc.track_index as int;
            let j = loc.child_index as int;
            let delta = at.minus(start_of(row(tl, i), j));
            match ripple_moved(tl, index, delta_s, snap, Some(loc)) {
                Ok((out, _)) => {
                    &&& out.tracks.children.len() == tl.tracks.children.len()
                    &&& delta.size().less(milli()) ==> out == tl
                    &&& !delta.size().less(milli()) ==> {
                        &&& has_row(out, i)
                        &&& row(out, i) == shifted(row(tl, i), j, delta)
                        &&& forall|s: int|
                            0 <= s < tl.tracks.children.len() && s != i ==> (
                            #[trigger] out.tracks.children[s]) == (match link_group_of(
                                the_clip(tl, loc),
                            ) {
                                Some(g) => shifted_layer(tl.tracks.children[s], g, delta),
                                None => tl.tracks.children[s],
                            })
                    }
                },
                Err(_) => false,
            }
        }),
{
    law_a_place_is_found(tl, loc);
}

/// A clip that is moved with a ripple moves by as much as was asked for, though not
/// to a time before zero, and, where it snaps, as much further as it snaps.  All
/// behind it on its track moves along, and nothing in front of it does.
pub proof fn law_ripple_move_moves_by_what_was_asked(
    tl: TimelineModel,
    index: usize,
    delta_s: Num,
    snap: Option<SnapOptions>,
    loc: ClipLocator,
    at: Num,
)
    requires
        has_clip(tl, loc),
        delta_s is Fin,
        at is Fin,
        0 <= tick(at),
        ({
            let before = row(tl, loc.track_index as int);
            let was = onset(before, loc.child_index as int);
            &&& room_behind(before, tick(at) - was)
            &&& room_behind(before, tick(delta_s))
            &&& snapped(
                tl,
                index,
                Num::Fin(most(was + tick(delta_s), 0) as i128),
                snap,
            ) == Ok::<Num, Refusal>(at)
        }),
    ensures
        ({
            let i = loc.track_index as int;
            let j = loc.child_index as int;
            let by = tick(at) - onset(row(tl, i), j);
            match ripple_moved(tl, index, delta_s, snap, Some(loc)) {
                Ok((out, _)) => {
                    &&& -thousandth() < by < thousandth() ==> out == tl
                    &&& has_row(out, i)
                    &&& rippled_by(row(tl, i), row(out, i), j, by)
                },
                Err(_) => false,
            }
        }),
{
    let i = loc.track_index as int;
    let j = loc.child_index as int;
    let before = row(tl, i);
    law_starts_add_up(before, j);
    law_starts_add_up(before, before.len() as int);
    lemma_forward(before, j);
    let was = start_of(before, j);
    assert(0 <= tick(was));
    assert(was.plus(delta_s).larger(zero()) == Num::Fin(
        most(onset(before, j) + tick(delta_s), 0) as i128,
    ));
    lemma_moved_layers(tl, index, delta_s, snap, loc, at);
    let delta = at.minus(was);
    lemma_rippled(before, j, delta);
}

/// The clips that are linked to one that is moved with a ripple move by as much: on
/// every other track, the first clip of the group and all behind it begin later by
/// exactly what the clip was to move by, or earlier by as much as there is empty time
/// for.  Tracks without a clip of the group stay.
pub proof fn law_ripple_move_keeps_linked_clips_in_step(
    tl: TimelineModel,
    index: usize,
    delta_s: Num,
    snap: Option<SnapOptions>,
    loc: ClipLocator,
    at: Num,
    group: Str,
    s: int,
    k: int,
)
    requires
        has_clip(tl, loc),
        delta_s is Fin,
        at is Fin,
        0 <= tick(at),
        ({
            let before = row(tl, loc.track_index as int);
            let was = onset(before, loc.child_index as int);
            &&& room_behind(before, tick(at) - was)
            &&& room_behind(before, tick(delta_s))
            &&& snapped(
                tl,
                index,
                Num::Fin(most(was + tick(delta_s), 0) as i128),
                snap,
            ) == Ok::<Num, Refusal>(at)
            &&& has_row(tl, s) ==> room_behind(row(tl, s), tick(at) - was)
        }),
        linked(TrackChildModel::Clip(the_clip(tl, loc)), group),
        0 <= s < tl.tracks.children.len(),
        s != loc.track_index,
    ensures
        ({
            let by = tick(at) - onset(row(tl, loc.track_index as int), loc.child_index as int);
            match ripple_moved(tl, index, delta_s, snap, Some(loc)) {
                Ok((out, _)) => {
                    &&& !has_row(tl, s) || none_linked(row(tl, s), group) ==> out.tracks.children[s]
                        == tl.tracks.children[s]
                    &&& has_row(tl, s) && first_linked(row(tl, s), group, k) ==> has_row(out, s)
                        && rippled_by(row(tl, s), row(out, s), k, by)
                },
                Err(_) => false,
            }
        }),
{
    let i = loc.track_index as int;
    let j = loc.child_index as int;
    let before = row(tl, i);
    law_starts_add_up(before, j);
    law_starts_add_up(before, before.len() as int);
    lemma_forward(before, j);
    let was = start_of(before, j);
    assert(0 <= tick(was));
    assert(was.plus(delta_s).larger(zero()) == Num::Fin(
        most(onset(before, j) + tick(delta_s), 0) as i128,
    ));
    lemma_moved_layers(tl, index, delta_s, snap, loc, at);
    law_linked_clips_are_found(the_clip(tl, loc), group);
    let delta = at.minus(was);
    if has_row(tl, s) {
        law_first_linked_is_found(row(tl, s), group);
        if first_linked(row(tl, s), group, k) {
            lemma_rippled(row(tl, s), k, delta);
        }
    }
}

/// A time that is not to snap, or finds nothing in reach, stays as it is.
pub proof fn law_without_snapping_a_time_stays(tl: TimelineModel, index: usize, at: Num)
    requires
        at is Fin,
        0 <= tick(at),
    ensures
        snapped(tl, index, at, None) == Ok::<Num, Refusal>(at),
{
}

} // verus!

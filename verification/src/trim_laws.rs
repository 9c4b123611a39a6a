//! What trimming, widening, splitting and deleting clips do, on all tracks.
use vstd::prelude::*;

use crate::clip::{end_of, first_where, lemma_first_where, link_group_of, with_range};
use crate::edit::with_clip;
use crate::linked_laws::{same_but_one, same_but_range};
use crate::measures::{
    first, has_clip, has_row, last, law_a_place_is_found, law_linked_clips_are_found, least, linked,
    long, millionth, most, plain, row, the_clip, tick,
};
use crate::model::{
    ClipLocator, ClipModel, StackChildModel, TimeRange, TimelineModel, TrackChildModel,
};
use crate::num::Num;
use crate::playback::{all_timed, timed};
use crate::ripple::{closed_layer, ripple_deleted};
use crate::text::Str;
use crate::transition_laws::known_media;
use crate::trim::{
    covering, media_bounds, or_else, retimed_layer, retimed_siblings, trimmed_clip, untrimmed_clip,
    untrimmed_range, Retime,
};

verus! {

// ---- linked clips that cover a stretch --------------------------------------------

/// Whether a child is a clip of a link group that shows all of a stretch of source,
/// up to a millionth.
pub open spec fn covers(c: TrackChildModel, group: Str, from: int, to: int) -> bool {
    &&& linked(c, group)
    &&& c->Clip_0.source_range matches Some(r) && first(r) - millionth() <= from && to <= last(r)
        + millionth()
}

/// Whether the first clip of a link group that shows all of a stretch stands at a
/// place.
pub open spec fn first_covering(
    children: Seq<TrackChildModel>,
    group: Str,
    from: int,
    to: int,
    k: int,
) -> bool {
    &&& 0 <= k < children.len()
    &&& covers(children[k], group, from, to)
    &&& forall|n: int| 0 <= n < k ==> !covers(#[trigger] children[n], group, from, to)
}

/// Whether no clip of a link group shows all of a stretch.
pub open spec fn none_covering(
    children: Seq<TrackChildModel>,
    group: Str,
    from: int,
    to: int,
) -> bool {
    forall|n: int| 0 <= n < children.len() ==> !covers(#[trigger] children[n], group, from, to)
}

/// The first linked clip that shows all of a stretch is the one that is found.
pub proof fn law_first_covering_is_found(
    children: Seq<TrackChildModel>,
    group: Str,
    from: Num,
    to: Num,
)
    requires
        from is Fin,
        to is Fin,
        all_timed(children),
    ensures
        forall|k: int| #[trigger]
            first_covering(children, group, tick(from), tick(to), k) <==> first_where(
                children,
                covering(group, from, to),
                0,
            ) == Some(k),
        none_covering(children, group, tick(from), tick(to)) <==> first_where(
            children,
            covering(group, from, to),
            0,
        ) is None,
{
    let p = covering(group, from, to);
    lemma_first_where(children, p, 0);
    assert forall|n: int| 0 <= n < children.len() implies p(#[trigger] children[n]) == covers(
        children[n],
        group,
        tick(from),
        tick(to),
    ) by {
        assert(timed(children[n]));
        if let TrackChildModel::Clip(c) = children[n] {
            law_linked_clips_are_found(c, group);
        }
    }
    if let Some(i) = first_where(children, p, 0) {
        assert(first_covering(children, group, tick(from), tick(to), i));
        assert forall|k: int| #[trigger]
            first_covering(children, group, tick(from), tick(to), k) implies k == i by {
            if k < i {
                assert(!p(children[k]));
            }
            if i < k {
                assert(!covers(children[i], group, tick(from), tick(to)));
            }
        }
        assert(covers(children[i], group, tick(from), tick(to)));
    }
}

/// Whether a clip has been given another stretch of its source, and nothing else on
/// its track has changed.
pub open spec fn given_range(
    before: Seq<TrackChildModel>,
    after: Seq<TrackChildModel>,
    k: int,
    from: int,
    to: int,
) -> bool {
    &&& same_but_one(after, before, k)
    &&& after[k] is Clip
    &&& same_but_range(after[k]->Clip_0, before[k]->Clip_0)
    &&& after[k]->Clip_0.source_range matches Some(r) && first(r) == from && last(r) == to
}

/// Whether the linked clips on another track have been changed as a trim changes
/// them: the first that showed all that the trimmed clip did now shows what that
/// does.
pub open spec fn trimmed_alike(
    tl: TimelineModel,
    out: TimelineModel,
    group: Str,
    was: TimeRange,
    from: int,
    to: int,
    s: int,
    k: int,
) -> bool {
    &&& !has_row(tl, s) || none_covering(row(tl, s), group, first(was), last(was))
        ==> out.tracks.children[s] == tl.tracks.children[s]
    &&& has_row(tl, s) && first_covering(row(tl, s), group, first(was), last(was), k) ==> has_row(
        out,
        s,
    ) && given_range(row(tl, s), row(out, s), k, from, to)
}

proof fn lemma_retimed(layer: StackChildModel, group: Str, t: Retime, k: int)
    requires
        t.was_start is Fin,
        t.was_end is Fin,
        t.start is Fin,
        t.end is Fin,
        0 <= tick(t.start) <= tick(t.end),
        layer is Track ==> all_timed(layer->Track_0.children),
    ensures
        ({
            let before = layer->Track_0.children;
            let after = retimed_layer(layer, group, t);
            let from = tick(t.was_start);
            let to = tick(t.was_end);
            &&& layer !is Track || none_covering(before, group, from, to) ==> after == layer
            &&& layer is Track && first_covering(before, group, from, to, k) ==> after is Track
                && given_range(
                before,
                after->Track_0.children,
                k,
                tick(t.start),
                tick(t.end),
            )
        }),
{
    if layer is Track {
        let before = layer->Track_0.children;
        law_first_covering_is_found(before, group, t.was_start, t.was_end);
        if first_covering(before, group, tick(t.was_start), tick(t.was_end), k) {
            assert(covers(before[k], group, tick(t.was_start), tick(t.was_end)));
        }
    }
}

/// The time that is asked for, or the one that is there where none is.
pub open spec fn asked(x: Option<Num>, there: int) -> int {
    match x {
        Some(v) => tick(v),
        None => there,
    }
}

/// Whether a time, if any, can be counted and is not before zero.
pub open spec fn usable(x: Option<Num>) -> bool {
    x matches Some(v) ==> v is Fin && 0 <= tick(v)
}

/// Whether all children of a layer last for times that can be counted.
pub open spec fn timed_row(tl: TimelineModel, s: int) -> bool {
    has_row(tl, s) ==> all_timed(row(tl, s))
}

/// A trim is done exactly where the range that is asked for is not turned round,
/// reaches nowhere out of the range that is there, up to a millionth, and differs
/// from it by a millionth at one end at least.  The clip then shows exactly that
/// range, and nothing else about it or on its track has changed.
pub proof fn law_trim_gives_the_range_asked_for(
    tl: TimelineModel,
    index: usize,
    new_start: Option<Num>,
    new_end: Option<Num>,
    loc: ClipLocator,
)
    requires
        has_clip(tl, loc),
        the_clip(tl, loc).source_range is Some,
        plain(the_clip(tl, loc).source_range->0),
        usable(new_start),
        usable(new_end),
    ensures
        ({
            let i = loc.track_index as int;
            let was = the_clip(tl, loc).source_range->0;
            let from = asked(new_start, first(was));
            let to = asked(new_end, last(was));
            &&& trimmed_clip(tl, index, new_start, new_end, Some(loc)) is Ok <==> {
                &&& first(was) - millionth() <= from <= to <= last(was) + millionth()
                &&& from <= first(was) - millionth() || first(was) + millionth() <= from || to
                    <= last(was) - millionth() || last(was) + millionth() <= to
            }
            &&& trimmed_clip(tl, index, new_start, new_end, Some(loc)) matches Ok((out, _))
                ==> has_row(out, i) && given_range(
                row(tl, i),
                row(out, i),
                loc.child_index as int,
                from,
                to,
            )
        }),
{
    law_a_place_is_found(tl, loc);
    let i = loc.track_index as int;
    if let Ok((out, _)) = trimmed_clip(tl, index, new_start, new_end, Some(loc)) {
        assert(row(out, i) =~= row(tl, i).update(
            loc.child_index as int,
            row(out, i)[loc.child_index as int],
        ));
    }
}

/// The clips that are linked to a trimmed one are trimmed alike: on every other
/// track, the first of the group that showed all that the clip did shows afterwards
/// exactly what the clip shows.  All other tracks stay.
pub proof fn law_trim_keeps_linked_clips_in_step(
    tl: TimelineModel,
    index: usize,
    new_start: Option<Num>,
    new_end: Option<Num>,
    loc: ClipLocator,
    group: Str,
    s: int,
    k: int,
)
    requires
        has_clip(tl, loc),
        the_clip(tl, loc).source_range is Some,
        plain(the_clip(tl, loc).source_range->0),
        usable(new_start),
        usable(new_end),
        linked(TrackChildModel::Clip(the_clip(tl, loc)), group),
        trimmed_clip(tl, index, new_start, new_end, Some(loc)) is Ok,
        0 <= s < tl.tracks.children.len(),
        s != loc.track_index,
        timed_row(tl, s),
    ensures
        ({
            let out = trimmed_clip(tl, index, new_start, new_end, Some(loc))->Ok_0.0;
            let was = the_clip(tl, loc).source_range->0;
            let now = the_clip(out, loc).source_range->0;
            &&& out.tracks.children.len() == tl.tracks.children.len()
            &&& trimmed_alike(tl, out, group, was, first(now), last(now), s, k)
        }),
{
    law_a_place_is_found(tl, loc);
    law_linked_clips_are_found(the_clip(tl, loc), group);
    law_trim_gives_the_range_asked_for(tl, index, new_start, new_end, loc);
    let was = the_clip(tl, loc).source_range->0;
    let t = Retime {
        was_start: was.start_time.seconds,
        was_end: end_of(was),
        start: match new_start {
            Some(v) => v,
            None => was.start_time.seconds,
        },
        end: match new_end {
            Some(v) => v,
            None => end_of(was),
        },
    };
    let out = trimmed_clip(tl, index, new_start, new_end, Some(loc))->Ok_0.0;
    assert(out.tracks.children[s] == retimed_layer(tl.tracks.children[s], group, t));
    lemma_retimed(tl.tracks.children[s], group, t, k);
}

/// Where the stretch begins that a widened clip is to show.
pub open spec fn widened_from(c: ClipModel, new_start: Option<Num>) -> int {
    most(
        asked(new_start, first(c.source_range->0)),
        match known_media(c) {
            Some(a) => first(a),
            None => 0,
        },
    )
}

/// Where the stretch ends that a widened clip is to show.
pub open spec fn widened_to(c: ClipModel, new_end: Option<Num>) -> int {
    match known_media(c) {
        Some(a) => least(asked(new_end, last(c.source_range->0)), last(a)),
        None => asked(new_end, last(c.source_range->0)),
    }
}

proof fn lemma_widened(c: ClipModel, new_start: Option<Num>, new_end: Option<Num>)
    requires
        c.source_range is Some,
        plain(c.source_range->0),
        known_media(c) matches Some(a) ==> plain(a),
        usable(new_start),
        usable(new_end),
    ensures
        ({
            let was = c.source_range->0;
            let asked_start = or_else(new_start, was.start_time.seconds);
            let asked_end = or_else(new_end, end_of(was));
            let (first_, last_) = media_bounds(c);
            &&& asked_start is Fin && tick(asked_start) == asked(new_start, first(was))
            &&& asked_end is Fin && tick(asked_end) == asked(new_end, last(was))
            &&& asked_start.larger(first_) == Num::Fin(widened_from(c, new_start) as i128)
            &&& tick(asked_start.larger(first_)) == widened_from(c, new_start)
            &&& last_.is_finite() ==> asked_end.smaller(last_) == Num::Fin(
                widened_to(c, new_end) as i128,
            ) && tick(asked_end.smaller(last_)) == widened_to(c, new_end)
            &&& !last_.is_finite() ==> asked_end == Num::Fin(widened_to(c, new_end) as i128)
                && tick(asked_end) == widened_to(c, new_end)
            &&& 0 <= widened_from(c, new_start) <= i128::MAX
            &&& 0 <= widened_to(c, new_end) <= i128::MAX
        }),
{
}

proof fn lemma_untrim_decided(
    tl: TimelineModel,
    index: usize,
    new_start: Option<Num>,
    new_end: Option<Num>,
    loc: ClipLocator,
    c: ClipModel,
)
    requires
        has_clip(tl, loc),
        c.source_range is Some,
        plain(c.source_range->0),
        known_media(c) matches Some(a) ==> plain(a),
        usable(new_start),
        usable(new_end),
    ensures
        ({
            let was = c.source_range->0;
            let from = widened_from(c, new_start);
            let to = widened_to(c, new_end);
            let start = Num::Fin(from as i128);
            let end = Num::Fin(to as i128);
            let wide = with_clip(
                tl,
                loc,
                with_range(c, TimeRange::seconds(start, end.minus(start), was.start_time.rate)),
            );
            let t = Retime { was_start: was.start_time.seconds, was_end: end_of(was), start, end };
            let also = retimed_siblings(wide, loc, link_group_of(c), t, " also untrimmed)"@, index);
            match untrimmed_range(tl, index, new_start, new_end, loc, c, was) {
                Ok((out, _)) => {
                    &&& asked(new_start, first(was)) <= asked(new_end, last(was))
                    &&& asked(new_start, first(was)) <= first(was) + millionth()
                    &&& last(was) - millionth() <= asked(new_end, last(was))
                    &&& from < to
                    &&& also is Ok
                    &&& out == also->Ok_0.0
                },
                Err(_) => {
                    ||| asked(new_start, first(was)) > asked(new_end, last(was))
                    ||| asked(new_start, first(was)) > first(was) + millionth()
                    ||| last(was) - millionth() > asked(new_end, last(was))
                    ||| from >= to
                    ||| also is Err
                },
            }
        }),
{
    lemma_widened(c, new_start, new_end);
}

proof fn lemma_no_siblings_backwards(
    tl: TimelineModel,
    loc: ClipLocator,
    group: Option<Str>,
    t: Retime,
    verb: Str,
    index: usize,
)
    requires
        has_clip(tl, loc),
        t.start is Fin,
        t.end is Fin,
        tick(t.start) <= tick(t.end),
    ensures
        retimed_siblings(tl, loc, group, t, verb, index) matches Ok((out, _))
            && out.tracks.children[loc.track_index as int]
            == tl.tracks.children[loc.track_index as int],
{
}

/// A clip that is widened shows the range that is asked for, as far as its media is
/// known to go; where nothing is known, it begins at zero at the earliest.  It is
/// widened exactly where neither end is asked to move inwards by more than a
/// millionth and something is left.  Nothing else about it or on its track changes.
pub proof fn law_untrim_gives_the_range_asked_for(
    tl: TimelineModel,
    index: usize,
    new_start: Option<Num>,
    new_end: Option<Num>,
    loc: ClipLocator,
)
    requires
        has_clip(tl, loc),
        the_clip(tl, loc).source_range is Some,
        plain(the_clip(tl, loc).source_range->0),
        known_media(the_clip(tl, loc)) matches Some(a) ==> plain(a),
        usable(new_start),
        usable(new_end),
    ensures
        ({
            let i = loc.track_index as int;
            let c = the_clip(tl, loc);
            let was = c.source_range->0;
            let from = widened_from(c, new_start);
            let to = widened_to(c, new_end);
            &&& untrimmed_clip(tl, index, new_start, new_end, Some(loc)) is Ok <==> {
                &&& asked(new_start, first(was)) <= asked(new_end, last(was))
                &&& asked(new_start, first(was)) <= first(was) + millionth()
                &&& last(was) - millionth() <= asked(new_end, last(was))
                &&& from < to
            }
            &&& untrimmed_clip(tl, index, new_start, new_end, Some(loc)) matches Ok((out, _))
                ==> has_row(out, i) && given_range(
                row(tl, i),
                row(out, i),
                loc.child_index as int,
                from,
                to,
            )
        }),
{
    law_a_place_is_found(tl, loc);
    let i = loc.track_index as int;
    let c = the_clip(tl, loc);
    let was = c.source_range->0;
    let from = widened_from(c, new_start);
    let to = widened_to(c, new_end);
    let start = Num::Fin(from as i128);
    let end = Num::Fin(to as i128);
    lemma_widened(c, new_start, new_end);
    lemma_untrim_decided(tl, index, new_start, new_end, loc, c);
    if from < to {
        let wide = with_clip(
            tl,
            loc,
            with_range(c, TimeRange::seconds(start, end.minus(start), was.start_time.rate)),
        );
        let t = Retime { was_start: was.start_time.seconds, was_end: end_of(was), start, end };
        lemma_no_siblings_backwards(wide, loc, link_group_of(c), t, " also untrimmed)"@, index);
    }
    assert(untrimmed_clip(tl, index, new_start, new_end, Some(loc)) == untrimmed_range(
        tl,
        index,
        new_start,
        new_end,
        loc,
        c,
        was,
    ));
}

/// The clips that are linked to one that is widened are widened alike.
pub proof fn law_untrim_keeps_linked_clips_in_step(
    tl: TimelineModel,
    index: usize,
    new_start: Option<Num>,
    new_end: Option<Num>,
    loc: ClipLocator,
    group: Str,
    s: int,
    k: int,
)
    requires
        has_clip(tl, loc),
        the_clip(tl, loc).source_range is Some,
        plain(the_clip(tl, loc).source_range->0),
        known_media(the_clip(tl, loc)) matches Some(a) ==> plain(a),
        usable(new_start),
        usable(new_end),
        linked(TrackChildModel::Clip(the_clip(tl, loc)), group),
        untrimmed_clip(tl, index, new_start, new_end, Some(loc)) is Ok,
        0 <= s < tl.tracks.children.len(),
        s != loc.track_index,
        timed_row(tl, s),
    ensures
        ({
            let out = untrimmed_clip(tl, index, new_start, new_end, Some(loc))->Ok_0.0;
            let was = the_clip(tl, loc).source_range->0;
            let now = the_clip(out, loc).source_range->0;
            &&& out.tracks.children.len() == tl.tracks.children.len()
            &&& trimmed_alike(tl, out, group, was, first(now), last(now), s, k)
        }),
{
    law_a_place_is_found(tl, loc);
    law_linked_clips_are_found(the_clip(tl, loc), group);
    law_untrim_gives_the_range_asked_for(tl, index, new_start, new_end, loc);
    let was = the_clip(tl, loc).source_range->0;
    let out = untrimmed_clip(tl, index, new_start, new_end, Some(loc))->Ok_0.0;
    let now = the_clip(out, loc).source_range->0;
    let t = Retime {
        was_start: was.start_time.seconds,
        was_end: end_of(was),
        start: now.start_time.seconds,
        end: end_of(now),
    };
    assert(out.tracks.children[s] == retimed_layer(tl.tracks.children[s], group, t));
    lemma_retimed(tl.tracks.children[s], group, t, k);
}

// ---- ripple deletes -----------------------------------------------------------------

/// A clip that is deleted with a ripple takes its linked clips along: on every other
/// track, the first of the group that showed all that the clip did is gone, and
/// nothing else is.  All other tracks stay.
pub proof fn law_ripple_delete_takes_linked_clips_along(
    tl: TimelineModel,
    index: usize,
    loc: ClipLocator,
    group: Str,
    s: int,
    k: int,
)
    requires
        has_clip(tl, loc),
        the_clip(tl, loc).source_range is Some,
        plain(the_clip(tl, loc).source_range->0),
        linked(TrackChildModel::Clip(the_clip(tl, loc)), group),
        0 <= s < tl.tracks.children.len(),
        s != loc.track_index,
        timed_row(tl, s),
    ensures
        ({
            let was = the_clip(tl, loc).source_range->0;
            let i = loc.track_index as int;
            match ripple_deleted(tl, index, Some(loc)) {
                Ok((out, _)) => {
                    &&& 0 < long(was)
                    &&& out.tracks.children.len() == tl.tracks.children.len()
                    &&& has_row(out, i)
                    &&& row(out, i) == row(tl, i).remove(loc.child_index as int)
                    &&& !has_row(tl, s) || none_covering(
                        row(tl, s),
                        group,
                        first(was),
                        last(was),
                    ) ==> out.tracks.children[s] == tl.tracks.children[s]
                    &&& has_row(tl, s) && first_covering(
                        row(tl, s),
                        group,
                        first(was),
                        last(was),
                        k,
                    ) ==> has_row(out, s) && row(out, s) == row(tl, s).remove(k)
                },
                Err(_) => long(was) == 0,
            }
        }),
{
    law_a_place_is_found(tl, loc);
    law_linked_clips_are_found(the_clip(tl, loc), group);
    let was = the_clip(tl, loc).source_range->0;
    if let Ok((out, _)) = ripple_deleted(tl, index, Some(loc)) {
        assert(out.tracks.children[s] == closed_layer(tl.tracks.children[s], group, Some(was)));
        if has_row(tl, s) {
            law_first_covering_is_found(
                row(tl, s),
                group,
                was.start_time.seconds,
                end_of(was),
            );
        }
    }
}

} // verus!

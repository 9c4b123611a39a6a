//! What rolls, slides, slips and replacements make of the source ranges of clips.
use vstd::prelude::*;

use crate::adjust::{replaced, rolled, slid, slipped};
use crate::measures::{
    first, has_clip, has_row, last, law_a_place_is_found, millionth, row, the_clip, tick,
};
use crate::model::{ClipLocator, ClipModel, MediaReferenceModel, TimelineModel, TrackChildModel};
use crate::num::Num;
use crate::op::{BetweenPlaces, SourceRange};
use crate::text::{is_blank, Str};
use crate::transition_laws::{known_media, plain_clip};
use crate::trim_laws::given_range;

verus! {

/// Whether a stretch lies in the media of a clip, as far as it is known, up to a
/// millionth, and not before zero.
pub open spec fn in_media(c: ClipModel, from: int, to: int) -> bool {
    &&& 0 <= from
    &&& known_media(c) matches Some(a) ==> first(a) - millionth() <= from && to <= last(a)
        + millionth()
}

/// Whether a time can be added to every time of a clip.
pub open spec fn room_to_move(c: ClipModel, by: int) -> bool {
    &&& plain_clip(c)
    &&& c.source_range matches Some(r) ==> i128::MIN <= first(r) + by && last(r) + by <= i128::MAX
}

/// Whether a time is a millionth or more, one way or the other.
pub open spec fn counts(by: int) -> bool {
    by <= -millionth() || millionth() <= by
}

/// Whether an edit has changed nothing but the children of one track.
pub open spec fn only_row(tl: TimelineModel, out: TimelineModel, i: int) -> bool {
    &&& has_row(tl, i)
    &&& has_row(out, i)
    &&& out.tracks.children.len() == tl.tracks.children.len()
    &&& forall|s: int|
        0 <= s < tl.tracks.children.len() && s != i ==> #[trigger] out.tracks.children[s]
            == tl.tracks.children[s]
    &&& out.tracks.children[i]->Track_0.name == tl.tracks.children[i]->Track_0.name
    &&& out.tracks.children[i]->Track_0.kind == tl.tracks.children[i]->Track_0.kind
    &&& out.tracks.children[i]->Track_0.metadata == tl.tracks.children[i]->Track_0.metadata
    &&& out.name == tl.name
    &&& out.montage == tl.montage
    &&& out.extra == tl.extra
}

/// A clip slips exactly where it has a range, the time is a millionth or more and its media
/// goes far enough.  It then shows what lies in its source later by that time, for as
/// long as before, and nothing else changes.
pub proof fn law_slip_shows_later_source(
    tl: TimelineModel,
    index: usize,
    delta_s: Num,
    loc: ClipLocator,
)
    requires
        has_clip(tl, loc),
        delta_s is Fin,
        room_to_move(the_clip(tl, loc), tick(delta_s)),
    ensures
        ({
            let i = loc.track_index as int;
            let c = the_clip(tl, loc);
            let r = c.source_range->0;
            let by = tick(delta_s);
            &&& slipped(tl, index, delta_s, Some(loc)) is Ok <==> counts(by)
                && c.source_range is Some && in_media(c, first(r) + by, last(r) + by)
            &&& slipped(tl, index, delta_s, Some(loc)) matches Ok((out, _)) ==> only_row(
                tl,
                out,
                i,
            ) && given_range(
                row(tl, i),
                row(out, i),
                loc.child_index as int,
                first(r) + by,
                last(r) + by,
            )
        }),
{
    law_a_place_is_found(tl, loc);
}

/// Whether the cut between two clips can move by a time: both keep more than a
/// millionth, and have the media.
pub open spec fn cut_can_move(a: ClipModel, b: ClipModel, by: int) -> bool {
    &&& a.source_range matches Some(r) && first(r) + millionth() < last(r) + by && in_media(
        a,
        first(r),
        last(r) + by,
    )
    &&& b.source_range matches Some(r) && first(r) + by < last(r) - millionth() && in_media(
        b,
        first(r) + by,
        last(r),
    )
}

/// Whether of two clips of a track the first ends later in its source by a time and
/// the second begins later by as much, and nothing else has changed.
pub open spec fn cut_has_moved(
    before: Seq<TrackChildModel>,
    after: Seq<TrackChildModel>,
    j: int,
    k: int,
    by: int,
) -> bool {
    let a = before[j]->Clip_0.source_range->0;
    let b = before[k]->Clip_0.source_range->0;
    &&& after.len() == before.len()
    &&& forall|n: int|
        0 <= n < before.len() && n != j && n != k ==> #[trigger] after[n] == before[n]
    &&& after[j] matches TrackChildModel::Clip(x) && x == (ClipModel {
        source_range: x.source_range,
        ..before[j]->Clip_0
    }) && (x.source_range matches Some(r) && first(r) == first(a) && last(r) == last(a) + by)
    &&& after[k] matches TrackChildModel::Clip(x) && x == (ClipModel {
        source_range: x.source_range,
        ..before[k]->Clip_0
    }) && (x.source_range matches Some(r) && first(r) == first(b) + by && last(r) == last(b))
}

/// A cut between two clips side by side on one track rolls exactly where both keep a
/// length and have the media.  The first then ends later by the time, the second
/// begins later by it, and nothing else changes.
#[verifier::rlimit(30)]
pub proof fn law_roll_moves_the_cut(
    tl: TimelineModel,
    index: usize,
    delta_s: Num,
    places: BetweenPlaces,
)
    requires
        places.from is Ok,
        places.to is Ok,
        delta_s is Fin,
        has_clip(tl, places.from->Ok_0) ==> room_to_move(
            the_clip(tl, places.from->Ok_0),
            tick(delta_s),
        ),
        has_clip(tl, places.to->Ok_0) ==> room_to_move(
            the_clip(tl, places.to->Ok_0),
            tick(delta_s),
        ),
    ensures
        ({
            let from = places.from->Ok_0;
            let to = places.to->Ok_0;
            let i = from.track_index as int;
            let by = tick(delta_s);
            &&& rolled(tl, index, delta_s, places) is Ok <==> {
                &&& counts(by)
                &&& has_clip(tl, from)
                &&& has_clip(tl, to)
                &&& from.track_index == to.track_index
                &&& to.child_index == from.child_index + 1
                &&& cut_can_move(the_clip(tl, from), the_clip(tl, to), by)
            }
            &&& rolled(tl, index, delta_s, places) matches Ok((out, _)) ==> only_row(tl, out, i)
                && cut_has_moved(
                row(tl, i),
                row(out, i),
                from.child_index as int,
                to.child_index as int,
                by,
            )
        }),
{
    law_a_place_is_found(tl, places.from->Ok_0);
    law_a_place_is_found(tl, places.to->Ok_0);
}

/// A clip slides exactly where it has a range and clips on both sides that can make
/// room: the one in front ends later by the time, the one behind begins later by it,
/// and nothing else changes, not even the clip itself.
pub proof fn law_slide_moves_the_neighbours(
    tl: TimelineModel,
    index: usize,
    delta_s: Num,
    loc: ClipLocator,
)
    requires
        has_clip(tl, loc),
        delta_s is Fin,
        ({
            let t = row(tl, loc.track_index as int);
            let j = loc.child_index as int;
            &&& 0 < j && t[j - 1] is Clip ==> room_to_move(t[j - 1]->Clip_0, tick(delta_s))
            &&& j + 1 < t.len() && t[j + 1] is Clip ==> room_to_move(
                t[j + 1]->Clip_0,
                tick(delta_s),
            )
        }),
    ensures
        ({
            let i = loc.track_index as int;
            let j = loc.child_index as int;
            let t = row(tl, i);
            let by = tick(delta_s);
            &&& slid(tl, index, delta_s, Some(loc)) is Ok <==> {
                &&& counts(by)
                &&& 0 < j
                &&& j + 1 < t.len()
                &&& t[j - 1] is Clip
                &&& t[j + 1] is Clip
                &&& the_clip(tl, loc).source_range is Some
                &&& cut_can_move(t[j - 1]->Clip_0, t[j + 1]->Clip_0, by)
            }
            &&& slid(tl, index, delta_s, Some(loc)) matches Ok((out, _)) ==> only_row(tl, out, i)
                && cut_has_moved(t, row(out, i), j - 1, j + 1, by)
        }),
{
    law_a_place_is_found(tl, loc);
}

/// A clip that is replaced shows the media and the stretch of it that were asked for,
/// at its own rate; it keeps everything else, and so does the timeline.
pub proof fn law_replace_shows_the_new_media(
    tl: TimelineModel,
    index: usize,
    asset: Str,
    q: SourceRange,
    loc: ClipLocator,
)
    requires
        has_clip(tl, loc),
    ensures
        ({
            let i = loc.track_index as int;
            let j = loc.child_index as int;
            let c = the_clip(tl, loc);
            &&& replaced(tl, index, asset, q, Some(loc)) is Ok <==> {
                &&& q.start_s is Fin
                &&& q.end_s is Fin
                &&& 0 <= tick(q.start_s) < tick(q.end_s)
                &&& !is_blank(asset)
            }
            &&& replaced(tl, index, asset, q, Some(loc)) matches Ok((out, _)) ==> {
                let x = the_clip(out, loc);
                &&& only_row(tl, out, i)
                &&& row(out, i) == row(tl, i).update(j, TrackChildModel::Clip(x))
                &&& x.media_reference matches MediaReferenceModel::External(e) && e.target_url
                    == asset && e.available_range is None
                &&& x.source_range matches Some(r) && first(r) == tick(q.start_s) && last(r) == tick(
                    q.end_s,
                ) && (c.source_range matches Some(was) ==> (0 < tick(was.start_time.rate)
                    ==> r.start_time.rate == was.start_time.rate)) && (c.source_range is None
                    ==> tick(r.start_time.rate) == 24_000_000_000_000_000)
                &&& x.name == c.name
                &&& x.effects == c.effects
                &&& x.markers == c.markers
                &&& x.metadata == c.metadata
            }
        }),
{
    law_a_place_is_found(tl, loc);
}

} // verus!

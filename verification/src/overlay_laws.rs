//! What pictures over and in place of others do to the rest.
use vstd::prelude::*;

use crate::carve_laws::{begins_at, lemma_push};
use crate::edit::{child_seconds, clip_at, gap_of, spliced, start_of, track_at, track_time};
use crate::gap::framed;
use crate::model::{ClipLocator, StackChildModel, TimelineModel, TrackChildModel, TrackKind};
use crate::num::{micro, Num};
use crate::op::BRollPosition;
use crate::overlay::{
    broll_clip, broll_inserted, broll_tail, digits_value, max_video_number, next_video_name,
    other_video, overlaid, parsed_u32, pip_clip, pip_inserted, put_in_gap, roomy_track,
    video_number, PipRequest,
};
use crate::text::{decimal, Str};
use crate::time_laws::{begins_near, kept_in_time, lemma_prefix, lemma_shifted, on_clock, ticks};

verus! {

/// Whether all tracks of a timeline begin and end at times that the clock can
/// show.
pub open spec fn runs_on_clock(tl: TimelineModel) -> bool {
    forall|i: int| (#[trigger] track_at(tl, i)) matches Some(t) ==> on_clock(t.children)
}

/// Whether a layer is a track of pictures.
pub open spec fn is_video(tl: TimelineModel, i: int) -> bool {
    track_at(tl, i) matches Some(t) && t.kind == TrackKind::Video
}

// ---- b-roll over a clip -----------------------------------------------------

proof fn lemma_put_in_gap(
    children: Seq<TrackChildModel>,
    clip: TrackChildModel,
    at: Num,
    length: Num,
    rate: Num,
    i: int,
)
    requires
        on_clock(children),
        at is Fin,
        0 <= ticks(at),
        0 <= i,
        put_in_gap(children, clip, at, length, rate, i) is Some,
    ensures
        begins_near(
            put_in_gap(children, clip, at, length, rate, i)->0,
            clip,
            ticks(at),
            ticks(micro()),
        ),
    decreases children.len() - i,
{
    let start = start_of(children, i);
    let end = start.plus(child_seconds(children[i]));
    assert(start is Fin && 0 <= ticks(start));
    if start.minus(micro()).at_most(at) && at.plus(length).at_most(end.plus(micro())) {
        let before = at.minus(start).larger(Num::Fin(0));
        let after = end.minus(at).minus(length).larger(Num::Fin(0));
        let middle = framed(before, clip, after, rate, micro());
        let out = spliced(children, i, i + 1, middle);
        assert(out == put_in_gap(children, clip, at, length, rate, i)->0);
        assert forall|k: int| 0 <= k < i implies child_seconds(#[trigger] out[k]) == child_seconds(
            children[k],
        ) by {}
        lemma_prefix(out, children, i);
        if micro().less(before) {
            assert(middle[0] == gap_of(before, rate) && middle[1] == clip);
            assert(out[i] == gap_of(before, rate));
            assert(out[i + 1] == clip);
            assert(start_of(out, i + 1) == start_of(out, i).plus(child_seconds(out[i])));
            assert(start_of(out, i + 1) == at);
        } else {
            assert(middle[0] == clip);
            assert(out[i] == clip);
        }
    } else {
        lemma_put_in_gap(children, clip, at, length, rate, i + 1);
    }
}

proof fn lemma_overlaid(
    children: Seq<TrackChildModel>,
    clip: TrackChildModel,
    at: Num,
    length: Num,
    rate: Num,
)
    requires
        on_clock(children),
        at is Fin,
        0 <= ticks(at),
        overlaid(children, clip, at, length, rate) is Some,
    ensures
        begins_near(overlaid(children, clip, at, length, rate)->0, clip, ticks(at), ticks(micro())),
{
    let n = children.len() as int;
    let end = start_of(children, n);
    assert(end is Fin && 0 <= ticks(end));
    let out = overlaid(children, clip, at, length, rate)->0;
    if end.at_most(at.plus(micro())) {
        lemma_prefix(out, children, n);
        if end.plus(micro()).less(at) {
            assert(out[n] == gap_of(at.minus(end), rate));
            assert(out[n + 1] == clip);
            assert(start_of(out, n + 1) == start_of(out, n).plus(child_seconds(out[n])));
            assert(start_of(out, n + 1) == at);
        } else {
            assert(out[n] == clip);
        }
    } else {
        lemma_put_in_gap(children, clip, at, length, rate, 0);
    }
}

proof fn lemma_roomy(
    tl: TimelineModel,
    but: int,
    clip: TrackChildModel,
    at: Num,
    length: Num,
    rate: Num,
    i: int,
)
    requires
        0 <= i,
    ensures
        roomy_track(tl, but, clip, at, length, rate, i) matches Some(k) ==> i <= k
            < tl.tracks.children.len() && k != but && is_video(tl, k) && overlaid(
            track_at(tl, k)->0.children,
            clip,
            at,
            length,
            rate,
        ) is Some,
    decreases tl.tracks.children.len() - i,
{
    if i < tl.tracks.children.len() {
        lemma_roomy(tl, but, clip, at, length, rate, i + 1);
    }
}

/// B-roll that is laid over a clip leaves alone the clip's own track, all sound,
/// and all that the timeline holds beside its tracks; only one other track of
/// pictures changes, or a new one is put behind all.
pub proof fn law_broll_over_leaves_what_is_under(
    tl: TimelineModel,
    index: usize,
    asset: Str,
    duration_s: Num,
    loc: ClipLocator,
    ids: Seq<Str>,
)
    requires
        broll_inserted(tl, index, asset, duration_s, BRollPosition::Overlay, Some(loc), ids) is Ok,
    ensures
        ({
            let out = broll_inserted(
                tl,
                index,
                asset,
                duration_s,
                BRollPosition::Overlay,
                Some(loc),
                ids,
            )->Ok_0.0;
            leaves_under(tl, out, loc.track_index as int)
        }),
{
    let i = loc.track_index as int;
    let c = clip_at(tl, loc)->0;
    let rate = c.source_range->0.start_time.rate;
    let over = TrackChildModel::Clip(broll_clip(c.name, asset, duration_s, rate, ids[0]));
    let at = track_time(tl, i, loc.child_index as int);
    lemma_roomy(tl, i, over, at, duration_s, rate, 0);
    let out = broll_inserted(
        tl,
        index,
        asset,
        duration_s,
        BRollPosition::Overlay,
        Some(loc),
        ids,
    )->Ok_0.0;
    let k = match roomy_track(tl, i, over, at, duration_s, rate, 0) {
        Some(k) => k,
        None => tl.tracks.children.len() as int,
    };
    assert(changes_only(tl, out, k));
}

/// Whether two timelines differ in one layer at most, which may be a new one
/// behind all.
pub open spec fn changes_only(tl: TimelineModel, out: TimelineModel, k: int) -> bool {
    &&& out.tracks.children.len() == (if k == tl.tracks.children.len() {
        tl.tracks.children.len() + 1
    } else {
        tl.tracks.children.len()
    })
    &&& forall|m: int|
        0 <= m < tl.tracks.children.len() && m != k ==> #[trigger] out.tracks.children[m]
            == tl.tracks.children[m]
}

/// Whether of all that a timeline holds only one track of pictures, and not the
/// one at `i`, has changed, or a new layer was put behind all.
pub open spec fn leaves_under(tl: TimelineModel, out: TimelineModel, i: int) -> bool {
    &&& out.name == tl.name
    &&& out.montage == tl.montage
    &&& out.extra == tl.extra
    &&& out.tracks.name == tl.tracks.name
    &&& out.tracks.metadata == tl.tracks.metadata
    &&& exists|k: int|
        k != i && (is_video(tl, k) || k == tl.tracks.children.len()) && #[trigger] changes_only(
            tl,
            out,
            k,
        )
}

/// B-roll that is laid over a clip begins when the clip does, to within a
/// millionth of a second.
pub proof fn law_broll_over_begins_with_its_clip(
    tl: TimelineModel,
    index: usize,
    asset: Str,
    duration_s: Num,
    loc: ClipLocator,
    ids: Seq<Str>,
)
    requires
        runs_on_clock(tl),
        broll_inserted(tl, index, asset, duration_s, BRollPosition::Overlay, Some(loc), ids) is Ok,
    ensures
        ({
            let c = clip_at(tl, loc)->0;
            let over = broll_clip(
                c.name,
                asset,
                duration_s,
                c.source_range->0.start_time.rate,
                ids[0],
            );
            let out = broll_inserted(
                tl,
                index,
                asset,
                duration_s,
                BRollPosition::Overlay,
                Some(loc),
                ids,
            )->Ok_0.0;
            exists|k: int|
                k != loc.track_index && (#[trigger] track_at(out, k)) is Some && begins_near(
                    track_at(out, k)->0.children,
                    TrackChildModel::Clip(over),
                    ticks(track_time(tl, loc.track_index as int, loc.child_index as int)),
                    ticks(micro()),
                )
        }),
{
    let i = loc.track_index as int;
    let c = clip_at(tl, loc)->0;
    let rate = c.source_range->0.start_time.rate;
    let over = TrackChildModel::Clip(broll_clip(c.name, asset, duration_s, rate, ids[0]));
    let at = track_time(tl, i, loc.child_index as int);
    let own = track_at(tl, i)->0;
    assert(on_clock(own.children));
    assert(start_of(own.children, loc.child_index as int) is Fin);
    lemma_roomy(tl, i, over, at, duration_s, rate, 0);
    let out = broll_inserted(
        tl,
        index,
        asset,
        duration_s,
        BRollPosition::Overlay,
        Some(loc),
        ids,
    )->Ok_0.0;
    match roomy_track(tl, i, over, at, duration_s, rate, 0) {
        Some(k) => {
            let t = track_at(tl, k)->0;
            lemma_overlaid(t.children, over, at, duration_s, rate);
            assert(track_at(out, k) is Some);
        },
        None => {
            let none = Seq::<TrackChildModel>::empty();
            assert(on_clock(none)) by {
                assert(start_of(none, 0) is Fin);
            }
            lemma_overlaid(none, over, at, duration_s, rate);
            assert(track_at(out, tl.tracks.children.len() as int) is Some);
        },
    }
}

// ---- b-roll in place of a clip ----------------------------------------------

/// B-roll that takes the place of the front of a clip, or of all of it, moves
/// nothing: it begins when the clip did, what is left of the clip follows it, and
/// all others begin when they did.
pub proof fn law_broll_in_place_moves_nothing(
    tl: TimelineModel,
    index: usize,
    asset: Str,
    duration_s: Num,
    loc: ClipLocator,
    ids: Seq<Str>,
    k: int,
)
    requires
        broll_inserted(tl, index, asset, duration_s, BRollPosition::Replace, Some(loc), ids) is Ok,
        on_clock(track_at(tl, loc.track_index as int)->0.children),
        duration_s.at_most(clip_at(tl, loc)->0.source_range->0.duration.seconds),
        0 <= k < track_at(tl, loc.track_index as int)->0.children.len(),
        k != loc.child_index,
    ensures
        ({
            let i = loc.track_index as int;
            let j = loc.child_index as int;
            let c = clip_at(tl, loc)->0;
            let r = c.source_range->0;
            let out = broll_inserted(
                tl,
                index,
                asset,
                duration_s,
                BRollPosition::Replace,
                Some(loc),
                ids,
            )->Ok_0.0;
            let before = track_at(tl, i)->0.children;
            let after = track_at(out, i)->0.children;
            let over = broll_clip(c.name, asset, duration_s, r.start_time.rate, ids[0]);
            &&& kept_in_time(before, after, k)
            &&& begins_at(after, TrackChildModel::Clip(over), ticks(start_of(before, j)))
            &&& duration_s.less(r.duration.seconds) ==> begins_at(
                after,
                TrackChildModel::Clip(broll_tail(c, duration_s, ids[1])),
                ticks(start_of(before, j)) + ticks(duration_s),
            )
        }),
{
    let i = loc.track_index as int;
    let j = loc.child_index as int;
    let c = clip_at(tl, loc)->0;
    let r = c.source_range->0;
    let out = broll_inserted(
        tl,
        index,
        asset,
        duration_s,
        BRollPosition::Replace,
        Some(loc),
        ids,
    )->Ok_0.0;
    let before = track_at(tl, i)->0.children;
    let after = track_at(out, i)->0.children;
    assert(before[j] == TrackChildModel::Clip(c));
    assert(start_of(before, j) is Fin);
    assert(start_of(before, j + 1) is Fin);
    assert(start_of(before, j + 1) == start_of(before, j).plus(child_seconds(before[j])));
    lemma_prefix(after, before, j);
    assert(after[j] == TrackChildModel::Clip(
        broll_clip(c.name, asset, duration_s, r.start_time.rate, ids[0]),
    ));
    assert(start_of(after, j + 1) == start_of(after, j).plus(child_seconds(after[j])));
    if k < j {
        lemma_prefix(after, before, k);
        assert(after[k] == before[k]);
    }
    if duration_s.less(r.duration.seconds) {
        let tail = TrackChildModel::Clip(broll_tail(c, duration_s, ids[1]));
        assert(after[j + 1] == tail);
        assert(start_of(after, j + 2) == start_of(after, j + 1).plus(child_seconds(after[j + 1])));
        assert(start_of(after, j + 2) == start_of(before, j + 1));
        if k > j {
            lemma_shifted(before, after, j + 1, j + 2, k);
            assert(after[k + 1] == before[k]);
        }
    } else {
        assert(start_of(after, j + 1) == start_of(before, j + 1));
        if k > j {
            lemma_shifted(before, after, j + 1, j + 1, k);
            assert(after[k] == before[k]);
        }
    }
}

// ---- a picture in a picture -------------------------------------------------

proof fn lemma_other_video(tl: TimelineModel, but: int, i: int)
    requires
        0 <= i,
    ensures
        other_video(tl, but, i) matches Some(k) ==> i <= k < tl.tracks.children.len() && k != but
            && is_video(tl, k),
    decreases tl.tracks.children.len() - i,
{
    if i < tl.tracks.children.len() {
        lemma_other_video(tl, but, i + 1);
    }
}

/// A picture in a picture leaves alone what is under it.
pub proof fn law_pip_leaves_what_is_under(
    tl: TimelineModel,
    index: usize,
    q: PipRequest,
    loc: ClipLocator,
    id: Str,
)
    requires
        pip_inserted(tl, index, q, Some(loc), id) is Ok,
    ensures
        leaves_under(
            tl,
            pip_inserted(tl, index, q, Some(loc), id)->Ok_0.0,
            loc.track_index as int,
        ),
{
    let i = loc.track_index as int;
    lemma_other_video(tl, i, 0);
    let out = pip_inserted(tl, index, q, Some(loc), id)->Ok_0.0;
    let k = match other_video(tl, i, 0) {
        Some(k) => k,
        None => tl.tracks.children.len() as int,
    };
    assert(changes_only(tl, out, k));
}

/// A picture in a picture begins when the clip under it does, or when the track
/// that it is put on ends, if that is later.
pub proof fn law_pip_begins_with_its_clip(
    tl: TimelineModel,
    index: usize,
    q: PipRequest,
    loc: ClipLocator,
    id: Str,
)
    requires
        runs_on_clock(tl),
        pip_inserted(tl, index, q, Some(loc), id) is Ok,
        forall|i: int|
            (#[trigger] track_at(tl, i)) matches Some(t) ==> ticks(
                start_of(t.children, t.children.len() as int),
            ) + ticks(q.duration_s) <= i128::MAX,
        ticks(track_time(tl, loc.track_index as int, loc.child_index as int)) + ticks(q.duration_s)
            <= i128::MAX,
    ensures
        ({
            let i = loc.track_index as int;
            let c = clip_at(tl, loc)->0;
            let pip = TrackChildModel::Clip(
                pip_clip(c.name, q, c.source_range->0.start_time.rate, id),
            );
            let out = pip_inserted(tl, index, q, Some(loc), id)->Ok_0.0;
            let at = ticks(track_time(tl, i, loc.child_index as int));
            let k = match other_video(tl, i, 0) {
                Some(k) => k,
                None => tl.tracks.children.len() as int,
            };
            let end = match track_at(tl, k) {
                Some(t) => ticks(start_of(t.children, t.children.len() as int)),
                None => 0,
            };
            track_at(out, k) matches Some(t) && begins_at(
                t.children,
                pip,
                if end < at {
                    at
                } else {
                    end
                },
            )
        }),
{
    let i = loc.track_index as int;
    let c = clip_at(tl, loc)->0;
    let rate = c.source_range->0.start_time.rate;
    let pip = TrackChildModel::Clip(pip_clip(c.name, q, rate, id));
    let own = track_at(tl, i)->0;
    assert(on_clock(own.children));
    let at = start_of(own.children, loc.child_index as int);
    assert(at is Fin);
    lemma_other_video(tl, i, 0);
    let children = match other_video(tl, i, 0) {
        Some(k) => track_at(tl, k)->0.children,
        None => Seq::empty(),
    };
    assert(on_clock(children)) by {
        if other_video(tl, i, 0) is None {
            assert(start_of(children, 0) is Fin);
        }
    }
    let end = start_of(children, children.len() as int);
    assert(end is Fin);
    if end.less(at) {
        let gap = gap_of(at.minus(end), rate);
        lemma_push(children, gap);
        lemma_push(children.push(gap), pip);
    } else {
        lemma_push(children, pip);
    }
}

// ---- new tracks ---------------------------------------------------------------

proof fn lemma_max_video_number(layers: Seq<StackChildModel>, n: int, k: int)
    requires
        0 <= k < n <= layers.len(),
    ensures
        video_number(layers[k]) matches Some(v) ==> v <= max_video_number(layers, n),
    decreases n,
{
    if k < n - 1 {
        lemma_max_video_number(layers, n - 1, k);
    }
}

proof fn lemma_digits_of_decimal(v: nat)
    ensures
        digits_value(decimal(v)) == Some(v),
        decimal(v).len() > 0,
        decimal(v)[0] != '+',
    decreases v,
{
    reveal_with_fuel(digits_value, 2);
    if v < 10 {
        assert(decimal(v).drop_last() =~= Seq::empty());
    } else {
        lemma_digits_of_decimal(v / 10);
        assert(decimal(v).drop_last() =~= decimal(v / 10));
    }
}

/// No track has the name that a new track of pictures gets.
pub proof fn law_new_video_name_is_free(tl: TimelineModel, i: int)
    requires
        max_video_number(tl.tracks.children, tl.tracks.children.len() as int) < u32::MAX,
    ensures
        track_at(tl, i) matches Some(t) ==> t.name != next_video_name(tl),
{
    let m = max_video_number(tl.tracks.children, tl.tracks.children.len() as int);
    if track_at(tl, i) is Some && track_at(tl, i)->0.name == next_video_name(tl) {
        let t = track_at(tl, i)->0;
        reveal_strlit("V");
        assert(t.name.skip(1) =~= decimal(m + 1));
        assert(t.name.take(1) =~= "V"@);
        lemma_digits_of_decimal(m + 1);
        assert(parsed_u32(t.name.skip(1)) == Some(m + 1));
        lemma_max_video_number(tl.tracks.children, tl.tracks.children.len() as int, i);
        assert(video_number(tl.tracks.children[i]) == Some(m + 1));
    }
}

} // verus!

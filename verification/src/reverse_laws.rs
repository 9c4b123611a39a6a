//! What an edit in the other direction takes back, and what the last of two edits
//! leaves of the first.
use vstd::prelude::*;

use crate::adjust::{
    cut_moved, end_moved, roll_words, rolled, slid, slide_clips, slide_words, slipped, source_ok,
    start_moved, CutWords,
};
use crate::audio::volume_set;
use crate::clip::{effect_of, end_of, with_range, with_sole_effect};
use crate::edit::{clip_at, clip_in, track_at, track_with_clip, with_clip, with_track};
use crate::effect::speed_set;
use crate::effects::{SPEED, VOLUME};
use crate::error::Refusal;
use crate::laws::law_last_effect_stays;
use crate::meta::{number_meta, put};
use crate::model::{ClipLocator, ClipModel, TimeRange, TimelineModel};
use crate::num::{micro, Num};
use crate::op::BetweenPlaces;
use crate::time_laws::ticks;

verus! {

// ---- places -----------------------------------------------------------------

/// Of two clips that are put at one place one after the other, the second stays.
proof fn lemma_clip_twice(tl: TimelineModel, loc: ClipLocator, a: ClipModel, b: ClipModel)
    requires
        clip_at(tl, loc) is Some,
    ensures
        clip_at(with_clip(tl, loc, a), loc) == Some(a),
        with_clip(with_clip(tl, loc, a), loc, b) == with_clip(tl, loc, b),
{
    let i = loc.track_index as int;
    let twice = with_clip(with_clip(tl, loc, a), loc, b);
    let once = with_clip(tl, loc, b);
    assert(track_at(twice, i)->0.children =~= track_at(once, i)->0.children);
    assert(twice.tracks.children =~= once.tracks.children);
}

/// A clip that is put where it is changes nothing.
proof fn lemma_clip_there(tl: TimelineModel, loc: ClipLocator)
    requires
        clip_at(tl, loc) is Some,
    ensures
        with_clip(tl, loc, clip_at(tl, loc)->0) == tl,
{
    let i = loc.track_index as int;
    let again = with_clip(tl, loc, clip_at(tl, loc)->0);
    assert(track_at(again, i)->0.children =~= track_at(tl, i)->0.children);
    assert(again.tracks.children =~= tl.tracks.children);
}

// ---- effects ----------------------------------------------------------------

/// Of two volumes that a clip gets one after the other, the second stays, as if
/// the first had never been set.
pub proof fn law_last_volume_stays(
    tl: TimelineModel,
    index: usize,
    first: Num,
    later: usize,
    second: Num,
    loc: ClipLocator,
)
    requires
        volume_set(tl, index, first, Some(loc)) is Ok,
    ensures
        volume_set(volume_set(tl, index, first, Some(loc))->Ok_0.0, later, second, Some(loc))
            == volume_set(tl, later, second, Some(loc)),
{
    let c = clip_at(tl, loc)->0;
    let a = effect_of(VOLUME@, put(Seq::empty(), "value"@, number_meta(first)));
    let b = effect_of(VOLUME@, put(Seq::empty(), "value"@, number_meta(second)));
    law_last_effect_stays(c, a, b);
    lemma_clip_twice(tl, loc, with_sole_effect(c, a), with_sole_effect(c, b));
}

/// Of two speeds that a clip gets one after the other, the second stays, as if the
/// first had never been set.
pub proof fn law_last_speed_stays(
    tl: TimelineModel,
    index: usize,
    first: Num,
    later: usize,
    second: Num,
    loc: ClipLocator,
)
    requires
        speed_set(tl, index, first, Some(loc)) is Ok,
    ensures
        speed_set(speed_set(tl, index, first, Some(loc))->Ok_0.0, later, second, Some(loc))
            == speed_set(tl, later, second, Some(loc)),
{
    let c = clip_at(tl, loc)->0;
    let a = effect_of(SPEED@, put(Seq::empty(), "factor"@, number_meta(first)));
    let b = effect_of(SPEED@, put(Seq::empty(), "factor"@, number_meta(second)));
    law_last_effect_stays(c, a, b);
    lemma_clip_twice(tl, loc, with_sole_effect(c, a), with_sole_effect(c, b));
}

// ---- slips --------------------------------------------------------------------

/// Whether a clip shows a stretch of its media that the clock can show, in one
/// rate.
pub open spec fn shows_media(c: ClipModel) -> bool {
    let r = c.source_range->0;
    &&& c.source_range is Some
    &&& end_of(r) is Fin
    &&& r.duration.rate == r.start_time.rate
    &&& source_ok(0, ""@, c, r.start_time.seconds, end_of(r)) is Ok
}

/// A clip that is slipped and slipped back shows what it did.
pub proof fn law_slip_back_undoes_slip(
    tl: TimelineModel,
    index: usize,
    delta_s: Num,
    loc: ClipLocator,
    later: usize,
)
    requires
        slipped(tl, index, delta_s, Some(loc)) is Ok,
        shows_media(clip_at(tl, loc)->0),
        delta_s.negated() is Fin,
        clip_at(slipped(tl, index, delta_s, Some(loc))->Ok_0.0, loc)
            ->0.source_range->0.start_time.seconds is Fin,
    ensures
        slipped(
            slipped(tl, index, delta_s, Some(loc))->Ok_0.0,
            later,
            delta_s.negated(),
            Some(loc),
        ) matches Ok(p) && p.0 == tl,
{
    let c = clip_at(tl, loc)->0;
    let r = c.source_range->0;
    let start = r.start_time.seconds.plus(delta_s);
    let k = with_range(c, TimeRange::seconds(start, r.duration.seconds, r.start_time.rate));
    lemma_clip_twice(tl, loc, k, c);
    lemma_clip_there(tl, loc);
    assert(start.plus(delta_s.negated()) == r.start_time.seconds);
    assert(source_ok(later, "slip_clip"@, k, r.start_time.seconds, end_of(r)) is Ok);
    assert(with_range(
        k,
        TimeRange::seconds(r.start_time.seconds, r.duration.seconds, r.start_time.rate),
    ) == c);
}

// ---- rolls and slides -----------------------------------------------------------

/// Whether a clip lasts longer than a millionth.
pub open spec fn lasts(c: ClipModel) -> bool {
    micro().less(c.source_range->0.duration.seconds)
}

/// A cut that is moved and moved back.
proof fn lemma_cut_back(
    index: usize,
    left: ClipModel,
    right: ClipModel,
    delta: Num,
    later: usize,
    w: CutWords,
)
    requires
        cut_moved(index, left, right, delta, w) is Ok,
        shows_media(left),
        shows_media(right),
        lasts(left),
        lasts(right),
        delta is Fin,
        delta.negated() is Fin,
        end_of(left.source_range->0).plus(delta) is Fin,
        end_moved(left, delta).source_range->0.duration.seconds is Fin,
        right.source_range->0.start_time.seconds.plus(delta) is Fin,
        start_moved(right, delta).source_range->0.duration.seconds is Fin,
    ensures
        cut_moved(
            later,
            end_moved(left, delta),
            start_moved(right, delta),
            delta.negated(),
            w,
        ) == Ok::<(ClipModel, ClipModel), Refusal>((left, right)),
{
    let a = left.source_range->0;
    let b = right.source_range->0;
    let l = end_moved(left, delta);
    let r = start_moved(right, delta);
    let back = delta.negated();
    assert(end_of(l.source_range->0) == end_of(a).plus(delta));
    assert(end_of(l.source_range->0).plus(back) == end_of(a));
    assert(r.source_range->0.start_time.seconds.plus(back) == b.start_time.seconds);
    assert(end_of(r.source_range->0) == end_of(b));
    assert(source_ok(later, w.left_label@, l, a.start_time.seconds, end_of(a)) is Ok);
    assert(source_ok(later, w.right_label@, r, b.start_time.seconds, end_of(b)) is Ok);
    assert(end_moved(l, back) == left);
    assert(start_moved(r, back) == right);
}

/// Whether moving the cut between two clips there and back keeps all times on the
/// clock.
pub open spec fn counts_through(left: ClipModel, right: ClipModel, delta: Num) -> bool {
    &&& delta.negated() is Fin
    &&& end_of(left.source_range->0) is Fin
    &&& end_of(left.source_range->0).plus(delta) is Fin
    &&& end_moved(left, delta).source_range->0.duration.seconds is Fin
    &&& end_of(right.source_range->0) is Fin
    &&& right.source_range->0.start_time.seconds.plus(delta) is Fin
    &&& start_moved(right, delta).source_range->0.duration.seconds is Fin
}

/// Whether moving the cut between two clips that show media keeps all times on
/// the clock.
pub open spec fn moves_on_clock(left: ClipModel, right: ClipModel, delta: Num) -> bool {
    &&& shows_media(left)
    &&& shows_media(right)
    &&& lasts(left)
    &&& lasts(right)
    &&& counts_through(left, right, delta)
}

/// Whether a clip differs from another in its range at most, and shows the same
/// stretch.
pub open spec fn shows_same(c: ClipModel, k: ClipModel) -> bool {
    let r = c.source_range->0;
    let s = k.source_range->0;
    &&& k == with_range(c, s)
    &&& s.start_time.seconds == r.start_time.seconds
    &&& s.duration.seconds == r.duration.seconds
}

/// A roll changes the ranges of the two clips at the cut and nothing else: the clip
/// in front keeps its start, the one behind keeps its end, and together they last
/// as long as before.
pub proof fn law_roll_keeps_outer_edges(
    tl: TimelineModel,
    index: usize,
    delta_s: Num,
    places: BetweenPlaces,
)
    requires
        rolled(tl, index, delta_s, places) is Ok,
        counts_through(
            clip_at(tl, places.from->Ok_0)->0,
            clip_at(tl, places.to->Ok_0)->0,
            delta_s,
        ),
    ensures
        ({
            let from = places.from->Ok_0;
            let to = places.to->Ok_0;
            let out = rolled(tl, index, delta_s, places)->Ok_0.0;
            let left = clip_at(tl, from)->0;
            let right = clip_at(tl, to)->0;
            let l = clip_at(out, from)->0;
            let r = clip_at(out, to)->0;
            let a = left.source_range->0;
            let b = right.source_range->0;
            let x = l.source_range->0;
            let y = r.source_range->0;
            &&& out == with_clip(with_clip(tl, from, l), to, r)
            &&& l == with_range(left, x)
            &&& r == with_range(right, y)
            &&& x.start_time.seconds == a.start_time.seconds
            &&& end_of(y) == end_of(b)
            &&& ticks(x.duration.seconds) + ticks(y.duration.seconds) == ticks(a.duration.seconds)
                + ticks(b.duration.seconds)
        }),
{
    let from = places.from->Ok_0;
    let to = places.to->Ok_0;
    let left = clip_at(tl, from)->0;
    let right = clip_at(tl, to)->0;
    let l = end_moved(left, delta_s);
    let r = start_moved(right, delta_s);
    let out = with_clip(with_clip(tl, from, l), to, r);
    assert(rolled(tl, index, delta_s, places)->Ok_0.0 == out);
    assert(clip_at(out, from) == Some(l));
    assert(clip_at(out, to) == Some(r));
}

/// A cut that is rolled, and rolled back by as much, is where it was: both clips
/// show what they did, and nothing else has changed.
#[verifier::rlimit(30)]
pub proof fn law_roll_there_and_back(
    tl: TimelineModel,
    index: usize,
    delta_s: Num,
    places: BetweenPlaces,
    later: usize,
)
    requires
        rolled(tl, index, delta_s, places) is Ok,
        rolled(
            rolled(tl, index, delta_s, places)->Ok_0.0,
            later,
            delta_s.negated(),
            places,
        ) is Ok,
        counts_through(
            clip_at(tl, places.from->Ok_0)->0,
            clip_at(tl, places.to->Ok_0)->0,
            delta_s,
        ),
    ensures
        ({
            let from = places.from->Ok_0;
            let to = places.to->Ok_0;
            let out = rolled(tl, index, delta_s, places)->Ok_0.0;
            let back = rolled(out, later, delta_s.negated(), places)->Ok_0.0;
            let l = clip_at(back, from)->0;
            let r = clip_at(back, to)->0;
            &&& back == with_clip(with_clip(tl, from, l), to, r)
            &&& shows_same(clip_at(tl, from)->0, l)
            &&& shows_same(clip_at(tl, to)->0, r)
        }),
{
    let from = places.from->Ok_0;
    let to = places.to->Ok_0;
    let left = clip_at(tl, from)->0;
    let right = clip_at(tl, to)->0;
    let l = end_moved(left, delta_s);
    let r = start_moved(right, delta_s);
    let out = with_clip(with_clip(tl, from, l), to, r);
    assert(rolled(tl, index, delta_s, places)->Ok_0.0 == out);
    assert(clip_at(out, from) == Some(l));
    assert(clip_at(out, to) == Some(r));
    let minus = delta_s.negated();
    let l2 = end_moved(l, minus);
    let r2 = start_moved(r, minus);
    let back = with_clip(with_clip(out, from, l2), to, r2);
    assert(rolled(out, later, minus, places)->Ok_0.0 == back);
    let i = from.track_index as int;
    let direct = with_clip(with_clip(tl, from, l2), to, r2);
    assert(track_at(back, i)->0.children =~= track_at(direct, i)->0.children);
    assert(back.tracks.children =~= direct.tracks.children);
    assert(clip_at(back, from) == Some(l2));
    assert(clip_at(back, to) == Some(r2));
    assert(end_of(l.source_range->0).plus(minus) == end_of(left.source_range->0));
    assert(r.source_range->0.start_time.seconds.plus(minus)
        == right.source_range->0.start_time.seconds);
    assert(end_of(r.source_range->0) == end_of(right.source_range->0));
}

/// A cut that is rolled and rolled back is where it was.
pub proof fn law_roll_back_undoes_roll(
    tl: TimelineModel,
    index: usize,
    delta_s: Num,
    places: BetweenPlaces,
    later: usize,
)
    requires
        rolled(tl, index, delta_s, places) is Ok,
        moves_on_clock(
            clip_at(tl, places.from->Ok_0)->0,
            clip_at(tl, places.to->Ok_0)->0,
            delta_s,
        ),
    ensures
        rolled(rolled(tl, index, delta_s, places)->Ok_0.0, later, delta_s.negated(), places)
            matches Ok(p) && p.0 == tl,
{
    let from = places.from->Ok_0;
    let to = places.to->Ok_0;
    let left = clip_at(tl, from)->0;
    let right = clip_at(tl, to)->0;
    let l = end_moved(left, delta_s);
    let r = start_moved(right, delta_s);
    lemma_cut_back(index, left, right, delta_s, later, roll_words());
    let out = with_clip(with_clip(tl, from, l), to, r);
    assert(rolled(tl, index, delta_s, places)->Ok_0.0 == out);
    assert(clip_at(out, from) == Some(l));
    assert(clip_at(out, to) == Some(r));
    let back = with_clip(with_clip(out, from, left), to, right);
    let i = from.track_index as int;
    assert(track_at(back, i)->0.children =~= track_at(tl, i)->0.children);
    assert(back.tracks.children =~= tl.tracks.children);
    assert(rolled(out, later, delta_s.negated(), places)->Ok_0.0 == back);
}

/// A clip that is slid and slid back is where it was.
pub proof fn law_slide_back_undoes_slide(
    tl: TimelineModel,
    index: usize,
    delta_s: Num,
    loc: ClipLocator,
    later: usize,
)
    requires
        slid(tl, index, delta_s, Some(loc)) is Ok,
        ({
            let (_, _, p, _, n) = slide_clips(tl, index, Some(loc))->Ok_0;
            moves_on_clock(p, n, delta_s)
        }),
    ensures
        slid(slid(tl, index, delta_s, Some(loc))->Ok_0.0, later, delta_s.negated(), Some(loc))
            matches Ok(q) && q.0 == tl,
{
    let (_, t, p, c, n) = slide_clips(tl, index, Some(loc))->Ok_0;
    let i = loc.track_index as int;
    let j = loc.child_index as int;
    let l = end_moved(p, delta_s);
    let r = start_moved(n, delta_s);
    lemma_cut_back(index, p, n, delta_s, later, slide_words());
    let moved = track_with_clip(track_with_clip(t, j - 1, l), j + 1, r);
    let out = with_track(tl, i, moved);
    assert(slid(tl, index, delta_s, Some(loc))->Ok_0.0 == out);
    assert(clip_in(moved, j - 1) == Some(l));
    assert(clip_in(moved, j) == Some(c));
    assert(clip_in(moved, j + 1) == Some(r));
    let back = track_with_clip(track_with_clip(moved, j - 1, p), j + 1, n);
    assert(back.children =~= t.children);
    assert(with_track(out, i, back).tracks.children =~= tl.tracks.children);
}

} // verus!

//! What one edit undoes of another, and what a second edit leaves alone.
use vstd::prelude::*;

use crate::audio::{clip_muted, override_of, put_opt, text_opt};
use crate::clip::{
    end_of, first_where, lemma_first_where, link_group_of, other_effect, with_range, without_effect,
};
use crate::edit::{
    child_seconds, clip_at, clip_in, empty_track, lemma_track_named, track_at, track_named,
    track_named_from, with_children, with_clip, with_layers,
};
use crate::effect::{lut_applied, lut_removed};
use crate::effects::LUT;
use crate::error::AnchorMiss;
use crate::laws::{
    law_effect_is_sole, law_put_then_lookup, law_remove_then_lookup, lemma_filter_all,
};
use crate::lut::LutFile;
use crate::marker::{child_covering, deleted_marker, marked, named_marker, track_covering};
use crate::meta::{lookup, number_meta, put, without, Meta, Pairs};
use crate::model::{
    opt, ClipLocator, ClipModel, StackChildModel, TimeRange, TimelineModel, TrackChildModel,
    TrackKind,
};
use crate::num::{micro, ones, zero, Num};
use crate::op::{BetweenPlaces, InsertTrackKind, MarkerSelector, TransitionVerdict};
use crate::text::{trimmed, Str};
use crate::title::{
    animation_word, changed_title, position_word, title_effect, title_pairs, unless_blank,
    weight_word, TitleChange,
};
use crate::tracks::{
    asked_kind, behind_last, deleted_track, inserted_track, last_group, new_track_place, tail_cut,
    trimmed_tail, up_to_kind,
};
use crate::transition::{deleted_transition, inserted_transition, steps_apart, TransitionRequest};
use crate::trim::{media_bounds, or_else, retimed_siblings, trimmed_clip, untrimmed_clip, Retime};

verus! {

/// A transition that is deleted again leaves the timeline as it was.
pub proof fn law_delete_undoes_transition(
    tl: TimelineModel,
    index: usize,
    q: TransitionRequest,
    v: TransitionVerdict,
    places: BetweenPlaces,
    later: usize,
    then: BetweenPlaces,
)
    requires
        inserted_transition(tl, index, q, v, places) is Ok,
        steps_apart(places.from->Ok_0, places.to->Ok_0, 1),
        then.from == places.from,
        then.to is Ok,
        then.to->Ok_0.track_index == places.to->Ok_0.track_index,
        then.to->Ok_0.child_index == places.to->Ok_0.child_index + 1,
    ensures
        deleted_transition(inserted_transition(tl, index, q, v, places)->Ok_0.0, later, then)
            matches Ok(p) && p.0 == tl,
{
    let out = inserted_transition(tl, index, q, v, places)->Ok_0.0;
    let i = places.from->Ok_0.track_index as int;
    let j = places.from->Ok_0.child_index as int;
    let t = track_at(tl, i)->0;
    let after = track_at(out, i)->0;
    assert(after.children.remove(j + 1) =~= t.children);
    assert(with_children(after, t.children) == t);
    let p = deleted_transition(out, later, then)->Ok_0;
    assert(p.0.tracks.children =~= tl.tracks.children);
}

proof fn lemma_siblings_elsewhere(
    tl: TimelineModel,
    loc: ClipLocator,
    group: Option<Str>,
    t: Retime,
    verb: Str,
    index: usize,
)
    ensures
        retimed_siblings(tl, loc, group, t, verb, index) matches Ok(p) ==> clip_at(p.0, loc)
            == clip_at(tl, loc),
        !t.end.less(t.start) ==> retimed_siblings(tl, loc, group, t, verb, index) is Ok,
{
}

proof fn lemma_trimmed(
    tl: TimelineModel,
    index: usize,
    new_start: Option<Num>,
    new_end: Option<Num>,
    loc: ClipLocator,
)
    requires
        trimmed_clip(tl, index, new_start, new_end, Some(loc)) is Ok,
    ensures
        ({
            let c = clip_at(tl, loc)->0;
            let r = c.source_range->0;
            let start = or_else(new_start, r.start_time.seconds);
            let end = or_else(new_end, end_of(r));
            let out = trimmed_clip(tl, index, new_start, new_end, Some(loc))->Ok_0.0;
            &&& clip_at(tl, loc) is Some
            &&& c.source_range is Some
            &&& !end.less(start)
            &&& !end_of(r).plus(micro()).less(end)
            &&& !start.less(r.start_time.seconds.minus(micro()))
            &&& clip_at(out, loc) == Some(
                with_range(
                    c,
                    TimeRange::seconds(start, end.minus(start), r.start_time.rate),
                ),
            )
        }),
{
    let c = clip_at(tl, loc)->0;
    let r = c.source_range->0;
    let start = or_else(new_start, r.start_time.seconds);
    let end = or_else(new_end, end_of(r));
    lemma_siblings_elsewhere(
        with_clip(
            tl,
            loc,
            with_range(c, TimeRange::seconds(start, end.minus(start), r.start_time.rate)),
        ),
        loc,
        link_group_of(c),
        Retime { was_start: r.start_time.seconds, was_end: end_of(r), start, end },
        " also trimmed)"@,
        index,
    );
}

/// A trim that is taken back leaves the clip as it was.
#[verifier::rlimit(30)]
pub proof fn law_untrim_undoes_trim(
    tl: TimelineModel,
    index: usize,
    new_start: Option<Num>,
    new_end: Option<Num>,
    loc: ClipLocator,
    later: usize,
)
    requires
        trimmed_clip(tl, index, new_start, new_end, Some(loc)) is Ok,
        end_of(
            clip_at(
                trimmed_clip(tl, index, new_start, new_end, Some(loc))->Ok_0.0,
                loc,
            )->0.source_range->0,
        ) is Fin,
        ({
            let c = clip_at(tl, loc)->0;
            let r = c.source_range->0;
            &&& end_of(r) is Fin
            &&& zero().less(r.duration.seconds)
            &&& r.duration.rate == r.start_time.rate
            &&& media_bounds(c).0.at_most(r.start_time.seconds)
            &&& end_of(r).at_most(media_bounds(c).1)
        }),
    ensures
        ({
            let r = clip_at(tl, loc)->0.source_range->0;
            let trimmed = trimmed_clip(tl, index, new_start, new_end, Some(loc))->Ok_0.0;
            untrimmed_clip(
                trimmed,
                later,
                Some(r.start_time.seconds),
                Some(end_of(r)),
                Some(loc),
            ) matches Ok(p) && clip_at(p.0, loc) == clip_at(tl, loc)
        }),
{
    lemma_trimmed(tl, index, new_start, new_end, loc);
    let c = clip_at(tl, loc)->0;
    let r = c.source_range->0;
    let out = trimmed_clip(tl, index, new_start, new_end, Some(loc))->Ok_0.0;
    let k = clip_at(out, loc)->0;
    let now = k.source_range->0;
    let back = TimeRange::seconds(
        r.start_time.seconds,
        end_of(r).minus(r.start_time.seconds),
        now.start_time.rate,
    );
    assert(r.start_time.seconds is Fin);
    assert(r.duration.seconds is Fin);
    assert(now.start_time.seconds is Fin);
    assert(back == r);
    assert(with_range(k, back) == c);
    assert(media_bounds(k) == media_bounds(c));
    lemma_siblings_elsewhere(
        with_clip(out, loc, with_range(k, back)),
        loc,
        link_group_of(k),
        Retime {
            was_start: now.start_time.seconds,
            was_end: end_of(now),
            start: r.start_time.seconds,
            end: end_of(r),
        },
        " also untrimmed)"@,
        later,
    );
}

/// Untrimming widens: a clip whose range lies within its media shows no less of
/// it than before.
#[verifier::rlimit(30)]
pub proof fn law_untrim_only_widens(
    tl: TimelineModel,
    index: usize,
    new_start: Option<Num>,
    new_end: Option<Num>,
    loc: ClipLocator,
)
    requires
        untrimmed_clip(tl, index, new_start, new_end, Some(loc)) is Ok,
        ({
            let c = clip_at(tl, loc)->0;
            let r = c.source_range->0;
            &&& media_bounds(c).0.at_most(r.start_time.seconds)
            &&& end_of(r).at_most(media_bounds(c).1)
        }),
        end_of(
            clip_at(
                untrimmed_clip(tl, index, new_start, new_end, Some(loc))->Ok_0.0,
                loc,
            )->0.source_range->0,
        ) is Fin,
    ensures
        ({
            let r = clip_at(tl, loc)->0.source_range->0;
            let out = untrimmed_clip(tl, index, new_start, new_end, Some(loc))->Ok_0.0;
            let now = clip_at(out, loc)->0.source_range->0;
            &&& now.start_time.seconds.at_most(r.start_time.seconds.plus(micro()))
            &&& end_of(r).minus(micro()).at_most(end_of(now))
        }),
{
    let c = clip_at(tl, loc)->0;
    let r = c.source_range->0;
    let (first, last) = media_bounds(c);
    let start = or_else(new_start, r.start_time.seconds).larger(first);
    let asked_end = or_else(new_end, end_of(r));
    let end = if last.is_finite() {
        asked_end.smaller(last)
    } else {
        asked_end
    };
    let wider = with_range(c, TimeRange::seconds(start, end.minus(start), r.start_time.rate));
    lemma_siblings_elsewhere(
        with_clip(tl, loc, wider),
        loc,
        link_group_of(c),
        Retime { was_start: r.start_time.seconds, was_end: end_of(r), start, end },
        " also untrimmed)"@,
        index,
    );
    let out = untrimmed_clip(tl, index, new_start, new_end, Some(loc))->Ok_0.0;
    assert(clip_at(out, loc) == Some(wider));
}

proof fn lemma_behind_last(layers: Seq<StackChildModel>, kind: TrackKind, n: int)
    requires
        n <= layers.len(),
    ensures
        0 <= behind_last(layers, kind, n, layers.len() as int) <= layers.len(),
    decreases n,
{
    if n > 0 {
        lemma_behind_last(layers, kind, n - 1);
    }
}

proof fn lemma_up_to_kind(layers: Seq<StackChildModel>, kind: TrackKind, k: nat, i: int)
    requires
        0 <= i,
    ensures
        up_to_kind(layers, kind, k, i) <= layers.len(),
    decreases layers.len() - i,
{
    if i < layers.len() {
        lemma_up_to_kind(layers, kind, k, i + 1);
    }
}

/// A track that is there is not made again.
pub proof fn law_track_is_made_once(
    tl: TimelineModel,
    index: usize,
    name: Str,
    kind: InsertTrackKind,
    at_position: Option<usize>,
    later: usize,
    then_at: Option<usize>,
)
    requires
        inserted_track(tl, index, name, kind, at_position) is Ok,
    ensures
        inserted_track(
            inserted_track(tl, index, name, kind, at_position)->Ok_0.0,
            later,
            name,
            kind,
            then_at,
        ) matches Ok(p) && p.0 == inserted_track(tl, index, name, kind, at_position)->Ok_0.0,
{
    let name = trimmed(name);
    let kind = asked_kind(name, kind);
    if track_named(tl, name) is None {
        lemma_made_at(tl, name, kind, at_position);
    }
}

proof fn lemma_made_at(tl: TimelineModel, name: Str, kind: TrackKind, at_position: Option<usize>)
    requires
        track_named(tl, name) is None,
    ensures
        ({
            let layers = tl.tracks.children;
            let at = new_track_place(layers, kind, at_position);
            let made = layers.insert(at, StackChildModel::Track(empty_track(name, kind)));
            0 <= at <= layers.len() && track_named(with_layers(tl, made), name) == Some(at)
        }),
{
    let layers = tl.tracks.children;
    let at = new_track_place(layers, kind, at_position);
    match at_position {
        Some(k) => {
            lemma_up_to_kind(layers, kind, k as nat, 0);
            lemma_behind_last(layers, kind, up_to_kind(layers, kind, k as nat, 0));
        },
        None => {
            lemma_behind_last(layers, kind, layers.len() as int);
        },
    }
    let made = layers.insert(at, StackChildModel::Track(empty_track(name, kind)));
    lemma_named_at_last(tl, with_layers(tl, made), name, at, 0);
}

/// A track that is made and deleted again leaves the timeline as it was.
pub proof fn law_delete_undoes_track(
    tl: TimelineModel,
    index: usize,
    name: Str,
    kind: InsertTrackKind,
    at_position: Option<usize>,
    later: usize,
    force: bool,
)
    requires
        inserted_track(tl, index, name, kind, at_position) is Ok,
        track_named(tl, trimmed(name)) is None,
    ensures
        deleted_track(
            inserted_track(tl, index, name, kind, at_position)->Ok_0.0,
            later,
            name,
            force,
        ) matches Ok(p) && p.0 == tl,
{
    let out = inserted_track(tl, index, name, kind, at_position)->Ok_0.0;
    let kind = asked_kind(trimmed(name), kind);
    lemma_made_at(tl, trimmed(name), kind, at_position);
    let at = new_track_place(tl.tracks.children, kind, at_position);
    assert(out.tracks.children.remove(at) =~= tl.tracks.children);
}

proof fn lemma_named_at_last(tl: TimelineModel, out: TimelineModel, name: Str, at: int, k: int)
    requires
        0 <= k <= at <= tl.tracks.children.len(),
        track_named_from(tl, name, k) is None,
        out.tracks.children.len() == tl.tracks.children.len() + 1,
        forall|i: int| 0 <= i < at ==> #[trigger] out.tracks.children[i] == tl.tracks.children[i],
        track_at(out, at) matches Some(t) && t.name == name,
    ensures
        track_named_from(out, name, k) == Some(at),
    decreases at - k,
{
    if k < at {
        assert(out.tracks.children[k] == tl.tracks.children[k]);
        lemma_named_at_last(tl, out, name, at, k + 1);
    }
}

/// What is left without the empty time at the end.
pub proof fn lemma_tail_cut(children: Seq<TrackChildModel>, count: nat, total: Num)
    ensures
        ({
            let cut = tail_cut(children, count, total);
            let n = cut.children.len() as int;
            &&& n <= children.len()
            &&& cut.children == children.take(n)
            &&& cut.count == count + children.len() - n
            &&& forall|k: int| n <= k < children.len() ==> (#[trigger] children[k]) is Gap
            &&& n > 0 ==> !(cut.children.last() is Gap)
            &&& last_group(cut.children, n) == last_group(children, children.len() as int)
        }),
    decreases children.len(),
{
    let len = children.len() as int;
    if len > 0 && children.last() is Gap {
        let less = children.drop_last();
        lemma_tail_cut(less, count + 1, total.plus(child_seconds(children.last())));
        lemma_same_group(less, children, len - 1);
        let n = tail_cut(children, count, total).children.len() as int;
        assert(less.take(n) =~= children.take(n));
        assert forall|k: int| n <= k < len implies (#[trigger] children[k]) is Gap by {
            if k < len - 1 {
                assert(less[k] is Gap);
            }
        }
    } else {
        assert(children.take(len) =~= children);
    }
}

proof fn lemma_same_group(a: Seq<TrackChildModel>, b: Seq<TrackChildModel>, n: int)
    requires
        n <= a.len(),
        n <= b.len(),
        forall|k: int| 0 <= k < n ==> #[trigger] a[k] == b[k],
    ensures
        last_group(a, n) == last_group(b, n),
    decreases n,
{
    if n > 0 {
        lemma_same_group(a, b, n - 1);
    }
}

proof fn lemma_same_tracks(a: TimelineModel, b: TimelineModel, name: Str, at: int)
    requires
        a.tracks.children.len() == b.tracks.children.len(),
        forall|i: int|
            0 <= i < a.tracks.children.len() ==> match ((#[trigger] track_at(a, i)), track_at(b, i)) {
                (Some(s), Some(t)) => s.name == t.name,
                (None, None) => true,
                _ => false,
            },
        0 <= at,
    ensures
        track_named_from(a, name, at) == track_named_from(b, name, at),
    decreases a.tracks.children.len() - at,
{
    if at < a.tracks.children.len() {
        assert(track_at(a, at) is Some == track_at(b, at) is Some);
        lemma_same_tracks(a, b, name, at + 1);
    }
}

/// A track whose tail was trimmed ends in no empty time; nothing but empty time
/// was taken off its end.
pub proof fn law_trimmed_tail_ends_in_no_gap(tl: TimelineModel, index: usize, name: Str)
    requires
        trimmed_tail(tl, index, name) is Ok,
    ensures
        ({
            let i = track_named(tl, name)->0;
            let was = track_at(tl, i)->0.children;
            let now = track_at(trimmed_tail(tl, index, name)->Ok_0.0, i)->0.children;
            &&& track_named(tl, name) is Some
            &&& track_at(trimmed_tail(tl, index, name)->Ok_0.0, i) is Some
            &&& now.len() > 0 ==> !(now.last() is Gap)
            &&& now.is_prefix_of(was)
            &&& forall|k: int| now.len() <= k < was.len() ==> (#[trigger] was[k]) is Gap
        }),
{
    let i = track_named(tl, name)->0;
    lemma_track_named(tl, name, 0);
    lemma_tail_cut(track_at(tl, i)->0.children, 0, zero());
}

/// A tail that was trimmed is not trimmed again.
pub proof fn law_tail_is_trimmed_once(tl: TimelineModel, index: usize, name: Str, later: usize)
    requires
        trimmed_tail(tl, index, name) is Ok,
    ensures
        trimmed_tail(trimmed_tail(tl, index, name)->Ok_0.0, later, name) matches Ok(p) && p.0
            == trimmed_tail(tl, index, name)->Ok_0.0,
{
    let out = trimmed_tail(tl, index, name)->Ok_0.0;
    let i = track_named(tl, name)->0;
    lemma_track_named(tl, name, 0);
    let was = track_at(tl, i)->0.children;
    lemma_tail_cut(was, 0, zero());
    let now = tail_cut(was, 0, zero()).children;
    assert(track_at(out, i)->0.children == now);
    lemma_same_tracks(tl, out, name, 0);
    assert(tail_cut(now, 0, zero()).children == now);
    let again = trimmed_tail(out, later, name)->Ok_0.0;
    assert forall|m: int| 0 <= m < out.tracks.children.len() implies #[trigger] again.tracks.children[m]
        == out.tracks.children[m] by {
        if track_at(tl, m) is Some {
            lemma_tail_cut(track_at(tl, m)->0.children, 0, zero());
        }
        assert(out.tracks.children[m] is Track == tl.tracks.children[m] is Track);
    }
    assert(again.tracks.children =~= out.tracks.children);
}

/// A colour table that is taken off again leaves the timeline as it was, where the
/// clip had none before.
pub proof fn law_remove_undoes_lut(
    tl: TimelineModel,
    index: usize,
    lut_path: Str,
    interpolation: Option<Str>,
    strength: Option<Num>,
    found: LutFile,
    loc: ClipLocator,
    later: usize,
)
    requires
        lut_applied(tl, index, lut_path, interpolation, strength, found, Some(loc)) is Ok,
        forall|i: int|
            0 <= i < clip_at(tl, loc)->0.effects.len() ==> (#[trigger] clip_at(
                tl,
                loc,
            )->0.effects[i]).effect_name != LUT@,
    ensures
        lut_removed(
            lut_applied(tl, index, lut_path, interpolation, strength, found, Some(loc))->Ok_0.0,
            later,
            Some(loc),
        ) matches Ok(p) && p.0 == tl,
{
    let out = lut_applied(
        tl,
        index,
        lut_path,
        interpolation,
        strength,
        found,
        Some(loc),
    )->Ok_0.0;
    let c = clip_at(tl, loc)->0;
    let k = clip_at(out, loc)->0;
    law_effect_is_sole(c, k.effects.last());
    lemma_filter_all(c.effects, other_effect(LUT@));
    assert(without_effect(k, LUT@) == c);
    let p = lut_removed(out, later, Some(loc))->Ok_0;
    assert(track_at(p.0, loc.track_index as int)->0.children =~= track_at(
        tl,
        loc.track_index as int,
    )->0.children);
    assert(p.0.tracks.children =~= tl.tracks.children);
}

/// A clip without a say in its sound that is muted and unmuted again has none.
pub proof fn law_unmute_undoes_mute(tl: TimelineModel, index: usize, loc: ClipLocator, later: usize)
    requires
        clip_at(tl, loc) is Some,
        clip_at(tl, loc)->0.metadata.montage is Some,
        clip_at(tl, loc)->0.metadata.montage->0.audio_override is None,
    ensures
        clip_muted(tl, index, true, Some(loc)) matches Ok(p) && clip_muted(
            p.0,
            later,
            false,
            Some(loc),
        ) matches Ok(q) && q.0 == tl,
{
    let c = clip_at(tl, loc)->0;
    let p = clip_muted(tl, index, true, Some(loc))->Ok_0;
    let q = clip_muted(p.0, later, false, Some(loc))->Ok_0;
    assert(override_of(c).removed_ranges =~= Seq::empty());
    assert(clip_at(q.0, loc)->0 == c);
    assert(track_at(q.0, loc.track_index as int)->0.children =~= track_at(
        tl,
        loc.track_index as int,
    )->0.children);
    assert(q.0.tracks.children =~= tl.tracks.children);
}

// ---- titles -----------------------------------------------------------------

/// Whether a change to a title names what stands under a key.
pub open spec fn changes(ch: TitleChange, key: Str) -> bool {
    ||| ch.text is Some && key == "text"@
    ||| ch.position is Some && key == "position"@
    ||| ch.font_size is Some && key == "font_size"@
    ||| ch.color is Some && key == "color"@
    ||| ch.font_weight is Some && key == "font_weight"@
    ||| ch.animation is Some && key == "animation"@
    ||| ch.phases is Some && key == "phases"@
    ||| ch.font_family is Some && key == "font_family"@
    ||| (ch.font_path is Some || ch.font_family is Some) && key == "font_path"@
}

proof fn lemma_put_opt(m: Pairs, key: Str, value: Option<Meta>, other: Str)
    ensures
        value is None || key != other ==> lookup(put_opt(m, key, value), other) == lookup(m, other),
{
    if value is Some {
        law_put_then_lookup(m, key, value->0, other);
    }
}

/// A change to a title leaves alone what it does not name.
pub proof fn law_title_change_is_partial(m: Pairs, ch: TitleChange, key: Str)
    requires
        !changes(ch, key),
    ensures
        lookup(title_pairs(m, ch), key) == lookup(m, key),
{
    let text = text_opt(opt(ch.text));
    let m1 = put_opt(m, "text"@, text);
    lemma_put_opt(m, "text"@, text, key);
    let position = match ch.position {
        Some(p) => Some(Meta::Text(position_word(p))),
        None => None,
    };
    let m2 = put_opt(m1, "position"@, position);
    lemma_put_opt(m1, "position"@, position, key);
    let size = match ch.font_size {
        Some(n) => Some(number_meta(ones(n as nat))),
        None => None,
    };
    let m3 = put_opt(m2, "font_size"@, size);
    lemma_put_opt(m2, "font_size"@, size, key);
    let color = text_opt(opt(ch.color));
    let m4 = put_opt(m3, "color"@, color);
    lemma_put_opt(m3, "color"@, color, key);
    let weight = match ch.font_weight {
        Some(w) => Some(Meta::Text(weight_word(w))),
        None => None,
    };
    let m5 = put_opt(m4, "font_weight"@, weight);
    lemma_put_opt(m4, "font_weight"@, weight, key);
    let animation = match ch.animation {
        Some(a) => Some(Meta::Text(animation_word(a))),
        None => None,
    };
    let m6 = put_opt(m5, "animation"@, animation);
    lemma_put_opt(m5, "animation"@, animation, key);
    let m7 = put_opt(m6, "phases"@, opt(ch.phases));
    lemma_put_opt(m6, "phases"@, opt(ch.phases), key);
    let family = text_opt(unless_blank(opt(ch.font_family)));
    let m8 = put_opt(m7, "font_family"@, family);
    lemma_put_opt(m7, "font_family"@, family, key);
    law_remove_then_lookup(m8, "font_path"@, key);
    let path = text_opt(unless_blank(opt(ch.font_path)));
    lemma_put_opt(m8, "font_path"@, path, key);
    lemma_put_opt(without(m8, "font_path"@), "font_path"@, path, key);
}

// ---- markers ----------------------------------------------------------------

/// A title that is given another window says the same window that its clip has.
pub proof fn law_title_window_is_its_clips(index: usize, c: ClipModel, ch: TitleChange)
    requires
        ch.start_s is Some || ch.end_s is Some,
        changed_title(index, c, ch) is Ok,
        end_of(changed_title(index, c, ch)->Ok_0.source_range->0) is Fin,
    ensures
        ({
            let k = changed_title(index, c, ch)->Ok_0;
            let i = first_where(c.effects, title_effect(), 0)->0;
            let r = k.source_range->0;
            &&& lookup(k.effects[i].metadata, "start_s"@) == Some(
                number_meta(r.start_time.seconds),
            )
            &&& lookup(k.effects[i].metadata, "end_s"@) == Some(number_meta(end_of(r)))
        }),
{
    let i = first_where(c.effects, title_effect(), 0)->0;
    lemma_first_where(c.effects, title_effect(), 0);
    let r = c.source_range->0;
    let a = or_else(ch.start_s, r.start_time.to_seconds());
    let b = or_else(ch.end_s, r.start_time.to_seconds().plus(r.duration.to_seconds()));
    let m = title_pairs(c.effects[i].metadata, ch);
    let m1 = put(m, "start_s"@, number_meta(a));
    reveal_strlit("start_s");
    reveal_strlit("end_s");
    law_put_then_lookup(m, "start_s"@, number_meta(a), "start_s"@);
    law_put_then_lookup(m1, "end_s"@, number_meta(b), "start_s"@);
    law_put_then_lookup(m1, "end_s"@, number_meta(b), "end_s"@);
    assert("start_s"@.len() != "end_s"@.len());
}

/// A marker that is deleted again leaves the timeline as it was, if the selector
/// names it alone.
pub proof fn law_delete_undoes_marker(
    tl: TimelineModel,
    index: usize,
    at_s: Num,
    label: Str,
    category: Option<Str>,
    later: usize,
    s: MarkerSelector,
    place: Option<Result<ClipLocator, AnchorMiss>>,
)
    requires
        marked(tl, index, at_s, label, category) is Ok,
        ({
            let i = track_covering(tl, at_s, 0)->0;
            let j = child_covering(track_at(tl, i)->0.children, at_s, 0)->0;
            named_marker(
                marked(tl, index, at_s, label, category)->Ok_0.0,
                later,
                s,
                place,
            ) matches Ok(c) && c.track_index == i && c.child_index == j && c.marker_index
                == clip_in(track_at(tl, i)->0, j)->0.markers.len()
        }),
    ensures
        deleted_marker(
            marked(tl, index, at_s, label, category)->Ok_0.0,
            later,
            s,
            place,
        ) matches Ok(p) && p.0 == tl,
{
    let out = marked(tl, index, at_s, label, category)->Ok_0.0;
    let i = track_covering(tl, at_s, 0)->0;
    lemma_track_covering(tl, at_s, 0);
    let t = track_at(tl, i)->0;
    let j = child_covering(t.children, at_s, 0)->0;
    let c = clip_in(t, j)->0;
    let now = clip_in(track_at(out, i)->0, j)->0;
    assert(now.markers.remove(c.markers.len() as int) =~= c.markers);
    let p = deleted_marker(out, later, s, place)->Ok_0;
    assert(track_at(p.0, i)->0.children =~= t.children);
    assert(track_at(p.0, i)->0 == t);
    assert(p.0.tracks.children[i] == tl.tracks.children[i]);
    assert(p.0.tracks.children =~= tl.tracks.children);
}

proof fn lemma_track_covering(tl: TimelineModel, at: Num, i: int)
    requires
        0 <= i,
    ensures
        track_covering(tl, at, i) matches Some(k) ==> i <= k < tl.tracks.children.len()
            && track_at(tl, k) is Some,
    decreases tl.tracks.children.len() - i,
{
    if i < tl.tracks.children.len() {
        lemma_track_covering(tl, at, i + 1);
    }
}

} // verus!

//! What is shown where b-roll, pictures in pictures and programs go.
use vstd::prelude::*;

use crate::clip::uuid_of;
use crate::effect_laws::tells;
use crate::insert_laws::is_new_clip;
use crate::laws::law_put_then_lookup;
use crate::measures::{
    first, has_clip, has_row, last, law_a_place_is_found, length, long, millionth, onset, plain,
    row, the_clip, tick,
};
use crate::meta::{put, Meta};
use crate::model::{
    ClipLocator, ClipModel, MediaReferenceModel, StackChildModel, TimelineModel, TrackChildModel,
    TrackKind,
};
use crate::multicam::{decision_clip, decisions_ok_from, multicam_applied, program};
use crate::num::Num;
use crate::op::{BRollPosition, MulticamApplyPlan, MulticamDecision, PiPCorner};
use crate::overlay::{
    broll_clip, broll_inserted, broll_tail, pip_clip, pip_inserted, pip_ok, PipRequest,
};
use crate::path::{is_absolute, leads_up};
use crate::playback::{
    all_timed, frame, lemma_shown_front, lemma_shown_rest, lemma_shown_while, shown_at, timed,
    whole,
};
use crate::split_laws::{lemma_before, lemma_put_shows};
use crate::text::{is_blank, trimmed, Str};
use crate::track_laws::{first_named, law_first_named_is_found, none_named};

verus! {

/// Two children that together last as long as one whose place they take change only what
/// is shown while that lasted.
pub proof fn lemma_two_for_one(
    before: Seq<TrackChildModel>,
    j: int,
    x: TrackChildModel,
    y: TrackChildModel,
    t: int,
)
    requires
        all_timed(before),
        0 <= j < before.len(),
        timed(x),
        timed(y),
        0 <= length(x),
        0 <= length(y),
        length(x) + length(y) == length(before[j]),
    ensures
        ({
            let after = before.update(j, x).insert(j + 1, y);
            let a = onset(before, j);
            &&& whole(after) == whole(before)
            &&& shown_at(after, t) == (if a <= t < a + length(x) {
                frame(x, t - a)
            } else if a + length(x) <= t < a + length(before[j]) {
                frame(y, t - a - length(x))
            } else {
                shown_at(before, t)
            })
        }),
{
    let after = before.update(j, x).insert(j + 1, y);
    let n = before.len() as int;
    assert(timed(before[j]));
    assert forall|k: int| 0 <= k < after.len() implies timed(#[trigger] after[k]) by {
        if k < j {
            assert(after[k] == before[k]);
            assert(timed(before[k]));
        } else if k > j + 1 {
            assert(after[k] == before[k - 1]);
            assert(timed(before[k - 1]));
        }
    }
    assert(after[j] == x);
    assert(after[j + 1] == y);
    lemma_shown_front(after, before, j, t);
    let a = onset(before, j);
    assert(onset(after, j + 1) == a + length(x));
    assert(onset(after, j + 2) == a + length(before[j]));
    assert(onset(before, j + 1) == a + length(before[j]));
    assert forall|k: int| j + 1 <= k < n implies #[trigger] before[k] == after[k + 1] by {}
    lemma_shown_rest(before, after, j + 1, 1, n, onset(before, j + 1));
    if t >= onset(before, j + 1) {
        lemma_shown_rest(before, after, j + 1, 1, n, t);
    } else if t < a {
        lemma_before(before, j, n, t);
        lemma_before(after, j, n + 1, t);
    } else if t < onset(after, j + 1) {
        lemma_shown_while(after, n + 1, j, t);
    } else {
        lemma_shown_while(after, n + 1, j + 1, t);
    }
}

// ---- b-roll -------------------------------------------------------------------------------

/// B-roll shows its asset from the beginning on, for as long as was asked for, under the
/// id that was drawn.
pub proof fn law_broll_shows_its_asset(over: Str, asset: Str, d: Num, rate: Num, id: Str)
    requires
        d is Fin,
        0 <= tick(d),
    ensures
        is_new_clip(
            TrackChildModel::Clip(broll_clip(over, asset, d, rate, id)),
            asset,
            0,
            tick(d),
            id,
            Some("broll-from-"@ + over),
            None,
        ),
{
    reveal_strlit("clip_uuid");
    reveal_strlit("link_group_id");
    assert("clip_uuid"@.len() != "link_group_id"@.len());
    law_put_then_lookup(Seq::empty(), "clip_uuid"@, Meta::Text(id), "clip_uuid"@);
    law_put_then_lookup(Seq::empty(), "clip_uuid"@, Meta::Text(id), "link_group_id"@);
}

/// What is left of a clip behind b-roll goes on where the clip would be by then.
pub proof fn law_broll_leaves_the_rest_of_the_clip(c: ClipModel, d: Num, id: Str)
    requires
        c.source_range is Some,
        plain(c.source_range->0),
        d is Fin,
        0 <= tick(d) <= long(c.source_range->0),
    ensures
        ({
            let r = c.source_range->0;
            let x = broll_tail(c, d, id);
            &&& x.media_reference == c.media_reference
            &&& x.effects == c.effects
            &&& x.markers == c.markers
            &&& x.source_range matches Some(s) && plain(s) && first(s) == first(r) + tick(d)
                && last(s) == last(r)
            &&& uuid_of(x) == Some(id)
            &&& x.name == c.name + "-tail"@
        }),
{
    let m = crate::clip::clip_montage(c);
    law_put_then_lookup(m.extra, "clip_uuid"@, Meta::Text(id), "clip_uuid"@);
}

/// B-roll in place of a clip is shown from the start of the clip on for as long as was
/// asked for; at all other times the track shows what it did.  It is put in exactly where
/// it has a length that can be counted and the clip has a range.
pub proof fn law_broll_in_place_shows_over_the_start(
    tl: TimelineModel,
    index: usize,
    asset: Str,
    duration_s: Num,
    loc: ClipLocator,
    ids: Seq<Str>,
    t: int,
)
    requires
        has_clip(tl, loc),
        all_timed(row(tl, loc.track_index as int)),
    ensures
        ({
            let i = loc.track_index as int;
            let before = row(tl, i);
            let a = onset(before, loc.child_index as int);
            let r = the_clip(tl, loc).source_range;
            match broll_inserted(
                tl,
                index,
                asset,
                duration_s,
                BRollPosition::Replace,
                Some(loc),
                ids,
            ) {
                Ok((out, _)) => {
                    let d = tick(duration_s);
                    &&& duration_s is Fin && 0 < d && r is Some
                    &&& has_row(out, i)
                    &&& out.tracks.children.len() == tl.tracks.children.len()
                    &&& forall|s: int|
                        0 <= s < tl.tracks.children.len() && s != i
                            ==> #[trigger] out.tracks.children[s] == tl.tracks.children[s]
                    &&& d <= long(r->0) ==> {
                        &&& whole(row(out, i)) == whole(before)
                        &&& a <= t < a + d ==> (shown_at(row(out, i), t) matches Some((m, at)) && at
                            == t - a && (m matches MediaReferenceModel::External(e) && e.target_url
                            == asset))
                        &&& !(a <= t < a + d) ==> shown_at(row(out, i), t) == shown_at(before, t)
                    }
                    &&& d > long(r->0) ==> row(out, i).len() == before.len() && is_new_clip(
                        row(out, i)[loc.child_index as int],
                        asset,
                        0,
                        d,
                        ids[0],
                        None,
                        None,
                    )
                },
                Err(_) => duration_s !is Fin || tick(duration_s) <= 0 || r is None,
            }
        }),
{
    law_a_place_is_found(tl, loc);
    let i = loc.track_index as int;
    let j = loc.child_index as int;
    let before = row(tl, i);
    let c = the_clip(tl, loc);
    if let Ok((out, _)) = broll_inserted(
        tl,
        index,
        asset,
        duration_s,
        BRollPosition::Replace,
        Some(loc),
        ids,
    ) {
        let r = c.source_range->0;
        assert(timed(before[j]));
        let d = tick(duration_s);
        let rate = r.start_time.rate;
        law_broll_shows_its_asset(c.name, asset, duration_s, rate, ids[0]);
        let over = TrackChildModel::Clip(broll_clip(c.name, asset, duration_s, rate, ids[0]));
        let a = onset(before, j);
        if d < long(r) {
            law_broll_leaves_the_rest_of_the_clip(c, duration_s, ids[1]);
            let rest = TrackChildModel::Clip(broll_tail(c, duration_s, ids[1]));
            assert(row(out, i) == before.update(j, over).insert(j + 1, rest));
            lemma_two_for_one(before, j, over, rest, t);
            if a + d <= t < a + long(r) {
                lemma_shown_while(before, before.len() as int, j, t);
            }
        } else if d == long(r) {
            assert(row(out, i) == before.update(j, over));
            lemma_put_shows(before, j, over, t);
        }
    }
}

// ---- pictures in pictures -------------------------------------------------------------------

/// The name of a corner.
pub open spec fn corner_name(c: PiPCorner) -> Str {
    match c {
        PiPCorner::TopLeft => "top_left"@,
        PiPCorner::TopRight => "top_right"@,
        PiPCorner::BottomLeft => "bottom_left"@,
        PiPCorner::BottomRight => "bottom_right"@,
    }
}

/// A picture in a picture is put in exactly where its asset lies in the project, it has a
/// length, begins at zero or later in its source, and its size and margin are in bounds.
pub proof fn law_pip_is_in_bounds(index: usize, q: PipRequest)
    ensures
        pip_ok(index, q) is Ok <==> {
            &&& !is_blank(q.asset@)
            &&& !is_absolute(q.asset@)
            &&& !leads_up(q.asset@)
            &&& q.duration_s is Fin && 0 < tick(q.duration_s)
            &&& q.source_start_s is Fin && 0 <= tick(q.source_start_s)
            &&& q.scale is Fin && 100_000_000_000_000 <= tick(q.scale) <= 600_000_000_000_000
            &&& q.margin_pct is Fin && 0 <= tick(q.margin_pct) <= 150_000_000_000_000
        },
{
}

/// A picture in a picture shows its asset from the time and for as long as was asked for,
/// in the corner, at the size and with the margin asked for.
pub proof fn law_pip_shows_what_was_asked(
    over: Str,
    q: PipRequest,
    rate: Num,
    id: Str,
    index: usize,
)
    requires
        pip_ok(index, q) is Ok,
        tick(q.source_start_s) + tick(q.duration_s) <= i128::MAX,
    ensures
        ({
            let c = pip_clip(over, q, rate, id);
            &&& c.media_reference matches MediaReferenceModel::External(e) && e.target_url
                == q.asset@
            &&& c.source_range matches Some(r) && plain(r) && first(r) == tick(q.source_start_s)
                && long(r) == tick(q.duration_s)
            &&& uuid_of(c) == Some(id)
            &&& c.name == "pip-from-"@ + over
            &&& c.effects.len() == 1
            &&& c.effects.last().effect_name == "montage.video_overlay"@
            &&& tells(c, "corner"@) == Some(Meta::Text(corner_name(q.corner)))
            &&& tells(c, "scale"@) == Some(Meta::Number(q.scale))
            &&& tells(c, "margin_pct"@) == Some(Meta::Number(q.margin_pct))
            &&& tells(c, "mode"@) == Some(Meta::Text("pip"@))
        }),
{
    reveal_strlit("mode");
    reveal_strlit("corner");
    reveal_strlit("scale");
    reveal_strlit("margin_pct");
    assert("mode"@.len() == 4);
    assert("corner"@.len() == 6);
    assert("scale"@.len() == 5);
    assert("margin_pct"@.len() == 10);
    let a = Meta::Text("pip"@);
    let b = Meta::Text(corner_name(q.corner));
    let c = Meta::Number(q.scale);
    let d = Meta::Number(q.margin_pct);
    let m1 = put(Seq::empty(), "mode"@, a);
    let m2 = put(m1, "corner"@, b);
    let m3 = put(m2, "scale"@, c);
    let m4 = put(m3, "margin_pct"@, d);
    law_put_then_lookup(Seq::empty(), "mode"@, a, "mode"@);
    law_put_then_lookup(m1, "corner"@, b, "mode"@);
    law_put_then_lookup(m2, "scale"@, c, "mode"@);
    law_put_then_lookup(m3, "margin_pct"@, d, "mode"@);
    law_put_then_lookup(m2, "scale"@, c, "corner"@);
    law_put_then_lookup(m3, "margin_pct"@, d, "corner"@);
    law_put_then_lookup(m3, "margin_pct"@, d, "scale"@);
    law_put_then_lookup(Seq::empty(), "clip_uuid"@, Meta::Text(id), "clip_uuid"@);
    let x = pip_clip(over, q, rate, id);
    assert(x.effects.len() == 1) by {
        reveal(Seq::filter);
    }
}

/// A picture in a picture is put in exactly where it is in bounds and its clip has a range.
pub proof fn law_pip_needs_a_clip_with_a_range(
    tl: TimelineModel,
    index: usize,
    q: PipRequest,
    loc: ClipLocator,
    id: Str,
)
    ensures
        pip_inserted(tl, index, q, Some(loc), id) is Ok <==> pip_ok(index, q) is Ok && has_clip(
            tl,
            loc,
        ) && the_clip(tl, loc).source_range is Some,
{
    law_a_place_is_found(tl, loc);
}

// ---- programs ---------------------------------------------------------------------------------

/// Whether one decision of a plan can be followed: it names a source, has a length, and
/// begins no earlier than the one in front of it ends, up to a millionth.
pub open spec fn can_follow(ds: Seq<MulticamDecision>, k: int) -> bool {
    let d = ds[k];
    &&& !is_blank(d.source_asset@)
    &&& d.start_s is Fin
    &&& d.end_s is Fin
    &&& 0 <= tick(d.start_s) < tick(d.end_s)
    &&& k > 0 ==> tick(ds[k - 1].end_s) <= tick(d.start_s) + millionth()
}

proof fn lemma_follow(index: usize, ds: Seq<MulticamDecision>, k: int)
    requires
        0 <= k <= ds.len(),
        forall|x: int| 0 <= x < k ==> #[trigger] can_follow(ds, x),
    ensures
        decisions_ok_from(index, ds, k) is Ok <==> forall|x: int|
            k <= x < ds.len() ==> #[trigger] can_follow(ds, x),
    decreases ds.len() - k,
{
    if k < ds.len() {
        if k > 0 {
            assert(can_follow(ds, k - 1));
        }
        if can_follow(ds, k) {
            lemma_follow(index, ds, k + 1);
        }
    }
}

/// A plan is followed exactly where it names a track, has decisions, and each of them can
/// be followed.  Its program then stands on the first track of the name, in place of all
/// that was there, or on a new track behind all; no other track changes.
pub proof fn law_plan_is_followed_in_order(
    tl: TimelineModel,
    index: usize,
    plan: MulticamApplyPlan,
    ids: Seq<Str>,
    i: int,
)
    ensures
        ({
            let ds = plan.decisions@;
            let name = trimmed(plan.program_track@);
            &&& multicam_applied(tl, index, plan, ids) is Ok <==> name.len() > 0 && ds.len() > 0
                && forall|x: int| 0 <= x < ds.len() ==> #[trigger] can_follow(ds, x)
            &&& multicam_applied(tl, index, plan, ids) matches Ok((out, _)) ==> {
                let now = StackChildModel::Track(program(name, ds, ids));
                &&& first_named(tl, name, i) ==> out.tracks.children == tl.tracks.children.update(
                    i,
                    now,
                )
                &&& none_named(tl, name) ==> out.tracks.children == tl.tracks.children.push(now)
                &&& program(name, ds, ids).kind == TrackKind::Video
                &&& program(name, ds, ids).name == name
            }
        }),
{
    let ds = plan.decisions@;
    lemma_follow(index, ds, 0);
    law_first_named_is_found(tl, trimmed(plan.program_track@));
}

/// The clip of a decision shows its source for as long as the decision lasts, from the
/// time given for the source, or else from the time of the decision.
pub proof fn law_decision_shows_its_source(d: MulticamDecision, k: nat, id: Str)
    requires
        d.start_s is Fin,
        d.end_s is Fin,
        0 <= tick(d.start_s) < tick(d.end_s),
        d.source_start_s matches Some(s) ==> s is Fin && 0 <= tick(s) && tick(s) + tick(d.end_s)
            - tick(d.start_s) <= i128::MAX,
    ensures
        ({
            let c = decision_clip(d, k, id);
            let from = match d.source_start_s {
                Some(s) => tick(s),
                None => tick(d.start_s),
            };
            &&& c.media_reference matches MediaReferenceModel::External(e) && e.target_url
                == d.source_asset@
            &&& c.source_range matches Some(r) && plain(r) && first(r) == from && long(r) == tick(
                d.end_s,
            ) - tick(d.start_s)
            &&& uuid_of(c) == Some(id)
        }),
{
    let c = decision_clip(d, k, id);
    let m = c.metadata.montage->0;
    let b = crate::multicam::with_text_opt(
        crate::multicam::with_text_opt(
            crate::clip::with_clip_extra(
                crate::clip::with_clip_extra(
                    crate::clip::with_clip_montage(
                        ClipModel {
                            media_reference: crate::clip::media_at(d.source_asset@),
                            source_range: c.source_range,
                            ..crate::clip::empty_clip("multicam-"@ + crate::text::decimal(k))
                        },
                        crate::model::MontageClipMetadataModel {
                            reasoning: crate::model::opt(d.reason),
                            ..crate::clip::no_clip_montage()
                        },
                    ),
                    "multicam_source_asset"@,
                    Meta::Text(d.source_asset@),
                ),
                "multicam_decision_index"@,
                crate::meta::number_meta(crate::num::ones(k)),
            ),
            "speaker"@,
            crate::model::opt(d.speaker),
        ),
        "sync_group_id"@,
        crate::model::opt(d.sync_group_id),
    );
    assert(c == crate::clip::with_uuid(b, id));
    law_put_then_lookup(
        crate::clip::clip_montage(b).extra,
        "clip_uuid"@,
        Meta::Text(id),
        "clip_uuid"@,
    );
}

} // verus!

//! How ops lead to edits, and what is put on record of them.
use vstd::prelude::*;

use crate::audio::{
    audio_removed, ducking_set, fade_set, split_edit_set, sync_set, track_audio_set, SplitEditKind,
};
use crate::carve::cut_range;
use crate::clip::{first_where, lemma_first_where};
use crate::dispatch::{op_done, Answers};
use crate::effect_laws::known_as;
use crate::engine::{
    finished, is_compact, kind_of, last_showing, parameters_of, record_before, SessionModel,
};
use crate::envelope::{EdlOp, ProfessionalTimelineEdit};
use crate::error::{AnchorMiss, Refusal};
use crate::laws::law_put_then_lookup;
use crate::measures::{has_clip, law_a_place_is_found, the_clip, tick};
use crate::meta::{lookup, lookup_text, Meta, Pairs};
use crate::model::{opt, ClipLocator, MediaReferenceModel, TimelineModel, TrackChildModel};
use crate::move_clip::{moved_clip, ripple_moved};
use crate::num::Num;
use crate::op::BetweenPlaces;
use crate::output::{loudness_set, output_format_set, package_set};
use crate::professional::{edit_done, professional};
use crate::ripple::{ripple_deleted, ripple_trimmed};
use crate::template::{generated_id, is_slot, template_instantiated, template_of, TemplateVerdict};
use crate::text::{is_blank, Str};
use crate::tracks::{deleted_gap, deleted_track};
use crate::trim::{trimmed_clip, untrimmed_clip};
use crate::wellformed::keepable;

verus! {

/// Each op does the edit that it is named for, with what it was given.
#[verifier::rlimit(60)]
#[verifier::spinoff_prover]
pub proof fn law_each_op_does_its_edit(
    tl: TimelineModel,
    index: usize,
    op: EdlOp,
    a: Answers,
    loc: Option<ClipLocator>,
    ids: Seq<Str>,
)
    ensures
        match op {
            EdlOp::TrimClip { start, end, .. } => op_done(tl, index, op, a, loc, ids)
                == trimmed_clip(tl, index, start, end, loc),
            EdlOp::UntrimClip { start, end, .. } => op_done(tl, index, op, a, loc, ids)
                == untrimmed_clip(tl, index, start, end, loc),
            EdlOp::MoveClip { to_position, at_s, snap, .. } => op_done(tl, index, op, a, loc, ids)
                == moved_clip(tl, index, to_position, at_s, snap, loc),
            EdlOp::RippleMove { delta_s, snap, .. } => op_done(tl, index, op, a, loc, ids)
                == ripple_moved(tl, index, delta_s, snap, loc),
            EdlOp::RippleTrim { edge, value_s, .. } => op_done(tl, index, op, a, loc, ids)
                == ripple_trimmed(tl, index, edge, value_s, loc),
            EdlOp::RippleDelete { .. } => op_done(tl, index, op, a, loc, ids) == ripple_deleted(
                tl,
                index,
                loc,
            ),
            EdlOp::DeleteGap { side, .. } => op_done(tl, index, op, a, loc, ids) == deleted_gap(
                tl,
                index,
                side,
                loc,
            ),
            EdlOp::DeleteTrack { name, force } => op_done(tl, index, op, a, loc, ids)
                == deleted_track(tl, index, name@, force),
            EdlOp::RemoveAudio { start_s, end_s, clear, .. } => op_done(tl, index, op, a, loc, ids)
                == audio_removed(tl, index, start_s, end_s, clear, loc),
            EdlOp::SetAudioFade { fade_in_s, fade_out_s, .. } => op_done(
                tl,
                index,
                op,
                a,
                loc,
                ids,
            ) == fade_set(tl, index, fade_in_s, fade_out_s, loc),
            EdlOp::SetAudioLead { lead_s, split_edit, .. } => op_done(tl, index, op, a, loc, ids)
                == split_edit_set(
                tl,
                index,
                lead_s,
                SplitEditKind::AudioLead,
                opt(split_edit),
                loc,
            ),
            EdlOp::SetAudioTrail { trail_s, split_edit, .. } => op_done(tl, index, op, a, loc, ids)
                == split_edit_set(
                tl,
                index,
                trail_s,
                SplitEditKind::AudioTrail,
                opt(split_edit),
                loc,
            ),
            EdlOp::SetTrackAudio { track, role, volume, muted, solo } => op_done(
                tl,
                index,
                op,
                a,
                loc,
                ids,
            ) == track_audio_set(tl, index, track@, opt(role), volume, muted, solo),
            EdlOp::SetDucking { track, enabled, amount_db, attack_ms, release_ms } => op_done(
                tl,
                index,
                op,
                a,
                loc,
                ids,
            ) == ducking_set(tl, index, track@, enabled, amount_db, attack_ms, release_ms),
            EdlOp::SetSyncGroup { sync_group_id, offset_s, speed_factor, confidence, .. } => op_done(
                tl,
                index,
                op,
                a,
                loc,
                ids,
            ) == sync_set(
                tl,
                index,
                sync_group_id@,
                offset_s,
                speed_factor,
                confidence,
                loc,
            ),
            EdlOp::SetOutputFormat { aspect_ratio, platform, safe_area } => op_done(
                tl,
                index,
                op,
                a,
                loc,
                ids,
            ) == output_format_set(tl, index, aspect_ratio@, platform, safe_area),
            EdlOp::SetLoudnessTarget { integrated_lufs, true_peak_db } => op_done(
                tl,
                index,
                op,
                a,
                loc,
                ids,
            ) == loudness_set(tl, index, integrated_lufs, true_peak_db),
            EdlOp::SetPackageMetadata { platform, title, description, tags } => op_done(
                tl,
                index,
                op,
                a,
                loc,
                ids,
            ) == package_set(tl, index, platform, title, description, tags),
            EdlOp::ProfessionalTimelineEdit { edit, document } => op_done(
                tl,
                index,
                op,
                a,
                loc,
                ids,
            ) == professional(tl, index, edit, document@, loc, a.between, a.marker, ids),
            _ => true,
        },
{
    reveal(op_done);
}

/// A stretch that is to be lifted leaves empty time, and one that is to be extracted closes
/// up.  A professional edit changes the tracks as the edit in it does, and is put on record.
pub proof fn law_edit_is_put_on_record(
    tl: TimelineModel,
    index: usize,
    edit: ProfessionalTimelineEdit,
    document: Meta,
    loc: Option<ClipLocator>,
    places: BetweenPlaces,
    marker: Option<Result<ClipLocator, AnchorMiss>>,
    ids: Seq<Str>,
)
    ensures
        ({
            let done = edit_done(tl, index, edit, loc, places, marker, ids);
            match professional(tl, index, edit, document, loc, places, marker, ids) {
                Ok((out, _)) => {
                    &&& done is Ok
                    &&& out.tracks == done->Ok_0.0.tracks
                    &&& out.montage matches Some(m) && lookup(
                        m.extra,
                        "last_professional_timeline_edit"@,
                    ) == Some(document)
                },
                Err(e) => done is Err && e == done->Err_0,
            }
        }),
        edit matches ProfessionalTimelineEdit::LiftRange { range, tracks } ==> edit_done(
            tl,
            index,
            edit,
            loc,
            places,
            marker,
            ids,
        ) == cut_range(tl, index, range, tracks@, false, ids),
        edit matches ProfessionalTimelineEdit::ExtractRange { range, tracks } ==> edit_done(
            tl,
            index,
            edit,
            loc,
            places,
            marker,
            ids,
        ) == cut_range(tl, index, range, tracks@, true, ids),
{
    if let Ok((t, _)) = edit_done(tl, index, edit, loc, places, marker, ids) {
        law_put_then_lookup(
            crate::edit::montage_of(t).extra,
            "last_professional_timeline_edit"@,
            document,
            "last_professional_timeline_edit"@,
        );
    }
}

// ---- records --------------------------------------------------------------------------------

/// Whether a value is a truth value, a number or a text.
pub open spec fn plain_value(v: Meta) -> bool {
    v is Bool || v is Number || v is Text
}

/// Whether a value is short: plain, or a list or map of up to eight that are.
pub open spec fn short(v: Meta) -> bool {
    match v {
        Meta::List(l) => l.len() <= 8 && forall|k: int|
            0 <= k < l.len() ==> plain_value(#[trigger] l[k]),
        Meta::Object(m) => m.len() <= 8 && forall|k: int|
            0 <= k < m.len() ==> plain_value((#[trigger] m[k]).1),
        _ => plain_value(v),
    }
}

proof fn lemma_short(v: Meta)
    ensures
        is_compact(v) == short(v),
{
    match v {
        Meta::List(l) => {
            let p = crate::engine::is_scalar();
            if l.all(p) {
                assert forall|k: int| 0 <= k < l.len() implies plain_value(#[trigger] l[k]) by {
                    assert(p(l[k]));
                }
            }
            if forall|k: int| 0 <= k < l.len() ==> plain_value(#[trigger] l[k]) {
                assert forall|k: int| 0 <= k < l.len() implies p(#[trigger] l[k]) by {
                    assert(plain_value(l[k]));
                }
            }
        },
        Meta::Object(m) => {
            let p = crate::engine::is_scalar_entry();
            if m.all(p) {
                assert forall|k: int| 0 <= k < m.len() implies plain_value((#[trigger] m[k]).1) by {
                    assert(p(m[k]));
                }
            }
            if forall|k: int| 0 <= k < m.len() ==> plain_value((#[trigger] m[k]).1) {
                assert forall|k: int| 0 <= k < m.len() implies p(#[trigger] m[k]) by {
                    assert(plain_value(m[k].1));
                }
            }
        },
        _ => {},
    }
}

/// The parameters on record are the short ones that an op was written with, but for those
/// that say where it goes or hold a whole plan.
pub proof fn law_short_parameters_are_on_record(m: Pairs, e: (Str, Meta))
    ensures
        parameters_of(Meta::Object(m)).contains(e) <==> {
            &&& m.contains(e)
            &&& short(e.1)
            &&& e.0 != "op"@ && e.0 != "anchor"@ && e.0 != "between"@ && e.0 != "plan"@ && e.0
                != "edit"@ && e.0 != "spec"@ && e.0 != "split_edit"@
        },
{
    lemma_short(e.1);
    crate::boundary_laws::lemma_filter_keeps(m, crate::engine::is_parameter(), e);
}

/// The record of an op names the clip that it was asked of, and the track of that clip.
pub proof fn law_record_names_the_clip(
    tl: TimelineModel,
    op: EdlOp,
    loc: ClipLocator,
    document: Meta,
)
    requires
        has_clip(tl, loc),
        known_as(the_clip(tl, loc)).len() > 0,
        tl.tracks.children[loc.track_index as int]->Track_0.name.len() > 0,
    ensures
        ({
            let r = record_before(tl, op, Some(loc), document);
            &&& r.affected_clip_ids == seq![known_as(the_clip(tl, loc))]
            &&& r.affected_track_ids.len() > 0
            &&& r.affected_track_ids[0] == tl.tracks.children[loc.track_index as int]->Track_0.name
            &&& r.kind == kind_of(document)
            &&& r.source == Some("agent"@)
        }),
{
    law_a_place_is_found(tl, loc);
    let r = record_before(tl, op, Some(loc), document);
    assert(r.affected_clip_ids =~= seq![known_as(the_clip(tl, loc))]);
}

// ---- templates ------------------------------------------------------------------------------

/// The template of an id is the first of the project's own, and else the one that comes with
/// the editor.
pub proof fn law_own_template_comes_first(
    tl: TimelineModel,
    id: Str,
    built_in: Option<Meta>,
    k: int,
)
    ensures
        tl.montage is None ==> template_of(tl, id, built_in) == built_in,
        tl.montage matches Some(m) ==> {
            &&& (0 <= k < m.motion_templates.len() && m.motion_templates[k].id == id && forall|
                j: int,
            |
                0 <= j < k ==> (#[trigger] m.motion_templates[j]).id != id)
                ==> template_of(tl, id, built_in) == Some(
                m.motion_templates[k].body,
            )
            &&& (forall|j: int|
                0 <= j < m.motion_templates.len() ==> (#[trigger] m.motion_templates[j]).id != id)
                ==> template_of(tl, id, built_in) == built_in
        },
{
    if let Some(m) = tl.montage {
        let p = crate::docs::with_id(id);
        lemma_first_where(m.motion_templates, p, 0);
        match first_where(m.motion_templates, p, 0) {
            Some(i) => {
                assert(m.motion_templates[i].id == id);
                if 0 <= k < i {
                    assert(!p(m.motion_templates[k]));
                }
            },
            None => {
                if 0 <= k < m.motion_templates.len() {
                    assert(!p(m.motion_templates[k]));
                }
            },
        }
    }
}

/// A template is made only where it is named and known, has a length, and can be filled.
pub proof fn law_template_is_known_and_has_a_length(
    tl: TimelineModel,
    index: usize,
    id: Str,
    start_s: Num,
    end_s: Num,
    values: Pairs,
    v: TemplateVerdict,
    ids: Seq<Str>,
)
    ensures
        template_instantiated(tl, index, id, start_s, end_s, values, v, ids) is Ok ==> {
            &&& !is_blank(id)
            &&& start_s is Fin && end_s is Fin && tick(start_s) < tick(end_s)
            &&& template_of(tl, id, opt(v.built_in)) is Some
            &&& v.lowered is Ok
        },
{
}

/// The clip of the first title gets an id of its own exactly where the template has a place
/// for it and no other clip is named there.
pub proof fn law_template_names_its_clip(template: Meta, values: Pairs, id: Str, index: usize)
    ensures
        generated_id(template, values, id, index) is Some <==> {
            &&& lookup(values, "target_clip"@) is None
            &&& template matches Meta::Object(m) && (lookup(m, "slots"@) matches Some(Meta::List(l))
                && exists|k: int|
                0 <= k < l.len() && (#[trigger] l[k] matches Meta::Object(s) && lookup_text(
                    s,
                    "id"@,
                ) == Some("target_clip"@)))
        },
{
    if let Meta::Object(m) = template {
        if let Some(Meta::List(l)) = lookup(m, "slots"@) {
            let p = is_slot("target_clip"@);
            if l.any(p) {
                let k = choose|k: int| 0 <= k < l.len() && p(#[trigger] l[k]);
                assert(l[k] is Object);
            }
            if exists|k: int|
                0 <= k < l.len() && (#[trigger] l[k] matches Meta::Object(s) && lookup_text(
                    s,
                    "id"@,
                ) == Some("target_clip"@)) {
                let k = choose|k: int|
                    0 <= k < l.len() && (#[trigger] l[k] matches Meta::Object(s) && lookup_text(
                        s,
                        "id"@,
                    ) == Some("target_clip"@));
                assert(p(l[k]));
            }
        }
    }
}

/// Whether a child is a clip of an asset, under a name where one is given.
pub open spec fn shows_asset(c: TrackChildModel, asset: Str, name: Option<Str>) -> bool {
    match c {
        TrackChildModel::Clip(c) => {
            &&& c.media_reference matches MediaReferenceModel::External(e) && e.target_url == asset
            &&& name matches Some(n) ==> c.name == n
        },
        _ => false,
    }
}

/// The clip that an insert is said to have made is the last of its asset on its track, under
/// the name that was given.
pub proof fn law_inserted_clip_is_the_last_of_its_asset(
    children: Seq<TrackChildModel>,
    asset: Str,
    name: Option<Str>,
    n: int,
    k: int,
)
    requires
        0 <= k < n <= children.len(),
        shows_asset(children[k], asset, name),
        forall|x: int| k < x < n ==> !shows_asset(#[trigger] children[x], asset, name),
    ensures
        last_showing(children, asset, name, n) == Some(known_as(children[k]->Clip_0)),
    decreases n,
{
    if k < n - 1 {
        assert(!shows_asset(children[n - 1], asset, name));
        law_inserted_clip_is_the_last_of_its_asset(children, asset, name, n - 1, k);
    }
}

/// A run of ops gives back the timeline it came to and the whole record of it where that
/// timeline may be kept. Where it may not, nothing is given back, and the refusal says why
/// and names the op that was done last, or the first op where none was done.
pub proof fn law_a_run_ends_in_what_may_be_kept(s: SessionModel)
    ensures
        finished(s) is Ok <==> keepable(s.working) is Ok,
        finished(s) matches Ok(out) ==> out.0 == s.working && out.1 == s.applied,
        finished(s) matches Err(e) ==> {
            &&& e matches Refusal::OtioInvalid { index, message } && {
                &&& keepable(s.working)->Err_0 == message
                &&& s.applied.len() == 0 ==> index == 0
                &&& forall|k: int|
                    k + 1 == s.applied.len() && 0 <= k ==> (#[trigger] s.applied[k]).index == index
            }
        },
{
}

} // verus!

//! From an op to what it comes to.
use vstd::prelude::*;

use crate::audio::{
    apply_mute_clip, apply_remove_audio, apply_set_audio_fade, apply_set_clip_audio_fx,
    apply_set_ducking, apply_set_sync_group, apply_set_track_audio, apply_set_track_audio_fx,
    apply_set_volume, apply_split_edit_offset, audio_removed, clip_fx_set, clip_muted, ducking_set,
    fade_set, split_edit_set, sync_set, track_audio_set, track_fx_set, volume_set, SplitEditKind,
};
use crate::docs::{
    animation_set, apply_author_subject_reframe_from_track, apply_set_parameter_animation,
    attach_composition, audio_finishing_set, catalog_set, color_finishing_set, composition_attached,
    document_stored, lens_set, readiness_set, reframe_authored, set_asset_catalog,
    set_audio_finishing, set_color_finishing, set_pipeline_readiness, set_source_review,
    set_tracking_package, set_workflow_lens, source_review_set, store_document, tracking_set,
    AnimationVerdict, ReframeAnswer, Shelf,
};
use crate::effect::{
    apply_lut, apply_remove_lut, apply_set_color_correction, apply_set_effect, apply_set_speed,
    correction_set, effect_set, freeze_pairs, freeze_params, lut_applied, lut_removed, speed_set,
    time_remap_pairs, time_remap_params, EffectVerdict, LutFiles,
};
use crate::effects::{FREEZE, TIME_REMAP};
use crate::envelope::{EdlOp, ProfessionalTimelineEdit};
use crate::error::{shows, AnchorMiss, ApplyError, Done, Refusal};
use crate::gap::{apply_delete, deleted_clip};
use crate::insert::{apply_insert_clip, inserted_clip};
use crate::lut::LutFile;
use crate::meta::{MetaMap, MetaValue, Pairs};
use crate::mint::{drew, fresh, ClipIds};
use crate::model::{opt, views, ClipLocator, Timeline, TimelineModel};
use crate::move_clip::{apply_move_clip, apply_ripple_move, moved_clip, ripple_moved};
use crate::multicam::{apply_multicam_plan, multicam_applied};
use crate::op::{Anchor, BetweenPlaces, TransitionVerdict};
use crate::output::{
    apply_set_brand_kit, apply_set_broadcast_overlay, apply_set_loudness_target,
    apply_set_output_format, apply_set_package_metadata, brand_kit_set, broadcast_overlay_set,
    loudness_set, output_format_set, package_set, BroadcastOverlayConfig,
};
use crate::overlay::{apply_insert_broll, apply_insert_pip, broll_inserted, pip_inserted};
use crate::professional::{apply_professional_timeline_edit, professional};
use crate::ripple::{apply_ripple_delete, apply_ripple_trim, ripple_deleted, ripple_trimmed};
use crate::split::{apply_split, split_clip_op};
use crate::template::{apply_instantiate_motion_template, template_instantiated, TemplateVerdict};
use crate::text::Str;
use crate::title::{
    annotation_inserted, apply_insert_annotation, apply_insert_caption, apply_insert_rich_title,
    apply_insert_title, apply_set_title, caption_inserted, rich_title_inserted, title_inserted,
    title_set,
};
use crate::tracks::{
    apply_delete_gap, apply_delete_track, apply_insert_track, apply_trim_track_tail, deleted_gap,
    deleted_track, inserted_track, trimmed_tail,
};
use crate::transition::{
    apply_delete_transition, apply_insert_transition, apply_set_cut_intent, deleted_transition,
    inserted_transition, set_cut,
};
use crate::trim::{apply_trim, apply_untrim, trimmed_clip, untrimmed_clip};

verus! {

/// What the rest of the editor says of an op that is to be applied to a timeline:
/// where its anchors lead, and what the registries and the disk hold.  An op
/// reads those answers that it asks for.
#[derive(Debug)]
pub struct Answers {
    /// The op as it is written down.
    pub document: MetaValue,
    /// Where the op's anchor leads.
    pub place: Result<ClipLocator, AnchorMiss>,
    /// Where the two anchors at a cut lead.
    pub between: BetweenPlaces,
    /// Where the anchor of a marker leads, if the marker is named by one.
    pub marker: Option<Result<ClipLocator, AnchorMiss>>,
    pub transition: TransitionVerdict,
    pub effect: EffectVerdict,
    /// What was found at the path of a lone colour table.
    pub lut: LutFile,
    /// The broadcast overlay, filled in from the brand kit.
    pub overlay: Option<BroadcastOverlayConfig>,
    /// The broadcast overlay that is there, filled in from the new brand kit.
    pub kit: Option<MetaValue>,
    pub reframe: Result<ReframeAnswer, String>,
    pub animation: AnimationVerdict,
    pub template: TemplateVerdict,
}

fn unasked() -> (r: AnchorMiss)
    ensures
        r@ == "no anchor"@,
{
    AnchorMiss { text: "no anchor".to_owned() }
}

impl Answers {
    /// The answers of an op that asks for nothing but to be written down.
    pub fn plain(document: MetaValue) -> (r: Answers)
        ensures
            r.document == document,
            r.place is Err,
            r.between.from is Err,
            r.between.to is Err,
            r.marker is None,
            r.transition.duration_error is None,
            r.transition.xfade == Ok::<Option<String>, String>(None),
            r.transition.spec_xfade == Ok::<Option<String>, String>(None),
            r.transition.spec_error is None,
            r.effect.effect is Err,
            r.lut is NoProject,
            r.overlay is None,
            r.kit is None,
            r.reframe is Err,
            r.template.built_in is None,
            r.template.lowered is Err,
    {
        Answers {
            document,
            place: Err(unasked()),
            between: BetweenPlaces { from: Err(unasked()), to: Err(unasked()) },
            marker: None,
            transition: TransitionVerdict {
                duration_error: None,
                xfade: Ok(None),
                spec_xfade: Ok(None),
                spec_error: None,
                kept_spec: MetaValue::Null,
            },
            effect: EffectVerdict {
                effect: Err("no effect".to_owned()),
                luts: LutFiles {
                    input_transform: LutFile::NoProject,
                    shaper: LutFile::NoProject,
                    look: LutFile::NoProject,
                    output_transform: LutFile::NoProject,
                },
                color_spaces: Vec::new(),
                mask_extensions: Vec::new(),
            },
            lut: LutFile::NoProject,
            overlay: None,
            kit: None,
            reframe: Err("no tracker".to_owned()),
            animation: AnimationVerdict {
                error: None,
                runtime_target: false,
                clip_parameters: Vec::new(),
                track_parameters: Vec::new(),
            },
            template: TemplateVerdict { built_in: None, lowered: Err("no template".to_owned()) },
        }
    }
}

/// The anchor of an op that names one clip.
pub open spec fn anchor_of(op: EdlOp) -> Option<Anchor> {
    match op {
        EdlOp::TrimClip { anchor, .. } => Some(anchor),
        EdlOp::DeleteClip { anchor, .. } => Some(anchor),
        EdlOp::SplitClip { anchor, .. } => Some(anchor),
        EdlOp::UntrimClip { anchor, .. } => Some(anchor),
        EdlOp::InsertBRoll { anchor, .. } => Some(anchor),
        EdlOp::InsertPiP { anchor, .. } => Some(anchor),
        EdlOp::MoveClip { anchor, .. } => Some(anchor),
        EdlOp::RippleMove { anchor, .. } => Some(anchor),
        EdlOp::RippleDelete { anchor, .. } => Some(anchor),
        EdlOp::RippleTrim { anchor, .. } => Some(anchor),
        EdlOp::DeleteGap { anchor, .. } => Some(anchor),
        EdlOp::SetVolume { anchor, .. } => Some(anchor),
        EdlOp::MuteClip { anchor, .. } => Some(anchor),
        EdlOp::RemoveAudio { anchor, .. } => Some(anchor),
        EdlOp::SetAudioFade { anchor, .. } => Some(anchor),
        EdlOp::SetAudioLead { anchor, .. } => Some(anchor),
        EdlOp::SetAudioTrail { anchor, .. } => Some(anchor),
        EdlOp::SetSyncGroup { anchor, .. } => Some(anchor),
        EdlOp::SetClipAudioFx { anchor, .. } => Some(anchor),
        EdlOp::SetEffect { anchor, .. } => Some(anchor),
        EdlOp::SetSpeed { anchor, .. } => Some(anchor),
        EdlOp::SetTimeRemap { anchor, .. } => Some(anchor),
        EdlOp::SetFreeze { anchor, .. } => Some(anchor),
        EdlOp::SetColorCorrection { anchor, .. } => Some(anchor),
        EdlOp::ApplyLut { anchor, .. } => Some(anchor),
        EdlOp::RemoveLut { anchor, .. } => Some(anchor),
        EdlOp::SetTitle { anchor, .. } => Some(anchor),
        EdlOp::ProfessionalTimelineEdit { edit, .. } => match edit {
            ProfessionalTimelineEdit::RippleTrim { anchor, .. } => Some(anchor),
            ProfessionalTimelineEdit::SlipClip { anchor, .. } => Some(anchor),
            ProfessionalTimelineEdit::SlideClip { anchor, .. } => Some(anchor),
            ProfessionalTimelineEdit::ReplaceClip { anchor, .. } => Some(anchor),
            _ => None,
        },
        _ => None,
    }
}

/// The anchor of an op that names one clip.
pub fn op_anchor(op: &EdlOp) -> (r: Option<&Anchor>)
    ensures
        match r {
            Some(x) => anchor_of(*op) == Some(*x),
            None => anchor_of(*op) is None,
        },
{
    match op {
        EdlOp::TrimClip { anchor, .. } => Some(anchor),
        EdlOp::DeleteClip { anchor, .. } => Some(anchor),
        EdlOp::SplitClip { anchor, .. } => Some(anchor),
        EdlOp::UntrimClip { anchor, .. } => Some(anchor),
        EdlOp::InsertBRoll { anchor, .. } => Some(anchor),
        EdlOp::InsertPiP { anchor, .. } => Some(anchor),
        EdlOp::MoveClip { anchor, .. } => Some(anchor),
        EdlOp::RippleMove { anchor, .. } => Some(anchor),
        EdlOp::RippleDelete { anchor, .. } => Some(anchor),
        EdlOp::RippleTrim { anchor, .. } => Some(anchor),
        EdlOp::DeleteGap { anchor, .. } => Some(anchor),
        EdlOp::SetVolume { anchor, .. } => Some(anchor),
        EdlOp::MuteClip { anchor, .. } => Some(anchor),
        EdlOp::RemoveAudio { anchor, .. } => Some(anchor),
        EdlOp::SetAudioFade { anchor, .. } => Some(anchor),
        EdlOp::SetAudioLead { anchor, .. } => Some(anchor),
        EdlOp::SetAudioTrail { anchor, .. } => Some(anchor),
        EdlOp::SetSyncGroup { anchor, .. } => Some(anchor),
        EdlOp::SetClipAudioFx { anchor, .. } => Some(anchor),
        EdlOp::SetEffect { anchor, .. } => Some(anchor),
        EdlOp::SetSpeed { anchor, .. } => Some(anchor),
        EdlOp::SetTimeRemap { anchor, .. } => Some(anchor),
        EdlOp::SetFreeze { anchor, .. } => Some(anchor),
        EdlOp::SetColorCorrection { anchor, .. } => Some(anchor),
        EdlOp::ApplyLut { anchor, .. } => Some(anchor),
        EdlOp::RemoveLut { anchor, .. } => Some(anchor),
        EdlOp::SetTitle { anchor, .. } => Some(anchor),
        EdlOp::ProfessionalTimelineEdit { edit, .. } => match edit {
            ProfessionalTimelineEdit::RippleTrim { anchor, .. } => Some(anchor),
            ProfessionalTimelineEdit::SlipClip { anchor, .. } => Some(anchor),
            ProfessionalTimelineEdit::SlideClip { anchor, .. } => Some(anchor),
            ProfessionalTimelineEdit::ReplaceClip { anchor, .. } => Some(anchor),
            _ => None,
        },
        _ => None,
    }
}

/// The registered effect that an op asks for, with its parameters.
pub open spec fn effect_of_op(op: EdlOp) -> Option<(Str, Pairs)> {
    match op {
        EdlOp::SetEffect { effect, params, .. } => Some((effect@, params@)),
        EdlOp::SetTimeRemap { curve, .. } => Some((TIME_REMAP@, time_remap_pairs(curve@))),
        EdlOp::SetFreeze {
            freeze_at_source_s,
            duration_s,
            freeze_position,
            audio_behavior,
            ..
        } => Some(
            (
                FREEZE@,
                freeze_pairs(
                    freeze_at_source_s,
                    duration_s,
                    opt(freeze_position),
                    opt(audio_behavior),
                ),
            ),
        ),
        _ => None,
    }
}

/// The registered effect that an op asks for, with its parameters.
pub fn op_effect(op: &EdlOp) -> (r: Option<(String, MetaMap)>)
    ensures
        match r {
            Some(p) => effect_of_op(*op) == Some((p.0@, p.1@)),
            None => effect_of_op(*op) is None,
        },
{
    match op {
        EdlOp::SetEffect { effect, params, .. } => Some((effect.clone(), params.copied())),
        EdlOp::SetTimeRemap { curve, .. } => Some(
            (TIME_REMAP.to_owned(), time_remap_params(curve)),
        ),
        EdlOp::SetFreeze {
            freeze_at_source_s,
            duration_s,
            freeze_position,
            audio_behavior,
            ..
        } => Some(
            (
                FREEZE.to_owned(),
                freeze_params(*freeze_at_source_s, *duration_s, freeze_position, audio_behavior),
            ),
        ),
        _ => None,
    }
}

/// Where an op takes place, if it names one clip.
pub open spec fn located(index: usize, op: EdlOp, a: Answers) -> Result<Option<ClipLocator>, Refusal> {
    match anchor_of(op) {
        None => Ok(None),
        Some(_) => match a.place {
            Ok(loc) => Ok(Some(loc)),
            Err(miss) => Err(Refusal::AnchorMiss { index, miss: miss@ }),
        },
    }
}

/// Where an op takes place, if it names one clip.
pub fn resolve_locator_for_op(index: usize, op: &EdlOp, a: &Answers) -> (r: Result<
    Option<ClipLocator>,
    ApplyError,
>)
    ensures
        match r {
            Ok(l) => located(index, *op, *a) == Ok::<Option<ClipLocator>, Refusal>(l),
            Err(e) => located(index, *op, *a) == Err::<Option<ClipLocator>, Refusal>(e@),
        },
{
    match op_anchor(op) {
        None => Ok(None),
        Some(_) => match &a.place {
            Ok(loc) => Ok(Some(*loc)),
            Err(miss) => Err(
                ApplyError::AnchorMiss { index, miss: AnchorMiss { text: miss.text.clone() } },
            ),
        },
    }
}

/// What an op comes to.
#[verifier::opaque]
pub open spec fn op_done(
    tl: TimelineModel,
    index: usize,
    op: EdlOp,
    a: Answers,
    loc: Option<ClipLocator>,
    ids: Seq<Str>,
) -> Done {
    match op {
        EdlOp::TrimClip { start, end, .. } => trimmed_clip(tl, index, start, end, loc),
        EdlOp::DeleteClip { .. } => deleted_clip(tl, index, loc),
        EdlOp::SplitClip { at_s, snap, .. } => split_clip_op(tl, index, at_s, snap, loc, ids),
        EdlOp::UntrimClip { start, end, .. } => untrimmed_clip(tl, index, start, end, loc),
        EdlOp::InsertClip { request } => inserted_clip(tl, index, request@, ids[0]),
        EdlOp::InsertBRoll { asset, duration_s, position, .. } => broll_inserted(
            tl,
            index,
            asset@,
            duration_s,
            position,
            loc,
            ids,
        ),
        EdlOp::InsertPiP { request, .. } => pip_inserted(tl, index, request, loc, ids[0]),
        EdlOp::MoveClip { to_position, at_s, snap, .. } => moved_clip(
            tl,
            index,
            to_position,
            at_s,
            snap,
            loc,
        ),
        EdlOp::RippleMove { delta_s, snap, .. } => ripple_moved(tl, index, delta_s, snap, loc),
        EdlOp::RippleDelete { .. } => ripple_deleted(tl, index, loc),
        EdlOp::RippleTrim { edge, value_s, .. } => ripple_trimmed(tl, index, edge, value_s, loc),
        EdlOp::DeleteGap { side, .. } => deleted_gap(tl, index, side, loc),
        EdlOp::TrimTrackTail { track } => trimmed_tail(tl, index, track@),
        EdlOp::InsertTrack { name, kind, at_position } => inserted_track(
            tl,
            index,
            name@,
            kind,
            at_position,
        ),
        EdlOp::DeleteTrack { name, force } => deleted_track(tl, index, name@, force),
        EdlOp::ApplyMulticamPlan { plan } => multicam_applied(tl, index, plan, ids),
        EdlOp::InsertTransition { request, .. } => inserted_transition(
            tl,
            index,
            request,
            a.transition,
            a.between,
        ),
        EdlOp::DeleteTransition { .. } => deleted_transition(tl, index, a.between),
        EdlOp::SetCutIntent { spec, .. } => set_cut(tl, index, spec@, a.between),
        EdlOp::SetVolume { value, .. } => volume_set(tl, index, value, loc),
        EdlOp::MuteClip { muted, .. } => clip_muted(tl, index, muted, loc),
        EdlOp::RemoveAudio { start_s, end_s, clear, .. } => audio_removed(
            tl,
            index,
            start_s,
            end_s,
            clear,
            loc,
        ),
        EdlOp::SetAudioFade { fade_in_s, fade_out_s, .. } => fade_set(
            tl,
            index,
            fade_in_s,
            fade_out_s,
            loc,
        ),
        EdlOp::SetAudioLead { lead_s, split_edit, .. } => split_edit_set(
            tl,
            index,
            lead_s,
            SplitEditKind::AudioLead,
            opt(split_edit),
            loc,
        ),
        EdlOp::SetAudioTrail { trail_s, split_edit, .. } => split_edit_set(
            tl,
            index,
            trail_s,
            SplitEditKind::AudioTrail,
            opt(split_edit),
            loc,
        ),
        EdlOp::SetTrackAudio { track, role, volume, muted, solo } => track_audio_set(
            tl,
            index,
            track@,
            opt(role),
            volume,
            muted,
            solo,
        ),
        EdlOp::SetDucking { track, enabled, amount_db, attack_ms, release_ms } => ducking_set(
            tl,
            index,
            track@,
            enabled,
            amount_db,
            attack_ms,
            release_ms,
        ),
        EdlOp::SetSyncGroup { sync_group_id, offset_s, speed_factor, confidence, .. } => sync_set(
            tl,
            index,
            sync_group_id@,
            offset_s,
            speed_factor,
            confidence,
            loc,
        ),
        EdlOp::SetClipAudioFx { fx, .. } => clip_fx_set(tl, index, fx, loc),
        EdlOp::SetTrackAudioFx { track, fx } => track_fx_set(tl, index, track@, fx),
        EdlOp::SetEffect { effect, params, rationale, .. } => effect_set(
            tl,
            index,
            effect@,
            params@,
            opt(rationale),
            a.effect,
            loc,
        ),
        EdlOp::SetSpeed { factor, .. } => speed_set(tl, index, factor, loc),
        EdlOp::SetTimeRemap { curve, .. } => effect_set(
            tl,
            index,
            TIME_REMAP@,
            time_remap_pairs(curve@),
            None,
            a.effect,
            loc,
        ),
        EdlOp::SetFreeze {
            freeze_at_source_s,
            duration_s,
            freeze_position,
            audio_behavior,
            ..
        } => effect_set(
            tl,
            index,
            FREEZE@,
            freeze_pairs(
                freeze_at_source_s,
                duration_s,
                opt(freeze_position),
                opt(audio_behavior),
            ),
            None,
            a.effect,
            loc,
        ),
        EdlOp::SetColorCorrection { correction, .. } => correction_set(tl, index, correction, loc),
        EdlOp::ApplyLut { lut_path, interpolation, strength, .. } => lut_applied(
            tl,
            index,
            lut_path@,
            opt(interpolation),
            strength,
            a.lut,
            loc,
        ),
        EdlOp::RemoveLut { .. } => lut_removed(tl, index, loc),
        EdlOp::InsertTitle { title, font_family, font_path } => title_inserted(
            tl,
            index,
            title@,
            opt(font_family),
            opt(font_path),
            ids[0],
        ),
        EdlOp::InsertRichTitle { title } => rich_title_inserted(tl, index, title, ids[0]),
        EdlOp::InstantiateMotionTemplate { template_id, start_s, end_s, slot_values, .. } => template_instantiated(
            tl,
            index,
            template_id@,
            start_s,
            end_s,
            slot_values@,
            a.template,
            ids,
        ),
        EdlOp::SetTitle { change, .. } => title_set(tl, index, change, loc),
        EdlOp::InsertCaption { caption } => caption_inserted(tl, index, caption, ids[0]),
        EdlOp::InsertAnnotation { annotation } => annotation_inserted(
            tl,
            index,
            annotation,
            ids[0],
        ),
        EdlOp::SetOutputFormat { aspect_ratio, platform, safe_area } => output_format_set(
            tl,
            index,
            aspect_ratio@,
            platform,
            safe_area,
        ),
        EdlOp::SetLoudnessTarget { integrated_lufs, true_peak_db } => loudness_set(
            tl,
            index,
            integrated_lufs,
            true_peak_db,
        ),
        EdlOp::SetPackageMetadata { platform, title, description, tags } => package_set(
            tl,
            index,
            platform,
            title,
            description,
            tags,
        ),
        EdlOp::SetBroadcastOverlay { config } => broadcast_overlay_set(
            tl,
            index,
            config,
            a.overlay,
        ),
        EdlOp::SetAssetCatalog { catalog } => catalog_set(tl, catalog@),
        EdlOp::SetSourceReview { selects, stringouts } => source_review_set(
            tl,
            views(selects@),
            views(stringouts@),
        ),
        EdlOp::ProfessionalTimelineEdit { edit, document } => professional(
            tl,
            index,
            edit,
            document@,
            loc,
            a.between,
            a.marker,
            ids,
        ),
        EdlOp::AddProposalPackage { package } => document_stored(
            tl,
            Shelf::ProposalPackages,
            package@,
        ),
        EdlOp::SetParameterAnimation { animation } => animation_set(
            tl,
            index,
            animation,
            a.animation,
        ),
        EdlOp::SetMotionTemplate { template } => document_stored(
            tl,
            Shelf::MotionTemplates,
            template@,
        ),
        EdlOp::SetMotionScene { scene } => document_stored(tl, Shelf::MotionScenes, scene@),
        EdlOp::AttachComposition { graph, attach_to } => composition_attached(
            tl,
            graph@,
            opt(attach_to),
        ),
        EdlOp::SetTrackingPackage { package } => tracking_set(tl, package@),
        EdlOp::AuthorSubjectReframeFromTrack { track_id, request } => reframe_authored(
            tl,
            index,
            track_id@,
            request.clip_id@,
            a.reframe,
        ),
        EdlOp::SetColorFinishing { state } => color_finishing_set(tl, state@),
        EdlOp::SetAudioFinishing { state } => audio_finishing_set(tl, state@),
        EdlOp::SelectDeliveryProfile { profile } => document_stored(
            tl,
            Shelf::DeliveryProfiles,
            profile@,
        ),
        EdlOp::AddPreflightReport { report } => document_stored(
            tl,
            Shelf::PreflightReports,
            report@,
        ),
        EdlOp::SetWorkflowLens { lens } => lens_set(tl, lens.name@, lens.key@),
        EdlOp::SetPipelineReadiness { readiness, planner_passes } => readiness_set(
            tl,
            readiness@,
            views(planner_passes@),
        ),
        EdlOp::SetBrandKit { kit } => brand_kit_set(tl, index, kit, opt(a.kit)),
    }
}

/// Applies one op.
pub fn apply_one(
    working: Timeline,
    index: usize,
    op: &EdlOp,
    a: &Answers,
    loc: Option<ClipLocator>,
    ids: &mut ClipIds,
) -> (r: Result<(Timeline, String), ApplyError>)
    ensures
        drew(*old(ids), *final(ids), fresh(*old(ids), *final(ids)).len()),
        shows(r, op_done(working@, index, *op, *a, loc, fresh(*old(ids), *final(ids)))),
{
    reveal(op_done);
    match op {
        EdlOp::TrimClip { start, end, .. } => apply_trim(working, index, *start, *end, loc),
        EdlOp::DeleteClip { .. } => apply_delete(working, index, loc),
        EdlOp::SplitClip { at_s, snap, .. } => apply_split(working, index, *at_s, snap, loc, ids),
        EdlOp::UntrimClip { start, end, .. } => apply_untrim(working, index, *start, *end, loc),
        EdlOp::InsertClip { request } => apply_insert_clip(working, index, request, ids),
        EdlOp::InsertBRoll { asset, duration_s, position, .. } => apply_insert_broll(
            working,
            index,
            asset.as_str(),
            *duration_s,
            *position,
            loc,
            ids,
        ),
        EdlOp::InsertPiP { request, .. } => apply_insert_pip(working, index, request, loc, ids),
        EdlOp::MoveClip { to_position, at_s, snap, .. } => apply_move_clip(
            working,
            index,
            *to_position,
            *at_s,
            snap,
            loc,
        ),
        EdlOp::RippleMove { delta_s, snap, .. } => apply_ripple_move(
            working,
            index,
            *delta_s,
            snap,
            loc,
        ),
        EdlOp::RippleDelete { .. } => apply_ripple_delete(working, index, loc),
        EdlOp::RippleTrim { edge, value_s, .. } => apply_ripple_trim(
            working,
            index,
            *edge,
            *value_s,
            loc,
        ),
        EdlOp::DeleteGap { side, .. } => apply_delete_gap(working, index, *side, loc),
        EdlOp::TrimTrackTail { track } => apply_trim_track_tail(working, index, track.as_str()),
        EdlOp::InsertTrack { name, kind, at_position } => apply_insert_track(
            working,
            index,
            name.as_str(),
            *kind,
            *at_position,
        ),
        EdlOp::DeleteTrack { name, force } => apply_delete_track(
            working,
            index,
            name.as_str(),
            *force,
        ),
        EdlOp::ApplyMulticamPlan { plan } => apply_multicam_plan(working, index, plan, ids),
        EdlOp::InsertTransition { request, .. } => apply_insert_transition(
            working,
            index,
            request,
            &a.transition,
            &a.between,
        ),
        EdlOp::DeleteTransition { .. } => apply_delete_transition(working, index, &a.between),
        EdlOp::SetCutIntent { spec, .. } => apply_set_cut_intent(working, index, spec, &a.between),
        EdlOp::SetVolume { value, .. } => apply_set_volume(working, index, *value, loc),
        EdlOp::MuteClip { muted, .. } => apply_mute_clip(working, index, *muted, loc),
        EdlOp::RemoveAudio { start_s, end_s, clear, .. } => apply_remove_audio(
            working,
            index,
            *start_s,
            *end_s,
            *clear,
            loc,
        ),
        EdlOp::SetAudioFade { fade_in_s, fade_out_s, .. } => apply_set_audio_fade(
            working,
            index,
            *fade_in_s,
            *fade_out_s,
            loc,
        ),
        EdlOp::SetAudioLead { lead_s, split_edit, .. } => apply_split_edit_offset(
            working,
            index,
            *lead_s,
            SplitEditKind::AudioLead,
            split_edit,
            loc,
        ),
        EdlOp::SetAudioTrail { trail_s, split_edit, .. } => apply_split_edit_offset(
            working,
            index,
            *trail_s,
            SplitEditKind::AudioTrail,
            split_edit,
            loc,
        ),
        EdlOp::SetTrackAudio { track, role, volume, muted, solo } => apply_set_track_audio(
            working,
            index,
            track.as_str(),
            role,
            *volume,
            *muted,
            *solo,
        ),
        EdlOp::SetDucking { track, enabled, amount_db, attack_ms, release_ms } => apply_set_ducking(
            working,
            index,
            track.as_str(),
            *enabled,
            *amount_db,
            *attack_ms,
            *release_ms,
        ),
        EdlOp::SetSyncGroup { sync_group_id, offset_s, speed_factor, confidence, .. } => apply_set_sync_group(
            working,
            index,
            sync_group_id.as_str(),
            *offset_s,
            *speed_factor,
            *confidence,
            loc,
        ),
        EdlOp::SetClipAudioFx { fx, .. } => apply_set_clip_audio_fx(working, index, fx, loc),
        EdlOp::SetTrackAudioFx { track, fx } => apply_set_track_audio_fx(
            working,
            index,
            track.as_str(),
            fx,
        ),
        EdlOp::SetEffect { effect, params, rationale, .. } => apply_set_effect(
            working,
            index,
            effect.as_str(),
            params,
            rationale,
            &a.effect,
            loc,
        ),
        EdlOp::SetSpeed { factor, .. } => apply_set_speed(working, index, *factor, loc),
        EdlOp::SetTimeRemap { curve, .. } => apply_set_effect(
            working,
            index,
            TIME_REMAP,
            &time_remap_params(curve),
            &None,
            &a.effect,
            loc,
        ),
        EdlOp::SetFreeze {
            freeze_at_source_s,
            duration_s,
            freeze_position,
            audio_behavior,
            ..
        } => apply_set_effect(
            working,
            index,
            FREEZE,
            &freeze_params(*freeze_at_source_s, *duration_s, freeze_position, audio_behavior),
            &None,
            &a.effect,
            loc,
        ),
        EdlOp::SetColorCorrection { correction, .. } => apply_set_color_correction(
            working,
            index,
            correction,
            loc,
        ),
        EdlOp::ApplyLut { lut_path, interpolation, strength, .. } => apply_lut(
            working,
            index,
            lut_path.as_str(),
            interpolation,
            *strength,
            &a.lut,
            loc,
        ),
        EdlOp::RemoveLut { .. } => apply_remove_lut(working, index, loc),
        EdlOp::InsertTitle { title, font_family, font_path } => apply_insert_title(
            working,
            index,
            title,
            font_family,
            font_path,
            ids,
        ),
        EdlOp::InsertRichTitle { title } => apply_insert_rich_title(working, index, title, ids),
        EdlOp::InstantiateMotionTemplate { template_id, start_s, end_s, slot_values, .. } => apply_instantiate_motion_template(
            working,
            index,
            template_id.as_str(),
            *start_s,
            *end_s,
            slot_values,
            &a.template,
            ids,
        ),
        EdlOp::SetTitle { change, .. } => apply_set_title(working, index, change, loc),
        EdlOp::InsertCaption { caption } => apply_insert_caption(working, index, caption, ids),
        EdlOp::InsertAnnotation { annotation } => apply_insert_annotation(
            working,
            index,
            annotation,
            ids,
        ),
        EdlOp::SetOutputFormat { aspect_ratio, platform, safe_area } => apply_set_output_format(
            working,
            index,
            aspect_ratio.as_str(),
            platform,
            safe_area,
        ),
        EdlOp::SetLoudnessTarget { integrated_lufs, true_peak_db } => apply_set_loudness_target(
            working,
            index,
            *integrated_lufs,
            *true_peak_db,
        ),
        EdlOp::SetPackageMetadata { platform, title, description, tags } => apply_set_package_metadata(
            working,
            index,
            platform,
            title,
            description,
            tags,
        ),
        EdlOp::SetBroadcastOverlay { config } => apply_set_broadcast_overlay(
            working,
            index,
            config,
            &a.overlay,
        ),
        EdlOp::SetAssetCatalog { catalog } => set_asset_catalog(working, catalog),
        EdlOp::SetSourceReview { selects, stringouts } => set_source_review(
            working,
            selects,
            stringouts,
        ),
        EdlOp::ProfessionalTimelineEdit { edit, document } => apply_professional_timeline_edit(
            working,
            index,
            edit,
            document,
            loc,
            &a.between,
            &a.marker,
            ids,
        ),
        EdlOp::AddProposalPackage { package } => store_document(
            working,
            Shelf::ProposalPackages,
            package,
        ),
        EdlOp::SetParameterAnimation { animation } => apply_set_parameter_animation(
            working,
            index,
            animation,
            &a.animation,
        ),
        EdlOp::SetMotionTemplate { template } => store_document(
            working,
            Shelf::MotionTemplates,
            template,
        ),
        EdlOp::SetMotionScene { scene } => store_document(working, Shelf::MotionScenes, scene),
        EdlOp::AttachComposition { graph, attach_to } => attach_composition(
            working,
            graph,
            attach_to,
        ),
        EdlOp::SetTrackingPackage { package } => set_tracking_package(working, package),
        EdlOp::AuthorSubjectReframeFromTrack { track_id, request } => apply_author_subject_reframe_from_track(
            working,
            index,
            track_id.as_str(),
            request.clip_id.as_str(),
            &a.reframe,
        ),
        EdlOp::SetColorFinishing { state } => set_color_finishing(working, state),
        EdlOp::SetAudioFinishing { state } => set_audio_finishing(working, state),
        EdlOp::SelectDeliveryProfile { profile } => store_document(
            working,
            Shelf::DeliveryProfiles,
            profile,
        ),
        EdlOp::AddPreflightReport { report } => store_document(
            working,
            Shelf::PreflightReports,
            report,
        ),
        EdlOp::SetWorkflowLens { lens } => set_workflow_lens(working, lens),
        EdlOp::SetPipelineReadiness { readiness, planner_passes } => set_pipeline_readiness(
            working,
            readiness,
            planner_passes,
        ),
        EdlOp::SetBrandKit { kit } => apply_set_brand_kit(working, index, kit, &a.kit),
    }
}

} // verus!

//! Every refusal names the op that is refused.
use vstd::prelude::*;

use crate::adjust::{replaced, rolled, slid, slipped};
use crate::audio::{
    audio_removed, clip_fx_set, clip_muted, ducking_set, fade_set, split_edit_set, sync_set,
    track_audio_set, track_fx_set, volume_set, SplitEditKind,
};
use crate::carve::{appended, cut_range, overwritten};
use crate::dispatch::{located, op_done, Answers};
use crate::docs::{
    animation_set, reframe_authored, AnimationVerdict, ParameterAnimation, ReframeAnswer,
};
use crate::edit::{track_at, track_named};
use crate::effect::{
    correction_set, effect_set, freeze_pairs, lut_applied, lut_removed, speed_set, time_remap_pairs,
    ColorCorrection, EffectVerdict,
};
use crate::effects::{FREEZE, TIME_REMAP};
use crate::engine::{advanced, after_ops};
use crate::envelope::{EdlOp, ProfessionalTimelineEdit};
use crate::error::{AnchorMiss, Refusal};
use crate::gap::deleted_clip;
use crate::insert::{inserted_clip, InsertRequestModel};
use crate::laws::lemma_records;
use crate::lut::LutFile;
use crate::marker::{deleted_marker, marked, updated_marker, MarkerChange};
use crate::meta::{Meta, Pairs};
use crate::model::{
    opt, ClipLocator, SemanticCutSpecModel, SplitEditSpecModel, StackChildModel, TimelineModel,
    TrackChildModel, TrackKind,
};
use crate::move_clip::{moved_clip, ripple_moved};
use crate::multicam::{decision_ok, decisions_ok_from, multicam_applied};
use crate::nested::{flat, flattened, wrapped};
use crate::num::Num;
use crate::op::{
    AudioFxConfig, BRollPosition, BetweenPlaces, GapSide, InsertTrackKind, MarkerSelector,
    MulticamApplyPlan, MulticamDecision, RippleTrimEdge, SnapOptions, SourceRange,
    TransitionVerdict,
};
use crate::output::{
    brand_kit_set, broadcast_overlay_set, entries_ok, loudness_set, output_format_set, overlay_ok,
    package_set, BrandKit, BroadcastOverlayConfig, BroadcastTimedEntry,
};
use crate::overlay::{broll_inserted, pip_inserted, PipRequest};
use crate::professional::{edit_done, professional, ripple_trim_done};
use crate::ripple::{ripple_deleted, ripple_trimmed};
use crate::split::split_clip_op;
use crate::template::{
    generated_id, template_instantiated, template_of, with_animations, with_titles,
    LoweredAnimation, LoweredTitle, TemplateVerdict,
};
use crate::text::{trimmed, Str};
use crate::title::{
    annotation_inserted, caption_inserted, rich_title_inserted, title_inserted, title_set,
    Annotation, Caption, RichTitle, TextOverlayModel, TitleChange,
};
use crate::tracks::{deleted_gap, deleted_track, inserted_track, trimmed_tail};
use crate::transition::{deleted_transition, inserted_transition, set_cut, TransitionRequest};
use crate::trim::{trimmed_clip, untrimmed_clip};

verus! {

/// The op that a refusal names.
pub open spec fn refused_op(r: Refusal) -> usize {
    match r {
        Refusal::AnchorMiss { index, .. } => index,
        Refusal::Invalid { index, .. } => index,
        Refusal::OtioInvalid { index, .. } => index,
        Refusal::NotImplemented { index, .. } => index,
    }
}

proof fn lemma_rolled(tl: TimelineModel, index: usize, delta_s: Num, places: BetweenPlaces)
    ensures
        rolled(tl, index, delta_s, places) matches Err(e) ==> refused_op(e) == index,
{
}

proof fn lemma_slid(
    tl: TimelineModel,
    index: usize,
    delta_s: Num,
    locator: Option<ClipLocator>,
)
    ensures
        slid(tl, index, delta_s, locator) matches Err(e) ==> refused_op(e) == index,
{
}

proof fn lemma_slipped(
    tl: TimelineModel,
    index: usize,
    delta_s: Num,
    locator: Option<ClipLocator>,
)
    ensures
        slipped(tl, index, delta_s, locator) matches Err(e) ==> refused_op(e) == index,
{
}

proof fn lemma_replaced(
    tl: TimelineModel,
    index: usize,
    asset: Str,
    q: SourceRange,
    locator: Option<ClipLocator>,
)
    ensures
        replaced(tl, index, asset, q, locator) matches Err(e) ==> refused_op(e) == index,
{
}

proof fn lemma_volume_set(
    tl: TimelineModel,
    index: usize,
    value: Num,
    locator: Option<ClipLocator>,
)
    ensures
        volume_set(tl, index, value, locator) matches Err(e) ==> refused_op(e) == index,
{
}

proof fn lemma_clip_muted(
    tl: TimelineModel,
    index: usize,
    muted: bool,
    locator: Option<ClipLocator>,
)
    ensures
        clip_muted(tl, index, muted, locator) matches Err(e) ==> refused_op(e) == index,
{
}

proof fn lemma_audio_removed(
    tl: TimelineModel,
    index: usize,
    start_s: Option<Num>,
    end_s: Option<Num>,
    clear: bool,
    locator: Option<ClipLocator>,
)
    ensures
        audio_removed(
            tl,
            index,
            start_s,
            end_s,
            clear,
            locator,
        ) matches Err(e) ==> refused_op(e) == index,
{
}

proof fn lemma_fade_set(
    tl: TimelineModel,
    index: usize,
    fade_in_s: Option<Num>,
    fade_out_s: Option<Num>,
    locator: Option<ClipLocator>,
)
    ensures
        fade_set(
            tl,
            index,
            fade_in_s,
            fade_out_s,
            locator,
        ) matches Err(e) ==> refused_op(e) == index,
{
}

proof fn lemma_split_edit_set(
    tl: TimelineModel,
    index: usize,
    offset_s: Num,
    kind: SplitEditKind,
    given: Option<SplitEditSpecModel>,
    locator: Option<ClipLocator>,
)
    ensures
        split_edit_set(
            tl,
            index,
            offset_s,
            kind,
            given,
            locator,
        ) matches Err(e) ==> refused_op(e) == index,
{
}

proof fn lemma_track_audio_set(
    tl: TimelineModel,
    index: usize,
    name: Str,
    role: Option<Str>,
    volume: Option<Num>,
    muted: Option<bool>,
    solo: Option<bool>,
)
    ensures
        track_audio_set(
            tl,
            index,
            name,
            role,
            volume,
            muted,
            solo,
        ) matches Err(e) ==> refused_op(e) == index,
{
}

proof fn lemma_ducking_set(
    tl: TimelineModel,
    index: usize,
    name: Str,
    enabled: Option<bool>,
    amount_db: Option<Num>,
    attack_ms: Option<Num>,
    release_ms: Option<Num>,
)
    ensures
        ducking_set(
            tl,
            index,
            name,
            enabled,
            amount_db,
            attack_ms,
            release_ms,
        ) matches Err(e) ==> refused_op(e) == index,
{
}

proof fn lemma_sync_set(
    tl: TimelineModel,
    index: usize,
    id: Str,
    offset_s: Num,
    speed_factor: Option<Num>,
    confidence: Option<Num>,
    locator: Option<ClipLocator>,
)
    ensures
        sync_set(
            tl,
            index,
            id,
            offset_s,
            speed_factor,
            confidence,
            locator,
        ) matches Err(e) ==> refused_op(e) == index,
{
}

proof fn lemma_clip_fx_set(
    tl: TimelineModel,
    index: usize,
    fx: AudioFxConfig,
    locator: Option<ClipLocator>,
)
    ensures
        clip_fx_set(tl, index, fx, locator) matches Err(e) ==> refused_op(e) == index,
{
}

proof fn lemma_track_fx_set(tl: TimelineModel, index: usize, name: Str, fx: AudioFxConfig)
    ensures
        track_fx_set(tl, index, name, fx) matches Err(e) ==> refused_op(e) == index,
{
}

proof fn lemma_cut_range(
    tl: TimelineModel,
    index: usize,
    r: SourceRange,
    tracks: Seq<String>,
    close: bool,
    ids: Seq<Str>,
)
    ensures
        cut_range(tl, index, r, tracks, close, ids) matches Err(e) ==> refused_op(e) == index,
{
}

proof fn lemma_overwritten(
    tl: TimelineModel,
    index: usize,
    name: Str,
    r: SourceRange,
    asset: Str,
    ids: Seq<Str>,
)
    ensures
        overwritten(tl, index, name, r, asset, ids) matches Err(e) ==> refused_op(e) == index,
{
}

proof fn lemma_appended(
    tl: TimelineModel,
    index: usize,
    track: Str,
    asset: Str,
    r: SourceRange,
    id: Str,
)
    ensures
        appended(tl, index, track, asset, r, id) matches Err(e) ==> refused_op(e) == index,
{
}

proof fn lemma_reframe_authored(
    tl: TimelineModel,
    index: usize,
    track_id: Str,
    clip_id: Str,
    answer: Result<ReframeAnswer, String>,
)
    ensures
        reframe_authored(
            tl,
            index,
            track_id,
            clip_id,
            answer,
        ) matches Err(e) ==> refused_op(e) == index,
{
}

proof fn lemma_animation_set(
    tl: TimelineModel,
    index: usize,
    a: ParameterAnimation,
    v: AnimationVerdict,
)
    ensures
        animation_set(tl, index, a, v) matches Err(e) ==> refused_op(e) == index,
{
}

proof fn lemma_effect_set(
    tl: TimelineModel,
    index: usize,
    effect_id: Str,
    params: Pairs,
    rationale: Option<Str>,
    v: EffectVerdict,
    locator: Option<ClipLocator>,
)
    ensures
        effect_set(
            tl,
            index,
            effect_id,
            params,
            rationale,
            v,
            locator,
        ) matches Err(e) ==> refused_op(e) == index,
{
}

proof fn lemma_speed_set(
    tl: TimelineModel,
    index: usize,
    factor: Num,
    locator: Option<ClipLocator>,
)
    ensures
        speed_set(tl, index, factor, locator) matches Err(e) ==> refused_op(e) == index,
{
}

proof fn lemma_correction_set(
    tl: TimelineModel,
    index: usize,
    k: ColorCorrection,
    locator: Option<ClipLocator>,
)
    ensures
        correction_set(tl, index, k, locator) matches Err(e) ==> refused_op(e) == index,
{
}

proof fn lemma_lut_applied(
    tl: TimelineModel,
    index: usize,
    lut_path: Str,
    interpolation: Option<Str>,
    strength: Option<Num>,
    found: LutFile,
    locator: Option<ClipLocator>,
)
    ensures
        lut_applied(
            tl,
            index,
            lut_path,
            interpolation,
            strength,
            found,
            locator,
        ) matches Err(e) ==> refused_op(e) == index,
{
}

proof fn lemma_lut_removed(tl: TimelineModel, index: usize, locator: Option<ClipLocator>)
    ensures
        lut_removed(tl, index, locator) matches Err(e) ==> refused_op(e) == index,
{
}

proof fn lemma_deleted_clip(tl: TimelineModel, index: usize, locator: Option<ClipLocator>)
    ensures
        deleted_clip(tl, index, locator) matches Err(e) ==> refused_op(e) == index,
{
}

proof fn lemma_inserted_clip(tl: TimelineModel, index: usize, q: InsertRequestModel, id: Str)
    ensures
        inserted_clip(tl, index, q, id) matches Err(e) ==> refused_op(e) == index,
{
}

proof fn lemma_marked(
    tl: TimelineModel,
    index: usize,
    at_s: Num,
    label: Str,
    category: Option<Str>,
)
    ensures
        marked(tl, index, at_s, label, category) matches Err(e) ==> refused_op(e) == index,
{
}

proof fn lemma_updated_marker(
    tl: TimelineModel,
    index: usize,
    s: MarkerSelector,
    q: MarkerChange,
    place: Option<Result<ClipLocator, AnchorMiss>>,
)
    ensures
        updated_marker(tl, index, s, q, place) matches Err(e) ==> refused_op(e) == index,
{
}

proof fn lemma_deleted_marker(
    tl: TimelineModel,
    index: usize,
    s: MarkerSelector,
    place: Option<Result<ClipLocator, AnchorMiss>>,
)
    ensures
        deleted_marker(tl, index, s, place) matches Err(e) ==> refused_op(e) == index,
{
}

proof fn lemma_moved_clip(
    tl: TimelineModel,
    index: usize,
    to_position: usize,
    at_s: Option<Num>,
    snap: Option<SnapOptions>,
    locator: Option<ClipLocator>,
)
    ensures
        moved_clip(
            tl,
            index,
            to_position,
            at_s,
            snap,
            locator,
        ) matches Err(e) ==> refused_op(e) == index,
{
}

proof fn lemma_ripple_moved(
    tl: TimelineModel,
    index: usize,
    delta_s: Num,
    snap: Option<SnapOptions>,
    locator: Option<ClipLocator>,
)
    ensures
        ripple_moved(
            tl,
            index,
            delta_s,
            snap,
            locator,
        ) matches Err(e) ==> refused_op(e) == index,
{
}

proof fn lemma_decisions_ok_from(index: usize, ds: Seq<MulticamDecision>, k: int)
    ensures
        decisions_ok_from(index, ds, k) matches Err(e) ==> refused_op(e) == index,
    decreases ds.len() - k,
{
    if 0 <= k < ds.len() && decision_ok(index, ds, k) is Ok {
        lemma_decisions_ok_from(index, ds, k + 1);
    }
}

proof fn lemma_multicam_applied(
    tl: TimelineModel,
    index: usize,
    plan: MulticamApplyPlan,
    ids: Seq<Str>,
)
    ensures
        multicam_applied(tl, index, plan, ids) matches Err(e) ==> refused_op(e) == index,
{
    lemma_decisions_ok_from(index, plan.decisions@, 0);
}

proof fn lemma_wrapped(
    tl: TimelineModel,
    index: usize,
    track: Str,
    lo: usize,
    hi: usize,
    name: Option<Str>,
)
    ensures
        wrapped(tl, index, track, lo, hi, name) matches Err(e) ==> refused_op(e) == index,
{
}

proof fn lemma_flat(index: usize, layers: Seq<StackChildModel>, kind: TrackKind, n: int)
    ensures
        flat(index, layers, kind, n) matches Err(e) ==> refused_op(e) == index,
    decreases n,
{
    if n > 0 {
        lemma_flat(index, layers, kind, n - 1);
    }
}

proof fn lemma_flattened(tl: TimelineModel, index: usize, track: Str, j: usize)
    ensures
        flattened(tl, index, track, j) matches Err(e) ==> refused_op(e) == index,
{
    let t = track_at(tl, track_named(tl, trimmed(track))->0)->0;
    if let TrackChildModel::Stack(s) = t.children[j as int] {
        lemma_flat(index, s.children, t.kind, s.children.len() as int);
    }
}

proof fn lemma_output_format_set(
    tl: TimelineModel,
    index: usize,
    aspect_ratio: Str,
    platform: Option<String>,
    safe_area: Option<String>,
)
    ensures
        output_format_set(
            tl,
            index,
            aspect_ratio,
            platform,
            safe_area,
        ) matches Err(e) ==> refused_op(e) == index,
{
}

proof fn lemma_loudness_set(
    tl: TimelineModel,
    index: usize,
    integrated_lufs: Num,
    true_peak_db: Option<Num>,
)
    ensures
        loudness_set(
            tl,
            index,
            integrated_lufs,
            true_peak_db,
        ) matches Err(e) ==> refused_op(e) == index,
{
}

proof fn lemma_package_set(
    tl: TimelineModel,
    index: usize,
    platform: Option<String>,
    title: Option<String>,
    description: Option<String>,
    tags: Option<String>,
)
    ensures
        package_set(
            tl,
            index,
            platform,
            title,
            description,
            tags,
        ) matches Err(e) ==> refused_op(e) == index,
{
}

proof fn lemma_entries_ok(
    index: usize,
    field: Str,
    entries: Seq<BroadcastTimedEntry>,
    from: int,
)
    ensures
        entries_ok(index, field, entries, from) matches Err(e) ==> refused_op(e) == index,
    decreases entries.len() - from,
{
    if 0 <= from < entries.len() {
        lemma_entries_ok(index, field, entries, from + 1);
    }
}

proof fn lemma_overlay_ok(index: usize, c: BroadcastOverlayConfig)
    ensures
        overlay_ok(index, c) matches Err(e) ==> refused_op(e) == index,
{
    lemma_entries_ok(index, "topics"@, c.topics@, 0);
    lemma_entries_ok(index, "chapters"@, c.chapters@, 0);
}

proof fn lemma_broadcast_overlay_set(
    tl: TimelineModel,
    index: usize,
    config: BroadcastOverlayConfig,
    branded: Option<BroadcastOverlayConfig>,
)
    ensures
        broadcast_overlay_set(
            tl,
            index,
            config,
            branded,
        ) matches Err(e) ==> refused_op(e) == index,
{
    lemma_overlay_ok(index, config);
}

proof fn lemma_brand_kit_set(tl: TimelineModel, index: usize, kit: BrandKit, branded: Option<Meta>)
    ensures
        brand_kit_set(tl, index, kit, branded) matches Err(e) ==> refused_op(e) == index,
{
}

proof fn lemma_broll_inserted(
    tl: TimelineModel,
    index: usize,
    asset: Str,
    duration_s: Num,
    position: BRollPosition,
    locator: Option<ClipLocator>,
    ids: Seq<Str>,
)
    ensures
        broll_inserted(
            tl,
            index,
            asset,
            duration_s,
            position,
            locator,
            ids,
        ) matches Err(e) ==> refused_op(e) == index,
{
}

proof fn lemma_pip_inserted(
    tl: TimelineModel,
    index: usize,
    q: PipRequest,
    locator: Option<ClipLocator>,
    id: Str,
)
    ensures
        pip_inserted(tl, index, q, locator, id) matches Err(e) ==> refused_op(e) == index,
{
}

proof fn lemma_ripple_trim_done(
    tl: TimelineModel,
    index: usize,
    new_end_s: Num,
    ripple_tracks: Seq<String>,
    locator: Option<ClipLocator>,
)
    ensures
        ripple_trim_done(
            tl,
            index,
            new_end_s,
            ripple_tracks,
            locator,
        ) matches Err(e) ==> refused_op(e) == index,
{
}

proof fn lemma_edit_done(
    tl: TimelineModel,
    index: usize,
    edit: ProfessionalTimelineEdit,
    locator: Option<ClipLocator>,
    places: BetweenPlaces,
    marker: Option<Result<ClipLocator, AnchorMiss>>,
    ids: Seq<Str>,
)
    ensures
        edit_done(
            tl,
            index,
            edit,
            locator,
            places,
            marker,
            ids,
        ) matches Err(e) ==> refused_op(e) == index,
{
    match edit {
        ProfessionalTimelineEdit::RippleTrim { anchor, new_end_s, ripple_tracks } => {
            lemma_ripple_trim_done(tl, index, new_end_s, ripple_tracks@, locator);
        },
        ProfessionalTimelineEdit::SlipClip { anchor, delta_s } => {
            lemma_slipped(tl, index, delta_s, locator);
        },
        ProfessionalTimelineEdit::AddMarker { at_s, label, category } => {
            lemma_marked(tl, index, at_s, label@, opt(category));
        },
        ProfessionalTimelineEdit::UpdateMarker { selector, change } => {
            lemma_updated_marker(tl, index, selector, change, marker);
        },
        ProfessionalTimelineEdit::DeleteMarker { selector } => {
            lemma_deleted_marker(tl, index, selector, marker);
        },
        ProfessionalTimelineEdit::RollEdit { between, delta_s } => {
            lemma_rolled(tl, index, delta_s, places);
        },
        ProfessionalTimelineEdit::SlideClip { anchor, delta_s } => {
            lemma_slid(tl, index, delta_s, locator);
        },
        ProfessionalTimelineEdit::LiftRange { range, tracks } => {
            lemma_cut_range(tl, index, range, tracks@, false, ids);
        },
        ProfessionalTimelineEdit::ExtractRange { range, tracks } => {
            lemma_cut_range(tl, index, range, tracks@, true, ids);
        },
        ProfessionalTimelineEdit::ReplaceClip { anchor, asset, range } => {
            lemma_replaced(tl, index, asset@, range, locator);
        },
        ProfessionalTimelineEdit::Append { track, asset, range } => {
            lemma_appended(tl, index, track@, asset@, range, ids[0]);
        },
        ProfessionalTimelineEdit::Overwrite { track, range, asset } => {
            lemma_overwritten(tl, index, track@, range, asset@, ids);
        },
        ProfessionalTimelineEdit::WrapAsNested { track, start_index, end_index, name } => {
            lemma_wrapped(tl, index, track@, start_index, end_index, opt(name));
        },
        ProfessionalTimelineEdit::FlattenNested { track, child_index } => {
            lemma_flattened(tl, index, track@, child_index);
        },
    }
}

proof fn lemma_professional(
    tl: TimelineModel,
    index: usize,
    edit: ProfessionalTimelineEdit,
    document: Meta,
    locator: Option<ClipLocator>,
    places: BetweenPlaces,
    marker: Option<Result<ClipLocator, AnchorMiss>>,
    ids: Seq<Str>,
)
    ensures
        professional(
            tl,
            index,
            edit,
            document,
            locator,
            places,
            marker,
            ids,
        ) matches Err(e) ==> refused_op(e) == index,
{
    lemma_edit_done(tl, index, edit, locator, places, marker, ids);
}

proof fn lemma_ripple_deleted(tl: TimelineModel, index: usize, locator: Option<ClipLocator>)
    ensures
        ripple_deleted(tl, index, locator) matches Err(e) ==> refused_op(e) == index,
{
}

proof fn lemma_ripple_trimmed(
    tl: TimelineModel,
    index: usize,
    edge: RippleTrimEdge,
    value_s: Num,
    locator: Option<ClipLocator>,
)
    ensures
        ripple_trimmed(
            tl,
            index,
            edge,
            value_s,
            locator,
        ) matches Err(e) ==> refused_op(e) == index,
{
}

proof fn lemma_split_clip_op(
    tl: TimelineModel,
    index: usize,
    at_s: Num,
    snap: Option<SnapOptions>,
    locator: Option<ClipLocator>,
    ids: Seq<Str>,
)
    ensures
        split_clip_op(
            tl,
            index,
            at_s,
            snap,
            locator,
            ids,
        ) matches Err(e) ==> refused_op(e) == index,
{
}

proof fn lemma_with_titles(
    tl: TimelineModel,
    index: usize,
    titles: Seq<LoweredTitle>,
    first_id: Option<Str>,
    n: int,
    ids: Seq<Str>,
)
    ensures
        with_titles(
            tl,
            index,
            titles,
            first_id,
            n,
            ids,
        ) matches Err(e) ==> refused_op(e) == index,
    decreases n,
{
    if n > 0 {
        lemma_with_titles(tl, index, titles, first_id, n - 1, ids);
    }
}

proof fn lemma_with_animations(
    tl: TimelineModel,
    index: usize,
    animations: Seq<LoweredAnimation>,
    n: int,
)
    ensures
        with_animations(tl, index, animations, n) matches Err(e) ==> refused_op(e) == index,
    decreases n,
{
    if n > 0 {
        lemma_with_animations(tl, index, animations, n - 1);
    }
}

proof fn lemma_template_instantiated(
    tl: TimelineModel,
    index: usize,
    template_id: Str,
    start_s: Num,
    end_s: Num,
    values: Pairs,
    v: TemplateVerdict,
    ids: Seq<Str>,
)
    ensures
        template_instantiated(
            tl,
            index,
            template_id,
            start_s,
            end_s,
            values,
            v,
            ids,
        ) matches Err(e) ==> refused_op(e) == index,
{
    if let Some(template) = template_of(tl, template_id, opt(v.built_in)) {
        if let Ok(l) = v.lowered {
            let first = generated_id(template, values, template_id, index);
            let n = l.titles@.len() as int;
            lemma_with_titles(tl, index, l.titles@, first, n, ids);
            if let Ok(t) = with_titles(tl, index, l.titles@, first, n, ids) {
                lemma_with_animations(t, index, l.animations@, l.animations@.len() as int);
            }
        }
    }
}

proof fn lemma_title_inserted(
    tl: TimelineModel,
    index: usize,
    q: TextOverlayModel,
    font_family: Option<Str>,
    font_path: Option<Str>,
    id: Str,
)
    ensures
        title_inserted(
            tl,
            index,
            q,
            font_family,
            font_path,
            id,
        ) matches Err(e) ==> refused_op(e) == index,
{
}

proof fn lemma_rich_title_inserted(tl: TimelineModel, index: usize, t: RichTitle, id: Str)
    ensures
        rich_title_inserted(tl, index, t, id) matches Err(e) ==> refused_op(e) == index,
{
}

proof fn lemma_caption_inserted(tl: TimelineModel, index: usize, c: Caption, id: Str)
    ensures
        caption_inserted(tl, index, c, id) matches Err(e) ==> refused_op(e) == index,
{
}

proof fn lemma_annotation_inserted(tl: TimelineModel, index: usize, q: Annotation, id: Str)
    ensures
        annotation_inserted(tl, index, q, id) matches Err(e) ==> refused_op(e) == index,
{
}

proof fn lemma_title_set(
    tl: TimelineModel,
    index: usize,
    ch: TitleChange,
    locator: Option<ClipLocator>,
)
    ensures
        title_set(tl, index, ch, locator) matches Err(e) ==> refused_op(e) == index,
{
}

proof fn lemma_deleted_gap(
    tl: TimelineModel,
    index: usize,
    side: GapSide,
    locator: Option<ClipLocator>,
)
    ensures
        deleted_gap(tl, index, side, locator) matches Err(e) ==> refused_op(e) == index,
{
}

proof fn lemma_trimmed_tail(tl: TimelineModel, index: usize, name: Str)
    ensures
        trimmed_tail(tl, index, name) matches Err(e) ==> refused_op(e) == index,
{
}

proof fn lemma_inserted_track(
    tl: TimelineModel,
    index: usize,
    name: Str,
    kind: InsertTrackKind,
    at_position: Option<usize>,
)
    ensures
        inserted_track(
            tl,
            index,
            name,
            kind,
            at_position,
        ) matches Err(e) ==> refused_op(e) == index,
{
}

proof fn lemma_deleted_track(tl: TimelineModel, index: usize, name: Str, force: bool)
    ensures
        deleted_track(tl, index, name, force) matches Err(e) ==> refused_op(e) == index,
{
}

proof fn lemma_inserted_transition(
    tl: TimelineModel,
    index: usize,
    q: TransitionRequest,
    v: TransitionVerdict,
    places: BetweenPlaces,
)
    ensures
        inserted_transition(tl, index, q, v, places) matches Err(e) ==> refused_op(e) == index,
{
}

proof fn lemma_deleted_transition(tl: TimelineModel, index: usize, places: BetweenPlaces)
    ensures
        deleted_transition(tl, index, places) matches Err(e) ==> refused_op(e) == index,
{
}

proof fn lemma_set_cut(
    tl: TimelineModel,
    index: usize,
    s: SemanticCutSpecModel,
    places: BetweenPlaces,
)
    ensures
        set_cut(tl, index, s, places) matches Err(e) ==> refused_op(e) == index,
{
}

proof fn lemma_trimmed_clip(
    tl: TimelineModel,
    index: usize,
    new_start: Option<Num>,
    new_end: Option<Num>,
    locator: Option<ClipLocator>,
)
    ensures
        trimmed_clip(
            tl,
            index,
            new_start,
            new_end,
            locator,
        ) matches Err(e) ==> refused_op(e) == index,
{
}

proof fn lemma_untrimmed_clip(
    tl: TimelineModel,
    index: usize,
    new_start: Option<Num>,
    new_end: Option<Num>,
    locator: Option<ClipLocator>,
)
    ensures
        untrimmed_clip(
            tl,
            index,
            new_start,
            new_end,
            locator,
        ) matches Err(e) ==> refused_op(e) == index,
{
}

/// An op that is refused is named in the refusal.
#[verifier::rlimit(50)]
pub proof fn law_refusal_names_the_op(
    tl: TimelineModel,
    index: usize,
    op: EdlOp,
    a: Answers,
    loc: Option<ClipLocator>,
    ids: Seq<Str>,
)
    ensures
        op_done(tl, index, op, a, loc, ids) matches Err(e) ==> refused_op(e) == index,
{
    reveal(op_done);
    match op {
        EdlOp::TrimClip { start, end, .. } => {
            lemma_trimmed_clip(tl, index, start, end, loc);
        },
        EdlOp::DeleteClip { .. } => {
            lemma_deleted_clip(tl, index, loc);
        },
        EdlOp::SplitClip { at_s, snap, .. } => {
            lemma_split_clip_op(tl, index, at_s, snap, loc, ids);
        },
        EdlOp::UntrimClip { start, end, .. } => {
            lemma_untrimmed_clip(tl, index, start, end, loc);
        },
        EdlOp::InsertClip { request } => {
            lemma_inserted_clip(tl, index, request@, ids[0]);
        },
        EdlOp::InsertBRoll { asset, duration_s, position, .. } => {
            lemma_broll_inserted(tl, index, asset@, duration_s, position, loc, ids);
        },
        EdlOp::InsertPiP { request, .. } => {
            lemma_pip_inserted(tl, index, request, loc, ids[0]);
        },
        EdlOp::MoveClip { to_position, at_s, snap, .. } => {
            lemma_moved_clip(tl, index, to_position, at_s, snap, loc);
        },
        EdlOp::RippleMove { delta_s, snap, .. } => {
            lemma_ripple_moved(tl, index, delta_s, snap, loc);
        },
        EdlOp::RippleDelete { .. } => {
            lemma_ripple_deleted(tl, index, loc);
        },
        EdlOp::RippleTrim { edge, value_s, .. } => {
            lemma_ripple_trimmed(tl, index, edge, value_s, loc);
        },
        EdlOp::DeleteGap { side, .. } => {
            lemma_deleted_gap(tl, index, side, loc);
        },
        EdlOp::TrimTrackTail { track } => {
            lemma_trimmed_tail(tl, index, track@);
        },
        EdlOp::InsertTrack { name, kind, at_position } => {
            lemma_inserted_track(tl, index, name@, kind, at_position);
        },
        EdlOp::DeleteTrack { name, force } => {
            lemma_deleted_track(tl, index, name@, force);
        },
        EdlOp::ApplyMulticamPlan { plan } => {
            lemma_multicam_applied(tl, index, plan, ids);
        },
        EdlOp::InsertTransition { request, .. } => {
            lemma_inserted_transition(tl, index, request, a.transition, a.between);
        },
        EdlOp::DeleteTransition { .. } => {
            lemma_deleted_transition(tl, index, a.between);
        },
        EdlOp::SetCutIntent { spec, .. } => {
            lemma_set_cut(tl, index, spec@, a.between);
        },
        EdlOp::SetVolume { value, .. } => {
            lemma_volume_set(tl, index, value, loc);
        },
        EdlOp::MuteClip { muted, .. } => {
            lemma_clip_muted(tl, index, muted, loc);
        },
        EdlOp::RemoveAudio { start_s, end_s, clear, .. } => {
            lemma_audio_removed(tl, index, start_s, end_s, clear, loc);
        },
        EdlOp::SetAudioFade { fade_in_s, fade_out_s, .. } => {
            lemma_fade_set(tl, index, fade_in_s, fade_out_s, loc);
        },
        EdlOp::SetAudioLead { lead_s, split_edit, .. } => {
            lemma_split_edit_set(
                tl,
                index,
                lead_s,
                SplitEditKind::AudioLead,
                opt(split_edit),
                loc,
            );
        },
        EdlOp::SetAudioTrail { trail_s, split_edit, .. } => {
            lemma_split_edit_set(
                tl,
                index,
                trail_s,
                SplitEditKind::AudioTrail,
                opt(split_edit),
                loc,
            );
        },
        EdlOp::SetTrackAudio { track, role, volume, muted, solo } => {
            lemma_track_audio_set(tl, index, track@, opt(role), volume, muted, solo);
        },
        EdlOp::SetDucking { track, enabled, amount_db, attack_ms, release_ms } => {
            lemma_ducking_set(tl, index, track@, enabled, amount_db, attack_ms, release_ms);
        },
        EdlOp::SetSyncGroup { sync_group_id, offset_s, speed_factor, confidence, .. } => {
            lemma_sync_set(tl, index, sync_group_id@, offset_s, speed_factor, confidence, loc);
        },
        EdlOp::SetClipAudioFx { fx, .. } => {
            lemma_clip_fx_set(tl, index, fx, loc);
        },
        EdlOp::SetTrackAudioFx { track, fx } => {
            lemma_track_fx_set(tl, index, track@, fx);
        },
        EdlOp::SetEffect { effect, params, rationale, .. } => {
            lemma_effect_set(tl, index, effect@, params@, opt(rationale), a.effect, loc);
        },
        EdlOp::SetSpeed { factor, .. } => {
            lemma_speed_set(tl, index, factor, loc);
        },
        EdlOp::SetTimeRemap { curve, .. } => {
            lemma_effect_set(tl, index, TIME_REMAP@, time_remap_pairs(curve@), None, a.effect, loc);
        },
        EdlOp::SetFreeze {
            freeze_at_source_s,
            duration_s,
            freeze_position,
            audio_behavior,
            ..
        } => {
            let params = freeze_pairs(
                freeze_at_source_s,
                duration_s,
                opt(freeze_position),
                opt(audio_behavior),
            );
            lemma_effect_set(tl, index, FREEZE@, params, None, a.effect, loc);
        },
        EdlOp::SetColorCorrection { correction, .. } => {
            lemma_correction_set(tl, index, correction, loc);
        },
        EdlOp::ApplyLut { lut_path, interpolation, strength, .. } => {
            lemma_lut_applied(tl, index, lut_path@, opt(interpolation), strength, a.lut, loc);
        },
        EdlOp::RemoveLut { .. } => {
            lemma_lut_removed(tl, index, loc);
        },
        EdlOp::InsertTitle { title, font_family, font_path } => {
            lemma_title_inserted(tl, index, title@, opt(font_family), opt(font_path), ids[0]);
        },
        EdlOp::InsertRichTitle { title } => {
            lemma_rich_title_inserted(tl, index, title, ids[0]);
        },
        EdlOp::InstantiateMotionTemplate { template_id, start_s, end_s, slot_values, .. } => {
            lemma_template_instantiated(
                tl,
                index,
                template_id@,
                start_s,
                end_s,
                slot_values@,
                a.template,
                ids,
            );
        },
        EdlOp::SetTitle { change, .. } => {
            lemma_title_set(tl, index, change, loc);
        },
        EdlOp::InsertCaption { caption } => {
            lemma_caption_inserted(tl, index, caption, ids[0]);
        },
        EdlOp::InsertAnnotation { annotation } => {
            lemma_annotation_inserted(tl, index, annotation, ids[0]);
        },
        EdlOp::SetOutputFormat { aspect_ratio, platform, safe_area } => {
            lemma_output_format_set(tl, index, aspect_ratio@, platform, safe_area);
        },
        EdlOp::SetLoudnessTarget { integrated_lufs, true_peak_db } => {
            lemma_loudness_set(tl, index, integrated_lufs, true_peak_db);
        },
        EdlOp::SetPackageMetadata { platform, title, description, tags } => {
            lemma_package_set(tl, index, platform, title, description, tags);
        },
        EdlOp::SetBroadcastOverlay { config } => {
            lemma_broadcast_overlay_set(tl, index, config, a.overlay);
        },
        EdlOp::ProfessionalTimelineEdit { edit, document } => {
            lemma_professional(tl, index, edit, document@, loc, a.between, a.marker, ids);
        },
        EdlOp::SetParameterAnimation { animation } => {
            lemma_animation_set(tl, index, animation, a.animation);
        },
        EdlOp::AuthorSubjectReframeFromTrack { track_id, request } => {
            lemma_reframe_authored(tl, index, track_id@, request.clip_id@, a.reframe);
        },
        EdlOp::SetBrandKit { kit } => {
            lemma_brand_kit_set(tl, index, kit, opt(a.kit));
        },
        _ => {},
    }
}

/// An envelope that is refused at one of its ops says at which.
pub proof fn law_envelope_refusal_names_the_op(
    original: TimelineModel,
    ops: Seq<EdlOp>,
    answers: Seq<Answers>,
    drawn: Seq<Seq<Str>>,
    n: int,
)
    requires
        0 <= n < ops.len() <= usize::MAX,
        after_ops(original, ops, answers, drawn, n) is Ok,
    ensures
        after_ops(original, ops, answers, drawn, n + 1) matches Err(e) ==> refused_op(e) == n,
{
    reveal(advanced);
    lemma_records(original, ops, answers, drawn, n);
    let s = after_ops(original, ops, answers, drawn, n)->Ok_0;
    let index = s.applied.len() as usize;
    if let Ok(loc) = located(index, ops[n], answers[n]) {
        law_refusal_names_the_op(s.working, index, ops[n], answers[n], loc, drawn[n]);
    }
}

} // verus!

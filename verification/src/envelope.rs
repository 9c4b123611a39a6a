//! Ops, and the envelopes that bring them.
use vstd::prelude::*;

use crate::docs::{ParameterAnimation, WorkflowLens};
use crate::effect::ColorCorrection;
use crate::insert::InsertRequest;
use crate::marker::MarkerChange;
use crate::meta::{MetaMap, MetaValue};
use crate::model::{Document, SemanticCutSpec, SplitEditSpec};
use crate::num::Num;
use crate::op::{
    Anchor, AudioFxConfig, BRollPosition, GapSide, InsertTrackKind, MarkerSelector,
    MulticamApplyPlan, RippleTrimEdge, SnapOptions, SourceRange,
};
use crate::output::{BrandKit, BroadcastOverlayConfig};
use crate::overlay::PipRequest;
use crate::template::MotionTemplateAnimation;
use crate::title::{Annotation, Caption, RichTitle, TextOverlay, TitleChange};
use crate::transition::TransitionRequest;

verus! {

/// The two clips at a cut.
#[derive(Debug)]
pub struct TransitionBetween {
    pub from: Anchor,
    pub to: Anchor,
}

/// How a tracked subject is kept in the picture.
#[derive(Debug)]
pub struct SubjectReframeRequest {
    pub clip_id: String,
    pub aspect_ratio: String,
    pub source_width: u32,
    pub source_height: u32,
    pub target_width: u32,
    pub target_height: u32,
    pub frame_rate: Num,
    pub smoothing: String,
    pub safe_area: Option<String>,
}

/// The edits of the cutting room.
#[derive(Debug)]
pub enum ProfessionalTimelineEdit {
    RippleTrim { anchor: Anchor, new_end_s: Num, ripple_tracks: Vec<String> },
    SlipClip { anchor: Anchor, delta_s: Num },
    AddMarker { at_s: Num, label: String, category: Option<String> },
    UpdateMarker { selector: MarkerSelector, change: MarkerChange },
    DeleteMarker { selector: MarkerSelector },
    RollEdit { between: TransitionBetween, delta_s: Num },
    SlideClip { anchor: Anchor, delta_s: Num },
    LiftRange { range: SourceRange, tracks: Vec<String> },
    ExtractRange { range: SourceRange, tracks: Vec<String> },
    ReplaceClip { anchor: Anchor, asset: String, range: SourceRange },
    Append { track: String, asset: String, range: SourceRange },
    Overwrite { track: String, range: SourceRange, asset: String },
    WrapAsNested { track: String, start_index: usize, end_index: usize, name: Option<String> },
    FlattenNested { track: String, child_index: usize },
}

/// One op.
#[derive(Debug)]
#[allow(inconsistent_fields)]
pub enum EdlOp {
    TrimClip { anchor: Anchor, start: Option<Num>, end: Option<Num> },
    DeleteClip { anchor: Anchor },
    SplitClip { anchor: Anchor, at_s: Num, snap: Option<SnapOptions> },
    UntrimClip { anchor: Anchor, start: Option<Num>, end: Option<Num> },
    InsertClip { request: InsertRequest },
    InsertBRoll { anchor: Anchor, asset: String, duration_s: Num, position: BRollPosition },
    InsertPiP { anchor: Anchor, request: PipRequest },
    MoveClip { anchor: Anchor, to_position: usize, at_s: Option<Num>, snap: Option<SnapOptions> },
    RippleMove { anchor: Anchor, delta_s: Num, snap: Option<SnapOptions> },
    RippleDelete { anchor: Anchor },
    RippleTrim { anchor: Anchor, edge: RippleTrimEdge, value_s: Num },
    DeleteGap { anchor: Anchor, side: GapSide },
    TrimTrackTail { track: String },
    InsertTrack { name: String, kind: InsertTrackKind, at_position: Option<usize> },
    DeleteTrack { name: String, force: bool },
    ApplyMulticamPlan { plan: MulticamApplyPlan },
    InsertTransition { between: TransitionBetween, request: TransitionRequest },
    DeleteTransition { between: TransitionBetween },
    SetCutIntent { between: TransitionBetween, spec: SemanticCutSpec },
    SetVolume { anchor: Anchor, value: Num },
    MuteClip { anchor: Anchor, muted: bool },
    RemoveAudio { anchor: Anchor, start_s: Option<Num>, end_s: Option<Num>, clear: bool },
    SetAudioFade { anchor: Anchor, fade_in_s: Option<Num>, fade_out_s: Option<Num> },
    SetAudioLead { anchor: Anchor, lead_s: Num, split_edit: Option<SplitEditSpec> },
    SetAudioTrail { anchor: Anchor, trail_s: Num, split_edit: Option<SplitEditSpec> },
    SetTrackAudio {
        track: String,
        role: Option<String>,
        volume: Option<Num>,
        muted: Option<bool>,
        solo: Option<bool>,
    },
    SetDucking {
        track: String,
        enabled: Option<bool>,
        amount_db: Option<Num>,
        attack_ms: Option<Num>,
        release_ms: Option<Num>,
    },
    SetSyncGroup {
        anchor: Anchor,
        sync_group_id: String,
        offset_s: Num,
        speed_factor: Option<Num>,
        confidence: Option<Num>,
    },
    SetClipAudioFx { anchor: Anchor, fx: AudioFxConfig },
    SetTrackAudioFx { track: String, fx: AudioFxConfig },
    SetEffect { anchor: Anchor, effect: String, params: MetaMap, rationale: Option<String> },
    SetSpeed { anchor: Anchor, factor: Num },
    SetTimeRemap { anchor: Anchor, curve: MetaValue },
    SetFreeze {
        anchor: Anchor,
        freeze_at_source_s: Num,
        duration_s: Num,
        freeze_position: Option<String>,
        audio_behavior: Option<String>,
    },
    SetColorCorrection { anchor: Anchor, correction: ColorCorrection },
    ApplyLut {
        anchor: Anchor,
        lut_path: String,
        interpolation: Option<String>,
        strength: Option<Num>,
    },
    RemoveLut { anchor: Anchor },
    InsertTitle { title: TextOverlay, font_family: Option<String>, font_path: Option<String> },
    InsertRichTitle { title: RichTitle },
    InstantiateMotionTemplate {
        template_id: String,
        start_s: Num,
        end_s: Num,
        animation: MotionTemplateAnimation,
        slot_values: MetaMap,
    },
    SetTitle { anchor: Anchor, change: TitleChange },
    InsertCaption { caption: Caption },
    InsertAnnotation { annotation: Annotation },
    SetOutputFormat {
        aspect_ratio: String,
        platform: Option<String>,
        safe_area: Option<String>,
    },
    SetLoudnessTarget { integrated_lufs: Num, true_peak_db: Option<Num> },
    SetPackageMetadata {
        platform: Option<String>,
        title: Option<String>,
        description: Option<String>,
        tags: Option<String>,
    },
    SetBroadcastOverlay { config: BroadcastOverlayConfig },
    SetAssetCatalog { catalog: MetaValue },
    SetSourceReview { selects: Vec<MetaValue>, stringouts: Vec<MetaValue> },
    ProfessionalTimelineEdit {
        edit: ProfessionalTimelineEdit,
        /// The whole edit, as it is kept.
        document: MetaValue,
    },
    AddProposalPackage { package: Document },
    SetParameterAnimation { animation: ParameterAnimation },
    SetMotionTemplate { template: Document },
    SetMotionScene { scene: Document },
    AttachComposition {
        graph: Document,
        /// Where it is attached, as it is kept.
        attach_to: Option<MetaValue>,
    },
    SetTrackingPackage { package: MetaValue },
    AuthorSubjectReframeFromTrack { track_id: String, request: SubjectReframeRequest },
    SetColorFinishing { state: MetaValue },
    SetAudioFinishing { state: MetaValue },
    SelectDeliveryProfile { profile: Document },
    AddPreflightReport { report: Document },
    SetWorkflowLens { lens: WorkflowLens },
    SetPipelineReadiness { readiness: MetaValue, planner_passes: Vec<MetaValue> },
    SetBrandKit { kit: BrandKit },
}

/// Ops, to be applied one after the other.
#[derive(Debug)]
pub struct EdlEnvelope {
    pub ops: Vec<EdlOp>,
}

} // verus!

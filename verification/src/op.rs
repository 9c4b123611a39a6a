//! What an editor can be asked to do.
use vstd::prelude::*;

use crate::error::AnchorMiss;
use crate::meta::MetaValue;
use crate::model::{ClipLocator, Stored};
use crate::num::Num;
use crate::text::Str;

verus! {

/// What a time may snap to.
#[derive(Clone, Copy, Debug, PartialEq, Eq, Structural)]
pub enum SnapTargetKind {
    Playhead,
    ClipEdge,
    Marker,
}

/// Whether and how a time snaps.
#[derive(Debug)]
pub struct SnapOptions {
    pub enabled: bool,
    pub tolerance_s: Num,
    /// What to snap to; everything where the list is empty.
    pub targets: Vec<SnapTargetKind>,
}

/// The kind of a track to be made.
#[derive(Clone, Copy, Debug, PartialEq, Eq, Structural)]
pub enum InsertTrackKind {
    Auto,
    Video,
    Audio,
}

/// Where a transition lies about a cut.
#[derive(Clone, Copy, Debug, PartialEq, Eq, Structural)]
pub enum TransitionAlignment {
    Center,
    StartAtCut,
    EndAtCut,
}

/// What a transition is meant to do.
#[derive(Debug)]
pub struct TransitionSpec {
    pub id: String,
    /// The whole spec.
    pub document: MetaValue,
}

/// What the registry of transitions says of one that is to be put in.
#[derive(Debug)]
pub struct TransitionVerdict {
    /// Why the duration is out of bounds.
    pub duration_error: Option<String>,
    /// The renderer's transition, where there is one, or why there is none.
    pub xfade: Result<Option<String>, String>,
    /// The same for the id of the spec.
    pub spec_xfade: Result<Option<String>, String>,
    /// Why the spec is malformed.
    pub spec_error: Option<String>,
    /// The spec to be kept, with its composition filled in.
    pub kept_spec: MetaValue,
}

/// The places of the two clips at a cut, as far as they were found.
#[derive(Debug)]
pub struct BetweenPlaces {
    pub from: Result<ClipLocator, AnchorMiss>,
    pub to: Result<ClipLocator, AnchorMiss>,
}

/// Which end of a clip is moved.
#[derive(Clone, Copy, Debug, PartialEq, Eq, Structural)]
pub enum RippleTrimEdge {
    Start,
    End,
}

/// On which side of a clip empty time is looked for.
#[derive(Clone, Copy, Debug, PartialEq, Eq, Structural)]
pub enum GapSide {
    Before,
    After,
}

/// A stretch of time, in seconds.
#[derive(Clone, Copy, Debug, PartialEq, Eq, Structural)]
pub struct SourceRange {
    pub start_s: Num,
    pub end_s: Num,
}

/// A stretch of the program that shows one camera.
#[derive(Debug)]
pub struct MulticamDecision {
    pub source_asset: String,
    pub start_s: Num,
    pub end_s: Num,
    /// Where in the source the stretch begins; at the program time where none
    /// is given.
    pub source_start_s: Option<Num>,
    pub reason: Option<String>,
    pub speaker: Option<String>,
    pub sync_group_id: Option<String>,
}

/// Which camera the program shows when.
#[derive(Debug)]
pub struct MulticamApplyPlan {
    pub program_track: String,
    pub decisions: Vec<MulticamDecision>,
}

/// What names a clip.
#[derive(Debug)]
pub enum Anchor {
    /// The clip with the unique id, or with the name.
    ClipUuid { uuid: String },
    /// The clip whose transcript holds the text.
    TranscriptSnippet { text: String },
}

/// What an [`Anchor`] holds.
#[verifier::ext_equal]
pub enum AnchorModel {
    ClipUuid { uuid: Str },
    TranscriptSnippet { text: Str },
}

impl View for Anchor {
    type V = AnchorModel;

    open spec fn view(&self) -> AnchorModel {
        match *self {
            Anchor::ClipUuid { uuid } => AnchorModel::ClipUuid { uuid: uuid@ },
            Anchor::TranscriptSnippet { text } => AnchorModel::TranscriptSnippet { text: text@ },
        }
    }
}

impl Stored for Anchor {
    fn copied(&self) -> (r: Anchor) {
        match self {
            Anchor::ClipUuid { uuid } => Anchor::ClipUuid { uuid: uuid.clone() },
            Anchor::TranscriptSnippet { text } => Anchor::TranscriptSnippet { text: text.clone() },
        }
    }
}

/// What names a marker.
#[derive(Debug)]
pub struct MarkerSelector {
    pub marker_id: Option<String>,
    pub anchor: Option<Anchor>,
    pub label: Option<String>,
    pub at_s: Option<Num>,
}

/// Where b-roll goes.
#[derive(Clone, Copy, Debug, PartialEq, Eq, Structural)]
pub enum BRollPosition {
    /// In place of the start of the clip.
    Replace,
    /// On another video track, at the start of the clip.
    Overlay,
}

/// The corner of a picture in the picture.
#[derive(Clone, Copy, Debug, PartialEq, Eq, Structural)]
pub enum PiPCorner {
    TopLeft,
    TopRight,
    BottomLeft,
    BottomRight,
}

/// One band of an equaliser.
#[derive(Clone, Copy, Debug, PartialEq, Eq, Structural)]
pub struct EqBand {
    pub freq_hz: Num,
    pub gain_db: Num,
    pub width_hz: Option<Num>,
}

/// How sound is repaired.
#[derive(Debug)]
pub struct AudioFxConfig {
    pub high_pass_hz: Option<Num>,
    pub low_pass_hz: Option<Num>,
    pub compressor_threshold_db: Option<Num>,
    pub compressor_ratio: Option<Num>,
    pub limiter_limit_db: Option<Num>,
    pub noise_gate_threshold_db: Option<Num>,
    pub hum_notch_hz: Option<Num>,
    pub de_ess_hz: Option<Num>,
    pub de_ess_reduction_db: Option<Num>,
    pub loudnorm_i: Option<Num>,
    pub loudnorm_tp: Option<Num>,
    pub eq_bands: Vec<EqBand>,
    /// The whole configuration, as it is kept.
    pub document: MetaValue,
}

/// Where a title stands in the picture.
#[derive(Clone, Copy, Debug, PartialEq, Eq, Structural)]
pub enum TitlePosition {
    Top,
    Center,
    Bottom,
}

/// How heavy the letters of a title are.
#[derive(Clone, Copy, Debug, PartialEq, Eq, Structural)]
pub enum TitleWeight {
    Normal,
    Bold,
}

/// How a title comes and goes.
#[derive(Clone, Copy, Debug, PartialEq, Eq, Structural)]
pub enum TitleAnimation {
    /// It is there and is gone.
    Still,
    FadeIn,
    FadeOut,
    FadeInOut,
    SlideIn,
    SlideOut,
}

/// A stretch of a title with a style of its own.
#[derive(Debug)]
pub struct RichTextSegment {
    pub text: String,
    /// The whole segment, as it is kept.
    pub document: MetaValue,
}

/// When a word of a caption is spoken.
#[derive(Debug)]
pub struct CaptionWordTiming {
    pub text: String,
    pub start_s: Num,
    pub end_s: Num,
    /// The whole entry, as it is kept.
    pub document: MetaValue,
}

/// What an annotation draws.
#[derive(Clone, Copy, Debug, PartialEq, Eq, Structural)]
pub enum AnnotationKind {
    Rectangle,
    Circle,
    Arrow,
    Bracket,
    Blur,
}

} // verus!

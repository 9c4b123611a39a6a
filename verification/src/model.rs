//! Timelines: tracks of clips, gaps, transitions and nested stacks.
use vstd::prelude::*;

use crate::meta::{Meta, MetaMap, MetaValue, Pairs};
use crate::num::Num;
use crate::text::Str;

verus! {

/// A value that can be written down again.
pub trait Stored: View + Sized {
    /// A value that holds the same.
    fn copied(&self) -> (r: Self)
        ensures
            r@ == self@,
    ;
}

/// What the values hold, one by one.
pub open spec fn views<T: View>(s: Seq<T>) -> Seq<T::V> {
    Seq::new(s.len(), |i: int| s[i]@)
}

/// What the value holds, where there is one.
pub open spec fn opt<T: View>(o: Option<T>) -> Option<T::V> {
    match o {
        Some(v) => Some(v@),
        None => None,
    }
}

impl Stored for String {
    fn copied(&self) -> (r: String) {
        self.clone()
    }
}

impl Stored for MetaValue {
    fn copied(&self) -> (r: MetaValue) {
        MetaValue::copied(self)
    }
}

impl Stored for MetaMap {
    fn copied(&self) -> (r: MetaMap) {
        MetaMap::copied(self)
    }
}

/// The same values again.
pub fn copy_all<T: Stored>(v: &Vec<T>) -> (r: Vec<T>)
    ensures
        views(r@) == views(v@),
{
    let mut out: Vec<T> = Vec::new();
    let mut i: usize = 0;
    while i < v.len()
        invariant
            i <= v@.len(),
            out@.len() == i,
            forall|j: int| 0 <= j < i ==> (#[trigger] out@[j])@ == v@[j]@,
        decreases v@.len() - i,
    {
        out.push(v[i].copied());
        i = i + 1;
    }
    assert(views(out@) =~= views(v@));
    out
}

/// The same value again, where there is one.
pub fn copy_opt<T: Stored>(v: &Option<T>) -> (r: Option<T>)
    ensures
        opt(r) == opt(*v),
{
    match v {
        Some(x) => Some(x.copied()),
        None => None,
    }
}

/// The same plain values again.
pub fn copy_plain<T: Copy>(v: &Vec<T>) -> (r: Vec<T>)
    ensures
        r@ == v@,
{
    let mut out: Vec<T> = Vec::new();
    let mut i: usize = 0;
    while i < v.len()
        invariant
            i <= v@.len(),
            out@ == v@.take(i as int),
        decreases v@.len() - i,
    {
        out.push(v[i]);
        assert(v@.take(i + 1) == v@.take(i as int).push(v@[i as int]));
        i = i + 1;
    }
    assert(v@.take(v@.len() as int) == v@);
    out
}

/// A time, and the rate at which its frames are counted.
#[derive(Clone, Copy, Debug, PartialEq, Eq, Structural)]
pub struct RationalTime {
    pub seconds: Num,
    pub rate: Num,
}

impl RationalTime {
    /// A time of so many seconds.
    #[verifier::allow_in_spec]
    pub fn new(seconds: Num, rate: Num) -> RationalTime
        returns
            (RationalTime { seconds, rate }),
    {
        RationalTime { seconds, rate }
    }

    /// The time in seconds.
    #[verifier::allow_in_spec]
    pub fn to_seconds(self) -> Num
        returns
            self.seconds,
    {
        self.seconds
    }
}

/// A stretch of time.
#[derive(Clone, Copy, Debug, PartialEq, Eq, Structural)]
pub struct TimeRange {
    pub start_time: RationalTime,
    pub duration: RationalTime,
}

impl TimeRange {
    /// The stretch that begins at a time and lasts so long.
    #[verifier::allow_in_spec]
    pub fn new(start_time: RationalTime, duration: RationalTime) -> TimeRange
        returns
            (TimeRange { start_time, duration }),
    {
        TimeRange { start_time, duration }
    }

    /// The stretch with both times at one rate.
    #[verifier::allow_in_spec]
    pub fn seconds(start_s: Num, duration_s: Num, rate: Num) -> TimeRange
        returns
            (TimeRange {
                start_time: RationalTime { seconds: start_s, rate },
                duration: RationalTime { seconds: duration_s, rate },
            }),
    {
        TimeRange {
            start_time: RationalTime { seconds: start_s, rate },
            duration: RationalTime { seconds: duration_s, rate },
        }
    }
}

/// What a track carries.
#[derive(Clone, Copy, Debug, PartialEq, Eq, Structural)]
pub enum TrackKind {
    Video,
    Audio,
}

/// A stretch of a clip's sound, in seconds.
#[derive(Clone, Copy, Debug, PartialEq, Eq, Structural)]
pub struct AudioRange {
    pub start_s: Num,
    pub end_s: Num,
}

/// Where a clip stands: the track in the timeline, and the child in the track.
#[derive(Clone, Copy, Debug, PartialEq, Eq, Structural)]
pub struct ClipLocator {
    pub track_index: usize,
    pub child_index: usize,
}

/// The media of a clip.
#[derive(Debug)]
pub enum MediaReference {
    External(ExternalReference),
    Missing,
}

/// What a [`MediaReference`] holds.
#[verifier::ext_equal]
pub enum MediaReferenceModel {
    External(ExternalReferenceModel),
    Missing,
}

impl View for MediaReference {
    type V = MediaReferenceModel;

    open spec fn view(&self) -> MediaReferenceModel {
        match *self {
            MediaReference::External(e) => MediaReferenceModel::External(e@),
            MediaReference::Missing => MediaReferenceModel::Missing,
        }
    }
}

impl Stored for MediaReference {
    fn copied(&self) -> (r: MediaReference) {
        match self {
            MediaReference::External(e) => MediaReference::External(e.copied()),
            MediaReference::Missing => MediaReference::Missing,
        }
    }
}

/// Media that lies in a file or behind a URL.
#[derive(Debug)]
pub struct ExternalReference {
    pub target_url: String,
    pub available_range: Option<TimeRange>,
    pub metadata: MetaMap,
}

/// What a [`ExternalReference`] holds.
#[verifier::ext_equal]
pub struct ExternalReferenceModel {
    pub target_url: Str,
    pub available_range: Option<TimeRange>,
    pub metadata: Pairs,
}

impl View for ExternalReference {
    type V = ExternalReferenceModel;

    open spec fn view(&self) -> ExternalReferenceModel {
        ExternalReferenceModel {
            target_url: self.target_url@,
            available_range: self.available_range,
            metadata: self.metadata@,
        }
    }
}

impl Stored for ExternalReference {
    fn copied(&self) -> (r: ExternalReference) {
        ExternalReference {
            target_url: self.target_url.clone(),
            available_range: self.available_range,
            metadata: self.metadata.copied(),
        }
    }
}

/// An effect on a clip.
#[derive(Debug)]
pub struct Effect {
    pub name: String,
    pub effect_name: String,
    pub metadata: MetaMap,
}

/// What a [`Effect`] holds.
#[verifier::ext_equal]
pub struct EffectModel {
    pub name: Str,
    pub effect_name: Str,
    pub metadata: Pairs,
}

impl View for Effect {
    type V = EffectModel;

    open spec fn view(&self) -> EffectModel {
        EffectModel {
            name: self.name@,
            effect_name: self.effect_name@,
            metadata: self.metadata@,
        }
    }
}

impl Stored for Effect {
    fn copied(&self) -> (r: Effect) {
        Effect {
            name: self.name.clone(),
            effect_name: self.effect_name.clone(),
            metadata: self.metadata.copied(),
        }
    }
}

/// What the editor keeps about a marker.
#[derive(Debug)]
pub struct MarkerMetadata {
    pub category: Option<String>,
    pub note: Option<String>,
    pub extra: MetaMap,
}

/// What a [`MarkerMetadata`] holds.
#[verifier::ext_equal]
pub struct MarkerMetadataModel {
    pub category: Option<Str>,
    pub note: Option<Str>,
    pub extra: Pairs,
}

impl View for MarkerMetadata {
    type V = MarkerMetadataModel;

    open spec fn view(&self) -> MarkerMetadataModel {
        MarkerMetadataModel {
            category: opt(self.category),
            note: opt(self.note),
            extra: self.extra@,
        }
    }
}

impl Stored for MarkerMetadata {
    fn copied(&self) -> (r: MarkerMetadata) {
        MarkerMetadata {
            category: copy_opt(&self.category),
            note: copy_opt(&self.note),
            extra: self.extra.copied(),
        }
    }
}

/// A mark on a clip, relative to the clip's start.
#[derive(Debug)]
pub struct Marker {
    pub name: String,
    pub marked_range: TimeRange,
    pub comment: Option<String>,
    pub metadata: Option<MarkerMetadata>,
}

/// What a [`Marker`] holds.
#[verifier::ext_equal]
pub struct MarkerModel {
    pub name: Str,
    pub marked_range: TimeRange,
    pub comment: Option<Str>,
    pub metadata: Option<MarkerMetadataModel>,
}

impl View for Marker {
    type V = MarkerModel;

    open spec fn view(&self) -> MarkerModel {
        MarkerModel {
            name: self.name@,
            marked_range: self.marked_range,
            comment: opt(self.comment),
            metadata: opt(self.metadata),
        }
    }
}

impl Stored for Marker {
    fn copied(&self) -> (r: Marker) {
        Marker {
            name: self.name.clone(),
            marked_range: self.marked_range,
            comment: copy_opt(&self.comment),
            metadata: copy_opt(&self.metadata),
        }
    }
}

/// What is taken out of a clip's sound.
#[derive(Debug)]
pub struct ClipAudioOverride {
    pub muted: bool,
    pub removed_ranges: Vec<AudioRange>,
}

/// What a [`ClipAudioOverride`] holds.
#[verifier::ext_equal]
pub struct ClipAudioOverrideModel {
    pub muted: bool,
    pub removed_ranges: Seq<AudioRange>,
}

impl View for ClipAudioOverride {
    type V = ClipAudioOverrideModel;

    open spec fn view(&self) -> ClipAudioOverrideModel {
        ClipAudioOverrideModel {
            muted: self.muted,
            removed_ranges: self.removed_ranges@,
        }
    }
}

impl Stored for ClipAudioOverride {
    fn copied(&self) -> (r: ClipAudioOverride) {
        ClipAudioOverride {
            muted: self.muted,
            removed_ranges: copy_plain(&self.removed_ranges),
        }
    }
}

/// Sound that leads or trails the picture at a clip's edges.
#[derive(Debug)]
pub struct SplitEditSpec {
    pub audio_lead_s: Option<Num>,
    pub audio_lead_from_clip_id: Option<String>,
    pub audio_trail_s: Option<Num>,
    pub audio_trail_to_clip_id: Option<String>,
    pub reason: Option<String>,
    pub confidence: Option<Num>,
}

/// What a [`SplitEditSpec`] holds.
#[verifier::ext_equal]
pub struct SplitEditSpecModel {
    pub audio_lead_s: Option<Num>,
    pub audio_lead_from_clip_id: Option<Str>,
    pub audio_trail_s: Option<Num>,
    pub audio_trail_to_clip_id: Option<Str>,
    pub reason: Option<Str>,
    pub confidence: Option<Num>,
}

impl View for SplitEditSpec {
    type V = SplitEditSpecModel;

    open spec fn view(&self) -> SplitEditSpecModel {
        SplitEditSpecModel {
            audio_lead_s: self.audio_lead_s,
            audio_lead_from_clip_id: opt(self.audio_lead_from_clip_id),
            audio_trail_s: self.audio_trail_s,
            audio_trail_to_clip_id: opt(self.audio_trail_to_clip_id),
            reason: opt(self.reason),
            confidence: self.confidence,
        }
    }
}

impl Stored for SplitEditSpec {
    fn copied(&self) -> (r: SplitEditSpec) {
        SplitEditSpec {
            audio_lead_s: self.audio_lead_s,
            audio_lead_from_clip_id: copy_opt(&self.audio_lead_from_clip_id),
            audio_trail_s: self.audio_trail_s,
            audio_trail_to_clip_id: copy_opt(&self.audio_trail_to_clip_id),
            reason: copy_opt(&self.reason),
            confidence: self.confidence,
        }
    }
}

/// What the editor keeps about a clip.
#[derive(Debug)]
pub struct MontageClipMetadata {
    pub transcript_snippet: Option<String>,
    pub reasoning: Option<String>,
    pub audio_override: Option<ClipAudioOverride>,
    pub split_edit: Option<SplitEditSpec>,
    pub extra: MetaMap,
}

/// What a [`MontageClipMetadata`] holds.
#[verifier::ext_equal]
pub struct MontageClipMetadataModel {
    pub transcript_snippet: Option<Str>,
    pub reasoning: Option<Str>,
    pub audio_override: Option<ClipAudioOverrideModel>,
    pub split_edit: Option<SplitEditSpecModel>,
    pub extra: Pairs,
}

impl View for MontageClipMetadata {
    type V = MontageClipMetadataModel;

    open spec fn view(&self) -> MontageClipMetadataModel {
        MontageClipMetadataModel {
            transcript_snippet: opt(self.transcript_snippet),
            reasoning: opt(self.reasoning),
            audio_override: opt(self.audio_override),
            split_edit: opt(self.split_edit),
            extra: self.extra@,
        }
    }
}

impl Stored for MontageClipMetadata {
    fn copied(&self) -> (r: MontageClipMetadata) {
        MontageClipMetadata {
            transcript_snippet: copy_opt(&self.transcript_snippet),
            reasoning: copy_opt(&self.reasoning),
            audio_override: copy_opt(&self.audio_override),
            split_edit: copy_opt(&self.split_edit),
            extra: self.extra.copied(),
        }
    }
}

/// A clip's metadata.
#[derive(Debug)]
pub struct ClipMetadata {
    pub montage: Option<MontageClipMetadata>,
    pub extra: MetaMap,
}

/// What a [`ClipMetadata`] holds.
#[verifier::ext_equal]
pub struct ClipMetadataModel {
    pub montage: Option<MontageClipMetadataModel>,
    pub extra: Pairs,
}

impl View for ClipMetadata {
    type V = ClipMetadataModel;

    open spec fn view(&self) -> ClipMetadataModel {
        ClipMetadataModel {
            montage: opt(self.montage),
            extra: self.extra@,
        }
    }
}

impl Stored for ClipMetadata {
    fn copied(&self) -> (r: ClipMetadata) {
        ClipMetadata {
            montage: copy_opt(&self.montage),
            extra: self.extra.copied(),
        }
    }
}

/// A stretch of media on a track.
#[derive(Debug)]
pub struct Clip {
    pub name: String,
    pub media_reference: MediaReference,
    pub source_range: Option<TimeRange>,
    pub effects: Vec<Effect>,
    pub markers: Vec<Marker>,
    pub metadata: ClipMetadata,
}

/// What a [`Clip`] holds.
#[verifier::ext_equal]
pub struct ClipModel {
    pub name: Str,
    pub media_reference: MediaReferenceModel,
    pub source_range: Option<TimeRange>,
    pub effects: Seq<EffectModel>,
    pub markers: Seq<MarkerModel>,
    pub metadata: ClipMetadataModel,
}

impl View for Clip {
    type V = ClipModel;

    open spec fn view(&self) -> ClipModel {
        ClipModel {
            name: self.name@,
            media_reference: self.media_reference@,
            source_range: self.source_range,
            effects: views(self.effects@),
            markers: views(self.markers@),
            metadata: self.metadata@,
        }
    }
}

impl Stored for Clip {
    fn copied(&self) -> (r: Clip) {
        Clip {
            name: self.name.clone(),
            media_reference: self.media_reference.copied(),
            source_range: self.source_range,
            effects: copy_all(&self.effects),
            markers: copy_all(&self.markers),
            metadata: self.metadata.copied(),
        }
    }
}

/// Empty time on a track.
#[derive(Debug)]
pub struct Gap {
    pub source_range: TimeRange,
    pub metadata: MetaMap,
}

/// What a [`Gap`] holds.
#[verifier::ext_equal]
pub struct GapModel {
    pub source_range: TimeRange,
    pub metadata: Pairs,
}

impl View for Gap {
    type V = GapModel;

    open spec fn view(&self) -> GapModel {
        GapModel {
            source_range: self.source_range,
            metadata: self.metadata@,
        }
    }
}

impl Stored for Gap {
    fn copied(&self) -> (r: Gap) {
        Gap {
            source_range: self.source_range,
            metadata: self.metadata.copied(),
        }
    }
}

/// An overlap between the clips on both sides.
#[derive(Debug)]
pub struct Transition {
    pub name: String,
    pub transition_type: String,
    pub in_offset: RationalTime,
    pub out_offset: RationalTime,
    pub metadata: MetaMap,
}

/// What a [`Transition`] holds.
#[verifier::ext_equal]
pub struct TransitionModel {
    pub name: Str,
    pub transition_type: Str,
    pub in_offset: RationalTime,
    pub out_offset: RationalTime,
    pub metadata: Pairs,
}

impl View for Transition {
    type V = TransitionModel;

    open spec fn view(&self) -> TransitionModel {
        TransitionModel {
            name: self.name@,
            transition_type: self.transition_type@,
            in_offset: self.in_offset,
            out_offset: self.out_offset,
            metadata: self.metadata@,
        }
    }
}

impl Stored for Transition {
    fn copied(&self) -> (r: Transition) {
        Transition {
            name: self.name.clone(),
            transition_type: self.transition_type.clone(),
            in_offset: self.in_offset,
            out_offset: self.out_offset,
            metadata: self.metadata.copied(),
        }
    }
}

/// What a cut between two clips is meant to do.
#[derive(Debug)]
pub struct SemanticCutSpec {
    /// The name of the kind of cut, such as `JCut`.
    pub cut_type: String,
    pub intent: String,
    pub energy: Option<Num>,
    /// How sound and picture meet, such as `AudioLeads`.
    pub audio_relation: String,
    pub confidence: Option<Num>,
    pub reason: Option<String>,
    pub extra: MetaMap,
}

/// What a [`SemanticCutSpec`] holds.
#[verifier::ext_equal]
pub struct SemanticCutSpecModel {
    pub cut_type: Str,
    pub intent: Str,
    pub energy: Option<Num>,
    pub audio_relation: Str,
    pub confidence: Option<Num>,
    pub reason: Option<Str>,
    pub extra: Pairs,
}

impl View for SemanticCutSpec {
    type V = SemanticCutSpecModel;

    open spec fn view(&self) -> SemanticCutSpecModel {
        SemanticCutSpecModel {
            cut_type: self.cut_type@,
            intent: self.intent@,
            energy: self.energy,
            audio_relation: self.audio_relation@,
            confidence: self.confidence,
            reason: opt(self.reason),
            extra: self.extra@,
        }
    }
}

impl Stored for SemanticCutSpec {
    fn copied(&self) -> (r: SemanticCutSpec) {
        SemanticCutSpec {
            cut_type: self.cut_type.clone(),
            intent: self.intent.clone(),
            energy: self.energy,
            audio_relation: self.audio_relation.clone(),
            confidence: self.confidence,
            reason: copy_opt(&self.reason),
            extra: self.extra.copied(),
        }
    }
}

/// The spec of the cut between two clips, under the key of the two.
#[derive(Debug)]
pub struct CutBoundary {
    pub key: String,
    pub spec: SemanticCutSpec,
}

/// What a [`CutBoundary`] holds.
#[verifier::ext_equal]
pub struct CutBoundaryModel {
    pub key: Str,
    pub spec: SemanticCutSpecModel,
}

impl View for CutBoundary {
    type V = CutBoundaryModel;

    open spec fn view(&self) -> CutBoundaryModel {
        CutBoundaryModel {
            key: self.key@,
            spec: self.spec@,
        }
    }
}

impl Stored for CutBoundary {
    fn copied(&self) -> (r: CutBoundary) {
        CutBoundary {
            key: self.key.clone(),
            spec: self.spec.copied(),
        }
    }
}

/// A stored document that is found again by its id.
#[derive(Debug)]
pub struct Document {
    pub id: String,
    pub body: MetaValue,
}

/// What a [`Document`] holds.
#[verifier::ext_equal]
pub struct DocumentModel {
    pub id: Str,
    pub body: Meta,
}

impl View for Document {
    type V = DocumentModel;

    open spec fn view(&self) -> DocumentModel {
        DocumentModel {
            id: self.id@,
            body: self.body@,
        }
    }
}

impl Stored for Document {
    fn copied(&self) -> (r: Document) {
        Document {
            id: self.id.clone(),
            body: self.body.copied(),
        }
    }
}

/// What the editor keeps about a timeline.
#[derive(Debug)]
pub struct MontageTimelineMetadata {
    pub version: String,
    pub cut_boundaries: Vec<CutBoundary>,
    pub extra: MetaMap,
    pub asset_catalog: Option<MetaValue>,
    pub selects: Vec<MetaValue>,
    pub stringouts: Vec<MetaValue>,
    pub proposal_packages: Vec<Document>,
    pub parameter_animations: Vec<Document>,
    pub motion_templates: Vec<Document>,
    pub motion_scenes: Vec<Document>,
    pub composition_graphs: Vec<Document>,
    pub tracking_package: Option<MetaValue>,
    pub color_finishing: Option<MetaValue>,
    pub audio_finishing: Option<MetaValue>,
    pub delivery_profiles: Vec<Document>,
    pub preflight_reports: Vec<Document>,
    pub workflow_lenses: Vec<String>,
    pub pipeline_readiness: Option<MetaValue>,
    pub planner_passes: Vec<MetaValue>,
    pub broadcast_overlay: Option<MetaValue>,
    pub brand_kit: Option<MetaValue>,
}

/// What a [`MontageTimelineMetadata`] holds.
#[verifier::ext_equal]
pub struct MontageTimelineMetadataModel {
    pub version: Str,
    pub cut_boundaries: Seq<CutBoundaryModel>,
    pub extra: Pairs,
    pub asset_catalog: Option<Meta>,
    pub selects: Seq<Meta>,
    pub stringouts: Seq<Meta>,
    pub proposal_packages: Seq<DocumentModel>,
    pub parameter_animations: Seq<DocumentModel>,
    pub motion_templates: Seq<DocumentModel>,
    pub motion_scenes: Seq<DocumentModel>,
    pub composition_graphs: Seq<DocumentModel>,
    pub tracking_package: Option<Meta>,
    pub color_finishing: Option<Meta>,
    pub audio_finishing: Option<Meta>,
    pub delivery_profiles: Seq<DocumentModel>,
    pub preflight_reports: Seq<DocumentModel>,
    pub workflow_lenses: Seq<Str>,
    pub pipeline_readiness: Option<Meta>,
    pub planner_passes: Seq<Meta>,
    pub broadcast_overlay: Option<Meta>,
    pub brand_kit: Option<Meta>,
}

impl View for MontageTimelineMetadata {
    type V = MontageTimelineMetadataModel;

    open spec fn view(&self) -> MontageTimelineMetadataModel {
        MontageTimelineMetadataModel {
            version: self.version@,
            cut_boundaries: views(self.cut_boundaries@),
            extra: self.extra@,
            asset_catalog: opt(self.asset_catalog),
            selects: views(self.selects@),
            stringouts: views(self.stringouts@),
            proposal_packages: views(self.proposal_packages@),
            parameter_animations: views(self.parameter_animations@),
            motion_templates: views(self.motion_templates@),
            motion_scenes: views(self.motion_scenes@),
            composition_graphs: views(self.composition_graphs@),
            tracking_package: opt(self.tracking_package),
            color_finishing: opt(self.color_finishing),
            audio_finishing: opt(self.audio_finishing),
            delivery_profiles: views(self.delivery_profiles@),
            preflight_reports: views(self.preflight_reports@),
            workflow_lenses: views(self.workflow_lenses@),
            pipeline_readiness: opt(self.pipeline_readiness),
            planner_passes: views(self.planner_passes@),
            broadcast_overlay: opt(self.broadcast_overlay),
            brand_kit: opt(self.brand_kit),
        }
    }
}

impl Stored for MontageTimelineMetadata {
    fn copied(&self) -> (r: MontageTimelineMetadata) {
        MontageTimelineMetadata {
            version: self.version.clone(),
            cut_boundaries: copy_all(&self.cut_boundaries),
            extra: self.extra.copied(),
            asset_catalog: copy_opt(&self.asset_catalog),
            selects: copy_all(&self.selects),
            stringouts: copy_all(&self.stringouts),
            proposal_packages: copy_all(&self.proposal_packages),
            parameter_animations: copy_all(&self.parameter_animations),
            motion_templates: copy_all(&self.motion_templates),
            motion_scenes: copy_all(&self.motion_scenes),
            composition_graphs: copy_all(&self.composition_graphs),
            tracking_package: copy_opt(&self.tracking_package),
            color_finishing: copy_opt(&self.color_finishing),
            audio_finishing: copy_opt(&self.audio_finishing),
            delivery_profiles: copy_all(&self.delivery_profiles),
            preflight_reports: copy_all(&self.preflight_reports),
            workflow_lenses: copy_all(&self.workflow_lenses),
            pipeline_readiness: copy_opt(&self.pipeline_readiness),
            planner_passes: copy_all(&self.planner_passes),
            broadcast_overlay: copy_opt(&self.broadcast_overlay),
            brand_kit: copy_opt(&self.brand_kit),
        }
    }
}

/// A track: children one after the other.
#[derive(Debug)]
pub struct Track {
    pub name: String,
    pub kind: TrackKind,
    pub children: Vec<TrackChild>,
    pub metadata: MetaMap,
}

/// What stands on a track.
#[derive(Debug)]
pub enum TrackChild {
    Clip(Clip),
    Gap(Gap),
    Transition(Transition),
    Stack(Stack),
}

/// Layers that play at the same time.
#[derive(Debug)]
pub struct Stack {
    pub name: String,
    pub children: Vec<StackChild>,
    pub metadata: MetaMap,
}

/// One layer of a stack.
#[derive(Debug)]
pub enum StackChild {
    Track(Track),
    Clip(Clip),
    Gap(Gap),
    Stack(Stack),
}

/// What a [`Track`] holds.
#[verifier::ext_equal]
pub struct TrackModel {
    pub name: Str,
    pub kind: TrackKind,
    pub children: Seq<TrackChildModel>,
    pub metadata: Pairs,
}

/// What a [`TrackChild`] holds.
#[verifier::ext_equal]
pub enum TrackChildModel {
    Clip(ClipModel),
    Gap(GapModel),
    Transition(TransitionModel),
    Stack(StackModel),
}

/// What a [`Stack`] holds.
#[verifier::ext_equal]
pub struct StackModel {
    pub name: Str,
    pub children: Seq<StackChildModel>,
    pub metadata: Pairs,
}

/// What a [`StackChild`] holds.
#[verifier::ext_equal]
pub enum StackChildModel {
    Track(TrackModel),
    Clip(ClipModel),
    Gap(GapModel),
    Stack(StackModel),
}

/// What a track holds.
pub open spec fn track_model(t: Track) -> TrackModel
    decreases t,
{
    TrackModel {
        name: t.name@,
        kind: t.kind,
        children: Seq::new(
            t.children@.len(),
            |i: int|
                if 0 <= i < t.children@.len() {
                    track_child_model(t.children@[i])
                } else {
                    arbitrary()
                },
        ),
        metadata: t.metadata@,
    }
}

/// What a child of a track holds.
pub open spec fn track_child_model(c: TrackChild) -> TrackChildModel
    decreases c,
{
    match c {
        TrackChild::Clip(c) => TrackChildModel::Clip(c@),
        TrackChild::Gap(g) => TrackChildModel::Gap(g@),
        TrackChild::Transition(t) => TrackChildModel::Transition(t@),
        TrackChild::Stack(s) => TrackChildModel::Stack(stack_model(s)),
    }
}

/// What a stack holds.
pub open spec fn stack_model(s: Stack) -> StackModel
    decreases s,
{
    StackModel {
        name: s.name@,
        children: Seq::new(
            s.children@.len(),
            |i: int|
                if 0 <= i < s.children@.len() {
                    stack_child_model(s.children@[i])
                } else {
                    arbitrary()
                },
        ),
        metadata: s.metadata@,
    }
}

/// What a layer of a stack holds.
pub open spec fn stack_child_model(c: StackChild) -> StackChildModel
    decreases c,
{
    match c {
        StackChild::Track(t) => StackChildModel::Track(track_model(t)),
        StackChild::Clip(c) => StackChildModel::Clip(c@),
        StackChild::Gap(g) => StackChildModel::Gap(g@),
        StackChild::Stack(s) => StackChildModel::Stack(stack_model(s)),
    }
}

impl View for Track {
    type V = TrackModel;

    open spec fn view(&self) -> TrackModel {
        track_model(*self)
    }
}

impl View for TrackChild {
    type V = TrackChildModel;

    open spec fn view(&self) -> TrackChildModel {
        track_child_model(*self)
    }
}

impl View for Stack {
    type V = StackModel;

    open spec fn view(&self) -> StackModel {
        stack_model(*self)
    }
}

impl View for StackChild {
    type V = StackChildModel;

    open spec fn view(&self) -> StackChildModel {
        stack_child_model(*self)
    }
}

fn copy_track(t: &Track) -> (r: Track)
    ensures
        r@ == t@,
    decreases t,
{
    let children = copy_track_children(&t.children);
    let r = Track { name: t.name.clone(), kind: t.kind, children, metadata: t.metadata.copied() };
    assert(track_model(r).children =~= track_model(*t).children);
    r
}

fn copy_track_children(v: &Vec<TrackChild>) -> (r: Vec<TrackChild>)
    ensures
        r@.len() == v@.len(),
        forall|j: int|
            0 <= j < v@.len() ==> track_child_model(#[trigger] r@[j]) == track_child_model(v@[j]),
    decreases v,
{
    let mut out: Vec<TrackChild> = Vec::new();
    let mut i: usize = 0;
    while i < v.len()
        invariant
            i <= v@.len(),
            out@.len() == i,
            forall|j: int|
                0 <= j < i ==> track_child_model(#[trigger] out@[j]) == track_child_model(v@[j]),
        decreases v@.len() - i,
    {
        out.push(copy_track_child(&v[i]));
        i = i + 1;
    }
    out
}

fn copy_track_child(c: &TrackChild) -> (r: TrackChild)
    ensures
        r@ == c@,
    decreases c,
{
    match c {
        TrackChild::Clip(c) => TrackChild::Clip(c.copied()),
        TrackChild::Gap(g) => TrackChild::Gap(g.copied()),
        TrackChild::Transition(t) => TrackChild::Transition(t.copied()),
        TrackChild::Stack(s) => TrackChild::Stack(copy_stack(s)),
    }
}

fn copy_stack(s: &Stack) -> (r: Stack)
    ensures
        r@ == s@,
    decreases s,
{
    let children = copy_stack_children(&s.children);
    let r = Stack { name: s.name.clone(), children, metadata: s.metadata.copied() };
    assert(stack_model(r).children =~= stack_model(*s).children);
    r
}

fn copy_stack_children(v: &Vec<StackChild>) -> (r: Vec<StackChild>)
    ensures
        r@.len() == v@.len(),
        forall|j: int|
            0 <= j < v@.len() ==> stack_child_model(#[trigger] r@[j]) == stack_child_model(v@[j]),
    decreases v,
{
    let mut out: Vec<StackChild> = Vec::new();
    let mut i: usize = 0;
    while i < v.len()
        invariant
            i <= v@.len(),
            out@.len() == i,
            forall|j: int|
                0 <= j < i ==> stack_child_model(#[trigger] out@[j]) == stack_child_model(v@[j]),
        decreases v@.len() - i,
    {
        out.push(copy_stack_child(&v[i]));
        i = i + 1;
    }
    out
}

fn copy_stack_child(c: &StackChild) -> (r: StackChild)
    ensures
        r@ == c@,
    decreases c,
{
    match c {
        StackChild::Track(t) => StackChild::Track(copy_track(t)),
        StackChild::Clip(c) => StackChild::Clip(c.copied()),
        StackChild::Gap(g) => StackChild::Gap(g.copied()),
        StackChild::Stack(s) => StackChild::Stack(copy_stack(s)),
    }
}

impl Stored for Track {
    fn copied(&self) -> (r: Track) {
        copy_track(self)
    }
}

impl Stored for TrackChild {
    fn copied(&self) -> (r: TrackChild) {
        copy_track_child(self)
    }
}

impl Stored for Stack {
    fn copied(&self) -> (r: Stack) {
        copy_stack(self)
    }
}

impl Stored for StackChild {
    fn copied(&self) -> (r: StackChild) {
        copy_stack_child(self)
    }
}

/// A timeline: the layers that play together, and what the editor keeps.
#[derive(Debug)]
pub struct Timeline {
    pub name: String,
    pub tracks: Stack,
    pub metadata: TimelineMetadata,
}

/// A timeline's metadata.
#[derive(Debug)]
pub struct TimelineMetadata {
    pub montage: Option<MontageTimelineMetadata>,
    pub extra: MetaMap,
}

/// What a [`Timeline`] holds.
#[verifier::ext_equal]
pub struct TimelineModel {
    pub name: Str,
    pub tracks: StackModel,
    pub montage: Option<MontageTimelineMetadataModel>,
    pub extra: Pairs,
}

impl View for Timeline {
    type V = TimelineModel;

    open spec fn view(&self) -> TimelineModel {
        TimelineModel {
            name: self.name@,
            tracks: self.tracks@,
            montage: opt(self.metadata.montage),
            extra: self.metadata.extra@,
        }
    }
}

impl Stored for Timeline {
    fn copied(&self) -> (r: Timeline) {
        Timeline {
            name: self.name.clone(),
            tracks: self.tracks.copied(),
            metadata: TimelineMetadata {
                montage: copy_opt(&self.metadata.montage),
                extra: self.metadata.extra.copied(),
            },
        }
    }
}

} // verus!

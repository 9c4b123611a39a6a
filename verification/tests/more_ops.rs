//! Ops on sound, documents, templates and drawings.
use montage_edl::dispatch::Answers;
use montage_edl::docs::{ParameterAnimation, WorkflowLens};
use montage_edl::engine::ApplyOutcome;
use montage_edl::envelope::{EdlEnvelope, EdlOp, ProfessionalTimelineEdit};
use montage_edl::error::{AnchorMiss, ApplyError};
use montage_edl::meta::{MetaMap, MetaValue};
use montage_edl::mint::ClipIds;
use montage_edl::model::{
    Clip, ClipLocator, ClipMetadata, Document, ExternalReference, MediaReference,
    MontageClipMetadata, MontageTimelineMetadata, RationalTime, StackChild, TimeRange, Timeline,
    Track, TrackChild, TrackKind,
};
use montage_edl::num::Num;
use montage_edl::op::{
    Anchor, AnnotationKind, AudioFxConfig, BetweenPlaces, RichTextSegment, TitleAnimation,
    TitlePosition, TitleWeight,
};
use montage_edl::template::{
    LoweredTemplate, LoweredTitle, MotionTemplateAnimation, TemplateVerdict,
};
use montage_edl::title::{Annotation, RichTitle, TextOverlay};

fn num(x: f64) -> Num {
    if x.is_nan() {
        Num::Nan
    } else if x.is_infinite() {
        if x > 0.0 {
            Num::PosInf
        } else {
            Num::NegInf
        }
    } else {
        Num::Fin((x * 1e15).round() as i128)
    }
}

fn float(x: Num) -> f64 {
    match x {
        Num::Nan => f64::NAN,
        Num::NegInf => f64::NEG_INFINITY,
        Num::Fin(v) => v as f64 / 1e15,
        Num::PosInf => f64::INFINITY,
    }
}

fn time(value: f64, rate: f64) -> RationalTime {
    RationalTime::new(num(value / rate), num(rate))
}

fn number(x: f64) -> MetaValue {
    MetaValue::number(num(x))
}

fn pairs(entries: Vec<(&str, MetaValue)>) -> MetaMap {
    let mut m = MetaMap::new();
    for (key, value) in entries {
        m.insert(key, value);
    }
    m
}

trait Json {
    fn as_str(&self) -> Option<&str>;
    fn as_f64(&self) -> Option<f64>;
    fn as_u64(&self) -> Option<u64>;
    fn as_array(&self) -> Option<&Vec<MetaValue>>;
    fn as_object(&self) -> Option<&MetaMap>;
    fn get(&self, key: &str) -> Option<&MetaValue>;
    fn at(&self, key: &str) -> &MetaValue;
}

impl Json for MetaValue {
    fn as_str(&self) -> Option<&str> {
        match self {
            MetaValue::Text(s) => Some(s),
            _ => None,
        }
    }

    fn as_f64(&self) -> Option<f64> {
        self.as_number().map(float)
    }

    fn as_u64(&self) -> Option<u64> {
        self.as_f64().filter(|x| x.fract() == 0.0 && *x >= 0.0).map(|x| x as u64)
    }

    fn as_array(&self) -> Option<&Vec<MetaValue>> {
        match self {
            MetaValue::List(v) => Some(v),
            _ => None,
        }
    }

    fn as_object(&self) -> Option<&MetaMap> {
        match self {
            MetaValue::Object(m) => Some(m),
            _ => None,
        }
    }

    fn get(&self, key: &str) -> Option<&MetaValue> {
        self.as_object().and_then(|m| m.get(key))
    }

    fn at(&self, key: &str) -> &MetaValue {
        self.get(key).expect("a value")
    }
}

trait Keys {
    fn contains_key(&self, key: &str) -> bool;
    fn at(&self, key: &str) -> &MetaValue;
}

impl Keys for MetaMap {
    fn contains_key(&self, key: &str) -> bool {
        self.get(key).is_some()
    }

    fn at(&self, key: &str) -> &MetaValue {
        self.get(key).expect("a value")
    }
}

fn no_metadata() -> ClipMetadata {
    ClipMetadata { montage: None, extra: MetaMap::new() }
}

fn timeline_with_three_clips() -> Timeline {
    let mut tl = Timeline::empty("test");
    let mut track = Track::empty("V1", TrackKind::Video);
    for (i, snip) in ["alpha snippet", "bravo snippet", "charlie snippet"].iter().enumerate() {
        let mut c = Clip::empty(&format!("clip-{i}"));
        c.media_reference =
            MediaReference::External(ExternalReference::new(&format!("raw/{i}.mp4")));
        c.source_range = Some(TimeRange::new(time(0.0, 24.0), time(5.0 * 24.0, 24.0)));
        c.metadata = ClipMetadata {
            montage: Some(MontageClipMetadata {
                transcript_snippet: Some((*snip).to_string()),
                ..MontageClipMetadata::new()
            }),
            ..no_metadata()
        };
        track.children.push(TrackChild::Clip(c));
    }
    tl.tracks.children.push(StackChild::Track(track));
    tl
}

/// Where an anchor leads: to the clip with the unique id or the name, or to the
/// clip whose transcript holds the text.
fn place(timeline: &Timeline, anchor: &Anchor) -> Result<ClipLocator, AnchorMiss> {
    for (track_index, layer) in timeline.tracks.children.iter().enumerate() {
        let StackChild::Track(track) = layer else {
            continue;
        };
        for (child_index, child) in track.children.iter().enumerate() {
            let TrackChild::Clip(clip) = child else {
                continue;
            };
            let montage = clip.metadata.montage.as_ref();
            let here = match anchor {
                Anchor::ClipUuid { uuid } => {
                    clip.name == *uuid
                        || montage.and_then(|m| m.extra.get_text("clip_uuid")).as_ref()
                            == Some(uuid)
                }
                Anchor::TranscriptSnippet { text } => montage
                    .and_then(|m| m.transcript_snippet.as_ref())
                    .is_some_and(|s| s.contains(text.as_str())),
            };
            if here {
                return Ok(ClipLocator { track_index, child_index });
            }
        }
    }
    Err(AnchorMiss { text: format!("no clip at {anchor:?}") })
}

fn answers(timeline: &Timeline, op: &EdlOp, anchor: &Option<Anchor>) -> Answers {
    let mut a = Answers::plain(MetaValue::Null);
    if let Some(x) = anchor {
        a.place = place(timeline, x);
    }
    let between = match op {
        EdlOp::InsertTransition { between, .. }
        | EdlOp::DeleteTransition { between }
        | EdlOp::SetCutIntent { between, .. }
        | EdlOp::ProfessionalTimelineEdit {
            edit: ProfessionalTimelineEdit::RollEdit { between, .. },
            ..
        } => Some(between),
        _ => None,
    };
    if let Some(b) = between {
        a.between =
            BetweenPlaces { from: place(timeline, &b.from), to: place(timeline, &b.to) };
    }
    if let EdlOp::ProfessionalTimelineEdit { edit, .. } = op {
        if let ProfessionalTimelineEdit::UpdateMarker { selector, .. }
        | ProfessionalTimelineEdit::DeleteMarker { selector } = edit
        {
            a.marker = selector.anchor.as_ref().map(|x| place(timeline, x));
        }
    }
    a
}

fn apply_asking<F: Fn(&EdlOp, &mut Answers)>(
    tl: &Timeline,
    env: &EdlEnvelope,
    adjust: F,
) -> Result<(Timeline, ApplyOutcome), ApplyError> {
    montage_edl::engine::apply(
        tl,
        env,
        |working: &Timeline, op: &EdlOp, anchor: &Option<Anchor>| {
            let mut a = answers(working, op, anchor);
            adjust(op, &mut a);
            a
        },
        &mut ClipIds::new(0),
    )
}

fn apply(tl: &Timeline, env: &EdlEnvelope) -> Result<(Timeline, ApplyOutcome), ApplyError> {
    apply_asking(tl, env, |_: &EdlOp, _: &mut Answers| {})
}

fn clip_on(name: &str) -> Anchor {
    Anchor::ClipUuid { uuid: name.to_string() }
}

fn one(op: EdlOp) -> EdlEnvelope {
    EdlEnvelope { ops: vec![op] }
}

fn video(tl: &Timeline) -> &Track {
    let StackChild::Track(t) = &tl.tracks.children[0] else {
        panic!("expected track")
    };
    t
}

fn clip_of(tl: &Timeline, i: usize) -> &Clip {
    let TrackChild::Clip(c) = &video(tl).children[i] else {
        panic!("expected clip")
    };
    c
}

fn montage(tl: &Timeline) -> &MontageTimelineMetadata {
    tl.metadata.montage.as_ref().expect("montage metadata")
}

fn document(id: &str, v: f64) -> Document {
    Document { id: id.to_string(), body: number(v) }
}

fn repair(high_pass_hz: Option<f64>) -> AudioFxConfig {
    AudioFxConfig {
        high_pass_hz: high_pass_hz.map(num),
        low_pass_hz: None,
        compressor_threshold_db: None,
        compressor_ratio: None,
        limiter_limit_db: None,
        noise_gate_threshold_db: None,
        hum_notch_hz: None,
        de_ess_hz: None,
        de_ess_reduction_db: None,
        loudnorm_i: None,
        loudnorm_tp: None,
        eq_bands: Vec::new(),
        document: MetaValue::Object(match high_pass_hz {
            Some(x) => pairs(vec![("high_pass_hz", number(x))]),
            None => MetaMap::new(),
        }),
    }
}

fn audio_timeline() -> Timeline {
    let mut tl = Timeline::empty("audio");
    let mut track = Track::empty("A1", TrackKind::Audio);
    let mut clip = Clip::empty("voice");
    clip.media_reference = MediaReference::External(ExternalReference::new("raw/a.wav"));
    clip.source_range = Some(TimeRange::new(time(0.0, 24.0), time(10.0 * 24.0, 24.0)));
    track.children.push(TrackChild::Clip(clip));
    tl.tracks.children.push(StackChild::Track(track));
    tl
}

#[test]
fn ducking_has_its_defaults() {
    let tl = audio_timeline();
    let op = EdlOp::SetDucking {
        track: "A1".into(),
        enabled: None,
        amount_db: None,
        attack_ms: None,
        release_ms: None,
    };
    let (new_tl, outcome) = apply(&tl, &one(op)).unwrap();
    let ducking = video(&new_tl).metadata.at("montage_audio").at("ducking");
    assert_eq!(ducking.at("enabled").as_bool(), Some(true));
    assert_eq!(ducking.at("amount_db").as_f64(), Some(-12.0));
    assert!(outcome.applied[0].description.contains("amount=-12.0dB"));
}

#[test]
fn a_clip_is_repaired_and_asked_for_something() {
    let tl = audio_timeline();
    let fx = repair(Some(80.0));
    let (new_tl, _) =
        apply(&tl, &one(EdlOp::SetClipAudioFx { anchor: clip_on("voice"), fx })).unwrap();
    let effect = &clip_of(&new_tl, 0).effects[0];
    assert_eq!(effect.effect_name, "montage.audio_fx");
    assert_eq!(effect.metadata.at("high_pass_hz").as_f64(), Some(80.0));
    let fx = repair(None);
    let err = apply(&tl, &one(EdlOp::SetTrackAudioFx { track: "A1".into(), fx })).unwrap_err();
    assert!(err.text().contains("at least one audio FX parameter is required"));
}

#[test]
fn a_synced_clip_begins_at_its_offset() {
    let tl = audio_timeline();
    let op = |offset_s: f64, confidence: f64| EdlOp::SetSyncGroup {
        anchor: clip_on("voice"),
        sync_group_id: "scene-1".into(),
        offset_s: num(offset_s),
        speed_factor: None,
        confidence: Some(num(confidence)),
    };
    let (new_tl, outcome) = apply(&tl, &one(op(2.5, 0.9))).unwrap();
    let TrackChild::Gap(gap) = &video(&new_tl).children[0] else {
        panic!("expected gap")
    };
    assert_eq!(gap.source_range.duration.to_seconds(), num(2.5));
    assert!(outcome.applied[0].description.contains("offset=2.500s confidence=0.90"));
    assert!(apply(&tl, &one(op(2.5, 1.5))).is_err());
}

#[test]
fn documents_go_to_their_shelves() {
    let tl = timeline_with_three_clips();
    let env = EdlEnvelope {
        ops: vec![
            EdlOp::AddProposalPackage { package: document("p", 1.0) },
            EdlOp::SetMotionScene { scene: document("s", 2.0) },
            EdlOp::SelectDeliveryProfile { profile: document("d", 3.0) },
            EdlOp::AddPreflightReport { report: document("r", 4.0) },
            EdlOp::AttachComposition {
                graph: document("g", 5.0),
                attach_to: Some(MetaValue::text("clip-1")),
            },
            EdlOp::SetWorkflowLens {
                lens: WorkflowLens { name: "Podcast".into(), key: "podcast".into() },
            },
            EdlOp::SetColorFinishing { state: number(6.0) },
            EdlOp::SetAudioFinishing { state: number(7.0) },
            EdlOp::SetTrackingPackage { package: number(8.0) },
            EdlOp::SetAssetCatalog { catalog: number(9.0) },
        ],
    };
    let (new_tl, outcome) = apply(&tl, &env).unwrap();
    let m = montage(&new_tl);
    assert_eq!(outcome.applied.len(), 10);
    assert_eq!(m.proposal_packages[0].id, "p");
    assert_eq!(m.motion_scenes[0].id, "s");
    assert_eq!(m.delivery_profiles[0].id, "d");
    assert_eq!(m.preflight_reports[0].id, "r");
    assert_eq!(m.composition_graphs[0].id, "g");
    assert_eq!(m.extra.at("composition_attach_g").as_str(), Some("clip-1"));
    assert_eq!(m.workflow_lenses, ["podcast"]);
    assert_eq!(m.extra.at("active_workflow_lens").as_str(), Some("podcast"));
    assert_eq!(m.color_finishing.as_ref().and_then(|v| v.as_f64()), Some(6.0));
    assert_eq!(m.audio_finishing.as_ref().and_then(|v| v.as_f64()), Some(7.0));
    assert_eq!(m.tracking_package.as_ref().and_then(|v| v.as_f64()), Some(8.0));
    assert_eq!(m.asset_catalog.as_ref().and_then(|v| v.as_f64()), Some(9.0));
    assert_eq!(m.version, "1");
}

#[test]
fn an_animation_without_a_target_must_be_metadata() {
    let tl = timeline_with_three_clips();
    let op = |metadata_only: bool| EdlOp::SetParameterAnimation {
        animation: ParameterAnimation { document: document("a", 1.0), metadata_only },
    };
    let (new_tl, _) = apply(&tl, &one(op(true))).unwrap();
    assert_eq!(montage(&new_tl).parameter_animations[0].id, "a");
    let err = apply(&tl, &one(op(false))).unwrap_err();
    assert!(err.text().contains("unsupported parameter animation target for a"));
}

#[test]
fn a_shape_is_drawn_inside_the_picture() {
    let tl = timeline_with_three_clips();
    let op = |x: f64| EdlOp::InsertAnnotation {
        annotation: Annotation {
            start_s: num(1.0),
            end_s: num(2.0),
            kind: AnnotationKind::Circle,
            x: num(x),
            y: num(0.25),
            width: num(0.5),
            height: num(0.5),
            color: "#FF0000".into(),
            stroke_width: 4,
            label: None,
        },
    };
    let (new_tl, _) = apply(&tl, &one(op(0.25))).unwrap();
    let StackChild::Track(track) = &new_tl.tracks.children[1] else {
        panic!("expected annotations track")
    };
    assert_eq!(track.name, "Annotations");
    assert_eq!(track.children.len(), 1);
    let err = apply(&tl, &one(op(1.25))).unwrap_err();
    assert!(err.text().contains("normalized values"));
}

#[test]
fn a_rich_title_joins_its_segments() {
    let tl = timeline_with_three_clips();
    let segment = |text: &str| RichTextSegment {
        text: text.to_string(),
        document: MetaValue::Object(pairs(vec![("text", MetaValue::text(text))])),
    };
    let op = |segments: Vec<RichTextSegment>| EdlOp::InsertRichTitle {
        title: RichTitle {
            start_s: num(0.0),
            end_s: num(2.0),
            segments,
            position: TitlePosition::Center,
            font_size: 48,
            animation: TitleAnimation::FadeIn,
            phases: None,
            font_family: None,
            font_path: None,
        },
    };
    let (new_tl, _) = apply(&tl, &one(op(vec![segment("Big "), segment("News")]))).unwrap();
    let StackChild::Track(titles) = &new_tl.tracks.children[1] else {
        panic!("expected titles track")
    };
    let TrackChild::Clip(clip) = &titles.children[0] else {
        panic!("expected title clip")
    };
    assert_eq!(clip.effects[0].metadata.at("text").as_str(), Some("Big News"));
    assert_eq!(clip.effects[0].metadata.at("rich_segments").as_array().unwrap().len(), 2);
    let err = apply(&tl, &one(op(vec![segment("")]))).unwrap_err();
    assert!(err.text().contains("must contain non-empty text"));
}

#[test]
fn a_template_becomes_titles_and_animations() {
    let tl = timeline_with_three_clips();
    let op = || EdlOp::InstantiateMotionTemplate {
        template_id: "lower-third".into(),
        start_s: num(1.0),
        end_s: num(3.0),
        animation: MotionTemplateAnimation::Still,
        slot_values: MetaMap::new(),
    };
    let err = apply(&tl, &one(op())).unwrap_err();
    assert!(err.text().contains("unknown template \"lower-third\""));
    let (new_tl, outcome) = apply_asking(&tl, &one(op()), |_: &EdlOp, a: &mut Answers| {
        a.template = TemplateVerdict {
            built_in: Some(MetaValue::Object(MetaMap::new())),
            lowered: Ok(LoweredTemplate {
                titles: vec![LoweredTitle {
                    role: "title".to_string(),
                    safe_area: None,
                    overlay: TextOverlay {
                        start_s: num(1.0),
                        end_s: num(3.0),
                        text: "Guest".to_string(),
                        position: TitlePosition::Bottom,
                        font_size: 40,
                        color: "#FFFFFF".to_string(),
                        font_weight: TitleWeight::Bold,
                        animation: TitleAnimation::Still,
                        phases: None,
                    },
                }],
                animations: Vec::new(),
            }),
        };
    })
    .unwrap();
    assert!(outcome.applied[0].description.contains("1 title clip(s)"));
    assert_eq!(new_tl.tracks.children.len(), 2);
}

#[test]
fn an_edit_of_the_cutting_room_is_put_on_record() {
    let tl = timeline_with_three_clips();
    let op = EdlOp::ProfessionalTimelineEdit {
        edit: ProfessionalTimelineEdit::AddMarker {
            at_s: num(1.0),
            label: "beat".into(),
            category: None,
        },
        document: MetaValue::text("as written"),
    };
    let (new_tl, _) = apply(&tl, &one(op)).unwrap();
    assert_eq!(
        montage(&new_tl).extra.at("last_professional_timeline_edit").as_str(),
        Some("as written")
    );
}

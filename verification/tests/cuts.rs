//! Ops on what lies at a cut.
use montage_edl::boundary::cut_boundary_key;
use montage_edl::dispatch::Answers;
use montage_edl::engine::ApplyOutcome;
use montage_edl::envelope::{EdlEnvelope, EdlOp, ProfessionalTimelineEdit, TransitionBetween};
use montage_edl::error::{AnchorMiss, ApplyError};
use montage_edl::meta::{MetaMap, MetaValue};
use montage_edl::mint::ClipIds;
use montage_edl::model::{
    Clip, ClipLocator, ClipMetadata, ExternalReference, MediaReference, MontageClipMetadata,
    MontageTimelineMetadata, RationalTime, SemanticCutSpec, SplitEditSpec, StackChild, TimeRange,
    Timeline, Track, TrackChild, TrackKind,
};
use montage_edl::num::Num;
use montage_edl::op::{
    Anchor, BetweenPlaces, TransitionAlignment, TransitionSpec, TransitionVerdict,
};
use montage_edl::transition::TransitionRequest;

fn num(x: f64) -> Num {
    if x.is_nan() {
        Num::Nan
    } else if x.is_infinite() {
        if x > 0.0 {
            Num::PosInf
        } else {
            Num::NegInf
        }
    } else {
        Num::Fin((x * 1e15).round() as i128)
    }
}

fn float(x: Num) -> f64 {
    match x {
        Num::Nan => f64::NAN,
        Num::NegInf => f64::NEG_INFINITY,
        Num::Fin(v) => v as f64 / 1e15,
        Num::PosInf => f64::INFINITY,
    }
}

fn time(value: f64, rate: f64) -> RationalTime {
    RationalTime::new(num(value / rate), num(rate))
}

fn number(x: f64) -> MetaValue {
    MetaValue::number(num(x))
}

fn pairs(entries: Vec<(&str, MetaValue)>) -> MetaMap {
    let mut m = MetaMap::new();
    for (key, value) in entries {
        m.insert(key, value);
    }
    m
}

trait Json {
    fn as_str(&self) -> Option<&str>;
    fn as_f64(&self) -> Option<f64>;
    fn as_u64(&self) -> Option<u64>;
    fn as_array(&self) -> Option<&Vec<MetaValue>>;
    fn as_object(&self) -> Option<&MetaMap>;
    fn get(&self, key: &str) -> Option<&MetaValue>;
    fn at(&self, key: &str) -> &MetaValue;
}

impl Json for MetaValue {
    fn as_str(&self) -> Option<&str> {
        match self {
            MetaValue::Text(s) => Some(s),
            _ => None,
        }
    }

    fn as_f64(&self) -> Option<f64> {
        self.as_number().map(float)
    }

    fn as_u64(&self) -> Option<u64> {
        self.as_f64().filter(|x| x.fract() == 0.0 && *x >= 0.0).map(|x| x as u64)
    }

    fn as_array(&self) -> Option<&Vec<MetaValue>> {
        match self {
            MetaValue::List(v) => Some(v),
            _ => None,
        }
    }

    fn as_object(&self) -> Option<&MetaMap> {
        match self {
            MetaValue::Object(m) => Some(m),
            _ => None,
        }
    }

    fn get(&self, key: &str) -> Option<&MetaValue> {
        self.as_object().and_then(|m| m.get(key))
    }

    fn at(&self, key: &str) -> &MetaValue {
        self.get(key).expect("a value")
    }
}

fn no_metadata() -> ClipMetadata {
    ClipMetadata { montage: None, extra: MetaMap::new() }
}

fn cut<'a>(meta: &'a MontageTimelineMetadata, key: &str) -> Option<&'a SemanticCutSpec> {
    meta.cut_boundaries.iter().find(|b| b.key == key).map(|b| &b.spec)
}

fn timeline_with_three_clips() -> Timeline {
    let mut tl = Timeline::empty("test");
    let mut track = Track::empty("V1", TrackKind::Video);
    for (i, snip) in ["alpha snippet", "bravo snippet", "charlie snippet"].iter().enumerate() {
        let mut c = Clip::empty(&format!("clip-{i}"));
        c.media_reference =
            MediaReference::External(ExternalReference::new(&format!("raw/{i}.mp4")));
        c.source_range = Some(TimeRange::new(time(0.0, 24.0), time(5.0 * 24.0, 24.0)));
        c.metadata = ClipMetadata {
            montage: Some(MontageClipMetadata {
                transcript_snippet: Some((*snip).to_string()),
                ..MontageClipMetadata::new()
            }),
            ..no_metadata()
        };
        track.children.push(TrackChild::Clip(c));
    }
    tl.tracks.children.push(StackChild::Track(track));
    tl
}

fn add_one_second_handles(tl: &mut Timeline) {
    let StackChild::Track(track) = &mut tl.tracks.children[0] else {
        panic!("expected track")
    };
    for child in &mut track.children {
        let TrackChild::Clip(clip) = child else {
            continue;
        };
        clip.media_reference =
            MediaReference::External(external_ref_with_available("raw/handled.mp4", 7.0));
        clip.source_range = Some(TimeRange::new(time(1.0 * 24.0, 24.0), time(5.0 * 24.0, 24.0)));
    }
}

fn external_ref_with_available(asset: &str, duration_s: f64) -> ExternalReference {
    let mut ext = ExternalReference::new(asset);
    ext.available_range = Some(TimeRange::new(time(0.0, 24.0), time(duration_s * 24.0, 24.0)));
    ext
}

fn extract_clip_uuid(clip: &Clip) -> Option<String> {
    clip.metadata
        .montage
        .as_ref()
        .and_then(|m| m.extra.get("clip_uuid"))
        .and_then(|v| v.as_text())
}

/// Where an anchor leads: to the clip with the unique id or the name, or to the
/// clip whose transcript holds the text.
fn place(timeline: &Timeline, anchor: &Anchor) -> Result<ClipLocator, AnchorMiss> {
    for (track_index, layer) in timeline.tracks.children.iter().enumerate() {
        let StackChild::Track(track) = layer else {
            continue;
        };
        for (child_index, child) in track.children.iter().enumerate() {
            let TrackChild::Clip(clip) = child else {
                continue;
            };
            let montage = clip.metadata.montage.as_ref();
            let here = match anchor {
                Anchor::ClipUuid { uuid } => {
                    clip.name == *uuid
                        || montage.and_then(|m| m.extra.get_text("clip_uuid")).as_ref()
                            == Some(uuid)
                }
                Anchor::TranscriptSnippet { text } => montage
                    .and_then(|m| m.transcript_snippet.as_ref())
                    .is_some_and(|s| s.contains(text.as_str())),
            };
            if here {
                return Ok(ClipLocator { track_index, child_index });
            }
        }
    }
    Err(AnchorMiss { text: format!("no clip at {anchor:?}") })
}

fn answers(timeline: &Timeline, op: &EdlOp, anchor: &Option<Anchor>) -> Answers {
    let mut a = Answers::plain(MetaValue::Null);
    if let Some(x) = anchor {
        a.place = place(timeline, x);
    }
    let between = match op {
        EdlOp::InsertTransition { between, .. }
        | EdlOp::DeleteTransition { between }
        | EdlOp::SetCutIntent { between, .. }
        | EdlOp::ProfessionalTimelineEdit {
            edit: ProfessionalTimelineEdit::RollEdit { between, .. },
            ..
        } => Some(between),
        _ => None,
    };
    if let Some(b) = between {
        a.between =
            BetweenPlaces { from: place(timeline, &b.from), to: place(timeline, &b.to) };
    }
    if let EdlOp::ProfessionalTimelineEdit { edit, .. } = op {
        if let ProfessionalTimelineEdit::UpdateMarker { selector, .. }
        | ProfessionalTimelineEdit::DeleteMarker { selector } = edit
        {
            a.marker = selector.anchor.as_ref().map(|x| place(timeline, x));
        }
    }
    a
}

fn apply_asking<F: Fn(&EdlOp, &mut Answers)>(
    tl: &Timeline,
    env: &EdlEnvelope,
    adjust: F,
) -> Result<(Timeline, ApplyOutcome), ApplyError> {
    montage_edl::engine::apply(
        tl,
        env,
        |working: &Timeline, op: &EdlOp, anchor: &Option<Anchor>| {
            let mut a = answers(working, op, anchor);
            adjust(op, &mut a);
            a
        },
        &mut ClipIds::new(0),
    )
}

/// What the registry of transitions says of those that these tests put in.
fn known_transition(request: &TransitionRequest) -> TransitionVerdict {
    let (xfade, longest): (&str, f64) = match request.kind.as_str() {
        "montage.slide_left" | "slideleft" => ("slideleft", 3.0),
        "montage.flash_white" => ("fadewhite", 0.5),
        _ => ("fade", 3.0),
    };
    let duration_s = float(request.duration_s);
    TransitionVerdict {
        duration_error: if duration_s > longest {
            Some(format!("duration {duration_s} is outside supported range"))
        } else {
            None
        },
        xfade: Ok(Some(xfade.to_string())),
        spec_xfade: Ok(request.spec.as_ref().map(|_| xfade.to_string())),
        spec_error: None,
        kept_spec: request.spec.as_ref().map_or(MetaValue::Null, |s| kept(&s.document)),
    }
}

/// A spec with its composition: its own, or that of its kind.
fn kept(document: &MetaValue) -> MetaValue {
    let mut kept = document.copied();
    if let MetaValue::Object(m) = &mut kept {
        if m.get("composition").is_none() {
            m.insert("composition", composition(vec![primitive("push")]));
        }
    }
    kept
}

fn apply(tl: &Timeline, env: &EdlEnvelope) -> Result<(Timeline, ApplyOutcome), ApplyError> {
    apply_asking(tl, env, |op: &EdlOp, a: &mut Answers| {
        if let EdlOp::InsertTransition { request, .. } = op {
            a.transition = known_transition(request);
        }
    })
}

fn primitive(op: &str) -> MetaValue {
    MetaValue::Object(pairs(vec![("op", MetaValue::text(op))]))
}

fn composition(primitives: Vec<MetaValue>) -> MetaValue {
    MetaValue::Object(pairs(vec![
        ("version", number(1.0)),
        ("primitives", MetaValue::List(primitives)),
    ]))
}

#[test]
fn apply_delete_removes_cut_boundary_metadata_for_deleted_clip() {
    let tl = timeline_with_three_clips();
    let env = EdlEnvelope {
        ops: vec![
            EdlOp::SetCutIntent {
                between: TransitionBetween {
                    from: Anchor::ClipUuid {
                        uuid: "clip-0".into(),
                    },
                    to: Anchor::ClipUuid {
                        uuid: "clip-1".into(),
                    },
                },
                spec: SemanticCutSpec {
                    cut_type: "CutOnAction".into(),
                    intent: "hide_action_continuity".into(),
                    energy: None,
                    audio_relation: "Sync".into(),
                    confidence: Some(num(0.9)),
                    reason: Some("motion carries through the boundary".into()),
                    extra: MetaMap::new(),
                },
            },
            EdlOp::DeleteClip {
                anchor: Anchor::ClipUuid {
                    uuid: "clip-1".into(),
                },
            },
        ],
    };

    let (new_tl, _) = apply(&tl, &env).unwrap();

    let meta = new_tl.metadata.montage.as_ref().expect("montage metadata");
    assert!(
        meta.cut_boundaries.is_empty(),
        "cut metadata referring to deleted clips must not remain: {:?}",
        meta.cut_boundaries
    );
}

#[test]
fn apply_delete_removes_audio_lead_when_source_boundary_is_removed() {
    let tl = timeline_with_three_clips();
    let env = EdlEnvelope {
        ops: vec![
            EdlOp::SetAudioLead {
                anchor: Anchor::ClipUuid {
                    uuid: "clip-2".into(),
                },
                lead_s: num(0.35),
                split_edit: Some(SplitEditSpec {
                    audio_lead_s: Some(num(0.35)),
                    audio_lead_from_clip_id: None,
                    audio_trail_s: None,
                    audio_trail_to_clip_id: None,
                    reason: Some("let clip two lead under clip one".into()),
                    confidence: Some(num(0.86)),
                }),
            },
            EdlOp::DeleteClip {
                anchor: Anchor::ClipUuid {
                    uuid: "clip-1".into(),
                },
            },
        ],
    };

    let (new_tl, _) = apply(&tl, &env).unwrap();
    let StackChild::Track(track) = &new_tl.tracks.children[0] else {
        panic!("expected video track");
    };
    let TrackChild::Clip(clip_two) = &track.children[2] else {
        panic!("expected clip two after delete");
    };

    assert!(
        clip_two
            .metadata
            .montage
            .as_ref()
            .and_then(|metadata| metadata.split_edit.as_ref())
            .and_then(|split| split.audio_lead_s)
            .is_none(),
        "audio lead should not survive after its source boundary was removed"
    );
}

#[test]
fn apply_delete_removes_adjacent_transitions() {
    let mut tl = timeline_with_three_clips();
    add_one_second_handles(&mut tl);
    let env = EdlEnvelope {
        ops: vec![
            EdlOp::InsertTransition {
                between: TransitionBetween {
                    from: Anchor::TranscriptSnippet {
                        text: "alpha snippet".into(),
                    },
                    to: Anchor::TranscriptSnippet {
                        text: "bravo snippet".into(),
                    },
                },
                request: TransitionRequest {
                    kind: "SMPTE_Dissolve".into(),
                    duration_s: num(0.3),
                    alignment: None,
                    in_offset_s: None,
                    out_offset_s: None,
                    spec: None,
                },
            },
            EdlOp::InsertTransition {
                between: TransitionBetween {
                    from: Anchor::TranscriptSnippet {
                        text: "bravo snippet".into(),
                    },
                    to: Anchor::TranscriptSnippet {
                        text: "charlie snippet".into(),
                    },
                },
                request: TransitionRequest {
                    kind: "SMPTE_Dissolve".into(),
                    duration_s: num(0.3),
                    alignment: None,
                    in_offset_s: None,
                    out_offset_s: None,
                    spec: None,
                },
            },
        ],
    };
    let (tl, _) = apply(&tl, &env).unwrap();

    let (new_tl, outcome) = apply(
        &tl,
        &EdlEnvelope {
            ops: vec![EdlOp::DeleteClip {
                anchor: Anchor::TranscriptSnippet {
                    text: "bravo snippet".into(),
                },
            }],
        },
    )
    .unwrap();

    assert!(
        outcome.applied[0]
            .description
            .contains("removed 2 adjacent transition")
    );
    let StackChild::Track(t) = &new_tl.tracks.children[0] else {
        panic!()
    };
    assert_eq!(t.children.len(), 3);
    assert!(matches!(&t.children[0], TrackChild::Clip(_)));
    assert!(matches!(&t.children[1], TrackChild::Gap(_)));
    assert!(matches!(&t.children[2], TrackChild::Clip(_)));
    assert!(
        t.children
            .iter()
            .all(|child| !matches!(child, TrackChild::Transition(_)))
    );
}

#[test]
fn apply_split_transfers_outgoing_cut_boundary_metadata_to_right_piece() {
    let tl = timeline_with_three_clips();
    let env = EdlEnvelope {
        ops: vec![
            EdlOp::SetCutIntent {
                between: TransitionBetween {
                    from: Anchor::ClipUuid {
                        uuid: "clip-1".into(),
                    },
                    to: Anchor::ClipUuid {
                        uuid: "clip-2".into(),
                    },
                },
                spec: SemanticCutSpec {
                    cut_type: "LCut".into(),
                    intent: "hold_expert_thought".into(),
                    energy: None,
                    audio_relation: "AudioTrails".into(),
                    confidence: Some(num(0.88)),
                    reason: Some("hold the answer under the reaction".into()),
                    extra: MetaMap::new(),
                },
            },
            EdlOp::SplitClip {
                anchor: Anchor::ClipUuid {
                    uuid: "clip-1".into(),
                },
                at_s: num(2.5),
                snap: None,
            },
        ],
    };

    let (new_tl, _) = apply(&tl, &env).unwrap();
    let StackChild::Track(track) = &new_tl.tracks.children[0] else {
        panic!("expected video track");
    };
    let TrackChild::Clip(right_piece) = &track.children[2] else {
        panic!("expected split right piece");
    };
    let right_uuid = extract_clip_uuid(right_piece).expect("right piece uuid");
    let meta = new_tl.metadata.montage.as_ref().expect("montage metadata");
    let key = cut_boundary_key(&right_uuid, "clip-2");
    let spec = cut(meta, &key)
        .expect("outgoing cut intent should follow the right split piece");

    assert_eq!(spec.cut_type, "LCut");
    assert_eq!(spec.intent, "hold_expert_thought");
    assert_eq!(spec.audio_relation, "AudioTrails");
    assert!(!cut(meta, "clip-1::clip-2").is_some());
}

#[test]
fn apply_split_keeps_split_edit_offsets_on_the_boundary_pieces() {
    let tl = timeline_with_three_clips();
    let env = EdlEnvelope {
        ops: vec![
            EdlOp::SetAudioLead {
                anchor: Anchor::ClipUuid {
                    uuid: "clip-1".into(),
                },
                lead_s: num(0.35),
                split_edit: Some(SplitEditSpec {
                    audio_lead_s: Some(num(0.35)),
                    audio_lead_from_clip_id: None,
                    audio_trail_s: None,
                    audio_trail_to_clip_id: None,
                    reason: Some("incoming audio leads the picture".into()),
                    confidence: Some(num(0.86)),
                }),
            },
            EdlOp::SetAudioTrail {
                anchor: Anchor::ClipUuid {
                    uuid: "clip-1".into(),
                },
                trail_s: num(0.55),
                split_edit: Some(SplitEditSpec {
                    audio_lead_s: None,
                    audio_lead_from_clip_id: None,
                    audio_trail_s: Some(num(0.55)),
                    audio_trail_to_clip_id: None,
                    reason: Some("outgoing audio trails into the reaction".into()),
                    confidence: Some(num(0.82)),
                }),
            },
            EdlOp::SplitClip {
                anchor: Anchor::ClipUuid {
                    uuid: "clip-1".into(),
                },
                at_s: num(2.5),
                snap: None,
            },
        ],
    };

    let (new_tl, _) = apply(&tl, &env).unwrap();
    let StackChild::Track(track) = &new_tl.tracks.children[0] else {
        panic!("expected video track");
    };
    let TrackChild::Clip(left_piece) = &track.children[1] else {
        panic!("expected split left piece");
    };
    let TrackChild::Clip(right_piece) = &track.children[2] else {
        panic!("expected split right piece");
    };
    let left_split = left_piece
        .metadata
        .montage
        .as_ref()
        .and_then(|metadata| metadata.split_edit.as_ref())
        .expect("left piece split edit");
    let right_split = right_piece
        .metadata
        .montage
        .as_ref()
        .and_then(|metadata| metadata.split_edit.as_ref())
        .expect("right piece split edit");

    assert_eq!(left_split.audio_lead_s, Some(num(0.35)));
    assert_eq!(left_split.audio_trail_s, None);
    assert_eq!(right_split.audio_lead_s, None);
    assert_eq!(right_split.audio_trail_s, Some(num(0.55)));
    assert_eq!(
        right_split.reason.as_deref(),
        Some("outgoing audio trails into the reaction")
    );
}

#[test]
fn apply_insert_transition_lands_between_adjacent_clips() {
    let mut tl = timeline_with_three_clips();
    add_one_second_handles(&mut tl);
    let env = EdlEnvelope {
        ops: vec![EdlOp::InsertTransition {
            between: TransitionBetween {
                from: Anchor::TranscriptSnippet {
                    text: "alpha snippet".into(),
                },
                to: Anchor::TranscriptSnippet {
                    text: "bravo snippet".into(),
                },
            },
            request: TransitionRequest {
                kind: "SMPTE_Dissolve".into(),
                duration_s: num(1.0),
                alignment: None,
                in_offset_s: None,
                out_offset_s: None,
                spec: None,
            },
        }],
    };
    let (new_tl, outcome) = apply(&tl, &env).unwrap();
    assert_eq!(outcome.applied.len(), 1);

    let StackChild::Track(t) = &new_tl.tracks.children[0] else {
        panic!()
    };
    assert_eq!(t.children.len(), 4);
    assert!(matches!(&t.children[0], TrackChild::Clip(c) if c.name == "clip-0"));
    let TrackChild::Transition(tr) = &t.children[1] else {
        panic!("expected transition at index 1, got {:?}", t.children[1])
    };
    assert_eq!(tr.transition_type, "SMPTE_Dissolve");
    assert!((float(tr.in_offset.to_seconds()) - 0.5).abs() < 1e-9);
    assert!((float(tr.out_offset.to_seconds()) - 0.5).abs() < 1e-9);
    assert!(matches!(&t.children[2], TrackChild::Clip(c) if c.name == "clip-1"));
}

#[test]
fn apply_set_cut_intent_persists_boundary_metadata() {
    let tl = timeline_with_three_clips();
    let env = EdlEnvelope {
        ops: vec![EdlOp::SetCutIntent {
            between: TransitionBetween {
                from: Anchor::TranscriptSnippet {
                    text: "alpha snippet".into(),
                },
                to: Anchor::TranscriptSnippet {
                    text: "bravo snippet".into(),
                },
            },
            spec: SemanticCutSpec {
                cut_type: "CutOnAction".into(),
                intent: "hide_action_continuity".into(),
                energy: Some(num(0.7)),
                audio_relation: "Sync".into(),
                confidence: Some(num(0.9)),
                reason: Some("motion carries across the boundary".into()),
                extra: MetaMap::new(),
            },
        }],
    };
    let (new_tl, outcome) = apply(&tl, &env).unwrap();
    assert!(
        outcome.applied[0].description.contains("set cut intent"),
        "unexpected outcome: {:?}",
        outcome.applied
    );
    let meta = new_tl.metadata.montage.as_ref().expect("montage metadata");
    let key = cut_boundary_key("clip-0", "clip-1");
    let spec = cut(meta, &key)
        .expect("stored cut boundary spec");
    assert_eq!(spec.cut_type, "CutOnAction");
    assert_eq!(spec.intent, "hide_action_continuity");
    assert_eq!(spec.audio_relation, "Sync");
    assert_eq!(
        spec.reason.as_deref(),
        Some("motion carries across the boundary")
    );
}

#[test]
fn apply_set_cut_intent_allows_lifted_gap_between_boundary_clips() {
    let tl = timeline_with_three_clips();
    let env = EdlEnvelope {
        ops: vec![
            EdlOp::DeleteClip {
                anchor: Anchor::ClipUuid {
                    uuid: "clip-1".into(),
                },
            },
            EdlOp::SetCutIntent {
                between: TransitionBetween {
                    from: Anchor::ClipUuid {
                        uuid: "clip-0".into(),
                    },
                    to: Anchor::ClipUuid {
                        uuid: "clip-2".into(),
                    },
                },
                spec: SemanticCutSpec {
                    cut_type: "JCut".into(),
                    intent: "lifted_gap_handoff".into(),
                    energy: None,
                    audio_relation: "AudioLeads".into(),
                    confidence: Some(num(0.88)),
                    reason: Some("deleted reset take leaves timing gap".into()),
                    extra: MetaMap::new(),
                },
            },
        ],
    };
    let (new_tl, outcome) = apply(&tl, &env).unwrap();
    assert_eq!(outcome.applied.len(), 2);
    let meta = new_tl.metadata.montage.as_ref().expect("montage metadata");
    let key = cut_boundary_key("clip-0", "clip-2");
    assert_eq!(
        cut(meta, &key).map(|spec| spec.cut_type.as_str()),
        Some("JCut")
    );
}

#[test]
fn apply_audio_lead_and_trail_stamp_split_edit_metadata() {
    let tl = timeline_with_three_clips();
    let env = EdlEnvelope {
        ops: vec![
            EdlOp::SetAudioLead {
                anchor: Anchor::ClipUuid {
                    uuid: "clip-1".into(),
                },
                lead_s: num(0.45),
                split_edit: Some(SplitEditSpec {
                    audio_lead_s: Some(num(0.45)),
                    audio_lead_from_clip_id: None,
                    audio_trail_s: None,
                    audio_trail_to_clip_id: None,
                    reason: Some("let next speaker enter before picture".into()),
                    confidence: Some(num(0.87)),
                }),
            },
            EdlOp::SetAudioTrail {
                anchor: Anchor::ClipUuid {
                    uuid: "clip-1".into(),
                },
                trail_s: num(0.60),
                split_edit: Some(SplitEditSpec {
                    audio_lead_s: None,
                    audio_lead_from_clip_id: None,
                    audio_trail_s: Some(num(0.60)),
                    audio_trail_to_clip_id: None,
                    reason: Some("hold answer under reaction".into()),
                    confidence: Some(num(0.82)),
                }),
            },
        ],
    };
    let (new_tl, _) = apply(&tl, &env).unwrap();
    let StackChild::Track(t) = &new_tl.tracks.children[0] else {
        panic!()
    };
    let TrackChild::Clip(clip) = &t.children[1] else {
        panic!()
    };
    let split = clip
        .metadata
        .montage
        .as_ref()
        .and_then(|m| m.split_edit.as_ref())
        .expect("split edit metadata");
    assert_eq!(split.audio_lead_s, Some(num(0.45)));
    assert_eq!(split.audio_trail_s, Some(num(0.60)));
    assert_eq!(split.reason.as_deref(), Some("hold answer under reaction"));
    assert_eq!(split.confidence, Some(num(0.82)));

    let meta = new_tl.metadata.montage.as_ref().expect("montage metadata");
    let j_key = cut_boundary_key("clip-0", "clip-1");
    assert_eq!(
        cut(meta, &j_key)
            .map(|spec| (spec.cut_type.as_str(), spec.audio_relation.as_str())),
        Some(("JCut", "AudioLeads"))
    );
    let l_key = cut_boundary_key("clip-1", "clip-2");
    assert_eq!(
        cut(meta, &l_key)
            .map(|spec| (spec.cut_type.as_str(), spec.audio_relation.as_str())),
        Some(("LCut", "AudioTrails"))
    );
}

#[test]
fn apply_insert_transition_replaces_existing_transition_between_same_clips() {
    let mut tl = timeline_with_three_clips();
    add_one_second_handles(&mut tl);
    let insert_env = EdlEnvelope {
        ops: vec![EdlOp::InsertTransition {
            between: TransitionBetween {
                from: Anchor::TranscriptSnippet {
                    text: "alpha snippet".into(),
                },
                to: Anchor::TranscriptSnippet {
                    text: "bravo snippet".into(),
                },
            },
            request: TransitionRequest {
                kind: "SMPTE_Dissolve".into(),
                duration_s: num(0.3),
                alignment: None,
                in_offset_s: None,
                out_offset_s: None,
                spec: None,
            },
        }],
    };
    let (tl_with_transition, _) = apply(&tl, &insert_env).unwrap();

    let replace_env = EdlEnvelope {
        ops: vec![EdlOp::InsertTransition {
            between: TransitionBetween {
                from: Anchor::TranscriptSnippet {
                    text: "alpha snippet".into(),
                },
                to: Anchor::TranscriptSnippet {
                    text: "bravo snippet".into(),
                },
            },
            request: TransitionRequest {
                kind: "SMPTE_Dissolve".into(),
                duration_s: num(2.0),
                alignment: None,
                in_offset_s: None,
                out_offset_s: None,
                spec: None,
            },
        }],
    };
    let (new_tl, outcome) =
        apply(&tl_with_transition, &replace_env).unwrap();
    assert!(
        outcome.applied[0]
            .description
            .contains("replaced transition"),
        "expected replacement outcome, got {:?}",
        outcome.applied,
    );

    let StackChild::Track(t) = &new_tl.tracks.children[0] else {
        panic!()
    };
    assert_eq!(t.children.len(), 4);
    assert!(matches!(&t.children[0], TrackChild::Clip(c) if c.name == "clip-0"));
    let TrackChild::Transition(tr) = &t.children[1] else {
        panic!("expected transition at index 1, got {:?}", t.children[1])
    };
    assert_eq!(tr.transition_type, "SMPTE_Dissolve");
    assert!((float(tr.in_offset.to_seconds()) - 1.0).abs() < 1e-9);
    assert!((float(tr.out_offset.to_seconds()) - 1.0).abs() < 1e-9);
    assert!(matches!(&t.children[2], TrackChild::Clip(c) if c.name == "clip-1"));
    assert!(matches!(&t.children[3], TrackChild::Clip(c) if c.name == "clip-2"));
}

#[test]
fn apply_delete_transition_removes_existing_transition() {
    let mut tl = timeline_with_three_clips();
    add_one_second_handles(&mut tl);
    let insert_env = EdlEnvelope {
        ops: vec![EdlOp::InsertTransition {
            between: TransitionBetween {
                from: Anchor::TranscriptSnippet {
                    text: "alpha snippet".into(),
                },
                to: Anchor::TranscriptSnippet {
                    text: "bravo snippet".into(),
                },
            },
            request: TransitionRequest {
                kind: "SMPTE_Dissolve".into(),
                duration_s: num(0.3),
                alignment: None,
                in_offset_s: None,
                out_offset_s: None,
                spec: None,
            },
        }],
    };
    let (tl_with_transition, _) = apply(&tl, &insert_env).unwrap();

    let delete_env = EdlEnvelope {
        ops: vec![EdlOp::DeleteTransition {
            between: TransitionBetween {
                from: Anchor::TranscriptSnippet {
                    text: "alpha snippet".into(),
                },
                to: Anchor::TranscriptSnippet {
                    text: "bravo snippet".into(),
                },
            },
        }],
    };
    let (new_tl, outcome) =
        apply(&tl_with_transition, &delete_env).unwrap();
    assert!(
        outcome.applied[0]
            .description
            .contains("deleted transition"),
        "expected delete outcome, got {:?}",
        outcome.applied,
    );
    let StackChild::Track(t) = &new_tl.tracks.children[0] else {
        panic!()
    };
    assert_eq!(t.children.len(), 3);
    assert!(matches!(&t.children[0], TrackChild::Clip(c) if c.name == "clip-0"));
    assert!(matches!(&t.children[1], TrackChild::Clip(c) if c.name == "clip-1"));
    assert!(matches!(&t.children[2], TrackChild::Clip(c) if c.name == "clip-2"));
}

#[test]
fn apply_insert_transition_persists_semantic_metadata() {
    let mut tl = timeline_with_three_clips();
    add_one_second_handles(&mut tl);
    let env = EdlEnvelope {
        ops: vec![EdlOp::InsertTransition {
            between: TransitionBetween {
                from: Anchor::TranscriptSnippet {
                    text: "alpha snippet".into(),
                },
                to: Anchor::TranscriptSnippet {
                    text: "bravo snippet".into(),
                },
            },
            request: TransitionRequest {
                kind: "montage.slide_left".into(),
                duration_s: num(0.28),
                alignment: None,
                in_offset_s: None,
                out_offset_s: None,
                spec: Some(TransitionSpec {
                    id: "montage.slide_left".into(),
                    document: MetaValue::Object(pairs(vec![
                        ("id", MetaValue::text("montage.slide_left")),
                        ("family", MetaValue::text("slide")),
                        ("intent", MetaValue::text("hide_motion_jump")),
                        ("direction", MetaValue::text("left")),
                        ("energy", number(0.7)),
                    ])),
                }),
            },
        }],
    };
    let (new_tl, _) = apply(&tl, &env).unwrap();
    let StackChild::Track(t) = &new_tl.tracks.children[0] else {
        panic!()
    };
    let TrackChild::Transition(tr) = &t.children[1] else {
        panic!("expected transition")
    };
    assert_eq!(tr.transition_type, "montage.slide_left");
    let meta = tr
        .metadata
        .get("montage_transition")
        .and_then(Json::as_object)
        .unwrap();
    assert_eq!(
        meta.get("id").and_then(|v| v.as_str()),
        Some("montage.slide_left")
    );
    assert_eq!(
        meta.get("intent").and_then(|v| v.as_str()),
        Some("hide_motion_jump")
    );
    let composition = meta
        .get("composition")
        .and_then(Json::as_object)
        .unwrap();
    let primitives = composition
        .get("primitives")
        .and_then(Json::as_array)
        .unwrap();
    assert!(matches!(
        primitives
            .first()
            .and_then(|primitive| primitive.get("op"))
            .and_then(Json::as_str),
        Some("push")
    ));
}

#[test]
fn apply_insert_transition_accepts_agent_composite_recipe() {
    let mut tl = timeline_with_three_clips();
    add_one_second_handles(&mut tl);
    let env = EdlEnvelope {
        ops: vec![EdlOp::InsertTransition {
            between: TransitionBetween {
                from: Anchor::TranscriptSnippet {
                    text: "alpha snippet".into(),
                },
                to: Anchor::TranscriptSnippet {
                    text: "bravo snippet".into(),
                },
            },
            request: TransitionRequest {
                kind: "montage.composite".into(),
                duration_s: num(0.55),
                alignment: None,
                in_offset_s: None,
                out_offset_s: None,
                spec: Some(TransitionSpec {
                    id: "montage.composite".into(),
                    document: MetaValue::Object(pairs(vec![
                        ("id", MetaValue::text("montage.composite")),
                        ("family", MetaValue::text("custom")),
                        ("intent", MetaValue::text("beat_hit_motion_cover")),
                        ("direction", MetaValue::text("left")),
                        ("energy", number(0.85)),
                        ("composition", composition(vec![primitive("push"), primitive("flash")])),
                    ])),
                }),
            },
        }],
    };
    let (new_tl, _) = apply(&tl, &env).unwrap();
    let StackChild::Track(t) = &new_tl.tracks.children[0] else {
        panic!()
    };
    let TrackChild::Transition(tr) = &t.children[1] else {
        panic!("expected transition")
    };
    assert_eq!(tr.transition_type, "montage.composite");
    let meta = tr
        .metadata
        .get("montage_transition")
        .and_then(Json::as_object)
        .unwrap();
    assert_eq!(
        meta.get("intent").and_then(|v| v.as_str()),
        Some("beat_hit_motion_cover")
    );
    assert!(meta.get("composition").is_some());
}

#[test]
fn apply_insert_transition_rejects_composite_without_recipe() {
    let mut tl = timeline_with_three_clips();
    add_one_second_handles(&mut tl);
    let env = EdlEnvelope {
        ops: vec![EdlOp::InsertTransition {
            between: TransitionBetween {
                from: Anchor::TranscriptSnippet {
                    text: "alpha snippet".into(),
                },
                to: Anchor::TranscriptSnippet {
                    text: "bravo snippet".into(),
                },
            },
            request: TransitionRequest {
                kind: "montage.composite".into(),
                duration_s: num(0.55),
                alignment: None,
                in_offset_s: None,
                out_offset_s: None,
                spec: None,
            },
        }],
    };
    let err = apply(&tl, &env).unwrap_err();
    assert!(
        matches!(&err, ApplyError::Invalid { message, .. } if message.contains("composition_json")),
        "expected missing composition error, got {err:?}",
    );
}

#[test]
fn apply_insert_transition_rejects_missing_handles_before_render() {
    let tl = timeline_with_three_clips();
    let env = EdlEnvelope {
        ops: vec![EdlOp::InsertTransition {
            between: TransitionBetween {
                from: Anchor::TranscriptSnippet {
                    text: "alpha snippet".into(),
                },
                to: Anchor::TranscriptSnippet {
                    text: "bravo snippet".into(),
                },
            },
            request: TransitionRequest {
                kind: "SMPTE_Dissolve".into(),
                duration_s: num(1.0),
                alignment: None,
                in_offset_s: None,
                out_offset_s: None,
                spec: None,
            },
        }],
    };
    let err = apply(&tl, &env).unwrap_err();
    assert!(
        matches!(&err, ApplyError::Invalid { message, .. } if message.contains("incoming handle") && message.contains("Untrim Clip")),
        "expected apply-time handle error, got {err:?}",
    );
}

#[test]
fn apply_insert_transition_persists_asymmetric_offsets() {
    let mut tl = timeline_with_three_clips();
    add_one_second_handles(&mut tl);
    let env = EdlEnvelope {
        ops: vec![EdlOp::InsertTransition {
            between: TransitionBetween {
                from: Anchor::TranscriptSnippet {
                    text: "alpha snippet".into(),
                },
                to: Anchor::TranscriptSnippet {
                    text: "bravo snippet".into(),
                },
            },
            request: TransitionRequest {
                kind: "SMPTE_Dissolve".into(),
                duration_s: num(1.0),
                alignment: None,
                in_offset_s: Some(num(0.25)),
                out_offset_s: Some(num(0.75)),
                spec: None,
            },
        }],
    };
    let (new_tl, _) = apply(&tl, &env).unwrap();
    let StackChild::Track(t) = &new_tl.tracks.children[0] else {
        panic!()
    };
    let TrackChild::Transition(tr) = &t.children[1] else {
        panic!("expected transition")
    };
    assert!((float(tr.in_offset.to_seconds()) - 0.25).abs() < 1e-9);
    assert!((float(tr.out_offset.to_seconds()) - 0.75).abs() < 1e-9);
}

#[test]
fn apply_insert_transition_alignment_maps_to_offsets() {
    let mut tl = timeline_with_three_clips();
    add_one_second_handles(&mut tl);
    let env = EdlEnvelope {
        ops: vec![EdlOp::InsertTransition {
            between: TransitionBetween {
                from: Anchor::TranscriptSnippet {
                    text: "alpha snippet".into(),
                },
                to: Anchor::TranscriptSnippet {
                    text: "bravo snippet".into(),
                },
            },
            request: TransitionRequest {
                kind: "SMPTE_Dissolve".into(),
                duration_s: num(0.75),
                alignment: Some(TransitionAlignment::StartAtCut),
                in_offset_s: None,
                out_offset_s: None,
                spec: None,
            },
        }],
    };
    let (new_tl, _) = apply(&tl, &env).unwrap();
    let StackChild::Track(t) = &new_tl.tracks.children[0] else {
        panic!()
    };
    let TrackChild::Transition(tr) = &t.children[1] else {
        panic!("expected transition")
    };
    assert!((float(tr.in_offset.to_seconds()) - 0.0).abs() < 1e-9);
    assert!((float(tr.out_offset.to_seconds()) - 0.75).abs() < 1e-9);
}

#[test]
fn apply_insert_transition_rejects_id_kind_mismatch() {
    let mut tl = timeline_with_three_clips();
    add_one_second_handles(&mut tl);
    let env = EdlEnvelope {
        ops: vec![EdlOp::InsertTransition {
            between: TransitionBetween {
                from: Anchor::TranscriptSnippet {
                    text: "alpha snippet".into(),
                },
                to: Anchor::TranscriptSnippet {
                    text: "bravo snippet".into(),
                },
            },
            request: TransitionRequest {
                kind: "montage.cross_dissolve".into(),
                duration_s: num(0.3),
                alignment: None,
                in_offset_s: None,
                out_offset_s: None,
                spec: Some(TransitionSpec {
                    id: "montage.slide_left".into(),
                    document: MetaValue::Object(pairs(vec![
                        ("id", MetaValue::text("montage.slide_left")),
                        ("family", MetaValue::text("slide")),
                    ])),
                }),
            },
        }],
    };
    let err = apply(&tl, &env).unwrap_err();
    assert!(
        matches!(&err, ApplyError::Invalid { message, .. } if message.contains("must match kind")),
        "expected id/kind mismatch error, got {err:?}",
    );
}

#[test]
fn apply_insert_transition_rejects_raw_ffmpeg_kind() {
    let mut tl = timeline_with_three_clips();
    add_one_second_handles(&mut tl);
    let env = EdlEnvelope {
        ops: vec![EdlOp::InsertTransition {
            between: TransitionBetween {
                from: Anchor::TranscriptSnippet {
                    text: "alpha snippet".into(),
                },
                to: Anchor::TranscriptSnippet {
                    text: "bravo snippet".into(),
                },
            },
            request: TransitionRequest {
                kind: "slideleft".into(),
                duration_s: num(0.3),
                alignment: None,
                in_offset_s: None,
                out_offset_s: None,
                spec: None,
            },
        }],
    };
    let err = apply(&tl, &env).unwrap_err();
    assert!(
        matches!(&err, ApplyError::Invalid { message, .. } if message.contains("raw FFmpeg")),
        "expected raw transition rejection, got {err:?}",
    );
}

#[test]
fn apply_insert_transition_rejects_non_adjacent_anchors() {
    let tl = timeline_with_three_clips();
    let env = EdlEnvelope {
        ops: vec![EdlOp::InsertTransition {
            between: TransitionBetween {
                from: Anchor::TranscriptSnippet {
                    text: "alpha snippet".into(),
                },
                to: Anchor::TranscriptSnippet {
                    text: "charlie snippet".into(),
                },
            },
            request: TransitionRequest {
                kind: "SMPTE_Dissolve".into(),
                duration_s: num(1.0),
                alignment: None,
                in_offset_s: None,
                out_offset_s: None,
                spec: None,
            },
        }],
    };
    let err = apply(&tl, &env).unwrap_err();
    assert!(
        matches!(&err, ApplyError::Invalid { message, .. } if message.contains("not adjacent")),
        "expected adjacency error, got {err:?}",
    );
}

#[test]
fn apply_insert_transition_rejects_anchors_on_different_tracks() {
    let mut tl = timeline_with_three_clips();
    let mut track2 = Track::empty("V2", TrackKind::Video);
    let mut c = Clip::empty("delta-clip");
    c.media_reference =
        MediaReference::External(ExternalReference::new("raw/delta.mp4"));
    c.source_range = Some(TimeRange::new(
        time(0.0, 24.0),
        time(5.0 * 24.0, 24.0),
    ));
    c.metadata = ClipMetadata {
        montage: Some(MontageClipMetadata {
            transcript_snippet: Some("delta snippet".to_string()),
            ..MontageClipMetadata::new()
        }),
        ..no_metadata()
    };
    track2.children.push(TrackChild::Clip(c));
    tl.tracks.children.push(StackChild::Track(track2));

    let env = EdlEnvelope {
        ops: vec![EdlOp::InsertTransition {
            between: TransitionBetween {
                from: Anchor::TranscriptSnippet {
                    text: "alpha snippet".into(),
                },
                to: Anchor::TranscriptSnippet {
                    text: "delta snippet".into(),
                },
            },
            request: TransitionRequest {
                kind: "SMPTE_Dissolve".into(),
                duration_s: num(1.0),
                alignment: None,
                in_offset_s: None,
                out_offset_s: None,
                spec: None,
            },
        }],
    };
    let err = apply(&tl, &env).unwrap_err();
    assert!(
        matches!(&err, ApplyError::Invalid { message, .. } if message.contains("different tracks")),
        "expected cross-track error, got {err:?}",
    );
}

#[test]
fn apply_insert_transition_rejects_zero_duration() {
    let tl = timeline_with_three_clips();
    let env = EdlEnvelope {
        ops: vec![EdlOp::InsertTransition {
            between: TransitionBetween {
                from: Anchor::TranscriptSnippet {
                    text: "alpha snippet".into(),
                },
                to: Anchor::TranscriptSnippet {
                    text: "bravo snippet".into(),
                },
            },
            request: TransitionRequest {
                kind: "SMPTE_Dissolve".into(),
                duration_s: num(0.0),
                alignment: None,
                in_offset_s: None,
                out_offset_s: None,
                spec: None,
            },
        }],
    };
    let err = apply(&tl, &env).unwrap_err();
    assert!(
        matches!(&err, ApplyError::Invalid { message, .. } if message.contains("must be > 0")),
        "expected duration error, got {err:?}",
    );
}

#[test]
fn apply_insert_transition_rejects_duration_outside_registry_bounds() {
    let mut tl = timeline_with_three_clips();
    add_one_second_handles(&mut tl);
    let env = EdlEnvelope {
        ops: vec![EdlOp::InsertTransition {
            between: TransitionBetween {
                from: Anchor::TranscriptSnippet {
                    text: "alpha snippet".into(),
                },
                to: Anchor::TranscriptSnippet {
                    text: "bravo snippet".into(),
                },
            },
            request: TransitionRequest {
                kind: "montage.flash_white".into(),
                duration_s: num(1.0),
                alignment: Some(TransitionAlignment::EndAtCut),
                in_offset_s: None,
                out_offset_s: None,
                spec: None,
            },
        }],
    };
    let err = apply(&tl, &env).unwrap_err();
    assert!(
        matches!(&err, ApplyError::Invalid { message, .. } if message.contains("outside supported range")),
        "expected duration bounds error, got {err:?}",
    );
}

#[test]
fn apply_move_removes_cut_boundary_metadata_when_boundary_changes() {
    let tl = timeline_with_three_clips();
    let env = EdlEnvelope {
        ops: vec![
            EdlOp::SetCutIntent {
                between: TransitionBetween {
                    from: Anchor::ClipUuid {
                        uuid: "clip-0".into(),
                    },
                    to: Anchor::ClipUuid {
                        uuid: "clip-1".into(),
                    },
                },
                spec: SemanticCutSpec {
                    cut_type: "CutOnAction".into(),
                    intent: "hide_action_continuity".into(),
                    energy: None,
                    audio_relation: "Sync".into(),
                    confidence: Some(num(0.9)),
                    reason: Some("motion carries through the boundary".into()),
                    extra: MetaMap::new(),
                },
            },
            EdlOp::MoveClip {
                anchor: Anchor::ClipUuid {
                    uuid: "clip-1".into(),
                },
                to_position: 2,
                at_s: None,
                snap: None,
            },
        ],
    };

    let (new_tl, _) = apply(&tl, &env).unwrap();

    let meta = new_tl.metadata.montage.as_ref().expect("montage metadata");
    assert!(
        meta.cut_boundaries.is_empty(),
        "cut metadata for changed boundaries must not remain: {:?}",
        meta.cut_boundaries
    );
}

#[test]
fn apply_insert_transition_anchor_miss_surfaces_clearly() {
    let tl = timeline_with_three_clips();
    let env = EdlEnvelope {
        ops: vec![EdlOp::InsertTransition {
            between: TransitionBetween {
                from: Anchor::TranscriptSnippet {
                    text: "no such phrase here".into(),
                },
                to: Anchor::TranscriptSnippet {
                    text: "bravo snippet".into(),
                },
            },
            request: TransitionRequest {
                kind: "SMPTE_Dissolve".into(),
                duration_s: num(1.0),
                alignment: None,
                in_offset_s: None,
                out_offset_s: None,
                spec: None,
            },
        }],
    };
    let err = apply(&tl, &env).unwrap_err();
    assert!(
        matches!(err, ApplyError::AnchorMiss { .. }),
        "expected anchor miss, got something else",
    );
}

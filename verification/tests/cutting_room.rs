//! The edits of the cutting room.
use montage_edl::dispatch::Answers;
use montage_edl::engine::ApplyOutcome;
use montage_edl::envelope::{EdlEnvelope, EdlOp, ProfessionalTimelineEdit, TransitionBetween};
use montage_edl::error::{AnchorMiss, ApplyError};
use montage_edl::marker::MarkerChange;
use montage_edl::meta::{MetaMap, MetaValue};
use montage_edl::mint::ClipIds;
use montage_edl::model::{
    Clip, ClipLocator, ClipMetadata, ExternalReference, MediaReference, MontageClipMetadata,
    RationalTime, StackChild, TimeRange, Timeline, Track, TrackChild, TrackKind,
};
use montage_edl::num::Num;
use montage_edl::op::{Anchor, BetweenPlaces, MarkerSelector, SourceRange};

fn num(x: f64) -> Num {
    if x.is_nan() {
        Num::Nan
    } else if x.is_infinite() {
        if x > 0.0 {
            Num::PosInf
        } else {
            Num::NegInf
        }
    } else {
        Num::Fin((x * 1e15).round() as i128)
    }
}

fn float(x: Num) -> f64 {
    match x {
        Num::Nan => f64::NAN,
        Num::NegInf => f64::NEG_INFINITY,
        Num::Fin(v) => v as f64 / 1e15,
        Num::PosInf => f64::INFINITY,
    }
}

fn time(value: f64, rate: f64) -> RationalTime {
    RationalTime::new(num(value / rate), num(rate))
}

trait Json {
    fn as_str(&self) -> Option<&str>;
    fn as_f64(&self) -> Option<f64>;
    fn as_u64(&self) -> Option<u64>;
    fn as_array(&self) -> Option<&Vec<MetaValue>>;
    fn as_object(&self) -> Option<&MetaMap>;
    fn get(&self, key: &str) -> Option<&MetaValue>;
    fn at(&self, key: &str) -> &MetaValue;
}

impl Json for MetaValue {
    fn as_str(&self) -> Option<&str> {
        match self {
            MetaValue::Text(s) => Some(s),
            _ => None,
        }
    }

    fn as_f64(&self) -> Option<f64> {
        self.as_number().map(float)
    }

    fn as_u64(&self) -> Option<u64> {
        self.as_f64().filter(|x| x.fract() == 0.0 && *x >= 0.0).map(|x| x as u64)
    }

    fn as_array(&self) -> Option<&Vec<MetaValue>> {
        match self {
            MetaValue::List(v) => Some(v),
            _ => None,
        }
    }

    fn as_object(&self) -> Option<&MetaMap> {
        match self {
            MetaValue::Object(m) => Some(m),
            _ => None,
        }
    }

    fn get(&self, key: &str) -> Option<&MetaValue> {
        self.as_object().and_then(|m| m.get(key))
    }

    fn at(&self, key: &str) -> &MetaValue {
        self.get(key).expect("a value")
    }
}

fn no_metadata() -> ClipMetadata {
    ClipMetadata { montage: None, extra: MetaMap::new() }
}

fn any_marker() -> MarkerSelector {
    MarkerSelector { marker_id: None, anchor: None, label: None, at_s: None }
}

fn timeline_with_three_clips() -> Timeline {
    let mut tl = Timeline::empty("test");
    let mut track = Track::empty("V1", TrackKind::Video);
    for (i, snip) in ["alpha snippet", "bravo snippet", "charlie snippet"].iter().enumerate() {
        let mut c = Clip::empty(&format!("clip-{i}"));
        c.media_reference =
            MediaReference::External(ExternalReference::new(&format!("raw/{i}.mp4")));
        c.source_range = Some(TimeRange::new(time(0.0, 24.0), time(5.0 * 24.0, 24.0)));
        c.metadata = ClipMetadata {
            montage: Some(MontageClipMetadata {
                transcript_snippet: Some((*snip).to_string()),
                ..MontageClipMetadata::new()
            }),
            ..no_metadata()
        };
        track.children.push(TrackChild::Clip(c));
    }
    tl.tracks.children.push(StackChild::Track(track));
    tl
}

fn add_one_second_handles(tl: &mut Timeline) {
    let StackChild::Track(track) = &mut tl.tracks.children[0] else {
        panic!("expected track")
    };
    for child in &mut track.children {
        let TrackChild::Clip(clip) = child else {
            continue;
        };
        clip.media_reference =
            MediaReference::External(external_ref_with_available("raw/handled.mp4", 7.0));
        clip.source_range = Some(TimeRange::new(time(1.0 * 24.0, 24.0), time(5.0 * 24.0, 24.0)));
    }
}

fn external_ref_with_available(asset: &str, duration_s: f64) -> ExternalReference {
    let mut ext = ExternalReference::new(asset);
    ext.available_range = Some(TimeRange::new(time(0.0, 24.0), time(duration_s * 24.0, 24.0)));
    ext
}

fn track_cursor(track: &Track) -> f64 {
    float(montage_edl::edit::track_cursor(track))
}

/// Where an anchor leads: to the clip with the unique id or the name, or to the
/// clip whose transcript holds the text.
fn place(timeline: &Timeline, anchor: &Anchor) -> Result<ClipLocator, AnchorMiss> {
    for (track_index, layer) in timeline.tracks.children.iter().enumerate() {
        let StackChild::Track(track) = layer else {
            continue;
        };
        for (child_index, child) in track.children.iter().enumerate() {
            let TrackChild::Clip(clip) = child else {
                continue;
            };
            let montage = clip.metadata.montage.as_ref();
            let here = match anchor {
                Anchor::ClipUuid { uuid } => {
                    clip.name == *uuid
                        || montage.and_then(|m| m.extra.get_text("clip_uuid")).as_ref()
                            == Some(uuid)
                }
                Anchor::TranscriptSnippet { text } => montage
                    .and_then(|m| m.transcript_snippet.as_ref())
                    .is_some_and(|s| s.contains(text.as_str())),
            };
            if here {
                return Ok(ClipLocator { track_index, child_index });
            }
        }
    }
    Err(AnchorMiss { text: format!("no clip at {anchor:?}") })
}

fn answers(timeline: &Timeline, op: &EdlOp, anchor: &Option<Anchor>) -> Answers {
    let mut a = Answers::plain(MetaValue::Null);
    if let Some(x) = anchor {
        a.place = place(timeline, x);
    }
    let between = match op {
        EdlOp::InsertTransition { between, .. }
        | EdlOp::DeleteTransition { between }
        | EdlOp::SetCutIntent { between, .. }
        | EdlOp::ProfessionalTimelineEdit {
            edit: ProfessionalTimelineEdit::RollEdit { between, .. },
            ..
        } => Some(between),
        _ => None,
    };
    if let Some(b) = between {
        a.between =
            BetweenPlaces { from: place(timeline, &b.from), to: place(timeline, &b.to) };
    }
    if let EdlOp::ProfessionalTimelineEdit { edit, .. } = op {
        if let ProfessionalTimelineEdit::UpdateMarker { selector, .. }
        | ProfessionalTimelineEdit::DeleteMarker { selector } = edit
        {
            a.marker = selector.anchor.as_ref().map(|x| place(timeline, x));
        }
    }
    a
}

fn apply_asking<F: Fn(&EdlOp, &mut Answers)>(
    tl: &Timeline,
    env: &EdlEnvelope,
    adjust: F,
) -> Result<(Timeline, ApplyOutcome), ApplyError> {
    montage_edl::engine::apply(
        tl,
        env,
        |working: &Timeline, op: &EdlOp, anchor: &Option<Anchor>| {
            let mut a = answers(working, op, anchor);
            adjust(op, &mut a);
            a
        },
        &mut ClipIds::new(0),
    )
}

fn apply(tl: &Timeline, env: &EdlEnvelope) -> Result<(Timeline, ApplyOutcome), ApplyError> {
    apply_asking(tl, env, |_: &EdlOp, _: &mut Answers| {})
}

#[test]
fn professional_ripple_trim_lowers_to_real_timeline_trim() {
    let tl = timeline_with_three_clips();
    let env = EdlEnvelope {
        ops: vec![EdlOp::ProfessionalTimelineEdit {
            edit: ProfessionalTimelineEdit::RippleTrim {
                anchor: Anchor::ClipUuid {
                    uuid: "clip-1".into(),
                },
                new_end_s: num(3.0),
                ripple_tracks: vec!["V1".into()],
            },
            document: MetaValue::Null,
        }],
    };

    let (new_tl, outcome) = apply(&tl, &env).unwrap();
    let StackChild::Track(track) = &new_tl.tracks.children[0] else {
        panic!("expected track")
    };
    let TrackChild::Clip(clip) = &track.children[1] else {
        panic!("expected clip")
    };
    let range = clip.source_range.as_ref().unwrap();

    assert!((float(range.duration.to_seconds()) - 3.0).abs() < 1e-9);
    assert!(outcome.applied[0].description.contains("ripple trimmed"));
    assert_eq!(
        track.children.len(),
        3,
        "ripple trim should not insert a gap"
    );
}

#[test]
fn professional_slip_clip_lowers_to_source_range_shift_without_timeline_move() {
    let mut tl = timeline_with_three_clips();
    add_one_second_handles(&mut tl);
    let env = EdlEnvelope {
        ops: vec![EdlOp::ProfessionalTimelineEdit {
            edit: ProfessionalTimelineEdit::SlipClip {
                anchor: Anchor::ClipUuid {
                    uuid: "clip-1".into(),
                },
                delta_s: num(1.0),
            },
            document: MetaValue::Null,
        }],
    };

    let (new_tl, outcome) = apply(&tl, &env).unwrap();
    let StackChild::Track(track) = &new_tl.tracks.children[0] else {
        panic!("expected track")
    };
    let TrackChild::Clip(clip) = &track.children[1] else {
        panic!("expected clip")
    };
    let range = clip.source_range.as_ref().unwrap();

    assert_eq!(
        outcome.applied[0].locator,
        Some(ClipLocator {
            track_index: 0,
            child_index: 1,
        })
    );
    assert!((float(range.start_time.to_seconds()) - 2.0).abs() < 1e-9);
    assert!((float(range.duration.to_seconds()) - 5.0).abs() < 1e-9);
    assert_eq!(
        track.children.len(),
        3,
        "slip edit should preserve timeline structure"
    );
}

#[test]
fn professional_add_marker_lowers_to_real_clip_marker() {
    let tl = timeline_with_three_clips();
    let env = EdlEnvelope {
        ops: vec![EdlOp::ProfessionalTimelineEdit {
            edit: ProfessionalTimelineEdit::AddMarker {
                at_s: num(6.0),
                label: "Review beat".into(),
                category: Some("note".into()),
            },
            document: MetaValue::Null,
        }],
    };

    let (new_tl, outcome) = apply(&tl, &env).unwrap();
    let StackChild::Track(track) = &new_tl.tracks.children[0] else {
        panic!("expected track")
    };
    let TrackChild::Clip(clip) = &track.children[1] else {
        panic!("expected clip")
    };
    let marker = clip.markers.first().expect("marker should be attached");

    assert!(outcome.applied[0].description.contains("added marker"));
    assert_eq!(marker.name, "Review beat");
    assert!((float(marker.marked_range.start_time.to_seconds()) - 1.0).abs() < 1e-9);
    assert_eq!(
        marker
            .metadata
            .as_ref()
            .unwrap()
            .category
            .as_deref(),
        Some("note")
    );
    assert_eq!(
        marker
            .metadata
            .as_ref()
            .unwrap()
            .extra
            .get("id")
            .and_then(Json::as_str),
        Some("marker-0-1-0")
    );
}

#[test]
fn professional_update_marker_edits_unique_marker_by_id() {
    let tl = timeline_with_three_clips();
    let env = EdlEnvelope {
        ops: vec![
            EdlOp::ProfessionalTimelineEdit {
                edit: ProfessionalTimelineEdit::AddMarker {
                    at_s: num(6.0),
                    label: "Review beat".into(),
                    category: Some("note".into()),
                },
                document: MetaValue::Null,
            },
            EdlOp::ProfessionalTimelineEdit {
                edit: ProfessionalTimelineEdit::UpdateMarker {
                    selector: MarkerSelector {
                        marker_id: Some("marker-0-1-0".into()),
                        ..any_marker()
                    },
                    change: MarkerChange {
                        label: Some("Use this quote".into()),
                        category: Some("select".into()),
                        note: Some("Strong pull quote".into()),
                        at_s: Some(num(6.5)),
                        duration_s: Some(num(1.25)),
                    },
                },
                document: MetaValue::Null,
            },
        ],
    };

    let (new_tl, outcome) = apply(&tl, &env).unwrap();
    let StackChild::Track(track) = &new_tl.tracks.children[0] else {
        panic!("expected track")
    };
    let TrackChild::Clip(clip) = &track.children[1] else {
        panic!("expected clip")
    };
    let marker = clip.markers.first().expect("marker should remain attached");

    assert!(outcome.applied[1].description.contains("updated marker"));
    assert_eq!(marker.name, "Use this quote");
    assert_eq!(marker.comment.as_deref(), Some("Strong pull quote"));
    assert!((float(marker.marked_range.start_time.to_seconds()) - 1.5).abs() < 1e-9);
    assert!((float(marker.marked_range.duration.to_seconds()) - 1.25).abs() < 1e-9);
    assert_eq!(
        marker
            .metadata
            .as_ref()
            .unwrap()
            .category
            .as_deref(),
        Some("select")
    );
}

#[test]
fn professional_delete_marker_removes_unique_marker_by_label_and_anchor() {
    let tl = timeline_with_three_clips();
    let env = EdlEnvelope {
        ops: vec![
            EdlOp::ProfessionalTimelineEdit {
                edit: ProfessionalTimelineEdit::AddMarker {
                    at_s: num(1.0),
                    label: "Review beat".into(),
                    category: Some("note".into()),
                },
                document: MetaValue::Null,
            },
            EdlOp::ProfessionalTimelineEdit {
                edit: ProfessionalTimelineEdit::AddMarker {
                    at_s: num(6.0),
                    label: "Review beat".into(),
                    category: Some("note".into()),
                },
                document: MetaValue::Null,
            },
            EdlOp::ProfessionalTimelineEdit {
                edit: ProfessionalTimelineEdit::DeleteMarker {
                    selector: MarkerSelector {
                        anchor: Some(Anchor::ClipUuid {
                            uuid: "clip-1".into(),
                        }),
                        label: Some("Review beat".into()),
                        ..any_marker()
                    },
                },
                document: MetaValue::Null,
            },
        ],
    };

    let (new_tl, outcome) = apply(&tl, &env).unwrap();
    let StackChild::Track(track) = &new_tl.tracks.children[0] else {
        panic!("expected track")
    };
    let TrackChild::Clip(first_clip) = &track.children[0] else {
        panic!("expected clip")
    };
    let TrackChild::Clip(second_clip) = &track.children[1] else {
        panic!("expected clip")
    };

    assert!(outcome.applied[2].description.contains("deleted marker"));
    assert_eq!(first_clip.markers.len(), 1);
    assert!(second_clip.markers.is_empty());
}

#[test]
fn professional_update_marker_rejects_ambiguous_label_selector() {
    let tl = timeline_with_three_clips();
    let env = EdlEnvelope {
        ops: vec![
            EdlOp::ProfessionalTimelineEdit {
                edit: ProfessionalTimelineEdit::AddMarker {
                    at_s: num(1.0),
                    label: "Review beat".into(),
                    category: Some("note".into()),
                },
                document: MetaValue::Null,
            },
            EdlOp::ProfessionalTimelineEdit {
                edit: ProfessionalTimelineEdit::AddMarker {
                    at_s: num(6.0),
                    label: "Review beat".into(),
                    category: Some("note".into()),
                },
                document: MetaValue::Null,
            },
            EdlOp::ProfessionalTimelineEdit {
                edit: ProfessionalTimelineEdit::UpdateMarker {
                    selector: MarkerSelector {
                        label: Some("Review beat".into()),
                        ..any_marker()
                    },
                    change: MarkerChange {
                        label: Some("Ambiguous".into()),
                        category: None,
                        note: None,
                        at_s: None,
                        duration_s: None,
                    },
                },
                document: MetaValue::Null,
            },
        ],
    };

    let err = apply(&tl, &env).unwrap_err();
    assert!(err.text().contains("matches 2 markers"));
}

#[test]
fn professional_roll_edit_lowers_to_adjacent_source_range_shift() {
    let mut tl = timeline_with_three_clips();
    add_one_second_handles(&mut tl);
    let env = EdlEnvelope {
        ops: vec![EdlOp::ProfessionalTimelineEdit {
            edit: ProfessionalTimelineEdit::RollEdit {
                between: TransitionBetween {
                    from: Anchor::ClipUuid {
                        uuid: "clip-0".into(),
                    },
                    to: Anchor::ClipUuid {
                        uuid: "clip-1".into(),
                    },
                },
                delta_s: num(1.0),
            },
            document: MetaValue::Null,
        }],
    };

    let (new_tl, outcome) = apply(&tl, &env).unwrap();
    let StackChild::Track(track) = &new_tl.tracks.children[0] else {
        panic!("expected track")
    };
    let TrackChild::Clip(from_clip) = &track.children[0] else {
        panic!("expected from clip")
    };
    let TrackChild::Clip(to_clip) = &track.children[1] else {
        panic!("expected to clip")
    };
    let from_range = from_clip.source_range.as_ref().unwrap();
    let to_range = to_clip.source_range.as_ref().unwrap();

    assert!(outcome.applied[0].description.contains("rolled edit"));
    assert!((float(from_range.start_time.to_seconds()) - 1.0).abs() < 1e-9);
    assert!((float(from_range.duration.to_seconds()) - 6.0).abs() < 1e-9);
    assert!((float(to_range.start_time.to_seconds()) - 2.0).abs() < 1e-9);
    assert!((float(to_range.duration.to_seconds()) - 4.0).abs() < 1e-9);
    assert_eq!(
        float(from_range.duration.to_seconds()) + float(to_range.duration.to_seconds()),
        10.0,
        "roll edit should preserve combined timeline duration"
    );
}

#[test]
fn professional_slide_clip_lowers_to_neighbor_source_range_shift() {
    let mut tl = timeline_with_three_clips();
    add_one_second_handles(&mut tl);
    let env = EdlEnvelope {
        ops: vec![EdlOp::ProfessionalTimelineEdit {
            edit: ProfessionalTimelineEdit::SlideClip {
                anchor: Anchor::ClipUuid {
                    uuid: "clip-1".into(),
                },
                delta_s: num(1.0),
            },
            document: MetaValue::Null,
        }],
    };

    let (new_tl, outcome) = apply(&tl, &env).unwrap();
    let StackChild::Track(track) = &new_tl.tracks.children[0] else {
        panic!("expected track")
    };
    let TrackChild::Clip(previous_clip) = &track.children[0] else {
        panic!("expected previous clip")
    };
    let TrackChild::Clip(slid_clip) = &track.children[1] else {
        panic!("expected slid clip")
    };
    let TrackChild::Clip(next_clip) = &track.children[2] else {
        panic!("expected next clip")
    };
    let previous_range = previous_clip.source_range.as_ref().unwrap();
    let slid_range = slid_clip.source_range.as_ref().unwrap();
    let next_range = next_clip.source_range.as_ref().unwrap();

    assert!(outcome.applied[0].description.contains("slid clip"));
    assert!((float(previous_range.start_time.to_seconds()) - 1.0).abs() < 1e-9);
    assert!((float(previous_range.duration.to_seconds()) - 6.0).abs() < 1e-9);
    assert!((float(slid_range.start_time.to_seconds()) - 1.0).abs() < 1e-9);
    assert!((float(slid_range.duration.to_seconds()) - 5.0).abs() < 1e-9);
    assert!((float(next_range.start_time.to_seconds()) - 2.0).abs() < 1e-9);
    assert!((float(next_range.duration.to_seconds()) - 4.0).abs() < 1e-9);
    assert_eq!(
        float(previous_range.duration.to_seconds())
            + float(slid_range.duration.to_seconds())
            + float(next_range.duration.to_seconds()),
        15.0,
        "slide edit should preserve combined timeline duration"
    );
}

#[test]
fn professional_lift_range_lowers_to_duration_preserving_gap() {
    let tl = timeline_with_three_clips();
    let env = EdlEnvelope {
        ops: vec![EdlOp::ProfessionalTimelineEdit {
            edit: ProfessionalTimelineEdit::LiftRange {
                range: SourceRange {
                    start_s: num(3.0),
                    end_s: num(8.0),
                },
                tracks: vec!["V1".into()],
            },
            document: MetaValue::Null,
        }],
    };

    let (new_tl, outcome) = apply(&tl, &env).unwrap();
    let StackChild::Track(track) = &new_tl.tracks.children[0] else {
        panic!("expected track")
    };

    assert!(outcome.applied[0].description.contains("lifted range"));
    assert_eq!(track.children.len(), 4);
    let TrackChild::Clip(left) = &track.children[0] else {
        panic!("expected leading clip")
    };
    let TrackChild::Gap(gap) = &track.children[1] else {
        panic!("expected lifted gap")
    };
    let TrackChild::Clip(tail) = &track.children[2] else {
        panic!("expected trailing split clip")
    };
    let TrackChild::Clip(after) = &track.children[3] else {
        panic!("expected unaffected clip")
    };
    let left_range = left.source_range.as_ref().unwrap();
    let tail_range = tail.source_range.as_ref().unwrap();
    let after_range = after.source_range.as_ref().unwrap();

    assert_eq!(left.name, "clip-0");
    assert!((float(left_range.start_time.to_seconds()) - 0.0).abs() < 1e-9);
    assert!((float(left_range.duration.to_seconds()) - 3.0).abs() < 1e-9);
    assert!((float(gap.source_range.duration.to_seconds()) - 5.0).abs() < 1e-9);
    assert_eq!(tail.name, "clip-1");
    assert!((float(tail_range.start_time.to_seconds()) - 3.0).abs() < 1e-9);
    assert!((float(tail_range.duration.to_seconds()) - 2.0).abs() < 1e-9);
    assert_eq!(after.name, "clip-2");
    assert!((float(after_range.duration.to_seconds()) - 5.0).abs() < 1e-9);
    assert!((track_cursor(track) - 15.0).abs() < 1e-9);
}

#[test]
fn professional_extract_range_lowers_to_close_gap_removal() {
    let tl = timeline_with_three_clips();
    let env = EdlEnvelope {
        ops: vec![EdlOp::ProfessionalTimelineEdit {
            edit: ProfessionalTimelineEdit::ExtractRange {
                range: SourceRange {
                    start_s: num(3.0),
                    end_s: num(8.0),
                },
                tracks: vec!["V1".into()],
            },
            document: MetaValue::Null,
        }],
    };

    let (new_tl, outcome) = apply(&tl, &env).unwrap();
    let StackChild::Track(track) = &new_tl.tracks.children[0] else {
        panic!("expected track")
    };

    assert!(outcome.applied[0].description.contains("extracted range"));
    assert_eq!(track.children.len(), 3);
    let TrackChild::Clip(left) = &track.children[0] else {
        panic!("expected leading clip")
    };
    let TrackChild::Clip(tail) = &track.children[1] else {
        panic!("expected trailing split clip")
    };
    let TrackChild::Clip(after) = &track.children[2] else {
        panic!("expected pulled-up clip")
    };
    let left_range = left.source_range.as_ref().unwrap();
    let tail_range = tail.source_range.as_ref().unwrap();
    let after_range = after.source_range.as_ref().unwrap();

    assert_eq!(left.name, "clip-0");
    assert!((float(left_range.start_time.to_seconds()) - 0.0).abs() < 1e-9);
    assert!((float(left_range.duration.to_seconds()) - 3.0).abs() < 1e-9);
    assert_eq!(tail.name, "clip-1");
    assert!((float(tail_range.start_time.to_seconds()) - 3.0).abs() < 1e-9);
    assert!((float(tail_range.duration.to_seconds()) - 2.0).abs() < 1e-9);
    assert_eq!(after.name, "clip-2");
    assert!((float(after_range.duration.to_seconds()) - 5.0).abs() < 1e-9);
    assert!((track_cursor(track) - 10.0).abs() < 1e-9);
}

#[test]
fn professional_replace_clip_lowers_to_asset_swap_preserving_slot() {
    let tl = timeline_with_three_clips();
    let env = EdlEnvelope {
        ops: vec![EdlOp::ProfessionalTimelineEdit {
            edit: ProfessionalTimelineEdit::ReplaceClip {
                anchor: Anchor::ClipUuid {
                    uuid: "clip-1".into(),
                },
                asset: "raw/replacement.mov".into(),
                range: SourceRange {
                    start_s: num(10.0),
                    end_s: num(15.0),
                },
            },
            document: MetaValue::Null,
        }],
    };

    let (new_tl, outcome) = apply(&tl, &env).unwrap();
    let StackChild::Track(track) = &new_tl.tracks.children[0] else {
        panic!("expected track")
    };
    let TrackChild::Clip(replacement) = &track.children[1] else {
        panic!("expected replacement clip")
    };
    let range = replacement.source_range.as_ref().unwrap();

    assert!(outcome.applied[0].description.contains("replaced clip"));
    assert_eq!(track.children.len(), 3);
    assert_eq!(replacement.name, "clip-1");
    assert!(matches!(
        &replacement.media_reference,
        MediaReference::External(reference) if reference.target_url == "raw/replacement.mov"
    ));
    assert!((float(range.start_time.to_seconds()) - 10.0).abs() < 1e-9);
    assert!((float(range.duration.to_seconds()) - 5.0).abs() < 1e-9);
    assert!((track_cursor(track) - 15.0).abs() < 1e-9);
}

#[test]
fn professional_append_lowers_to_track_tail_insert() {
    let tl = timeline_with_three_clips();
    let env = EdlEnvelope {
        ops: vec![EdlOp::ProfessionalTimelineEdit {
            edit: ProfessionalTimelineEdit::Append {
                track: "V1".into(),
                asset: "raw/tail.mov".into(),
                range: SourceRange {
                    start_s: num(2.0),
                    end_s: num(4.0),
                },
            },
            document: MetaValue::Null,
        }],
    };

    let (new_tl, outcome) = apply(&tl, &env).unwrap();
    let StackChild::Track(track) = &new_tl.tracks.children[0] else {
        panic!("expected track")
    };
    let TrackChild::Clip(appended) = &track.children[3] else {
        panic!("expected appended clip")
    };
    let range = appended.source_range.as_ref().unwrap();

    assert!(outcome.applied[0].description.contains("appended clip"));
    assert_eq!(track.children.len(), 4);
    assert_eq!(appended.name, "tail");
    assert!(matches!(
        &appended.media_reference,
        MediaReference::External(reference) if reference.target_url == "raw/tail.mov"
    ));
    assert!((float(range.start_time.to_seconds()) - 2.0).abs() < 1e-9);
    assert!((float(range.duration.to_seconds()) - 2.0).abs() < 1e-9);
    assert!((track_cursor(track) - 17.0).abs() < 1e-9);
}

#[test]
fn professional_overwrite_lowers_to_timeline_range_replacement() {
    let tl = timeline_with_three_clips();
    let env = EdlEnvelope {
        ops: vec![EdlOp::ProfessionalTimelineEdit {
            edit: ProfessionalTimelineEdit::Overwrite {
                track: "V1".into(),
                asset: "raw/overwrite.mov".into(),
                range: SourceRange {
                    start_s: num(6.0),
                    end_s: num(12.0),
                },
            },
            document: MetaValue::Null,
        }],
    };

    let (new_tl, outcome) = apply(&tl, &env).unwrap();
    let StackChild::Track(track) = &new_tl.tracks.children[0] else {
        panic!("expected track")
    };

    assert!(outcome.applied[0].description.contains("overwrote range"));
    assert_eq!(track.children.len(), 4);
    let TrackChild::Clip(first) = &track.children[0] else {
        panic!("expected first clip")
    };
    let TrackChild::Clip(lead) = &track.children[1] else {
        panic!("expected retained lead")
    };
    let TrackChild::Clip(overwrite) = &track.children[2] else {
        panic!("expected overwrite clip")
    };
    let TrackChild::Clip(tail) = &track.children[3] else {
        panic!("expected retained tail")
    };
    let first_range = first.source_range.as_ref().unwrap();
    let lead_range = lead.source_range.as_ref().unwrap();
    let overwrite_range = overwrite.source_range.as_ref().unwrap();
    let tail_range = tail.source_range.as_ref().unwrap();

    assert_eq!(first.name, "clip-0");
    assert!((float(first_range.duration.to_seconds()) - 5.0).abs() < 1e-9);
    assert_eq!(lead.name, "clip-1");
    assert!((float(lead_range.start_time.to_seconds()) - 0.0).abs() < 1e-9);
    assert!((float(lead_range.duration.to_seconds()) - 1.0).abs() < 1e-9);
    assert!(matches!(
        &overwrite.media_reference,
        MediaReference::External(reference) if reference.target_url == "raw/overwrite.mov"
    ));
    assert!((float(overwrite_range.start_time.to_seconds()) - 0.0).abs() < 1e-9);
    assert!((float(overwrite_range.duration.to_seconds()) - 6.0).abs() < 1e-9);
    assert_eq!(tail.name, "clip-2");
    assert!((float(tail_range.start_time.to_seconds()) - 2.0).abs() < 1e-9);
    assert!((float(tail_range.duration.to_seconds()) - 3.0).abs() < 1e-9);
    assert!((track_cursor(track) - 15.0).abs() < 1e-9);
}

#[test]
fn professional_wrap_as_nested_creates_track_child_stack() {
    let tl = timeline_with_three_clips();
    let env = EdlEnvelope {
        ops: vec![EdlOp::ProfessionalTimelineEdit {
            edit: ProfessionalTimelineEdit::WrapAsNested {
                track: "V1".into(),
                start_index: 0,
                end_index: 2,
                name: Some("Angle group".into()),
            },
            document: MetaValue::Null,
        }],
    };

    let (new_tl, outcome) = apply(&tl, &env).unwrap();
    let StackChild::Track(track) = &new_tl.tracks.children[0] else {
        panic!("expected track")
    };
    let TrackChild::Stack(stack) = &track.children[0] else {
        panic!("expected nested stack")
    };
    let StackChild::Track(nested_track) = &stack.children[0] else {
        panic!("expected nested track")
    };

    assert!(outcome.applied[0].description.contains("nested stack"));
    assert_eq!(stack.name, "Angle group");
    assert_eq!(nested_track.children.len(), 2);
    assert!(matches!(&track.children[1], TrackChild::Clip(clip) if clip.name == "clip-2"));
}

#[test]
fn professional_flatten_nested_restores_children() {
    let tl = timeline_with_three_clips();
    let env = EdlEnvelope {
        ops: vec![
            EdlOp::ProfessionalTimelineEdit {
                edit: ProfessionalTimelineEdit::WrapAsNested {
                    track: "V1".into(),
                    start_index: 0,
                    end_index: 2,
                    name: Some("Angle group".into()),
                },
                document: MetaValue::Null,
            },
            EdlOp::ProfessionalTimelineEdit {
                edit: ProfessionalTimelineEdit::FlattenNested {
                    track: "V1".into(),
                    child_index: 0,
                },
                document: MetaValue::Null,
            },
        ],
    };

    let (new_tl, outcome) = apply(&tl, &env).unwrap();
    let StackChild::Track(track) = &new_tl.tracks.children[0] else {
        panic!("expected track")
    };

    assert!(
        outcome.applied[1]
            .description
            .contains("flattened nested stack")
    );
    assert_eq!(track.children.len(), 3);
    assert!(matches!(&track.children[0], TrackChild::Clip(clip) if clip.name == "clip-0"));
    assert!(matches!(&track.children[1], TrackChild::Clip(clip) if clip.name == "clip-1"));
    assert!(matches!(&track.children[2], TrackChild::Clip(clip) if clip.name == "clip-2"));
}

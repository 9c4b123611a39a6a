//! Ops that trim, split, lift and put in clips.
use montage_edl::dispatch::Answers;
use montage_edl::effects::VIDEO_OVERLAY;
use montage_edl::engine::ApplyOutcome;
use montage_edl::envelope::{EdlEnvelope, EdlOp, ProfessionalTimelineEdit};
use montage_edl::error::{AnchorMiss, ApplyError};
use montage_edl::meta::{MetaMap, MetaValue};
use montage_edl::mint::ClipIds;
use montage_edl::model::{
    Clip, ClipLocator, ClipMetadata, ExternalReference, MediaReference, MontageClipMetadata,
    RationalTime, StackChild, Stored, TimeRange, Timeline, Track, TrackChild, TrackKind,
};
use montage_edl::num::Num;
use montage_edl::op::{Anchor, BRollPosition, BetweenPlaces, PiPCorner};
use montage_edl::overlay::PipRequest;

fn num(x: f64) -> Num {
    if x.is_nan() {
        Num::Nan
    } else if x.is_infinite() {
        if x > 0.0 {
            Num::PosInf
        } else {
            Num::NegInf
        }
    } else {
        Num::Fin((x * 1e15).round() as i128)
    }
}

fn float(x: Num) -> f64 {
    match x {
        Num::Nan => f64::NAN,
        Num::NegInf => f64::NEG_INFINITY,
        Num::Fin(v) => v as f64 / 1e15,
        Num::PosInf => f64::INFINITY,
    }
}

fn time(value: f64, rate: f64) -> RationalTime {
    RationalTime::new(num(value / rate), num(rate))
}

fn pairs(entries: Vec<(&str, MetaValue)>) -> MetaMap {
    let mut m = MetaMap::new();
    for (key, value) in entries {
        m.insert(key, value);
    }
    m
}

trait Json {
    fn as_str(&self) -> Option<&str>;
    fn as_f64(&self) -> Option<f64>;
    fn as_u64(&self) -> Option<u64>;
    fn as_array(&self) -> Option<&Vec<MetaValue>>;
    fn as_object(&self) -> Option<&MetaMap>;
    fn get(&self, key: &str) -> Option<&MetaValue>;
    fn at(&self, key: &str) -> &MetaValue;
}

impl Json for MetaValue {
    fn as_str(&self) -> Option<&str> {
        match self {
            MetaValue::Text(s) => Some(s),
            _ => None,
        }
    }

    fn as_f64(&self) -> Option<f64> {
        self.as_number().map(float)
    }

    fn as_u64(&self) -> Option<u64> {
        self.as_f64().filter(|x| x.fract() == 0.0 && *x >= 0.0).map(|x| x as u64)
    }

    fn as_array(&self) -> Option<&Vec<MetaValue>> {
        match self {
            MetaValue::List(v) => Some(v),
            _ => None,
        }
    }

    fn as_object(&self) -> Option<&MetaMap> {
        match self {
            MetaValue::Object(m) => Some(m),
            _ => None,
        }
    }

    fn get(&self, key: &str) -> Option<&MetaValue> {
        self.as_object().and_then(|m| m.get(key))
    }

    fn at(&self, key: &str) -> &MetaValue {
        self.get(key).expect("a value")
    }
}

fn no_metadata() -> ClipMetadata {
    ClipMetadata { montage: None, extra: MetaMap::new() }
}

fn timeline_with_three_clips() -> Timeline {
    let mut tl = Timeline::empty("test");
    let mut track = Track::empty("V1", TrackKind::Video);
    for (i, snip) in ["alpha snippet", "bravo snippet", "charlie snippet"].iter().enumerate() {
        let mut c = Clip::empty(&format!("clip-{i}"));
        c.media_reference =
            MediaReference::External(ExternalReference::new(&format!("raw/{i}.mp4")));
        c.source_range = Some(TimeRange::new(time(0.0, 24.0), time(5.0 * 24.0, 24.0)));
        c.metadata = ClipMetadata {
            montage: Some(MontageClipMetadata {
                transcript_snippet: Some((*snip).to_string()),
                ..MontageClipMetadata::new()
            }),
            ..no_metadata()
        };
        track.children.push(TrackChild::Clip(c));
    }
    tl.tracks.children.push(StackChild::Track(track));
    tl
}

fn linked_av_timeline() -> Timeline {
    let mut tl = Timeline::empty("linked");
    let mut video = Track::empty("Video 1", TrackKind::Video);
    let mut audio = Track::empty("A1", TrackKind::Audio);
    for (track, name, uuid) in
        [(&mut video, "video", "video-uuid"), (&mut audio, "audio", "audio-uuid")]
    {
        let extra = pairs(vec![
            ("clip_uuid", MetaValue::text(uuid)),
            ("link_group_id", MetaValue::text("lg-av")),
        ]);
        let mut clip = Clip::empty(name);
        clip.media_reference = MediaReference::External(ExternalReference::new("raw/episode.mov"));
        clip.source_range = Some(TimeRange::new(time(10.0 * 24.0, 24.0), time(20.0 * 24.0, 24.0)));
        clip.metadata = ClipMetadata {
            montage: Some(MontageClipMetadata { extra, ..MontageClipMetadata::new() }),
            ..no_metadata()
        };
        track.children.push(TrackChild::Clip(clip));
    }
    tl.tracks.children.push(StackChild::Track(video));
    tl.tracks.children.push(StackChild::Track(audio));
    tl
}

fn clip_source_range_s(clip: &Clip) -> Option<(f64, f64)> {
    clip.source_range.map(|r| {
        let start = float(r.start_time.to_seconds());
        (start, start + float(r.duration.to_seconds()))
    })
}

/// Where an anchor leads: to the clip with the unique id or the name, or to the
/// clip whose transcript holds the text.
fn place(timeline: &Timeline, anchor: &Anchor) -> Result<ClipLocator, AnchorMiss> {
    for (track_index, layer) in timeline.tracks.children.iter().enumerate() {
        let StackChild::Track(track) = layer else {
            continue;
        };
        for (child_index, child) in track.children.iter().enumerate() {
            let TrackChild::Clip(clip) = child else {
                continue;
            };
            let montage = clip.metadata.montage.as_ref();
            let here = match anchor {
                Anchor::ClipUuid { uuid } => {
                    clip.name == *uuid
                        || montage.and_then(|m| m.extra.get_text("clip_uuid")).as_ref()
                            == Some(uuid)
                }
                Anchor::TranscriptSnippet { text } => montage
                    .and_then(|m| m.transcript_snippet.as_ref())
                    .is_some_and(|s| s.contains(text.as_str())),
            };
            if here {
                return Ok(ClipLocator { track_index, child_index });
            }
        }
    }
    Err(AnchorMiss { text: format!("no clip at {anchor:?}") })
}

fn answers(timeline: &Timeline, op: &EdlOp, anchor: &Option<Anchor>) -> Answers {
    let mut a = Answers::plain(MetaValue::Null);
    if let Some(x) = anchor {
        a.place = place(timeline, x);
    }
    let between = match op {
        EdlOp::InsertTransition { between, .. }
        | EdlOp::DeleteTransition { between }
        | EdlOp::SetCutIntent { between, .. }
        | EdlOp::ProfessionalTimelineEdit {
            edit: ProfessionalTimelineEdit::RollEdit { between, .. },
            ..
        } => Some(between),
        _ => None,
    };
    if let Some(b) = between {
        a.between =
            BetweenPlaces { from: place(timeline, &b.from), to: place(timeline, &b.to) };
    }
    if let EdlOp::ProfessionalTimelineEdit { edit, .. } = op {
        if let ProfessionalTimelineEdit::UpdateMarker { selector, .. }
        | ProfessionalTimelineEdit::DeleteMarker { selector } = edit
        {
            a.marker = selector.anchor.as_ref().map(|x| place(timeline, x));
        }
    }
    a
}

fn apply_asking<F: Fn(&EdlOp, &mut Answers)>(
    tl: &Timeline,
    env: &EdlEnvelope,
    adjust: F,
) -> Result<(Timeline, ApplyOutcome), ApplyError> {
    montage_edl::engine::apply(
        tl,
        env,
        |working: &Timeline, op: &EdlOp, anchor: &Option<Anchor>| {
            let mut a = answers(working, op, anchor);
            adjust(op, &mut a);
            a
        },
        &mut ClipIds::new(0),
    )
}

fn apply(tl: &Timeline, env: &EdlEnvelope) -> Result<(Timeline, ApplyOutcome), ApplyError> {
    apply_asking(tl, env, |_: &EdlOp, _: &mut Answers| {})
}

#[test]
fn apply_trim_shortens_clip() {
    let tl = timeline_with_three_clips();
    let env = EdlEnvelope {
        ops: vec![EdlOp::TrimClip {
            anchor: Anchor::TranscriptSnippet {
                text: "bravo snippet".into(),
            },
            start: None,
            end: Some(num(3.0)),
        }],
    };
    let (new_tl, outcome) = apply(&tl, &env).unwrap();
    assert_eq!(outcome.applied.len(), 1);
    assert_eq!(
        outcome.applied[0].locator,
        Some(ClipLocator {
            track_index: 0,
            child_index: 1,
        }),
        "trim proposals need the resolved locator for diff hints and drag handles",
    );
    let StackChild::Track(t) = &new_tl.tracks.children[0] else {
        panic!()
    };
    let TrackChild::Clip(c) = &t.children[1] else {
        panic!()
    };
    let r = c.source_range.as_ref().unwrap();
    assert!((float(r.duration.to_seconds()) - 3.0).abs() < 1e-9);
}

#[test]
fn apply_trim_start_only_shortens_from_current_end() {
    let tl = timeline_with_three_clips();
    let env = EdlEnvelope {
        ops: vec![EdlOp::TrimClip {
            anchor: Anchor::ClipUuid {
                uuid: "clip-1".into(),
            },
            start: Some(num(1.0)),
            end: None,
        }],
    };
    let (new_tl, _) = apply(&tl, &env).unwrap();
    let StackChild::Track(t) = &new_tl.tracks.children[0] else {
        panic!()
    };
    let TrackChild::Clip(c) = &t.children[1] else {
        panic!()
    };
    let r = c.source_range.as_ref().unwrap();
    assert!((float(r.start_time.to_seconds()) - 1.0).abs() < 1e-9);
    assert!((float(r.duration.to_seconds()) - 4.0).abs() < 1e-9);
}

#[test]
fn apply_trim_rejects_no_op_range() {
    let mut tl = timeline_with_three_clips();
    let StackChild::Track(t) = &mut tl.tracks.children[0] else {
        panic!()
    };
    let TrackChild::Clip(c) = &mut t.children[1] else {
        panic!()
    };
    c.source_range = Some(TimeRange::new(
        time(5.0 * 24.0, 24.0),
        time(5.0 * 24.0, 24.0),
    ));

    let env = EdlEnvelope {
        ops: vec![EdlOp::TrimClip {
            anchor: Anchor::ClipUuid {
                uuid: "clip-1".into(),
            },
            start: Some(num(5.0)),
            end: None,
        }],
    };
    let err = apply(&tl, &env).unwrap_err();
    assert!(
        matches!(err, ApplyError::Invalid { ref message, .. } if message.contains("no-op")),
        "got: {err:?}"
    );
}

#[test]
fn apply_delete_removes_clip() {
    let tl = timeline_with_three_clips();
    let env = EdlEnvelope {
        ops: vec![EdlOp::DeleteClip {
            anchor: Anchor::TranscriptSnippet {
                text: "bravo".into(),
            },
        }],
    };
    let (new_tl, outcome) = apply(&tl, &env).unwrap();
    assert_eq!(outcome.applied.len(), 1);
    let StackChild::Track(t) = &new_tl.tracks.children[0] else {
        panic!()
    };
    assert_eq!(t.children.len(), 3);
    assert!(
        matches!(&t.children[1], TrackChild::Gap(gap) if (float(gap.source_range.duration.to_seconds()) - 5.0).abs() < 1e-9)
    );
    let TrackChild::Clip(c1) = &t.children[2] else {
        panic!()
    };
    assert_eq!(c1.name, "clip-2");
}

#[test]
fn apply_trim_cascades_to_linked_av_sibling() {
    let tl = linked_av_timeline();
    let env = EdlEnvelope {
        ops: vec![EdlOp::TrimClip {
            anchor: Anchor::ClipUuid {
                uuid: "audio-uuid".into(),
            },
            start: Some(num(12.0)),
            end: Some(num(28.0)),
        }],
    };
    let (new_tl, outcome) = apply(&tl, &env).unwrap();
    assert!(
        outcome.applied[0]
            .description
            .contains("1 linked sibling also trimmed"),
        "got {:?}",
        outcome.applied[0].description
    );
    for stack_child in &new_tl.tracks.children {
        let StackChild::Track(track) = stack_child else {
            panic!()
        };
        let TrackChild::Clip(clip) = &track.children[0] else {
            panic!()
        };
        assert_eq!(clip_source_range_s(clip), Some((12.0, 28.0)));
    }
}

#[test]
fn apply_untrim_widens_after_a_trim() {
    let tl = timeline_with_three_clips();
    let env = EdlEnvelope {
        ops: vec![
            EdlOp::TrimClip {
                anchor: Anchor::TranscriptSnippet {
                    text: "bravo".into(),
                },
                start: None,
                end: Some(num(2.0)),
            },
            EdlOp::UntrimClip {
                anchor: Anchor::ClipUuid {
                    uuid: "clip-1".into(),
                },
                start: None,
                end: Some(num(5.0)),
            },
        ],
    };
    let (new_tl, outcome) = apply(&tl, &env).unwrap();
    assert_eq!(outcome.applied.len(), 2);
    let StackChild::Track(t) = &new_tl.tracks.children[0] else {
        panic!()
    };
    let TrackChild::Clip(c) = &t.children[1] else {
        panic!()
    };
    let r = c.source_range.as_ref().unwrap();
    assert!((float(r.duration.to_seconds()) - 5.0).abs() < 1e-9);
}

#[test]
fn apply_untrim_refuses_to_narrow() {
    let tl = timeline_with_three_clips();
    let env = EdlEnvelope {
        ops: vec![EdlOp::UntrimClip {
            anchor: Anchor::TranscriptSnippet {
                text: "bravo".into(),
            },
            start: None,
            end: Some(num(3.0)),
        }],
    };
    let err = apply(&tl, &env).unwrap_err();
    match err {
        ApplyError::Invalid { message, .. } => {
            assert!(
                message.contains("Untrim only widens"),
                "expected 'Untrim only widens' hint; got: {message}"
            );
        }
        other => panic!("want Invalid, got {other:?}"),
    }
}

#[test]
fn apply_untrim_caps_to_available_range_when_known() {
    let mut tl = Timeline::empty("test");
    let mut track = Track::empty("V1", TrackKind::Video);
    let mut clip = Clip::empty("clip-0");
    let mut ext = ExternalReference::new("raw/x.mp4");
    ext.available_range = Some(TimeRange::new(
        time(0.0, 24.0),
        time(4.0 * 24.0, 24.0),
    ));
    clip.media_reference = MediaReference::External(ext);
    clip.source_range = Some(TimeRange::new(
        time(0.0, 24.0),
        time(2.0 * 24.0, 24.0),
    ));
    clip.metadata = no_metadata();
    track.children.push(TrackChild::Clip(clip));
    tl.tracks.children.push(StackChild::Track(track));

    let env = EdlEnvelope {
        ops: vec![EdlOp::UntrimClip {
            anchor: Anchor::ClipUuid {
                uuid: "clip-0".into(),
            },
            start: None,
            end: Some(num(999.0)),
        }],
    };
    let (new_tl, _) = apply(&tl, &env).unwrap();
    let StackChild::Track(t) = &new_tl.tracks.children[0] else {
        panic!()
    };
    let TrackChild::Clip(c) = &t.children[0] else {
        panic!()
    };
    let r = c.source_range.as_ref().unwrap();
    assert!(
        (float(r.duration.to_seconds()) - 4.0).abs() < 1e-9,
        "expected duration capped to 4s; got {}",
        float(r.duration.to_seconds())
    );
}

#[test]
fn apply_untrim_preserves_start_when_only_end_specified() {
    let mut tl = Timeline::empty("preserve");
    let mut track =
        Track::empty("V1", TrackKind::Video);
    let mut clip = Clip::empty("clip-0");
    clip.media_reference = MediaReference::External(
        ExternalReference::new("raw/x.mp4"),
    );
    clip.source_range = Some(TimeRange::new(
        time(10.0 * 24.0, 24.0),
        time(10.0 * 24.0, 24.0),
    ));
    track
        .children
        .push(TrackChild::Clip(clip));
    tl.tracks
        .children
        .push(StackChild::Track(track));

    let env = EdlEnvelope {
        ops: vec![EdlOp::UntrimClip {
            anchor: Anchor::ClipUuid {
                uuid: "clip-0".into(),
            },
            start: None,
            end: Some(num(30.0)),
        }],
    };
    let (new_tl, _) = apply(&tl, &env).unwrap();
    let StackChild::Track(t) = &new_tl.tracks.children[0] else {
        panic!()
    };
    let TrackChild::Clip(c) = &t.children[0] else {
        panic!()
    };
    let r = c.source_range.as_ref().unwrap();
    assert!(
        (float(r.start_time.to_seconds()) - 10.0).abs() < 1e-9,
        "start should be preserved at 10.0s, got {}",
        float(r.start_time.to_seconds())
    );
    assert!(
        (float(r.duration.to_seconds()) - 20.0).abs() < 1e-9,
        "duration should be 30-10=20s, got {}",
        float(r.duration.to_seconds())
    );
}

#[test]
fn apply_anchor_miss_is_anchor_miss_error() {
    let tl = timeline_with_three_clips();
    let env = EdlEnvelope {
        ops: vec![EdlOp::DeleteClip {
            anchor: Anchor::TranscriptSnippet {
                text: "no such snippet".into(),
            },
        }],
    };
    let err = apply(&tl, &env).unwrap_err();
    match err {
        ApplyError::AnchorMiss { index, .. } => assert_eq!(index, 0),
        other => panic!("want AnchorMiss, got {other:?}"),
    }
}

#[test]
fn apply_multi_op_envelope_in_order() {
    let tl = timeline_with_three_clips();
    let env = EdlEnvelope {
        ops: vec![
            EdlOp::TrimClip {
                anchor: Anchor::TranscriptSnippet {
                    text: "alpha".into(),
                },
                start: None,
                end: Some(num(2.0)),
            },
            EdlOp::DeleteClip {
                anchor: Anchor::TranscriptSnippet {
                    text: "charlie".into(),
                },
            },
        ],
    };
    let (new_tl, outcome) = apply(&tl, &env).unwrap();
    assert_eq!(outcome.applied.len(), 2);
    let StackChild::Track(t) = &new_tl.tracks.children[0] else {
        panic!()
    };
    assert_eq!(t.children.len(), 3);
    let TrackChild::Clip(alpha) = &t.children[0] else {
        panic!()
    };
    assert!((float(alpha.source_range.as_ref().unwrap().duration.to_seconds()) - 2.0).abs() < 1e-9);
    assert!(
        matches!(&t.children[2], TrackChild::Gap(gap) if (float(gap.source_range.duration.to_seconds()) - 5.0).abs() < 1e-9)
    );
}

#[test]
fn trim_with_end_less_than_start_is_invalid() {
    let tl = timeline_with_three_clips();
    let env = EdlEnvelope {
        ops: vec![EdlOp::TrimClip {
            anchor: Anchor::TranscriptSnippet {
                text: "alpha".into(),
            },
            start: Some(num(3.0)),
            end: Some(num(1.0)),
        }],
    };
    let err = apply(&tl, &env).unwrap_err();
    assert!(
        matches!(err, ApplyError::Invalid { message, .. } if message.contains("must be >= start"))
    );
}

#[test]
fn apply_insert_broll_replace_swaps_in_place_with_tail() {
    let tl = timeline_with_three_clips();
    let env = EdlEnvelope {
        ops: vec![EdlOp::InsertBRoll {
            anchor: Anchor::TranscriptSnippet {
                text: "bravo snippet".into(),
            },
            asset: "raw/broll.mp4".into(),
            duration_s: num(2.0),
            position: BRollPosition::Replace,
        }],
    };
    let (new_tl, _) = apply(&tl, &env).unwrap();
    let StackChild::Track(t) = &new_tl.tracks.children[0] else {
        panic!()
    };
    assert_eq!(t.children.len(), 4);
    let TrackChild::Clip(broll) = &t.children[1] else {
        panic!("expected broll at idx 1, got {:?}", t.children[1])
    };
    assert!(broll.name.starts_with("broll-from-clip-1"));
    assert_eq!(
        broll
            .source_range
            .as_ref()
            .map(|r| float(r.duration.to_seconds()))
            .unwrap_or(0.0),
        2.0,
    );
    let TrackChild::Clip(tail) = &t.children[2] else {
        panic!("expected tail at idx 2, got {:?}", t.children[2])
    };
    assert!(tail.name.starts_with("clip-1-tail"));
    let r = tail.source_range.as_ref().unwrap();
    assert!((float(r.start_time.to_seconds()) - 2.0).abs() < 1e-9);
    assert!((float(r.duration.to_seconds()) - 3.0).abs() < 1e-9);
}

#[test]
fn apply_insert_broll_replace_consumes_anchor_when_duration_meets_or_exceeds() {
    let tl = timeline_with_three_clips();
    let env = EdlEnvelope {
        ops: vec![EdlOp::InsertBRoll {
            anchor: Anchor::TranscriptSnippet {
                text: "bravo snippet".into(),
            },
            asset: "raw/broll.mp4".into(),
            duration_s: num(5.0),
            position: BRollPosition::Replace,
        }],
    };
    let (new_tl, _) = apply(&tl, &env).unwrap();
    let StackChild::Track(t) = &new_tl.tracks.children[0] else {
        panic!()
    };
    assert_eq!(t.children.len(), 3);
    assert!(matches!(&t.children[1], TrackChild::Clip(c) if c.name.starts_with("broll-from")));
    assert!(matches!(&t.children[2], TrackChild::Clip(c) if c.name == "clip-2"));
}

#[test]
fn apply_insert_broll_overlay_creates_v2_track_with_padding_gap() {
    let tl = timeline_with_three_clips();
    let env = EdlEnvelope {
        ops: vec![EdlOp::InsertBRoll {
            anchor: Anchor::TranscriptSnippet {
                text: "bravo snippet".into(),
            },
            asset: "raw/broll.mp4".into(),
            duration_s: num(2.0),
            position: BRollPosition::Overlay,
        }],
    };
    let (new_tl, _) = apply(&tl, &env).unwrap();
    let StackChild::Track(v1) = &new_tl.tracks.children[0] else {
        panic!()
    };
    assert_eq!(v1.children.len(), 3);
    assert_eq!(v1.name, "V1");
    assert_eq!(new_tl.tracks.children.len(), 2);
    let StackChild::Track(v2) = &new_tl.tracks.children[1] else {
        panic!()
    };
    assert_eq!(v2.name, "V2");
    assert_eq!(v2.children.len(), 2);
    let TrackChild::Gap(g) = &v2.children[0] else {
        panic!("expected gap at v2 idx 0")
    };
    assert!((float(g.source_range.duration.to_seconds()) - 5.0).abs() < 1e-9);
    let TrackChild::Clip(broll) = &v2.children[1] else {
        panic!("expected broll at v2 idx 1")
    };
    assert!(broll.name.starts_with("broll-from-clip-1"));
}

#[test]
fn apply_insert_broll_overlay_inserts_into_existing_gap_instead_of_appending() {
    let tl = timeline_with_three_clips();
    let env = EdlEnvelope {
        ops: vec![
            EdlOp::InsertBRoll {
                anchor: Anchor::TranscriptSnippet {
                    text: "charlie snippet".into(),
                },
                asset: "raw/charlie-broll.mp4".into(),
                duration_s: num(1.0),
                position: BRollPosition::Overlay,
            },
            EdlOp::InsertBRoll {
                anchor: Anchor::TranscriptSnippet {
                    text: "bravo snippet".into(),
                },
                asset: "raw/bravo-broll.mp4".into(),
                duration_s: num(1.0),
                position: BRollPosition::Overlay,
            },
        ],
    };
    let (new_tl, _) = apply(&tl, &env).unwrap();
    let StackChild::Track(v2) = &new_tl.tracks.children[1] else {
        panic!()
    };
    assert_eq!(v2.name, "V2");
    assert_eq!(v2.children.len(), 4);
    assert!(
        matches!(&v2.children[0], TrackChild::Gap(g) if (float(g.source_range.duration.to_seconds()) - 5.0).abs() < 1e-9)
    );
    assert!(
        matches!(&v2.children[1], TrackChild::Clip(c) if matches!(&c.media_reference, MediaReference::External(r) if r.target_url == "raw/bravo-broll.mp4"))
    );
    assert!(
        matches!(&v2.children[2], TrackChild::Gap(g) if (float(g.source_range.duration.to_seconds()) - 4.0).abs() < 1e-9)
    );
    assert!(
        matches!(&v2.children[3], TrackChild::Clip(c) if matches!(&c.media_reference, MediaReference::External(r) if r.target_url == "raw/charlie-broll.mp4"))
    );
}

#[test]
fn apply_insert_pip_creates_overlay_track_and_stamps_effect() {
    let tl = timeline_with_three_clips();
    let env = EdlEnvelope {
        ops: vec![EdlOp::InsertPiP {
            anchor: Anchor::TranscriptSnippet {
                text: "bravo snippet".into(),
            },
            request: PipRequest {
                asset: "raw/pip.mp4".into(),
                duration_s: num(2.0),
                source_start_s: num(1.0),
                corner: PiPCorner::BottomRight,
                scale: num(0.28),
                margin_pct: num(0.035),
            },
        }],
    };
    let (new_tl, _) = apply(&tl, &env).unwrap();
    let StackChild::Track(v2) = &new_tl.tracks.children[1] else {
        panic!()
    };
    assert_eq!(v2.name, "V2");
    assert_eq!(v2.children.len(), 2);
    let TrackChild::Gap(g) = &v2.children[0] else {
        panic!("expected gap at v2 idx 0")
    };
    assert!((float(g.source_range.duration.to_seconds()) - 5.0).abs() < 1e-9);
    let TrackChild::Clip(pip) = &v2.children[1] else {
        panic!("expected pip clip")
    };
    let range = pip.source_range.as_ref().unwrap();
    assert!((float(range.start_time.to_seconds()) - 1.0).abs() < 1e-9);
    assert!((float(range.duration.to_seconds()) - 2.0).abs() < 1e-9);
    let effect = pip
        .effects
        .iter()
        .find(|e| e.effect_name == VIDEO_OVERLAY)
        .expect("video overlay effect");
    assert_eq!(
        effect.metadata.get("mode").and_then(|v| v.as_str()),
        Some("pip")
    );
    assert_eq!(
        effect.metadata.get("corner").and_then(|v| v.as_str()),
        Some("bottom_right")
    );
}

#[test]
fn apply_insert_broll_rejects_zero_duration() {
    let tl = timeline_with_three_clips();
    let env = EdlEnvelope {
        ops: vec![EdlOp::InsertBRoll {
            anchor: Anchor::TranscriptSnippet {
                text: "bravo snippet".into(),
            },
            asset: "raw/broll.mp4".into(),
            duration_s: num(0.0),
            position: BRollPosition::Replace,
        }],
    };
    let err = apply(&tl, &env).unwrap_err();
    assert!(
        matches!(&err, ApplyError::Invalid { message, .. } if message.contains("must be > 0")),
        "expected duration error, got {err:?}",
    );
}

#[test]
fn apply_untrim_widens_link_group_siblings() {
    let mut tl = Timeline::empty("test");
    let mut montage_meta = MontageClipMetadata::new();
    montage_meta
        .extra
        .insert("link_group_id", MetaValue::text("g0"));
    let build = |name: &str, kind: TrackKind, clip_name: &str| {
        let mut t = Track::empty(name, kind);
        let mut c = Clip::empty(clip_name);
        c.media_reference = MediaReference::External(ExternalReference::new("raw/0.mp4"));
        c.source_range = Some(TimeRange::new(
            time(1.0 * 24.0, 24.0),
            time(4.0 * 24.0, 24.0),
        ));
        c.metadata = ClipMetadata {
            montage: Some(montage_meta.copied()),
            ..no_metadata()
        };
        t.children.push(TrackChild::Clip(c));
        t
    };
    tl.tracks
        .children
        .push(StackChild::Track(build("V1", TrackKind::Video, "v0")));
    tl.tracks
        .children
        .push(StackChild::Track(build("A1", TrackKind::Audio, "a0")));

    let env = EdlEnvelope {
        ops: vec![EdlOp::UntrimClip {
            anchor: Anchor::ClipUuid { uuid: "v0".into() },
            start: None,
            end: Some(num(8.0)),
        }],
    };
    let (new_tl, outcome) = apply(&tl, &env).unwrap();
    assert!(
        outcome.applied[0].description.contains("linked sibling"),
        "expected linked-sibling note; got {:?}",
        outcome.applied[0].description,
    );
    let StackChild::Track(a) = &new_tl.tracks.children[1] else {
        panic!()
    };
    let TrackChild::Clip(audio) = &a.children[0] else {
        panic!()
    };
    let r = audio.source_range.as_ref().unwrap();
    assert!((float(r.start_time.to_seconds()) - 1.0).abs() < 1e-6);
    assert!(
        (float(r.duration.to_seconds()) - 7.0).abs() < 1e-6,
        "audio must widen to [1..8]"
    );
}

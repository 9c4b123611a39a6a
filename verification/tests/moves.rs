//! Ops that move clips and care for tracks.
use montage_edl::dispatch::Answers;
use montage_edl::engine::ApplyOutcome;
use montage_edl::envelope::{EdlEnvelope, EdlOp, ProfessionalTimelineEdit};
use montage_edl::error::{AnchorMiss, ApplyError};
use montage_edl::insert::InsertRequest;
use montage_edl::meta::{MetaMap, MetaValue};
use montage_edl::mint::ClipIds;
use montage_edl::model::{
    Clip, ClipLocator, ClipMetadata, ExternalReference, Gap, Marker, MediaReference,
    MontageClipMetadata, RationalTime, StackChild, Stored, TimeRange, Timeline, Track, TrackChild,
    TrackKind,
};
use montage_edl::num::Num;
use montage_edl::op::{
    Anchor, BetweenPlaces, GapSide, InsertTrackKind, MulticamApplyPlan, MulticamDecision,
    RippleTrimEdge, SnapOptions, SnapTargetKind,
};
use montage_edl::snap::resolve_snap_time;

fn num(x: f64) -> Num {
    if x.is_nan() {
        Num::Nan
    } else if x.is_infinite() {
        if x > 0.0 {
            Num::PosInf
        } else {
            Num::NegInf
        }
    } else {
        Num::Fin((x * 1e15).round() as i128)
    }
}

fn float(x: Num) -> f64 {
    match x {
        Num::Nan => f64::NAN,
        Num::NegInf => f64::NEG_INFINITY,
        Num::Fin(v) => v as f64 / 1e15,
        Num::PosInf => f64::INFINITY,
    }
}

fn time(value: f64, rate: f64) -> RationalTime {
    RationalTime::new(num(value / rate), num(rate))
}

fn pairs(entries: Vec<(&str, MetaValue)>) -> MetaMap {
    let mut m = MetaMap::new();
    for (key, value) in entries {
        m.insert(key, value);
    }
    m
}

trait Json {
    fn as_str(&self) -> Option<&str>;
    fn as_f64(&self) -> Option<f64>;
    fn as_u64(&self) -> Option<u64>;
    fn as_array(&self) -> Option<&Vec<MetaValue>>;
    fn as_object(&self) -> Option<&MetaMap>;
    fn get(&self, key: &str) -> Option<&MetaValue>;
    fn at(&self, key: &str) -> &MetaValue;
}

impl Json for MetaValue {
    fn as_str(&self) -> Option<&str> {
        match self {
            MetaValue::Text(s) => Some(s),
            _ => None,
        }
    }

    fn as_f64(&self) -> Option<f64> {
        self.as_number().map(float)
    }

    fn as_u64(&self) -> Option<u64> {
        self.as_f64().filter(|x| x.fract() == 0.0 && *x >= 0.0).map(|x| x as u64)
    }

    fn as_array(&self) -> Option<&Vec<MetaValue>> {
        match self {
            MetaValue::List(v) => Some(v),
            _ => None,
        }
    }

    fn as_object(&self) -> Option<&MetaMap> {
        match self {
            MetaValue::Object(m) => Some(m),
            _ => None,
        }
    }

    fn get(&self, key: &str) -> Option<&MetaValue> {
        self.as_object().and_then(|m| m.get(key))
    }

    fn at(&self, key: &str) -> &MetaValue {
        self.get(key).expect("a value")
    }
}

fn no_metadata() -> ClipMetadata {
    ClipMetadata { montage: None, extra: MetaMap::new() }
}

fn marker(name: &str, marked_range: TimeRange) -> Marker {
    Marker { name: name.to_string(), marked_range, comment: None, metadata: None }
}

fn no_decision() -> MulticamDecision {
    MulticamDecision {
        source_asset: String::new(),
        start_s: num(0.0),
        end_s: num(0.0),
        source_start_s: None,
        reason: None,
        speaker: None,
        sync_group_id: None,
    }
}

fn timeline_with_three_clips() -> Timeline {
    let mut tl = Timeline::empty("test");
    let mut track = Track::empty("V1", TrackKind::Video);
    for (i, snip) in ["alpha snippet", "bravo snippet", "charlie snippet"].iter().enumerate() {
        let mut c = Clip::empty(&format!("clip-{i}"));
        c.media_reference =
            MediaReference::External(ExternalReference::new(&format!("raw/{i}.mp4")));
        c.source_range = Some(TimeRange::new(time(0.0, 24.0), time(5.0 * 24.0, 24.0)));
        c.metadata = ClipMetadata {
            montage: Some(MontageClipMetadata {
                transcript_snippet: Some((*snip).to_string()),
                ..MontageClipMetadata::new()
            }),
            ..no_metadata()
        };
        track.children.push(TrackChild::Clip(c));
    }
    tl.tracks.children.push(StackChild::Track(track));
    tl
}

fn linked_av_timeline() -> Timeline {
    let mut tl = Timeline::empty("linked");
    let mut video = Track::empty("Video 1", TrackKind::Video);
    let mut audio = Track::empty("A1", TrackKind::Audio);
    for (track, name, uuid) in
        [(&mut video, "video", "video-uuid"), (&mut audio, "audio", "audio-uuid")]
    {
        let extra = pairs(vec![
            ("clip_uuid", MetaValue::text(uuid)),
            ("link_group_id", MetaValue::text("lg-av")),
        ]);
        let mut clip = Clip::empty(name);
        clip.media_reference = MediaReference::External(ExternalReference::new("raw/episode.mov"));
        clip.source_range = Some(TimeRange::new(time(10.0 * 24.0, 24.0), time(20.0 * 24.0, 24.0)));
        clip.metadata = ClipMetadata {
            montage: Some(MontageClipMetadata { extra, ..MontageClipMetadata::new() }),
            ..no_metadata()
        };
        track.children.push(TrackChild::Clip(clip));
    }
    tl.tracks.children.push(StackChild::Track(video));
    tl.tracks.children.push(StackChild::Track(audio));
    tl
}

fn extract_clip_uuid(clip: &Clip) -> Option<String> {
    clip.metadata
        .montage
        .as_ref()
        .and_then(|m| m.extra.get("clip_uuid"))
        .and_then(|v| v.as_text())
}

fn clip_source_range_s(clip: &Clip) -> Option<(f64, f64)> {
    clip.source_range.map(|r| {
        let start = float(r.start_time.to_seconds());
        (start, start + float(r.duration.to_seconds()))
    })
}

fn child_duration(child: &TrackChild) -> f64 {
    float(montage_edl::edit::child_duration(child))
}

/// Where an anchor leads: to the clip with the unique id or the name, or to the
/// clip whose transcript holds the text.
fn place(timeline: &Timeline, anchor: &Anchor) -> Result<ClipLocator, AnchorMiss> {
    for (track_index, layer) in timeline.tracks.children.iter().enumerate() {
        let StackChild::Track(track) = layer else {
            continue;
        };
        for (child_index, child) in track.children.iter().enumerate() {
            let TrackChild::Clip(clip) = child else {
                continue;
            };
            let montage = clip.metadata.montage.as_ref();
            let here = match anchor {
                Anchor::ClipUuid { uuid } => {
                    clip.name == *uuid
                        || montage.and_then(|m| m.extra.get_text("clip_uuid")).as_ref()
                            == Some(uuid)
                }
                Anchor::TranscriptSnippet { text } => montage
                    .and_then(|m| m.transcript_snippet.as_ref())
                    .is_some_and(|s| s.contains(text.as_str())),
            };
            if here {
                return Ok(ClipLocator { track_index, child_index });
            }
        }
    }
    Err(AnchorMiss { text: format!("no clip at {anchor:?}") })
}

fn answers(timeline: &Timeline, op: &EdlOp, anchor: &Option<Anchor>) -> Answers {
    let mut a = Answers::plain(MetaValue::Null);
    if let Some(x) = anchor {
        a.place = place(timeline, x);
    }
    let between = match op {
        EdlOp::InsertTransition { between, .. }
        | EdlOp::DeleteTransition { between }
        | EdlOp::SetCutIntent { between, .. }
        | EdlOp::ProfessionalTimelineEdit {
            edit: ProfessionalTimelineEdit::RollEdit { between, .. },
            ..
        } => Some(between),
        _ => None,
    };
    if let Some(b) = between {
        a.between =
            BetweenPlaces { from: place(timeline, &b.from), to: place(timeline, &b.to) };
    }
    if let EdlOp::ProfessionalTimelineEdit { edit, .. } = op {
        if let ProfessionalTimelineEdit::UpdateMarker { selector, .. }
        | ProfessionalTimelineEdit::DeleteMarker { selector } = edit
        {
            a.marker = selector.anchor.as_ref().map(|x| place(timeline, x));
        }
    }
    a
}

fn apply_asking<F: Fn(&EdlOp, &mut Answers)>(
    tl: &Timeline,
    env: &EdlEnvelope,
    adjust: F,
) -> Result<(Timeline, ApplyOutcome), ApplyError> {
    montage_edl::engine::apply(
        tl,
        env,
        |working: &Timeline, op: &EdlOp, anchor: &Option<Anchor>| {
            let mut a = answers(working, op, anchor);
            adjust(op, &mut a);
            a
        },
        &mut ClipIds::new(0),
    )
}

fn apply(tl: &Timeline, env: &EdlEnvelope) -> Result<(Timeline, ApplyOutcome), ApplyError> {
    apply_asking(tl, env, |_: &EdlOp, _: &mut Answers| {})
}

#[test]
fn apply_split_partitions_clip_at_timestamp() {
    let tl = timeline_with_three_clips();
    let env = EdlEnvelope {
        ops: vec![EdlOp::SplitClip {
            anchor: Anchor::TranscriptSnippet {
                text: "bravo".into(),
            },
            at_s: num(2.0),
            snap: None,
        }],
    };
    let (new_tl, outcome) = apply(&tl, &env).unwrap();
    assert_eq!(outcome.applied.len(), 1);
    let StackChild::Track(t) = &new_tl.tracks.children[0] else {
        panic!()
    };
    assert_eq!(t.children.len(), 4);
    let TrackChild::Clip(left) = &t.children[1] else {
        panic!()
    };
    let TrackChild::Clip(right) = &t.children[2] else {
        panic!()
    };
    assert_eq!(left.name, "clip-1");
    assert_eq!(right.name, "clip-1-b");
    let lr = left.source_range.as_ref().unwrap();
    let rr = right.source_range.as_ref().unwrap();
    assert!((float(lr.duration.to_seconds()) - 2.0).abs() < 1e-9);
    assert!((float(rr.duration.to_seconds()) - 3.0).abs() < 1e-9);
    assert!((float(rr.start_time.to_seconds()) - 2.0).abs() < 1e-9);
}

#[test]
fn apply_split_cascades_to_linked_av_sibling() {
    let tl = linked_av_timeline();
    let env = EdlEnvelope {
        ops: vec![EdlOp::SplitClip {
            anchor: Anchor::ClipUuid {
                uuid: "video-uuid".into(),
            },
            at_s: num(18.0),
            snap: None,
        }],
    };
    let (new_tl, outcome) = apply(&tl, &env).unwrap();
    assert!(
        outcome.applied[0]
            .description
            .contains("1 linked sibling also split"),
        "got {:?}",
        outcome.applied[0].description
    );
    for stack_child in &new_tl.tracks.children {
        let StackChild::Track(track) = stack_child else {
            panic!()
        };
        assert_eq!(track.children.len(), 2);
        let TrackChild::Clip(left) = &track.children[0] else {
            panic!()
        };
        let TrackChild::Clip(right) = &track.children[1] else {
            panic!()
        };
        assert_eq!(
            clip_source_range_s(left).map(|(_, end)| (end * 1000.0).round() / 1000.0),
            Some(18.0)
        );
        assert_eq!(
            clip_source_range_s(right).map(|(start, _)| (start * 1000.0).round() / 1000.0),
            Some(18.0)
        );
    }
}

#[test]
fn apply_split_stamps_distinct_clip_uuids_on_each_piece() {
    let mut tl = timeline_with_three_clips();
    let StackChild::Track(t) = &mut tl.tracks.children[0] else {
        panic!()
    };
    let TrackChild::Clip(c) = &mut t.children[1] else {
        panic!()
    };
    c.metadata
        .montage
        .get_or_insert_with(MontageClipMetadata::new)
        .extra
        .insert("clip_uuid",
            MetaValue::text("parent-uuid"),
        );

    let env = EdlEnvelope {
        ops: vec![EdlOp::SplitClip {
            anchor: Anchor::ClipUuid {
                uuid: "parent-uuid".into(),
            },
            at_s: num(2.0),
            snap: None,
        }],
    };
    let (new_tl, outcome) = apply(&tl, &env).unwrap();
    let StackChild::Track(t) = &new_tl.tracks.children[0] else {
        panic!()
    };
    let TrackChild::Clip(left) = &t.children[1] else {
        panic!()
    };
    let TrackChild::Clip(right) = &t.children[2] else {
        panic!()
    };
    let left_uuid = extract_clip_uuid(left).unwrap();
    let right_uuid = extract_clip_uuid(right).unwrap();
    assert_eq!(left_uuid, "parent-uuid");
    assert_ne!(left_uuid, right_uuid);
    assert!(right_uuid.starts_with("c-"));
    assert!(outcome.applied[0].description.contains(&right_uuid));
    assert!(outcome.applied[0].description.contains("anchor=clip_uuid="));
}

#[test]
fn apply_insert_clip_stamps_fresh_clip_uuid() {
    let mut tl = Timeline::empty("test");
    let mut track =
        Track::empty("V1", TrackKind::Video);
    track
        .children
        .push(TrackChild::Gap(Gap::of_duration(num(0.0), num(24.0))));
    tl.tracks.children.push(StackChild::Track(track));

    let env = EdlEnvelope {
        ops: vec![EdlOp::InsertClip {
            request: InsertRequest {
                asset: "raw/x.mp4".into(),
                track: "V1".into(),
                track_kind: None,
                at_position: None,
                at_s: None,
                start: Some(num(0.0)),
                end: Some(num(3.0)),
                name: None,
                link_group_id: None,
                snap: None,
            },
        }],
    };
    let (new_tl, _) = apply(&tl, &env).unwrap();
    let StackChild::Track(t) = &new_tl.tracks.children[0] else {
        panic!()
    };
    let TrackChild::Clip(inserted) = &t.children[1] else {
        panic!()
    };
    let uuid = extract_clip_uuid(inserted).expect("insert should stamp a clip_uuid");
    assert!(uuid.starts_with("c-"), "got: {uuid}");
}

#[test]
fn apply_split_rejects_at_s_outside_range() {
    let tl = timeline_with_three_clips();
    let env = EdlEnvelope {
        ops: vec![EdlOp::SplitClip {
            anchor: Anchor::TranscriptSnippet {
                text: "bravo".into(),
            },
            at_s: num(7.0),
            snap: None,
        }],
    };
    let err = apply(&tl, &env).unwrap_err();
    match err {
        ApplyError::Invalid { index, message } => {
            assert_eq!(index, 0);
            assert!(
                message.contains("must lie strictly inside"),
                "got: {message}"
            );
        }
        other => panic!("want Invalid, got {other:?}"),
    }
}

#[test]
fn split_then_delete_in_one_envelope_lifts_middle_out() {
    let tl = timeline_with_three_clips();
    let env = EdlEnvelope {
        ops: vec![
            EdlOp::SplitClip {
                anchor: Anchor::TranscriptSnippet {
                    text: "bravo".into(),
                },
                at_s: num(2.0),
                snap: None,
            },
            EdlOp::SplitClip {
                anchor: Anchor::ClipUuid {
                    uuid: "clip-1-b".into(),
                },
                at_s: num(4.0),
                snap: None,
            },
            EdlOp::DeleteClip {
                anchor: Anchor::ClipUuid {
                    uuid: "clip-1-b".into(),
                },
            },
        ],
    };
    let (new_tl, outcome) = apply(&tl, &env).unwrap();
    assert_eq!(outcome.applied.len(), 3);
    let StackChild::Track(t) = &new_tl.tracks.children[0] else {
        panic!()
    };
    assert_eq!(t.children.len(), 5);
    assert!(
        matches!(&t.children[2], TrackChild::Gap(gap) if (float(gap.source_range.duration.to_seconds()) - 2.0).abs() < 1e-9)
    );
}

#[test]
fn apply_insert_clip_creates_track_when_missing() {
    let tl = Timeline::empty("test");
    let env = EdlEnvelope {
        ops: vec![EdlOp::InsertClip {
            request: InsertRequest {
                asset: "raw/clip-1.MOV".into(),
                track: "V1".into(),
                track_kind: None,
                at_position: None,
                at_s: None,
                start: Some(num(0.0)),
                end: Some(num(56.47)),
                name: None,
                link_group_id: None,
                snap: None,
            },
        }],
    };
    let (new_tl, outcome) = apply(&tl, &env).unwrap();
    assert_eq!(outcome.applied.len(), 1);
    assert_eq!(new_tl.tracks.children.len(), 1, "track created");
    let StackChild::Track(t) = &new_tl.tracks.children[0] else {
        panic!()
    };
    assert_eq!(t.name, "V1");
    assert_eq!(t.children.len(), 1);
    let TrackChild::Clip(c) = &t.children[0] else {
        panic!()
    };
    assert_eq!(c.name, "clip-1");
    let r = c.source_range.as_ref().unwrap();
    assert!((float(r.duration.to_seconds()) - 56.47).abs() < 1e-6);
}

#[test]
fn apply_insert_clip_appends_to_existing_track() {
    let tl = timeline_with_three_clips();
    let env = EdlEnvelope {
        ops: vec![EdlOp::InsertClip {
            request: InsertRequest {
                asset: "raw/extra.mp4".into(),
                track: "V1".into(),
                track_kind: None,
                at_position: None,
                at_s: None,
                start: Some(num(0.0)),
                end: Some(num(2.0)),
                name: Some("intro".into()),
                link_group_id: None,
                snap: None,
            },
        }],
    };
    let (new_tl, _) = apply(&tl, &env).unwrap();
    let StackChild::Track(t) = &new_tl.tracks.children[0] else {
        panic!()
    };
    assert_eq!(t.children.len(), 4);
    let TrackChild::Clip(c) = &t.children[3] else {
        panic!()
    };
    assert_eq!(c.name, "intro");
}

#[test]
fn apply_insert_clip_at_position_inserts_in_middle() {
    let tl = timeline_with_three_clips();
    let env = EdlEnvelope {
        ops: vec![EdlOp::InsertClip {
            request: InsertRequest {
                asset: "raw/middle.mp4".into(),
                track: "V1".into(),
                track_kind: None,
                at_position: Some(1),
                at_s: None,
                start: Some(num(0.0)),
                end: Some(num(1.0)),
                name: Some("inserted".into()),
                link_group_id: None,
                snap: None,
            },
        }],
    };
    let (new_tl, _) = apply(&tl, &env).unwrap();
    let StackChild::Track(t) = &new_tl.tracks.children[0] else {
        panic!()
    };
    assert_eq!(t.children.len(), 4);
    let TrackChild::Clip(c) = &t.children[1] else {
        panic!()
    };
    assert_eq!(c.name, "inserted", "new clip lands at index 1");
}

#[test]
fn apply_insert_clip_default_name_avoids_duplicate_when_inserted_in_middle() {
    let tl = timeline_with_three_clips();
    let env = EdlEnvelope {
        ops: vec![EdlOp::InsertClip {
            request: InsertRequest {
                asset: "raw/middle.mp4".into(),
                track: "V1".into(),
                track_kind: None,
                at_position: Some(1),
                at_s: None,
                start: Some(num(0.0)),
                end: Some(num(1.0)),
                name: None,
                link_group_id: None,
                snap: None,
            },
        }],
    };
    let (new_tl, _) = apply(&tl, &env).unwrap();
    let StackChild::Track(t) = &new_tl.tracks.children[0] else {
        panic!()
    };
    let names = t
        .children
        .iter()
        .filter_map(|tc| match tc {
            TrackChild::Clip(c) => Some(c.name.as_str()),
            _ => None,
        })
        .collect::<Vec<_>>();
    assert_eq!(names, vec!["clip-0", "middle", "clip-1", "clip-2"]);
}

#[test]
fn apply_insert_clip_default_name_dedupes_when_stem_already_taken() {
    let mut tl = Timeline::empty("test");
    let mut track = Track::empty("V1", TrackKind::Video);
    let mut existing = Clip::empty("foo");
    existing.media_reference = MediaReference::External(ExternalReference::new("raw/foo.mp4"));
    existing.source_range = Some(TimeRange::new(
        time(0.0, 24.0),
        time(2.0 * 24.0, 24.0),
    ));
    track.children.push(TrackChild::Clip(existing));
    tl.tracks.children.push(StackChild::Track(track));

    let env = EdlEnvelope {
        ops: vec![EdlOp::InsertClip {
            request: InsertRequest {
                asset: "raw/foo.mp4".into(),
                track: "V1".into(),
                track_kind: None,
                at_position: None,
                at_s: None,
                start: Some(num(0.0)),
                end: Some(num(1.0)),
                name: None,
                link_group_id: None,
                snap: None,
            },
        }],
    };
    let (new_tl, _) = apply(&tl, &env).unwrap();
    let StackChild::Track(t) = &new_tl.tracks.children[0] else {
        panic!()
    };
    let names = t
        .children
        .iter()
        .filter_map(|tc| match tc {
            TrackChild::Clip(c) => Some(c.name.as_str()),
            _ => None,
        })
        .collect::<Vec<_>>();
    assert_eq!(names, vec!["foo", "foo-2"]);
}

#[test]
fn apply_linked_audio_insert_pads_to_video_start() {
    let mut tl = Timeline::empty("test");
    let mut v1 = Track::empty("Video 1", TrackKind::Video);
    let mut first = Clip::empty("first");
    first.media_reference = MediaReference::External(ExternalReference::new("raw/first.mp4"));
    first.source_range = Some(TimeRange::new(
        time(0.0, 24.0),
        time(48.0, 24.0),
    ));
    v1.children.push(TrackChild::Clip(first));
    tl.tracks.children.push(StackChild::Track(v1));

    let env = EdlEnvelope {
        ops: vec![
            EdlOp::InsertClip {
                request: InsertRequest {
                    asset: "raw/second.mp4".into(),
                    track: "Video 1".into(),
                    track_kind: Some(InsertTrackKind::Video),
                    at_position: None,
                    at_s: None,
                    start: Some(num(0.0)),
                    end: Some(num(5.0)),
                    name: None,
                    link_group_id: Some("lg-1".into()),
                    snap: None,
                },
            },
            EdlOp::InsertClip {
                request: InsertRequest {
                    asset: "raw/second.mp4".into(),
                    track: "A1".into(),
                    track_kind: Some(InsertTrackKind::Audio),
                    at_position: None,
                    at_s: None,
                    start: Some(num(0.0)),
                    end: Some(num(5.0)),
                    name: None,
                    link_group_id: Some("lg-1".into()),
                    snap: None,
                },
            },
        ],
    };

    let (new_tl, _) = apply(&tl, &env).unwrap();
    let StackChild::Track(a1) = &new_tl.tracks.children[1] else {
        panic!()
    };
    assert!(matches!(a1.children[0], TrackChild::Gap(_)));
    assert!((child_duration(&a1.children[0]) - 2.0).abs() < 0.001);
    assert!(matches!(a1.children[1], TrackChild::Clip(_)));
}

#[test]
fn apply_insert_clip_rejects_zero_duration() {
    let tl = Timeline::empty("test");
    let env = EdlEnvelope {
        ops: vec![EdlOp::InsertClip {
            request: InsertRequest {
                asset: "raw/x.mp4".into(),
                track: "V1".into(),
                track_kind: None,
                at_position: None,
                at_s: None,
                start: Some(num(5.0)),
                end: Some(num(5.0)),
                name: None,
                link_group_id: None,
                snap: None,
            },
        }],
    };
    let err = apply(&tl, &env).unwrap_err();
    match err {
        ApplyError::Invalid { message, .. } => {
            assert!(message.contains("must be > start"), "got: {message}");
        }
        other => panic!("want Invalid, got {other:?}"),
    }
}

#[test]
fn apply_insert_clip_can_create_audio_track() {
    let tl = Timeline::empty("test");
    let env = EdlEnvelope {
        ops: vec![EdlOp::InsertClip {
            request: InsertRequest {
                asset: "raw/dialogue.wav".into(),
                track: "A1".into(),
                track_kind: Some(InsertTrackKind::Audio),
                at_position: None,
                at_s: None,
                start: Some(num(0.0)),
                end: Some(num(10.0)),
                name: None,
                link_group_id: Some("lg-test".into()),
                snap: None,
            },
        }],
    };
    let (new_tl, _) = apply(&tl, &env).unwrap();
    let StackChild::Track(t) = &new_tl.tracks.children[0] else {
        panic!()
    };
    assert!(matches!(t.kind, TrackKind::Audio));
    let TrackChild::Clip(c) = &t.children[0] else {
        panic!()
    };
    let link = c
        .metadata
        .montage
        .as_ref()
        .and_then(|m| m.extra.get("link_group_id"))
        .and_then(|v| v.as_str());
    assert_eq!(link, Some("lg-test"));
}

#[test]
fn apply_does_not_mutate_input_on_error() {
    let tl = timeline_with_three_clips();
    let snapshot = format!("{tl:?}");
    let env = EdlEnvelope {
        ops: vec![EdlOp::DeleteClip {
            anchor: Anchor::TranscriptSnippet {
                text: "missing".into(),
            },
        }],
    };
    let _ = apply(&tl, &env);
    let after = format!("{tl:?}");
    assert_eq!(snapshot, after);
}

#[test]
fn apply_move_clip_to_start_reorders_track() {
    let tl = timeline_with_three_clips();
    let env = EdlEnvelope {
        ops: vec![EdlOp::MoveClip {
            anchor: Anchor::TranscriptSnippet {
                text: "charlie snippet".into(),
            },
            to_position: 0,
            at_s: None,
            snap: None,
        }],
    };
    let (new_tl, _) = apply(&tl, &env).unwrap();
    let StackChild::Track(t) = &new_tl.tracks.children[0] else {
        panic!()
    };
    assert!(matches!(&t.children[0], TrackChild::Clip(c) if c.name == "clip-2"));
    assert!(matches!(&t.children[1], TrackChild::Clip(c) if c.name == "clip-0"));
    assert!(matches!(&t.children[2], TrackChild::Clip(c) if c.name == "clip-1"));
}

#[test]
fn apply_move_clip_to_end_clamps_to_last_position() {
    let tl = timeline_with_three_clips();
    let env = EdlEnvelope {
        ops: vec![EdlOp::MoveClip {
            anchor: Anchor::TranscriptSnippet {
                text: "alpha snippet".into(),
            },
            to_position: 99,
            at_s: None,
            snap: None,
        }],
    };
    let (new_tl, _) = apply(&tl, &env).unwrap();
    let StackChild::Track(t) = &new_tl.tracks.children[0] else {
        panic!()
    };
    assert!(matches!(&t.children[0], TrackChild::Clip(c) if c.name == "clip-1"));
    assert!(matches!(&t.children[1], TrackChild::Clip(c) if c.name == "clip-2"));
    assert!(matches!(&t.children[2], TrackChild::Clip(c) if c.name == "clip-0"));
}

#[test]
fn apply_move_clip_same_position_is_a_no_op() {
    let tl = timeline_with_three_clips();
    let env = EdlEnvelope {
        ops: vec![EdlOp::MoveClip {
            anchor: Anchor::TranscriptSnippet {
                text: "bravo snippet".into(),
            },
            to_position: 1,
            at_s: None,
            snap: None,
        }],
    };
    let (new_tl, outcome) = apply(&tl, &env).unwrap();
    assert!(
        outcome.applied[0]
            .description
            .contains("already at position"),
        "expected no-op description, got {:?}",
        outcome.applied[0].description,
    );
    let StackChild::Track(t) = &new_tl.tracks.children[0] else {
        panic!()
    };
    assert!(matches!(&t.children[0], TrackChild::Clip(c) if c.name == "clip-0"));
    assert!(matches!(&t.children[1], TrackChild::Clip(c) if c.name == "clip-1"));
    assert!(matches!(&t.children[2], TrackChild::Clip(c) if c.name == "clip-2"));
}

#[test]
fn apply_move_clip_to_time_leaves_gap_and_places_at_target() {
    let tl = timeline_with_three_clips();
    let env = EdlEnvelope {
        ops: vec![EdlOp::MoveClip {
            anchor: Anchor::TranscriptSnippet {
                text: "alpha snippet".into(),
            },
            to_position: 0,
            at_s: Some(num(20.0)),
            snap: None,
        }],
    };
    let (new_tl, _) = apply(&tl, &env).unwrap();
    let StackChild::Track(t) = &new_tl.tracks.children[0] else {
        panic!()
    };
    assert!(matches!(&t.children[0], TrackChild::Gap(_)));
    assert!((child_duration(&t.children[0]) - 5.0).abs() < 0.001);
    assert!(matches!(&t.children[1], TrackChild::Clip(c) if c.name == "clip-1"));
    assert!(matches!(&t.children[2], TrackChild::Clip(c) if c.name == "clip-2"));
    assert!(matches!(&t.children[3], TrackChild::Gap(_)));
    assert!((child_duration(&t.children[3]) - 5.0).abs() < 0.001);
    assert!(matches!(&t.children[4], TrackChild::Clip(c) if c.name == "clip-0"));
}

#[test]
fn apply_move_clip_snaps_timeline_time_to_clip_edge() {
    let tl = timeline_with_three_clips();
    let env = EdlEnvelope {
        ops: vec![EdlOp::MoveClip {
            anchor: Anchor::TranscriptSnippet {
                text: "alpha snippet".into(),
            },
            to_position: 0,
            at_s: Some(num(5.04)),
            snap: Some(SnapOptions {
                enabled: true,
                tolerance_s: num(0.1),
                targets: vec![SnapTargetKind::ClipEdge],
            }),
        }],
    };

    let (new_tl, _) = apply(&tl, &env).unwrap();
    let StackChild::Track(track) = &new_tl.tracks.children[0] else {
        panic!("expected track")
    };

    assert!(matches!(&track.children[0], TrackChild::Gap(_)));
    assert!((child_duration(&track.children[0]) - 5.0).abs() < 0.001);
    assert!(matches!(&track.children[1], TrackChild::Clip(c) if c.name == "clip-0"));
}

#[test]
fn apply_ripple_move_shifts_clip_forward_via_leading_gap() {
    let tl = timeline_with_three_clips();
    let env = EdlEnvelope {
        ops: vec![EdlOp::RippleMove {
            anchor: Anchor::TranscriptSnippet {
                text: "alpha snippet".into(),
            },
            delta_s: num(3.0),
            snap: None,
        }],
    };
    let (new_tl, _) = apply(&tl, &env).unwrap();
    let StackChild::Track(t) = &new_tl.tracks.children[0] else {
        panic!()
    };
    assert!(matches!(&t.children[0], TrackChild::Gap(_)));
    assert!((child_duration(&t.children[0]) - 3.0).abs() < 0.001);
    assert!(matches!(&t.children[1], TrackChild::Clip(c) if c.name == "clip-0"));
    assert!(matches!(&t.children[2], TrackChild::Clip(c) if c.name == "clip-1"));
    assert!(matches!(&t.children[3], TrackChild::Clip(c) if c.name == "clip-2"));
}

#[test]
fn apply_ripple_move_shrinks_preceding_gap_on_negative_delta() {
    let mut tl = Timeline::empty("test");
    let mut track = Track::empty("V1", TrackKind::Video);
    track
        .children
        .push(TrackChild::Gap(Gap::of_duration(num(5.0), num(24.0))));
    for (i, name) in ["clip-0", "clip-1"].iter().enumerate() {
        let mut c = Clip::empty(name);
        c.media_reference =
            MediaReference::External(ExternalReference::new(&format!("raw/{i}.mp4")));
        c.source_range = Some(TimeRange::new(
            time(0.0, 24.0),
            time(5.0 * 24.0, 24.0),
        ));
        track.children.push(TrackChild::Clip(c));
    }
    tl.tracks.children.push(StackChild::Track(track));

    let env = EdlEnvelope {
        ops: vec![EdlOp::RippleMove {
            anchor: Anchor::ClipUuid {
                uuid: "clip-0".into(),
            },
            delta_s: num(-3.0),
            snap: None,
        }],
    };
    let (new_tl, _) = apply(&tl, &env).unwrap();
    let StackChild::Track(t) = &new_tl.tracks.children[0] else {
        panic!()
    };
    assert!(matches!(&t.children[0], TrackChild::Gap(_)));
    assert!(
        (child_duration(&t.children[0]) - 2.0).abs() < 0.001,
        "leading gap should shrink from 5 to 2; got {}",
        child_duration(&t.children[0])
    );
    assert!(matches!(&t.children[1], TrackChild::Clip(c) if c.name == "clip-0"));
    assert!(matches!(&t.children[2], TrackChild::Clip(c) if c.name == "clip-1"));
}

#[test]
fn apply_ripple_delete_closes_gap_and_shifts_downstream() {
    let tl = timeline_with_three_clips();
    let env = EdlEnvelope {
        ops: vec![EdlOp::RippleDelete {
            anchor: Anchor::TranscriptSnippet {
                text: "bravo snippet".into(),
            },
        }],
    };
    let (new_tl, _) = apply(&tl, &env).unwrap();
    let StackChild::Track(t) = &new_tl.tracks.children[0] else {
        panic!()
    };
    assert_eq!(t.children.len(), 2);
    assert!(matches!(&t.children[0], TrackChild::Clip(c) if c.name == "clip-0"));
    assert!(matches!(&t.children[1], TrackChild::Clip(c) if c.name == "clip-2"));
}

#[test]
fn apply_ripple_delete_removes_matching_split_linked_sibling() {
    let mut tl = Timeline::empty("test");
    let mut montage_meta = MontageClipMetadata::new();
    montage_meta
        .extra
        .insert("link_group_id", MetaValue::text("g0"));

    let build_clip = |name: &str| {
        let mut c = Clip::empty(name);
        c.media_reference = MediaReference::External(ExternalReference::new("raw/0.mp4"));
        c.source_range = Some(TimeRange::new(
            time(0.0, 24.0),
            time(60.0 * 24.0, 24.0),
        ));
        c.metadata = ClipMetadata {
            montage: Some(montage_meta.copied()),
            ..no_metadata()
        };
        c
    };

    let mut video = Track::empty("V1", TrackKind::Video);
    video.children.push(TrackChild::Clip(build_clip("v0")));
    let mut audio = Track::empty("A1", TrackKind::Audio);
    audio.children.push(TrackChild::Clip(build_clip("a0")));
    tl.tracks.children.push(StackChild::Track(video));
    tl.tracks.children.push(StackChild::Track(audio));

    let env = EdlEnvelope {
        ops: vec![
            EdlOp::SplitClip {
                anchor: Anchor::ClipUuid { uuid: "v0".into() },
                at_s: num(10.0),
                snap: None,
            },
            EdlOp::SplitClip {
                anchor: Anchor::ClipUuid {
                    uuid: "v0-b".into(),
                },
                at_s: num(20.0),
                snap: None,
            },
            EdlOp::RippleDelete {
                anchor: Anchor::ClipUuid {
                    uuid: "v0-b".into(),
                },
            },
        ],
    };

    let (new_tl, _) = apply(&tl, &env).unwrap();
    let StackChild::Track(v) = &new_tl.tracks.children[0] else {
        panic!()
    };
    let StackChild::Track(a) = &new_tl.tracks.children[1] else {
        panic!()
    };
    assert!(matches!(&v.children[0], TrackChild::Clip(c) if c.name == "v0"));
    assert!(matches!(&v.children[1], TrackChild::Clip(c) if c.name == "v0-b-b"));
    assert!(matches!(&a.children[0], TrackChild::Clip(c) if c.name == "a0"));
    assert!(matches!(&a.children[1], TrackChild::Clip(c) if c.name == "a0-b-b"));
    assert!(
        a.children.iter().all(|child| !matches!(
            child,
            TrackChild::Clip(c) if c.name == "a0-b"
        )),
        "ripple delete should remove the linked audio split matching source[10..20]"
    );
}

#[test]
fn apply_ripple_trim_end_shifts_downstream_right() {
    let tl = timeline_with_three_clips();
    let env = EdlEnvelope {
        ops: vec![EdlOp::RippleTrim {
            anchor: Anchor::TranscriptSnippet {
                text: "alpha snippet".into(),
            },
            edge: RippleTrimEdge::End,
            value_s: num(7.0),
        }],
    };
    let (new_tl, _) = apply(&tl, &env).unwrap();
    let StackChild::Track(t) = &new_tl.tracks.children[0] else {
        panic!()
    };
    let TrackChild::Clip(c0) = &t.children[0] else {
        panic!()
    };
    assert!((float(c0.source_range.as_ref().unwrap().duration.to_seconds()) - 7.0).abs() < 0.001);
    let total_children = t.children.len();
    assert!(total_children >= 3);
}

#[test]
fn apply_delete_gap_removes_preceding_gap_before_anchor_clip() {
    let mut tl = Timeline::empty("test");
    let mut track = Track::empty("V1", TrackKind::Video);
    track
        .children
        .push(TrackChild::Gap(Gap::of_duration(num(3.0), num(24.0))));
    for (i, name) in ["clip-0", "clip-1", "clip-2"].iter().enumerate() {
        let mut c = Clip::empty(name);
        c.media_reference =
            MediaReference::External(ExternalReference::new(&format!("raw/{i}.mp4")));
        c.source_range = Some(TimeRange::new(
            time(0.0, 24.0),
            time(5.0 * 24.0, 24.0),
        ));
        track.children.push(TrackChild::Clip(c));
    }
    tl.tracks.children.push(StackChild::Track(track));
    let env = EdlEnvelope {
        ops: vec![EdlOp::DeleteGap {
            anchor: Anchor::ClipUuid {
                uuid: "clip-0".into(),
            },
            side: GapSide::Before,
        }],
    };
    let (new_tl, _) = apply(&tl, &env).unwrap();
    let StackChild::Track(t) = &new_tl.tracks.children[0] else {
        panic!()
    };
    assert_eq!(t.children.len(), 3);
    assert!(matches!(&t.children[0], TrackChild::Clip(c) if c.name == "clip-0"));
    assert!(matches!(&t.children[1], TrackChild::Clip(c) if c.name == "clip-1"));
    assert!(matches!(&t.children[2], TrackChild::Clip(c) if c.name == "clip-2"));
}

#[test]
fn apply_delete_gap_after_is_a_no_op_when_no_trailing_gap() {
    let mut tl = Timeline::empty("test");
    let mut track = Track::empty("V1", TrackKind::Video);
    let mut c = Clip::empty("solo");
    c.media_reference = MediaReference::External(ExternalReference::new("raw/solo.mp4"));
    c.source_range = Some(TimeRange::new(
        time(0.0, 24.0),
        time(5.0 * 24.0, 24.0),
    ));
    track.children.push(TrackChild::Clip(c));
    tl.tracks.children.push(StackChild::Track(track));
    let env = EdlEnvelope {
        ops: vec![EdlOp::DeleteGap {
            anchor: Anchor::ClipUuid {
                uuid: "solo".into(),
            },
            side: GapSide::After,
        }],
    };
    let (new_tl, outcome) = apply(&tl, &env).unwrap();
    assert!(outcome.applied[0].description.contains("no trailing gap"));
    let StackChild::Track(t) = &new_tl.tracks.children[0] else {
        panic!()
    };
    assert_eq!(t.children.len(), 1);
}

#[test]
fn apply_trim_track_tail_strips_trailing_gaps() {
    let mut tl = Timeline::empty("test");
    let mut track = Track::empty("V1", TrackKind::Video);
    for (i, name) in ["clip-0", "clip-1"].iter().enumerate() {
        let mut c = Clip::empty(name);
        c.media_reference =
            MediaReference::External(ExternalReference::new(&format!("raw/{i}.mp4")));
        c.source_range = Some(TimeRange::new(
            time(0.0, 24.0),
            time(5.0 * 24.0, 24.0),
        ));
        track.children.push(TrackChild::Clip(c));
    }
    track
        .children
        .push(TrackChild::Gap(Gap::of_duration(num(10.0), num(24.0))));
    tl.tracks.children.push(StackChild::Track(track));
    let env = EdlEnvelope {
        ops: vec![EdlOp::TrimTrackTail { track: "V1".into() }],
    };
    let (new_tl, outcome) = apply(&tl, &env).unwrap();
    let StackChild::Track(t) = &new_tl.tracks.children[0] else {
        panic!()
    };
    assert_eq!(t.children.len(), 2);
    assert!(matches!(&t.children[1], TrackChild::Clip(c) if c.name == "clip-1"));
    assert!(outcome.applied[0].description.contains("10."));
}

#[test]
fn apply_delete_gap_cascades_to_link_group_siblings() {
    let mut tl = Timeline::empty("test");
    let mut montage_meta = MontageClipMetadata::new();
    montage_meta
        .extra
        .insert("link_group_id", MetaValue::text("g0"));
    let build = |name: &str, kind: TrackKind, clip_name: &str| {
        let mut t = Track::empty(name, kind);
        t.children
            .push(TrackChild::Gap(Gap::of_duration(num(3.0), num(24.0))));
        let mut c = Clip::empty(clip_name);
        c.media_reference = MediaReference::External(ExternalReference::new("raw/0.mp4"));
        c.source_range = Some(TimeRange::new(
            time(0.0, 24.0),
            time(5.0 * 24.0, 24.0),
        ));
        c.metadata = ClipMetadata {
            montage: Some(montage_meta.copied()),
            ..no_metadata()
        };
        t.children.push(TrackChild::Clip(c));
        t
    };
    tl.tracks
        .children
        .push(StackChild::Track(build("V1", TrackKind::Video, "v0")));
    tl.tracks
        .children
        .push(StackChild::Track(build("A1", TrackKind::Audio, "a0")));

    let env = EdlEnvelope {
        ops: vec![EdlOp::DeleteGap {
            anchor: Anchor::ClipUuid { uuid: "v0".into() },
            side: GapSide::Before,
        }],
    };
    let (new_tl, outcome) = apply(&tl, &env).unwrap();
    assert!(
        outcome.applied[0].description.contains("cascaded"),
        "expected cascade message; got {:?}",
        outcome.applied[0].description,
    );
    let StackChild::Track(v) = &new_tl.tracks.children[0] else {
        panic!()
    };
    let StackChild::Track(a) = &new_tl.tracks.children[1] else {
        panic!()
    };
    assert!(matches!(&v.children[0], TrackChild::Clip(c) if c.name == "v0"));
    assert!(matches!(&a.children[0], TrackChild::Clip(c) if c.name == "a0"));
}

#[test]
fn split_right_half_b_alias_resolves_within_envelope() {
    let mut tl = Timeline::empty("test");
    let mut t = Track::empty("V1", TrackKind::Video);
    let mut montage_meta = MontageClipMetadata::new();
    montage_meta
        .extra
        .insert("clip_uuid", MetaValue::text("c-111"));
    let mut c = Clip::empty("episode");
    c.media_reference = MediaReference::External(ExternalReference::new("raw/ep.mp4"));
    c.source_range = Some(TimeRange::new(
        time(0.0, 24.0),
        time(10.0 * 24.0, 24.0),
    ));
    c.metadata = ClipMetadata {
        montage: Some(montage_meta),
        ..no_metadata()
    };
    t.children.push(TrackChild::Clip(c));
    tl.tracks.children.push(StackChild::Track(t));

    let env = EdlEnvelope {
        ops: vec![
            EdlOp::SplitClip {
                anchor: Anchor::ClipUuid {
                    uuid: "c-111".into(),
                },
                at_s: num(4.0),
                snap: None,
            },
            EdlOp::SplitClip {
                anchor: Anchor::ClipUuid {
                    uuid: "c-111-b".into(),
                },
                at_s: num(6.0),
                snap: None,
            },
            EdlOp::RippleDelete {
                anchor: Anchor::ClipUuid {
                    uuid: "c-111-b".into(),
                },
            },
        ],
    };
    let (new_tl, _) = apply(&tl, &env)
        .expect("-b alias must resolve to the split's actual right half");
    let StackChild::Track(t) = &new_tl.tracks.children[0] else {
        panic!()
    };
    let clips: Vec<_> = t
        .children
        .iter()
        .filter_map(|child| match child {
            TrackChild::Clip(c) => c.source_range.as_ref().map(|r| {
                (
                    float(r.start_time.to_seconds()),
                    float(r.start_time.to_seconds()) + float(r.duration.to_seconds()),
                )
            }),
            _ => None,
        })
        .collect();
    assert_eq!(clips.len(), 2, "middle piece should be ripple-deleted");
    assert!((clips[0].0 - 0.0).abs() < 1e-6 && (clips[0].1 - 4.0).abs() < 1e-6);
    assert!((clips[1].0 - 6.0).abs() < 1e-6 && (clips[1].1 - 10.0).abs() < 1e-6);
}

#[test]
fn apply_trim_track_tail_cascades_to_link_group_siblings() {
    let mut tl = Timeline::empty("test");
    let mut montage_meta = MontageClipMetadata::new();
    montage_meta
        .extra
        .insert("link_group_id", MetaValue::text("g0"));
    let build = |name: &str, kind: TrackKind, clip_name: &str| {
        let mut t = Track::empty(name, kind);
        let mut c = Clip::empty(clip_name);
        c.media_reference = MediaReference::External(ExternalReference::new("raw/0.mp4"));
        c.source_range = Some(TimeRange::new(
            time(0.0, 24.0),
            time(5.0 * 24.0, 24.0),
        ));
        c.metadata = ClipMetadata {
            montage: Some(montage_meta.copied()),
            ..no_metadata()
        };
        t.children.push(TrackChild::Clip(c));
        t.children
            .push(TrackChild::Gap(Gap::of_duration(num(7.0), num(24.0))));
        t
    };
    tl.tracks
        .children
        .push(StackChild::Track(build("V1", TrackKind::Video, "v0")));
    tl.tracks
        .children
        .push(StackChild::Track(build("A1", TrackKind::Audio, "a0")));

    let env = EdlEnvelope {
        ops: vec![EdlOp::TrimTrackTail { track: "V1".into() }],
    };
    let (new_tl, outcome) = apply(&tl, &env).unwrap();
    assert!(
        outcome.applied[0]
            .description
            .contains("cascaded to linked tracks"),
        "expected cascade in description, got {:?}",
        outcome.applied[0].description,
    );
    let StackChild::Track(v) = &new_tl.tracks.children[0] else {
        panic!()
    };
    let StackChild::Track(a) = &new_tl.tracks.children[1] else {
        panic!()
    };
    assert_eq!(v.children.len(), 1);
    assert_eq!(a.children.len(), 1);
}

#[test]
fn apply_trim_track_tail_unknown_track_lists_available_names() {
    let tl = timeline_with_three_clips();
    let env = EdlEnvelope {
        ops: vec![EdlOp::TrimTrackTail { track: "V".into() }],
    };
    let err = apply(&tl, &env).unwrap_err();
    let message = err.text();
    assert!(
        message.contains("available tracks:"),
        "expected hint listing available tracks; got {message}"
    );
    assert!(
        message.contains("V1"),
        "expected V1 (the fixture's track name) in the hint; got {message}"
    );
}

#[test]
fn apply_trim_track_tail_no_op_when_track_already_ends_in_clip() {
    let tl = timeline_with_three_clips();
    let env = EdlEnvelope {
        ops: vec![EdlOp::TrimTrackTail { track: "V1".into() }],
    };
    let (_, outcome) = apply(&tl, &env).unwrap();
    assert!(
        outcome.applied[0]
            .description
            .contains("already ends in a clip"),
        "expected no-op description, got {:?}",
        outcome.applied[0].description,
    );
}

#[test]
fn apply_insert_track_appends_video_track_after_existing_video_tracks() {
    let tl = timeline_with_three_clips();
    let env = EdlEnvelope {
        ops: vec![EdlOp::InsertTrack {
            name: "V2".into(),
            kind: InsertTrackKind::Video,
            at_position: None,
        }],
    };
    let (new_tl, outcome) = apply(&tl, &env).unwrap();
    assert!(
        outcome.applied[0].description.contains("V2"),
        "got {:?}",
        outcome.applied[0].description,
    );
    let names: Vec<String> = new_tl
        .tracks
        .children
        .iter()
        .filter_map(|c| match c {
            StackChild::Track(t) => Some(t.name.clone()),
            _ => None,
        })
        .collect();
    assert!(names.contains(&"V2".to_string()), "names = {names:?}");
}

#[test]
fn apply_insert_track_is_idempotent_on_same_name_and_kind() {
    let tl = timeline_with_three_clips();
    let env = EdlEnvelope {
        ops: vec![EdlOp::InsertTrack {
            name: "V1".into(),
            kind: InsertTrackKind::Video,
            at_position: None,
        }],
    };
    let before = tl.tracks.children.len();
    let (new_tl, outcome) = apply(&tl, &env).unwrap();
    assert_eq!(
        new_tl.tracks.children.len(),
        before,
        "no-op should not change track count",
    );
    assert!(
        outcome.applied[0].description.contains("already exists"),
        "got {:?}",
        outcome.applied[0].description,
    );
}

#[test]
fn apply_insert_track_errors_on_name_conflict_with_different_kind() {
    let tl = timeline_with_three_clips();
    let env = EdlEnvelope {
        ops: vec![EdlOp::InsertTrack {
            name: "V1".into(),
            kind: InsertTrackKind::Audio,
            at_position: None,
        }],
    };
    let err = apply(&tl, &env).unwrap_err();
    assert!(
        err.text().contains("exists as"),
        "expected kind-conflict, got {err:?}",
    );
}

#[test]
fn apply_delete_track_removes_empty_track() {
    let mut tl = timeline_with_three_clips();
    tl.tracks
        .children
        .push(StackChild::Track(Track::empty("V2", TrackKind::Video)));
    let env = EdlEnvelope {
        ops: vec![EdlOp::DeleteTrack {
            name: "V2".into(),
            force: false,
        }],
    };
    let (new_tl, outcome) = apply(&tl, &env).unwrap();
    assert!(outcome.applied[0].description.contains("removed"));
    assert_eq!(new_tl.tracks.children.len(), 1);
    let StackChild::Track(t) = &new_tl.tracks.children[0] else {
        panic!()
    };
    assert_eq!(t.name, "V1");
}

#[test]
fn apply_delete_track_refuses_populated_track_without_force() {
    let tl = timeline_with_three_clips();
    let env = EdlEnvelope {
        ops: vec![EdlOp::DeleteTrack {
            name: "V1".into(),
            force: false,
        }],
    };
    let err = apply(&tl, &env).unwrap_err();
    assert!(
        err.text().contains("has 3 clip"),
        "expected populated-track refusal, got {err:?}",
    );
}

#[test]
fn apply_delete_track_with_force_drops_populated_track() {
    let tl = timeline_with_three_clips();
    let env = EdlEnvelope {
        ops: vec![EdlOp::DeleteTrack {
            name: "V1".into(),
            force: true,
        }],
    };
    let (new_tl, _) = apply(&tl, &env).unwrap();
    assert_eq!(new_tl.tracks.children.len(), 0);
}

#[test]
fn apply_delete_track_lists_available_names_on_miss() {
    let tl = timeline_with_three_clips();
    let env = EdlEnvelope {
        ops: vec![EdlOp::DeleteTrack {
            name: "VNope".into(),
            force: false,
        }],
    };
    let err = apply(&tl, &env).unwrap_err();
    let message = err.text();
    assert!(
        message.contains("available tracks:") && message.contains("V1"),
        "expected hint listing real names; got {message}"
    );
}

#[test]
fn apply_ripple_move_clamps_to_zero_on_excessive_negative_delta() {
    let tl = timeline_with_three_clips();
    let env = EdlEnvelope {
        ops: vec![EdlOp::RippleMove {
            anchor: Anchor::TranscriptSnippet {
                text: "alpha snippet".into(),
            },
            delta_s: num(-999.0),
            snap: None,
        }],
    };
    let (new_tl, _) = apply(&tl, &env).unwrap();
    let StackChild::Track(t) = &new_tl.tracks.children[0] else {
        panic!()
    };
    assert!(matches!(&t.children[0], TrackChild::Clip(c) if c.name == "clip-0"));
}

#[test]
fn snap_resolution_uses_marker_targets_within_tolerance() {
    let mut tl = timeline_with_three_clips();
    let StackChild::Track(track) = &mut tl.tracks.children[0] else {
        panic!("expected track")
    };
    let TrackChild::Clip(clip) = &mut track.children[1] else {
        panic!("expected clip")
    };
    clip.markers.push(marker(
        "snap here",
        TimeRange::new(
            time(1.0 * 24.0, 24.0),
            time(0.0, 24.0),
        ),
    ));

    let snapped = resolve_snap_time(
        &tl,
        0,
        num(5.96),
        &Some(SnapOptions {
            enabled: true,
            tolerance_s: num(0.1),
            targets: vec![SnapTargetKind::Marker],
        }),
    )
    .unwrap();

    assert!((float(snapped) - 6.0).abs() < 0.001);
}

#[test]
fn apply_split_clip_snaps_at_s_to_marker_within_tolerance() {
    let mut tl = timeline_with_three_clips();
    let StackChild::Track(track) = &mut tl.tracks.children[0] else {
        panic!("expected track")
    };
    let TrackChild::Clip(bravo) = &mut track.children[1] else {
        panic!("expected clip")
    };
    bravo.markers.push(marker(
        "snap here",
        TimeRange::new(
            time(2.0 * 24.0, 24.0),
            time(0.0, 24.0),
        ),
    ));

    let env = EdlEnvelope {
        ops: vec![EdlOp::SplitClip {
            anchor: Anchor::TranscriptSnippet {
                text: "bravo snippet".into(),
            },
            at_s: num(1.96),
            snap: Some(SnapOptions {
                enabled: true,
                tolerance_s: num(0.1),
                targets: vec![SnapTargetKind::Marker],
            }),
        }],
    };
    let (new_tl, _) = apply(&tl, &env).unwrap();
    let StackChild::Track(t) = &new_tl.tracks.children[0] else {
        panic!("expected track")
    };
    let TrackChild::Clip(left) = &t.children[1] else {
        panic!("expected left split clip")
    };
    let TrackChild::Clip(right) = &t.children[2] else {
        panic!("expected right split clip")
    };
    let left_dur = float(left.source_range.as_ref().unwrap().duration.to_seconds());
    let right_dur = float(right.source_range.as_ref().unwrap().duration.to_seconds());
    assert!(
        (left_dur - 2.0).abs() < 0.001,
        "left duration should snap to 2s, got {left_dur}",
    );
    assert!(
        (right_dur - 3.0).abs() < 0.001,
        "right duration should snap to 3s, got {right_dur}",
    );
}

#[test]
fn apply_insert_clip_snaps_at_s_to_clip_edge() {
    let tl = timeline_with_three_clips();
    let env = EdlEnvelope {
        ops: vec![EdlOp::InsertClip {
            request: InsertRequest {
                asset: "raw/inserted.mp4".into(),
                track: "V1".into(),
                track_kind: None,
                at_position: None,
                at_s: Some(num(4.96)),
                start: Some(num(0.0)),
                end: Some(num(2.0)),
                name: Some("snap-inserted".into()),
                link_group_id: None,
                snap: Some(SnapOptions {
                    enabled: true,
                    tolerance_s: num(0.1),
                    targets: vec![SnapTargetKind::ClipEdge],
                }),
            },
        }],
    };
    let (new_tl, _) = apply(&tl, &env).unwrap();
    let StackChild::Track(t) = &new_tl.tracks.children[0] else {
        panic!("expected track")
    };
    let TrackChild::Clip(inserted) = &t.children[1] else {
        panic!(
            "expected inserted clip at position 1, got {:?}",
            t.children[1]
        )
    };
    assert_eq!(inserted.name, "snap-inserted");
    let TrackChild::Clip(c2) = &t.children[2] else {
        panic!("expected clip-1 at position 2")
    };
    assert_eq!(c2.name, "clip-1");
}

#[test]
fn apply_multicam_plan_replaces_program_track_atomically() {
    let mut tl = timeline_with_three_clips();
    tl.tracks.children.push(StackChild::Track(Track::empty(
        "Program Video",
        TrackKind::Video,
    )));
    let env = EdlEnvelope {
        ops: vec![EdlOp::ApplyMulticamPlan {
            plan: MulticamApplyPlan {
                program_track: "Program Video".into(),
                decisions: vec![
                    MulticamDecision {
                        source_asset: "raw/cam-a.mov".into(),
                        start_s: num(0.0),
                        end_s: num(3.0),
                        source_start_s: Some(num(2.0)),
                        reason: Some("speaker A".into()),
                        speaker: Some("A".into()),
                        sync_group_id: Some("sync-1".into()),
                    },
                    MulticamDecision {
                        source_asset: "raw/cam-b.mov".into(),
                        start_s: num(3.0),
                        end_s: num(6.0),
                        reason: Some("reaction".into()),
                        speaker: None,
                        sync_group_id: Some("sync-1".into()),
                        ..no_decision()
                    },
                ],
            },
        }],
    };

    let (new_tl, outcome) = apply(&tl, &env).unwrap();
    let program_tracks: Vec<&Track> = new_tl
        .tracks
        .children
        .iter()
        .filter_map(|child| match child {
            StackChild::Track(track) if track.name == "Program Video" => Some(track),
            _ => None,
        })
        .collect();
    let program = program_tracks.first().expect("program track");
    let TrackChild::Clip(first) = &program.children[0] else {
        panic!("expected first multicam clip")
    };

    assert_eq!(program_tracks.len(), 1);
    assert_eq!(program.children.len(), 2);
    assert!(outcome.applied[0].description.contains("multicam plan"));
    assert!(matches!(
        &first.media_reference,
        MediaReference::External(reference) if reference.target_url == "raw/cam-a.mov"
    ));
    let metadata = first.metadata.montage.as_ref().expect("montage metadata");
    assert_eq!(metadata.reasoning.as_deref(), Some("speaker A"));
    assert_eq!(
        metadata
            .extra
            .get("sync_group_id")
            .and_then(Json::as_str),
        Some("sync-1")
    );
    let range = first.source_range.as_ref().expect("source_range");
    assert!((float(range.start_time.to_seconds()) - 2.0).abs() < 1e-6);
    assert!((float(range.duration.to_seconds()) - 3.0).abs() < 1e-6);
}

#[test]
fn apply_multicam_plan_rejects_invalid_decision_before_mutation() {
    let tl = timeline_with_three_clips();
    let before = format!("{tl:?}");
    let env = EdlEnvelope {
        ops: vec![EdlOp::ApplyMulticamPlan {
            plan: MulticamApplyPlan {
                program_track: "Program Video".into(),
                decisions: vec![
                    MulticamDecision {
                        source_asset: "raw/cam-a.mov".into(),
                        start_s: num(0.0),
                        end_s: num(5.0),
                        ..no_decision()
                    },
                    MulticamDecision {
                        source_asset: "raw/cam-b.mov".into(),
                        start_s: num(4.0),
                        end_s: num(6.0),
                        ..no_decision()
                    },
                ],
            },
        }],
    };

    let err = apply(&tl, &env).unwrap_err();
    let after = format!("{tl:?}");

    assert!(err.text().contains("before previous decision ends"));
    assert_eq!(before, after);
}

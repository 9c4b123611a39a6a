//! What holds of the library as a whole, on a few timelines.
use montage_edl::boundary::cut_boundary_key;
use montage_edl::dispatch::Answers;
use montage_edl::docs::{find_by_id, replace_by_id};
use montage_edl::edit::gap_child;
use montage_edl::effect::{normalize_color_pipeline_metadata, LutFiles, NormalizedEffect};
use montage_edl::engine::ApplyOutcome;
use montage_edl::envelope::{EdlEnvelope, EdlOp, ProfessionalTimelineEdit, TransitionBetween};
use montage_edl::error::{AnchorMiss, ApplyError};
use montage_edl::gap::merge_adjacent_gaps;
use montage_edl::insert::InsertRequest;
use montage_edl::lut::{normalize_lut_path, LutFile};
use montage_edl::meta::{MetaMap, MetaValue};
use montage_edl::mint::ClipIds;
use montage_edl::model::{
    Clip, ClipLocator, ClipMetadata, Document, ExternalReference, MediaReference,
    MontageClipMetadata, MontageTimelineMetadata, RationalTime, SemanticCutSpec, StackChild,
    TimeRange, Timeline, Track, TrackChild, TrackKind,
};
use montage_edl::num::Num;
use montage_edl::op::{
    Anchor, BRollPosition, BetweenPlaces, GapSide, InsertTrackKind, MarkerSelector,
    MulticamApplyPlan, MulticamDecision, PiPCorner, RippleTrimEdge, SnapOptions, SnapTargetKind,
    SourceRange, TitleAnimation, TitlePosition, TitleWeight,
};
use montage_edl::overlay::{next_video_track_name, PipRequest};
use montage_edl::snap::resolve_snap_time;
use montage_edl::title::{title_insertion_index, TextOverlay, TitleChange};
use montage_edl::transition::TransitionRequest;
use montage_edl::wellformed::validate_timeline;

fn num(x: f64) -> Num {
    if x.is_nan() {
        Num::Nan
    } else if x.is_infinite() {
        if x > 0.0 {
            Num::PosInf
        } else {
            Num::NegInf
        }
    } else {
        Num::Fin((x * 1e15).round() as i128)
    }
}

fn float(x: Num) -> f64 {
    match x {
        Num::Nan => f64::NAN,
        Num::NegInf => f64::NEG_INFINITY,
        Num::Fin(v) => v as f64 / 1e15,
        Num::PosInf => f64::INFINITY,
    }
}

fn time(value: f64, rate: f64) -> RationalTime {
    RationalTime::new(num(value / rate), num(rate))
}

fn number(x: f64) -> MetaValue {
    MetaValue::number(num(x))
}

fn pairs(entries: Vec<(&str, MetaValue)>) -> MetaMap {
    let mut m = MetaMap::new();
    for (key, value) in entries {
        m.insert(key, value);
    }
    m
}

trait Json {
    fn as_str(&self) -> Option<&str>;
    fn as_f64(&self) -> Option<f64>;
    fn as_u64(&self) -> Option<u64>;
    fn as_array(&self) -> Option<&Vec<MetaValue>>;
    fn as_object(&self) -> Option<&MetaMap>;
    fn get(&self, key: &str) -> Option<&MetaValue>;
    fn at(&self, key: &str) -> &MetaValue;
}

impl Json for MetaValue {
    fn as_str(&self) -> Option<&str> {
        match self {
            MetaValue::Text(s) => Some(s),
            _ => None,
        }
    }

    fn as_f64(&self) -> Option<f64> {
        self.as_number().map(float)
    }

    fn as_u64(&self) -> Option<u64> {
        self.as_f64().filter(|x| x.fract() == 0.0 && *x >= 0.0).map(|x| x as u64)
    }

    fn as_array(&self) -> Option<&Vec<MetaValue>> {
        match self {
            MetaValue::List(v) => Some(v),
            _ => None,
        }
    }

    fn as_object(&self) -> Option<&MetaMap> {
        match self {
            MetaValue::Object(m) => Some(m),
            _ => None,
        }
    }

    fn get(&self, key: &str) -> Option<&MetaValue> {
        self.as_object().and_then(|m| m.get(key))
    }

    fn at(&self, key: &str) -> &MetaValue {
        self.get(key).expect("a value")
    }
}

fn no_metadata() -> ClipMetadata {
    ClipMetadata { montage: None, extra: MetaMap::new() }
}

fn any_marker() -> MarkerSelector {
    MarkerSelector { marker_id: None, anchor: None, label: None, at_s: None }
}

fn no_decision() -> MulticamDecision {
    MulticamDecision {
        source_asset: String::new(),
        start_s: num(0.0),
        end_s: num(0.0),
        source_start_s: None,
        reason: None,
        speaker: None,
        sync_group_id: None,
    }
}

fn cut<'a>(meta: &'a MontageTimelineMetadata, key: &str) -> Option<&'a SemanticCutSpec> {
    meta.cut_boundaries.iter().find(|b| b.key == key).map(|b| &b.spec)
}

fn timeline_with_three_clips() -> Timeline {
    let mut tl = Timeline::empty("test");
    let mut track = Track::empty("V1", TrackKind::Video);
    for (i, snip) in ["alpha snippet", "bravo snippet", "charlie snippet"].iter().enumerate() {
        let mut c = Clip::empty(&format!("clip-{i}"));
        c.media_reference =
            MediaReference::External(ExternalReference::new(&format!("raw/{i}.mp4")));
        c.source_range = Some(TimeRange::new(time(0.0, 24.0), time(5.0 * 24.0, 24.0)));
        c.metadata = ClipMetadata {
            montage: Some(MontageClipMetadata {
                transcript_snippet: Some((*snip).to_string()),
                ..MontageClipMetadata::new()
            }),
            ..no_metadata()
        };
        track.children.push(TrackChild::Clip(c));
    }
    tl.tracks.children.push(StackChild::Track(track));
    tl
}

fn add_one_second_handles(tl: &mut Timeline) {
    let StackChild::Track(track) = &mut tl.tracks.children[0] else {
        panic!("expected track")
    };
    for child in &mut track.children {
        let TrackChild::Clip(clip) = child else {
            continue;
        };
        clip.media_reference =
            MediaReference::External(external_ref_with_available("raw/handled.mp4", 7.0));
        clip.source_range = Some(TimeRange::new(time(1.0 * 24.0, 24.0), time(5.0 * 24.0, 24.0)));
    }
}

fn external_ref_with_available(asset: &str, duration_s: f64) -> ExternalReference {
    let mut ext = ExternalReference::new(asset);
    ext.available_range = Some(TimeRange::new(time(0.0, 24.0), time(duration_s * 24.0, 24.0)));
    ext
}

fn extract_clip_uuid(clip: &Clip) -> Option<String> {
    clip.metadata
        .montage
        .as_ref()
        .and_then(|m| m.extra.get("clip_uuid"))
        .and_then(|v| v.as_text())
}

fn child_duration(child: &TrackChild) -> f64 {
    float(montage_edl::edit::child_duration(child))
}

/// Where an anchor leads: to the clip with the unique id or the name, or to the
/// clip whose transcript holds the text.
fn place(timeline: &Timeline, anchor: &Anchor) -> Result<ClipLocator, AnchorMiss> {
    for (track_index, layer) in timeline.tracks.children.iter().enumerate() {
        let StackChild::Track(track) = layer else {
            continue;
        };
        for (child_index, child) in track.children.iter().enumerate() {
            let TrackChild::Clip(clip) = child else {
                continue;
            };
            let montage = clip.metadata.montage.as_ref();
            let here = match anchor {
                Anchor::ClipUuid { uuid } => {
                    clip.name == *uuid
                        || montage.and_then(|m| m.extra.get_text("clip_uuid")).as_ref()
                            == Some(uuid)
                }
                Anchor::TranscriptSnippet { text } => montage
                    .and_then(|m| m.transcript_snippet.as_ref())
                    .is_some_and(|s| s.contains(text.as_str())),
            };
            if here {
                return Ok(ClipLocator { track_index, child_index });
            }
        }
    }
    Err(AnchorMiss { text: format!("no clip at {anchor:?}") })
}

fn answers(timeline: &Timeline, op: &EdlOp, anchor: &Option<Anchor>) -> Answers {
    let mut a = Answers::plain(MetaValue::Null);
    if let Some(x) = anchor {
        a.place = place(timeline, x);
    }
    let between = match op {
        EdlOp::InsertTransition { between, .. }
        | EdlOp::DeleteTransition { between }
        | EdlOp::SetCutIntent { between, .. }
        | EdlOp::ProfessionalTimelineEdit {
            edit: ProfessionalTimelineEdit::RollEdit { between, .. },
            ..
        } => Some(between),
        _ => None,
    };
    if let Some(b) = between {
        a.between =
            BetweenPlaces { from: place(timeline, &b.from), to: place(timeline, &b.to) };
    }
    if let EdlOp::ProfessionalTimelineEdit { edit, .. } = op {
        if let ProfessionalTimelineEdit::UpdateMarker { selector, .. }
        | ProfessionalTimelineEdit::DeleteMarker { selector } = edit
        {
            a.marker = selector.anchor.as_ref().map(|x| place(timeline, x));
        }
    }
    a
}

fn apply_asking<F: Fn(&EdlOp, &mut Answers)>(
    tl: &Timeline,
    env: &EdlEnvelope,
    adjust: F,
) -> Result<(Timeline, ApplyOutcome), ApplyError> {
    montage_edl::engine::apply(
        tl,
        env,
        |working: &Timeline, op: &EdlOp, anchor: &Option<Anchor>| {
            let mut a = answers(working, op, anchor);
            adjust(op, &mut a);
            a
        },
        &mut ClipIds::new(0),
    )
}

fn apply(tl: &Timeline, env: &EdlEnvelope) -> Result<(Timeline, ApplyOutcome), ApplyError> {
    apply_asking(tl, env, |_: &EdlOp, _: &mut Answers| {})
}

fn clip_on(name: &str) -> Anchor {
    Anchor::ClipUuid { uuid: name.to_string() }
}

fn video(tl: &Timeline) -> &Track {
    let StackChild::Track(t) = &tl.tracks.children[0] else {
        panic!("expected track")
    };
    t
}

/// When the clips of a track begin, by name.
fn starts(track: &Track) -> Vec<(String, f64)> {
    let mut out = Vec::new();
    let mut at = 0.0;
    for child in &track.children {
        if let TrackChild::Clip(c) = child {
            out.push((c.name.clone(), at));
        }
        at += child_duration(child);
    }
    out
}

fn named(entries: &[(&str, f64)]) -> Vec<(String, f64)> {
    entries.iter().map(|(n, t)| (n.to_string(), *t)).collect()
}

fn one(op: EdlOp) -> EdlEnvelope {
    EdlEnvelope { ops: vec![op] }
}

fn cut_at(from: &str, to: &str) -> TransitionBetween {
    TransitionBetween { from: clip_on(from), to: clip_on(to) }
}

fn cutting(edit: ProfessionalTimelineEdit) -> EdlOp {
    EdlOp::ProfessionalTimelineEdit { edit, document: MetaValue::Null }
}

fn gap_seconds(child: &TrackChild) -> Option<f64> {
    match child {
        TrackChild::Gap(_) => Some(child_duration(child)),
        _ => None,
    }
}

/// A dissolve, as the registry knows it.
fn dissolve(_: &EdlOp, a: &mut Answers) {
    a.transition.xfade = Ok(Some("fade".to_string()));
}

fn title(start_s: f64, text: &str) -> EdlOp {
    EdlOp::InsertTitle {
        title: TextOverlay {
            start_s: num(start_s),
            end_s: num(start_s + 1.0),
            text: text.to_string(),
            position: TitlePosition::Center,
            font_size: 64,
            color: "#FFFFFF".to_string(),
            font_weight: TitleWeight::Normal,
            animation: TitleAnimation::Still,
            phases: None,
        },
        font_family: None,
        font_path: None,
    }
}

#[test]
fn what_is_put_under_a_key_is_found_there() {
    let mut m = MetaMap::new();
    m.insert("a", number(1.0));
    m.insert("b", number(2.0));
    m.insert("a", number(3.0));
    assert_eq!(m.get("a").and_then(|v| v.as_f64()), Some(3.0));
    assert_eq!(m.get("b").and_then(|v| v.as_f64()), Some(2.0));
    assert_eq!(m.entries.len(), 2);
    m.remove("a");
    assert!(m.get("a").is_none());
    assert_eq!(m.get("b").and_then(|v| v.as_f64()), Some(2.0));
}

#[test]
fn the_last_document_with_an_id_stays() {
    let doc = |id: &str, v: f64| Document { id: id.to_string(), body: number(v) };
    let mut shelf = vec![doc("x", 1.0), doc("y", 2.0)];
    replace_by_id(&mut shelf, doc("x", 3.0));
    replace_by_id(&mut shelf, doc("z", 4.0));
    replace_by_id(&mut shelf, doc("x", 5.0));
    let kept: Vec<(String, Option<f64>)> =
        shelf.iter().map(|d| (d.id.clone(), d.body.as_f64())).collect();
    assert_eq!(kept.len(), 3);
    assert!(kept.contains(&("x".to_string(), Some(5.0))));
    assert!(kept.contains(&("y".to_string(), Some(2.0))));
    assert!(kept.contains(&("z".to_string(), Some(4.0))));
    assert_eq!(find_by_id(&shelf, "w"), None);
}

#[test]
fn titles_are_kept_in_order_on_one_track() {
    let tl = timeline_with_three_clips();
    let env = EdlEnvelope { ops: vec![title(5.0, "second"), title(8.0, "third"), title(1.0, "first")] };
    let (new_tl, _) = apply(&tl, &env).unwrap();
    assert_eq!(new_tl.tracks.children.len(), 2);
    let StackChild::Track(titles) = &new_tl.tracks.children[1] else {
        panic!("expected titles track")
    };
    let texts: Vec<Option<String>> = titles
        .children
        .iter()
        .map(|c| match c {
            TrackChild::Clip(c) => c.effects[0].metadata.get_text("text"),
            _ => None,
        })
        .collect();
    let expected = ["first", "second", "third"].map(|s| Some(s.to_string()));
    assert_eq!(texts, expected);
}

#[test]
fn every_op_is_on_record_with_what_it_touched() {
    let tl = timeline_with_three_clips();
    let env = EdlEnvelope {
        ops: vec![
            EdlOp::TrimClip { anchor: clip_on("clip-1"), start: None, end: Some(num(3.0)) },
            EdlOp::SplitClip { anchor: clip_on("clip-0"), at_s: num(2.0), snap: None },
        ],
    };
    let (new_tl, outcome) = apply_asking(&tl, &env, |op: &EdlOp, a: &mut Answers| {
        if let EdlOp::TrimClip { .. } = op {
            a.document = MetaValue::Object(pairs(vec![
                ("op", MetaValue::text("trim_clip")),
                ("anchor", MetaValue::text("left out")),
                ("end", number(3.0)),
            ]));
        }
    })
    .unwrap();
    let records = &outcome.applied;
    assert_eq!(records.iter().map(|r| r.index).collect::<Vec<_>>(), [0, 1]);
    assert_eq!(records[0].metadata.kind, "trim_clip");
    assert_eq!(records[0].metadata.affected_clip_ids, ["clip-1"]);
    assert_eq!(records[0].metadata.affected_track_ids, ["V1"]);
    assert_eq!(records[0].metadata.parameters.get("end").and_then(|v| v.as_f64()), Some(3.0));
    assert!(records[0].metadata.parameters.get("anchor").is_none());
    assert_eq!(records[1].metadata.kind, "unknown");
    let TrackChild::Clip(right) = &video(&new_tl).children[1] else {
        panic!("expected the right part")
    };
    assert_eq!(records[1].metadata.affected_clip_ids[0], "clip-0");
    assert_eq!(
        Some(&records[1].metadata.affected_clip_ids[1]),
        extract_clip_uuid(right).as_ref()
    );
}

#[test]
fn an_empty_envelope_changes_nothing() {
    let tl = timeline_with_three_clips();
    let (new_tl, outcome) = apply(&tl, &EdlEnvelope { ops: Vec::new() }).unwrap();
    assert_eq!(format!("{tl:?}"), format!("{new_tl:?}"));
    assert!(outcome.applied.is_empty());
}

#[test]
fn the_first_refusal_decides_and_names_its_op() {
    let tl = timeline_with_three_clips();
    let env = EdlEnvelope {
        ops: vec![
            EdlOp::SetVolume { anchor: clip_on("clip-1"), value: num(0.5) },
            EdlOp::SetVolume { anchor: clip_on("clip-1"), value: num(-1.0) },
            EdlOp::DeleteClip { anchor: clip_on("nowhere") },
        ],
    };
    let err = apply(&tl, &env).unwrap_err();
    assert!(matches!(err, ApplyError::Invalid { index: 1, .. }), "got {err:?}");
}

#[test]
fn what_is_said_of_a_cut_goes_with_the_cut() {
    let tl = timeline_with_three_clips();
    let spec = SemanticCutSpec {
        cut_type: "HardCut".into(),
        intent: "beat".into(),
        energy: None,
        audio_relation: "Sync".into(),
        confidence: None,
        reason: Some("the beat lands here".into()),
        extra: MetaMap::new(),
    };
    let set = one(EdlOp::SetCutIntent { between: cut_at("clip-0", "clip-1"), spec });
    let (with_cut, _) = apply(&tl, &set).unwrap();
    let key = cut_boundary_key("clip-0", "clip-1");
    assert!(cut(with_cut.metadata.montage.as_ref().unwrap(), &key).is_some());
    let volume = one(EdlOp::SetVolume { anchor: clip_on("clip-2"), value: num(0.5) });
    let (still, _) = apply(&with_cut, &volume).unwrap();
    assert!(cut(still.metadata.montage.as_ref().unwrap(), &key).is_some());
    let away = one(EdlOp::RippleDelete { anchor: clip_on("clip-1") });
    let (gone, _) = apply(&with_cut, &away).unwrap();
    assert!(gone.metadata.montage.as_ref().unwrap().cut_boundaries.is_empty());
}

#[test]
fn a_deleted_clip_leaves_one_stretch_of_empty_time() {
    let tl = timeline_with_three_clips();
    let env = EdlEnvelope {
        ops: vec![
            EdlOp::DeleteClip { anchor: clip_on("clip-0") },
            EdlOp::DeleteClip { anchor: clip_on("clip-1") },
        ],
    };
    let (new_tl, _) = apply(&tl, &env).unwrap();
    let track = video(&new_tl);
    assert_eq!(track.children.len(), 2);
    assert_eq!(gap_seconds(&track.children[0]), Some(10.0));
    assert_eq!(starts(track), named(&[("clip-2", 10.0)]));
}

#[test]
fn a_ripple_delete_closes_up() {
    let tl = timeline_with_three_clips();
    let env = one(EdlOp::RippleDelete { anchor: clip_on("clip-1") });
    let (new_tl, _) = apply(&tl, &env).unwrap();
    assert_eq!(starts(video(&new_tl)), named(&[("clip-0", 0.0), ("clip-2", 5.0)]));
}

#[test]
fn a_ripple_trim_moves_what_follows_by_the_change() {
    let tl = timeline_with_three_clips();
    let longer = one(EdlOp::RippleTrim {
        anchor: clip_on("clip-0"),
        edge: RippleTrimEdge::End,
        value_s: num(7.0),
    });
    let (new_tl, outcome) = apply(&tl, &longer).unwrap();
    assert_eq!(
        starts(video(&new_tl)),
        named(&[("clip-0", 0.0), ("clip-1", 7.0), ("clip-2", 12.0)])
    );
    assert!(outcome.applied[0].description.contains("downstream shifted +2.000s"));
    let shorter = one(EdlOp::RippleTrim {
        anchor: clip_on("clip-1"),
        edge: RippleTrimEdge::Start,
        value_s: num(1.5),
    });
    let (new_tl, _) = apply(&tl, &shorter).unwrap();
    assert_eq!(
        starts(video(&new_tl)),
        named(&[("clip-0", 0.0), ("clip-1", 5.0), ("clip-2", 8.5)])
    );
}

#[test]
fn slips_slides_and_rolls_move_only_what_they_should() {
    let mut tl = timeline_with_three_clips();
    add_one_second_handles(&mut tl);
    let slip = one(cutting(ProfessionalTimelineEdit::SlipClip {
        anchor: clip_on("clip-1"),
        delta_s: num(1.0),
    }));
    let (slipped, _) = apply(&tl, &slip).unwrap();
    assert_eq!(starts(video(&slipped)), starts(video(&tl)));
    let slide = one(cutting(ProfessionalTimelineEdit::SlideClip {
        anchor: clip_on("clip-1"),
        delta_s: num(0.5),
    }));
    let (slid, _) = apply(&tl, &slide).unwrap();
    assert_eq!(
        starts(video(&slid)),
        named(&[("clip-0", 0.0), ("clip-1", 5.5), ("clip-2", 10.5)])
    );
    let roll = one(cutting(ProfessionalTimelineEdit::RollEdit {
        between: cut_at("clip-0", "clip-1"),
        delta_s: num(-0.5),
    }));
    let (rolled, _) = apply(&tl, &roll).unwrap();
    assert_eq!(
        starts(video(&rolled)),
        named(&[("clip-0", 0.0), ("clip-1", 4.5), ("clip-2", 10.0)])
    );
}

#[test]
fn a_split_moves_nothing() {
    let tl = timeline_with_three_clips();
    let env = one(EdlOp::SplitClip { anchor: clip_on("clip-1"), at_s: num(1.25), snap: None });
    let (new_tl, _) = apply(&tl, &env).unwrap();
    assert_eq!(
        starts(video(&new_tl)),
        named(&[("clip-0", 0.0), ("clip-1", 5.0), ("clip-1-b", 6.25), ("clip-2", 10.0)])
    );
}

#[test]
fn an_untrim_takes_a_trim_back() {
    let tl = timeline_with_three_clips();
    let trim =
        one(EdlOp::TrimClip { anchor: clip_on("clip-1"), start: Some(num(1.0)), end: Some(num(4.0)) });
    let (trimmed, _) = apply(&tl, &trim).unwrap();
    assert_ne!(format!("{tl:?}"), format!("{trimmed:?}"));
    let back =
        one(EdlOp::UntrimClip { anchor: clip_on("clip-1"), start: Some(num(0.0)), end: Some(num(5.0)) });
    let (restored, _) = apply(&trimmed, &back).unwrap();
    assert_eq!(format!("{tl:?}"), format!("{restored:?}"));
}

#[test]
fn a_transition_that_is_deleted_leaves_no_trace() {
    let mut tl = timeline_with_three_clips();
    add_one_second_handles(&mut tl);
    let put = one(EdlOp::InsertTransition {
        between: cut_at("clip-0", "clip-1"),
        request: TransitionRequest {
            kind: "SMPTE_Dissolve".into(),
            duration_s: num(1.0),
            alignment: None,
            in_offset_s: None,
            out_offset_s: None,
            spec: None,
        },
    });
    let (with_transition, _) = apply_asking(&tl, &put, dissolve).unwrap();
    assert_eq!(video(&with_transition).children.len(), 4);
    let take = one(EdlOp::DeleteTransition { between: cut_at("clip-0", "clip-1") });
    let (restored, _) = apply(&with_transition, &take).unwrap();
    assert_eq!(format!("{tl:?}"), format!("{restored:?}"));
}

#[test]
fn a_track_that_is_there_is_not_made_again() {
    let tl = timeline_with_three_clips();
    let make = |at: Option<usize>| {
        one(EdlOp::InsertTrack {
            name: " Music ".into(),
            kind: InsertTrackKind::Audio,
            at_position: at,
        })
    };
    let (once, _) = apply(&tl, &make(None)).unwrap();
    let (twice, _) = apply(&once, &make(Some(0))).unwrap();
    assert_eq!(once.tracks.children.len(), 2);
    assert_eq!(format!("{once:?}"), format!("{twice:?}"));
}

#[test]
fn unmuting_takes_muting_back() {
    let tl = timeline_with_three_clips();
    let env = EdlEnvelope {
        ops: vec![
            EdlOp::MuteClip { anchor: clip_on("clip-1"), muted: true },
            EdlOp::MuteClip { anchor: clip_on("clip-1"), muted: false },
        ],
    };
    let (restored, _) = apply(&tl, &env).unwrap();
    assert_eq!(format!("{:?}", video(&tl)), format!("{:?}", video(&restored)));
}

#[test]
fn a_marker_that_is_deleted_leaves_no_trace() {
    let tl = timeline_with_three_clips();
    let add = cutting(ProfessionalTimelineEdit::AddMarker {
        at_s: num(6.0),
        label: "beat".into(),
        category: None,
    });
    let (marked, _) = apply(&tl, &one(add)).unwrap();
    let delete = cutting(ProfessionalTimelineEdit::DeleteMarker {
        selector: MarkerSelector { label: Some("beat".into()), ..any_marker() },
    });
    let (restored, _) = apply(&marked, &one(delete)).unwrap();
    assert_eq!(format!("{:?}", video(&tl)), format!("{:?}", video(&restored)));
}

#[test]
fn lifting_keeps_time_and_extracting_closes_up() {
    let tl = timeline_with_three_clips();
    let range = SourceRange { start_s: num(4.0), end_s: num(10.0) };
    let lift = one(cutting(ProfessionalTimelineEdit::LiftRange { range, tracks: Vec::new() }));
    let (lifted, _) = apply(&tl, &lift).unwrap();
    assert_eq!(starts(video(&lifted)), named(&[("clip-0", 0.0), ("clip-2", 10.0)]));
    assert_eq!(gap_seconds(&video(&lifted).children[1]), Some(6.0));
    let extract = one(cutting(ProfessionalTimelineEdit::ExtractRange { range, tracks: Vec::new() }));
    let (extracted, _) = apply(&tl, &extract).unwrap();
    assert_eq!(starts(video(&extracted)), named(&[("clip-0", 0.0), ("clip-2", 4.0)]));
}

#[test]
fn an_overwrite_begins_on_time_and_moves_nothing() {
    let tl = timeline_with_three_clips();
    let overwrite = one(cutting(ProfessionalTimelineEdit::Overwrite {
        track: "V1".into(),
        range: SourceRange { start_s: num(5.0), end_s: num(10.0) },
        asset: "raw/over.mov".into(),
    }));
    let (over, _) = apply(&tl, &overwrite).unwrap();
    assert_eq!(
        starts(video(&over)),
        named(&[("clip-0", 0.0), ("overwrite-3", 5.0), ("clip-2", 10.0)])
    );
}

#[test]
fn an_overwrite_leaves_the_outer_parts_of_what_it_cuts() {
    let tl = timeline_with_three_clips();
    let over = |start_s: f64, end_s: f64| {
        let op = one(cutting(ProfessionalTimelineEdit::Overwrite {
            track: "V1".into(),
            range: SourceRange { start_s: num(start_s), end_s: num(end_s) },
            asset: "raw/over.mov".into(),
        }));
        starts(video(&apply(&tl, &op).unwrap().0))
    };
    assert_eq!(
        over(3.0, 7.0),
        named(&[("clip-0", 0.0), ("overwrite-3", 3.0), ("clip-1", 7.0), ("clip-2", 10.0)])
    );
    assert_eq!(
        over(6.0, 8.0),
        named(&[
            ("clip-0", 0.0),
            ("clip-1", 5.0),
            ("overwrite-3", 6.0),
            ("clip-1-lift-tail", 8.0),
            ("clip-2", 10.0),
        ])
    );
    assert_eq!(
        over(12.0, 20.0),
        named(&[("clip-0", 0.0), ("clip-1", 5.0), ("clip-2", 10.0), ("overwrite-3", 12.0)])
    );
    let off = over(4.9999995, 9.9999995);
    let due = named(&[("clip-0", 0.0), ("overwrite-3", 5.0), ("clip-2", 10.0)]);
    assert_eq!(off.len(), due.len());
    for (found, at) in off.iter().zip(due.iter()) {
        assert_eq!(found.0, at.0);
        assert!((found.1 - at.1).abs() < 0.01, "{} begins at {}", found.0, found.1);
    }
}

#[test]
fn a_ripple_move_takes_what_follows_along() {
    let tl = timeline_with_three_clips();
    let later =
        one(EdlOp::RippleMove { anchor: clip_on("clip-1"), delta_s: num(2.0), snap: None });
    let (moved, _) = apply(&tl, &later).unwrap();
    assert_eq!(
        starts(video(&moved)),
        named(&[("clip-0", 0.0), ("clip-1", 7.0), ("clip-2", 12.0)])
    );
    let earlier =
        one(EdlOp::RippleMove { anchor: clip_on("clip-1"), delta_s: num(-0.5), snap: None });
    let (back, _) = apply(&moved, &earlier).unwrap();
    assert_eq!(
        starts(video(&back)),
        named(&[("clip-0", 0.0), ("clip-1", 6.5), ("clip-2", 11.5)])
    );
    let close = one(EdlOp::DeleteGap { anchor: clip_on("clip-1"), side: GapSide::Before });
    let (closed, _) = apply(&back, &close).unwrap();
    assert_eq!(starts(video(&closed)), starts(video(&tl)));
}

#[test]
fn a_clip_moved_behind_the_end_begins_on_time() {
    let tl = timeline_with_three_clips();
    let env = one(EdlOp::MoveClip {
        anchor: clip_on("clip-1"),
        to_position: 0,
        at_s: Some(num(17.5)),
        snap: None,
    });
    let (moved, _) = apply(&tl, &env).unwrap();
    assert_eq!(
        starts(video(&moved)),
        named(&[("clip-0", 0.0), ("clip-2", 10.0), ("clip-1", 17.5)])
    );
}

#[test]
fn a_program_runs_on_time() {
    let decision = |asset: &str, start_s: f64, end_s: f64| MulticamDecision {
        source_asset: asset.to_string(),
        start_s: num(start_s),
        end_s: num(end_s),
        ..no_decision()
    };
    let env = one(EdlOp::ApplyMulticamPlan {
        plan: MulticamApplyPlan {
            program_track: "Program".into(),
            decisions: vec![
                decision("raw/a.mov", 1.0, 3.0),
                decision("raw/b.mov", 3.0, 4.0),
                decision("raw/a.mov", 6.0, 8.0),
            ],
        },
    });
    let (new_tl, _) = apply(&Timeline::empty("test"), &env).unwrap();
    assert_eq!(
        starts(video(&new_tl)),
        named(&[("multicam-0", 1.0), ("multicam-1", 3.0), ("multicam-2", 6.0)])
    );
}

#[test]
fn a_time_snaps_to_the_nearest_target_in_reach() {
    let tl = timeline_with_three_clips();
    let snap = |tolerance_s: f64| {
        Some(SnapOptions {
            enabled: true,
            tolerance_s: num(tolerance_s),
            targets: vec![SnapTargetKind::ClipEdge],
        })
    };
    assert_eq!(resolve_snap_time(&tl, 0, num(9.0), &snap(6.0)).unwrap(), num(10.0));
    assert_eq!(resolve_snap_time(&tl, 0, num(9.0), &snap(0.5)).unwrap(), num(9.0));
    assert_eq!(resolve_snap_time(&tl, 0, num(9.0), &None).unwrap(), num(9.0));
}

#[test]
fn fresh_ids_differ() {
    let mut ids = ClipIds::new(4094);
    let drawn: Vec<String> = (0..5).map(|_| ids.draw()).collect();
    for (i, a) in drawn.iter().enumerate() {
        assert!(a.starts_with("c-"));
        assert!(a[2..].chars().all(|c| c.is_ascii_hexdigit()));
        assert!(a.len() >= 18);
        for b in &drawn[i + 1..] {
            assert_ne!(a, b);
        }
    }
}

#[test]
fn as_many_ids_in_a_row_as_there_are_numbers_differ() {
    let mut ids = ClipIds::new(1000);
    let mut drawn: Vec<String> = (0..4096).map(|_| ids.draw()).collect();
    drawn.sort();
    drawn.dedup();
    assert_eq!(drawn.len(), 4096);
}

#[test]
fn ids_drawn_for_one_envelope_differ() {
    let tl = timeline_with_three_clips();
    let split = |name: &str| EdlOp::SplitClip {
        anchor: clip_on(name),
        at_s: num(2.0),
        snap: None,
    };
    let env = EdlEnvelope { ops: vec![split("clip-0"), split("clip-1"), split("clip-2")] };
    let (new_tl, _) = apply(&tl, &env).unwrap();
    let mut drawn: Vec<String> = video(&new_tl)
        .children
        .iter()
        .filter_map(|child| match child {
            TrackChild::Clip(c) if c.name.ends_with("-b") => {
                c.metadata.montage.as_ref().and_then(|m| m.extra.get_text("clip_uuid"))
            }
            _ => None,
        })
        .collect();
    assert_eq!(drawn.len(), 3);
    drawn.sort();
    drawn.dedup();
    assert_eq!(drawn.len(), 3);
}

#[test]
fn the_path_of_a_table_stays_below_the_project() {
    assert_eq!(normalize_lut_path(0, " luts/a.cube ").unwrap(), "luts/a.cube");
    for path in ["", "/luts/a.cube", "luts/../../a.cube", "luts/a.txt", "luts/a"] {
        assert!(normalize_lut_path(0, path).is_err(), "{path:?} was accepted");
    }
}

#[test]
fn flattening_takes_wrapping_back() {
    let tl = timeline_with_three_clips();
    let env = EdlEnvelope {
        ops: vec![
            cutting(ProfessionalTimelineEdit::WrapAsNested {
                track: "V1".into(),
                start_index: 1,
                end_index: 3,
                name: None,
            }),
            cutting(ProfessionalTimelineEdit::FlattenNested { track: "V1".into(), child_index: 1 }),
        ],
    };
    let (restored, _) = apply(&tl, &env).unwrap();
    assert_eq!(format!("{:?}", video(&tl)), format!("{:?}", video(&restored)));
}

#[test]
fn a_clip_edit_changes_one_clip() {
    let tl = timeline_with_three_clips();
    let env = one(EdlOp::SetSpeed { anchor: clip_on("clip-1"), factor: num(2.0) });
    let (new_tl, _) = apply(&tl, &env).unwrap();
    for i in [0, 2] {
        assert_eq!(
            format!("{:?}", video(&tl).children[i]),
            format!("{:?}", video(&new_tl).children[i])
        );
    }
    assert_ne!(
        format!("{:?}", video(&tl).children[1]),
        format!("{:?}", video(&new_tl).children[1])
    );
}

fn track_of(tl: &Timeline, i: usize) -> &Track {
    let StackChild::Track(t) = &tl.tracks.children[i] else {
        panic!("expected track")
    };
    t
}

fn broll(position: BRollPosition, anchor: &str, duration_s: f64) -> EdlOp {
    EdlOp::InsertBRoll {
        anchor: clip_on(anchor),
        asset: "raw/broll.mp4".into(),
        duration_s: num(duration_s),
        position,
    }
}

#[test]
fn broll_over_a_clip_leaves_it_alone_and_begins_with_it() {
    let tl = timeline_with_three_clips();
    let env = EdlEnvelope {
        ops: vec![
            broll(BRollPosition::Overlay, "clip-2", 1.0),
            broll(BRollPosition::Overlay, "clip-1", 2.0),
            broll(BRollPosition::Overlay, "clip-1", 3.0),
        ],
    };
    let (new_tl, _) = apply(&tl, &env).unwrap();
    assert_eq!(format!("{:?}", video(&tl)), format!("{:?}", video(&new_tl)));
    assert_eq!(new_tl.tracks.children.len(), 3);
    assert_eq!(track_of(&new_tl, 1).name, "V2");
    assert_eq!(
        starts(track_of(&new_tl, 1)),
        named(&[("broll-from-clip-1", 5.0), ("broll-from-clip-2", 10.0)])
    );
    assert_eq!(track_of(&new_tl, 2).name, "V3");
    assert_eq!(starts(track_of(&new_tl, 2)), named(&[("broll-from-clip-1", 5.0)]));
}

#[test]
fn broll_in_place_of_a_clip_moves_nothing() {
    let tl = timeline_with_three_clips();
    let (part, _) = apply(&tl, &one(broll(BRollPosition::Replace, "clip-1", 2.0))).unwrap();
    assert_eq!(
        starts(video(&part)),
        named(&[
            ("clip-0", 0.0),
            ("broll-from-clip-1", 5.0),
            ("clip-1-tail", 7.0),
            ("clip-2", 10.0)
        ])
    );
    let (whole, _) = apply(&tl, &one(broll(BRollPosition::Replace, "clip-1", 5.0))).unwrap();
    assert_eq!(
        starts(video(&whole)),
        named(&[("clip-0", 0.0), ("broll-from-clip-1", 5.0), ("clip-2", 10.0)])
    );
}

#[test]
fn a_picture_in_a_picture_begins_with_its_clip_or_behind_the_last_one() {
    let tl = timeline_with_three_clips();
    let pip = |anchor: &str| EdlOp::InsertPiP {
        anchor: clip_on(anchor),
        request: PipRequest {
            asset: "raw/pip.mp4".into(),
            duration_s: num(7.0),
            source_start_s: num(0.0),
            corner: PiPCorner::TopLeft,
            scale: num(0.3),
            margin_pct: num(0.05),
        },
    };
    let env = EdlEnvelope { ops: vec![pip("clip-1"), pip("clip-2")] };
    let (new_tl, _) = apply(&tl, &env).unwrap();
    assert_eq!(format!("{:?}", video(&tl)), format!("{:?}", video(&new_tl)));
    assert_eq!(new_tl.tracks.children.len(), 2);
    assert_eq!(
        starts(track_of(&new_tl, 1)),
        named(&[("pip-from-clip-1", 5.0), ("pip-from-clip-2", 12.0)])
    );
}

#[test]
fn the_name_of_a_new_video_track_is_free() {
    let mut tl = timeline_with_three_clips();
    assert_eq!(next_video_track_name(&tl), "V2");
    for name in ["V+7", "V12x", "V03"] {
        tl.tracks.children.push(StackChild::Track(Track::empty(name, TrackKind::Video)));
    }
    assert_eq!(next_video_track_name(&tl), "V8");
}

#[test]
fn a_track_that_is_deleted_leaves_no_trace() {
    let tl = timeline_with_three_clips();
    let env = EdlEnvelope {
        ops: vec![
            EdlOp::InsertTrack {
                name: "B-cam".into(),
                kind: InsertTrackKind::Video,
                at_position: Some(0),
            },
            EdlOp::DeleteTrack { name: " B-cam ".into(), force: false },
        ],
    };
    let (restored, _) = apply(&tl, &env).unwrap();
    assert_eq!(format!("{tl:?}"), format!("{restored:?}"));
}

#[test]
fn a_tail_is_trimmed_once() {
    let tl = timeline_with_three_clips();
    let trim = || EdlOp::TrimTrackTail { track: "V1".into() };
    let env = EdlEnvelope {
        ops: vec![
            EdlOp::DeleteClip { anchor: clip_on("clip-1") },
            EdlOp::DeleteClip { anchor: clip_on("clip-2") },
            trim(),
        ],
    };
    let (trimmed, outcome) = apply(&tl, &env).unwrap();
    assert!(outcome.applied[2].description.contains("removed 1 trailing gap (10.000s)"));
    assert_eq!(video(&trimmed).children.len(), 1);
    let (again, outcome) = apply(&trimmed, &one(trim())).unwrap();
    assert!(outcome.applied[0].description.contains("left timeline unchanged"));
    assert_eq!(format!("{trimmed:?}"), format!("{again:?}"));
}

#[test]
fn untrimming_widens_and_nothing_else() {
    let mut tl = timeline_with_three_clips();
    add_one_second_handles(&mut tl);
    let untrim = |start: Option<f64>, end: Option<f64>| {
        one(EdlOp::UntrimClip {
            anchor: clip_on("clip-1"),
            start: start.map(num),
            end: end.map(num),
        })
    };
    let (wider, _) = apply(&tl, &untrim(None, Some(30.0))).unwrap();
    let TrackChild::Clip(c) = &video(&wider).children[1] else {
        panic!("expected clip")
    };
    let range = c.source_range.as_ref().unwrap();
    assert_eq!(range.start_time.to_seconds(), num(1.0));
    assert_eq!(range.duration.to_seconds(), num(6.0));
    assert!(apply(&tl, &untrim(Some(2.0), None)).is_err());
    assert!(apply(&tl, &untrim(None, Some(5.0))).is_err());
}

#[test]
fn taking_a_colour_table_off_takes_it_back() {
    let tl = timeline_with_three_clips();
    let put = EdlOp::ApplyLut {
        anchor: clip_on("clip-1"),
        lut_path: "luts/warm.cube".into(),
        interpolation: None,
        strength: Some(num(0.5)),
    };
    let (with_lut, _) = apply(&tl, &one(put)).unwrap();
    let TrackChild::Clip(c) = &video(&with_lut).children[1] else {
        panic!("expected clip")
    };
    assert_eq!(c.effects.len(), 1);
    let take = EdlOp::RemoveLut { anchor: clip_on("clip-1") };
    let (restored, _) = apply(&with_lut, &one(take)).unwrap();
    assert_eq!(format!("{tl:?}"), format!("{restored:?}"));
}

#[test]
fn a_title_says_the_window_of_its_clip() {
    let tl = timeline_with_three_clips();
    let (titled, _) = apply(&tl, &one(title(1.0, "hello"))).unwrap();
    let TrackChild::Clip(c) = &track_of(&titled, 1).children[0] else {
        panic!("expected title")
    };
    let uuid = extract_clip_uuid(c).expect("an id");
    let set = one(EdlOp::SetTitle {
        anchor: clip_on(&uuid),
        change: TitleChange {
            start_s: None,
            end_s: Some(num(4.5)),
            text: None,
            position: None,
            font_size: None,
            color: None,
            font_weight: None,
            animation: None,
            phases: None,
            font_family: None,
            font_path: None,
        },
    });
    let (changed, _) = apply(&titled, &set).unwrap();
    let TrackChild::Clip(c) = &track_of(&changed, 1).children[0] else {
        panic!("expected title")
    };
    let range = c.source_range.as_ref().unwrap();
    let said = &c.effects[0].metadata;
    assert_eq!(range.start_time.to_seconds(), num(1.0));
    assert_eq!(range.duration.to_seconds(), num(3.5));
    assert_eq!(said.get("start_s").and_then(|v| v.as_f64()), Some(1.0));
    assert_eq!(said.get("end_s").and_then(|v| v.as_f64()), Some(4.5));
    assert_eq!(said.get_text("text"), Some("hello".to_string()));
}

#[test]
fn the_last_op_runs_on_what_the_others_came_to() {
    let tl = timeline_with_three_clips();
    let trim = || EdlOp::TrimClip { anchor: clip_on("clip-1"), start: None, end: Some(num(3.0)) };
    let split = || EdlOp::SplitClip { anchor: clip_on("clip-1"), at_s: num(4.0), snap: None };
    let err = apply(&tl, &EdlEnvelope { ops: vec![trim(), split()] }).unwrap_err();
    assert!(matches!(err, ApplyError::Invalid { index: 1, .. }), "got {err:?}");
    let (new_tl, _) = apply(&tl, &EdlEnvelope { ops: vec![split(), trim()] }).unwrap();
    assert_eq!(video(&new_tl).children.len(), 4);
}

#[test]
fn a_clip_moved_into_empty_time_begins_there_and_moves_nothing() {
    let tl = timeline_with_three_clips();
    let gone = one(EdlOp::DeleteClip { anchor: clip_on("clip-1") });
    let (open, _) = apply(&tl, &gone).unwrap();
    let short = one(EdlOp::TrimClip { anchor: clip_on("clip-2"), start: None, end: Some(num(2.0)) });
    let (open, _) = apply(&open, &short).unwrap();
    let env = one(EdlOp::MoveClip {
        anchor: clip_on("clip-2"),
        to_position: 0,
        at_s: Some(num(6.5)),
        snap: None,
    });
    let (moved, _) = apply(&open, &env).unwrap();
    assert_eq!(starts(video(&moved)), named(&[("clip-0", 0.0), ("clip-2", 6.5)]));
    assert_eq!(gap_seconds(&video(&moved).children[1]), Some(1.5));
}

#[test]
fn slips_slides_and_rolls_are_taken_back() {
    let mut tl = timeline_with_three_clips();
    add_one_second_handles(&mut tl);
    let slip = |d: f64| ProfessionalTimelineEdit::SlipClip {
        anchor: clip_on("clip-1"),
        delta_s: num(d),
    };
    let slide = |d: f64| ProfessionalTimelineEdit::SlideClip {
        anchor: clip_on("clip-1"),
        delta_s: num(d),
    };
    let roll = |d: f64| ProfessionalTimelineEdit::RollEdit {
        between: cut_at("clip-0", "clip-1"),
        delta_s: num(d),
    };
    for (there, back) in [(slip(1.0), slip(-1.0)), (slide(0.5), slide(-0.5)), (roll(0.25), roll(-0.25))] {
        let (moved, _) = apply(&tl, &one(cutting(there))).unwrap();
        assert_ne!(format!("{:?}", video(&tl)), format!("{:?}", video(&moved)));
        let (restored, _) = apply(&moved, &one(cutting(back))).unwrap();
        assert_eq!(format!("{:?}", video(&tl)), format!("{:?}", video(&restored)));
    }
}

#[test]
fn the_last_volume_and_the_last_speed_stay() {
    let tl = timeline_with_three_clips();
    let volume = |v: f64| EdlOp::SetVolume { anchor: clip_on("clip-1"), value: num(v) };
    let speed = |v: f64| EdlOp::SetSpeed { anchor: clip_on("clip-1"), factor: num(v) };
    let twice = EdlEnvelope { ops: vec![volume(0.2), volume(0.8), speed(2.0), speed(0.5)] };
    let once = EdlEnvelope { ops: vec![volume(0.8), speed(0.5)] };
    let (a, _) = apply(&tl, &twice).unwrap();
    let (b, _) = apply(&tl, &once).unwrap();
    assert_eq!(format!("{a:?}"), format!("{b:?}"));
}

fn insert_at(at_s: f64) -> EdlEnvelope {
    one(EdlOp::InsertClip {
        request: InsertRequest {
            asset: "raw/x.mp4".into(),
            track: "V1".into(),
            track_kind: None,
            at_position: None,
            at_s: Some(num(at_s)),
            start: Some(num(0.0)),
            end: Some(num(1.0)),
            name: Some("x".into()),
            link_group_id: None,
            snap: None,
        },
    })
}

#[test]
fn a_clip_put_in_at_a_time_begins_then_or_at_the_edge_before() {
    let tl = timeline_with_three_clips();
    for (at_s, begins) in
        [(0.0, 0.0), (3.0, 0.0), (5.0, 5.0), (7.0, 5.0), (9.9995, 10.0), (14.0, 10.0), (15.0, 15.0)]
    {
        let (new_tl, _) = apply(&tl, &insert_at(at_s)).unwrap();
        let at = starts(video(&new_tl));
        assert!(at.contains(&("x".to_string(), begins)), "at {at_s}: {at:?}");
        assert_eq!(at.len(), 4);
    }
    let (new_tl, _) = apply(&tl, &insert_at(7.0)).unwrap();
    assert_eq!(
        starts(video(&new_tl)),
        named(&[("clip-0", 0.0), ("x", 5.0), ("clip-1", 6.0), ("clip-2", 11.0)])
    );
    let (later, _) = apply(&tl, &insert_at(17.5)).unwrap();
    assert_eq!(gap_seconds(&video(&later).children[3]), Some(2.5));
}

#[test]
fn a_title_goes_in_front_of_those_that_begin_no_earlier() {
    let mut track = Track::empty("Titles", TrackKind::Video);
    let mut c = Clip::empty("title");
    c.source_range = Some(TimeRange::new(time(5.0 * 24.0, 24.0), time(3.0 * 24.0, 24.0)));
    track.children.push(TrackChild::Clip(c));
    assert_eq!(title_insertion_index(&track, num(4.0)), 0);
    assert_eq!(title_insertion_index(&track, num(5.0)), 0);
    assert_eq!(title_insertion_index(&track, num(5.5)), 1);
}

#[test]
fn a_strength_without_a_look_is_refused() {
    let form = |entries: Vec<(&str, MetaValue)>| {
        let luts = LutFiles {
            input_transform: LutFile::NoProject,
            shaper: LutFile::NoProject,
            look: LutFile::NoProject,
            output_transform: LutFile::NoProject,
        };
        normalize_color_pipeline_metadata(
            3,
            pairs(entries),
            &luts,
            &vec!["rec709_g24".to_string()],
            &vec!["png".to_string()],
        )
    };
    let space = || ("clip_input_space", MetaValue::text("rec709_g24"));
    for strength in [1.0, 0.5] {
        let err = form(vec![space(), ("look_strength", number(strength))]).unwrap_err();
        assert!(
            matches!(err, ApplyError::Invalid { index: 3, ref message } if message.contains("look_strength")),
            "got {err:?}"
        );
    }
    let err = form(vec![space(), ("look_strength", number(0.5))]).unwrap_err();
    assert_eq!(
        err.text(),
        "op #3: invalid field: set_effect: montage.color_pipeline look_strength != 1.0 requires look_lut"
    );
    let look = ("look_lut", MetaValue::text("luts/a.cube"));
    assert!(form(vec![space(), look, ("look_strength", number(1.0))]).is_ok());
    assert!(form(vec![space()]).is_ok());
}

#[test]
fn a_full_strength_that_was_only_filled_in_needs_no_look() {
    let tl = timeline_with_three_clips();
    let set = |asked: Vec<(&str, MetaValue)>, filled: Vec<(&'static str, f64)>| {
        let env = one(EdlOp::SetEffect {
            anchor: clip_on("clip-1"),
            effect: "montage.color_pipeline".into(),
            params: pairs(asked),
            rationale: None,
        });
        apply_asking(&tl, &env, |op: &EdlOp, a: &mut Answers| {
            let EdlOp::SetEffect { params, .. } = op else {
                panic!("expected an effect")
            };
            let mut metadata = params.copied();
            for (key, value) in &filled {
                metadata.insert(key, number(*value));
            }
            a.effect.effect = Ok(NormalizedEffect {
                id: "montage.color_pipeline".into(),
                display_name: "Color pipeline".into(),
                clip_scoped: true,
                replaces_same: true,
                metadata,
            });
        })
    };
    let strength = |tl: &Timeline| {
        let TrackChild::Clip(c) = &video(tl).children[1] else {
            panic!("expected clip")
        };
        c.effects[0].metadata.get("look_strength").and_then(|v| v.as_f64())
    };
    let (bare, _) = set(Vec::new(), vec![("look_strength", 1.0)]).unwrap();
    assert_eq!(strength(&bare), Some(1.0));
    assert!(set(Vec::new(), vec![("look_strength", 0.7)]).is_err());
    assert!(set(vec![("look_strength", number(1.0))], Vec::new()).is_err());
    let look = vec![("look_lut", MetaValue::text("luts/a.cube"))];
    let (graded, _) = set(look, vec![("look_strength", 1.0)]).unwrap();
    assert_eq!(strength(&graded), Some(1.0));
}

fn gaps_and_clip(gaps: &[f64]) -> Timeline {
    let mut tl = timeline_with_three_clips();
    let StackChild::Track(track) = &mut tl.tracks.children[0] else {
        panic!("expected track")
    };
    for (i, d) in gaps.iter().enumerate() {
        track.children.insert(1 + i, gap_child(num(*d), num(24.0)));
    }
    tl
}

#[test]
fn a_ripple_move_to_the_left_uses_up_empty_time_and_no_more() {
    let tl = gaps_and_clip(&[2.0, 3.0]);
    for (delta, begins, children) in [
        (-1.0, 9.0, 4),
        (-3.0, 7.0, 4),
        (-4.0, 6.0, 4),
        (-5.0, 5.0, 3),
        (-6.0, 5.0, 3),
        (-50.0, 5.0, 3),
    ] {
        let env =
            one(EdlOp::RippleMove { anchor: clip_on("clip-1"), delta_s: num(delta), snap: None });
        let (moved, _) = apply(&tl, &env).unwrap();
        assert_eq!(
            starts(video(&moved)),
            named(&[("clip-0", 0.0), ("clip-1", begins), ("clip-2", begins + 5.0)]),
            "moved by {delta}"
        );
        assert_eq!(video(&moved).children.len(), children, "moved by {delta}");
    }
}

#[test]
fn empty_time_that_is_made_one_stays_one() {
    let mut track = Track::empty("V1", TrackKind::Video);
    for d in [0.0005, 2.0, 0.001, 3.0] {
        track.children.push(gap_child(num(d), num(24.0)));
    }
    track.children.push(TrackChild::Clip(Clip::empty("a")));
    track.children.push(TrackChild::Clip(Clip::empty("b")));
    track.children.push(gap_child(num(0.0011), num(24.0)));
    merge_adjacent_gaps(&mut track, num(24.0));
    let lengths: Vec<Option<f64>> = track.children.iter().map(gap_seconds).collect();
    assert_eq!(lengths, [Some(5.0), None, None, Some(0.0011)]);
    let once = format!("{track:?}");
    merge_adjacent_gaps(&mut track, num(30.0));
    assert_eq!(once, format!("{track:?}"));
}

#[test]
fn lifting_and_extracting_leave_the_same_pieces() {
    let tl = gaps_and_clip(&[2.0]);
    let range = SourceRange { start_s: num(3.25), end_s: num(9.5) };
    let lift = one(cutting(ProfessionalTimelineEdit::LiftRange { range, tracks: Vec::new() }));
    let extract =
        one(cutting(ProfessionalTimelineEdit::ExtractRange { range, tracks: Vec::new() }));
    let (lifted, _) = apply(&tl, &lift).unwrap();
    let (extracted, _) = apply(&tl, &extract).unwrap();
    let shown = |tl: &Timeline| -> Vec<(String, Num, Num)> {
        video(tl)
            .children
            .iter()
            .filter_map(|c| match c {
                TrackChild::Clip(c) => c.source_range.as_ref().map(|r| {
                    (c.name.clone(), r.start_time.to_seconds(), r.duration.to_seconds())
                }),
                _ => None,
            })
            .collect()
    };
    let length = |tl: &Timeline| -> f64 { video(tl).children.iter().map(child_duration).sum() };
    assert_eq!(shown(&lifted), shown(&extracted));
    assert_eq!(shown(&lifted)[1], ("clip-1".to_string(), num(2.5), num(2.5)));
    assert_eq!(length(&lifted), 17.0);
    assert_eq!(length(&extracted), 17.0 - 6.25);
}

#[test]
fn a_roll_keeps_the_outer_edges_and_is_taken_back() {
    let mut tl = timeline_with_three_clips();
    let StackChild::Track(track) = &mut tl.tracks.children[0] else {
        panic!("expected track")
    };
    let TrackChild::Clip(c) = &mut track.children[1] else {
        panic!("expected clip")
    };
    c.source_range = Some(TimeRange::new(time(2.0 * 24.0, 24.0), time(5.0 * 30.0, 30.0)));
    let roll = |d: f64| {
        one(cutting(ProfessionalTimelineEdit::RollEdit {
            between: cut_at("clip-0", "clip-1"),
            delta_s: num(d),
        }))
    };
    let ranges = |tl: &Timeline| -> Vec<(Num, Num)> {
        video(tl)
            .children
            .iter()
            .filter_map(|c| match c {
                TrackChild::Clip(c) => c
                    .source_range
                    .as_ref()
                    .map(|r| (r.start_time.to_seconds(), r.duration.to_seconds())),
                _ => None,
            })
            .collect()
    };
    let (rolled, _) = apply(&tl, &roll(-1.5)).unwrap();
    assert_eq!(
        ranges(&rolled),
        [(num(0.0), num(3.5)), (num(0.5), num(6.5)), (num(0.0), num(5.0))]
    );
    let (back, _) = apply(&rolled, &roll(1.5)).unwrap();
    assert_eq!(ranges(&back), ranges(&tl));
}

#[test]
fn a_clip_without_length_is_not_kept() {
    let mut tl = timeline_with_three_clips();
    assert!(validate_timeline(&tl).is_ok());
    let StackChild::Track(track) = &mut tl.tracks.children[0] else {
        panic!("expected track")
    };
    let TrackChild::Clip(c) = &mut track.children[1] else {
        panic!("expected clip")
    };
    c.source_range = Some(TimeRange::new(time(0.0, 24.0), time(0.0, 24.0)));
    track.children.push(gap_child(num(-1.0), num(24.0)));
    let said = validate_timeline(&tl).unwrap_err();
    assert_eq!(said, "clip \"clip-1\" has zero duration; gap has negative duration");
    let trim = one(EdlOp::TrimClip {
        anchor: clip_on("clip-1"),
        start: Some(num(2.0)),
        end: Some(num(2.0)),
    });
    let err = apply(&timeline_with_three_clips(), &trim).unwrap_err();
    assert!(matches!(err, ApplyError::OtioInvalid { index: 0, .. }), "got {err:?}");
}

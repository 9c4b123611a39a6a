//! Ops on titles, overlays and what is kept with a timeline.
use montage_edl::dispatch::Answers;
use montage_edl::docs::{ParameterAnimation, ReframeAnswer};
use montage_edl::engine::ApplyOutcome;
use montage_edl::envelope::{EdlEnvelope, EdlOp, ProfessionalTimelineEdit, SubjectReframeRequest};
use montage_edl::error::{AnchorMiss, ApplyError};
use montage_edl::meta::{MetaMap, MetaValue};
use montage_edl::mint::ClipIds;
use montage_edl::model::{
    Clip, ClipLocator, ClipMetadata, Document, ExternalReference, MediaReference,
    MontageClipMetadata, MontageTimelineMetadata, RationalTime, StackChild, TimeRange, Timeline,
    Track, TrackChild, TrackKind,
};
use montage_edl::num::Num;
use montage_edl::op::{
    Anchor, BetweenPlaces, CaptionWordTiming, TitleAnimation, TitlePosition, TitleWeight,
};
use montage_edl::output::{
    BrandKit, BroadcastOverlayConfig, BroadcastOverlayStyle, BroadcastTimedEntry,
};
use montage_edl::title::{Caption, TextOverlay, TitleChange};

fn num(x: f64) -> Num {
    if x.is_nan() {
        Num::Nan
    } else if x.is_infinite() {
        if x > 0.0 {
            Num::PosInf
        } else {
            Num::NegInf
        }
    } else {
        Num::Fin((x * 1e15).round() as i128)
    }
}

fn float(x: Num) -> f64 {
    match x {
        Num::Nan => f64::NAN,
        Num::NegInf => f64::NEG_INFINITY,
        Num::Fin(v) => v as f64 / 1e15,
        Num::PosInf => f64::INFINITY,
    }
}

fn time(value: f64, rate: f64) -> RationalTime {
    RationalTime::new(num(value / rate), num(rate))
}

fn number(x: f64) -> MetaValue {
    MetaValue::number(num(x))
}

fn pairs(entries: Vec<(&str, MetaValue)>) -> MetaMap {
    let mut m = MetaMap::new();
    for (key, value) in entries {
        m.insert(key, value);
    }
    m
}

trait Json {
    fn as_str(&self) -> Option<&str>;
    fn as_f64(&self) -> Option<f64>;
    fn as_u64(&self) -> Option<u64>;
    fn as_array(&self) -> Option<&Vec<MetaValue>>;
    fn as_object(&self) -> Option<&MetaMap>;
    fn get(&self, key: &str) -> Option<&MetaValue>;
    fn at(&self, key: &str) -> &MetaValue;
}

impl Json for MetaValue {
    fn as_str(&self) -> Option<&str> {
        match self {
            MetaValue::Text(s) => Some(s),
            _ => None,
        }
    }

    fn as_f64(&self) -> Option<f64> {
        self.as_number().map(float)
    }

    fn as_u64(&self) -> Option<u64> {
        self.as_f64().filter(|x| x.fract() == 0.0 && *x >= 0.0).map(|x| x as u64)
    }

    fn as_array(&self) -> Option<&Vec<MetaValue>> {
        match self {
            MetaValue::List(v) => Some(v),
            _ => None,
        }
    }

    fn as_object(&self) -> Option<&MetaMap> {
        match self {
            MetaValue::Object(m) => Some(m),
            _ => None,
        }
    }

    fn get(&self, key: &str) -> Option<&MetaValue> {
        self.as_object().and_then(|m| m.get(key))
    }

    fn at(&self, key: &str) -> &MetaValue {
        self.get(key).expect("a value")
    }
}

trait Keys {
    fn contains_key(&self, key: &str) -> bool;
    fn at(&self, key: &str) -> &MetaValue;
}

impl Keys for MetaMap {
    fn contains_key(&self, key: &str) -> bool {
        self.get(key).is_some()
    }

    fn at(&self, key: &str) -> &MetaValue {
        self.get(key).expect("a value")
    }
}

fn no_metadata() -> ClipMetadata {
    ClipMetadata { montage: None, extra: MetaMap::new() }
}

fn timeline_with_three_clips() -> Timeline {
    let mut tl = Timeline::empty("test");
    let mut track = Track::empty("V1", TrackKind::Video);
    for (i, snip) in ["alpha snippet", "bravo snippet", "charlie snippet"].iter().enumerate() {
        let mut c = Clip::empty(&format!("clip-{i}"));
        c.media_reference =
            MediaReference::External(ExternalReference::new(&format!("raw/{i}.mp4")));
        c.source_range = Some(TimeRange::new(time(0.0, 24.0), time(5.0 * 24.0, 24.0)));
        c.metadata = ClipMetadata {
            montage: Some(MontageClipMetadata {
                transcript_snippet: Some((*snip).to_string()),
                ..MontageClipMetadata::new()
            }),
            ..no_metadata()
        };
        track.children.push(TrackChild::Clip(c));
    }
    tl.tracks.children.push(StackChild::Track(track));
    tl
}

/// Where an anchor leads: to the clip with the unique id or the name, or to the
/// clip whose transcript holds the text.
fn place(timeline: &Timeline, anchor: &Anchor) -> Result<ClipLocator, AnchorMiss> {
    for (track_index, layer) in timeline.tracks.children.iter().enumerate() {
        let StackChild::Track(track) = layer else {
            continue;
        };
        for (child_index, child) in track.children.iter().enumerate() {
            let TrackChild::Clip(clip) = child else {
                continue;
            };
            let montage = clip.metadata.montage.as_ref();
            let here = match anchor {
                Anchor::ClipUuid { uuid } => {
                    clip.name == *uuid
                        || montage.and_then(|m| m.extra.get_text("clip_uuid")).as_ref()
                            == Some(uuid)
                }
                Anchor::TranscriptSnippet { text } => montage
                    .and_then(|m| m.transcript_snippet.as_ref())
                    .is_some_and(|s| s.contains(text.as_str())),
            };
            if here {
                return Ok(ClipLocator { track_index, child_index });
            }
        }
    }
    Err(AnchorMiss { text: format!("no clip at {anchor:?}") })
}

fn answers(timeline: &Timeline, op: &EdlOp, anchor: &Option<Anchor>) -> Answers {
    let mut a = Answers::plain(MetaValue::Null);
    if let Some(x) = anchor {
        a.place = place(timeline, x);
    }
    let between = match op {
        EdlOp::InsertTransition { between, .. }
        | EdlOp::DeleteTransition { between }
        | EdlOp::SetCutIntent { between, .. }
        | EdlOp::ProfessionalTimelineEdit {
            edit: ProfessionalTimelineEdit::RollEdit { between, .. },
            ..
        } => Some(between),
        _ => None,
    };
    if let Some(b) = between {
        a.between =
            BetweenPlaces { from: place(timeline, &b.from), to: place(timeline, &b.to) };
    }
    if let EdlOp::ProfessionalTimelineEdit { edit, .. } = op {
        if let ProfessionalTimelineEdit::UpdateMarker { selector, .. }
        | ProfessionalTimelineEdit::DeleteMarker { selector } = edit
        {
            a.marker = selector.anchor.as_ref().map(|x| place(timeline, x));
        }
    }
    a
}

fn apply_asking<F: Fn(&EdlOp, &mut Answers)>(
    tl: &Timeline,
    env: &EdlEnvelope,
    adjust: F,
) -> Result<(Timeline, ApplyOutcome), ApplyError> {
    montage_edl::engine::apply(
        tl,
        env,
        |working: &Timeline, op: &EdlOp, anchor: &Option<Anchor>| {
            let mut a = answers(working, op, anchor);
            adjust(op, &mut a);
            a
        },
        &mut ClipIds::new(0),
    )
}

fn apply(tl: &Timeline, env: &EdlEnvelope) -> Result<(Timeline, ApplyOutcome), ApplyError> {
    apply_asking(tl, env, |_: &EdlOp, _: &mut Answers| {})
}

fn word(text: &str, start_s: f64, end_s: f64) -> MetaValue {
    MetaValue::Object(pairs(vec![
        ("text", MetaValue::text(text)),
        ("start_s", number(start_s)),
        ("end_s", number(end_s)),
    ]))
}

fn list(texts: &[&str]) -> MetaValue {
    MetaValue::List(texts.iter().map(|s| MetaValue::text(s)).collect())
}

fn timed(entries: &[BroadcastTimedEntry]) -> MetaValue {
    MetaValue::List(
        entries
            .iter()
            .map(|e| {
                MetaValue::Object(pairs(vec![
                    ("time_seconds", MetaValue::number(e.time_seconds)),
                    ("text", MetaValue::text(&e.text)),
                ]))
            })
            .collect(),
    )
}

/// An overlay with nothing said of its style.
fn overlay(
    episode_title: &str,
    brand_logo_path: Option<&str>,
    host_a_photo_path: Option<&str>,
    topics: Vec<BroadcastTimedEntry>,
) -> BroadcastOverlayConfig {
    let mut document = pairs(vec![
        ("episode_title", MetaValue::text(episode_title)),
        ("topics", timed(&topics)),
    ]);
    if let Some(p) = brand_logo_path {
        document.insert("brand_logo_path", MetaValue::text(p));
    }
    if let Some(p) = host_a_photo_path {
        document.insert(
            "host_a",
            MetaValue::Object(pairs(vec![("photo_path", MetaValue::text(p))])),
        );
    }
    BroadcastOverlayConfig {
        enabled: true,
        episode_title: episode_title.to_string(),
        brand_logo_path: brand_logo_path.map(str::to_string),
        host_a_photo_path: host_a_photo_path.map(str::to_string),
        host_b_photo_path: None,
        topics,
        chapters: Vec::new(),
        style: BroadcastOverlayStyle {
            title_fade_in_end: num(1.0),
            title_visible_end: num(5.0),
            title_fade_out_start: num(4.0),
            host_intro_start: num(6.0),
            host_intro_end: num(12.0),
            ticker_sponsor_duration: num(5.0),
            ticker_fade_duration: num(0.5),
            ticker_topic_duration: num(8.0),
            chapter_display_duration: num(4.0),
            name_bar_height: num(80.0),
            ticker_height: num(60.0),
            host_strip_height: num(100.0),
        },
        document: MetaValue::Object(document),
    }
}

fn brand(logo_path: Option<&str>, palette: &[&str]) -> BrandKit {
    let mut document = pairs(vec![("palette", list(palette))]);
    if let Some(p) = logo_path {
        document.insert("logo_path", MetaValue::text(p));
    }
    BrandKit {
        logo_path: logo_path.map(str::to_string),
        font_primary_path: None,
        font_secondary_path: None,
        music_path: None,
        palette: palette.iter().map(|s| s.to_string()).collect(),
        social_handles: 0,
        document: MetaValue::Object(document),
    }
}

fn stored_overlay(tl: &Timeline) -> &MetaValue {
    tl.metadata
        .montage
        .as_ref()
        .and_then(|m| m.broadcast_overlay.as_ref())
        .expect("overlay config should be stored")
}

/// An animation of a clip's parameter that the renderer can run.
fn animation(id: &str, parameter: &str, values: [f64; 2]) -> ParameterAnimation {
    let body = MetaValue::Object(pairs(vec![
        ("id", MetaValue::text(id)),
        ("clip_id", MetaValue::text("clip-1")),
        ("parameter", MetaValue::text(parameter)),
        ("keyframes", MetaValue::List(values.iter().map(|v| number(*v)).collect())),
    ]));
    ParameterAnimation {
        document: Document { id: id.to_string(), body },
        metadata_only: false,
    }
}

fn renderable(_: &EdlOp, a: &mut Answers) {
    a.animation.runtime_target = true;
}

#[test]
fn apply_set_parameter_animation_accepts_runtime_blur_effect_parameter() {
    let tl = timeline_with_three_clips();
    let env = EdlEnvelope {
        ops: vec![EdlOp::SetParameterAnimation {
            animation: animation("anim-blur-radius", "montage.blur.radius_px", [0.0, 12.0]),
        }],
    };

    let (new_tl, outcome) = apply_asking(&tl, &env, renderable).unwrap();

    assert!(outcome.applied[0].description.contains("anim-blur-radius"));
    assert_eq!(
        format!("{:?}", new_tl.metadata.montage.as_ref().unwrap().parameter_animations),
        format!("{:?}", vec![animation("anim-blur-radius", "montage.blur.radius_px", [0.0, 12.0]).document])
    );
}

#[test]
fn apply_set_parameter_animation_accepts_runtime_blur_effect_alias() {
    let tl = timeline_with_three_clips();
    let env = EdlEnvelope {
        ops: vec![EdlOp::SetParameterAnimation {
            animation: animation("anim-blur-radius-alias", "effects.montage.blur.params.radius_px", [0.0, 12.0]),
        }],
    };

    let (new_tl, outcome) = apply_asking(&tl, &env, renderable).unwrap();

    assert!(outcome.applied[0].description.contains("anim-blur-radius-alias"));
    assert_eq!(
        format!("{:?}", new_tl.metadata.montage.as_ref().unwrap().parameter_animations),
        format!("{:?}", vec![animation("anim-blur-radius-alias", "effects.montage.blur.params.radius_px", [0.0, 12.0]).document])
    );
}

#[test]
fn apply_set_parameter_animation_accepts_runtime_shake_effect_parameter() {
    let tl = timeline_with_three_clips();
    let env = EdlEnvelope {
        ops: vec![EdlOp::SetParameterAnimation {
            animation: animation("anim-shake-intensity", "montage.shake.intensity_px", [0.0, 14.0]),
        }],
    };

    let (new_tl, outcome) = apply_asking(&tl, &env, renderable).unwrap();

    assert!(outcome.applied[0].description.contains("anim-shake-intensity"));
    assert_eq!(
        format!("{:?}", new_tl.metadata.montage.as_ref().unwrap().parameter_animations),
        format!("{:?}", vec![animation("anim-shake-intensity", "montage.shake.intensity_px", [0.0, 14.0]).document])
    );
}

#[test]
fn apply_set_parameter_animation_accepts_runtime_warp_effect_parameter() {
    let tl = timeline_with_three_clips();
    let env = EdlEnvelope {
        ops: vec![EdlOp::SetParameterAnimation {
            animation: animation("anim-warp-k1", "montage.warp.k1", [-0.15, 0.05]),
        }],
    };

    let (new_tl, outcome) = apply_asking(&tl, &env, renderable).unwrap();

    assert!(outcome.applied[0].description.contains("anim-warp-k1"));
    assert_eq!(
        format!("{:?}", new_tl.metadata.montage.as_ref().unwrap().parameter_animations),
        format!("{:?}", vec![animation("anim-warp-k1", "montage.warp.k1", [-0.15, 0.05]).document])
    );
}

#[test]
fn apply_author_subject_reframe_from_track_stores_renderable_path() {
    let mut tl = timeline_with_three_clips();
    let track = MetaValue::Object(pairs(vec![
        ("id", MetaValue::text("speaker-track")),
        ("asset_id", MetaValue::text("clip-1")),
    ]));
    tl.metadata.montage.as_mut().unwrap().tracking_package =
        Some(MetaValue::Object(pairs(vec![("tracks", MetaValue::List(vec![track]))])));
    let env = EdlEnvelope {
        ops: vec![EdlOp::AuthorSubjectReframeFromTrack {
            track_id: "speaker-track".into(),
            request: SubjectReframeRequest {
                clip_id: "clip-1".into(),
                aspect_ratio: "9:16".into(),
                source_width: 1920,
                source_height: 1080,
                target_width: 1080,
                target_height: 1920,
                frame_rate: num(30.0),
                smoothing: "moderate".into(),
                safe_area: Some("mobile".into()),
            },
        }],
    };

    let center = |x: f64, y: f64, time_s: f64| {
        MetaValue::Object(pairs(vec![
            ("time_s", number(time_s)),
            ("center", MetaValue::List(vec![number(x), number(y)])),
        ]))
    };
    let (new_tl, outcome) = apply_asking(&tl, &env, |_: &EdlOp, a: &mut Answers| {
        let path = MetaValue::Object(pairs(vec![
            ("clip_id", MetaValue::text("clip-1")),
            ("evidence_track_id", MetaValue::text("speaker-track")),
            (
                "keyframes",
                MetaValue::List(vec![center(0.3, 0.35, 0.0), center(0.6, 0.45, 1.0)]),
            ),
        ]));
        a.reframe = Ok(ReframeAnswer {
            package: MetaValue::Object(pairs(vec![(
                "reframe_paths",
                MetaValue::List(vec![path]),
            )])),
            reframe_id: "reframe-clip-1-9-16".to_string(),
        });
    })
    .unwrap();

    assert!(outcome.applied[0]
        .description
        .contains("authored subject reframe path reframe-clip-1-9-16"));
    let package =
        new_tl.metadata.montage.as_ref().unwrap().tracking_package.as_ref().unwrap();
    let paths = package.at("reframe_paths").as_array().unwrap();
    assert_eq!(paths.len(), 1);
    let path = &paths[0];
    assert_eq!(path.at("clip_id").as_str(), Some("clip-1"));
    assert_eq!(path.at("evidence_track_id").as_str(), Some("speaker-track"));
    let keyframes = path.at("keyframes").as_array().unwrap();
    assert_eq!(keyframes.len(), 2);
    let centers: Vec<Vec<Option<f64>>> = keyframes
        .iter()
        .map(|k| k.at("center").as_array().unwrap().iter().map(|v| v.as_f64()).collect())
        .collect();
    assert_eq!(centers[0], [Some(0.3), Some(0.35)]);
    assert_eq!(centers[1], [Some(0.6), Some(0.45)]);
    assert_eq!(keyframes[1].at("time_s").as_f64(), Some(1.0));
}

#[test]
fn apply_insert_title_creates_titles_track_and_stamps_effect() {
    let tl = timeline_with_three_clips();
    let env = EdlEnvelope {
        ops: vec![EdlOp::InsertTitle {
            title: TextOverlay {
                start_s: num(0.0),
                end_s: num(3.0),
                text: "Welcome".into(),
                position: TitlePosition::Top,
                font_size: 72,
                color: "#FFAA00".into(),
                font_weight: TitleWeight::Bold,
                animation: TitleAnimation::FadeInOut,
                phases: None,
            },
            font_family: None,
            font_path: None,
        }],
    };
    let (new_tl, _) = apply(&tl, &env).unwrap();
    assert_eq!(new_tl.tracks.children.len(), 2);
    let StackChild::Track(titles) = &new_tl.tracks.children[1] else {
        panic!("expected titles track at index 1")
    };
    assert_eq!(titles.name, "Titles");
    assert_eq!(
        titles
            .metadata
            .get("montage_track_role")
            .and_then(|v| v.as_str()),
        Some("titles"),
    );
    assert_eq!(titles.children.len(), 1);
    let TrackChild::Clip(title_clip) = &titles.children[0] else {
        panic!("expected title clip on titles track")
    };
    assert_eq!(title_clip.effects.len(), 1);
    let effect = &title_clip.effects[0];
    assert_eq!(effect.effect_name, "montage.title");
    assert_eq!(
        effect.metadata.get("text").and_then(|v| v.as_str()),
        Some("Welcome"),
    );
    assert_eq!(
        effect.metadata.get("position").and_then(|v| v.as_str()),
        Some("top"),
    );
    assert_eq!(
        effect.metadata.get("font_weight").and_then(|v| v.as_str()),
        Some("bold"),
    );
    assert_eq!(
        effect.metadata.get("animation").and_then(|v| v.as_str()),
        Some("fade_in_out"),
    );
    assert_eq!(
        effect.metadata.get("font_size").and_then(|v| v.as_u64()),
        Some(72),
    );
}

#[test]
fn apply_insert_title_stamps_custom_font_metadata() {
    let tl = timeline_with_three_clips();
    let env = EdlEnvelope {
        ops: vec![EdlOp::InsertTitle {
            title: TextOverlay {
                start_s: num(0.0),
                end_s: num(3.0),
                text: "Brand".into(),
                position: TitlePosition::Top,
                font_size: 72,
                color: "#FFFFFF".into(),
                font_weight: TitleWeight::Normal,
                animation: TitleAnimation::Still,
                phases: None,
            },
            font_family: Some("Brand Sans".into()),
            font_path: Some("/fonts/Brand.ttf".into()),
        }],
    };
    let (new_tl, _) = apply(&tl, &env).unwrap();
    let StackChild::Track(titles) = &new_tl.tracks.children[1] else {
        panic!("expected titles track at index 1")
    };
    let TrackChild::Clip(title_clip) = &titles.children[0] else {
        panic!("expected title clip on titles track")
    };
    let effect = &title_clip.effects[0];
    assert_eq!(
        effect.metadata.get("font_path").and_then(|v| v.as_str()),
        Some("/fonts/Brand.ttf"),
    );
    assert_eq!(
        effect.metadata.get("font_family").and_then(|v| v.as_str()),
        Some("Brand Sans"),
    );
}

#[test]
fn apply_insert_caption_creates_caption_overlay_node() {
    let tl = timeline_with_three_clips();
    let env = EdlEnvelope {
        ops: vec![EdlOp::InsertCaption {
            caption: Caption {
                start_s: num(1.0),
                end_s: num(2.5),
                text: "This changed everything".into(),
                position: TitlePosition::Bottom,
                font_size: 52,
                color: "#FFFFFF".into(),
                safe_area: "mobile".into(),
                word_timings: Vec::new(),
                style: None,
            },
        }],
    };
    let (new_tl, _) = apply(&tl, &env).unwrap();
    let StackChild::Track(titles) = &new_tl.tracks.children[1] else {
        panic!("expected titles track")
    };
    let TrackChild::Clip(caption_clip) = &titles.children[0] else {
        panic!("expected caption clip")
    };
    assert!(caption_clip.name.starts_with("caption-"));
    let effect = &caption_clip.effects[0];
    assert_eq!(effect.effect_name, "montage.title");
    assert_eq!(
        effect.metadata.get("role").and_then(|v| v.as_str()),
        Some("caption"),
    );
    assert_eq!(
        effect.metadata.get("safe_area").and_then(|v| v.as_str()),
        Some("mobile"),
    );
    assert_eq!(
        effect.metadata.get("position").and_then(|v| v.as_str()),
        Some("bottom"),
    );
}

#[test]
fn apply_insert_caption_persists_word_timings_metadata() {
    let tl = timeline_with_three_clips();
    let env = EdlEnvelope {
        ops: vec![EdlOp::InsertCaption {
            caption: Caption {
                start_s: num(1.0),
                end_s: num(2.5),
                text: "This changed everything".into(),
                position: TitlePosition::Bottom,
                font_size: 52,
                color: "#FFFFFF".into(),
                safe_area: "mobile".into(),
                word_timings: vec![
                    CaptionWordTiming {
                        text: "This".into(),
                        start_s: num(1.0),
                        end_s: num(1.2),
                        document: word("This", 1.0, 1.2),
                    },
                    CaptionWordTiming {
                        text: "changed".into(),
                        start_s: num(1.24),
                        end_s: num(1.5),
                        document: word("changed", 1.24, 1.5),
                    },
                ],
                style: None,
            },
        }],
    };
    let (new_tl, _) = apply(&tl, &env).unwrap();
    let StackChild::Track(titles) = &new_tl.tracks.children[1] else {
        panic!("expected titles track")
    };
    let TrackChild::Clip(caption_clip) = &titles.children[0] else {
        panic!("expected caption clip")
    };
    let timings = caption_clip.effects[0]
        .metadata
        .get("word_timings")
        .and_then(|value| value.as_array())
        .expect("word_timings metadata");
    assert_eq!(timings.len(), 2);
    assert_eq!(
        timings[0].get("text").and_then(|value| value.as_str()),
        Some("This")
    );
}

#[test]
fn insert_caption_stores_style_json_on_the_caption_effect() {
    let tl = timeline_with_three_clips();
    let env = EdlEnvelope {
        ops: vec![EdlOp::InsertCaption {
            caption: Caption {
                start_s: num(1.0),
                end_s: num(2.5),
                text: "AI changed everything".into(),
                position: TitlePosition::Bottom,
                font_size: 52,
                color: "#FFFFFF".into(),
                safe_area: "mobile".into(),
                word_timings: Vec::new(),
                style: Some(MetaValue::Object(pairs(vec![
                    ("font_size", number(52.0)),
                    ("weight", MetaValue::text("bold")),
                    ("casing", MetaValue::text("upper")),
                    ("primary_color", MetaValue::text("#FFFFFF")),
                    ("highlight_color", MetaValue::text("#FFD700")),
                    ("reveal", MetaValue::text("active_word_pop")),
                    (
                        "background",
                        MetaValue::Object(pairs(vec![("kind", MetaValue::text("none"))])),
                    ),
                ]))),
            },
        }],
    };
    let (new_tl, _) = apply(&tl, &env).unwrap();
    let StackChild::Track(titles) = &new_tl.tracks.children[1] else {
        panic!("expected titles track")
    };
    let TrackChild::Clip(caption_clip) = &titles.children[0] else {
        panic!("expected caption clip")
    };
    let style = caption_clip.effects[0]
        .metadata
        .get("caption_style")
        .expect("caption_style metadata must be present");
    assert_eq!(
        style.get("reveal").and_then(|v| v.as_str()),
        Some("active_word_pop"),
        "reveal must be stored as snake_case string"
    );
    assert_eq!(style.get("weight").and_then(|v| v.as_str()), Some("bold"),);
    assert_eq!(
        style.get("highlight_color").and_then(|v| v.as_str()),
        Some("#FFD700"),
    );
}

#[test]
fn apply_output_loudness_and_package_metadata_live_on_timeline_graph() {
    let tl = timeline_with_three_clips();
    let env = EdlEnvelope {
        ops: vec![
            EdlOp::SetOutputFormat {
                aspect_ratio: "9:16".into(),
                platform: Some("youtube_shorts".into()),
                safe_area: Some("mobile".into()),
            },
            EdlOp::SetLoudnessTarget {
                integrated_lufs: num(-16.0),
                true_peak_db: Some(num(-1.0)),
            },
            EdlOp::SetPackageMetadata {
                platform: Some("youtube_shorts".into()),
                title: Some("Launch Risk".into()),
                description: Some("A short clip about launch risk".into()),
                tags: Some("launch,risk,clip".into()),
            },
        ],
    };
    let (new_tl, _) = apply(&tl, &env).unwrap();
    let extra = &new_tl
        .metadata
        .montage
        .as_ref()
        .expect("montage metadata")
        .extra;
    assert_eq!(
        extra
            .get("output_format")
            .and_then(|v| v.get("aspect_ratio"))
            .and_then(|v| v.as_str()),
        Some("9:16"),
    );
    assert_eq!(
        extra
            .get("loudness_target")
            .and_then(|v| v.get("integrated_lufs"))
            .and_then(|v| v.as_f64()),
        Some(-16.0),
    );
    assert_eq!(
        extra
            .get("package_metadata")
            .and_then(|v| v.get("title"))
            .and_then(|v| v.as_str()),
        Some("Launch Risk"),
    );
}

#[test]
fn apply_insert_title_reuses_existing_titles_track() {
    let tl = timeline_with_three_clips();
    let env = EdlEnvelope {
        ops: vec![
            EdlOp::InsertTitle {
                title: TextOverlay {
                    start_s: num(0.0),
                    end_s: num(3.0),
                    text: "First".into(),
                    position: TitlePosition::Top,
                    font_size: 64,
                    color: "#FFFFFF".into(),
                    font_weight: TitleWeight::Normal,
                    animation: TitleAnimation::Still,
                    phases: None,
                },
                font_family: None,
                font_path: None,
            },
            EdlOp::InsertTitle {
                title: TextOverlay {
                    start_s: num(5.0),
                    end_s: num(8.0),
                    text: "Second".into(),
                    position: TitlePosition::Bottom,
                    font_size: 48,
                    color: "#FFFFFF".into(),
                    font_weight: TitleWeight::Normal,
                    animation: TitleAnimation::Still,
                    phases: None,
                },
                font_family: None,
                font_path: None,
            },
        ],
    };
    let (new_tl, _) = apply(&tl, &env).unwrap();
    assert_eq!(new_tl.tracks.children.len(), 2);
    let StackChild::Track(titles) = &new_tl.tracks.children[1] else {
        panic!()
    };
    assert_eq!(titles.children.len(), 2);
    let TrackChild::Clip(first) = &titles.children[0] else {
        panic!()
    };
    let TrackChild::Clip(second) = &titles.children[1] else {
        panic!()
    };
    assert_eq!(
        first.effects[0]
            .metadata
            .get("text")
            .and_then(|v| v.as_str()),
        Some("First"),
    );
    assert_eq!(
        second.effects[0]
            .metadata
            .get("text")
            .and_then(|v| v.as_str()),
        Some("Second"),
    );
}

#[test]
fn apply_insert_title_rejects_invalid_window() {
    let tl = timeline_with_three_clips();
    let env = EdlEnvelope {
        ops: vec![EdlOp::InsertTitle {
            title: TextOverlay {
                start_s: num(5.0),
                end_s: num(3.0),
                text: "x".into(),
                position: TitlePosition::Center,
                font_size: 64,
                color: "#FFFFFF".into(),
                font_weight: TitleWeight::Normal,
                animation: TitleAnimation::Still,
                phases: None,
            },
            font_family: None,
            font_path: None,
        }],
    };
    let err = apply(&tl, &env).unwrap_err();
    assert!(
        matches!(&err, ApplyError::Invalid { message, .. } if message.contains("end_s must be"))
    );
}

#[test]
fn apply_insert_title_rejects_empty_text() {
    let tl = timeline_with_three_clips();
    let env = EdlEnvelope {
        ops: vec![EdlOp::InsertTitle {
            title: TextOverlay {
                start_s: num(0.0),
                end_s: num(3.0),
                text: "".into(),
                position: TitlePosition::Center,
                font_size: 64,
                color: "#FFFFFF".into(),
                font_weight: TitleWeight::Normal,
                animation: TitleAnimation::Still,
                phases: None,
            },
            font_family: None,
            font_path: None,
        }],
    };
    let err = apply(&tl, &env).unwrap_err();
    assert!(
        matches!(&err, ApplyError::Invalid { message, .. } if message.contains("non-empty"))
    );
}

#[test]
fn apply_set_title_updates_only_specified_fields() {
    let tl = timeline_with_three_clips();
    let insert_env = EdlEnvelope {
        ops: vec![EdlOp::InsertTitle {
            title: TextOverlay {
                start_s: num(0.0),
                end_s: num(3.0),
                text: "Original".into(),
                position: TitlePosition::Center,
                font_size: 64,
                color: "#FFFFFF".into(),
                font_weight: TitleWeight::Normal,
                animation: TitleAnimation::Still,
                phases: None,
            },
            font_family: None,
            font_path: None,
        }],
    };
    let (after_insert, _) = apply(&tl, &insert_env).unwrap();
    let StackChild::Track(titles) = &after_insert.tracks.children[1] else {
        panic!()
    };
    let TrackChild::Clip(title_clip) = &titles.children[0] else {
        panic!()
    };
    let title_uuid = title_clip
        .metadata
        .montage
        .as_ref()
        .and_then(|m| m.extra.get("clip_uuid"))
        .and_then(|v| v.as_str())
        .map(str::to_string)
        .expect("title clip should have a stamped clip_uuid");

    let set_env = EdlEnvelope {
        ops: vec![EdlOp::SetTitle {
            anchor: Anchor::ClipUuid {
                uuid: title_uuid.clone(),
            },
            change: TitleChange {
                start_s: None,
                end_s: None,
                text: Some("Updated".into()),
                position: None,
                font_size: None,
                color: None,
                font_weight: Some(TitleWeight::Bold),
                animation: None,
                phases: None,
                font_family: None,
                font_path: None,
            },
        }],
    };
    let (after_set, _) = apply(&after_insert, &set_env).unwrap();
    let StackChild::Track(titles2) = &after_set.tracks.children[1] else {
        panic!()
    };
    let TrackChild::Clip(updated) = &titles2.children[0] else {
        panic!()
    };
    let effect = &updated.effects[0];
    assert_eq!(
        effect.metadata.get("text").and_then(|v| v.as_str()),
        Some("Updated"),
    );
    assert_eq!(
        effect.metadata.get("font_weight").and_then(|v| v.as_str()),
        Some("bold"),
    );
    assert_eq!(
        effect.metadata.get("position").and_then(|v| v.as_str()),
        Some("center"),
    );
    assert_eq!(
        effect.metadata.get("font_size").and_then(|v| v.as_u64()),
        Some(64),
    );
}

#[test]
fn apply_set_title_family_change_clears_stale_font_path() {
    let tl = timeline_with_three_clips();
    let insert_env = EdlEnvelope {
        ops: vec![EdlOp::InsertTitle {
            title: TextOverlay {
                start_s: num(0.0),
                end_s: num(3.0),
                text: "Original".into(),
                position: TitlePosition::Center,
                font_size: 64,
                color: "#FFFFFF".into(),
                font_weight: TitleWeight::Normal,
                animation: TitleAnimation::Still,
                phases: None,
            },
            font_family: None,
            font_path: Some("fonts/Custom.ttf".into()),
        }],
    };
    let (after_insert, _) = apply(&tl, &insert_env).unwrap();
    let StackChild::Track(titles) = &after_insert.tracks.children[1] else {
        panic!()
    };
    let TrackChild::Clip(title_clip) = &titles.children[0] else {
        panic!()
    };
    let title_uuid = title_clip
        .metadata
        .montage
        .as_ref()
        .and_then(|m| m.extra.get("clip_uuid"))
        .and_then(|v| v.as_str())
        .map(str::to_string)
        .expect("title clip should have a stamped clip_uuid");

    let set_env = EdlEnvelope {
        ops: vec![EdlOp::SetTitle {
            anchor: Anchor::ClipUuid { uuid: title_uuid },
            change: TitleChange {
                start_s: None,
                end_s: None,
                text: None,
                position: None,
                font_size: None,
                color: None,
                font_weight: None,
                animation: None,
                phases: None,
                font_family: Some("Helvetica".into()),
                font_path: None,
            },
        }],
    };
    let (after_set, _) = apply(&after_insert, &set_env).unwrap();
    let StackChild::Track(titles2) = &after_set.tracks.children[1] else {
        panic!()
    };
    let TrackChild::Clip(updated) = &titles2.children[0] else {
        panic!()
    };
    let effect = &updated.effects[0];
    assert_eq!(
        effect.metadata.get("font_family").and_then(|v| v.as_str()),
        Some("Helvetica"),
    );
    assert!(
        !effect.metadata.contains_key("font_path"),
        "stale font_path must be cleared when only font_family is set",
    );
}

#[test]
fn apply_set_title_rejects_clip_without_title_effect() {
    let tl = timeline_with_three_clips();
    let env = EdlEnvelope {
        ops: vec![EdlOp::SetTitle {
            anchor: Anchor::TranscriptSnippet {
                text: "bravo snippet".into(),
            },
            change: TitleChange {
                start_s: None,
                end_s: None,
                text: Some("nope".into()),
                position: None,
                font_size: None,
                color: None,
                font_weight: None,
                animation: None,
                phases: None,
                font_family: None,
                font_path: None,
            },
        }],
    };
    let err = apply(&tl, &env).unwrap_err();
    assert!(
        matches!(&err, ApplyError::Invalid { message, .. } if message.contains("montage.title"))
    );
}

#[test]
fn apply_set_broadcast_overlay_stores_timeline_metadata() {
    let tl = timeline_with_three_clips();
    let mut config = overlay(
        "Ben Adams",
        None,
        Some("branding/tadiwa.jpg"),
        vec![BroadcastTimedEntry { time_seconds: num(42.0), text: "Custom drones".into() }],
    );
    if let MetaValue::Object(document) = &mut config.document {
        document.insert("show_name", MetaValue::text("Technologia Talks"));
        document.insert("sponsors", list(&["LEARN-X", "Throwly"]));
        document.insert(
            "host_a",
            MetaValue::Object(pairs(vec![
                ("name", MetaValue::text("Tadiwa Mbuwayesango")),
                ("title", MetaValue::text("Co-Host")),
                ("photo_path", MetaValue::text("branding/tadiwa.jpg")),
            ])),
        );
    }
    let env = EdlEnvelope { ops: vec![EdlOp::SetBroadcastOverlay { config }] };

    let (new_tl, applied) = apply(&tl, &env).unwrap();
    assert_eq!(applied.applied.len(), 1);
    let stored = stored_overlay(&new_tl);
    assert_eq!(stored.at("episode_title").as_str(), Some("Ben Adams"));
    assert_eq!(stored.at("host_a").at("photo_path").as_str(), Some("branding/tadiwa.jpg"));
    assert_eq!(
        stored.at("topics").as_array().unwrap()[0].at("text").as_str(),
        Some("Custom drones")
    );
}

#[test]
fn apply_set_broadcast_overlay_replaces_existing_config() {
    let tl = timeline_with_three_clips();
    let first = overlay("First", None, None, Vec::new());
    let second = overlay(
        "Second",
        None,
        None,
        vec![BroadcastTimedEntry { time_seconds: num(5.0), text: "Replacement".into() }],
    );
    let (after_first, _) = apply(
        &tl,
        &EdlEnvelope { ops: vec![EdlOp::SetBroadcastOverlay { config: first }] },
    )
    .unwrap();
    let (after_second, _) = apply(
        &after_first,
        &EdlEnvelope { ops: vec![EdlOp::SetBroadcastOverlay { config: second }] },
    )
    .unwrap();
    let stored = stored_overlay(&after_second);
    assert_eq!(stored.at("episode_title").as_str(), Some("Second"));
    assert_eq!(stored.at("topics").as_array().unwrap().len(), 1);
}

#[test]
fn apply_set_broadcast_overlay_rejects_unsafe_asset_paths() {
    let tl = timeline_with_three_clips();
    let config = overlay("", None, Some("../secret.jpg"), Vec::new());
    let err = apply(&tl, &EdlEnvelope { ops: vec![EdlOp::SetBroadcastOverlay { config }] })
        .unwrap_err();
    assert!(
        matches!(&err, ApplyError::Invalid { message, .. } if message.contains("project-relative"))
    );
}

#[test]
fn apply_set_brand_kit_stores_timeline_metadata() {
    let tl = timeline_with_three_clips();
    let mut kit = brand(Some("branding/logo.png"), &["#FFD700", "#00CED1"]);
    kit.font_primary_path = Some("branding/primary.ttf".into());
    kit.music_path = Some("branding/theme.wav".into());
    kit.social_handles = 1;
    if let MetaValue::Object(document) = &mut kit.document {
        let handle = MetaValue::Object(pairs(vec![
            ("platform", MetaValue::text("youtube")),
            ("handle", MetaValue::text("@montage")),
            ("url", MetaValue::text("https://youtube.com/@montage")),
        ]));
        document.insert("font_primary_path", MetaValue::text("branding/primary.ttf"));
        document.insert("music_path", MetaValue::text("branding/theme.wav"));
        document.insert("social_handles", MetaValue::List(vec![handle]));
    }
    let env = EdlEnvelope { ops: vec![EdlOp::SetBrandKit { kit }] };

    let (new_tl, applied) = apply(&tl, &env).unwrap();
    assert_eq!(applied.applied.len(), 1);
    let stored = new_tl
        .metadata
        .montage
        .as_ref()
        .and_then(|m| m.brand_kit.as_ref())
        .expect("brand kit should be stored");
    assert_eq!(stored.at("logo_path").as_str(), Some("branding/logo.png"));
    let palette: Vec<Option<&str>> =
        stored.at("palette").as_array().unwrap().iter().map(|v| v.as_str()).collect();
    assert_eq!(palette, vec![Some("#FFD700"), Some("#00CED1")]);
    assert_eq!(
        stored.at("social_handles").as_array().unwrap()[0].at("handle").as_str(),
        Some("@montage")
    );
}

#[test]
fn apply_set_brand_kit_rejects_unsafe_paths() {
    let tl = timeline_with_three_clips();
    let kit = brand(Some("../secret.png"), &[]);
    let err =
        apply(&tl, &EdlEnvelope { ops: vec![EdlOp::SetBrandKit { kit }] }).unwrap_err();
    assert!(
        matches!(&err, ApplyError::Invalid { message, .. } if message.contains("project-relative"))
    );
}

#[test]
fn apply_set_brand_kit_rejects_malformed_palette_color() {
    let tl = timeline_with_three_clips();
    let kit = brand(None, &["#FFD700", "red:foo@1"]);
    let err =
        apply(&tl, &EdlEnvelope { ops: vec![EdlOp::SetBrandKit { kit }] }).unwrap_err();
    assert!(
        matches!(&err, ApplyError::Invalid { message, .. } if message.contains("palette[1]")),
        "expected palette[1] rejection, got {err:?}"
    );
}

#[test]
fn broadcast_overlay_reads_brand_logo_from_kit_when_unset() {
    let tl = timeline_with_three_clips();
    let kit = brand(Some("branding/logo.png"), &["#112233"]);
    let config = overlay("Episode 1", None, None, Vec::new());
    let env = EdlEnvelope {
        ops: vec![EdlOp::SetBrandKit { kit }, EdlOp::SetBroadcastOverlay { config }],
    };
    let (new_tl, _) = apply_asking(&tl, &env, |op: &EdlOp, a: &mut Answers| {
        if let EdlOp::SetBroadcastOverlay { .. } = op {
            let mut filled = overlay("Episode 1", Some("branding/logo.png"), None, Vec::new());
            if let MetaValue::Object(document) = &mut filled.document {
                document.insert(
                    "style",
                    MetaValue::Object(pairs(vec![("gold_hex", MetaValue::text("#112233"))])),
                );
            }
            a.overlay = Some(filled);
        }
    })
    .unwrap();
    let stored = stored_overlay(&new_tl);
    assert_eq!(stored.at("brand_logo_path").as_str(), Some("branding/logo.png"));
    assert_eq!(stored.at("style").at("gold_hex").as_str(), Some("#112233"));
}

#[test]
fn broadcast_overlay_keeps_local_logo_over_brand_kit() {
    let tl = timeline_with_three_clips();
    let kit = brand(Some("branding/kit_logo.png"), &[]);
    let config = overlay("", Some("branding/local_logo.png"), None, Vec::new());
    let env = EdlEnvelope {
        ops: vec![EdlOp::SetBrandKit { kit }, EdlOp::SetBroadcastOverlay { config }],
    };
    let (new_tl, _) = apply_asking(&tl, &env, |op: &EdlOp, a: &mut Answers| {
        if let EdlOp::SetBroadcastOverlay { .. } = op {
            a.overlay = Some(overlay("", Some("branding/local_logo.png"), None, Vec::new()));
        }
    })
    .unwrap();
    assert_eq!(
        stored_overlay(&new_tl).at("brand_logo_path").as_str(),
        Some("branding/local_logo.png")
    );
}

#[test]
fn delete_primary_clip_preserves_broadcast_overlay_topics_and_chapters() {
    let mut tl = timeline_with_three_clips();
    let topics = vec![
        BroadcastTimedEntry { time_seconds: num(4.0), text: "Before cut".into() },
        BroadcastTimedEntry { time_seconds: num(12.0), text: "After cut".into() },
    ];
    let chapters =
        vec![BroadcastTimedEntry { time_seconds: num(14.0), text: "Shifted chapter".into() }];
    tl.metadata.montage = Some(MontageTimelineMetadata {
        broadcast_overlay: Some(MetaValue::Object(pairs(vec![
            ("topics", timed(&topics)),
            ("chapters", timed(&chapters)),
        ]))),
        ..MontageTimelineMetadata::new()
    });

    let (new_tl, _) = apply(
        &tl,
        &EdlEnvelope {
            ops: vec![EdlOp::DeleteClip {
                anchor: Anchor::TranscriptSnippet {
                    text: "bravo snippet".into(),
                },
            }],
        },
    )
    .unwrap();

    let kept = stored_overlay(&new_tl);
    let topics = kept.at("topics").as_array().unwrap();
    let chapters = kept.at("chapters").as_array().unwrap();
    assert_eq!(topics[0].at("time_seconds").as_f64(), Some(4.0));
    assert_eq!(topics[1].at("time_seconds").as_f64(), Some(12.0));
    assert_eq!(chapters[0].at("time_seconds").as_f64(), Some(14.0));
}

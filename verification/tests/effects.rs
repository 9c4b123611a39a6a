//! Ops on picture and sound effects.
use montage_edl::clip::stamp_clip_uuid;
use montage_edl::dispatch::{Answers, op_effect};
use montage_edl::effect::{ColorCorrection, NormalizedEffect};
use montage_edl::effects::{AUDIO_FADE, LUT, VOLUME};
use montage_edl::engine::ApplyOutcome;
use montage_edl::envelope::{EdlEnvelope, EdlOp, ProfessionalTimelineEdit};
use montage_edl::error::{AnchorMiss, ApplyError};
use montage_edl::lut::LutFile;
use montage_edl::meta::{MetaMap, MetaValue};
use montage_edl::mint::ClipIds;
use montage_edl::model::{
    AudioRange, Clip, ClipLocator, ClipMetadata, ExternalReference, MediaReference,
    MontageClipMetadata, RationalTime, StackChild, TimeRange, Timeline, Track, TrackChild,
    TrackKind,
};
use montage_edl::num::Num;
use montage_edl::op::{Anchor, BetweenPlaces};

fn num(x: f64) -> Num {
    if x.is_nan() {
        Num::Nan
    } else if x.is_infinite() {
        if x > 0.0 {
            Num::PosInf
        } else {
            Num::NegInf
        }
    } else {
        Num::Fin((x * 1e15).round() as i128)
    }
}

fn float(x: Num) -> f64 {
    match x {
        Num::Nan => f64::NAN,
        Num::NegInf => f64::NEG_INFINITY,
        Num::Fin(v) => v as f64 / 1e15,
        Num::PosInf => f64::INFINITY,
    }
}

fn time(value: f64, rate: f64) -> RationalTime {
    RationalTime::new(num(value / rate), num(rate))
}

fn number(x: f64) -> MetaValue {
    MetaValue::number(num(x))
}

fn pairs(entries: Vec<(&str, MetaValue)>) -> MetaMap {
    let mut m = MetaMap::new();
    for (key, value) in entries {
        m.insert(key, value);
    }
    m
}

trait Json {
    fn as_str(&self) -> Option<&str>;
    fn as_f64(&self) -> Option<f64>;
    fn as_u64(&self) -> Option<u64>;
    fn as_array(&self) -> Option<&Vec<MetaValue>>;
    fn as_object(&self) -> Option<&MetaMap>;
    fn get(&self, key: &str) -> Option<&MetaValue>;
    fn at(&self, key: &str) -> &MetaValue;
}

impl Json for MetaValue {
    fn as_str(&self) -> Option<&str> {
        match self {
            MetaValue::Text(s) => Some(s),
            _ => None,
        }
    }

    fn as_f64(&self) -> Option<f64> {
        self.as_number().map(float)
    }

    fn as_u64(&self) -> Option<u64> {
        self.as_f64().filter(|x| x.fract() == 0.0 && *x >= 0.0).map(|x| x as u64)
    }

    fn as_array(&self) -> Option<&Vec<MetaValue>> {
        match self {
            MetaValue::List(v) => Some(v),
            _ => None,
        }
    }

    fn as_object(&self) -> Option<&MetaMap> {
        match self {
            MetaValue::Object(m) => Some(m),
            _ => None,
        }
    }

    fn get(&self, key: &str) -> Option<&MetaValue> {
        self.as_object().and_then(|m| m.get(key))
    }

    fn at(&self, key: &str) -> &MetaValue {
        self.get(key).expect("a value")
    }
}

trait Keys {
    fn contains_key(&self, key: &str) -> bool;
    fn at(&self, key: &str) -> &MetaValue;
}

impl Keys for MetaMap {
    fn contains_key(&self, key: &str) -> bool {
        self.get(key).is_some()
    }

    fn at(&self, key: &str) -> &MetaValue {
        self.get(key).expect("a value")
    }
}

fn no_metadata() -> ClipMetadata {
    ClipMetadata { montage: None, extra: MetaMap::new() }
}

fn timeline_with_three_clips() -> Timeline {
    let mut tl = Timeline::empty("test");
    let mut track = Track::empty("V1", TrackKind::Video);
    for (i, snip) in ["alpha snippet", "bravo snippet", "charlie snippet"].iter().enumerate() {
        let mut c = Clip::empty(&format!("clip-{i}"));
        c.media_reference =
            MediaReference::External(ExternalReference::new(&format!("raw/{i}.mp4")));
        c.source_range = Some(TimeRange::new(time(0.0, 24.0), time(5.0 * 24.0, 24.0)));
        c.metadata = ClipMetadata {
            montage: Some(MontageClipMetadata {
                transcript_snippet: Some((*snip).to_string()),
                ..MontageClipMetadata::new()
            }),
            ..no_metadata()
        };
        track.children.push(TrackChild::Clip(c));
    }
    tl.tracks.children.push(StackChild::Track(track));
    tl
}

fn extract_clip_uuid(clip: &Clip) -> Option<String> {
    clip.metadata
        .montage
        .as_ref()
        .and_then(|m| m.extra.get("clip_uuid"))
        .and_then(|v| v.as_text())
}

fn stamp_fresh_clip_uuid(clip: &mut Clip) {
    stamp_clip_uuid(clip, &ClipIds::new(7).draw());
}

/// Where an anchor leads: to the clip with the unique id or the name, or to the
/// clip whose transcript holds the text.
fn place(timeline: &Timeline, anchor: &Anchor) -> Result<ClipLocator, AnchorMiss> {
    for (track_index, layer) in timeline.tracks.children.iter().enumerate() {
        let StackChild::Track(track) = layer else {
            continue;
        };
        for (child_index, child) in track.children.iter().enumerate() {
            let TrackChild::Clip(clip) = child else {
                continue;
            };
            let montage = clip.metadata.montage.as_ref();
            let here = match anchor {
                Anchor::ClipUuid { uuid } => {
                    clip.name == *uuid
                        || montage.and_then(|m| m.extra.get_text("clip_uuid")).as_ref()
                            == Some(uuid)
                }
                Anchor::TranscriptSnippet { text } => montage
                    .and_then(|m| m.transcript_snippet.as_ref())
                    .is_some_and(|s| s.contains(text.as_str())),
            };
            if here {
                return Ok(ClipLocator { track_index, child_index });
            }
        }
    }
    Err(AnchorMiss { text: format!("no clip at {anchor:?}") })
}

fn answers(timeline: &Timeline, op: &EdlOp, anchor: &Option<Anchor>) -> Answers {
    let mut a = Answers::plain(MetaValue::Null);
    if let Some(x) = anchor {
        a.place = place(timeline, x);
    }
    let between = match op {
        EdlOp::InsertTransition { between, .. }
        | EdlOp::DeleteTransition { between }
        | EdlOp::SetCutIntent { between, .. }
        | EdlOp::ProfessionalTimelineEdit {
            edit: ProfessionalTimelineEdit::RollEdit { between, .. },
            ..
        } => Some(between),
        _ => None,
    };
    if let Some(b) = between {
        a.between =
            BetweenPlaces { from: place(timeline, &b.from), to: place(timeline, &b.to) };
    }
    if let EdlOp::ProfessionalTimelineEdit { edit, .. } = op {
        if let ProfessionalTimelineEdit::UpdateMarker { selector, .. }
        | ProfessionalTimelineEdit::DeleteMarker { selector } = edit
        {
            a.marker = selector.anchor.as_ref().map(|x| place(timeline, x));
        }
    }
    a
}

fn apply_asking<F: Fn(&EdlOp, &mut Answers)>(
    tl: &Timeline,
    env: &EdlEnvelope,
    adjust: F,
) -> Result<(Timeline, ApplyOutcome), ApplyError> {
    montage_edl::engine::apply(
        tl,
        env,
        |working: &Timeline, op: &EdlOp, anchor: &Option<Anchor>| {
            let mut a = answers(working, op, anchor);
            adjust(op, &mut a);
            a
        },
        &mut ClipIds::new(0),
    )
}

/// The effects that these tests stamp, as the registry normalizes them.
fn known_effect(id: &str, params: &MetaMap) -> Result<NormalizedEffect, String> {
    let (display_name, defaults): (&str, Vec<(&str, f64)>) = match id {
        "montage.color_correction" => ("Color Correction", vec![]),
        "montage.shake" => ("Shake", vec![("intensity_px", 8.0), ("frequency_hz", 12.0)]),
        "montage.blur" => ("Blur", vec![("radius_px", 8.0)]),
        "montage.warp" => {
            ("Warp", vec![("k1", -0.08), ("k2", 0.0), ("center_x", 0.5), ("center_y", 0.5)])
        }
        "montage.volume" => ("Volume", vec![]),
        "montage.lut" => ("LUT", vec![]),
        "montage.color_pipeline" => ("Color Pipeline", vec![]),
        "montage.time_remap" => ("Time Remap", vec![]),
        "montage.freeze" => ("Freeze", vec![]),
        _ => return Err(format!("unknown effect id {id:?}")),
    };
    if params.get("contrast").and_then(|v| v.as_f64()).is_some_and(|x| x > 3.0) {
        return Err("contrast must be at most 3".to_string());
    }
    let mut metadata = pairs(defaults.into_iter().map(|(k, x)| (k, number(x))).collect());
    metadata.insert_all(params);
    Ok(NormalizedEffect {
        id: id.to_string(),
        display_name: display_name.to_string(),
        clip_scoped: true,
        replaces_same: true,
        metadata,
    })
}

fn effect_answers(op: &EdlOp, a: &mut Answers) {
    if let Some((id, params)) = op_effect(op) {
        a.effect.effect = known_effect(&id, &params);
        a.effect.color_spaces = vec!["arri_logc4".to_string(), "rec709_g24".to_string()];
        a.effect.mask_extensions = vec!["png".to_string(), "mov".to_string()];
    }
}

fn apply(tl: &Timeline, env: &EdlEnvelope) -> Result<(Timeline, ApplyOutcome), ApplyError> {
    apply_asking(tl, env, effect_answers)
}

#[test]
fn apply_audio_fade_and_track_audio_replace_metadata() {
    let tl = timeline_with_three_clips();
    let env = EdlEnvelope {
        ops: vec![
            EdlOp::SetAudioFade {
                anchor: Anchor::ClipUuid {
                    uuid: "clip-0".into(),
                },
                fade_in_s: Some(num(0.25)),
                fade_out_s: Some(num(0.5)),
            },
            EdlOp::SetTrackAudio {
                track: "V1".into(),
                role: Some("dialogue".into()),
                volume: Some(num(0.8)),
                muted: Some(false),
                solo: Some(true),
            },
        ],
    };
    let err = apply(&tl, &env).unwrap_err();
    assert!(
        err.text().contains("is not an audio track"),
        "expected video-track rejection, got {err:?}"
    );

    let mut audio_tl = Timeline::empty("audio");
    let mut track = Track::empty("A1", TrackKind::Audio);
    let mut clip = Clip::empty("clip-0");
    clip.media_reference = MediaReference::External(
        ExternalReference::new("raw/a.wav"),
    );
    clip.source_range = Some(TimeRange::new(
        time(0.0, 24.0),
        time(10.0 * 24.0, 24.0),
    ));
    stamp_fresh_clip_uuid(&mut clip);
    track.children.push(TrackChild::Clip(clip));
    audio_tl.tracks.children.push(StackChild::Track(track));
    let uuid = match &audio_tl.tracks.children[0] {
        StackChild::Track(t) => match &t.children[0] {
            TrackChild::Clip(c) => extract_clip_uuid(c).unwrap(),
            _ => unreachable!(),
        },
        _ => unreachable!(),
    };
    let env = EdlEnvelope {
        ops: vec![
            EdlOp::SetAudioFade {
                anchor: Anchor::ClipUuid { uuid },
                fade_in_s: Some(num(0.25)),
                fade_out_s: Some(num(0.5)),
            },
            EdlOp::SetTrackAudio {
                track: "A1".into(),
                role: Some("dialogue".into()),
                volume: Some(num(0.8)),
                muted: Some(false),
                solo: Some(true),
            },
        ],
    };
    let (new_tl, _) = apply(&audio_tl, &env).unwrap();
    let StackChild::Track(t) = &new_tl.tracks.children[0] else {
        panic!()
    };
    assert_eq!(t.metadata.at("montage_audio").at("volume").as_f64().unwrap(), 0.8);
    let TrackChild::Clip(c) = &t.children[0] else {
        panic!()
    };
    let fade = c
        .effects
        .iter()
        .find(|e| e.effect_name == AUDIO_FADE)
        .unwrap();
    assert_eq!(fade.metadata.at("fade_in_s").as_f64(), Some(0.25));
    assert_eq!(fade.metadata.at("fade_out_s").as_f64(), Some(0.5));
}

#[test]
fn apply_set_volume_stamps_effect_with_value() {
    let tl = timeline_with_three_clips();
    let env = EdlEnvelope {
        ops: vec![EdlOp::SetVolume {
            anchor: Anchor::TranscriptSnippet {
                text: "bravo snippet".into(),
            },
            value: num(0.5),
        }],
    };
    let (new_tl, _) = apply(&tl, &env).unwrap();
    let StackChild::Track(t) = &new_tl.tracks.children[0] else {
        panic!()
    };
    let TrackChild::Clip(clip) = &t.children[1] else {
        panic!()
    };
    assert_eq!(clip.effects.len(), 1);
    assert_eq!(clip.effects[0].effect_name, "montage.volume");
    let v = clip.effects[0]
        .metadata
        .get("value")
        .and_then(|v| v.as_f64())
        .unwrap();
    assert!((v - 0.5).abs() < 1e-9);
}

#[test]
fn apply_mute_clip_sets_and_clears_override() {
    let tl = timeline_with_three_clips();
    let anchor = || Anchor::TranscriptSnippet {
        text: "bravo snippet".into(),
    };

    let env = EdlEnvelope {
        ops: vec![EdlOp::MuteClip {
            anchor: anchor(),
            muted: true,
        }],
    };
    let (muted_tl, _) = apply(&tl, &env).unwrap();
    let StackChild::Track(t) = &muted_tl.tracks.children[0] else {
        panic!()
    };
    let TrackChild::Clip(clip) = &t.children[1] else {
        panic!()
    };
    assert!(
        clip.metadata
            .montage
            .as_ref()
            .and_then(|m| m.audio_override.as_ref())
            .map(|o| o.muted)
            .unwrap_or(false),
        "clip audio must be muted"
    );
    assert!(
        clip.effects.is_empty(),
        "mute is metadata, not an effect — picture untouched"
    );

    let env = EdlEnvelope {
        ops: vec![EdlOp::MuteClip {
            anchor: anchor(),
            muted: false,
        }],
    };
    let (unmuted_tl, _) = apply(&muted_tl, &env).unwrap();
    let StackChild::Track(t) = &unmuted_tl.tracks.children[0] else {
        panic!()
    };
    let TrackChild::Clip(clip) = &t.children[1] else {
        panic!()
    };
    assert!(
        clip.metadata
            .montage
            .as_ref()
            .and_then(|m| m.audio_override.as_ref())
            .is_none(),
        "unmuting with no other override clears it"
    );
}

#[test]
fn apply_remove_audio_appends_and_clears_ranges() {
    let tl = timeline_with_three_clips();
    let anchor = || Anchor::TranscriptSnippet {
        text: "bravo snippet".into(),
    };
    let removed = |tl: &Timeline| -> Vec<AudioRange> {
        let StackChild::Track(t) = &tl.tracks.children[0] else {
            panic!()
        };
        let TrackChild::Clip(clip) = &t.children[1] else {
            panic!()
        };
        clip.metadata
            .montage
            .as_ref()
            .and_then(|m| m.audio_override.as_ref())
            .map(|o| o.removed_ranges.clone())
            .unwrap_or_default()
    };

    let env = EdlEnvelope {
        ops: vec![
            EdlOp::RemoveAudio {
                anchor: anchor(),
                start_s: Some(num(1.0)),
                end_s: Some(num(2.0)),
                clear: false,
            },
            EdlOp::RemoveAudio {
                anchor: anchor(),
                start_s: Some(num(4.0)),
                end_s: Some(num(5.0)),
                clear: false,
            },
        ],
    };
    let (added_tl, _) = apply(&tl, &env).unwrap();
    let ranges = removed(&added_tl);
    assert_eq!(ranges.len(), 2);
    assert_eq!((ranges[0].start_s, ranges[0].end_s), (num(1.0), num(2.0)));
    assert_eq!((ranges[1].start_s, ranges[1].end_s), (num(4.0), num(5.0)));

    let env = EdlEnvelope {
        ops: vec![EdlOp::RemoveAudio {
            anchor: anchor(),
            start_s: None,
            end_s: None,
            clear: true,
        }],
    };
    let (cleared_tl, _) = apply(&added_tl, &env).unwrap();
    assert!(removed(&cleared_tl).is_empty());
    let StackChild::Track(t) = &cleared_tl.tracks.children[0] else {
        panic!()
    };
    let TrackChild::Clip(clip) = &t.children[1] else {
        panic!()
    };
    assert!(
        clip.metadata
            .montage
            .as_ref()
            .and_then(|m| m.audio_override.as_ref())
            .is_none(),
        "clearing the only override removes it"
    );
}

#[test]
fn apply_remove_audio_rejects_inverted_span() {
    let tl = timeline_with_three_clips();
    let env = EdlEnvelope {
        ops: vec![EdlOp::RemoveAudio {
            anchor: Anchor::TranscriptSnippet {
                text: "bravo snippet".into(),
            },
            start_s: Some(num(5.0)),
            end_s: Some(num(3.0)),
            clear: false,
        }],
    };
    assert!(apply(&tl, &env).is_err());
}

#[test]
fn apply_set_volume_replaces_existing_effect() {
    let tl = timeline_with_three_clips();
    let env = EdlEnvelope {
        ops: vec![
            EdlOp::SetVolume {
                anchor: Anchor::TranscriptSnippet {
                    text: "bravo snippet".into(),
                },
                value: num(0.5),
            },
            EdlOp::SetVolume {
                anchor: Anchor::TranscriptSnippet {
                    text: "bravo snippet".into(),
                },
                value: num(0.8),
            },
        ],
    };
    let (new_tl, _) = apply(&tl, &env).unwrap();
    let StackChild::Track(t) = &new_tl.tracks.children[0] else {
        panic!()
    };
    let TrackChild::Clip(clip) = &t.children[1] else {
        panic!()
    };
    assert_eq!(clip.effects.len(), 1);
    let v = clip.effects[0]
        .metadata
        .get("value")
        .and_then(|v| v.as_f64())
        .unwrap();
    assert!((v - 0.8).abs() < 1e-9);
}

#[test]
fn apply_set_volume_rejects_negative_value() {
    let tl = timeline_with_three_clips();
    let env = EdlEnvelope {
        ops: vec![EdlOp::SetVolume {
            anchor: Anchor::TranscriptSnippet {
                text: "bravo snippet".into(),
            },
            value: num(-0.1),
        }],
    };
    let err = apply(&tl, &env).unwrap_err();
    assert!(
        matches!(err, ApplyError::Invalid { ref message, .. } if message.contains(">= 0.0")),
        "expected validation error, got {err:?}",
    );
}

#[test]
fn apply_set_effect_stamps_validated_metadata() {
    let tl = timeline_with_three_clips();
    let env = EdlEnvelope {
        ops: vec![EdlOp::SetEffect {
            anchor: Anchor::TranscriptSnippet {
                text: "bravo snippet".into(),
            },
            effect: "montage.color_correction".into(),
            params: pairs(vec![
                ("contrast", number(1.15)),
                ("saturation", number(0.9)),
            ]),
            rationale: Some("subtle correction for flat camera angle".into()),
        }],
    };
    let (new_tl, _) = apply(&tl, &env).unwrap();
    let StackChild::Track(t) = &new_tl.tracks.children[0] else {
        panic!()
    };
    let TrackChild::Clip(clip) = &t.children[1] else {
        panic!()
    };
    assert_eq!(clip.effects.len(), 1);
    assert_eq!(clip.effects[0].effect_name, "montage.color_correction");
    assert_eq!(clip.effects[0].name, "Color Correction");
    assert_eq!(
        clip.effects[0]
            .metadata
            .get("contrast")
            .and_then(|v| v.as_f64()),
        Some(1.15)
    );
    assert_eq!(
        clip.effects[0]
            .metadata
            .get("rationale")
            .and_then(|v| v.as_str()),
        Some("subtle correction for flat camera angle")
    );
}

#[test]
fn apply_set_effect_stamps_shake_defaults() {
    let tl = timeline_with_three_clips();
    let env = EdlEnvelope {
        ops: vec![EdlOp::SetEffect {
            anchor: Anchor::TranscriptSnippet {
                text: "bravo snippet".into(),
            },
            effect: "montage.shake".into(),
            params: MetaMap::new(),
            rationale: Some("add handheld emphasis".into()),
        }],
    };
    let (new_tl, _) = apply(&tl, &env).unwrap();
    let StackChild::Track(t) = &new_tl.tracks.children[0] else {
        panic!()
    };
    let TrackChild::Clip(clip) = &t.children[1] else {
        panic!()
    };
    let effect = clip
        .effects
        .iter()
        .find(|effect| effect.effect_name == "montage.shake")
        .expect("shake effect should be stamped");
    assert_eq!(effect.name, "Shake");
    assert_eq!(
        effect.metadata.get("intensity_px").and_then(|v| v.as_f64()),
        Some(8.0)
    );
    assert_eq!(
        effect.metadata.get("frequency_hz").and_then(|v| v.as_f64()),
        Some(12.0)
    );
    assert_eq!(
        effect.metadata.get("rationale").and_then(|v| v.as_str()),
        Some("add handheld emphasis")
    );
}

#[test]
fn apply_set_effect_stamps_blur_defaults() {
    let tl = timeline_with_three_clips();
    let env = EdlEnvelope {
        ops: vec![EdlOp::SetEffect {
            anchor: Anchor::TranscriptSnippet {
                text: "bravo snippet".into(),
            },
            effect: "montage.blur".into(),
            params: MetaMap::new(),
            rationale: Some("soften distracting background".into()),
        }],
    };
    let (new_tl, _) = apply(&tl, &env).unwrap();
    let StackChild::Track(t) = &new_tl.tracks.children[0] else {
        panic!()
    };
    let TrackChild::Clip(clip) = &t.children[1] else {
        panic!()
    };
    let effect = clip
        .effects
        .iter()
        .find(|effect| effect.effect_name == "montage.blur")
        .expect("blur effect should be stamped");
    assert_eq!(effect.name, "Blur");
    assert_eq!(
        effect.metadata.get("radius_px").and_then(|v| v.as_f64()),
        Some(8.0)
    );
    assert_eq!(
        effect.metadata.get("rationale").and_then(|v| v.as_str()),
        Some("soften distracting background")
    );
}

#[test]
fn apply_set_effect_stamps_warp_defaults() {
    let tl = timeline_with_three_clips();
    let env = EdlEnvelope {
        ops: vec![EdlOp::SetEffect {
            anchor: Anchor::TranscriptSnippet {
                text: "bravo snippet".into(),
            },
            effect: "montage.warp".into(),
            params: MetaMap::new(),
            rationale: Some("add stylized lens bend".into()),
        }],
    };
    let (new_tl, _) = apply(&tl, &env).unwrap();
    let StackChild::Track(t) = &new_tl.tracks.children[0] else {
        panic!()
    };
    let TrackChild::Clip(clip) = &t.children[1] else {
        panic!()
    };
    let effect = clip
        .effects
        .iter()
        .find(|effect| effect.effect_name == "montage.warp")
        .expect("warp effect should be stamped");
    assert_eq!(effect.name, "Warp");
    assert_eq!(
        effect.metadata.get("k1").and_then(|v| v.as_f64()),
        Some(-0.08)
    );
    assert_eq!(
        effect.metadata.get("k2").and_then(|v| v.as_f64()),
        Some(0.0)
    );
    assert_eq!(
        effect.metadata.get("center_x").and_then(|v| v.as_f64()),
        Some(0.5)
    );
    assert_eq!(
        effect.metadata.get("center_y").and_then(|v| v.as_f64()),
        Some(0.5)
    );
    assert_eq!(
        effect.metadata.get("rationale").and_then(|v| v.as_str()),
        Some("add stylized lens bend")
    );
}

#[test]
fn apply_set_effect_replaces_same_id_effect() {
    let tl = timeline_with_three_clips();
    let env = EdlEnvelope {
        ops: vec![
            EdlOp::SetEffect {
                anchor: Anchor::TranscriptSnippet {
                    text: "bravo snippet".into(),
                },
                effect: "montage.color_correction".into(),
                params: pairs(vec![("contrast",
                    number(1.15),
                )]),
                rationale: None,
            },
            EdlOp::SetEffect {
                anchor: Anchor::TranscriptSnippet {
                    text: "bravo snippet".into(),
                },
                effect: "montage.color_correction".into(),
                params: pairs(vec![("saturation",
                    number(0.8),
                )]),
                rationale: None,
            },
        ],
    };
    let (new_tl, _) = apply(&tl, &env).unwrap();
    let StackChild::Track(t) = &new_tl.tracks.children[0] else {
        panic!()
    };
    let TrackChild::Clip(clip) = &t.children[1] else {
        panic!()
    };
    let color_effects: Vec<_> = clip
        .effects
        .iter()
        .filter(|effect| effect.effect_name == "montage.color_correction")
        .collect();
    assert_eq!(color_effects.len(), 1);
    assert!(!color_effects[0].metadata.contains_key("contrast"));
    assert_eq!(
        color_effects[0]
            .metadata
            .get("saturation")
            .and_then(|v| v.as_f64()),
        Some(0.8)
    );
}

#[test]
fn apply_set_effect_preserves_different_effect_ids() {
    let tl = timeline_with_three_clips();
    let env = EdlEnvelope {
        ops: vec![
            EdlOp::SetEffect {
                anchor: Anchor::TranscriptSnippet {
                    text: "bravo snippet".into(),
                },
                effect: "montage.volume".into(),
                params: pairs(vec![("value", number(0.75))]),
                rationale: None,
            },
            EdlOp::SetEffect {
                anchor: Anchor::TranscriptSnippet {
                    text: "bravo snippet".into(),
                },
                effect: "montage.color_correction".into(),
                params: pairs(vec![("contrast",
                    number(1.1),
                )]),
                rationale: None,
            },
        ],
    };
    let (new_tl, _) = apply(&tl, &env).unwrap();
    let StackChild::Track(t) = &new_tl.tracks.children[0] else {
        panic!()
    };
    let TrackChild::Clip(clip) = &t.children[1] else {
        panic!()
    };
    assert!(
        clip.effects
            .iter()
            .any(|e| e.effect_name == "montage.volume")
    );
    assert!(
        clip.effects
            .iter()
            .any(|e| e.effect_name == "montage.color_correction")
    );
}

#[test]
fn apply_set_effect_rejects_unknown_effect_before_writing() {
    let tl = timeline_with_three_clips();
    let env = EdlEnvelope {
        ops: vec![EdlOp::SetEffect {
            anchor: Anchor::TranscriptSnippet {
                text: "bravo snippet".into(),
            },
            effect: "montage.nope".into(),
            params: MetaMap::new(),
            rationale: None,
        }],
    };
    let err = apply(&tl, &env).unwrap_err();
    assert!(
        matches!(err, ApplyError::Invalid { ref message, .. } if message.contains("unknown effect id")),
        "expected unknown effect validation error, got {err:?}"
    );
    let StackChild::Track(t) = &tl.tracks.children[0] else {
        panic!()
    };
    let TrackChild::Clip(clip) = &t.children[1] else {
        panic!()
    };
    assert!(clip.effects.is_empty());
}

#[test]
fn apply_set_effect_rejects_out_of_range_params_before_writing() {
    let tl = timeline_with_three_clips();
    let env = EdlEnvelope {
        ops: vec![EdlOp::SetEffect {
            anchor: Anchor::TranscriptSnippet {
                text: "bravo snippet".into(),
            },
            effect: "montage.color_correction".into(),
            params: pairs(vec![("contrast", number(4.0))]),
            rationale: None,
        }],
    };
    let err = apply(&tl, &env).unwrap_err();
    assert!(
        matches!(err, ApplyError::Invalid { ref message, .. } if message.contains("contrast")),
        "expected range validation error, got {err:?}"
    );
    let StackChild::Track(t) = &tl.tracks.children[0] else {
        panic!()
    };
    let TrackChild::Clip(clip) = &t.children[1] else {
        panic!()
    };
    assert!(clip.effects.is_empty());
}

#[test]
fn apply_set_speed_stamps_effect_with_factor() {
    let tl = timeline_with_three_clips();
    let env = EdlEnvelope {
        ops: vec![EdlOp::SetSpeed {
            anchor: Anchor::TranscriptSnippet {
                text: "bravo snippet".into(),
            },
            factor: num(2.0),
        }],
    };
    let (new_tl, _) = apply(&tl, &env).unwrap();
    let StackChild::Track(t) = &new_tl.tracks.children[0] else {
        panic!()
    };
    let TrackChild::Clip(clip) = &t.children[1] else {
        panic!()
    };
    assert_eq!(clip.effects.len(), 1);
    assert_eq!(clip.effects[0].effect_name, "montage.speed");
    let f = clip.effects[0]
        .metadata
        .get("factor")
        .and_then(|v| v.as_f64())
        .unwrap();
    assert!((f - 2.0).abs() < 1e-9);
}

#[test]
fn apply_set_time_remap_stamps_time_remap_effect() {
    let tl = timeline_with_three_clips();
    let env = EdlEnvelope {
        ops: vec![EdlOp::SetTimeRemap {
            anchor: Anchor::TranscriptSnippet {
                text: "bravo snippet".into(),
            },
            curve: MetaValue::List(vec![
                MetaValue::Object(pairs(vec![
                    ("source_time_s", number(0.0)),
                    ("timeline_time_s", number(0.0)),
                ])),
                MetaValue::Object(pairs(vec![
                    ("source_time_s", number(2.0)),
                    ("timeline_time_s", number(3.0)),
                ])),
            ])
        }],
    };
    let (new_tl, _) = apply(&tl, &env).unwrap();
    let StackChild::Track(t) = &new_tl.tracks.children[0] else {
        panic!()
    };
    let TrackChild::Clip(clip) = &t.children[1] else {
        panic!()
    };
    assert_eq!(clip.effects.len(), 1);
    assert_eq!(clip.effects[0].effect_name, "montage.time_remap");
    let curve = clip.effects[0]
        .metadata
        .get("curve")
        .and_then(|value| value.as_array())
        .unwrap();
    assert_eq!(curve.len(), 2);
    assert_eq!(curve[1].at("source_time_s").as_f64(), Some(2.0));
    assert_eq!(curve[1].at("timeline_time_s").as_f64(), Some(3.0));
}

#[test]
fn apply_set_freeze_stamps_freeze_effect() {
    let tl = timeline_with_three_clips();
    let env = EdlEnvelope {
        ops: vec![EdlOp::SetFreeze {
            anchor: Anchor::TranscriptSnippet {
                text: "bravo snippet".into(),
            },
            freeze_at_source_s: num(1.2),
            duration_s: num(0.8),
            freeze_position: Some("at".into()),
            audio_behavior: Some("silence".into()),
        }],
    };
    let (new_tl, _) = apply(&tl, &env).unwrap();
    let StackChild::Track(t) = &new_tl.tracks.children[0] else {
        panic!()
    };
    let TrackChild::Clip(clip) = &t.children[1] else {
        panic!()
    };
    assert_eq!(clip.effects.len(), 1);
    assert_eq!(clip.effects[0].effect_name, "montage.freeze");
    assert_eq!(
        clip.effects[0]
            .metadata
            .get("freeze_at_source_s")
            .and_then(|value| value.as_f64()),
        Some(1.2)
    );
    assert_eq!(
        clip.effects[0]
            .metadata
            .get("duration_s")
            .and_then(|value| value.as_f64()),
        Some(0.8)
    );
}

#[test]
fn apply_set_speed_rejects_zero_factor() {
    let tl = timeline_with_three_clips();
    let env = EdlEnvelope {
        ops: vec![EdlOp::SetSpeed {
            anchor: Anchor::TranscriptSnippet {
                text: "bravo snippet".into(),
            },
            factor: num(0.0),
        }],
    };
    let err = apply(&tl, &env).unwrap_err();
    assert!(
        matches!(err, ApplyError::Invalid { ref message, .. } if message.contains("> 0.0")),
        "expected validation error, got {err:?}",
    );
}

#[test]
fn apply_set_color_correction_stamps_effect_with_fields() {
    let tl = timeline_with_three_clips();
    let env = EdlEnvelope {
        ops: vec![EdlOp::SetColorCorrection {
            anchor: Anchor::TranscriptSnippet {
                text: "bravo snippet".into(),
            },
            correction: ColorCorrection {
                exposure_ev: Some(num(0.25)),
                contrast: Some(num(1.1)),
                saturation: None,
                temperature: Some(num(-0.2)),
                tint: None,
                shadows: None,
                highlights: Some(num(-0.3)),
            },
        }],
    };
    let (new_tl, _) = apply(&tl, &env).unwrap();
    let StackChild::Track(t) = &new_tl.tracks.children[0] else {
        panic!()
    };
    let TrackChild::Clip(clip) = &t.children[1] else {
        panic!()
    };
    assert_eq!(clip.effects.len(), 1);
    assert_eq!(clip.effects[0].effect_name, "montage.color_correction");
    assert_eq!(
        clip.effects[0]
            .metadata
            .get("exposure_ev")
            .and_then(|v| v.as_f64()),
        Some(0.25)
    );
    assert_eq!(
        clip.effects[0]
            .metadata
            .get("temperature")
            .and_then(|v| v.as_f64()),
        Some(-0.2)
    );
    assert!(!clip.effects[0].metadata.contains_key("saturation"));
}

#[test]
fn apply_set_color_correction_replaces_existing_effect() {
    let tl = timeline_with_three_clips();
    let env = EdlEnvelope {
        ops: vec![
            EdlOp::SetColorCorrection {
                anchor: Anchor::TranscriptSnippet {
                    text: "bravo snippet".into(),
                },
                correction: ColorCorrection {
                    exposure_ev: Some(num(0.25)),
                    contrast: None,
                    saturation: None,
                    temperature: None,
                    tint: None,
                    shadows: None,
                    highlights: None,
                },
            },
            EdlOp::SetColorCorrection {
                anchor: Anchor::TranscriptSnippet {
                    text: "bravo snippet".into(),
                },
                correction: ColorCorrection {
                    exposure_ev: None,
                    contrast: Some(num(0.9)),
                    saturation: Some(num(1.2)),
                    temperature: None,
                    tint: None,
                    shadows: None,
                    highlights: None,
                },
            },
        ],
    };
    let (new_tl, _) = apply(&tl, &env).unwrap();
    let StackChild::Track(t) = &new_tl.tracks.children[0] else {
        panic!()
    };
    let TrackChild::Clip(clip) = &t.children[1] else {
        panic!()
    };
    let color_effects: Vec<_> = clip
        .effects
        .iter()
        .filter(|effect| effect.effect_name == "montage.color_correction")
        .collect();
    assert_eq!(color_effects.len(), 1);
    assert!(!color_effects[0].metadata.contains_key("exposure_ev"));
    assert_eq!(
        color_effects[0]
            .metadata
            .get("saturation")
            .and_then(|v| v.as_f64()),
        Some(1.2)
    );
}

#[test]
fn apply_set_color_correction_rejects_invalid_field_value() {
    let tl = timeline_with_three_clips();
    let env = EdlEnvelope {
        ops: vec![EdlOp::SetColorCorrection {
            anchor: Anchor::TranscriptSnippet {
                text: "bravo snippet".into(),
            },
            correction: ColorCorrection {
                exposure_ev: Some(num(8.0)),
                contrast: None,
                saturation: None,
                temperature: None,
                tint: None,
                shadows: None,
                highlights: None,
            },
        }],
    };
    let err = apply(&tl, &env).unwrap_err();
    assert!(
        matches!(err, ApplyError::Invalid { ref message, .. } if message.contains("exposure_ev")),
        "expected validation error, got {err:?}",
    );
}

#[test]
fn apply_lut_stamps_effect_and_rejects_unsafe_paths() {
    let tl = timeline_with_three_clips();
    let env = EdlEnvelope {
        ops: vec![EdlOp::ApplyLut {
            anchor: Anchor::TranscriptSnippet {
                text: "bravo snippet".into(),
            },
            lut_path: " luts/show-look.cube ".into(),
            interpolation: Some("TETRAHEDRAL".into()),
            strength: None,
        }],
    };
    let (new_tl, _) = apply(&tl, &env).unwrap();
    let StackChild::Track(t) = &new_tl.tracks.children[0] else {
        panic!()
    };
    let TrackChild::Clip(clip) = &t.children[1] else {
        panic!()
    };
    assert_eq!(clip.effects.len(), 1);
    assert_eq!(clip.effects[0].effect_name, "montage.lut");
    assert_eq!(
        clip.effects[0]
            .metadata
            .get("lut_path")
            .and_then(|v| v.as_str()),
        Some("luts/show-look.cube")
    );
    assert_eq!(
        clip.effects[0]
            .metadata
            .get("interpolation")
            .and_then(|v| v.as_str()),
        Some("tetrahedral")
    );

    let err = apply(
        &tl,
        &EdlEnvelope {
            ops: vec![EdlOp::ApplyLut {
                anchor: Anchor::TranscriptSnippet {
                    text: "bravo snippet".into(),
                },
                lut_path: "../secret.cube".into(),
                interpolation: None,
                strength: None,
            }],
        },
    )
    .unwrap_err();
    assert!(
        matches!(err, ApplyError::Invalid { ref message, .. } if message.contains("project-relative")),
        "expected unsafe path validation error, got {err:?}",
    );

    let err = apply(
        &tl,
        &EdlEnvelope {
            ops: vec![EdlOp::ApplyLut {
                anchor: Anchor::TranscriptSnippet {
                    text: "bravo snippet".into(),
                },
                lut_path: "luts/show-look.txt".into(),
                interpolation: None,
                strength: None,
            }],
        },
    )
    .unwrap_err();
    assert!(
        matches!(err, ApplyError::Invalid { ref message, .. } if message.contains("must end in one of")),
        "expected LUT extension validation error, got {err:?}",
    );

    let err = apply(
        &tl,
        &EdlEnvelope {
            ops: vec![EdlOp::ApplyLut {
                anchor: Anchor::TranscriptSnippet {
                    text: "bravo snippet".into(),
                },
                lut_path: "luts/show-look.cube".into(),
                interpolation: Some("magic".into()),
                strength: None,
            }],
        },
    )
    .unwrap_err();
    assert!(
        matches!(err, ApplyError::Invalid { ref message, .. } if message.contains("interpolation")),
        "expected interpolation validation error, got {err:?}",
    );
}

#[test]
fn apply_lut_records_strength_and_rejects_out_of_range() {
    let tl = timeline_with_three_clips();
    let env = EdlEnvelope {
        ops: vec![EdlOp::ApplyLut {
            anchor: Anchor::TranscriptSnippet {
                text: "bravo snippet".into(),
            },
            lut_path: "luts/show-look.cube".into(),
            interpolation: None,
            strength: Some(num(0.6)),
        }],
    };
    let (new_tl, _) = apply(&tl, &env).unwrap();
    let StackChild::Track(t) = &new_tl.tracks.children[0] else {
        panic!()
    };
    let TrackChild::Clip(clip) = &t.children[1] else {
        panic!()
    };
    assert_eq!(
        clip.effects[0]
            .metadata
            .get("strength")
            .and_then(|v| v.as_f64()),
        Some(0.6)
    );

    let err = apply(
        &tl,
        &EdlEnvelope {
            ops: vec![EdlOp::ApplyLut {
                anchor: Anchor::TranscriptSnippet {
                    text: "bravo snippet".into(),
                },
                lut_path: "luts/show-look.cube".into(),
                interpolation: None,
                strength: Some(num(1.5)),
            }],
        },
    )
    .unwrap_err();
    assert!(
        matches!(err, ApplyError::Invalid { ref message, .. } if message.contains("strength")),
        "expected strength out-of-range error, got {err:?}",
    );
}

#[test]
fn set_effect_lut_validates_cube_contents() {
    let tl = timeline_with_three_clips();

    let mut params = MetaMap::new();
    params.insert("lut_path", MetaValue::text("luts/broken.cube"));
    let env = EdlEnvelope {
        ops: vec![EdlOp::SetEffect {
            anchor: Anchor::TranscriptSnippet {
                text: "bravo snippet".into(),
            },
            effect: "montage.lut".into(),
            params,
            rationale: None,
        }],
    };
    let err = apply_asking(&tl, &env, |op: &EdlOp, a: &mut Answers| {
        effect_answers(op, a);
        a.effect.luts.look = LutFile::Parsed(Err("expected 27 rows, found 1".to_string()));
    })
    .unwrap_err();
    assert!(
        matches!(err, ApplyError::Invalid { ref message, .. } if message.contains("not a valid .cube LUT")),
        "expected SetEffect path to surface .cube parse error, got {err:?}",
    );
}

#[test]
fn color_pipeline_rejects_3d_cube_in_shaper_slot() {
    let tl = timeline_with_three_clips();

    let mut params = MetaMap::new();
    params.insert("clip_input_space", MetaValue::text("arri_logc4"));
    params.insert("shaper_lut", MetaValue::text("luts/shaper.cube"));
    let env = EdlEnvelope {
        ops: vec![EdlOp::SetEffect {
            anchor: Anchor::TranscriptSnippet {
                text: "bravo snippet".into(),
            },
            effect: "montage.color_pipeline".into(),
            params,
            rationale: None,
        }],
    };
    let err = apply_asking(&tl, &env, |op: &EdlOp, a: &mut Answers| {
        effect_answers(op, a);
        a.effect.luts.shaper = LutFile::Parsed(Err("found LUT_3D_SIZE in a 1D table".to_string()));
    })
    .unwrap_err();
    assert!(
        matches!(err, ApplyError::Invalid { ref message, .. } if message.contains("shaper_lut")),
        "expected shaper_lut slot to reject 3D .cube, got {err:?}",
    );
}

#[test]
fn color_pipeline_rejects_3dl_in_shaper_slot() {
    let tl = timeline_with_three_clips();

    let mut params = MetaMap::new();
    params.insert("clip_input_space", MetaValue::text("arri_logc4"));
    params.insert("shaper_lut", MetaValue::text("luts/shaper.3dl"));
    let env = EdlEnvelope {
        ops: vec![EdlOp::SetEffect {
            anchor: Anchor::TranscriptSnippet {
                text: "bravo snippet".into(),
            },
            effect: "montage.color_pipeline".into(),
            params,
            rationale: None,
        }],
    };
    let err = apply_asking(&tl, &env, |op: &EdlOp, a: &mut Answers| {
        effect_answers(op, a);
        a.effect.luts.shaper = LutFile::Unread;
    })
    .unwrap_err();
    assert!(
        matches!(err, ApplyError::Invalid { ref message, .. } if message.contains("3D-only format")),
        "expected .3dl to be rejected from shaper_lut on extension, got {err:?}",
    );
}

#[test]
fn apply_lut_rejects_malformed_cube_at_apply_time() {
    let tl = timeline_with_three_clips();
    let env = EdlEnvelope {
        ops: vec![EdlOp::ApplyLut {
            anchor: Anchor::TranscriptSnippet {
                text: "bravo snippet".into(),
            },
            lut_path: "luts/broken.cube".into(),
            interpolation: None,
            strength: None,
        }],
    };
    let err = apply_asking(&tl, &env, |op: &EdlOp, a: &mut Answers| {
        effect_answers(op, a);
        a.lut = LutFile::Parsed(Err("expected 27 rows, found 1".to_string()));
    })
    .unwrap_err();
    assert!(
        matches!(err, ApplyError::Invalid { ref message, .. } if message.contains("not a valid .cube LUT")),
        "expected structured .cube parse error, got {err:?}",
    );
}

#[test]
fn color_pipeline_rejects_unknown_color_space() {
    let tl = timeline_with_three_clips();
    let mut params = MetaMap::new();
    params.insert("clip_input_space",
        MetaValue::text("Made_Up_Space"),
    );
    let env = EdlEnvelope {
        ops: vec![EdlOp::SetEffect {
            anchor: Anchor::TranscriptSnippet {
                text: "bravo snippet".into(),
            },
            effect: "montage.color_pipeline".into(),
            params,
            rationale: None,
        }],
    };
    let err = apply(&tl, &env).unwrap_err();
    assert!(
        matches!(err, ApplyError::Invalid { ref message, .. } if message.contains("not a known color space")),
        "expected unknown color space error, got {err:?}",
    );
}

#[test]
fn color_pipeline_rejects_look_strength_without_look_lut() {
    let tl = timeline_with_three_clips();
    let mut params = MetaMap::new();
    params.insert("clip_input_space", MetaValue::text("rec709_g24"));
    params.insert("look_strength", number(0.5));
    let env = EdlEnvelope {
        ops: vec![EdlOp::SetEffect {
            anchor: Anchor::TranscriptSnippet {
                text: "bravo snippet".into(),
            },
            effect: "montage.color_pipeline".into(),
            params,
            rationale: None,
        }],
    };
    let err = apply(&tl, &env).unwrap_err();
    assert!(
        matches!(err, ApplyError::Invalid { ref message, .. } if message.contains("look_strength")),
        "expected look_strength-without-look_lut error, got {err:?}",
    );
}

#[test]
fn color_pipeline_accepts_mask_source_with_supported_extension() {
    let tl = timeline_with_three_clips();
    let mut params = MetaMap::new();
    params.insert("clip_input_space", MetaValue::text("rec709_g24"));
    params.insert("mask_source", MetaValue::text("masks/face.png"));
    let env = EdlEnvelope {
        ops: vec![EdlOp::SetEffect {
            anchor: Anchor::TranscriptSnippet {
                text: "bravo snippet".into(),
            },
            effect: "montage.color_pipeline".into(),
            params,
            rationale: None,
        }],
    };
    let (new_tl, _) = apply(&tl, &env).unwrap();
    let StackChild::Track(t) = &new_tl.tracks.children[0] else {
        panic!()
    };
    let TrackChild::Clip(clip) = &t.children[1] else {
        panic!()
    };
    let effect = clip
        .effects
        .iter()
        .find(|e| e.effect_name == "montage.color_pipeline")
        .expect("pipeline stamped");
    assert_eq!(
        effect.metadata.get("mask_source").and_then(|v| v.as_str()),
        Some("masks/face.png")
    );
}

#[test]
fn color_pipeline_rejects_mask_source_with_disallowed_extension() {
    let tl = timeline_with_three_clips();
    let mut params = MetaMap::new();
    params.insert("clip_input_space", MetaValue::text("rec709_g24"));
    params.insert("mask_source", MetaValue::text("masks/face.txt"));
    let env = EdlEnvelope {
        ops: vec![EdlOp::SetEffect {
            anchor: Anchor::TranscriptSnippet {
                text: "bravo snippet".into(),
            },
            effect: "montage.color_pipeline".into(),
            params,
            rationale: None,
        }],
    };
    let err = apply(&tl, &env).unwrap_err();
    assert!(
        matches!(err, ApplyError::Invalid { ref message, .. } if message.contains("mask_source must end in one of")),
        "expected mask-extension validation error, got {err:?}",
    );
}

#[test]
fn color_pipeline_round_trip_with_log_clip_and_partial_strength() {
    let tl = timeline_with_three_clips();

    let mut params = MetaMap::new();
    params.insert("clip_input_space", MetaValue::text("arri_logc4"));
    params.insert("lut_input_space", MetaValue::text("rec709_g24"));
    params.insert("output_space", MetaValue::text("rec709_g24"));
    params.insert("look_lut", MetaValue::text("luts/look.cube"));
    params.insert("look_strength", number(0.7));
    params.insert("look_interpolation",
        MetaValue::text("tetrahedral"),
    );

    let env = EdlEnvelope {
        ops: vec![EdlOp::SetEffect {
            anchor: Anchor::TranscriptSnippet {
                text: "bravo snippet".into(),
            },
            effect: "montage.color_pipeline".into(),
            params,
            rationale: None,
        }],
    };
    let (new_tl, _) = apply_asking(&tl, &env, |op: &EdlOp, a: &mut Answers| {
        effect_answers(op, a);
        a.effect.luts.look = LutFile::Parsed(Ok(()));
    })
    .unwrap();
    let StackChild::Track(t) = &new_tl.tracks.children[0] else {
        panic!()
    };
    let TrackChild::Clip(clip) = &t.children[1] else {
        panic!()
    };
    let effect = clip
        .effects
        .iter()
        .find(|e| e.effect_name == "montage.color_pipeline")
        .expect("color_pipeline effect should be stamped");
    assert_eq!(
        effect
            .metadata
            .get("clip_input_space")
            .and_then(|v| v.as_str()),
        Some("arri_logc4")
    );
    assert_eq!(
        effect
            .metadata
            .get("look_strength")
            .and_then(|v| v.as_f64()),
        Some(0.7)
    );
    assert_eq!(
        effect
            .metadata
            .get("look_interpolation")
            .and_then(|v| v.as_str()),
        Some("tetrahedral")
    );
}

#[test]
fn remove_lut_clears_only_lut_effect() {
    let tl = timeline_with_three_clips();
    let env = EdlEnvelope {
        ops: vec![
            EdlOp::ApplyLut {
                anchor: Anchor::TranscriptSnippet {
                    text: "bravo snippet".into(),
                },
                lut_path: "luts/show-look.cube".into(),
                interpolation: None,
                strength: None,
            },
            EdlOp::SetVolume {
                anchor: Anchor::TranscriptSnippet {
                    text: "bravo snippet".into(),
                },
                value: num(0.8),
            },
            EdlOp::RemoveLut {
                anchor: Anchor::TranscriptSnippet {
                    text: "bravo snippet".into(),
                },
            },
        ],
    };
    let (new_tl, _) = apply(&tl, &env).unwrap();
    let StackChild::Track(t) = &new_tl.tracks.children[0] else {
        panic!()
    };
    let TrackChild::Clip(clip) = &t.children[1] else {
        panic!()
    };
    assert!(
        clip.effects
            .iter()
            .all(|e| e.effect_name != LUT),
        "LUT effect should have been removed: {:?}",
        clip.effects,
    );
    assert!(
        clip.effects
            .iter()
            .any(|e| e.effect_name == VOLUME),
        "non-LUT effects should remain: {:?}",
        clip.effects,
    );
}

#[test]
fn set_effect_normalizes_lut_metadata() {
    let tl = timeline_with_three_clips();
    let mut params = MetaMap::new();
    params.insert("lut_path", MetaValue::text(" luts/generated-look.CUBE "));
    params.insert("interpolation", MetaValue::text("PRISM"));
    let env = EdlEnvelope {
        ops: vec![EdlOp::SetEffect {
            anchor: Anchor::TranscriptSnippet {
                text: "bravo snippet".into(),
            },
            effect: LUT.into(),
            params,
            rationale: Some("generated test look".into()),
        }],
    };
    let (new_tl, _) = apply(&tl, &env).unwrap();
    let StackChild::Track(t) = &new_tl.tracks.children[0] else {
        panic!()
    };
    let TrackChild::Clip(clip) = &t.children[1] else {
        panic!()
    };
    let effect = clip
        .effects
        .iter()
        .find(|effect| effect.effect_name == LUT)
        .expect("lut effect");
    assert_eq!(
        effect.metadata.get("lut_path").and_then(|v| v.as_str()),
        Some("luts/generated-look.CUBE")
    );
    assert_eq!(
        effect
            .metadata
            .get("interpolation")
            .and_then(|v| v.as_str()),
        Some("prism")
    );
    assert_eq!(
        effect.metadata.get("rationale").and_then(|v| v.as_str()),
        Some("generated test look")
    );
}

#[test]
fn apply_set_volume_then_set_speed_coexist_on_same_clip() {
    let tl = timeline_with_three_clips();
    let env = EdlEnvelope {
        ops: vec![
            EdlOp::SetVolume {
                anchor: Anchor::TranscriptSnippet {
                    text: "bravo snippet".into(),
                },
                value: num(0.5),
            },
            EdlOp::SetSpeed {
                anchor: Anchor::TranscriptSnippet {
                    text: "bravo snippet".into(),
                },
                factor: num(1.5),
            },
        ],
    };
    let (new_tl, _) = apply(&tl, &env).unwrap();
    let StackChild::Track(t) = &new_tl.tracks.children[0] else {
        panic!()
    };
    let TrackChild::Clip(clip) = &t.children[1] else {
        panic!()
    };
    assert_eq!(clip.effects.len(), 2);
    let names: Vec<&str> = clip
        .effects
        .iter()
        .map(|e| e.effect_name.as_str())
        .collect();
    assert!(names.contains(&"montage.volume"));
    assert!(names.contains(&"montage.speed"));
}

//! What is refused, how it is said, and how numbers and texts are written.
use montage_edl::dispatch::Answers;
use montage_edl::engine::ApplyOutcome;
use montage_edl::envelope::{EdlEnvelope, EdlOp, ProfessionalTimelineEdit};
use montage_edl::error::{AnchorMiss, ApplyError};
use montage_edl::meta::{MetaMap, MetaValue};
use montage_edl::mint::ClipIds;
use montage_edl::model::{
    Clip, ClipLocator, ClipMetadata, ExternalReference, MediaReference, MontageClipMetadata,
    RationalTime, StackChild, TimeRange, Timeline, Track, TrackChild, TrackKind,
};
use montage_edl::num::{Num, UNIT};
use montage_edl::op::{Anchor, BetweenPlaces};
use montage_edl::path::{absolute, extension_of_path, goes_up, stem_of_path};
use montage_edl::text::{count_usize, debug_num, fix3, fix3_signed, show, to_fixed};
use montage_edl::title::valid_graphic_color;

fn num(x: f64) -> Num {
    if x.is_nan() {
        Num::Nan
    } else if x.is_infinite() {
        if x > 0.0 {
            Num::PosInf
        } else {
            Num::NegInf
        }
    } else {
        Num::Fin((x * 1e15).round() as i128)
    }
}

fn float(x: Num) -> f64 {
    match x {
        Num::Nan => f64::NAN,
        Num::NegInf => f64::NEG_INFINITY,
        Num::Fin(v) => v as f64 / 1e15,
        Num::PosInf => f64::INFINITY,
    }
}

fn time(value: f64, rate: f64) -> RationalTime {
    RationalTime::new(num(value / rate), num(rate))
}

trait Json {
    fn as_str(&self) -> Option<&str>;
    fn as_f64(&self) -> Option<f64>;
    fn as_u64(&self) -> Option<u64>;
    fn as_array(&self) -> Option<&Vec<MetaValue>>;
    fn as_object(&self) -> Option<&MetaMap>;
    fn get(&self, key: &str) -> Option<&MetaValue>;
    fn at(&self, key: &str) -> &MetaValue;
}

impl Json for MetaValue {
    fn as_str(&self) -> Option<&str> {
        match self {
            MetaValue::Text(s) => Some(s),
            _ => None,
        }
    }

    fn as_f64(&self) -> Option<f64> {
        self.as_number().map(float)
    }

    fn as_u64(&self) -> Option<u64> {
        self.as_f64().filter(|x| x.fract() == 0.0 && *x >= 0.0).map(|x| x as u64)
    }

    fn as_array(&self) -> Option<&Vec<MetaValue>> {
        match self {
            MetaValue::List(v) => Some(v),
            _ => None,
        }
    }

    fn as_object(&self) -> Option<&MetaMap> {
        match self {
            MetaValue::Object(m) => Some(m),
            _ => None,
        }
    }

    fn get(&self, key: &str) -> Option<&MetaValue> {
        self.as_object().and_then(|m| m.get(key))
    }

    fn at(&self, key: &str) -> &MetaValue {
        self.get(key).expect("a value")
    }
}

fn no_metadata() -> ClipMetadata {
    ClipMetadata { montage: None, extra: MetaMap::new() }
}

fn timeline_with_three_clips() -> Timeline {
    let mut tl = Timeline::empty("test");
    let mut track = Track::empty("V1", TrackKind::Video);
    for (i, snip) in ["alpha snippet", "bravo snippet", "charlie snippet"].iter().enumerate() {
        let mut c = Clip::empty(&format!("clip-{i}"));
        c.media_reference =
            MediaReference::External(ExternalReference::new(&format!("raw/{i}.mp4")));
        c.source_range = Some(TimeRange::new(time(0.0, 24.0), time(5.0 * 24.0, 24.0)));
        c.metadata = ClipMetadata {
            montage: Some(MontageClipMetadata {
                transcript_snippet: Some((*snip).to_string()),
                ..MontageClipMetadata::new()
            }),
            ..no_metadata()
        };
        track.children.push(TrackChild::Clip(c));
    }
    tl.tracks.children.push(StackChild::Track(track));
    tl
}

/// Where an anchor leads: to the clip with the unique id or the name, or to the
/// clip whose transcript holds the text.
fn place(timeline: &Timeline, anchor: &Anchor) -> Result<ClipLocator, AnchorMiss> {
    for (track_index, layer) in timeline.tracks.children.iter().enumerate() {
        let StackChild::Track(track) = layer else {
            continue;
        };
        for (child_index, child) in track.children.iter().enumerate() {
            let TrackChild::Clip(clip) = child else {
                continue;
            };
            let montage = clip.metadata.montage.as_ref();
            let here = match anchor {
                Anchor::ClipUuid { uuid } => {
                    clip.name == *uuid
                        || montage.and_then(|m| m.extra.get_text("clip_uuid")).as_ref()
                            == Some(uuid)
                }
                Anchor::TranscriptSnippet { text } => montage
                    .and_then(|m| m.transcript_snippet.as_ref())
                    .is_some_and(|s| s.contains(text.as_str())),
            };
            if here {
                return Ok(ClipLocator { track_index, child_index });
            }
        }
    }
    Err(AnchorMiss { text: format!("no clip at {anchor:?}") })
}

fn answers(timeline: &Timeline, op: &EdlOp, anchor: &Option<Anchor>) -> Answers {
    let mut a = Answers::plain(MetaValue::Null);
    if let Some(x) = anchor {
        a.place = place(timeline, x);
    }
    let between = match op {
        EdlOp::InsertTransition { between, .. }
        | EdlOp::DeleteTransition { between }
        | EdlOp::SetCutIntent { between, .. }
        | EdlOp::ProfessionalTimelineEdit {
            edit: ProfessionalTimelineEdit::RollEdit { between, .. },
            ..
        } => Some(between),
        _ => None,
    };
    if let Some(b) = between {
        a.between =
            BetweenPlaces { from: place(timeline, &b.from), to: place(timeline, &b.to) };
    }
    if let EdlOp::ProfessionalTimelineEdit { edit, .. } = op {
        if let ProfessionalTimelineEdit::UpdateMarker { selector, .. }
        | ProfessionalTimelineEdit::DeleteMarker { selector } = edit
        {
            a.marker = selector.anchor.as_ref().map(|x| place(timeline, x));
        }
    }
    a
}

fn apply_asking<F: Fn(&EdlOp, &mut Answers)>(
    tl: &Timeline,
    env: &EdlEnvelope,
    adjust: F,
) -> Result<(Timeline, ApplyOutcome), ApplyError> {
    montage_edl::engine::apply(
        tl,
        env,
        |working: &Timeline, op: &EdlOp, anchor: &Option<Anchor>| {
            let mut a = answers(working, op, anchor);
            adjust(op, &mut a);
            a
        },
        &mut ClipIds::new(0),
    )
}

fn apply(tl: &Timeline, env: &EdlEnvelope) -> Result<(Timeline, ApplyOutcome), ApplyError> {
    apply_asking(tl, env, |_: &EdlOp, _: &mut Answers| {})
}

#[test]
fn each_refusal_has_its_text() {
    let miss = AnchorMiss { text: "no clip".to_string() };
    assert_eq!(ApplyError::AnchorMiss { index: 2, miss }.text(), "op #2: no clip");
    let message = "too long".to_string();
    assert_eq!(
        ApplyError::Invalid { index: 0, message: message.clone() }.text(),
        "op #0: invalid field: too long"
    );
    assert_eq!(
        ApplyError::OtioInvalid { index: 1, message }.text(),
        "op #1: OTIO validation failed after apply: too long"
    );
    assert_eq!(
        ApplyError::NotImplemented { index: 3, op: "warp".to_string() }.text(),
        "op #3: 'warp' not yet implemented (deferred to a later batch)"
    );
}

#[test]
fn a_timeline_with_an_endless_clip_is_not_kept() {
    let mut tl = timeline_with_three_clips();
    let StackChild::Track(track) = &mut tl.tracks.children[0] else {
        panic!("expected track")
    };
    let TrackChild::Clip(clip) = &mut track.children[2] else {
        panic!("expected clip")
    };
    clip.source_range =
        Some(TimeRange::new(time(0.0, 24.0), RationalTime::new(Num::PosInf, num(24.0))));
    let env = EdlEnvelope {
        ops: vec![EdlOp::MuteClip {
            anchor: Anchor::ClipUuid { uuid: "clip-0".into() },
            muted: true,
        }],
    };
    let err = apply(&tl, &env).unwrap_err();
    assert!(matches!(err, ApplyError::OtioInvalid { index: 0, .. }), "got {err:?}");
}

#[test]
fn a_name_is_quoted_with_its_escapes() {
    let tl = timeline_with_three_clips();
    let env = EdlEnvelope {
        ops: vec![EdlOp::DeleteTrack { name: "V\"\n1".into(), force: false }],
    };
    let err = apply(&tl, &env).unwrap_err();
    assert!(err.text().contains("no track named \"V\\\"\\n1\""), "got {}", err.text());
}

#[test]
fn an_anchor_that_leads_nowhere_is_a_miss() {
    let tl = timeline_with_three_clips();
    let env = EdlEnvelope {
        ops: vec![EdlOp::RemoveLut { anchor: Anchor::ClipUuid { uuid: "x".into() } }],
    };
    let err = apply(&tl, &env).unwrap_err();
    assert!(matches!(err, ApplyError::AnchorMiss { index: 0, .. }), "got {err:?}");
}

#[test]
fn numbers_are_written_as_numbers_are() {
    assert_eq!(show(num(5.0)), "5");
    assert_eq!(show(num(0.25)), "0.25");
    assert_eq!(show(num(-1.5)), "-1.5");
    assert_eq!(show(Num::Nan), "NaN");
    assert_eq!(show(Num::NegInf), "-inf");
    assert_eq!(debug_num(num(5.0)), "5.0");
    assert_eq!(debug_num(num(0.25)), "0.25");
    assert_eq!(fix3(num(2.0)), "2.000");
    assert_eq!(fix3(num(1.23456)), "1.235");
    assert_eq!(fix3(num(-0.0004)), "-0.000");
    assert_eq!(fix3_signed(num(2.0)), "+2.000");
    assert_eq!(fix3_signed(num(-2.5)), "-2.500");
    assert_eq!(to_fixed(num(-12.0), 1), "-12.0");
    assert_eq!(count_usize(1024), "1024");
}

#[test]
fn large_and_small_numbers_are_kept() {
    for x in [1e-6, 2.5e-12, 1e-5, 5e-5, 9.9e-5, 1e-4, 0.00012, 0.5] {
        assert_eq!(debug_num(num(x)), format!("{x:?}"));
    }
    for x in [1e12, 9e15, 1e16, -1.5e16, 2e22] {
        assert_eq!(debug_num(Num::Fin(x as i128 * UNIT)), format!("{x:?}"));
    }
    assert_eq!(debug_num(num(5e-5)), "5e-5");
    assert_eq!(debug_num(num(1e-4)), "0.0001");
    assert_eq!(show(num(2.5e-12)), "0.0000000000025");
    assert_eq!(show(Num::Fin(1_000_000_000_000 * UNIT)), "1000000000000");
    let large = Num::Fin(50_000_000_000 * UNIT);
    assert_eq!(show(large.plus(large)), "100000000000");
}

#[test]
fn sums_that_cannot_be_counted_are_infinite() {
    assert_eq!(num(1.5).plus(num(2.25)), num(3.75));
    assert_eq!(num(1.5).minus(num(2.25)), num(-0.75));
    assert_eq!(num(1.0).half(), num(0.5));
    assert_eq!(Num::Fin(i128::MAX).plus(num(1.0)), Num::PosInf);
    assert_eq!(Num::Fin(i128::MIN).minus(num(1.0)), Num::NegInf);
    assert_eq!(Num::PosInf.minus(Num::PosInf), Num::Nan);
    assert!(!Num::Nan.less(num(0.0)));
    assert!(!num(0.0).less(Num::Nan));
    assert!(num(0.0).less(Num::PosInf));
    assert_eq!(num(2.0).larger(Num::Nan), num(2.0));
    assert_eq!(num(-2.0).size(), num(2.0));
}

#[test]
fn texts_are_taken_apart() {
    assert_eq!(montage_edl::text::trim(" \t a b \n"), "a b");
    assert_eq!(montage_edl::text::lower("Ab-CD"), "ab-cd");
    assert!(montage_edl::text::blank(" \n"));
    assert_eq!(stem_of_path("raw/clip-1.MOV"), Some("clip-1".to_string()));
    assert_eq!(extension_of_path("raw/clip-1.MOV"), Some("MOV".to_string()));
    assert_eq!(extension_of_path("raw/clip"), None);
    assert!(absolute("/raw/a.mov"));
    assert!(goes_up("raw/../a.mov"));
    assert!(!goes_up("raw/a..mov"));
}

#[test]
fn colours_are_hex_or_a_name() {
    for good in ["#FFF", "#ffd700", "#FFD70080", "white", "gold2"] {
        assert!(valid_graphic_color(good), "{good} was refused");
    }
    for wrong in ["", "#", "#12", "#GGGGGG", "red:foo@1", "light blue"] {
        assert!(!valid_graphic_color(wrong), "{wrong} was accepted");
    }
}

#[test]
fn the_edges_of_what_is_accepted() {
    let tl = timeline_with_three_clips();
    let anchor = || Anchor::ClipUuid { uuid: "clip-1".into() };
    let said = |op: EdlOp| apply(&tl, &EdlEnvelope { ops: vec![op] }).map(|_| ());
    assert!(said(EdlOp::SetVolume { anchor: anchor(), value: num(0.0) }).is_ok());
    assert!(said(EdlOp::SetVolume { anchor: anchor(), value: Num::Nan }).is_err());
    assert!(said(EdlOp::SplitClip { anchor: anchor(), at_s: num(0.0), snap: None }).is_err());
    assert!(said(EdlOp::SplitClip { anchor: anchor(), at_s: num(5.0), snap: None }).is_err());
    assert!(said(EdlOp::TrimClip { anchor: anchor(), start: None, end: Some(num(5.1)) }).is_err());
    assert!(said(EdlOp::TrimTrackTail { track: "  ".into() }).is_err());
    assert!(said(EdlOp::SetSpeed { anchor: anchor(), factor: num(0.0) }).is_err());
}

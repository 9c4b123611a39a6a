//! Envelopes with a remedy for a jarring cut.
use montage_edl::bundle::{
    bundle_with_broll_cover, bundle_with_dissolve, envelope_needs_continuity_check,
    DEFAULT_BROLL_COVER_S, DEFAULT_DISSOLVE_S,
};
use montage_edl::envelope::{EdlEnvelope, EdlOp};
use montage_edl::num::Num;
use montage_edl::op::{Anchor, BRollPosition};

fn num(x: f64) -> Num {
    if x.is_nan() {
        Num::Nan
    } else if x.is_infinite() {
        if x > 0.0 {
            Num::PosInf
        } else {
            Num::NegInf
        }
    } else {
        Num::Fin((x * 1e15).round() as i128)
    }
}

fn float(x: Num) -> f64 {
    match x {
        Num::Nan => f64::NAN,
        Num::NegInf => f64::NEG_INFINITY,
        Num::Fin(v) => v as f64 / 1e15,
        Num::PosInf => f64::INFINITY,
    }
}

fn anchor(name: &str) -> Anchor {
    Anchor::ClipUuid { uuid: name.to_string() }
}

#[test]
fn bundle_appends_insert_transition() {
    let env = EdlEnvelope {
        ops: vec![EdlOp::TrimClip { anchor: anchor("clip-a"), start: None, end: Some(num(2.0)) }],
    };
    let bundled = bundle_with_dissolve(env, anchor("clip-a"), anchor("clip-b"), None);
    assert_eq!(bundled.ops.len(), 2);
    match &bundled.ops[1] {
        EdlOp::InsertTransition { between, request } => {
            assert_eq!(request.kind, "SMPTE_Dissolve");
            assert_eq!(request.duration_s, Num::Fin(DEFAULT_DISSOLVE_S));
            assert_eq!(request.duration_s, num(0.3));
            assert!(matches!(&between.from, Anchor::ClipUuid { uuid } if uuid == "clip-a"));
            assert!(matches!(&between.to, Anchor::ClipUuid { uuid } if uuid == "clip-b"));
        }
        _ => panic!("expected InsertTransition at end of bundle"),
    }
}

#[test]
fn bundle_honors_custom_duration() {
    let env = EdlEnvelope {
        ops: vec![EdlOp::SplitClip { anchor: anchor("clip-a"), at_s: num(5.0), snap: None }],
    };
    let bundled = bundle_with_dissolve(env, anchor("clip-a"), anchor("clip-b"), Some(num(0.5)));
    match &bundled.ops[1] {
        EdlOp::InsertTransition { request, .. } => {
            assert!((float(request.duration_s) - 0.5).abs() < 1e-9);
        }
        _ => panic!(),
    }
}

#[test]
fn bundle_preserves_original_ops_in_order() {
    let env = EdlEnvelope {
        ops: vec![
            EdlOp::TrimClip { anchor: anchor("a"), start: Some(num(1.0)), end: None },
            EdlOp::DeleteClip { anchor: anchor("b") },
        ],
    };
    let bundled = bundle_with_dissolve(env, anchor("a"), anchor("c"), None);
    assert_eq!(bundled.ops.len(), 3);
    assert!(matches!(&bundled.ops[0], EdlOp::TrimClip { .. }));
    assert!(matches!(&bundled.ops[1], EdlOp::DeleteClip { .. }));
    assert!(matches!(&bundled.ops[2], EdlOp::InsertTransition { .. }));
}

#[test]
fn envelope_needs_continuity_check_detects_trims() {
    let env = EdlEnvelope {
        ops: vec![EdlOp::TrimClip { anchor: anchor("a"), start: None, end: Some(num(2.0)) }],
    };
    assert!(envelope_needs_continuity_check(&env));
}

#[test]
fn envelope_needs_continuity_check_skips_non_cut_ops() {
    let env = EdlEnvelope {
        ops: vec![EdlOp::SetVolume { anchor: anchor("a"), value: num(0.5) }],
    };
    assert!(!envelope_needs_continuity_check(&env));
}

#[test]
fn bundle_with_broll_cover_appends_insert_broll() {
    let env = EdlEnvelope {
        ops: vec![EdlOp::TrimClip { anchor: anchor("clip-a"), start: None, end: Some(num(2.0)) }],
    };
    let bundled =
        bundle_with_broll_cover(env, anchor("clip-a"), "raw/broll/pexels-9.mp4".to_string(), None);
    assert_eq!(bundled.ops.len(), 2);
    match &bundled.ops[1] {
        EdlOp::InsertBRoll { asset, duration_s, position, anchor } => {
            assert_eq!(asset, "raw/broll/pexels-9.mp4");
            assert_eq!(*duration_s, Num::Fin(DEFAULT_BROLL_COVER_S));
            assert_eq!(*duration_s, num(2.0));
            assert_eq!(*position, BRollPosition::Overlay);
            assert!(matches!(anchor, Anchor::ClipUuid { uuid } if uuid == "clip-a"));
        }
        _ => panic!("expected InsertBRoll"),
    }
}

#[test]
fn bundle_with_broll_cover_honors_custom_duration() {
    let env = EdlEnvelope {
        ops: vec![EdlOp::SplitClip { anchor: anchor("clip-a"), at_s: num(5.0), snap: None }],
    };
    let bundled = bundle_with_broll_cover(
        env,
        anchor("clip-a"),
        "raw/broll/pexels-1.mp4".to_string(),
        Some(num(3.5)),
    );
    match &bundled.ops[1] {
        EdlOp::InsertBRoll { duration_s, .. } => {
            assert!((float(*duration_s) - 3.5).abs() < 1e-9);
        }
        _ => panic!(),
    }
}

#[test]
fn envelope_needs_continuity_check_detects_splits_and_deletes() {
    let split_env = EdlEnvelope {
        ops: vec![EdlOp::SplitClip { anchor: anchor("a"), at_s: num(2.0), snap: None }],
    };
    let delete_env = EdlEnvelope { ops: vec![EdlOp::DeleteClip { anchor: anchor("a") }] };
    assert!(envelope_needs_continuity_check(&split_env));
    assert!(envelope_needs_continuity_check(&delete_env));
}

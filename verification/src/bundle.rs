//! Envelopes with a remedy for a jarring cut: the cut itself, and what softens
//! or covers it, in one.
use vstd::prelude::*;

use crate::envelope::{EdlEnvelope, EdlOp, TransitionBetween};
use crate::num::Num;
use crate::op::{Anchor, BRollPosition};
use crate::transition::TransitionRequest;
use crate::trim::or_else;

verus! {

/// How long a dissolve is, in quadrillionths of a second, where nothing is said:
/// short enough to be unobtrusive, long enough to soften the cut.
pub const DEFAULT_DISSOLVE_S: i128 = 300_000_000_000_000;

/// How long a cover is, in quadrillionths of a second, where nothing is said.
pub const DEFAULT_BROLL_COVER_S: i128 = 2_000_000_000_000_000;

/// Whether an op is a dissolve between two clips.
pub open spec fn is_dissolve(op: EdlOp, from: Anchor, to: Anchor, duration_s: Num) -> bool {
    op matches EdlOp::InsertTransition { between, request } && between.from == from && between.to
        == to && request.kind@ == "SMPTE_Dissolve"@ && request.duration_s == duration_s
        && request.alignment is None && request.in_offset_s is None && request.out_offset_s is None
        && request.spec is None
}

/// The envelope with a dissolve between two clips behind its ops.
pub fn bundle_with_dissolve(envelope: EdlEnvelope, from: Anchor, to: Anchor, duration_s: Option<Num>) -> (r:
    EdlEnvelope)
    ensures
        r.ops@.len() == envelope.ops@.len() + 1,
        r.ops@.drop_last() == envelope.ops@,
        is_dissolve(r.ops@.last(), from, to, or_else(duration_s, Num::Fin(DEFAULT_DISSOLVE_S))),
{
    let mut ops = envelope.ops;
    let request = TransitionRequest {
        kind: "SMPTE_Dissolve".to_owned(),
        duration_s: or_else(duration_s, Num::Fin(DEFAULT_DISSOLVE_S)),
        alignment: None,
        in_offset_s: None,
        out_offset_s: None,
        spec: None,
    };
    ops.push(EdlOp::InsertTransition { between: TransitionBetween { from, to }, request });
    assert(ops@.drop_last() =~= envelope.ops@);
    EdlEnvelope { ops }
}

/// Whether an op covers a clip.
pub open spec fn is_cover(op: EdlOp, anchor: Anchor, asset: Seq<char>, duration_s: Num) -> bool {
    op matches EdlOp::InsertBRoll { anchor: a, asset: s, duration_s: d, position } && a == anchor
        && s@ == asset && d == duration_s && position == BRollPosition::Overlay
}

/// The envelope with a cover over a clip behind its ops.  The cover is always an
/// overlay: the sound under the cut still plays.
pub fn bundle_with_broll_cover(
    envelope: EdlEnvelope,
    anchor: Anchor,
    asset_path: String,
    duration_s: Option<Num>,
) -> (r: EdlEnvelope)
    ensures
        r.ops@.len() == envelope.ops@.len() + 1,
        r.ops@.drop_last() == envelope.ops@,
        is_cover(
            r.ops@.last(),
            anchor,
            asset_path@,
            or_else(duration_s, Num::Fin(DEFAULT_BROLL_COVER_S)),
        ),
{
    let mut ops = envelope.ops;
    ops.push(
        EdlOp::InsertBRoll {
            anchor,
            asset: asset_path,
            duration_s: or_else(duration_s, Num::Fin(DEFAULT_BROLL_COVER_S)),
            position: BRollPosition::Overlay,
        },
    );
    assert(ops@.drop_last() =~= envelope.ops@);
    EdlEnvelope { ops }
}

/// Whether an op cuts.
pub open spec fn cuts() -> spec_fn(EdlOp) -> bool {
    |op: EdlOp| op is TrimClip || op is SplitClip || op is DeleteClip
}

/// Whether an envelope holds a cut.
pub fn envelope_needs_continuity_check(envelope: &EdlEnvelope) -> (r: bool)
    ensures
        r == envelope.ops@.any(cuts()),
{
    let mut i: usize = 0;
    while i < envelope.ops.len()
        invariant
            i <= envelope.ops@.len(),
            forall|k: int| 0 <= k < i ==> !cuts()(#[trigger] envelope.ops@[k]),
        decreases envelope.ops@.len() - i,
    {
        match &envelope.ops[i] {
            EdlOp::TrimClip { .. } | EdlOp::SplitClip { .. } | EdlOp::DeleteClip { .. } => {
                assert(cuts()(envelope.ops@[i as int]));
                return true;
            },
            _ => {},
        }
        i = i + 1;
    }
    false
}

} // verus!

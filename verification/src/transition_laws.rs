//! Where transitions may stand, and what they need.
use vstd::prelude::*;

use crate::error::Refusal;
use crate::laws::law_put_then_lookup;
use crate::measures::{
    first, has_clip, last, law_a_place_is_found, millionth, plain, row, the_clip, tick,
};
use crate::meta::lookup;
use crate::model::{
    ClipLocator, ClipModel, MediaReferenceModel, TimeRange, TimelineModel, TrackChildModel,
};
use crate::num::Num;
use crate::op::{BetweenPlaces, TransitionAlignment, TransitionSpec, TransitionVerdict};
use crate::text::Str;
use crate::transition::{
    inserted_transition, transition_kind_ok, transition_offsets, TransitionRequest,
};

verus! {

/// The media of a clip that is known to exist.
pub open spec fn known_media(c: ClipModel) -> Option<TimeRange> {
    match c.media_reference {
        MediaReferenceModel::External(e) => e.available_range,
        MediaReferenceModel::Missing => None,
    }
}

/// Whether the times of a clip and of its media can be counted.
pub open spec fn plain_clip(c: ClipModel) -> bool {
    &&& c.source_range matches Some(r) ==> plain(r)
    &&& known_media(c) matches Some(a) ==> plain(a)
}

/// Whether a clip can run on for a time behind its end: no further than its media
/// is known to go.
pub open spec fn runs_on(c: ClipModel, by: int) -> bool {
    by <= 0 || match c.source_range {
        None => false,
        Some(r) => by <= millionth() || match known_media(c) {
            Some(a) => last(r) + by <= last(a) + millionth(),
            None => true,
        },
    }
}

/// Whether a clip can begin earlier by a time: no earlier than its media is known to
/// begin, or than zero where nothing is known.
pub open spec fn runs_up(c: ClipModel, by: int) -> bool {
    by <= 0 || match c.source_range {
        None => false,
        Some(r) => by <= millionth() || match known_media(c) {
            Some(a) => first(a) <= first(r) - by + millionth(),
            None => 0 <= first(r) - by + millionth(),
        },
    }
}

/// Whether two places are those of clips side by side on one track, or with one
/// transition between them.
pub open spec fn at_a_cut(tl: TimelineModel, from: ClipLocator, to: ClipLocator) -> bool {
    let i = from.track_index as int;
    let j = from.child_index as int;
    &&& has_clip(tl, from)
    &&& has_clip(tl, to)
    &&& from.track_index == to.track_index
    &&& to.child_index == j + 1 || (to.child_index == j + 2 && row(tl, i)[j + 1] is Transition)
}

/// Where a transition may be written at all, it is put between two clips exactly
/// where these meet on one track and both have the media for it: the first can run
/// on behind its end for as long as the transition goes on behind the cut, the second
/// can begin as much earlier as the transition does before it.
pub proof fn law_transition_needs_media_on_both_sides(
    tl: TimelineModel,
    index: usize,
    q: TransitionRequest,
    v: TransitionVerdict,
    places: BetweenPlaces,
    a: Num,
    b: Num,
)
    requires
        transition_kind_ok(index, q.kind@, q.duration_s, q.spec, v) is Ok,
        transition_offsets(index, q.duration_s, q.alignment, q.in_offset_s, q.out_offset_s) == Ok::<
            (Num, Num),
            Refusal,
        >((a, b)),
        places.from is Ok,
        places.to is Ok,
        has_clip(tl, places.from->Ok_0) ==> plain_clip(the_clip(tl, places.from->Ok_0)),
        has_clip(tl, places.to->Ok_0) ==> plain_clip(the_clip(tl, places.to->Ok_0)),
    ensures
        inserted_transition(tl, index, q, v, places) is Ok <==> {
            let from = places.from->Ok_0;
            let to = places.to->Ok_0;
            &&& at_a_cut(tl, from, to)
            &&& runs_on(the_clip(tl, from), tick(b))
            &&& runs_up(the_clip(tl, to), tick(a))
        },
{
    law_a_place_is_found(tl, places.from->Ok_0);
    law_a_place_is_found(tl, places.to->Ok_0);
}

/// A transition is refused where one of the two clips was not found, where it may
/// not be written, or where it cannot lie around the cut as was asked.
pub proof fn law_transition_is_refused_up_front(
    tl: TimelineModel,
    index: usize,
    q: TransitionRequest,
    v: TransitionVerdict,
    places: BetweenPlaces,
)
    ensures
        inserted_transition(tl, index, q, v, places) is Ok ==> {
            &&& transition_kind_ok(index, q.kind@, q.duration_s, q.spec, v) is Ok
            &&& transition_offsets(
                index,
                q.duration_s,
                q.alignment,
                q.in_offset_s,
                q.out_offset_s,
            ) is Ok
            &&& places.from is Ok
            &&& places.to is Ok
        },
{
}

/// A transition that is put in stands right behind the first clip and right in front
/// of the second, in place of the one that stood there if any, and is of the kind and
/// lies around the cut as was asked.  Nothing else on the timeline changes.
pub proof fn law_transition_stands_between_its_clips(
    tl: TimelineModel,
    index: usize,
    q: TransitionRequest,
    v: TransitionVerdict,
    places: BetweenPlaces,
    a: Num,
    b: Num,
)
    requires
        inserted_transition(tl, index, q, v, places) is Ok,
        transition_offsets(index, q.duration_s, q.alignment, q.in_offset_s, q.out_offset_s) == Ok::<
            (Num, Num),
            Refusal,
        >((a, b)),
    ensures
        ({
            let out = inserted_transition(tl, index, q, v, places)->Ok_0.0;
            let from = places.from->Ok_0;
            let to = places.to->Ok_0;
            let i = from.track_index as int;
            let j = from.child_index as int;
            let before = row(tl, i);
            let after = row(out, i);
            &&& after[j] == before[j]
            &&& after[j + 2] == before[to.child_index as int]
            &&& after[j + 1] matches TrackChildModel::Transition(x) && x.transition_type == q.kind@
                && x.in_offset.seconds == a && x.out_offset.seconds == b && (q.spec is Some
                ==> lookup(x.metadata, "montage_transition"@) == Some(v.kept_spec@)) && (q.spec
                is None ==> x.metadata.len() == 0)
            &&& after.take(j + 1) == before.take(j + 1)
            &&& after.skip(j + 2) == before.skip(to.child_index as int)
            &&& out.tracks.children.len() == tl.tracks.children.len()
            &&& forall|s: int|
                0 <= s < tl.tracks.children.len() && s != i ==> #[trigger] out.tracks.children[s]
                    == tl.tracks.children[s]
            &&& out.montage == tl.montage
        }),
{
    let from = places.from->Ok_0;
    let to = places.to->Ok_0;
    law_a_place_is_found(tl, from);
    law_a_place_is_found(tl, to);
    let out = inserted_transition(tl, index, q, v, places)->Ok_0.0;
    let i = from.track_index as int;
    let j = from.child_index as int;
    let before = row(tl, i);
    let after = row(out, i);
    let k = to.child_index as int;
    assert(after.len() == before.len() + 2 - (k - j));
    assert forall|n: int| k <= n < before.len() implies #[trigger] before[n] == after[n + 2 - (k
        - j)] by {}
    law_put_then_lookup(
        Seq::empty(),
        "montage_transition"@,
        v.kept_spec@,
        "montage_transition"@,
    );
    assert(after.take(j + 1) =~= before.take(j + 1));
    assert(after.skip(j + 2) =~= before.skip(k));
}

/// The parts of a transition in front of and behind the cut are not negative and
/// make up its length to within a millionth.  Where both are given they are taken;
/// where one is given the other is the rest; where none is, the transition begins at
/// the cut, ends at it or lies half and half around it, as its alignment says.
pub proof fn law_transition_lies_around_the_cut(
    index: usize,
    duration_s: Num,
    alignment: Option<TransitionAlignment>,
    in_offset_s: Option<Num>,
    out_offset_s: Option<Num>,
)
    requires
        duration_s is Fin,
        0 < tick(duration_s),
        in_offset_s matches Some(x) ==> x is Fin ==> tick(x) + tick(duration_s) <= i128::MAX,
        out_offset_s matches Some(x) ==> x is Fin ==> tick(x) + tick(duration_s) <= i128::MAX,
        in_offset_s matches Some(x) ==> out_offset_s matches Some(y) ==> tick(x) + tick(y)
            <= i128::MAX,
    ensures
        ({
            let d = tick(duration_s);
            match transition_offsets(index, duration_s, alignment, in_offset_s, out_offset_s) {
                Ok((a, b)) => {
                    &&& a is Fin
                    &&& b is Fin
                    &&& 0 <= tick(a)
                    &&& 0 <= tick(b)
                    &&& d - millionth() <= tick(a) + tick(b) <= d + millionth()
                    &&& in_offset_s matches Some(x) ==> a == x
                    &&& out_offset_s matches Some(x) ==> b == x
                    &&& in_offset_s is None && out_offset_s is Some ==> tick(a) == d - tick(b)
                    &&& in_offset_s is Some && out_offset_s is None ==> tick(b) == d - tick(a)
                    &&& in_offset_s is None && out_offset_s is None ==> match alignment {
                        Some(TransitionAlignment::StartAtCut) => tick(a) == 0 && tick(b) == d,
                        Some(TransitionAlignment::EndAtCut) => tick(a) == d && tick(b) == 0,
                        _ => a == b && d - 1 <= tick(a) + tick(b) <= d + 1,
                    }
                },
                Err(_) => {
                    ||| in_offset_s matches Some(x) && (x !is Fin || tick(x) < 0)
                    ||| out_offset_s matches Some(x) && (x !is Fin || tick(x) < 0)
                    ||| in_offset_s is Some && out_offset_s is None && tick(in_offset_s->0) > d
                    ||| in_offset_s is None && out_offset_s is Some && tick(out_offset_s->0) > d
                    ||| in_offset_s is Some && out_offset_s is Some && !(d - millionth() <= tick(
                        in_offset_s->0,
                    ) + tick(out_offset_s->0) <= d + millionth())
                },
            }
        }),
{
}

/// A transition may be written where it has a length, the registry takes its length
/// and its kind, it is a dissolve or one of the editor's own, and its description, if
/// it has one, goes by the same name, stands for the same transition and is in order.
/// One that is composed must have a description.
pub proof fn law_transition_may_be_written(
    index: usize,
    kind: Str,
    duration_s: Num,
    spec_: Option<TransitionSpec>,
    v: TransitionVerdict,
)
    ensures
        transition_kind_ok(index, kind, duration_s, spec_, v) is Ok <==> {
            &&& duration_s is Fin
            &&& 0 < tick(duration_s)
            &&& v.duration_error is None
            &&& v.xfade matches Ok(Some(_))
            &&& kind == "SMPTE_Dissolve"@ || (kind.len() >= "montage."@.len() && kind.take(
                "montage."@.len() as int,
            ) == "montage."@)
            &&& kind == "montage.composite"@ ==> spec_ is Some
            &&& spec_ matches Some(s) ==> {
                &&& s.id@ == kind
                &&& v.spec_xfade matches Ok(Some(x)) && x@ == v.xfade->Ok_0->0@
                &&& v.spec_error is None
            }
        },
{
}

} // verus!

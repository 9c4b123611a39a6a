//! Transitions between clips, and what cuts are meant to do.
use vstd::prelude::*;

use crate::boundary::{boundary_key, cut_boundary_key, put_boundary, set_boundary};
use crate::clip::{available_of, available_range, clip_id, clip_rate, end_of, id_of, rate_of};
use crate::edit::{clip_in, montage_of, track_at, with_children, with_montage, with_track};
use crate::error::{bad, checks, invalid, invalid_str, shows, AnchorMiss, ApplyError, Done, Refusal};
use crate::meta::{put, MetaMap};
use crate::model::{
    opt, Clip, ClipLocator, ClipModel, MontageTimelineMetadataModel, RationalTime, SemanticCutSpec,
    SemanticCutSpecModel, Stored, Timeline, TimelineModel, Track, TrackChild, TrackChildModel,
    TrackModel, Transition, TransitionModel,
};
use crate::num::{micro, zero, Num};
use crate::op::{BetweenPlaces, TransitionAlignment, TransitionSpec, TransitionVerdict};
use crate::text::{
    begins, begins_with, blank, cat2, cat3, cat4, cat5, cat6, cat7, cat8, cat9, count_usize,
    decimal, fix3, is_blank, milli3, quote, quote_option, quoted, quoted_option, same, show, shown,
    Str,
};

verus! {

// ---- the two clips at a cut -----------------------------------------------

/// The places of the two clips, or the refusal where one was not found.
pub open spec fn found_between(index: usize, b: BetweenPlaces) -> Result<
    (ClipLocator, ClipLocator),
    Refusal,
> {
    match b.from {
        Err(miss) => Err(Refusal::AnchorMiss { index, miss: miss@ }),
        Ok(from) => match b.to {
            Err(miss) => Err(Refusal::AnchorMiss { index, miss: miss@ }),
            Ok(to) => Ok((from, to)),
        },
    }
}

/// The places of the two clips.
pub fn find_between(index: usize, b: &BetweenPlaces) -> (r: Result<
    (ClipLocator, ClipLocator),
    ApplyError,
>)
    ensures
        match r {
            Ok(p) => found_between(index, *b) == Ok::<(ClipLocator, ClipLocator), Refusal>(p),
            Err(e) => found_between(index, *b) == Err::<(ClipLocator, ClipLocator), Refusal>(e@),
        },
{
    match &b.from {
        Err(miss) => Err(ApplyError::AnchorMiss { index, miss: miss.copied() }),
        Ok(from) => match &b.to {
            Err(miss) => Err(ApplyError::AnchorMiss { index, miss: miss.copied() }),
            Ok(to) => Ok((*from, *to)),
        },
    }
}

/// Whether a transition stands at a place of a track.
pub open spec fn transition_at(tl: TimelineModel, i: int, j: int) -> bool {
    match track_at(tl, i) {
        Some(t) => 0 <= j < t.children.len() && t.children[j] is Transition,
        None => false,
    }
}

fn has_transition(working: &Timeline, i: usize, j: usize) -> (r: bool)
    ensures
        r == transition_at(working@, i as int, j as int),
{
    match working.track(i) {
        Some(t) => match t.child(j) {
            Some(TrackChild::Transition(_)) => true,
            _ => false,
        },
        None => false,
    }
}

/// Whether the second place is so many steps behind the first.
pub open spec fn steps_apart(from: ClipLocator, to: ClipLocator, n: int) -> bool {
    to.child_index == from.child_index + n
}

fn is_apart(from: ClipLocator, to: ClipLocator, n: usize) -> (r: bool)
    ensures
        r == steps_apart(from, to, n as int),
{
    to.child_index >= from.child_index && to.child_index - from.child_index == n
}

/// Whether the two places have one transition between them.
pub open spec fn over_transition(tl: TimelineModel, from: ClipLocator, to: ClipLocator) -> bool {
    steps_apart(from, to, 2) && transition_at(tl, from.track_index as int, from.child_index + 1)
}

fn is_over_transition(working: &Timeline, from: ClipLocator, to: ClipLocator) -> (r: bool)
    ensures
        r == over_transition(working@, from, to),
{
    is_apart(from, to, 2) && has_transition(working, from.track_index, from.child_index + 1)
}

/// The two clips at a cut; `who` stands in front of the messages.
pub open spec fn cut_clips(
    tl: TimelineModel,
    index: usize,
    from: ClipLocator,
    to: ClipLocator,
    who: Str,
) -> Result<(ClipModel, ClipModel), Refusal> {
    match track_at(tl, from.track_index as int) {
        None => Err(bad(index, who + ": anchor resolved to a non-track stack child"@)),
        Some(t) => match clip_in(t, from.child_index as int) {
            None => Err(bad(index, who + ": from anchor resolved to a non-clip child"@)),
            Some(a) => match clip_in(t, to.child_index as int) {
                None => Err(bad(index, who + ": to anchor resolved to a non-clip child"@)),
                Some(b) => Ok((a, b)),
            },
        },
    }
}

/// The two clips at a cut.
pub fn get_cut_clips(
    working: &Timeline,
    index: usize,
    from: ClipLocator,
    to: ClipLocator,
    who: &str,
) -> (r: Result<(Clip, Clip), ApplyError>)
    ensures
        match r {
            Ok(p) => cut_clips(working@, index, from, to, who@) == Ok::<
                (ClipModel, ClipModel),
                Refusal,
            >((p.0@, p.1@)),
            Err(e) => cut_clips(working@, index, from, to, who@) == Err::<
                (ClipModel, ClipModel),
                Refusal,
            >(e@),
        },
{
    match working.track(from.track_index) {
        None => Err(invalid(index, cat2(who, ": anchor resolved to a non-track stack child"))),
        Some(t) => match t.clip(from.child_index) {
            None => Err(invalid(index, cat2(who, ": from anchor resolved to a non-clip child"))),
            Some(a) => match t.clip(to.child_index) {
                None => Err(invalid(index, cat2(who, ": to anchor resolved to a non-clip child"))),
                Some(b) => Ok((a.copied(), b.copied())),
            },
        },
    }
}

// ---- inserting ------------------------------------------------------------

/// Whether a transition may be written by name.
pub open spec fn authorable(kind: Str) -> bool {
    kind == "SMPTE_Dissolve"@ || begins_with(kind, "montage."@)
}

/// Whether a transition may be written by name.
pub fn is_authorable_transition_kind(kind: &str) -> (r: bool)
    ensures
        r == authorable(kind@),
{
    same(kind, "SMPTE_Dissolve") || begins(kind, "montage.")
}

/// Whether a transition, and its spec, may be put in.
pub open spec fn transition_kind_ok(
    index: usize,
    kind: Str,
    duration_s: Num,
    spec_: Option<TransitionSpec>,
    v: TransitionVerdict,
) -> Result<(), Refusal> {
    if !duration_s.is_finite() || duration_s.at_most(zero()) {
        Err(bad(index, "transition duration "@ + shown(duration_s) + " must be > 0"@))
    } else if v.duration_error is Some {
        Err(bad(index, v.duration_error->0@))
    } else {
        match v.xfade {
            Err(e) => Err(
                bad(
                    index,
                    "transition "@ + quoted(kind)
                        + " is not supported by the phase-one renderer: "@ + e@,
                ),
            ),
            Ok(None) => Err(
                bad(
                    index,
                    "transition "@ + quoted(kind) + " is semantic-only and cannot be inserted"@,
                ),
            ),
            Ok(Some(xfade)) => if !authorable(kind) {
                Err(
                    bad(
                        index,
                        "transition "@ + quoted(kind)
                            + " is a raw FFmpeg transition name. New EDLs must use a registered montage.* transition id or SMPTE_Dissolve."@,
                    ),
                )
            } else if kind == "montage.composite"@ && spec_ is None {
                Err(
                    bad(
                        index,
                        "transition \"montage.composite\" requires semantic metadata with composition_json"@,
                    ),
                )
            } else {
                match spec_ {
                    None => Ok(()),
                    Some(s) => transition_spec_ok(index, kind, xfade@, s.id@, v),
                }
            },
        }
    }
}

/// Whether the spec of a transition fits it.
pub open spec fn transition_spec_ok(
    index: usize,
    kind: Str,
    xfade: Str,
    id: Str,
    v: TransitionVerdict,
) -> Result<(), Refusal> {
    if id != kind {
        Err(
            bad(
                index,
                "transition spec id "@ + quoted(id) + " must match kind "@ + quoted(kind)
                    + "; use one stable transition id"@,
            ),
        )
    } else {
        match v.spec_xfade {
            Err(e) => Err(
                bad(index, "transition spec for "@ + quoted(id) + " is invalid: "@ + e@),
            ),
            Ok(x) => if opt(x) != Some(xfade) {
                Err(
                    bad(
                        index,
                        "transition spec id "@ + quoted(id) + " resolves to "@ + quoted_option(x)
                            + ", but kind "@ + quoted(kind) + " resolves to "@ + quoted(xfade),
                    ),
                )
            } else {
                match v.spec_error {
                    Some(e) => Err(
                        bad(index, "transition spec for "@ + quoted(id) + " is invalid: "@ + e@),
                    ),
                    None => Ok(()),
                }
            },
        }
    }
}

fn check_transition_spec(
    index: usize,
    kind: &str,
    xfade: &str,
    id: &str,
    v: &TransitionVerdict,
) -> (r: Result<(), ApplyError>)
    ensures
        checks(r, transition_spec_ok(index, kind@, xfade@, id@, *v)),
{
    if !same(id, kind) {
        return Err(
            invalid(
                index,
                cat5(
                    "transition spec id ",
                    quote(id).as_str(),
                    " must match kind ",
                    quote(kind).as_str(),
                    "; use one stable transition id",
                ),
            ),
        );
    }
    match &v.spec_xfade {
        Err(e) => Err(
            invalid(
                index,
                cat4("transition spec for ", quote(id).as_str(), " is invalid: ", e.as_str()),
            ),
        ),
        Ok(x) => {
            if !crate::clip::is_some_text(x, xfade) {
                return Err(
                    invalid(
                        index,
                        cat8(
                            "transition spec id ",
                            quote(id).as_str(),
                            " resolves to ",
                            quote_option(x).as_str(),
                            ", but kind ",
                            quote(kind).as_str(),
                            " resolves to ",
                            quote(xfade).as_str(),
                        ),
                    ),
                );
            }
            match &v.spec_error {
                Some(e) => Err(
                    invalid(
                        index,
                        cat4(
                            "transition spec for ",
                            quote(id).as_str(),
                            " is invalid: ",
                            e.as_str(),
                        ),
                    ),
                ),
                None => Ok(()),
            }
        },
    }
}

/// Checks whether a transition, and its spec, may be put in.
pub fn check_transition_kind(
    index: usize,
    kind: &str,
    duration_s: Num,
    spec_: &Option<TransitionSpec>,
    v: &TransitionVerdict,
) -> (r: Result<(), ApplyError>)
    ensures
        checks(r, transition_kind_ok(index, kind@, duration_s, *spec_, *v)),
{
    if !duration_s.is_finite() || duration_s.at_most(zero()) {
        return Err(
            invalid(
                index,
                cat3("transition duration ", show(duration_s).as_str(), " must be > 0"),
            ),
        );
    }
    if let Some(e) = &v.duration_error {
        return Err(invalid_str(index, e.as_str()));
    }
    match &v.xfade {
        Err(e) => Err(
            invalid(
                index,
                cat4(
                    "transition ",
                    quote(kind).as_str(),
                    " is not supported by the phase-one renderer: ",
                    e.as_str(),
                ),
            ),
        ),
        Ok(None) => Err(
            invalid(
                index,
                cat3(
                    "transition ",
                    quote(kind).as_str(),
                    " is semantic-only and cannot be inserted",
                ),
            ),
        ),
        Ok(Some(xfade)) => {
            if !is_authorable_transition_kind(kind) {
                return Err(
                    invalid(
                        index,
                        cat3(
                            "transition ",
                            quote(kind).as_str(),
                            " is a raw FFmpeg transition name. New EDLs must use a registered montage.* transition id or SMPTE_Dissolve.",
                        ),
                    ),
                );
            }
            if same(kind, "montage.composite") && spec_.is_none() {
                return Err(
                    invalid_str(
                        index,
                        "transition \"montage.composite\" requires semantic metadata with composition_json",
                    ),
                );
            }
            match spec_ {
                None => Ok(()),
                Some(s) => check_transition_spec(index, kind, xfade.as_str(), s.id.as_str(), v),
            }
        },
    }
}

/// Whether an offset of a transition is finite and not negative.
pub open spec fn offset_ok(index: usize, name: Str, value: Num) -> Result<(), Refusal> {
    if !value.is_finite() || value.less(zero()) {
        Err(
            bad(
                index,
                "transition "@ + name + " "@ + shown(value) + " must be finite and >= 0"@,
            ),
        )
    } else {
        Ok(())
    }
}

fn check_offset(index: usize, name: &str, value: Num) -> (r: Result<(), ApplyError>)
    ensures
        checks(r, offset_ok(index, name@, value)),
{
    if !value.is_finite() || value.less(zero()) {
        Err(
            invalid(
                index,
                cat5("transition ", name, " ", show(value).as_str(), " must be finite and >= 0"),
            ),
        )
    } else {
        Ok(())
    }
}

/// How much of a transition lies in front of and behind the cut.
#[verifier::allow_in_spec]
pub fn chosen_offsets(
    duration_s: Num,
    alignment: Option<TransitionAlignment>,
    in_offset_s: Option<Num>,
    out_offset_s: Option<Num>,
) -> (Num, Num)
    returns
        (match (in_offset_s, out_offset_s) {
            (Some(a), Some(b)) => (a, b),
            (Some(a), None) => (a, duration_s.minus(a)),
            (None, Some(b)) => (duration_s.minus(b), b),
            (None, None) => match alignment {
                Some(TransitionAlignment::StartAtCut) => (zero(), duration_s),
                Some(TransitionAlignment::EndAtCut) => (duration_s, zero()),
                _ => (duration_s.half(), duration_s.half()),
            },
        }),
{
    match (in_offset_s, out_offset_s) {
        (Some(a), Some(b)) => (a, b),
        (Some(a), None) => (a, duration_s.minus(a)),
        (None, Some(b)) => (duration_s.minus(b), b),
        (None, None) => match alignment {
            Some(TransitionAlignment::StartAtCut) => (zero(), duration_s),
            Some(TransitionAlignment::EndAtCut) => (duration_s, zero()),
            _ => (duration_s.half(), duration_s.half()),
        },
    }
}

/// How much of a transition lies in front of and behind the cut, or why it
/// cannot lie so.
pub open spec fn transition_offsets(
    index: usize,
    duration_s: Num,
    alignment: Option<TransitionAlignment>,
    in_offset_s: Option<Num>,
    out_offset_s: Option<Num>,
) -> Result<(Num, Num), Refusal> {
    let (a, b) = chosen_offsets(duration_s, alignment, in_offset_s, out_offset_s);
    if in_offset_s is Some && offset_ok(index, "in_offset_s"@, in_offset_s->0) is Err {
        Err(offset_ok(index, "in_offset_s"@, in_offset_s->0)->Err_0)
    } else if out_offset_s is Some && offset_ok(index, "out_offset_s"@, out_offset_s->0) is Err {
        Err(offset_ok(index, "out_offset_s"@, out_offset_s->0)->Err_0)
    } else if offset_ok(index, "in_offset_s"@, a) is Err {
        Err(offset_ok(index, "in_offset_s"@, a)->Err_0)
    } else if offset_ok(index, "out_offset_s"@, b) is Err {
        Err(offset_ok(index, "out_offset_s"@, b)->Err_0)
    } else if micro().less(a.plus(b).minus(duration_s).size()) {
        Err(
            bad(
                index,
                "transition offsets must sum to duration_s ("@ + milli3(duration_s)
                    + "); got in_offset_s="@ + milli3(a) + ", out_offset_s="@ + milli3(b),
            ),
        )
    } else {
        Ok((a, b))
    }
}

/// How much of a transition lies in front of and behind the cut.
pub fn resolve_transition_offsets(
    index: usize,
    duration_s: Num,
    alignment: Option<TransitionAlignment>,
    in_offset_s: Option<Num>,
    out_offset_s: Option<Num>,
) -> (r: Result<(Num, Num), ApplyError>)
    ensures
        match r {
            Ok(p) => transition_offsets(index, duration_s, alignment, in_offset_s, out_offset_s)
                == Ok::<(Num, Num), Refusal>(p),
            Err(e) => transition_offsets(index, duration_s, alignment, in_offset_s, out_offset_s)
                == Err::<(Num, Num), Refusal>(e@),
        },
{
    if let Some(v) = in_offset_s {
        if let Err(e) = check_offset(index, "in_offset_s", v) {
            return Err(e);
        }
    }
    if let Some(v) = out_offset_s {
        if let Err(e) = check_offset(index, "out_offset_s", v) {
            return Err(e);
        }
    }
    let (a, b) = chosen_offsets(duration_s, alignment, in_offset_s, out_offset_s);
    if let Err(e) = check_offset(index, "in_offset_s", a) {
        return Err(e);
    }
    if let Err(e) = check_offset(index, "out_offset_s", b) {
        return Err(e);
    }
    if micro().less(a.plus(b).minus(duration_s).size()) {
        return Err(
            invalid(
                index,
                cat6(
                    "transition offsets must sum to duration_s (",
                    fix3(duration_s).as_str(),
                    "); got in_offset_s=",
                    fix3(a).as_str(),
                    ", out_offset_s=",
                    fix3(b).as_str(),
                ),
            ),
        );
    }
    Ok((a, b))
}

/// How much media a clip has beyond its source range on the side of a cut.
pub open spec fn handle_of(c: ClipModel, r: crate::model::TimeRange, incoming: bool) -> Num {
    match available_of(c) {
        Some(a) => if incoming {
            r.start_time.seconds.minus(a.start_time.seconds).larger(zero())
        } else {
            end_of(a).minus(end_of(r)).larger(zero())
        },
        None => if incoming {
            r.start_time.seconds.larger(zero())
        } else {
            Num::PosInf
        },
    }
}

/// The word for the side of a cut.
pub open spec fn side_word(incoming: bool) -> Str {
    if incoming {
        "incoming"@
    } else {
        "outgoing"@
    }
}

/// Whether a clip has media enough beyond its source range for a transition.
pub open spec fn handle_ok(index: usize, kind: Str, c: ClipModel, incoming: bool, needed_s: Num) -> Result<
    (),
    Refusal,
> {
    let head = "transition "@ + quoted(kind) + " around clip "@ + quoted(c.name) + " needs "@
        + milli3(needed_s) + "s "@ + side_word(incoming);
    if needed_s.at_most(zero()) {
        Ok(())
    } else {
        match c.source_range {
            None => Err(bad(index, head + " handle, but the clip has no source_range"@)),
            Some(r) => {
                let has = handle_of(c, r, incoming);
                if has.plus(micro()).less(needed_s) {
                    Err(
                        bad(
                            index,
                            head + " handle, but only "@ + milli3(has)
                                + "s is available. Repair by shortening the transition, choosing a different alignment, or applying Untrim Clip to widen the source range before inserting it."@,
                        ),
                    )
                } else {
                    Ok(())
                }
            },
        }
    }
}

/// Checks whether a clip has media enough for a transition.
pub fn validate_transition_handle(
    index: usize,
    kind: &str,
    clip: &Clip,
    incoming: bool,
    needed_s: Num,
) -> (r: Result<(), ApplyError>)
    ensures
        checks(r, handle_ok(index, kind@, clip@, incoming, needed_s)),
{
    if needed_s.at_most(zero()) {
        return Ok(());
    }
    let side: &str = if incoming {
        "incoming"
    } else {
        "outgoing"
    };
    let head = cat8(
        "transition ",
        quote(kind).as_str(),
        " around clip ",
        quote(clip.name.as_str()).as_str(),
        " needs ",
        fix3(needed_s).as_str(),
        "s ",
        side,
    );
    let r = match clip.source_range {
        Some(r) => r,
        None => {
            return Err(
                invalid(
                    index,
                    cat2(head.as_str(), " handle, but the clip has no source_range"),
                ),
            );
        },
    };
    let has = match available_range(clip) {
        Some(a) => if incoming {
            r.start_time.seconds.minus(a.start_time.seconds).larger(zero())
        } else {
            end_of(a).minus(end_of(r)).larger(zero())
        },
        None => if incoming {
            r.start_time.seconds.larger(zero())
        } else {
            Num::PosInf
        },
    };
    if has.plus(micro()).less(needed_s) {
        return Err(
            invalid(
                index,
                cat4(
                    head.as_str(),
                    " handle, but only ",
                    fix3(has).as_str(),
                    "s is available. Repair by shortening the transition, choosing a different alignment, or applying Untrim Clip to widen the source range before inserting it.",
                ),
            ),
        );
    }
    Ok(())
}

/// What is asked of a new transition.
#[derive(Debug)]
pub struct TransitionRequest {
    pub kind: String,
    pub duration_s: Num,
    pub alignment: Option<TransitionAlignment>,
    pub in_offset_s: Option<Num>,
    pub out_offset_s: Option<Num>,
    pub spec: Option<TransitionSpec>,
}

/// The new transition, at the rate of the clip in front of it.
pub open spec fn new_transition(q: TransitionRequest, v: TransitionVerdict, a: Num, b: Num, rate: Num) -> TrackChildModel {
    TrackChildModel::Transition(
        TransitionModel {
            name: ""@,
            transition_type: q.kind@,
            in_offset: RationalTime::new(a, rate),
            out_offset: RationalTime::new(b, rate),
            metadata: if q.spec is Some {
                put(Seq::empty(), "montage_transition"@, v.kept_spec@)
            } else {
                Seq::empty()
            },
        },
    )
}

/// Putting a transition between two clips that stand side by side on one track,
/// or in place of the one between them.
pub open spec fn inserted_transition(
    tl: TimelineModel,
    index: usize,
    q: TransitionRequest,
    v: TransitionVerdict,
    places: BetweenPlaces,
) -> Done {
    match transition_kind_ok(index, q.kind@, q.duration_s, q.spec, v) {
        Err(e) => Err(e),
        Ok(_) => match transition_offsets(
            index,
            q.duration_s,
            q.alignment,
            q.in_offset_s,
            q.out_offset_s,
        ) {
            Err(e) => Err(e),
            Ok((a, b)) => match found_between(index, places) {
                Err(e) => Err(e),
                Ok((from, to)) => if from.track_index != to.track_index {
                    Err(
                        bad(
                            index,
                            "transition: anchors resolve to different tracks ("@ + decimal(
                                from.track_index as nat,
                            ) + " vs "@ + decimal(to.track_index as nat)
                                + "). Both clips must live on the same track."@,
                        ),
                    )
                } else if !steps_apart(from, to, 1) && !over_transition(tl, from, to) {
                    Err(
                        bad(
                            index,
                            "transition: anchors are not adjacent (from at index "@ + decimal(
                                from.child_index as nat,
                            ) + ", to at index "@ + decimal(to.child_index as nat)
                                + "). Transitions insert between consecutive clips, or replace an existing transition between the same clips."@,
                        ),
                    )
                } else {
                    transition_between(tl, index, q, v, a, b, from, to)
                },
            },
        },
    }
}

/// Putting a transition between the two clips found.
pub open spec fn transition_between(
    tl: TimelineModel,
    index: usize,
    q: TransitionRequest,
    v: TransitionVerdict,
    a: Num,
    b: Num,
    from: ClipLocator,
    to: ClipLocator,
) -> Done {
    match cut_clips(tl, index, from, to, "transition"@) {
        Err(e) => Err(e),
        Ok((left, right)) => match handle_ok(index, q.kind@, left, false, b) {
            Err(e) => Err(e),
            Ok(_) => match handle_ok(index, q.kind@, right, true, a) {
                Err(e) => Err(e),
                Ok(_) => {
                    let i = from.track_index as int;
                    let j = from.child_index as int;
                    let t = track_at(tl, i)->0;
                    let replaces = over_transition(tl, from, to);
                    let rest = if replaces {
                        t.children.remove(j + 1)
                    } else {
                        t.children
                    };
                    Ok(
                        (
                            with_track(
                                tl,
                                i,
                                with_children(
                                    t,
                                    rest.insert(j + 1, new_transition(q, v, a, b, rate_of(left))),
                                ),
                            ),
                            (if replaces {
                                "replaced"@
                            } else {
                                "inserted"@
                            }) + " transition "@ + quoted(q.kind@) + " ("@ + milli3(q.duration_s)
                                + "s, in="@ + milli3(a) + "s, out="@ + milli3(b)
                                + "s) between clips at indices "@ + decimal(j as nat) + " and "@
                                + decimal((j + 2) as nat) + " on track "@ + decimal(i as nat),
                        ),
                    )
                },
            },
        },
    }
}

fn insert_between(
    working: Timeline,
    index: usize,
    q: &TransitionRequest,
    v: &TransitionVerdict,
    a: Num,
    b: Num,
    from: ClipLocator,
    to: ClipLocator,
) -> (r: Result<(Timeline, String), ApplyError>)
    requires
        steps_apart(from, to, 1) || over_transition(working@, from, to),
    ensures
        shows(r, transition_between(working@, index, *q, *v, a, b, from, to)),
{
    let (left, right) = match get_cut_clips(&working, index, from, to, "transition") {
        Ok(p) => p,
        Err(e) => {
            return Err(e);
        },
    };
    if let Err(e) = validate_transition_handle(index, q.kind.as_str(), &left, false, b) {
        return Err(e);
    }
    if let Err(e) = validate_transition_handle(index, q.kind.as_str(), &right, true, a) {
        return Err(e);
    }
    let rate = clip_rate(&left);
    let mut metadata = MetaMap::new();
    if q.spec.is_some() {
        metadata.insert("montage_transition", v.kept_spec.copied());
    }
    let transition = Transition {
        name: "".to_owned(),
        transition_type: q.kind.clone(),
        in_offset: RationalTime::new(a, rate),
        out_offset: RationalTime::new(b, rate),
        metadata,
    };
    let replaces = is_over_transition(&working, from, to);
    let mut out = working;
    let mut track = out.track(from.track_index).unwrap().copied();
    let at: usize = from.child_index + 1;
    if replaces {
        let _ = track.remove(at);
    }
    track.insert(at, TrackChild::Transition(transition));
    out.put_track(from.track_index, track);
    let said = cat9(
        if replaces {
            "replaced"
        } else {
            "inserted"
        },
        " transition ",
        quote(q.kind.as_str()).as_str(),
        " (",
        fix3(q.duration_s).as_str(),
        "s, in=",
        fix3(a).as_str(),
        "s, out=",
        fix3(b).as_str(),
    );
    let said = cat7(
        said.as_str(),
        "s) between clips at indices ",
        count_usize(from.child_index).as_str(),
        " and ",
        crate::text::count(from.child_index as u128 + 2).as_str(),
        " on track ",
        count_usize(from.track_index).as_str(),
    );
    Ok((out, said))
}

/// Puts a transition between two clips.
pub fn apply_insert_transition(
    working: Timeline,
    index: usize,
    q: &TransitionRequest,
    v: &TransitionVerdict,
    places: &BetweenPlaces,
) -> (r: Result<(Timeline, String), ApplyError>)
    ensures
        shows(r, inserted_transition(working@, index, *q, *v, *places)),
{
    if let Err(e) = check_transition_kind(index, q.kind.as_str(), q.duration_s, &q.spec, v) {
        return Err(e);
    }
    let (a, b) = match resolve_transition_offsets(
        index,
        q.duration_s,
        q.alignment,
        q.in_offset_s,
        q.out_offset_s,
    ) {
        Ok(p) => p,
        Err(e) => {
            return Err(e);
        },
    };
    let (from, to) = match find_between(index, places) {
        Ok(p) => p,
        Err(e) => {
            return Err(e);
        },
    };
    if from.track_index != to.track_index {
        return Err(
            invalid(
                index,
                cat5(
                    "transition: anchors resolve to different tracks (",
                    count_usize(from.track_index).as_str(),
                    " vs ",
                    count_usize(to.track_index).as_str(),
                    "). Both clips must live on the same track.",
                ),
            ),
        );
    }
    if !is_apart(from, to, 1) && !is_over_transition(&working, from, to) {
        return Err(
            invalid(
                index,
                cat5(
                    "transition: anchors are not adjacent (from at index ",
                    count_usize(from.child_index).as_str(),
                    ", to at index ",
                    count_usize(to.child_index).as_str(),
                    "). Transitions insert between consecutive clips, or replace an existing transition between the same clips.",
                ),
            ),
        );
    }
    insert_between(working, index, q, v, a, b, from, to)
}

// ---- deleting -------------------------------------------------------------

/// Taking out the transition between two clips.
pub open spec fn deleted_transition(tl: TimelineModel, index: usize, places: BetweenPlaces) -> Done {
    match found_between(index, places) {
        Err(e) => Err(e),
        Ok((from, to)) => {
            let i = from.track_index as int;
            let j = from.child_index as int;
            if from.track_index != to.track_index {
                Err(
                    bad(
                        index,
                        "delete_transition: anchors resolve to different tracks ("@ + decimal(
                            from.track_index as nat,
                        ) + " vs "@ + decimal(to.track_index as nat) + ")"@,
                    ),
                )
            } else if !steps_apart(from, to, 2) {
                Err(
                    bad(
                        index,
                        "delete_transition: expected clips separated by one transition, got indices "@
                            + decimal(from.child_index as nat) + " and "@ + decimal(
                            to.child_index as nat,
                        ),
                    ),
                )
            } else {
                match track_at(tl, i) {
                    None => Err(
                        bad(
                            index,
                            "delete_transition: anchor resolved to a non-track stack child"@,
                        ),
                    ),
                    Some(t) => if !transition_at(tl, i, j + 1) {
                        Err(
                            bad(
                                index,
                                "delete_transition: no transition exists between those clips"@,
                            ),
                        )
                    } else {
                        Ok(
                            (
                                with_track(tl, i, with_children(t, t.children.remove(j + 1))),
                                "deleted transition between clips at indices "@ + decimal(j as nat)
                                    + " and "@ + decimal((j + 2) as nat) + " on track "@ + decimal(
                                    i as nat,
                                ),
                            ),
                        )
                    },
                }
            }
        },
    }
}

/// Takes out the transition between two clips.
pub fn apply_delete_transition(working: Timeline, index: usize, places: &BetweenPlaces) -> (r:
    Result<(Timeline, String), ApplyError>)
    ensures
        shows(r, deleted_transition(working@, index, *places)),
{
    let (from, to) = match find_between(index, places) {
        Ok(p) => p,
        Err(e) => {
            return Err(e);
        },
    };
    if from.track_index != to.track_index {
        return Err(
            invalid(
                index,
                cat5(
                    "delete_transition: anchors resolve to different tracks (",
                    count_usize(from.track_index).as_str(),
                    " vs ",
                    count_usize(to.track_index).as_str(),
                    ")",
                ),
            ),
        );
    }
    if !is_apart(from, to, 2) {
        return Err(
            invalid(
                index,
                cat4(
                    "delete_transition: expected clips separated by one transition, got indices ",
                    count_usize(from.child_index).as_str(),
                    " and ",
                    count_usize(to.child_index).as_str(),
                ),
            ),
        );
    }
    let mut out = working;
    let mut track = match out.track(from.track_index) {
        Some(t) => t.copied(),
        None => {
            return Err(
                invalid_str(
                    index,
                    "delete_transition: anchor resolved to a non-track stack child",
                ),
            );
        },
    };
    if !has_transition(&out, from.track_index, from.child_index + 1) {
        return Err(
            invalid_str(index, "delete_transition: no transition exists between those clips"),
        );
    }
    let _ = track.remove(from.child_index + 1);
    out.put_track(from.track_index, track);
    let said = cat6(
        "deleted transition between clips at indices ",
        count_usize(from.child_index).as_str(),
        " and ",
        count_usize(to.child_index).as_str(),
        " on track ",
        count_usize(from.track_index).as_str(),
    );
    Ok((out, said))
}

// ---- cut intent -----------------------------------------------------------

/// Whether nothing but empty time, and some of it, stands between two places.
pub open spec fn only_gaps_between(t: TrackModel, from: int, to: int) -> bool {
    to > from + 1 && to <= t.children.len() && forall|k: int|
        from < k < to ==> (#[trigger] t.children[k]) is Gap
}

/// Whether nothing but empty time stands between two places.
pub fn clips_are_separated_only_by_gaps(track: &Track, from_index: usize, to_index: usize) -> (r:
    bool)
    ensures
        r == only_gaps_between(track@, from_index as int, to_index as int),
{
    if to_index <= from_index || to_index - from_index <= 1 || to_index > track.children.len() {
        return false;
    }
    let mut k: usize = from_index + 1;
    while k < to_index
        invariant
            from_index < k <= to_index <= track@.children.len(),
            forall|m: int| from_index < m < k ==> (#[trigger] track@.children[m]) is Gap,
        decreases to_index - k,
    {
        match &track.children[k] {
            TrackChild::Gap(_) => {},
            _ => {
                assert(!(track@.children[k as int] is Gap));
                return false;
            },
        }
        k = k + 1;
    }
    true
}

/// Whether a cut's spec is well-formed.
pub open spec fn cut_spec_ok(index: usize, s: SemanticCutSpecModel) -> Result<(), Refusal> {
    if is_blank(s.intent) {
        Err(bad(index, "set_cut_intent: intent must be non-empty"@))
    } else if s.energy is Some && !s.energy->0.in_unit_interval() {
        Err(
            bad(index, "set_cut_intent: energy "@ + shown(s.energy->0) + " must be in [0, 1]"@),
        )
    } else if s.confidence is Some && !s.confidence->0.in_unit_interval() {
        Err(
            bad(
                index,
                "set_cut_intent: confidence "@ + shown(s.confidence->0) + " must be in [0, 1]"@,
            ),
        )
    } else {
        Ok(())
    }
}

/// Checks whether a cut's spec is well-formed.
pub fn validate_semantic_cut_spec(index: usize, s: &SemanticCutSpec) -> (r: Result<
    (),
    ApplyError,
>)
    ensures
        checks(r, cut_spec_ok(index, s@)),
{
    if blank(s.intent.as_str()) {
        return Err(invalid_str(index, "set_cut_intent: intent must be non-empty"));
    }
    if let Some(energy) = s.energy {
        if !energy.in_unit_interval() {
            return Err(
                invalid(
                    index,
                    cat3("set_cut_intent: energy ", show(energy).as_str(), " must be in [0, 1]"),
                ),
            );
        }
    }
    if let Some(confidence) = s.confidence {
        if !confidence.in_unit_interval() {
            return Err(
                invalid(
                    index,
                    cat3(
                        "set_cut_intent: confidence ",
                        show(confidence).as_str(),
                        " must be in [0, 1]",
                    ),
                ),
            );
        }
    }
    Ok(())
}

/// Whether a cut lies between two places: side by side, over one transition, or
/// over empty time.
pub open spec fn cut_between(tl: TimelineModel, from: ClipLocator, to: ClipLocator) -> bool {
    steps_apart(from, to, 1) || over_transition(tl, from, to) || (track_at(
        tl,
        from.track_index as int,
    ) matches Some(t) && only_gaps_between(t, from.child_index as int, to.child_index as int))
}

/// Keeping what a cut between two clips is meant to do.
pub open spec fn set_cut(
    tl: TimelineModel,
    index: usize,
    s: SemanticCutSpecModel,
    places: BetweenPlaces,
) -> Done {
    match cut_spec_ok(index, s) {
        Err(e) => Err(e),
        Ok(_) => match found_between(index, places) {
            Err(e) => Err(e),
            Ok((from, to)) => if from.track_index != to.track_index {
                Err(
                    bad(
                        index,
                        "set_cut_intent: anchors resolve to different tracks ("@ + decimal(
                            from.track_index as nat,
                        ) + " vs "@ + decimal(to.track_index as nat) + ")"@,
                    ),
                )
            } else if !cut_between(tl, from, to) {
                Err(
                    bad(
                        index,
                        "set_cut_intent: anchors are not adjacent boundary clips (from at index "@
                            + decimal(from.child_index as nat) + ", to at index "@ + decimal(
                            to.child_index as nat,
                        ) + ")"@,
                    ),
                )
            } else {
                match cut_clips(tl, index, from, to, "set_cut_intent"@) {
                    Err(e) => Err(e),
                    Ok((left, right)) => {
                        let key = boundary_key(id_of(left), id_of(right));
                        let m = montage_of(tl);
                        Ok(
                            (
                                with_montage(
                                    tl,
                                    MontageTimelineMetadataModel {
                                        cut_boundaries: put_boundary(m.cut_boundaries, key, s),
                                        ..m
                                    },
                                ),
                                "set cut intent "@ + s.cut_type + " ("@ + s.audio_relation
                                    + ") for boundary "@ + key,
                            ),
                        )
                    },
                }
            },
        },
    }
}

/// Keeps what a cut between two clips is meant to do.
pub fn apply_set_cut_intent(
    working: Timeline,
    index: usize,
    s: &SemanticCutSpec,
    places: &BetweenPlaces,
) -> (r: Result<(Timeline, String), ApplyError>)
    ensures
        shows(r, set_cut(working@, index, s@, *places)),
{
    if let Err(e) = validate_semantic_cut_spec(index, s) {
        return Err(e);
    }
    let (from, to) = match find_between(index, places) {
        Ok(p) => p,
        Err(e) => {
            return Err(e);
        },
    };
    if from.track_index != to.track_index {
        return Err(
            invalid(
                index,
                cat5(
                    "set_cut_intent: anchors resolve to different tracks (",
                    count_usize(from.track_index).as_str(),
                    " vs ",
                    count_usize(to.track_index).as_str(),
                    ")",
                ),
            ),
        );
    }
    let over_gaps = match working.track(from.track_index) {
        Some(t) => clips_are_separated_only_by_gaps(t, from.child_index, to.child_index),
        None => false,
    };
    if !is_apart(from, to, 1) && !is_over_transition(&working, from, to) && !over_gaps {
        return Err(
            invalid(
                index,
                cat5(
                    "set_cut_intent: anchors are not adjacent boundary clips (from at index ",
                    count_usize(from.child_index).as_str(),
                    ", to at index ",
                    count_usize(to.child_index).as_str(),
                    ")",
                ),
            ),
        );
    }
    let (left, right) = match get_cut_clips(&working, index, from, to, "set_cut_intent") {
        Ok(p) => p,
        Err(e) => {
            return Err(e);
        },
    };
    let key = cut_boundary_key(clip_id(&left).as_str(), clip_id(&right).as_str());
    let mut out = working;
    let mut m = out.take_montage();
    set_boundary(&mut m.cut_boundaries, key.as_str(), s.copied());
    out.put_montage(m);
    let said = cat6(
        "set cut intent ",
        s.cut_type.as_str(),
        " (",
        s.audio_relation.as_str(),
        ") for boundary ",
        key.as_str(),
    );
    Ok((out, said))
}

} // verus!

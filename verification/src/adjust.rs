//! Moving the source ranges of clips that stay where they are.
use vstd::prelude::*;

use crate::clip::{available_of, available_range, end_of, media_at, with_range};
use crate::edit::{clip_in, track_at, track_with_clip, with_clip, with_track};
use crate::error::{bad, checks, invalid, invalid_str, shows, ApplyError, Done, Refusal};
use crate::locate::{find_clip, found_clip, no_place, required_locator};
use crate::model::{
    Clip, ClipLocator, ClipModel, ExternalReference, MediaReference, Stored, TimeRange, Timeline,
    TimelineModel, Track, TrackChild, TrackModel,
};
use crate::num::{micro, rate24, zero, Num};
use crate::op::{BetweenPlaces, SourceRange};
use crate::text::{
    blank, cat10, cat2, cat4, cat5, cat6, cat9, count_usize, decimal, fix3, is_blank, milli3, quote,
    quoted, show, shown, Str,
};
use crate::transition::{cut_clips, find_between, found_between, get_cut_clips, steps_apart};

verus! {

/// Whether a source range lies in the media that is known to exist; `label`
/// stands in front of the message.
pub open spec fn source_ok(index: usize, label: Str, c: ClipModel, start: Num, end: Num) -> Result<
    (),
    Refusal,
> {
    if start.less(zero()) {
        Err(bad(index, label + ": target source start "@ + milli3(start) + "s is before 0"@))
    } else {
        match available_of(c) {
            Some(a) if start.less(a.start_time.seconds.minus(micro())) || end_of(a).plus(
                micro(),
            ).less(end) => Err(
                bad(
                    index,
                    label + ": target source range ["@ + milli3(start) + "s.."@ + milli3(end)
                        + "s] exceeds available media range ["@ + milli3(a.start_time.seconds)
                        + "s.."@ + milli3(end_of(a)) + "s]"@,
                ),
            ),
            _ => Ok(()),
        }
    }
}

/// Checks whether a source range lies in the media that is known to exist.
pub fn validate_available_source_range(
    index: usize,
    label: &str,
    clip: &Clip,
    start: Num,
    end: Num,
) -> (r: Result<(), ApplyError>)
    ensures
        checks(r, source_ok(index, label@, clip@, start, end)),
{
    if start.less(zero()) {
        return Err(
            invalid(
                index,
                cat4(label, ": target source start ", fix3(start).as_str(), "s is before 0"),
            ),
        );
    }
    if let Some(a) = available_range(clip) {
        let first = a.start_time.seconds;
        let last = end_of(a);
        if start.less(first.minus(micro())) || last.plus(micro()).less(end) {
            return Err(
                invalid(
                    index,
                    cat10(
                        label,
                        ": target source range [",
                        fix3(start).as_str(),
                        "s..",
                        fix3(end).as_str(),
                        "s] exceeds available media range [",
                        fix3(first).as_str(),
                        "s..",
                        fix3(last).as_str(),
                        "s]",
                    ),
                ),
            );
        }
    }
    Ok(())
}

/// Whether a move is finite and not nothing; `who` stands in front of the
/// message.
pub open spec fn delta_ok(index: usize, who: Str, delta_s: Num) -> Result<(), Refusal> {
    if !delta_s.is_finite() {
        Err(bad(index, who + ": delta_s must be finite, got "@ + shown(delta_s)))
    } else if delta_s.size().less(micro()) {
        Err(bad(index, who + ": delta_s is a no-op"@))
    } else {
        Ok(())
    }
}

fn check_delta(index: usize, who: &str, delta_s: Num) -> (r: Result<(), ApplyError>)
    ensures
        checks(r, delta_ok(index, who@, delta_s)),
{
    if !delta_s.is_finite() {
        return Err(
            invalid(
                index,
                crate::text::cat3(who, ": delta_s must be finite, got ", show(delta_s).as_str()),
            ),
        );
    }
    if delta_s.size().less(micro()) {
        return Err(invalid(index, cat2(who, ": delta_s is a no-op")));
    }
    Ok(())
}

// ---- a moved cut ----------------------------------------------------------

/// The words in the messages about a moved cut.
pub struct CutWords {
    pub no_left_range: &'static str,
    pub no_right_range: &'static str,
    pub left_gone: &'static str,
    pub right_gone: &'static str,
    pub left_label: &'static str,
    pub right_label: &'static str,
}

/// The clip in front of a cut with its end moved.
pub open spec fn end_moved(c: ClipModel, delta: Num) -> ClipModel {
    let r = c.source_range->0;
    let start = r.start_time.seconds;
    with_range(
        c,
        TimeRange::seconds(start, end_of(r).plus(delta).minus(start), r.start_time.rate),
    )
}

/// The clip behind a cut with its start moved.
pub open spec fn start_moved(c: ClipModel, delta: Num) -> ClipModel {
    let r = c.source_range->0;
    let start = r.start_time.seconds.plus(delta);
    with_range(c, TimeRange::seconds(start, end_of(r).minus(start), r.start_time.rate))
}

/// The clips on both sides of something with their inner ends moved: both keep a
/// length, and media enough.
pub open spec fn cut_moved(
    index: usize,
    left: ClipModel,
    right: ClipModel,
    delta: Num,
    w: CutWords,
) -> Result<(ClipModel, ClipModel), Refusal> {
    if left.source_range is None {
        Err(bad(index, w.no_left_range@))
    } else if right.source_range is None {
        Err(bad(index, w.no_right_range@))
    } else {
        let a = left.source_range->0;
        let b = right.source_range->0;
        let new_end = end_of(a).plus(delta);
        let new_start = b.start_time.seconds.plus(delta);
        if new_end.at_most(a.start_time.seconds.plus(micro())) {
            Err(bad(index, w.left_gone@))
        } else if end_of(b).minus(micro()).at_most(new_start) {
            Err(bad(index, w.right_gone@))
        } else {
            match source_ok(index, w.left_label@, left, a.start_time.seconds, new_end) {
                Err(e) => Err(e),
                Ok(_) => match source_ok(index, w.right_label@, right, new_start, end_of(b)) {
                    Err(e) => Err(e),
                    Ok(_) => Ok((end_moved(left, delta), start_moved(right, delta))),
                },
            }
        }
    }
}

fn move_cut(index: usize, left: Clip, right: Clip, delta: Num, w: CutWords) -> (r: Result<
    (Clip, Clip),
    ApplyError,
>)
    ensures
        match r {
            Ok(p) => cut_moved(index, left@, right@, delta, w) == Ok::<
                (ClipModel, ClipModel),
                Refusal,
            >((p.0@, p.1@)),
            Err(e) => cut_moved(index, left@, right@, delta, w) == Err::<
                (ClipModel, ClipModel),
                Refusal,
            >(e@),
        },
{
    let a = match left.source_range {
        Some(a) => a,
        None => {
            return Err(invalid_str(index, w.no_left_range));
        },
    };
    let b = match right.source_range {
        Some(b) => b,
        None => {
            return Err(invalid_str(index, w.no_right_range));
        },
    };
    let start = a.start_time.seconds;
    let new_end = end_of(a).plus(delta);
    let new_start = b.start_time.seconds.plus(delta);
    let end = end_of(b);
    if new_end.at_most(start.plus(micro())) {
        return Err(invalid_str(index, w.left_gone));
    }
    if end.minus(micro()).at_most(new_start) {
        return Err(invalid_str(index, w.right_gone));
    }
    if let Err(e) = validate_available_source_range(index, w.left_label, &left, start, new_end) {
        return Err(e);
    }
    if let Err(e) = validate_available_source_range(index, w.right_label, &right, new_start, end) {
        return Err(e);
    }
    let mut left = left;
    let mut right = right;
    left.source_range = Some(TimeRange::seconds(start, new_end.minus(start), a.start_time.rate));
    right.source_range = Some(
        TimeRange::seconds(new_start, end.minus(new_start), b.start_time.rate),
    );
    Ok((left, right))
}

/// The words for a roll.
#[verifier::allow_in_spec]
pub fn roll_words() -> CutWords
    returns
        (CutWords {
            no_left_range: "roll_edit: from clip has no source_range",
            no_right_range: "roll_edit: to clip has no source_range",
            left_gone: "roll_edit: delta would collapse or invert the outgoing clip",
            right_gone: "roll_edit: delta would collapse or invert the incoming clip",
            left_label: "roll_edit outgoing",
            right_label: "roll_edit incoming",
        }),
{
    CutWords {
        no_left_range: "roll_edit: from clip has no source_range",
        no_right_range: "roll_edit: to clip has no source_range",
        left_gone: "roll_edit: delta would collapse or invert the outgoing clip",
        right_gone: "roll_edit: delta would collapse or invert the incoming clip",
        left_label: "roll_edit outgoing",
        right_label: "roll_edit incoming",
    }
}

/// Moving the cut between two clips that stand side by side.
pub open spec fn rolled(tl: TimelineModel, index: usize, delta_s: Num, places: BetweenPlaces) -> Done {
    match delta_ok(index, "roll_edit"@, delta_s) {
        Err(e) => Err(e),
        Ok(_) => match found_between(index, places) {
            Err(e) => Err(e),
            Ok((from, to)) => if from.track_index != to.track_index {
                Err(
                    bad(
                        index,
                        "roll_edit: anchors resolve to different tracks ("@ + decimal(
                            from.track_index as nat,
                        ) + " vs "@ + decimal(to.track_index as nat) + ")"@,
                    ),
                )
            } else if !steps_apart(from, to, 1) {
                Err(
                    bad(
                        index,
                        "roll_edit: anchors are not adjacent clips (from at index "@ + decimal(
                            from.child_index as nat,
                        ) + ", to at index "@ + decimal(to.child_index as nat) + ")"@,
                    ),
                )
            } else {
                match cut_clips(tl, index, from, to, "roll_edit"@) {
                    Err(e) => Err(e),
                    Ok((left, right)) => match cut_moved(
                        index,
                        left,
                        right,
                        delta_s,
                        roll_words(),
                    ) {
                        Err(e) => Err(e),
                        Ok((a, b)) => Ok(
                            (
                                with_clip(with_clip(tl, from, a), to, b),
                                "rolled edit between "@ + quoted(left.name) + " and "@ + quoted(
                                    right.name,
                                ) + " by "@ + milli3(delta_s) + "s"@,
                            ),
                        ),
                    },
                }
            },
        },
    }
}

/// Moves the cut between two clips.
pub fn apply_roll_edit(working: Timeline, index: usize, delta_s: Num, places: &BetweenPlaces) -> (r:
    Result<(Timeline, String), ApplyError>)
    ensures
        shows(r, rolled(working@, index, delta_s, *places)),
{
    if let Err(e) = check_delta(index, "roll_edit", delta_s) {
        return Err(e);
    }
    let (from, to) = match find_between(index, places) {
        Ok(p) => p,
        Err(e) => {
            return Err(e);
        },
    };
    if from.track_index != to.track_index {
        return Err(
            invalid(
                index,
                cat5(
                    "roll_edit: anchors resolve to different tracks (",
                    count_usize(from.track_index).as_str(),
                    " vs ",
                    count_usize(to.track_index).as_str(),
                    ")",
                ),
            ),
        );
    }
    if !(to.child_index > from.child_index && to.child_index - from.child_index == 1) {
        return Err(
            invalid(
                index,
                cat5(
                    "roll_edit: anchors are not adjacent clips (from at index ",
                    count_usize(from.child_index).as_str(),
                    ", to at index ",
                    count_usize(to.child_index).as_str(),
                    ")",
                ),
            ),
        );
    }
    let (left, right) = match get_cut_clips(&working, index, from, to, "roll_edit") {
        Ok(p) => p,
        Err(e) => {
            return Err(e);
        },
    };
    let said = cat6(
        "rolled edit between ",
        quote(left.name.as_str()).as_str(),
        " and ",
        quote(right.name.as_str()).as_str(),
        " by ",
        fix3(delta_s).as_str(),
    );
    let (a, b) = match move_cut(index, left, right, delta_s, roll_words()) {
        Ok(p) => p,
        Err(e) => {
            return Err(e);
        },
    };
    let mut out = working;
    out.put_clip(from, a);
    out.put_clip(to, b);
    Ok((out, cat2(said.as_str(), "s")))
}

// ---- slide ----------------------------------------------------------------

/// The words for a slide.
#[verifier::allow_in_spec]
pub fn slide_words() -> CutWords
    returns
        (CutWords {
            no_left_range: "slide_clip: previous clip has no source_range",
            no_right_range: "slide_clip: next clip has no source_range",
            left_gone: "slide_clip: delta would collapse or invert the previous clip",
            right_gone: "slide_clip: delta would collapse or invert the next clip",
            left_label: "slide_clip previous",
            right_label: "slide_clip next",
        }),
{
    CutWords {
        no_left_range: "slide_clip: previous clip has no source_range",
        no_right_range: "slide_clip: next clip has no source_range",
        left_gone: "slide_clip: delta would collapse or invert the previous clip",
        right_gone: "slide_clip: delta would collapse or invert the next clip",
        left_label: "slide_clip previous",
        right_label: "slide_clip next",
    }
}

/// The clip that is slid, with its two neighbours.
pub open spec fn slide_clips(tl: TimelineModel, index: usize, locator: Option<ClipLocator>) -> Result<
    (ClipLocator, TrackModel, ClipModel, ClipModel, ClipModel),
    Refusal,
> {
    match locator {
        None => Err(no_place(index)),
        Some(loc) => {
            let j = loc.child_index as int;
            if j == 0 {
                Err(
                    bad(
                        index,
                        "slide_clip: target clip has no previous neighbor to absorb the slide"@,
                    ),
                )
            } else {
                match track_at(tl, loc.track_index as int) {
                    None => Err(
                        bad(index, "slide_clip: anchor resolved to a non-track stack child"@),
                    ),
                    Some(t) => if j + 1 >= t.children.len() {
                        Err(
                            bad(
                                index,
                                "slide_clip: target clip has no next neighbor to absorb the slide"@,
                            ),
                        )
                    } else {
                        match clip_in(t, j - 1) {
                            None => Err(
                                bad(index, "slide_clip: previous neighbor is not a clip"@),
                            ),
                            Some(p) => match clip_in(t, j) {
                                None => Err(
                                    bad(
                                        index,
                                        "slide_clip: anchor resolved to a non-clip track child"@,
                                    ),
                                ),
                                Some(c) => match clip_in(t, j + 1) {
                                    None => Err(
                                        bad(index, "slide_clip: next neighbor is not a clip"@),
                                    ),
                                    Some(n) => Ok((loc, t, p, c, n)),
                                },
                            },
                        }
                    },
                }
            }
        },
    }
}

/// Moving a clip between its two neighbours, which grow and shrink to make room.
pub open spec fn slid(tl: TimelineModel, index: usize, delta_s: Num, locator: Option<ClipLocator>) -> Done {
    match delta_ok(index, "slide_clip"@, delta_s) {
        Err(e) => Err(e),
        Ok(_) => match slide_clips(tl, index, locator) {
            Err(e) => Err(e),
            Ok((loc, t, p, c, n)) => {
                let j = loc.child_index as int;
                if p.source_range is None {
                    Err(bad(index, "slide_clip: previous clip has no source_range"@))
                } else if c.source_range is None {
                    Err(bad(index, "slide_clip: target clip has no source_range"@))
                } else {
                    match cut_moved(index, p, n, delta_s, slide_words()) {
                        Err(e) => Err(e),
                        Ok((a, b)) => Ok(
                            (
                                with_track(
                                    tl,
                                    loc.track_index as int,
                                    track_with_clip(track_with_clip(t, j - 1, a), j + 1, b),
                                ),
                                "slid clip "@ + quoted(c.name) + " by "@ + milli3(delta_s)
                                    + "s while preserving its "@ + milli3(
                                    c.source_range->0.duration.seconds,
                                ) + "s duration"@,
                            ),
                        ),
                    }
                }
            },
        },
    }
}

fn get_slide_clips(working: &Timeline, index: usize, locator: Option<ClipLocator>) -> (r: Result<
    (ClipLocator, Track, Clip, Clip, Clip),
    ApplyError,
>)
    ensures
        match r {
            Ok(p) => slide_clips(working@, index, locator) == Ok::<
                (ClipLocator, TrackModel, ClipModel, ClipModel, ClipModel),
                Refusal,
            >((p.0, p.1@, p.2@, p.3@, p.4@)),
            Err(e) => slide_clips(working@, index, locator) == Err::<
                (ClipLocator, TrackModel, ClipModel, ClipModel, ClipModel),
                Refusal,
            >(e@),
        },
{
    let loc = match required_locator(index, locator) {
        Ok(l) => l,
        Err(e) => {
            return Err(e);
        },
    };
    let j: usize = loc.child_index;
    if j == 0 {
        return Err(
            invalid_str(
                index,
                "slide_clip: target clip has no previous neighbor to absorb the slide",
            ),
        );
    }
    let t = match working.track(loc.track_index) {
        Some(t) => t,
        None => {
            return Err(
                invalid_str(index, "slide_clip: anchor resolved to a non-track stack child"),
            );
        },
    };
    if j >= t.size() || t.size() - j <= 1 {
        return Err(
            invalid_str(
                index,
                "slide_clip: target clip has no next neighbor to absorb the slide",
            ),
        );
    }
    match t.clip(j - 1) {
        None => Err(invalid_str(index, "slide_clip: previous neighbor is not a clip")),
        Some(p) => match t.clip(j) {
            None => Err(
                invalid_str(index, "slide_clip: anchor resolved to a non-clip track child"),
            ),
            Some(c) => match t.clip(j + 1) {
                None => Err(invalid_str(index, "slide_clip: next neighbor is not a clip")),
                Some(n) => Ok((loc, t.copied(), p.copied(), c.copied(), n.copied())),
            },
        },
    }
}

/// Moves a clip between its two neighbours.
pub fn apply_slide_clip(
    working: Timeline,
    index: usize,
    delta_s: Num,
    locator: Option<ClipLocator>,
) -> (r: Result<(Timeline, String), ApplyError>)
    ensures
        shows(r, slid(working@, index, delta_s, locator)),
{
    if let Err(e) = check_delta(index, "slide_clip", delta_s) {
        return Err(e);
    }
    let (loc, t, p, c, n) = match get_slide_clips(&working, index, locator) {
        Ok(x) => x,
        Err(e) => {
            return Err(e);
        },
    };
    let j: usize = loc.child_index;
    if p.source_range.is_none() {
        return Err(invalid_str(index, "slide_clip: previous clip has no source_range"));
    }
    let length = match c.source_range {
        Some(r) => r.duration.seconds,
        None => {
            return Err(invalid_str(index, "slide_clip: target clip has no source_range"));
        },
    };
    let (a, b) = match move_cut(index, p, n, delta_s, slide_words()) {
        Ok(x) => x,
        Err(e) => {
            return Err(e);
        },
    };
    let mut t = t;
    let size: usize = t.size();
    assert(j + 1 < size);
    t.put(j - 1, TrackChild::Clip(a));
    t.put(j + 1, TrackChild::Clip(b));
    let mut out = working;
    out.put_track(loc.track_index, t);
    let said = cat6(
        "slid clip ",
        quote(c.name.as_str()).as_str(),
        " by ",
        fix3(delta_s).as_str(),
        "s while preserving its ",
        fix3(length).as_str(),
    );
    Ok((out, cat2(said.as_str(), "s duration")))
}

// ---- slip -----------------------------------------------------------------

/// Moving the source range under a clip that keeps its place and length.
pub open spec fn slipped(tl: TimelineModel, index: usize, delta_s: Num, locator: Option<ClipLocator>) -> Done {
    match delta_ok(index, "slip_clip"@, delta_s) {
        Err(e) => Err(e),
        Ok(_) => match found_clip(tl, index, locator, "slip_clip: "@) {
            Err(e) => Err(e),
            Ok((loc, c)) => match c.source_range {
                None => Err(bad(index, "slip_clip: clip has no source_range"@)),
                Some(r) => {
                    let length = r.duration.seconds;
                    let start = r.start_time.seconds.plus(delta_s);
                    let end = start.plus(length);
                    match source_ok(index, "slip_clip"@, c, start, end) {
                        Err(e) => Err(e),
                        Ok(_) => Ok(
                            (
                                with_clip(
                                    tl,
                                    loc,
                                    with_range(
                                        c,
                                        TimeRange::seconds(start, length, r.start_time.rate),
                                    ),
                                ),
                                "slipped clip "@ + quoted(c.name) + " source range by "@ + milli3(
                                    delta_s,
                                ) + "s to ["@ + milli3(start) + "s.."@ + milli3(end) + "s]"@,
                            ),
                        ),
                    }
                },
            },
        },
    }
}

/// Moves the source range under a clip.
pub fn apply_slip_clip(
    working: Timeline,
    index: usize,
    delta_s: Num,
    locator: Option<ClipLocator>,
) -> (res: Result<(Timeline, String), ApplyError>)
    ensures
        shows(res, slipped(working@, index, delta_s, locator)),
{
    if let Err(e) = check_delta(index, "slip_clip", delta_s) {
        return Err(e);
    }
    let (loc, c) = match find_clip(&working, index, locator, "slip_clip: ") {
        Ok(p) => p,
        Err(e) => {
            return Err(e);
        },
    };
    let r = match c.source_range {
        Some(r) => r,
        None => {
            return Err(invalid_str(index, "slip_clip: clip has no source_range"));
        },
    };
    let length = r.duration.seconds;
    let start = r.start_time.seconds.plus(delta_s);
    let end = start.plus(length);
    if let Err(e) = validate_available_source_range(index, "slip_clip", &c, start, end) {
        return Err(e);
    }
    let said = cat9(
        "slipped clip ",
        quote(c.name.as_str()).as_str(),
        " source range by ",
        fix3(delta_s).as_str(),
        "s to [",
        fix3(start).as_str(),
        "s..",
        fix3(end).as_str(),
        "s]",
    );
    let mut c = c;
    c.source_range = Some(TimeRange::seconds(start, length, r.start_time.rate));
    let mut out = working;
    out.put_clip(loc, c);
    Ok((out, said))
}

// ---- replace --------------------------------------------------------------

/// The rate of a clip, where it is positive, else 24.
pub open spec fn usable_rate(c: ClipModel) -> Num {
    match c.source_range {
        Some(r) if zero().less(r.start_time.rate) => r.start_time.rate,
        _ => rate24(),
    }
}

/// Putting other media under a clip.
pub open spec fn replaced(
    tl: TimelineModel,
    index: usize,
    asset: Str,
    q: SourceRange,
    locator: Option<ClipLocator>,
) -> Done {
    match crate::carve::range_ok(index, "replace_clip"@, q) {
        Err(e) => Err(e),
        Ok(_) => if is_blank(asset) {
            Err(bad(index, "replace_clip: asset must not be empty"@))
        } else {
            match found_clip(tl, index, locator, "replace_clip: "@) {
                Err(e) => Err(e),
                Ok((loc, c)) => Ok(
                    (
                        with_clip(
                            tl,
                            loc,
                            ClipModel {
                                media_reference: media_at(asset),
                                source_range: Some(
                                    TimeRange::seconds(
                                        q.start_s,
                                        q.end_s.minus(q.start_s),
                                        usable_rate(c),
                                    ),
                                ),
                                ..c
                            },
                        ),
                        "replaced clip "@ + quoted(c.name) + " with asset "@ + quoted(asset)
                            + " source=["@ + milli3(q.start_s) + "s.."@ + milli3(q.end_s) + "s]"@,
                    ),
                ),
            }
        },
    }
}

/// Puts other media under a clip.
pub fn apply_replace_clip(
    working: Timeline,
    index: usize,
    asset: &str,
    range: SourceRange,
    locator: Option<ClipLocator>,
) -> (res: Result<(Timeline, String), ApplyError>)
    ensures
        shows(res, replaced(working@, index, asset@, range, locator)),
{
    if let Err(e) = crate::carve::validate_professional_timeline_range(
        index,
        "replace_clip",
        range,
    ) {
        return Err(e);
    }
    if blank(asset) {
        return Err(invalid_str(index, "replace_clip: asset must not be empty"));
    }
    let (loc, c) = match find_clip(&working, index, locator, "replace_clip: ") {
        Ok(p) => p,
        Err(e) => {
            return Err(e);
        },
    };
    let rate = match c.source_range {
        Some(r) => if zero().less(r.start_time.rate) {
            r.start_time.rate
        } else {
            rate24()
        },
        None => rate24(),
    };
    let said = cat9(
        "replaced clip ",
        quote(c.name.as_str()).as_str(),
        " with asset ",
        quote(asset).as_str(),
        " source=[",
        fix3(range.start_s).as_str(),
        "s..",
        fix3(range.end_s).as_str(),
        "s]",
    );
    let mut c = c;
    c.media_reference = MediaReference::External(ExternalReference::new(asset));
    c.source_range = Some(TimeRange::seconds(range.start_s, range.end_s.minus(range.start_s), rate));
    let mut out = working;
    out.put_clip(loc, c);
    Ok((out, said))
}

} // verus!

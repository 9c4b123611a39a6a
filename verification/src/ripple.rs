//! Edits after which everything behind closes up.
use vstd::prelude::*;

use crate::clip::{
    clip_link_group_id, end_of, first_where, lemma_first_where, link_group_of, with_range,
};
use crate::edit::{
    clip_at, clip_in, clip_seconds, track_at, track_with_clip, with_children, with_clip,
    with_layers, with_track,
};
use crate::error::{bad, invalid, invalid_str, shows, ApplyError, Done};
use crate::insert::{find_in_group, in_group};
use crate::locate::{no_place, required_locator};
use crate::model::{
    Clip, ClipLocator, ClipModel, StackChildModel, Stored, TimeRange, Timeline, TimelineModel,
    Track, TrackChild, TrackChildModel,
};
use crate::num::{milli, zero, Num};
use crate::op::RippleTrimEdge;
use crate::text::{
    cat10, cat13, cat2, cat3, cat4, cat5, count_usize, decimal, fix3, fix3_signed, milli3, plural,
    plural_of, quote, quoted, show, shown, signed3, Str,
};
use crate::trim::{clip_with_link_group_covering_range, covering};

verus! {

// ---- ripple delete --------------------------------------------------------

/// The place of the linked clip on a layer: the first that covers the stretch,
/// or the first of the group where there is no stretch.
pub open spec fn doomed_place(layer: StackChildModel, group: Str, r: Option<TimeRange>) -> Option<
    int,
> {
    match layer {
        StackChildModel::Track(t) => match r {
            Some(r) => first_where(
                t.children,
                covering(group, r.start_time.seconds, end_of(r)),
                0,
            ),
            None => first_where(t.children, in_group(group), 0),
        },
        _ => None,
    }
}

/// The layer without its linked clip.
pub open spec fn closed_layer(layer: StackChildModel, group: Str, r: Option<TimeRange>) -> StackChildModel {
    match doomed_place(layer, group, r) {
        Some(j) => StackChildModel::Track(
            with_children(layer->Track_0, layer->Track_0.children.remove(j)),
        ),
        None => layer,
    }
}

/// The layers, but for one, without their linked clips.
pub open spec fn closed_layers(
    layers: Seq<StackChildModel>,
    but: int,
    group: Str,
    r: Option<TimeRange>,
) -> Seq<StackChildModel> {
    Seq::new(
        layers.len(),
        |i: int|
            if i == but {
                layers[i]
            } else {
                closed_layer(layers[i], group, r)
            },
    )
}

/// How many of the first `n` layers, but for one, have a linked clip.
pub open spec fn doomed_count(
    layers: Seq<StackChildModel>,
    but: int,
    group: Str,
    r: Option<TimeRange>,
    n: int,
) -> nat
    decreases n,
{
    if n <= 0 {
        0
    } else {
        doomed_count(layers, but, group, r, n - 1) + (if n - 1 != but && doomed_place(
            layers[n - 1],
            group,
            r,
        ) is Some {
            1nat
        } else {
            0nat
        })
    }
}

fn close_linked_siblings(working: Timeline, but: usize, group: &str, r: Option<TimeRange>) -> (res: (
    Timeline,
    usize,
))
    ensures
        res.0@ == with_layers(
            working@,
            closed_layers(working@.tracks.children, but as int, group@, r),
        ),
        res.1 == doomed_count(
            working@.tracks.children,
            but as int,
            group@,
            r,
            working@.tracks.children.len() as int,
        ),
{
    let ghost layers = working@.tracks.children;
    let ghost done = closed_layers(layers, but as int, group@, r);
    let mut out = working;
    let mut count: usize = 0;
    let mut i: usize = 0;
    assert(out@.tracks.children =~= done.take(0) + layers.skip(0));
    while i < out.tracks.children.len()
        invariant
            i <= out@.tracks.children.len(),
            out@.tracks.children.len() == layers.len(),
            layers == working@.tracks.children,
            done == closed_layers(layers, but as int, group@, r),
            out@ == with_layers(working@, out@.tracks.children),
            out@.tracks.children == done.take(i as int) + layers.skip(i as int),
            count == doomed_count(layers, but as int, group@, r, i as int),
            count <= i,
        decreases layers.len() - i,
    {
        assert(out@.tracks.children[i as int] == layers[i as int]);
        let mut closed: Option<Track> = None;
        if i != but {
            if let Some(t) = out.track(i) {
                let found = match r {
                    Some(r) => clip_with_link_group_covering_range(
                        t,
                        group,
                        r.start_time.seconds,
                        end_of(r),
                    ),
                    None => find_in_group(t, group),
                };
                if let Some(j) = found {
                    proof {
                        lemma_first_where(t@.children, in_group(group@), 0);
                        if let Some(r) = r {
                            lemma_first_where(
                                t@.children,
                                covering(group@, r.start_time.seconds, end_of(r)),
                                0,
                            );
                        }
                    }
                    let mut t = t.copied();
                    let _ = t.remove(j);
                    closed = Some(t);
                }
            }
        }
        if let Some(t) = closed {
            out.put_track(i, t);
            count = count + 1;
        }
        assert(out@.tracks.children =~= done.take(i + 1) + layers.skip(i + 1));
        i = i + 1;
    }
    assert(out@.tracks.children =~= done);
    (out, count)
}

/// Taking a clip out so that all behind it moves up, and with it the linked
/// clips on other tracks.
pub open spec fn ripple_deleted(tl: TimelineModel, index: usize, locator: Option<ClipLocator>) -> Done {
    match locator {
        None => Err(no_place(index)),
        Some(loc) => match track_at(tl, loc.track_index as int) {
            None => Err(bad(index, "ripple_delete: anchor resolved to a non-track stack child"@)),
            Some(t) => {
                let i = loc.track_index as int;
                let j = loc.child_index as int;
                if j >= t.children.len() {
                    Err(
                        bad(
                            index,
                            "ripple_delete: source index "@ + decimal(j as nat)
                                + " out of bounds for track of length "@ + decimal(
                                t.children.len(),
                            ),
                        ),
                    )
                } else {
                    match t.children[j] {
                        TrackChildModel::Clip(c) => if clip_seconds(c).at_most(zero()) {
                            Err(bad(index, "ripple_delete: source clip has zero duration"@))
                        } else {
                            let closed = with_track(
                                tl,
                                i,
                                with_children(t, t.children.remove(j)),
                            );
                            let layers = closed.tracks.children;
                            let (out, n) = match link_group_of(c) {
                                Some(g) => (
                                    with_layers(
                                        closed,
                                        closed_layers(layers, i, g, c.source_range),
                                    ),
                                    doomed_count(
                                        layers,
                                        i,
                                        g,
                                        c.source_range,
                                        layers.len() as int,
                                    ),
                                ),
                                None => (closed, 0nat),
                            };
                            Ok(
                                (
                                    out,
                                    "ripple-deleted clip "@ + quoted(c.name) + " ("@ + milli3(
                                        clip_seconds(c),
                                    ) + "s) on track "@ + decimal(i as nat) + " ("@ + decimal(n)
                                        + " linked sibling"@ + plural(n) + " also deleted)"@,
                                ),
                            )
                        },
                        _ => Err(bad(index, "ripple_delete: source is not a clip"@)),
                    }
                }
            },
        },
    }
}

/// Takes a clip out so that all behind it moves up.
pub fn apply_ripple_delete(working: Timeline, index: usize, locator: Option<ClipLocator>) -> (r:
    Result<(Timeline, String), ApplyError>)
    ensures
        shows(r, ripple_deleted(working@, index, locator)),
{
    let loc = match required_locator(index, locator) {
        Ok(l) => l,
        Err(e) => {
            return Err(e);
        },
    };
    let mut track = match working.track(loc.track_index) {
        Some(t) => t.copied(),
        None => {
            return Err(
                invalid_str(index, "ripple_delete: anchor resolved to a non-track stack child"),
            );
        },
    };
    if loc.child_index >= track.size() {
        return Err(
            invalid(
                index,
                cat4(
                    "ripple_delete: source index ",
                    count_usize(loc.child_index).as_str(),
                    " out of bounds for track of length ",
                    count_usize(track.size()).as_str(),
                ),
            ),
        );
    }
    let clip = match &track.children[loc.child_index] {
        TrackChild::Clip(c) => c.copied(),
        _ => {
            return Err(invalid_str(index, "ripple_delete: source is not a clip"));
        },
    };
    let length = match clip.source_range {
        Some(r) => r.duration.seconds,
        None => zero(),
    };
    if length.at_most(zero()) {
        return Err(invalid_str(index, "ripple_delete: source clip has zero duration"));
    }
    let _ = track.remove(loc.child_index);
    let mut out = working;
    out.put_track(loc.track_index, track);
    let (out, n) = match clip_link_group_id(&clip) {
        Some(g) => close_linked_siblings(out, loc.track_index, g.as_str(), clip.source_range),
        None => (out, 0usize),
    };
    let said = cat10(
        "ripple-deleted clip ",
        quote(clip.name.as_str()).as_str(),
        " (",
        fix3(length).as_str(),
        "s) on track ",
        count_usize(loc.track_index).as_str(),
        " (",
        count_usize(n).as_str(),
        " linked sibling",
        plural_of(n),
    );
    Ok((out, cat2(said.as_str(), " also deleted)")))
}

// ---- ripple trim ----------------------------------------------------------

/// The word for an end of a clip.
pub open spec fn edge_word(edge: RippleTrimEdge) -> Str {
    match edge {
        RippleTrimEdge::Start => "Start"@,
        RippleTrimEdge::End => "End"@,
    }
}

fn word_of_edge(edge: RippleTrimEdge) -> (r: &'static str)
    ensures
        r@ == edge_word(edge),
{
    match edge {
        RippleTrimEdge::Start => "Start",
        RippleTrimEdge::End => "End",
    }
}

/// The source range, from start to end, with one end moved to a time; the range
/// keeps at least a thousandth.
#[verifier::allow_in_spec]
pub fn edge_moved(r: TimeRange, edge: RippleTrimEdge, value_s: Num) -> (Num, Num)
    returns
        (match edge {
            RippleTrimEdge::Start => (
                value_s.smaller(end_of(r).minus(milli())).larger(zero()),
                end_of(r),
            ),
            RippleTrimEdge::End => (
                r.start_time.seconds,
                value_s.larger(r.start_time.seconds.plus(milli())),
            ),
        }),
{
    match edge {
        RippleTrimEdge::Start => (
            value_s.smaller(end_of(r).minus(milli())).larger(zero()),
            end_of(r),
        ),
        RippleTrimEdge::End => (
            r.start_time.seconds,
            value_s.larger(r.start_time.seconds.plus(milli())),
        ),
    }
}

/// The source range, from start to end, with one end moved by a time.
#[verifier::allow_in_spec]
pub fn edge_shifted(r: TimeRange, edge: RippleTrimEdge, by: Num) -> (Num, Num)
    returns
        (match edge {
            RippleTrimEdge::Start => (
                r.start_time.seconds.plus(by).larger(zero()),
                end_of(r),
            ),
            RippleTrimEdge::End => (
                r.start_time.seconds,
                end_of(r).plus(by).larger(r.start_time.seconds.plus(milli())),
            ),
        }),
{
    match edge {
        RippleTrimEdge::Start => (r.start_time.seconds.plus(by).larger(zero()), end_of(r)),
        RippleTrimEdge::End => (
            r.start_time.seconds,
            end_of(r).plus(by).larger(r.start_time.seconds.plus(milli())),
        ),
    }
}

/// The linked clip with one end moved by a time, where something is left of it.
pub open spec fn edge_shifted_clip(c: ClipModel, edge: RippleTrimEdge, by: Num) -> ClipModel {
    let r = c.source_range->0;
    let (start, end) = edge_shifted(r, edge, by);
    if zero().less(end.minus(start)) {
        with_range(c, TimeRange::seconds(start, end.minus(start), r.start_time.rate))
    } else {
        c
    }
}

/// The place of the linked clip on a layer, where it has a source range.
pub open spec fn ranged_place(layer: StackChildModel, group: Str) -> Option<int> {
    match layer {
        StackChildModel::Track(t) => match first_where(t.children, in_group(group), 0) {
            Some(j) if clip_in(t, j)->0.source_range is Some => Some(j),
            _ => None,
        },
        _ => None,
    }
}

/// The layer with one end of its linked clip moved by a time.
pub open spec fn edge_shifted_layer(
    layer: StackChildModel,
    group: Str,
    edge: RippleTrimEdge,
    by: Num,
) -> StackChildModel {
    match ranged_place(layer, group) {
        Some(j) => StackChildModel::Track(
            track_with_clip(
                layer->Track_0,
                j,
                edge_shifted_clip(clip_in(layer->Track_0, j)->0, edge, by),
            ),
        ),
        None => layer,
    }
}

/// The layers, but for one, with one end of their linked clips moved by a time.
pub open spec fn edge_shifted_layers(
    layers: Seq<StackChildModel>,
    but: int,
    group: Str,
    edge: RippleTrimEdge,
    by: Num,
) -> Seq<StackChildModel> {
    Seq::new(
        layers.len(),
        |i: int|
            if i == but {
                layers[i]
            } else {
                edge_shifted_layer(layers[i], group, edge, by)
            },
    )
}

/// How many of the first `n` layers, but for one, have a linked clip with a
/// source range.
pub open spec fn ranged_count(layers: Seq<StackChildModel>, but: int, group: Str, n: int) -> nat
    decreases n,
{
    if n <= 0 {
        0
    } else {
        ranged_count(layers, but, group, n - 1) + (if n - 1 != but && ranged_place(
            layers[n - 1],
            group,
        ) is Some {
            1nat
        } else {
            0nat
        })
    }
}

fn trim_linked_edges(
    working: Timeline,
    but: usize,
    group: &str,
    edge: RippleTrimEdge,
    by: Num,
) -> (res: (Timeline, usize))
    ensures
        res.0@ == with_layers(
            working@,
            edge_shifted_layers(working@.tracks.children, but as int, group@, edge, by),
        ),
        res.1 == ranged_count(
            working@.tracks.children,
            but as int,
            group@,
            working@.tracks.children.len() as int,
        ),
{
    let ghost layers = working@.tracks.children;
    let ghost done = edge_shifted_layers(layers, but as int, group@, edge, by);
    let mut out = working;
    let mut count: usize = 0;
    let mut i: usize = 0;
    assert(out@.tracks.children =~= done.take(0) + layers.skip(0));
    while i < out.tracks.children.len()
        invariant
            i <= out@.tracks.children.len(),
            out@.tracks.children.len() == layers.len(),
            layers == working@.tracks.children,
            done == edge_shifted_layers(layers, but as int, group@, edge, by),
            out@ == with_layers(working@, out@.tracks.children),
            out@.tracks.children == done.take(i as int) + layers.skip(i as int),
            count == ranged_count(layers, but as int, group@, i as int),
            count <= i,
        decreases layers.len() - i,
    {
        assert(out@.tracks.children[i as int] == layers[i as int]);
        let mut changed: Option<Track> = None;
        if i != but {
            if let Some(t) = out.track(i) {
                if let Some(j) = find_in_group(t, group) {
                    proof {
                        lemma_first_where(t@.children, in_group(group@), 0);
                    }
                    if let Some(c) = t.clip(j) {
                        if let Some(r) = c.source_range {
                            let mut c = c.copied();
                            let (start, end) = edge_shifted(r, edge, by);
                            if zero().less(end.minus(start)) {
                                c.source_range = Some(
                                    TimeRange::seconds(
                                        start,
                                        end.minus(start),
                                        r.start_time.rate,
                                    ),
                                );
                            }
                            let mut t = t.copied();
                            t.put(j, TrackChild::Clip(c));
                            changed = Some(t);
                        }
                    }
                }
            }
        }
        if let Some(t) = changed {
            out.put_track(i, t);
            count = count + 1;
        }
        assert(out@.tracks.children =~= done.take(i + 1) + layers.skip(i + 1));
        i = i + 1;
    }
    assert(out@.tracks.children =~= done);
    (out, count)
}

/// By how much a clip's end on its track moves when an end of its source range
/// does.
#[verifier::allow_in_spec]
pub fn downstream_shift(edge: RippleTrimEdge, by: Num) -> Num
    returns
        (match edge {
            RippleTrimEdge::Start => by.negated(),
            RippleTrimEdge::End => by,
        }),
{
    match edge {
        RippleTrimEdge::Start => by.negated(),
        RippleTrimEdge::End => by,
    }
}

/// Moving one end of a clip's source range.  Children of a track follow each
/// other, so everything behind the clip moves by as much as the clip grows or
/// shrinks; the linked clips on other tracks are changed by as much.
pub open spec fn ripple_trimmed(
    tl: TimelineModel,
    index: usize,
    edge: RippleTrimEdge,
    value_s: Num,
    locator: Option<ClipLocator>,
) -> Done {
    match locator {
        None => Err(no_place(index)),
        Some(loc) => if !value_s.is_finite() || value_s.less(zero()) {
            Err(
                bad(
                    index,
                    "ripple_trim: value_s must be a finite non-negative source-time, got "@
                        + shown(value_s),
                ),
            )
        } else {
            match track_at(tl, loc.track_index as int) {
                None => Err(
                    bad(index, "ripple_trim: anchor resolved to a non-track stack child"@),
                ),
                Some(_) => match clip_at(tl, loc) {
                    None => Err(bad(index, "ripple_trim: source is not a clip"@)),
                    Some(c) => match c.source_range {
                        None => Err(
                            bad(index, "ripple_trim: source clip has no source_range"@),
                        ),
                        Some(r) => ripple_trimmed_clip(tl, index, edge, value_s, loc, c, r),
                    },
                },
            }
        },
    }
}

/// Moving one end of the source range of the clip found.
pub open spec fn ripple_trimmed_clip(
    tl: TimelineModel,
    index: usize,
    edge: RippleTrimEdge,
    value_s: Num,
    loc: ClipLocator,
    c: ClipModel,
    r: TimeRange,
) -> Done {
    let i = loc.track_index as int;
    let (start, end) = edge_moved(r, edge, value_s);
    let length = end.minus(start);
    let by = match edge {
        RippleTrimEdge::Start => start.minus(r.start_time.seconds),
        RippleTrimEdge::End => end.minus(end_of(r)),
    };
    let shift = downstream_shift(edge, by);
    let cut = with_clip(
        tl,
        loc,
        with_range(c, TimeRange::seconds(start, length, r.start_time.rate)),
    );
    if length.at_most(zero()) {
        Err(
            bad(
                index,
                "ripple_trim: resulting duration "@ + milli3(length)
                    + "s would be non-positive"@,
            ),
        )
    } else if shift.size().less(milli()) {
        Ok(
            (
                cut,
                "ripple_trim: clip "@ + quoted(c.name) + " edge "@ + edge_word(edge)
                    + " unchanged"@,
            ),
        )
    } else {
        let layers = cut.tracks.children;
        let (out, n) = match link_group_of(c) {
            Some(g) => (
                with_layers(cut, edge_shifted_layers(layers, i, g, edge, by)),
                ranged_count(layers, i, g, layers.len() as int),
            ),
            None => (cut, 0nat),
        };
        Ok(
            (
                out,
                "ripple-trimmed clip "@ + quoted(c.name) + " edge "@ + edge_word(edge)
                    + " → new range ["@ + milli3(start) + ".."@ + milli3(end)
                    + "]; downstream shifted "@ + signed3(shift) + "s ("@ + decimal(n)
                    + " linked sibling"@ + plural(n) + " also trimmed)"@,
            ),
        )
    }
}

/// Moves one end of a clip's source range, and everything behind the clip.
pub fn apply_ripple_trim(
    working: Timeline,
    index: usize,
    edge: RippleTrimEdge,
    value_s: Num,
    locator: Option<ClipLocator>,
) -> (res: Result<(Timeline, String), ApplyError>)
    ensures
        shows(res, ripple_trimmed(working@, index, edge, value_s, locator)),
{
    let loc = match required_locator(index, locator) {
        Ok(l) => l,
        Err(e) => {
            return Err(e);
        },
    };
    if !value_s.is_finite() || value_s.less(zero()) {
        return Err(
            invalid(
                index,
                cat2(
                    "ripple_trim: value_s must be a finite non-negative source-time, got ",
                    show(value_s).as_str(),
                ),
            ),
        );
    }
    if working.track(loc.track_index).is_none() {
        return Err(
            invalid_str(index, "ripple_trim: anchor resolved to a non-track stack child"),
        );
    }
    let clip = match working.clip(loc) {
        Some(c) => c.copied(),
        None => {
            return Err(invalid_str(index, "ripple_trim: source is not a clip"));
        },
    };
    let r = match clip.source_range {
        Some(r) => r,
        None => {
            return Err(invalid_str(index, "ripple_trim: source clip has no source_range"));
        },
    };
    let group = clip_link_group_id(&clip);
    let name = clip.name.clone();
    let (start, end) = edge_moved(r, edge, value_s);
    let length = end.minus(start);
    if length.at_most(zero()) {
        return Err(
            invalid(
                index,
                cat3(
                    "ripple_trim: resulting duration ",
                    fix3(length).as_str(),
                    "s would be non-positive",
                ),
            ),
        );
    }
    let by = match edge {
        RippleTrimEdge::Start => start.minus(r.start_time.seconds),
        RippleTrimEdge::End => end.minus(end_of(r)),
    };
    let shift = downstream_shift(edge, by);
    let mut clip = clip;
    clip.source_range = Some(TimeRange::seconds(start, length, r.start_time.rate));
    let mut out = working;
    out.put_clip(loc, clip);
    if shift.size().less(milli()) {
        let said = cat5(
            "ripple_trim: clip ",
            quote(name.as_str()).as_str(),
            " edge ",
            word_of_edge(edge),
            " unchanged",
        );
        return Ok((out, said));
    }
    let (out, n) = match &group {
        Some(g) => trim_linked_edges(out, loc.track_index, g.as_str(), edge, by),
        None => (out, 0usize),
    };
    let said = cat13(
        "ripple-trimmed clip ",
        quote(name.as_str()).as_str(),
        " edge ",
        word_of_edge(edge),
        " → new range [",
        fix3(start).as_str(),
        "..",
        fix3(end).as_str(),
        "]; downstream shifted ",
        fix3_signed(shift).as_str(),
        "s (",
        count_usize(n).as_str(),
        " linked sibling",
    );
    Ok((out, cat3(said.as_str(), plural_of(n), " also trimmed)")))
}

} // verus!

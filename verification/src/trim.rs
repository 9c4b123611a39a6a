//! Narrowing and widening the source range of a clip.
use vstd::prelude::*;

use crate::clip::{
    available_of, available_range, clip_covers_source_range, clip_link_group_id,
    covers_source_range, end_of, first_where, is_some_text, lemma_first_where, link_group_of,
    with_range,
};
use crate::edit::{clip_in, track_with_clip, with_clip, with_layers};
use crate::error::{bad, invalid, invalid_str, shows, ApplyError, Done, Refusal};
use crate::locate::{find_clip, found_clip};
use crate::model::{
    opt, Clip, ClipLocator, ClipModel, StackChildModel, Stored, TimeRange, Timeline, TimelineModel,
    Track, TrackChild, TrackChildModel,
};
use crate::num::{micro, zero, Num};
use crate::text::{
    cat13, cat2, cat3, cat4, cat5, cat9, count_usize, decimal, fix3, milli3, plural, plural_of,
    quote, quoted, show, shown, Str,
};

verus! {

/// Whether a child is a clip of the group that covers the stretch.
pub open spec fn covering(group: Str, start_s: Num, end_s: Num) -> spec_fn(TrackChildModel) -> bool {
    |c: TrackChildModel|
        match c {
            TrackChildModel::Clip(c) => link_group_of(c) == Some(group) && covers_source_range(
                c,
                start_s,
                end_s,
            ),
            _ => false,
        }
}

/// The place of the first clip of the group that covers the stretch.
pub fn clip_with_link_group_covering_range(
    track: &Track,
    group_id: &str,
    start_s: Num,
    end_s: Num,
) -> (r: Option<usize>)
    ensures
        match r {
            Some(j) => first_where(track@.children, covering(group_id@, start_s, end_s), 0) == Some(
                j as int,
            ),
            None => first_where(track@.children, covering(group_id@, start_s, end_s), 0) is None,
        },
{
    let mut j: usize = 0;
    let ghost p = covering(group_id@, start_s, end_s);
    while j < track.children.len()
        invariant
            j <= track@.children.len(),
            p == covering(group_id@, start_s, end_s),
            first_where(track@.children, p, 0) == first_where(track@.children, p, j as int),
        decreases track@.children.len() - j,
    {
        if let TrackChild::Clip(c) = &track.children[j] {
            let group = clip_link_group_id(c);
            if is_some_text(&group, group_id) && clip_covers_source_range(c, start_s, end_s) {
                return Some(j);
            }
        }
        j = j + 1;
    }
    None
}

/// A stretch of source with which linked clips are trimmed: from `was_start` to
/// `was_end` before, from `start` to `end` behind.
pub struct Retime {
    pub was_start: Num,
    pub was_end: Num,
    pub start: Num,
    pub end: Num,
}

/// The place of the linked clip on a layer.
pub open spec fn linked_place(layer: StackChildModel, group: Str, t: Retime) -> Option<int> {
    match layer {
        StackChildModel::Track(track) => first_where(
            track.children,
            covering(group, t.was_start, t.was_end),
            0,
        ),
        _ => None,
    }
}

/// The clip with its source range moved, at its own rate.
pub open spec fn retimed(c: ClipModel, t: Retime) -> ClipModel {
    with_range(
        c,
        TimeRange::seconds(t.start, t.end.minus(t.start), c.source_range->0.start_time.rate),
    )
}

/// The layer with its linked clip retimed.
pub open spec fn retimed_layer(layer: StackChildModel, group: Str, t: Retime) -> StackChildModel {
    match linked_place(layer, group, t) {
        Some(j) => StackChildModel::Track(
            track_with_clip(layer->Track_0, j, retimed(clip_in(layer->Track_0, j)->0, t)),
        ),
        None => layer,
    }
}

/// All layers but one with their linked clips retimed.
pub open spec fn retimed_layers(
    layers: Seq<StackChildModel>,
    but: int,
    group: Str,
    t: Retime,
) -> Seq<StackChildModel> {
    Seq::new(
        layers.len(),
        |i: int|
            if i == but {
                layers[i]
            } else {
                retimed_layer(layers[i], group, t)
            },
    )
}

/// How many of the first `n` layers, but for one, have a linked clip.
pub open spec fn linked_count(
    layers: Seq<StackChildModel>,
    but: int,
    group: Str,
    t: Retime,
    n: int,
) -> nat
    decreases n,
{
    if n <= 0 {
        0
    } else {
        linked_count(layers, but, group, t, n - 1) + (if n - 1 != but && linked_place(
            layers[n - 1],
            group,
            t,
        ) is Some {
            1nat
        } else {
            0nat
        })
    }
}

/// Retimes, on every other track, the first clip of the group that covers the
/// former stretch.  Gives back how many there were.
pub fn trim_linked_siblings(
    working: Timeline,
    primary: usize,
    group_id: &str,
    t: Retime,
    index: usize,
) -> (r: Result<(Timeline, usize), ApplyError>)
    ensures
        ({
            let layers = working@.tracks.children;
            let n = linked_count(layers, primary as int, group_id@, t, layers.len() as int);
            match r {
                Ok(p) => !(n > 0 && t.end.less(t.start)) && p.1 == n && p.0@ == with_layers(
                    working@,
                    retimed_layers(layers, primary as int, group_id@, t),
                ),
                Err(e) => n > 0 && t.end.less(t.start) && e@ == linked_backwards(index, t),
            }
        }),
{
    let mut out = working;
    let ghost layers = working@.tracks.children;
    let ghost done = retimed_layers(layers, primary as int, group_id@, t);
    let mut count: usize = 0;
    let mut i: usize = 0;
    assert(out@.tracks.children =~= done.take(0) + layers.skip(0));
    while i < out.tracks.children.len()
        invariant
            i <= out@.tracks.children.len(),
            out@.tracks.children.len() == layers.len(),
            done == retimed_layers(layers, primary as int, group_id@, t),
            out@ == with_layers(working@, out@.tracks.children),
            out@.tracks.children == done.take(i as int) + layers.skip(i as int),
            count == linked_count(layers, primary as int, group_id@, t, i as int),
            count <= i,
            count > 0 ==> !t.end.less(t.start),
            layers == working@.tracks.children,
        decreases layers.len() - i,
    {
        assert(out@.tracks.children[i as int] == layers[i as int]);
        let mut found: Option<usize> = None;
        if i != primary {
            if let Some(track) = out.track(i) {
                found = clip_with_link_group_covering_range(
                    track,
                    group_id,
                    t.was_start,
                    t.was_end,
                );
            }
        }
        if let Some(j) = found {
            proof {
                lemma_first_where(
                    layers[i as int]->Track_0.children,
                    covering(group_id@, t.was_start, t.was_end),
                    0,
                );
                lemma_linked_monotone(
                    layers,
                    primary as int,
                    group_id@,
                    t,
                    i + 1,
                    layers.len() as int,
                );
            }
            if t.end.less(t.start) {
                return Err(
                    invalid(
                        index,
                        cat4(
                            "linked trim: end ",
                            show(t.end).as_str(),
                            " must be >= start ",
                            show(t.start).as_str(),
                        ),
                    ),
                );
            }
            let loc = ClipLocator { track_index: i, child_index: j };
            if let Some(clip) = out.clip(loc) {
                let mut clip = clip.copied();
                if let Some(range) = clip.source_range {
                    clip.source_range = Some(
                        TimeRange::seconds(t.start, t.end.minus(t.start), range.start_time.rate),
                    );
                }
                out.put_clip(loc, clip);
            }
            count = count + 1;
        }
        assert(out@.tracks.children =~= done.take(i + 1) + layers.skip(i + 1));
        i = i + 1;
    }
    assert(out@.tracks.children =~= done);
    Ok((out, count))
}

proof fn lemma_linked_monotone(
    layers: Seq<StackChildModel>,
    but: int,
    group: Str,
    t: Retime,
    m: int,
    n: int,
)
    requires
        m <= n,
    ensures
        linked_count(layers, but, group, t, m) <= linked_count(layers, but, group, t, n),
    decreases n - m,
{
    if m < n {
        lemma_linked_monotone(layers, but, group, t, m, n - 1);
    }
}

/// The refusal of a linked stretch that ends before it begins.
pub open spec fn linked_backwards(index: usize, t: Retime) -> Refusal {
    bad(index, "linked trim: end "@ + shown(t.end) + " must be >= start "@ + shown(t.start))
}

/// The timeline with the linked clips retimed too, and the note that says so.
pub open spec fn retimed_siblings(
    tl: TimelineModel,
    loc: ClipLocator,
    group: Option<Str>,
    t: Retime,
    verb: Str,
    index: usize,
) -> Result<(TimelineModel, Str), Refusal> {
    match group {
        None => Ok((tl, ""@)),
        Some(g) => {
            let layers = tl.tracks.children;
            let n = linked_count(layers, loc.track_index as int, g, t, layers.len() as int);
            if n > 0 && t.end.less(t.start) {
                Err(linked_backwards(index, t))
            } else {
                Ok(
                    (
                        with_layers(tl, retimed_layers(layers, loc.track_index as int, g, t)),
                        if n == 0 {
                            ""@
                        } else {
                            " ("@ + decimal(n) + " linked sibling"@ + plural(n) + verb
                        },
                    ),
                )
            }
        },
    }
}

fn retime_siblings(
    working: Timeline,
    loc: ClipLocator,
    group: &Option<String>,
    t: Retime,
    verb: &str,
    index: usize,
) -> (r: Result<(Timeline, String), ApplyError>)
    ensures
        shows(r, retimed_siblings(working@, loc, opt(*group), t, verb@, index)),
{
    match group {
        None => Ok((working, "".to_owned())),
        Some(g) => match trim_linked_siblings(working, loc.track_index, g.as_str(), t, index) {
            Err(e) => Err(e),
            Ok((out, n)) => {
                if n == 0 {
                    Ok((out, "".to_owned()))
                } else {
                    Ok(
                        (
                            out,
                            cat5(
                                " (",
                                count_usize(n).as_str(),
                                " linked sibling",
                                plural_of(n),
                                verb,
                            ),
                        ),
                    )
                }
            },
        },
    }
}

/// The value, or another where there is none.
#[verifier::allow_in_spec]
pub fn or_else(x: Option<Num>, other: Num) -> Num
    returns
        (match x {
            Some(v) => v,
            None => other,
        }),
{
    match x {
        Some(v) => v,
        None => other,
    }
}

/// Narrowing a clip's source range: the range may only shrink, and must change.
/// Linked clips on other tracks shrink with it.
pub open spec fn trimmed_clip(
    tl: TimelineModel,
    index: usize,
    new_start: Option<Num>,
    new_end: Option<Num>,
    locator: Option<ClipLocator>,
) -> Done {
    match found_clip(tl, index, locator, ""@) {
        Err(e) => Err(e),
        Ok((loc, clip)) => match clip.source_range {
            None => Err(
                bad(index, "clip has no source_range; cannot trim a clip with implicit range"@),
            ),
            Some(range) => trimmed_range(tl, index, new_start, new_end, loc, clip, range),
        },
    }
}

/// Narrowing the source range of the clip found.
pub open spec fn trimmed_range(
    tl: TimelineModel,
    index: usize,
    new_start: Option<Num>,
    new_end: Option<Num>,
    loc: ClipLocator,
    clip: ClipModel,
    range: TimeRange,
) -> Done {
    let was_start = range.start_time.seconds;
    let was_end = end_of(range);
    let start = or_else(new_start, was_start);
    let end = or_else(new_end, was_end);
    let length = end.minus(start);
    let t = Retime { was_start, was_end, start, end };
    if end.less(start) {
        Err(bad(index, "trim: end "@ + shown(end) + " must be >= start "@ + shown(start)))
    } else if was_end.plus(micro()).less(end) {
        Err(
            bad(
                index,
                "trim: end "@ + milli3(end) + "s is past the current source range end "@ + milli3(
                    was_end,
                )
                    + "s. Trim can only narrow a clip's source range, not extend it. If you want a longer clip, you may need to inspect_clip first to see the current source bounds, then trim within them."@,
            ),
        )
    } else if start.less(was_start.minus(micro())) {
        Err(
            bad(
                index,
                "trim: start "@ + milli3(start) + "s is before the current source range start "@
                    + milli3(was_start)
                    + "s. Trim can only narrow a clip's source range, not extend it backward. inspect_clip to see the current bounds before re-trimming."@,
            ),
        )
    } else if start.near(was_start, micro()) && end.near(was_end, micro()) {
        Err(
            bad(
                index,
                "trim: requested range ["@ + milli3(start) + "s.."@ + milli3(end)
                    + "s] is a no-op; the clip is already at that source range. view_timeline shows each clip's current source=[start..end]. To trim the first N seconds from the current visible clip, set start to current source start + N. To trim the last N seconds, set end to current source end - N."@,
            ),
        )
    } else if length.less(zero()) {
        Err(bad(index, "trim: computed negative duration "@ + shown(length)))
    } else {
        let shrunk = with_clip(
            tl,
            loc,
            with_range(clip, TimeRange::seconds(start, length, range.start_time.rate)),
        );
        match retimed_siblings(shrunk, loc, link_group_of(clip), t, " also trimmed)"@, index) {
            Err(e) => Err(e),
            Ok(p) => Ok(
                (
                    p.0,
                    "trimmed clip "@ + quoted(clip.name) + " to ["@ + milli3(start) + "s.."@
                        + milli3(end) + "s] ("@ + milli3(length) + "s)"@ + p.1,
                ),
            ),
        }
    }
}

/// Narrows a clip's source range.
pub fn apply_trim(
    working: Timeline,
    index: usize,
    new_start: Option<Num>,
    new_end: Option<Num>,
    locator: Option<ClipLocator>,
) -> (r: Result<(Timeline, String), ApplyError>)
    ensures
        shows(r, trimmed_clip(working@, index, new_start, new_end, locator)),
{
    let (loc, clip) = match find_clip(&working, index, locator, "") {
        Ok(p) => p,
        Err(e) => {
            return Err(e);
        },
    };
    let range = match clip.source_range {
        Some(r) => r,
        None => {
            return Err(
                invalid_str(
                    index,
                    "clip has no source_range; cannot trim a clip with implicit range",
                ),
            );
        },
    };
    let group = clip_link_group_id(&clip);
    let was_start = range.start_time.seconds;
    let was_end = end_of(range);
    let start = or_else(new_start, was_start);
    let end = or_else(new_end, was_end);
    if end.less(start) {
        return Err(
            invalid(
                index,
                cat4(
                    "trim: end ",
                    show(end).as_str(),
                    " must be >= start ",
                    show(start).as_str(),
                ),
            ),
        );
    }
    if was_end.plus(micro()).less(end) {
        return Err(
            invalid(
                index,
                cat5(
                    "trim: end ",
                    fix3(end).as_str(),
                    "s is past the current source range end ",
                    fix3(was_end).as_str(),
                    "s. Trim can only narrow a clip's source range, not extend it. If you want a longer clip, you may need to inspect_clip first to see the current source bounds, then trim within them.",
                ),
            ),
        );
    }
    if start.less(was_start.minus(micro())) {
        return Err(
            invalid(
                index,
                cat5(
                    "trim: start ",
                    fix3(start).as_str(),
                    "s is before the current source range start ",
                    fix3(was_start).as_str(),
                    "s. Trim can only narrow a clip's source range, not extend it backward. inspect_clip to see the current bounds before re-trimming.",
                ),
            ),
        );
    }
    if start.near(was_start, micro()) && end.near(was_end, micro()) {
        return Err(
            invalid(
                index,
                cat5(
                    "trim: requested range [",
                    fix3(start).as_str(),
                    "s..",
                    fix3(end).as_str(),
                    "s] is a no-op; the clip is already at that source range. view_timeline shows each clip's current source=[start..end]. To trim the first N seconds from the current visible clip, set start to current source start + N. To trim the last N seconds, set end to current source end - N.",
                ),
            ),
        );
    }
    let length = end.minus(start);
    if length.less(zero()) {
        return Err(
            invalid(
                index,
                cat2("trim: computed negative duration ", show(length).as_str()),
            ),
        );
    }
    let name = clip.name.clone();
    let mut shrunk = clip;
    shrunk.source_range = Some(TimeRange::seconds(start, length, range.start_time.rate));
    let mut out = working;
    out.put_clip(loc, shrunk);
    let t = Retime { was_start, was_end, start, end };
    match retime_siblings(out, loc, &group, t, " also trimmed)", index) {
        Err(e) => Err(e),
        Ok((out, note)) => {
            let said = cat9(
                "trimmed clip ",
                quote(name.as_str()).as_str(),
                " to [",
                fix3(start).as_str(),
                "s..",
                fix3(end).as_str(),
                "s] (",
                fix3(length).as_str(),
                "s)",
            );
            Ok((out, cat2(said.as_str(), note.as_str())))
        },
    }
}

/// Widening a clip's source range: each end may only move outwards, and is kept
/// inside the media that is known to exist.  Linked clips on other tracks widen
/// with it.
pub open spec fn untrimmed_clip(
    tl: TimelineModel,
    index: usize,
    new_start: Option<Num>,
    new_end: Option<Num>,
    locator: Option<ClipLocator>,
) -> Done {
    match found_clip(tl, index, locator, ""@) {
        Err(e) => Err(e),
        Ok((loc, clip)) => match clip.source_range {
            None => Err(
                bad(
                    index,
                    "clip has no source_range; nothing to untrim. Set source_range via a previous Trim Clip first."@,
                ),
            ),
            Some(range) => untrimmed_range(tl, index, new_start, new_end, loc, clip, range),
        },
    }
}

/// The first and the last moment of a clip's media; without an end where none
/// is known.
pub open spec fn media_bounds(c: ClipModel) -> (Num, Num) {
    match available_of(c) {
        Some(r) => (r.start_time.seconds, end_of(r)),
        None => (zero(), Num::PosInf),
    }
}

/// Widening the source range of the clip found.
pub open spec fn untrimmed_range(
    tl: TimelineModel,
    index: usize,
    new_start: Option<Num>,
    new_end: Option<Num>,
    loc: ClipLocator,
    clip: ClipModel,
    range: TimeRange,
) -> Done {
    let was_start = range.start_time.seconds;
    let was_end = end_of(range);
    let asked_start = or_else(new_start, was_start);
    let asked_end = or_else(new_end, was_end);
    let (first, last) = media_bounds(clip);
    let start = asked_start.larger(first);
    let end = if last.is_finite() {
        asked_end.smaller(last)
    } else {
        asked_end
    };
    let length = end.minus(start);
    if asked_end.less(asked_start) {
        Err(
            bad(
                index,
                "untrim: end "@ + shown(asked_end) + " must be >= start "@ + shown(asked_start),
            ),
        )
    } else if was_start.plus(micro()).less(asked_start) || asked_end.less(was_end.minus(micro())) {
        Err(
            bad(
                index,
                "untrim: requested range ["@ + milli3(asked_start) + "s.."@ + milli3(asked_end)
                    + "s] is narrower than current ["@ + milli3(was_start) + "s.."@ + milli3(
                    was_end,
                ) + "s]. Untrim only widens; use Trim Clip to narrow."@,
            ),
        )
    } else if length.at_most(zero()) {
        Err(
            bad(
                index,
                "untrim: computed non-positive duration "@ + shown(length)
                    + " after capping to available range"@,
            ),
        )
    } else {
        let widened = with_clip(
            tl,
            loc,
            with_range(clip, TimeRange::seconds(start, length, range.start_time.rate)),
        );
        match retimed_siblings(
            widened,
            loc,
            link_group_of(clip),
            Retime { was_start, was_end, start, end },
            " also untrimmed)"@,
            index,
        ) {
            Err(e) => Err(e),
            Ok(p) => Ok(
                (
                    p.0,
                    "untrimmed clip "@ + quoted(clip.name) + " to ["@ + milli3(start) + "s.."@
                        + milli3(end) + "s] ("@ + milli3(length) + "s) — was ["@ + milli3(was_start)
                        + "s.."@ + milli3(was_end) + "s]"@ + p.1,
                ),
            ),
        }
    }
}

/// Widens a clip's source range.
pub fn apply_untrim(
    working: Timeline,
    index: usize,
    new_start: Option<Num>,
    new_end: Option<Num>,
    locator: Option<ClipLocator>,
) -> (r: Result<(Timeline, String), ApplyError>)
    ensures
        shows(r, untrimmed_clip(working@, index, new_start, new_end, locator)),
{
    let (loc, clip) = match find_clip(&working, index, locator, "") {
        Ok(p) => p,
        Err(e) => {
            return Err(e);
        },
    };
    let range = match clip.source_range {
        Some(r) => r,
        None => {
            return Err(
                invalid_str(
                    index,
                    "clip has no source_range; nothing to untrim. Set source_range via a previous Trim Clip first.",
                ),
            );
        },
    };
    let group = clip_link_group_id(&clip);
    let was_start = range.start_time.seconds;
    let was_end = end_of(range);
    let asked_start = or_else(new_start, was_start);
    let asked_end = or_else(new_end, was_end);
    let (first, last) = match available_range(&clip) {
        Some(r) => (r.start_time.seconds, end_of(r)),
        None => (zero(), Num::PosInf),
    };
    if asked_end.less(asked_start) {
        return Err(
            invalid(
                index,
                cat4(
                    "untrim: end ",
                    show(asked_end).as_str(),
                    " must be >= start ",
                    show(asked_start).as_str(),
                ),
            ),
        );
    }
    if was_start.plus(micro()).less(asked_start) || asked_end.less(was_end.minus(micro())) {
        return Err(
            invalid(
                index,
                cat9(
                    "untrim: requested range [",
                    fix3(asked_start).as_str(),
                    "s..",
                    fix3(asked_end).as_str(),
                    "s] is narrower than current [",
                    fix3(was_start).as_str(),
                    "s..",
                    fix3(was_end).as_str(),
                    "s]. Untrim only widens; use Trim Clip to narrow.",
                ),
            ),
        );
    }
    let start = asked_start.larger(first);
    let end = if last.is_finite() {
        asked_end.smaller(last)
    } else {
        asked_end
    };
    let length = end.minus(start);
    if length.at_most(zero()) {
        return Err(
            invalid(
                index,
                cat3(
                    "untrim: computed non-positive duration ",
                    show(length).as_str(),
                    " after capping to available range",
                ),
            ),
        );
    }
    let name = clip.name.clone();
    let mut widened = clip;
    widened.source_range = Some(TimeRange::seconds(start, length, range.start_time.rate));
    let mut out = working;
    out.put_clip(loc, widened);
    let t = Retime { was_start, was_end, start, end };
    match retime_siblings(out, loc, &group, t, " also untrimmed)", index) {
        Err(e) => Err(e),
        Ok((out, note)) => {
            let said = cat13(
                "untrimmed clip ",
                quote(name.as_str()).as_str(),
                " to [",
                fix3(start).as_str(),
                "s..",
                fix3(end).as_str(),
                "s] (",
                fix3(length).as_str(),
                "s) — was [",
                fix3(was_start).as_str(),
                "s..",
                fix3(was_end).as_str(),
                "s]",
            );
            Ok((out, cat2(said.as_str(), note.as_str())))
        },
    }
}

} // verus!

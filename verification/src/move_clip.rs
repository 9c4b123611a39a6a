//! Moving clips along their track.
use vstd::prelude::*;

use crate::clip::{clip_link_group_id, first_where, lemma_first_where, link_group_of};
use crate::edit::{
    child_duration, child_seconds, gap_child, gap_of, start_of, start_time, track_at, with_children,
    with_layers, with_track,
};
use crate::error::{bad, invalid, invalid_str, shows, ApplyError, Done, Refusal};
use crate::gap::{
    as_clip_rate, clip_rate_or_24, insert_child_at_time, merge_adjacent_gaps, merged_all,
    name_of_removed, positive_rate, put_at_time, rate_or_24, removed_name,
};
use crate::insert::{find_in_group, in_group, snap_opt, snapped_opt};
use crate::locate::{no_place, required_locator};
use crate::model::{
    ClipLocator, StackChildModel, Stored, Timeline, TimelineModel, Track, TrackChild,
    TrackChildModel, TrackModel,
};
use crate::num::{centi, milli, rate24, zero, Num};
use crate::op::SnapOptions;
use crate::snap::{resolve_snap_time, snapped};
use crate::text::{
    cat10, cat2, cat4, cat5, cat6, cat8, count_usize, decimal, fix3, fix3_signed, milli3, plural,
    plural_of, quote, quoted, show, shown, signed3, Str,
};

verus! {

// ---- to a time ------------------------------------------------------------

/// Moving a child of a track to a time: it leaves empty time of its length, and
/// goes into empty time or to the nearer edge there.
pub open spec fn moved_to_time(index: usize, t: TrackModel, j: int, at: Num) -> Result<
    (TrackModel, Str),
    Refusal,
> {
    let c = t.children[j];
    let was = start_of(t.children, j);
    let length = child_seconds(c);
    let rate = rate_or_24(c);
    if !at.is_finite() || at.less(zero()) {
        Err(bad(index, "move: at_s must be a finite non-negative time, got "@ + shown(at)))
    } else if length.at_most(zero()) {
        Err(bad(index, "move: source clip has zero duration"@))
    } else if at.near(was, centi()) {
        Ok(
            (
                t,
                match c {
                    TrackChildModel::Clip(c) => "move: clip "@ + quoted(c.name)
                        + " already starts at "@ + milli3(at) + "s; left timeline unchanged"@,
                    _ => "move: source is not a clip; left timeline unchanged"@,
                },
            ),
        )
    } else {
        let left = t.children.update(j, gap_of(length, rate));
        Ok(
            (
                with_children(t, merged_all(put_at_time(left, c, at, length, rate, 0), rate)),
                "moved clip "@ + quoted(removed_name(c)) + " from "@ + milli3(was) + "s to "@
                    + milli3(at) + "s on track "@ + quoted(t.name),
            ),
        )
    }
}

/// Moves a child of a track to a time.
pub fn apply_move_clip_to_time(index: usize, track: Track, j: usize, at: Num) -> (r: Result<
    (Track, String),
    ApplyError,
>)
    requires
        j < track@.children.len(),
    ensures
        match r {
            Ok(p) => moved_to_time(index, track@, j as int, at) == Ok::<(TrackModel, Str), Refusal>(
                (p.0@, p.1@),
            ),
            Err(e) => moved_to_time(index, track@, j as int, at) == Err::<
                (TrackModel, Str),
                Refusal,
            >(e@),
        },
{
    if !at.is_finite() || at.less(zero()) {
        return Err(
            invalid(
                index,
                cat2("move: at_s must be a finite non-negative time, got ", show(at).as_str()),
            ),
        );
    }
    let was = start_time(&track, j);
    let c = track.children[j].copied();
    let length = child_duration(&c);
    if length.at_most(zero()) {
        return Err(invalid_str(index, "move: source clip has zero duration"));
    }
    if at.near(was, centi()) {
        let said = match &c {
            TrackChild::Clip(c) => cat5(
                "move: clip ",
                quote(c.name.as_str()).as_str(),
                " already starts at ",
                fix3(at).as_str(),
                "s; left timeline unchanged",
            ),
            _ => "move: source is not a clip; left timeline unchanged".to_owned(),
        };
        return Ok((track, said));
    }
    let rate = clip_rate_or_24(&c);
    let name = name_of_removed(&c);
    let mut track = track;
    track.put(j, gap_child(length, rate));
    insert_child_at_time(&mut track, c, at, length, rate);
    merge_adjacent_gaps(&mut track, rate);
    let said = cat8(
        "moved clip ",
        quote(name.as_str()).as_str(),
        " from ",
        fix3(was).as_str(),
        "s to ",
        fix3(at).as_str(),
        "s on track ",
        quote(track.name.as_str()).as_str(),
    );
    Ok((track, said))
}

// ---- to a position --------------------------------------------------------

/// Moving a child to a place among the others on its track.
pub open spec fn moved_to_place(t: TrackModel, i: nat, j: int, to_position: usize) -> (
    TrackModel,
    Str,
) {
    let c = t.children[j];
    let to = if to_position < t.children.len() {
        to_position as int
    } else {
        t.children.len() - 1
    };
    if to == j {
        (
            t,
            match c {
                TrackChildModel::Clip(c) => "move: clip "@ + quoted(c.name)
                    + " already at position "@ + decimal(to as nat) + "; left timeline unchanged"@,
                _ => "move: source is not a clip; left timeline unchanged"@,
            },
        )
    } else {
        (
            with_children(t, t.children.remove(j).insert(to, c)),
            match c {
                TrackChildModel::Clip(c) => "moved clip "@ + quoted(c.name) + " from position "@
                    + decimal(j as nat) + " to position "@ + decimal(to as nat) + " on track "@
                    + decimal(i),
                _ => "move: moved a non-clip child from "@ + decimal(j as nat) + " to "@ + decimal(
                    to as nat,
                ) + " on track "@ + decimal(i),
            },
        )
    }
}

fn move_to_place(track: Track, i: usize, j: usize, to_position: usize) -> (r: (Track, String))
    requires
        j < track@.children.len(),
    ensures
        (r.0@, r.1@) == moved_to_place(track@, i as nat, j as int, to_position),
{
    let size: usize = track.size();
    let to: usize = if to_position < size {
        to_position
    } else {
        size - 1
    };
    if to == j {
        let said = match &track.children[j] {
            TrackChild::Clip(c) => cat5(
                "move: clip ",
                quote(c.name.as_str()).as_str(),
                " already at position ",
                count_usize(to).as_str(),
                "; left timeline unchanged",
            ),
            _ => "move: source is not a clip; left timeline unchanged".to_owned(),
        };
        return (track, said);
    }
    let mut track = track;
    let c = track.remove(j);
    let said = match &c {
        TrackChild::Clip(c) => cat8(
            "moved clip ",
            quote(c.name.as_str()).as_str(),
            " from position ",
            count_usize(j).as_str(),
            " to position ",
            count_usize(to).as_str(),
            " on track ",
            count_usize(i).as_str(),
        ),
        _ => cat6(
            "move: moved a non-clip child from ",
            count_usize(j).as_str(),
            " to ",
            count_usize(to).as_str(),
            " on track ",
            count_usize(i).as_str(),
        ),
    };
    track.insert(to, c);
    (track, said)
}

/// Moving a clip along its track: to a time where one is given, else to a place
/// among the others.
pub open spec fn moved_clip(
    tl: TimelineModel,
    index: usize,
    to_position: usize,
    at_s: Option<Num>,
    snap: Option<SnapOptions>,
    locator: Option<ClipLocator>,
) -> Done {
    match locator {
        None => Err(no_place(index)),
        Some(loc) => match snapped_opt(tl, index, at_s, snap) {
            Err(e) => Err(e),
            Ok(time) => match track_at(tl, loc.track_index as int) {
                None => Err(bad(index, "move: anchor resolved to a non-track stack child"@)),
                Some(t) => {
                    let i = loc.track_index as int;
                    let j = loc.child_index as int;
                    if j >= t.children.len() {
                        Err(
                            bad(
                                index,
                                "move: source index "@ + decimal(j as nat)
                                    + " out of bounds for track of length "@ + decimal(
                                    t.children.len(),
                                ),
                            ),
                        )
                    } else {
                        match time {
                            Some(at) => match moved_to_time(index, t, j, at) {
                                Err(e) => Err(e),
                                Ok((t2, said)) => Ok((with_track(tl, i, t2), said)),
                            },
                            None => {
                                let (t2, said) = moved_to_place(t, i as nat, j, to_position);
                                Ok((with_track(tl, i, t2), said))
                            },
                        }
                    }
                },
            },
        },
    }
}

/// Moves a clip along its track.
pub fn apply_move_clip(
    working: Timeline,
    index: usize,
    to_position: usize,
    at_s: Option<Num>,
    snap: &Option<SnapOptions>,
    locator: Option<ClipLocator>,
) -> (r: Result<(Timeline, String), ApplyError>)
    ensures
        shows(r, moved_clip(working@, index, to_position, at_s, *snap, locator)),
{
    let loc = match required_locator(index, locator) {
        Ok(l) => l,
        Err(e) => {
            return Err(e);
        },
    };
    let time = match snap_opt(&working, index, at_s, snap) {
        Ok(t) => t,
        Err(e) => {
            return Err(e);
        },
    };
    let track = match working.track(loc.track_index) {
        Some(t) => t.copied(),
        None => {
            return Err(invalid_str(index, "move: anchor resolved to a non-track stack child"));
        },
    };
    if loc.child_index >= track.size() {
        return Err(
            invalid(
                index,
                cat4(
                    "move: source index ",
                    count_usize(loc.child_index).as_str(),
                    " out of bounds for track of length ",
                    count_usize(track.size()).as_str(),
                ),
            ),
        );
    }
    let mut out = working;
    match time {
        Some(at) => match apply_move_clip_to_time(index, track, loc.child_index, at) {
            Err(e) => Err(e),
            Ok((t, said)) => {
                out.put_track(loc.track_index, t);
                Ok((out, said))
            },
        },
        None => {
            let (t, said) = move_to_place(track, loc.track_index, loc.child_index, to_position);
            out.put_track(loc.track_index, t);
            Ok((out, said))
        },
    }
}

// ---- ripple ---------------------------------------------------------------

/// The first positive rate among the children from place `i` on, else 24.
pub open spec fn first_rate(children: Seq<TrackChildModel>, i: int) -> Num
    decreases children.len() - i,
{
    if i < 0 || i >= children.len() {
        rate24()
    } else {
        match positive_rate(children[i]) {
            Some(r) => r,
            None => first_rate(children, i + 1),
        }
    }
}

/// The rate for empty time in front of a child.
pub open spec fn shift_rate(children: Seq<TrackChildModel>, j: int) -> Num {
    match positive_rate(children[j]) {
        Some(r) => r,
        None => first_rate(children, 0),
    }
}

fn find_shift_rate(track: &Track, j: usize) -> (r: Num)
    requires
        j < track@.children.len(),
    ensures
        r == shift_rate(track@.children, j as int),
{
    if let Some(r) = as_clip_rate(&track.children[j]) {
        return r;
    }
    let mut i: usize = 0;
    while i < track.children.len()
        invariant
            i <= track@.children.len(),
            positive_rate(track@.children[j as int]) is None,
            first_rate(track@.children, 0) == first_rate(track@.children, i as int),
        decreases track@.children.len() - i,
    {
        if let Some(r) = as_clip_rate(&track.children[i]) {
            return r;
        }
        i = i + 1;
    }
    rate24()
}

/// The children with up to `left` of empty time eaten in front of place `j`;
/// what is no empty time stops the eating.
pub open spec fn eaten(children: Seq<TrackChildModel>, j: int, left: Num, rate: Num) -> Seq<
    TrackChildModel,
>
    decreases j,
{
    if j <= 0 || !milli().less(left) {
        children
    } else {
        match children[j - 1] {
            TrackChildModel::Gap(g) => {
                let d = g.source_range.duration.seconds;
                if d.at_most(left.plus(milli())) {
                    eaten(children.remove(j - 1), j - 1, left.minus(d), rate)
                } else {
                    children.update(j - 1, gap_of(d.minus(left), rate))
                }
            },
            _ => children,
        }
    }
}

/// The children with one of them, and all behind it, moved by a time: empty time
/// in front of it grows, or is eaten as far as there is any, and what is left of
/// it is made one.
pub open spec fn shifted(children: Seq<TrackChildModel>, j: int, delta: Num) -> Seq<
    TrackChildModel,
> {
    let rate = shift_rate(children, j);
    if delta.size().less(milli()) {
        children
    } else if zero().less(delta) {
        if j > 0 && children[j - 1] is Gap {
            children.update(j - 1, gap_of(child_seconds(children[j - 1]).plus(delta), rate))
        } else {
            children.insert(j, gap_of(delta, rate))
        }
    } else {
        merged_all(eaten(children, j, delta.negated(), rate), rate)
    }
}

/// Moves a child, and all behind it, by a time.
pub fn shift_clip_at_index(track: &mut Track, child_index: usize, delta_s: Num)
    requires
        child_index < old(track)@.children.len(),
    ensures
        final(track)@ == with_children(
            old(track)@,
            shifted(old(track)@.children, child_index as int, delta_s),
        ),
{
    let ghost children = track@.children;
    if delta_s.size().less(milli()) {
        return;
    }
    let rate = find_shift_rate(track, child_index);
    if zero().less(delta_s) {
        if child_index > 0 {
            let before = child_duration(&track.children[child_index - 1]);
            let is_gap = match &track.children[child_index - 1] {
                TrackChild::Gap(_) => true,
                _ => false,
            };
            if is_gap {
                track.put(child_index - 1, gap_child(before.plus(delta_s), rate));
                return;
            }
        }
        track.insert(child_index, gap_child(delta_s, rate));
        return;
    }
    let ghost t0 = track@;
    let ghost whole = eaten(children, child_index as int, delta_s.negated(), rate);
    let mut left = delta_s.negated();
    let mut j: usize = child_index;
    let mut go: bool = true;
    while go && j > 0 && milli().less(left)
        invariant
            j <= track@.children.len(),
            track@ == with_children(t0, track@.children),
            go ==> whole == eaten(track@.children, j as int, left, rate),
            !go ==> whole == track@.children,
        decreases j,
    {
        let d = child_duration(&track.children[j - 1]);
        let is_gap = match &track.children[j - 1] {
            TrackChild::Gap(_) => true,
            _ => false,
        };
        if is_gap {
            if d.at_most(left.plus(milli())) {
                left = left.minus(d);
                let _ = track.remove(j - 1);
            } else {
                track.put(j - 1, gap_child(d.minus(left), rate));
                go = false;
            }
        } else {
            go = false;
        }
        j = j - 1;
    }
    merge_adjacent_gaps(track, rate);
}

/// The layer with its linked clip moved by a time.
pub open spec fn shifted_layer(layer: StackChildModel, group: Str, delta: Num) -> StackChildModel {
    match layer {
        StackChildModel::Track(t) => match first_where(t.children, in_group(group), 0) {
            Some(j) => StackChildModel::Track(with_children(t, shifted(t.children, j, delta))),
            None => layer,
        },
        _ => layer,
    }
}

/// Whether a layer has a linked clip.
pub open spec fn has_linked(layer: StackChildModel, group: Str) -> bool {
    match layer {
        StackChildModel::Track(t) => first_where(t.children, in_group(group), 0) is Some,
        _ => false,
    }
}

/// The layers, but for one, with their linked clips moved by a time.
pub open spec fn shifted_layers(layers: Seq<StackChildModel>, but: int, group: Str, delta: Num) -> Seq<
    StackChildModel,
> {
    Seq::new(
        layers.len(),
        |i: int|
            if i == but {
                layers[i]
            } else {
                shifted_layer(layers[i], group, delta)
            },
    )
}

/// How many of the first `n` layers, but for one, have a linked clip.
pub open spec fn linked_layers(layers: Seq<StackChildModel>, but: int, group: Str, n: int) -> nat
    decreases n,
{
    if n <= 0 {
        0
    } else {
        linked_layers(layers, but, group, n - 1) + (if n - 1 != but && has_linked(
            layers[n - 1],
            group,
        ) {
            1nat
        } else {
            0nat
        })
    }
}

/// Moves, on every other track, the first clip of the group by a time.
pub fn shift_linked_siblings(working: Timeline, but: usize, group: &str, delta: Num) -> (r: (
    Timeline,
    usize,
))
    ensures
        r.0@ == with_layers(
            working@,
            shifted_layers(working@.tracks.children, but as int, group@, delta),
        ),
        r.1 == linked_layers(
            working@.tracks.children,
            but as int,
            group@,
            working@.tracks.children.len() as int,
        ),
{
    let ghost layers = working@.tracks.children;
    let ghost done = shifted_layers(layers, but as int, group@, delta);
    let mut out = working;
    let mut count: usize = 0;
    let mut i: usize = 0;
    assert(out@.tracks.children =~= done.take(0) + layers.skip(0));
    while i < out.tracks.children.len()
        invariant
            i <= out@.tracks.children.len(),
            out@.tracks.children.len() == layers.len(),
            layers == working@.tracks.children,
            done == shifted_layers(layers, but as int, group@, delta),
            out@ == with_layers(working@, out@.tracks.children),
            out@.tracks.children == done.take(i as int) + layers.skip(i as int),
            count == linked_layers(layers, but as int, group@, i as int),
            count <= i,
        decreases layers.len() - i,
    {
        assert(out@.tracks.children[i as int] == layers[i as int]);
        let mut moved: Option<Track> = None;
        if i != but {
            if let Some(t) = out.track(i) {
                if let Some(j) = find_in_group(t, group) {
                    proof {
                        lemma_first_where(t@.children, in_group(group@), 0);
                    }
                    let mut t = t.copied();
                    shift_clip_at_index(&mut t, j, delta);
                    moved = Some(t);
                }
            }
        }
        if let Some(t) = moved {
            out.put_track(i, t);
            count = count + 1;
        }
        assert(out@.tracks.children =~= done.take(i + 1) + layers.skip(i + 1));
        i = i + 1;
    }
    assert(out@.tracks.children =~= done);
    (out, count)
}

/// Moving a clip and all behind it on its track by a time, snapped, and the
/// linked clips on other tracks by as much.
pub open spec fn ripple_moved(
    tl: TimelineModel,
    index: usize,
    delta_s: Num,
    snap: Option<SnapOptions>,
    locator: Option<ClipLocator>,
) -> Done {
    match locator {
        None => Err(no_place(index)),
        Some(loc) => if !delta_s.is_finite() {
            Err(bad(index, "ripple_move: delta_s must be finite, got "@ + shown(delta_s)))
        } else {
            match track_at(tl, loc.track_index as int) {
                None => Err(
                    bad(index, "ripple_move: anchor resolved to a non-track stack child"@),
                ),
                Some(t) => if loc.child_index >= t.children.len() {
                    Err(
                        bad(
                            index,
                            "ripple_move: source index "@ + decimal(loc.child_index as nat)
                                + " out of bounds for track of length "@ + decimal(
                                t.children.len(),
                            ),
                        ),
                    )
                } else {
                    match t.children[loc.child_index as int] {
                        TrackChildModel::Clip(c) => ripple_moved_clip(
                            tl,
                            index,
                            delta_s,
                            snap,
                            loc,
                            t,
                            c,
                        ),
                        _ => Err(bad(index, "ripple_move: source is not a clip"@)),
                    }
                },
            }
        },
    }
}

/// Moving the clip found.
pub open spec fn ripple_moved_clip(
    tl: TimelineModel,
    index: usize,
    delta_s: Num,
    snap: Option<SnapOptions>,
    loc: ClipLocator,
    t: TrackModel,
    c: crate::model::ClipModel,
) -> Done {
    let i = loc.track_index as int;
    let j = loc.child_index as int;
    let was = start_of(t.children, j);
    match snapped(tl, index, was.plus(delta_s).larger(zero()), snap) {
        Err(e) => Err(e),
        Ok(at) => {
            let delta = at.minus(was);
            if delta.size().less(milli()) {
                Ok(
                    (
                        tl,
                        "ripple_move: clip "@ + quoted(c.name) + " already at "@ + milli3(at)
                            + "s; left timeline unchanged"@,
                    ),
                )
            } else {
                let moved = with_track(tl, i, with_children(t, shifted(t.children, j, delta)));
                let layers = moved.tracks.children;
                let (out, n) = match link_group_of(c) {
                    Some(g) => (
                        with_layers(moved, shifted_layers(layers, i, g, delta)),
                        linked_layers(layers, i, g, layers.len() as int),
                    ),
                    None => (moved, 0nat),
                };
                Ok(
                    (
                        out,
                        "ripple-moved clip "@ + quoted(c.name) + " by "@ + signed3(delta)
                            + "s on track "@ + decimal(i as nat) + " ("@ + decimal(n)
                            + " linked sibling"@ + plural(n) + " also shifted)"@,
                    ),
                )
            }
        },
    }
}

/// Moves a clip and all behind it by a time.
pub fn apply_ripple_move(
    working: Timeline,
    index: usize,
    delta_s: Num,
    snap: &Option<SnapOptions>,
    locator: Option<ClipLocator>,
) -> (r: Result<(Timeline, String), ApplyError>)
    ensures
        shows(r, ripple_moved(working@, index, delta_s, *snap, locator)),
{
    let loc = match required_locator(index, locator) {
        Ok(l) => l,
        Err(e) => {
            return Err(e);
        },
    };
    if !delta_s.is_finite() {
        return Err(
            invalid(
                index,
                cat2("ripple_move: delta_s must be finite, got ", show(delta_s).as_str()),
            ),
        );
    }
    let mut track = match working.track(loc.track_index) {
        Some(t) => t.copied(),
        None => {
            return Err(
                invalid_str(index, "ripple_move: anchor resolved to a non-track stack child"),
            );
        },
    };
    if loc.child_index >= track.size() {
        return Err(
            invalid(
                index,
                cat4(
                    "ripple_move: source index ",
                    count_usize(loc.child_index).as_str(),
                    " out of bounds for track of length ",
                    count_usize(track.size()).as_str(),
                ),
            ),
        );
    }
    let clip = match &track.children[loc.child_index] {
        TrackChild::Clip(c) => c.copied(),
        _ => {
            return Err(invalid_str(index, "ripple_move: source is not a clip"));
        },
    };
    let was = start_time(&track, loc.child_index);
    let at = match resolve_snap_time(&working, index, was.plus(delta_s).larger(zero()), snap) {
        Ok(t) => t,
        Err(e) => {
            return Err(e);
        },
    };
    let delta = at.minus(was);
    if delta.size().less(milli()) {
        let said = cat5(
            "ripple_move: clip ",
            quote(clip.name.as_str()).as_str(),
            " already at ",
            fix3(at).as_str(),
            "s; left timeline unchanged",
        );
        return Ok((working, said));
    }
    shift_clip_at_index(&mut track, loc.child_index, delta);
    let mut out = working;
    out.put_track(loc.track_index, track);
    let (out, n) = match clip_link_group_id(&clip) {
        Some(g) => shift_linked_siblings(out, loc.track_index, g.as_str(), delta),
        None => (out, 0usize),
    };
    let said = cat10(
        "ripple-moved clip ",
        quote(clip.name.as_str()).as_str(),
        " by ",
        fix3_signed(delta).as_str(),
        "s on track ",
        count_usize(loc.track_index).as_str(),
        " (",
        count_usize(n).as_str(),
        " linked sibling",
        plural_of(n),
    );
    Ok((out, cat2(said.as_str(), " also shifted)")))
}

} // verus!

//! Empty time on tracks: merging it, filling it, leaving it behind.
use vstd::prelude::*;

use crate::boundary::{remove_cut_boundaries_for_clip, without_cuts_at};
use crate::clip::{clip_id, id_of};
use crate::edit::{
    child_duration, child_seconds, gap_child, gap_of, spliced, start_of, track_at, with_children,
    with_track,
};
use crate::error::{bad, invalid_str, shows, ApplyError, Done};
use crate::locate::{no_place, required_locator};
use crate::model::{
    views, ClipLocator, Stored, Timeline, TimelineModel, Track, TrackChild, TrackChildModel,
};
use crate::num::{milli, rate24, zero, Num};
use crate::text::{cat2, count_usize, decimal, quote, quoted, Str};

verus! {

/// The rate of a clip, where it has a positive one.
pub open spec fn positive_rate(c: TrackChildModel) -> Option<Num> {
    match c {
        TrackChildModel::Clip(c) => match c.source_range {
            Some(r) if zero().less(r.start_time.rate) => Some(r.start_time.rate),
            _ => None,
        },
        _ => None,
    }
}

/// The rate of a clip, where it has a positive one.
pub fn as_clip_rate(child: &TrackChild) -> (r: Option<Num>)
    ensures
        r == positive_rate(child@),
{
    match child {
        TrackChild::Clip(c) => match c.source_range {
            Some(r) => if zero().less(r.start_time.rate) {
                Some(r.start_time.rate)
            } else {
                None
            },
            None => None,
        },
        _ => None,
    }
}

/// The rate of a clip, where it has a positive one, else 24.
pub open spec fn rate_or_24(c: TrackChildModel) -> Num {
    match positive_rate(c) {
        Some(r) => r,
        None => rate24(),
    }
}

/// The rate of a clip, where it has a positive one, else 24.
pub fn clip_rate_or_24(child: &TrackChild) -> (r: Num)
    ensures
        r == rate_or_24(child@),
{
    match as_clip_rate(child) {
        Some(r) => r,
        None => rate24(),
    }
}

/// The first `n` children with stretches of empty time made one; those of at
/// most a thousandth are left out.
pub open spec fn merged(children: Seq<TrackChildModel>, rate: Num, n: int) -> Seq<TrackChildModel>
    decreases n,
{
    if n <= 0 {
        Seq::empty()
    } else {
        let m = merged(children, rate, n - 1);
        match children[n - 1] {
            TrackChildModel::Gap(g) => {
                let d = g.source_range.duration.seconds;
                if d.at_most(milli()) {
                    m
                } else if m.len() > 0 && m.last() is Gap {
                    m.update(
                        m.len() - 1,
                        gap_of(m.last()->Gap_0.source_range.duration.seconds.plus(d), rate),
                    )
                } else {
                    m.push(children[n - 1])
                }
            },
            c => m.push(c),
        }
    }
}

/// The children with stretches of empty time made one.
pub open spec fn merged_all(children: Seq<TrackChildModel>, rate: Num) -> Seq<TrackChildModel> {
    merged(children, rate, children.len() as int)
}

/// Makes stretches of empty time on a track one.
pub fn merge_adjacent_gaps(track: &mut Track, rate: Num)
    ensures
        final(track)@ == with_children(old(track)@, merged_all(old(track)@.children, rate)),
{
    let ghost children = track@.children;
    let mut out: Vec<TrackChild> = Vec::new();
    let mut i: usize = 0;
    assert(views(out@) =~= merged(children, rate, 0));
    while i < track.children.len()
        invariant
            i <= track@.children.len(),
            *track == *old(track),
            children == track@.children,
            views(out@) == merged(children, rate, i as int),
        decreases children.len() - i,
    {
        let ghost before = views(out@);
        let n: usize = out.len();
        match &track.children[i] {
            TrackChild::Gap(g) => {
                let d = g.source_range.duration.seconds;
                if !d.at_most(milli()) {
                    let mut joined: Option<Num> = None;
                    if n > 0 {
                        assert(before.last() == out@[n - 1]@);
                        if let TrackChild::Gap(last) = &out[n - 1] {
                            joined = Some(last.source_range.duration.seconds.plus(d));
                        }
                    }
                    match joined {
                        Some(total) => {
                            out.set(n - 1, gap_child(total, rate));
                            assert(views(out@) =~= before.update(n - 1, gap_of(total, rate)));
                        },
                        None => {
                            out.push(track.children[i].copied());
                            assert(views(out@) =~= before.push(children[i as int]));
                        },
                    }
                }
            },
            other => {
                out.push(other.copied());
                assert(views(out@) =~= before.push(children[i as int]));
            },
        }
        i = i + 1;
    }
    track.refill(out);
}

/// Empty time in front of, the child, and empty time behind it, as far as more
/// than a thousandth of it is left.
pub open spec fn framed(before: Num, child: TrackChildModel, after: Num, rate: Num, least: Num) -> Seq<
    TrackChildModel,
> {
    (if least.less(before) {
        seq![gap_of(before, rate)]
    } else {
        Seq::empty()
    }).push(child) + (if least.less(after) {
        seq![gap_of(after, rate)]
    } else {
        Seq::empty()
    })
}

/// Empty time in front of, the child, and empty time behind it.
pub fn frame(before: Num, child: TrackChild, after: Num, rate: Num, least: Num) -> (r: Vec<
    TrackChild,
>)
    ensures
        views(r@) == framed(before, child@, after, rate, least),
{
    let mut out: Vec<TrackChild> = Vec::new();
    if least.less(before) {
        out.push(gap_child(before, rate));
    }
    out.push(child);
    if least.less(after) {
        out.push(gap_child(after, rate));
    }
    assert(views(out@) =~= framed(before, child@, after, rate, least));
    out
}

/// The children with another put at a time, looked for from place `i` on: into
/// empty time there, else at the nearer edge, else behind the last.
pub open spec fn put_at_time(
    children: Seq<TrackChildModel>,
    child: TrackChildModel,
    at: Num,
    length: Num,
    rate: Num,
    i: int,
) -> Seq<TrackChildModel>
    decreases children.len() - i,
{
    let cursor = start_of(children, i);
    if i < 0 || i >= children.len() {
        if cursor.plus(milli()).less(at) {
            children.push(gap_of(at.minus(cursor), rate)).push(child)
        } else {
            children.push(child)
        }
    } else {
        let d = child_seconds(children[i]);
        let end = cursor.plus(d);
        if at.at_most(cursor.plus(milli())) {
            children.insert(i, child)
        } else if at.less(end.minus(milli())) {
            if children[i] is Gap {
                let before = at.minus(cursor).larger(zero());
                let after = end.minus(at).minus(length).larger(zero());
                spliced(children, i, i + 1, framed(before, child, after, rate, milli()))
            } else if at.less(cursor.plus(d.half())) {
                children.insert(i, child)
            } else {
                children.insert(i + 1, child)
            }
        } else {
            put_at_time(children, child, at, length, rate, i + 1)
        }
    }
}

/// Puts a child on a track at a time.
pub fn insert_child_at_time(track: &mut Track, child: TrackChild, at: Num, length: Num, rate: Num)
    ensures
        final(track)@ == with_children(
            old(track)@,
            put_at_time(old(track)@.children, child@, at, length, rate, 0),
        ),
{
    let ghost children = track@.children;
    let mut cursor = zero();
    let mut i: usize = 0;
    while i < track.children.len()
        invariant
            i <= track@.children.len(),
            *track == *old(track),
            children == track@.children,
            cursor == start_of(children, i as int),
            put_at_time(children, child@, at, length, rate, 0) == put_at_time(
                children,
                child@,
                at,
                length,
                rate,
                i as int,
            ),
        decreases children.len() - i,
    {
        let d = child_duration(&track.children[i]);
        let end = cursor.plus(d);
        if at.at_most(cursor.plus(milli())) {
            track.insert(i, child);
            return;
        }
        if at.less(end.minus(milli())) {
            let is_gap = match &track.children[i] {
                TrackChild::Gap(_) => true,
                _ => false,
            };
            if is_gap {
                let before = at.minus(cursor).larger(zero());
                let after = end.minus(at).minus(length).larger(zero());
                track.splice(i, i + 1, frame(before, child, after, rate, milli()));
            } else if at.less(cursor.plus(d.half())) {
                track.insert(i, child);
            } else {
                track.insert(i + 1, child);
            }
            return;
        }
        cursor = end;
        i = i + 1;
    }
    if cursor.plus(milli()).less(at) {
        track.push(gap_child(at.minus(cursor), rate));
    }
    track.push(child);
}

// ---- deleting -------------------------------------------------------------

/// The children without the transitions next to one of them, and how many there
/// were.
pub open spec fn without_transitions_around(children: Seq<TrackChildModel>, i: int) -> (
    Seq<TrackChildModel>,
    nat,
) {
    let (a, n) = if i + 1 < children.len() && children[i + 1] is Transition {
        (children.remove(i + 1), 1nat)
    } else {
        (children, 0nat)
    };
    if 0 < i <= a.len() && a[i - 1] is Transition {
        (a.remove(i - 1), n + 1)
    } else {
        (a, n)
    }
}

/// Takes out the transitions next to a child.
pub fn remove_transitions_around_child(track: &mut Track, i: usize) -> (r: usize)
    requires
        i < old(track)@.children.len(),
    ensures
        r == without_transitions_around(old(track)@.children, i as int).1,
        final(track)@ == with_children(
            old(track)@,
            without_transitions_around(old(track)@.children, i as int).0,
        ),
{
    let mut n: usize = 0;
    if track.children.len() - i > 1 {
        if let TrackChild::Transition(_) = &track.children[i + 1] {
            let _ = track.remove(i + 1);
            n = 1;
        }
    }
    if i > 0 {
        if let TrackChild::Transition(_) = &track.children[i - 1] {
            let _ = track.remove(i - 1);
            n = n + 1;
        }
    }
    n
}

/// How a removed child is called.
pub open spec fn removed_name(c: TrackChildModel) -> Str {
    match c {
        TrackChildModel::Clip(c) => c.name,
        _ => "<non-clip>"@,
    }
}

/// How a removed child is called.
pub fn name_of_removed(child: &TrackChild) -> (r: String)
    ensures
        r@ == removed_name(child@),
{
    match child {
        TrackChild::Clip(c) => c.name.clone(),
        _ => "<non-clip>".to_owned(),
    }
}

/// The line that says what was deleted.
pub open spec fn deleted_note(name: Str, transitions: nat) -> Str {
    if transitions == 0 {
        "deleted clip "@ + quoted(name)
    } else {
        "deleted clip "@ + quoted(name) + " and removed "@ + decimal(transitions)
            + " adjacent transition(s)"@
    }
}

/// Taking a clip out and leaving empty time of its length; the transitions next
/// to it and the cuts at it go too.
pub open spec fn deleted_clip(tl: TimelineModel, index: usize, locator: Option<ClipLocator>) -> Done {
    match locator {
        None => Err(no_place(index)),
        Some(loc) => match track_at(tl, loc.track_index as int) {
            None => Err(bad(index, "anchor resolved to a non-track stack child"@)),
            Some(t) => if loc.child_index >= t.children.len() {
                Err(bad(index, "anchor resolved to a non-clip track child"@))
            } else {
                let j = loc.child_index as int;
                let c = t.children[j];
                let rate = rate_or_24(c);
                let (left, n) = without_transitions_around(
                    t.children.update(j, gap_of(child_seconds(c), rate)),
                    j,
                );
                let out = with_track(
                    tl,
                    loc.track_index as int,
                    with_children(t, merged_all(left, rate)),
                );
                Ok(
                    (
                        match c {
                            TrackChildModel::Clip(c) => without_cuts_at(out, id_of(c)),
                            _ => out,
                        },
                        deleted_note(removed_name(c), n),
                    ),
                )
            },
        },
    }
}

/// Takes a clip out and leaves empty time of its length.
pub fn apply_delete(working: Timeline, index: usize, locator: Option<ClipLocator>) -> (r: Result<
    (Timeline, String),
    ApplyError,
>)
    ensures
        shows(r, deleted_clip(working@, index, locator)),
{
    let loc = match required_locator(index, locator) {
        Ok(l) => l,
        Err(e) => {
            return Err(e);
        },
    };
    let mut out = working;
    let mut track = match out.track(loc.track_index) {
        Some(t) => t.copied(),
        None => {
            return Err(invalid_str(index, "anchor resolved to a non-track stack child"));
        },
    };
    if loc.child_index >= track.size() {
        return Err(invalid_str(index, "anchor resolved to a non-clip track child"));
    }
    let removed = track.children[loc.child_index].copied();
    let rate = clip_rate_or_24(&removed);
    track.put(loc.child_index, gap_child(child_duration(&removed), rate));
    let n: usize = remove_transitions_around_child(&mut track, loc.child_index);
    merge_adjacent_gaps(&mut track, rate);
    out.put_track(loc.track_index, track);
    if let TrackChild::Clip(c) = &removed {
        remove_cut_boundaries_for_clip(&mut out, clip_id(c).as_str());
    }
    let name = name_of_removed(&removed);
    let said = cat2("deleted clip ", quote(name.as_str()).as_str());
    if n == 0 {
        Ok((out, said))
    } else {
        let note = crate::text::cat4(
            said.as_str(),
            " and removed ",
            count_usize(n).as_str(),
            " adjacent transition(s)",
        );
        Ok((out, note))
    }
}

} // verus!

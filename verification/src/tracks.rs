//! Whole tracks, and the empty time at clips and at the ends of tracks.
use vstd::prelude::*;

use crate::clip::{clip_link_group_id, first_where, is_some_text, link_group_of};
use crate::edit::{
    child_duration, child_seconds, clip_at, empty_track, track_at, track_named, with_children,
    with_layers, with_track,
};
use crate::error::{bad, invalid, invalid_str, shows, ApplyError, Done};
use crate::insert::{find_in_group, in_group};
use crate::locate::{no_place, required_locator};
use crate::model::{
    opt, ClipLocator, StackChildModel, Stored, Timeline, TimelineModel, Track, TrackChild,
    TrackChildModel, TrackKind,
};
use crate::num::{zero, Num};
use crate::op::{GapSide, InsertTrackKind};
use crate::text::{
    begins, begins_with, blank, cat2, cat3, cat4, cat5, cat6, cat7, cat8, count_usize, decimal,
    fix3, is_blank, join, joined, lower, lowered, milli3, plural, plural_of, quote, quoted, strs,
    trim, trimmed, Str,
};

verus! {

// ---- the gap at a clip ----------------------------------------------------

/// The word for a side of a clip.
pub open spec fn side_name(side: GapSide) -> Str {
    match side {
        GapSide::Before => "Before"@,
        GapSide::After => "After"@,
    }
}

fn name_of_side(side: GapSide) -> (r: &'static str)
    ensures
        r@ == side_name(side),
{
    match side {
        GapSide::Before => "Before",
        GapSide::After => "After",
    }
}

/// The place of the empty time at a child of a track, or why there is none.
pub open spec fn gap_beside(tl: TimelineModel, i: int, j: int, side: GapSide) -> Result<int, Str> {
    match track_at(tl, i) {
        None => Err("delete_gap: target slot is not a track"@),
        Some(t) => {
            let k = match side {
                GapSide::Before => j - 1,
                GapSide::After => j + 1,
            };
            if j >= t.children.len() {
                Err(
                    "delete_gap: source index "@ + decimal(j as nat)
                        + " out of bounds for track of length "@ + decimal(t.children.len()),
                )
            } else if k < 0 {
                Err("delete_gap: anchor at track start; no preceding gap"@)
            } else if k >= t.children.len() {
                Err("delete_gap: anchor is last child; no trailing gap"@)
            } else if !(t.children[k] is Gap) {
                Err(
                    "delete_gap: child at "@ + decimal(k as nat) + " on track "@ + decimal(i as nat)
                        + " is not a gap"@,
                )
            } else {
                Ok(k)
            }
        },
    }
}

/// The place of the empty time at a child of a track.
pub fn find_gap(working: &Timeline, i: usize, j: usize, side: GapSide) -> (r: Result<usize, String>)
    ensures
        match r {
            Ok(k) => gap_beside(working@, i as int, j as int, side) == Ok::<int, Str>(k as int),
            Err(m) => gap_beside(working@, i as int, j as int, side) == Err::<int, Str>(m@),
        },
{
    let t = match working.track(i) {
        Some(t) => t,
        None => {
            return Err("delete_gap: target slot is not a track".to_owned());
        },
    };
    if j >= t.size() {
        return Err(
            cat4(
                "delete_gap: source index ",
                count_usize(j).as_str(),
                " out of bounds for track of length ",
                count_usize(t.size()).as_str(),
            ),
        );
    }
    let k: usize = match side {
        GapSide::Before => {
            if j == 0 {
                return Err("delete_gap: anchor at track start; no preceding gap".to_owned());
            }
            j - 1
        },
        GapSide::After => {
            if t.size() - j <= 1 {
                return Err("delete_gap: anchor is last child; no trailing gap".to_owned());
            }
            j + 1
        },
    };
    match &t.children[k] {
        TrackChild::Gap(_) => Ok(k),
        _ => Err(
            cat5(
                "delete_gap: child at ",
                count_usize(k).as_str(),
                " on track ",
                count_usize(i).as_str(),
                " is not a gap",
            ),
        ),
    }
}

/// The timeline without a child of a track.
pub open spec fn without_child(tl: TimelineModel, i: int, k: int) -> TimelineModel {
    let t = track_at(tl, i)->0;
    with_track(tl, i, with_children(t, t.children.remove(k)))
}

/// Takes a child off a track.
pub fn remove_child(working: &mut Timeline, i: usize, k: usize)
    requires
        track_at(old(working)@, i as int) is Some,
        k < track_at(old(working)@, i as int)->0.children.len(),
    ensures
        final(working)@ == without_child(old(working)@, i as int, k as int),
{
    if let Some(t) = working.track(i) {
        let mut t = t.copied();
        let _ = t.remove(k);
        working.put_track(i, t);
    }
}

/// The place of the linked clip's empty time on a layer.
pub open spec fn linked_gap(tl: TimelineModel, i: int, group: Str, side: GapSide) -> Option<int> {
    match track_at(tl, i) {
        Some(t) => match first_where(t.children, in_group(group), 0) {
            Some(j) => match gap_beside(tl, i, j, side) {
                Ok(k) => Some(k),
                Err(_) => None,
            },
            None => None,
        },
        None => None,
    }
}

/// The timeline without the empty time at the linked clips on its first `n`
/// layers, but for one, and how many there were.
pub open spec fn without_linked_gaps(
    tl: TimelineModel,
    but: int,
    group: Str,
    side: GapSide,
    n: int,
) -> (TimelineModel, nat)
    decreases n,
{
    if n <= 0 {
        (tl, 0)
    } else {
        let (t, m) = without_linked_gaps(tl, but, group, side, n - 1);
        match linked_gap(t, n - 1, group, side) {
            Some(k) if n - 1 != but => (without_child(t, n - 1, k), m + 1),
            _ => (t, m),
        }
    }
}

fn remove_linked_gaps(working: Timeline, but: usize, group: &str, side: GapSide) -> (r: (
    Timeline,
    usize,
))
    ensures
        (r.0@, r.1 as nat) == without_linked_gaps(
            working@,
            but as int,
            group@,
            side,
            working@.tracks.children.len() as int,
        ),
{
    let ghost tl = working@;
    let mut out = working;
    let mut count: usize = 0;
    let mut i: usize = 0;
    while i < out.tracks.children.len()
        invariant
            i <= out@.tracks.children.len(),
            out@.tracks.children.len() == tl.tracks.children.len(),
            (out@, count as nat) == without_linked_gaps(tl, but as int, group@, side, i as int),
            count <= i,
        decreases tl.tracks.children.len() - i,
    {
        let mut found: Option<usize> = None;
        if i != but {
            if let Some(t) = out.track(i) {
                if let Some(j) = find_in_group(t, group) {
                    if let Ok(k) = find_gap(&out, i, j, side) {
                        found = Some(k);
                    }
                }
            }
        }
        if let Some(k) = found {
            remove_child(&mut out, i, k);
            count = count + 1;
        }
        i = i + 1;
    }
    (out, count)
}

/// Taking out the empty time in front of or behind a clip, and at the linked
/// clips on other tracks; nothing is done where there is none.
pub open spec fn deleted_gap(
    tl: TimelineModel,
    index: usize,
    side: GapSide,
    locator: Option<ClipLocator>,
) -> Done {
    match locator {
        None => Err(no_place(index)),
        Some(loc) => {
            let i = loc.track_index as int;
            match gap_beside(tl, i, loc.child_index as int, side) {
                Err(m) => Ok((tl, "delete_gap: "@ + m + "; left timeline unchanged"@)),
                Ok(k) => {
                    let length = child_seconds(track_at(tl, i)->0.children[k]);
                    let closed = without_child(tl, i, k);
                    let group = match clip_at(tl, loc) {
                        Some(c) => link_group_of(c),
                        None => None,
                    };
                    let (out, n) = match group {
                        Some(g) => without_linked_gaps(
                            closed,
                            i,
                            g,
                            side,
                            closed.tracks.children.len() as int,
                        ),
                        None => (closed, 0nat),
                    };
                    Ok(
                        (
                            out,
                            "deleted "@ + side_name(side) + " gap ("@ + milli3(length) + (
                            if n == 0 {
                                "s) adjacent to anchor on track "@ + decimal(i as nat)
                            } else {
                                "s) on track "@ + decimal(i as nat) + " (cascaded to "@ + decimal(n)
                                    + " linked track"@ + plural(n) + ")"@
                            }),
                        ),
                    )
                },
            }
        },
    }
}

/// Takes out the empty time in front of or behind a clip.
pub fn apply_delete_gap(
    working: Timeline,
    index: usize,
    side: GapSide,
    locator: Option<ClipLocator>,
) -> (r: Result<(Timeline, String), ApplyError>)
    ensures
        shows(r, deleted_gap(working@, index, side, locator)),
{
    let loc = match required_locator(index, locator) {
        Ok(l) => l,
        Err(e) => {
            return Err(e);
        },
    };
    let group = match working.clip(loc) {
        Some(c) => clip_link_group_id(c),
        None => None,
    };
    let k: usize = match find_gap(&working, loc.track_index, loc.child_index, side) {
        Ok(k) => k,
        Err(m) => {
            return Ok(
                (working, cat3("delete_gap: ", m.as_str(), "; left timeline unchanged")),
            );
        },
    };
    let length = match working.track(loc.track_index) {
        Some(t) => child_duration(&t.children[k]),
        None => zero(),
    };
    let mut out = working;
    remove_child(&mut out, loc.track_index, k);
    let (out, n) = match &group {
        Some(g) => remove_linked_gaps(out, loc.track_index, g.as_str(), side),
        None => (out, 0usize),
    };
    let i = count_usize(loc.track_index);
    let tail = if n == 0 {
        cat2("s) adjacent to anchor on track ", i.as_str())
    } else {
        cat7(
            "s) on track ",
            i.as_str(),
            " (cascaded to ",
            count_usize(n).as_str(),
            " linked track",
            plural_of(n),
            ")",
        )
    };
    let said = cat5("deleted ", name_of_side(side), " gap (", fix3(length).as_str(), tail.as_str());
    Ok((out, said))
}

// ---- the tail of a track --------------------------------------------------

/// The names of the tracks among the first `n` layers.
pub open spec fn track_names(layers: Seq<StackChildModel>, n: int) -> Seq<Str>
    decreases n,
{
    if n <= 0 {
        Seq::empty()
    } else {
        match layers[n - 1] {
            StackChildModel::Track(t) => track_names(layers, n - 1).push(t.name),
            _ => track_names(layers, n - 1),
        }
    }
}

/// The names of the tracks.
pub fn list_track_names(timeline: &Timeline) -> (r: Vec<String>)
    ensures
        strs(r@) == track_names(
            timeline@.tracks.children,
            timeline@.tracks.children.len() as int,
        ),
{
    let ghost layers = timeline@.tracks.children;
    let mut out: Vec<String> = Vec::new();
    let mut i: usize = 0;
    assert(strs(out@) =~= track_names(layers, 0));
    while i < timeline.tracks.children.len()
        invariant
            i <= timeline@.tracks.children.len(),
            layers == timeline@.tracks.children,
            strs(out@) == track_names(layers, i as int),
        decreases layers.len() - i,
    {
        let ghost before = strs(out@);
        if let Some(t) = timeline.track(i) {
            out.push(t.name.clone());
            assert(strs(out@) =~= before.push(t@.name));
        }
        i = i + 1;
    }
    out
}

/// The tracks that there are, for a message on one that there is not.
pub open spec fn track_hint(tl: TimelineModel) -> Str {
    let names = track_names(tl.tracks.children, tl.tracks.children.len() as int);
    if names.len() == 0 {
        "; no tracks on the timeline"@
    } else {
        "; available tracks: "@ + joined(names, ", "@)
    }
}

fn hint_of_tracks(timeline: &Timeline) -> (r: String)
    ensures
        r@ == track_hint(timeline@),
{
    let names = list_track_names(timeline);
    assert(strs(names@).len() == names@.len());
    if names.len() == 0 {
        "; no tracks on the timeline".to_owned()
    } else {
        cat2("; available tracks: ", join(&names, ", ").as_str())
    }
}

/// What is left of children without the empty time at their end, with how many
/// stretches went and how long they were.
#[verifier::ext_equal]
pub struct Tail {
    pub children: Seq<TrackChildModel>,
    pub count: nat,
    pub total: Num,
}

/// The children without the empty time at their end.
pub open spec fn tail_cut(children: Seq<TrackChildModel>, count: nat, total: Num) -> Tail
    decreases children.len(),
{
    if children.len() > 0 && children.last() is Gap {
        tail_cut(children.drop_last(), count + 1, total.plus(child_seconds(children.last())))
    } else {
        Tail { children, count, total }
    }
}

/// Takes the empty time off the end of a track.
pub fn pop_trailing_gaps(track: &mut Track) -> (r: (usize, Num))
    ensures
        ({
            let cut = tail_cut(old(track)@.children, 0, zero());
            final(track)@ == with_children(old(track)@, cut.children) && r.0 == cut.count && r.1
                == cut.total
        }),
{
    let ghost t0 = track@;
    let ghost whole = tail_cut(track@.children, 0, zero());
    let size: usize = track.size();
    let mut count: usize = 0;
    let mut total = zero();
    let mut n: usize = size;
    assert(track@.children.take(n as int) =~= track@.children);
    while n > 0
        invariant
            n + count == size,
            size == track@.children.len(),
            track@ == t0,
            *track == *old(track),
            whole == tail_cut(t0.children, 0, zero()),
            whole == tail_cut(t0.children.take(n as int), count as nat, total),
        decreases n,
    {
        assert(t0.children.take(n as int).drop_last() =~= t0.children.take(n - 1));
        match &track.children[n - 1] {
            TrackChild::Gap(_) => {},
            _ => {
                track.splice(n, size, Vec::new());
                assert(track@.children =~= t0.children.take(n as int));
                return (count, total);
            },
        }
        total = total.plus(child_duration(&track.children[n - 1]));
        count = count + 1;
        n = n - 1;
    }
    track.splice(0, size, Vec::new());
    assert(track@.children =~= t0.children.take(0));
    (count, total)
}

/// The link group of the last clip in front of place `n`.
pub open spec fn last_group(children: Seq<TrackChildModel>, n: int) -> Option<Str>
    decreases n,
{
    if n <= 0 || n > children.len() {
        None
    } else {
        match children[n - 1] {
            TrackChildModel::Clip(c) => link_group_of(c),
            _ => last_group(children, n - 1),
        }
    }
}

/// The link group of the last clip on a track.
pub fn last_clip_link_group_id(track: &Track) -> (r: Option<String>)
    ensures
        opt(r) == last_group(track@.children, track@.children.len() as int),
{
    let mut n: usize = track.children.len();
    while n > 0
        invariant
            n <= track@.children.len(),
            last_group(track@.children, track@.children.len() as int) == last_group(
                track@.children,
                n as int,
            ),
        decreases n,
    {
        if let TrackChild::Clip(c) = &track.children[n - 1] {
            return clip_link_group_id(c);
        }
        n = n - 1;
    }
    None
}

/// Whether the last clip of a layer is of the group.
pub open spec fn ends_in_group(layer: StackChildModel, group: Str) -> bool {
    match layer {
        StackChildModel::Track(t) => last_group(t.children, t.children.len() as int) == Some(group),
        _ => false,
    }
}

/// The layers, but for one, whose last clip is of the group, without the empty
/// time at their end.
pub open spec fn tail_cut_layers(layers: Seq<StackChildModel>, but: int, group: Str) -> Seq<
    StackChildModel,
> {
    Seq::new(
        layers.len(),
        |i: int|
            if i != but && ends_in_group(layers[i], group) {
                StackChildModel::Track(
                    with_children(
                        layers[i]->Track_0,
                        tail_cut(layers[i]->Track_0.children, 0, zero()).children,
                    ),
                )
            } else {
                layers[i]
            },
    )
}

/// What is said of the tracks among the first `n` layers that lost empty time.
pub open spec fn tail_notes(layers: Seq<StackChildModel>, but: int, group: Str, n: int) -> Seq<Str>
    decreases n,
{
    if n <= 0 {
        Seq::empty()
    } else {
        let notes = tail_notes(layers, but, group, n - 1);
        if n - 1 != but && ends_in_group(layers[n - 1], group) {
            let t = layers[n - 1]->Track_0;
            let cut = tail_cut(t.children, 0, zero());
            if cut.count > 0 {
                notes.push(
                    quoted(t.name) + " ("@ + decimal(cut.count) + " gap"@ + plural(cut.count)
                        + ", "@ + milli3(cut.total) + "s)"@,
                )
            } else {
                notes
            }
        } else {
            notes
        }
    }
}

fn cut_linked_tails(working: Timeline, but: usize, group: &str) -> (r: (Timeline, Vec<String>))
    ensures
        r.0@ == with_layers(
            working@,
            tail_cut_layers(working@.tracks.children, but as int, group@),
        ),
        strs(r.1@) == tail_notes(
            working@.tracks.children,
            but as int,
            group@,
            working@.tracks.children.len() as int,
        ),
{
    let ghost layers = working@.tracks.children;
    let ghost done = tail_cut_layers(layers, but as int, group@);
    let mut out = working;
    let mut notes: Vec<String> = Vec::new();
    let mut i: usize = 0;
    assert(out@.tracks.children =~= done.take(0) + layers.skip(0));
    assert(strs(notes@) =~= tail_notes(layers, but as int, group@, 0));
    while i < out.tracks.children.len()
        invariant
            i <= out@.tracks.children.len(),
            out@.tracks.children.len() == layers.len(),
            layers == working@.tracks.children,
            done == tail_cut_layers(layers, but as int, group@),
            out@ == with_layers(working@, out@.tracks.children),
            out@.tracks.children == done.take(i as int) + layers.skip(i as int),
            strs(notes@) == tail_notes(layers, but as int, group@, i as int),
        decreases layers.len() - i,
    {
        assert(out@.tracks.children[i as int] == layers[i as int]);
        let mut changed: Option<Track> = None;
        if i != but {
            if let Some(t) = out.track(i) {
                let last = last_clip_link_group_id(t);
                if is_some_text(&last, group) {
                    changed = Some(t.copied());
                }
            }
        }
        if let Some(t) = changed {
            let mut t = t;
            let (n, total) = pop_trailing_gaps(&mut t);
            if n > 0 {
                let ghost before = strs(notes@);
                let note = cat7(
                    quote(t.name.as_str()).as_str(),
                    " (",
                    count_usize(n).as_str(),
                    " gap",
                    plural_of(n),
                    ", ",
                    fix3(total).as_str(),
                );
                let note = cat2(note.as_str(), "s)");
                notes.push(note);
                assert(strs(notes@) =~= before.push(note@));
            }
            out.put_track(i, t);
        }
        assert(out@.tracks.children =~= done.take(i + 1) + layers.skip(i + 1));
        i = i + 1;
    }
    assert(out@.tracks.children =~= done);
    (out, notes)
}

/// Taking the empty time off the end of a track, and off the tracks whose last
/// clip is linked to its last clip.
pub open spec fn trimmed_tail(tl: TimelineModel, index: usize, name: Str) -> Done {
    if is_blank(name) {
        Err(bad(index, "trim_track_tail: track must not be empty"@))
    } else {
        match track_named(tl, name) {
            None => Err(
                bad(index, "trim_track_tail: no track named "@ + quoted(name) + track_hint(tl)),
            ),
            Some(i) => {
                let t = track_at(tl, i)->0;
                let cut = tail_cut(t.children, 0, zero());
                let shorter = with_track(tl, i, with_children(t, cut.children));
                let layers = shorter.tracks.children;
                let (out, notes) = match last_group(t.children, t.children.len() as int) {
                    Some(g) => (
                        with_layers(shorter, tail_cut_layers(layers, i, g)),
                        tail_notes(layers, i, g, layers.len() as int),
                    ),
                    None => (shorter, Seq::empty()),
                };
                let said = "trim_track_tail: removed "@ + decimal(cut.count) + " trailing gap"@
                    + plural(cut.count) + " ("@ + milli3(cut.total) + "s) from track "@ + quoted(
                    name,
                );
                if cut.count == 0 && notes.len() == 0 {
                    Ok(
                        (
                            out,
                            "trim_track_tail: track "@ + quoted(name)
                                + " already ends in a clip; left timeline unchanged"@,
                        ),
                    )
                } else if notes.len() == 0 {
                    Ok((out, said))
                } else {
                    Ok(
                        (
                            out,
                            said + "; cascaded to linked tracks: "@ + joined(notes, ", "@),
                        ),
                    )
                }
            },
        }
    }
}

/// Takes the empty time off the end of a track.
pub fn apply_trim_track_tail(working: Timeline, index: usize, name: &str) -> (r: Result<
    (Timeline, String),
    ApplyError,
>)
    ensures
        shows(r, trimmed_tail(working@, index, name@)),
{
    if blank(name) {
        return Err(invalid_str(index, "trim_track_tail: track must not be empty"));
    }
    let i: usize = match working.find_track(name) {
        Some(i) => i,
        None => {
            return Err(
                invalid(
                    index,
                    cat3(
                        "trim_track_tail: no track named ",
                        quote(name).as_str(),
                        hint_of_tracks(&working).as_str(),
                    ),
                ),
            );
        },
    };
    let mut out = working;
    let mut track = out.track(i).unwrap().copied();
    let group = last_clip_link_group_id(&track);
    let (count, total) = pop_trailing_gaps(&mut track);
    out.put_track(i, track);
    let (out, notes) = match &group {
        Some(g) => cut_linked_tails(out, i, g.as_str()),
        None => (out, Vec::new()),
    };
    assert(strs(notes@).len() == notes@.len());
    assert(group is None ==> strs(notes@) =~= Seq::<Str>::empty());
    if count == 0 && notes.len() == 0 {
        let said = cat3(
            "trim_track_tail: track ",
            quote(name).as_str(),
            " already ends in a clip; left timeline unchanged",
        );
        return Ok((out, said));
    }
    let said = cat8(
        "trim_track_tail: removed ",
        count_usize(count).as_str(),
        " trailing gap",
        plural_of(count),
        " (",
        fix3(total).as_str(),
        "s) from track ",
        quote(name).as_str(),
    );
    if notes.len() == 0 {
        Ok((out, said))
    } else {
        let more = cat3(
            said.as_str(),
            "; cascaded to linked tracks: ",
            join(&notes, ", ").as_str(),
        );
        Ok((out, more))
    }
}

// ---- adding a track -------------------------------------------------------

/// The word for the kind of a track.
pub open spec fn kind_word(kind: TrackKind) -> Str {
    match kind {
        TrackKind::Video => "Video"@,
        TrackKind::Audio => "Audio"@,
    }
}

/// The word for the kind of a track.
pub fn word_of_kind(kind: TrackKind) -> (r: &'static str)
    ensures
        r@ == kind_word(kind),
{
    match kind {
        TrackKind::Video => "Video",
        TrackKind::Audio => "Audio",
    }
}

/// The kind of a new track: as asked for, else sound where the name begins with
/// an `a`.
pub open spec fn asked_kind(name: Str, kind: InsertTrackKind) -> TrackKind {
    match kind {
        InsertTrackKind::Video => TrackKind::Video,
        InsertTrackKind::Audio => TrackKind::Audio,
        InsertTrackKind::Auto => if begins_with(lowered(name), "a"@) {
            TrackKind::Audio
        } else {
            TrackKind::Video
        },
    }
}

fn resolve_kind(name: &str, kind: InsertTrackKind) -> (r: TrackKind)
    ensures
        r == asked_kind(name@, kind),
{
    match kind {
        InsertTrackKind::Video => TrackKind::Video,
        InsertTrackKind::Audio => TrackKind::Audio,
        InsertTrackKind::Auto => {
            let low = lower(name);
            if begins(low.as_str(), "a") {
                TrackKind::Audio
            } else {
                TrackKind::Video
            }
        },
    }
}

/// Whether a layer is a track of the kind.
pub open spec fn of_kind(layer: StackChildModel, kind: TrackKind) -> bool {
    layer matches StackChildModel::Track(t) && t.kind == kind
}

/// How many of the first `n` layers are tracks of the kind.
pub open spec fn kind_count(layers: Seq<StackChildModel>, kind: TrackKind, n: int) -> nat
    decreases n,
{
    if n <= 0 {
        0
    } else {
        kind_count(layers, kind, n - 1) + (if of_kind(layers[n - 1], kind) {
            1nat
        } else {
            0nat
        })
    }
}

/// The place right behind the last track of the kind in front of place `n`, else
/// `none`.
pub open spec fn behind_last(layers: Seq<StackChildModel>, kind: TrackKind, n: int, none: int) -> int
    decreases n,
{
    if n <= 0 {
        none
    } else if of_kind(layers[n - 1], kind) {
        n
    } else {
        behind_last(layers, kind, n - 1, none)
    }
}

/// The number of layers up to and with the track of the kind with number `k`
/// among its kind; all where there are not so many.  Looked for from layer `i`
/// on.
pub open spec fn up_to_kind(layers: Seq<StackChildModel>, kind: TrackKind, k: nat, i: int) -> int
    decreases layers.len() - i,
{
    if i < 0 || i >= layers.len() {
        layers.len() as int
    } else if of_kind(layers[i], kind) && kind_count(layers, kind, i) == k {
        i + 1
    } else {
        up_to_kind(layers, kind, k, i + 1)
    }
}

/// The place of a new track: right behind the track with the given number among
/// its kind, else behind the last of its kind, else behind all layers.
pub open spec fn new_track_place(
    layers: Seq<StackChildModel>,
    kind: TrackKind,
    at_position: Option<usize>,
) -> int {
    let n = match at_position {
        Some(k) => up_to_kind(layers, kind, k as nat, 0),
        None => layers.len() as int,
    };
    behind_last(layers, kind, n, layers.len() as int)
}

fn find_new_track_place(working: &Timeline, kind: TrackKind, at_position: Option<usize>) -> (r: usize)
    ensures
        r == new_track_place(working@.tracks.children, kind, at_position),
        r <= working@.tracks.children.len(),
{
    let ghost layers = working@.tracks.children;
    let size: usize = working.size();
    let mut last: usize = size;
    let mut seen: usize = 0;
    let mut i: usize = 0;
    while i < size
        invariant
            i <= size,
            size == working@.tracks.children.len(),
            layers == working@.tracks.children,
            seen == kind_count(layers, kind, i as int),
            seen <= i,
            last <= size,
            last == behind_last(layers, kind, i as int, size as int),
            at_position matches Some(k) ==> up_to_kind(layers, kind, k as nat, 0) == up_to_kind(
                layers,
                kind,
                k as nat,
                i as int,
            ),
        decreases size - i,
    {
        let hit = match working.track(i) {
            Some(t) => t.kind == kind,
            None => false,
        };
        if hit {
            last = i + 1;
            if let Some(k) = at_position {
                if seen == k {
                    return last;
                }
            }
            seen = seen + 1;
        }
        i = i + 1;
    }
    last
}

/// Adding a track without children; nothing is done where one of the name and
/// kind is there already.
pub open spec fn inserted_track(
    tl: TimelineModel,
    index: usize,
    name: Str,
    kind: InsertTrackKind,
    at_position: Option<usize>,
) -> Done {
    let name = trimmed(name);
    let kind = asked_kind(name, kind);
    if name.len() == 0 {
        Err(bad(index, "insert_track: name must not be empty"@))
    } else {
        match track_named(tl, name) {
            Some(i) => if track_at(tl, i)->0.kind == kind {
                Ok(
                    (
                        tl,
                        "insert_track: track "@ + quoted(name)
                            + " already exists; left timeline unchanged"@,
                    ),
                )
            } else {
                Err(
                    bad(
                        index,
                        "insert_track: track "@ + quoted(name) + " exists as "@ + kind_word(
                            track_at(tl, i)->0.kind,
                        ) + ", cannot recreate as "@ + kind_word(kind),
                    ),
                )
            },
            None => {
                let at = new_track_place(tl.tracks.children, kind, at_position);
                Ok(
                    (
                        with_layers(
                            tl,
                            tl.tracks.children.insert(
                                at,
                                StackChildModel::Track(empty_track(name, kind)),
                            ),
                        ),
                        "insert_track: added "@ + quoted(name) + " ("@ + kind_word(kind)
                            + ") at stack index "@ + decimal(at as nat),
                    ),
                )
            },
        }
    }
}

/// Adds a track without children.
pub fn apply_insert_track(
    working: Timeline,
    index: usize,
    name: &str,
    kind: InsertTrackKind,
    at_position: Option<usize>,
) -> (r: Result<(Timeline, String), ApplyError>)
    ensures
        shows(r, inserted_track(working@, index, name@, kind, at_position)),
{
    let name = trim(name);
    let kind = resolve_kind(name.as_str(), kind);
    if name.as_str().is_empty() {
        return Err(invalid_str(index, "insert_track: name must not be empty"));
    }
    if let Some(i) = working.find_track(name.as_str()) {
        if let Some(t) = working.track(i) {
            if t.kind == kind {
                let said = cat3(
                    "insert_track: track ",
                    quote(name.as_str()).as_str(),
                    " already exists; left timeline unchanged",
                );
                return Ok((working, said));
            }
            return Err(
                invalid(
                    index,
                    cat6(
                        "insert_track: track ",
                        quote(name.as_str()).as_str(),
                        " exists as ",
                        word_of_kind(t.kind),
                        ", cannot recreate as ",
                        word_of_kind(kind),
                    ),
                ),
            );
        }
    }
    let at: usize = find_new_track_place(&working, kind, at_position);
    let mut out = working;
    out.insert_track(at, Track::empty(name.as_str(), kind));
    let said = cat6(
        "insert_track: added ",
        quote(name.as_str()).as_str(),
        " (",
        word_of_kind(kind),
        ") at stack index ",
        count_usize(at).as_str(),
    );
    Ok((out, said))
}

// ---- removing a track -----------------------------------------------------

/// How many of the first `n` children are no empty time.
pub open spec fn solid_count(children: Seq<TrackChildModel>, n: int) -> nat
    decreases n,
{
    if n <= 0 {
        0
    } else {
        solid_count(children, n - 1) + (if children[n - 1] is Gap {
            0nat
        } else {
            1nat
        })
    }
}

fn count_solid(track: &Track) -> (r: usize)
    ensures
        r == solid_count(track@.children, track@.children.len() as int),
{
    let mut count: usize = 0;
    let mut i: usize = 0;
    while i < track.children.len()
        invariant
            i <= track@.children.len(),
            count == solid_count(track@.children, i as int),
            count <= i,
        decreases track@.children.len() - i,
    {
        match &track.children[i] {
            TrackChild::Gap(_) => {},
            _ => {
                count = count + 1;
            },
        }
        i = i + 1;
    }
    count
}

/// The label of a kind of track.
pub open spec fn kind_label(kind: TrackKind) -> Str {
    match kind {
        TrackKind::Video => "video"@,
        TrackKind::Audio => "audio"@,
    }
}

/// Taking a track out; one with more than empty time on it only by force.
pub open spec fn deleted_track(tl: TimelineModel, index: usize, name: Str, force: bool) -> Done {
    let name = trimmed(name);
    if name.len() == 0 {
        Err(bad(index, "delete_track: name must not be empty"@))
    } else {
        match track_named(tl, name) {
            None => Err(
                bad(index, "delete_track: no track named "@ + quoted(name) + track_hint(tl)),
            ),
            Some(i) => {
                let t = track_at(tl, i)->0;
                let n = solid_count(t.children, t.children.len() as int);
                if n > 0 && !force {
                    Err(
                        bad(
                            index,
                            "delete_track: track "@ + quoted(name) + " has "@ + decimal(n)
                                + " clip(s); refusing to delete without `force: true`. Move clips off the track first or pass `+ force: true` if intentional."@,
                        ),
                    )
                } else {
                    Ok(
                        (
                            with_layers(tl, tl.tracks.children.remove(i)),
                            "delete_track: removed "@ + kind_label(t.kind) + " track "@ + quoted(
                                name,
                            ) + " (had "@ + decimal(n) + " clip"@ + plural(n) + ")"@,
                        ),
                    )
                }
            },
        }
    }
}

/// Takes a track out.
pub fn apply_delete_track(working: Timeline, index: usize, name: &str, force: bool) -> (r: Result<
    (Timeline, String),
    ApplyError,
>)
    ensures
        shows(r, deleted_track(working@, index, name@, force)),
{
    let name = trim(name);
    if name.as_str().is_empty() {
        return Err(invalid_str(index, "delete_track: name must not be empty"));
    }
    let i: usize = match working.find_track(name.as_str()) {
        Some(i) => i,
        None => {
            return Err(
                invalid(
                    index,
                    cat3(
                        "delete_track: no track named ",
                        quote(name.as_str()).as_str(),
                        hint_of_tracks(&working).as_str(),
                    ),
                ),
            );
        },
    };
    let mut n: usize = 0;
    let mut label: &str = "video";
    if let Some(t) = working.track(i) {
        n = count_solid(t);
        label = match t.kind {
            TrackKind::Video => "video",
            TrackKind::Audio => "audio",
        };
    }
    if n > 0 && !force {
        return Err(
            invalid(
                index,
                cat5(
                    "delete_track: track ",
                    quote(name.as_str()).as_str(),
                    " has ",
                    count_usize(n).as_str(),
                    " clip(s); refusing to delete without `force: true`. Move clips off the track first or pass `+ force: true` if intentional.",
                ),
            ),
        );
    }
    let mut out = working;
    out.remove_layer(i);
    let said = cat8(
        "delete_track: removed ",
        label,
        " track ",
        quote(name.as_str()).as_str(),
        " (had ",
        count_usize(n).as_str(),
        " clip",
        plural_of(n),
    );
    Ok((out, cat2(said.as_str(), ")")))
}

} // verus!

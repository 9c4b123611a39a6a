//! Putting a new clip on a track.
use vstd::prelude::*;

use crate::clip::{
    clip_link_group_id, empty_clip, first_where, is_some_text, link_group_of, media_at,
    stamp_clip_uuid, stamp_link_group_id, with_link_group, with_uuid,
};
use crate::edit::{
    child_duration, empty_track, gap_child, gap_of, start_of, track_at, track_cursor, track_named,
    with_children, with_layers, with_track,
};
use crate::error::{bad, invalid, shows, ApplyError, Done, Refusal};
use crate::mint::{drew, fresh, ClipIds};
use crate::model::{
    opt, Clip, ClipModel, ExternalReference, MediaReference, StackChildModel, Stored, TimeRange,
    Timeline, TimelineModel, Track, TrackChild, TrackChildModel, TrackKind, TrackModel,
};
use crate::num::{milli, one, rate24, zero, Num};
use crate::op::{InsertTrackKind, SnapOptions};
use crate::path::{file_stem, stem_of_path};
use crate::snap::{resolve_snap_time, snapped};
use crate::text::{
    begins, begins_with, cat13, cat2, cat5, count, count_usize, decimal, fix3, lower, lowered,
    milli3, quote, quoted, same, show, shown, trim, trimmed, Str,
};
use crate::trim::or_else;

verus! {

// ---- names ----------------------------------------------------------------

/// The name of a child, where it is a clip.
pub open spec fn child_name(c: TrackChildModel) -> Option<Str> {
    match c {
        TrackChildModel::Clip(c) => Some(c.name),
        _ => None,
    }
}

/// The names of the clips among some children.
pub open spec fn clip_names(children: Seq<TrackChildModel>) -> Seq<Option<Str>> {
    Seq::new(children.len(), |i: int| child_name(children[i]))
}

/// Whether a clip with the name stands on the track.
pub open spec fn name_used(t: TrackModel, name: Str) -> bool {
    clip_names(t.children).contains(Some(name))
}

fn is_name_used(track: &Track, name: &str) -> (r: bool)
    ensures
        r == name_used(track@, name@),
{
    let ghost names = clip_names(track@.children);
    let mut i: usize = 0;
    while i < track.children.len()
        invariant
            i <= track@.children.len(),
            names == clip_names(track@.children),
            forall|j: int| 0 <= j < i ==> names[j] != Some(name@),
        decreases track@.children.len() - i,
    {
        assert(names[i as int] == child_name(track@.children[i as int]));
        if let TrackChild::Clip(c) = &track.children[i] {
            if same(c.name.as_str(), name) {
                assert(names[i as int] == Some(name@));
                return true;
            }
        }
        i = i + 1;
    }
    false
}

/// The first number from `i` on, among `left` in a row, whose name is free; the
/// number behind them where none is.
pub open spec fn free_number(t: TrackModel, prefix: Str, i: nat, left: nat) -> nat
    decreases left,
{
    if left == 0 || !name_used(t, prefix + decimal(i)) {
        i
    } else {
        free_number(t, prefix, i + 1, (left - 1) as nat)
    }
}

/// A numbered name that no clip on the track has yet.
pub open spec fn free_name(t: TrackModel, prefix: Str, first: nat) -> Str {
    prefix + decimal(free_number(t, prefix, first, t.children.len()))
}

fn find_free_name(track: &Track, prefix: &str, first: u8) -> (r: String)
    ensures
        r@ == free_name(track@, prefix@, first as nat),
{
    let n: usize = track.children.len();
    let mut k: usize = 0;
    while k < n && is_name_used(track, cat2(prefix, count(first as u128 + k as u128).as_str()).as_str())
        invariant
            k <= n,
            n == track@.children.len(),
            free_number(track@, prefix@, first as nat, n as nat) == free_number(
                track@,
                prefix@,
                (first + k) as nat,
                (n - k) as nat,
            ),
        decreases n - k,
    {
        k = k + 1;
    }
    cat2(prefix, count(first as u128 + k as u128).as_str())
}

/// The name of a new clip: the stem of its file, numbered from 2 on where the
/// name is taken; without a stem `clip-` and a number from 0 on.
pub open spec fn default_name(t: TrackModel, asset: Str) -> Str {
    match file_stem(asset) {
        Some(s) if trimmed(s).len() > 0 => if name_used(t, trimmed(s)) {
            free_name(t, trimmed(s) + "-"@, 2)
        } else {
            trimmed(s)
        },
        _ => free_name(t, "clip-"@, 0),
    }
}

/// The next `clip-` name on a track.
pub fn next_clip_name_in_track(track: &Track) -> (r: String)
    ensures
        r@ == free_name(track@, "clip-"@, 0),
{
    find_free_name(track, "clip-", 0)
}

/// The name of a new clip.
pub fn default_clip_name_for_asset(track: &Track, asset: &str) -> (r: String)
    ensures
        r@ == default_name(track@, asset@),
{
    match stem_of_path(asset) {
        Some(s) => {
            let stem = trim(s.as_str());
            if stem.as_str().is_empty() {
                return next_clip_name_in_track(track);
            }
            if is_name_used(track, stem.as_str()) {
                find_free_name(track, cat2(stem.as_str(), "-").as_str(), 2)
            } else {
                stem
            }
        },
        None => next_clip_name_in_track(track),
    }
}

// ---- tracks ---------------------------------------------------------------

/// The kind of a new track: as asked for, else guessed from the name.
pub open spec fn inferred_kind(name: Str, hint: Option<InsertTrackKind>) -> TrackKind {
    match hint {
        Some(InsertTrackKind::Video) => TrackKind::Video,
        Some(InsertTrackKind::Audio) => TrackKind::Audio,
        _ => {
            let n = lowered(trimmed(name));
            if n == "a1"@ || begins_with(n, "a "@) || begins_with(n, "a-"@) || begins_with(
                n,
                "audio"@,
            ) || begins_with(n, "music"@) {
                TrackKind::Audio
            } else {
                TrackKind::Video
            }
        },
    }
}

/// The kind of a new track.
pub fn infer_insert_track_kind(track_name: &str, hint: Option<InsertTrackKind>) -> (r: TrackKind)
    ensures
        r == inferred_kind(track_name@, hint),
{
    match hint {
        Some(InsertTrackKind::Video) => TrackKind::Video,
        Some(InsertTrackKind::Audio) => TrackKind::Audio,
        _ => {
            let trimmed_name = trim(track_name);
            let low = lower(trimmed_name.as_str());
            let n = low.as_str();
            if same(n, "a1") || begins(n, "a ") || begins(n, "a-") || begins(n, "audio") || begins(
                n,
                "music",
            ) {
                TrackKind::Audio
            } else {
                TrackKind::Video
            }
        },
    }
}

/// The timeline with a track of the name, which is put behind the others where
/// there is none, and the place of that track.
pub open spec fn with_track_named(tl: TimelineModel, name: Str, kind: TrackKind) -> (
    TimelineModel,
    int,
) {
    match track_named(tl, name) {
        Some(i) => (tl, i),
        None => (
            with_layers(
                tl,
                tl.tracks.children.push(StackChildModel::Track(empty_track(name, kind))),
            ),
            tl.tracks.children.len() as int,
        ),
    }
}

/// Finds the track of the name, or puts one behind the others.
pub fn find_or_add_track(working: Timeline, name: &str, kind: TrackKind) -> (r: (Timeline, usize))
    ensures
        (r.0@, r.1 as int) == with_track_named(working@, name@, kind),
        r.1 < r.0@.tracks.children.len(),
        track_at(r.0@, r.1 as int) is Some,
{
    match working.find_track(name) {
        Some(i) => (working, i),
        None => {
            let mut out = working;
            let i: usize = out.size();
            out.push_track(Track::empty(name, kind));
            (out, i)
        },
    }
}

/// Whether a clip of the group stands at the child.
pub open spec fn in_group(group: Str) -> spec_fn(TrackChildModel) -> bool {
    |c: TrackChildModel|
        match c {
            TrackChildModel::Clip(c) => link_group_of(c) == Some(group),
            _ => false,
        }
}

/// The start of the first clip of the group on a track of the kind, from layer
/// `at` on.
pub open spec fn linked_start_from(
    tl: TimelineModel,
    group: Str,
    kind: TrackKind,
    at: int,
) -> Option<Num>
    decreases tl.tracks.children.len() - at,
{
    if at < 0 || at >= tl.tracks.children.len() {
        None
    } else {
        match track_at(tl, at) {
            Some(t) if t.kind == kind && first_where(t.children, in_group(group), 0) is Some => Some(
                start_of(t.children, first_where(t.children, in_group(group), 0)->0),
            ),
            _ => linked_start_from(tl, group, kind, at + 1),
        }
    }
}

/// The place of the first clip of the group on a track.
pub fn find_in_group(track: &Track, group_id: &str) -> (r: Option<usize>)
    ensures
        match r {
            Some(j) => first_where(track@.children, in_group(group_id@), 0) == Some(j as int),
            None => first_where(track@.children, in_group(group_id@), 0) is None,
        },
{
    let ghost p = in_group(group_id@);
    let mut j: usize = 0;
    while j < track.children.len()
        invariant
            j <= track@.children.len(),
            p == in_group(group_id@),
            first_where(track@.children, p, 0) == first_where(track@.children, p, j as int),
        decreases track@.children.len() - j,
    {
        if let TrackChild::Clip(c) = &track.children[j] {
            let group = clip_link_group_id(c);
            if is_some_text(&group, group_id) {
                return Some(j);
            }
        }
        j = j + 1;
    }
    None
}

/// The start of the first clip of the group on a track of the kind.
pub fn linked_clip_track_time(timeline: &Timeline, link_group_id: &str, kind: TrackKind) -> (r:
    Option<Num>)
    ensures
        r == linked_start_from(timeline@, link_group_id@, kind, 0),
{
    let mut i: usize = 0;
    while i < timeline.tracks.children.len()
        invariant
            i <= timeline@.tracks.children.len(),
            linked_start_from(timeline@, link_group_id@, kind, 0) == linked_start_from(
                timeline@,
                link_group_id@,
                kind,
                i as int,
            ),
        decreases timeline@.tracks.children.len() - i,
    {
        if let Some(t) = timeline.track(i) {
            if t.kind == kind {
                if let Some(j) = find_in_group(t, link_group_id) {
                    return Some(crate::edit::start_time(t, j));
                }
            }
        }
        i = i + 1;
    }
    None
}

// ---- the insert -----------------------------------------------------------

/// The first child, from `from` on, that begins within a thousandth of a time.
pub open spec fn child_at_time(children: Seq<TrackChildModel>, time: Num, from: int) -> Option<int>
    decreases children.len() - from,
{
    if from < 0 || from >= children.len() {
        None
    } else if start_of(children, from).minus(time).size().at_most(milli()) {
        Some(from)
    } else {
        child_at_time(children, time, from + 1)
    }
}

/// The children, padded with empty time up to a time where they end before it.
pub open spec fn padded_to(children: Seq<TrackChildModel>, time: Num) -> Seq<TrackChildModel> {
    let end = start_of(children, children.len() as int);
    if end.plus(milli()).less(time) {
        children.push(gap_of(time.minus(end), rate24()))
    } else {
        children
    }
}

/// Pads a track with empty time up to a time where it ends before it.
pub fn pad_to(track: &mut Track, time: Num)
    ensures
        final(track)@ == with_children(old(track)@, padded_to(old(track)@.children, time)),
{
    let end = track_cursor(track);
    if end.plus(milli()).less(time) {
        track.push(gap_child(time.minus(end), rate24()));
    }
}

/// The last of the first `n` children that begins at a time or before it.
pub open spec fn last_before(children: Seq<TrackChildModel>, time: Num, n: int) -> int
    decreases n,
{
    if n <= 0 {
        0
    } else if start_of(children, n - 1).at_most(time) {
        n - 1
    } else {
        last_before(children, time, n - 1)
    }
}

/// The children among which a new clip is put at a time, and its place among
/// them: at the child that begins at the time; behind all, and behind empty time
/// where it takes some, if the children end at the time or before it; else at the
/// nearest edge before the time.
pub open spec fn place_at_time(children: Seq<TrackChildModel>, time: Num) -> (
    Seq<TrackChildModel>,
    int,
) {
    match child_at_time(children, time, 0) {
        Some(i) => (children, i),
        None => {
            let n = children.len() as int;
            let end = start_of(children, n);
            if end.plus(milli()).less(time) || end.minus(time).at_most(milli()) {
                (padded_to(children, time), padded_to(children, time).len() as int)
            } else {
                (children, last_before(children, time, n))
            }
        },
    }
}

/// The children among which a new clip is put, and its place among them: at the
/// time asked for; else at the position asked for; else at the end.
pub open spec fn insert_place(
    children: Seq<TrackChildModel>,
    at_s: Option<Num>,
    linked_start: Option<Num>,
    at_position: Option<usize>,
) -> (Seq<TrackChildModel>, int) {
    match at_s {
        Some(time) => place_at_time(children, time),
        None => {
            let filled = match linked_start {
                Some(time) => padded_to(children, time),
                None => children,
            };
            match at_position {
                Some(p) if p <= filled.len() => (filled, p as int),
                _ => (filled, filled.len() as int),
            }
        },
    }
}

fn find_insert_place(
    track: &mut Track,
    at_s: Option<Num>,
    linked_start: Option<Num>,
    at_position: Option<usize>,
) -> (r: usize)
    ensures
        final(track)@ == with_children(
            old(track)@,
            insert_place(old(track)@.children, at_s, linked_start, at_position).0,
        ),
        r == insert_place(old(track)@.children, at_s, linked_start, at_position).1,
        r <= final(track)@.children.len(),
{
    let ghost children = track@.children;
    match at_s {
        Some(time) => {
            let mut i: usize = 0;
            let mut last: usize = 0;
            let mut cursor_s = zero();
            while i < track.children.len()
                invariant
                    i <= children.len(),
                    last <= i,
                    last == last_before(children, time, i as int),
                    track@.children == children,
                    *track == *old(track),
                    cursor_s == start_of(children, i as int),
                    child_at_time(children, time, 0) == child_at_time(children, time, i as int),
                    at_s == Some(time),
                decreases children.len() - i,
            {
                if cursor_s.minus(time).size().at_most(milli()) {
                    assert(track@ == with_children(track@, children));
                    return i;
                }
                if cursor_s.at_most(time) {
                    last = i;
                }
                cursor_s = cursor_s.plus(child_duration(&track.children[i]));
                i = i + 1;
            }
            if cursor_s.plus(milli()).less(time) || cursor_s.minus(time).at_most(milli()) {
                pad_to(track, time);
                track.size()
            } else {
                assert(track@ == with_children(track@, children));
                last
            }
        },
        None => {
            if let Some(time) = linked_start {
                pad_to(track, time);
            } else {
                assert(track@ == with_children(track@, children));
            }
            match at_position {
                Some(p) => if p <= track.size() {
                    p
                } else {
                    track.size()
                },
                None => track.size(),
            }
        },
    }
}

/// What is asked of a new clip.
#[derive(Debug)]
pub struct InsertRequest {
    pub asset: String,
    pub track: String,
    pub track_kind: Option<InsertTrackKind>,
    pub at_position: Option<usize>,
    pub at_s: Option<Num>,
    pub start: Option<Num>,
    pub end: Option<Num>,
    pub name: Option<String>,
    pub link_group_id: Option<String>,
    pub snap: Option<SnapOptions>,
}

/// What an [`InsertRequest`] holds.
#[verifier::ext_equal]
pub struct InsertRequestModel {
    pub asset: Str,
    pub track: Str,
    pub track_kind: Option<InsertTrackKind>,
    pub at_position: Option<usize>,
    pub at_s: Option<Num>,
    pub start: Option<Num>,
    pub end: Option<Num>,
    pub name: Option<Str>,
    pub link_group_id: Option<Str>,
    pub snap: Option<SnapOptions>,
}

impl View for InsertRequest {
    type V = InsertRequestModel;

    open spec fn view(&self) -> InsertRequestModel {
        InsertRequestModel {
            asset: self.asset@,
            track: self.track@,
            track_kind: self.track_kind,
            at_position: self.at_position,
            at_s: self.at_s,
            start: self.start,
            end: self.end,
            name: opt(self.name),
            link_group_id: opt(self.link_group_id),
            snap: self.snap,
        }
    }
}

/// The new clip of an insert.
pub open spec fn new_clip(name: Str, asset: Str, start: Num, end: Num, id: Str, group: Option<Str>) -> ClipModel {
    let c = with_uuid(
        ClipModel {
            media_reference: media_at(asset),
            source_range: Some(TimeRange::seconds(start, end.minus(start), rate24())),
            ..empty_clip(name)
        },
        id,
    );
    match group {
        Some(g) => with_link_group(c, g),
        None => c,
    }
}

/// Where the time asked for snaps to.
pub open spec fn snapped_opt(
    tl: TimelineModel,
    index: usize,
    at_s: Option<Num>,
    snap: Option<SnapOptions>,
) -> Result<Option<Num>, Refusal> {
    match at_s {
        None => Ok(None),
        Some(t) => match snapped(tl, index, t, snap) {
            Ok(s) => Ok(Some(s)),
            Err(e) => Err(e),
        },
    }
}

/// Where the time asked for snaps to.
pub fn snap_opt(
    timeline: &Timeline,
    index: usize,
    at_s: Option<Num>,
    snap: &Option<SnapOptions>,
) -> (r: Result<Option<Num>, ApplyError>)
    ensures
        match r {
            Ok(t) => snapped_opt(timeline@, index, at_s, *snap) == Ok::<Option<Num>, Refusal>(t),
            Err(e) => snapped_opt(timeline@, index, at_s, *snap) == Err::<Option<Num>, Refusal>(
                e@,
            ),
        },
{
    match at_s {
        None => Ok(None),
        Some(t) => match resolve_snap_time(timeline, index, t, snap) {
            Ok(s) => Ok(Some(s)),
            Err(e) => Err(e),
        },
    }
}

/// Putting a new clip on a track, which is made where there is none of the name.
/// A linked clip on a sound track goes behind empty time up to the start of its
/// picture.  `id` is the unique id that the clip gets.
pub open spec fn inserted_clip(tl: TimelineModel, index: usize, q: InsertRequestModel, id: Str) -> Done {
    match snapped_opt(tl, index, q.at_s, q.snap) {
        Err(e) => Err(e),
        Ok(at_s) => {
            let start = or_else(q.start, zero());
            let end = or_else(q.end, start.plus(one()));
            if end.at_most(start) {
                Err(
                    bad(
                        index,
                        "insert: end "@ + milli3(end) + "s must be > start "@ + milli3(start)
                            + "s. Pass `+ start: <s>` and `+ end: <s>` (in source-media seconds). Use inspect_clip on the asset first to see its duration."@,
                    ),
                )
            } else if at_s matches Some(t) && (!t.is_finite() || t.less(zero())) {
                Err(
                    bad(
                        index,
                        "insert: at_s must be a finite non-negative timeline time, got "@ + shown(
                            at_s->0,
                        ),
                    ),
                )
            } else {
                let (tl, k) = with_track_named(tl, q.track, inferred_kind(q.track, q.track_kind));
                let t = track_at(tl, k)->0;
                let linked_start = match q.link_group_id {
                    Some(g) if q.at_position is None && at_s is None && t.kind
                        == TrackKind::Audio => linked_start_from(tl, g, TrackKind::Video, 0),
                    _ => None,
                };
                let (children, place) = insert_place(
                    t.children,
                    at_s,
                    linked_start,
                    q.at_position,
                );
                let name = match q.name {
                    Some(n) => n,
                    None => default_name(with_children(t, children), q.asset),
                };
                let clip = new_clip(name, q.asset, start, end, id, q.link_group_id);
                Ok(
                    (
                        with_track(
                            tl,
                            k,
                            with_children(t, children.insert(place, TrackChildModel::Clip(clip))),
                        ),
                        "inserted clip "@ + quoted(name) + " on track "@ + quoted(q.track)
                            + " at position "@ + decimal(place as nat) + ": asset="@ + quoted(
                            q.asset,
                        ) + " source=["@ + milli3(start) + "s.."@ + milli3(end) + "s] ("@ + milli3(
                            end.minus(start),
                        ) + "s)"@,
                    ),
                )
            }
        },
    }
}

/// Puts a new clip on a track.
pub fn apply_insert_clip(working: Timeline, index: usize, q: &InsertRequest, ids: &mut ClipIds) -> (r:
    Result<(Timeline, String), ApplyError>)
    ensures
        drew(
            *old(ids),
            *final(ids),
            if r is Ok {
                1
            } else {
                0
            },
        ),
        shows(r, inserted_clip(working@, index, q@, fresh(*old(ids), *final(ids))[0])),
{
    let at_s = match snap_opt(&working, index, q.at_s, &q.snap) {
        Ok(t) => t,
        Err(e) => {
            return Err(e);
        },
    };
    let start = or_else(q.start, zero());
    let end = or_else(q.end, start.plus(one()));
    if end.at_most(start) {
        return Err(
            invalid(
                index,
                cat5(
                    "insert: end ",
                    fix3(end).as_str(),
                    "s must be > start ",
                    fix3(start).as_str(),
                    "s. Pass `+ start: <s>` and `+ end: <s>` (in source-media seconds). Use inspect_clip on the asset first to see its duration.",
                ),
            ),
        );
    }
    if let Some(t) = at_s {
        if !t.is_finite() || t.less(zero()) {
            return Err(
                invalid(
                    index,
                    cat2(
                        "insert: at_s must be a finite non-negative timeline time, got ",
                        show(t).as_str(),
                    ),
                ),
            );
        }
    }
    let kind = infer_insert_track_kind(q.track.as_str(), q.track_kind);
    let (out, k) = find_or_add_track(working, q.track.as_str(), kind);
    let mut out = out;
    let mut track = out.track(k).unwrap().copied();
    let linked_start = match &q.link_group_id {
        Some(g) => if q.at_position.is_none() && at_s.is_none() && track.kind == TrackKind::Audio {
            linked_clip_track_time(&out, g.as_str(), TrackKind::Video)
        } else {
            None
        },
        None => None,
    };
    let place: usize = find_insert_place(&mut track, at_s, linked_start, q.at_position);
    let name = match &q.name {
        Some(n) => n.clone(),
        None => default_clip_name_for_asset(&track, q.asset.as_str()),
    };
    let mut clip = Clip::empty(name.as_str());
    clip.media_reference = MediaReference::External(ExternalReference::new(q.asset.as_str()));
    clip.source_range = Some(TimeRange::seconds(start, end.minus(start), rate24()));
    let id = ids.draw();
    stamp_clip_uuid(&mut clip, id.as_str());
    if let Some(g) = &q.link_group_id {
        stamp_link_group_id(&mut clip, g.as_str());
    }
    track.insert(place, TrackChild::Clip(clip));
    out.put_track(k, track);
    let said = cat13(
        "inserted clip ",
        quote(name.as_str()).as_str(),
        " on track ",
        quote(q.track.as_str()).as_str(),
        " at position ",
        count_usize(place).as_str(),
        ": asset=",
        quote(q.asset.as_str()).as_str(),
        " source=[",
        fix3(start).as_str(),
        "s..",
        fix3(end).as_str(),
        "s] (",
    );
    Ok((out, crate::text::cat3(said.as_str(), fix3(end.minus(start)).as_str(), "s)")))
}

} // verus!

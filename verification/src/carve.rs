//! Taking a stretch of time out of tracks, or writing over it.
use vstd::prelude::*;

use crate::clip::{empty_clip, media_at, stamp_clip_uuid, with_range, with_uuid};
use crate::edit::{
    child_duration, child_seconds, gap_child, gap_of, track_at, with_children, with_layers,
    with_track,
};
use crate::error::{bad, checks, invalid, invalid_str, shows, ApplyError, Done, Refusal};
use crate::gap::{as_clip_rate, merge_adjacent_gaps, merged_all};
use crate::insert::{
    apply_insert_clip, find_or_add_track, infer_insert_track_kind, inferred_kind, inserted_clip,
    with_track_named, InsertRequest, InsertRequestModel,
};
use crate::mint::{drew, fresh, lemma_drew, ClipIds};
use crate::model::{
    opt, views, Clip, ClipModel, ExternalReference, MediaReference, StackChildModel, Stored,
    TimeRange, Timeline, TimelineModel, Track, TrackChild, TrackChildModel, TrackModel,
};
use crate::move_clip::first_rate;
use crate::num::{micro, rate24, zero, Num};
use crate::op::{InsertTrackKind, SourceRange};
use crate::text::{
    blank, cat2, cat4, cat6, cat8, cat9, count_usize, debug_num, debugged, decimal, fix3, holds,
    is_blank, milli3, quote, quote_list, quoted, quoted_list, strs, Str,
};

verus! {

// ---- one track ------------------------------------------------------------

/// What goes in place of a stretch that is taken out.
pub enum Filler {
    /// Empty time, counted at the rate.
    Empty(Num),
    /// Nothing: what is behind moves up.
    Nothing,
    /// A clip.
    With(Clip),
}

/// What a [`Filler`] holds.
#[verifier::ext_equal]
pub enum Fill {
    Empty(Num),
    Nothing,
    With(ClipModel),
}

impl View for Filler {
    type V = Fill;

    open spec fn view(&self) -> Fill {
        match *self {
            Filler::Empty(rate) => Fill::Empty(rate),
            Filler::Nothing => Fill::Nothing,
            Filler::With(c) => Fill::With(c@),
        }
    }
}

/// A part of a clip or of empty time that begins at `start`, from one time to
/// another; the part of a clip gets a name and an id of its own where one is
/// given.  Nothing is left of a millionth or less.
pub open spec fn segment(
    c: TrackChildModel,
    start: Num,
    from: Num,
    to: Num,
    id: Option<Str>,
) -> Option<TrackChildModel> {
    let d = to.minus(from);
    if d.at_most(micro()) {
        None
    } else {
        match c {
            TrackChildModel::Clip(c) => {
                let r = c.source_range->0;
                let part = with_range(
                    c,
                    TimeRange::seconds(
                        r.start_time.seconds.plus(from.minus(start)),
                        d,
                        r.start_time.rate,
                    ),
                );
                Some(
                    TrackChildModel::Clip(
                        match id {
                            Some(id) => with_uuid(
                                ClipModel { name: part.name + "-lift-tail"@, ..part },
                                id,
                            ),
                            None => part,
                        },
                    ),
                )
            },
            TrackChildModel::Gap(g) => Some(gap_of(d, g.source_range.duration.rate)),
            _ => None,
        }
    }
}

/// A part of a child that has a length.
pub fn timeline_child_segment(
    child: &TrackChild,
    start: Num,
    from: Num,
    to: Num,
    id: Option<String>,
) -> (r: Option<TrackChild>)
    requires
        !child_seconds(child@).at_most(micro()),
    ensures
        opt(r) == segment(child@, start, from, to, opt(id)),
{
    let d = to.minus(from);
    if d.at_most(micro()) {
        return None;
    }
    match child {
        TrackChild::Clip(c) => {
            let mut part = c.copied();
            if let Some(r) = c.source_range {
                part.source_range = Some(
                    TimeRange::seconds(
                        r.start_time.seconds.plus(from.minus(start)),
                        d,
                        r.start_time.rate,
                    ),
                );
            }
            if let Some(id) = id {
                part.name = cat2(part.name.as_str(), "-lift-tail");
                stamp_clip_uuid(&mut part, id.as_str());
            }
            Some(TrackChild::Clip(part))
        },
        TrackChild::Gap(g) => Some(gap_child(d, g.source_range.duration.rate)),
        _ => None,
    }
}

/// The time at which child `n` begins, where children of a millionth or less do
/// not count.
pub open spec fn solid_start(children: Seq<TrackChildModel>, n: int) -> Num
    decreases n,
{
    if n <= 0 {
        zero()
    } else {
        let d = child_seconds(children[n - 1]);
        if d.at_most(micro()) {
            solid_start(children, n - 1)
        } else {
            solid_start(children, n - 1).plus(d)
        }
    }
}

/// How far a stretch has been taken out of a track.
#[verifier::ext_equal]
pub struct Carved {
    /// What the track holds so far.
    pub children: Seq<TrackChildModel>,
    /// How much has been taken out.
    pub amount: Num,
    /// How many ids have been used.
    pub used: nat,
    /// Whether the clip that fills the stretch has been put.
    pub placed: bool,
}

/// The sequence with one more element, where there is one.
pub open spec fn plus_opt<A>(s: Seq<A>, x: Option<A>) -> Seq<A> {
    match x {
        Some(v) => s.push(v),
        None => s,
    }
}

/// Taking a stretch out of one child that begins at `at` and overlaps it: what
/// is in front of the stretch stays, then comes what fills it, then what is
/// behind it.
pub open spec fn carve_child(
    s: Carved,
    c: TrackChildModel,
    at: Num,
    start: Num,
    end: Num,
    fill: Fill,
    ids: Seq<Str>,
) -> Carved {
    let child_end = at.plus(child_seconds(c));
    let overlap = child_end.smaller(end).minus(at.larger(start));
    let lead = if at.less(start) {
        segment(c, at, at, start.smaller(child_end), None)
    } else {
        None
    };
    let again = lead matches Some(TrackChildModel::Clip(_));
    let rest_from = end.larger(at);
    let trail = if end.less(child_end) {
        segment(
            c,
            at,
            rest_from,
            child_end,
            if again {
                Some(ids[s.used as int])
            } else {
                None
            },
        )
    } else {
        None
    };
    let middle = match fill {
        Fill::Empty(rate) => Some(gap_of(overlap, rate)),
        Fill::Nothing => None,
        Fill::With(clip) => if s.placed {
            None
        } else {
            Some(TrackChildModel::Clip(clip))
        },
    };
    Carved {
        children: plus_opt(plus_opt(plus_opt(s.children, lead), middle), trail),
        amount: s.amount.plus(overlap),
        used: if again && end.less(child_end) && !child_end.minus(rest_from).at_most(micro()) {
            s.used + 1
        } else {
            s.used
        },
        placed: s.placed || fill is With,
    }
}

/// Taking a stretch out of the next child, which begins at `at`.
pub open spec fn carve_step(
    s: Carved,
    c: TrackChildModel,
    at: Num,
    start: Num,
    end: Num,
    fill: Fill,
    ids: Seq<Str>,
) -> Carved {
    let d = child_seconds(c);
    let child_end = at.plus(d);
    let kept = Carved { children: s.children.push(c), ..s };
    if d.at_most(micro()) {
        if at.less(start) || end.at_most(at) {
            kept
        } else {
            s
        }
    } else if fill is With && child_end.at_most(start.plus(micro())) {
        kept
    } else if fill is With && !s.placed && end.minus(micro()).at_most(at) {
        Carved {
            children: s.children.push(TrackChildModel::Clip(fill->With_0)).push(c),
            placed: true,
            ..s
        }
    } else if child_end.smaller(end).at_most(at.larger(start).plus(micro())) {
        kept
    } else {
        carve_child(s, c, at, start, end, fill, ids)
    }
}

/// Taking a stretch out of the first `n` children of a track.
pub open spec fn carved(
    children: Seq<TrackChildModel>,
    start: Num,
    end: Num,
    fill: Fill,
    ids: Seq<Str>,
    n: int,
) -> Carved
    decreases n,
{
    if n <= 0 {
        Carved { children: Seq::empty(), amount: zero(), used: 0, placed: false }
    } else {
        carve_step(
            carved(children, start, end, fill, ids, n - 1),
            children[n - 1],
            solid_start(children, n - 1),
            start,
            end,
            fill,
            ids,
        )
    }
}

/// Taking out looks at no more ids than it uses.
proof fn lemma_carved(
    children: Seq<TrackChildModel>,
    start: Num,
    end: Num,
    fill: Fill,
    ids: Seq<Str>,
    more: Seq<Str>,
    n: int,
)
    requires
        carved(children, start, end, fill, ids, n).used <= ids.len() <= more.len(),
        forall|k: int| 0 <= k < ids.len() ==> ids[k] == more[k],
    ensures
        carved(children, start, end, fill, ids, n) == carved(
            children,
            start,
            end,
            fill,
            more,
            n,
        ),
    decreases n,
{
    if n > 0 {
        lemma_carved(children, start, end, fill, ids, more, n - 1);
        let c = children[n - 1];
        let at = solid_start(children, n - 1);
        let child_end = at.plus(child_seconds(c));
        if child_end.minus(end.larger(at)).at_most(micro()) {
            assert(segment(c, at, end.larger(at), child_end, None) == segment(
                c,
                at,
                end.larger(at),
                child_end,
                Some(ids[carved(children, start, end, fill, ids, n - 1).used as int]),
            ));
            assert(segment(c, at, end.larger(at), child_end, None) == segment(
                c,
                at,
                end.larger(at),
                child_end,
                Some(more[carved(children, start, end, fill, ids, n - 1).used as int]),
            ));
        }
    }
}

fn push_opt(out: &mut Vec<TrackChild>, x: Option<TrackChild>)
    ensures
        views(final(out)@) == plus_opt(views(old(out)@), opt(x)),
{
    let ghost before = views(out@);
    if let Some(v) = x {
        out.push(v);
        assert(views(out@) =~= before.push(v@));
    }
}

/// How far a stretch has been taken out of a track, while it is done.
struct Carving {
    out: Vec<TrackChild>,
    amount: Num,
    placed: bool,
}

impl Carving {
    spec fn shows(self, used: nat) -> Carved {
        Carved {
            children: views(self.out@),
            amount: self.amount,
            used,
            placed: self.placed,
        }
    }
}

fn carve_one(
    s: &mut Carving,
    child: &TrackChild,
    at: Num,
    start: Num,
    end: Num,
    fill: &Filler,
    Ghost(from): Ghost<ClipIds>,
    ids: &mut ClipIds,
)
    requires
        drew(from, *old(ids), fresh(from, *old(ids)).len()),
        !child_seconds(child@).at_most(micro()),
    ensures
        drew(from, *final(ids), fresh(from, *final(ids)).len()),
        forall|k: int|
            0 <= k < fresh(from, *old(ids)).len() ==> fresh(from, *old(ids))[k] == fresh(
                from,
                *final(ids),
            )[k],
        fresh(from, *old(ids)).len() <= fresh(from, *final(ids)).len(),
        final(s).shows(fresh(from, *final(ids)).len()) == carve_child(
            old(s).shows(fresh(from, *old(ids)).len()),
            child@,
            at,
            start,
            end,
            fill@,
            fresh(from, *final(ids)),
        ),
{
    let child_end = at.plus(child_duration(child));
    let overlap = child_end.smaller(end).minus(at.larger(start));
    let lead = if at.less(start) {
        timeline_child_segment(child, at, at, start.smaller(child_end), None)
    } else {
        None
    };
    let again = match &lead {
        Some(TrackChild::Clip(_)) => true,
        _ => false,
    };
    let rest_from = end.larger(at);
    let trail = if end.less(child_end) {
        let id = if again && !child_end.minus(rest_from).at_most(micro()) {
            let id = ids.draw();
            proof {
                assert(fresh(*old(ids), *ids).len() == 1);
                lemma_drew(from, *old(ids), *ids);
            }
            Some(id)
        } else {
            None
        };
        timeline_child_segment(child, at, rest_from, child_end, id)
    } else {
        None
    };
    let middle = match fill {
        Filler::Empty(rate) => Some(gap_child(overlap, *rate)),
        Filler::Nothing => None,
        Filler::With(clip) => if s.placed {
            None
        } else {
            Some(TrackChild::Clip(clip.copied()))
        },
    };
    push_opt(&mut s.out, lead);
    push_opt(&mut s.out, middle);
    push_opt(&mut s.out, trail);
    s.amount = s.amount.plus(overlap);
    s.placed = match fill {
        Filler::With(_) => true,
        _ => s.placed,
    };
}

fn carve_next(
    s: &mut Carving,
    child: &TrackChild,
    at: Num,
    start: Num,
    end: Num,
    fill: &Filler,
    Ghost(from): Ghost<ClipIds>,
    ids: &mut ClipIds,
)
    requires
        drew(from, *old(ids), fresh(from, *old(ids)).len()),
    ensures
        drew(from, *final(ids), fresh(from, *final(ids)).len()),
        forall|k: int|
            0 <= k < fresh(from, *old(ids)).len() ==> fresh(from, *old(ids))[k] == fresh(
                from,
                *final(ids),
            )[k],
        fresh(from, *old(ids)).len() <= fresh(from, *final(ids)).len(),
        final(s).shows(fresh(from, *final(ids)).len()) == carve_step(
            old(s).shows(fresh(from, *old(ids)).len()),
            child@,
            at,
            start,
            end,
            fill@,
            fresh(from, *final(ids)),
        ),
{
    let d = child_duration(child);
    let child_end = at.plus(d);
    let is_clip = match fill {
        Filler::With(_) => true,
        _ => false,
    };
    if d.at_most(micro()) {
        if at.less(start) || end.at_most(at) {
            push_opt(&mut s.out, Some(child.copied()));
        }
        return;
    }
    if is_clip && child_end.at_most(start.plus(micro())) {
        push_opt(&mut s.out, Some(child.copied()));
        return;
    }
    if is_clip && !s.placed && end.minus(micro()).at_most(at) {
        if let Filler::With(clip) = fill {
            push_opt(&mut s.out, Some(TrackChild::Clip(clip.copied())));
        }
        push_opt(&mut s.out, Some(child.copied()));
        s.placed = true;
        return;
    }
    if child_end.smaller(end).at_most(at.larger(start).plus(micro())) {
        push_opt(&mut s.out, Some(child.copied()));
        return;
    }
    carve_one(s, child, at, start, end, fill, Ghost(from), ids);
}

fn carve(track: &Track, start: Num, end: Num, fill: &Filler, ids: &mut ClipIds) -> (r: Carving)
    ensures
        drew(*old(ids), *final(ids), fresh(*old(ids), *final(ids)).len()),
        r.shows(fresh(*old(ids), *final(ids)).len()) == carved(
            track@.children,
            start,
            end,
            fill@,
            fresh(*old(ids), *final(ids)),
            track@.children.len() as int,
        ),
{
    let ghost from = *ids;
    let ghost children = track@.children;
    let mut s = Carving { out: Vec::new(), amount: zero(), placed: false };
    let mut cursor = zero();
    let mut i: usize = 0;
    assert(views(s.out@) =~= Seq::<TrackChildModel>::empty());
    while i < track.children.len()
        invariant
            i <= track@.children.len(),
            children == track@.children,
            from == *old(ids),
            cursor == solid_start(children, i as int),
            drew(from, *ids, fresh(from, *ids).len()),
            s.shows(fresh(from, *ids).len()) == carved(
                children,
                start,
                end,
                fill@,
                fresh(from, *ids),
                i as int,
            ),
        decreases children.len() - i,
    {
        let ghost so_far = fresh(from, *ids);
        carve_next(&mut s, &track.children[i], cursor, start, end, fill, Ghost(from), ids);
        proof {
            lemma_carved(
                children,
                start,
                end,
                fill@,
                so_far,
                fresh(from, *ids),
                i as int,
            );
        }
        let d = child_duration(&track.children[i]);
        if !d.at_most(micro()) {
            cursor = cursor.plus(d);
        }
        i = i + 1;
    }
    s
}

/// The first positive rate on a track, else 24.
pub fn track_rate(track: &Track) -> (r: Num)
    ensures
        r == first_rate(track@.children, 0),
{
    let mut i: usize = 0;
    while i < track.children.len()
        invariant
            i <= track@.children.len(),
            first_rate(track@.children, 0) == first_rate(track@.children, i as int),
        decreases track@.children.len() - i,
    {
        if let Some(r) = as_clip_rate(&track.children[i]) {
            return r;
        }
        i = i + 1;
    }
    rate24()
}

/// What is left of a track when a stretch is taken out: empty time is left in
/// its place.
pub open spec fn lifted_children(t: TrackModel, start: Num, end: Num, ids: Seq<Str>) -> Carved {
    let rate = first_rate(t.children, 0);
    let c = carved(t.children, start, end, Fill::Empty(rate), ids, t.children.len() as int);
    Carved { children: merged_all(c.children, rate), ..c }
}

/// What is left of a track when a stretch is taken out and closed up.
pub open spec fn extracted_children(t: TrackModel, start: Num, end: Num, ids: Seq<Str>) -> Carved {
    let c = carved(t.children, start, end, Fill::Nothing, ids, t.children.len() as int);
    Carved { children: merged_all(c.children, first_rate(c.children, 0)), ..c }
}

/// Takes a stretch out of a track and leaves empty time in its place.
pub fn lift_range_on_track(track: Track, start: Num, end: Num, ids: &mut ClipIds) -> (r: (
    Track,
    Num,
))
    ensures
        drew(*old(ids), *final(ids), fresh(*old(ids), *final(ids)).len()),
        ({
            let c = lifted_children(track@, start, end, fresh(*old(ids), *final(ids)));
            r.0@ == with_children(track@, c.children) && r.1 == c.amount && c.used == fresh(
                *old(ids),
                *final(ids),
            ).len()
        }),
{
    let rate = track_rate(&track);
    let s = carve(&track, start, end, &Filler::Empty(rate), ids);
    let mut out = track;
    out.refill(s.out);
    merge_adjacent_gaps(&mut out, rate);
    (out, s.amount)
}

/// Takes a stretch out of a track and closes it up.
pub fn extract_range_on_track(track: Track, start: Num, end: Num, ids: &mut ClipIds) -> (r: (
    Track,
    Num,
))
    ensures
        drew(*old(ids), *final(ids), fresh(*old(ids), *final(ids)).len()),
        ({
            let c = extracted_children(track@, start, end, fresh(*old(ids), *final(ids)));
            r.0@ == with_children(track@, c.children) && r.1 == c.amount && c.used == fresh(
                *old(ids),
                *final(ids),
            ).len()
        }),
{
    let s = carve(&track, start, end, &Filler::Nothing, ids);
    let mut out = track;
    out.refill(s.out);
    let rate = track_rate(&out);
    merge_adjacent_gaps(&mut out, rate);
    (out, s.amount)
}

/// What a track holds when a clip is written over a stretch of it; behind the
/// end of the track the clip comes after empty time.
pub open spec fn overwritten_children(
    t: TrackModel,
    start: Num,
    end: Num,
    clip: ClipModel,
    ids: Seq<Str>,
) -> Carved {
    let rate = first_rate(t.children, 0);
    let n = t.children.len() as int;
    let c = carved(t.children, start, end, Fill::With(clip), ids, n);
    let cursor = solid_start(t.children, n);
    let full = if c.placed {
        c.children
    } else if cursor.less(start.minus(micro())) {
        c.children.push(gap_of(start.minus(cursor), rate)).push(TrackChildModel::Clip(clip))
    } else {
        c.children.push(TrackChildModel::Clip(clip))
    };
    Carved { children: merged_all(full, rate), ..c }
}

/// Writes a clip over a stretch of a track.
pub fn overwrite_range_on_track(
    track: Track,
    start: Num,
    end: Num,
    overwrite: Clip,
    ids: &mut ClipIds,
) -> (r: Track)
    ensures
        drew(*old(ids), *final(ids), fresh(*old(ids), *final(ids)).len()),
        ({
            let c = overwritten_children(
                track@,
                start,
                end,
                overwrite@,
                fresh(*old(ids), *final(ids)),
            );
            r@ == with_children(track@, c.children) && c.used == fresh(
                *old(ids),
                *final(ids),
            ).len()
        }),
{
    let rate = track_rate(&track);
    let mut cursor = zero();
    let mut i: usize = 0;
    while i < track.children.len()
        invariant
            i <= track@.children.len(),
            cursor == solid_start(track@.children, i as int),
        decreases track@.children.len() - i,
    {
        let d = child_duration(&track.children[i]);
        if !d.at_most(micro()) {
            cursor = cursor.plus(d);
        }
        i = i + 1;
    }
    let fill = Filler::With(overwrite.copied());
    let s = carve(&track, start, end, &fill, ids);
    let mut out = track;
    out.refill(s.out);
    if !s.placed {
        if cursor.less(start.minus(micro())) {
            out.push(gap_child(start.minus(cursor), rate));
        }
        out.push(TrackChild::Clip(overwrite));
    }
    merge_adjacent_gaps(&mut out, rate);
    out
}

// ---- ranges ---------------------------------------------------------------

/// Whether a stretch is finite, begins at zero or later, and has a length;
/// `label` stands in front of the message.
pub open spec fn range_ok(index: usize, label: Str, r: SourceRange) -> Result<(), Refusal> {
    if !r.start_s.is_finite() || !r.end_s.is_finite() {
        Err(
            bad(
                index,
                label + ": range bounds must be finite, got ["@ + debugged(r.start_s) + ".."@
                    + debugged(r.end_s) + "]"@,
            ),
        )
    } else if r.start_s.less(zero()) {
        Err(bad(index, label + ": range start must be >= 0, got "@ + milli3(r.start_s) + "s"@))
    } else if r.end_s.at_most(r.start_s) {
        Err(
            bad(
                index,
                label + ": range end "@ + milli3(r.end_s) + "s must be after start "@ + milli3(
                    r.start_s,
                ) + "s"@,
            ),
        )
    } else {
        Ok(())
    }
}

/// Checks a stretch.
pub fn validate_professional_timeline_range(index: usize, label: &str, r: SourceRange) -> (res:
    Result<(), ApplyError>)
    ensures
        checks(res, range_ok(index, label@, r)),
{
    if !r.start_s.is_finite() || !r.end_s.is_finite() {
        return Err(
            invalid(
                index,
                cat6(
                    label,
                    ": range bounds must be finite, got [",
                    debug_num(r.start_s).as_str(),
                    "..",
                    debug_num(r.end_s).as_str(),
                    "]",
                ),
            ),
        );
    }
    if r.start_s.less(zero()) {
        return Err(
            invalid(
                index,
                cat4(label, ": range start must be >= 0, got ", fix3(r.start_s).as_str(), "s"),
            ),
        );
    }
    if r.end_s.at_most(r.start_s) {
        return Err(
            invalid(
                index,
                cat6(
                    label,
                    ": range end ",
                    fix3(r.end_s).as_str(),
                    "s must be after start ",
                    fix3(r.start_s).as_str(),
                    "s",
                ),
            ),
        );
    }
    Ok(())
}

/// Whether a track is among those asked for; all are where none is named.
pub open spec fn chosen(tracks: Seq<Str>, name: Str) -> bool {
    tracks.len() == 0 || tracks.contains(name)
}

/// How far a stretch has been taken out of a timeline.
#[verifier::ext_equal]
pub struct Swept {
    /// The layers so far.
    pub layers: Seq<StackChildModel>,
    /// How many tracks were asked for.
    pub matched: nat,
    /// How many of them lost something.
    pub touched: nat,
    /// How much was taken out.
    pub amount: Num,
    /// How many ids have been used.
    pub used: nat,
}

/// What is left of a track when a stretch is taken out of it, closed up or not.
pub open spec fn cut_children(
    t: TrackModel,
    start: Num,
    end: Num,
    close: bool,
    ids: Seq<Str>,
) -> Carved {
    if close {
        extracted_children(t, start, end, ids)
    } else {
        lifted_children(t, start, end, ids)
    }
}

/// Taking a stretch out of the first `n` layers.
pub open spec fn swept(
    layers: Seq<StackChildModel>,
    r: SourceRange,
    tracks: Seq<Str>,
    close: bool,
    ids: Seq<Str>,
    n: int,
) -> Swept
    decreases n,
{
    if n <= 0 {
        Swept { layers: Seq::empty(), matched: 0, touched: 0, amount: zero(), used: 0 }
    } else {
        let s = swept(layers, r, tracks, close, ids, n - 1);
        match layers[n - 1] {
            StackChildModel::Track(t) if chosen(tracks, t.name) => {
                let c = cut_children(t, r.start_s, r.end_s, close, ids.skip(s.used as int));
                let lost = micro().less(c.amount);
                Swept {
                    layers: s.layers.push(StackChildModel::Track(with_children(t, c.children))),
                    matched: s.matched + 1,
                    touched: if lost {
                        s.touched + 1
                    } else {
                        s.touched
                    },
                    amount: if lost {
                        s.amount.plus(c.amount)
                    } else {
                        s.amount
                    },
                    used: s.used + c.used,
                }
            },
            l => Swept { layers: s.layers.push(l), ..s },
        }
    }
}

proof fn lemma_cut_children(
    t: TrackModel,
    start: Num,
    end: Num,
    close: bool,
    ids: Seq<Str>,
    more: Seq<Str>,
)
    requires
        cut_children(t, start, end, close, ids).used <= ids.len() <= more.len(),
        forall|k: int| 0 <= k < ids.len() ==> ids[k] == more[k],
    ensures
        cut_children(t, start, end, close, ids) == cut_children(t, start, end, close, more),
{
    let n = t.children.len() as int;
    if close {
        lemma_carved(t.children, start, end, Fill::Nothing, ids, more, n);
    } else {
        lemma_carved(
            t.children,
            start,
            end,
            Fill::Empty(first_rate(t.children, 0)),
            ids,
            more,
            n,
        );
    }
}

proof fn lemma_swept(
    layers: Seq<StackChildModel>,
    r: SourceRange,
    tracks: Seq<Str>,
    close: bool,
    ids: Seq<Str>,
    more: Seq<Str>,
    n: int,
)
    requires
        swept(layers, r, tracks, close, ids, n).used <= ids.len() <= more.len(),
        forall|k: int| 0 <= k < ids.len() ==> ids[k] == more[k],
    ensures
        swept(layers, r, tracks, close, ids, n) == swept(layers, r, tracks, close, more, n),
    decreases n,
{
    if n > 0 {
        let s = swept(layers, r, tracks, close, ids, n - 1);
        lemma_swept(layers, r, tracks, close, ids, more, n - 1);
        if let StackChildModel::Track(t) = layers[n - 1] {
            if chosen(tracks, t.name) {
                lemma_cut_children(
                    t,
                    r.start_s,
                    r.end_s,
                    close,
                    ids.skip(s.used as int),
                    more.skip(s.used as int),
                );
            }
        }
    }
}

struct Sweeping {
    matched: usize,
    touched: usize,
    amount: Num,
}

/// Whether a layer is a track that is asked for.
spec fn hit(layer: StackChildModel, tracks: Seq<Str>) -> bool {
    layer matches StackChildModel::Track(t) && chosen(tracks, t.name)
}

fn sweep_layer(
    working: Timeline,
    i: usize,
    r: SourceRange,
    tracks: &Vec<String>,
    close: bool,
    ids: &mut ClipIds,
) -> (res: (Timeline, Option<Num>))
    requires
        i < working@.tracks.children.len(),
    ensures
        drew(*old(ids), *final(ids), fresh(*old(ids), *final(ids)).len()),
        hit(working@.tracks.children[i as int], strs(tracks@)) <==> res.1 is Some,
        match res.1 {
            None => res.0@ == working@ && fresh(*old(ids), *final(ids)).len() == 0,
            Some(amount) => ({
                let t = working@.tracks.children[i as int]->Track_0;
                let c = cut_children(
                    t,
                    r.start_s,
                    r.end_s,
                    close,
                    fresh(*old(ids), *final(ids)),
                );
                &&& res.0@ == with_track(working@, i as int, with_children(t, c.children))
                &&& amount == c.amount
                &&& c.used == fresh(*old(ids), *final(ids)).len()
            }),
        },
{
    assert(strs(tracks@).len() == tracks@.len());
    let mut found: Option<Track> = None;
    if let Some(t) = working.track(i) {
        if tracks.len() == 0 || holds(tracks, t.name.as_str()) {
            found = Some(t.copied());
        }
    }
    match found {
        None => (working, None),
        Some(t) => {
            let (t, amount) = if close {
                extract_range_on_track(t, r.start_s, r.end_s, ids)
            } else {
                lift_range_on_track(t, r.start_s, r.end_s, ids)
            };
            let mut out = working;
            out.put_track(i, t);
            (out, Some(amount))
        },
    }
}

#[verifier::rlimit(30)]
fn sweep(
    working: Timeline,
    r: SourceRange,
    tracks: &Vec<String>,
    close: bool,
    ids: &mut ClipIds,
) -> (res: (Timeline, Sweeping))
    ensures
        drew(*old(ids), *final(ids), fresh(*old(ids), *final(ids)).len()),
        ({
            let layers = working@.tracks.children;
            let s = swept(
                layers,
                r,
                strs(tracks@),
                close,
                fresh(*old(ids), *final(ids)),
                layers.len() as int,
            );
            &&& res.0@ == with_layers(working@, s.layers)
            &&& res.1.matched == s.matched
            &&& res.1.touched == s.touched
            &&& res.1.amount == s.amount
            &&& s.used == fresh(*old(ids), *final(ids)).len()
        }),
{
    let ghost from = *ids;
    let ghost layers = working@.tracks.children;
    let ghost names = strs(tracks@);
    let mut out = working;
    let mut s = Sweeping { matched: 0, touched: 0, amount: zero() };
    let mut i: usize = 0;
    assert(layers.skip(0) =~= layers);
    assert(Seq::<StackChildModel>::empty() + layers =~= layers);
    while i < out.tracks.children.len()
        invariant
            i <= out@.tracks.children.len(),
            out@.tracks.children.len() == layers.len(),
            layers == working@.tracks.children,
            names == strs(tracks@),
            from == *old(ids),
            drew(from, *ids, fresh(from, *ids).len()),
            out@ == with_layers(working@, out@.tracks.children),
            ({
                let w = swept(layers, r, names, close, fresh(from, *ids), i as int);
                &&& out@.tracks.children == w.layers + layers.skip(i as int)
                &&& w.layers.len() == i
                &&& s.matched == w.matched
                &&& s.touched == w.touched
                &&& s.amount == w.amount
                &&& w.used == fresh(from, *ids).len()
            }),
            s.matched <= i,
            s.touched <= i,
        decreases layers.len() - i,
    {
        let ghost so_far = fresh(from, *ids);
        let ghost w = swept(layers, r, names, close, so_far, i as int);
        let ghost mid = *ids;
        assert(out@.tracks.children[i as int] == layers[i as int]);
        let (next, amount) = sweep_layer(out, i, r, tracks, close, ids);
        out = next;
        proof {
            lemma_drew(from, mid, *ids);
            lemma_swept(layers, r, names, close, so_far, fresh(from, *ids), i as int);
        }
        if let Some(amount) = amount {
            s.matched = s.matched + 1;
            if micro().less(amount) {
                s.touched = s.touched + 1;
                s.amount = s.amount.plus(amount);
            }
        }
        assert(out@.tracks.children =~= swept(
            layers,
            r,
            names,
            close,
            fresh(from, *ids),
            i + 1,
        ).layers + layers.skip(i + 1));
        i = i + 1;
    }
    assert(out@.tracks.children =~= swept(
        layers,
        r,
        names,
        close,
        fresh(from, *ids),
        layers.len() as int,
    ).layers);
    (out, s)
}

/// Taking a stretch out of the tracks asked for: empty time is left in its
/// place, or what is behind closes up.
pub open spec fn cut_range(
    tl: TimelineModel,
    index: usize,
    r: SourceRange,
    tracks: Seq<String>,
    close: bool,
    ids: Seq<Str>,
) -> Done {
    let label = if close {
        "extract_range"@
    } else {
        "lift_range"@
    };
    match range_ok(index, label, r) {
        Err(e) => Err(e),
        Ok(_) => {
            let layers = tl.tracks.children;
            let s = swept(layers, r, strs(tracks), close, ids, layers.len() as int);
            if s.matched == 0 {
                Err(bad(index, label + ": no tracks matched "@ + quoted_list(tracks)))
            } else if s.touched == 0 {
                Err(
                    bad(
                        index,
                        label + ": range ["@ + milli3(r.start_s) + "s.."@ + milli3(r.end_s)
                            + "s] did not overlap selected tracks"@,
                    ),
                )
            } else {
                Ok(
                    (
                        with_layers(tl, s.layers),
                        (if close {
                            "extracted"@
                        } else {
                            "lifted"@
                        }) + " range ["@ + milli3(r.start_s) + "s.."@ + milli3(r.end_s) + "s] on "@
                            + decimal(s.touched) + (if close {
                            " track(s), closing "@
                        } else {
                            " track(s), leaving gaps for "@
                        }) + milli3(s.amount) + "s of selected material"@,
                    ),
                )
            }
        },
    }
}

fn apply_cut_range(
    working: Timeline,
    index: usize,
    r: SourceRange,
    tracks: &Vec<String>,
    close: bool,
    ids: &mut ClipIds,
) -> (res: Result<(Timeline, String), ApplyError>)
    ensures
        drew(*old(ids), *final(ids), fresh(*old(ids), *final(ids)).len()),
        shows(
            res,
            cut_range(working@, index, r, tracks@, close, fresh(*old(ids), *final(ids))),
        ),
{
    let label: &str = if close {
        "extract_range"
    } else {
        "lift_range"
    };
    if let Err(e) = validate_professional_timeline_range(index, label, r) {
        return Err(e);
    }
    let (out, s) = sweep(working, r, tracks, close, ids);
    if s.matched == 0 {
        return Err(
            invalid(
                index,
                crate::text::cat3(label, ": no tracks matched ", quote_list(tracks).as_str()),
            ),
        );
    }
    if s.touched == 0 {
        return Err(
            invalid(
                index,
                cat6(
                    label,
                    ": range [",
                    fix3(r.start_s).as_str(),
                    "s..",
                    fix3(r.end_s).as_str(),
                    "s] did not overlap selected tracks",
                ),
            ),
        );
    }
    let said = cat9(
        if close {
            "extracted"
        } else {
            "lifted"
        },
        " range [",
        fix3(r.start_s).as_str(),
        "s..",
        fix3(r.end_s).as_str(),
        "s] on ",
        count_usize(s.touched).as_str(),
        if close {
            " track(s), closing "
        } else {
            " track(s), leaving gaps for "
        },
        fix3(s.amount).as_str(),
    );
    Ok((out, cat2(said.as_str(), "s of selected material")))
}

/// Takes a stretch out of tracks and leaves empty time in its place.
pub fn apply_lift_range(
    working: Timeline,
    index: usize,
    range: SourceRange,
    tracks: &Vec<String>,
    ids: &mut ClipIds,
) -> (res: Result<(Timeline, String), ApplyError>)
    ensures
        drew(*old(ids), *final(ids), fresh(*old(ids), *final(ids)).len()),
        shows(
            res,
            cut_range(working@, index, range, tracks@, false, fresh(*old(ids), *final(ids))),
        ),
{
    apply_cut_range(working, index, range, tracks, false, ids)
}

/// Takes a stretch out of tracks and closes it up.
pub fn apply_extract_range(
    working: Timeline,
    index: usize,
    range: SourceRange,
    tracks: &Vec<String>,
    ids: &mut ClipIds,
) -> (res: Result<(Timeline, String), ApplyError>)
    ensures
        drew(*old(ids), *final(ids), fresh(*old(ids), *final(ids)).len()),
        shows(
            res,
            cut_range(working@, index, range, tracks@, true, fresh(*old(ids), *final(ids))),
        ),
{
    apply_cut_range(working, index, range, tracks, true, ids)
}

// ---- append and overwrite -------------------------------------------------

/// The new clip that is written over a stretch.
pub open spec fn overwriting_clip(t: TrackModel, asset: Str, length: Num, id: Str) -> ClipModel {
    with_uuid(
        ClipModel {
            media_reference: media_at(asset),
            source_range: Some(
                TimeRange::seconds(zero(), length.minus(zero()), first_rate(t.children, 0)),
            ),
            ..empty_clip("overwrite-"@ + decimal(t.children.len()))
        },
        id,
    )
}

/// The new clip that is written over a stretch.
pub fn build_professional_source_clip(track: &Track, asset: &str, length: Num, id: &str) -> (r: Clip)
    ensures
        r@ == overwriting_clip(track@, asset@, length, id@),
{
    let name = cat2("overwrite-", count_usize(track.size()).as_str());
    let mut clip = Clip::empty(name.as_str());
    clip.media_reference = MediaReference::External(ExternalReference::new(asset));
    clip.source_range = Some(
        TimeRange::seconds(zero(), length.minus(zero()), track_rate(track)),
    );
    stamp_clip_uuid(&mut clip, id);
    clip
}

/// Writing a new clip over a stretch of a track, which is made where there is
/// none of the name.  The clip gets id `ids[0]`.
pub open spec fn overwritten(
    tl: TimelineModel,
    index: usize,
    name: Str,
    r: SourceRange,
    asset: Str,
    ids: Seq<Str>,
) -> Done {
    match range_ok(index, "overwrite"@, r) {
        Err(e) => Err(e),
        Ok(_) => if is_blank(name) {
            Err(bad(index, "overwrite: track must not be empty"@))
        } else if is_blank(asset) {
            Err(bad(index, "overwrite: asset must not be empty"@))
        } else {
            let (tl, k) = with_track_named(
                tl,
                name,
                inferred_kind(name, Some(InsertTrackKind::Auto)),
            );
            let t = track_at(tl, k)->0;
            let clip = overwriting_clip(t, asset, r.end_s.minus(r.start_s), ids[0]);
            Ok(
                (
                    with_track(
                        tl,
                        k,
                        with_children(
                            t,
                            overwritten_children(
                                t,
                                r.start_s,
                                r.end_s,
                                clip,
                                ids.skip(1),
                            ).children,
                        ),
                    ),
                    "overwrote range ["@ + milli3(r.start_s) + "s.."@ + milli3(r.end_s)
                        + "s] on track "@ + quoted(name) + " with asset "@ + quoted(asset),
                ),
            )
        },
    }
}

/// Writes a new clip over a stretch of a track.
pub fn apply_overwrite_clip(
    working: Timeline,
    index: usize,
    name: &str,
    range: SourceRange,
    asset: &str,
    ids: &mut ClipIds,
) -> (res: Result<(Timeline, String), ApplyError>)
    ensures
        drew(*old(ids), *final(ids), fresh(*old(ids), *final(ids)).len()),
        res is Ok <==> fresh(*old(ids), *final(ids)).len() > 0,
        shows(
            res,
            overwritten(
                working@,
                index,
                name@,
                range,
                asset@,
                fresh(*old(ids), *final(ids)),
            ),
        ),
{
    if let Err(e) = validate_professional_timeline_range(index, "overwrite", range) {
        return Err(e);
    }
    if blank(name) {
        return Err(invalid_str(index, "overwrite: track must not be empty"));
    }
    if blank(asset) {
        return Err(invalid_str(index, "overwrite: asset must not be empty"));
    }
    let kind = infer_insert_track_kind(name, Some(InsertTrackKind::Auto));
    let (out, k) = find_or_add_track(working, name, kind);
    let mut out = out;
    let track = out.track(k).unwrap().copied();
    let id = ids.draw();
    let ghost one = *ids;
    let clip = build_professional_source_clip(
        &track,
        asset,
        range.end_s.minus(range.start_s),
        id.as_str(),
    );
    let track = overwrite_range_on_track(track, range.start_s, range.end_s, clip, ids);
    proof {
        lemma_drew(*old(ids), one, *ids);
        assert(fresh(*old(ids), one) =~= seq![id@]);
    }
    out.put_track(k, track);
    let said = cat8(
        "overwrote range [",
        fix3(range.start_s).as_str(),
        "s..",
        fix3(range.end_s).as_str(),
        "s] on track ",
        quote(name).as_str(),
        " with asset ",
        quote(asset).as_str(),
    );
    Ok((out, said))
}

/// What an append asks of the new clip.
pub open spec fn append_request(track: Str, asset: Str, r: SourceRange) -> InsertRequestModel {
    InsertRequestModel {
        asset,
        track,
        track_kind: Some(InsertTrackKind::Auto),
        at_position: None,
        at_s: None,
        start: Some(r.start_s),
        end: Some(r.end_s),
        name: None,
        link_group_id: None,
        snap: None,
    }
}

/// Whether a clip may be appended.
pub open spec fn append_ok(index: usize, track: Str, asset: Str, r: SourceRange) -> Result<(), Refusal> {
    match range_ok(index, "append"@, r) {
        Err(e) => Err(e),
        Ok(_) => if is_blank(track) {
            Err(bad(index, "append: track must not be empty"@))
        } else if is_blank(asset) {
            Err(bad(index, "append: asset must not be empty"@))
        } else {
            Ok(())
        },
    }
}

/// Putting a new clip at the end of a track: an insert that names nothing but
/// the track, the asset and the source range.
pub open spec fn appended(
    tl: TimelineModel,
    index: usize,
    track: Str,
    asset: Str,
    r: SourceRange,
    id: Str,
) -> Done {
    match append_ok(index, track, asset, r) {
        Err(e) => Err(e),
        Ok(_) => inserted_clip(tl, index, append_request(track, asset, r), id),
    }
}

/// Puts a new clip at the end of a track.
pub fn apply_append_clip(
    working: Timeline,
    index: usize,
    track: &str,
    asset: &str,
    range: SourceRange,
    ids: &mut ClipIds,
) -> (res: Result<(Timeline, String), ApplyError>)
    ensures
        drew(
            *old(ids),
            *final(ids),
            if res is Ok {
                1
            } else {
                0
            },
        ),
        shows(
            res,
            appended(
                working@,
                index,
                track@,
                asset@,
                range,
                fresh(*old(ids), *final(ids))[0],
            ),
        ),
{
    if let Err(e) = validate_professional_timeline_range(index, "append", range) {
        return Err(e);
    }
    if blank(track) {
        return Err(invalid_str(index, "append: track must not be empty"));
    }
    if blank(asset) {
        return Err(invalid_str(index, "append: asset must not be empty"));
    }
    let q = InsertRequest {
        asset: asset.to_owned(),
        track: track.to_owned(),
        track_kind: Some(InsertTrackKind::Auto),
        at_position: None,
        at_s: None,
        start: Some(range.start_s),
        end: Some(range.end_s),
        name: None,
        link_group_id: None,
        snap: None,
    };
    apply_insert_clip(working, index, &q, ids)
}

} // verus!

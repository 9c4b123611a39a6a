//! Cutting a clip in two.
use vstd::prelude::*;

use crate::boundary::{transfer_outgoing_cut_boundary_to_split_right, with_cuts_moved};
use crate::clip::{
    clip_contains_source_time, clip_id, clip_link_group_id, contains_source_time, end_of,
    first_where, id_of, is_some_text, keep_only_split_edit_lead, keep_only_split_edit_trail,
    lead_only, lemma_first_where, link_group_of, stamp_clip_uuid, trail_only, with_range, with_uuid,
};
use crate::edit::{clip_at, start_time, track_at, track_time, with_children, with_track};
use crate::error::{bad, invalid, invalid_str, shows, ApplyError, Done, Refusal};
use crate::locate::{find_clip, found_clip};
use crate::mint::{drew, fresh, lemma_drew, ClipIds};
use crate::model::{
    Clip, ClipLocator, ClipModel, Stored, TimeRange, Timeline, TimelineModel, Track, TrackChild,
    TrackChildModel,
};
use crate::num::Num;
use crate::op::SnapOptions;
use crate::snap::{resolve_snap_time, snapped};
use crate::text::{
    cat12, cat2, cat5, cat7, cat9, count_usize, decimal, fix3, milli3, plural, plural_of, quote,
    quoted, show, shown, Str,
};

verus! {

/// The clip up to a time.
pub open spec fn left_part(c: ClipModel, r: TimeRange, at: Num) -> ClipModel {
    lead_only(
        with_range(
            c,
            TimeRange::seconds(
                r.start_time.seconds,
                at.minus(r.start_time.seconds),
                r.start_time.rate,
            ),
        ),
    )
}

/// The clip from a time on, under its own name and id.
pub open spec fn right_part(c: ClipModel, r: TimeRange, at: Num, id: Str) -> ClipModel {
    with_uuid(
        trail_only(
            with_range(
                ClipModel { name: c.name + "-b"@, ..c },
                TimeRange::seconds(at, end_of(r).minus(at), r.start_time.rate),
            ),
        ),
        id,
    )
}

/// The timeline with the clip at a place cut in two.  The cuts out of the clip
/// go with the right part.
pub open spec fn split_at(tl: TimelineModel, loc: ClipLocator, at: Num, id: Str) -> TimelineModel {
    let i = loc.track_index as int;
    let j = loc.child_index as int;
    let t = track_at(tl, i)->0;
    let c = clip_at(tl, loc)->0;
    let r = c.source_range->0;
    with_cuts_moved(
        with_track(
            tl,
            i,
            with_children(
                t,
                t.children.update(j, TrackChildModel::Clip(left_part(c, r, at))).insert(
                    j + 1,
                    TrackChildModel::Clip(right_part(c, r, at, id)),
                ),
            ),
        ),
        id_of(c),
        id,
    )
}

fn split_clip(working: Timeline, loc: ClipLocator, at: Num, id: &str) -> (r: Timeline)
    requires
        clip_at(working@, loc) is Some,
        clip_at(working@, loc)->0.source_range is Some,
    ensures
        r@ == split_at(working@, loc, at, id@),
{
    let mut out = working;
    let mut track = match out.track(loc.track_index) {
        Some(t) => t.copied(),
        None => {
            return out;
        },
    };
    let clip = match track.clip(loc.child_index) {
        Some(c) => c.copied(),
        None => {
            return out;
        },
    };
    let range = match clip.source_range {
        Some(r) => r,
        None => {
            return out;
        },
    };
    let start_s = range.start_time.seconds;
    let rate = range.start_time.rate;
    let original_id = clip_id(&clip);
    let mut right = clip.copied();
    right.name = cat2(clip.name.as_str(), "-b");
    right.source_range = Some(TimeRange::seconds(at, end_of(range).minus(at), rate));
    keep_only_split_edit_trail(&mut right);
    stamp_clip_uuid(&mut right, id);
    let mut left = clip;
    left.source_range = Some(TimeRange::seconds(start_s, at.minus(start_s), rate));
    keep_only_split_edit_lead(&mut left);
    track.put(loc.child_index, TrackChild::Clip(left));
    let size: usize = track.size();
    assert(loc.child_index < size);
    track.insert(loc.child_index + 1, TrackChild::Clip(right));
    out.put_track(loc.track_index, track);
    transfer_outgoing_cut_boundary_to_split_right(&mut out, original_id.as_str(), id);
    out
}

/// Whether a child is a clip of the group with the time inside.
pub open spec fn containing(group: Str, at: Num) -> spec_fn(TrackChildModel) -> bool {
    |c: TrackChildModel|
        match c {
            TrackChildModel::Clip(c) => link_group_of(c) == Some(group) && contains_source_time(
                c,
                at,
            ),
            _ => false,
        }
}

/// The place of the first clip of the group with the time inside.
pub fn clip_with_link_group_containing(track: &Track, group_id: &str, at_s: Num) -> (r: Option<
    usize,
>)
    ensures
        match r {
            Some(j) => first_where(track@.children, containing(group_id@, at_s), 0) == Some(
                j as int,
            ),
            None => first_where(track@.children, containing(group_id@, at_s), 0) is None,
        },
{
    let ghost p = containing(group_id@, at_s);
    let mut j: usize = 0;
    while j < track.children.len()
        invariant
            j <= track@.children.len(),
            p == containing(group_id@, at_s),
            first_where(track@.children, p, 0) == first_where(track@.children, p, j as int),
        decreases track@.children.len() - j,
    {
        if let TrackChild::Clip(c) = &track.children[j] {
            let group = clip_link_group_id(c);
            if is_some_text(&group, group_id) && clip_contains_source_time(c, at_s) {
                return Some(j);
            }
        }
        j = j + 1;
    }
    None
}

/// The place of the clip to be split on a layer.
pub open spec fn split_place(tl: TimelineModel, i: int, group: Str, at: Num) -> Option<int> {
    match track_at(tl, i) {
        Some(t) => first_where(t.children, containing(group, at), 0),
        None => None,
    }
}

/// The timeline with the linked clips on the first `n` layers, but for one, cut
/// in two, and how many there were.  The `k`-th of them gets id `ids[k]`.
pub open spec fn split_siblings(
    tl: TimelineModel,
    but: int,
    group: Str,
    at: Num,
    ids: Seq<Str>,
    n: int,
) -> (TimelineModel, nat)
    decreases n,
{
    if n <= 0 {
        (tl, 0)
    } else {
        let (t, k) = split_siblings(tl, but, group, at, ids, n - 1);
        match split_place(t, n - 1, group, at) {
            Some(j) if n - 1 != but => (
                split_at(
                    t,
                    ClipLocator { track_index: (n - 1) as usize, child_index: j as usize },
                    at,
                    ids[k as int],
                ),
                k + 1,
            ),
            _ => (t, k),
        }
    }
}

/// Splitting looks at no more ids than it uses.
proof fn lemma_split_siblings(
    tl: TimelineModel,
    but: int,
    group: Str,
    at: Num,
    ids: Seq<Str>,
    more: Seq<Str>,
    n: int,
)
    requires
        split_siblings(tl, but, group, at, ids, n).1 <= ids.len() <= more.len(),
        forall|k: int| 0 <= k < ids.len() ==> ids[k] == more[k],
    ensures
        split_siblings(tl, but, group, at, ids, n) == split_siblings(
            tl,
            but,
            group,
            at,
            more,
            n,
        ),
    decreases n,
{
    if n > 0 {
        lemma_split_siblings(tl, but, group, at, ids, more, n - 1);
    }
}

/// Cuts in two, on every other track, the first clip of the group with the time
/// inside.
#[verifier::rlimit(30)]
pub fn split_linked_siblings(
    working: Timeline,
    primary: usize,
    group_id: &str,
    at_s: Num,
    ids: &mut ClipIds,
) -> (r: (Timeline, usize))
    ensures
        drew(*old(ids), *final(ids), r.1 as nat),
        (r.0@, r.1 as nat) == split_siblings(
            working@,
            primary as int,
            group_id@,
            at_s,
            fresh(*old(ids), *final(ids)),
            working@.tracks.children.len() as int,
        ),
{
    let ghost start = *ids;
    let ghost tl = working@;
    let mut out = working;
    let mut count: usize = 0;
    let mut i: usize = 0;
    while i < out.tracks.children.len()
        invariant
            i <= out@.tracks.children.len(),
            out@.tracks.children.len() == tl.tracks.children.len(),
            start == *old(ids),
            drew(start, *ids, count as nat),
            count <= i,
            (out@, count as nat) == split_siblings(
                tl,
                primary as int,
                group_id@,
                at_s,
                fresh(start, *ids),
                i as int,
            ),
        decreases tl.tracks.children.len() - i,
    {
        let mut found: Option<usize> = None;
        if i != primary {
            if let Some(track) = out.track(i) {
                found = clip_with_link_group_containing(track, group_id, at_s);
            }
        }
        if let Some(j) = found {
            let ghost mid = *ids;
            let ghost so_far = fresh(start, mid);
            let ghost layer = track_at(out@, i as int)->0;
            proof {
                lemma_first_where(layer.children, containing(group_id@, at_s), 0);
            }
            let id = ids.draw();
            let loc = ClipLocator { track_index: i, child_index: j };
            proof {
                assert(fresh(mid, *ids).len() == 1);
                lemma_drew(start, mid, *ids);
                lemma_split_siblings(
                    tl,
                    primary as int,
                    group_id@,
                    at_s,
                    so_far,
                    fresh(start, *ids),
                    i as int,
                );
                assert(fresh(start, *ids)[count as int] == id@);
            }
            out = split_clip(out, loc, at_s, id.as_str());
            count = count + 1;
        }
        i = i + 1;
    }
    (out, count)
}

/// What was cut: the time and the source range around it.
pub open spec fn split_note(c: ClipModel, r: TimeRange, at: Num, id: Str, linked: nat) -> Str {
    "split clip "@ + quoted(c.name) + " at "@ + milli3(at) + "s → "@ + quoted(c.name) + " ["@
        + milli3(r.start_time.seconds) + "s.."@ + milli3(at) + "s] + "@ + quoted(c.name + "-b"@)
        + " anchor=clip_uuid="@ + id + " ["@ + milli3(at) + "s.."@ + milli3(end_of(r)) + "s]"@ + (
    if linked == 0 {
        ""@
    } else {
        " ("@ + decimal(linked) + " linked sibling"@ + plural(linked) + " also split)"@
    })
}

/// The source time at which a clip is cut: as asked for, moved by as much as the
/// place on the timeline moves when it snaps.
pub open spec fn split_time(
    tl: TimelineModel,
    index: usize,
    loc: ClipLocator,
    r: TimeRange,
    at: Num,
    snap: Option<SnapOptions>,
) -> Result<Num, Refusal> {
    if snap is None {
        Ok(at)
    } else {
        let projected = track_time(tl, loc.track_index as int, loc.child_index as int).plus(
            at.minus(r.start_time.seconds),
        );
        match snapped(tl, index, projected, snap) {
            Err(e) => Err(e),
            Ok(s) => Ok(at.plus(s.minus(projected))),
        }
    }
}

/// Cutting a clip in two at a source time strictly inside its range, and with it
/// the linked clips on other tracks.  The right part gets id `ids[0]`, those of
/// the linked clips get the ids behind it.
pub open spec fn split_clip_op(
    tl: TimelineModel,
    index: usize,
    at_s: Num,
    snap: Option<SnapOptions>,
    locator: Option<ClipLocator>,
    ids: Seq<Str>,
) -> Done {
    match found_clip(tl, index, locator, ""@) {
        Err(e) => Err(e),
        Ok((loc, clip)) => match clip.source_range {
            None => Err(
                bad(
                    index,
                    "clip has no source_range; cannot split a clip with implicit range"@,
                ),
            ),
            Some(r) => match split_time(tl, index, loc, r, at_s, snap) {
                Err(e) => Err(e),
                Ok(at) => if at.at_most(r.start_time.seconds) || end_of(r).at_most(at) {
                    Err(
                        bad(
                            index,
                            "split: at_s "@ + shown(at)
                                + " must lie strictly inside source range ["@ + shown(
                                r.start_time.seconds,
                            ) + ", "@ + shown(end_of(r)) + ")"@,
                        ),
                    )
                } else {
                    let cut = split_at(tl, loc, at, ids[0]);
                    let (done, linked) = match link_group_of(clip) {
                        None => (cut, 0nat),
                        Some(g) => split_siblings(
                            cut,
                            loc.track_index as int,
                            g,
                            at,
                            ids.skip(1),
                            cut.tracks.children.len() as int,
                        ),
                    };
                    Ok((done, split_note(clip, r, at, ids[0], linked)))
                },
            },
        },
    }
}

fn find_split_time(
    working: &Timeline,
    index: usize,
    loc: ClipLocator,
    r: TimeRange,
    at: Num,
    snap: &Option<SnapOptions>,
) -> (res: Result<Num, ApplyError>)
    ensures
        match res {
            Ok(t) => split_time(working@, index, loc, r, at, *snap) == Ok::<Num, Refusal>(t),
            Err(e) => split_time(working@, index, loc, r, at, *snap) == Err::<Num, Refusal>(e@),
        },
{
    if snap.is_none() {
        return Ok(at);
    }
    let start = crate::edit::track_time_at(working, loc.track_index, loc.child_index);
    let projected = start.plus(at.minus(r.start_time.seconds));
    match resolve_snap_time(working, index, projected, snap) {
        Ok(s) => Ok(at.plus(s.minus(projected))),
        Err(e) => Err(e),
    }
}

fn tell_split(clip: &Clip, r: TimeRange, at: Num, id: &str, linked: usize) -> (res: String)
    ensures
        res@ == split_note(clip@, r, at, id@, linked as nat),
{
    let linked_note = if linked == 0 {
        "".to_owned()
    } else {
        cat5(" (", count_usize(linked).as_str(), " linked sibling", plural_of(linked), " also split)")
    };
    let said = cat12(
        "split clip ",
        quote(clip.name.as_str()).as_str(),
        " at ",
        fix3(at).as_str(),
        "s → ",
        quote(clip.name.as_str()).as_str(),
        " [",
        fix3(r.start_time.seconds).as_str(),
        "s..",
        fix3(at).as_str(),
        "s] + ",
        quote(cat2(clip.name.as_str(), "-b").as_str()).as_str(),
    );
    cat9(
        said.as_str(),
        " anchor=clip_uuid=",
        id,
        " [",
        fix3(at).as_str(),
        "s..",
        fix3(end_of(r)).as_str(),
        "s]",
        linked_note.as_str(),
    )
}

/// Cuts a clip in two.
#[verifier::rlimit(30)]
pub fn apply_split(
    working: Timeline,
    index: usize,
    at_s: Num,
    snap: &Option<SnapOptions>,
    locator: Option<ClipLocator>,
    ids: &mut ClipIds,
) -> (res: Result<(Timeline, String), ApplyError>)
    ensures
        drew(*old(ids), *final(ids), fresh(*old(ids), *final(ids)).len()),
        res is Ok <==> fresh(*old(ids), *final(ids)).len() > 0,
        shows(
            res,
            split_clip_op(
                working@,
                index,
                at_s,
                *snap,
                locator,
                fresh(*old(ids), *final(ids)),
            ),
        ),
{
    let ghost tl = working@;
    let (loc, clip) = match find_clip(&working, index, locator, "") {
        Ok(p) => p,
        Err(e) => {
            return Err(e);
        },
    };
    let r = match clip.source_range {
        Some(r) => r,
        None => {
            return Err(
                invalid_str(
                    index,
                    "clip has no source_range; cannot split a clip with implicit range",
                ),
            );
        },
    };
    let at = match find_split_time(&working, index, loc, r, at_s, snap) {
        Ok(t) => t,
        Err(e) => {
            return Err(e);
        },
    };
    let start_s = r.start_time.seconds;
    let end_s = end_of(r);
    if at.at_most(start_s) || end_s.at_most(at) {
        return Err(
            invalid(
                index,
                cat7(
                    "split: at_s ",
                    show(at).as_str(),
                    " must lie strictly inside source range [",
                    show(start_s).as_str(),
                    ", ",
                    show(end_s).as_str(),
                    ")",
                ),
            ),
        );
    }
    let group = clip_link_group_id(&clip);
    let id = ids.draw();
    let ghost one = *ids;
    let out = split_clip(working, loc, at, id.as_str());
    let (out, linked) = match &group {
        Some(g) => split_linked_siblings(out, loc.track_index, g.as_str(), at, ids),
        None => (out, 0usize),
    };
    proof {
        lemma_drew(*old(ids), one, *ids);
        assert(fresh(*old(ids), one) =~= seq![id@]);
        assert(fresh(*old(ids), *ids)[0] == id@);
        assert(fresh(*old(ids), *ids).skip(1) =~= fresh(one, *ids));
    }
    let said = tell_split(&clip, r, at, id.as_str(), linked);
    Ok((out, said))
}

} // verus!

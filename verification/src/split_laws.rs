//! What splitting and deleting clips do, on all tracks.
use vstd::prelude::*;

use crate::boundary::without_cuts_at;
use crate::carve::segment;
use crate::clip::{end_of, first_where, lemma_first_where, link_group_of, uuid_of};
use crate::edit::{child_seconds, gap_of};
use crate::effect_laws::{known_as, split_edit};
use crate::error::Refusal;
use crate::gap::{deleted_clip, merged_all, rate_or_24, without_transitions_around};
use crate::laws::law_put_then_lookup;
use crate::measures::{
    first, has_clip, has_row, last, law_a_place_is_found, law_linked_clips_are_found,
    law_starts_add_up, lemma_onset_front, length, linked, millionth, onset, plain, row, the_clip,
    tick,
};
use crate::model::{ClipLocator, ClipModel, TimelineModel, TrackChildModel};
use crate::num::Num;
use crate::op::SnapOptions;
use crate::playback::{
    all_timed, frame, law_merging_shows_the_same, lemma_onsets, lemma_shown_front, lemma_shown_rest,
    lemma_shown_while, shown_at, shown_by, steady, timed, whole,
};
use crate::snap::snapped;
use crate::split::{
    containing, left_part, right_part, split_at, split_clip_op, split_siblings, split_time,
};
use crate::text::Str;
use crate::time_laws::gaps_count;

verus! {

// ---- splits -----------------------------------------------------------------------

/// Whether a clip shows one stretch of another, and is like it in media, effects and
/// markers.
pub open spec fn part_of(p: TrackChildModel, c: ClipModel, from: int, to: int) -> bool {
    match p {
        TrackChildModel::Clip(x) => {
            &&& x.media_reference == c.media_reference
            &&& x.effects == c.effects
            &&& x.markers == c.markers
            &&& x.source_range matches Some(r) && plain(r) && first(r) == from && last(r) == to
        },
        _ => false,
    }
}

/// Whether a clip of a track has been cut in two at a time of its source: the first
/// part keeps its name, the second stands right behind it under a name and an id of
/// its own, and nothing else has changed.
pub open spec fn cut_in_two(
    before: Seq<TrackChildModel>,
    after: Seq<TrackChildModel>,
    j: int,
    at: int,
) -> bool {
    let c = before[j]->Clip_0;
    let r = c.source_range->0;
    &&& 0 <= j < before.len()
    &&& before[j] is Clip
    &&& c.source_range is Some
    &&& first(r) < at < last(r)
    &&& after.len() == before.len() + 1
    &&& part_of(after[j], c, first(r), at)
    &&& part_of(after[j + 1], c, at, last(r))
    &&& after[j]->Clip_0.name == c.name
    &&& after[j + 1]->Clip_0.name == c.name + "-b"@
    &&& forall|n: int| 0 <= n < j ==> #[trigger] after[n] == before[n]
    &&& forall|n: int| j < n < before.len() ==> #[trigger] before[n] == after[n + 1]
}

/// Whether the second part of a clip that was cut in two goes by an id.
pub open spec fn second_is(after: Seq<TrackChildModel>, j: int, id: Str) -> bool {
    uuid_of(after[j + 1]->Clip_0) == Some(id)
}

proof fn lemma_two_parts(c: ClipModel, at: Num, id: Str)
    requires
        c.source_range is Some,
        plain(c.source_range->0),
        at is Fin,
        first(c.source_range->0) < tick(at) < last(c.source_range->0),
    ensures
        ({
            let r = c.source_range->0;
            let a = left_part(c, r, at);
            let b = right_part(c, r, at, id);
            &&& part_of(TrackChildModel::Clip(a), c, first(r), tick(at))
            &&& part_of(TrackChildModel::Clip(b), c, tick(at), last(r))
            &&& a.name == c.name
            &&& b.name == c.name + "-b"@
            &&& uuid_of(b) == Some(id)
        }),
{
    let r = c.source_range->0;
    let b = right_part(c, r, at, id);
    let m = b.metadata.montage->0;
    assert(b.metadata.montage is Some);
    let before = crate::clip::clip_montage(
        crate::clip::trail_only(
            crate::clip::with_range(
                ClipModel { name: c.name + "-b"@, ..c },
                crate::model::TimeRange::seconds(at, end_of(r).minus(at), r.start_time.rate),
            ),
        ),
    );
    law_put_then_lookup(
        before.extra,
        "clip_uuid"@,
        crate::meta::Meta::Text(id),
        "clip_uuid"@,
    );
}

proof fn lemma_split_layer(tl: TimelineModel, loc: ClipLocator, at: Num, id: Str)
    requires
        has_clip(tl, loc),
        the_clip(tl, loc).source_range is Some,
        plain(the_clip(tl, loc).source_range->0),
        at is Fin,
        first(the_clip(tl, loc).source_range->0) < tick(at) < last(
            the_clip(tl, loc).source_range->0,
        ),
    ensures
        ({
            let i = loc.track_index as int;
            let j = loc.child_index as int;
            let out = split_at(tl, loc, at, id);
            &&& out.tracks.children.len() == tl.tracks.children.len()
            &&& has_row(out, i)
            &&& cut_in_two(row(tl, i), row(out, i), j, tick(at))
            &&& second_is(row(out, i), j, id)
            &&& forall|s: int|
                0 <= s < tl.tracks.children.len() && s != i ==> #[trigger] out.tracks.children[s]
                    == tl.tracks.children[s]
        }),
{
    law_a_place_is_found(tl, loc);
    let i = loc.track_index as int;
    let j = loc.child_index as int;
    let c = the_clip(tl, loc);
    let r = c.source_range->0;
    lemma_two_parts(c, at, id);
    let out = split_at(tl, loc, at, id);
    let a = TrackChildModel::Clip(left_part(c, r, at));
    let b = TrackChildModel::Clip(right_part(c, r, at, id));
    let after = row(tl, i).update(j, a).insert(j + 1, b);
    assert(row(out, i) == after);
    assert(after[j] == a);
    assert(after[j + 1] == b);
    assert forall|n: int| j < n < row(tl, i).len() implies #[trigger] row(tl, i)[n] == after[n
        + 1] by {}
}

/// Whether a child is a clip of a link group that has a time inside its range, off
/// both ends.
pub open spec fn spans(c: TrackChildModel, group: Str, at: int) -> bool {
    linked(c, group) && (c->Clip_0.source_range matches Some(r) && first(r) < at < last(r))
}

/// Whether the first clip of a link group with a time inside stands at a place.
pub open spec fn first_spanning(
    children: Seq<TrackChildModel>,
    group: Str,
    at: int,
    k: int,
) -> bool {
    &&& 0 <= k < children.len()
    &&& spans(children[k], group, at)
    &&& forall|n: int| 0 <= n < k ==> !spans(#[trigger] children[n], group, at)
}

/// Whether no clip of a link group has a time inside.
pub open spec fn none_spanning(children: Seq<TrackChildModel>, group: Str, at: int) -> bool {
    forall|n: int| 0 <= n < children.len() ==> !spans(#[trigger] children[n], group, at)
}

/// The first linked clip with a time inside is the one that is found.
pub proof fn law_first_spanning_is_found(children: Seq<TrackChildModel>, group: Str, at: Num)
    requires
        at is Fin,
        all_timed(children),
    ensures
        forall|k: int| #[trigger]
            first_spanning(children, group, tick(at), k) <==> first_where(
                children,
                containing(group, at),
                0,
            ) == Some(k),
        none_spanning(children, group, tick(at)) <==> first_where(
            children,
            containing(group, at),
            0,
        ) is None,
{
    let p = containing(group, at);
    lemma_first_where(children, p, 0);
    assert forall|n: int| 0 <= n < children.len() implies p(#[trigger] children[n]) == spans(
        children[n],
        group,
        tick(at),
    ) by {
        assert(timed(children[n]));
        if let TrackChildModel::Clip(c) = children[n] {
            law_linked_clips_are_found(c, group);
        }
    }
    if let Some(i) = first_where(children, p, 0) {
        assert(first_spanning(children, group, tick(at), i));
        assert forall|k: int| #[trigger] first_spanning(children, group, tick(at), k) implies k
            == i by {
            if k < i {
                assert(!p(children[k]));
            }
            if i < k {
                assert(!spans(children[i], group, tick(at)));
            }
        }
        assert(spans(children[i], group, tick(at)));
    }
}

/// Whether the linked clip on a track, if any, has been cut in two at a time.
pub open spec fn cut_alike(
    tl: TimelineModel,
    out: TimelineModel,
    group: Str,
    at: int,
    s: int,
) -> bool {
    &&& !has_row(tl, s) || none_spanning(row(tl, s), group, at) ==> out.tracks.children[s]
        == tl.tracks.children[s]
    &&& has_row(tl, s) ==> forall|k: int| #[trigger]
        first_spanning(row(tl, s), group, at, k) ==> has_row(out, s) && cut_in_two(
            row(tl, s),
            row(out, s),
            k,
            at,
        )
}

/// Whether all tracks of a timeline can be addressed and their times counted.
pub open spec fn addressable(tl: TimelineModel) -> bool {
    &&& tl.tracks.children.len() <= usize::MAX
    &&& forall|s: int|
        #![trigger tl.tracks.children[s]]
        has_row(tl, s) ==> row(tl, s).len() <= usize::MAX && all_timed(row(tl, s))
}

proof fn lemma_siblings_split(
    tl: TimelineModel,
    but: int,
    group: Str,
    at: Num,
    ids: Seq<Str>,
    n: int,
)
    requires
        at is Fin,
        addressable(tl),
        0 <= n <= tl.tracks.children.len(),
    ensures
        ({
            let out = split_siblings(tl, but, group, at, ids, n).0;
            &&& out.tracks.children.len() == tl.tracks.children.len()
            &&& forall|s: int|
                #![trigger out.tracks.children[s]]
                n <= s < tl.tracks.children.len() || s == but && 0 <= s
                    < tl.tracks.children.len() ==> out.tracks.children[s] == tl.tracks.children[s]
            &&& forall|s: int|
                #![trigger out.tracks.children[s]]
                0 <= s < n && s != but ==> cut_alike(tl, out, group, tick(at), s)
        }),
    decreases n,
{
    if n > 0 {
        lemma_siblings_split(tl, but, group, at, ids, n - 1);
        let (t, k) = split_siblings(tl, but, group, at, ids, n - 1);
        let out = split_siblings(tl, but, group, at, ids, n).0;
        assert(t.tracks.children[n - 1] == tl.tracks.children[n - 1]);
        if has_row(tl, n - 1) {
            assert(all_timed(row(tl, n - 1)));
            law_first_spanning_is_found(row(tl, n - 1), group, at);
            if let Some(j) = first_where(row(tl, n - 1), containing(group, at), 0) {
                if n - 1 != but {
                    assert(first_spanning(row(tl, n - 1), group, tick(at), j));
                    assert(spans(row(tl, n - 1)[j], group, tick(at)));
                    assert(timed(row(tl, n - 1)[j]));
                    let loc = ClipLocator {
                        track_index: (n - 1) as usize,
                        child_index: j as usize,
                    };
                    assert(has_clip(t, loc));
                    lemma_split_layer(t, loc, at, ids[k as int]);
                    assert(out == split_at(t, loc, at, ids[k as int]));
                    assert(cut_alike(tl, out, group, tick(at), n - 1));
                }
            }
        }
        assert forall|s: int|
            #![trigger out.tracks.children[s]]
            0 <= s < n && s != but implies cut_alike(tl, out, group, tick(at), s) by {
            if s < n - 1 {
                assert(cut_alike(tl, t, group, tick(at), s));
                assert(out.tracks.children[s] == t.tracks.children[s]);
            }
        }
    }
}

/// The source time at which a clip is cut is the one asked for; where it snaps, it is
/// the one that the clip shows at the time on the timeline to which the cut snaps.
pub proof fn law_split_time_is_what_is_shown_there(
    tl: TimelineModel,
    index: usize,
    at_s: Num,
    snap: Option<SnapOptions>,
    loc: ClipLocator,
    to: Num,
)
    requires
        has_clip(tl, loc),
        the_clip(tl, loc).source_range is Some,
        plain(the_clip(tl, loc).source_range->0),
        steady(row(tl, loc.track_index as int)),
        at_s is Fin,
        first(the_clip(tl, loc).source_range->0) <= tick(at_s) <= last(
            the_clip(tl, loc).source_range->0,
        ),
        to is Fin,
        0 <= tick(to),
        first(the_clip(tl, loc).source_range->0) + tick(to) <= i128::MAX,
        snap is Some ==> snapped(
            tl,
            index,
            Num::Fin(
                (onset(row(tl, loc.track_index as int), loc.child_index as int) + tick(at_s) - first(
                    the_clip(tl, loc).source_range->0,
                )) as i128,
            ),
            snap,
        ) == Ok::<Num, Refusal>(to),
    ensures
        ({
            let r = the_clip(tl, loc).source_range->0;
            match split_time(tl, index, loc, r, at_s, snap) {
                Ok(at) => if snap is None {
                    at == at_s
                } else {
                    at is Fin && tick(at) == first(r) + tick(to) - onset(
                        row(tl, loc.track_index as int),
                        loc.child_index as int,
                    )
                },
                Err(_) => false,
            }
        }),
{
    law_a_place_is_found(tl, loc);
    let i = loc.track_index as int;
    let j = loc.child_index as int;
    let children = row(tl, i);
    crate::playback::lemma_steady(children);
    law_starts_add_up(children, j);
    lemma_onsets(children, 0, j);
    lemma_onsets(children, j, j + 1);
    lemma_onsets(children, j + 1, children.len() as int);
}

/// A clip is split exactly where the time lies inside its range, off both ends.  It
/// is then cut in two there, the second part under the id that was drawn, and so, on
/// every other track, is the first clip of its link group that has the time inside.
/// Everything else stays.
pub proof fn law_split_cuts_linked_clips_alike(
    tl: TimelineModel,
    index: usize,
    at_s: Num,
    snap: Option<SnapOptions>,
    loc: ClipLocator,
    ids: Seq<Str>,
    at: Num,
    s: int,
)
    requires
        has_clip(tl, loc),
        the_clip(tl, loc).source_range is Some,
        plain(the_clip(tl, loc).source_range->0),
        addressable(tl),
        row(tl, loc.track_index as int).len() < usize::MAX,
        at is Fin,
        split_time(tl, index, loc, the_clip(tl, loc).source_range->0, at_s, snap) == Ok::<
            Num,
            Refusal,
        >(at),
        0 <= s < tl.tracks.children.len(),
    ensures
        ({
            let i = loc.track_index as int;
            let r = the_clip(tl, loc).source_range->0;
            match split_clip_op(tl, index, at_s, snap, Some(loc), ids) {
                Ok((out, _)) => {
                    &&& first(r) < tick(at) < last(r)
                    &&& out.tracks.children.len() == tl.tracks.children.len()
                    &&& has_row(out, i)
                    &&& cut_in_two(row(tl, i), row(out, i), loc.child_index as int, tick(at))
                    &&& second_is(row(out, i), loc.child_index as int, ids[0])
                    &&& s != i ==> match link_group_of(the_clip(tl, loc)) {
                        Some(g) => cut_alike(tl, out, g, tick(at), s),
                        None => out.tracks.children[s] == tl.tracks.children[s],
                    }
                },
                Err(_) => tick(at) <= first(r) || last(r) <= tick(at),
            }
        }),
{
    law_a_place_is_found(tl, loc);
    let i = loc.track_index as int;
    let r = the_clip(tl, loc).source_range->0;
    if first(r) < tick(at) < last(r) {
        lemma_split_layer(tl, loc, at, ids[0]);
        let cut = split_at(tl, loc, at, ids[0]);
        if let Some(g) = link_group_of(the_clip(tl, loc)) {
            lemma_split_addressable(tl, cut, loc, at);
            let n = cut.tracks.children.len() as int;
            lemma_siblings_split(cut, i, g, at, ids.skip(1), n);
            let out = split_siblings(cut, i, g, at, ids.skip(1), n).0;
            assert(out.tracks.children[i] == cut.tracks.children[i]);
            if s != i {
                assert(cut.tracks.children[s] == tl.tracks.children[s]);
                assert(cut_alike(cut, out, g, tick(at), s)) by {
                    assert(out.tracks.children[s] == out.tracks.children[s]);
                }
            }
        }
    }
}

proof fn lemma_split_addressable(
    tl: TimelineModel,
    cut: TimelineModel,
    loc: ClipLocator,
    at: Num,
)
    requires
        addressable(tl),
        ({
            let i = loc.track_index as int;
            &&& cut.tracks.children.len() == tl.tracks.children.len()
            &&& has_row(cut, i)
            &&& cut_in_two(row(tl, i), row(cut, i), loc.child_index as int, tick(at))
            &&& forall|s: int|
                0 <= s < tl.tracks.children.len() && s != i ==> #[trigger] cut.tracks.children[s]
                    == tl.tracks.children[s]
        }),
        row(tl, loc.track_index as int).len() < usize::MAX,
        has_row(tl, loc.track_index as int),
    ensures
        addressable(cut),
{
    let i = loc.track_index as int;
    let j = loc.child_index as int;
    assert forall|s: int|
        #![trigger cut.tracks.children[s]]
        has_row(cut, s) implies row(cut, s).len() <= usize::MAX && all_timed(row(cut, s)) by {
        assert(0 <= s < tl.tracks.children.len());
        if s == i {
            assert(all_timed(row(tl, i))) by {
                assert(tl.tracks.children[i] is Track);
            }
            assert forall|n: int| 0 <= n < row(cut, i).len() implies timed(
                #[trigger] row(cut, i)[n],
            ) by {
                if n < j {
                    assert(row(cut, i)[n] == row(tl, i)[n]);
                    assert(timed(row(tl, i)[n]));
                } else if n > j + 1 {
                    assert(row(tl, i)[n - 1] == row(cut, i)[n - 1 + 1]);
                    assert(timed(row(tl, i)[n - 1]));
                }
            }
        } else {
            assert(tl.tracks.children[s] == cut.tracks.children[s]);
        }
    }
}

/// A track of which a clip has been cut in two shows the same as before at all times.
pub proof fn law_cut_in_two_shows_the_same(
    before: Seq<TrackChildModel>,
    after: Seq<TrackChildModel>,
    j: int,
    at: int,
    t: int,
)
    requires
        all_timed(before),
        cut_in_two(before, after, j, at),
    ensures
        shown_at(after, t) == shown_at(before, t),
        whole(after) == whole(before),
{
    let c = before[j]->Clip_0;
    let r = c.source_range->0;
    assert(timed(before[j]));
    assert forall|n: int| 0 <= n < after.len() implies timed(#[trigger] after[n]) by {
        if n < j {
            assert(after[n] == before[n]);
            assert(timed(before[n]));
        } else if n > j + 1 {
            assert(before[n - 1] == after[n - 1 + 1]);
            assert(timed(before[n - 1]));
        }
    }
    lemma_shown_front(after, before, j, t);
    let a = onset(before, j);
    assert(onset(after, j + 1) == a + at - first(r));
    assert(onset(after, j + 2) == a + last(r) - first(r));
    assert(onset(before, j + 1) == a + last(r) - first(r));
    lemma_onsets(before, 0, j);
    let n = before.len() as int;
    assert forall|k: int| j + 1 <= k < n implies #[trigger] before[k] == after[k + 1] by {}
    lemma_shown_rest(before, after, j + 1, 1, n, onset(before, j + 1));
    if t >= onset(before, j + 1) {
        lemma_shown_rest(before, after, j + 1, 1, n, t);
    } else if t < a {
        lemma_before(before, j, n, t);
        lemma_before(after, j, n + 1, t);
    } else {
        lemma_shown_while(before, n, j, t);
        if t < onset(after, j + 1) {
            lemma_shown_while(after, n + 1, j, t);
        } else {
            lemma_shown_while(after, n + 1, j + 1, t);
        }
    }
}

/// What is shown before a place begins is shown by the children in front of it.
pub proof fn lemma_before(children: Seq<TrackChildModel>, k: int, n: int, t: int)
    requires
        all_timed(children),
        0 <= k <= n <= children.len(),
        t < onset(children, k),
    ensures
        shown_by(children, n, t) == shown_by(children, k, t),
    decreases n,
{
    if k < n {
        lemma_onsets(children, k, n - 1);
        lemma_before(children, k, n - 1, t);
    }
}

// ---- deletes ------------------------------------------------------------------------

/// A child that takes the place of one as long changes only what is shown while it
/// lasts.
pub proof fn lemma_put_shows(children: Seq<TrackChildModel>, j: int, c: TrackChildModel, t: int)
    requires
        all_timed(children),
        0 <= j < children.len(),
        timed(c),
        length(c) == length(children[j]),
    ensures
        ({
            let after = children.update(j, c);
            &&& all_timed(after)
            &&& whole(after) == whole(children)
            &&& onset(after, j) == onset(children, j)
            &&& onset(after, j + 1) == onset(children, j + 1)
            &&& shown_at(after, t) == (if onset(children, j) <= t < onset(children, j + 1) {
                frame(c, t - onset(children, j))
            } else {
                shown_at(children, t)
            })
        }),
{
    let after = children.update(j, c);
    let n = children.len() as int;
    assert forall|k: int| 0 <= k < after.len() implies timed(#[trigger] after[k]) by {
        if k != j {
            assert(after[k] == children[k]);
            assert(timed(children[k]));
        }
    }
    lemma_onset_front(after, children, j);
    lemma_onset_front(after, children, j + 1);
    lemma_onset_front(after, children, n);
    if onset(children, j) <= t < onset(children, j + 1) {
        lemma_shown_while(after, n, j, t);
    } else if t < onset(children, j) {
        lemma_shown_front(after, children, j, t);
        lemma_before(after, j, n, t);
        lemma_before(children, j, n, t);
    } else {
        lemma_shown_rest(children, after, j + 1, 0, n, t);
    }
}

/// A child that does not last can go without anything being shown at another time.
pub proof fn lemma_gone_shows(children: Seq<TrackChildModel>, r: int, t: int)
    requires
        all_timed(children),
        0 <= r < children.len(),
        length(children[r]) == 0,
    ensures
        all_timed(children.remove(r)),
        whole(children.remove(r)) == whole(children),
        shown_at(children.remove(r), t) == shown_at(children, t),
{
    let after = children.remove(r);
    let n = children.len() as int;
    assert forall|k: int| 0 <= k < after.len() implies timed(#[trigger] after[k]) by {
        if k < r {
            assert(after[k] == children[k]);
            assert(timed(children[k]));
        } else {
            assert(after[k] == children[k + 1]);
            assert(timed(children[k + 1]));
        }
    }
    lemma_shown_front(after, children, r, t);
    assert(onset(children, r + 1) == onset(children, r));
    assert forall|k: int| r + 1 <= k < n implies #[trigger] children[k] == after[k - 1] by {}
    if t >= onset(children, r + 1) {
        lemma_shown_rest(children, after, r + 1, -1, n, t);
    } else {
        lemma_shown_rest(children, after, r + 1, -1, n, onset(children, r + 1));
        lemma_before(children, r, n, t);
        lemma_before(after, r, n - 1, t);
    }
}

/// Where a clip has been deleted its track shows nothing as long as the clip lasted;
/// at all other times it shows what it did, and it lasts as long.  All other tracks
/// stay.
pub proof fn law_delete_leaves_empty_time(
    tl: TimelineModel,
    index: usize,
    loc: ClipLocator,
    s: int,
    t: int,
)
    requires
        has_row(tl, loc.track_index as int),
        loc.child_index < row(tl, loc.track_index as int).len(),
        steady(row(tl, loc.track_index as int)),
        gaps_count(row(tl, loc.track_index as int)),
        crate::measures::thousandth() < length(
            row(tl, loc.track_index as int)[loc.child_index as int],
        ),
        0 <= s < tl.tracks.children.len(),
    ensures
        ({
            let i = loc.track_index as int;
            let j = loc.child_index as int;
            let before = row(tl, i);
            match deleted_clip(tl, index, Some(loc)) {
                Ok((out, _)) => {
                    &&& out.tracks.children.len() == tl.tracks.children.len()
                    &&& s != i ==> out.tracks.children[s] == tl.tracks.children[s]
                    &&& before[j] matches TrackChildModel::Clip(c) ==> out.montage
                        == without_cuts_at(tl, known_as(c)).montage
                    &&& has_row(out, i)
                    &&& whole(row(out, i)) == whole(before)
                    &&& shown_at(row(out, i), t) == (if onset(before, j) <= t < onset(
                        before,
                        j + 1,
                    ) {
                        None
                    } else {
                        shown_at(before, t)
                    })
                },
                Err(_) => false,
            }
        }),
{
    law_a_place_is_found(tl, loc);
    let i = loc.track_index as int;
    let j = loc.child_index as int;
    let before = row(tl, i);
    let c = before[j];
    assert(timed(c));
    let rate = rate_or_24(c);
    let gap = gap_of(child_seconds(c), rate);
    let a = before.update(j, gap);
    lemma_put_shows(before, j, gap, t);
    let b = if j + 1 < a.len() && a[j + 1] is Transition {
        a.remove(j + 1)
    } else {
        a
    };
    if j + 1 < a.len() && a[j + 1] is Transition {
        lemma_gone_shows(a, j + 1, t);
    }
    let d = if 0 < j && b[j - 1] is Transition {
        b.remove(j - 1)
    } else {
        b
    };
    if 0 < j && b[j - 1] is Transition {
        lemma_gone_shows(b, j - 1, t);
    }
    assert(without_transitions_around(a, j).0 == d);
    lemma_gaps_after_delete(before, j, gap, a, b, d);
    law_merging_shows_the_same(d, rate, t);
    let out = deleted_clip(tl, index, Some(loc))->Ok_0.0;
    assert(row(out, i) == merged_all(d, rate));
}

proof fn lemma_gaps_after_delete(
    before: Seq<TrackChildModel>,
    j: int,
    gap: TrackChildModel,
    a: Seq<TrackChildModel>,
    b: Seq<TrackChildModel>,
    d: Seq<TrackChildModel>,
)
    requires
        gaps_count(before),
        0 <= j < before.len(),
        a == before.update(j, gap),
        b == a || (j + 1 < a.len() && b == a.remove(j + 1)),
        d == b || (0 < j <= b.len() && d == b.remove(j - 1)),
        gap matches TrackChildModel::Gap(g) ==> crate::num::milli().less(
            g.source_range.duration.seconds,
        ),
    ensures
        gaps_count(d),
{
    assert forall|k: int| 0 <= k < a.len() implies ((#[trigger] a[k]) matches TrackChildModel::Gap(
        g,
    ) ==> crate::num::milli().less(g.source_range.duration.seconds)) by {
        if k != j {
            assert(a[k] == before[k]);
        }
    }
    assert forall|k: int| 0 <= k < b.len() implies ((#[trigger] b[k]) matches TrackChildModel::Gap(
        g,
    ) ==> crate::num::milli().less(g.source_range.duration.seconds)) by {
        if b != a {
            assert(b[k] == (if k < j + 1 {
                a[k]
            } else {
                a[k + 1]
            }));
        }
    }
    assert forall|k: int| 0 <= k < d.len() implies ((#[trigger] d[k]) matches TrackChildModel::Gap(
        g,
    ) ==> crate::num::milli().less(g.source_range.duration.seconds)) by {
        if d != b {
            assert(d[k] == (if k < j - 1 {
                b[k]
            } else {
                b[k + 1]
            }));
        }
    }
}

/// A clip that is deleted takes the transitions right next to it along, and no
/// others: as many clips and nested sequences are left as stood there, but for it.
pub proof fn law_delete_takes_its_transitions_along(
    children: Seq<TrackChildModel>,
    j: int,
)
    requires
        0 <= j < children.len(),
        !(children[j] is Transition),
    ensures
        ({
            let after = without_transitions_around(children, j).0;
            let front = 0 < j && children[j - 1] is Transition;
            let back = j + 1 < children.len() && children[j + 1] is Transition;
            let at = if front {
                j - 1
            } else {
                j
            };
            &&& after[at] == children[j]
            &&& after.take(at) == children.take(at)
            &&& after.skip(at + 1) == children.skip(if back {
                j + 2
            } else {
                j + 1
            })
        }),
{
    let a = if j + 1 < children.len() && children[j + 1] is Transition {
        children.remove(j + 1)
    } else {
        children
    };
    let after = without_transitions_around(children, j).0;
    let front = 0 < j && children[j - 1] is Transition;
    let back = j + 1 < children.len() && children[j + 1] is Transition;
    let at = if front {
        j - 1
    } else {
        j
    };
    if front {
        assert(a[j - 1] == children[j - 1]);
    }
    assert(after.take(at) =~= children.take(at));
    assert(after.skip(at + 1) =~= children.skip(if back {
        j + 2
    } else {
        j + 1
    }));
}

// ---- what goes with which part ----------------------------------------------------------------

/// The first part of a clip that is cut in two keeps the lead of its split edit, and the
/// second its trail; neither keeps the other's.  Both keep all else that is kept of the
/// clip, but for the id of the second.
pub proof fn law_each_part_keeps_its_side_of_a_split_edit(c: ClipModel, at: Num, id: Str)
    requires
        c.source_range is Some,
    ensures
        ({
            let r = c.source_range->0;
            let a = left_part(c, r, at);
            let b = right_part(c, r, at, id);
            &&& split_edit(c) matches Some(s) ==> {
                &&& split_edit(a) is Some <==> s.audio_lead_s is Some
                &&& split_edit(a) matches Some(x) ==> x.audio_lead_s == s.audio_lead_s
                    && x.audio_lead_from_clip_id == s.audio_lead_from_clip_id && x.audio_trail_s
                    is None && x.audio_trail_to_clip_id is None
                &&& split_edit(b) is Some <==> s.audio_trail_s is Some
                &&& split_edit(b) matches Some(x) ==> x.audio_trail_s == s.audio_trail_s
                    && x.audio_trail_to_clip_id == s.audio_trail_to_clip_id && x.audio_lead_s
                    is None && x.audio_lead_from_clip_id is None
            }
            &&& split_edit(c) is None ==> split_edit(a) is None && split_edit(b) is None
            &&& c.metadata.montage matches Some(m) ==> {
                &&& a.metadata.montage matches Some(x) && x.extra == m.extra && x.audio_override
                    == m.audio_override && x.transcript_snippet == m.transcript_snippet
                    && x.reasoning == m.reasoning
                &&& b.metadata.montage matches Some(x) && x.audio_override == m.audio_override
                    && x.transcript_snippet == m.transcript_snippet && x.reasoning == m.reasoning
            }
            &&& a.metadata.extra == c.metadata.extra
            &&& b.metadata.extra == c.metadata.extra
        }),
{
}

/// A part of a clip that is left in front of or behind a stretch shows what the clip shows
/// there; one that gets an id of its own gets a name of its own too.
pub proof fn law_what_is_left_of_a_clip(
    c: ClipModel,
    at: Num,
    from: Num,
    to: Num,
    id: Option<Str>,
)
    requires
        c.source_range is Some,
        plain(c.source_range->0),
        at is Fin && from is Fin && to is Fin,
        0 <= tick(at) <= tick(from) <= tick(to),
        tick(to) - tick(at) <= last(c.source_range->0) - first(c.source_range->0),
    ensures
        ({
            let r = c.source_range->0;
            match segment(TrackChildModel::Clip(c), at, from, to, id) {
                Some(p) => {
                    &&& millionth() < tick(to) - tick(from)
                    &&& part_of(
                        p,
                        c,
                        first(r) + tick(from) - tick(at),
                        first(r) + tick(to) - tick(at),
                    )
                    &&& id is None ==> p->Clip_0.name == c.name && p->Clip_0.metadata == c.metadata
                    &&& id matches Some(x) ==> p->Clip_0.name == c.name + "-lift-tail"@ && uuid_of(
                        p->Clip_0,
                    ) == Some(x)
                },
                None => tick(to) - tick(from) <= millionth(),
            }
        }),
{
    if let Some(x) = id {
        let m = crate::clip::clip_montage(c);
        law_put_then_lookup(
            m.extra,
            "clip_uuid"@,
            crate::meta::Meta::Text(x),
            "clip_uuid"@,
        );
    }
}

} // verus!

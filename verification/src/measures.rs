//! Times and lengths as whole numbers, read straight off the parts of a timeline.
use vstd::prelude::*;

use crate::clip::{first_where, lemma_first_where, link_group_of};
use crate::edit::{child_seconds, clip_at, clip_in, start_of, track_at};
use crate::insert::in_group;
use crate::meta::{lookup_text, place_from, Meta, Pairs};
use crate::model::{ClipLocator, ClipModel, TimeRange, TimelineModel, TrackChildModel};
use crate::num::Num;
use crate::text::Str;
use crate::time_laws::on_clock;

verus! {

/// The quadrillionths in a number.
pub open spec fn tick(x: Num) -> int {
    match x {
        Num::Fin(n) => n as int,
        _ => 0,
    }
}

/// A thousandth of a second.
pub open spec fn thousandth() -> int {
    1_000_000_000_000
}

/// A millionth of a second.
pub open spec fn millionth() -> int {
    1_000_000_000
}

/// The larger of two.
pub open spec fn most(a: int, b: int) -> int {
    if a < b {
        b
    } else {
        a
    }
}

/// The smaller of two.
pub open spec fn least(a: int, b: int) -> int {
    if a < b {
        a
    } else {
        b
    }
}

/// When a stretch begins.
pub open spec fn first(r: TimeRange) -> int {
    tick(r.start_time.seconds)
}

/// How long a stretch lasts.
pub open spec fn long(r: TimeRange) -> int {
    tick(r.duration.seconds)
}

/// When a stretch ends.
pub open spec fn last(r: TimeRange) -> int {
    first(r) + long(r)
}

/// Whether a stretch begins and ends at times that can be counted, and is not
/// turned round.
pub open spec fn plain(r: TimeRange) -> bool {
    &&& r.start_time.seconds is Fin
    &&& r.duration.seconds is Fin
    &&& 0 <= first(r)
    &&& 0 <= long(r)
    &&& last(r) <= i128::MAX
}

/// How long a child of a track lasts.
pub open spec fn length(c: TrackChildModel) -> int {
    match c {
        TrackChildModel::Clip(c) => match c.source_range {
            Some(r) => long(r),
            None => 0,
        },
        TrackChildModel::Gap(g) => long(g.source_range),
        TrackChildModel::Transition(_) => 0,
        TrackChildModel::Stack(_) => 0,
    }
}

/// The lengths of the first `n` children together: when the next one begins.
pub open spec fn onset(children: Seq<TrackChildModel>, n: int) -> int
    decreases n,
{
    if n <= 0 {
        0
    } else {
        onset(children, n - 1) + length(children[n - 1])
    }
}

/// The children of a layer, where it is a track.
pub open spec fn row(tl: TimelineModel, i: int) -> Seq<TrackChildModel> {
    tl.tracks.children[i]->Track_0.children
}

/// Whether a layer of the timeline is a track.
pub open spec fn has_row(tl: TimelineModel, i: int) -> bool {
    0 <= i < tl.tracks.children.len() && tl.tracks.children[i] is Track
}

/// Whether a clip stands at a place of the timeline.
pub open spec fn has_clip(tl: TimelineModel, loc: ClipLocator) -> bool {
    &&& has_row(tl, loc.track_index as int)
    &&& loc.child_index < row(tl, loc.track_index as int).len()
    &&& row(tl, loc.track_index as int)[loc.child_index as int] is Clip
}

/// The clip at a place of the timeline.
pub open spec fn the_clip(tl: TimelineModel, loc: ClipLocator) -> ClipModel {
    row(tl, loc.track_index as int)[loc.child_index as int]->Clip_0
}

/// Whether a text is kept under a key, as the first entry there.
pub open spec fn says(m: Pairs, key: Str, value: Str) -> bool {
    exists|n: int|
        0 <= n < m.len() && (#[trigger] m[n]).0 == key && m[n].1 == Meta::Text(value) && forall|
            k: int,
        |
            0 <= k < n ==> (#[trigger] m[k]).0 != key
}

/// Whether a child is a clip of a link group.
pub open spec fn linked(c: TrackChildModel, group: Str) -> bool {
    match c {
        TrackChildModel::Clip(c) => match c.metadata.montage {
            Some(m) => says(m.extra, "link_group_id"@, group),
            None => false,
        },
        _ => false,
    }
}

/// Whether the first clip of a link group on a track stands at a place.
pub open spec fn first_linked(children: Seq<TrackChildModel>, group: Str, k: int) -> bool {
    &&& 0 <= k < children.len()
    &&& linked(children[k], group)
    &&& forall|n: int| 0 <= n < k ==> !linked(#[trigger] children[n], group)
}

/// Whether no clip of a link group stands on a track.
pub open spec fn none_linked(children: Seq<TrackChildModel>, group: Str) -> bool {
    forall|n: int| 0 <= n < children.len() ==> !linked(#[trigger] children[n], group)
}

proof fn lemma_place(m: Pairs, key: Str, from: int)
    requires
        0 <= from <= m.len(),
    ensures
        match place_from(m, key, from) {
            Some(i) => from <= i < m.len() && m[i].0 == key && forall|k: int|
                from <= k < i ==> (#[trigger] m[k]).0 != key,
            None => forall|k: int| from <= k < m.len() ==> (#[trigger] m[k]).0 != key,
        },
    decreases m.len() - from,
{
    if from < m.len() && m[from].0 != key {
        lemma_place(m, key, from + 1);
    }
}

/// What is found under a key is what the first entry there says.
pub proof fn law_what_is_said_is_found(m: Pairs, key: Str, value: Str)
    ensures
        lookup_text(m, key) == Some(value) <==> says(m, key, value),
{
    lemma_place(m, key, 0);
    if lookup_text(m, key) == Some(value) {
        let i = place_from(m, key, 0)->0;
        assert(m[i].1 == Meta::Text(value));
    }
    if says(m, key, value) {
        let n = choose|n: int|
            0 <= n < m.len() && (#[trigger] m[n]).0 == key && m[n].1 == Meta::Text(value) && forall|
                k: int,
            |
                0 <= k < n ==> (#[trigger] m[k]).0 != key;
        assert(m[n].0 == key);
        let i = place_from(m, key, 0)->0;
        assert(i == n);
    }
}

/// The clips of a link group are those that are found in it.
pub proof fn law_linked_clips_are_found(c: ClipModel, group: Str)
    ensures
        link_group_of(c) == Some(group) <==> linked(TrackChildModel::Clip(c), group),
{
    if let Some(m) = c.metadata.montage {
        law_what_is_said_is_found(m.extra, "link_group_id"@, group);
    }
}

/// The first clip of a link group on a track is the one that is found.
pub proof fn law_first_linked_is_found(children: Seq<TrackChildModel>, group: Str)
    ensures
        forall|k: int| #[trigger]
            first_linked(children, group, k) <==> first_where(children, in_group(group), 0) == Some(
                k,
            ),
        none_linked(children, group) <==> first_where(children, in_group(group), 0) is None,
{
    let p = in_group(group);
    lemma_first_where(children, p, 0);
    assert forall|n: int| 0 <= n < children.len() implies p(#[trigger] children[n]) == linked(
        children[n],
        group,
    ) by {
        if let TrackChildModel::Clip(c) = children[n] {
            law_linked_clips_are_found(c, group);
        }
    }
    if let Some(i) = first_where(children, p, 0) {
        assert(first_linked(children, group, i));
        assert forall|k: int| #[trigger] first_linked(children, group, k) implies k == i by {
            if k < i {
                assert(!p(children[k]));
            }
            if i < k {
                assert(!linked(children[i], group));
            }
        }
        assert(linked(children[i], group));
    }
}

/// A child of a track begins when all before it have run.
pub proof fn law_starts_add_up(children: Seq<TrackChildModel>, n: int)
    requires
        on_clock(children),
        0 <= n <= children.len(),
    ensures
        start_of(children, n) is Fin,
        tick(start_of(children, n)) == onset(children, n),
    decreases n,
{
    assert(start_of(children, n) is Fin);
    if n > 0 {
        law_starts_add_up(children, n - 1);
        assert(start_of(children, n - 1) is Fin);
        assert(child_seconds(children[n - 1]) is Fin);
    }
}

/// A clip that stands at a place is the one that is found there.
pub proof fn law_a_place_is_found(tl: TimelineModel, loc: ClipLocator)
    ensures
        has_row(tl, loc.track_index as int) ==> track_at(tl, loc.track_index as int) == Some(
            tl.tracks.children[loc.track_index as int]->Track_0,
        ),
        !has_row(tl, loc.track_index as int) ==> track_at(tl, loc.track_index as int) is None,
        has_clip(tl, loc) ==> clip_at(tl, loc) == Some(the_clip(tl, loc)),
        !has_clip(tl, loc) ==> clip_at(tl, loc) is None,
{
    if has_row(tl, loc.track_index as int) {
        let t = tl.tracks.children[loc.track_index as int]->Track_0;
        assert(clip_at(tl, loc) == clip_in(t, loc.child_index as int));
    }
}

/// Children as long as others begin when those do.
pub proof fn lemma_onset_front(a: Seq<TrackChildModel>, b: Seq<TrackChildModel>, n: int)
    requires
        n <= a.len(),
        n <= b.len(),
        forall|k: int| 0 <= k < n ==> length(#[trigger] a[k]) == length(b[k]),
    ensures
        onset(a, n) == onset(b, n),
    decreases n,
{
    if n > 0 {
        assert(length(a[n - 1]) == length(b[n - 1]));
        lemma_onset_front(a, b, n - 1);
    }
}

/// What follows two starts that differ goes on to differ by as much.
pub proof fn lemma_onset_rest(
    a: Seq<TrackChildModel>,
    b: Seq<TrackChildModel>,
    i: int,
    off: int,
    n: int,
)
    requires
        0 <= i <= n <= a.len(),
        0 <= i + off,
        n + off <= b.len(),
        forall|k: int| i <= k < n ==> length(#[trigger] a[k]) == length(b[k + off]),
    ensures
        onset(b, n + off) - onset(a, n) == onset(b, i + off) - onset(a, i),
    decreases n - i,
{
    if n > i {
        assert(length(a[n - 1]) == length(b[n - 1 + off]));
        lemma_onset_rest(a, b, i, off, n - 1);
    }
}

} // verus!

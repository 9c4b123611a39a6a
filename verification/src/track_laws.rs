//! What happens to tracks as a whole: gaps, tails, new tracks and deleted ones.
use vstd::prelude::*;

use crate::clip::link_group_of;
use crate::edit::{track_at, track_named, track_named_from};
use crate::measures::{
    first_linked, has_clip, has_row, law_a_place_is_found, law_first_linked_is_found,
    law_linked_clips_are_found, linked, none_linked, row, the_clip,
};
use crate::model::{ClipLocator, StackChildModel, TimelineModel, TrackChildModel, TrackKind};
use crate::num::zero;
use crate::op::{GapSide, InsertTrackKind};
use crate::text::{is_blank, lower_char, lowered, trimmed, Str};
use crate::tracks::{
    asked_kind, behind_last, deleted_gap, deleted_track, inserted_track, kind_count, last_group,
    new_track_place, of_kind, solid_count, trimmed_tail, up_to_kind, without_child,
    without_linked_gaps,
};
use crate::undo_laws::lemma_tail_cut;

verus! {

// ---- names --------------------------------------------------------------------------

/// Whether the first track of a name stands at a place.
pub open spec fn first_named(tl: TimelineModel, name: Str, i: int) -> bool {
    &&& has_row(tl, i)
    &&& tl.tracks.children[i]->Track_0.name == name
    &&& forall|s: int|
        0 <= s < i ==> !((#[trigger] tl.tracks.children[s]) is Track
            && tl.tracks.children[s]->Track_0.name == name)
}

/// Whether no track has a name.
pub open spec fn none_named(tl: TimelineModel, name: Str) -> bool {
    forall|s: int|
        0 <= s < tl.tracks.children.len() ==> !((#[trigger] tl.tracks.children[s]) is Track
            && tl.tracks.children[s]->Track_0.name == name)
}

proof fn lemma_named_from(tl: TimelineModel, name: Str, at: int)
    requires
        0 <= at <= tl.tracks.children.len(),
    ensures
        match track_named_from(tl, name, at) {
            Some(i) => at <= i && has_row(tl, i) && tl.tracks.children[i]->Track_0.name == name
                && forall|s: int|
                at <= s < i ==> !((#[trigger] tl.tracks.children[s]) is Track
                    && tl.tracks.children[s]->Track_0.name == name),
            None => forall|s: int|
                at <= s < tl.tracks.children.len() ==> !((#[trigger] tl.tracks.children[s]) is Track
                    && tl.tracks.children[s]->Track_0.name == name),
        },
    decreases tl.tracks.children.len() - at,
{
    if at < tl.tracks.children.len() {
        if !(track_at(tl, at) matches Some(t) && t.name == name) {
            lemma_named_from(tl, name, at + 1);
        }
    }
}

/// The first track of a name is the one that is found.
pub proof fn law_first_named_is_found(tl: TimelineModel, name: Str)
    ensures
        forall|i: int| #[trigger] first_named(tl, name, i) <==> track_named(tl, name) == Some(i),
        none_named(tl, name) <==> track_named(tl, name) is None,
{
    lemma_named_from(tl, name, 0);
    if let Some(i) = track_named(tl, name) {
        assert(first_named(tl, name, i));
        assert(tl.tracks.children[i] is Track);
        assert forall|k: int| #[trigger] first_named(tl, name, k) implies k == i by {
            assert(tl.tracks.children[k] is Track);
        }
    }
}

// ---- gaps ---------------------------------------------------------------------------

/// The place next to another, on one side.
pub open spec fn beside(j: int, side: GapSide) -> int {
    match side {
        GapSide::Before => j - 1,
        GapSide::After => j + 1,
    }
}

/// Whether empty time stands at a place.
pub open spec fn empty_at(children: Seq<TrackChildModel>, k: int) -> bool {
    0 <= k < children.len() && children[k] is Gap
}

/// Whether the empty time next to the linked clip on a track, if any, is gone, and
/// nothing else has changed there.
pub open spec fn gap_gone_alike(
    tl: TimelineModel,
    out: TimelineModel,
    group: Str,
    side: GapSide,
    s: int,
) -> bool {
    &&& !has_row(tl, s) || none_linked(row(tl, s), group) ==> out.tracks.children[s]
        == tl.tracks.children[s]
    &&& has_row(tl, s) ==> forall|j: int| #[trigger]
        first_linked(row(tl, s), group, j) ==> has_row(out, s) && if empty_at(
            row(tl, s),
            beside(j, side),
        ) {
            row(out, s) == row(tl, s).remove(beside(j, side))
        } else {
            out.tracks.children[s] == tl.tracks.children[s]
        }
}

proof fn lemma_linked_gaps(tl: TimelineModel, but: int, group: Str, side: GapSide, n: int)
    requires
        0 <= n <= tl.tracks.children.len(),
    ensures
        ({
            let out = without_linked_gaps(tl, but, group, side, n).0;
            &&& out.tracks.children.len() == tl.tracks.children.len()
            &&& forall|s: int|
                #![trigger out.tracks.children[s]]
                n <= s < tl.tracks.children.len() || s == but && 0 <= s
                    < tl.tracks.children.len() ==> out.tracks.children[s] == tl.tracks.children[s]
            &&& forall|s: int|
                #![trigger out.tracks.children[s]]
                0 <= s < n && s != but ==> gap_gone_alike(tl, out, group, side, s)
        }),
    decreases n,
{
    if n > 0 {
        lemma_linked_gaps(tl, but, group, side, n - 1);
        let t = without_linked_gaps(tl, but, group, side, n - 1).0;
        let out = without_linked_gaps(tl, but, group, side, n).0;
        assert(t.tracks.children[n - 1] == tl.tracks.children[n - 1]);
        if has_row(tl, n - 1) {
            law_first_linked_is_found(row(tl, n - 1), group);
        }
        if n - 1 != but {
            assert(gap_gone_alike(tl, out, group, side, n - 1));
        }
        assert forall|s: int|
            #![trigger out.tracks.children[s]]
            0 <= s < n && s != but implies gap_gone_alike(tl, out, group, side, s) by {
            if s < n - 1 {
                assert(gap_gone_alike(tl, t, group, side, s)) by {
                    assert(t.tracks.children[s] == t.tracks.children[s]);
                }
                assert(out.tracks.children[s] == t.tracks.children[s]);
            }
        }
    }
}

/// Empty time right in front of or behind a clip, as was asked, is taken out, and so
/// it is at the first clip of the clip's link group on every other track.  Where
/// there is none at the clip itself, nothing changes.
pub proof fn law_delete_gap_takes_the_gap_asked_for(
    tl: TimelineModel,
    index: usize,
    side: GapSide,
    loc: ClipLocator,
    group: Str,
    s: int,
)
    requires
        has_clip(tl, loc),
        0 <= s < tl.tracks.children.len(),
    ensures
        ({
            let i = loc.track_index as int;
            let k = beside(loc.child_index as int, side);
            match deleted_gap(tl, index, side, Some(loc)) {
                Ok((out, _)) => {
                    &&& !empty_at(row(tl, i), k) ==> out == tl
                    &&& empty_at(row(tl, i), k) ==> {
                        &&& has_row(out, i)
                        &&& row(out, i) == row(tl, i).remove(k)
                        &&& s != i && linked(TrackChildModel::Clip(the_clip(tl, loc)), group)
                            ==> gap_gone_alike(tl, out, group, side, s)
                        &&& s != i && (forall|g: Str|
                            !(#[trigger] linked(TrackChildModel::Clip(the_clip(tl, loc)), g)))
                            ==> out.tracks.children[s] == tl.tracks.children[s]
                    }
                },
                Err(_) => false,
            }
        }),
{
    law_a_place_is_found(tl, loc);
    let i = loc.track_index as int;
    let k = beside(loc.child_index as int, side);
    let c = the_clip(tl, loc);
    law_linked_clips_are_found(c, group);
    if let Some(g) = link_group_of(c) {
        law_linked_clips_are_found(c, g);
    }
    if empty_at(row(tl, i), k) {
        let closed = without_child(tl, i, k);
        if let Some(g) = link_group_of(c) {
            let n = closed.tracks.children.len() as int;
            lemma_linked_gaps(closed, i, g, side, n);
            let out = without_linked_gaps(closed, i, g, side, n).0;
            assert(out.tracks.children[i] == closed.tracks.children[i]);
            assert(closed.tracks.children[s] == tl.tracks.children[s] || s == i);
            if s != i && g == group {
                assert(gap_gone_alike(closed, out, g, side, s)) by {
                    assert(out.tracks.children[s] == out.tracks.children[s]);
                }
            }
        }
    }
}

// ---- tails --------------------------------------------------------------------------

/// Whether a track has lost the empty time at its end, all of it and nothing else.
pub open spec fn without_tail(before: Seq<TrackChildModel>, after: Seq<TrackChildModel>) -> bool {
    &&& after.len() <= before.len()
    &&& after == before.take(after.len() as int)
    &&& forall|k: int| after.len() <= k < before.len() ==> (#[trigger] before[k]) is Gap
    &&& after.len() > 0 ==> !(after.last() is Gap)
}

/// Whether the last clip of a track is of a link group.
pub open spec fn last_is_linked(children: Seq<TrackChildModel>, group: Str) -> bool {
    exists|j: int|
        0 <= j < children.len() && linked(#[trigger] children[j], group) && forall|k: int|
            j < k < children.len() ==> !((#[trigger] children[k]) is Clip)
}

proof fn lemma_last_group(children: Seq<TrackChildModel>, n: int, group: Str)
    requires
        0 <= n <= children.len(),
    ensures
        last_group(children, n) == Some(group) <==> exists|j: int|
            0 <= j < n && linked(#[trigger] children[j], group) && forall|k: int|
                j < k < n ==> !((#[trigger] children[k]) is Clip),
    decreases n,
{
    if n > 0 {
        if let TrackChildModel::Clip(c) = children[n - 1] {
            law_linked_clips_are_found(c, group);
        } else {
            lemma_last_group(children, n - 1, group);
            if last_group(children, n - 1) == Some(group) {
                let j = choose|j: int|
                    0 <= j < n - 1 && linked(#[trigger] children[j], group) && forall|k: int|
                        j < k < n - 1 ==> !((#[trigger] children[k]) is Clip);
                assert(linked(children[j], group));
            }
            if exists|j: int|
                0 <= j < n && linked(#[trigger] children[j], group) && forall|k: int|
                    j < k < n ==> !((#[trigger] children[k]) is Clip) {
                let j = choose|j: int|
                    0 <= j < n && linked(#[trigger] children[j], group) && forall|k: int|
                        j < k < n ==> !((#[trigger] children[k]) is Clip);
                assert(linked(children[j], group));
                assert(j < n - 1);
            }
        }
    }
}

/// The empty time at the end of the first track of a name is taken off, all of it and
/// nothing else.  The same happens to every other track whose last clip is linked to
/// the last clip of that track, and to no others.
pub proof fn law_trim_tail_reaches_linked_tracks(
    tl: TimelineModel,
    index: usize,
    name: Str,
    i: int,
    s: int,
)
    requires
        first_named(tl, name, i),
        0 <= s < tl.tracks.children.len(),
        s != i,
    ensures
        trimmed_tail(tl, index, name) is Ok <==> !is_blank(name),
        trimmed_tail(tl, index, name) matches Ok((out, _)) ==> {
            &&& out.tracks.children.len() == tl.tracks.children.len()
            &&& has_row(out, i)
            &&& without_tail(row(tl, i), row(out, i))
            &&& (has_row(tl, s) && exists|g: Str| #[trigger]
                last_is_linked(row(tl, i), g) && last_is_linked(row(tl, s), g)) ==> has_row(out, s)
                && without_tail(row(tl, s), row(out, s))
            &&& !(has_row(tl, s) && exists|g: Str| #[trigger]
                last_is_linked(row(tl, i), g) && last_is_linked(row(tl, s), g))
                ==> out.tracks.children[s] == tl.tracks.children[s]
        },
{
    law_first_named_is_found(tl, name);
    if let Ok((out, _)) = trimmed_tail(tl, index, name) {
        let before = row(tl, i);
        lemma_tail_cut(before, 0, zero());
        let n = before.len() as int;
        if has_row(tl, s) {
            lemma_tail_cut(row(tl, s), 0, zero());
        }
        match last_group(before, n) {
            Some(g) => {
                lemma_last_group(before, n, g);
                if has_row(tl, s) {
                    lemma_last_group(row(tl, s), row(tl, s).len() as int, g);
                    assert(last_is_linked(before, g));
                }
                assert forall|h: Str| #[trigger] last_is_linked(before, h) implies h == g by {
                    lemma_last_group(before, n, h);
                }
            },
            None => {
                assert forall|h: Str| !(#[trigger] last_is_linked(before, h)) by {
                    lemma_last_group(before, n, h);
                }
            },
        }
    }
}

// ---- new tracks -----------------------------------------------------------------------

/// Whether a layer is a track of a kind.
pub open spec fn kind_is(layer: StackChildModel, kind: TrackKind) -> bool {
    layer is Track && layer->Track_0.kind == kind
}

/// How many of the first `n` layers are tracks of a kind.
pub open spec fn so_many(layers: Seq<StackChildModel>, kind: TrackKind, n: int) -> int
    decreases n,
{
    if n <= 0 {
        0
    } else {
        so_many(layers, kind, n - 1) + if kind_is(layers[n - 1], kind) {
            1int
        } else {
            0
        }
    }
}

proof fn lemma_so_many(layers: Seq<StackChildModel>, kind: TrackKind, n: int)
    ensures
        kind_count(layers, kind, n) == so_many(layers, kind, n),
    decreases n,
{
    if n > 0 {
        lemma_so_many(layers, kind, n - 1);
    }
}

proof fn lemma_none_between(layers: Seq<StackChildModel>, kind: TrackKind, a: int, b: int)
    requires
        0 <= a <= b <= layers.len(),
        so_many(layers, kind, a) == so_many(layers, kind, b),
    ensures
        forall|k: int| a <= k < b ==> !kind_is(#[trigger] layers[k], kind),
    decreases b,
{
    if a < b {
        lemma_more(layers, kind, a, b - 1);
        lemma_none_between(layers, kind, a, b - 1);
    }
}

proof fn lemma_more(layers: Seq<StackChildModel>, kind: TrackKind, a: int, b: int)
    requires
        0 <= a <= b,
    ensures
        so_many(layers, kind, a) <= so_many(layers, kind, b),
    decreases b,
{
    if a < b {
        lemma_more(layers, kind, a, b - 1);
    }
}

proof fn lemma_behind_last(layers: Seq<StackChildModel>, kind: TrackKind, n: int)
    requires
        0 <= n <= layers.len(),
    ensures
        ({
            let at = behind_last(layers, kind, n, layers.len() as int);
            if so_many(layers, kind, n) == 0 {
                at == layers.len()
            } else {
                &&& 0 < at <= n
                &&& kind_is(layers[at - 1], kind)
                &&& so_many(layers, kind, at) == so_many(layers, kind, n)
            }
        }),
    decreases n,
{
    if n > 0 {
        lemma_more(layers, kind, 0, n - 1);
        lemma_behind_last(layers, kind, n - 1);
    }
}

proof fn lemma_up_to(layers: Seq<StackChildModel>, kind: TrackKind, k: nat, i: int)
    requires
        0 <= i <= layers.len(),
        so_many(layers, kind, i) <= k,
    ensures
        ({
            let n = up_to_kind(layers, kind, k, i);
            if k < so_many(layers, kind, layers.len() as int) {
                &&& i < n <= layers.len()
                &&& kind_is(layers[n - 1], kind)
                &&& so_many(layers, kind, n) == k + 1
            } else {
                n == layers.len()
            }
        }),
    decreases layers.len() - i,
{
    if i < layers.len() {
        lemma_so_many(layers, kind, i);
        lemma_more(layers, kind, i + 1, layers.len() as int);
        if !(of_kind(layers[i], kind) && kind_count(layers, kind, i) == k) {
            lemma_up_to(layers, kind, k, i + 1);
        }
    }
}

/// A new track stands right behind the track with the given number among those of its
/// kind; where there are not so many, or no number is given, right behind the last of
/// its kind; where there is none, behind all layers.
pub proof fn law_new_track_stands_with_its_kind(
    layers: Seq<StackChildModel>,
    kind: TrackKind,
    at_position: Option<usize>,
)
    ensures
        ({
            let at = new_track_place(layers, kind, at_position);
            let all = so_many(layers, kind, layers.len() as int);
            &&& 0 <= at <= layers.len()
            &&& all == 0 ==> at == layers.len()
            &&& all > 0 ==> 0 < at && kind_is(layers[at - 1], kind) && so_many(layers, kind, at)
                == (match at_position {
                Some(k) => if k < all {
                    k + 1
                } else {
                    all
                },
                None => all,
            })
        }),
{
    let n = layers.len() as int;
    lemma_more(layers, kind, 0, n);
    lemma_behind_last(layers, kind, n);
    if let Some(k) = at_position {
        lemma_up_to(layers, kind, k as nat, 0);
        lemma_behind_last(layers, kind, up_to_kind(layers, kind, k as nat, 0));
    }
}

/// A track that is asked for is made, empty, where none of its name is there, and
/// nothing else changes.  Where one of its name and kind is there nothing is done;
/// where that is of the other kind, or no name is given, it is refused.
pub proof fn law_track_is_made_where_none_is(
    tl: TimelineModel,
    index: usize,
    name: Str,
    kind: InsertTrackKind,
    at_position: Option<usize>,
    i: int,
)
    ensures
        ({
            let name = trimmed(name);
            let made = asked_kind(name, kind);
            let at = new_track_place(tl.tracks.children, made, at_position);
            &&& name.len() == 0 ==> inserted_track(tl, index, name, kind, at_position) is Err
            &&& name.len() > 0 && first_named(tl, name, i) ==> match inserted_track(
                tl,
                index,
                name,
                kind,
                at_position,
            ) {
                Ok((out, _)) => out == tl && tl.tracks.children[i]->Track_0.kind == made,
                Err(_) => tl.tracks.children[i]->Track_0.kind != made,
            }
        }),
{
    crate::text_laws::law_trimming_is_idempotent(name);
    law_first_named_is_found(tl, trimmed(name));
}

/// A track that is made is empty, of the name and kind asked for, and everything else
/// keeps its order.
pub proof fn law_made_track_is_empty(
    tl: TimelineModel,
    index: usize,
    name: Str,
    kind: InsertTrackKind,
    at_position: Option<usize>,
)
    requires
        trimmed(name).len() > 0,
        none_named(tl, trimmed(name)),
    ensures
        ({
            let made = asked_kind(trimmed(name), kind);
            let at = new_track_place(tl.tracks.children, made, at_position);
            match inserted_track(tl, index, name, kind, at_position) {
                Ok((out, _)) => {
                    &&& has_row(out, at)
                    &&& out.tracks.children[at]->Track_0.name == trimmed(name)
                    &&& out.tracks.children[at]->Track_0.kind == made
                    &&& row(out, at).len() == 0
                    &&& out.tracks.children.remove(at) == tl.tracks.children
                    &&& out.montage == tl.montage
                },
                Err(_) => false,
            }
        }),
{
    law_first_named_is_found(tl, trimmed(name));
    let made = asked_kind(trimmed(name), kind);
    law_new_track_stands_with_its_kind(tl.tracks.children, made, at_position);
    let at = new_track_place(tl.tracks.children, made, at_position);
    let out = inserted_track(tl, index, name, kind, at_position)->Ok_0.0;
    assert(out.tracks.children.remove(at) =~= tl.tracks.children);
}

/// A track is of the kind that is asked for; where that is left open, it is for sound
/// exactly where its name begins with an `a`, large or small.
pub proof fn law_kind_goes_by_the_name(name: Str, kind: InsertTrackKind)
    ensures
        kind == InsertTrackKind::Video ==> asked_kind(name, kind) == TrackKind::Video,
        kind == InsertTrackKind::Audio ==> asked_kind(name, kind) == TrackKind::Audio,
        kind == InsertTrackKind::Auto ==> (asked_kind(name, kind) == TrackKind::Audio <==> name.len()
            > 0 && (name[0] == 'a' || name[0] == 'A')),
{
    reveal_strlit("a");
    let low = lowered(name);
    if name.len() > 0 {
        assert(low[0] == lower_char(name[0]));
        assert(low.take(1)[0] == low[0]);
        if low[0] == 'a' {
            assert(low.take(1) =~= "a"@);
        }
    }
}

/// A track of a name is deleted exactly where there is one, and nothing but empty time
/// stands on it or it is to go by force.  All other tracks stay, in their order.
pub proof fn law_delete_track_spares_clips(
    tl: TimelineModel,
    index: usize,
    name: Str,
    force: bool,
    i: int,
)
    ensures
        trimmed(name).len() == 0 || none_named(tl, trimmed(name)) ==> deleted_track(
            tl,
            index,
            name,
            force,
        ) is Err,
        trimmed(name).len() > 0 && first_named(tl, trimmed(name), i) ==> match deleted_track(
            tl,
            index,
            name,
            force,
        ) {
            Ok((out, _)) => {
                &&& force || forall|k: int|
                    0 <= k < row(tl, i).len() ==> (#[trigger] row(tl, i)[k]) is Gap
                &&& out.tracks.children == tl.tracks.children.remove(i)
                &&& out.montage == tl.montage
            },
            Err(_) => !force && exists|k: int|
                0 <= k < row(tl, i).len() && !((#[trigger] row(tl, i)[k]) is Gap),
        },
{
    law_first_named_is_found(tl, trimmed(name));
    if first_named(tl, trimmed(name), i) {
        lemma_solid(row(tl, i), row(tl, i).len() as int);
    }
}

proof fn lemma_solid(children: Seq<TrackChildModel>, n: int)
    requires
        0 <= n <= children.len(),
    ensures
        solid_count(children, n) == 0 <==> forall|k: int|
            0 <= k < n ==> (#[trigger] children[k]) is Gap,
    decreases n,
{
    if n > 0 {
        lemma_solid(children, n - 1);
        if solid_count(children, n) != 0 && children[n - 1] is Gap {
            let k = choose|k: int| 0 <= k < n - 1 && !((#[trigger] children[k]) is Gap);
            assert(!(children[k] is Gap));
        }
    }
}

} // verus!

//! How long what is said of cuts and split edits lasts, and what can be kept.
use vstd::prelude::*;

use crate::boundary::{
    boundary_key, cut_key_at, current, elsewhere, has_cut, keyed, moved_cuts, not_keyed,
    pruned_split, put_boundary, solid, track_has_cut, with_current_cuts, with_cuts_moved,
    without_cuts_at,
};
use crate::clip::{first_where, lemma_first_where};
use crate::edit::track_at;
use crate::effect_laws::known_as;
use crate::measures::{has_row, law_a_place_is_found, row, the_clip, tick};
use crate::model::{
    CutBoundaryModel, SemanticCutSpecModel, SplitEditSpecModel, StackChildModel, TimelineModel,
    TrackChildModel,
};
use crate::op::BetweenPlaces;
use crate::project_laws::law_cut_is_kept_under_its_clips;
use crate::text::{colons_from, split_colons, Str};
use crate::transition::set_cut;
use crate::transition_laws::at_a_cut;
use crate::wellformed::{
    child_fine, child_warnings, children_warnings, keepable, layer_fine, layers_warnings,
    stack_fine, track_fine,
};

verus! {

/// What is left of a filter is what was there and passes.
pub proof fn lemma_filter_keeps<A>(s: Seq<A>, p: spec_fn(A) -> bool, x: A)
    ensures
        s.filter(p).contains(x) <==> s.contains(x) && p(x),
    decreases s.len(),
{
    reveal(Seq::filter);
    if s.len() > 0 {
        let rest = s.drop_last();
        lemma_filter_keeps(rest, p, x);
        let all = s.filter(p);
        let less = rest.filter(p);
        assert(s =~= rest.push(s.last()));
        if s.contains(x) {
            let k = choose|k: int| 0 <= k < s.len() && s[k] == x;
            if k < rest.len() {
                assert(rest[k] == x);
                assert(rest.contains(x));
            }
        }
        if rest.contains(x) {
            let k = choose|k: int| 0 <= k < rest.len() && rest[k] == x;
            assert(s[k] == x);
        }
        if less.contains(x) {
            let k = choose|k: int| 0 <= k < less.len() && less[k] == x;
            assert(all[k] == x);
        }
        if all.contains(x) {
            let k = choose|k: int| 0 <= k < all.len() && all[k] == x;
            if k < less.len() {
                assert(less[k] == x);
                assert(less.contains(x));
            } else {
                assert(x == s.last());
                assert(s[s.len() - 1] == x);
            }
        }
        if p(s.last()) {
            assert(all.last() == s.last());
            assert(all[all.len() - 1] == s.last());
        }
    }
}

// ---- cuts -----------------------------------------------------------------------------------

/// What a cut is meant to do stays kept when what is said of cuts that are none any more
/// is dropped.
pub proof fn law_what_is_said_of_a_cut_lasts(
    tl: TimelineModel,
    index: usize,
    s: SemanticCutSpecModel,
    places: BetweenPlaces,
)
    requires
        places.from is Ok,
        places.to is Ok,
        set_cut(tl, index, s, places) is Ok,
    ensures
        ({
            let out = set_cut(tl, index, s, places)->Ok_0.0;
            let key = known_as(the_clip(tl, places.from->Ok_0)) + "::"@ + known_as(
                the_clip(tl, places.to->Ok_0),
            );
            with_current_cuts(out).montage->0.cut_boundaries.contains(
                CutBoundaryModel { key, spec: s },
            )
        }),
{
    law_cut_is_kept_under_its_clips(tl, index, s, places);
    let out = set_cut(tl, index, s, places)->Ok_0.0;
    let from = places.from->Ok_0;
    let to = places.to->Ok_0;
    let i = from.track_index as int;
    let j = from.child_index as int;
    let k = to.child_index as int;
    let children = row(tl, i);
    law_a_place_is_found(tl, from);
    law_a_place_is_found(out, from);
    let key = known_as(the_clip(tl, from)) + "::"@ + known_as(the_clip(tl, to));
    assert(row(out, i) == children);
    assert(cut_key_at(children, j) == Some(key)) by {
        if !at_a_cut(tl, from, to) {
            assert(children[j + 1] is Gap);
            lemma_first_where(children, solid(), j + 1);
            let found = first_where(children, solid(), j + 1);
            assert(solid()(children[k]));
            match found {
                Some(x) => {
                    assert(solid()(children[x]));
                    if x < k {
                        assert(children[x] is Gap);
                    }
                    if k < x {
                        assert(!solid()(children[k]));
                    }
                },
                None => {
                    assert(!solid()(children[k]));
                },
            }
        }
    }
    assert(track_has_cut(out.tracks.children[i]->Track_0, key));
    assert(track_at(out, i) is Some);
    assert(has_cut(out, key));
    let b = CutBoundaryModel { key, spec: s };
    lemma_filter_keeps(out.montage->0.cut_boundaries, current(out), b);
}

/// What is said of cuts is dropped exactly where there is no such cut any more.
pub proof fn law_only_what_is_no_cut_is_dropped(tl: TimelineModel, b: CutBoundaryModel)
    requires
        tl.montage is Some,
    ensures
        ({
            let was = tl.montage->0.cut_boundaries;
            let out = with_current_cuts(tl);
            &&& out.montage is Some
            &&& out.tracks == tl.tracks
            &&& out.montage->0.cut_boundaries.contains(b) <==> was.contains(b) && exists|
                i: int,
                j: int,
            |
                has_row(tl, i) && 0 <= j < row(tl, i).len() && #[trigger] cut_key_at(row(tl, i), j)
                    == Some(b.key)
        }),
{
    lemma_filter_keeps(tl.montage->0.cut_boundaries, current(tl), b);
    assert(current(tl)(b) == has_cut(tl, b.key));
    if has_cut(tl, b.key) {
        let i = choose|i: int|
            0 <= i < tl.tracks.children.len() && (#[trigger] track_at(tl, i) matches Some(t)
                && track_has_cut(t, b.key));
        let t = track_at(tl, i)->0;
        let j = choose|j: int|
            0 <= j < t.children.len() && #[trigger] cut_key_at(t.children, j) == Some(b.key);
        assert(has_row(tl, i));
        assert(cut_key_at(row(tl, i), j) == Some(b.key));
    }
    if exists|i: int, j: int|
        has_row(tl, i) && 0 <= j < row(tl, i).len() && #[trigger] cut_key_at(row(tl, i), j) == Some(
            b.key,
        ) {
        let (i, j) = choose|i: int, j: int|
            has_row(tl, i) && 0 <= j < row(tl, i).len() && #[trigger] cut_key_at(row(tl, i), j)
                == Some(b.key);
        assert(track_has_cut(tl.tracks.children[i]->Track_0, b.key));
        assert(track_at(tl, i) is Some);
    }
}

proof fn lemma_colons(s: Str, at: int)
    requires
        0 <= at,
    ensures
        colons_from(s, at) matches Some(k) ==> at <= k && k + 2 <= s.len() && s[k] == ':' && s[k + 1]
            == ':',
    decreases s.len() - at,
{
    if !(at + 1 >= s.len() || (s[at] == ':' && s[at + 1] == ':')) {
        lemma_colons(s, at + 1);
    }
}

/// A key that names two clips is made of their names, with two colons between them.
pub proof fn law_a_key_names_its_clips(key: Str)
    ensures
        split_colons(key) matches Some((f, t)) ==> key == f + "::"@ + t,
{
    lemma_colons(key, 0);
    if let Some((f, t)) = split_colons(key) {
        reveal_strlit("::");
        assert(key =~= f + "::"@ + t);
    }
}

/// Where a clip is gone, what is said of cuts at it is gone, and nothing else is.
pub proof fn law_cuts_at_a_clip_go_with_it(tl: TimelineModel, id: Str, b: CutBoundaryModel)
    requires
        tl.montage is Some,
    ensures
        ({
            let was = tl.montage->0.cut_boundaries;
            let out = without_cuts_at(tl, id);
            &&& out.montage is Some
            &&& out.tracks == tl.tracks
            &&& out.montage->0.cut_boundaries.contains(b) <==> was.contains(b) && !(split_colons(
                b.key,
            ) matches Some((f, t)) && (f == id || t == id))
        }),
{
    lemma_filter_keeps(tl.montage->0.cut_boundaries, elsewhere(id), b);
}

/// Whether no two entries have the same key, and none leads out of a clip.
pub open spec fn told_apart(all: Seq<CutBoundaryModel>, to: Str) -> bool {
    &&& forall|i: int, j: int|
        #![trigger all[i], all[j]]
        0 <= i < j < all.len() ==> all[i].key != all[j].key
    &&& forall|i: int, t: Str|
        #![trigger all[i], boundary_key(to, t)]
        0 <= i < all.len() ==> all[i].key != boundary_key(to, t)
}

/// What becomes of an entry when the cuts out of one clip go to another.
pub open spec fn gone_over(b: CutBoundaryModel, from: Str, to: Str) -> CutBoundaryModel {
    match split_colons(b.key) {
        Some((f, t)) if f == from => CutBoundaryModel { key: boundary_key(to, t), spec: b.spec },
        _ => b,
    }
}

/// What is put under a key is there, and all under other keys stays.
pub proof fn lemma_put_keeps(
    bs: Seq<CutBoundaryModel>,
    key: Str,
    s: SemanticCutSpecModel,
    x: CutBoundaryModel,
)
    ensures
        put_boundary(bs, key, s).contains(CutBoundaryModel { key, spec: s }),
        bs.contains(x) && x.key != key ==> put_boundary(bs, key, s).contains(x),
{
    lemma_first_where(bs, keyed(key), 0);
    let now = put_boundary(bs, key, s);
    match first_where(bs, keyed(key), 0) {
        Some(i) => {
            assert(now[i] == CutBoundaryModel { key, spec: s });
        },
        None => {
            assert(now[now.len() - 1] == CutBoundaryModel { key, spec: s });
        },
    }
    if bs.contains(x) && x.key != key {
        let k = choose|k: int| 0 <= k < bs.len() && bs[k] == x;
        assert(now[k] == x);
    }
}

proof fn lemma_tail_of_key(to: Str, a: Str, b: Str)
    requires
        boundary_key(to, a) == boundary_key(to, b),
    ensures
        a == b,
{
    let n = (to + "::"@).len() as int;
    assert(boundary_key(to, a).skip(n) =~= a);
    assert(boundary_key(to, b).skip(n) =~= b);
}

proof fn lemma_moved(all: Seq<CutBoundaryModel>, from: Str, to: Str, n: int, k: int)
    requires
        told_apart(all, to),
        0 <= n <= all.len(),
        0 <= k < all.len(),
    ensures
        moved_cuts(all, from, to, n).contains(
            if k < n {
                gone_over(all[k], from, to)
            } else {
                all[k]
            },
        ),
    decreases n,
{
    if n <= 0 {
        assert(all[k] == all[k]);
    } else {
        lemma_moved(all, from, to, n - 1, k);
        let rest = moved_cuts(all, from, to, n - 1);
        let b = all[n - 1];
        match split_colons(b.key) {
            Some((f, t)) if f == from => {
                let key = boundary_key(to, t);
                let left = rest.filter(not_keyed(b.key));
                let x = if k < n - 1 {
                    gone_over(all[k], from, to)
                } else {
                    all[k]
                };
                lemma_filter_keeps(rest, not_keyed(b.key), x);
                lemma_put_keeps(left, key, b.spec, x);
                if k != n - 1 {
                    if k < n - 1 {
                        assert(all[k].key != all[n - 1].key);
                        if let Some((g, u)) = split_colons(all[k].key) {
                            if g == from {
                                assert(all[n - 1].key != boundary_key(to, u));
                                law_a_key_names_its_clips(all[k].key);
                                law_a_key_names_its_clips(b.key);
                                if boundary_key(to, u) == key {
                                    lemma_tail_of_key(to, u, t);
                                }
                            }
                        }
                    } else {
                        assert(all[n - 1].key != all[k].key);
                    }
                    assert(all[k].key != boundary_key(to, t));
                }
            },
            _ => {},
        }
    }
}

/// What is said of the cuts out of a clip goes over to its right part when it is split,
/// and what is said of all other cuts stays.
pub proof fn law_cuts_out_go_with_the_right_part(
    tl: TimelineModel,
    from: Str,
    to: Str,
    k: int,
)
    requires
        tl.montage is Some,
        told_apart(tl.montage->0.cut_boundaries, to),
        0 <= k < tl.montage->0.cut_boundaries.len(),
    ensures
        ({
            let was = tl.montage->0.cut_boundaries;
            let out = with_cuts_moved(tl, from, to);
            &&& out.montage is Some
            &&& out.tracks == tl.tracks
            &&& out.montage->0.cut_boundaries.contains(gone_over(was[k], from, to))
        }),
{
    let all = tl.montage->0.cut_boundaries;
    lemma_moved(all, from, to, all.len() as int, k);
}

// ---- split edits ------------------------------------------------------------------------------

/// Whether a split edit still meets a clip: the one that it was made with, or any where it
/// was made with none in particular.
pub open spec fn meets(with: Option<Str>, neighbour: Option<Str>) -> bool {
    neighbour is Some && (with is None || with == neighbour)
}

/// The lead of a split edit stays exactly as long as it meets the clip in front, and its
/// trail as long as it meets the clip behind; what is left of neither is dropped.
pub proof fn law_split_edit_lasts_while_it_meets(
    s: SplitEditSpecModel,
    previous: Option<Str>,
    next: Option<Str>,
)
    ensures
        ({
            let lead = s.audio_lead_s is Some && meets(s.audio_lead_from_clip_id, previous);
            let trail = s.audio_trail_s is Some && meets(s.audio_trail_to_clip_id, next);
            match pruned_split(s, previous, next) {
                Some(x) => {
                    &&& lead || trail
                    &&& lead ==> x.audio_lead_s == s.audio_lead_s && x.audio_lead_from_clip_id
                        == s.audio_lead_from_clip_id
                    &&& !lead ==> x.audio_lead_s is None
                    &&& trail ==> x.audio_trail_s == s.audio_trail_s && x.audio_trail_to_clip_id
                        == s.audio_trail_to_clip_id
                    &&& !trail ==> x.audio_trail_s is None
                    &&& x.reason == s.reason
                    &&& x.confidence == s.confidence
                },
                None => !lead && !trail,
            }
        }),
{
}

// ---- what can be kept -----------------------------------------------------------------------------

/// Whether a child of a track lasts as it should: a clip with a range for some time, at
/// rates above zero, and empty time for no time below zero.
pub open spec fn lasts_well(c: TrackChildModel) -> bool {
    match c {
        TrackChildModel::Clip(c) => c.source_range matches Some(r) ==> {
            &&& 0 < tick(r.duration.seconds)
            &&& 0 < tick(r.duration.rate)
            &&& 0 < tick(r.start_time.rate)
        },
        TrackChildModel::Gap(g) => {
            let d = g.source_range.duration;
            &&& 0 < tick(d.rate) ==> 0 <= tick(d.seconds)
            &&& tick(d.rate) < 0 ==> tick(d.seconds) <= 0
        },
        _ => true,
    }
}

proof fn lemma_child_lasts(c: TrackChildModel)
    requires
        child_fine(c),
    ensures
        child_warnings(c).len() == 0 <==> lasts_well(c),
{
}

proof fn lemma_children_last(children: Seq<TrackChildModel>, n: int)
    requires
        0 <= n <= children.len(),
        forall|k: int| 0 <= k < children.len() ==> child_fine(#[trigger] children[k]),
    ensures
        children_warnings(children, n).len() == 0 <==> forall|k: int|
            0 <= k < n ==> lasts_well(#[trigger] children[k]),
    decreases n,
{
    if n > 0 {
        lemma_children_last(children, n - 1);
        assert(child_fine(children[n - 1]));
        lemma_child_lasts(children[n - 1]);
    }
}

/// Whether all children of a layer last as they should, where it is a track.
pub open spec fn row_lasts_well(layer: StackChildModel) -> bool {
    layer is Track ==> forall|k: int|
        0 <= k < layer->Track_0.children.len() ==> lasts_well(
            #[trigger] layer->Track_0.children[k],
        )
}

proof fn lemma_layers_last(layers: Seq<StackChildModel>, n: int)
    requires
        0 <= n <= layers.len(),
        forall|s: int| 0 <= s < layers.len() ==> layer_fine(#[trigger] layers[s]),
    ensures
        layers_warnings(layers, n).len() == 0 <==> forall|s: int|
            0 <= s < n ==> row_lasts_well(#[trigger] layers[s]),
    decreases n,
{
    if n > 0 {
        lemma_layers_last(layers, n - 1);
        assert(layer_fine(layers[n - 1]));
        if let StackChildModel::Track(t) = layers[n - 1] {
            assert(track_fine(t));
            lemma_children_last(t.children, t.children.len() as int);
        }
    }
}

/// A timeline can be kept exactly where all its times can be counted, every clip with a
/// range on its tracks lasts for some time at rates above zero, and no empty time there
/// lasts for less than none.
pub proof fn law_what_is_kept_lasts(tl: TimelineModel)
    ensures
        keepable(tl) is Ok <==> stack_fine(tl.tracks) && forall|s: int|
            0 <= s < tl.tracks.children.len() ==> row_lasts_well(#[trigger] tl.tracks.children[s]),
{
    if stack_fine(tl.tracks) {
        lemma_layers_last(tl.tracks.children, tl.tracks.children.len() as int);
    }
}

} // verus!

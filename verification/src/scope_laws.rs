//! How far edits reach: which tracks they change, and which place they go to.
use vstd::prelude::*;

use crate::carve::{cut_children, cut_range, swept};
use crate::carve_laws::part_in;
use crate::cut_laws::{cuts_through, lasting, law_lift_and_extract_take_the_same};
use crate::edit::start_of;
use crate::measures::{
    has_clip, has_row, law_a_place_is_found, least, row, the_clip, thousandth, tick,
};
use crate::model::{
    ClipLocator, StackChildModel, TimelineModel, TrackChildModel, TrackKind, TrackModel,
};
use crate::move_clip::moved_clip;
use crate::num::Num;
use crate::op::{BRollPosition, SourceRange};
use crate::overlay::{
    broll_clip, broll_inserted, other_video, overlaid, pip_clip, pip_inserted, roomy_track,
    PipRequest,
};
use crate::text::{strs, Str};

verus! {

// ---- moves to a position --------------------------------------------------------

/// A clip that is moved to a position stands there afterwards, or last where the
/// track has no such position.  All others keep their order, and every other track
/// stays.
pub proof fn law_move_goes_to_its_position(
    tl: TimelineModel,
    index: usize,
    to_position: usize,
    loc: ClipLocator,
)
    requires
        has_row(tl, loc.track_index as int),
        loc.child_index < row(tl, loc.track_index as int).len(),
    ensures
        ({
            let i = loc.track_index as int;
            let j = loc.child_index as int;
            let before = row(tl, i);
            let q = least(to_position as int, before.len() - 1);
            match moved_clip(tl, index, to_position, None, None, Some(loc)) {
                Ok((out, _)) => {
                    let after = row(out, i);
                    &&& has_row(out, i)
                    &&& after.len() == before.len()
                    &&& after[q] == before[j]
                    &&& after.remove(q) == before.remove(j)
                    &&& out.tracks.children.len() == tl.tracks.children.len()
                    &&& forall|s: int|
                        0 <= s < tl.tracks.children.len() && s != i
                            ==> #[trigger] out.tracks.children[s] == tl.tracks.children[s]
                },
                Err(_) => false,
            }
        }),
{
    let i = loc.track_index as int;
    let j = loc.child_index as int;
    law_a_place_is_found(tl, loc);
    let before = row(tl, i);
    let q = least(to_position as int, before.len() - 1);
    let out = moved_clip(tl, index, to_position, None, None, Some(loc))->Ok_0.0;
    let after = row(out, i);
    if q == j {
        assert(out.tracks.children =~= tl.tracks.children);
    } else {
        assert(after == before.remove(j).insert(q, before[j]));
        assert(after.remove(q) =~= before.remove(j));
    }
}

// ---- stretches ------------------------------------------------------------------

/// Whether a layer is a track that is asked for: by its name, at whichever place of
/// the list, or because none is named.
pub open spec fn asked_for(layer: StackChildModel, tracks: Seq<String>) -> bool {
    layer is Track && (tracks.len() == 0 || exists|k: int|
        0 <= k < tracks.len() && (#[trigger] tracks[k])@ == layer->Track_0.name)
}

proof fn lemma_swept_layers(
    layers: Seq<StackChildModel>,
    r: SourceRange,
    tracks: Seq<String>,
    close: bool,
    ids: Seq<Str>,
    n: int,
    i: int,
)
    requires
        0 <= i < n <= layers.len(),
    ensures
        ({
            let s = swept(layers, r, strs(tracks), close, ids, n);
            &&& s.layers.len() == n
            &&& !asked_for(layers[i], tracks) ==> s.layers[i] == layers[i]
            &&& asked_for(layers[i], tracks) ==> {
                let t = layers[i]->Track_0;
                let drawn = ids.skip(
                    swept(layers, r, strs(tracks), close, ids, i).used as int,
                );
                let c = cut_children(t, r.start_s, r.end_s, close, drawn);
                s.layers[i] == StackChildModel::Track(TrackModel { children: c.children, ..t })
            }
        }),
    decreases n,
{
    let names = strs(tracks);
    if let StackChildModel::Track(t) = layers[n - 1] {
        assert(names.contains(t.name) <==> exists|k: int|
            0 <= k < tracks.len() && (#[trigger] tracks[k])@ == t.name) by {
            if names.contains(t.name) {
                let k = choose|k: int| 0 <= k < names.len() && names[k] == t.name;
                assert(tracks[k]@ == t.name);
            }
            if exists|k: int| 0 <= k < tracks.len() && (#[trigger] tracks[k])@ == t.name {
                let k = choose|k: int|
                    0 <= k < tracks.len() && (#[trigger] tracks[k])@ == t.name;
                assert(names[k] == t.name);
            }
        }
    }
    lemma_swept_len(layers, r, names, close, ids, n - 1);
    if i < n - 1 {
        lemma_swept_layers(layers, r, tracks, close, ids, n - 1, i);
    }
}

proof fn lemma_swept_len(
    layers: Seq<StackChildModel>,
    r: SourceRange,
    tracks: Seq<Str>,
    close: bool,
    ids: Seq<Str>,
    n: int,
)
    requires
        0 <= n <= layers.len(),
    ensures
        swept(layers, r, tracks, close, ids, n).layers.len() == n,
    decreases n,
{
    if n > 0 {
        lemma_swept_len(layers, r, tracks, close, ids, n - 1);
    }
}

/// A stretch that is lifted or extracted is taken out of every track that is asked
/// for, and all other layers stay.
pub proof fn law_stretch_leaves_every_track_asked_for(
    tl: TimelineModel,
    index: usize,
    r: SourceRange,
    tracks: Seq<String>,
    close: bool,
    ids: Seq<Str>,
    i: int,
)
    requires
        cut_range(tl, index, r, tracks, close, ids) is Ok,
        0 <= i < tl.tracks.children.len(),
    ensures
        ({
            let out = cut_range(tl, index, r, tracks, close, ids)->Ok_0.0;
            let was = tl.tracks.children[i];
            let now = out.tracks.children[i];
            &&& out.tracks.children.len() == tl.tracks.children.len()
            &&& !asked_for(was, tracks) ==> now == was
            &&& asked_for(was, tracks) ==> exists|drawn: Seq<Str>|
                {
                    let c = #[trigger] cut_children(
                        was->Track_0,
                        r.start_s,
                        r.end_s,
                        close,
                        drawn,
                    );
                    now == StackChildModel::Track(
                        TrackModel { children: c.children, ..was->Track_0 },
                    )
                }
        }),
{
    lemma_swept_layers(
        tl.tracks.children,
        r,
        tracks,
        close,
        ids,
        tl.tracks.children.len() as int,
        i,
    );
}

proof fn lemma_swept_counts(
    layers: Seq<StackChildModel>,
    r: SourceRange,
    tracks: Seq<String>,
    close: bool,
    ids: Seq<Str>,
    n: int,
)
    requires
        0 <= n <= layers.len(),
    ensures
        ({
            let s = swept(layers, r, strs(tracks), close, ids, n);
            &&& s.touched <= s.matched
            &&& s.matched == 0 <==> forall|i: int|
                0 <= i < n ==> !asked_for(#[trigger] layers[i], tracks)
        }),
    decreases n,
{
    if n > 0 {
        lemma_swept_counts(layers, r, tracks, close, ids, n - 1);
        lemma_chosen(layers[n - 1], tracks);
    }
}

proof fn lemma_chosen(layer: StackChildModel, tracks: Seq<String>)
    ensures
        asked_for(layer, tracks) == (layer matches StackChildModel::Track(t)
            && crate::carve::chosen(strs(tracks), t.name)),
{
    let names = strs(tracks);
    if let StackChildModel::Track(t) = layer {
        if names.contains(t.name) {
            let k = choose|k: int| 0 <= k < names.len() && names[k] == t.name;
            assert(tracks[k]@ == t.name);
        }
        if exists|k: int| 0 <= k < tracks.len() && (#[trigger] tracks[k])@ == t.name {
            let k = choose|k: int| 0 <= k < tracks.len() && (#[trigger] tracks[k])@ == t.name;
            assert(names[k] == t.name);
        }
    }
}

proof fn lemma_swept_touched(
    layers: Seq<StackChildModel>,
    r: SourceRange,
    tracks: Seq<String>,
    close: bool,
    ids: Seq<Str>,
    n: int,
    i: int,
)
    requires
        0 <= i < n <= layers.len(),
        asked_for(layers[i], tracks),
        cuts_through(layers[i]->Track_0.children, r.start_s, r.end_s),
        part_in(r.start_s, r.end_s, lasting(layers[i]->Track_0.children)) > 11 * thousandth(),
    ensures
        swept(layers, r, strs(tracks), close, ids, n).touched > 0,
    decreases n,
{
    lemma_chosen(layers[n - 1], tracks);
    if i < n - 1 {
        lemma_swept_touched(layers, r, tracks, close, ids, n - 1, i);
    } else {
        let s = swept(layers, r, strs(tracks), close, ids, n - 1);
        law_lift_and_extract_take_the_same(
            layers[i]->Track_0,
            r.start_s,
            r.end_s,
            ids.skip(s.used as int),
        );
    }
}

/// A stretch is taken out where it has a length, does not begin before zero, and some track
/// that is asked for has more than a hundredth of a second of it; it is refused where it is
/// turned round or begins before zero, or no track is asked for that is there.
pub proof fn law_stretch_is_taken_where_there_is_some(
    tl: TimelineModel,
    index: usize,
    r: SourceRange,
    tracks: Seq<String>,
    close: bool,
    ids: Seq<Str>,
    i: int,
)
    ensures
        ({
            let layers = tl.tracks.children;
            let fine = r.start_s is Fin && r.end_s is Fin && 0 <= tick(r.start_s) < tick(r.end_s);
            &&& !fine ==> cut_range(tl, index, r, tracks, close, ids) is Err
            &&& (forall|s: int| 0 <= s < layers.len() ==> !asked_for(#[trigger] layers[s], tracks))
                ==> cut_range(tl, index, r, tracks, close, ids) is Err
            &&& fine && 0 <= i < layers.len() && asked_for(layers[i], tracks) && cuts_through(
                layers[i]->Track_0.children,
                r.start_s,
                r.end_s,
            ) && part_in(r.start_s, r.end_s, lasting(layers[i]->Track_0.children)) > 11
                * thousandth() ==> cut_range(tl, index, r, tracks, close, ids) is Ok
        }),
{
    let layers = tl.tracks.children;
    let n = layers.len() as int;
    lemma_swept_counts(layers, r, tracks, close, ids, n);
    if 0 <= i < n && asked_for(layers[i], tracks) && cuts_through(
        layers[i]->Track_0.children,
        r.start_s,
        r.end_s,
    ) && part_in(r.start_s, r.end_s, lasting(layers[i]->Track_0.children)) > 11 * thousandth() {
        lemma_swept_touched(layers, r, tracks, close, ids, n, i);
    }
}

// ---- overlays -------------------------------------------------------------------------------

/// Whether a layer is a video track other than the one at a place.
pub open spec fn other_pictures(tl: TimelineModel, but: int, s: int) -> bool {
    s != but && has_row(tl, s) && tl.tracks.children[s]->Track_0.kind == TrackKind::Video
}

proof fn lemma_roomy(
    tl: TimelineModel,
    but: int,
    c: TrackChildModel,
    at: Num,
    long: Num,
    rate: Num,
    i: int,
)
    requires
        0 <= i <= tl.tracks.children.len(),
    ensures
        match roomy_track(tl, but, c, at, long, rate, i) {
            Some(k) => i <= k && other_pictures(tl, but, k) && overlaid(
                row(tl, k),
                c,
                at,
                long,
                rate,
            ) is Some && forall|s: int|
                i <= s < k && #[trigger] other_pictures(tl, but, s) ==> overlaid(
                    row(tl, s),
                    c,
                    at,
                    long,
                    rate,
                ) is None,
            None => forall|s: int|
                i <= s && #[trigger] other_pictures(tl, but, s) ==> overlaid(
                    row(tl, s),
                    c,
                    at,
                    long,
                    rate,
                ) is None,
        },
    decreases tl.tracks.children.len() - i,
{
    if i < tl.tracks.children.len() {
        lemma_roomy(tl, but, c, at, long, rate, i + 1);
    }
}

/// B-roll over a clip goes on the first other video track that has room for it when the
/// clip begins; where none has, on a new video track behind all.
pub proof fn law_broll_goes_on_the_first_track_with_room(
    tl: TimelineModel,
    index: usize,
    asset: Str,
    duration_s: Num,
    loc: ClipLocator,
    ids: Seq<Str>,
    k: int,
)
    requires
        has_clip(tl, loc),
        broll_inserted(tl, index, asset, duration_s, BRollPosition::Overlay, Some(loc), ids) is Ok,
    ensures
        ({
            let i = loc.track_index as int;
            let c = the_clip(tl, loc);
            let rate = c.source_range->0.start_time.rate;
            let over = TrackChildModel::Clip(broll_clip(c.name, asset, duration_s, rate, ids[0]));
            let at = start_of(row(tl, i), loc.child_index as int);
            let out = broll_inserted(
                tl,
                index,
                asset,
                duration_s,
                BRollPosition::Overlay,
                Some(loc),
                ids,
            )->Ok_0.0;
            let full = |s: int|
                other_pictures(tl, i, s) ==> overlaid(
                    row(tl, s),
                    over,
                    at,
                    duration_s,
                    rate,
                ) is None;
            &&& (other_pictures(tl, i, k) && !full(k) && forall|s: int|
                0 <= s < k ==> #[trigger] full(s)) ==> has_row(out, k) && Some(row(out, k))
                == overlaid(row(tl, k), over, at, duration_s, rate)
            &&& (forall|s: int| #[trigger] full(s)) ==> {
                let n = tl.tracks.children.len() as int;
                &&& has_row(out, n)
                &&& out.tracks.children[n]->Track_0.kind == TrackKind::Video
                &&& Some(row(out, n)) == overlaid(Seq::empty(), over, at, duration_s, rate)
            }
        }),
{
    law_a_place_is_found(tl, loc);
    let i = loc.track_index as int;
    let c = the_clip(tl, loc);
    let rate = c.source_range->0.start_time.rate;
    let over = TrackChildModel::Clip(broll_clip(c.name, asset, duration_s, rate, ids[0]));
    let at = start_of(row(tl, i), loc.child_index as int);
    lemma_roomy(tl, i, over, at, duration_s, rate, 0);
    let full = |s: int|
        other_pictures(tl, i, s) ==> overlaid(row(tl, s), over, at, duration_s, rate) is None;
    match roomy_track(tl, i, over, at, duration_s, rate, 0) {
        Some(x) => {
            assert(!full(x));
            if other_pictures(tl, i, k) && !full(k) && (forall|s: int|
                0 <= s < k ==> #[trigger] full(s)) {
                assert(x == k);
            }
        },
        None => {
            assert forall|s: int| #[trigger] full(s) by {
                assert(other_pictures(tl, i, s) ==> s >= 0);
            }
        },
    }
}

proof fn lemma_other_video(tl: TimelineModel, but: int, i: int)
    requires
        0 <= i <= tl.tracks.children.len(),
    ensures
        match other_video(tl, but, i) {
            Some(k) => i <= k && other_pictures(tl, but, k) && forall|s: int|
                i <= s < k ==> !(#[trigger] other_pictures(tl, but, s)),
            None => forall|s: int| i <= s ==> !(#[trigger] other_pictures(tl, but, s)),
        },
    decreases tl.tracks.children.len() - i,
{
    if i < tl.tracks.children.len() {
        lemma_other_video(tl, but, i + 1);
    }
}

/// A picture in a picture goes last on the first other video track, and on a new one behind
/// all where there is none.
pub proof fn law_pip_goes_on_the_first_other_track(
    tl: TimelineModel,
    index: usize,
    q: PipRequest,
    loc: ClipLocator,
    id: Str,
    k: int,
)
    requires
        has_clip(tl, loc),
        pip_inserted(tl, index, q, Some(loc), id) is Ok,
    ensures
        ({
            let i = loc.track_index as int;
            let n = tl.tracks.children.len() as int;
            let c = the_clip(tl, loc);
            let new = TrackChildModel::Clip(
                pip_clip(c.name, q, c.source_range->0.start_time.rate, id),
            );
            let out = pip_inserted(tl, index, q, Some(loc), id)->Ok_0.0;
            &&& (other_pictures(tl, i, k) && forall|s: int|
                0 <= s < k ==> !(#[trigger] other_pictures(tl, i, s))) ==> has_row(out, k) && row(
                out,
                k,
            ).last() == new && row(out, k).take(row(tl, k).len() as int) == row(tl, k)
            &&& (forall|s: int| !(#[trigger] other_pictures(tl, i, s))) ==> has_row(out, n)
                && out.tracks.children[n]->Track_0.kind == TrackKind::Video && row(out, n).last()
                == new
        }),
{
    law_a_place_is_found(tl, loc);
    let i = loc.track_index as int;
    lemma_other_video(tl, i, 0);
    let out = pip_inserted(tl, index, q, Some(loc), id)->Ok_0.0;
    match other_video(tl, i, 0) {
        Some(x) => {
            assert(other_pictures(tl, i, x));
            if other_pictures(tl, i, k) && (forall|s: int|
                0 <= s < k ==> !(#[trigger] other_pictures(tl, i, s))) {
                assert(x == k);
                assert(row(out, k).take(row(tl, k).len() as int) =~= row(tl, k));
            }
        },
        None => {
            assert forall|s: int| !(#[trigger] other_pictures(tl, i, s)) by {
                assert(other_pictures(tl, i, s) ==> s >= 0);
            }
        },
    }
}

} // verus!

//! To which times others snap.
use vstd::prelude::*;

use crate::edit::start_of;
use crate::error::Refusal;
use crate::measures::{has_row, law_starts_add_up, onset, row, tick};
use crate::model::{StackChildModel, TimelineModel, TrackChildModel};
use crate::num::Num;
use crate::op::{SnapOptions, SnapTargetKind};
use crate::playback::{lemma_onsets, lemma_steady, steady, timed, whole};
use crate::snap::{
    best_target, child_targets, in_reach, layer_targets, marker_targets, preferred, snapped,
    targets_of, track_targets, SnapTarget,
};

verus! {

/// Whether times of a kind are asked for: all are where none is named.
pub open spec fn wanted(snap: SnapOptions, kind: SnapTargetKind) -> bool {
    snap.targets@.len() == 0 || exists|k: int|
        0 <= k < snap.targets@.len() && #[trigger] snap.targets@[k] == kind
}

/// Whether a child of a track begins or ends at a time.
pub open spec fn edge_at(children: Seq<TrackChildModel>, k: int, t: int) -> bool {
    0 <= k < children.len() && (t == onset(children, k) || t == onset(children, k + 1))
}

/// Whether a marker on a clip of a track stands at a time.
pub open spec fn marker_at(children: Seq<TrackChildModel>, k: int, m: int, t: int) -> bool {
    &&& 0 <= k < children.len()
    &&& children[k] is Clip
    &&& 0 <= m < children[k]->Clip_0.markers.len()
    &&& t == onset(children, k) + tick(
        children[k]->Clip_0.markers[m].marked_range.start_time.seconds,
    )
}

/// Whether others may snap to a time: an edge of a child of some track, or a marker on
/// a clip, where those are asked for.
pub open spec fn snaps_to(tl: TimelineModel, snap: SnapOptions, kind: SnapTargetKind, t: int) -> bool {
    wanted(snap, kind) && match kind {
        SnapTargetKind::ClipEdge => exists|s: int, k: int|
            has_row(tl, s) && #[trigger] edge_at(row(tl, s), k, t),
        SnapTargetKind::Marker => exists|s: int, k: int, m: int|
            has_row(tl, s) && #[trigger] marker_at(row(tl, s), k, m, t),
        SnapTargetKind::Playhead => false,
    }
}

/// The distance between two times.
pub open spec fn apart(a: int, b: int) -> int {
    if a < b {
        b - a
    } else {
        a - b
    }
}

/// Whether all times of a track, and of the markers on it, can be counted.
pub open spec fn marked_plainly(children: Seq<TrackChildModel>) -> bool {
    &&& steady(children)
    &&& forall|k: int, m: int|
        #![trigger children[k]->Clip_0.markers[m]]
        0 <= k < children.len() && children[k] is Clip && 0 <= m
            < children[k]->Clip_0.markers.len() ==> {
            let t = children[k]->Clip_0.markers[m].marked_range.start_time.seconds;
            t is Fin && 0 <= tick(t) && whole(children) + tick(t) <= i128::MAX
        }
}

proof fn lemma_contains_plus<A>(a: Seq<A>, b: Seq<A>, x: A)
    ensures
        (a + b).contains(x) <==> a.contains(x) || b.contains(x),
{
    if (a + b).contains(x) {
        let k = choose|k: int| 0 <= k < (a + b).len() && (a + b)[k] == x;
        if k < a.len() {
            assert(a[k] == x);
        } else {
            assert(b[k - a.len()] == x);
        }
    }
    if a.contains(x) {
        let k = choose|k: int| 0 <= k < a.len() && a[k] == x;
        assert((a + b)[k] == x);
    }
    if b.contains(x) {
        let k = choose|k: int| 0 <= k < b.len() && b[k] == x;
        assert((a + b)[k + a.len()] == x);
    }
}

/// Whether a child of a track gives a target.
spec fn child_gives(
    children: Seq<TrackChildModel>,
    edges: bool,
    markers: bool,
    k: int,
    x: SnapTarget,
) -> bool {
    &&& x.time_s is Fin
    &&& {
        ||| edges && x.kind == SnapTargetKind::ClipEdge && edge_at(children, k, tick(x.time_s))
        ||| markers && x.kind == SnapTargetKind::Marker && exists|m: int| #[trigger]
            marker_at(children, k, m, tick(x.time_s))
    }
}

proof fn lemma_child_gives(
    children: Seq<TrackChildModel>,
    edges: bool,
    markers: bool,
    k: int,
    x: SnapTarget,
)
    requires
        marked_plainly(children),
        0 <= k < children.len(),
    ensures
        child_targets(children[k], start_of(children, k), edges, markers).contains(x)
            <==> child_gives(children, edges, markers, k, x),
{
    lemma_steady(children);
    law_starts_add_up(children, k);
    law_starts_add_up(children, k + 1);
    lemma_onsets(children, 0, k);
    lemma_onsets(children, k, k + 1);
    lemma_onsets(children, k + 1, children.len() as int);
    assert(timed(children[k]));
    let at = start_of(children, k);
    let c = children[k];
    let e = if edges {
        seq![
            SnapTarget { kind: SnapTargetKind::ClipEdge, time_s: at },
            SnapTarget {
                kind: SnapTargetKind::ClipEdge,
                time_s: at.plus(crate::edit::child_seconds(c)),
            },
        ]
    } else {
        Seq::empty()
    };
    let ms = match c {
        TrackChildModel::Clip(c) if markers => marker_targets(c.markers, at),
        _ => Seq::empty(),
    };
    assert(child_targets(c, at, edges, markers) == e + ms);
    lemma_contains_plus(e, ms, x);
    if edges {
        assert(e[0].time_s == at);
        assert(e[1].time_s == start_of(children, k + 1));
        assert(e.contains(x) <==> x == e[0] || x == e[1]) by {
            if e.contains(x) {
                let n = choose|n: int| 0 <= n < e.len() && e[n] == x;
                assert(n == 0 || n == 1);
            }
        }
        if x.time_s is Fin {
            assert(x.time_s == Num::Fin(tick(x.time_s) as i128));
        }
    }
    if c is Clip && markers {
        let marks = c->Clip_0.markers;
        if ms.contains(x) {
            let m = choose|m: int| 0 <= m < ms.len() && ms[m] == x;
            let t = marks[m].marked_range.start_time.seconds;
            assert(children[k]->Clip_0.markers[m] == marks[m]);
            assert(marker_at(children, k, m, tick(x.time_s)));
        }
        if x.time_s is Fin && x.kind == SnapTargetKind::Marker && exists|m: int| #[trigger]
            marker_at(children, k, m, tick(x.time_s)) {
            let m = choose|m: int| #[trigger] marker_at(children, k, m, tick(x.time_s));
            assert(children[k]->Clip_0.markers[m] == marks[m]);
            assert(ms[m] == x);
        }
    }
}

proof fn lemma_track_gives(
    children: Seq<TrackChildModel>,
    edges: bool,
    markers: bool,
    n: int,
    x: SnapTarget,
)
    requires
        marked_plainly(children),
        0 <= n <= children.len(),
    ensures
        track_targets(children, edges, markers, n).contains(x) <==> exists|k: int|
            0 <= k < n && #[trigger] child_gives(children, edges, markers, k, x),
    decreases n,
{
    if n > 0 {
        lemma_track_gives(children, edges, markers, n - 1, x);
        lemma_child_gives(children, edges, markers, n - 1, x);
        lemma_contains_plus(
            track_targets(children, edges, markers, n - 1),
            child_targets(children[n - 1], start_of(children, n - 1), edges, markers),
            x,
        );
    }
}

/// Whether a layer gives a target.
spec fn layer_gives(
    layers: Seq<StackChildModel>,
    edges: bool,
    markers: bool,
    s: int,
    x: SnapTarget,
) -> bool {
    &&& 0 <= s < layers.len()
    &&& layers[s] is Track
    &&& exists|k: int|
        0 <= k < layers[s]->Track_0.children.len() && #[trigger] child_gives(
            layers[s]->Track_0.children,
            edges,
            markers,
            k,
            x,
        )
}

proof fn lemma_layers_give(
    layers: Seq<StackChildModel>,
    edges: bool,
    markers: bool,
    n: int,
    x: SnapTarget,
)
    requires
        0 <= n <= layers.len(),
        forall|s: int|
            0 <= s < layers.len() && (#[trigger] layers[s]) is Track ==> marked_plainly(
                layers[s]->Track_0.children,
            ),
    ensures
        layer_targets(layers, edges, markers, n).contains(x) <==> exists|s: int|
            0 <= s < n && #[trigger] layer_gives(layers, edges, markers, s, x),
    decreases n,
{
    if n > 0 {
        lemma_layers_give(layers, edges, markers, n - 1, x);
        let rest = layer_targets(layers, edges, markers, n - 1);
        let more = match layers[n - 1] {
            StackChildModel::Track(t) => track_targets(
                t.children,
                edges,
                markers,
                t.children.len() as int,
            ),
            _ => Seq::empty(),
        };
        lemma_contains_plus(rest, more, x);
        if layers[n - 1] is Track {
            let children = layers[n - 1]->Track_0.children;
            lemma_track_gives(children, edges, markers, children.len() as int, x);
        }
        assert(more.contains(x) <==> layer_gives(layers, edges, markers, n - 1, x));
        if layer_targets(layers, edges, markers, n).contains(x) {
            if rest.contains(x) {
                let s = choose|s: int|
                    0 <= s < n - 1 && #[trigger] layer_gives(layers, edges, markers, s, x);
                assert(layer_gives(layers, edges, markers, s, x));
            } else {
                assert(layer_gives(layers, edges, markers, n - 1, x));
            }
        }
        if exists|s: int| 0 <= s < n && #[trigger] layer_gives(layers, edges, markers, s, x) {
            let s = choose|s: int|
                0 <= s < n && #[trigger] layer_gives(layers, edges, markers, s, x);
            if s < n - 1 {
                assert(rest.contains(x));
            }
        }
    }
}

/// The times that are found are those to which others may snap.
proof fn lemma_targets(tl: TimelineModel, snap: SnapOptions, x: SnapTarget)
    requires
        forall|s: int| #![trigger tl.tracks.children[s]] has_row(tl, s) ==> marked_plainly(row(tl, s)),
    ensures
        targets_of(tl, snap).contains(x) <==> x.time_s is Fin && snaps_to(
            tl,
            snap,
            x.kind,
            tick(x.time_s),
        ),
{
    let layers = tl.tracks.children;
    let edges = crate::snap::includes(snap, SnapTargetKind::ClipEdge);
    let markers = crate::snap::includes(snap, SnapTargetKind::Marker);
    assert(edges == wanted(snap, SnapTargetKind::ClipEdge));
    assert(markers == wanted(snap, SnapTargetKind::Marker));
    assert forall|s: int| 0 <= s < layers.len() && (#[trigger] layers[s]) is Track implies marked_plainly(
        layers[s]->Track_0.children,
    ) by {
        assert(has_row(tl, s));
    }
    lemma_layers_give(layers, edges, markers, layers.len() as int, x);
    if targets_of(tl, snap).contains(x) {
        let s = choose|s: int| 0 <= s < layers.len() && #[trigger] layer_gives(layers, edges, markers, s, x);
        let children = layers[s]->Track_0.children;
        let k = choose|k: int| 0 <= k < children.len() && #[trigger] child_gives(children, edges, markers, k, x);
        assert(has_row(tl, s) && row(tl, s) == children);
        if x.kind == SnapTargetKind::ClipEdge {
            assert(edge_at(row(tl, s), k, tick(x.time_s)));
        } else {
            let m = choose|m: int| #[trigger] marker_at(children, k, m, tick(x.time_s));
            assert(marker_at(row(tl, s), k, m, tick(x.time_s)));
        }
    }
    if x.time_s is Fin && snaps_to(tl, snap, x.kind, tick(x.time_s)) {
        let t = tick(x.time_s);
        if x.kind == SnapTargetKind::ClipEdge {
            let (s, k) = choose|s: int, k: int|
                has_row(tl, s) && #[trigger] edge_at(row(tl, s), k, t);
            assert(child_gives(layers[s]->Track_0.children, edges, markers, k, x));
            assert(layer_gives(layers, edges, markers, s, x));
        } else {
            let (s, k, m) = choose|s: int, k: int, m: int|
                has_row(tl, s) && #[trigger] marker_at(row(tl, s), k, m, t);
            assert(marker_at(layers[s]->Track_0.children, k, m, t));
            assert(child_gives(layers[s]->Track_0.children, edges, markers, k, x));
            assert(layer_gives(layers, edges, markers, s, x));
        }
    }
}

proof fn lemma_best(ts: Seq<SnapTarget>, at: Num, tolerance: Num, n: int)
    requires
        0 <= n <= ts.len(),
        at is Fin,
        0 <= tick(at),
        tolerance is Fin,
        forall|k: int| 0 <= k < ts.len() ==> (#[trigger] ts[k]).time_s is Fin && 0 <= tick(ts[k].time_s),
    ensures
        match best_target(ts, at, tolerance, n) {
            Some(b) => {
                &&& in_reach(b, at, tolerance)
                &&& exists|k: int| 0 <= k < n && #[trigger] ts[k] == b
                &&& forall|k: int|
                    0 <= k < n && in_reach(#[trigger] ts[k], at, tolerance) ==> !preferred(ts[k], b, at)
            },
            None => forall|k: int| 0 <= k < n ==> !in_reach(#[trigger] ts[k], at, tolerance),
        },
    decreases n,
{
    if n > 0 {
        lemma_best(ts, at, tolerance, n - 1);
        let t = ts[n - 1];
        if let Some(b) = best_target(ts, at, tolerance, n - 1) {
            let i = choose|k: int| 0 <= k < n - 1 && #[trigger] ts[k] == b;
            assert(ts[i] == b);
            assert(b.time_s is Fin);
        }
        assert(t.time_s is Fin);
    }
}

/// How much a kind counts among times equally far away: markers before edges.
pub open spec fn ahead(a: SnapTargetKind, b: SnapTargetKind) -> bool {
    a == SnapTargetKind::Marker && b == SnapTargetKind::ClipEdge
}

/// A time snaps to the nearest of all times to which it may snap that are no further
/// away than the tolerance; of equally near ones to a marker rather than to an edge,
/// and else to the earlier.  Where none is so near, or snapping is off, it stays.  A
/// tolerance that is negative, or cannot be counted, is refused.
pub proof fn law_a_time_snaps_to_the_nearest(
    tl: TimelineModel,
    index: usize,
    at: Num,
    snap: SnapOptions,
)
    requires
        at is Fin,
        0 <= tick(at),
        forall|s: int| #![trigger tl.tracks.children[s]] has_row(tl, s) ==> marked_plainly(row(tl, s)),
    ensures
        snapped(tl, index, at, None) == Ok::<Num, Refusal>(at),
        !snap.enabled ==> snapped(tl, index, at, Some(snap)) == Ok::<Num, Refusal>(at),
        snap.enabled ==> match snapped(tl, index, at, Some(snap)) {
            Ok(x) => {
                let reach = tick(snap.tolerance_s);
                let r = tick(x);
                &&& snap.tolerance_s is Fin && 0 <= reach
                &&& x is Fin
                &&& {
                    ||| x == at && forall|kind: SnapTargetKind, t: int| #[trigger]
                        snaps_to(tl, snap, kind, t) ==> apart(t, tick(at)) > reach
                    ||| exists|mine: SnapTargetKind| #[trigger]
                        snaps_to(tl, snap, mine, r) && apart(r, tick(at)) <= reach && forall|
                            kind: SnapTargetKind,
                            t: int,
                        | #[trigger]
                            snaps_to(tl, snap, kind, t) ==> {
                                ||| apart(r, tick(at)) < apart(t, tick(at))
                                ||| apart(r, tick(at)) == apart(t, tick(at)) && (ahead(mine, kind)
                                    || (mine == kind && r <= t))
                            }
                }
            },
            Err(_) => snap.tolerance_s !is Fin || tick(snap.tolerance_s) < 0,
        },
{
    if snap.enabled && snap.tolerance_s is Fin && 0 <= tick(snap.tolerance_s) {
        let ts = targets_of(tl, snap);
        let tolerance = snap.tolerance_s;
        assert forall|k: int| 0 <= k < ts.len() implies (#[trigger] ts[k]).time_s is Fin && 0 <= tick(
            ts[k].time_s,
        ) by {
            assert(ts.contains(ts[k]));
            lemma_targets(tl, snap, ts[k]);
            lemma_target_time(tl, snap, ts[k].kind, tick(ts[k].time_s));
        }
        lemma_best(ts, at, tolerance, ts.len() as int);
        let found = best_target(ts, at, tolerance, ts.len() as int);
        assert forall|kind: SnapTargetKind, t: int| #[trigger] snaps_to(tl, snap, kind, t) implies {
            let x = SnapTarget { kind, time_s: Num::Fin(t as i128) };
            &&& ts.contains(x)
            &&& tick(x.time_s) == t
            &&& 0 <= t
        } by {
            lemma_target_time(tl, snap, kind, t);
            lemma_targets(tl, snap, SnapTarget { kind, time_s: Num::Fin(t as i128) });
        }
        match found {
            None => {
                assert forall|kind: SnapTargetKind, t: int| #[trigger]
                    snaps_to(tl, snap, kind, t) implies apart(t, tick(at)) > tick(tolerance) by {
                    let x = SnapTarget { kind, time_s: Num::Fin(t as i128) };
                    let k = choose|k: int| 0 <= k < ts.len() && ts[k] == x;
                    assert(!in_reach(ts[k], at, tolerance));
                }
            },
            Some(b) => {
                let i = choose|k: int| 0 <= k < ts.len() && #[trigger] ts[k] == b;
                assert(ts.contains(b)) by {
                    assert(ts[i] == b);
                }
                lemma_targets(tl, snap, b);
                assert(snaps_to(tl, snap, b.kind, tick(b.time_s)));
                assert(ts[i].time_s is Fin);
                let r = tick(b.time_s);
                assert forall|kind: SnapTargetKind, t: int| #[trigger]
                    snaps_to(tl, snap, kind, t) implies {
                    ||| apart(r, tick(at)) < apart(t, tick(at))
                    ||| apart(r, tick(at)) == apart(t, tick(at)) && (ahead(b.kind, kind) || (b.kind
                        == kind && r <= t))
                } by {
                    let x = SnapTarget { kind, time_s: Num::Fin(t as i128) };
                    let k = choose|k: int| 0 <= k < ts.len() && ts[k] == x;
                    assert(ts[k] == x);
                    if in_reach(x, at, tolerance) {
                        assert(in_reach(ts[k], at, tolerance));
                        assert(!preferred(ts[k], b, at));
                    }
                }
            },
        }
    }
}

proof fn lemma_target_time(tl: TimelineModel, snap: SnapOptions, kind: SnapTargetKind, t: int)
    requires
        forall|s: int| #![trigger tl.tracks.children[s]] has_row(tl, s) ==> marked_plainly(row(tl, s)),
        snaps_to(tl, snap, kind, t),
    ensures
        0 <= t <= i128::MAX,
{
    if kind == SnapTargetKind::ClipEdge {
        let (s, k) = choose|s: int, k: int| has_row(tl, s) && #[trigger] edge_at(row(tl, s), k, t);
        let children = row(tl, s);
        assert(tl.tracks.children[s] is Track);
        lemma_onsets(children, 0, k);
        lemma_onsets(children, k, k + 1);
        lemma_onsets(children, k + 1, children.len() as int);
    } else {
        let (s, k, m) = choose|s: int, k: int, m: int|
            has_row(tl, s) && #[trigger] marker_at(row(tl, s), k, m, t);
        let children = row(tl, s);
        assert(tl.tracks.children[s] is Track);
        lemma_onsets(children, 0, k);
        lemma_onsets(children, k, children.len() as int);
        let x = children[k]->Clip_0.markers[m];
    }
}

} // verus!

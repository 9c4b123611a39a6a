//! Times that snap to clip edges and markers.
use vstd::prelude::*;

use crate::edit::{child_duration, child_seconds, start_of};
use crate::error::{bad, invalid, ApplyError, Refusal};
use crate::model::{
    MarkerModel, StackChildModel, Timeline, TimelineModel, Track, TrackChild, TrackChildModel,
};
use crate::num::{zero, Num};
use crate::op::{SnapOptions, SnapTargetKind};
use crate::text::{cat2, show, shown};

verus! {

/// A time to which others snap.
#[derive(Clone, Copy, Debug, PartialEq, Eq, Structural)]
pub struct SnapTarget {
    pub kind: SnapTargetKind,
    pub time_s: Num,
}

/// Whether a kind of target is asked for.
pub open spec fn includes(snap: SnapOptions, kind: SnapTargetKind) -> bool {
    snap.targets@.len() == 0 || snap.targets@.contains(kind)
}

/// Whether a kind of target is asked for.
pub fn snap_includes(snap: &SnapOptions, kind: SnapTargetKind) -> (r: bool)
    ensures
        r == includes(*snap, kind),
{
    let mut i: usize = 0;
    while i < snap.targets.len()
        invariant
            i <= snap.targets@.len(),
            forall|j: int| 0 <= j < i ==> snap.targets@[j] != kind,
        decreases snap.targets@.len() - i,
    {
        if snap.targets[i] == kind {
            return true;
        }
        i = i + 1;
    }
    snap.targets.len() == 0
}

/// The rank of a kind of target among equally near ones: the lowest wins.
pub open spec fn priority(kind: SnapTargetKind) -> u8 {
    match kind {
        SnapTargetKind::Marker => 0,
        SnapTargetKind::ClipEdge => 1,
        SnapTargetKind::Playhead => 2,
    }
}

/// The rank of a kind of target among equally near ones: the lowest wins.
pub fn snap_target_priority(kind: SnapTargetKind) -> (r: u8)
    ensures
        r == priority(kind),
{
    match kind {
        SnapTargetKind::Marker => 0,
        SnapTargetKind::ClipEdge => 1,
        SnapTargetKind::Playhead => 2,
    }
}

/// The times of the markers on a clip that begins at `at`.
pub open spec fn marker_targets(markers: Seq<MarkerModel>, at: Num) -> Seq<SnapTarget> {
    Seq::new(
        markers.len(),
        |i: int| SnapTarget {
            kind: SnapTargetKind::Marker,
            time_s: at.plus(markers[i].marked_range.start_time.seconds),
        },
    )
}

/// The targets that a child of a track gives: its two edges, and its markers.
pub open spec fn child_targets(
    c: TrackChildModel,
    at: Num,
    edges: bool,
    markers: bool,
) -> Seq<SnapTarget> {
    (if edges {
        seq![
            SnapTarget { kind: SnapTargetKind::ClipEdge, time_s: at },
            SnapTarget { kind: SnapTargetKind::ClipEdge, time_s: at.plus(child_seconds(c)) },
        ]
    } else {
        Seq::empty()
    }) + (match c {
        TrackChildModel::Clip(c) if markers => marker_targets(c.markers, at),
        _ => Seq::empty(),
    })
}

/// The targets that the first `n` children of a track give.
pub open spec fn track_targets(
    children: Seq<TrackChildModel>,
    edges: bool,
    markers: bool,
    n: int,
) -> Seq<SnapTarget>
    decreases n,
{
    if n <= 0 {
        Seq::empty()
    } else {
        track_targets(children, edges, markers, n - 1) + child_targets(
            children[n - 1],
            start_of(children, n - 1),
            edges,
            markers,
        )
    }
}

/// The targets that the first `n` layers of a timeline give.
pub open spec fn layer_targets(
    layers: Seq<StackChildModel>,
    edges: bool,
    markers: bool,
    n: int,
) -> Seq<SnapTarget>
    decreases n,
{
    if n <= 0 {
        Seq::empty()
    } else {
        layer_targets(layers, edges, markers, n - 1) + (match layers[n - 1] {
            StackChildModel::Track(t) => track_targets(
                t.children,
                edges,
                markers,
                t.children.len() as int,
            ),
            _ => Seq::empty(),
        })
    }
}

/// All targets that are asked for.
pub open spec fn targets_of(tl: TimelineModel, snap: SnapOptions) -> Seq<SnapTarget> {
    layer_targets(
        tl.tracks.children,
        includes(snap, SnapTargetKind::ClipEdge),
        includes(snap, SnapTargetKind::Marker),
        tl.tracks.children.len() as int,
    )
}

fn add_track_targets(out: &mut Vec<SnapTarget>, track: &Track, edges: bool, markers: bool)
    ensures
        final(out)@ == old(out)@ + track_targets(
            track@.children,
            edges,
            markers,
            track@.children.len() as int,
        ),
{
    let ghost start = out@;
    let ghost children = track@.children;
    let mut cursor_s = zero();
    let mut i: usize = 0;
    assert(out@ =~= start + track_targets(children, edges, markers, 0));
    while i < track.children.len()
        invariant
            i <= track@.children.len(),
            children == track@.children,
            cursor_s == start_of(children, i as int),
            out@ == start + track_targets(children, edges, markers, i as int),
        decreases children.len() - i,
    {
        let child = &track.children[i];
        let ghost before = out@;
        let duration_s = child_duration(child);
        if edges {
            out.push(SnapTarget { kind: SnapTargetKind::ClipEdge, time_s: cursor_s });
            out.push(
                SnapTarget { kind: SnapTargetKind::ClipEdge, time_s: cursor_s.plus(duration_s) },
            );
        }
        let ghost middle = out@;
        if markers {
            if let TrackChild::Clip(clip) = child {
                let ghost all = marker_targets(clip@.markers, cursor_s);
                let mut k: usize = 0;
                assert(out@ =~= middle + all.take(0));
                while k < clip.markers.len()
                    invariant
                        k <= clip@.markers.len(),
                        all == marker_targets(clip@.markers, cursor_s),
                        out@ == middle + all.take(k as int),
                    decreases clip@.markers.len() - k,
                {
                    out.push(
                        SnapTarget {
                            kind: SnapTargetKind::Marker,
                            time_s: cursor_s.plus(
                                clip.markers[k].marked_range.start_time.to_seconds(),
                            ),
                        },
                    );
                    assert(out@ =~= middle + all.take(k + 1));
                    k = k + 1;
                }
                assert(all.take(all.len() as int) =~= all);
            }
        }
        assert(out@ =~= before + child_targets(children[i as int], cursor_s, edges, markers));
        cursor_s = cursor_s.plus(duration_s);
        assert(out@ =~= start + track_targets(children, edges, markers, i + 1));
        i = i + 1;
    }
}

proof fn lemma_no_targets(layers: Seq<StackChildModel>, n: int)
    ensures
        layer_targets(layers, false, false, n) == Seq::<SnapTarget>::empty(),
    decreases n,
{
    if n > 0 {
        lemma_no_targets(layers, n - 1);
        if let StackChildModel::Track(t) = layers[n - 1] {
            lemma_no_track_targets(t.children, t.children.len() as int);
        }
        assert(layer_targets(layers, false, false, n) =~= Seq::empty());
    }
}

proof fn lemma_no_track_targets(children: Seq<TrackChildModel>, n: int)
    ensures
        track_targets(children, false, false, n) == Seq::<SnapTarget>::empty(),
    decreases n,
{
    if n > 0 {
        lemma_no_track_targets(children, n - 1);
        assert(track_targets(children, false, false, n) =~= Seq::empty());
    }
}

/// All targets that are asked for.
pub fn collect_snap_targets(timeline: &Timeline, snap: &SnapOptions) -> (r: Vec<SnapTarget>)
    ensures
        r@ == targets_of(timeline@, *snap),
{
    let edges = snap_includes(snap, SnapTargetKind::ClipEdge);
    let markers = snap_includes(snap, SnapTargetKind::Marker);
    let mut out: Vec<SnapTarget> = Vec::new();
    let ghost layers = timeline@.tracks.children;
    if !edges && !markers {
        proof {
            lemma_no_targets(layers, layers.len() as int);
        }
        return out;
    }
    let mut i: usize = 0;
    while i < timeline.tracks.children.len()
        invariant
            i <= timeline@.tracks.children.len(),
            layers == timeline@.tracks.children,
            out@ == layer_targets(layers, edges, markers, i as int),
        decreases layers.len() - i,
    {
        let ghost before = out@;
        if let Some(track) = timeline.track(i) {
            add_track_targets(&mut out, track, edges, markers);
        }
        assert(out@ =~= layer_targets(layers, edges, markers, i + 1));
        i = i + 1;
    }
    out
}

/// Whether `a` is preferred to `b` near a time: the nearer one, then the kind of
/// lower rank, then the earlier one.
pub open spec fn preferred(a: SnapTarget, b: SnapTarget, at: Num) -> bool {
    let da = a.time_s.minus(at).size();
    let db = b.time_s.minus(at).size();
    da.less(db) || (da == db && (priority(a.kind) < priority(b.kind) || (priority(a.kind)
        == priority(b.kind) && a.time_s.less(b.time_s))))
}

fn prefer(a: SnapTarget, b: SnapTarget, at: Num) -> (r: bool)
    ensures
        r == preferred(a, b, at),
{
    let da = a.time_s.minus(at).size();
    let db = b.time_s.minus(at).size();
    let pa: u8 = snap_target_priority(a.kind);
    let pb: u8 = snap_target_priority(b.kind);
    da.less(db) || (da == db && (pa < pb || (pa == pb && a.time_s.less(b.time_s))))
}

/// Whether a target is near enough.
pub open spec fn in_reach(t: SnapTarget, at: Num, tolerance: Num) -> bool {
    t.time_s.minus(at).size().at_most(tolerance)
}

/// The preferred one of the first `n` targets, if any is near enough.
pub open spec fn best_target(ts: Seq<SnapTarget>, at: Num, tolerance: Num, n: int) -> Option<
    SnapTarget,
>
    decreases n,
{
    if n <= 0 {
        None
    } else {
        let t = ts[n - 1];
        match best_target(ts, at, tolerance, n - 1) {
            Some(b) => if in_reach(t, at, tolerance) && preferred(t, b, at) {
                Some(t)
            } else {
                Some(b)
            },
            None => if in_reach(t, at, tolerance) {
                Some(t)
            } else {
                None
            },
        }
    }
}

/// The time to which a requested time snaps.
pub open spec fn snapped(
    tl: TimelineModel,
    index: usize,
    requested: Num,
    snap: Option<SnapOptions>,
) -> Result<Num, Refusal> {
    match snap {
        Some(s) if s.enabled => if !s.tolerance_s.is_finite() || s.tolerance_s.less(zero()) {
            Err(
                bad(
                    index,
                    "move: snap_tolerance_s must be finite and >= 0, got "@ + shown(s.tolerance_s),
                ),
            )
        } else {
            let ts = targets_of(tl, s);
            match best_target(ts, requested, s.tolerance_s, ts.len() as int) {
                Some(t) => Ok(t.time_s),
                None => Ok(requested),
            }
        },
        _ => Ok(requested),
    }
}

/// The time to which a requested time snaps.
pub fn resolve_snap_time(
    timeline: &Timeline,
    index: usize,
    requested_s: Num,
    snap: &Option<SnapOptions>,
) -> (r: Result<Num, ApplyError>)
    ensures
        match r {
            Ok(t) => snapped(timeline@, index, requested_s, *snap) == Ok::<Num, Refusal>(t),
            Err(e) => snapped(timeline@, index, requested_s, *snap) == Err::<Num, Refusal>(e@),
        },
{
    let snap = match snap {
        Some(s) => s,
        None => {
            return Ok(requested_s);
        },
    };
    if !snap.enabled {
        return Ok(requested_s);
    }
    if !snap.tolerance_s.is_finite() || snap.tolerance_s.less(zero()) {
        return Err(
            invalid(
                index,
                cat2(
                    "move: snap_tolerance_s must be finite and >= 0, got ",
                    show(snap.tolerance_s).as_str(),
                ),
            ),
        );
    }
    let targets = collect_snap_targets(timeline, snap);
    let mut best: Option<SnapTarget> = None;
    let mut i: usize = 0;
    while i < targets.len()
        invariant
            i <= targets@.len(),
            best == best_target(targets@, requested_s, snap.tolerance_s, i as int),
        decreases targets@.len() - i,
    {
        let t = targets[i];
        if t.time_s.minus(requested_s).size().at_most(snap.tolerance_s) {
            best = match best {
                Some(b) => if prefer(t, b, requested_s) {
                    Some(t)
                } else {
                    Some(b)
                },
                None => Some(t),
            };
        }
        i = i + 1;
    }
    match best {
        Some(t) => Ok(t.time_s),
        None => Ok(requested_s),
    }
}

} // verus!

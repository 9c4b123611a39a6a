//! What is kept about the cuts between clips, and what of it is still true.
use vstd::prelude::*;

use crate::clip::{child_id, first_where, id_of, same_opt, track_child_clip_id, with_clip_montage};
use crate::edit::{track_at, with_children, with_layers, with_montage};
use crate::model::{
    opt, views, Clip, ClipModel, CutBoundary, CutBoundaryModel, MontageClipMetadataModel,
    MontageTimelineMetadataModel, SemanticCutSpec, SemanticCutSpecModel, SplitEditSpec,
    SplitEditSpecModel, StackChildModel, Stored, Timeline, TimelineModel, Track, TrackChild,
    TrackChildModel, TrackModel,
};
use crate::text::{cat3, same, split_at_colons, split_colons, Str};

verus! {

// ---- neighbours -----------------------------------------------------------

/// The id of the last clip in front of place `n`.
pub open spec fn previous_id(children: Seq<TrackChildModel>, n: int) -> Option<Str>
    decreases n,
{
    if n <= 0 || n > children.len() {
        None
    } else {
        match child_id(children[n - 1]) {
            Some(id) => Some(id),
            None => previous_id(children, n - 1),
        }
    }
}

/// The id of the first clip from place `n` on.
pub open spec fn next_id_from(children: Seq<TrackChildModel>, n: int) -> Option<Str>
    decreases children.len() - n,
{
    if n < 0 || n >= children.len() {
        None
    } else {
        match child_id(children[n]) {
            Some(id) => Some(id),
            None => next_id_from(children, n + 1),
        }
    }
}

/// The id of the last clip in front of a place.
pub fn previous_clip_id(track: &Track, before_index: usize) -> (r: Option<String>)
    requires
        before_index <= track@.children.len(),
    ensures
        opt(r) == previous_id(track@.children, before_index as int),
{
    let mut n: usize = before_index;
    while n > 0
        invariant
            n <= before_index <= track@.children.len(),
            previous_id(track@.children, before_index as int) == previous_id(
                track@.children,
                n as int,
            ),
        decreases n,
    {
        if let Some(id) = track_child_clip_id(&track.children[n - 1]) {
            return Some(id);
        }
        n = n - 1;
    }
    None
}

/// The id of the first clip behind a place.
pub fn next_clip_id(track: &Track, after_index: usize) -> (r: Option<String>)
    ensures
        opt(r) == next_id_from(track@.children, after_index + 1),
{
    if after_index >= track.children.len() {
        return None;
    }
    let mut n: usize = after_index + 1;
    while n < track.children.len()
        invariant
            n <= track@.children.len(),
            next_id_from(track@.children, after_index + 1) == next_id_from(
                track@.children,
                n as int,
            ),
        decreases track@.children.len() - n,
    {
        if let Some(id) = track_child_clip_id(&track.children[n]) {
            return Some(id);
        }
        n = n + 1;
    }
    None
}

/// Whether a child is anything but empty time.
pub open spec fn solid() -> spec_fn(TrackChildModel) -> bool {
    |c: TrackChildModel| !(c is Gap)
}

/// The id of what stands behind a place and the empty time there, where it is a
/// clip.
pub open spec fn next_id_over_gaps(children: Seq<TrackChildModel>, n: int) -> Option<Str> {
    match first_where(children, solid(), n + 1) {
        Some(k) => child_id(children[k]),
        None => None,
    }
}

/// The id of what stands behind a place and the empty time there, where it is a
/// clip.
pub fn next_clip_id_after_gaps(track: &Track, after_index: usize) -> (r: Option<String>)
    ensures
        opt(r) == next_id_over_gaps(track@.children, after_index as int),
{
    if after_index >= track.children.len() {
        return None;
    }
    let mut n: usize = after_index + 1;
    while n < track.children.len()
        invariant
            n <= track@.children.len(),
            first_where(track@.children, solid(), after_index + 1) == first_where(
                track@.children,
                solid(),
                n as int,
            ),
        decreases track@.children.len() - n,
    {
        match &track.children[n] {
            TrackChild::Gap(_) => {},
            child => {
                return track_child_clip_id(child);
            },
        }
        n = n + 1;
    }
    None
}

// ---- cut boundaries -------------------------------------------------------

/// The key of the cut between two clips.
pub open spec fn boundary_key(from: Str, to: Str) -> Str {
    from + "::"@ + to
}

/// The key of the cut between two clips.
pub fn cut_boundary_key(from: &str, to: &str) -> (r: String)
    ensures
        r@ == boundary_key(from@, to@),
{
    cat3(from, "::", to)
}

/// Whether a key is that of a cut at the clip.
pub open spec fn key_names(key: Str, clip_id: Str) -> bool {
    match split_colons(key) {
        Some((from, to)) => from == clip_id || to == clip_id,
        None => false,
    }
}

/// Whether a key is that of a cut at the clip.
pub fn cut_boundary_key_references_clip(key: &str, clip_id: &str) -> (r: bool)
    ensures
        r == key_names(key@, clip_id@),
{
    match split_at_colons(key) {
        Some((from, to)) => same(from.as_str(), clip_id) || same(to.as_str(), clip_id),
        None => false,
    }
}

/// Whether a boundary has the key.
pub open spec fn keyed(key: Str) -> spec_fn(CutBoundaryModel) -> bool {
    |b: CutBoundaryModel| b.key == key
}

/// Whether a boundary has another key.
pub open spec fn not_keyed(key: Str) -> spec_fn(CutBoundaryModel) -> bool {
    |b: CutBoundaryModel| b.key != key
}

/// Whether a boundary is that of a cut away from the clip.
pub open spec fn elsewhere(clip_id: Str) -> spec_fn(CutBoundaryModel) -> bool {
    |b: CutBoundaryModel| !key_names(b.key, clip_id)
}

/// The boundaries with `spec` under `key`.
pub open spec fn put_boundary(
    bs: Seq<CutBoundaryModel>,
    key: Str,
    spec_: SemanticCutSpecModel,
) -> Seq<CutBoundaryModel> {
    match first_where(bs, keyed(key), 0) {
        Some(i) => bs.update(i, CutBoundaryModel { key, spec: spec_ }),
        None => bs.push(CutBoundaryModel { key, spec: spec_ }),
    }
}

/// Puts a spec under the key of a cut.
pub fn set_boundary(bs: &mut Vec<CutBoundary>, key: &str, spec_: SemanticCutSpec)
    ensures
        views(final(bs)@) == put_boundary(views(old(bs)@), key@, spec_@),
{
    let ghost before = views(bs@);
    let mut i: usize = 0;
    while i < bs.len()
        invariant
            i <= bs@.len(),
            views(bs@) == before,
            before == views(old(bs)@),
            bs@.len() == before.len(),
            first_where(before, keyed(key@), 0) == first_where(before, keyed(key@), i as int),
        decreases bs@.len() - i,
    {
        assert(before[i as int] == bs@[i as int]@);
        if same(bs[i].key.as_str(), key) {
            bs.set(i, CutBoundary { key: key.to_owned(), spec: spec_ });
            assert(views(bs@) =~= before.update(
                i as int,
                CutBoundaryModel { key: key@, spec: spec_@ },
            ));
            return;
        }
        i = i + 1;
    }
    bs.push(CutBoundary { key: key.to_owned(), spec: spec_ });
    assert(views(bs@) =~= before.push(CutBoundaryModel { key: key@, spec: spec_@ }));
}

fn drop_boundary(bs: &Vec<CutBoundary>, key: &str) -> (r: Vec<CutBoundary>)
    ensures
        views(r@) == views(bs@).filter(not_keyed(key@)),
{
    let ghost all = views(bs@);
    let mut out: Vec<CutBoundary> = Vec::new();
    let mut i: usize = 0;
    reveal(Seq::filter);
    assert(views(out@) =~= all.take(0).filter(not_keyed(key@)));
    while i < bs.len()
        invariant
            i <= bs@.len(),
            all == views(bs@),
            views(out@) == all.take(i as int).filter(not_keyed(key@)),
        decreases bs@.len() - i,
    {
        reveal(Seq::filter);
        let ghost before = views(out@);
        assert(all.take(i + 1).drop_last() =~= all.take(i as int));
        assert(all[i as int] == bs@[i as int]@);
        if !same(bs[i].key.as_str(), key) {
            out.push(bs[i].copied());
            assert(views(out@) =~= before.push(all[i as int]));
        }
        i = i + 1;
    }
    assert(all.take(all.len() as int) =~= all);
    out
}

/// The timeline without the cuts at a clip.
pub open spec fn without_cuts_at(tl: TimelineModel, clip_id: Str) -> TimelineModel {
    match tl.montage {
        Some(m) => with_montage(
            tl,
            MontageTimelineMetadataModel {
                cut_boundaries: m.cut_boundaries.filter(elsewhere(clip_id)),
                ..m
            },
        ),
        None => tl,
    }
}

/// Drops the cuts at a clip.
pub fn remove_cut_boundaries_for_clip(timeline: &mut Timeline, clip_id: &str)
    ensures
        final(timeline)@ == without_cuts_at(old(timeline)@, clip_id@),
{
    if let Some(m) = timeline.metadata.montage.take() {
        let mut m = m;
        let ghost all = views(m.cut_boundaries@);
        let mut out: Vec<CutBoundary> = Vec::new();
        let mut i: usize = 0;
        reveal(Seq::filter);
        assert(views(out@) =~= all.take(0).filter(elsewhere(clip_id@)));
        while i < m.cut_boundaries.len()
            invariant
                i <= m.cut_boundaries@.len(),
                all == views(m.cut_boundaries@),
                views(out@) == all.take(i as int).filter(elsewhere(clip_id@)),
            decreases m.cut_boundaries@.len() - i,
        {
            reveal(Seq::filter);
            let ghost before = views(out@);
            let b = &m.cut_boundaries[i];
            assert(all.take(i + 1).drop_last() =~= all.take(i as int));
            assert(all[i as int] == b@);
            if !cut_boundary_key_references_clip(b.key.as_str(), clip_id) {
                out.push(b.copied());
                assert(views(out@) =~= before.push(all[i as int]));
            }
            i = i + 1;
        }
        assert(all.take(all.len() as int) =~= all);
        m.cut_boundaries = out;
        timeline.metadata.montage = Some(m);
    }
}

/// The boundaries, with those among the first `n` of `all` that lead out of the
/// clip moved to another clip.
pub open spec fn moved_cuts(
    all: Seq<CutBoundaryModel>,
    from: Str,
    to: Str,
    n: int,
) -> Seq<CutBoundaryModel>
    decreases n,
{
    if n <= 0 {
        all
    } else {
        let rest = moved_cuts(all, from, to, n - 1);
        let b = all[n - 1];
        match split_colons(b.key) {
            Some((f, t)) if f == from => put_boundary(
                rest.filter(not_keyed(b.key)),
                boundary_key(to, t),
                b.spec,
            ),
            _ => rest,
        }
    }
}

/// The timeline with the cuts out of a clip moved to another clip.
pub open spec fn with_cuts_moved(tl: TimelineModel, from: Str, to: Str) -> TimelineModel {
    match tl.montage {
        Some(m) => with_montage(
            tl,
            MontageTimelineMetadataModel {
                cut_boundaries: moved_cuts(
                    m.cut_boundaries,
                    from,
                    to,
                    m.cut_boundaries.len() as int,
                ),
                ..m
            },
        ),
        None => tl,
    }
}

/// Moves the cuts out of a clip to the right half of that clip.
pub fn transfer_outgoing_cut_boundary_to_split_right(
    timeline: &mut Timeline,
    original_clip_id: &str,
    right_clip_id: &str,
)
    ensures
        final(timeline)@ == with_cuts_moved(
            old(timeline)@,
            original_clip_id@,
            right_clip_id@,
        ),
{
    if let Some(m) = timeline.metadata.montage.take() {
        let mut m = m;
        let ghost all = views(m.cut_boundaries@);
        let mut out: Vec<CutBoundary> = crate::model::copy_all(&m.cut_boundaries);
        let mut i: usize = 0;
        while i < m.cut_boundaries.len()
            invariant
                i <= m.cut_boundaries@.len(),
                all == views(m.cut_boundaries@),
                views(out@) == moved_cuts(all, original_clip_id@, right_clip_id@, i as int),
            decreases m.cut_boundaries@.len() - i,
        {
            let b = &m.cut_boundaries[i];
            assert(all[i as int] == b@);
            if let Some((f, t)) = split_at_colons(b.key.as_str()) {
                if same(f.as_str(), original_clip_id) {
                    out = drop_boundary(&out, b.key.as_str());
                    let key = cut_boundary_key(right_clip_id, t.as_str());
                    set_boundary(&mut out, key.as_str(), b.spec.copied());
                }
            }
            i = i + 1;
        }
        m.cut_boundaries = out;
        timeline.metadata.montage = Some(m);
    }
}

/// The key of the cut at the end of child `j` of a track: to the clip behind it,
/// over one transition or over empty time.
pub open spec fn cut_key_at(children: Seq<TrackChildModel>, j: int) -> Option<Str> {
    if !(0 <= j < children.len() - 1) {
        None
    } else {
        match child_id(children[j]) {
            None => None,
            Some(from) => {
                let to = match children[j + 1] {
                    TrackChildModel::Clip(c) => Some(id_of(c)),
                    TrackChildModel::Transition(_) => if j + 2 < children.len() {
                        child_id(children[j + 2])
                    } else {
                        None
                    },
                    TrackChildModel::Gap(_) => next_id_over_gaps(children, j),
                    TrackChildModel::Stack(_) => None,
                };
                match to {
                    Some(t) => Some(boundary_key(from, t)),
                    None => None,
                }
            },
        }
    }
}

/// Whether the key is that of a cut on the track.
pub open spec fn track_has_cut(t: TrackModel, key: Str) -> bool {
    exists|j: int|
        0 <= j < t.children.len() && #[trigger] cut_key_at(t.children, j) == Some(key)
}

/// Whether the key is that of a cut on the timeline.
pub open spec fn has_cut(tl: TimelineModel, key: Str) -> bool {
    exists|i: int|
        0 <= i < tl.tracks.children.len() && (#[trigger] track_at(tl, i) matches Some(t)
            && track_has_cut(t, key))
}

fn cut_key(track: &Track, j: usize) -> (r: Option<String>)
    requires
        j < track@.children.len(),
    ensures
        opt(r) == cut_key_at(track@.children, j as int),
{
    if track.children.len() - j <= 1 {
        return None;
    }
    let from = match track_child_clip_id(&track.children[j]) {
        Some(id) => id,
        None => {
            return None;
        },
    };
    let to = match &track.children[j + 1] {
        TrackChild::Clip(c) => Some(crate::clip::clip_id(c)),
        TrackChild::Transition(_) => if j + 1 < track.children.len() - 1 {
            track_child_clip_id(&track.children[j + 2])
        } else {
            None
        },
        TrackChild::Gap(_) => next_clip_id_after_gaps(track, j),
        TrackChild::Stack(_) => None,
    };
    match to {
        Some(t) => Some(cut_boundary_key(from.as_str(), t.as_str())),
        None => None,
    }
}

fn track_cuts_at(track: &Track, key: &str) -> (r: bool)
    ensures
        r == track_has_cut(track@, key@),
{
    let mut j: usize = 0;
    while j < track.children.len()
        invariant
            j <= track@.children.len(),
            forall|k: int| 0 <= k < j ==> #[trigger] cut_key_at(track@.children, k) != Some(key@),
        decreases track@.children.len() - j,
    {
        let k = cut_key(track, j);
        if crate::clip::is_some_text(&k, key) {
            assert(cut_key_at(track@.children, j as int) == Some(key@));
            return true;
        }
        j = j + 1;
    }
    false
}

/// Whether the key is that of a cut on the timeline.
pub fn is_current_cut(timeline: &Timeline, key: &str) -> (r: bool)
    ensures
        r == has_cut(timeline@, key@),
{
    let mut i: usize = 0;
    while i < timeline.tracks.children.len()
        invariant
            i <= timeline@.tracks.children.len(),
            forall|k: int|
                0 <= k < i ==> !(#[trigger] track_at(timeline@, k) matches Some(t)
                    && track_has_cut(t, key@)),
        decreases timeline@.tracks.children.len() - i,
    {
        if let Some(t) = timeline.track(i) {
            if track_cuts_at(t, key) {
                assert(track_at(timeline@, i as int) == Some(t@));
                return true;
            }
        }
        i = i + 1;
    }
    false
}

/// Whether a boundary is that of a cut on the timeline.
pub open spec fn current(tl: TimelineModel) -> spec_fn(CutBoundaryModel) -> bool {
    |b: CutBoundaryModel| has_cut(tl, b.key)
}

/// The timeline with only those boundaries that are cuts on it.
pub open spec fn with_current_cuts(tl: TimelineModel) -> TimelineModel {
    match tl.montage {
        Some(m) => with_montage(
            tl,
            MontageTimelineMetadataModel {
                cut_boundaries: m.cut_boundaries.filter(current(tl)),
                ..m
            },
        ),
        None => tl,
    }
}

/// Drops the boundaries that are no cuts any more.
pub fn prune_stale_cut_boundaries(timeline: Timeline) -> (r: Timeline)
    ensures
        r@ == with_current_cuts(timeline@),
{
    let mut kept: Vec<CutBoundary> = Vec::new();
    match &timeline.metadata.montage {
        None => {
            return timeline;
        },
        Some(m) => {
            let ghost all = views(m.cut_boundaries@);
            let ghost p = current(timeline@);
            let mut i: usize = 0;
            reveal(Seq::filter);
            assert(views(kept@) =~= all.take(0).filter(p));
            while i < m.cut_boundaries.len()
                invariant
                    i <= m.cut_boundaries@.len(),
                    all == views(m.cut_boundaries@),
                    p == current(timeline@),
                    views(kept@) == all.take(i as int).filter(p),
                decreases m.cut_boundaries@.len() - i,
            {
                reveal(Seq::filter);
                let ghost before = views(kept@);
                let b = &m.cut_boundaries[i];
                assert(all.take(i + 1).drop_last() =~= all.take(i as int));
                assert(all[i as int] == b@);
                if is_current_cut(&timeline, b.key.as_str()) {
                    kept.push(b.copied());
                    assert(views(kept@) =~= before.push(all[i as int]));
                }
                i = i + 1;
            }
            assert(all.take(all.len() as int) =~= all);
        },
    }
    let mut out = timeline;
    if let Some(m) = out.metadata.montage.take() {
        let mut m = m;
        m.cut_boundaries = kept;
        out.metadata.montage = Some(m);
    }
    out
}

// ---- split edits ----------------------------------------------------------

/// Whether the clip that a split edit expects is the neighbour; any neighbour
/// will do where none is expected by name.
pub open spec fn still_meets(expected: Option<Str>, neighbour: Option<Str>) -> bool {
    match expected {
        Some(id) => neighbour == Some(id),
        None => neighbour is Some,
    }
}

/// What is left of a split edit between two neighbours.
pub open spec fn pruned_split(
    s: SplitEditSpecModel,
    previous: Option<Str>,
    next: Option<Str>,
) -> Option<SplitEditSpecModel> {
    let s = if s.audio_lead_s is Some && !still_meets(s.audio_lead_from_clip_id, previous) {
        SplitEditSpecModel { audio_lead_s: None, audio_lead_from_clip_id: None, ..s }
    } else {
        s
    };
    let s = if s.audio_trail_s is Some && !still_meets(s.audio_trail_to_clip_id, next) {
        SplitEditSpecModel { audio_trail_s: None, audio_trail_to_clip_id: None, ..s }
    } else {
        s
    };
    if s.audio_lead_s is None && s.audio_trail_s is None {
        None
    } else {
        Some(s)
    }
}

/// The clip with what is left of its split edit between two neighbours.
pub open spec fn pruned_clip(c: ClipModel, previous: Option<Str>, next: Option<Str>) -> ClipModel {
    match c.metadata.montage {
        Some(m) => match m.split_edit {
            Some(s) => with_clip_montage(
                c,
                MontageClipMetadataModel { split_edit: pruned_split(s, previous, next), ..m },
            ),
            None => c,
        },
        None => c,
    }
}

fn meets(expected: &Option<String>, neighbour: &Option<String>) -> (r: bool)
    ensures
        r == still_meets(opt(*expected), opt(*neighbour)),
{
    match expected {
        Some(_) => same_opt(neighbour, expected),
        None => neighbour.is_some(),
    }
}

fn prune_split(s: SplitEditSpec, previous: &Option<String>, next: &Option<String>) -> (r: Option<
    SplitEditSpec,
>)
    ensures
        opt(r) == pruned_split(s@, opt(*previous), opt(*next)),
{
    let mut s = s;
    if s.audio_lead_s.is_some() && !meets(&s.audio_lead_from_clip_id, previous) {
        s.audio_lead_s = None;
        s.audio_lead_from_clip_id = None;
    }
    if s.audio_trail_s.is_some() && !meets(&s.audio_trail_to_clip_id, next) {
        s.audio_trail_s = None;
        s.audio_trail_to_clip_id = None;
    }
    if s.audio_lead_s.is_none() && s.audio_trail_s.is_none() {
        None
    } else {
        Some(s)
    }
}

/// Drops what is stale of a clip's split edit.
pub fn prune_split_edit_for_clip(
    clip: &mut Clip,
    previous_id: &Option<String>,
    next_id: &Option<String>,
)
    ensures
        final(clip)@ == pruned_clip(old(clip)@, opt(*previous_id), opt(*next_id)),
{
    let has: bool = match &clip.metadata.montage {
        Some(m) => m.split_edit.is_some(),
        None => false,
    };
    if has {
        let mut m = clip.montage();
        if let Some(s) = m.split_edit {
            m.split_edit = prune_split(s, previous_id, next_id);
            clip.put_montage(m);
        }
    }
}

/// A child of a track with what is left of its split edit.
pub open spec fn pruned_child(children: Seq<TrackChildModel>, j: int) -> TrackChildModel {
    match children[j] {
        TrackChildModel::Clip(c) => TrackChildModel::Clip(
            pruned_clip(c, previous_id(children, j), next_id_from(children, j + 1)),
        ),
        c => c,
    }
}

/// The layer with what is left of the split edits on it.
pub open spec fn pruned_layer(layer: StackChildModel) -> StackChildModel {
    match layer {
        StackChildModel::Track(t) => StackChildModel::Track(
            with_children(
                t,
                Seq::new(t.children.len(), |j: int| pruned_child(t.children, j)),
            ),
        ),
        _ => layer,
    }
}

/// The timeline with what is left of the split edits on it.
pub open spec fn with_current_splits(tl: TimelineModel) -> TimelineModel {
    with_layers(
        tl,
        Seq::new(tl.tracks.children.len(), |i: int| pruned_layer(tl.tracks.children[i])),
    )
}

fn prune_track(track: &Track) -> (r: Track)
    ensures
        StackChildModel::Track(r@) == pruned_layer(StackChildModel::Track(track@)),
{
    let ghost children = track@.children;
    let ghost done = Seq::new(children.len(), |j: int| pruned_child(children, j));
    let mut out: Vec<TrackChild> = Vec::new();
    let mut j: usize = 0;
    assert(views(out@) =~= done.take(0));
    while j < track.children.len()
        invariant
            j <= track@.children.len(),
            children == track@.children,
            done == Seq::new(children.len(), |j: int| pruned_child(children, j)),
            views(out@) == done.take(j as int),
        decreases track@.children.len() - j,
    {
        let ghost before = views(out@);
        let child = match &track.children[j] {
            TrackChild::Clip(c) => {
                let previous = previous_clip_id(track, j);
                let next = next_clip_id(track, j);
                let mut c = c.copied();
                prune_split_edit_for_clip(&mut c, &previous, &next);
                TrackChild::Clip(c)
            },
            other => other.copied(),
        };
        assert(child@ == done[j as int]);
        out.push(child);
        assert(views(out@) =~= before.push(child@));
        assert(done.take(j + 1) =~= done.take(j as int).push(done[j as int]));
        j = j + 1;
    }
    assert(done.take(done.len() as int) =~= done);
    let mut r = track.copied();
    r.refill(out);
    r
}

/// Drops what is stale of the split edits on a timeline.
pub fn prune_stale_split_edits(timeline: Timeline) -> (r: Timeline)
    ensures
        r@ == with_current_splits(timeline@),
{
    let ghost layers = timeline@.tracks.children;
    let ghost done = with_current_splits(timeline@).tracks.children;
    let mut out = timeline;
    let mut i: usize = 0;
    assert(out@.tracks.children =~= done.take(0) + layers.skip(0));
    while i < out.tracks.children.len()
        invariant
            i <= out@.tracks.children.len(),
            out@.tracks.children.len() == layers.len(),
            layers == timeline@.tracks.children,
            done == with_current_splits(timeline@).tracks.children,
            out@ == with_layers(timeline@, out@.tracks.children),
            out@.tracks.children == done.take(i as int) + layers.skip(i as int),
        decreases layers.len() - i,
    {
        assert(out@.tracks.children[i as int] == layers[i as int]);
        let mut pruned: Option<Track> = None;
        if let Some(t) = out.track(i) {
            pruned = Some(prune_track(t));
        }
        if let Some(t) = pruned {
            out.put_track(i, t);
        }
        assert(out@.tracks.children =~= done.take(i + 1) + layers.skip(i + 1));
        i = i + 1;
    }
    assert(out@.tracks.children =~= done);
    out
}

} // verus!

//! Reading and replacing the parts of a timeline.
use vstd::prelude::*;

use crate::meta::MetaMap;
use crate::model::{
    views, Clip, ClipLocator, ClipModel, Gap, GapModel, MontageTimelineMetadata,
    MontageTimelineMetadataModel, Stack, StackChild, StackChildModel, StackModel, Stored, TimeRange,
    Timeline, TimelineModel, Track, TrackChild, TrackChildModel, TrackKind, TrackModel,
};
use crate::num::{zero, Num};
use crate::text::{same, Str};

verus! {

/// The version that new project metadata carries.
pub const MONTAGE_PROJECT_VERSION: &'static str = "1";

// ---- tracks ---------------------------------------------------------------

/// The layers of a stack, as the stack itself has them.
pub proof fn lemma_stack(s: Stack)
    ensures
        s@.children == views(s.children@),
        s@.name == s.name@,
        s@.metadata == s.metadata@,
{
    assert(s@.children =~= views(s.children@));
}

/// The track with other children.
pub open spec fn with_children(t: TrackModel, children: Seq<TrackChildModel>) -> TrackModel {
    TrackModel { children, ..t }
}

impl Track {
    /// A track without children.
    pub fn empty(name: &str, kind: TrackKind) -> (r: Track)
        ensures
            r@ == empty_track(name@, kind),
    {
        let r = Track {
            name: name.to_owned(),
            kind,
            children: Vec::new(),
            metadata: MetaMap::new(),
        };
        assert(r@.children =~= empty_track(name@, kind).children);
        r
    }

    /// The child at a place.
    pub fn child(&self, i: usize) -> (r: Option<&TrackChild>)
        ensures
            match r {
                Some(c) => i < self@.children.len() && c@ == self@.children[i as int],
                None => i >= self@.children.len(),
            },
    {
        if i < self.children.len() {
            Some(&self.children[i])
        } else {
            None
        }
    }

    /// The clip at a place.
    pub fn clip(&self, i: usize) -> (r: Option<&Clip>)
        ensures
            opt_ref(r) == clip_in(self@, i as int),
    {
        if i < self.children.len() {
            match &self.children[i] {
                TrackChild::Clip(c) => Some(c),
                _ => None,
            }
        } else {
            None
        }
    }

    /// How many children stand on the track.
    pub fn size(&self) -> (r: usize)
        ensures
            r == self@.children.len(),
    {
        self.children.len()
    }

    /// Puts a child in place of another.
    pub fn put(&mut self, i: usize, c: TrackChild)
        requires
            i < old(self)@.children.len(),
        ensures
            final(self)@ == with_children(
                old(self)@,
                old(self)@.children.update(i as int, c@),
            ),
    {
        let ghost before = self@;
        self.children.set(i, c);
        assert(self@.children =~= before.children.update(i as int, c@));
    }

    /// Puts a child behind the others.
    pub fn push(&mut self, c: TrackChild)
        ensures
            final(self)@ == with_children(old(self)@, old(self)@.children.push(c@)),
    {
        let ghost before = self@;
        self.children.push(c);
        assert(self@.children =~= before.children.push(c@));
    }

    /// Puts a child at a place, in front of those that stand there.
    pub fn insert(&mut self, i: usize, c: TrackChild)
        requires
            i <= old(self)@.children.len(),
        ensures
            final(self)@ == with_children(
                old(self)@,
                old(self)@.children.insert(i as int, c@),
            ),
    {
        let ghost before = self@;
        self.children.insert(i, c);
        assert(self@.children =~= before.children.insert(i as int, c@));
    }

    /// Takes a child out.
    pub fn remove(&mut self, i: usize) -> (c: TrackChild)
        requires
            i < old(self)@.children.len(),
        ensures
            c@ == old(self)@.children[i as int],
            final(self)@ == with_children(old(self)@, old(self)@.children.remove(i as int)),
    {
        let ghost before = self@;
        let c = self.children.remove(i);
        assert(self@.children =~= before.children.remove(i as int));
        c
    }

    /// Puts children in place of those from `lo` up to `hi`.
    pub fn splice(&mut self, lo: usize, hi: usize, middle: Vec<TrackChild>)
        requires
            lo <= hi <= old(self)@.children.len(),
        ensures
            final(self)@ == with_children(
                old(self)@,
                spliced(old(self)@.children, lo as int, hi as int, views(middle@)),
            ),
    {
        let ghost before = self@;
        let ghost list = self.children@;
        let mut middle = middle;
        let ghost mid = middle@;
        let mut tail = self.children.split_off(hi);
        self.children.truncate(lo);
        self.children.append(&mut middle);
        self.children.append(&mut tail);
        assert(self.children@ =~= list.take(lo as int) + mid + list.skip(hi as int));
        assert(self@.children =~= spliced(before.children, lo as int, hi as int, views(mid)));
    }

    /// Puts other children in place of all.
    pub fn refill(&mut self, children: Vec<TrackChild>)
        ensures
            final(self)@ == with_children(old(self)@, views(children@)),
    {
        let ghost before = self@;
        self.children = children;
        assert(self@.children =~= views(children@));
    }
}

/// The sequence with `middle` in place of what stands from `lo` up to `hi`.
pub open spec fn spliced<A>(s: Seq<A>, lo: int, hi: int, middle: Seq<A>) -> Seq<A> {
    s.take(lo) + middle + s.skip(hi)
}

/// A track without children.
pub open spec fn empty_track(name: Str, kind: TrackKind) -> TrackModel {
    TrackModel { name, kind, children: Seq::empty(), metadata: Seq::empty() }
}

/// What stands behind a reference, where there is one.
pub open spec fn opt_ref<T: View>(o: Option<&T>) -> Option<T::V> {
    match o {
        Some(v) => Some(v@),
        None => None,
    }
}

/// The clip at a place of a track.
pub open spec fn clip_in(t: TrackModel, i: int) -> Option<ClipModel> {
    if 0 <= i < t.children.len() {
        match t.children[i] {
            TrackChildModel::Clip(c) => Some(c),
            _ => None,
        }
    } else {
        None
    }
}

// ---- children -------------------------------------------------------------

/// How long a child lasts.  Transitions lie over their neighbours and nested
/// stacks carry no length of their own.
pub open spec fn child_seconds(c: TrackChildModel) -> Num {
    match c {
        TrackChildModel::Clip(c) => clip_seconds(c),
        TrackChildModel::Gap(g) => g.source_range.duration.seconds,
        _ => zero(),
    }
}

/// How long a clip lasts.
pub open spec fn clip_seconds(c: ClipModel) -> Num {
    match c.source_range {
        Some(r) => r.duration.seconds,
        None => zero(),
    }
}

/// How long a child lasts.
pub fn child_duration(child: &TrackChild) -> (r: Num)
    ensures
        r == child_seconds(child@),
{
    match child {
        TrackChild::Clip(c) => match &c.source_range {
            Some(r) => r.duration.seconds,
            None => zero(),
        },
        TrackChild::Gap(g) => g.source_range.duration.seconds,
        _ => zero(),
    }
}

/// Empty time of a length.
pub open spec fn gap_of(seconds: Num, rate: Num) -> TrackChildModel {
    TrackChildModel::Gap(
        GapModel { source_range: TimeRange::seconds(zero(), seconds, rate), metadata: Seq::empty() },
    )
}

impl Gap {
    /// Empty time of a length.
    pub fn of_duration(seconds: Num, rate: Num) -> (r: Gap)
        ensures
            TrackChildModel::Gap(r@) == gap_of(seconds, rate),
    {
        Gap { source_range: TimeRange::seconds(zero(), seconds, rate), metadata: MetaMap::new() }
    }
}

/// Empty time of a length, as a child of a track.
pub fn gap_child(seconds: Num, rate: Num) -> (r: TrackChild)
    ensures
        r@ == gap_of(seconds, rate),
{
    TrackChild::Gap(Gap::of_duration(seconds, rate))
}

/// The time at which child `n` of a track begins.
pub open spec fn start_of(children: Seq<TrackChildModel>, n: int) -> Num
    decreases n,
{
    if n <= 0 || n > children.len() {
        if n <= 0 {
            zero()
        } else {
            start_of(children, children.len() as int)
        }
    } else {
        start_of(children, n - 1).plus(child_seconds(children[n - 1]))
    }
}

/// How long a track lasts.
pub open spec fn track_seconds(t: TrackModel) -> Num {
    start_of(t.children, t.children.len() as int)
}

/// The time at which child `n` of a track begins.
pub fn start_time(track: &Track, n: usize) -> (r: Num)
    ensures
        r == start_of(track@.children, n as int),
{
    let mut t = zero();
    let mut i: usize = 0;
    while i < n && i < track.children.len()
        invariant
            i <= n,
            i <= track@.children.len(),
            t == start_of(track@.children, i as int),
        decreases n - i,
    {
        t = t.plus(child_duration(&track.children[i]));
        i = i + 1;
    }
    t
}

/// How long a track lasts.
pub fn track_cursor(track: &Track) -> (r: Num)
    ensures
        r == track_seconds(track@),
{
    start_time(track, track.children.len())
}

/// The time at which a child of a track of the timeline begins; zero where the
/// layer is no track.
pub open spec fn track_time(tl: TimelineModel, track_index: int, child_index: int) -> Num {
    match track_at(tl, track_index) {
        Some(t) => start_of(t.children, child_index),
        None => zero(),
    }
}

/// The time at which a child of a track of the timeline begins.
pub fn track_time_at(timeline: &Timeline, track_index: usize, child_index: usize) -> (r: Num)
    ensures
        r == track_time(timeline@, track_index as int, child_index as int),
{
    match timeline.track(track_index) {
        Some(t) => start_time(t, child_index),
        None => zero(),
    }
}

// ---- timelines ------------------------------------------------------------

/// The track at a place of the timeline.
pub open spec fn track_at(tl: TimelineModel, i: int) -> Option<TrackModel> {
    if 0 <= i < tl.tracks.children.len() {
        match tl.tracks.children[i] {
            StackChildModel::Track(t) => Some(t),
            _ => None,
        }
    } else {
        None
    }
}

/// The clip at a place of the timeline.
pub open spec fn clip_at(tl: TimelineModel, loc: ClipLocator) -> Option<ClipModel> {
    match track_at(tl, loc.track_index as int) {
        Some(t) => clip_in(t, loc.child_index as int),
        None => None,
    }
}

/// The timeline with other layers.
pub open spec fn with_layers(tl: TimelineModel, layers: Seq<StackChildModel>) -> TimelineModel {
    TimelineModel { tracks: StackModel { children: layers, ..tl.tracks }, ..tl }
}

/// The timeline with a track in place of a layer.
pub open spec fn with_track(tl: TimelineModel, i: int, t: TrackModel) -> TimelineModel {
    with_layers(tl, tl.tracks.children.update(i, StackChildModel::Track(t)))
}

/// The track with a clip in place of a child.
pub open spec fn track_with_clip(t: TrackModel, i: int, c: ClipModel) -> TrackModel {
    with_children(t, t.children.update(i, TrackChildModel::Clip(c)))
}

/// The timeline with a clip in place of a child.
pub open spec fn with_clip(tl: TimelineModel, loc: ClipLocator, c: ClipModel) -> TimelineModel {
    with_track(
        tl,
        loc.track_index as int,
        track_with_clip(track_at(tl, loc.track_index as int)->0, loc.child_index as int, c),
    )
}

/// The timeline with other project metadata.
pub open spec fn with_montage(
    tl: TimelineModel,
    m: MontageTimelineMetadataModel,
) -> TimelineModel {
    TimelineModel { montage: Some(m), ..tl }
}

/// The place of the first track with a name, from layer `at` on.
pub open spec fn track_named_from(tl: TimelineModel, name: Str, at: int) -> Option<int>
    decreases tl.tracks.children.len() - at,
{
    if at < 0 || at >= tl.tracks.children.len() {
        None
    } else if track_at(tl, at) matches Some(t) && t.name == name {
        Some(at)
    } else {
        track_named_from(tl, name, at + 1)
    }
}

/// The place of the first track with a name.
pub open spec fn track_named(tl: TimelineModel, name: Str) -> Option<int> {
    track_named_from(tl, name, 0)
}

/// The place that [`track_named_from`] finds holds a track with the name.
pub proof fn lemma_track_named(tl: TimelineModel, name: Str, at: int)
    requires
        0 <= at,
    ensures
        track_named_from(tl, name, at) matches Some(i) ==> at <= i < tl.tracks.children.len()
            && track_at(tl, i) is Some && track_at(tl, i)->0.name == name,
    decreases tl.tracks.children.len() - at,
{
    if at < tl.tracks.children.len() && !(track_at(tl, at) matches Some(t) && t.name == name) {
        lemma_track_named(tl, name, at + 1);
    }
}

impl Timeline {
    /// A timeline without tracks.
    pub fn empty(name: &str) -> (r: Timeline)
        ensures
            r@ == empty_timeline(name@),
    {
        let r = Timeline {
            name: name.to_owned(),
            tracks: Stack {
                name: "tracks".to_owned(),
                children: Vec::new(),
                metadata: MetaMap::new(),
            },
            metadata: crate::model::TimelineMetadata {
                montage: Some(MontageTimelineMetadata::new()),
                extra: MetaMap::new(),
            },
        };
        assert(r@.tracks.children =~= empty_timeline(name@).tracks.children);
        r
    }

    /// How many layers the timeline has.
    pub fn size(&self) -> (r: usize)
        ensures
            r == self@.tracks.children.len(),
    {
        self.tracks.children.len()
    }

    /// The track at a place.
    pub fn track(&self, i: usize) -> (r: Option<&Track>)
        ensures
            opt_ref(r) == track_at(self@, i as int),
    {
        if i < self.tracks.children.len() {
            match &self.tracks.children[i] {
                StackChild::Track(t) => Some(t),
                _ => None,
            }
        } else {
            None
        }
    }

    /// The clip at a place.
    pub fn clip(&self, loc: ClipLocator) -> (r: Option<&Clip>)
        ensures
            opt_ref(r) == clip_at(self@, loc),
    {
        match self.track(loc.track_index) {
            Some(t) => t.clip(loc.child_index),
            None => None,
        }
    }

    /// Puts a track in place of a layer.
    pub fn put_track(&mut self, i: usize, t: Track)
        requires
            i < old(self)@.tracks.children.len(),
        ensures
            final(self)@ == with_track(old(self)@, i as int, t@),
    {
        let ghost before = self@;
        self.tracks.children.set(i, StackChild::Track(t));
        assert(self@.tracks.children =~= with_track(before, i as int, t@).tracks.children);
    }

    /// Puts a clip in place of a child of a track.
    pub fn put_clip(&mut self, loc: ClipLocator, c: Clip)
        requires
            clip_at(old(self)@, loc) is Some,
        ensures
            final(self)@ == with_clip(old(self)@, loc, c@),
    {
        if let Some(t) = self.track(loc.track_index) {
            let mut t = t.copied();
            t.put(loc.child_index, TrackChild::Clip(c));
            self.put_track(loc.track_index, t);
        }
    }

    /// Puts a track behind the other layers.
    pub fn push_track(&mut self, t: Track)
        ensures
            final(self)@ == with_layers(
                old(self)@,
                old(self)@.tracks.children.push(StackChildModel::Track(t@)),
            ),
    {
        let ghost before = self@;
        self.tracks.children.push(StackChild::Track(t));
        assert(self@.tracks.children =~= before.tracks.children.push(StackChildModel::Track(t@)));
    }

    /// Puts a track at a place, in front of the layers that stand there.
    pub fn insert_track(&mut self, i: usize, t: Track)
        requires
            i <= old(self)@.tracks.children.len(),
        ensures
            final(self)@ == with_layers(
                old(self)@,
                old(self)@.tracks.children.insert(i as int, StackChildModel::Track(t@)),
            ),
    {
        let ghost before = self@;
        self.tracks.children.insert(i, StackChild::Track(t));
        assert(self@.tracks.children =~= before.tracks.children.insert(i as int, StackChildModel::Track(t@)));
    }

    /// Takes a layer out.
    pub fn remove_layer(&mut self, i: usize)
        requires
            i < old(self)@.tracks.children.len(),
        ensures
            final(self)@ == with_layers(
                old(self)@,
                old(self)@.tracks.children.remove(i as int),
            ),
    {
        let ghost before = self@;
        let _ = self.tracks.children.remove(i);
        assert(self@.tracks.children =~= before.tracks.children.remove(i as int));
    }

    /// The place of the first track with a name.
    pub fn find_track(&self, name: &str) -> (r: Option<usize>)
        ensures
            match r {
                Some(i) => track_named(self@, name@) == Some(i as int) && i
                    < self@.tracks.children.len() && track_at(self@, i as int) is Some,
                None => track_named(self@, name@) is None,
            },
    {
        let mut i: usize = 0;
        while i < self.tracks.children.len()
            invariant
                i <= self@.tracks.children.len(),
                track_named(self@, name@) == track_named_from(self@, name@, i as int),
            decreases self@.tracks.children.len() - i,
        {
            if let Some(t) = self.track(i) {
                if same(t.name.as_str(), name) {
                    return Some(i);
                }
            }
            i = i + 1;
        }
        None
    }

    /// The project metadata, made where there is none yet.
    pub fn take_montage(&mut self) -> (r: MontageTimelineMetadata)
        ensures
            r@ == montage_of(old(self)@),
            final(self)@ == (TimelineModel { montage: None, ..old(self)@ }),
    {
        let m = self.metadata.montage.take();
        let mut m = match m {
            Some(m) => m,
            None => MontageTimelineMetadata::new(),
        };
        if m.version.as_str().is_empty() {
            m.version = MONTAGE_PROJECT_VERSION.to_owned();
        }
        m
    }

    /// Puts project metadata.
    pub fn put_montage(&mut self, m: MontageTimelineMetadata)
        ensures
            final(self)@ == with_montage(old(self)@, m@),
    {
        self.metadata.montage = Some(m);
    }
}

/// A timeline without tracks.
pub open spec fn empty_timeline(name: Str) -> TimelineModel {
    TimelineModel {
        name,
        tracks: StackModel { name: "tracks"@, children: Seq::empty(), metadata: Seq::empty() },
        montage: Some(no_montage()),
        extra: Seq::empty(),
    }
}

/// Project metadata that holds nothing.
pub open spec fn no_montage() -> MontageTimelineMetadataModel {
    MontageTimelineMetadataModel {
        version: ""@,
        cut_boundaries: Seq::empty(),
        extra: Seq::empty(),
        asset_catalog: None,
        selects: Seq::empty(),
        stringouts: Seq::empty(),
        proposal_packages: Seq::empty(),
        parameter_animations: Seq::empty(),
        motion_templates: Seq::empty(),
        motion_scenes: Seq::empty(),
        composition_graphs: Seq::empty(),
        tracking_package: None,
        color_finishing: None,
        audio_finishing: None,
        delivery_profiles: Seq::empty(),
        preflight_reports: Seq::empty(),
        workflow_lenses: Seq::empty(),
        pipeline_readiness: None,
        planner_passes: Seq::empty(),
        broadcast_overlay: None,
        brand_kit: None,
    }
}

/// The project metadata of a timeline, made where there is none yet, with a
/// version in any case.
pub open spec fn montage_of(tl: TimelineModel) -> MontageTimelineMetadataModel {
    let m = match tl.montage {
        Some(m) => m,
        None => no_montage(),
    };
    if m.version.len() == 0 {
        MontageTimelineMetadataModel { version: MONTAGE_PROJECT_VERSION@, ..m }
    } else {
        m
    }
}

impl MontageTimelineMetadata {
    /// Project metadata that holds nothing.
    pub fn new() -> (r: MontageTimelineMetadata)
        ensures
            r@ == no_montage(),
    {
        let r = MontageTimelineMetadata {
            version: "".to_owned(),
            cut_boundaries: Vec::new(),
            extra: MetaMap::new(),
            asset_catalog: None,
            selects: Vec::new(),
            stringouts: Vec::new(),
            proposal_packages: Vec::new(),
            parameter_animations: Vec::new(),
            motion_templates: Vec::new(),
            motion_scenes: Vec::new(),
            composition_graphs: Vec::new(),
            tracking_package: None,
            color_finishing: None,
            audio_finishing: None,
            delivery_profiles: Vec::new(),
            preflight_reports: Vec::new(),
            workflow_lenses: Vec::new(),
            pipeline_readiness: None,
            planner_passes: Vec::new(),
            broadcast_overlay: None,
            brand_kit: None,
        };
        assert(r@ =~= no_montage());
        r
    }
}

} // verus!

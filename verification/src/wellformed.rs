//! Whether an edited timeline can be kept.
use vstd::prelude::*;

use crate::clip::{available_of, available_range};
use crate::model::{
    stack_child_model, track_child_model, AudioRange, Clip, ClipModel, Gap, MarkerModel,
    RationalTime, Stack, StackChild, StackChildModel, StackModel, TimeRange, Timeline,
    TimelineModel, Track, TrackChild, TrackChildModel, TrackModel, Transition,
};
use crate::num::zero;
use crate::text::{cat3, join, joined, quote, quoted, strs, Str};

verus! {

// ---- numbers --------------------------------------------------------------

/// Whether a time is a number.
#[verifier::allow_in_spec]
pub fn time_fine(t: RationalTime) -> bool
    returns
        t.seconds.is_finite() && t.rate.is_finite(),
{
    t.seconds.is_finite() && t.rate.is_finite()
}

/// Whether both times of a stretch are numbers.
#[verifier::allow_in_spec]
pub fn range_fine(r: TimeRange) -> bool
    returns
        time_fine(r.start_time) && time_fine(r.duration),
{
    time_fine(r.start_time) && time_fine(r.duration)
}

/// Whether a stretch, where there is one, holds numbers only.
pub open spec fn opt_range_fine(r: Option<TimeRange>) -> bool {
    r matches Some(x) ==> range_fine(x)
}

fn is_opt_range_fine(r: Option<TimeRange>) -> (b: bool)
    ensures
        b == opt_range_fine(r),
{
    match r {
        Some(x) => range_fine(x),
        None => true,
    }
}

/// Whether a stretch of sound holds numbers only.
pub open spec fn audio_range_fine() -> spec_fn(AudioRange) -> bool {
    |r: AudioRange| r.start_s.is_finite() && r.end_s.is_finite()
}

/// Whether a marker holds numbers only.
pub open spec fn marker_fine() -> spec_fn(MarkerModel) -> bool {
    |m: MarkerModel| range_fine(m.marked_range)
}

/// Whether the sound taken out of a clip is given in numbers.
pub open spec fn override_fine(c: ClipModel) -> bool {
    match c.metadata.montage {
        Some(m) => match m.audio_override {
            Some(o) => o.removed_ranges.all(audio_range_fine()),
            None => true,
        },
        None => true,
    }
}

/// Whether a clip holds numbers only.
pub open spec fn clip_fine(c: ClipModel) -> bool {
    &&& opt_range_fine(c.source_range)
    &&& opt_range_fine(available_of(c))
    &&& c.markers.all(marker_fine())
    &&& override_fine(c)
}

fn is_override_fine(c: &Clip) -> (b: bool)
    ensures
        b == override_fine(c@),
{
    if let Some(m) = &c.metadata.montage {
        if let Some(o) = &m.audio_override {
            let mut i: usize = 0;
            while i < o.removed_ranges.len()
                invariant
                    i <= o.removed_ranges@.len(),
                    forall|k: int| 0 <= k < i ==> audio_range_fine()(o.removed_ranges@[k]),
                    override_fine(c@) == o.removed_ranges@.all(audio_range_fine()),
                decreases o.removed_ranges@.len() - i,
            {
                let r = o.removed_ranges[i];
                if !r.start_s.is_finite() || !r.end_s.is_finite() {
                    assert(!audio_range_fine()(o.removed_ranges@[i as int]));
                    return false;
                }
                i = i + 1;
            }
        }
    }
    true
}

fn is_clip_fine(c: &Clip) -> (b: bool)
    ensures
        b == clip_fine(c@),
{
    if !is_opt_range_fine(c.source_range) || !is_opt_range_fine(available_range(c)) {
        return false;
    }
    let mut i: usize = 0;
    while i < c.markers.len()
        invariant
            i <= c.markers@.len(),
            c@.markers.len() == c.markers@.len(),
            forall|k: int| 0 <= k < i ==> marker_fine()(#[trigger] c@.markers[k]),
        decreases c.markers@.len() - i,
    {
        assert(c@.markers[i as int] == c.markers@[i as int]@);
        if !range_fine(c.markers[i].marked_range) {
            assert(!marker_fine()(c@.markers[i as int]));
            return false;
        }
        i = i + 1;
    }
    is_override_fine(c)
}

/// Whether a child of a track, and all in it, holds numbers only.
pub open spec fn child_fine(c: TrackChildModel) -> bool
    decreases c,
{
    match c {
        TrackChildModel::Clip(k) => clip_fine(k),
        TrackChildModel::Gap(g) => range_fine(g.source_range),
        TrackChildModel::Transition(t) => time_fine(t.in_offset) && time_fine(t.out_offset),
        TrackChildModel::Stack(s) => stack_fine(s),
    }
}

/// Whether a track, and all in it, holds numbers only.
pub open spec fn track_fine(t: TrackModel) -> bool
    decreases t,
{
    forall|i: int| 0 <= i < t.children.len() ==> child_fine(#[trigger] t.children[i])
}

/// Whether a layer, and all in it, holds numbers only.
pub open spec fn layer_fine(c: StackChildModel) -> bool
    decreases c,
{
    match c {
        StackChildModel::Track(t) => track_fine(t),
        StackChildModel::Clip(k) => clip_fine(k),
        StackChildModel::Gap(g) => range_fine(g.source_range),
        StackChildModel::Stack(s) => stack_fine(s),
    }
}

/// Whether a stack, and all in it, holds numbers only.
pub open spec fn stack_fine(s: StackModel) -> bool
    decreases s,
{
    forall|i: int| 0 <= i < s.children.len() ==> layer_fine(#[trigger] s.children[i])
}

fn is_child_fine(c: &TrackChild) -> (b: bool)
    ensures
        b == child_fine(c@),
    decreases c,
{
    match c {
        TrackChild::Clip(k) => is_clip_fine(k),
        TrackChild::Gap(g) => range_fine(g.source_range),
        TrackChild::Transition(t) => time_fine(t.in_offset) && time_fine(t.out_offset),
        TrackChild::Stack(s) => is_stack_fine(s),
    }
}

fn are_children_fine(v: &Vec<TrackChild>) -> (b: bool)
    ensures
        b == (forall|i: int|
            0 <= i < v@.len() ==> child_fine(track_child_model(#[trigger] v@[i]))),
    decreases v,
{
    let mut i: usize = 0;
    while i < v.len()
        invariant
            i <= v@.len(),
            forall|k: int| 0 <= k < i ==> child_fine(track_child_model(#[trigger] v@[k])),
        decreases v@.len() - i,
    {
        if !is_child_fine(&v[i]) {
            assert(!child_fine(track_child_model(v@[i as int])));
            return false;
        }
        i = i + 1;
    }
    true
}

fn is_track_fine(t: &Track) -> (b: bool)
    ensures
        b == track_fine(t@),
    decreases t,
{
    let b = are_children_fine(&t.children);
    assert(forall|i: int|
        0 <= i < t.children@.len() ==> t@.children[i] == track_child_model(
            #[trigger] t.children@[i],
        ));
    assert(t@.children.len() == t.children@.len());
    b
}

fn is_layer_fine(c: &StackChild) -> (b: bool)
    ensures
        b == layer_fine(c@),
    decreases c,
{
    match c {
        StackChild::Track(t) => is_track_fine(t),
        StackChild::Clip(k) => is_clip_fine(k),
        StackChild::Gap(g) => range_fine(g.source_range),
        StackChild::Stack(s) => is_stack_fine(s),
    }
}

fn are_layers_fine(v: &Vec<StackChild>) -> (b: bool)
    ensures
        b == (forall|i: int|
            0 <= i < v@.len() ==> layer_fine(stack_child_model(#[trigger] v@[i]))),
    decreases v,
{
    let mut i: usize = 0;
    while i < v.len()
        invariant
            i <= v@.len(),
            forall|k: int| 0 <= k < i ==> layer_fine(stack_child_model(#[trigger] v@[k])),
        decreases v@.len() - i,
    {
        if !is_layer_fine(&v[i]) {
            assert(!layer_fine(stack_child_model(v@[i as int])));
            return false;
        }
        i = i + 1;
    }
    true
}

fn is_stack_fine(s: &Stack) -> (b: bool)
    ensures
        b == stack_fine(s@),
    decreases s,
{
    let b = are_layers_fine(&s.children);
    assert(forall|i: int|
        0 <= i < s.children@.len() ==> s@.children[i] == stack_child_model(
            #[trigger] s.children@[i],
        ));
    assert(s@.children.len() == s.children@.len());
    b
}

// ---- lengths and rates ----------------------------------------------------

/// Whether a time lies below nothing, counted in frames.
#[verifier::allow_in_spec]
pub fn counts_down(t: RationalTime) -> bool
    returns
        (t.seconds.less(zero()) && zero().less(t.rate)) || (zero().less(t.seconds) && t.rate.less(
            zero(),
        )),
{
    (t.seconds.less(zero()) && zero().less(t.rate)) || (zero().less(t.seconds) && t.rate.less(
        zero(),
    ))
}

/// What is wrong with the length and the rates of a clip.
pub open spec fn clip_warnings(c: ClipModel) -> Seq<Str> {
    match c.source_range {
        None => Seq::empty(),
        Some(r) => {
            let a = if counts_down(r.duration) {
                seq!["clip "@ + quoted(c.name) + " has negative duration"@]
            } else if r.duration.seconds == zero() {
                seq!["clip "@ + quoted(c.name) + " has zero duration"@]
            } else {
                Seq::empty()
            };
            if r.duration.rate.at_most(zero()) || r.start_time.rate.at_most(zero()) {
                a.push("clip "@ + quoted(c.name) + " has non-positive time rate"@)
            } else {
                a
            }
        },
    }
}

/// What is wrong with a child of a track: with the length and the rates of a clip,
/// or with the length of empty time.
pub open spec fn child_warnings(c: TrackChildModel) -> Seq<Str> {
    match c {
        TrackChildModel::Clip(c) => clip_warnings(c),
        TrackChildModel::Gap(g) => if counts_down(g.source_range.duration) {
            seq!["gap has negative duration"@]
        } else {
            Seq::empty()
        },
        _ => Seq::empty(),
    }
}

/// What is wrong with the first `n` children of a track.
pub open spec fn children_warnings(children: Seq<TrackChildModel>, n: int) -> Seq<Str>
    decreases n,
{
    if n <= 0 {
        Seq::empty()
    } else {
        children_warnings(children, n - 1) + child_warnings(children[n - 1])
    }
}

/// What is wrong with the first `n` layers.
pub open spec fn layers_warnings(layers: Seq<StackChildModel>, n: int) -> Seq<Str>
    decreases n,
{
    if n <= 0 {
        Seq::empty()
    } else {
        layers_warnings(layers, n - 1) + match layers[n - 1] {
            StackChildModel::Track(t) => children_warnings(t.children, t.children.len() as int),
            _ => Seq::empty(),
        }
    }
}

fn warn_clip(c: &Clip, out: &mut Vec<String>)
    ensures
        strs(final(out)@) == strs(old(out)@) + clip_warnings(c@),
{
    let ghost before = strs(out@);
    assert(before + Seq::<Str>::empty() =~= before);
    if let Some(r) = c.source_range {
        if counts_down(r.duration) {
            out.push(cat3("clip ", quote(c.name.as_str()).as_str(), " has negative duration"));
            assert(strs(out@) =~= before.push(
                "clip "@ + quoted(c.name@) + " has negative duration"@,
            ));
        } else if r.duration.seconds == zero() {
            out.push(cat3("clip ", quote(c.name.as_str()).as_str(), " has zero duration"));
            assert(strs(out@) =~= before.push(
                "clip "@ + quoted(c.name@) + " has zero duration"@,
            ));
        }
        let ghost mid = strs(out@);
        if r.duration.rate.at_most(zero()) || r.start_time.rate.at_most(zero()) {
            out.push(
                cat3("clip ", quote(c.name.as_str()).as_str(), " has non-positive time rate"),
            );
            assert(strs(out@) =~= mid.push(
                "clip "@ + quoted(c.name@) + " has non-positive time rate"@,
            ));
        }
        assert(strs(out@) =~= before + clip_warnings(c@));
    }
}

fn warn_track(t: &Track, out: &mut Vec<String>)
    ensures
        strs(final(out)@) == strs(old(out)@) + children_warnings(
            t@.children,
            t@.children.len() as int,
        ),
{
    let ghost before = strs(out@);
    let n: usize = t.size();
    let mut i: usize = 0;
    assert(before + Seq::<Str>::empty() =~= before);
    while i < n
        invariant
            i <= n,
            n == t@.children.len(),
            before == strs(old(out)@),
            strs(out@) == before + children_warnings(t@.children, i as int),
        decreases n - i,
    {
        let ghost mid = strs(out@);
        match t.child(i) {
            Some(TrackChild::Clip(c)) => {
                warn_clip(c, out);
            },
            Some(TrackChild::Gap(g)) => if counts_down(g.source_range.duration) {
                out.push("gap has negative duration".to_owned());
                assert(strs(out@) =~= mid.push("gap has negative duration"@));
            },
            _ => {},
        }
        assert(strs(out@) =~= mid + child_warnings(t@.children[i as int]));
        assert(strs(out@) =~= before + children_warnings(t@.children, i + 1));
        i = i + 1;
    }
}

/// Whether a timeline can be kept, or why not: all its times must be numbers,
/// every clip on a track must have a length and rates above nothing, and no empty
/// time on a track may have a negative length.
pub open spec fn keepable(tl: TimelineModel) -> Result<(), Str> {
    if !stack_fine(tl.tracks) {
        Err("a time in the timeline is not a finite number"@)
    } else {
        let w = layers_warnings(tl.tracks.children, tl.tracks.children.len() as int);
        if w.len() == 0 {
            Ok(())
        } else {
            Err(joined(w, "; "@))
        }
    }
}

/// Checks whether a timeline can be kept.
pub fn validate_timeline(timeline: &Timeline) -> (r: Result<(), String>)
    ensures
        match r {
            Ok(_) => keepable(timeline@) is Ok,
            Err(e) => keepable(timeline@) == Err::<(), Str>(e@),
        },
{
    if !is_stack_fine(&timeline.tracks) {
        return Err("a time in the timeline is not a finite number".to_owned());
    }
    let mut out: Vec<String> = Vec::new();
    let n: usize = timeline.size();
    let mut i: usize = 0;
    assert(strs(out@) =~= Seq::<Str>::empty());
    while i < n
        invariant
            i <= n,
            n == timeline@.tracks.children.len(),
            strs(out@) == layers_warnings(timeline@.tracks.children, i as int),
        decreases n - i,
    {
        let ghost mid = strs(out@);
        if let Some(t) = timeline.track(i) {
            warn_track(t, &mut out);
        }
        assert(strs(out@) =~= layers_warnings(timeline@.tracks.children, i + 1));
        i = i + 1;
    }
    assert(strs(out@).len() == out@.len());
    if out.len() == 0 {
        Ok(())
    } else {
        Err(join(&out, "; "))
    }
}

} // verus!

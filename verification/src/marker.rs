//! Markers on clips.
use vstd::prelude::*;

use crate::clip::{clip_rate, rate_of};
use crate::edit::{
    child_duration, child_seconds, clip_at, clip_in, start_of, track_at, track_with_clip, with_clip,
    with_track,
};
use crate::error::{bad, checks, invalid, invalid_str, shows, AnchorMiss, ApplyError, Done, Refusal};
use crate::meta::{lookup_text, put, Meta, MetaMap, MetaValue};
use crate::model::{
    copy_opt, opt, Clip, ClipLocator, ClipModel, Marker, MarkerMetadata, MarkerMetadataModel,
    MarkerModel, RationalTime, StackChildModel, Stored, TimeRange, Timeline, TimelineModel, Track,
    TrackChild, TrackChildModel,
};
use crate::num::{micro, zero, Num};
use crate::op::{Anchor, MarkerSelector};
use crate::text::{
    blank, cat2, cat3, cat4, cat5, cat6, cat7, cat9, count_usize, debug_option, debugged_option,
    decimal, fix3, in_some, is_blank, milli3, quote, quote_option, quoted, quoted_option, same,
    show, shown, trim, trimmed, Str,
};

verus! {

// ---- adding ---------------------------------------------------------------

/// The first child, from `i` on, that is there at a time.
pub open spec fn child_covering(children: Seq<TrackChildModel>, at: Num, i: int) -> Option<int>
    decreases children.len() - i,
{
    if i < 0 || i >= children.len() {
        None
    } else {
        let start = start_of(children, i);
        if at.less(start) || start.plus(child_seconds(children[i])).at_most(at) {
            child_covering(children, at, i + 1)
        } else {
            Some(i)
        }
    }
}

fn find_child_covering(track: &Track, at: Num) -> (r: Option<(usize, Num)>)
    ensures
        match r {
            Some(p) => child_covering(track@.children, at, 0) == Some(p.0 as int) && p.0
                < track@.children.len() && p.1 == start_of(track@.children, p.0 as int),
            None => child_covering(track@.children, at, 0) is None,
        },
{
    let mut start = zero();
    let mut i: usize = 0;
    while i < track.children.len()
        invariant
            i <= track@.children.len(),
            start == start_of(track@.children, i as int),
            child_covering(track@.children, at, 0) == child_covering(
                track@.children,
                at,
                i as int,
            ),
        decreases track@.children.len() - i,
    {
        let end = start.plus(child_duration(&track.children[i]));
        if !(at.less(start) || end.at_most(at)) {
            return Some((i, start));
        }
        start = end;
        i = i + 1;
    }
    None
}

/// The first track, from layer `i` on, on which something is there at a time.
pub open spec fn track_covering(tl: TimelineModel, at: Num, i: int) -> Option<int>
    decreases tl.tracks.children.len() - i,
{
    if i < 0 || i >= tl.tracks.children.len() {
        None
    } else if track_at(tl, i) matches Some(t) && child_covering(t.children, at, 0) is Some {
        Some(i)
    } else {
        track_covering(tl, at, i + 1)
    }
}

/// The marker with a label, `relative` into its clip.
pub open spec fn new_marker(label: Str, category: Option<Str>, relative: Num, rate: Num, id: Str) -> MarkerModel {
    MarkerModel {
        name: label,
        marked_range: TimeRange::seconds(relative, zero(), rate),
        comment: None,
        metadata: Some(
            MarkerMetadataModel {
                category,
                note: Some(label),
                extra: put(Seq::empty(), "id"@, Meta::Text(id)),
            },
        ),
    }
}

/// The clip with one more marker.
pub open spec fn with_marker(c: ClipModel, m: MarkerModel) -> ClipModel {
    ClipModel { markers: c.markers.push(m), ..c }
}

/// Putting a marker on the clip that is there at a time.
pub open spec fn marked(
    tl: TimelineModel,
    index: usize,
    at_s: Num,
    label: Str,
    category: Option<Str>,
) -> Done {
    let label = trimmed(label);
    if !at_s.is_finite() || at_s.less(zero()) {
        Err(bad(index, "add_marker: at_s must be finite and >= 0, got "@ + shown(at_s)))
    } else if label.len() == 0 {
        Err(bad(index, "add_marker: label must not be empty"@))
    } else {
        match track_covering(tl, at_s, 0) {
            None => Err(
                bad(
                    index,
                    "add_marker: no clip covers timeline time "@ + milli3(at_s) + "s"@,
                ),
            ),
            Some(i) => {
                let t = track_at(tl, i)->0;
                let j = child_covering(t.children, at_s, 0)->0;
                match clip_in(t, j) {
                    None => Err(
                        bad(
                            index,
                            "add_marker: timeline time "@ + milli3(at_s)
                                + "s resolves to non-clip item on track "@ + quoted(t.name),
                        ),
                    ),
                    Some(c) => {
                        let id = "marker-"@ + decimal(i as nat) + "-"@ + decimal(j as nat) + "-"@
                            + decimal(c.markers.len());
                        let m = new_marker(
                            label,
                            category,
                            at_s.minus(start_of(t.children, j)),
                            rate_of(c),
                            id,
                        );
                        Ok(
                            (
                                with_track(tl, i, track_with_clip(t, j, with_marker(c, m))),
                                "added marker "@ + quoted(label) + " at "@ + milli3(at_s)
                                    + "s on clip "@ + quoted(c.name),
                            ),
                        )
                    },
                }
            },
        }
    }
}

fn build_marker(label: &str, category: &Option<String>, relative: Num, rate: Num, id: &str) -> (r:
    Marker)
    ensures
        r@ == new_marker(label@, opt(*category), relative, rate, id@),
{
    let mut extra = MetaMap::new();
    extra.insert("id", MetaValue::text(id));
    Marker {
        name: label.to_owned(),
        marked_range: TimeRange::seconds(relative, zero(), rate),
        comment: None,
        metadata: Some(
            MarkerMetadata { category: copy_opt(category), note: Some(label.to_owned()), extra },
        ),
    }
}

/// Puts a marker on the clip that is there at a time.
pub fn apply_professional_marker(
    working: Timeline,
    index: usize,
    at_s: Num,
    label: &str,
    category: &Option<String>,
) -> (r: Result<(Timeline, String), ApplyError>)
    ensures
        shows(r, marked(working@, index, at_s, label@, opt(*category))),
{
    if !at_s.is_finite() || at_s.less(zero()) {
        return Err(
            invalid(
                index,
                cat2("add_marker: at_s must be finite and >= 0, got ", show(at_s).as_str()),
            ),
        );
    }
    let label = trim(label);
    if label.as_str().is_empty() {
        return Err(invalid_str(index, "add_marker: label must not be empty"));
    }
    let mut found: Option<(usize, usize, Num)> = None;
    let mut i: usize = 0;
    while i < working.tracks.children.len() && found.is_none()
        invariant
            i <= working@.tracks.children.len(),
            match found {
                None => track_covering(working@, at_s, 0) == track_covering(
                    working@,
                    at_s,
                    i as int,
                ),
                Some(p) => track_covering(working@, at_s, 0) == Some(p.0 as int) && p.0
                    < working@.tracks.children.len() && (track_at(working@, p.0 as int) matches Some(
                    t,
                ) && child_covering(t.children, at_s, 0) == Some(p.1 as int) && p.1
                    < t.children.len() && p.2 == start_of(t.children, p.1 as int)),
            },
        decreases working@.tracks.children.len() - i,
    {
        if let Some(t) = working.track(i) {
            if let Some((j, start)) = find_child_covering(t, at_s) {
                found = Some((i, j, start));
            }
        }
        i = i + 1;
    }
    let (i, j, start) = match found {
        Some(p) => p,
        None => {
            return Err(
                invalid(
                    index,
                    cat3(
                        "add_marker: no clip covers timeline time ",
                        fix3(at_s).as_str(),
                        "s",
                    ),
                ),
            );
        },
    };
    let mut t = match working.track(i) {
        Some(t) => t.copied(),
        None => {
            return Err(invalid_str(index, ""));
        },
    };
    let c = match t.clip(j) {
        Some(c) => c.copied(),
        None => {
            return Err(
                invalid(
                    index,
                    cat4(
                        "add_marker: timeline time ",
                        fix3(at_s).as_str(),
                        "s resolves to non-clip item on track ",
                        quote(t.name.as_str()).as_str(),
                    ),
                ),
            );
        },
    };
    let id = cat6(
        "marker-",
        count_usize(i).as_str(),
        "-",
        count_usize(j).as_str(),
        "-",
        count_usize(c.markers.len()).as_str(),
    );
    assert(c@.markers.len() == c.markers@.len());
    let m = build_marker(
        label.as_str(),
        category,
        at_s.minus(start),
        clip_rate(&c),
        id.as_str(),
    );
    let said = cat6(
        "added marker ",
        quote(label.as_str()).as_str(),
        " at ",
        fix3(at_s).as_str(),
        "s on clip ",
        quote(c.name.as_str()).as_str(),
    );
    let mut c = c;
    let ghost before = c@.markers;
    c.markers.push(m);
    assert(c@.markers =~= before.push(m@));
    t.put(j, TrackChild::Clip(c));
    let mut out = working;
    out.put_track(i, t);
    Ok((out, said))
}

// ---- finding --------------------------------------------------------------

/// A marker that fits a selector.
#[derive(Clone, Copy, Debug, PartialEq, Eq, Structural)]
pub struct MarkerCandidate {
    pub track_index: usize,
    pub child_index: usize,
    pub marker_index: usize,
    pub clip_start_s: Num,
    pub clip_end_s: Num,
    pub timeline_s: Num,
}

/// Whether a selector is well-formed.
pub open spec fn selector_ok(index: usize, s: MarkerSelector) -> Result<(), Refusal> {
    if s.marker_id is None && s.anchor is None && s.label is None && s.at_s is None {
        Err(bad(index, "marker selector must include marker_id, anchor, label, or at_s"@))
    } else if s.marker_id is Some && is_blank(s.marker_id->0@) {
        Err(bad(index, "marker selector marker_id must not be empty"@))
    } else if s.label is Some && is_blank(s.label->0@) {
        Err(bad(index, "marker selector label must not be empty"@))
    } else if s.at_s is Some && (!s.at_s->0.is_finite() || s.at_s->0.less(zero())) {
        Err(
            bad(
                index,
                "marker selector at_s must be finite and >= 0, got "@ + shown(s.at_s->0),
            ),
        )
    } else {
        Ok(())
    }
}

/// Checks a selector.
pub fn validate_marker_selector(index: usize, s: &MarkerSelector) -> (r: Result<(), ApplyError>)
    ensures
        checks(r, selector_ok(index, *s)),
{
    if s.marker_id.is_none() && s.anchor.is_none() && s.label.is_none() && s.at_s.is_none() {
        return Err(
            invalid_str(
                index,
                "marker selector must include marker_id, anchor, label, or at_s",
            ),
        );
    }
    if let Some(id) = &s.marker_id {
        if blank(id.as_str()) {
            return Err(invalid_str(index, "marker selector marker_id must not be empty"));
        }
    }
    if let Some(label) = &s.label {
        if blank(label.as_str()) {
            return Err(invalid_str(index, "marker selector label must not be empty"));
        }
    }
    if let Some(at_s) = s.at_s {
        if !at_s.is_finite() || at_s.less(zero()) {
            return Err(
                invalid(
                    index,
                    cat2(
                        "marker selector at_s must be finite and >= 0, got ",
                        show(at_s).as_str(),
                    ),
                ),
            );
        }
    }
    Ok(())
}

/// The id of a marker.
pub open spec fn marker_id_of(m: MarkerModel) -> Option<Str> {
    match m.metadata {
        Some(x) => lookup_text(x.extra, "id"@),
        None => None,
    }
}

/// Whether a marker at a time on the timeline fits a selector.
pub open spec fn fits(m: MarkerModel, timeline_s: Num, s: MarkerSelector) -> bool {
    &&& s.marker_id matches Some(id) ==> marker_id_of(m) == Some(trimmed(id@))
    &&& s.label matches Some(l) ==> m.name == trimmed(l@)
    &&& s.at_s matches Some(t) ==> !micro().less(timeline_s.minus(t).size())
}

/// Whether a marker at a time on the timeline fits a selector.
pub fn marker_matches_selector(m: &Marker, timeline_s: Num, s: &MarkerSelector) -> (r: bool)
    ensures
        r == fits(m@, timeline_s, *s),
{
    if let Some(id) = &s.marker_id {
        let has = match &m.metadata {
            Some(x) => x.extra.get_text("id"),
            None => None,
        };
        if !crate::clip::is_some_text(&has, trim(id.as_str()).as_str()) {
            return false;
        }
    }
    if let Some(l) = &s.label {
        if !same(m.name.as_str(), trim(l.as_str()).as_str()) {
            return false;
        }
    }
    if let Some(t) = s.at_s {
        if micro().less(timeline_s.minus(t).size()) {
            return false;
        }
    }
    true
}

/// The candidates among the first `n` markers of the clip at a place.
pub open spec fn clip_candidates(
    c: ClipModel,
    i: int,
    j: int,
    start: Num,
    s: MarkerSelector,
    n: int,
) -> Seq<MarkerCandidate>
    decreases n,
{
    if n <= 0 {
        Seq::empty()
    } else {
        let rest = clip_candidates(c, i, j, start, s, n - 1);
        let m = c.markers[n - 1];
        let timeline_s = start.plus(m.marked_range.start_time.seconds);
        if fits(m, timeline_s, s) {
            rest.push(
                MarkerCandidate {
                    track_index: i as usize,
                    child_index: j as usize,
                    marker_index: (n - 1) as usize,
                    clip_start_s: start,
                    clip_end_s: start.plus(crate::edit::clip_seconds(c)),
                    timeline_s,
                },
            )
        } else {
            rest
        }
    }
}

/// Whether a place is asked for.
pub open spec fn at_place(loc: Option<ClipLocator>, i: int, j: int) -> bool {
    loc matches Some(l) ==> l.track_index == i && l.child_index == j
}

/// The candidates on the first `n` children of a track.
pub open spec fn track_candidates(
    children: Seq<TrackChildModel>,
    i: int,
    s: MarkerSelector,
    loc: Option<ClipLocator>,
    n: int,
) -> Seq<MarkerCandidate>
    decreases n,
{
    if n <= 0 {
        Seq::empty()
    } else {
        track_candidates(children, i, s, loc, n - 1) + (match children[n - 1] {
            TrackChildModel::Clip(c) if at_place(loc, i, n - 1) => clip_candidates(
                c,
                i,
                n - 1,
                start_of(children, n - 1),
                s,
                c.markers.len() as int,
            ),
            _ => Seq::empty(),
        })
    }
}

/// The candidates on the first `n` layers.
pub open spec fn candidates(
    layers: Seq<StackChildModel>,
    s: MarkerSelector,
    loc: Option<ClipLocator>,
    n: int,
) -> Seq<MarkerCandidate>
    decreases n,
{
    if n <= 0 {
        Seq::empty()
    } else {
        candidates(layers, s, loc, n - 1) + (match layers[n - 1] {
            StackChildModel::Track(t) => track_candidates(
                t.children,
                n - 1,
                s,
                loc,
                t.children.len() as int,
            ),
            _ => Seq::empty(),
        })
    }
}

fn add_clip_candidates(
    out: &mut Vec<MarkerCandidate>,
    c: &Clip,
    i: usize,
    j: usize,
    start: Num,
    s: &MarkerSelector,
)
    ensures
        final(out)@ == old(out)@ + clip_candidates(
            c@,
            i as int,
            j as int,
            start,
            *s,
            c@.markers.len() as int,
        ),
{
    let ghost before = out@;
    let length = match c.source_range {
        Some(r) => r.duration.seconds,
        None => zero(),
    };
    let mut k: usize = 0;
    assert(out@ =~= before + clip_candidates(c@, i as int, j as int, start, *s, 0));
    while k < c.markers.len()
        invariant
            k <= c@.markers.len(),
            length == crate::edit::clip_seconds(c@),
            out@ == before + clip_candidates(c@, i as int, j as int, start, *s, k as int),
        decreases c@.markers.len() - k,
    {
        let m = &c.markers[k];
        let timeline_s = start.plus(m.marked_range.start_time.seconds);
        let ghost held = out@;
        if marker_matches_selector(m, timeline_s, s) {
            out.push(
                MarkerCandidate {
                    track_index: i,
                    child_index: j,
                    marker_index: k,
                    clip_start_s: start,
                    clip_end_s: start.plus(length),
                    timeline_s,
                },
            );
        }
        assert(out@ =~= before + clip_candidates(c@, i as int, j as int, start, *s, k + 1));
        k = k + 1;
    }
}

fn add_track_candidates(
    out: &mut Vec<MarkerCandidate>,
    t: &Track,
    i: usize,
    s: &MarkerSelector,
    loc: Option<ClipLocator>,
)
    ensures
        final(out)@ == old(out)@ + track_candidates(
            t@.children,
            i as int,
            *s,
            loc,
            t@.children.len() as int,
        ),
{
    let ghost before = out@;
    let ghost children = t@.children;
    let mut start = zero();
    let mut j: usize = 0;
    assert(out@ =~= before + track_candidates(children, i as int, *s, loc, 0));
    while j < t.children.len()
        invariant
            j <= children.len(),
            children == t@.children,
            start == start_of(children, j as int),
            out@ == before + track_candidates(children, i as int, *s, loc, j as int),
        decreases children.len() - j,
    {
        let here = match loc {
            Some(l) => l.track_index == i && l.child_index == j,
            None => true,
        };
        let ghost held = out@;
        if here {
            if let TrackChild::Clip(c) = &t.children[j] {
                add_clip_candidates(out, c, i, j, start, s);
            }
        }
        assert(out@ =~= before + track_candidates(children, i as int, *s, loc, j + 1));
        start = start.plus(child_duration(&t.children[j]));
        j = j + 1;
    }
}

/// The markers that fit a selector, on the clip at a place where one is given.
pub fn collect_marker_candidates(
    timeline: &Timeline,
    s: &MarkerSelector,
    loc: Option<ClipLocator>,
) -> (r: Vec<MarkerCandidate>)
    ensures
        r@ == candidates(
            timeline@.tracks.children,
            *s,
            loc,
            timeline@.tracks.children.len() as int,
        ),
{
    let ghost layers = timeline@.tracks.children;
    let mut out: Vec<MarkerCandidate> = Vec::new();
    let mut i: usize = 0;
    while i < timeline.tracks.children.len()
        invariant
            i <= timeline@.tracks.children.len(),
            layers == timeline@.tracks.children,
            out@ == candidates(layers, *s, loc, i as int),
        decreases layers.len() - i,
    {
        let ghost held = out@;
        if let Some(t) = timeline.track(i) {
            add_track_candidates(&mut out, t, i, s, loc);
        }
        assert(out@ =~= candidates(layers, *s, loc, i + 1));
        i = i + 1;
    }
    out
}

/// An anchor as it is written in messages.
pub open spec fn anchor_text(a: Anchor) -> Str {
    match a {
        Anchor::ClipUuid { uuid } => "ClipUuid { uuid: "@ + quoted(uuid@) + " }"@,
        Anchor::TranscriptSnippet { text } => "TranscriptSnippet { text: "@ + quoted(text@) + " }"@,
    }
}

fn text_of_anchor(a: &Anchor) -> (r: String)
    ensures
        r@ == anchor_text(*a),
{
    match a {
        Anchor::ClipUuid { uuid } => cat3(
            "ClipUuid { uuid: ",
            quote(uuid.as_str()).as_str(),
            " }",
        ),
        Anchor::TranscriptSnippet { text } => cat3(
            "TranscriptSnippet { text: ",
            quote(text.as_str()).as_str(),
            " }",
        ),
    }
}

/// A selector as it is written in messages.
pub open spec fn selector_text(s: MarkerSelector) -> Str {
    "MarkerSelector { marker_id: "@ + quoted_option(s.marker_id) + ", anchor: "@ + (match s.anchor {
        Some(a) => in_some(Some(anchor_text(a))),
        None => in_some(None),
    }) + ", label: "@ + quoted_option(s.label) + ", at_s: "@ + debugged_option(s.at_s) + " }"@
}

fn text_of_selector(s: &MarkerSelector) -> (r: String)
    ensures
        r@ == selector_text(*s),
{
    let anchor = match &s.anchor {
        Some(a) => cat3("Some(", text_of_anchor(a).as_str(), ")"),
        None => "None".to_owned(),
    };
    cat9(
        "MarkerSelector { marker_id: ",
        quote_option(&s.marker_id).as_str(),
        ", anchor: ",
        anchor.as_str(),
        ", label: ",
        quote_option(&s.label).as_str(),
        ", at_s: ",
        debug_option(s.at_s).as_str(),
        " }",
    )
}

/// The one marker that a selector names; `place` is what became of its anchor.
pub open spec fn named_marker(
    tl: TimelineModel,
    index: usize,
    s: MarkerSelector,
    place: Option<Result<ClipLocator, AnchorMiss>>,
) -> Result<MarkerCandidate, Refusal> {
    match selector_ok(index, s) {
        Err(e) => Err(e),
        Ok(_) => match place {
            Some(Err(miss)) => Err(Refusal::AnchorMiss { index, miss: miss@ }),
            _ => {
                let loc = match place {
                    Some(Ok(l)) => Some(l),
                    _ => None,
                };
                let all = candidates(
                    tl.tracks.children,
                    s,
                    loc,
                    tl.tracks.children.len() as int,
                );
                if all.len() == 1 {
                    Ok(all[0])
                } else if all.len() == 0 {
                    Err(
                        bad(
                            index,
                            "marker selector "@ + selector_text(s) + " matched no markers"@,
                        ),
                    )
                } else {
                    Err(
                        bad(
                            index,
                            "marker selector "@ + selector_text(s) + " matches "@ + decimal(
                                all.len(),
                            )
                                + " markers; add marker_id, anchor, or at_s to disambiguate"@,
                        ),
                    )
                }
            },
        },
    }
}

/// The one marker that a selector names.
pub fn resolve_marker_candidate(
    working: &Timeline,
    index: usize,
    s: &MarkerSelector,
    place: &Option<Result<ClipLocator, AnchorMiss>>,
) -> (r: Result<MarkerCandidate, ApplyError>)
    ensures
        match r {
            Ok(c) => named_marker(working@, index, *s, *place) == Ok::<MarkerCandidate, Refusal>(
                c,
            ),
            Err(e) => named_marker(working@, index, *s, *place) == Err::<MarkerCandidate, Refusal>(
                e@,
            ),
        },
{
    if let Err(e) = validate_marker_selector(index, s) {
        return Err(e);
    }
    let loc = match place {
        Some(Err(miss)) => {
            return Err(ApplyError::AnchorMiss { index, miss: miss.copied() });
        },
        Some(Ok(l)) => Some(*l),
        None => None,
    };
    let all = collect_marker_candidates(working, s, loc);
    if all.len() == 1 {
        Ok(all[0])
    } else if all.len() == 0 {
        Err(
            invalid(
                index,
                cat3("marker selector ", text_of_selector(s).as_str(), " matched no markers"),
            ),
        )
    } else {
        Err(
            invalid(
                index,
                cat5(
                    "marker selector ",
                    text_of_selector(s).as_str(),
                    " matches ",
                    count_usize(all.len()).as_str(),
                    " markers; add marker_id, anchor, or at_s to disambiguate",
                ),
            ),
        )
    }
}

// ---- changing -------------------------------------------------------------

/// What is to be changed of a marker.
#[derive(Debug)]
pub struct MarkerChange {
    pub label: Option<String>,
    pub category: Option<String>,
    pub note: Option<String>,
    pub at_s: Option<Num>,
    pub duration_s: Option<Num>,
}

/// The marker with the changes made; its clip begins at `clip_start`.
pub open spec fn changed_marker(m: MarkerModel, q: MarkerChange, clip_start: Num) -> MarkerModel {
    let meta = match m.metadata {
        Some(x) => x,
        None => MarkerMetadataModel { category: None, note: None, extra: Seq::empty() },
    };
    MarkerModel {
        name: match q.label {
            Some(l) => trimmed(l@),
            None => m.name,
        },
        marked_range: TimeRange {
            start_time: match q.at_s {
                Some(t) => RationalTime::new(
                    t.minus(clip_start),
                    m.marked_range.start_time.rate,
                ),
                None => m.marked_range.start_time,
            },
            duration: match q.duration_s {
                Some(d) => RationalTime::new(d, m.marked_range.duration.rate),
                None => m.marked_range.duration,
            },
        },
        comment: match q.note {
            Some(n) => Some(trimmed(n@)),
            None => m.comment,
        },
        metadata: Some(
            MarkerMetadataModel {
                category: match q.category {
                    Some(c) => Some(trimmed(c@)),
                    None => meta.category,
                },
                note: match q.note {
                    Some(n) => Some(trimmed(n@)),
                    None => meta.note,
                },
                extra: meta.extra,
            },
        ),
    }
}

fn change_marker(m: &Marker, q: &MarkerChange, clip_start: Num) -> (r: Marker)
    ensures
        r@ == changed_marker(m@, *q, clip_start),
{
    let mut m = m.copied();
    if let Some(l) = &q.label {
        m.name = trim(l.as_str());
    }
    let mut meta = match m.metadata {
        Some(x) => x,
        None => MarkerMetadata { category: None, note: None, extra: MetaMap::new() },
    };
    if let Some(c) = &q.category {
        meta.category = Some(trim(c.as_str()));
    }
    if let Some(n) = &q.note {
        m.comment = Some(trim(n.as_str()));
        meta.note = Some(trim(n.as_str()));
    }
    m.metadata = Some(meta);
    if let Some(t) = q.at_s {
        m.marked_range.start_time = RationalTime::new(
            t.minus(clip_start),
            m.marked_range.start_time.rate,
        );
    }
    if let Some(d) = q.duration_s {
        m.marked_range.duration = RationalTime::new(d, m.marked_range.duration.rate);
    }
    m
}

/// Whether the changes can be made to a marker.
pub open spec fn change_ok(index: usize, q: MarkerChange, c: MarkerCandidate) -> Result<(), Refusal> {
    if q.at_s is Some && (!q.at_s->0.is_finite() || q.at_s->0.less(zero())) {
        Err(bad(index, "update_marker: at_s must be finite and >= 0, got "@ + shown(q.at_s->0)))
    } else if q.duration_s is Some && (!q.duration_s->0.is_finite() || q.duration_s->0.less(
        zero(),
    )) {
        Err(
            bad(
                index,
                "update_marker: duration_s must be finite and >= 0, got "@ + shown(
                    q.duration_s->0,
                ),
            ),
        )
    } else if q.at_s is Some && (q.at_s->0.less(c.clip_start_s) || c.clip_end_s.at_most(q.at_s->0)) {
        Err(
            bad(
                index,
                "update_marker: moving marker to "@ + milli3(q.at_s->0)
                    + "s would leave its current clip range ["@ + milli3(c.clip_start_s) + "s.."@
                    + milli3(c.clip_end_s) + "s]"@,
            ),
        )
    } else {
        Ok(())
    }
}

fn check_change(index: usize, q: &MarkerChange, c: MarkerCandidate) -> (r: Result<(), ApplyError>)
    ensures
        checks(r, change_ok(index, *q, c)),
{
    if let Some(t) = q.at_s {
        if !t.is_finite() || t.less(zero()) {
            return Err(
                invalid(
                    index,
                    cat2("update_marker: at_s must be finite and >= 0, got ", show(t).as_str()),
                ),
            );
        }
    }
    if let Some(d) = q.duration_s {
        if !d.is_finite() || d.less(zero()) {
            return Err(
                invalid(
                    index,
                    cat2(
                        "update_marker: duration_s must be finite and >= 0, got ",
                        show(d).as_str(),
                    ),
                ),
            );
        }
    }
    if let Some(t) = q.at_s {
        if t.less(c.clip_start_s) || c.clip_end_s.at_most(t) {
            return Err(
                invalid(
                    index,
                    cat7(
                        "update_marker: moving marker to ",
                        fix3(t).as_str(),
                        "s would leave its current clip range [",
                        fix3(c.clip_start_s).as_str(),
                        "s..",
                        fix3(c.clip_end_s).as_str(),
                        "s]",
                    ),
                ),
            );
        }
    }
    Ok(())
}

/// The place of the clip of a candidate.
#[verifier::allow_in_spec]
pub fn place_of(c: MarkerCandidate) -> ClipLocator
    returns
        (ClipLocator { track_index: c.track_index, child_index: c.child_index }),
{
    ClipLocator { track_index: c.track_index, child_index: c.child_index }
}

/// The clip of a candidate with its marker there; `who` stands in front of the
/// messages.
pub open spec fn candidate_clip(tl: TimelineModel, index: usize, c: MarkerCandidate, who: Str) -> Result<
    ClipModel,
    Refusal,
> {
    match track_at(tl, c.track_index as int) {
        None => Err(bad(index, who + ": resolved marker track is not a track"@)),
        Some(_) => match clip_at(tl, place_of(c)) {
            None => Err(bad(index, who + ": resolved marker child is not a clip"@)),
            Some(clip) => if c.marker_index >= clip.markers.len() {
                Err(bad(index, who + ": resolved marker index disappeared"@))
            } else {
                Ok(clip)
            },
        },
    }
}

fn get_candidate_clip(working: &Timeline, index: usize, c: MarkerCandidate, who: &str) -> (r: Result<
    Clip,
    ApplyError,
>)
    ensures
        match r {
            Ok(clip) => candidate_clip(working@, index, c, who@) == Ok::<ClipModel, Refusal>(clip@)
                && clip_at(working@, place_of(c)) is Some && c.marker_index < clip.markers@.len(),
            Err(e) => candidate_clip(working@, index, c, who@) == Err::<ClipModel, Refusal>(e@),
        },
{
    if working.track(c.track_index).is_none() {
        return Err(invalid(index, cat2(who, ": resolved marker track is not a track")));
    }
    match working.clip(place_of(c)) {
        None => Err(invalid(index, cat2(who, ": resolved marker child is not a clip"))),
        Some(clip) => {
            assert(clip@.markers.len() == clip.markers@.len());
            if c.marker_index >= clip.markers.len() {
                Err(invalid(index, cat2(who, ": resolved marker index disappeared")))
            } else {
                let r = clip.copied();
                assert(r@.markers.len() == r.markers@.len());
                Ok(r)
            }
        },
    }
}

/// Changing the one marker that a selector names.
pub open spec fn updated_marker(
    tl: TimelineModel,
    index: usize,
    s: MarkerSelector,
    q: MarkerChange,
    place: Option<Result<ClipLocator, AnchorMiss>>,
) -> Done {
    match named_marker(tl, index, s, place) {
        Err(e) => Err(e),
        Ok(c) => match change_ok(index, q, c) {
            Err(e) => Err(e),
            Ok(_) => match candidate_clip(tl, index, c, "update_marker"@) {
                Err(e) => Err(e),
                Ok(clip) => if q.label is Some && is_blank(q.label->0@) {
                    Err(bad(index, "update_marker: label must not be empty"@))
                } else {
                    let m = changed_marker(
                        clip.markers[c.marker_index as int],
                        q,
                        c.clip_start_s,
                    );
                    Ok(
                        (
                            with_clip(
                                tl,
                                place_of(c),
                                ClipModel {
                                    markers: clip.markers.update(c.marker_index as int, m),
                                    ..clip
                                },
                            ),
                            "updated marker "@ + quoted(m.name) + " at "@ + milli3(c.timeline_s)
                                + "s on clip "@ + quoted(clip.name),
                        ),
                    )
                },
            },
        },
    }
}

/// Changes the one marker that a selector names.
pub fn apply_update_marker(
    working: Timeline,
    index: usize,
    s: &MarkerSelector,
    q: &MarkerChange,
    place: &Option<Result<ClipLocator, AnchorMiss>>,
) -> (r: Result<(Timeline, String), ApplyError>)
    ensures
        shows(r, updated_marker(working@, index, *s, *q, *place)),
{
    let c = match resolve_marker_candidate(&working, index, s, place) {
        Ok(c) => c,
        Err(e) => {
            return Err(e);
        },
    };
    if let Err(e) = check_change(index, q, c) {
        return Err(e);
    }
    let mut clip = match get_candidate_clip(&working, index, c, "update_marker") {
        Ok(x) => x,
        Err(e) => {
            return Err(e);
        },
    };
    if let Some(l) = &q.label {
        if blank(l.as_str()) {
            return Err(invalid_str(index, "update_marker: label must not be empty"));
        }
    }
    let m = change_marker(&clip.markers[c.marker_index], q, c.clip_start_s);
    let said = cat6(
        "updated marker ",
        quote(m.name.as_str()).as_str(),
        " at ",
        fix3(c.timeline_s).as_str(),
        "s on clip ",
        quote(clip.name.as_str()).as_str(),
    );
    let ghost before = clip@.markers;
    clip.markers.set(c.marker_index, m);
    assert(clip@.markers =~= before.update(c.marker_index as int, m@));
    let mut out = working;
    out.put_clip(place_of(c), clip);
    Ok((out, said))
}

/// Taking out the one marker that a selector names.
pub open spec fn deleted_marker(
    tl: TimelineModel,
    index: usize,
    s: MarkerSelector,
    place: Option<Result<ClipLocator, AnchorMiss>>,
) -> Done {
    match named_marker(tl, index, s, place) {
        Err(e) => Err(e),
        Ok(c) => match candidate_clip(tl, index, c, "delete_marker"@) {
            Err(e) => Err(e),
            Ok(clip) => Ok(
                (
                    with_clip(
                        tl,
                        place_of(c),
                        ClipModel {
                            markers: clip.markers.remove(c.marker_index as int),
                            ..clip
                        },
                    ),
                    "deleted marker "@ + quoted(clip.markers[c.marker_index as int].name)
                        + " at "@ + milli3(c.timeline_s) + "s from clip "@ + quoted(clip.name),
                ),
            ),
        },
    }
}

/// Takes out the one marker that a selector names.
pub fn apply_delete_marker(
    working: Timeline,
    index: usize,
    s: &MarkerSelector,
    place: &Option<Result<ClipLocator, AnchorMiss>>,
) -> (r: Result<(Timeline, String), ApplyError>)
    ensures
        shows(r, deleted_marker(working@, index, *s, *place)),
{
    let c = match resolve_marker_candidate(&working, index, s, place) {
        Ok(c) => c,
        Err(e) => {
            return Err(e);
        },
    };
    let mut clip = match get_candidate_clip(&working, index, c, "delete_marker") {
        Ok(x) => x,
        Err(e) => {
            return Err(e);
        },
    };
    let ghost before = clip@.markers;
    let m = clip.markers.remove(c.marker_index);
    assert(clip@.markers =~= before.remove(c.marker_index as int));
    let said = cat6(
        "deleted marker ",
        quote(m.name.as_str()).as_str(),
        " at ",
        fix3(c.timeline_s).as_str(),
        "s from clip ",
        quote(clip.name.as_str()).as_str(),
    );
    let mut out = working;
    out.put_clip(place_of(c), clip);
    Ok((out, said))
}

} // verus!

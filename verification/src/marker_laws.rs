//! Which clips markers go on, and which markers are changed.
use vstd::prelude::*;

use crate::effect_laws::only_clip;
use crate::error::AnchorMiss;
use crate::edit::start_of;
use crate::laws::law_put_then_lookup;
use crate::marker::{
    candidates, child_covering, clip_candidates, deleted_marker, marked, named_marker,
    track_candidates, track_covering, updated_marker, MarkerCandidate, MarkerChange,
};
use crate::measures::{
    first, has_clip, has_row, law_a_place_is_found, law_starts_add_up, long, millionth, onset, row,
    the_clip, tick,
};
use crate::meta::{lookup_text, Meta};
use crate::model::{ClipLocator, ClipModel, TimelineModel, TrackChildModel};
use crate::num::Num;
use crate::op::MarkerSelector;
use crate::playback::{lemma_onsets, lemma_steady, steady, timed, whole};
use crate::snap_laws::{apart, marked_plainly};
use crate::split_laws::addressable;
use crate::text::{decimal, is_blank, trimmed, Str};
use crate::trim_laws::usable;

verus! {

// ---- adding ---------------------------------------------------------------------------

/// Whether a child of a track is there at a time.
pub open spec fn there(children: Seq<TrackChildModel>, k: int, t: int) -> bool {
    0 <= k < children.len() && onset(children, k) <= t < onset(children, k + 1)
}

proof fn lemma_covering(children: Seq<TrackChildModel>, at: Num, i: int)
    requires
        steady(children),
        at is Fin,
        0 <= tick(at),
        0 <= i <= children.len(),
        onset(children, i) <= tick(at),
    ensures
        match child_covering(children, at, i) {
            Some(k) => there(children, k, tick(at)),
            None => whole(children) <= tick(at),
        },
    decreases children.len() - i,
{
    if i < children.len() {
        lemma_steady(children);
        law_starts_add_up(children, i);
        law_starts_add_up(children, i + 1);
        lemma_onsets(children, i, i + 1);
        lemma_onsets(children, i + 1, children.len() as int);
        assert(timed(children[i]));
        if !there(children, i, tick(at)) {
            lemma_covering(children, at, i + 1);
        }
    }
}

proof fn lemma_one_there(children: Seq<TrackChildModel>, a: int, b: int, t: int)
    requires
        steady(children),
        there(children, a, t),
        there(children, b, t),
    ensures
        a == b,
{
    if a < b {
        lemma_onsets(children, a + 1, b);
    }
    if b < a {
        lemma_onsets(children, b + 1, a);
    }
}

proof fn lemma_track_covering(tl: TimelineModel, at: Num, i: int)
    requires
        at is Fin,
        0 <= tick(at),
        0 <= i <= tl.tracks.children.len(),
        forall|s: int| #![trigger tl.tracks.children[s]] has_row(tl, s) ==> steady(row(tl, s)),
    ensures
        match track_covering(tl, at, i) {
            Some(s) => i <= s && has_row(tl, s) && tick(at) < whole(row(tl, s)) && forall|x: int|
                #![trigger tl.tracks.children[x]]
                i <= x < s && has_row(tl, x) ==> whole(row(tl, x)) <= tick(at),
            None => forall|x: int|
                #![trigger tl.tracks.children[x]]
                i <= x && has_row(tl, x) ==> whole(row(tl, x)) <= tick(at),
        },
    decreases tl.tracks.children.len() - i,
{
    if i < tl.tracks.children.len() {
        if has_row(tl, i) {
            assert(tl.tracks.children[i] is Track);
            lemma_covering(row(tl, i), at, 0);
            if let Some(k) = child_covering(row(tl, i), at, 0) {
                lemma_onsets(row(tl, i), k + 1, row(tl, i).len() as int);
            }
        }
        lemma_track_covering(tl, at, i + 1);
    }
}

/// A marker goes on the clip that is there at its time on the first track that lasts so
/// long, behind all markers of that clip, as far from the start of the clip as its time
/// is.  It carries the label and the category that were given.  It is refused where no
/// track lasts so long, no clip is there, no label is given, or the time cannot be
/// counted or is before zero.
pub proof fn law_marker_goes_on_the_clip_that_is_there(
    tl: TimelineModel,
    index: usize,
    at_s: Num,
    label: Str,
    category: Option<Str>,
    loc: ClipLocator,
)
    requires
        addressable(tl),
        forall|s: int| #![trigger tl.tracks.children[s]] has_row(tl, s) ==> steady(row(tl, s)),
        has_row(tl, loc.track_index as int),
        at_s is Fin ==> there(row(tl, loc.track_index as int), loc.child_index as int, tick(at_s)),
        at_s is Fin ==> forall|x: int|
            #![trigger tl.tracks.children[x]]
            0 <= x < loc.track_index && has_row(tl, x) ==> whole(row(tl, x)) <= tick(at_s),
    ensures
        match marked(tl, index, at_s, label, category) {
            Ok((out, _)) => {
                let i = loc.track_index as int;
                let was = the_clip(tl, loc);
                let now = the_clip(out, loc);
                let m = now.markers.last();
                &&& at_s is Fin && 0 <= tick(at_s)
                &&& trimmed(label).len() > 0
                &&& has_clip(tl, loc)
                &&& only_clip(tl, out, loc)
                &&& now == (ClipModel { markers: now.markers, ..was })
                &&& now.markers.len() > 0
                &&& now.markers.drop_last() == was.markers
                &&& m.name == trimmed(label)
                &&& first(m.marked_range) == tick(at_s) - onset(row(tl, i), loc.child_index as int)
                &&& long(m.marked_range) == 0
                &&& m.comment is None
                &&& m.metadata matches Some(x) && x.category == category && x.note == Some(
                    trimmed(label),
                ) && lookup_text(x.extra, "id"@) == Some(
                    "marker-"@ + decimal(loc.track_index as nat) + "-"@ + decimal(
                        loc.child_index as nat,
                    ) + "-"@ + decimal(was.markers.len()),
                )
            },
            Err(_) => at_s !is Fin || tick(at_s) < 0 || trimmed(label).len() == 0 || !has_clip(
                tl,
                loc,
            ),
        },
{
    law_a_place_is_found(tl, loc);
    if at_s is Fin && 0 <= tick(at_s) {
        let i = loc.track_index as int;
        let j = loc.child_index as int;
        assert(tl.tracks.children[i] is Track);
        lemma_track_covering(tl, at_s, 0);
        lemma_onsets(row(tl, i), j + 1, row(tl, i).len() as int);
        let found = track_covering(tl, at_s, 0);
        assert(found == Some(i)) by {
            match found {
                Some(s) => {
                    assert(tl.tracks.children[s] is Track);
                    assert(tl.tracks.children[i] is Track);
                },
                None => {
                    assert(tl.tracks.children[i] is Track);
                },
            }
        }
        lemma_covering(row(tl, i), at_s, 0);
        let k = child_covering(row(tl, i), at_s, 0)->0;
        lemma_one_there(row(tl, i), k, j, tick(at_s));
        lemma_steady(row(tl, i));
        law_starts_add_up(row(tl, i), j);
        lemma_onsets(row(tl, i), 0, j);
        if let Ok((out, _)) = marked(tl, index, at_s, label, category) {
            let now = the_clip(out, loc);
            let id = "marker-"@ + decimal(loc.track_index as nat) + "-"@ + decimal(
                loc.child_index as nat,
            ) + "-"@ + decimal(the_clip(tl, loc).markers.len());
            law_put_then_lookup(Seq::empty(), "id"@, Meta::Text(id), "id"@);
            assert(now.markers.drop_last() =~= the_clip(tl, loc).markers);
        }
    }
}

/// Where no track lasts so long, a marker is refused.
pub proof fn law_no_marker_where_nothing_is(
    tl: TimelineModel,
    index: usize,
    at_s: Num,
    label: Str,
    category: Option<Str>,
)
    requires
        forall|s: int| #![trigger tl.tracks.children[s]] has_row(tl, s) ==> steady(row(tl, s)),
        at_s is Fin ==> forall|x: int|
            #![trigger tl.tracks.children[x]]
            has_row(tl, x) ==> whole(row(tl, x)) <= tick(at_s),
    ensures
        marked(tl, index, at_s, label, category) is Err,
{
    if at_s is Fin && 0 <= tick(at_s) {
        lemma_track_covering(tl, at_s, 0);
        if let Some(s) = track_covering(tl, at_s, 0) {
            assert(tl.tracks.children[s] is Track);
        }
    }
}

// ---- selecting --------------------------------------------------------------------------

/// Whether a marker stands on a clip of the timeline and is meant by a selector: it has
/// the id, the label and, up to a millionth, the time that the selector names, and is on
/// the clip that its anchor led to, if any.
pub open spec fn meant(
    tl: TimelineModel,
    s: MarkerSelector,
    loc: Option<ClipLocator>,
    i: int,
    j: int,
    k: int,
) -> bool {
    &&& has_row(tl, i)
    &&& 0 <= j < row(tl, i).len()
    &&& row(tl, i)[j] is Clip
    &&& 0 <= k < row(tl, i)[j]->Clip_0.markers.len()
    &&& {
        let m = row(tl, i)[j]->Clip_0.markers[k];
        let t = onset(row(tl, i), j) + first(m.marked_range);
        &&& loc matches Some(l) ==> l.track_index == i && l.child_index == j
        &&& s.marker_id matches Some(id) ==> (m.metadata matches Some(x) && lookup_text(
            x.extra,
            "id"@,
        ) == Some(trimmed(id@)))
        &&& s.label matches Some(l) ==> m.name == trimmed(l@)
        &&& s.at_s matches Some(x) ==> apart(t, tick(x)) <= millionth()
    }
}

/// Whether a candidate is the marker at a place.
spec fn is_at(tl: TimelineModel, c: MarkerCandidate, i: int, j: int, k: int) -> bool {
    &&& c.track_index == i
    &&& c.child_index == j
    &&& c.marker_index == k
    &&& c.clip_start_s is Fin
    &&& tick(c.clip_start_s) == onset(row(tl, i), j)
    &&& c.clip_end_s is Fin
    &&& tick(c.clip_end_s) == onset(row(tl, i), j + 1)
}

/// Whether all candidates are markers that are meant, each at a place of its own, and
/// every marker that is meant, up to some place, is among them.
spec fn found_all(
    tl: TimelineModel,
    s: MarkerSelector,
    loc: Option<ClipLocator>,
    all: Seq<MarkerCandidate>,
    upto: spec_fn(int, int, int) -> bool,
) -> bool {
    &&& forall|x: int|
        0 <= x < all.len() ==> {
            let c = #[trigger] all[x];
            let i = c.track_index as int;
            let j = c.child_index as int;
            let k = c.marker_index as int;
            upto(i, j, k) && meant(tl, s, loc, i, j, k) && is_at(tl, c, i, j, k)
        }
    &&& forall|i: int, j: int, k: int|
        upto(i, j, k) && #[trigger] meant(tl, s, loc, i, j, k) ==> exists|x: int|
            0 <= x < all.len() && is_at(tl, #[trigger] all[x], i, j, k)
}

/// Whether all that is needed to tell markers apart can be counted.
pub open spec fn markers_plain(tl: TimelineModel, s: MarkerSelector) -> bool {
    &&& tl.tracks.children.len() <= usize::MAX
    &&& usable(s.at_s)
    &&& forall|i: int|
        #![trigger tl.tracks.children[i]]
        has_row(tl, i) ==> row(tl, i).len() <= usize::MAX && marked_plainly(row(tl, i))
    &&& forall|i: int, j: int|
        #![trigger row(tl, i)[j]]
        has_row(tl, i) && 0 <= j < row(tl, i).len() && row(tl, i)[j] is Clip ==> row(
            tl,
            i,
        )[j]->Clip_0.markers.len() <= usize::MAX
}

proof fn lemma_clip_candidates(
    tl: TimelineModel,
    s: MarkerSelector,
    loc: Option<ClipLocator>,
    i: int,
    j: int,
    n: int,
)
    requires
        markers_plain(tl, s),
        has_row(tl, i),
        0 <= j < row(tl, i).len(),
        row(tl, i)[j] is Clip,
        0 <= n <= row(tl, i)[j]->Clip_0.markers.len(),
        loc matches Some(l) ==> l.track_index == i && l.child_index == j,
    ensures
        found_all(
            tl,
            s,
            loc,
            clip_candidates(row(tl, i)[j]->Clip_0, i, j, start_of(row(tl, i), j), s, n),
            |a: int, b: int, c: int| a == i && b == j && c < n,
        ),
    decreases n,
{
    if n > 0 {
        lemma_clip_candidates(tl, s, loc, i, j, n - 1);
        let children = row(tl, i);
        assert(tl.tracks.children[i] is Track);
        let clip = children[j]->Clip_0;
        let start = start_of(children, j);
        lemma_steady(children);
        law_starts_add_up(children, j);
        law_starts_add_up(children, j + 1);
        lemma_onsets(children, 0, j);
        lemma_onsets(children, j, j + 1);
        lemma_onsets(children, j + 1, children.len() as int);
        assert(timed(children[j]));
        let m = children[j]->Clip_0.markers[n - 1];
        assert(m.marked_range.start_time.seconds is Fin);
        let rest = clip_candidates(clip, i, j, start, s, n - 1);
        let all = clip_candidates(clip, i, j, start, s, n);
        let timeline_s = start.plus(m.marked_range.start_time.seconds);
        assert(crate::marker::fits(m, timeline_s, s) <==> meant(tl, s, loc, i, j, n - 1));
        let p = |a: int, b: int, c: int| a == i && b == j && c < n - 1;
        let q = |a: int, b: int, c: int| a == i && b == j && c < n;
        assert(found_all(tl, s, loc, rest, p));
        assert forall|x: int| 0 <= x < all.len() implies {
            let c = #[trigger] all[x];
            let a = c.track_index as int;
            let b = c.child_index as int;
            let k = c.marker_index as int;
            q(a, b, k) && meant(tl, s, loc, a, b, k) && is_at(tl, c, a, b, k)
        } by {
            if x < rest.len() {
                assert(all[x] == rest[x]);
                let c = rest[x];
                assert(p(c.track_index as int, c.child_index as int, c.marker_index as int));
            }
        }
        assert forall|a: int, b: int, k: int|
            q(a, b, k) && #[trigger] meant(tl, s, loc, a, b, k) implies exists|x: int|
            0 <= x < all.len() && is_at(tl, #[trigger] all[x], a, b, k) by {
            if k < n - 1 {
                assert(p(a, b, k));
                let x = choose|x: int| 0 <= x < rest.len() && is_at(tl, #[trigger] rest[x], a, b, k);
                assert(all[x] == rest[x]);
            } else {
                assert(is_at(tl, all[all.len() - 1], a, b, k));
            }
        }
    }
}

proof fn lemma_found_plus(
    tl: TimelineModel,
    s: MarkerSelector,
    loc: Option<ClipLocator>,
    a: Seq<MarkerCandidate>,
    b: Seq<MarkerCandidate>,
    p: spec_fn(int, int, int) -> bool,
    q: spec_fn(int, int, int) -> bool,
    r: spec_fn(int, int, int) -> bool,
)
    requires
        found_all(tl, s, loc, a, p),
        found_all(tl, s, loc, b, q),
        forall|i: int, j: int, k: int|
            #![trigger r(i, j, k)]
            #![trigger meant(tl, s, loc, i, j, k)]
            (r(i, j, k) && meant(tl, s, loc, i, j, k) ==> p(i, j, k) || q(i, j, k)) && (p(i, j, k)
                || q(i, j, k) ==> r(i, j, k)),
    ensures
        found_all(tl, s, loc, a + b, r),
{
    let all = a + b;
    assert forall|x: int| 0 <= x < all.len() implies {
        let c = #[trigger] all[x];
        let i = c.track_index as int;
        let j = c.child_index as int;
        let k = c.marker_index as int;
        r(i, j, k) && meant(tl, s, loc, i, j, k) && is_at(tl, c, i, j, k)
    } by {
        if x < a.len() {
            assert(all[x] == a[x]);
        } else {
            assert(all[x] == b[x - a.len()]);
        }
    }
    assert forall|i: int, j: int, k: int|
        r(i, j, k) && #[trigger] meant(tl, s, loc, i, j, k) implies exists|x: int|
        0 <= x < all.len() && is_at(tl, #[trigger] all[x], i, j, k) by {
        if p(i, j, k) {
            let x = choose|x: int| 0 <= x < a.len() && is_at(tl, #[trigger] a[x], i, j, k);
            assert(all[x] == a[x]);
        } else {
            let x = choose|x: int| 0 <= x < b.len() && is_at(tl, #[trigger] b[x], i, j, k);
            assert(all[x + a.len()] == b[x]);
        }
    }
}

proof fn lemma_track_candidates(
    tl: TimelineModel,
    s: MarkerSelector,
    loc: Option<ClipLocator>,
    i: int,
    n: int,
)
    requires
        markers_plain(tl, s),
        has_row(tl, i),
        0 <= n <= row(tl, i).len(),
    ensures
        found_all(
            tl,
            s,
            loc,
            track_candidates(row(tl, i), i, s, loc, n),
            |a: int, b: int, c: int| a == i && b < n,
        ),
    decreases n,
{
    let r = |a: int, b: int, c: int| a == i && b < n;
    if n > 0 {
        lemma_track_candidates(tl, s, loc, i, n - 1);
        let p = |a: int, b: int, c: int| a == i && b < n - 1;
        let before = track_candidates(row(tl, i), i, s, loc, n - 1);
        assert(found_all(tl, s, loc, before, p));
        let child = row(tl, i)[n - 1];
        let fitting = child is Clip && crate::marker::at_place(loc, i, n - 1);
        let more = match child {
            TrackChildModel::Clip(c) if crate::marker::at_place(loc, i, n - 1) => clip_candidates(
                c,
                i,
                n - 1,
                start_of(row(tl, i), n - 1),
                s,
                c.markers.len() as int,
            ),
            _ => Seq::empty(),
        };
        if fitting {
            let len = child->Clip_0.markers.len() as int;
            lemma_clip_candidates(tl, s, loc, i, n - 1, len);
            let q = |a: int, b: int, c: int| a == i && b == n - 1 && c < len;
            assert(found_all(tl, s, loc, more, q));
            lemma_found_plus(tl, s, loc, before, more, p, q, r);
        } else {
            let q = |a: int, b: int, c: int| false;
            assert(found_all(tl, s, loc, more, q));
            lemma_found_plus(tl, s, loc, before, more, p, q, r);
        }
        assert(track_candidates(row(tl, i), i, s, loc, n) == before + more);
    } else {
        assert(found_all(tl, s, loc, Seq::<MarkerCandidate>::empty(), r));
    }
}

proof fn lemma_candidates(
    tl: TimelineModel,
    s: MarkerSelector,
    loc: Option<ClipLocator>,
    n: int,
)
    requires
        markers_plain(tl, s),
        0 <= n <= tl.tracks.children.len(),
    ensures
        found_all(
            tl,
            s,
            loc,
            candidates(tl.tracks.children, s, loc, n),
            |a: int, b: int, c: int| a < n,
        ),
    decreases n,
{
    let r = |a: int, b: int, c: int| a < n;
    if n > 0 {
        lemma_candidates(tl, s, loc, n - 1);
        let p = |a: int, b: int, c: int| a < n - 1;
        let before = candidates(tl.tracks.children, s, loc, n - 1);
        assert(found_all(tl, s, loc, before, p));
        if has_row(tl, n - 1) {
            let len = row(tl, n - 1).len() as int;
            lemma_track_candidates(tl, s, loc, n - 1, len);
            let more = track_candidates(row(tl, n - 1), n - 1, s, loc, len);
            let q = |a: int, b: int, c: int| a == n - 1 && b < len;
            assert(found_all(tl, s, loc, more, q));
            lemma_found_plus(tl, s, loc, before, more, p, q, r);
            assert(candidates(tl.tracks.children, s, loc, n) == before + more);
        } else {
            let more = Seq::<MarkerCandidate>::empty();
            let q = |a: int, b: int, c: int| false;
            assert(found_all(tl, s, loc, more, q));
            lemma_found_plus(tl, s, loc, before, more, p, q, r);
            assert(candidates(tl.tracks.children, s, loc, n) == before + more);
        }
    } else {
        assert(found_all(tl, s, loc, Seq::<MarkerCandidate>::empty(), r));
    }
}

/// Whether a selector says anything, and nothing that cannot be meant.
pub open spec fn selects(s: MarkerSelector) -> bool {
    &&& s.marker_id is Some || s.anchor is Some || s.label is Some || s.at_s is Some
    &&& s.marker_id matches Some(x) ==> !is_blank(x@)
    &&& s.label matches Some(x) ==> !is_blank(x@)
    &&& usable(s.at_s)
}

/// The marker that a selector names is the only one that it means; where it means none,
/// or more than one, or says nothing, there is none.
pub proof fn law_a_selector_names_the_only_marker(
    tl: TimelineModel,
    index: usize,
    s: MarkerSelector,
    loc: Option<ClipLocator>,
)
    requires
        markers_plain(tl, s),
    ensures
        match named_marker(
            tl,
            index,
            s,
            match loc {
                Some(l) => Some(Ok::<ClipLocator, AnchorMiss>(l)),
                None => None,
            },
        ) {
            Ok(c) => {
                let i = c.track_index as int;
                let j = c.child_index as int;
                let k = c.marker_index as int;
                &&& selects(s)
                &&& meant(tl, s, loc, i, j, k)
                &&& forall|a: int, b: int, d: int| #[trigger]
                    meant(tl, s, loc, a, b, d) ==> a == i && b == j && d == k
                &&& c.clip_start_s is Fin && tick(c.clip_start_s) == onset(row(tl, i), j)
                &&& c.clip_end_s is Fin && tick(c.clip_end_s) == onset(row(tl, i), j + 1)
            },
            Err(_) => {
                ||| !selects(s)
                ||| forall|a: int, b: int, d: int| !(#[trigger] meant(tl, s, loc, a, b, d))
                ||| exists|a: int, b: int, d: int, e: int, f: int, g: int|
                    #![trigger meant(tl, s, loc, a, b, d), meant(tl, s, loc, e, f, g)]
                    meant(tl, s, loc, a, b, d) && meant(tl, s, loc, e, f, g) && (a != e || b != f
                        || d != g)
            },
        },
{
    let n = tl.tracks.children.len() as int;
    lemma_candidates(tl, s, loc, n);
    let all = candidates(tl.tracks.children, s, loc, n);
    let r = |a: int, b: int, c: int| a < n;
    assert(found_all(tl, s, loc, all, r));
    assert forall|a: int, b: int, d: int| #[trigger] meant(tl, s, loc, a, b, d) implies exists|x: int|
        0 <= x < all.len() && is_at(tl, #[trigger] all[x], a, b, d) by {
        assert(r(a, b, d));
    }
    if all.len() >= 1 {
        let c = all[0];
        assert(meant(
            tl,
            s,
            loc,
            c.track_index as int,
            c.child_index as int,
            c.marker_index as int,
        ));
    }
    if all.len() >= 2 {
        lemma_apart(tl, s, loc, n);
        let c = all[0];
        let d = all[1];
        assert(meant(
            tl,
            s,
            loc,
            d.track_index as int,
            d.child_index as int,
            d.marker_index as int,
        ));
        assert(precedes(c, d));
    }
}

/// Whether one candidate comes before another on the timeline.
spec fn precedes(c: MarkerCandidate, d: MarkerCandidate) -> bool {
    ||| c.track_index < d.track_index
    ||| c.track_index == d.track_index && c.child_index < d.child_index
    ||| c.track_index == d.track_index && c.child_index == d.child_index && c.marker_index
        < d.marker_index
}

proof fn lemma_apart_clip(
    tl: TimelineModel,
    s: MarkerSelector,
    loc: Option<ClipLocator>,
    i: int,
    j: int,
    n: int,
)
    requires
        markers_plain(tl, s),
        has_row(tl, i),
        0 <= j < row(tl, i).len(),
        row(tl, i)[j] is Clip,
        0 <= n <= row(tl, i)[j]->Clip_0.markers.len(),
        loc matches Some(l) ==> l.track_index == i && l.child_index == j,
    ensures
        ({
            let all = clip_candidates(row(tl, i)[j]->Clip_0, i, j, start_of(row(tl, i), j), s, n);
            forall|x: int, y: int|
                #![trigger all[x], all[y]]
                0 <= x < y < all.len() ==> precedes(all[x], all[y])
        }),
    decreases n,
{
    if n > 0 {
        lemma_apart_clip(tl, s, loc, i, j, n - 1);
        lemma_clip_candidates(tl, s, loc, i, j, n - 1);
        assert(tl.tracks.children[i] is Track);
        let clip = row(tl, i)[j]->Clip_0;
        let rest = clip_candidates(clip, i, j, start_of(row(tl, i), j), s, n - 1);
        let all = clip_candidates(clip, i, j, start_of(row(tl, i), j), s, n);
        assert forall|x: int, y: int|
            #![trigger all[x], all[y]]
            0 <= x < y < all.len() implies precedes(all[x], all[y]) by {
            assert(all[x] == rest[x]);
            let c = rest[x];
            assert(c.track_index == i && c.child_index == j && c.marker_index < n - 1);
            if y < rest.len() {
                assert(all[y] == rest[y]);
            }
        }
    }
}

proof fn lemma_apart_track(
    tl: TimelineModel,
    s: MarkerSelector,
    loc: Option<ClipLocator>,
    i: int,
    n: int,
)
    requires
        markers_plain(tl, s),
        has_row(tl, i),
        0 <= n <= row(tl, i).len(),
    ensures
        ({
            let all = track_candidates(row(tl, i), i, s, loc, n);
            forall|x: int, y: int|
                #![trigger all[x], all[y]]
                0 <= x < y < all.len() ==> precedes(all[x], all[y])
        }),
    decreases n,
{
    if n > 0 {
        lemma_apart_track(tl, s, loc, i, n - 1);
        lemma_track_candidates(tl, s, loc, i, n - 1);
        let rest = track_candidates(row(tl, i), i, s, loc, n - 1);
        let all = track_candidates(row(tl, i), i, s, loc, n);
        let child = row(tl, i)[n - 1];
        if child is Clip && crate::marker::at_place(loc, i, n - 1) {
            let len = child->Clip_0.markers.len() as int;
            lemma_apart_clip(tl, s, loc, i, n - 1, len);
            lemma_clip_candidates(tl, s, loc, i, n - 1, len);
            let more = clip_candidates(
                child->Clip_0,
                i,
                n - 1,
                start_of(row(tl, i), n - 1),
                s,
                len,
            );
            assert(all == rest + more);
            assert forall|x: int, y: int|
                #![trigger all[x], all[y]]
                0 <= x < y < all.len() implies precedes(all[x], all[y]) by {
                if x < rest.len() {
                    assert(all[x] == rest[x]);
                    let c = rest[x];
                    assert(c.track_index == i && c.child_index < n - 1);
                } else {
                    assert(all[x] == more[x - rest.len()]);
                }
                if y < rest.len() {
                    assert(all[y] == rest[y]);
                } else {
                    assert(all[y] == more[y - rest.len()]);
                    let d = more[y - rest.len()];
                    assert(d.track_index == i && d.child_index == n - 1);
                }
            }
        } else {
            assert(all =~= rest);
        }
    }
}

proof fn lemma_apart(tl: TimelineModel, s: MarkerSelector, loc: Option<ClipLocator>, n: int)
    requires
        markers_plain(tl, s),
        0 <= n <= tl.tracks.children.len(),
    ensures
        ({
            let all = candidates(tl.tracks.children, s, loc, n);
            forall|x: int, y: int|
                #![trigger all[x], all[y]]
                0 <= x < y < all.len() ==> precedes(all[x], all[y])
        }),
    decreases n,
{
    if n > 0 {
        lemma_apart(tl, s, loc, n - 1);
        lemma_candidates(tl, s, loc, n - 1);
        let rest = candidates(tl.tracks.children, s, loc, n - 1);
        let all = candidates(tl.tracks.children, s, loc, n);
        if has_row(tl, n - 1) {
            let len = row(tl, n - 1).len() as int;
            lemma_apart_track(tl, s, loc, n - 1, len);
            lemma_track_candidates(tl, s, loc, n - 1, len);
            let more = track_candidates(row(tl, n - 1), n - 1, s, loc, len);
            assert(all == rest + more);
            assert forall|x: int, y: int|
                #![trigger all[x], all[y]]
                0 <= x < y < all.len() implies precedes(all[x], all[y]) by {
                if x < rest.len() {
                    assert(all[x] == rest[x]);
                    let c = rest[x];
                    assert(c.track_index < n - 1);
                } else {
                    assert(all[x] == more[x - rest.len()]);
                }
                if y < rest.len() {
                    assert(all[y] == rest[y]);
                } else {
                    assert(all[y] == more[y - rest.len()]);
                    let d = more[y - rest.len()];
                    assert(d.track_index == n - 1);
                }
            }
        } else {
            assert(all =~= rest);
        }
    }
}

// ---- changing -----------------------------------------------------------------------------

/// A marker is deleted exactly where a selector names one: that one goes, and nothing
/// else changes.
pub proof fn law_delete_takes_the_marker_named(
    tl: TimelineModel,
    index: usize,
    s: MarkerSelector,
    loc: Option<ClipLocator>,
)
    requires
        markers_plain(tl, s),
    ensures
        ({
            let place = match loc {
                Some(l) => Some(Ok::<ClipLocator, AnchorMiss>(l)),
                None => None,
            };
            match (named_marker(tl, index, s, place), deleted_marker(tl, index, s, place)) {
                (Ok(c), Ok((out, _))) => {
                    let at = ClipLocator { track_index: c.track_index, child_index: c.child_index };
                    let was = the_clip(tl, at);
                    let now = the_clip(out, at);
                    &&& only_clip(tl, out, at)
                    &&& now == (ClipModel {
                        markers: was.markers.remove(c.marker_index as int),
                        ..was
                    })
                },
                (Err(_), Err(_)) => true,
                _ => false,
            }
        }),
{
    law_a_selector_names_the_only_marker(tl, index, s, loc);
    let place = match loc {
        Some(l) => Some(Ok::<ClipLocator, AnchorMiss>(l)),
        None => None,
    };
    if let Ok(c) = named_marker(tl, index, s, place) {
        law_a_place_is_found(
            tl,
            ClipLocator { track_index: c.track_index, child_index: c.child_index },
        );
    }
}

/// The marker that a selector names is changed as was asked, exactly where its new time,
/// if any, lies on its clip, its new length is not negative and its new label is not
/// blank.  What is left open stays, and so does everything else.
pub proof fn law_update_changes_the_marker_named(
    tl: TimelineModel,
    index: usize,
    s: MarkerSelector,
    q: MarkerChange,
    loc: Option<ClipLocator>,
)
    requires
        markers_plain(tl, s),
        named_marker(
            tl,
            index,
            s,
            match loc {
                Some(l) => Some(Ok::<ClipLocator, AnchorMiss>(l)),
                None => None,
            },
        ) is Ok,
    ensures
        ({
            let place = match loc {
                Some(l) => Some(Ok::<ClipLocator, AnchorMiss>(l)),
                None => None,
            };
            let c = named_marker(tl, index, s, place)->Ok_0;
            let at = ClipLocator { track_index: c.track_index, child_index: c.child_index };
            let i = c.track_index as int;
            let j = c.child_index as int;
            let k = c.marker_index as int;
            let was = the_clip(tl, at);
            let start = onset(row(tl, i), j);
            &&& updated_marker(tl, index, s, q, place) is Ok <==> {
                &&& usable(q.at_s)
                &&& usable(q.duration_s)
                &&& q.at_s matches Some(t) ==> start <= tick(t) < onset(row(tl, i), j + 1)
                &&& q.label matches Some(l) ==> !is_blank(l@)
            }
            &&& updated_marker(tl, index, s, q, place) matches Ok((out, _)) ==> {
                let now = the_clip(out, at);
                let m = was.markers[k];
                let x = now.markers[k];
                &&& only_clip(tl, out, at)
                &&& now == (ClipModel { markers: now.markers, ..was })
                &&& now.markers == was.markers.update(k, x)
                &&& x.name == (match q.label {
                    Some(l) => trimmed(l@),
                    None => m.name,
                })
                &&& first(x.marked_range) == (match q.at_s {
                    Some(t) => tick(t) - start,
                    None => first(m.marked_range),
                })
                &&& long(x.marked_range) == (match q.duration_s {
                    Some(d) => tick(d),
                    None => long(m.marked_range),
                })
                &&& x.comment == (match q.note {
                    Some(z) => Some(trimmed(z@)),
                    None => m.comment,
                })
                &&& x.metadata matches Some(y) && {
                    &&& q.category matches Some(z) ==> y.category == Some(trimmed(z@))
                    &&& q.category is None ==> (m.metadata matches Some(o) ==> y.category
                        == o.category)
                    &&& q.note matches Some(z) ==> y.note == Some(trimmed(z@))
                    &&& q.note is None ==> (m.metadata matches Some(o) ==> y.note == o.note)
                    &&& m.metadata matches Some(o) ==> y.extra == o.extra
                }
            }
        }),
{
    law_a_selector_names_the_only_marker(tl, index, s, loc);
    let place = match loc {
        Some(l) => Some(Ok::<ClipLocator, AnchorMiss>(l)),
        None => None,
    };
    let c = named_marker(tl, index, s, place)->Ok_0;
    let at = ClipLocator { track_index: c.track_index, child_index: c.child_index };
    law_a_place_is_found(tl, at);
    assert(tl.tracks.children[c.track_index as int] is Track);
    lemma_onsets(row(tl, c.track_index as int), 0, c.child_index as int);
}

} // verus!

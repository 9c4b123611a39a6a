//! What is shown after a stretch of time has been lifted, extracted or overwritten.
use vstd::prelude::*;

use crate::carve::{
    carve_child, carve_step, carved, cut_children, cut_range, extracted_children, lifted_children,
    overwritten_children, plus_opt, segment, solid_start, Carved, Fill,
};
use crate::carve_laws::{
    carved_so_far, cuts_clean, fits, lead_of, lemma_apart, lemma_carved, lemma_overlap,
    lemma_touched, middle_of, overlap_of, part_in, time_after, trail_of,
};
use crate::edit::{child_seconds, gap_of, start_of};
use crate::measures::{
    first, has_row, law_starts_add_up, length, most, onset, row, thousandth, tick,
};
use crate::model::{ClipModel, StackChildModel, TimelineModel, TrackChildModel, TrackModel};
use crate::move_clip::first_rate;
use crate::num::{micro, milli, Num};
use crate::op::SourceRange;
use crate::playback::{
    all_timed, frame, law_merging_shows_the_same, lemma_nothing_outside, lemma_onsets,
    lemma_shown_plus, lemma_shown_push, shown_at, shown_by, steady, timed, whole, Frame,
};
use crate::scope_laws::{asked_for, law_stretch_leaves_every_track_asked_for};
use crate::text::Str;
use crate::time_laws::{gaps_count, ticks};

verus! {

/// What is shown at a time when a stretch of the first `n` children has been taken
/// out and filled.
pub open spec fn shown_then(
    children: Seq<TrackChildModel>,
    start: Num,
    end: Num,
    fill: Fill,
    placed: bool,
    n: int,
    t: int,
) -> Frame {
    let inside = tick(start) <= t < tick(end);
    match fill {
        Fill::Empty(_) => if inside {
            None
        } else {
            shown_by(children, n, t)
        },
        Fill::Nothing => if t < tick(start) {
            shown_by(children, n, t)
        } else {
            shown_by(children, n, t + tick(end) - tick(start))
        },
        Fill::With(clip) => if !inside {
            shown_by(children, n, t)
        } else if placed {
            frame(TrackChildModel::Clip(clip), t - tick(start))
        } else {
            None
        },
    }
}

/// Whether a track can be cut at both ends of a stretch, and all its times counted.
pub open spec fn cuts_plainly(children: Seq<TrackChildModel>, start: Num, end: Num) -> bool {
    &&& cuts_clean(children, start, end)
    &&& steady(children)
}

/// A part of a child shows what the child shows from there on.
proof fn lemma_part_shows(
    c: TrackChildModel,
    at: Num,
    from: Num,
    to: Num,
    id: Option<Str>,
    t: int,
)
    requires
        timed(c),
        thousandth() < length(c),
        at is Fin,
        from is Fin,
        to is Fin,
        0 <= tick(at) <= tick(from),
        thousandth() < tick(to) - tick(from),
        tick(to) <= tick(at) + length(c),
    ensures
        segment(c, at, from, to, id) matches Some(x) && timed(x) && length(x) == tick(to) - tick(
            from,
        ) && frame(x, t) == frame(c, tick(from) - tick(at) + t),
{
}

proof fn lemma_play(
    children: Seq<TrackChildModel>,
    start: Num,
    end: Num,
    fill: Fill,
    ids: Seq<Str>,
    n: int,
    t: int,
)
    requires
        cuts_plainly(children, start, end),
        fits(children, start, end, fill),
        fill matches Fill::With(c) ==> timed(TrackChildModel::Clip(c)),
        0 <= n <= children.len(),
    ensures
        ({
            let c = carved(children, start, end, fill, ids, n);
            &&& shown_at(c.children, t) == shown_then(
                children,
                start,
                end,
                fill,
                c.placed,
                n,
                t,
            )
            &&& all_timed(c.children)
        }),
    decreases n,
{
    if n > 0 {
        lemma_play(children, start, end, fill, ids, n - 1, t);
        lemma_carved(children, start, end, fill, ids, n - 1);
        let s = carved(children, start, end, fill, ids, n - 1);
        lemma_play_step(children, start, end, fill, ids, s, n, t);
    }
}

proof fn lemma_timed_plus(s: Seq<TrackChildModel>, x: Option<TrackChildModel>)
    requires
        all_timed(s),
        x matches Some(c) ==> timed(c),
    ensures
        all_timed(plus_opt(s, x)),
{
    assert forall|k: int| 0 <= k < plus_opt(s, x).len() implies timed(
        #[trigger] plus_opt(s, x)[k],
    ) by {
        if k < s.len() {
            assert(plus_opt(s, x)[k] == s[k]);
        }
    }
}

#[verifier::rlimit(30)]
proof fn lemma_play_step(
    children: Seq<TrackChildModel>,
    start: Num,
    end: Num,
    fill: Fill,
    ids: Seq<Str>,
    s: Carved,
    n: int,
    t: int,
)
    requires
        cuts_plainly(children, start, end),
        fits(children, start, end, fill),
        fill matches Fill::With(c) ==> timed(TrackChildModel::Clip(c)),
        0 < n <= children.len(),
        carved_so_far(children, start, end, fill, s, n - 1),
        shown_at(s.children, t) == shown_then(children, start, end, fill, s.placed, n - 1, t),
        all_timed(s.children),
    ensures
        ({
            let c = carve_step(
                s,
                children[n - 1],
                solid_start(children, n - 1),
                start,
                end,
                fill,
                ids,
            );
            &&& shown_at(c.children, t) == shown_then(
                children,
                start,
                end,
                fill,
                c.placed,
                n,
                t,
            )
            &&& all_timed(c.children)
        }),
{
    let c = children[n - 1];
    let at = start_of(children, n - 1);
    let till = start_of(children, n);
    assert(timed(c));
    law_starts_add_up(children, n - 1);
    law_starts_add_up(children, n);
    law_starts_add_up(s.children, s.children.len() as int);
    lemma_onsets(children, 0, n - 1);
    let a = onset(children, n - 1);
    let z = onset(children, n);
    assert(z == a + length(c));
    assert(a == ticks(at) && z == ticks(till));
    assert(whole(s.children) == time_after(start, end, fill, a));
    assert(a == ticks(start) || a - ticks(start) > ticks(milli()) || ticks(start) - a > ticks(milli()));
    assert(z == ticks(start) || z - ticks(start) > ticks(milli()) || ticks(start) - z > ticks(milli()));
    assert(a == ticks(end) || a - ticks(end) > ticks(milli()) || ticks(end) - a > ticks(milli()));
    assert(z == ticks(end) || z - ticks(end) > ticks(milli()) || ticks(end) - z > ticks(milli()));
    assert(child_seconds(c) == Num::Fin(0) || milli().less(child_seconds(c)));
    let w = tick(end) - tick(start);
    if length(c) == 0 {
        let x = if at.less(start) || end.at_most(at) {
            Some(c)
        } else {
            None
        };
        lemma_shown_plus(s.children, x, t);
        lemma_timed_plus(s.children, x);
    } else if z <= tick(start) || tick(end) <= a {
        lemma_apart(s, c, at, start, end, fill, ids);
        lemma_shown_plus(s.children, Some(c), t);
        lemma_timed_plus(s.children, Some(c));
        lemma_nothing_outside(children, n - 1, z);
        if t >= a {
            lemma_nothing_outside(children, n - 1, t);
        }
        if t + w >= a {
            lemma_nothing_outside(children, n - 1, t + w);
        }
    } else {
        lemma_touched(s, c, at, start, end, fill, ids);
        lemma_play_child(children, start, end, fill, ids, s, n, t);
    }
}

proof fn lemma_play_child(
    children: Seq<TrackChildModel>,
    start: Num,
    end: Num,
    fill: Fill,
    ids: Seq<Str>,
    s: Carved,
    n: int,
    t: int,
)
    requires
        cuts_plainly(children, start, end),
        fits(children, start, end, fill),
        fill matches Fill::With(c) ==> timed(TrackChildModel::Clip(c)),
        0 < n <= children.len(),
        carved_so_far(children, start, end, fill, s, n - 1),
        shown_at(s.children, t) == shown_then(children, start, end, fill, s.placed, n - 1, t),
        all_timed(s.children),
        thousandth() < length(children[n - 1]),
        child_seconds(children[n - 1]) is Fin,
        tick(start) < onset(children, n),
        onset(children, n - 1) < tick(end),
        whole(s.children) == time_after(start, end, fill, onset(children, n - 1)),
        ({
            let a = onset(children, n - 1);
            let z = onset(children, n);
            &&& 0 <= a
            &&& z <= i128::MAX
            &&& start_of(children, n - 1) == Num::Fin(a as i128)
            &&& start_of(children, n) == Num::Fin(z as i128)
            &&& a == tick(start) || a - tick(start) > thousandth() || tick(start) - a > thousandth()
            &&& z - tick(start) > thousandth()
            &&& tick(end) - a > thousandth()
            &&& z == tick(end) || z - tick(end) > thousandth() || tick(end) - z > thousandth()
        }),
    ensures
        ({
            let c = carve_child(
                s,
                children[n - 1],
                start_of(children, n - 1),
                start,
                end,
                fill,
                ids,
            );
            &&& shown_at(c.children, t) == shown_then(
                children,
                start,
                end,
                fill,
                c.placed,
                n,
                t,
            )
            &&& all_timed(c.children)
        }),
{
    let c = children[n - 1];
    let at = start_of(children, n - 1);
    let till = start_of(children, n);
    let a = tick(at);
    let w = tick(end) - tick(start);
    assert(timed(c));
    let lead = lead_of(c, at, till, start);
    let again = lead matches Some(TrackChildModel::Clip(_));
    let id = if again {
        Some(ids[s.used as int])
    } else {
        None
    };
    let trail = trail_of(c, at, till, end, id);
    let middle = middle_of(fill, overlap_of(at, till, start, end), s.placed);
    let led = plus_opt(s.children, lead);
    let filled = plus_opt(led, middle);
    lemma_lead_shows(s.children, c, at, till, start, t);
    lemma_middle_shows(led, fill, s.placed, at, till, start, end, t);
    lemma_trail_shows(filled, c, at, till, end, id, t);
    if t >= a {
        lemma_nothing_outside(children, n - 1, t);
    }
    if t + w >= a {
        lemma_nothing_outside(children, n - 1, t + w);
    }
    let out = carve_child(s, c, at, start, end, fill, ids);
    assert(out.children == plus_opt(filled, trail));
    match fill {
        Fill::Empty(_) => {
            assert(whole(s.children) == a);
        },
        Fill::Nothing => {
            assert(whole(s.children) == a - part_in(start, end, a));
        },
        Fill::With(_) => {
            assert(s.placed <==> tick(start) < a);
        },
    }
}

/// What is left in front of the stretch is shown where it was.
proof fn lemma_lead_shows(
    s: Seq<TrackChildModel>,
    c: TrackChildModel,
    at: Num,
    till: Num,
    start: Num,
    t: int,
)
    requires
        all_timed(s),
        timed(c),
        thousandth() < length(c),
        at is Fin && till is Fin && start is Fin,
        0 <= tick(at),
        tick(till) == tick(at) + length(c),
        0 <= tick(start) < tick(till),
        tick(start) <= tick(at) || thousandth() < tick(start) - tick(at),
    ensures
        ({
            let out = plus_opt(s, lead_of(c, at, till, start));
            let d = if tick(at) < tick(start) {
                tick(start) - tick(at)
            } else {
                0
            };
            &&& all_timed(out)
            &&& whole(out) == whole(s) + d
            &&& shown_at(out, t) == (if whole(s) <= t < whole(s) + d {
                frame(c, t - whole(s))
            } else {
                shown_at(s, t)
            })
        }),
{
    let lead = lead_of(c, at, till, start);
    if tick(at) < tick(start) {
        assert(start.smaller(till) == start);
        lemma_part_shows(c, at, at, start, None, t - whole(s));
    }
    lemma_shown_plus(s, lead, t);
    lemma_timed_plus(s, lead);
}

/// What the stretch is filled with is shown there.
proof fn lemma_middle_shows(
    s: Seq<TrackChildModel>,
    fill: Fill,
    placed: bool,
    at: Num,
    till: Num,
    start: Num,
    end: Num,
    t: int,
)
    requires
        all_timed(s),
        fill matches Fill::With(c) ==> timed(TrackChildModel::Clip(c)) && length(
            TrackChildModel::Clip(c),
        ) == tick(end) - tick(start),
        at is Fin && till is Fin && start is Fin && end is Fin,
        0 <= tick(at),
        tick(till) - tick(at) > thousandth(),
        0 <= tick(start),
        tick(end) - tick(start) > thousandth(),
        tick(till) - tick(start) > thousandth(),
        tick(end) - tick(at) > thousandth(),
    ensures
        ({
            let out = plus_opt(s, middle_of(fill, overlap_of(at, till, start, end), placed));
            let d = match fill {
                Fill::Empty(_) => part_in(start, end, tick(till)) - part_in(start, end, tick(at)),
                Fill::Nothing => 0,
                Fill::With(_) => if placed {
                    0
                } else {
                    tick(end) - tick(start)
                },
            };
            &&& all_timed(out)
            &&& whole(out) == whole(s) + d
            &&& shown_at(out, t) == (if whole(s) <= t < whole(s) + d {
                match fill {
                    Fill::With(c) => frame(TrackChildModel::Clip(c), t - whole(s)),
                    _ => None,
                }
            } else {
                shown_at(s, t)
            })
        }),
{
    lemma_overlap(at, till, start, end);
    let middle = middle_of(fill, overlap_of(at, till, start, end), placed);
    lemma_shown_plus(s, middle, t);
    lemma_timed_plus(s, middle);
}

/// What is left behind the stretch is shown after it.
proof fn lemma_trail_shows(
    s: Seq<TrackChildModel>,
    c: TrackChildModel,
    at: Num,
    till: Num,
    end: Num,
    id: Option<Str>,
    t: int,
)
    requires
        all_timed(s),
        timed(c),
        thousandth() < length(c),
        at is Fin && till is Fin && end is Fin,
        0 <= tick(at) < tick(end),
        tick(till) == tick(at) + length(c),
        tick(till) <= tick(end) || thousandth() < tick(till) - tick(end),
    ensures
        ({
            let out = plus_opt(s, trail_of(c, at, till, end, id));
            let d = if tick(end) < tick(till) {
                tick(till) - tick(end)
            } else {
                0
            };
            &&& all_timed(out)
            &&& whole(out) == whole(s) + d
            &&& shown_at(out, t) == (if whole(s) <= t < whole(s) + d {
                frame(c, tick(end) - tick(at) + t - whole(s))
            } else {
                shown_at(s, t)
            })
        }),
{
    let trail = trail_of(c, at, till, end, id);
    if tick(end) < tick(till) {
        assert(end.larger(at) == end);
        lemma_part_shows(c, at, end, till, id, t - whole(s));
    }
    lemma_shown_plus(s, trail, t);
    lemma_timed_plus(s, trail);
}

proof fn lemma_all_carved(
    children: Seq<TrackChildModel>,
    start: Num,
    end: Num,
    fill: Fill,
    ids: Seq<Str>,
    t: int,
)
    requires
        cuts_plainly(children, start, end),
        fits(children, start, end, fill),
        fill matches Fill::With(c) ==> timed(TrackChildModel::Clip(c)),
    ensures
        ({
            let n = children.len() as int;
            let c = carved(children, start, end, fill, ids, n);
            &&& carved_so_far(children, start, end, fill, c, n)
            &&& steady(c.children)
            &&& whole(c.children) == time_after(start, end, fill, whole(children))
            &&& shown_at(c.children, t) == shown_then(children, start, end, fill, c.placed, n, t)
            &&& start_of(children, n) == Num::Fin(whole(children) as i128)
        }),
{
    let n = children.len() as int;
    lemma_carved(children, start, end, fill, ids, n);
    lemma_play(children, start, end, fill, ids, n, t);
    let out = carved(children, start, end, fill, ids, n).children;
    law_starts_add_up(children, n);
    law_starts_add_up(out, out.len() as int);
}

/// Where a stretch has been lifted, a track shows nothing; at all other times it
/// shows what it did, and it lasts as long.
pub proof fn law_lift_leaves_the_stretch_empty(
    t: TrackModel,
    start: Num,
    end: Num,
    ids: Seq<Str>,
    at: int,
)
    requires
        cuts_plainly(t.children, start, end),
    ensures
        ({
            let after = lifted_children(t, start, end, ids).children;
            &&& shown_at(after, at) == (if tick(start) <= at < tick(end) {
                None
            } else {
                shown_at(t.children, at)
            })
            &&& whole(after) == whole(t.children)
        }),
{
    let rate = first_rate(t.children, 0);
    let fill = Fill::Empty(rate);
    lemma_all_carved(t.children, start, end, fill, ids, at);
    let n = t.children.len() as int;
    law_merging_shows_the_same(carved(t.children, start, end, fill, ids, n).children, rate, at);
}

/// Where a stretch has been extracted, a track shows at once what followed the
/// stretch: up to its start what it did, from there on what it showed later by the
/// length of the stretch.  It is shorter by what it had of the stretch.
pub proof fn law_extract_goes_on_behind_the_stretch(
    t: TrackModel,
    start: Num,
    end: Num,
    ids: Seq<Str>,
    at: int,
)
    requires
        cuts_plainly(t.children, start, end),
    ensures
        ({
            let after = extracted_children(t, start, end, ids).children;
            &&& shown_at(after, at) == (if at < tick(start) {
                shown_at(t.children, at)
            } else {
                shown_at(t.children, at + tick(end) - tick(start))
            })
            &&& whole(t.children) <= tick(start) ==> whole(after) == whole(t.children)
            &&& tick(start) <= whole(t.children) <= tick(end) ==> whole(after) == tick(start)
            &&& tick(end) <= whole(t.children) ==> whole(after) == whole(t.children) - (tick(end)
                - tick(start))
        }),
{
    let fill = Fill::Nothing;
    lemma_all_carved(t.children, start, end, fill, ids, at);
    let n = t.children.len() as int;
    let out = carved(t.children, start, end, fill, ids, n).children;
    law_merging_shows_the_same(out, first_rate(out, 0), at);
}

/// Where a clip has been written over a stretch of its length, a track shows that
/// clip from its beginning on; at all other times it shows what it did.  It lasts as
/// long as before, or to the end of the stretch if that is later.
pub proof fn law_overwrite_shows_the_new_clip(
    t: TrackModel,
    start: Num,
    end: Num,
    clip: ClipModel,
    ids: Seq<Str>,
    at: int,
)
    requires
        cuts_plainly(t.children, start, end),
        timed(TrackChildModel::Clip(clip)),
        clip.source_range is Some,
        length(TrackChildModel::Clip(clip)) == tick(end) - tick(start),
        whole(t.children) + tick(end) <= i128::MAX,
    ensures
        ({
            let after = overwritten_children(t, start, end, clip, ids).children;
            &&& shown_at(after, at) == (if tick(start) <= at < tick(end) {
                Some((clip.media_reference, first(clip.source_range->0) + at - tick(start)))
            } else {
                shown_at(t.children, at)
            })
            &&& whole(after) == most(whole(t.children), tick(end))
        }),
{
    let n = t.children.len() as int;
    let fill = Fill::With(clip);
    let rate = first_rate(t.children, 0);
    let new = TrackChildModel::Clip(clip);
    lemma_all_carved_once(t.children, start, end, clip, ids, at);
    let c = carved(t.children, start, end, fill, ids, n);
    let cursor = start_of(t.children, n);
    let out = c.children;
    let gap = gap_of(start.minus(cursor), rate);
    let full = if c.placed {
        out
    } else if cursor.less(start.minus(micro())) {
        out.push(gap).push(new)
    } else {
        out.push(new)
    };
    if !c.placed {
        assert(cursor == start || ticks(start) - ticks(cursor) > ticks(milli()));
        if cursor.less(start.minus(micro())) {
            lemma_shown_push(out, gap, at);
            lemma_shown_push(out.push(gap), new, at);
        } else {
            lemma_shown_push(out, new, at);
        }
        if at >= tick(start) {
            lemma_nothing_outside(t.children, n, at);
        }
        if at >= whole(out) {
            lemma_nothing_outside(t.children, n, at);
        }
    }
    assert forall|k: int| 0 <= k < full.len() implies timed(#[trigger] full[k]) by {
        if k < out.len() {
            assert(full[k] == out[k]);
            assert(timed(out[k]));
        }
    }
    assert forall|k: int| 0 <= k < full.len() implies ((#[trigger] full[k]) matches TrackChildModel::Gap(
        g,
    ) ==> milli().less(g.source_range.duration.seconds)) by {
        if k < out.len() {
            assert(full[k] == out[k]);
        }
    }
    law_merging_shows_the_same(full, rate, at);
}

proof fn lemma_all_carved_once(
    children: Seq<TrackChildModel>,
    start: Num,
    end: Num,
    clip: ClipModel,
    ids: Seq<Str>,
    t: int,
)
    requires
        cuts_plainly(children, start, end),
        timed(TrackChildModel::Clip(clip)),
        clip.source_range is Some,
        length(TrackChildModel::Clip(clip)) == tick(end) - tick(start),
        whole(children) + tick(end) <= i128::MAX,
    ensures
        ({
            let n = children.len() as int;
            let fill = Fill::With(clip);
            let c = carved(children, start, end, fill, ids, n);
            &&& steady(c.children)
            &&& gaps_count(c.children)
            &&& solid_start(children, n) == start_of(children, n)
            &&& c.placed <==> tick(start) < whole(children)
            &&& whole(c.children) == time_after(start, end, fill, whole(children))
            &&& shown_at(c.children, t) == shown_then(children, start, end, fill, c.placed, n, t)
            &&& 0 <= whole(children) <= i128::MAX
            &&& start_of(children, n) == Num::Fin(whole(children) as i128)
            &&& !c.placed ==> tick(start) == whole(children) || tick(start) - whole(children)
                > thousandth()
        }),
{
    let n = children.len() as int;
    let fill = Fill::With(clip);
    law_starts_add_up(children, n);
    assert(fits(children, start, end, fill));
    lemma_all_carved(children, start, end, fill, ids, t);
    lemma_onsets(children, 0, n);
}

/// Where a stretch has been lifted or extracted, every track that was asked for, be
/// it by name or because none was named, shows nothing of it any more, and all other
/// times as before: empty time lies in its place where it was lifted, and what
/// followed comes at once where it was extracted.
pub proof fn law_stretch_is_gone_from_every_track_asked_for(
    tl: TimelineModel,
    index: usize,
    r: SourceRange,
    tracks: Seq<String>,
    close: bool,
    ids: Seq<Str>,
    i: int,
    at: int,
)
    requires
        cut_range(tl, index, r, tracks, close, ids) is Ok,
        has_row(tl, i),
        cuts_plainly(row(tl, i), r.start_s, r.end_s),
        asked_for(tl.tracks.children[i], tracks),
    ensures
        ({
            let out = cut_range(tl, index, r, tracks, close, ids)->Ok_0.0;
            let s = tick(r.start_s);
            let e = tick(r.end_s);
            let before = row(tl, i);
            let after = row(out, i);
            &&& has_row(out, i)
            &&& !close ==> whole(after) == whole(before) && shown_at(after, at) == (if s <= at < e {
                None
            } else {
                shown_at(before, at)
            })
            &&& close ==> shown_at(after, at) == (if at < s {
                shown_at(before, at)
            } else {
                shown_at(before, at + e - s)
            })
        }),
{
    law_stretch_leaves_every_track_asked_for(tl, index, r, tracks, close, ids, i);
    let t = tl.tracks.children[i]->Track_0;
    let out = cut_range(tl, index, r, tracks, close, ids)->Ok_0.0;
    let drawn = choose|drawn: Seq<Str>|
        {
            let c = #[trigger] cut_children(t, r.start_s, r.end_s, close, drawn);
            out.tracks.children[i] == StackChildModel::Track(
                TrackModel { children: c.children, ..t },
            )
        };
    if close {
        law_extract_goes_on_behind_the_stretch(t, r.start_s, r.end_s, drawn, at);
    } else {
        law_lift_leaves_the_stretch_empty(t, r.start_s, r.end_s, drawn, at);
    }
}

} // verus!

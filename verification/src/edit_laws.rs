//! What edits keep, and what one edit undoes of another.
use vstd::arithmetic::div_mod::lemma_mod_mod;
use vstd::prelude::*;

use crate::audio::{clip_muted, override_of};
use crate::carve::{carved, solid_start, Fill};
use crate::clip::{
    child_id, clip_montage, end_of, id_of, lemma_first_where, link_group_of, trail_only, with_range,
};
use crate::dispatch::{anchor_of, op_done, Answers};
use crate::edit::{
    child_seconds, clip_at, clip_in, spliced, track_at, track_named, track_named_from,
    lemma_track_named, with_clip,
};
use crate::engine::{
    advanced, all_drawn, record_after, record_before, right_of, sought, split_right, SessionModel,
};
use crate::envelope::EdlOp;
use crate::gap::merged;
use crate::insert::{clip_names, default_name, free_name, free_number, name_used};
use crate::laws::law_put_then_lookup;
use crate::lut::{inside_project, lut_path_of};
use crate::meta::Meta;
use crate::mint::{
    drew, fresh, hex_digit, hex_padded, id_text, in_turn, moved_on, numbered, ClipIds,
};
use crate::model::{ClipLocator, ClipModel, TimeRange, TimelineModel, TrackChildModel, TrackModel};
use crate::move_clip::moved_to_place;
use crate::nested::{flat, flattened, nested_name, nested_stack, wrapped};
use crate::num::{micro, Num};
use crate::op::{AnchorModel, SnapOptions};
use crate::snap::{best_target, in_reach, snapped, targets_of, SnapTarget};
use crate::split::{left_part, right_part, split_at, split_clip_op, split_place, split_siblings};
use crate::text::{decimal, digit, is_white, trimmed, trimmed_end, trimmed_start, Str};
use crate::trim::{linked_place, or_else, retimed_layer, retimed_layers, trimmed_clip, Retime};

verus! {

// ---- one clip -------------------------------------------------------------

/// A clip that is put in place of another is found there, and all else stays.
pub proof fn law_clip_edit_is_local(tl: TimelineModel, loc: ClipLocator, c: ClipModel, other: ClipLocator)
    requires
        clip_at(tl, loc) is Some,
    ensures
        clip_at(with_clip(tl, loc, c), loc) == Some(c),
        other != loc ==> clip_at(with_clip(tl, loc, c), other) == clip_at(tl, other),
        with_clip(tl, loc, c).montage == tl.montage,
        with_clip(tl, loc, c).tracks.children.len() == tl.tracks.children.len(),
{
}

/// A clip that is muted or unmuted keeps its picture, and the stretches that were
/// taken out of its sound.
pub proof fn law_mute_keeps_picture(tl: TimelineModel, index: usize, muted: bool, loc: ClipLocator)
    requires
        clip_muted(tl, index, muted, Some(loc)) is Ok,
    ensures
        ({
            let c = clip_at(tl, loc)->0;
            let k = clip_at(clip_muted(tl, index, muted, Some(loc))->Ok_0.0, loc)->0;
            &&& override_of(k).muted == muted
            &&& override_of(k).removed_ranges =~= override_of(c).removed_ranges
            &&& k.source_range == c.source_range
            &&& k.media_reference == c.media_reference
            &&& k.effects == c.effects
        }),
{
    let c = clip_at(tl, loc)->0;
    law_clip_edit_is_local(
        tl,
        loc,
        crate::audio::with_override(
            c,
            crate::model::ClipAudioOverrideModel { muted, ..override_of(c) },
        ),
        loc,
    );
}

// ---- trims ----------------------------------------------------------------

/// A trim only narrows, but for a millionth: the clip begins no earlier and ends
/// no later in its source than before.  The clip that is linked to it on another
/// track, and covers the same stretch, shows the same stretch afterwards.
pub proof fn law_trim_narrows_linked_clips_alike(
    tl: TimelineModel,
    index: usize,
    new_start: Option<Num>,
    new_end: Option<Num>,
    loc: ClipLocator,
    group: Str,
    i: int,
    j: int,
)
    requires
        trimmed_clip(tl, index, new_start, new_end, Some(loc)) is Ok,
        link_group_of(clip_at(tl, loc)->0) == Some(group),
        0 <= i < tl.tracks.children.len(),
        i != loc.track_index,
        ({
            let r = clip_at(tl, loc)->0.source_range->0;
            linked_place(
                tl.tracks.children[i],
                group,
                Retime {
                    was_start: r.start_time.seconds,
                    was_end: end_of(r),
                    start: or_else(new_start, r.start_time.seconds),
                    end: or_else(new_end, end_of(r)),
                },
            ) == Some(j)
        }),
    ensures
        ({
            let was = clip_at(tl, loc)->0.source_range->0;
            let out = trimmed_clip(tl, index, new_start, new_end, Some(loc))->Ok_0.0;
            let now = clip_at(out, loc)->0.source_range->0;
            let linked = clip_in(track_at(out, i)->0, j)->0.source_range->0;
            &&& !now.start_time.seconds.less(was.start_time.seconds.minus(micro()))
            &&& end_of(now) is Fin ==> !end_of(was).plus(micro()).less(end_of(now))
            &&& linked.start_time.seconds == now.start_time.seconds
            &&& linked.duration.seconds == now.duration.seconds
        }),
{
    let c = clip_at(tl, loc)->0;
    let r = c.source_range->0;
    let start = or_else(new_start, r.start_time.seconds);
    let end = or_else(new_end, end_of(r));
    let t = Retime { was_start: r.start_time.seconds, was_end: end_of(r), start, end };
    let k = with_range(c, TimeRange::seconds(start, end.minus(start), r.start_time.rate));
    let mid = with_clip(tl, loc, k);
    law_clip_edit_is_local(tl, loc, k, loc);
    assert(mid.tracks.children[i] == tl.tracks.children[i]);
    let out = trimmed_clip(tl, index, new_start, new_end, Some(loc))->Ok_0.0;
    assert(out.tracks.children == retimed_layers(
        mid.tracks.children,
        loc.track_index as int,
        group,
        t,
    ));
    assert(out.tracks.children[i] == retimed_layer(tl.tracks.children[i], group, t));
    assert(out.tracks.children[loc.track_index as int] == mid.tracks.children[loc.track_index as int]);
    assert(clip_at(out, loc) == clip_at(mid, loc));
    let layer = tl.tracks.children[i];
    lemma_first_where(
        layer->Track_0.children,
        crate::trim::covering(group, t.was_start, t.was_end),
        0,
    );
}

// ---- moves ----------------------------------------------------------------

/// A move to another position loses nothing and adds nothing.
pub proof fn law_move_keeps_children(t: TrackModel, i: nat, j: int, to_position: usize)
    requires
        0 <= j < t.children.len(),
    ensures
        moved_to_place(t, i, j, to_position).0.children.to_multiset()
            == t.children.to_multiset(),
{
    broadcast use vstd::seq_lib::group_to_multiset_ensures;

    let to = if to_position < t.children.len() {
        to_position as int
    } else {
        t.children.len() - 1
    };
    let c = t.children[j];
    let left = t.children.remove(j);
    let after = left.insert(to, c);
    assert(after.remove(to) =~= left);
    assert(after.to_multiset().remove(c) =~= t.children.to_multiset().remove(c));
    assert(after.to_multiset().count(c) > 0) by {
        assert(after[to] == c);
        assert(after.contains(c));
    }
    assert(t.children.to_multiset().count(c) > 0) by {
        assert(t.children.contains(c));
    }
    assert(after.to_multiset() =~= after.to_multiset().remove(c).insert(c));
    assert(t.children.to_multiset() =~= t.children.to_multiset().remove(c).insert(c));
}

// ---- snapping -------------------------------------------------------------

proof fn lemma_best_target(ts: Seq<SnapTarget>, at: Num, tolerance: Num, n: int)
    requires
        0 <= n <= ts.len(),
    ensures
        match best_target(ts, at, tolerance, n) {
            Some(b) => in_reach(b, at, tolerance) && (exists|k: int|
                0 <= k < n && #[trigger] ts[k] == b) && forall|k: int|
                0 <= k < n && in_reach(#[trigger] ts[k], at, tolerance) ==> b.time_s.minus(
                    at,
                ).size().at_most(ts[k].time_s.minus(at).size()),
            None => forall|k: int| 0 <= k < n ==> !in_reach(#[trigger] ts[k], at, tolerance),
        },
    decreases n,
{
    if n > 0 {
        lemma_best_target(ts, at, tolerance, n - 1);
        assert(ts[n - 1] == ts[n - 1]);
    }
}

/// A time that snaps goes to the nearest target in reach, and stays where it is
/// if there is none.
pub proof fn law_snap_goes_to_the_nearest(
    tl: TimelineModel,
    index: usize,
    requested: Num,
    snap: SnapOptions,
)
    requires
        snap.enabled,
        snapped(tl, index, requested, Some(snap)) is Ok,
    ensures
        ({
            let ts = targets_of(tl, snap);
            let t = snapped(tl, index, requested, Some(snap))->Ok_0;
            ||| t == requested && forall|k: int|
                0 <= k < ts.len() ==> !in_reach(#[trigger] ts[k], requested, snap.tolerance_s)
            ||| (exists|k: int|
                0 <= k < ts.len() && (#[trigger] ts[k]).time_s == t && in_reach(
                    ts[k],
                    requested,
                    snap.tolerance_s,
                )) && forall|k: int|
                0 <= k < ts.len() && in_reach(#[trigger] ts[k], requested, snap.tolerance_s)
                    ==> t.minus(requested).size().at_most(ts[k].time_s.minus(requested).size())
        }),
{
    let ts = targets_of(tl, snap);
    lemma_best_target(ts, requested, snap.tolerance_s, ts.len() as int);
}

// ---- names and ids --------------------------------------------------------

proof fn lemma_decimal_differs(a: nat, b: nat)
    requires
        decimal(a) == decimal(b),
    ensures
        a == b,
    decreases a,
{
    lemma_decimal_len(a);
    lemma_decimal_len(b);
    assert(decimal(a).last() == decimal(b).last());
    if a < 10 && b < 10 {
        assert(decimal(a)[0] == digit(a as int));
        assert(decimal(b)[0] == digit(b as int));
    } else if a >= 10 && b >= 10 {
        assert(decimal(a).drop_last() =~= decimal(a / 10));
        assert(decimal(b).drop_last() =~= decimal(b / 10));
        assert(decimal(a).last() == digit((a % 10) as int));
        assert(decimal(b).last() == digit((b % 10) as int));
        lemma_decimal_differs(a / 10, b / 10);
    } else if a < 10 {
        lemma_decimal_len(b / 10);
    } else {
        lemma_decimal_len(a / 10);
    }
}

proof fn lemma_decimal_len(a: nat)
    ensures
        decimal(a).len() >= 1,
        a < 10 ==> decimal(a).len() == 1,
    decreases a,
{
    if a >= 10 {
        lemma_decimal_len(a / 10);
    }
}

proof fn lemma_free_number(t: TrackModel, prefix: Str, i: nat, left: nat)
    ensures
        i <= free_number(t, prefix, i, left) <= i + left,
        forall|k: nat|
            i <= k < free_number(t, prefix, i, left) ==> name_used(
                t,
                #[trigger] (prefix + decimal(k)),
            ),
        free_number(t, prefix, i, left) < i + left ==> !name_used(
            t,
            prefix + decimal(free_number(t, prefix, i, left)),
        ),
    decreases left,
{
    if left > 0 && name_used(t, prefix + decimal(i)) {
        lemma_free_number(t, prefix, i + 1, (left - 1) as nat);
    }
}

proof fn lemma_numbered_differ(prefix: Str, a: nat, b: nat)
    requires
        prefix + decimal(a) == prefix + decimal(b),
    ensures
        a == b,
{
    assert(decimal(a) =~= (prefix + decimal(a)).skip(prefix.len() as int));
    assert(decimal(b) =~= (prefix + decimal(b)).skip(prefix.len() as int));
    lemma_decimal_differs(a, b);
}

proof fn lemma_free_name(t: TrackModel, prefix: Str, first: nat)
    ensures
        !name_used(t, free_name(t, prefix, first)),
{
    let n = t.children.len();
    let f = free_number(t, prefix, first, n);
    lemma_free_number(t, prefix, first, n);
    if name_used(t, prefix + decimal(f)) {
        assert(f == first + n);
        let names = clip_names(t.children);
        let tried = Seq::new(n + 1, |k: int| Some(prefix + decimal((first + k) as nat)));
        assert(tried.no_duplicates()) by {
            assert forall|a: int, b: int| 0 <= a < b < tried.len() implies tried[a] != tried[b] by {
                if tried[a] == tried[b] {
                    lemma_numbered_differ(prefix, (first + a) as nat, (first + b) as nat);
                }
            }
        }
        tried.unique_seq_to_set();
        names.lemma_cardinality_of_set();
        vstd::seq_lib::seq_to_set_is_finite(names);
        vstd::seq_lib::seq_to_set_is_finite(tried);
        assert(tried.to_set().subset_of(names.to_set())) by {
            assert forall|x: Option<Str>| tried.to_set().contains(x) implies names.to_set().contains(
                x,
            ) by {
                assert(tried.contains(x));
                let k = choose|k: int| 0 <= k < tried.len() && tried[k] == x;
                let v = (first + k) as nat;
                assert(name_used(t, prefix + decimal(v)));
                assert(names.contains(x));
            }
        }
        vstd::set_lib::lemma_len_subset(tried.to_set(), names.to_set());
    }
}

/// The name that a new clip gets, where none is given, is no other clip's on the
/// track.
pub proof fn law_default_name_is_free(t: TrackModel, asset: Str)
    ensures
        !name_used(t, default_name(t, asset)),
{
    match crate::path::file_stem(asset) {
        Some(s) if trimmed(s).len() > 0 => {
            if name_used(t, trimmed(s)) {
                lemma_free_name(t, trimmed(s) + "-"@, 2);
            }
        },
        _ => {
            lemma_free_name(t, "clip-"@, 0);
        },
    }
}

proof fn lemma_hex_len(v: nat, places: nat)
    ensures
        hex_padded(v, places).len() == places,
    decreases places,
{
    if places > 0 {
        lemma_hex_len(v / 16, (places - 1) as nat);
    }
}

proof fn lemma_hex_last(a: nat, b: nat, places: nat)
    requires
        places > 0,
        hex_padded(a, places) == hex_padded(b, places),
    ensures
        a % 16 == b % 16,
        hex_padded(a / 16, (places - 1) as nat) == hex_padded(b / 16, (places - 1) as nat),
{
    let x = hex_padded(a, places);
    let y = hex_padded(b, places);
    lemma_hex_len(a, places);
    lemma_hex_len(b, places);
    assert(x.last() == hex_digit(a % 16));
    assert(y.last() == hex_digit(b % 16));
    assert(x.drop_last() =~= hex_padded(a / 16, (places - 1) as nat));
    assert(y.drop_last() =~= hex_padded(b / 16, (places - 1) as nat));
}

proof fn lemma_three_digits(a: nat, b: nat)
    requires
        a % 16 == b % 16,
        a / 16 % 16 == b / 16 % 16,
        a / 16 / 16 % 16 == b / 16 / 16 % 16,
    ensures
        a % 4096 == b % 4096,
{
    assert(a % 4096 == a % 16 + 16 * (a / 16 % 16) + 256 * (a / 16 / 16 % 16));
    assert(b % 4096 == b % 16 + 16 * (b / 16 % 16) + 256 * (b / 16 / 16 % 16));
}

/// Two ids with running numbers that differ in their last three hexadecimal
/// digits differ, whenever they were made.
pub proof fn law_fresh_ids_differ(nanos: u64, seq_: u32, other_nanos: u64, other_seq: u32)
    requires
        seq_ % 4096 != other_seq % 4096,
    ensures
        id_text(nanos, seq_) != id_text(other_nanos, other_seq),
{
    let a = id_text(nanos, seq_);
    let b = id_text(other_nanos, other_seq);
    if a == b {
        lemma_hex_len(nanos as nat, 13);
        lemma_hex_len(other_nanos as nat, 13);
        lemma_hex_len(seq_ as nat, 3);
        lemma_hex_len(other_seq as nat, 3);
        let n = "c-"@.len() + 13;
        assert(a.skip(n as int) =~= hex_padded(seq_ as nat, 3));
        assert(b.skip(n as int) =~= hex_padded(other_seq as nat, 3));
        lemma_hex_last(seq_ as nat, other_seq as nat, 3);
        lemma_hex_last(seq_ as nat / 16, other_seq as nat / 16, 2);
        lemma_hex_last(seq_ as nat / 16 / 16, other_seq as nat / 16 / 16, 1);
        lemma_three_digits(seq_ as nat, other_seq as nat);
    }
}

proof fn lemma_numbers_differ(s: u32, i: nat, j: nat)
    requires
        i < j,
        j - i < 4096,
    ensures
        moved_on(s, i) % 4096 != moved_on(s, j) % 4096,
{
    lemma_mod_mod(s + i, 4096, 0x10_0000);
    lemma_mod_mod(s + j, 4096, 0x10_0000);
}

/// Of ids that are handed out one after the other, any two differ that have fewer
/// than four thousand and ninety-five others between them, whenever they were made.
pub proof fn law_ids_in_a_row_differ(before: ClipIds, after: ClipIds, n: nat, i: int, j: int)
    requires
        drew(before, after, n),
        0 <= i < j < n,
        j - i < 4096,
    ensures
        fresh(before, after)[i] != fresh(before, after)[j],
{
    let len = before.log().len() as int;
    reveal(in_turn);
    let a = moved_on(before.next(), i as nat);
    let b = moved_on(before.next(), j as nat);
    assert(numbered(after.log()[len + i], a));
    assert(numbered(after.log()[len + j], b));
    let x = choose|x: u64| after.log()[len + i] == #[trigger] id_text(x, a);
    let y = choose|y: u64| after.log()[len + j] == #[trigger] id_text(y, b);
    lemma_numbers_differ(before.next(), i as nat, j as nat);
    law_fresh_ids_differ(x, a, y, b);
}

/// No two of up to four thousand and ninety-six ids that an envelope needs are the
/// same, whichever of its ops they are for.
pub proof fn law_ids_of_an_envelope_differ(
    before: ClipIds,
    after: ClipIds,
    drawn: Seq<Seq<Str>>,
    i: int,
    j: int,
)
    requires
        drew(before, after, fresh(before, after).len()),
        fresh(before, after) == all_drawn(drawn, drawn.len() as int),
        fresh(before, after).len() <= 4096,
        0 <= i < j < fresh(before, after).len(),
    ensures
        all_drawn(drawn, drawn.len() as int)[i] != all_drawn(drawn, drawn.len() as int)[j],
{
    law_ids_in_a_row_differ(before, after, fresh(before, after).len(), i, j);
}

// ---- paths ----------------------------------------------------------------

proof fn lemma_trimmed_start(s: Str)
    ensures
        trimmed_start(s).len() == 0 || !is_white(trimmed_start(s)[0]),
    decreases s.len(),
{
    if s.len() > 0 && is_white(s[0]) {
        lemma_trimmed_start(s.drop_first());
    }
}

proof fn lemma_trimmed_end(s: Str)
    ensures
        trimmed_end(s).len() == 0 || !is_white(trimmed_end(s).last()),
        s.len() > 0 && !is_white(s[0]) ==> trimmed_end(s).len() > 0 && trimmed_end(s)[0] == s[0],
    decreases s.len(),
{
    if s.len() > 0 && is_white(s.last()) {
        lemma_trimmed_end(s.drop_last());
    }
}

proof fn lemma_trimmed_twice(s: Str)
    ensures
        trimmed(trimmed(s)) == trimmed(s),
{
    lemma_trimmed_start(s);
    lemma_trimmed_end(trimmed_start(s));
}

/// The path of a colour table that is accepted stays below the project, and is
/// accepted again as it is.
pub proof fn law_table_path_stays_inside(index: usize, path: Str)
    ensures
        lut_path_of(index, path) matches Ok(p) ==> inside_project(p) && lut_path_of(index, p) == Ok::<
            Str,
            crate::error::Refusal,
        >(p),
{
    lemma_trimmed_twice(path);
}

// ---- nesting --------------------------------------------------------------

proof fn lemma_same_names(a: TimelineModel, b: TimelineModel, name: Str, at: int)
    requires
        a.tracks.children.len() == b.tracks.children.len(),
        forall|k: int|
            0 <= k < a.tracks.children.len() ==> match (#[trigger] track_at(a, k), track_at(b, k)) {
                (Some(x), Some(y)) => x.name == y.name,
                (None, None) => true,
                _ => false,
            },
    ensures
        track_named_from(a, name, at) == track_named_from(b, name, at),
    decreases a.tracks.children.len() - at,
{
    if 0 <= at < a.tracks.children.len() {
        assert(track_at(a, at) is Some == track_at(b, at) is Some);
        lemma_same_names(a, b, name, at + 1);
    }
}

/// What was wrapped into a stack and is flattened again is as it was.
pub proof fn law_flatten_undoes_wrap(
    tl: TimelineModel,
    index: usize,
    track: Str,
    lo: usize,
    hi: usize,
    name: Option<Str>,
    later: usize,
)
    requires
        wrapped(tl, index, track, lo, hi, name) is Ok,
    ensures
        flattened(wrapped(tl, index, track, lo, hi, name)->Ok_0.0, later, track, lo) matches Ok(p)
            && p.0 == tl,
{
    let n = trimmed(track);
    let i = track_named(tl, n)->0;
    lemma_track_named(tl, n, 0);
    let t = track_at(tl, i)->0;
    let inner = t.children.subrange(lo as int, hi as int);
    let stack = nested_stack(nested_name(name), t.kind, inner);
    let mid = wrapped(tl, index, track, lo, hi, name)->Ok_0.0;
    let packed = spliced(t.children, lo as int, hi as int, seq![stack]);
    assert forall|k: int| 0 <= k < tl.tracks.children.len() implies (match (
        #[trigger] track_at(mid, k),
        track_at(tl, k),
    ) {
        (Some(x), Some(y)) => x.name == y.name,
        (None, None) => true,
        _ => false,
    }) by {}
    lemma_same_names(mid, tl, n, 0);
    assert(track_at(mid, i)->0.children == packed);
    assert(packed[lo as int] == stack);
    let layers = stack->Stack_0.children;
    assert(layers.len() == 1);
    assert(flat(later, layers, t.kind, 0) == Ok::<
        Seq<TrackChildModel>,
        crate::error::Refusal,
    >(Seq::empty()));
    let inside = Seq::<TrackChildModel>::empty() + inner;
    assert(flat(later, layers, t.kind, 1) == Ok::<
        Seq<TrackChildModel>,
        crate::error::Refusal,
    >(inside));
    assert(spliced(packed, lo as int, lo + 1, inside) =~= t.children);
    let out = flattened(mid, later, track, lo)->Ok_0.0;
    assert(track_at(out, i)->0.children == t.children);
    assert(out.tracks.children =~= tl.tracks.children);
}

// ---- cutting out ----------------------------------------------------------

proof fn lemma_merged_keeps(children: Seq<TrackChildModel>, rate: Num, n: int, c: TrackChildModel)
    requires
        0 <= n <= children.len(),
        children.take(n).contains(c),
        !(c is Gap),
    ensures
        merged(children, rate, n).contains(c),
    decreases n,
{
    let k = choose|k: int| 0 <= k < n && children.take(n)[k] == c;
    assert(children[k] == c);
    let m = merged(children, rate, n - 1);
    let now = merged(children, rate, n);
    if k == n - 1 {
        assert(now[now.len() - 1] == c);
    } else {
        assert(children.take(n - 1)[k] == c);
        lemma_merged_keeps(children, rate, n - 1, c);
        let x = choose|x: int| 0 <= x < m.len() && m[x] == c;
        assert(now[x] == c);
    }
}

/// Whether a child lies outside a stretch of time.
pub open spec fn outside(children: Seq<TrackChildModel>, k: int, start: Num, end: Num) -> bool {
    let at = solid_start(children, k);
    let till = at.plus(child_seconds(children[k]));
    at is Fin && till is Fin && (till.at_most(start) || end.at_most(at))
}

proof fn lemma_carved_keeps(
    children: Seq<TrackChildModel>,
    start: Num,
    end: Num,
    fill: Fill,
    ids: Seq<Str>,
    n: int,
    k: int,
)
    requires
        0 <= k < n <= children.len(),
        start is Fin,
        end is Fin,
        !(fill is With),
        micro().less(child_seconds(children[k])),
        outside(children, k, start, end),
    ensures
        carved(children, start, end, fill, ids, n).children.contains(children[k]),
    decreases n,
{
    let s = carved(children, start, end, fill, ids, n - 1);
    let now = carved(children, start, end, fill, ids, n);
    let at = solid_start(children, n - 1);
    if k == n - 1 {
        let till = at.plus(child_seconds(children[k]));
        assert(till.smaller(end).at_most(at.larger(start).plus(micro()))) by {
            let a = at.larger(start);
            assert(a is Fin);
            assert(till.smaller(end).at_most(a));
        }
        assert(now.children == s.children.push(children[k]));
        assert(now.children[s.children.len() as int] == children[k]);
    } else {
        lemma_carved_keeps(children, start, end, fill, ids, n - 1, k);
        let x = choose|x: int| 0 <= x < s.children.len() && s.children[x] == children[k];
        assert(now.children[x] == children[k]);
    }
}

/// Lifting or extracting a stretch leaves the clips outside it as they are.
pub proof fn law_cut_out_leaves_the_rest(
    t: TrackModel,
    start: Num,
    end: Num,
    close: bool,
    ids: Seq<Str>,
    k: int,
)
    requires
        0 <= k < t.children.len(),
        start is Fin,
        end is Fin,
        t.children[k] is Clip,
        micro().less(child_seconds(t.children[k])),
        outside(t.children, k, start, end),
    ensures
        crate::carve::cut_children(t, start, end, close, ids).children.contains(t.children[k]),
{
    let n = t.children.len() as int;
    let rate = crate::move_clip::first_rate(t.children, 0);
    let fill = if close {
        Fill::Nothing
    } else {
        Fill::Empty(rate)
    };
    lemma_carved_keeps(t.children, start, end, fill, ids, n, k);
    let c = carved(t.children, start, end, fill, ids, n).children;
    assert(c.take(c.len() as int) =~= c);
    let merge_rate = if close {
        crate::move_clip::first_rate(c, 0)
    } else {
        rate
    };
    lemma_merged_keeps(c, merge_rate, c.len() as int, t.children[k]);
}

// ---- splits ---------------------------------------------------------------

/// In the ops behind a split, the id of the left part with `-b` behind it stands
/// for the right part.
pub proof fn law_split_alias_names_the_right_part(
    s: SessionModel,
    op: EdlOp,
    a: Answers,
    ids: Seq<Str>,
    later: EdlOp,
)
    requires
        op is SplitClip,
        advanced(s, op, a, ids) is Ok,
        advanced(s, op, a, ids)->Ok_0.applied.last().metadata.affected_clip_ids.len() >= 2,
        anchor_of(later) matches Some(x) && x@ == (AnchorModel::ClipUuid {
            uuid: advanced(s, op, a, ids)->Ok_0.applied.last().metadata.affected_clip_ids[0]
                + "-b"@,
        }),
    ensures
        sought(advanced(s, op, a, ids)->Ok_0, later) == Some(
            AnchorModel::ClipUuid {
                uuid: advanced(
                    s,
                    op,
                    a,
                    ids,
                )->Ok_0.applied.last().metadata.affected_clip_ids.last(),
            },
        ),
{
    reveal(advanced);
    let clips = advanced(s, op, a, ids)->Ok_0.applied.last().metadata.affected_clip_ids;
    law_put_then_lookup(
        s.aliases,
        clips[0] + "-b"@,
        Meta::Text(clips.last()),
        clips[0] + "-b"@,
    );
}

/// Whether the clip at a place is the only one on a track with an id.
pub open spec fn only_at(tl: TimelineModel, id: Str, i: int, j: int) -> bool {
    &&& track_at(tl, i) is Some
    &&& 0 <= j < track_at(tl, i)->0.children.len()
    &&& forall|a: int, b: int|
        #![trigger track_at(tl, a)->0.children[b]]
        track_at(tl, a) is Some && 0 <= b < track_at(tl, a)->0.children.len() ==> (child_id(
            track_at(tl, a)->0.children[b],
        ) == Some(id) <==> a == i && b == j)
}

proof fn lemma_right_of(children: Seq<TrackChildModel>, id: Str, from: int, j: int)
    requires
        0 <= from,
        forall|b: int|
            0 <= b < children.len() ==> (child_id(#[trigger] children[b]) == Some(id) <==> b == j),
    ensures
        from <= j < children.len() - 1 && children[j + 1] is Clip ==> right_of(children, id, from)
            == child_id(children[j + 1]),
        !(from <= j < children.len()) ==> right_of(children, id, from) is None,
    decreases children.len() - from,
{
    if from + 1 < children.len() {
        assert(child_id(children[from]) == Some(id) <==> from == j);
        lemma_right_of(children, id, from + 1, j);
    }
}

proof fn lemma_split_right(tl: TimelineModel, id: Str, i: int, j: int, from: int)
    requires
        only_at(tl, id, i, j),
        j + 1 < track_at(tl, i)->0.children.len(),
        track_at(tl, i)->0.children[j + 1] is Clip,
        0 <= from <= i,
    ensures
        split_right(tl, id, from) == child_id(track_at(tl, i)->0.children[j + 1]),
    decreases i - from,
{
    if let Some(t) = track_at(tl, from) {
        let here = if from == i {
            j
        } else {
            -1
        };
        assert forall|b: int| 0 <= b < t.children.len() implies (child_id(#[trigger] t.children[b])
            == Some(id) <==> b == here) by {
            assert(track_at(tl, from)->0.children[b] == t.children[b]);
        }
        lemma_right_of(t.children, id, 0, here);
    }
    if from < i {
        lemma_split_right(tl, id, i, j, from + 1);
    }
}

proof fn lemma_parts_ids(c: ClipModel, r: TimeRange, at: Num, id: Str)
    ensures
        id_of(left_part(c, r, at)) == id_of(c),
        id_of(right_part(c, r, at, id)) == id,
{
    let k = trail_only(
        with_range(
            ClipModel { name: c.name + "-b"@, ..c },
            TimeRange::seconds(at, end_of(r).minus(at), r.start_time.rate),
        ),
    );
    law_put_then_lookup(clip_montage(k).extra, "clip_uuid"@, Meta::Text(id), "clip_uuid"@);
}

proof fn lemma_split_only_at(
    tl: TimelineModel,
    loc: ClipLocator,
    at: Num,
    new_id: Str,
    id: Str,
    i: int,
    j: int,
)
    requires
        only_at(tl, id, i, j),
        clip_at(tl, loc) is Some,
        new_id != id,
        loc.track_index == i ==> loc.child_index == j,
    ensures
        only_at(split_at(tl, loc, at, new_id), id, i, j),
        loc.track_index == i ==> track_at(split_at(tl, loc, at, new_id), i)->0.children[j + 1]
            is Clip && child_id(
            track_at(split_at(tl, loc, at, new_id), i)->0.children[j + 1],
        ) == Some(new_id) && j + 1 < track_at(split_at(tl, loc, at, new_id), i)->0.children.len(),
        loc.track_index != i ==> track_at(split_at(tl, loc, at, new_id), i) == track_at(tl, i),
        split_at(tl, loc, at, new_id).tracks.children.len() == tl.tracks.children.len(),
{
    let x = loc.track_index as int;
    let y = loc.child_index as int;
    let c = clip_at(tl, loc)->0;
    let r = c.source_range->0;
    lemma_parts_ids(c, r, at, new_id);
    let out = split_at(tl, loc, at, new_id);
    let before = track_at(tl, x)->0.children;
    let left = TrackChildModel::Clip(left_part(c, r, at));
    let right = TrackChildModel::Clip(right_part(c, r, at, new_id));
    let after = before.update(y, left).insert(y + 1, right);
    assert(track_at(out, x)->0.children == after);
    assert(child_id(before[y]) == Some(id_of(c)));
    assert(track_at(tl, x)->0.children[y] == before[y]);
    assert forall|a: int, b: int|
        #![trigger track_at(out, a)->0.children[b]]
        track_at(out, a) is Some && 0 <= b < track_at(out, a)->0.children.len() implies (child_id(
        track_at(out, a)->0.children[b],
    ) == Some(id) <==> a == i && b == j) by {
        if a == x {
            if b < y {
                assert(after[b] == before[b]);
                assert(track_at(tl, x)->0.children[b] == before[b]);
            } else if b == y {
                assert(after[b] == left);
            } else if b == y + 1 {
                assert(after[b] == right);
            } else {
                assert(after[b] == before[b - 1]);
                assert(track_at(tl, x)->0.children[b - 1] == before[b - 1]);
            }
        } else {
            assert(track_at(out, a) == track_at(tl, a));
            assert(track_at(tl, a)->0.children[b] == track_at(out, a)->0.children[b]);
        }
    }
    if x == i {
        assert(after[j + 1] == right);
    }
}

proof fn lemma_siblings_count(
    tl: TimelineModel,
    but: int,
    group: Str,
    at: Num,
    ids: Seq<Str>,
    n: int,
)
    ensures
        n > 0 ==> split_siblings(tl, but, group, at, ids, n - 1).1 <= split_siblings(
            tl,
            but,
            group,
            at,
            ids,
            n,
        ).1,
{
}

proof fn lemma_siblings_only_at(
    tl: TimelineModel,
    group: Str,
    at: Num,
    ids: Seq<Str>,
    n: int,
    id: Str,
    i: int,
    j: int,
)
    requires
        only_at(tl, id, i, j),
        0 <= n <= tl.tracks.children.len(),
        tl.tracks.children.len() <= usize::MAX,
        split_siblings(tl, i, group, at, ids, n).1 <= ids.len(),
        forall|k: int| 0 <= k < ids.len() ==> #[trigger] ids[k] != id,
        forall|a: int| #[trigger]
            track_at(tl, a) is Some ==> track_at(tl, a)->0.children.len() <= usize::MAX,
    ensures
        only_at(split_siblings(tl, i, group, at, ids, n).0, id, i, j),
        track_at(split_siblings(tl, i, group, at, ids, n).0, i) == track_at(tl, i),
        split_siblings(tl, i, group, at, ids, n).0.tracks.children.len()
            == tl.tracks.children.len(),
        forall|a: int|
            n <= a ==> #[trigger] track_at(split_siblings(tl, i, group, at, ids, n).0, a)
                == track_at(tl, a),
    decreases n,
{
    if n > 0 {
        lemma_siblings_count(tl, i, group, at, ids, n);
        lemma_siblings_only_at(tl, group, at, ids, n - 1, id, i, j);
        let (t, k) = split_siblings(tl, i, group, at, ids, n - 1);
        let out = split_siblings(tl, i, group, at, ids, n).0;
        match split_place(t, n - 1, group, at) {
            Some(b) if n - 1 != i => {
                assert(track_at(t, n - 1) == track_at(tl, n - 1));
                let p = crate::split::containing(group, at);
                lemma_first_where(track_at(t, n - 1)->0.children, p, 0);
                assert(track_at(tl, n - 1) is Some);
                let loc = ClipLocator { track_index: (n - 1) as usize, child_index: b as usize };
                assert(p(track_at(t, n - 1)->0.children[b]));
                assert(clip_at(t, loc) is Some);
                assert(ids[k as int] != id);
                lemma_split_only_at(t, loc, at, ids[k as int], id, i, j);
                assert forall|a: int| n <= a implies #[trigger] track_at(out, a) == track_at(
                    tl,
                    a,
                ) by {
                    assert(track_at(t, a) == track_at(tl, a));
                }
            },
            _ => {},
        }
    }
}

proof fn lemma_split_op(
    tl: TimelineModel,
    index: usize,
    op: EdlOp,
    a: Answers,
    loc: Option<ClipLocator>,
    ids: Seq<Str>,
)
    requires
        op is SplitClip,
    ensures
        op_done(tl, index, op, a, loc, ids) == split_clip_op(
            tl,
            index,
            op->SplitClip_at_s,
            op->SplitClip_snap,
            loc,
            ids,
        ),
{
    reveal(op_done);
}

/// Whether there are ids enough for the right parts of a clip and of those linked
/// to it, and none of them is taken.
pub open spec fn ids_suffice(tl: TimelineModel, loc: ClipLocator, ids: Seq<Str>) -> bool {
    &&& ids.len() > 0
    &&& ids[0].len() > 0
    &&& forall|k: int| 0 <= k < ids.len() ==> #[trigger] ids[k] != id_of(clip_at(tl, loc)->0)
    &&& link_group_of(clip_at(tl, loc)->0) matches Some(g) ==> forall|at: Num|
        1 + (#[trigger] split_siblings(
            split_at(tl, loc, at, ids[0]),
            loc.track_index as int,
            g,
            at,
            ids.skip(1),
            tl.tracks.children.len() as int,
        )).1 <= ids.len()
}

/// Whether all places on the timeline can be counted.
pub open spec fn places_count(tl: TimelineModel) -> bool {
    &&& tl.tracks.children.len() <= usize::MAX
    &&& forall|x: int| #[trigger]
        track_at(tl, x) is Some ==> track_at(tl, x)->0.children.len() < usize::MAX
}

proof fn lemma_split_clip_right(
    tl: TimelineModel,
    index: usize,
    at_s: Num,
    snap: Option<SnapOptions>,
    loc: ClipLocator,
    ids: Seq<Str>,
)
    requires
        split_clip_op(tl, index, at_s, snap, Some(loc), ids) is Ok,
        places_count(tl),
        only_at(
            tl,
            id_of(clip_at(tl, loc)->0),
            loc.track_index as int,
            loc.child_index as int,
        ),
        ids_suffice(tl, loc, ids),
    ensures
        split_right(
            split_clip_op(tl, index, at_s, snap, Some(loc), ids)->Ok_0.0,
            id_of(clip_at(tl, loc)->0),
            0,
        ) == Some(ids[0]),
{
    let i = loc.track_index as int;
    let j = loc.child_index as int;
    let c = clip_at(tl, loc)->0;
    let id = id_of(c);
    let out = split_clip_op(tl, index, at_s, snap, Some(loc), ids)->Ok_0.0;
    let at = crate::split::split_time(tl, index, loc, c.source_range->0, at_s, snap)->Ok_0;
    let cut = split_at(tl, loc, at, ids[0]);
    lemma_split_only_at(tl, loc, at, ids[0], id, i, j);
    if let Some(g) = link_group_of(c) {
        assert(1 + split_siblings(
            split_at(tl, loc, at, ids[0]),
            i,
            g,
            at,
            ids.skip(1),
            tl.tracks.children.len() as int,
        ).1 <= ids.len());
        assert forall|k: int| 0 <= k < ids.skip(1).len() implies #[trigger] ids.skip(1)[k] != id by {
            assert(ids.skip(1)[k] == ids[k + 1]);
        }
        assert forall|x: int| #[trigger] track_at(cut, x) is Some implies track_at(
            cut,
            x,
        )->0.children.len() <= usize::MAX by {
            assert(track_at(tl, x) is Some);
            if x != i {
                assert(track_at(cut, x) == track_at(tl, x));
            }
        }
        lemma_siblings_only_at(
            cut,
            g,
            at,
            ids.skip(1),
            cut.tracks.children.len() as int,
            id,
            i,
            j,
        );
    }
    lemma_split_right(out, id, i, j, 0);
}

/// A split is put on record with the id of the clip, which the left part keeps,
/// and the first fresh id, which the right part gets: if the clip's id is its
/// alone, and no fresh id.
pub proof fn law_split_records_both_parts(
    s: SessionModel,
    op: EdlOp,
    a: Answers,
    loc: ClipLocator,
    ids: Seq<Str>,
)
    requires
        op is SplitClip,
        a.place == Ok::<ClipLocator, crate::error::AnchorMiss>(loc),
        advanced(s, op, a, ids) is Ok,
        places_count(s.working),
        only_at(
            s.working,
            id_of(clip_at(s.working, loc)->0),
            loc.track_index as int,
            loc.child_index as int,
        ),
        id_of(clip_at(s.working, loc)->0).len() > 0,
        ids_suffice(s.working, loc, ids),
    ensures
        advanced(s, op, a, ids)->Ok_0.applied.last().metadata.affected_clip_ids =~= seq![
            id_of(clip_at(s.working, loc)->0),
            ids[0],
        ],
{
    reveal(advanced);
    let tl = s.working;
    let index = s.applied.len() as usize;
    let c = clip_at(tl, loc)->0;
    let id = id_of(c);
    lemma_split_op(tl, index, op, a, Some(loc), ids);
    let at_s = op->SplitClip_at_s;
    let snap = op->SplitClip_snap;
    let out = split_clip_op(tl, index, at_s, snap, Some(loc), ids)->Ok_0.0;
    lemma_split_clip_right(tl, index, at_s, snap, loc, ids);
    let before = record_before(tl, op, Some(loc), a.document@);
    assert(before.affected_clip_ids =~= seq![id]);
    assert(!before.affected_clip_ids.contains(ids[0])) by {
        assert(ids[0] != id);
    }
    let after = record_after(out, op, before);
    assert(after.affected_clip_ids =~= seq![id, ids[0]]);
}

} // verus!

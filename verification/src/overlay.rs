//! Clips over other clips: b-roll, and pictures in the picture.
use vstd::prelude::*;

use crate::clip::{
    effect_of, empty_clip, media_at, set_effect, stamp_clip_uuid, with_range, with_sole_effect,
    with_uuid,
};
use crate::edit::{
    child_duration, child_seconds, empty_track, gap_child, gap_of, spliced, start_of, track_at,
    track_cursor, track_seconds, track_time, track_time_at, with_children, with_layers, with_track,
};
use crate::effects::VIDEO_OVERLAY;
use crate::error::{bad, checks, invalid, invalid_str, shows, ApplyError, Done, Refusal};
use crate::gap::{frame, framed};
use crate::locate::{find_clip, found_clip};
use crate::meta::{number_meta, put, Meta, MetaMap, MetaValue};
use crate::mint::{drew, fresh, lemma_drew, ClipIds};
use crate::model::{
    Clip, ClipLocator, ClipModel, Effect, ExternalReference, MediaReference, StackChildModel,
    Stored, TimeRange, Timeline, TimelineModel, Track, TrackChild, TrackChildModel, TrackKind,
};
use crate::num::{micro, zero, Num};
use crate::op::{BRollPosition, PiPCorner};
use crate::path::{absolute, goes_up, is_absolute, leads_up};
use crate::text::{
    begins, begins_with, blank, cat11, cat2, cat3, cat9, count, count_usize, decimal, fix3,
    is_blank, milli3, quote, quoted, show, shown, Str,
};

verus! {

// ---- free names for video tracks ------------------------------------------

/// The number that a text of decimal digits stands for.
pub open spec fn digits_value(s: Str) -> Option<nat>
    decreases s.len(),
{
    if s.len() == 0 {
        Some(0)
    } else {
        let d = s.last() as int - 48;
        match digits_value(s.drop_last()) {
            Some(v) if 0 <= d <= 9 => Some((10 * v + d) as nat),
            _ => None,
        }
    }
}

/// The number below 2^32 that a text stands for, in decimal digits behind an
/// optional plus sign.
pub open spec fn parsed_u32(s: Str) -> Option<nat> {
    let digits = if s.len() > 0 && s[0] == '+' {
        s.skip(1)
    } else {
        s
    };
    match digits_value(digits) {
        Some(v) if digits.len() > 0 && v <= u32::MAX => Some(v),
        _ => None,
    }
}

proof fn lemma_digits_grow(s: Str, k: int)
    requires
        0 <= k <= s.len(),
        digits_value(s) is Some,
    ensures
        digits_value(s.take(k)) is Some,
        digits_value(s.take(k))->0 <= digits_value(s)->0,
    decreases s.len(),
{
    if k == s.len() {
        assert(s.take(k) =~= s);
    } else {
        lemma_digits_grow(s.drop_last(), k);
        assert(s.drop_last().take(k) =~= s.take(k));
    }
}

fn parse_u32(s: &str) -> (r: Option<u32>)
    ensures
        match r {
            Some(v) => parsed_u32(s@) == Some(v as nat),
            None => parsed_u32(s@) is None,
        },
{
    let n: usize = s.unicode_len();
    let from: usize = if n > 0 && s.get_char(0) == '+' {
        1
    } else {
        0
    };
    let ghost digits = s@.skip(from as int);
    assert(from == 0 ==> digits =~= s@);
    if n == from {
        return None;
    }
    let mut v: u64 = 0;
    let mut i: usize = from;
    assert(digits.take(0) =~= Seq::<char>::empty());
    while i < n
        invariant
            from <= i <= n,
            n == s@.len(),
            digits == s@.skip(from as int),
            digits.len() == n - from,
            digits.len() > 0,
            digits == (if s@.len() > 0 && s@[0] == '+' {
                s@.skip(1)
            } else {
                s@
            }),
            digits_value(digits.take(i - from)) == Some(v as nat),
            v <= u32::MAX,
        decreases n - i,
    {
        let c = s.get_char(i);
        assert(digits.take(i - from + 1).drop_last() =~= digits.take(i - from));
        assert(digits.take(i - from + 1).last() == c);
        let d: u32 = c as u32;
        if d < 48 || d > 57 {
            proof {
                if digits_value(digits) is Some {
                    lemma_digits_grow(digits, i - from + 1);
                }
            }
            return None;
        }
        v = 10 * v + (d - 48) as u64;
        if v > u32::MAX as u64 {
            proof {
                if digits_value(digits) is Some {
                    lemma_digits_grow(digits, i - from + 1);
                }
            }
            return None;
        }
        i = i + 1;
    }
    assert(digits.take(digits.len() as int) =~= digits);
    Some(v as u32)
}

/// The number of a track that is called `V` and a number.
pub open spec fn video_number(layer: StackChildModel) -> Option<nat> {
    match layer {
        StackChildModel::Track(t) => if begins_with(t.name, "V"@) {
            parsed_u32(t.name.skip(1))
        } else {
            None
        },
        _ => None,
    }
}

/// The largest number among the first `n` layers, at least 1.
pub open spec fn max_video_number(layers: Seq<StackChildModel>, n: int) -> nat
    decreases n,
{
    if n <= 0 {
        1
    } else {
        let m = max_video_number(layers, n - 1);
        match video_number(layers[n - 1]) {
            Some(v) if v > m => v,
            _ => m,
        }
    }
}

/// The next free name of the form `V` and a number.
pub open spec fn next_video_name(tl: TimelineModel) -> Str {
    "V"@ + decimal(
        max_video_number(tl.tracks.children, tl.tracks.children.len() as int) + 1,
    )
}

/// The next free name of the form `V` and a number.
pub fn next_video_track_name(timeline: &Timeline) -> (r: String)
    ensures
        r@ == next_video_name(timeline@),
{
    let ghost layers = timeline@.tracks.children;
    let mut max: u32 = 1;
    let mut i: usize = 0;
    while i < timeline.tracks.children.len()
        invariant
            i <= timeline@.tracks.children.len(),
            layers == timeline@.tracks.children,
            max == max_video_number(layers, i as int),
        decreases layers.len() - i,
    {
        if let Some(t) = timeline.track(i) {
            if begins(t.name.as_str(), "V") {
                proof {
                    reveal_strlit("V");
                }
                let len: usize = t.name.as_str().unicode_len();
                assert(t.name@.subrange(1, len as int) =~= t.name@.skip(1));
                if let Some(v) = parse_u32(t.name.as_str().substring_char(1, len)) {
                    if v > max {
                        max = v;
                    }
                }
            }
        }
        i = i + 1;
    }
    cat2("V", count(max as u128 + 1).as_str())
}

// ---- into a free stretch --------------------------------------------------

/// The children with a clip put into the empty time at a time, looked for from
/// child `i` on; none where there is not empty time enough.
pub open spec fn put_in_gap(
    children: Seq<TrackChildModel>,
    clip: TrackChildModel,
    at: Num,
    length: Num,
    rate: Num,
    i: int,
) -> Option<Seq<TrackChildModel>>
    decreases children.len() - i,
{
    if i < 0 || i >= children.len() {
        None
    } else {
        let start = start_of(children, i);
        let end = start.plus(child_seconds(children[i]));
        if start.minus(micro()).at_most(at) && at.plus(length).at_most(end.plus(micro())) {
            if children[i] is Gap {
                Some(
                    spliced(
                        children,
                        i,
                        i + 1,
                        framed(
                            at.minus(start).larger(zero()),
                            clip,
                            end.minus(at).minus(length).larger(zero()),
                            rate,
                            micro(),
                        ),
                    ),
                )
            } else {
                None
            }
        } else if at.less(end.minus(micro())) {
            None
        } else {
            put_in_gap(children, clip, at, length, rate, i + 1)
        }
    }
}

/// The children with a clip put at a time: behind the last, after empty time, or
/// into empty time between them.
pub open spec fn overlaid(
    children: Seq<TrackChildModel>,
    clip: TrackChildModel,
    at: Num,
    length: Num,
    rate: Num,
) -> Option<Seq<TrackChildModel>> {
    let end = start_of(children, children.len() as int);
    if end.at_most(at.plus(micro())) {
        if end.plus(micro()).less(at) {
            Some(children.push(gap_of(at.minus(end), rate)).push(clip))
        } else {
            Some(children.push(clip))
        }
    } else {
        put_in_gap(children, clip, at, length, rate, 0)
    }
}

/// Puts a clip on a track at a time; gives back whether there was room.
pub fn insert_overlay_clip_at(
    track: &mut Track,
    clip: TrackChild,
    at: Num,
    length: Num,
    rate: Num,
) -> (r: bool)
    ensures
        match overlaid(old(track)@.children, clip@, at, length, rate) {
            Some(children) => r && final(track)@ == with_children(old(track)@, children),
            None => !r && final(track)@ == old(track)@,
        },
{
    let ghost children = track@.children;
    let end = track_cursor(track);
    if end.at_most(at.plus(micro())) {
        if end.plus(micro()).less(at) {
            track.push(gap_child(at.minus(end), rate));
        }
        track.push(clip);
        return true;
    }
    let mut start = zero();
    let mut i: usize = 0;
    while i < track.children.len()
        invariant
            i <= children.len(),
            *track == *old(track),
            children == track@.children,
            !start_of(children, children.len() as int).at_most(at.plus(micro())),
            start == start_of(children, i as int),
            put_in_gap(children, clip@, at, length, rate, 0) == put_in_gap(
                children,
                clip@,
                at,
                length,
                rate,
                i as int,
            ),
        decreases children.len() - i,
    {
        let end = start.plus(child_duration(&track.children[i]));
        if start.minus(micro()).at_most(at) && at.plus(length).at_most(end.plus(micro())) {
            let is_gap = match &track.children[i] {
                TrackChild::Gap(_) => true,
                _ => false,
            };
            if !is_gap {
                return false;
            }
            let middle = frame(
                at.minus(start).larger(zero()),
                clip,
                end.minus(at).minus(length).larger(zero()),
                rate,
                micro(),
            );
            track.splice(i, i + 1, middle);
            return true;
        }
        if at.less(end.minus(micro())) {
            return false;
        }
        start = end;
        i = i + 1;
    }
    false
}

// ---- b-roll ---------------------------------------------------------------

/// The first other video track, from layer `i` on, with room for a clip at a
/// time.
pub open spec fn roomy_track(
    tl: TimelineModel,
    but: int,
    clip: TrackChildModel,
    at: Num,
    length: Num,
    rate: Num,
    i: int,
) -> Option<int>
    decreases tl.tracks.children.len() - i,
{
    if i < 0 || i >= tl.tracks.children.len() {
        None
    } else if i != but && (track_at(tl, i) matches Some(t) && t.kind == TrackKind::Video
        && overlaid(t.children, clip, at, length, rate) is Some) {
        Some(i)
    } else {
        roomy_track(tl, but, clip, at, length, rate, i + 1)
    }
}

/// The new b-roll clip.
pub open spec fn broll_clip(over: Str, asset: Str, length: Num, rate: Num, id: Str) -> ClipModel {
    with_uuid(
        ClipModel {
            media_reference: media_at(asset),
            source_range: Some(TimeRange::seconds(zero(), length, rate)),
            ..empty_clip("broll-from-"@ + over)
        },
        id,
    )
}

/// What is left of a clip behind the b-roll that covers its start.
pub open spec fn broll_tail(c: ClipModel, length: Num, id: Str) -> ClipModel {
    let r = c.source_range->0;
    with_uuid(
        with_range(
            ClipModel { name: c.name + "-tail"@, ..c },
            TimeRange::seconds(
                r.start_time.seconds.plus(length),
                r.duration.seconds.minus(length),
                r.start_time.rate,
            ),
        ),
        id,
    )
}

/// B-roll in place of the start of a clip; the rest of the clip stays behind it.
pub open spec fn broll_replaced(
    tl: TimelineModel,
    loc: ClipLocator,
    c: ClipModel,
    asset: Str,
    length: Num,
    ids: Seq<Str>,
) -> (TimelineModel, Str) {
    let i = loc.track_index as int;
    let j = loc.child_index as int;
    let t = track_at(tl, i)->0;
    let r = c.source_range->0;
    let over = TrackChildModel::Clip(
        broll_clip(c.name, asset, length, r.start_time.rate, ids[0]),
    );
    let covered = t.children.update(j, over);
    let children = if length.less(r.duration.seconds) {
        covered.insert(j + 1, TrackChildModel::Clip(broll_tail(c, length, ids[1])))
    } else {
        covered
    };
    (
        with_track(tl, i, with_children(t, children)),
        "inserted b-roll over "@ + quoted(c.name) + " on track "@ + decimal(i as nat) + ": asset="@
            + quoted(asset) + " duration="@ + milli3(length) + "s (replace)"@,
    )
}

/// B-roll on another video track at the start of a clip: the first with room
/// there, else a new one.
pub open spec fn broll_overlaid(
    tl: TimelineModel,
    index: usize,
    loc: ClipLocator,
    c: ClipModel,
    asset: Str,
    length: Num,
    id: Str,
) -> Done {
    let i = loc.track_index as int;
    let rate = c.source_range->0.start_time.rate;
    let over = TrackChildModel::Clip(broll_clip(c.name, asset, length, rate, id));
    let at = track_time(tl, i, loc.child_index as int);
    match roomy_track(tl, i, over, at, length, rate, 0) {
        Some(k) => {
            let t = track_at(tl, k)->0;
            Ok(
                (
                    with_track(
                        tl,
                        k,
                        with_children(t, overlaid(t.children, over, at, length, rate)->0),
                    ),
                    overlay_note(c.name, t.name, asset, length),
                ),
            )
        },
        None => {
            let t = empty_track(next_video_name(tl), TrackKind::Video);
            match overlaid(t.children, over, at, length, rate) {
                None => Err(bad(index, "broll: failed to insert on fresh overlay track"@)),
                Some(children) => Ok(
                    (
                        with_layers(
                            tl,
                            tl.tracks.children.push(
                                StackChildModel::Track(with_children(t, children)),
                            ),
                        ),
                        overlay_note(c.name, t.name, asset, length),
                    ),
                ),
            }
        },
    }
}

/// The line that says where b-roll went.
pub open spec fn overlay_note(over: Str, track: Str, asset: Str, length: Num) -> Str {
    "inserted b-roll over "@ + quoted(over) + " on overlay track "@ + track + ": asset="@ + quoted(
        asset,
    ) + " duration="@ + milli3(length) + "s (overlay)"@
}

/// Putting b-roll over the start of a clip.
pub open spec fn broll_inserted(
    tl: TimelineModel,
    index: usize,
    asset: Str,
    duration_s: Num,
    position: BRollPosition,
    locator: Option<ClipLocator>,
    ids: Seq<Str>,
) -> Done {
    if !duration_s.is_finite() || duration_s.at_most(zero()) {
        Err(bad(index, "broll duration "@ + shown(duration_s) + " must be > 0"@))
    } else {
        match found_clip(tl, index, locator, "broll: "@) {
            Err(e) => Err(e),
            Ok((loc, c)) => if c.source_range is None {
                Err(bad(index, "broll: anchor clip has no source_range"@))
            } else {
                match position {
                    BRollPosition::Replace => Ok(
                        broll_replaced(tl, loc, c, asset, duration_s, ids),
                    ),
                    BRollPosition::Overlay => broll_overlaid(
                        tl,
                        index,
                        loc,
                        c,
                        asset,
                        duration_s,
                        ids[0],
                    ),
                }
            },
        }
    }
}

fn replace_with_broll(
    working: Timeline,
    loc: ClipLocator,
    c: Clip,
    r: TimeRange,
    broll: Clip,
    asset: &str,
    length: Num,
    ids: &mut ClipIds,
    Ghost(from): Ghost<ClipIds>,
    Ghost(id): Ghost<Str>,
) -> (res: (Timeline, String))
    requires
        crate::edit::clip_at(working@, loc) == Some(c@),
        c@.source_range == Some(r),
        broll@ == broll_clip(c@.name, asset@, length, r.start_time.rate, id),
        drew(from, *old(ids), 1),
        fresh(from, *old(ids)) == seq![id],
    ensures
        drew(from, *final(ids), fresh(from, *final(ids)).len()),
        fresh(from, *final(ids)).len() > 0,
        (res.0@, res.1@) == broll_replaced(
            working@,
            loc,
            c@,
            asset@,
            length,
            fresh(from, *final(ids)),
        ),
{
    let ghost mid = *ids;
    let mut out = working;
    let mut t = out.track(loc.track_index).unwrap().copied();
    let size: usize = t.size();
    assert(loc.child_index < size);
    t.put(loc.child_index, TrackChild::Clip(broll));
    if length.less(r.duration.seconds) {
        let mut tail = c.copied();
        tail.name = cat2(c.name.as_str(), "-tail");
        tail.source_range = Some(
            TimeRange::seconds(
                r.start_time.seconds.plus(length),
                r.duration.seconds.minus(length),
                r.start_time.rate,
            ),
        );
        let tail_id = ids.draw();
        proof {
            lemma_drew(from, mid, *ids);
            assert(fresh(mid, *ids) =~= seq![tail_id@]);
        }
        stamp_clip_uuid(&mut tail, tail_id.as_str());
        t.insert(loc.child_index + 1, TrackChild::Clip(tail));
    }
    out.put_track(loc.track_index, t);
    let said = cat9(
        "inserted b-roll over ",
        quote(c.name.as_str()).as_str(),
        " on track ",
        count_usize(loc.track_index).as_str(),
        ": asset=",
        quote(asset).as_str(),
        " duration=",
        fix3(length).as_str(),
        "s (replace)",
    );
    (out, said)
}

fn note_overlay(over: &str, track: &str, asset: &str, length: Num) -> (r: String)
    ensures
        r@ == overlay_note(over@, track@, asset@, length),
{
    cat9(
        "inserted b-roll over ",
        quote(over).as_str(),
        " on overlay track ",
        track,
        ": asset=",
        quote(asset).as_str(),
        " duration=",
        fix3(length).as_str(),
        "s (overlay)",
    )
}

fn overlay_broll(
    working: Timeline,
    index: usize,
    loc: ClipLocator,
    c: &Clip,
    rate: Num,
    broll: Clip,
    asset: &str,
    length: Num,
    Ghost(id): Ghost<Str>,
) -> (res: Result<(Timeline, String), ApplyError>)
    requires
        c@.source_range is Some,
        rate == c@.source_range->0.start_time.rate,
        broll@ == broll_clip(c@.name, asset@, length, rate, id),
    ensures
        shows(res, broll_overlaid(working@, index, loc, c@, asset@, length, id)),
{
    let at = track_time_at(&working, loc.track_index, loc.child_index);
    let ghost over = TrackChildModel::Clip(broll@);
    let mut i: usize = 0;
    while i < working.tracks.children.len()
        invariant
            i <= working@.tracks.children.len(),
            at == track_time(working@, loc.track_index as int, loc.child_index as int),
            over == TrackChildModel::Clip(broll@),
            broll@ == broll_clip(c@.name, asset@, length, rate, id),
            rate == c@.source_range->0.start_time.rate,
            roomy_track(working@, loc.track_index as int, over, at, length, rate, 0)
                == roomy_track(
                working@,
                loc.track_index as int,
                over,
                at,
                length,
                rate,
                i as int,
            ),
        decreases working@.tracks.children.len() - i,
    {
        if i != loc.track_index {
            if let Some(t) = working.track(i) {
                if t.kind == TrackKind::Video {
                    let mut t = t.copied();
                    if insert_overlay_clip_at(
                        &mut t,
                        TrackChild::Clip(broll.copied()),
                        at,
                        length,
                        rate,
                    ) {
                        let said = note_overlay(c.name.as_str(), t.name.as_str(), asset, length);
                        let mut out = working;
                        out.put_track(i, t);
                        return Ok((out, said));
                    }
                }
            }
        }
        i = i + 1;
    }
    let name = next_video_track_name(&working);
    let mut t = Track::empty(name.as_str(), TrackKind::Video);
    if !insert_overlay_clip_at(&mut t, TrackChild::Clip(broll), at, length, rate) {
        return Err(invalid_str(index, "broll: failed to insert on fresh overlay track"));
    }
    let mut out = working;
    out.push_track(t);
    let said = note_overlay(c.name.as_str(), name.as_str(), asset, length);
    Ok((out, said))
}

/// Puts b-roll over the start of a clip.
pub fn apply_insert_broll(
    working: Timeline,
    index: usize,
    asset: &str,
    duration_s: Num,
    position: BRollPosition,
    locator: Option<ClipLocator>,
    ids: &mut ClipIds,
) -> (res: Result<(Timeline, String), ApplyError>)
    ensures
        drew(*old(ids), *final(ids), fresh(*old(ids), *final(ids)).len()),
        res is Ok ==> fresh(*old(ids), *final(ids)).len() > 0,
        shows(
            res,
            broll_inserted(
                working@,
                index,
                asset@,
                duration_s,
                position,
                locator,
                fresh(*old(ids), *final(ids)),
            ),
        ),
{
    if !duration_s.is_finite() || duration_s.at_most(zero()) {
        return Err(
            invalid(index, cat3("broll duration ", show(duration_s).as_str(), " must be > 0")),
        );
    }
    let (loc, c) = match find_clip(&working, index, locator, "broll: ") {
        Ok(p) => p,
        Err(e) => {
            return Err(e);
        },
    };
    let r = match c.source_range {
        Some(r) => r,
        None => {
            return Err(invalid_str(index, "broll: anchor clip has no source_range"));
        },
    };
    let rate = r.start_time.rate;
    let mut broll = Clip::empty(cat2("broll-from-", c.name.as_str()).as_str());
    broll.media_reference = MediaReference::External(ExternalReference::new(asset));
    broll.source_range = Some(TimeRange::seconds(zero(), duration_s, rate));
    let id = ids.draw();
    stamp_clip_uuid(&mut broll, id.as_str());
    let ghost from = *old(ids);
    assert(fresh(from, *ids) =~= seq![id@]);
    match position {
        BRollPosition::Replace => Ok(
            replace_with_broll(
                working,
                loc,
                c,
                r,
                broll,
                asset,
                duration_s,
                ids,
                Ghost(from),
                Ghost(id@),
            ),
        ),
        BRollPosition::Overlay => overlay_broll(
            working,
            index,
            loc,
            &c,
            rate,
            broll,
            asset,
            duration_s,
            Ghost(id@),
        ),
    }
}

// ---- picture in picture ---------------------------------------------------

/// Whether an asset is named by a path inside the project.
pub open spec fn project_asset_ok(index: usize, op: Str, asset: Str) -> Result<(), Refusal> {
    if is_blank(asset) || is_absolute(asset) || leads_up(asset) {
        Err(
            bad(
                index,
                op + ": asset must be a non-empty project-relative path without '..'"@,
            ),
        )
    } else {
        Ok(())
    }
}

/// Checks whether an asset is named by a path inside the project.
pub fn validate_project_relative_asset(index: usize, op_name: &str, asset: &str) -> (r: Result<
    (),
    ApplyError,
>)
    ensures
        checks(r, project_asset_ok(index, op_name@, asset@)),
{
    if blank(asset) || absolute(asset) || goes_up(asset) {
        return Err(
            invalid(
                index,
                cat2(
                    op_name,
                    ": asset must be a non-empty project-relative path without '..'",
                ),
            ),
        );
    }
    Ok(())
}

/// The word for a corner.
pub open spec fn corner_word(corner: PiPCorner) -> Str {
    match corner {
        PiPCorner::TopLeft => "top_left"@,
        PiPCorner::TopRight => "top_right"@,
        PiPCorner::BottomLeft => "bottom_left"@,
        PiPCorner::BottomRight => "bottom_right"@,
    }
}

/// The word for a corner.
pub fn pip_corner_str(corner: PiPCorner) -> (r: &'static str)
    ensures
        r@ == corner_word(corner),
{
    match corner {
        PiPCorner::TopLeft => "top_left",
        PiPCorner::TopRight => "top_right",
        PiPCorner::BottomLeft => "bottom_left",
        PiPCorner::BottomRight => "bottom_right",
    }
}

/// The clip shown small in a corner.
pub open spec fn with_corner(c: ClipModel, corner: PiPCorner, scale: Num, margin: Num) -> ClipModel {
    let m = put(Seq::empty(), "mode"@, Meta::Text("pip"@));
    let m = put(m, "corner"@, Meta::Text(corner_word(corner)));
    let m = put(m, "scale"@, number_meta(scale));
    let m = put(m, "margin_pct"@, number_meta(margin));
    with_sole_effect(c, effect_of(VIDEO_OVERLAY@, m))
}

/// Shows a clip small in a corner.
pub fn stamp_video_overlay_effect(clip: &mut Clip, corner: PiPCorner, scale: Num, margin: Num)
    ensures
        final(clip)@ == with_corner(old(clip)@, corner, scale, margin),
{
    let m = MetaMap::new().with("mode", MetaValue::text("pip")).with(
        "corner",
        MetaValue::text(pip_corner_str(corner)),
    ).with("scale", MetaValue::number(scale)).with("margin_pct", MetaValue::number(margin));
    set_effect(clip, Effect::new(VIDEO_OVERLAY, m));
}

/// What is asked of a picture in the picture.
#[derive(Debug)]
pub struct PipRequest {
    pub asset: String,
    pub duration_s: Num,
    pub source_start_s: Num,
    pub corner: PiPCorner,
    pub scale: Num,
    pub margin_pct: Num,
}

/// The least scale.
#[verifier::allow_in_spec]
pub fn least_scale() -> Num
    returns
        Num::Fin(100_000_000_000_000),
{
    Num::Fin(100_000_000_000_000)
}

/// The largest scale.
#[verifier::allow_in_spec]
pub fn largest_scale() -> Num
    returns
        Num::Fin(600_000_000_000_000),
{
    Num::Fin(600_000_000_000_000)
}

/// The largest margin.
#[verifier::allow_in_spec]
pub fn largest_margin() -> Num
    returns
        Num::Fin(150_000_000_000_000),
{
    Num::Fin(150_000_000_000_000)
}

/// Whether a picture in the picture can be made as asked for.
pub open spec fn pip_ok(index: usize, q: PipRequest) -> Result<(), Refusal> {
    match project_asset_ok(index, "insert_pip"@, q.asset@) {
        Err(e) => Err(e),
        Ok(_) => if !q.duration_s.is_finite() || q.duration_s.at_most(zero()) {
            Err(bad(index, "insert_pip: duration_s "@ + shown(q.duration_s) + " must be > 0"@))
        } else if !q.source_start_s.is_finite() || q.source_start_s.less(zero()) {
            Err(
                bad(
                    index,
                    "insert_pip: source_start_s "@ + shown(q.source_start_s)
                        + " must be >= 0"@,
                ),
            )
        } else if !q.scale.is_finite() || !(least_scale().at_most(q.scale) && q.scale.at_most(
            largest_scale(),
        )) {
            Err(
                bad(
                    index,
                    "insert_pip: scale "@ + shown(q.scale)
                        + " must be in range 0.10..=0.60"@,
                ),
            )
        } else if !q.margin_pct.is_finite() || !(zero().at_most(q.margin_pct)
            && q.margin_pct.at_most(largest_margin())) {
            Err(
                bad(
                    index,
                    "insert_pip: margin_pct "@ + shown(q.margin_pct)
                        + " must be in range 0.0..=0.15"@,
                ),
            )
        } else {
            Ok(())
        },
    }
}

fn check_pip(index: usize, q: &PipRequest) -> (r: Result<(), ApplyError>)
    ensures
        checks(r, pip_ok(index, *q)),
{
    if let Err(e) = validate_project_relative_asset(index, "insert_pip", q.asset.as_str()) {
        return Err(e);
    }
    if !q.duration_s.is_finite() || q.duration_s.at_most(zero()) {
        return Err(
            invalid(
                index,
                cat3("insert_pip: duration_s ", show(q.duration_s).as_str(), " must be > 0"),
            ),
        );
    }
    if !q.source_start_s.is_finite() || q.source_start_s.less(zero()) {
        return Err(
            invalid(
                index,
                cat3(
                    "insert_pip: source_start_s ",
                    show(q.source_start_s).as_str(),
                    " must be >= 0",
                ),
            ),
        );
    }
    if !q.scale.is_finite() || !(least_scale().at_most(q.scale) && q.scale.at_most(
        largest_scale(),
    )) {
        return Err(
            invalid(
                index,
                cat3(
                    "insert_pip: scale ",
                    show(q.scale).as_str(),
                    " must be in range 0.10..=0.60",
                ),
            ),
        );
    }
    if !q.margin_pct.is_finite() || !(zero().at_most(q.margin_pct) && q.margin_pct.at_most(
        largest_margin(),
    )) {
        return Err(
            invalid(
                index,
                cat3(
                    "insert_pip: margin_pct ",
                    show(q.margin_pct).as_str(),
                    " must be in range 0.0..=0.15",
                ),
            ),
        );
    }
    Ok(())
}

/// The first video track but for one, from layer `i` on.
pub open spec fn other_video(tl: TimelineModel, but: int, i: int) -> Option<int>
    decreases tl.tracks.children.len() - i,
{
    if i < 0 || i >= tl.tracks.children.len() {
        None
    } else if i != but && (track_at(tl, i) matches Some(t) && t.kind == TrackKind::Video) {
        Some(i)
    } else {
        other_video(tl, but, i + 1)
    }
}

/// The timeline with a video track but for one, which is put behind the others
/// where there is none, and its place.
pub open spec fn with_other_video(tl: TimelineModel, but: int) -> (TimelineModel, int) {
    match other_video(tl, but, 0) {
        Some(i) => (tl, i),
        None => (
            with_layers(
                tl,
                tl.tracks.children.push(
                    StackChildModel::Track(empty_track(next_video_name(tl), TrackKind::Video)),
                ),
            ),
            tl.tracks.children.len() as int,
        ),
    }
}

fn find_or_add_video(working: Timeline, but: usize) -> (r: (Timeline, usize))
    ensures
        (r.0@, r.1 as int) == with_other_video(working@, but as int),
        r.1 < r.0@.tracks.children.len(),
        track_at(r.0@, r.1 as int) is Some,
{
    let mut i: usize = 0;
    while i < working.tracks.children.len()
        invariant
            i <= working@.tracks.children.len(),
            other_video(working@, but as int, 0) == other_video(
                working@,
                but as int,
                i as int,
            ),
        decreases working@.tracks.children.len() - i,
    {
        if i != but {
            if let Some(t) = working.track(i) {
                if t.kind == TrackKind::Video {
                    return (working, i);
                }
            }
        }
        i = i + 1;
    }
    let name = next_video_track_name(&working);
    let mut out = working;
    let k: usize = out.size();
    out.push_track(Track::empty(name.as_str(), TrackKind::Video));
    (out, k)
}

/// The new clip that is shown small.
pub open spec fn pip_clip(over: Str, q: PipRequest, rate: Num, id: Str) -> ClipModel {
    with_corner(
        with_uuid(
            ClipModel {
                media_reference: media_at(q.asset@),
                source_range: Some(TimeRange::seconds(q.source_start_s, q.duration_s, rate)),
                ..empty_clip("pip-from-"@ + over)
            },
            id,
        ),
        q.corner,
        q.scale,
        q.margin_pct,
    )
}

/// Putting a clip that is shown small on another video track: behind all that is
/// there, and not before the start of the clip that it goes with.
pub open spec fn pip_inserted(
    tl: TimelineModel,
    index: usize,
    q: PipRequest,
    locator: Option<ClipLocator>,
    id: Str,
) -> Done {
    match pip_ok(index, q) {
        Err(e) => Err(e),
        Ok(_) => match found_clip(tl, index, locator, "insert_pip: "@) {
            Err(e) => Err(e),
            Ok((loc, c)) => match c.source_range {
                None => Err(bad(index, "insert_pip: anchor clip has no source_range"@)),
                Some(r) => {
                    let rate = r.start_time.rate;
                    let i = loc.track_index as int;
                    let clip = TrackChildModel::Clip(pip_clip(c.name, q, rate, id));
                    let (tl, k) = with_other_video(tl, i);
                    let at = track_time(tl, i, loc.child_index as int);
                    let t = track_at(tl, k)->0;
                    let end = track_seconds(t);
                    let children = if end.less(at) {
                        t.children.push(gap_of(at.minus(end), rate)).push(clip)
                    } else {
                        t.children.push(clip)
                    };
                    Ok(
                        (
                            with_track(tl, k, with_children(t, children)),
                            "inserted PiP over "@ + quoted(c.name) + " on overlay track "@ + t.name
                                + ": asset="@ + quoted(q.asset@) + " source_start="@ + milli3(
                                q.source_start_s,
                            ) + "s duration="@ + milli3(q.duration_s) + "s corner="@ + corner_word(
                                q.corner,
                            ),
                        ),
                    )
                },
            },
        },
    }
}

/// Puts a clip that is shown small on another video track.
pub fn apply_insert_pip(
    working: Timeline,
    index: usize,
    q: &PipRequest,
    locator: Option<ClipLocator>,
    ids: &mut ClipIds,
) -> (res: Result<(Timeline, String), ApplyError>)
    ensures
        drew(
            *old(ids),
            *final(ids),
            if res is Ok {
                1
            } else {
                0
            },
        ),
        shows(
            res,
            pip_inserted(working@, index, *q, locator, fresh(*old(ids), *final(ids))[0]),
        ),
{
    if let Err(e) = check_pip(index, q) {
        return Err(e);
    }
    let (loc, c) = match find_clip(&working, index, locator, "insert_pip: ") {
        Ok(p) => p,
        Err(e) => {
            return Err(e);
        },
    };
    let r = match c.source_range {
        Some(r) => r,
        None => {
            return Err(invalid_str(index, "insert_pip: anchor clip has no source_range"));
        },
    };
    let rate = r.start_time.rate;
    let mut pip = Clip::empty(cat2("pip-from-", c.name.as_str()).as_str());
    pip.media_reference = MediaReference::External(ExternalReference::new(q.asset.as_str()));
    pip.source_range = Some(TimeRange::seconds(q.source_start_s, q.duration_s, rate));
    let id = ids.draw();
    stamp_clip_uuid(&mut pip, id.as_str());
    stamp_video_overlay_effect(&mut pip, q.corner, q.scale, q.margin_pct);
    let (out, k) = find_or_add_video(working, loc.track_index);
    let mut out = out;
    let at = track_time_at(&out, loc.track_index, loc.child_index);
    let mut t = out.track(k).unwrap().copied();
    let end = track_cursor(&t);
    if end.less(at) {
        t.push(gap_child(at.minus(end), rate));
    }
    t.push(TrackChild::Clip(pip));
    let said = cat11(
        "inserted PiP over ",
        quote(c.name.as_str()).as_str(),
        " on overlay track ",
        t.name.as_str(),
        ": asset=",
        quote(q.asset.as_str()).as_str(),
        " source_start=",
        fix3(q.source_start_s).as_str(),
        "s duration=",
        fix3(q.duration_s).as_str(),
        "s corner=",
    );
    out.put_track(k, t);
    Ok((out, cat2(said.as_str(), pip_corner_str(q.corner))))
}

} // verus!

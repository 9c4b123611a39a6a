//! Where new clips go, and what they hold.
use vstd::prelude::*;

use crate::carve::{appended, overwritten, overwritten_children, overwriting_clip};
use crate::clip::{first_where, lemma_first_where, link_group_of, uuid_of};
use crate::edit::{start_of, track_at};
use crate::error::Refusal;
use crate::insert::{
    default_name, in_group, inferred_kind, insert_place, inserted_clip, linked_start_from, new_clip,
    padded_to, with_track_named, InsertRequestModel,
};
use crate::laws::law_put_then_lookup;
use crate::measures::{
    first, first_linked, has_row, last, law_first_linked_is_found, law_starts_add_up, least,
    lemma_onset_front, length, most, none_linked, onset, plain, row, thousandth, tick,
};
use crate::model::{MediaReferenceModel, TimelineModel, TrackChildModel, TrackKind, TrackModel};
use crate::move_laws::law_insert_begins_on_time_or_at_the_edge_before;
use crate::num::Num;
use crate::op::{InsertTrackKind, SourceRange};
use crate::playback::{lemma_onsets, lemma_steady, shown_at, steady, whole};
use crate::snap::snapped;
use crate::stretch_laws::{cuts_plainly, law_overwrite_shows_the_new_clip};
use crate::path::file_stem;
use crate::text::{is_blank, lowered, trimmed, Str};
use crate::track_laws::{first_named, law_first_named_is_found, none_named};
use crate::trim_laws::{asked, usable};

verus! {

// ---- the track ------------------------------------------------------------------------

/// What stands on the track of a name: nothing, where it has to be made first.
pub open spec fn standing(tl: TimelineModel, name: Str, k: int) -> Seq<TrackChildModel> {
    if first_named(tl, name, k) {
        row(tl, k)
    } else {
        Seq::empty()
    }
}

/// Whether a place is that of the first track of a name, or of the one that is made
/// behind all layers where there is none.
pub open spec fn place_of(tl: TimelineModel, name: Str, k: int) -> bool {
    first_named(tl, name, k) || (none_named(tl, name) && k == tl.tracks.children.len())
}

/// Whether only the track at a place has changed, or been made behind all others.
pub open spec fn only_track(tl: TimelineModel, out: TimelineModel, name: Str, k: int) -> bool {
    &&& has_row(out, k)
    &&& out.tracks.children[k]->Track_0.name == name
    &&& has_row(tl, k) ==> out.tracks.children[k]->Track_0.kind
        == tl.tracks.children[k]->Track_0.kind
    &&& out.tracks.children.len() == most(tl.tracks.children.len() as int, k + 1)
    &&& forall|s: int|
        0 <= s < tl.tracks.children.len() && s != k ==> #[trigger] out.tracks.children[s]
            == tl.tracks.children[s]
    &&& out.montage == tl.montage
}

proof fn lemma_named_place(tl: TimelineModel, name: Str, kind: TrackKind, k: int)
    requires
        place_of(tl, name, k),
    ensures
        ({
            let (made, i) = with_track_named(tl, name, kind);
            &&& i == k
            &&& only_track(tl, made, name, k)
            &&& row(made, k) == standing(tl, name, k)
            &&& track_at(made, k) == Some(made.tracks.children[k]->Track_0)
            &&& none_named(tl, name) ==> made.tracks.children[k]->Track_0.kind == kind
            &&& forall|s: int|
                0 <= s < tl.tracks.children.len() ==> #[trigger] made.tracks.children[s]
                    == tl.tracks.children[s]
        }),
{
    law_first_named_is_found(tl, name);
    if first_named(tl, name, k) {
        assert(!none_named(tl, name)) by {
            assert(tl.tracks.children[k] is Track);
        }
    }
}

// ---- the picture that sound goes with ---------------------------------------------------

/// Whether the first clip of a link group, on the first track of a kind that has one,
/// stands on a layer and a place there.
pub open spec fn leads(
    tl: TimelineModel,
    group: Str,
    kind: TrackKind,
    from: int,
    s: int,
    k: int,
) -> bool {
    &&& from <= s
    &&& has_row(tl, s)
    &&& tl.tracks.children[s]->Track_0.kind == kind
    &&& first_linked(row(tl, s), group, k)
    &&& forall|x: int|
        from <= x < s && (#[trigger] tl.tracks.children[x]) is Track
            && tl.tracks.children[x]->Track_0.kind == kind ==> none_linked(row(tl, x), group)
}

/// The start that is found for a link group is that of its first clip on the first
/// track of the kind that has one.
pub proof fn law_linked_start_is_the_first(
    tl: TimelineModel,
    group: Str,
    kind: TrackKind,
    from: int,
)
    requires
        0 <= from <= tl.tracks.children.len(),
    ensures
        match linked_start_from(tl, group, kind, from) {
            Some(t) => exists|s: int, k: int| #[trigger]
                leads(tl, group, kind, from, s, k) && t == start_of(row(tl, s), k),
            None => forall|s: int|
                from <= s < tl.tracks.children.len() && (#[trigger] tl.tracks.children[s]) is Track
                    && tl.tracks.children[s]->Track_0.kind == kind ==> none_linked(
                    row(tl, s),
                    group,
                ),
        },
    decreases tl.tracks.children.len() - from,
{
    if from < tl.tracks.children.len() {
        law_linked_start_is_the_first(tl, group, kind, from + 1);
        if has_row(tl, from) {
            law_first_linked_is_found(row(tl, from), group);
            lemma_first_where(row(tl, from), in_group(group), 0);
        }
        if has_row(tl, from) && tl.tracks.children[from]->Track_0.kind == kind && !none_linked(
            row(tl, from),
            group,
        ) {
            let k = first_where(row(tl, from), in_group(group), 0)->0;
            assert(leads(tl, group, kind, from, from, k));
        } else if let Some(t) = linked_start_from(tl, group, kind, from + 1) {
            let (s, k) = choose|s: int, k: int| #[trigger]
                leads(tl, group, kind, from + 1, s, k) && t == start_of(row(tl, s), k);
            assert(leads(tl, group, kind, from, s, k));
        }
    }
}

// ---- inserts ------------------------------------------------------------------------------

/// Whether a child is a new clip: of an asset, with a stretch of it, under an id and,
/// if asked for, a name and a link group.
pub open spec fn is_new_clip(
    x: TrackChildModel,
    asset: Str,
    from: int,
    to: int,
    id: Str,
    name: Option<Str>,
    group: Option<Str>,
) -> bool {
    match x {
        TrackChildModel::Clip(c) => {
            &&& c.media_reference matches MediaReferenceModel::External(e) && e.target_url == asset
                && e.available_range is None
            &&& c.source_range matches Some(r) && plain(r) && first(r) == from && last(r) == to
            &&& uuid_of(c) == Some(id)
            &&& link_group_of(c) == group
            &&& name matches Some(n) ==> c.name == n
            &&& c.effects.len() == 0
            &&& c.markers.len() == 0
        },
        _ => false,
    }
}

proof fn lemma_new_clip(
    name: Str,
    asset: Str,
    start: Num,
    end: Num,
    id: Str,
    group: Option<Str>,
)
    requires
        start is Fin,
        end is Fin,
        0 <= tick(start) < tick(end),
    ensures
        is_new_clip(
            TrackChildModel::Clip(new_clip(name, asset, start, end, id, group)),
            asset,
            tick(start),
            tick(end),
            id,
            Some(name),
            group,
        ),
{
    reveal_strlit("clip_uuid");
    reveal_strlit("link_group_id");
    assert("clip_uuid"@.len() != "link_group_id"@.len());
    let none = Seq::<(Str, crate::meta::Meta)>::empty();
    let id_ = crate::meta::Meta::Text(id);
    law_put_then_lookup(none, "clip_uuid"@, id_, "clip_uuid"@);
    law_put_then_lookup(none, "clip_uuid"@, id_, "link_group_id"@);
    let one = crate::meta::put(none, "clip_uuid"@, id_);
    if let Some(g) = group {
        let g_ = crate::meta::Meta::Text(g);
        law_put_then_lookup(one, "link_group_id"@, g_, "link_group_id"@);
        law_put_then_lookup(one, "link_group_id"@, g_, "clip_uuid"@);
    }
}

/// One second.
pub open spec fn second() -> int {
    1_000_000_000_000_000
}

/// Whether a clip has been put among others at a place, perhaps behind empty time that
/// was put at their end.
pub open spec fn put_in(
    before: Seq<TrackChildModel>,
    after: Seq<TrackChildModel>,
    place: int,
) -> bool {
    let rest = after.remove(place);
    &&& 0 <= place < after.len()
    &&& rest == before || (rest.len() == before.len() + 1 && rest.drop_last() == before
        && rest.last() is Gap && place >= before.len())
}

/// A clip is put in exactly where the stretch asked for has a length and the time, if
/// one is asked for, can be counted and is not before zero.  It shows the stretch of
/// the asset that was asked for, from zero and for a second where that is left open.
/// It goes to the first track of the name, which is made where there is none; there to
/// the time asked for, else to the position asked for, else to the end.
#[verifier::rlimit(60)]
#[verifier::spinoff_prover]
pub proof fn law_insert_puts_the_clip_where_asked(
    tl: TimelineModel,
    index: usize,
    q: InsertRequestModel,
    id: Str,
    at: Option<Num>,
    k: int,
)
    requires
        place_of(tl, q.track, k),
        usable(q.start),
        usable(q.end),
        asked(q.start, 0) + second() <= i128::MAX,
        q.at_s is None ==> at is None,
        q.at_s matches Some(t) ==> at is Some && snapped(tl, index, t, q.snap) == Ok::<Num, Refusal>(
            at->0,
        ),
        steady(standing(tl, q.track, k)),
        at matches Some(t) ==> t is Fin ==> whole(standing(tl, q.track, k)) + tick(t) <= i128::MAX,
    ensures
        ({
            let from = asked(q.start, 0);
            let to = asked(q.end, from + second());
            let before = standing(tl, q.track, k);
            match inserted_clip(tl, index, q, id) {
                Ok((out, _)) => {
                    let after = row(out, k);
                    &&& from < to
                    &&& at matches Some(t) ==> t is Fin && 0 <= tick(t)
                    &&& only_track(tl, out, q.track, k)
                    &&& none_named(tl, q.track) ==> out.tracks.children[k]->Track_0.kind
                        == inferred_kind(q.track, q.track_kind)
                    &&& exists|place: int| #[trigger]
                        put_in(before, after, place) && {
                            &&& is_new_clip(
                                after[place],
                                q.asset,
                                from,
                                to,
                                id,
                                q.name,
                                q.link_group_id,
                            )
                            &&& q.name is None ==> after[place]->Clip_0.name == default_name(
                                TrackModel {
                                    children: after.remove(place),
                                    ..out.tracks.children[k]->Track_0
                                },
                                q.asset,
                            )
                            &&& at is None && q.at_position is Some ==> place == least(
                                q.at_position->0 as int,
                                before.len() as int,
                            ) && after.len() == before.len() + 1
                            &&& at is None && q.at_position is None ==> place == after.len() - 1
                            &&& at is None && q.link_group_id is None ==> after.len()
                                == before.len() + 1
                            &&& at matches Some(t) ==> {
                                ||| -thousandth() <= onset(after, place) - tick(t) <= thousandth()
                                ||| place < before.len() && onset(before, place) <= tick(t)
                                    < onset(before, place + 1)
                            }
                        }
                },
                Err(_) => to <= from || (at matches Some(t) && (t !is Fin || tick(t) < 0)),
            }
        }),
{
    let kind = inferred_kind(q.track, q.track_kind);
    lemma_named_place(tl, q.track, kind, k);
    let made = with_track_named(tl, q.track, kind).0;
    let t = made.tracks.children[k]->Track_0;
    let before = standing(tl, q.track, k);
    let from = asked(q.start, 0);
    let to = asked(q.end, from + second());
    if let Ok((out, _)) = inserted_clip(tl, index, q, id) {
        let linked_start = match q.link_group_id {
            Some(g) if q.at_position is None && at is None && t.kind == TrackKind::Audio =>
                linked_start_from(made, g, TrackKind::Video, 0),
            _ => None,
        };
        let (filled, place) = insert_place(before, at, linked_start, q.at_position);
        let name = match q.name {
            Some(n) => n,
            None => default_name(TrackModel { children: filled, ..t }, q.asset),
        };
        let c = new_clip(
            name,
            q.asset,
            Num::Fin(from as i128),
            Num::Fin(to as i128),
            id,
            q.link_group_id,
        );
        lemma_new_clip(
            name,
            q.asset,
            Num::Fin(from as i128),
            Num::Fin(to as i128),
            id,
            q.link_group_id,
        );
        let after = row(out, k);
        assert(after == filled.insert(place, TrackChildModel::Clip(c)));
        lemma_steady(before);
        lemma_place(before, at, linked_start, q.at_position);
        assert(after.remove(place) =~= filled);
        lemma_onset_front(after, filled, place);
        assert(put_in(before, after, place));
        assert(TrackModel { children: filled, ..out.tracks.children[k]->Track_0 } == TrackModel {
            children: filled,
            ..t
        });
    }
}

proof fn lemma_place(
    before: Seq<TrackChildModel>,
    at: Option<Num>,
    linked_start: Option<Num>,
    at_position: Option<usize>,
)
    requires
        steady(before),
        crate::time_laws::on_clock(before),
        at matches Some(t) ==> t is Fin && 0 <= tick(t) && whole(before) + tick(t) <= i128::MAX,
        at is Some || at_position is Some ==> linked_start is None,
    ensures
        ({
            let (filled, place) = insert_place(before, at, linked_start, at_position);
            &&& 0 <= place <= filled.len()
            &&& filled == before || (filled.len() == before.len() + 1 && filled.drop_last() == before
                && filled.last() is Gap && place >= before.len())
            &&& at is None && at_position is Some ==> place == least(
                at_position->0 as int,
                before.len() as int,
            )
            &&& at is None && at_position is None ==> place == filled.len()
            &&& at is None && linked_start is None ==> filled == before
            &&& at matches Some(t) ==> {
                ||| -thousandth() <= onset(filled, place) - tick(t) <= thousandth()
                ||| place < before.len() && onset(before, place) <= tick(t) < onset(
                    before,
                    place + 1,
                )
            }
        }),
{
    let n = before.len() as int;
    let (filled, place) = insert_place(before, at, linked_start, at_position);
    law_starts_add_up(before, n);
    lemma_onsets(before, 0, n);
    if filled != before {
        assert(filled.drop_last() =~= before);
    }
    if let Some(t) = at {
        law_insert_begins_on_time_or_at_the_edge_before(before, t);
        assert(filled == before || filled == padded_to(before, t));
        if filled == before {
            if place <= n {
                law_starts_add_up(before, place);
            }
            if place < n {
                law_starts_add_up(before, place + 1);
            }
        } else {
            assert(place == n + 1);
            lemma_onset_front(filled, before, n);
            assert(onset(filled, n + 1) == onset(filled, n) + length(filled[n]));
        }
    }
}

/// Sound that is linked to a picture, and put at no time and no position of its own,
/// begins with the picture: a track that ends before that is filled up with empty
/// time, to within a thousandth.
pub proof fn law_linked_sound_waits_for_its_picture(
    tl: TimelineModel,
    index: usize,
    q: InsertRequestModel,
    id: Str,
    k: int,
    s: int,
    j: int,
    group: Str,
)
    requires
        first_named(tl, q.track, k),
        tl.tracks.children[k]->Track_0.kind == TrackKind::Audio,
        q.link_group_id == Some(group),
        q.at_s is None,
        q.at_position is None,
        inserted_clip(tl, index, q, id) is Ok,
        steady(row(tl, k)),
        leads(tl, group, TrackKind::Video, 0, s, j),
        steady(row(tl, s)),
    ensures
        ({
            let out = inserted_clip(tl, index, q, id)->Ok_0.0;
            let after = row(out, k);
            let due = most(onset(row(tl, s), j), whole(row(tl, k)));
            due - thousandth() <= onset(after, after.len() - 1) <= due
        }),
{
    let kind = inferred_kind(q.track, q.track_kind);
    lemma_named_place(tl, q.track, kind, k);
    law_linked_start_is_the_first(tl, group, TrackKind::Video, 0);
    assert(tl.tracks.children[s] is Track);
    assert(!none_linked(row(tl, s), group)) by {
        assert(crate::measures::linked(row(tl, s)[j], group));
    }
    let v = linked_start_from(tl, group, TrackKind::Video, 0)->0;
    assert(linked_start_from(tl, group, TrackKind::Video, 0) is Some);
    let (s2, j2) = choose|s2: int, j2: int| #[trigger]
        leads(tl, group, TrackKind::Video, 0, s2, j2) && v == start_of(row(tl, s2), j2);
    assert(tl.tracks.children[s2] is Track);
    assert(!none_linked(row(tl, s2), group)) by {
        assert(crate::measures::linked(row(tl, s2)[j2], group));
    }
    assert(s2 == s);
    law_first_linked_is_found(row(tl, s), group);
    assert(j2 == j);
    lemma_steady(row(tl, s));
    law_starts_add_up(row(tl, s), j);
    lemma_onsets(row(tl, s), 0, j);
    let before = row(tl, k);
    lemma_steady(before);
    law_starts_add_up(before, before.len() as int);
    lemma_onsets(before, 0, before.len() as int);
    let filled = padded_to(before, v);
    let out = inserted_clip(tl, index, q, id)->Ok_0.0;
    let after = row(out, k);
    let n = filled.len() as int;
    assert(after.len() == n + 1);
    assert forall|x: int| 0 <= x < n implies #[trigger] after[x] == filled[x] by {}
    lemma_onset_front(after, filled, n);
    if filled != before {
        lemma_onset_front(filled, before, before.len() as int);
        assert(onset(filled, n) == onset(filled, n - 1) + length(filled[n - 1]));
    }
}

/// A clip that is appended stands last on its track, and shows the stretch of the
/// asset that was asked for.
pub proof fn law_append_puts_the_clip_last(
    tl: TimelineModel,
    index: usize,
    track: Str,
    asset: Str,
    r: SourceRange,
    id: Str,
    k: int,
)
    requires
        place_of(tl, track, k),
        steady(standing(tl, track, k)),
    ensures
        ({
            let before = standing(tl, track, k);
            &&& appended(tl, index, track, asset, r, id) is Ok <==> {
                &&& r.start_s is Fin
                &&& r.end_s is Fin
                &&& 0 <= tick(r.start_s) < tick(r.end_s)
                &&& !is_blank(track)
                &&& !is_blank(asset)
            }
            &&& appended(tl, index, track, asset, r, id) matches Ok((out, _)) ==> {
                let after = row(out, k);
                &&& only_track(tl, out, track, k)
                &&& after.len() == before.len() + 1
                &&& after.drop_last() == before
                &&& is_new_clip(
                    after.last(),
                    asset,
                    tick(r.start_s),
                    tick(r.end_s),
                    id,
                    None,
                    None,
                )
            }
        }),
{
    let kind = inferred_kind(track, Some(InsertTrackKind::Auto));
    lemma_named_place(tl, track, kind, k);
    let before = standing(tl, track, k);
    if let Ok((out, _)) = appended(tl, index, track, asset, r, id) {
        let after = row(out, k);
        assert(after.drop_last() =~= before);
        let c = after.last();
        let name = default_name(
            TrackModel {
                children: before,
                ..with_track_named(tl, track, kind).0.tracks.children[k]->Track_0
            },
            asset,
        );
        lemma_new_clip(name, asset, r.start_s, r.end_s, id, None);
        assert(c == TrackChildModel::Clip(
            new_clip(name, asset, r.start_s, r.end_s, id, None),
        ));
    }
}

// ---- overwrites -------------------------------------------------------------------------

/// An overwrite is done exactly where the stretch has a length and a track and an asset
/// are named.  The track, which is made where there is none of the name, then shows the
/// asset from its beginning on throughout the stretch, and at all other times what it
/// did; no other track changes.
pub proof fn law_overwrite_shows_the_asset(
    tl: TimelineModel,
    index: usize,
    name: Str,
    r: SourceRange,
    asset: Str,
    ids: Seq<Str>,
    k: int,
    t: int,
)
    requires
        place_of(tl, name, k),
        cuts_plainly(standing(tl, name, k), r.start_s, r.end_s),
        whole(standing(tl, name, k)) + tick(r.end_s) <= i128::MAX,
    ensures
        ({
            let before = standing(tl, name, k);
            &&& overwritten(tl, index, name, r, asset, ids) is Ok <==> !is_blank(name) && !is_blank(
                asset,
            )
            &&& overwritten(tl, index, name, r, asset, ids) matches Ok((out, _)) ==> {
                let s = tick(r.start_s);
                let e = tick(r.end_s);
                &&& only_track(tl, out, name, k)
                &&& whole(row(out, k)) == most(whole(before), e)
                &&& s <= t < e ==> (shown_at(row(out, k), t) matches Some((m, at)) && at == t - s
                    && (m matches MediaReferenceModel::External(x) && x.target_url == asset
                    && x.available_range is None))
                &&& !(s <= t < e) ==> shown_at(row(out, k), t) == shown_at(before, t)
            }
        }),
{
    let kind = inferred_kind(name, Some(InsertTrackKind::Auto));
    lemma_named_place(tl, name, kind, k);
    let made = with_track_named(tl, name, kind).0;
    let track = made.tracks.children[k]->Track_0;
    let c = overwriting_clip(track, asset, r.end_s.minus(r.start_s), ids[0]);
    law_overwrite_shows_the_new_clip(track, r.start_s, r.end_s, c, ids.skip(1), t);
    if let Ok((out, _)) = overwritten(tl, index, name, r, asset, ids) {
        assert(row(out, k) == overwritten_children(
            track,
            r.start_s,
            r.end_s,
            c,
            ids.skip(1),
        ).children);
    }
}

/// Whether a text begins with another.
pub open spec fn opens_with(s: Str, p: Str) -> bool {
    s.len() >= p.len() && s.take(p.len() as int) == p
}

/// The kind of a track that is made for a clip is the one asked for; where that is left
/// open, it is for sound exactly where its name, in small letters and without white space
/// around it, says so.
pub proof fn law_kind_of_a_made_track(name: Str, hint: Option<InsertTrackKind>)
    ensures
        hint == Some(InsertTrackKind::Video) ==> inferred_kind(name, hint) == TrackKind::Video,
        hint == Some(InsertTrackKind::Audio) ==> inferred_kind(name, hint) == TrackKind::Audio,
        hint is None || hint == Some(InsertTrackKind::Auto) ==> (inferred_kind(name, hint)
            == TrackKind::Audio <==> {
            let n = lowered(trimmed(name));
            ||| n == "a1"@
            ||| opens_with(n, "a "@)
            ||| opens_with(n, "a-"@)
            ||| opens_with(n, "audio"@)
            ||| opens_with(n, "music"@)
        }),
{
}

/// A clip without a name of its own is called as its file is, where no clip on the track is
/// called so.
pub proof fn law_clip_is_called_as_its_file(t: TrackModel, asset: Str)
    requires
        file_stem(asset) is Some,
        trimmed(file_stem(asset)->0).len() > 0,
        forall|k: int|
            0 <= k < t.children.len() && (#[trigger] t.children[k]) is Clip
                ==> t.children[k]->Clip_0.name != trimmed(file_stem(asset)->0),
    ensures
        default_name(t, asset) == trimmed(file_stem(asset)->0),
{
    let name = trimmed(file_stem(asset)->0);
    let names = crate::insert::clip_names(t.children);
    if names.contains(Some(name)) {
        let k = choose|k: int| 0 <= k < names.len() && names[k] == Some(name);
        assert(t.children[k] is Clip);
    }
}

/// The clip that is written over a stretch shows its asset from the beginning on, for as
/// long as the stretch lasts, under the id that was drawn.
pub proof fn law_overwriting_clip_shows_its_asset(t: TrackModel, asset: Str, long: Num, id: Str)
    requires
        long is Fin,
        0 <= tick(long),
    ensures
        is_new_clip(
            TrackChildModel::Clip(overwriting_clip(t, asset, long, id)),
            asset,
            0,
            tick(long),
            id,
            None,
            None,
        ),
{
    reveal_strlit("clip_uuid");
    reveal_strlit("link_group_id");
    assert("clip_uuid"@.len() != "link_group_id"@.len());
    let id_ = crate::meta::Meta::Text(id);
    law_put_then_lookup(Seq::empty(), "clip_uuid"@, id_, "clip_uuid"@);
    law_put_then_lookup(Seq::empty(), "clip_uuid"@, id_, "link_group_id"@);
}

} // verus!

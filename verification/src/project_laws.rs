//! What edits of the project as a whole keep, and which of them are taken.
use vstd::prelude::*;

use crate::boundary::{keyed, put_boundary};
use crate::clip::{first_where, lemma_first_where};
use crate::docs::{
    animation_set, audio_finishing_set, catalog_set, color_finishing_set, composition_attached,
    document_stored, lens_set, readiness_set, reframe_authored, source_review_set, tracking_set,
    AnimationVerdict, ParameterAnimation, ReframeAnswer, Shelf,
};
use crate::edit::montage_of;
use crate::effect_laws::known_as;
use crate::laws::law_put_then_lookup;
use crate::measures::{has_clip, has_row, law_a_place_is_found, row, the_clip, tick};
use crate::meta::{lookup, put, Meta, Pairs};
use crate::model::{
    CutBoundaryModel, DocumentModel, MontageTimelineMetadataModel, SemanticCutSpecModel,
    StackChildModel, TimelineModel, TrackChildModel,
};
use crate::nested::{flat, flattened, wrapped};
use crate::num::Num;
use crate::op::BetweenPlaces;
use crate::output::{
    brand_kit_set, broadcast_overlay_set, entries_ok, loudness_set, odd_color, output_format_set,
    package_set, style_ok, BrandKit, BroadcastOverlayConfig, BroadcastOverlayStyle,
    BroadcastTimedEntry,
};
use crate::path::{is_absolute, leads_up};
use crate::professional::ripple_trim_done;
use crate::text::{is_blank, strs, trimmed, Str};
use crate::title::is_graphic_color;
use crate::track_laws::{first_named, law_first_named_is_found};
use crate::transition::{deleted_transition, set_cut};
use crate::transition_laws::at_a_cut;
use crate::trim::trimmed_clip;

verus! {

/// Whether nothing but what is kept of the project has changed, and that is kept under
/// some version.
pub open spec fn only_kept(tl: TimelineModel, out: TimelineModel) -> bool {
    &&& out.tracks == tl.tracks
    &&& out.name == tl.name
    &&& out.extra == tl.extra
    &&& out.montage is Some
    &&& out.montage->0.version.len() > 0
    &&& tl.montage matches Some(m) ==> (m.version.len() > 0 ==> out.montage->0.version == m.version)
}

/// Whether only one further entry of what is kept has changed.
pub open spec fn only_entry(
    tl: TimelineModel,
    out: TimelineModel,
    key: Str,
    value: Meta,
) -> bool {
    let n = out.montage->0;
    &&& only_kept(tl, out)
    &&& lookup(n.extra, key) == Some(value)
    &&& tl.montage matches Some(m) ==> {
        &&& n == (MontageTimelineMetadataModel { extra: n.extra, version: n.version, ..m })
        &&& forall|other: Str|
            other != key ==> #[trigger] lookup(n.extra, other) == lookup(m.extra, other)
    }
}

proof fn lemma_version(tl: TimelineModel)
    ensures
        montage_of(tl).version.len() > 0,
        tl.montage matches Some(m) ==> montage_of(tl) == (MontageTimelineMetadataModel {
            version: montage_of(tl).version,
            ..m
        }) && (m.version.len() > 0 ==> montage_of(tl).version == m.version),
{
    reveal_strlit("1");
}

proof fn lemma_entry(tl: TimelineModel, key: Str, value: Meta)
    ensures
        only_entry(tl, crate::output::with_extra(tl, key, value), key, value),
{
    lemma_version(tl);
    let out = crate::output::with_extra(tl, key, value);
    let m = montage_of(tl);
    law_put_then_lookup(m.extra, key, value, key);
    if let Some(was) = tl.montage {
        assert forall|other: Str| other != key implies #[trigger] lookup(
            out.montage->0.extra,
            other,
        ) == lookup(was.extra, other) by {
            law_put_then_lookup(m.extra, key, value, other);
        }
    }
}

// ---- output -------------------------------------------------------------------------------

/// A text, if any, as it is kept: nothing in its place where there is none.
pub open spec fn kept_text(s: Option<String>) -> Meta {
    match s {
        Some(t) => Meta::Text(t@),
        None => Meta::Null,
    }
}

/// The shape of the picture is kept exactly where it is one of four, with the platform
/// and the safe area that go with it.
pub proof fn law_shape_is_one_of_four(
    tl: TimelineModel,
    index: usize,
    aspect_ratio: Str,
    platform: Option<String>,
    safe_area: Option<String>,
)
    ensures
        ({
            let known = aspect_ratio == "16:9"@ || aspect_ratio == "9:16"@ || aspect_ratio
                == "1:1"@ || aspect_ratio == "4:5"@;
            match output_format_set(tl, index, aspect_ratio, platform, safe_area) {
                Ok((out, _)) => known && exists|m: Pairs| #[trigger]
                    only_entry(tl, out, "output_format"@, Meta::Object(m)) && lookup(
                        m,
                        "aspect_ratio"@,
                    ) == Some(Meta::Text(aspect_ratio)) && lookup(m, "platform"@) == Some(
                        kept_text(platform),
                    ) && lookup(m, "safe_area"@) == Some(kept_text(safe_area)),
                Err(_) => !known,
            }
        }),
{
    if let Ok((out, _)) = output_format_set(tl, index, aspect_ratio, platform, safe_area) {
        reveal_strlit("aspect_ratio");
        reveal_strlit("platform");
        reveal_strlit("safe_area");
        assert("aspect_ratio"@.len() == 12);
        assert("platform"@.len() == 8);
        assert("safe_area"@.len() == 9);
        let a = Meta::Text(aspect_ratio);
        let b = kept_text(platform);
        let c = kept_text(safe_area);
        let m1 = put(Seq::empty(), "aspect_ratio"@, a);
        let m2 = put(m1, "platform"@, b);
        let m3 = put(m2, "safe_area"@, c);
        law_put_then_lookup(Seq::empty(), "aspect_ratio"@, a, "aspect_ratio"@);
        law_put_then_lookup(m1, "platform"@, b, "aspect_ratio"@);
        law_put_then_lookup(m2, "safe_area"@, c, "aspect_ratio"@);
        law_put_then_lookup(m2, "safe_area"@, c, "platform"@);
        lemma_entry(tl, "output_format"@, Meta::Object(m3));
        assert(only_entry(tl, out, "output_format"@, Meta::Object(m3)));
    }
}

/// How loud the program is to be is kept exactly where its loudness is below zero and its
/// peak, if given, not above.
pub proof fn law_loudness_is_below_zero(
    tl: TimelineModel,
    index: usize,
    integrated_lufs: Num,
    true_peak_db: Option<Num>,
)
    ensures
        ({
            let fine = integrated_lufs is Fin && tick(integrated_lufs) < 0 && (
            true_peak_db matches Some(p) ==> p is Fin && tick(p) <= 0);
            match loudness_set(tl, index, integrated_lufs, true_peak_db) {
                Ok((out, _)) => fine && exists|m: Pairs| #[trigger]
                    only_entry(tl, out, "loudness_target"@, Meta::Object(m)) && lookup(
                        m,
                        "integrated_lufs"@,
                    ) == Some(Meta::Number(integrated_lufs)) && lookup(m, "true_peak_db"@) == Some(
                        match true_peak_db {
                            Some(p) => Meta::Number(p),
                            None => Meta::Null,
                        },
                    ),
                Err(_) => !fine,
            }
        }),
{
    if let Ok((out, _)) = loudness_set(tl, index, integrated_lufs, true_peak_db) {
        reveal_strlit("integrated_lufs");
        reveal_strlit("true_peak_db");
        assert("integrated_lufs"@.len() != "true_peak_db"@.len());
        let a = Meta::Number(integrated_lufs);
        let b = crate::output::number_or_null(true_peak_db);
        let m1 = put(Seq::empty(), "integrated_lufs"@, a);
        let m2 = put(m1, "true_peak_db"@, b);
        law_put_then_lookup(Seq::empty(), "integrated_lufs"@, a, "integrated_lufs"@);
        law_put_then_lookup(m1, "true_peak_db"@, b, "integrated_lufs"@);
        lemma_entry(tl, "loudness_target"@, Meta::Object(m2));
        assert(only_entry(tl, out, "loudness_target"@, Meta::Object(m2)));
    }
}

/// How the program is announced is kept exactly where something is given, each part under
/// its own name.
pub proof fn law_announcement_says_something(
    tl: TimelineModel,
    index: usize,
    platform: Option<String>,
    title: Option<String>,
    description: Option<String>,
    tags: Option<String>,
)
    ensures
        ({
            let given = platform is Some || title is Some || description is Some || tags is Some;
            match package_set(tl, index, platform, title, description, tags) {
                Ok((out, _)) => given && exists|m: Pairs| #[trigger]
                    only_entry(tl, out, "package_metadata"@, Meta::Object(m)) && lookup(
                        m,
                        "platform"@,
                    ) == Some(kept_text(platform)) && lookup(m, "title"@) == Some(kept_text(title))
                        && lookup(m, "description"@) == Some(kept_text(description)) && lookup(
                        m,
                        "tags"@,
                    ) == Some(kept_text(tags)),
                Err(_) => !given,
            }
        }),
{
    if let Ok((out, _)) = package_set(tl, index, platform, title, description, tags) {
        reveal_strlit("platform");
        reveal_strlit("title");
        reveal_strlit("description");
        reveal_strlit("tags");
        assert("platform"@.len() == 8);
        assert("title"@.len() == 5);
        assert("description"@.len() == 11);
        assert("tags"@.len() == 4);
        let a = kept_text(platform);
        let b = kept_text(title);
        let c = kept_text(description);
        let d = kept_text(tags);
        let m1 = put(Seq::empty(), "platform"@, a);
        let m2 = put(m1, "title"@, b);
        let m3 = put(m2, "description"@, c);
        let m4 = put(m3, "tags"@, d);
        law_put_then_lookup(Seq::empty(), "platform"@, a, "platform"@);
        law_put_then_lookup(m1, "title"@, b, "platform"@);
        law_put_then_lookup(m2, "description"@, c, "platform"@);
        law_put_then_lookup(m3, "tags"@, d, "platform"@);
        law_put_then_lookup(m2, "description"@, c, "title"@);
        law_put_then_lookup(m3, "tags"@, d, "title"@);
        law_put_then_lookup(m3, "tags"@, d, "description"@);
        lemma_entry(tl, "package_metadata"@, Meta::Object(m4));
        assert(only_entry(tl, out, "package_metadata"@, Meta::Object(m4)));
    }
}

// ---- overlays and brands --------------------------------------------------------------------

/// Whether a number can be counted and is more than zero.
pub open spec fn some_time(x: Num) -> bool {
    x is Fin && 0 < tick(x)
}

/// A style of the broadcast overlay is taken exactly where all its lengths and sizes are
/// more than zero, the title fades out no later than it is seen and is seen for longer
/// than it takes to fade in, and the hosts are introduced for some time.
pub proof fn law_style_is_in_order(index: usize, s: BroadcastOverlayStyle)
    ensures
        style_ok(index, s) is Ok <==> {
            &&& some_time(s.title_fade_in_end)
            &&& some_time(s.title_visible_end)
            &&& some_time(s.host_intro_end)
            &&& some_time(s.ticker_sponsor_duration)
            &&& some_time(s.ticker_fade_duration)
            &&& some_time(s.ticker_topic_duration)
            &&& some_time(s.chapter_display_duration)
            &&& some_time(s.name_bar_height)
            &&& some_time(s.ticker_height)
            &&& some_time(s.host_strip_height)
            &&& s.title_fade_out_start is Fin && 0 <= tick(s.title_fade_out_start)
            &&& s.host_intro_start is Fin && 0 <= tick(s.host_intro_start)
            &&& tick(s.title_fade_in_end) < tick(s.title_visible_end)
            &&& tick(s.title_fade_out_start) <= tick(s.title_visible_end)
            &&& tick(s.host_intro_start) < tick(s.host_intro_end)
        },
{
}

/// Whether a path, if any, names something in the project.
pub open spec fn in_project(p: Option<String>) -> bool {
    p matches Some(s) ==> !is_blank(s@) && !is_absolute(s@) && !leads_up(s@)
}

proof fn lemma_entries(
    index: usize,
    field: Str,
    entries: Seq<BroadcastTimedEntry>,
    from: int,
)
    requires
        0 <= from <= entries.len(),
    ensures
        entries_ok(index, field, entries, from) is Ok <==> forall|k: int|
            from <= k < entries.len() ==> (#[trigger] entries[k]).time_seconds is Fin && 0 <= tick(
                entries[k].time_seconds,
            ) && !is_blank(entries[k].text@),
    decreases entries.len() - from,
{
    if from < entries.len() {
        lemma_entries(index, field, entries, from + 1);
    }
}

/// Whether each of some entries has a time and a text.
pub open spec fn entries_say_when(entries: Seq<BroadcastTimedEntry>) -> bool {
    forall|k: int|
        0 <= k < entries.len() ==> (#[trigger] entries[k]).time_seconds is Fin && 0 <= tick(
            entries[k].time_seconds,
        ) && !is_blank(entries[k].text@)
}

/// A broadcast overlay is taken exactly where its pictures lie in the project, its topics
/// and chapters have times and texts, and its style is in order.  It is kept as it is
/// written, or with what the brand adds where there is a brand; nothing else changes.
pub proof fn law_overlay_is_kept(
    tl: TimelineModel,
    index: usize,
    c: BroadcastOverlayConfig,
    branded: Option<BroadcastOverlayConfig>,
)
    ensures
        ({
            let fine = in_project(c.brand_logo_path) && in_project(c.host_a_photo_path)
                && in_project(c.host_b_photo_path) && entries_say_when(c.topics@)
                && entries_say_when(c.chapters@) && style_ok(index, c.style) is Ok;
            match broadcast_overlay_set(tl, index, c, branded) {
                Ok((out, _)) => {
                    let n = out.montage->0;
                    &&& fine
                    &&& only_kept(tl, out)
                    &&& n.broadcast_overlay == Some(
                        if branded is Some && tl.montage is Some && tl.montage->0.brand_kit is Some {
                            branded->0.document@
                        } else {
                            c.document@
                        },
                    )
                    &&& tl.montage matches Some(m) ==> n == (MontageTimelineMetadataModel {
                        broadcast_overlay: n.broadcast_overlay,
                        version: n.version,
                        ..m
                    })
                },
                Err(_) => !fine,
            }
        }),
{
    lemma_version(tl);
    lemma_entries(index, "topics"@, c.topics@, 0);
    lemma_entries(index, "chapters"@, c.chapters@, 0);
}

proof fn lemma_odd_color(palette: Seq<Str>, from: int)
    requires
        0 <= from <= palette.len(),
    ensures
        odd_color(palette, from) is None <==> forall|k: int|
            from <= k < palette.len() ==> is_graphic_color(#[trigger] palette[k]),
    decreases palette.len() - from,
{
    if from < palette.len() {
        lemma_odd_color(palette, from + 1);
    }
}

/// A brand kit is taken exactly where its files lie in the project and all its colours are
/// colours.  It is kept as it is written; an overlay that is there gets what the brand adds.
pub proof fn law_brand_is_kept(
    tl: TimelineModel,
    index: usize,
    kit: BrandKit,
    branded: Option<Meta>,
)
    ensures
        ({
            let fine = in_project(kit.logo_path) && in_project(kit.font_primary_path) && in_project(
                kit.font_secondary_path,
            ) && in_project(kit.music_path) && forall|k: int|
                0 <= k < kit.palette@.len() ==> is_graphic_color((#[trigger] kit.palette@[k])@);
            match brand_kit_set(tl, index, kit, branded) {
                Ok((out, _)) => {
                    let n = out.montage->0;
                    &&& fine
                    &&& only_kept(tl, out)
                    &&& n.brand_kit == Some(kit.document@)
                    &&& tl.montage matches Some(m) ==> {
                        &&& n == (MontageTimelineMetadataModel {
                            broadcast_overlay: n.broadcast_overlay,
                            brand_kit: n.brand_kit,
                            version: n.version,
                            ..m
                        })
                        &&& n.broadcast_overlay == (if m.broadcast_overlay is Some && branded
                            is Some {
                            branded
                        } else {
                            m.broadcast_overlay
                        })
                    }
                },
                Err(_) => !fine,
            }
        }),
{
    lemma_version(tl);
    let palette = strs(kit.palette@);
    lemma_odd_color(palette, 0);
    assert forall|k: int| 0 <= k < palette.len() implies palette[k] == (
    #[trigger] kit.palette@[k])@ by {}
    if forall|k: int| 0 <= k < kit.palette@.len() ==> is_graphic_color((#[trigger] kit.palette@[k])@) {
        assert forall|k: int| 0 <= k < palette.len() implies is_graphic_color(
            #[trigger] palette[k],
        ) by {
            assert(is_graphic_color(kit.palette@[k]@));
        }
    }
    if forall|k: int| 0 <= k < palette.len() ==> is_graphic_color(#[trigger] palette[k]) {
        assert forall|k: int| 0 <= k < kit.palette@.len() implies is_graphic_color(
            (#[trigger] kit.palette@[k])@,
        ) by {
            assert(is_graphic_color(palette[k]));
        }
    }
}

// ---- cuts -----------------------------------------------------------------------------------

proof fn lemma_put_boundary(bs: Seq<CutBoundaryModel>, key: Str, s: SemanticCutSpecModel)
    ensures
        ({
            let now = put_boundary(bs, key, s);
            &&& now.contains(CutBoundaryModel { key, spec: s })
            &&& forall|k: int|
                0 <= k < bs.len() && (#[trigger] bs[k]).key != key ==> now.contains(bs[k])
            &&& forall|k: int|
                0 <= k < now.len() && (#[trigger] now[k]).key != key ==> bs.contains(now[k])
        }),
{
    lemma_first_where(bs, keyed(key), 0);
    let now = put_boundary(bs, key, s);
    match first_where(bs, keyed(key), 0) {
        Some(i) => {
            assert(now[i] == CutBoundaryModel { key, spec: s });
            assert forall|k: int| 0 <= k < bs.len() && (#[trigger] bs[k]).key
                != key implies now.contains(bs[k]) by {
                assert(now[k] == bs[k]);
            }
            assert forall|k: int| 0 <= k < now.len() && (#[trigger] now[k]).key
                != key implies bs.contains(now[k]) by {
                assert(bs[k] == now[k]);
            }
        },
        None => {
            assert(now.last() == CutBoundaryModel { key, spec: s });
            assert forall|k: int| 0 <= k < bs.len() && (#[trigger] bs[k]).key
                != key implies now.contains(bs[k]) by {
                assert(now[k] == bs[k]);
            }
            assert forall|k: int| 0 <= k < now.len() && (#[trigger] now[k]).key
                != key implies bs.contains(now[k]) by {
                assert(k < bs.len());
                assert(bs[k] == now[k]);
            }
        },
    }
}

/// Whether a number, if any, lies between zero and one.
pub open spec fn part_of_one(x: Option<Num>) -> bool {
    x matches Some(v) ==> v is Fin && 0 <= tick(v) <= 1_000_000_000_000_000
}

/// Whether there is a cut between two places: the clips meet, or there is nothing but one
/// transition, or nothing but empty time, between them.
pub open spec fn cut_lies_between(tl: TimelineModel, places: BetweenPlaces) -> bool {
    let from = places.from->Ok_0;
    let to = places.to->Ok_0;
    let t = row(tl, from.track_index as int);
    &&& has_clip(tl, from)
    &&& has_clip(tl, to)
    &&& from.track_index == to.track_index
    &&& {
        ||| at_a_cut(tl, from, to)
        ||| from.child_index + 1 < to.child_index && forall|k: int|
            from.child_index < k < to.child_index ==> (#[trigger] t[k]) is Gap
    }
}

/// What a cut is meant to do is kept, under the two clips that it lies between, exactly
/// where it says something, its numbers lie between zero and one, and there is such a cut.
/// What is kept of other cuts stays.
pub proof fn law_cut_is_kept_under_its_clips(
    tl: TimelineModel,
    index: usize,
    s: SemanticCutSpecModel,
    places: BetweenPlaces,
)
    requires
        places.from is Ok,
        places.to is Ok,
    ensures
        ({
            let fine = !is_blank(s.intent) && part_of_one(s.energy) && part_of_one(s.confidence)
                && cut_lies_between(tl, places);
            match set_cut(tl, index, s, places) {
                Ok((out, _)) => {
                    let n = out.montage->0;
                    let key = known_as(the_clip(tl, places.from->Ok_0)) + "::"@ + known_as(
                        the_clip(tl, places.to->Ok_0),
                    );
                    &&& fine
                    &&& only_kept(tl, out)
                    &&& n.cut_boundaries.contains(CutBoundaryModel { key, spec: s })
                    &&& tl.montage matches Some(m) ==> {
                        &&& n == (MontageTimelineMetadataModel {
                            cut_boundaries: n.cut_boundaries,
                            version: n.version,
                            ..m
                        })
                        &&& forall|k: int|
                            0 <= k < m.cut_boundaries.len() && (
                            #[trigger] m.cut_boundaries[k]).key != key
                                ==> n.cut_boundaries.contains(m.cut_boundaries[k])
                    }
                },
                Err(_) => !fine,
            }
        }),
{
    lemma_version(tl);
    let from = places.from->Ok_0;
    let to = places.to->Ok_0;
    law_a_place_is_found(tl, from);
    law_a_place_is_found(tl, to);
    let key = known_as(the_clip(tl, from)) + "::"@ + known_as(the_clip(tl, to));
    lemma_put_boundary(montage_of(tl).cut_boundaries, key, s);
}

/// A transition is taken out exactly where one stands alone between the two places, and
/// nothing else changes.
pub proof fn law_transition_is_taken_out(tl: TimelineModel, index: usize, places: BetweenPlaces)
    requires
        places.from is Ok,
        places.to is Ok,
    ensures
        ({
            let from = places.from->Ok_0;
            let to = places.to->Ok_0;
            let i = from.track_index as int;
            let j = from.child_index as int;
            let there = has_row(tl, i) && from.track_index == to.track_index && to.child_index == j
                + 2 && j + 1 < row(tl, i).len() && row(tl, i)[j + 1] is Transition;
            match deleted_transition(tl, index, places) {
                Ok((out, _)) => there && crate::adjust_laws::only_row(tl, out, i) && row(out, i)
                    == row(tl, i).remove(j + 1),
                Err(_) => !there,
            }
        }),
{
    law_a_place_is_found(tl, places.from->Ok_0);
}

// ---- nested sequences -------------------------------------------------------------------------

/// Children of a track are wrapped exactly where there is such a track and the places are
/// on it, the first before the last.  One nested sequence then stands in their place, which
/// holds them, in their order, on one track of the same kind.
pub proof fn law_wrap_puts_children_in_one(
    tl: TimelineModel,
    index: usize,
    track: Str,
    lo: usize,
    hi: usize,
    name: Option<Str>,
    i: int,
)
    requires
        trimmed(track).len() > 0,
        first_named(tl, trimmed(track), i),
    ensures
        match wrapped(tl, index, track, lo, hi, name) {
            Ok((out, _)) => {
                let before = row(tl, i);
                let after = row(out, i);
                &&& lo < hi <= before.len()
                &&& crate::adjust_laws::only_row(tl, out, i)
                &&& after.len() == before.len() - (hi - lo) + 1
                &&& after.take(lo as int) == before.take(lo as int)
                &&& after.skip(lo + 1) == before.skip(hi as int)
                &&& after[lo as int] matches TrackChildModel::Stack(x) && x.children.len() == 1 && (
                x.children[0] matches StackChildModel::Track(t) && t.children == before.subrange(
                    lo as int,
                    hi as int,
                ) && t.kind == tl.tracks.children[i]->Track_0.kind)
                &&& name matches Some(n) ==> !is_blank(n) ==> after[lo as int]->Stack_0.name
                    == trimmed(n)
            },
            Err(_) => lo >= hi || hi > row(tl, i).len(),
        },
{
    law_first_named_is_found(tl, trimmed(track));
    if let Ok((out, _)) = wrapped(tl, index, track, lo, hi, name) {
        let before = row(tl, i);
        let after = row(out, i);
        assert(after.take(lo as int) =~= before.take(lo as int));
        assert(after.skip(lo + 1) =~= before.skip(hi as int));
    }
}

/// What a nested sequence with tracks alone holds, one track after the other.
pub open spec fn laid_out(layers: Seq<StackChildModel>, n: int) -> Seq<TrackChildModel>
    decreases n,
{
    if n <= 0 {
        Seq::empty()
    } else {
        laid_out(layers, n - 1) + match layers[n - 1] {
            StackChildModel::Track(t) => t.children,
            StackChildModel::Clip(c) => seq![TrackChildModel::Clip(c)],
            StackChildModel::Gap(g) => seq![TrackChildModel::Gap(g)],
            StackChildModel::Stack(x) => seq![TrackChildModel::Stack(x)],
        }
    }
}

proof fn lemma_flat(
    index: usize,
    layers: Seq<StackChildModel>,
    kind: crate::model::TrackKind,
    n: int,
)
    requires
        0 <= n <= layers.len(),
    ensures
        match flat(index, layers, kind, n) {
            Ok(s) => s == laid_out(layers, n) && forall|k: int|
                0 <= k < n && (#[trigger] layers[k]) is Track ==> layers[k]->Track_0.kind == kind,
            Err(_) => exists|k: int|
                0 <= k < n && (#[trigger] layers[k]) is Track && layers[k]->Track_0.kind != kind,
        },
    decreases n,
{
    if n > 0 {
        lemma_flat(index, layers, kind, n - 1);
        if let Ok(s) = flat(index, layers, kind, n) {
            assert(s =~= laid_out(layers, n));
        }
    }
}

/// A nested sequence on a track is flattened exactly where one stands at the place and all
/// its tracks are of the kind of the track around it.  What it holds then stands in its
/// place, one track after the other, and nothing else changes.
pub proof fn law_flatten_lays_out_what_was_nested(
    tl: TimelineModel,
    index: usize,
    track: Str,
    j: usize,
    i: int,
)
    requires
        trimmed(track).len() > 0,
        first_named(tl, trimmed(track), i),
    ensures
        ({
            let before = row(tl, i);
            let kind = tl.tracks.children[i]->Track_0.kind;
            let fine = j < before.len() && (before[j as int] matches TrackChildModel::Stack(x)
                && forall|k: int|
                0 <= k < x.children.len() && (#[trigger] x.children[k]) is Track
                    ==> x.children[k]->Track_0.kind == kind);
            match flattened(tl, index, track, j) {
                Ok((out, _)) => {
                    let x = before[j as int]->Stack_0;
                    &&& fine
                    &&& crate::adjust_laws::only_row(tl, out, i)
                    &&& row(out, i) == before.take(j as int) + laid_out(
                        x.children,
                        x.children.len() as int,
                    ) + before.skip(j + 1)
                },
                Err(_) => !fine,
            }
        }),
{
    law_first_named_is_found(tl, trimmed(track));
    let before = row(tl, i);
    let kind = tl.tracks.children[i]->Track_0.kind;
    if j < before.len() {
        if let TrackChildModel::Stack(x) = before[j as int] {
            lemma_flat(index, x.children, kind, x.children.len() as int);
            if let Ok((out, _)) = flattened(tl, index, track, j) {
                assert(row(out, i) =~= before.take(j as int) + laid_out(
                    x.children,
                    x.children.len() as int,
                ) + before.skip(j + 1));
            }
        }
    }
}

// ---- trims by track ---------------------------------------------------------------------------

/// The end of a clip is trimmed on the tracks that are named alone: on a track whose name
/// occurs anywhere among them, or on any where none is named, it is trimmed as ever, and
/// else it is refused.
pub proof fn law_trim_keeps_to_the_tracks_named(
    tl: TimelineModel,
    index: usize,
    new_end_s: Num,
    tracks: Seq<String>,
    loc: crate::model::ClipLocator,
)
    requires
        has_row(tl, loc.track_index as int),
    ensures
        ({
            let name = tl.tracks.children[loc.track_index as int]->Track_0.name;
            let named = tracks.len() == 0 || exists|k: int|
                0 <= k < tracks.len() && (#[trigger] tracks[k])@ == name;
            &&& named ==> ripple_trim_done(tl, index, new_end_s, tracks, Some(loc)) == trimmed_clip(
                tl,
                index,
                None,
                Some(new_end_s),
                Some(loc),
            )
            &&& !named ==> ripple_trim_done(tl, index, new_end_s, tracks, Some(loc)) is Err
        }),
{
    law_a_place_is_found(tl, loc);
    let name = tl.tracks.children[loc.track_index as int]->Track_0.name;
    let names = strs(tracks);
    if names.contains(name) {
        let k = choose|k: int| 0 <= k < names.len() && names[k] == name;
        assert(tracks[k]@ == name);
    }
    if exists|k: int| 0 <= k < tracks.len() && (#[trigger] tracks[k])@ == name {
        let k = choose|k: int| 0 <= k < tracks.len() && (#[trigger] tracks[k])@ == name;
        assert(names[k] == name);
    }
}

// ---- documents --------------------------------------------------------------------------------

/// The documents of a kind.
pub open spec fn on_shelf(m: MontageTimelineMetadataModel, shelf: Shelf) -> Seq<DocumentModel> {
    match shelf {
        Shelf::ProposalPackages => m.proposal_packages,
        Shelf::ParameterAnimations => m.parameter_animations,
        Shelf::MotionTemplates => m.motion_templates,
        Shelf::MotionScenes => m.motion_scenes,
        Shelf::CompositionGraphs => m.composition_graphs,
        Shelf::DeliveryProfiles => m.delivery_profiles,
        Shelf::PreflightReports => m.preflight_reports,
    }
}

/// Whether a document is kept once, and all others that were there are still.
pub open spec fn kept_once(
    was: Seq<DocumentModel>,
    now: Seq<DocumentModel>,
    d: DocumentModel,
) -> bool {
    &&& now.contains(d)
    &&& forall|k: int| 0 <= k < was.len() && (#[trigger] was[k]).id != d.id ==> now.contains(was[k])
    &&& now.len() == was.len() + (if exists|k: int|
        0 <= k < was.len() && (#[trigger] was[k]).id == d.id {
        0int
    } else {
        1
    })
}

proof fn lemma_kept_once(items: Seq<DocumentModel>, d: DocumentModel)
    ensures
        kept_once(items, crate::docs::replaced_by_id(items, d), d),
{
    let p = crate::docs::with_id(d.id);
    lemma_first_where(items, p, 0);
    let now = crate::docs::replaced_by_id(items, d);
    match first_where(items, p, 0) {
        Some(i) => {
            assert(now[i] == d);
            assert(items[i].id == d.id);
            assert forall|k: int| 0 <= k < items.len() && (#[trigger] items[k]).id
                != d.id implies now.contains(items[k]) by {
                assert(now[k] == items[k]);
            }
        },
        None => {
            assert(now.last() == d);
            assert forall|k: int| 0 <= k < items.len() && (#[trigger] items[k]).id
                != d.id implies now.contains(items[k]) by {
                assert(now[k] == items[k]);
            }
            assert(!exists|k: int| 0 <= k < items.len() && (#[trigger] items[k]).id == d.id) by {
                if exists|k: int| 0 <= k < items.len() && (#[trigger] items[k]).id == d.id {
                    let k = choose|k: int| 0 <= k < items.len() && (#[trigger] items[k]).id == d.id;
                    assert(!p(items[k]));
                }
            }
        },
    }
}

/// A document is kept among those of its kind, in place of one with its id; documents of
/// other kinds, and everything else, stay.
pub proof fn law_document_is_kept_with_its_kind(
    tl: TimelineModel,
    shelf: Shelf,
    d: DocumentModel,
    other: Shelf,
)
    ensures
        match document_stored(tl, shelf, d) {
            Ok((out, _)) => {
                let n = out.montage->0;
                &&& only_kept(tl, out)
                &&& tl.montage matches Some(m) ==> {
                    &&& kept_once(on_shelf(m, shelf), on_shelf(n, shelf), d)
                    &&& other != shelf ==> on_shelf(n, other) == on_shelf(m, other)
                    &&& n.extra == m.extra
                    &&& n.cut_boundaries == m.cut_boundaries
                }
                &&& tl.montage is None ==> on_shelf(n, shelf).contains(d)
            },
            Err(_) => false,
        },
{
    lemma_version(tl);
    lemma_kept_once(on_shelf(montage_of(tl), shelf), d);
}

/// An animation is kept exactly where nothing is wrong with it and it can be played, or is
/// only to be kept.
pub proof fn law_animation_can_be_played_or_is_kept(
    tl: TimelineModel,
    index: usize,
    a: ParameterAnimation,
    v: AnimationVerdict,
)
    ensures
        ({
            let fine = v.error is None && (a.metadata_only || v.runtime_target);
            match animation_set(tl, index, a, v) {
                Ok((out, _)) => fine && only_kept(tl, out) && (tl.montage matches Some(m)
                    ==> kept_once(
                    m.parameter_animations,
                    out.montage->0.parameter_animations,
                    a.document@,
                )),
                Err(_) => !fine,
            }
        }),
{
    law_document_is_kept_with_its_kind(
        tl,
        Shelf::ParameterAnimations,
        a.document@,
        Shelf::MotionScenes,
    );
}

/// What is kept of the whole project goes each to its own place.
pub proof fn law_each_state_goes_to_its_place(
    tl: TimelineModel,
    x: Meta,
    xs: Seq<Meta>,
    ys: Seq<Meta>,
)
    ensures
        catalog_set(tl, x) matches Ok((out, _)) && only_kept(tl, out) && out.montage->0
            == (MontageTimelineMetadataModel {
            asset_catalog: Some(x),
            version: out.montage->0.version,
            ..montage_of(tl)
        }),
        source_review_set(tl, xs, ys) matches Ok((out, _)) && only_kept(tl, out) && out.montage->0
            == (MontageTimelineMetadataModel {
            selects: xs,
            stringouts: ys,
            version: out.montage->0.version,
            ..montage_of(tl)
        }),
        tracking_set(tl, x) matches Ok((out, _)) && only_kept(tl, out) && out.montage->0
            == (MontageTimelineMetadataModel {
            tracking_package: Some(x),
            version: out.montage->0.version,
            ..montage_of(tl)
        }),
        color_finishing_set(tl, x) matches Ok((out, _)) && only_kept(tl, out) && out.montage->0
            == (MontageTimelineMetadataModel {
            color_finishing: Some(x),
            version: out.montage->0.version,
            ..montage_of(tl)
        }),
        audio_finishing_set(tl, x) matches Ok((out, _)) && only_kept(tl, out) && out.montage->0
            == (MontageTimelineMetadataModel {
            audio_finishing: Some(x),
            version: out.montage->0.version,
            ..montage_of(tl)
        }),
        readiness_set(tl, x, xs) matches Ok((out, _)) && only_kept(tl, out) && out.montage->0
            == (MontageTimelineMetadataModel {
            pipeline_readiness: Some(x),
            planner_passes: xs,
            version: out.montage->0.version,
            ..montage_of(tl)
        }),
{
    lemma_version(tl);
}

/// A lens that is chosen is the active one, and is among those that were chosen, once.
pub proof fn law_lens_is_active(tl: TimelineModel, name: Str, key: Str)
    ensures
        match lens_set(tl, name, key) {
            Ok((out, _)) => {
                let n = out.montage->0;
                &&& only_kept(tl, out)
                &&& lookup(n.extra, "active_workflow_lens"@) == Some(Meta::Text(key))
                &&& n.workflow_lenses.contains(key)
                &&& tl.montage matches Some(m) ==> {
                    &&& m.workflow_lenses.contains(key) ==> n.workflow_lenses == m.workflow_lenses
                    &&& !m.workflow_lenses.contains(key) ==> n.workflow_lenses
                        == m.workflow_lenses.push(key)
                }
            },
            Err(_) => false,
        },
{
    lemma_version(tl);
    let m = montage_of(tl);
    law_put_then_lookup(
        m.extra,
        "active_workflow_lens"@,
        Meta::Text(key),
        "active_workflow_lens"@,
    );
    if !m.workflow_lenses.contains(key) {
        assert(m.workflow_lenses.push(key).last() == key);
        assert(m.workflow_lenses.push(key).contains(key));
    }
}

/// A path that keeps a subject in the picture is made exactly where something was tracked
/// and the making came to something; what was tracked is then kept with that path.
pub proof fn law_reframing_needs_a_tracked_subject(
    tl: TimelineModel,
    index: usize,
    track_id: Str,
    clip_id: Str,
    answer: Result<ReframeAnswer, String>,
)
    ensures
        ({
            let fine = tl.montage is Some && tl.montage->0.tracking_package is Some && answer is Ok;
            match reframe_authored(tl, index, track_id, clip_id, answer) {
                Ok((out, _)) => fine && only_kept(tl, out) && out.montage->0.tracking_package == Some(
                    answer->Ok_0.package@,
                ),
                Err(_) => !fine,
            }
        }),
{
    lemma_version(tl);
}

/// A composition is kept among those there are, in place of one with its id, and where it
/// is attached is kept under its id.
pub proof fn law_composition_is_kept_with_its_place(
    tl: TimelineModel,
    d: DocumentModel,
    attach_to: Option<Meta>,
)
    ensures
        match composition_attached(tl, d, attach_to) {
            Ok((out, _)) => {
                let n = out.montage->0;
                &&& only_kept(tl, out)
                &&& tl.montage matches Some(m) ==> kept_once(
                    m.composition_graphs,
                    n.composition_graphs,
                    d,
                )
                &&& n.composition_graphs.contains(d)
                &&& attach_to matches Some(v) ==> lookup(n.extra, "composition_attach_"@ + d.id)
                    == Some(v)
                &&& attach_to is None ==> n.extra == montage_of(tl).extra
            },
            Err(_) => false,
        },
{
    lemma_version(tl);
    lemma_kept_once(montage_of(tl).composition_graphs, d);
    if let Some(v) = attach_to {
        law_put_then_lookup(
            montage_of(tl).extra,
            "composition_attach_"@ + d.id,
            v,
            "composition_attach_"@ + d.id,
        );
    }
}

} // verus!

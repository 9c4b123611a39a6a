//! What edits of speed and colour leave on a clip, and which of them are taken.
use vstd::prelude::*;

use crate::clip::{effect_of, without_effect};
use crate::effect::{
    correction_ok, correction_pairs, correction_set, effect_pairs, effect_set, look_ok, lut_applied,
    lut_removed, slot_pairs, space_ok, speed_set, without_idle_strength, ColorCorrection,
    EffectVerdict, LutFiles,
};
use crate::effect_laws::{gains, lemma_gains, only_clip, tells};
use crate::laws::{law_put_then_lookup, law_remove_then_lookup};
use crate::lut::{
    lut_contents_ok, lut_format_of, lut_interpolation_of, lut_path_of, lut_strength_of,
    mask_path_of, small_extension, ExpectedLutKind, LutFile, LutFormat,
};
use crate::measures::{has_clip, law_a_place_is_found, the_clip, tick};
use crate::meta::{lookup, lookup_text, put, Meta, Pairs};
use crate::model::{ClipLocator, ClipModel, EffectModel, TimelineModel};
use crate::num::Num;
use crate::path::{is_absolute, leads_up, starts_in_place};
use crate::sound_laws::kept_number;
use crate::text::{is_blank, lowered, strs, trimmed, Str};

verus! {

// ---- speed --------------------------------------------------------------------------------

/// The speed of a clip is set to the factor that was asked for exactly where that can be
/// counted and is more than zero.
pub proof fn law_speed_is_what_was_asked(
    tl: TimelineModel,
    index: usize,
    factor: Num,
    loc: ClipLocator,
)
    requires
        has_clip(tl, loc),
    ensures
        match speed_set(tl, index, factor, Some(loc)) {
            Ok((out, _)) => {
                let now = the_clip(out, loc);
                &&& factor is Fin && 0 < tick(factor)
                &&& only_clip(tl, out, loc)
                &&& gains(the_clip(tl, loc), now, "montage.speed"@)
                &&& tells(now, "factor"@) == Some(Meta::Number(factor))
            },
            Err(_) => factor !is Fin || tick(factor) <= 0,
        },
{
    law_a_place_is_found(tl, loc);
    let m = put(Seq::empty(), "factor"@, Meta::Number(factor));
    lemma_gains(the_clip(tl, loc), effect_of("montage.speed"@, m));
    law_put_then_lookup(Seq::empty(), "factor"@, Meta::Number(factor), "factor"@);
}

// ---- corrections ----------------------------------------------------------------------------

/// Whether a number, if any, lies between two whole ones.
pub open spec fn between(x: Option<Num>, low: int, high: int) -> bool {
    x matches Some(v) ==> v is Fin && low * 1_000_000_000_000_000 <= tick(v) <= high
        * 1_000_000_000_000_000
}

/// A correction of colour is taken exactly where it says something and every part of it
/// is in its bounds: exposure up to four stops either way, contrast and saturation up to
/// three, the others up to one either way.
pub proof fn law_correction_is_in_bounds(index: usize, k: ColorCorrection)
    ensures
        correction_ok(index, k) is Ok <==> {
            &&& k.exposure_ev is Some || k.contrast is Some || k.saturation is Some
                || k.temperature is Some || k.tint is Some || k.shadows is Some
                || k.highlights is Some
            &&& between(k.exposure_ev, -4, 4)
            &&& between(k.contrast, 0, 3)
            &&& between(k.saturation, 0, 3)
            &&& between(k.temperature, -1, 1)
            &&& between(k.tint, -1, 1)
            &&& between(k.shadows, -1, 1)
            &&& between(k.highlights, -1, 1)
        },
{
}

proof fn lemma_correction_keys()
    ensures
        "exposure_ev"@.len() == 11,
        "contrast"@.len() == 8,
        "saturation"@.len() == 10,
        "temperature"@.len() == 11,
        "tint"@.len() == 4,
        "shadows"@.len() == 7,
        "highlights"@.len() == 10,
        "exposure_ev"@ != "temperature"@,
        "saturation"@ != "highlights"@,
{
    reveal_strlit("exposure_ev");
    reveal_strlit("contrast");
    reveal_strlit("saturation");
    reveal_strlit("temperature");
    reveal_strlit("tint");
    reveal_strlit("shadows");
    reveal_strlit("highlights");
    assert("exposure_ev"@[0] == 'e');
    assert("temperature"@[0] == 't');
    assert("saturation"@[0] == 's');
    assert("highlights"@[0] == 'h');
}

proof fn lemma_one_more(m: Pairs, key: Str, value: Option<Num>, other: Str)
    requires
        value matches Some(v) ==> v is Fin,
        lookup(m, key) is None,
    ensures
        ({
            let now = crate::audio::put_opt(m, key, crate::audio::number_opt(value));
            &&& lookup(now, key) == kept_number(value)
            &&& other != key ==> lookup(now, other) == lookup(m, other)
        }),
{
    if let Some(v) = value {
        law_put_then_lookup(m, key, Meta::Number(v), other);
    }
}

/// A correction that is taken is kept part by part, each under its own name.
pub proof fn law_correction_is_kept_by_name(index: usize, k: ColorCorrection)
    requires
        correction_ok(index, k) is Ok,
    ensures
        ({
            let m = correction_pairs(k);
            &&& lookup(m, "exposure_ev"@) == kept_number(k.exposure_ev)
            &&& lookup(m, "contrast"@) == kept_number(k.contrast)
            &&& lookup(m, "saturation"@) == kept_number(k.saturation)
            &&& lookup(m, "temperature"@) == kept_number(k.temperature)
            &&& lookup(m, "tint"@) == kept_number(k.tint)
            &&& lookup(m, "shadows"@) == kept_number(k.shadows)
            &&& lookup(m, "highlights"@) == kept_number(k.highlights)
        }),
{
    law_correction_is_in_bounds(index, k);
    lemma_correction_keys();
    let m0 = Seq::<(Str, Meta)>::empty();
    let m1 = crate::audio::put_opt(m0, "exposure_ev"@, crate::audio::number_opt(k.exposure_ev));
    let m2 = crate::audio::put_opt(m1, "contrast"@, crate::audio::number_opt(k.contrast));
    let m3 = crate::audio::put_opt(m2, "saturation"@, crate::audio::number_opt(k.saturation));
    let m4 = crate::audio::put_opt(m3, "temperature"@, crate::audio::number_opt(k.temperature));
    let m5 = crate::audio::put_opt(m4, "tint"@, crate::audio::number_opt(k.tint));
    let m6 = crate::audio::put_opt(m5, "shadows"@, crate::audio::number_opt(k.shadows));
    lemma_row(m0, "exposure_ev"@, k.exposure_ev);
    lemma_row(m1, "contrast"@, k.contrast);
    lemma_row(m2, "saturation"@, k.saturation);
    lemma_row(m3, "temperature"@, k.temperature);
    lemma_row(m4, "tint"@, k.tint);
    lemma_row(m5, "shadows"@, k.shadows);
    lemma_row(m6, "highlights"@, k.highlights);
}

proof fn lemma_row(m: Pairs, key: Str, value: Option<Num>)
    requires
        value matches Some(v) ==> v is Fin,
        lookup(m, key) is None,
    ensures
        ({
            let now = crate::audio::put_opt(m, key, crate::audio::number_opt(value));
            &&& lookup(now, key) == kept_number(value)
            &&& forall|other: Str|
                other != key ==> #[trigger] lookup(now, other) == lookup(m, other)
        }),
{
    let now = crate::audio::put_opt(m, key, crate::audio::number_opt(value));
    lemma_one_more(m, key, value, key);
    assert forall|other: Str| other != key implies #[trigger] lookup(now, other) == lookup(
        m,
        other,
    ) by {
        lemma_one_more(m, key, value, other);
    }
}

/// A correction that is taken is on the clip in place of another, and nothing else
/// changes.
pub proof fn law_correction_is_put_on_the_clip(
    tl: TimelineModel,
    index: usize,
    k: ColorCorrection,
    loc: ClipLocator,
)
    requires
        has_clip(tl, loc),
    ensures
        match correction_set(tl, index, k, Some(loc)) {
            Ok((out, _)) => {
                let now = the_clip(out, loc);
                &&& correction_ok(index, k) is Ok
                &&& only_clip(tl, out, loc)
                &&& gains(the_clip(tl, loc), now, "montage.color_correction"@)
                &&& now.effects.last().metadata == correction_pairs(k)
            },
            Err(_) => correction_ok(index, k) is Err,
        },
{
    law_a_place_is_found(tl, loc);
    lemma_gains(
        the_clip(tl, loc),
        effect_of("montage.color_correction"@, correction_pairs(k)),
    );
}

// ---- colour tables ----------------------------------------------------------------------------

/// Whether a trimmed path names something below the project, by forward slashes alone.
pub open spec fn below_project(s: Str) -> bool {
    &&& s.len() > 0
    &&& forall|k: int| 0 <= k < s.len() ==> #[trigger] s[k] != '\\'
    &&& !is_absolute(s)
    &&& !leads_up(s)
    &&& !starts_in_place(s)
}

/// A table is taken exactly where its path, without white space around it, lies below the
/// project and ends in one of five extensions, large or small; it is kept so.
pub proof fn law_table_has_a_known_extension(index: usize, path: Str)
    ensures
        match lut_path_of(index, path) {
            Ok(s) => s == trimmed(path) && below_project(s) && (small_extension(s) matches Some(e)
                && (e == "3dl"@ || e == "cube"@ || e == "dat"@ || e == "m3d"@ || e == "csp"@)),
            Err(_) => !below_project(trimmed(path)) || !(small_extension(trimmed(path)) matches Some(
                e,
            ) && (e == "3dl"@ || e == "cube"@ || e == "dat"@ || e == "m3d"@ || e == "csp"@)),
        },
{
    let s = trimmed(path);
    if s.contains('\\') {
        let k = choose|k: int| 0 <= k < s.len() && s[k] == '\\';
        assert(s[k] == '\\');
    }
}

/// A mask is taken exactly where its path lies below the project and ends in one of the
/// extensions that are known for masks.
pub proof fn law_mask_has_a_known_extension(index: usize, path: Str, extensions: Seq<Str>)
    ensures
        match mask_path_of(index, path, extensions) {
            Ok(s) => s == trimmed(path) && below_project(s) && (small_extension(s) matches Some(e)
                && extensions.contains(e)),
            Err(_) => !below_project(trimmed(path)) || !(small_extension(trimmed(path)) matches Some(
                e,
            ) && extensions.contains(e)),
        },
{
    let s = trimmed(path);
    if s.contains('\\') {
        let k = choose|k: int| 0 <= k < s.len() && s[k] == '\\';
        assert(s[k] == '\\');
    }
}

/// A strength is taken exactly where it lies between none and full, and is kept.
pub proof fn law_strength_is_part_of_full(index: usize, strength: Option<Num>)
    ensures
        match lut_strength_of(index, strength) {
            Ok(s) => s == strength && between(strength, 0, 1),
            Err(_) => !between(strength, 0, 1),
        },
{
}

/// Whether a word is one of the five ways to read between the entries of a table.
pub open spec fn way_to_read(s: Str) -> bool {
    s == "nearest"@ || s == "trilinear"@ || s == "tetrahedral"@ || s == "pyramid"@ || s == "prism"@
}

/// A way to read a table is kept in small letters; a blank one counts as none, and any
/// other than the five is refused.
pub proof fn law_way_to_read_is_known(index: usize, given: Option<Str>)
    ensures
        match lut_interpolation_of(index, given) {
            Ok(None) => given is None || trimmed(given->0).len() == 0,
            Ok(Some(s)) => given is Some && s == lowered(trimmed(given->0)) && way_to_read(s),
            Err(_) => given is Some && trimmed(given->0).len() > 0 && !way_to_read(
                lowered(trimmed(given->0)),
            ),
        },
{
}

/// What was found of a table is refused exactly where it is known where the project lies
/// and the table is of a kind for three channels alone in a slot for one, or can be read
/// but could not be or is none.
pub proof fn law_table_will_do(
    index: usize,
    path: Str,
    expected: ExpectedLutKind,
    found: LutFile,
)
    ensures
        lut_contents_ok(index, path, expected, found) is Err <==> {
            let ext = small_extension(path);
            &&& found !is NoProject
            &&& ext is Some
            &&& {
                ||| expected == ExpectedLutKind::OneD && (ext == Some("3dl"@) || ext == Some(
                    "dat"@,
                ) || ext == Some("m3d"@))
                ||| (ext == Some("cube"@) || (ext == Some("3dl"@) && expected
                    == ExpectedLutKind::ThreeD)) && (found is Unreadable || found is NotText || (
                found matches LutFile::Parsed(r) && r is Err))
            }
        },
        lut_format_of(path, expected) == (if small_extension(path) == Some("cube"@) {
            Some(
                if expected == ExpectedLutKind::ThreeD {
                    LutFormat::Cube3d
                } else {
                    LutFormat::Cube1d
                },
            )
        } else if small_extension(path) == Some("3dl"@) && expected == ExpectedLutKind::ThreeD {
            Some(LutFormat::ThreeDl)
        } else {
            None
        }),
{
    reveal_strlit("3dl");
    reveal_strlit("cube");
    reveal_strlit("dat");
    reveal_strlit("m3d");
    assert("cube"@.len() == 4);
    assert("3dl"@.len() == 3);
    assert("dat"@.len() == 3);
    assert("m3d"@.len() == 3);
}

/// A table is put on a clip in place of another, under its path and, where given, with how
/// it is read and how strongly, exactly where all these are taken and what was found of it
/// will do.
pub proof fn law_table_is_put_on_the_clip(
    tl: TimelineModel,
    index: usize,
    lut_path: Str,
    interpolation: Option<Str>,
    strength: Option<Num>,
    found: LutFile,
    loc: ClipLocator,
)
    requires
        has_clip(tl, loc),
    ensures
        match lut_applied(tl, index, lut_path, interpolation, strength, found, Some(loc)) {
            Ok((out, _)) => {
                let now = the_clip(out, loc);
                &&& lut_path_of(index, lut_path) is Ok
                &&& lut_interpolation_of(index, interpolation) is Ok
                &&& lut_strength_of(index, strength) is Ok
                &&& lut_contents_ok(
                    index,
                    trimmed(lut_path),
                    ExpectedLutKind::ThreeD,
                    found,
                ) is Ok
                &&& only_clip(tl, out, loc)
                &&& gains(the_clip(tl, loc), now, "montage.lut"@)
                &&& tells(now, "lut_path"@) == Some(Meta::Text(trimmed(lut_path)))
                &&& tells(now, "strength"@) == kept_number(strength)
                &&& tells(now, "interpolation"@) == (match lut_interpolation_of(
                    index,
                    interpolation,
                )->Ok_0 {
                    Some(s) => Some(Meta::Text(s)),
                    None => None,
                })
            },
            Err(_) => {
                ||| lut_path_of(index, lut_path) is Err
                ||| lut_interpolation_of(index, interpolation) is Err
                ||| lut_strength_of(index, strength) is Err
                ||| lut_contents_ok(
                    index,
                    trimmed(lut_path),
                    ExpectedLutKind::ThreeD,
                    found,
                ) is Err
            },
        },
{
    law_a_place_is_found(tl, loc);
    law_table_has_a_known_extension(index, lut_path);
    law_strength_is_part_of_full(index, strength);
    if let Ok((out, _)) = lut_applied(
        tl,
        index,
        lut_path,
        interpolation,
        strength,
        found,
        Some(loc),
    ) {
        reveal_strlit("lut_path");
        reveal_strlit("interpolation");
        reveal_strlit("strength");
        assert("lut_path"@.len() == 8);
        assert("interpolation"@.len() == 13);
        assert("strength"@.len() == 8);
        assert("lut_path"@[0] == 'l');
        assert("strength"@[0] == 's');
        let i = lut_interpolation_of(index, interpolation)->Ok_0;
        let a = Meta::Text(trimmed(lut_path));
        let b = crate::audio::text_opt(i);
        let m0 = Seq::<(Str, Meta)>::empty();
        let m1 = put(m0, "lut_path"@, a);
        let m2 = crate::audio::put_opt(m1, "interpolation"@, b);
        let m3 = crate::audio::put_opt(m2, "strength"@, crate::audio::number_opt(strength));
        law_put_then_lookup(m0, "lut_path"@, a, "lut_path"@);
        law_put_then_lookup(m0, "lut_path"@, a, "interpolation"@);
        law_put_then_lookup(m0, "lut_path"@, a, "strength"@);
        if let Some(v) = b {
            law_put_then_lookup(m1, "interpolation"@, v, "lut_path"@);
            law_put_then_lookup(m1, "interpolation"@, v, "strength"@);
        }
        lemma_row(m2, "strength"@, strength);
        lemma_gains(the_clip(tl, loc), effect_of("montage.lut"@, m3));
    }
}

/// All tables are taken off a clip, and nothing else of it changes.
pub proof fn law_all_tables_are_taken_off(tl: TimelineModel, index: usize, loc: ClipLocator)
    requires
        has_clip(tl, loc),
    ensures
        match lut_removed(tl, index, Some(loc)) {
            Ok((out, _)) => {
                let was = the_clip(tl, loc);
                let now = the_clip(out, loc);
                &&& only_clip(tl, out, loc)
                &&& now == (ClipModel { effects: now.effects, ..was })
                &&& forall|k: int|
                    0 <= k < now.effects.len() ==> (#[trigger] now.effects[k]).effect_name
                        != "montage.lut"@ && was.effects.contains(now.effects[k])
                &&& forall|k: int|
                    0 <= k < was.effects.len() && (#[trigger] was.effects[k]).effect_name
                        != "montage.lut"@ ==> now.effects.contains(was.effects[k])
            },
            Err(_) => false,
        },
{
    law_a_place_is_found(tl, loc);
    crate::effect_laws::lemma_kept(the_clip(tl, loc).effects, "montage.lut"@);
}

// ---- colour pipelines -----------------------------------------------------------------------

/// A colour space that is named in a slot must be a known one.
pub proof fn law_space_is_known(index: usize, m: Pairs, slot: Str, spaces: Seq<String>)
    ensures
        space_ok(index, m, slot, spaces) is Ok <==> (lookup_text(m, slot) matches Some(v) ==> exists|
            k: int,
        |
            0 <= k < spaces.len() && (#[trigger] spaces[k])@ == v),
{
    if let Some(v) = lookup_text(m, slot) {
        let names = strs(spaces);
        if names.contains(v) {
            let k = choose|k: int| 0 <= k < names.len() && names[k] == v;
            assert(spaces[k]@ == v);
        }
        if exists|k: int| 0 <= k < spaces.len() && (#[trigger] spaces[k])@ == v {
            let k = choose|k: int| 0 <= k < spaces.len() && (#[trigger] spaces[k])@ == v;
            assert(names[k] == v);
        }
    }
}

/// What belongs to a look is taken exactly where there is a look, or none of it is given.
pub proof fn law_look_comes_with_what_belongs_to_it(index: usize, m: Pairs)
    ensures
        look_ok(index, m) is Ok <==> {
            ||| lookup(m, "look_lut"@) is Some
            ||| lookup(m, "look_interpolation"@) is None && lookup(m, "lut_input_space"@) is None && !(
            lookup(m, "look_strength"@) matches Some(Meta::Number(_)))
        },
{
}

/// A strength of the look is passed over exactly where there is no look, it was not asked
/// for, and it is full.
pub proof fn law_only_a_full_strength_is_passed_over(m: Pairs, asked: Pairs)
    ensures
        ({
            let idle = lookup(m, "look_lut"@) is None && lookup(asked, "look_strength"@) is None
                && lookup(m, "look_strength"@) == Some(
                Meta::Number(Num::Fin(1_000_000_000_000_000)),
            );
            let out = without_idle_strength(m, asked);
            &&& !idle ==> out == m
            &&& idle ==> lookup(out, "look_strength"@) is None && lookup(out, "look_lut"@) == lookup(
                m,
                "look_lut"@,
            )
        }),
{
    reveal_strlit("look_strength");
    reveal_strlit("look_lut");
    assert("look_strength"@.len() != "look_lut"@.len());
    law_remove_then_lookup(m, "look_strength"@, "look_lut"@);
}

/// A table in a slot is checked as a table of the kind of that slot, and kept under its
/// path; a slot without one changes nothing.
pub proof fn law_slot_keeps_a_table_of_its_kind(
    index: usize,
    m: Pairs,
    slot: Str,
    expected: ExpectedLutKind,
    found: LutFile,
)
    ensures
        match slot_pairs(index, m, slot, expected, found) {
            Ok(out) => match lookup_text(m, slot) {
                None => out == m,
                Some(path) => {
                    &&& lut_path_of(index, path) == Ok::<Str, crate::error::Refusal>(trimmed(path))
                    &&& lut_contents_ok(index, trimmed(path), expected, found) is Ok
                    &&& lookup(out, slot) == Some(Meta::Text(trimmed(path)))
                },
            },
            Err(_) => lookup_text(m, slot) matches Some(path) && (lut_path_of(index, path) is Err
                || lut_contents_ok(index, trimmed(path), expected, found) is Err),
        },
{
    if let Some(path) = lookup_text(m, slot) {
        law_table_has_a_known_extension(index, path);
        law_put_then_lookup(m, slot, Meta::Text(trimmed(path)), slot);
    }
}

/// A registered effect is put on a clip, last, exactly where the registry has it, its
/// parameters can be brought into form, and it goes on clips.  It takes the place of others
/// of its kind where it is to, and else stands beside them.
pub proof fn law_registered_effect_is_put_on_the_clip(
    tl: TimelineModel,
    index: usize,
    id: Str,
    params: Pairs,
    rationale: Option<Str>,
    v: EffectVerdict,
    loc: ClipLocator,
)
    requires
        has_clip(tl, loc),
    ensures
        match effect_set(tl, index, id, params, rationale, v, Some(loc)) {
            Ok((out, _)) => {
                let was = the_clip(tl, loc);
                let now = the_clip(out, loc);
                let e = v.effect->Ok_0;
                let m = effect_pairs(index, params, e, v)->Ok_0;
                &&& v.effect is Ok && e.clip_scoped && effect_pairs(index, params, e, v) is Ok
                &&& only_clip(tl, out, loc)
                &&& now == (ClipModel { effects: now.effects, ..was })
                &&& now.effects.len() > 0
                &&& now.effects.last().effect_name == e.id@
                &&& now.effects.last().name == e.display_name@
                &&& !e.replaces_same ==> now.effects.drop_last() == was.effects
                &&& e.replaces_same ==> gains(was, now, e.id@)
                &&& match rationale {
                    Some(s) if !is_blank(s) => tells(now, "rationale"@) == Some(Meta::Text(s)),
                    _ => now.effects.last().metadata == m,
                }
            },
            Err(_) => v.effect is Err || effect_pairs(index, params, v.effect->Ok_0, v) is Err
                || !v.effect->Ok_0.clip_scoped,
        },
{
    law_a_place_is_found(tl, loc);
    if let Ok((out, _)) = effect_set(tl, index, id, params, rationale, v, Some(loc)) {
        let e = v.effect->Ok_0;
        let m = effect_pairs(index, params, e, v)->Ok_0;
        let kept = match rationale {
            Some(s) if !is_blank(s) => put(m, "rationale"@, Meta::Text(s)),
            _ => m,
        };
        if let Some(s) = rationale {
            law_put_then_lookup(m, "rationale"@, Meta::Text(s), "rationale"@);
        }
        let was = the_clip(tl, loc);
        let x = EffectModel { name: e.display_name@, effect_name: e.id@, metadata: kept };
        lemma_gains(was, x);
        let now = the_clip(out, loc);
        assert(now.effects.drop_last() =~= (if e.replaces_same {
            without_effect(was, e.id@)
        } else {
            was
        }).effects);
    }
}

/// The tables of a colour pipeline are each checked for their own slot: the shaper as a
/// table for one channel, all others for three.  What comes of one slot goes into the next.
pub proof fn law_tables_are_checked_slot_by_slot(index: usize, m: Pairs, luts: LutFiles)
    ensures
        ({
            let three = ExpectedLutKind::ThreeD;
            let a = slot_pairs(index, m, "input_transform_lut"@, three, luts.input_transform);
            let b = slot_pairs(
                index,
                a->Ok_0,
                "shaper_lut"@,
                ExpectedLutKind::OneD,
                luts.shaper,
            );
            let c = slot_pairs(index, b->Ok_0, "look_lut"@, three, luts.look);
            let d = slot_pairs(
                index,
                c->Ok_0,
                "output_transform_lut"@,
                three,
                luts.output_transform,
            );
            if a is Ok && b is Ok && c is Ok {
                crate::effect::slots_pairs(index, m, luts) == d
            } else {
                crate::effect::slots_pairs(index, m, luts) is Err
            }
        }),
{
}

/// A colour pipeline is taken only where the colour spaces in all four slots are known.
pub proof fn law_all_spaces_are_known(index: usize, m: Pairs, spaces: Seq<String>)
    ensures
        crate::effect::spaces_ok(index, m, spaces) is Ok <==> {
            &&& space_ok(index, m, "clip_input_space"@, spaces) is Ok
            &&& space_ok(index, m, "working_space"@, spaces) is Ok
            &&& space_ok(index, m, "lut_input_space"@, spaces) is Ok
            &&& space_ok(index, m, "output_space"@, spaces) is Ok
        },
{
}

/// The frame that a clip is held at, how long, and how, are asked of the registry each under
/// its own name.
pub proof fn law_freeze_asks_for_what_was_asked(
    at: Num,
    long: Num,
    position: Option<Str>,
    sound: Option<Str>,
)
    requires
        at is Fin,
        long is Fin,
    ensures
        ({
            let m = crate::effect::freeze_pairs(at, long, position, sound);
            &&& lookup(m, "freeze_at_source_s"@) == Some(Meta::Number(at))
            &&& lookup(m, "duration_s"@) == Some(Meta::Number(long))
            &&& lookup_text(m, "freeze_position"@) == position
            &&& lookup_text(m, "audio_behavior"@) == sound
        }),
{
    reveal_strlit("freeze_at_source_s");
    reveal_strlit("duration_s");
    reveal_strlit("freeze_position");
    reveal_strlit("audio_behavior");
    assert("freeze_at_source_s"@.len() == 18);
    assert("duration_s"@.len() == 10);
    assert("freeze_position"@.len() == 15);
    assert("audio_behavior"@.len() == 14);
    let m0 = Seq::<(Str, Meta)>::empty();
    let a = Meta::Number(at);
    let b = Meta::Number(long);
    let m1 = put(m0, "freeze_at_source_s"@, a);
    let m2 = put(m1, "duration_s"@, b);
    let c = crate::audio::text_opt(position);
    let d = crate::audio::text_opt(sound);
    let m3 = crate::audio::put_opt(m2, "freeze_position"@, c);
    crate::title_laws::lemma_put_one(m0, "freeze_at_source_s"@, a);
    crate::title_laws::lemma_put_one(m1, "duration_s"@, b);
    crate::title_laws::lemma_put_some(m2, "freeze_position"@, c);
    crate::title_laws::lemma_put_some(m3, "audio_behavior"@, d);
    assert(lookup(m0, "freeze_position"@) is None);
    assert(lookup(m0, "audio_behavior"@) is None);
}

} // verus!

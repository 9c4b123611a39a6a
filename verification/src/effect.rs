//! Effects on clips: the registered ones, speed, colour correction and colour
//! tables.
use vstd::prelude::*;

use crate::audio::{number_opt, put_opt, text_opt};
use crate::clip::{
    add_effect, drop_effect, effect_of, set_effect, with_effect, with_sole_effect, without_effect,
};
use crate::edit::with_clip;
use crate::effects::{COLOR_CORRECTION, COLOR_PIPELINE, LUT, SPEED};
use crate::error::{bad, checks, invalid, invalid_str, shows, ApplyError, Done, Refusal};
use crate::locate::{find_clip, found_clip};
use crate::lut::{
    lut_contents_ok, lut_format, lut_format_of, lut_interpolation_of, lut_path_of, lut_strength_of,
    mask_path_of, normalize_lut_interpolation, normalize_lut_path, normalize_lut_strength,
    normalize_mask_path, validate_lut_contents, ExpectedLutKind, LutFile, LutFormat,
};
use crate::meta::{lookup, lookup_text, number_meta, put, without, Meta, MetaMap, MetaValue, Pairs};
use crate::model::{
    opt, ClipLocator, ClipModel, Effect, EffectModel, Stored, Timeline, TimelineModel,
};
use crate::num::{one, zero, Num};
use crate::text::{
    blank, cat2, cat3, cat4, cat5, cat6, fix3, holds, is_blank, milli3, quote, quote_list, quoted,
    quoted_list, same, show, shown, strs, Str,
};

verus! {

// ---- registered effects ---------------------------------------------------

/// A registered effect, with the parameters that were asked for brought into
/// its form.
#[derive(Debug)]
pub struct NormalizedEffect {
    pub id: String,
    pub display_name: String,
    /// Whether the effect goes on clips.
    pub clip_scoped: bool,
    /// Whether the effect takes the place of others of its kind.
    pub replaces_same: bool,
    pub metadata: MetaMap,
}

/// What was found at the colour tables that an effect names.
#[derive(Debug)]
pub struct LutFiles {
    pub input_transform: LutFile,
    pub shaper: LutFile,
    pub look: LutFile,
    pub output_transform: LutFile,
}

/// What the registry of effects says of one that is to be put on a clip.
#[derive(Debug)]
pub struct EffectVerdict {
    /// The effect, or why there is none.
    pub effect: Result<NormalizedEffect, String>,
    /// The tables; a lone table is the look.
    pub luts: LutFiles,
    pub color_spaces: Vec<String>,
    pub mask_extensions: Vec<String>,
}

/// A map that was brought into form, or a refusal.
pub open spec fn formed(r: Result<MetaMap, ApplyError>, o: Result<Pairs, Refusal>) -> bool {
    match r {
        Ok(m) => o == Ok::<Pairs, Refusal>(m@),
        Err(e) => o == Err::<Pairs, Refusal>(e@),
    }
}

/// The number under a key, if a number stands there.
pub open spec fn lookup_number(m: Pairs, key: Str) -> Option<Num> {
    match lookup(m, key) {
        Some(Meta::Number(n)) => Some(n),
        _ => None,
    }
}

fn get_number(m: &MetaMap, key: &str) -> (r: Option<Num>)
    ensures
        r == lookup_number(m@, key@),
{
    match m.get(key) {
        Some(v) => v.as_number(),
        None => None,
    }
}

/// The map with a value under a key, or without the key where there is none.
pub open spec fn put_or_drop(m: Pairs, key: Str, value: Option<Meta>) -> Pairs {
    match value {
        Some(v) => put(m, key, v),
        None => without(m, key),
    }
}

/// The parameters of a lone table, brought into form.
pub open spec fn lut_pairs(index: usize, m: Pairs, found: LutFile) -> Result<Pairs, Refusal> {
    match lookup_text(m, "lut_path"@) {
        None => Err(bad(index, "set_effect: montage.lut requires string lut_path"@)),
        Some(given) => match lut_path_of(index, given) {
            Err(e) => Err(e),
            Ok(path) => match lut_contents_ok(index, path, ExpectedLutKind::ThreeD, found) {
                Err(e) => Err(e),
                Ok(_) => {
                    let m1 = put(m, "lut_path"@, Meta::Text(path));
                    match lut_interpolation_of(index, lookup_text(m1, "interpolation"@)) {
                        Err(e) => Err(e),
                        Ok(i) => {
                            let m2 = put_or_drop(m1, "interpolation"@, text_opt(i));
                            match lut_strength_of(index, lookup_number(m2, "strength"@)) {
                                Err(e) => Err(e),
                                Ok(s) => Ok(put_or_drop(m2, "strength"@, number_opt(s))),
                            }
                        },
                    }
                },
            },
        },
    }
}

/// Brings the parameters of a lone table into form.
pub fn normalize_lut_metadata(index: usize, metadata: MetaMap, found: &LutFile) -> (r: Result<
    MetaMap,
    ApplyError,
>)
    ensures
        formed(r, lut_pairs(index, metadata@, *found)),
{
    let mut m = metadata;
    let given = match m.get_text("lut_path") {
        Some(s) => s,
        None => {
            return Err(
                invalid_str(index, "set_effect: montage.lut requires string lut_path"),
            );
        },
    };
    let path = match normalize_lut_path(index, given.as_str()) {
        Ok(p) => p,
        Err(e) => {
            return Err(e);
        },
    };
    if let Err(e) = validate_lut_contents(index, path.as_str(), ExpectedLutKind::ThreeD, found) {
        return Err(e);
    }
    m.insert("lut_path", MetaValue::text(path.as_str()));
    let interpolation = m.get_text("interpolation");
    match normalize_lut_interpolation(index, &interpolation) {
        Err(e) => {
            return Err(e);
        },
        Ok(Some(s)) => {
            m.insert("interpolation", MetaValue::text(s.as_str()));
        },
        Ok(None) => {
            m.remove("interpolation");
        },
    }
    let strength = get_number(&m, "strength");
    match normalize_lut_strength(index, strength) {
        Err(e) => {
            return Err(e);
        },
        Ok(Some(v)) => {
            m.insert("strength", MetaValue::number(v));
        },
        Ok(None) => {
            m.remove("strength");
        },
    }
    Ok(m)
}

/// Whether the colour space in a slot is a known one.
pub open spec fn space_ok(index: usize, m: Pairs, slot: Str, spaces: Seq<String>) -> Result<
    (),
    Refusal,
> {
    match lookup_text(m, slot) {
        Some(v) if !strs(spaces).contains(v) => Err(
            bad(
                index,
                "set_effect: montage.color_pipeline "@ + slot + " "@ + quoted(v)
                    + " is not a known color space; expected one of "@ + quoted_list(spaces),
            ),
        ),
        _ => Ok(()),
    }
}

fn check_space(index: usize, m: &MetaMap, slot: &str, spaces: &Vec<String>) -> (r: Result<
    (),
    ApplyError,
>)
    ensures
        checks(r, space_ok(index, m@, slot@, spaces@)),
{
    if let Some(v) = m.get_text(slot) {
        if !holds(spaces, v.as_str()) {
            return Err(
                invalid(
                    index,
                    cat6(
                        "set_effect: montage.color_pipeline ",
                        slot,
                        " ",
                        quote(v.as_str()).as_str(),
                        " is not a known color space; expected one of ",
                        quote_list(spaces).as_str(),
                    ),
                ),
            );
        }
    }
    Ok(())
}

/// Whether the colour spaces in all slots are known ones.
pub open spec fn spaces_ok(index: usize, m: Pairs, spaces: Seq<String>) -> Result<(), Refusal> {
    match space_ok(index, m, "clip_input_space"@, spaces) {
        Err(e) => Err(e),
        Ok(_) => match space_ok(index, m, "working_space"@, spaces) {
            Err(e) => Err(e),
            Ok(_) => match space_ok(index, m, "lut_input_space"@, spaces) {
                Err(e) => Err(e),
                Ok(_) => space_ok(index, m, "output_space"@, spaces),
            },
        },
    }
}

fn check_spaces(index: usize, m: &MetaMap, spaces: &Vec<String>) -> (r: Result<(), ApplyError>)
    ensures
        checks(r, spaces_ok(index, m@, spaces@)),
{
    if let Err(e) = check_space(index, m, "clip_input_space", spaces) {
        return Err(e);
    }
    if let Err(e) = check_space(index, m, "working_space", spaces) {
        return Err(e);
    }
    if let Err(e) = check_space(index, m, "lut_input_space", spaces) {
        return Err(e);
    }
    check_space(index, m, "output_space", spaces)
}

/// A refusal that names the slot it is about.
pub open spec fn in_slot(e: Refusal, slot: Str) -> Refusal {
    match e {
        Refusal::Invalid { index, message } => bad(
            index,
            "set_effect: montage.color_pipeline "@ + slot + ": "@ + message,
        ),
        other => other,
    }
}

fn name_slot(e: ApplyError, slot: &str) -> (r: ApplyError)
    ensures
        r@ == in_slot(e@, slot@),
{
    match e {
        ApplyError::Invalid { index, message } => invalid(
            index,
            cat4("set_effect: montage.color_pipeline ", slot, ": ", message.as_str()),
        ),
        other => other,
    }
}

/// The parameters with the table in a slot brought into form.
pub open spec fn slot_pairs(
    index: usize,
    m: Pairs,
    slot: Str,
    expected: ExpectedLutKind,
    found: LutFile,
) -> Result<Pairs, Refusal> {
    match lookup_text(m, slot) {
        None => Ok(m),
        Some(given) => match lut_path_of(index, given) {
            Err(e) => Err(in_slot(e, slot)),
            Ok(path) => match lut_contents_ok(index, path, expected, found) {
                Err(e) => Err(in_slot(e, slot)),
                Ok(_) => Ok(put(m, slot, Meta::Text(path))),
            },
        },
    }
}

fn normalize_slot(
    index: usize,
    metadata: MetaMap,
    slot: &str,
    expected: ExpectedLutKind,
    found: &LutFile,
) -> (r: Result<MetaMap, ApplyError>)
    ensures
        formed(r, slot_pairs(index, metadata@, slot@, expected, *found)),
{
    let mut m = metadata;
    match m.get_text(slot) {
        None => Ok(m),
        Some(given) => match normalize_lut_path(index, given.as_str()) {
            Err(e) => Err(name_slot(e, slot)),
            Ok(path) => match validate_lut_contents(index, path.as_str(), expected, found) {
                Err(e) => Err(name_slot(e, slot)),
                Ok(_) => {
                    m.insert(slot, MetaValue::text(path.as_str()));
                    Ok(m)
                },
            },
        },
    }
}

/// The parameters with the tables in all slots brought into form.
pub open spec fn slots_pairs(index: usize, m: Pairs, luts: LutFiles) -> Result<Pairs, Refusal> {
    match slot_pairs(
        index,
        m,
        "input_transform_lut"@,
        ExpectedLutKind::ThreeD,
        luts.input_transform,
    ) {
        Err(e) => Err(e),
        Ok(m) => match slot_pairs(index, m, "shaper_lut"@, ExpectedLutKind::OneD, luts.shaper) {
            Err(e) => Err(e),
            Ok(m) => match slot_pairs(index, m, "look_lut"@, ExpectedLutKind::ThreeD, luts.look) {
                Err(e) => Err(e),
                Ok(m) => slot_pairs(
                    index,
                    m,
                    "output_transform_lut"@,
                    ExpectedLutKind::ThreeD,
                    luts.output_transform,
                ),
            },
        },
    }
}

fn normalize_slots(index: usize, metadata: MetaMap, luts: &LutFiles) -> (r: Result<
    MetaMap,
    ApplyError,
>)
    ensures
        formed(r, slots_pairs(index, metadata@, *luts)),
{
    match normalize_slot(
        index,
        metadata,
        "input_transform_lut",
        ExpectedLutKind::ThreeD,
        &luts.input_transform,
    ) {
        Err(e) => Err(e),
        Ok(m) => match normalize_slot(
            index,
            m,
            "shaper_lut",
            ExpectedLutKind::OneD,
            &luts.shaper,
        ) {
            Err(e) => Err(e),
            Ok(m) => match normalize_slot(
                index,
                m,
                "look_lut",
                ExpectedLutKind::ThreeD,
                &luts.look,
            ) {
                Err(e) => Err(e),
                Ok(m) => normalize_slot(
                    index,
                    m,
                    "output_transform_lut",
                    ExpectedLutKind::ThreeD,
                    &luts.output_transform,
                ),
            },
        },
    }
}

/// Whether what depends on the look comes with a look.
pub open spec fn look_ok(index: usize, m: Pairs) -> Result<(), Refusal> {
    if lookup(m, "look_lut"@) is Some {
        Ok(())
    } else if lookup(m, "look_interpolation"@) is Some {
        Err(
            bad(
                index,
                "set_effect: montage.color_pipeline look_interpolation requires look_lut to also be set"@,
            ),
        )
    } else if lookup(m, "lut_input_space"@) is Some {
        Err(
            bad(
                index,
                "set_effect: montage.color_pipeline lut_input_space requires look_lut to also be set"@,
            ),
        )
    } else {
        match lookup_number(m, "look_strength"@) {
            Some(s) => Err(
                bad(
                    index,
                    if s == one() {
                        "set_effect: montage.color_pipeline look_strength requires look_lut to also be set"@
                    } else {
                        "set_effect: montage.color_pipeline look_strength != 1.0 requires look_lut"@
                    },
                ),
            ),
            None => Ok(()),
        }
    }
}

fn check_look(index: usize, m: &MetaMap) -> (r: Result<(), ApplyError>)
    ensures
        checks(r, look_ok(index, m@)),
{
    if m.get("look_lut").is_some() {
        return Ok(());
    }
    if m.get("look_interpolation").is_some() {
        return Err(
            invalid_str(
                index,
                "set_effect: montage.color_pipeline look_interpolation requires look_lut to also be set",
            ),
        );
    }
    if m.get("lut_input_space").is_some() {
        return Err(
            invalid_str(
                index,
                "set_effect: montage.color_pipeline lut_input_space requires look_lut to also be set",
            ),
        );
    }
    match get_number(m, "look_strength") {
        Some(s) => Err(
            invalid_str(
                index,
                if s == one() {
                    "set_effect: montage.color_pipeline look_strength requires look_lut to also be set"
                } else {
                    "set_effect: montage.color_pipeline look_strength != 1.0 requires look_lut"
                },
            ),
        ),
        None => Ok(()),
    }
}

/// The parameters with the mask brought into form.
pub open spec fn mask_pairs(index: usize, m: Pairs, extensions: Seq<Str>) -> Result<Pairs, Refusal> {
    match lookup_text(m, "mask_source"@) {
        None => Ok(m),
        Some(v) => match mask_path_of(index, v, extensions) {
            Err(e) => Err(e),
            Ok(p) => Ok(put(m, "mask_source"@, Meta::Text(p))),
        },
    }
}

/// The parameters of a colour pipeline without a strength of the look that says
/// nothing: a full strength that was not asked for but filled in, where there is
/// no look.
pub open spec fn without_idle_strength(m: Pairs, asked: Pairs) -> Pairs {
    if lookup(m, "look_lut"@) is None && lookup(asked, "look_strength"@) is None && lookup_number(
        m,
        "look_strength"@,
    ) == Some(one()) {
        without(m, "look_strength"@)
    } else {
        m
    }
}

fn drop_idle_strength(m: MetaMap, asked: &MetaMap) -> (r: MetaMap)
    ensures
        r@ == without_idle_strength(m@, asked@),
{
    let mut out = m;
    let full = match get_number(&out, "look_strength") {
        Some(s) => s == one(),
        None => false,
    };
    if full && out.get("look_lut").is_none() && asked.get("look_strength").is_none() {
        out.remove("look_strength");
    }
    out
}

/// The parameters of a colour pipeline, brought into form: known colour spaces,
/// tables of the right kinds, a mask, and nothing that depends on a look without
/// one, but for a full strength that was not asked for.
pub open spec fn pipeline_pairs(
    index: usize,
    m: Pairs,
    asked: Pairs,
    luts: LutFiles,
    spaces: Seq<String>,
    extensions: Seq<Str>,
) -> Result<Pairs, Refusal> {
    match spaces_ok(index, m, spaces) {
        Err(e) => Err(e),
        Ok(_) => match slots_pairs(index, m, luts) {
            Err(e) => Err(e),
            Ok(m1) => match mask_pairs(index, m1, extensions) {
                Err(e) => Err(e),
                Ok(m2) => match lut_interpolation_of(
                    index,
                    lookup_text(m2, "look_interpolation"@),
                ) {
                    Err(e) => Err(e),
                    Ok(i) => {
                        let m3 = put_or_drop(m2, "look_interpolation"@, text_opt(i));
                        match look_ok(index, without_idle_strength(m3, asked)) {
                            Err(e) => Err(e),
                            Ok(_) => Ok(m3),
                        }
                    },
                },
            },
        },
    }
}

/// Brings the parameters of a colour pipeline into form.
pub fn normalize_color_pipeline_metadata(
    index: usize,
    metadata: MetaMap,
    luts: &LutFiles,
    spaces: &Vec<String>,
    extensions: &Vec<String>,
) -> (r: Result<MetaMap, ApplyError>)
    ensures
        formed(
            r,
            pipeline_pairs(index, metadata@, metadata@, *luts, spaces@, strs(extensions@)),
        ),
{
    let asked = metadata.copied();
    normalize_filled_pipeline(index, metadata, &asked, luts, spaces, extensions)
}

/// Brings the parameters of a colour pipeline into form, of which some were asked
/// for and the others filled in.
pub fn normalize_filled_pipeline(
    index: usize,
    metadata: MetaMap,
    asked: &MetaMap,
    luts: &LutFiles,
    spaces: &Vec<String>,
    extensions: &Vec<String>,
) -> (r: Result<MetaMap, ApplyError>)
    ensures
        formed(r, pipeline_pairs(index, metadata@, asked@, *luts, spaces@, strs(extensions@))),
{
    if let Err(e) = check_spaces(index, &metadata, spaces) {
        return Err(e);
    }
    let mut m = match normalize_slots(index, metadata, luts) {
        Ok(m) => m,
        Err(e) => {
            return Err(e);
        },
    };
    if let Some(v) = m.get_text("mask_source") {
        match normalize_mask_path(index, v.as_str(), extensions) {
            Err(e) => {
                return Err(e);
            },
            Ok(p) => {
                m.insert("mask_source", MetaValue::text(p.as_str()));
            },
        }
    }
    let interpolation = m.get_text("look_interpolation");
    match normalize_lut_interpolation(index, &interpolation) {
        Err(e) => {
            return Err(e);
        },
        Ok(Some(s)) => {
            m.insert("look_interpolation", MetaValue::text(s.as_str()));
        },
        Ok(None) => {
            m.remove("look_interpolation");
        },
    }
    match check_look(index, &drop_idle_strength(m.copied(), asked)) {
        Err(e) => Err(e),
        Ok(_) => Ok(m),
    }
}

/// The parameters of a registered effect, brought into the form that tables
/// and colour pipelines ask for.
pub open spec fn effect_pairs(
    index: usize,
    asked: Pairs,
    e: NormalizedEffect,
    v: EffectVerdict,
) -> Result<Pairs, Refusal> {
    if e.id@ == LUT@ {
        lut_pairs(index, e.metadata@, v.luts.look)
    } else if e.id@ == COLOR_PIPELINE@ {
        pipeline_pairs(
            index,
            e.metadata@,
            asked,
            v.luts,
            v.color_spaces@,
            strs(v.mask_extensions@),
        )
    } else {
        Ok(e.metadata@)
    }
}

/// The clip with a registered effect.
pub open spec fn with_registered(c: ClipModel, e: NormalizedEffect, m: Pairs) -> ClipModel {
    with_effect(
        if e.replaces_same {
            without_effect(c, e.id@)
        } else {
            c
        },
        EffectModel { name: e.display_name@, effect_name: e.id@, metadata: m },
    )
}

/// Putting a registered effect on a clip, with the parameters asked for as the
/// registry has filled them in.
pub open spec fn effect_set(
    tl: TimelineModel,
    index: usize,
    effect_id: Str,
    params: Pairs,
    rationale: Option<Str>,
    v: EffectVerdict,
    locator: Option<ClipLocator>,
) -> Done {
    match v.effect {
        Err(e) => Err(bad(index, "set_effect: "@ + e@)),
        Ok(e) => match effect_pairs(index, params, e, v) {
            Err(r) => Err(r),
            Ok(m) => if !e.clip_scoped {
                Err(
                    bad(
                        index,
                        "set_effect: effect "@ + quoted(effect_id)
                            + " is not a clip-scoped effect"@,
                    ),
                )
            } else {
                let m = match rationale {
                    Some(s) if !is_blank(s) => put(m, "rationale"@, Meta::Text(s)),
                    _ => m,
                };
                match found_clip(tl, index, locator, "set_effect: "@) {
                    Err(r) => Err(r),
                    Ok((loc, c)) => Ok(
                        (
                            with_clip(tl, loc, with_registered(c, e, m)),
                            "set effect "@ + e.id@ + " on clip "@ + quoted(c.name),
                        ),
                    ),
                }
            },
        },
    }
}

/// Puts a registered effect on a clip.
pub fn apply_set_effect(
    working: Timeline,
    index: usize,
    effect_id: &str,
    params: &MetaMap,
    rationale: &Option<String>,
    v: &EffectVerdict,
    locator: Option<ClipLocator>,
) -> (r: Result<(Timeline, String), ApplyError>)
    ensures
        shows(
            r,
            effect_set(working@, index, effect_id@, params@, opt(*rationale), *v, locator),
        ),
{
    let e = match &v.effect {
        Ok(e) => e,
        Err(e) => {
            return Err(invalid(index, cat2("set_effect: ", e.as_str())));
        },
    };
    let formed = if same(e.id.as_str(), LUT) {
        normalize_lut_metadata(index, e.metadata.copied(), &v.luts.look)
    } else if same(e.id.as_str(), COLOR_PIPELINE) {
        normalize_filled_pipeline(
            index,
            e.metadata.copied(),
            params,
            &v.luts,
            &v.color_spaces,
            &v.mask_extensions,
        )
    } else {
        Ok(e.metadata.copied())
    };
    let mut m = match formed {
        Ok(m) => m,
        Err(r) => {
            return Err(r);
        },
    };
    if !e.clip_scoped {
        return Err(
            invalid(
                index,
                cat3(
                    "set_effect: effect ",
                    quote(effect_id).as_str(),
                    " is not a clip-scoped effect",
                ),
            ),
        );
    }
    if let Some(s) = rationale {
        if !blank(s.as_str()) {
            m.insert("rationale", MetaValue::text(s.as_str()));
        }
    }
    let (loc, c) = match find_clip(&working, index, locator, "set_effect: ") {
        Ok(p) => p,
        Err(r) => {
            return Err(r);
        },
    };
    let said = cat4(
        "set effect ",
        e.id.as_str(),
        " on clip ",
        quote(c.name.as_str()).as_str(),
    );
    let mut c = c;
    if e.replaces_same {
        drop_effect(&mut c, e.id.as_str());
    }
    add_effect(
        &mut c,
        Effect { name: e.display_name.clone(), effect_name: e.id.clone(), metadata: m },
    );
    let mut out = working;
    out.put_clip(loc, c);
    Ok((out, said))
}

/// The colour table in a slot, trimmed, where one is named as it should be.
pub open spec fn asked_path(m: Pairs, slot: Str) -> Option<Str> {
    match lookup_text(m, slot) {
        None => None,
        Some(given) => match lut_path_of(0, given) {
            Ok(path) => Some(path),
            Err(_) => None,
        },
    }
}

/// A colour table that is to be looked at.
#[derive(Debug)]
pub struct AskedTable {
    pub path: String,
    /// How it is read, where it is read at all.
    pub format: Option<LutFormat>,
}

/// The colour table in a slot that is to be looked at.
pub fn asked_table(m: &MetaMap, slot: &str, expected: ExpectedLutKind) -> (r: Option<AskedTable>)
    ensures
        match r {
            Some(t) => asked_path(m@, slot@) == Some(t.path@) && t.format == lut_format_of(
                t.path@,
                expected,
            ),
            None => asked_path(m@, slot@) is None,
        },
{
    match m.get_text(slot) {
        None => None,
        Some(given) => match normalize_lut_path(0, given.as_str()) {
            Ok(path) => {
                let format = lut_format(path.as_str(), expected);
                Some(AskedTable { path, format })
            },
            Err(_) => None,
        },
    }
}

/// The parameters of a speed that changes along the clip.
pub open spec fn time_remap_pairs(curve: Meta) -> Pairs {
    put(Seq::empty(), "curve"@, curve)
}

/// The parameters of a speed that changes along the clip.
pub fn time_remap_params(curve: &MetaValue) -> (r: MetaMap)
    ensures
        r@ == time_remap_pairs(curve@),
{
    MetaMap::new().with("curve", curve.copied())
}

/// The parameters of a held frame.
pub open spec fn freeze_pairs(
    freeze_at_source_s: Num,
    duration_s: Num,
    freeze_position: Option<Str>,
    audio_behavior: Option<Str>,
) -> Pairs {
    let m = put(Seq::empty(), "freeze_at_source_s"@, number_meta(freeze_at_source_s));
    let m = put(m, "duration_s"@, number_meta(duration_s));
    let m = put_opt(m, "freeze_position"@, text_opt(freeze_position));
    put_opt(m, "audio_behavior"@, text_opt(audio_behavior))
}

/// The parameters of a held frame.
pub fn freeze_params(
    freeze_at_source_s: Num,
    duration_s: Num,
    freeze_position: &Option<String>,
    audio_behavior: &Option<String>,
) -> (r: MetaMap)
    ensures
        r@ == freeze_pairs(
            freeze_at_source_s,
            duration_s,
            opt(*freeze_position),
            opt(*audio_behavior),
        ),
{
    let mut m = MetaMap::new().with(
        "freeze_at_source_s",
        MetaValue::number(freeze_at_source_s),
    ).with("duration_s", MetaValue::number(duration_s));
    if let Some(s) = freeze_position {
        m.insert("freeze_position", MetaValue::text(s.as_str()));
    }
    if let Some(s) = audio_behavior {
        m.insert("audio_behavior", MetaValue::text(s.as_str()));
    }
    m
}

// ---- speed ----------------------------------------------------------------

/// Changing the speed of a clip.
pub open spec fn speed_set(tl: TimelineModel, index: usize, factor: Num, locator: Option<ClipLocator>) -> Done {
    if !factor.is_finite() || factor.at_most(zero()) {
        Err(bad(index, "set_speed: factor "@ + shown(factor) + " must be finite and > 0.0"@))
    } else {
        match found_clip(tl, index, locator, "set_speed: "@) {
            Err(e) => Err(e),
            Ok((loc, c)) => Ok(
                (
                    with_clip(
                        tl,
                        loc,
                        with_sole_effect(
                            c,
                            effect_of(SPEED@, put(Seq::empty(), "factor"@, number_meta(factor))),
                        ),
                    ),
                    "set speed on clip "@ + quoted(c.name) + " to "@ + milli3(factor)
                        + "× (timeline duration scales by 1/factor)"@,
                ),
            ),
        }
    }
}

/// Changes the speed of a clip.
pub fn apply_set_speed(working: Timeline, index: usize, factor: Num, locator: Option<ClipLocator>) -> (r:
    Result<(Timeline, String), ApplyError>)
    ensures
        shows(r, speed_set(working@, index, factor, locator)),
{
    if !factor.is_finite() || factor.at_most(zero()) {
        return Err(
            invalid(
                index,
                cat3("set_speed: factor ", show(factor).as_str(), " must be finite and > 0.0"),
            ),
        );
    }
    let (loc, c) = match find_clip(&working, index, locator, "set_speed: ") {
        Ok(p) => p,
        Err(e) => {
            return Err(e);
        },
    };
    let said = cat5(
        "set speed on clip ",
        quote(c.name.as_str()).as_str(),
        " to ",
        fix3(factor).as_str(),
        "× (timeline duration scales by 1/factor)",
    );
    let mut c = c;
    set_effect(
        &mut c,
        Effect::new(SPEED, MetaMap::new().with("factor", MetaValue::number(factor))),
    );
    let mut out = working;
    out.put_clip(loc, c);
    Ok((out, said))
}

// ---- colour correction ----------------------------------------------------

/// How the colours of a clip are corrected.
#[derive(Clone, Copy, Debug, PartialEq, Eq, Structural)]
pub struct ColorCorrection {
    pub exposure_ev: Option<Num>,
    pub contrast: Option<Num>,
    pub saturation: Option<Num>,
    pub temperature: Option<Num>,
    pub tint: Option<Num>,
    pub shadows: Option<Num>,
    pub highlights: Option<Num>,
}

/// The number of whole units.
#[verifier::allow_in_spec]
pub fn units(n: i8) -> Num
    returns
        Num::Fin((n * 1_000_000_000_000_000) as i128),
{
    let m: i128 = n as i128;
    Num::Fin(m * 1_000_000_000_000_000)
}

/// Whether a correction is missing or within its bounds.
pub open spec fn field_ok(index: usize, name: Str, value: Option<Num>, low: i8, high: i8) -> Result<
    (),
    Refusal,
> {
    match value {
        Some(v) if !v.is_finite() || v.less(units(low)) || units(high).less(v) => Err(
            bad(
                index,
                "set_color_correction: "@ + name + " "@ + shown(v)
                    + " must be finite and within ["@ + shown(units(low)) + ", "@ + shown(
                    units(high),
                ) + "]"@,
            ),
        ),
        _ => Ok(()),
    }
}

fn check_field(index: usize, name: &str, value: Option<Num>, low: i8, high: i8) -> (r: Result<
    (),
    ApplyError,
>)
    ensures
        checks(r, field_ok(index, name@, value, low, high)),
{
    if let Some(v) = value {
        if !v.is_finite() || v.less(units(low)) || units(high).less(v) {
            let head = cat5(
                "set_color_correction: ",
                name,
                " ",
                show(v).as_str(),
                " must be finite and within [",
            );
            return Err(
                invalid(
                    index,
                    cat5(
                        head.as_str(),
                        show(units(low)).as_str(),
                        ", ",
                        show(units(high)).as_str(),
                        "]",
                    ),
                ),
            );
        }
    }
    Ok(())
}

/// Whether a correction says something, and stays within its bounds.
pub open spec fn correction_ok(index: usize, k: ColorCorrection) -> Result<(), Refusal> {
    if k.exposure_ev is None && k.contrast is None && k.saturation is None && k.temperature is None
        && k.tint is None && k.shadows is None && k.highlights is None {
        Err(bad(index, "set_color_correction: provide at least one correction field"@))
    } else if field_ok(index, "exposure_ev"@, k.exposure_ev, -4i8 as i8, 4) is Err {
        field_ok(index, "exposure_ev"@, k.exposure_ev, -4i8 as i8, 4)
    } else if field_ok(index, "contrast"@, k.contrast, 0, 3) is Err {
        field_ok(index, "contrast"@, k.contrast, 0, 3)
    } else if field_ok(index, "saturation"@, k.saturation, 0, 3) is Err {
        field_ok(index, "saturation"@, k.saturation, 0, 3)
    } else if field_ok(index, "temperature"@, k.temperature, -1i8 as i8, 1) is Err {
        field_ok(index, "temperature"@, k.temperature, -1i8 as i8, 1)
    } else if field_ok(index, "tint"@, k.tint, -1i8 as i8, 1) is Err {
        field_ok(index, "tint"@, k.tint, -1i8 as i8, 1)
    } else if field_ok(index, "shadows"@, k.shadows, -1i8 as i8, 1) is Err {
        field_ok(index, "shadows"@, k.shadows, -1i8 as i8, 1)
    } else {
        field_ok(index, "highlights"@, k.highlights, -1i8 as i8, 1)
    }
}

fn check_correction(index: usize, k: &ColorCorrection) -> (r: Result<(), ApplyError>)
    ensures
        checks(r, correction_ok(index, *k)),
{
    if k.exposure_ev.is_none() && k.contrast.is_none() && k.saturation.is_none()
        && k.temperature.is_none() && k.tint.is_none() && k.shadows.is_none()
        && k.highlights.is_none() {
        return Err(
            invalid_str(index, "set_color_correction: provide at least one correction field"),
        );
    }
    if let Err(e) = check_field(index, "exposure_ev", k.exposure_ev, -4, 4) {
        return Err(e);
    }
    if let Err(e) = check_field(index, "contrast", k.contrast, 0, 3) {
        return Err(e);
    }
    if let Err(e) = check_field(index, "saturation", k.saturation, 0, 3) {
        return Err(e);
    }
    if let Err(e) = check_field(index, "temperature", k.temperature, -1, 1) {
        return Err(e);
    }
    if let Err(e) = check_field(index, "tint", k.tint, -1, 1) {
        return Err(e);
    }
    if let Err(e) = check_field(index, "shadows", k.shadows, -1, 1) {
        return Err(e);
    }
    check_field(index, "highlights", k.highlights, -1, 1)
}

/// A correction as it is kept.
pub open spec fn correction_pairs(k: ColorCorrection) -> Pairs {
    let m = put_opt(Seq::empty(), "exposure_ev"@, number_opt(k.exposure_ev));
    let m = put_opt(m, "contrast"@, number_opt(k.contrast));
    let m = put_opt(m, "saturation"@, number_opt(k.saturation));
    let m = put_opt(m, "temperature"@, number_opt(k.temperature));
    let m = put_opt(m, "tint"@, number_opt(k.tint));
    let m = put_opt(m, "shadows"@, number_opt(k.shadows));
    put_opt(m, "highlights"@, number_opt(k.highlights))
}

fn insert_number(m: &mut MetaMap, key: &str, value: Option<Num>)
    ensures
        final(m)@ == put_opt(old(m)@, key@, number_opt(value)),
{
    if let Some(v) = value {
        m.insert(key, MetaValue::number(v));
    }
}

fn make_correction(k: &ColorCorrection) -> (r: MetaMap)
    ensures
        r@ == correction_pairs(*k),
{
    let mut m = MetaMap::new();
    insert_number(&mut m, "exposure_ev", k.exposure_ev);
    insert_number(&mut m, "contrast", k.contrast);
    insert_number(&mut m, "saturation", k.saturation);
    insert_number(&mut m, "temperature", k.temperature);
    insert_number(&mut m, "tint", k.tint);
    insert_number(&mut m, "shadows", k.shadows);
    insert_number(&mut m, "highlights", k.highlights);
    m
}

/// Correcting the colours of a clip.
pub open spec fn correction_set(
    tl: TimelineModel,
    index: usize,
    k: ColorCorrection,
    locator: Option<ClipLocator>,
) -> Done {
    match correction_ok(index, k) {
        Err(e) => Err(e),
        Ok(_) => match found_clip(tl, index, locator, "set_color_correction: "@) {
            Err(e) => Err(e),
            Ok((loc, c)) => Ok(
                (
                    with_clip(
                        tl,
                        loc,
                        with_sole_effect(c, effect_of(COLOR_CORRECTION@, correction_pairs(k))),
                    ),
                    "set color correction on clip "@ + quoted(c.name),
                ),
            ),
        },
    }
}

/// Corrects the colours of a clip.
pub fn apply_set_color_correction(
    working: Timeline,
    index: usize,
    k: &ColorCorrection,
    locator: Option<ClipLocator>,
) -> (r: Result<(Timeline, String), ApplyError>)
    ensures
        shows(r, correction_set(working@, index, *k, locator)),
{
    if let Err(e) = check_correction(index, k) {
        return Err(e);
    }
    let (loc, c) = match find_clip(&working, index, locator, "set_color_correction: ") {
        Ok(p) => p,
        Err(e) => {
            return Err(e);
        },
    };
    let said = cat2("set color correction on clip ", quote(c.name.as_str()).as_str());
    let mut c = c;
    set_effect(&mut c, Effect::new(COLOR_CORRECTION, make_correction(k)));
    let mut out = working;
    out.put_clip(loc, c);
    Ok((out, said))
}

// ---- colour tables --------------------------------------------------------

/// Putting a colour table on a clip.
pub open spec fn lut_applied(
    tl: TimelineModel,
    index: usize,
    lut_path: Str,
    interpolation: Option<Str>,
    strength: Option<Num>,
    found: LutFile,
    locator: Option<ClipLocator>,
) -> Done {
    match lut_path_of(index, lut_path) {
        Err(e) => Err(e),
        Ok(path) => match lut_interpolation_of(index, interpolation) {
            Err(e) => Err(e),
            Ok(i) => match lut_strength_of(index, strength) {
                Err(e) => Err(e),
                Ok(s) => match lut_contents_ok(index, path, ExpectedLutKind::ThreeD, found) {
                    Err(e) => Err(e),
                    Ok(_) => match found_clip(tl, index, locator, "apply_lut: "@) {
                        Err(e) => Err(e),
                        Ok((loc, c)) => {
                            let m = put(Seq::empty(), "lut_path"@, Meta::Text(path));
                            let m = put_opt(m, "interpolation"@, text_opt(i));
                            let m = put_opt(m, "strength"@, number_opt(s));
                            Ok(
                                (
                                    with_clip(tl, loc, with_sole_effect(c, effect_of(LUT@, m))),
                                    "applied LUT "@ + quoted(path) + " to clip "@ + quoted(c.name),
                                ),
                            )
                        },
                    },
                },
            },
        },
    }
}

/// Puts a colour table on a clip.
pub fn apply_lut(
    working: Timeline,
    index: usize,
    lut_path: &str,
    interpolation: &Option<String>,
    strength: Option<Num>,
    found: &LutFile,
    locator: Option<ClipLocator>,
) -> (r: Result<(Timeline, String), ApplyError>)
    ensures
        shows(
            r,
            lut_applied(
                working@,
                index,
                lut_path@,
                opt(*interpolation),
                strength,
                *found,
                locator,
            ),
        ),
{
    let path = match normalize_lut_path(index, lut_path) {
        Ok(p) => p,
        Err(e) => {
            return Err(e);
        },
    };
    let i = match normalize_lut_interpolation(index, interpolation) {
        Ok(i) => i,
        Err(e) => {
            return Err(e);
        },
    };
    let s = match normalize_lut_strength(index, strength) {
        Ok(s) => s,
        Err(e) => {
            return Err(e);
        },
    };
    if let Err(e) = validate_lut_contents(index, path.as_str(), ExpectedLutKind::ThreeD, found) {
        return Err(e);
    }
    let (loc, c) = match find_clip(&working, index, locator, "apply_lut: ") {
        Ok(p) => p,
        Err(e) => {
            return Err(e);
        },
    };
    let said = cat4(
        "applied LUT ",
        quote(path.as_str()).as_str(),
        " to clip ",
        quote(c.name.as_str()).as_str(),
    );
    let mut m = MetaMap::new().with("lut_path", MetaValue::text(path.as_str()));
    if let Some(i) = i {
        m.insert("interpolation", MetaValue::text(i.as_str()));
    }
    if let Some(v) = s {
        m.insert("strength", MetaValue::number(v));
    }
    let mut c = c;
    set_effect(&mut c, Effect::new(LUT, m));
    let mut out = working;
    out.put_clip(loc, c);
    Ok((out, said))
}

/// Taking the colour tables off a clip.
pub open spec fn lut_removed(tl: TimelineModel, index: usize, locator: Option<ClipLocator>) -> Done {
    match found_clip(tl, index, locator, "remove_lut: "@) {
        Err(e) => Err(e),
        Ok((loc, c)) => {
            let c2 = without_effect(c, LUT@);
            Ok(
                (
                    with_clip(tl, loc, c2),
                    if c2.effects.len() == c.effects.len() {
                        "clip "@ + quoted(c.name) + " had no LUT effect"@
                    } else {
                        "removed LUT from clip "@ + quoted(c.name)
                    },
                ),
            )
        },
    }
}

/// Takes the colour tables off a clip.
pub fn apply_remove_lut(working: Timeline, index: usize, locator: Option<ClipLocator>) -> (r: Result<
    (Timeline, String),
    ApplyError,
>)
    ensures
        shows(r, lut_removed(working@, index, locator)),
{
    let (loc, c) = match find_clip(&working, index, locator, "remove_lut: ") {
        Ok(p) => p,
        Err(e) => {
            return Err(e);
        },
    };
    let before: usize = c.effects.len();
    let mut c = c;
    assert(c@.effects.len() == before);
    drop_effect(&mut c, LUT);
    assert(c@.effects.len() == c.effects@.len());
    let said = if c.effects.len() == before {
        cat3("clip ", quote(c.name.as_str()).as_str(), " had no LUT effect")
    } else {
        cat2("removed LUT from clip ", quote(c.name.as_str()).as_str())
    };
    let mut out = working;
    out.put_clip(loc, c);
    Ok((out, said))
}

} // verus!

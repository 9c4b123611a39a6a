//! What is kept beside the picture: how the program is put out, its branding,
//! and the documents that belong to it.
use vstd::prelude::*;

use crate::edit::{montage_of, with_montage};
use crate::error::{bad, checks, invalid, invalid_str, shows, ApplyError, Done, Refusal};
use crate::meta::{number_meta, put, Meta, MetaMap, MetaValue};
use crate::model::{opt, MontageTimelineMetadataModel, Stored, Timeline, TimelineModel};
use crate::num::{zero, Num};
use crate::path::{absolute, goes_up, is_absolute, leads_up};
use crate::text::{
    blank, cat3, cat4, cat6, cat7, cat8, count_usize, debug_option, debugged_option, decimal, fixed,
    is_blank, quote, quote_option, quoted, quoted_option, same, show, shown, strs, to_fixed, truth,
    truth_word, Str,
};
use crate::title::{is_graphic_color, valid_graphic_color};

verus! {

// ---- how the program is put out -------------------------------------------

/// The timeline with one more entry in the project's metadata.
pub open spec fn with_extra(tl: TimelineModel, key: Str, value: Meta) -> TimelineModel {
    let m = montage_of(tl);
    with_montage(
        tl,
        MontageTimelineMetadataModel { extra: put(m.extra, key, value), ..m },
    )
}

/// Puts an entry into the project's metadata.
pub fn put_extra(working: &mut Timeline, key: &str, value: MetaValue)
    ensures
        final(working)@ == with_extra(old(working)@, key@, value@),
{
    let mut m = working.take_montage();
    m.extra.insert(key, value);
    working.put_montage(m);
}

/// A text, or nothing.
pub open spec fn text_or_null(s: Option<Str>) -> Meta {
    match s {
        Some(t) => Meta::Text(t),
        None => Meta::Null,
    }
}

fn value_of_text(s: &Option<String>) -> (r: MetaValue)
    ensures
        r@ == text_or_null(opt(*s)),
{
    match s {
        Some(t) => MetaValue::text(t.as_str()),
        None => MetaValue::Null,
    }
}

/// Choosing the shape of the picture.
pub open spec fn output_format_set(
    tl: TimelineModel,
    index: usize,
    aspect_ratio: Str,
    platform: Option<String>,
    safe_area: Option<String>,
) -> Done {
    if aspect_ratio != "16:9"@ && aspect_ratio != "9:16"@ && aspect_ratio != "1:1"@ && aspect_ratio
        != "4:5"@ {
        Err(
            bad(
                index,
                "set_output_format: aspect_ratio "@ + quoted(aspect_ratio)
                    + " must be one of [\"16:9\", \"9:16\", \"1:1\", \"4:5\"]"@,
            ),
        )
    } else {
        let m = put(Seq::empty(), "aspect_ratio"@, Meta::Text(aspect_ratio));
        let m = put(m, "platform"@, text_or_null(opt(platform)));
        let m = put(m, "safe_area"@, text_or_null(opt(safe_area)));
        Ok(
            (
                with_extra(tl, "output_format"@, Meta::Object(m)),
                "set output format to aspect_ratio="@ + quoted(aspect_ratio) + ", platform="@
                    + quoted_option(platform) + ", safe_area="@ + quoted_option(safe_area),
            ),
        )
    }
}

/// Chooses the shape of the picture.
pub fn apply_set_output_format(
    working: Timeline,
    index: usize,
    aspect_ratio: &str,
    platform: &Option<String>,
    safe_area: &Option<String>,
) -> (r: Result<(Timeline, String), ApplyError>)
    ensures
        shows(r, output_format_set(working@, index, aspect_ratio@, *platform, *safe_area)),
{
    if !same(aspect_ratio, "16:9") && !same(aspect_ratio, "9:16") && !same(aspect_ratio, "1:1")
        && !same(aspect_ratio, "4:5") {
        return Err(
            invalid(
                index,
                cat3(
                    "set_output_format: aspect_ratio ",
                    quote(aspect_ratio).as_str(),
                    " must be one of [\"16:9\", \"9:16\", \"1:1\", \"4:5\"]",
                ),
            ),
        );
    }
    let m = MetaMap::new().with("aspect_ratio", MetaValue::text(aspect_ratio)).with(
        "platform",
        value_of_text(platform),
    ).with("safe_area", value_of_text(safe_area));
    let mut out = working;
    put_extra(&mut out, "output_format", MetaValue::Object(m));
    let said = cat6(
        "set output format to aspect_ratio=",
        quote(aspect_ratio).as_str(),
        ", platform=",
        quote_option(platform).as_str(),
        ", safe_area=",
        quote_option(safe_area).as_str(),
    );
    Ok((out, said))
}

/// A number, or nothing.
pub open spec fn number_or_null(x: Option<Num>) -> Meta {
    match x {
        Some(v) => number_meta(v),
        None => Meta::Null,
    }
}

/// Choosing how loud the program is.
pub open spec fn loudness_set(
    tl: TimelineModel,
    index: usize,
    integrated_lufs: Num,
    true_peak_db: Option<Num>,
) -> Done {
    if !integrated_lufs.is_finite() || zero().at_most(integrated_lufs) {
        Err(
            bad(
                index,
                "set_loudness_target: integrated_lufs "@ + shown(integrated_lufs)
                    + " must be finite and below 0"@,
            ),
        )
    } else if true_peak_db is Some && (!true_peak_db->0.is_finite() || zero().less(
        true_peak_db->0,
    )) {
        Err(
            bad(
                index,
                "set_loudness_target: true_peak_db "@ + shown(true_peak_db->0)
                    + " must be finite and <= 0"@,
            ),
        )
    } else {
        let m = put(Seq::empty(), "integrated_lufs"@, number_meta(integrated_lufs));
        let m = put(m, "true_peak_db"@, number_or_null(true_peak_db));
        Ok(
            (
                with_extra(tl, "loudness_target"@, Meta::Object(m)),
                "set loudness target to "@ + fixed(integrated_lufs, 1) + " LUFS, true_peak_db="@
                    + debugged_option(true_peak_db),
            ),
        )
    }
}

/// Chooses how loud the program is.
pub fn apply_set_loudness_target(
    working: Timeline,
    index: usize,
    integrated_lufs: Num,
    true_peak_db: Option<Num>,
) -> (r: Result<(Timeline, String), ApplyError>)
    ensures
        shows(r, loudness_set(working@, index, integrated_lufs, true_peak_db)),
{
    if !integrated_lufs.is_finite() || zero().at_most(integrated_lufs) {
        return Err(
            invalid(
                index,
                cat3(
                    "set_loudness_target: integrated_lufs ",
                    show(integrated_lufs).as_str(),
                    " must be finite and below 0",
                ),
            ),
        );
    }
    if let Some(p) = true_peak_db {
        if !p.is_finite() || zero().less(p) {
            return Err(
                invalid(
                    index,
                    cat3(
                        "set_loudness_target: true_peak_db ",
                        show(p).as_str(),
                        " must be finite and <= 0",
                    ),
                ),
            );
        }
    }
    let peak = match true_peak_db {
        Some(p) => MetaValue::number(p),
        None => MetaValue::Null,
    };
    let m = MetaMap::new().with("integrated_lufs", MetaValue::number(integrated_lufs)).with(
        "true_peak_db",
        peak,
    );
    let mut out = working;
    put_extra(&mut out, "loudness_target", MetaValue::Object(m));
    let said = cat4(
        "set loudness target to ",
        to_fixed(integrated_lufs, 1).as_str(),
        " LUFS, true_peak_db=",
        debug_option(true_peak_db).as_str(),
    );
    Ok((out, said))
}

/// Saying how the program is announced.
pub open spec fn package_set(
    tl: TimelineModel,
    index: usize,
    platform: Option<String>,
    title: Option<String>,
    description: Option<String>,
    tags: Option<String>,
) -> Done {
    if platform is None && title is None && description is None && tags is None {
        Err(bad(index, "set_package_metadata: at least one field is required"@))
    } else {
        let m = put(Seq::empty(), "platform"@, text_or_null(opt(platform)));
        let m = put(m, "title"@, text_or_null(opt(title)));
        let m = put(m, "description"@, text_or_null(opt(description)));
        let m = put(m, "tags"@, text_or_null(opt(tags)));
        Ok(
            (
                with_extra(tl, "package_metadata"@, Meta::Object(m)),
                "set package metadata platform="@ + quoted_option(platform) + ", title="@
                    + quoted_option(title),
            ),
        )
    }
}

/// Says how the program is announced.
pub fn apply_set_package_metadata(
    working: Timeline,
    index: usize,
    platform: &Option<String>,
    title: &Option<String>,
    description: &Option<String>,
    tags: &Option<String>,
) -> (r: Result<(Timeline, String), ApplyError>)
    ensures
        shows(r, package_set(working@, index, *platform, *title, *description, *tags)),
{
    if platform.is_none() && title.is_none() && description.is_none() && tags.is_none() {
        return Err(
            invalid_str(index, "set_package_metadata: at least one field is required"),
        );
    }
    let m = MetaMap::new().with("platform", value_of_text(platform)).with(
        "title",
        value_of_text(title),
    ).with("description", value_of_text(description)).with("tags", value_of_text(tags));
    let mut out = working;
    put_extra(&mut out, "package_metadata", MetaValue::Object(m));
    let said = cat4(
        "set package metadata platform=",
        quote_option(platform).as_str(),
        ", title=",
        quote_option(title).as_str(),
    );
    Ok((out, said))
}

// ---- branding -------------------------------------------------------------

/// A text that comes at a time.
#[derive(Debug)]
pub struct BroadcastTimedEntry {
    pub time_seconds: Num,
    pub text: String,
}

/// When and how large the parts of the broadcast overlay are.
#[derive(Clone, Copy, Debug, PartialEq, Eq, Structural)]
pub struct BroadcastOverlayStyle {
    pub title_fade_in_end: Num,
    pub title_visible_end: Num,
    pub title_fade_out_start: Num,
    pub host_intro_start: Num,
    pub host_intro_end: Num,
    pub ticker_sponsor_duration: Num,
    pub ticker_fade_duration: Num,
    pub ticker_topic_duration: Num,
    pub chapter_display_duration: Num,
    pub name_bar_height: Num,
    pub ticker_height: Num,
    pub host_strip_height: Num,
}

/// What is shown over the whole program.
#[derive(Debug)]
pub struct BroadcastOverlayConfig {
    pub enabled: bool,
    pub episode_title: String,
    pub brand_logo_path: Option<String>,
    pub host_a_photo_path: Option<String>,
    pub host_b_photo_path: Option<String>,
    pub topics: Vec<BroadcastTimedEntry>,
    pub chapters: Vec<BroadcastTimedEntry>,
    pub style: BroadcastOverlayStyle,
    /// The whole configuration, as it is kept.
    pub document: MetaValue,
}

/// What the programs of one house share.
#[derive(Debug)]
pub struct BrandKit {
    pub logo_path: Option<String>,
    pub font_primary_path: Option<String>,
    pub font_secondary_path: Option<String>,
    pub music_path: Option<String>,
    pub palette: Vec<String>,
    /// How many handles are given.
    pub social_handles: usize,
    /// The whole kit, as it is kept.
    pub document: MetaValue,
}

/// Whether a path, where there is one, stays in the project.
pub open spec fn optional_path_ok(index: usize, field: Str, value: Option<Str>) -> Result<
    (),
    Refusal,
> {
    match value {
        None => Ok(()),
        Some(v) => if is_blank(v) {
            Err(bad(index, "set_broadcast_overlay: "@ + field + " cannot be empty"@))
        } else if is_absolute(v) || leads_up(v) {
            Err(
                bad(
                    index,
                    "set_broadcast_overlay: "@ + field
                        + " must be project-relative and cannot contain '..'"@,
                ),
            )
        } else {
            Ok(())
        },
    }
}

/// Checks that a path, where there is one, stays in the project.
pub fn validate_optional_project_path(index: usize, field: &str, value: &Option<String>) -> (r: Result<
    (),
    ApplyError,
>)
    ensures
        checks(r, optional_path_ok(index, field@, opt(*value))),
{
    if let Some(v) = value {
        if blank(v.as_str()) {
            return Err(
                invalid(index, cat3("set_broadcast_overlay: ", field, " cannot be empty")),
            );
        }
        if absolute(v.as_str()) || goes_up(v.as_str()) {
            return Err(
                invalid(
                    index,
                    cat3(
                        "set_broadcast_overlay: ",
                        field,
                        " must be project-relative and cannot contain '..'",
                    ),
                ),
            );
        }
    }
    Ok(())
}

/// Whether the entries from a place on have a time and a text.
pub open spec fn entries_ok(
    index: usize,
    field: Str,
    entries: Seq<BroadcastTimedEntry>,
    from: int,
) -> Result<(), Refusal>
    decreases entries.len() - from,
{
    if from < 0 || from >= entries.len() {
        Ok(())
    } else if !entries[from].time_seconds.is_finite() || entries[from].time_seconds.less(zero()) {
        Err(
            bad(
                index,
                "set_broadcast_overlay: "@ + field
                    + " time_seconds must be finite and >= 0"@,
            ),
        )
    } else if is_blank(entries[from].text@) {
        Err(bad(index, "set_broadcast_overlay: "@ + field + " text cannot be empty"@))
    } else {
        entries_ok(index, field, entries, from + 1)
    }
}

/// Checks that all entries have a time and a text.
pub fn validate_timed_entries(index: usize, field: &str, entries: &Vec<BroadcastTimedEntry>) -> (r:
    Result<(), ApplyError>)
    ensures
        checks(r, entries_ok(index, field@, entries@, 0)),
{
    let mut i: usize = 0;
    while i < entries.len()
        invariant
            i <= entries@.len(),
            entries_ok(index, field@, entries@, 0) == entries_ok(
                index,
                field@,
                entries@,
                i as int,
            ),
        decreases entries@.len() - i,
    {
        let e = &entries[i];
        if !e.time_seconds.is_finite() || e.time_seconds.less(zero()) {
            return Err(
                invalid(
                    index,
                    cat3(
                        "set_broadcast_overlay: ",
                        field,
                        " time_seconds must be finite and >= 0",
                    ),
                ),
            );
        }
        if blank(e.text.as_str()) {
            return Err(
                invalid(index, cat3("set_broadcast_overlay: ", field, " text cannot be empty")),
            );
        }
        i = i + 1;
    }
    Ok(())
}

/// Whether a number is finite and more than nothing.
#[verifier::allow_in_spec]
pub fn positive(x: Num) -> bool
    returns
        x.is_finite() && !x.at_most(zero()),
{
    x.is_finite() && !x.at_most(zero())
}

/// The first part of a style that must be more than nothing and is not.
pub open spec fn unfit_name(s: BroadcastOverlayStyle) -> Option<Str> {
    if !positive(s.title_fade_in_end) {
        Some("title_fade_in_end"@)
    } else if !positive(s.title_visible_end) {
        Some("title_visible_end"@)
    } else if !positive(s.host_intro_end) {
        Some("host_intro_end"@)
    } else if !positive(s.ticker_sponsor_duration) {
        Some("ticker_sponsor_duration"@)
    } else if !positive(s.ticker_fade_duration) {
        Some("ticker_fade_duration"@)
    } else if !positive(s.ticker_topic_duration) {
        Some("ticker_topic_duration"@)
    } else if !positive(s.chapter_display_duration) {
        Some("chapter_display_duration"@)
    } else if !positive(s.name_bar_height) {
        Some("name_bar_height"@)
    } else if !positive(s.ticker_height) {
        Some("ticker_height"@)
    } else if !positive(s.host_strip_height) {
        Some("host_strip_height"@)
    } else {
        None
    }
}

fn name_unfit(s: &BroadcastOverlayStyle) -> (r: Option<&'static str>)
    ensures
        match r {
            Some(n) => unfit_name(*s) == Some(n@),
            None => unfit_name(*s) is None,
        },
{
    if !positive(s.title_fade_in_end) {
        Some("title_fade_in_end")
    } else if !positive(s.title_visible_end) {
        Some("title_visible_end")
    } else if !positive(s.host_intro_end) {
        Some("host_intro_end")
    } else if !positive(s.ticker_sponsor_duration) {
        Some("ticker_sponsor_duration")
    } else if !positive(s.ticker_fade_duration) {
        Some("ticker_fade_duration")
    } else if !positive(s.ticker_topic_duration) {
        Some("ticker_topic_duration")
    } else if !positive(s.chapter_display_duration) {
        Some("chapter_display_duration")
    } else if !positive(s.name_bar_height) {
        Some("name_bar_height")
    } else if !positive(s.ticker_height) {
        Some("ticker_height")
    } else if !positive(s.host_strip_height) {
        Some("host_strip_height")
    } else {
        None
    }
}

/// Whether a style is well-formed.
pub open spec fn style_ok(index: usize, s: BroadcastOverlayStyle) -> Result<(), Refusal> {
    if unfit_name(s) is Some {
        Err(
            bad(
                index,
                "set_broadcast_overlay: style."@ + unfit_name(s)->0 + " must be finite and > 0"@,
            ),
        )
    } else if !s.title_fade_out_start.is_finite() || s.title_fade_out_start.less(zero()) {
        Err(
            bad(
                index,
                "set_broadcast_overlay: style.title_fade_out_start must be finite and >= 0"@,
            ),
        )
    } else if !s.host_intro_start.is_finite() || s.host_intro_start.less(zero()) {
        Err(
            bad(
                index,
                "set_broadcast_overlay: style.host_intro_start must be finite and >= 0"@,
            ),
        )
    } else if s.title_visible_end.at_most(s.title_fade_in_end) || s.title_visible_end.less(
        s.title_fade_out_start,
    ) || s.host_intro_end.at_most(s.host_intro_start) {
        Err(bad(index, "set_broadcast_overlay: style timing windows are inconsistent"@))
    } else {
        Ok(())
    }
}

/// Checks a style.
pub fn validate_overlay_style(index: usize, s: &BroadcastOverlayStyle) -> (r: Result<(), ApplyError>)
    ensures
        checks(r, style_ok(index, *s)),
{
    if let Some(n) = name_unfit(s) {
        return Err(
            invalid(
                index,
                cat3("set_broadcast_overlay: style.", n, " must be finite and > 0"),
            ),
        );
    }
    if !s.title_fade_out_start.is_finite() || s.title_fade_out_start.less(zero()) {
        return Err(
            invalid_str(
                index,
                "set_broadcast_overlay: style.title_fade_out_start must be finite and >= 0",
            ),
        );
    }
    if !s.host_intro_start.is_finite() || s.host_intro_start.less(zero()) {
        return Err(
            invalid_str(
                index,
                "set_broadcast_overlay: style.host_intro_start must be finite and >= 0",
            ),
        );
    }
    if s.title_visible_end.at_most(s.title_fade_in_end) || s.title_visible_end.less(
        s.title_fade_out_start,
    ) || s.host_intro_end.at_most(s.host_intro_start) {
        return Err(
            invalid_str(
                index,
                "set_broadcast_overlay: style timing windows are inconsistent",
            ),
        );
    }
    Ok(())
}

/// Whether a broadcast overlay is well-formed.
pub open spec fn overlay_ok(index: usize, c: BroadcastOverlayConfig) -> Result<(), Refusal> {
    match optional_path_ok(index, "brand_logo_path"@, opt(c.brand_logo_path)) {
        Err(e) => Err(e),
        Ok(_) => match optional_path_ok(index, "host_a.photo_path"@, opt(c.host_a_photo_path)) {
            Err(e) => Err(e),
            Ok(_) => match optional_path_ok(
                index,
                "host_b.photo_path"@,
                opt(c.host_b_photo_path),
            ) {
                Err(e) => Err(e),
                Ok(_) => match entries_ok(index, "topics"@, c.topics@, 0) {
                    Err(e) => Err(e),
                    Ok(_) => match entries_ok(index, "chapters"@, c.chapters@, 0) {
                        Err(e) => Err(e),
                        Ok(_) => style_ok(index, c.style),
                    },
                },
            },
        },
    }
}

/// Checks a broadcast overlay.
pub fn validate_broadcast_overlay_config(index: usize, c: &BroadcastOverlayConfig) -> (r: Result<
    (),
    ApplyError,
>)
    ensures
        checks(r, overlay_ok(index, *c)),
{
    if let Err(e) = validate_optional_project_path(index, "brand_logo_path", &c.brand_logo_path) {
        return Err(e);
    }
    if let Err(e) = validate_optional_project_path(
        index,
        "host_a.photo_path",
        &c.host_a_photo_path,
    ) {
        return Err(e);
    }
    if let Err(e) = validate_optional_project_path(
        index,
        "host_b.photo_path",
        &c.host_b_photo_path,
    ) {
        return Err(e);
    }
    if let Err(e) = validate_timed_entries(index, "topics", &c.topics) {
        return Err(e);
    }
    if let Err(e) = validate_timed_entries(index, "chapters", &c.chapters) {
        return Err(e);
    }
    validate_overlay_style(index, &c.style)
}

/// The first entry of a palette, from a place on, that is no colour.
pub open spec fn odd_color(palette: Seq<Str>, from: int) -> Option<int>
    decreases palette.len() - from,
{
    if from < 0 || from >= palette.len() {
        None
    } else if !is_graphic_color(palette[from]) {
        Some(from)
    } else {
        odd_color(palette, from + 1)
    }
}

/// Whether a brand kit is well-formed.
pub open spec fn kit_ok(index: usize, k: BrandKit) -> Result<(), Refusal> {
    match optional_path_ok(index, "logo_path"@, opt(k.logo_path)) {
        Err(e) => Err(e),
        Ok(_) => match optional_path_ok(index, "font_primary_path"@, opt(k.font_primary_path)) {
            Err(e) => Err(e),
            Ok(_) => match optional_path_ok(
                index,
                "font_secondary_path"@,
                opt(k.font_secondary_path),
            ) {
                Err(e) => Err(e),
                Ok(_) => match optional_path_ok(index, "music_path"@, opt(k.music_path)) {
                    Err(e) => Err(e),
                    Ok(_) => match odd_color(strs(k.palette@), 0) {
                        Some(i) => Err(
                            bad(
                                index,
                                "set_brand_kit: palette["@ + decimal(i as nat)
                                    + "] must be #RGB/#RGBA/#RRGGBB/#RRGGBBAA hex or an alphanumeric color name"@,
                            ),
                        ),
                        None => Ok(()),
                    },
                },
            },
        },
    }
}

/// Checks a brand kit.
pub fn validate_brand_kit(index: usize, k: &BrandKit) -> (r: Result<(), ApplyError>)
    ensures
        checks(r, kit_ok(index, *k)),
{
    if let Err(e) = validate_optional_project_path(index, "logo_path", &k.logo_path) {
        return Err(e);
    }
    if let Err(e) = validate_optional_project_path(
        index,
        "font_primary_path",
        &k.font_primary_path,
    ) {
        return Err(e);
    }
    if let Err(e) = validate_optional_project_path(
        index,
        "font_secondary_path",
        &k.font_secondary_path,
    ) {
        return Err(e);
    }
    if let Err(e) = validate_optional_project_path(index, "music_path", &k.music_path) {
        return Err(e);
    }
    let ghost colors = strs(k.palette@);
    let mut i: usize = 0;
    while i < k.palette.len()
        invariant
            i <= k.palette@.len(),
            colors == strs(k.palette@),
            odd_color(colors, 0) == odd_color(colors, i as int),
            odd_color(colors, 0) is Some ==> kit_ok(index, *k) == Err::<(), Refusal>(
                bad(
                    index,
                    "set_brand_kit: palette["@ + decimal(odd_color(colors, 0)->0 as nat)
                        + "] must be #RGB/#RGBA/#RRGGBB/#RRGGBBAA hex or an alphanumeric color name"@,
                ),
            ),
            odd_color(colors, 0) is None ==> kit_ok(index, *k) is Ok,
        decreases k.palette@.len() - i,
    {
        assert(colors[i as int] == k.palette@[i as int]@);
        if !valid_graphic_color(k.palette[i].as_str()) {
            return Err(
                invalid(
                    index,
                    cat3(
                        "set_brand_kit: palette[",
                        count_usize(i).as_str(),
                        "] must be #RGB/#RGBA/#RRGGBB/#RRGGBBAA hex or an alphanumeric color name",
                    ),
                ),
            );
        }
        i = i + 1;
    }
    Ok(())
}

/// Setting what is shown over the whole program.  Where there is a brand kit,
/// what is kept is the overlay with what it leaves open filled in from the kit:
/// `branded`.
pub open spec fn broadcast_overlay_set(
    tl: TimelineModel,
    index: usize,
    config: BroadcastOverlayConfig,
    branded: Option<BroadcastOverlayConfig>,
) -> Done {
    match overlay_ok(index, config) {
        Err(e) => Err(e),
        Ok(_) => {
            let m = montage_of(tl);
            let kept = match (m.brand_kit, branded) {
                (Some(_), Some(b)) => b,
                _ => config,
            };
            Ok(
                (
                    with_montage(
                        tl,
                        MontageTimelineMetadataModel {
                            broadcast_overlay: Some(kept.document@),
                            ..m
                        },
                    ),
                    "set broadcast overlay enabled="@ + truth(kept.enabled) + ", title="@ + quoted(
                        kept.episode_title@,
                    ) + ", topics="@ + decimal(kept.topics@.len()) + ", chapters="@ + decimal(
                        kept.chapters@.len(),
                    ),
                ),
            )
        },
    }
}

/// Sets what is shown over the whole program.
pub fn apply_set_broadcast_overlay(
    working: Timeline,
    index: usize,
    config: &BroadcastOverlayConfig,
    branded: &Option<BroadcastOverlayConfig>,
) -> (r: Result<(Timeline, String), ApplyError>)
    ensures
        shows(r, broadcast_overlay_set(working@, index, *config, *branded)),
{
    if let Err(e) = validate_broadcast_overlay_config(index, config) {
        return Err(e);
    }
    let mut out = working;
    let mut m = out.take_montage();
    let kept = match (&m.brand_kit, branded) {
        (Some(_), Some(b)) => b,
        _ => config,
    };
    m.broadcast_overlay = Some(kept.document.copied());
    out.put_montage(m);
    let said = cat8(
        "set broadcast overlay enabled=",
        truth_word(kept.enabled),
        ", title=",
        quote(kept.episode_title.as_str()).as_str(),
        ", topics=",
        count_usize(kept.topics.len()).as_str(),
        ", chapters=",
        count_usize(kept.chapters.len()).as_str(),
    );
    Ok((out, said))
}

/// Setting what the programs of the house share.  A broadcast overlay that is
/// there already is filled in from the kit: `branded`.
pub open spec fn brand_kit_set(
    tl: TimelineModel,
    index: usize,
    kit: BrandKit,
    branded: Option<Meta>,
) -> Done {
    match kit_ok(index, kit) {
        Err(e) => Err(e),
        Ok(_) => {
            let m = montage_of(tl);
            let overlay = if m.broadcast_overlay is Some && branded is Some {
                branded
            } else {
                m.broadcast_overlay
            };
            Ok(
                (
                    with_montage(
                        tl,
                        MontageTimelineMetadataModel {
                            brand_kit: Some(kit.document@),
                            broadcast_overlay: overlay,
                            ..m
                        },
                    ),
                    "set brand kit (logo="@ + truth(kit.logo_path is Some) + ", palette="@
                        + decimal(kit.palette@.len()) + ", social_handles="@ + decimal(
                        kit.social_handles as nat,
                    ) + ")"@,
                ),
            )
        },
    }
}

/// Sets what the programs of the house share.
pub fn apply_set_brand_kit(
    working: Timeline,
    index: usize,
    kit: &BrandKit,
    branded: &Option<MetaValue>,
) -> (r: Result<(Timeline, String), ApplyError>)
    ensures
        shows(r, brand_kit_set(working@, index, *kit, opt(*branded))),
{
    if let Err(e) = validate_brand_kit(index, kit) {
        return Err(e);
    }
    let mut out = working;
    let mut m = out.take_montage();
    m.brand_kit = Some(kit.document.copied());
    if m.broadcast_overlay.is_some() {
        if let Some(b) = branded {
            m.broadcast_overlay = Some(b.copied());
        }
    }
    out.put_montage(m);
    let said = cat7(
        "set brand kit (logo=",
        truth_word(kit.logo_path.is_some()),
        ", palette=",
        count_usize(kit.palette.len()).as_str(),
        ", social_handles=",
        count_usize(kit.social_handles).as_str(),
        ")",
    );
    Ok((out, said))
}

} // verus!

//! Titles, captions and annotations.
use vstd::prelude::*;

use crate::audio::{put_opt, text_opt};
use crate::clip::{empty_clip, first_where, stamp_clip_uuid, with_range, with_uuid};
use crate::edit::{
    clip_at, empty_track, track_at, with_children, with_clip, with_layers, with_track,
};
use crate::effects::{ANNOTATION, TITLE};
use crate::error::{bad, checks, invalid, invalid_str, shows, ApplyError, Done, Refusal};
use crate::locate::{no_place, required_locator};
use crate::meta::{lookup_text, number_meta, put, put_all, without, Meta, MetaMap, MetaValue, Pairs};
use crate::mint::{drew, fresh, ClipIds};
use crate::model::{
    copy_opt, opt, Clip, ClipLocator, ClipModel, Effect, EffectModel, StackChildModel, Stored,
    TimeRange, Timeline, TimelineModel, Track, TrackChild, TrackChildModel, TrackKind, TrackModel,
};
use crate::num::{ones, one, rate24, whole, zero, Num};
use crate::op::{
    AnnotationKind, CaptionWordTiming, RichTextSegment, TitleAnimation, TitlePosition, TitleWeight,
};
use crate::text::{
    blank, cat13, cat2, cat3, cat5, cat6, cat7, fix3, is_blank, join, joined, milli3, quote, quoted,
    same, show, shown, strs, Str,
};
use crate::trim::or_else;

verus! {

// ---- words ----------------------------------------------------------------

/// The word for a position.
pub open spec fn position_word(p: TitlePosition) -> Str {
    match p {
        TitlePosition::Top => "top"@,
        TitlePosition::Center => "center"@,
        TitlePosition::Bottom => "bottom"@,
    }
}

/// The word for a position.
pub fn title_position_str(p: TitlePosition) -> (r: &'static str)
    ensures
        r@ == position_word(p),
{
    match p {
        TitlePosition::Top => "top",
        TitlePosition::Center => "center",
        TitlePosition::Bottom => "bottom",
    }
}

/// The word for a weight.
pub open spec fn weight_word(w: TitleWeight) -> Str {
    match w {
        TitleWeight::Normal => "normal"@,
        TitleWeight::Bold => "bold"@,
    }
}

/// The word for a weight.
pub fn title_weight_str(w: TitleWeight) -> (r: &'static str)
    ensures
        r@ == weight_word(w),
{
    match w {
        TitleWeight::Normal => "normal",
        TitleWeight::Bold => "bold",
    }
}

/// The word for an animation.
pub open spec fn animation_word(a: TitleAnimation) -> Str {
    match a {
        TitleAnimation::Still => "none"@,
        TitleAnimation::FadeIn => "fade_in"@,
        TitleAnimation::FadeOut => "fade_out"@,
        TitleAnimation::FadeInOut => "fade_in_out"@,
        TitleAnimation::SlideIn => "slide_in"@,
        TitleAnimation::SlideOut => "slide_out"@,
    }
}

/// The word for an animation.
pub fn title_animation_str(a: TitleAnimation) -> (r: &'static str)
    ensures
        r@ == animation_word(a),
{
    match a {
        TitleAnimation::Still => "none",
        TitleAnimation::FadeIn => "fade_in",
        TitleAnimation::FadeOut => "fade_out",
        TitleAnimation::FadeInOut => "fade_in_out",
        TitleAnimation::SlideIn => "slide_in",
        TitleAnimation::SlideOut => "slide_out",
    }
}

/// The name of a position.
pub open spec fn position_name(p: TitlePosition) -> Str {
    match p {
        TitlePosition::Top => "Top"@,
        TitlePosition::Center => "Center"@,
        TitlePosition::Bottom => "Bottom"@,
    }
}

fn name_position(p: TitlePosition) -> (r: &'static str)
    ensures
        r@ == position_name(p),
{
    match p {
        TitlePosition::Top => "Top",
        TitlePosition::Center => "Center",
        TitlePosition::Bottom => "Bottom",
    }
}

/// The name of an animation.
pub open spec fn animation_name(a: TitleAnimation) -> Str {
    match a {
        TitleAnimation::Still => "None"@,
        TitleAnimation::FadeIn => "FadeIn"@,
        TitleAnimation::FadeOut => "FadeOut"@,
        TitleAnimation::FadeInOut => "FadeInOut"@,
        TitleAnimation::SlideIn => "SlideIn"@,
        TitleAnimation::SlideOut => "SlideOut"@,
    }
}

fn name_animation(a: TitleAnimation) -> (r: &'static str)
    ensures
        r@ == animation_name(a),
{
    match a {
        TitleAnimation::Still => "None",
        TitleAnimation::FadeIn => "FadeIn",
        TitleAnimation::FadeOut => "FadeOut",
        TitleAnimation::FadeInOut => "FadeInOut",
        TitleAnimation::SlideIn => "SlideIn",
        TitleAnimation::SlideOut => "SlideOut",
    }
}

/// The word for what an annotation draws.
pub open spec fn annotation_word(k: AnnotationKind) -> Str {
    match k {
        AnnotationKind::Rectangle => "rectangle"@,
        AnnotationKind::Circle => "circle"@,
        AnnotationKind::Arrow => "arrow"@,
        AnnotationKind::Bracket => "bracket"@,
        AnnotationKind::Blur => "blur"@,
    }
}

/// The word for what an annotation draws.
pub fn annotation_kind_str(k: AnnotationKind) -> (r: &'static str)
    ensures
        r@ == annotation_word(k),
{
    match k {
        AnnotationKind::Rectangle => "rectangle",
        AnnotationKind::Circle => "circle",
        AnnotationKind::Arrow => "arrow",
        AnnotationKind::Bracket => "bracket",
        AnnotationKind::Blur => "blur",
    }
}

/// The name of what an annotation draws.
pub open spec fn annotation_name(k: AnnotationKind) -> Str {
    match k {
        AnnotationKind::Rectangle => "Rectangle"@,
        AnnotationKind::Circle => "Circle"@,
        AnnotationKind::Arrow => "Arrow"@,
        AnnotationKind::Bracket => "Bracket"@,
        AnnotationKind::Blur => "Blur"@,
    }
}

fn name_annotation(k: AnnotationKind) -> (r: &'static str)
    ensures
        r@ == annotation_name(k),
{
    match k {
        AnnotationKind::Rectangle => "Rectangle",
        AnnotationKind::Circle => "Circle",
        AnnotationKind::Arrow => "Arrow",
        AnnotationKind::Bracket => "Bracket",
        AnnotationKind::Blur => "Blur",
    }
}

// ---- colours --------------------------------------------------------------

/// Whether a character is a hexadecimal digit.
#[verifier::allow_in_spec]
pub fn is_hex(c: char) -> bool
    returns
        '0' <= c <= '9' || 'a' <= c <= 'f' || 'A' <= c <= 'F',
{
    ('0' <= c && c <= '9') || ('a' <= c && c <= 'f') || ('A' <= c && c <= 'F')
}

/// Whether a character is a letter or a digit of the plain alphabet.
#[verifier::allow_in_spec]
pub fn is_alphanumeric(c: char) -> bool
    returns
        '0' <= c <= '9' || 'a' <= c <= 'z' || 'A' <= c <= 'Z',
{
    ('0' <= c && c <= '9') || ('a' <= c && c <= 'z') || ('A' <= c && c <= 'Z')
}

/// Whether a text is a colour: `#` with three, four, six or eight hexadecimal
/// digits, or a plain name.
pub open spec fn is_graphic_color(s: Str) -> bool {
    if s.len() > 0 && s[0] == '#' {
        (s.len() == 4 || s.len() == 5 || s.len() == 7 || s.len() == 9) && forall|i: int|
            1 <= i < s.len() ==> is_hex(#[trigger] s[i])
    } else {
        s.len() > 0 && forall|i: int| 0 <= i < s.len() ==> is_alphanumeric(#[trigger] s[i])
    }
}

/// Whether a text is a colour.
pub fn valid_graphic_color(s: &str) -> (r: bool)
    ensures
        r == is_graphic_color(s@),
{
    let n: usize = s.unicode_len();
    if n == 0 {
        return false;
    }
    if s.get_char(0) == '#' {
        if n != 4 && n != 5 && n != 7 && n != 9 {
            return false;
        }
        let mut i: usize = 1;
        while i < n
            invariant
                1 <= i <= n,
                n == s@.len(),
                s@[0] == '#',
                forall|k: int| 1 <= k < i ==> is_hex(#[trigger] s@[k]),
            decreases n - i,
        {
            if !is_hex(s.get_char(i)) {
                assert(!is_hex(s@[i as int]));
                return false;
            }
            i = i + 1;
        }
        return true;
    }
    let mut i: usize = 0;
    while i < n
        invariant
            i <= n,
            n == s@.len(),
            n > 0,
            s@[0] != '#',
            forall|k: int| 0 <= k < i ==> is_alphanumeric(#[trigger] s@[k]),
        decreases n - i,
    {
        if !is_alphanumeric(s.get_char(i)) {
            assert(!is_alphanumeric(s@[i as int]));
            return false;
        }
        i = i + 1;
    }
    true
}

// ---- tracks with a role ---------------------------------------------------

/// Where a track says what it is for.
pub const TITLES_TRACK_ROLE_KEY: &'static str = "montage_track_role";

/// What the track of titles is called.
pub const TITLES_TRACK_NAME: &'static str = "Titles";

/// What the track of titles says that it is for.
pub const TITLES_TRACK_ROLE_VALUE: &'static str = "titles";

/// What the track of annotations is called.
pub const ANNOTATIONS_TRACK_NAME: &'static str = "Annotations";

/// What the track of annotations says that it is for.
pub const ANNOTATIONS_TRACK_ROLE_VALUE: &'static str = "annotations";

/// Whether a track says that it is for a role, or has the name of such.
pub open spec fn has_role(t: TrackModel, role: Str, name: Str) -> bool {
    lookup_text(t.metadata, TITLES_TRACK_ROLE_KEY@) == Some(role) || t.name == name
}

fn is_for(t: &Track, role: &str, name: &str) -> (r: bool)
    ensures
        r == has_role(t@, role@, name@),
{
    let said = match t.metadata.get_text(TITLES_TRACK_ROLE_KEY) {
        Some(s) => same(s.as_str(), role),
        None => false,
    };
    said || same(t.name.as_str(), name)
}

/// Whether a layer is a track for a role.
pub open spec fn role_layer(role: Str, name: Str) -> spec_fn(StackChildModel) -> bool {
    |l: StackChildModel| l matches StackChildModel::Track(t) && has_role(t, role, name)
}

/// The timeline with a track for a role, and its place: the first there is, or
/// else a new one behind all.
pub open spec fn with_role_track(tl: TimelineModel, role: Str, name: Str) -> (TimelineModel, int) {
    match first_where(tl.tracks.children, role_layer(role, name), 0) {
        Some(i) => (tl, i),
        None => {
            let t = TrackModel {
                metadata: put(Seq::empty(), TITLES_TRACK_ROLE_KEY@, Meta::Text(role)),
                ..empty_track(name, TrackKind::Video)
            };
            (
                with_layers(tl, tl.tracks.children.push(StackChildModel::Track(t))),
                tl.tracks.children.len() as int,
            )
        },
    }
}

fn find_or_create_role_track(working: Timeline, role: &str, name: &str) -> (r: (Timeline, usize))
    ensures
        (r.0@, r.1 as int) == with_role_track(working@, role@, name@),
        r.1 < r.0@.tracks.children.len(),
        track_at(r.0@, r.1 as int) is Some,
{
    let ghost p = role_layer(role@, name@);
    let mut i: usize = 0;
    while i < working.tracks.children.len()
        invariant
            i <= working@.tracks.children.len(),
            p == role_layer(role@, name@),
            first_where(working@.tracks.children, p, 0) == first_where(
                working@.tracks.children,
                p,
                i as int,
            ),
        decreases working@.tracks.children.len() - i,
    {
        if let Some(t) = working.track(i) {
            if is_for(t, role, name) {
                return (working, i);
            }
        }
        i = i + 1;
    }
    let mut out = working;
    let k: usize = out.size();
    let mut t = Track::empty(name, TrackKind::Video);
    let ghost bare = t@;
    assert(t.metadata@ =~= Seq::empty());
    t.metadata.insert(TITLES_TRACK_ROLE_KEY, MetaValue::text(role));
    assert(t@.children =~= bare.children);
    out.push_track(t);
    (out, k)
}

/// Whether a child is a clip that begins at a time or after it.
pub open spec fn begins_from(start_s: Num) -> spec_fn(TrackChildModel) -> bool {
    |c: TrackChildModel|
        c matches TrackChildModel::Clip(k) && start_s.at_most(
            match k.source_range {
                Some(r) => r.start_time.to_seconds(),
                None => zero(),
            },
        )
}

/// Where a title goes: in front of the first that begins no earlier.
pub open spec fn title_place(t: TrackModel, start_s: Num) -> int {
    match first_where(t.children, begins_from(start_s), 0) {
        Some(i) => i,
        None => t.children.len() as int,
    }
}

/// Where a title goes.
pub fn title_insertion_index(track: &Track, start_s: Num) -> (r: usize)
    ensures
        r == title_place(track@, start_s),
        r <= track@.children.len(),
{
    let ghost p = begins_from(start_s);
    let n: usize = track.size();
    let mut i: usize = 0;
    while i < n
        invariant
            i <= n,
            n == track@.children.len(),
            p == begins_from(start_s),
            first_where(track@.children, p, 0) == first_where(track@.children, p, i as int),
        decreases n - i,
    {
        if let Some(c) = track.clip(i) {
            let begins = match c.source_range {
                Some(r) => r.start_time.to_seconds(),
                None => zero(),
            };
            if start_s.at_most(begins) {
                return i;
            }
        }
        i = i + 1;
    }
    n
}

/// The timeline with a clip on the track for a role, in order of time.
pub open spec fn on_role_track(
    tl: TimelineModel,
    role: Str,
    name: Str,
    start_s: Num,
    c: ClipModel,
) -> TimelineModel {
    let (tl2, k) = with_role_track(tl, role, name);
    let t = track_at(tl2, k)->0;
    with_track(
        tl2,
        k,
        with_children(
            t,
            t.children.insert(title_place(t, start_s), TrackChildModel::Clip(c)),
        ),
    )
}

fn put_on_role_track(working: Timeline, role: &str, name: &str, start_s: Num, c: Clip) -> (r:
    Timeline)
    ensures
        r@ == on_role_track(working@, role@, name@, start_s, c@),
{
    let (mut out, k) = find_or_create_role_track(working, role, name);
    let t = match out.track(k) {
        Some(t) => Some(t.copied()),
        None => None,
    };
    if let Some(mut t) = t {
        let at: usize = title_insertion_index(&t, start_s);
        t.insert(at, TrackChild::Clip(c));
        out.put_track(k, t);
    }
    out
}

// ---- text over the picture ------------------------------------------------

/// Text to be shown over the picture.
#[derive(Debug)]
pub struct TextOverlay {
    pub start_s: Num,
    pub end_s: Num,
    pub text: String,
    pub position: TitlePosition,
    pub font_size: u32,
    pub color: String,
    pub font_weight: TitleWeight,
    pub animation: TitleAnimation,
    /// How the text comes, stays and goes, as it is kept.
    pub phases: Option<MetaValue>,
}

/// What a [`TextOverlay`] holds.
#[verifier::ext_equal]
pub struct TextOverlayModel {
    pub start_s: Num,
    pub end_s: Num,
    pub text: Str,
    pub position: TitlePosition,
    pub font_size: u32,
    pub color: Str,
    pub font_weight: TitleWeight,
    pub animation: TitleAnimation,
    pub phases: Option<Meta>,
}

impl View for TextOverlay {
    type V = TextOverlayModel;

    open spec fn view(&self) -> TextOverlayModel {
        TextOverlayModel {
            start_s: self.start_s,
            end_s: self.end_s,
            text: self.text@,
            position: self.position,
            font_size: self.font_size,
            color: self.color@,
            font_weight: self.font_weight,
            animation: self.animation,
            phases: opt(self.phases),
        }
    }
}

/// The style of an overlay, as it is kept.
pub open spec fn overlay_pairs(role: Str, safe_area: Option<Str>, extra: Pairs, q: TextOverlayModel) -> Pairs {
    let m = put(Seq::empty(), "role"@, Meta::Text(role));
    let m = put(m, "text"@, Meta::Text(q.text));
    let m = put(m, "start_s"@, number_meta(q.start_s));
    let m = put(m, "end_s"@, number_meta(q.end_s));
    let m = put(m, "position"@, Meta::Text(position_word(q.position)));
    let m = put(m, "font_size"@, number_meta(ones(q.font_size as nat)));
    let m = put(m, "color"@, Meta::Text(q.color));
    let m = put(m, "font_weight"@, Meta::Text(weight_word(q.font_weight)));
    let m = put(m, "animation"@, Meta::Text(animation_word(q.animation)));
    let m = put_opt(m, "phases"@, q.phases);
    let m = put_opt(m, "safe_area"@, text_opt(safe_area));
    put_all(m, extra)
}

fn make_overlay_pairs(role: &str, safe_area: &Option<String>, extra: &MetaMap, q: &TextOverlay) -> (r:
    MetaMap)
    ensures
        r@ == overlay_pairs(role@, opt(*safe_area), extra@, q@),
{
    let mut m = MetaMap::new().with("role", MetaValue::text(role)).with(
        "text",
        MetaValue::text(q.text.as_str()),
    ).with("start_s", MetaValue::number(q.start_s)).with("end_s", MetaValue::number(q.end_s)).with(
        "position",
        MetaValue::text(title_position_str(q.position)),
    ).with("font_size", MetaValue::number(whole(q.font_size as usize))).with(
        "color",
        MetaValue::text(q.color.as_str()),
    ).with("font_weight", MetaValue::text(title_weight_str(q.font_weight))).with(
        "animation",
        MetaValue::text(title_animation_str(q.animation)),
    );
    if let Some(p) = &q.phases {
        m.insert("phases", p.copied());
    }
    if let Some(s) = safe_area {
        m.insert("safe_area", MetaValue::text(s.as_str()));
    }
    m.insert_all(extra);
    m
}

/// The clip that shows an overlay.
pub open spec fn overlay_clip(role: Str, safe_area: Option<Str>, id: Str, extra: Pairs, q: TextOverlayModel) -> ClipModel {
    let c = empty_clip(role + "-"@ + milli3(q.start_s) + "-"@ + milli3(q.end_s));
    let c = with_range(c, TimeRange::seconds(q.start_s, q.end_s.minus(q.start_s), rate24()));
    let c = with_uuid(c, id);
    ClipModel {
        effects: seq![
            EffectModel {
                name: ""@,
                effect_name: TITLE@,
                metadata: overlay_pairs(role, safe_area, extra, q),
            },
        ],
        ..c
    }
}

/// Showing text over the picture; the clip gets the given id, or else the fresh
/// one.
pub open spec fn overlay_inserted(
    tl: TimelineModel,
    index: usize,
    role: Str,
    safe_area: Option<Str>,
    clip_uuid: Option<Str>,
    extra: Pairs,
    q: TextOverlayModel,
    id: Str,
) -> Done {
    if !q.start_s.is_finite() || !q.end_s.is_finite() || q.end_s.at_most(q.start_s) {
        Err(
            bad(
                index,
                "insert_"@ + role + ": invalid window ["@ + shown(q.start_s) + ".."@ + shown(
                    q.end_s,
                ) + "]; end_s must be finite and > start_s"@,
            ),
        )
    } else if q.text.len() == 0 {
        Err(bad(index, "insert_"@ + role + ": text must be non-empty"@))
    } else {
        let uuid = match clip_uuid {
            Some(u) => u,
            None => id,
        };
        Ok(
            (
                on_role_track(
                    tl,
                    TITLES_TRACK_ROLE_VALUE@,
                    TITLES_TRACK_NAME@,
                    q.start_s,
                    overlay_clip(role, safe_area, uuid, extra, q),
                ),
                "inserted "@ + role + " "@ + quoted(q.text) + " on Titles track at ["@ + milli3(
                    q.start_s,
                ) + "s.."@ + milli3(q.end_s) + "s] (position="@ + position_name(q.position)
                    + ", animation="@ + animation_name(q.animation) + ")"@,
            ),
        )
    }
}

/// Shows text over the picture.
pub fn apply_insert_text_overlay(
    working: Timeline,
    index: usize,
    role: &str,
    safe_area: &Option<String>,
    clip_uuid: &Option<String>,
    extra: &MetaMap,
    q: &TextOverlay,
    ids: &mut ClipIds,
) -> (res: Result<(Timeline, String), ApplyError>)
    ensures
        drew(
            *old(ids),
            *final(ids),
            if res is Ok && *clip_uuid is None {
                1
            } else {
                0
            },
        ),
        shows(
            res,
            overlay_inserted(
                working@,
                index,
                role@,
                opt(*safe_area),
                opt(*clip_uuid),
                extra@,
                q@,
                fresh(*old(ids), *final(ids))[0],
            ),
        ),
{
    if !q.start_s.is_finite() || !q.end_s.is_finite() || q.end_s.at_most(q.start_s) {
        return Err(
            invalid(
                index,
                cat7(
                    "insert_",
                    role,
                    ": invalid window [",
                    show(q.start_s).as_str(),
                    "..",
                    show(q.end_s).as_str(),
                    "]; end_s must be finite and > start_s",
                ),
            ),
        );
    }
    if q.text.as_str().unicode_len() == 0 {
        return Err(invalid(index, cat3("insert_", role, ": text must be non-empty")));
    }
    let name = cat5(
        role,
        "-",
        fix3(q.start_s).as_str(),
        "-",
        fix3(q.end_s).as_str(),
    );
    let mut c = Clip::empty(name.as_str());
    c.source_range = Some(TimeRange::seconds(q.start_s, q.end_s.minus(q.start_s), rate24()));
    match clip_uuid {
        Some(u) => {
            stamp_clip_uuid(&mut c, u.as_str());
        },
        None => {
            let id = ids.draw();
            stamp_clip_uuid(&mut c, id.as_str());
        },
    }
    let ghost bare = c@;
    c.effects.push(Effect::new(TITLE, make_overlay_pairs(role, safe_area, extra, q)));
    assert(c@.effects =~= bare.effects.push(c@.effects[0]));
    let out = put_on_role_track(
        working,
        TITLES_TRACK_ROLE_VALUE,
        TITLES_TRACK_NAME,
        q.start_s,
        c,
    );
    let said = say_overlay(role, q);
    Ok((out, said))
}

fn say_overlay(role: &str, q: &TextOverlay) -> (r: String)
    ensures
        r@ == "inserted "@ + role@ + " "@ + quoted(q.text@) + " on Titles track at ["@ + milli3(
            q.start_s,
        ) + "s.."@ + milli3(q.end_s) + "s] (position="@ + position_name(q.position)
            + ", animation="@ + animation_name(q.animation) + ")"@,
{
    cat13(
        "inserted ",
        role,
        " ",
        quote(q.text.as_str()).as_str(),
        " on Titles track at [",
        fix3(q.start_s).as_str(),
        "s..",
        fix3(q.end_s).as_str(),
        "s] (position=",
        name_position(q.position),
        ", animation=",
        name_animation(q.animation),
        ")",
    )
}

/// The value, unless it is blank.
pub open spec fn unless_blank(s: Option<Str>) -> Option<Str> {
    match s {
        Some(t) if is_blank(t) => None,
        _ => s,
    }
}

fn filled(s: &Option<String>) -> (r: bool)
    ensures
        r == (unless_blank(opt(*s)) is Some),
        r ==> *s is Some,
{
    match s {
        Some(t) => !blank(t.as_str()),
        None => false,
    }
}

/// The letters of a title, as they are kept.
pub open spec fn font_pairs(font_family: Option<Str>, font_path: Option<Str>) -> Pairs {
    let m = put_opt(Seq::empty(), "font_family"@, text_opt(unless_blank(font_family)));
    put_opt(m, "font_path"@, text_opt(unless_blank(font_path)))
}

/// The letters of a title, as they are kept.
pub fn font_overlay_metadata(font_family: &Option<String>, font_path: &Option<String>) -> (r: MetaMap)
    ensures
        r@ == font_pairs(opt(*font_family), opt(*font_path)),
{
    let mut m = MetaMap::new();
    if let Some(s) = font_family {
        if !blank(s.as_str()) {
            m.insert("font_family", MetaValue::text(s.as_str()));
        }
    }
    if let Some(s) = font_path {
        if !blank(s.as_str()) {
            m.insert("font_path", MetaValue::text(s.as_str()));
        }
    }
    m
}

/// Showing a title.
pub open spec fn title_inserted(
    tl: TimelineModel,
    index: usize,
    q: TextOverlayModel,
    font_family: Option<Str>,
    font_path: Option<Str>,
    id: Str,
) -> Done {
    overlay_inserted(tl, index, "title"@, None, None, font_pairs(font_family, font_path), q, id)
}

/// Shows a title.
pub fn apply_insert_title(
    working: Timeline,
    index: usize,
    q: &TextOverlay,
    font_family: &Option<String>,
    font_path: &Option<String>,
    ids: &mut ClipIds,
) -> (res: Result<(Timeline, String), ApplyError>)
    ensures
        drew(
            *old(ids),
            *final(ids),
            if res is Ok {
                1
            } else {
                0
            },
        ),
        shows(
            res,
            title_inserted(
                working@,
                index,
                q@,
                opt(*font_family),
                opt(*font_path),
                fresh(*old(ids), *final(ids))[0],
            ),
        ),
{
    let extra = font_overlay_metadata(font_family, font_path);
    apply_insert_text_overlay(working, index, "title", &None, &None, &extra, q, ids)
}

/// The texts of segments.
pub open spec fn segment_texts(v: Seq<RichTextSegment>) -> Seq<Str> {
    Seq::new(v.len(), |i: int| v[i].text@)
}

/// Segments as they are kept.
pub open spec fn segment_list(v: Seq<RichTextSegment>) -> Meta {
    Meta::List(Seq::new(v.len(), |i: int| v[i].document@))
}

/// A title in segments.
#[derive(Debug)]
pub struct RichTitle {
    pub start_s: Num,
    pub end_s: Num,
    pub segments: Vec<RichTextSegment>,
    pub position: TitlePosition,
    pub font_size: u32,
    pub animation: TitleAnimation,
    pub phases: Option<MetaValue>,
    pub font_family: Option<String>,
    pub font_path: Option<String>,
}

/// The overlay that a title in segments asks for.
pub open spec fn segments_overlay(t: RichTitle) -> TextOverlayModel {
    TextOverlayModel {
        start_s: t.start_s,
        end_s: t.end_s,
        text: joined(segment_texts(t.segments@), ""@),
        position: t.position,
        font_size: t.font_size,
        color: "#FFFFFF"@,
        font_weight: TitleWeight::Normal,
        animation: t.animation,
        phases: opt(t.phases),
    }
}

/// Whether all segments are empty.
pub open spec fn no_segment_text(v: Seq<RichTextSegment>) -> bool {
    forall|i: int| 0 <= i < v.len() ==> (#[trigger] v[i]).text@.len() == 0
}

/// Showing a title in segments: one clip with the texts joined, which keeps the
/// segments too.
pub open spec fn rich_title_inserted(
    tl: TimelineModel,
    index: usize,
    t: RichTitle,
    id: Str,
) -> Done {
    if no_segment_text(t.segments@) {
        Err(bad(index, "insert_rich_title: segments_json must contain non-empty text"@))
    } else {
        overlay_inserted(
            tl,
            index,
            "title"@,
            None,
            None,
            put(
                font_pairs(opt(t.font_family), opt(t.font_path)),
                "rich_segments"@,
                segment_list(t.segments@),
            ),
            segments_overlay(t),
            id,
        )
    }
}

fn split_segments(v: &Vec<RichTextSegment>) -> (r: (Vec<String>, Vec<MetaValue>, bool))
    ensures
        strs(r.0@) == segment_texts(v@),
        MetaValue::List(r.1)@ == segment_list(v@),
        r.2 == no_segment_text(v@),
{
    let mut texts: Vec<String> = Vec::new();
    let mut documents: Vec<MetaValue> = Vec::new();
    let mut none = true;
    let mut i: usize = 0;
    while i < v.len()
        invariant
            i <= v@.len(),
            texts@.len() == i,
            documents@.len() == i,
            forall|k: int| 0 <= k < i ==> (#[trigger] texts@[k])@ == v@[k].text@,
            forall|k: int| 0 <= k < i ==> (#[trigger] documents@[k])@ == v@[k].document@,
            none == (forall|k: int| 0 <= k < i ==> (#[trigger] v@[k]).text@.len() == 0),
        decreases v@.len() - i,
    {
        if v[i].text.as_str().unicode_len() != 0 {
            none = false;
        }
        texts.push(v[i].text.clone());
        documents.push(v[i].document.copied());
        i = i + 1;
    }
    assert(strs(texts@) =~= segment_texts(v@));
    let r = (texts, documents, none);
    assert(MetaValue::List(r.1)@ =~= segment_list(v@)) by {
        assert(MetaValue::List(r.1)@->List_0 =~= segment_list(v@)->List_0);
    }
    r
}

/// Shows a title in segments.
pub fn apply_insert_rich_title(working: Timeline, index: usize, t: &RichTitle, ids: &mut ClipIds) -> (res:
    Result<(Timeline, String), ApplyError>)
    ensures
        drew(
            *old(ids),
            *final(ids),
            if res is Ok {
                1
            } else {
                0
            },
        ),
        shows(
            res,
            rich_title_inserted(working@, index, *t, fresh(*old(ids), *final(ids))[0]),
        ),
{
    let (texts, documents, none) = split_segments(&t.segments);
    let q = TextOverlay {
        start_s: t.start_s,
        end_s: t.end_s,
        text: join(&texts, ""),
        position: t.position,
        font_size: t.font_size,
        color: "#FFFFFF".to_owned(),
        font_weight: TitleWeight::Normal,
        animation: t.animation,
        phases: copy_opt(&t.phases),
    };
    if none {
        return Err(
            invalid_str(index, "insert_rich_title: segments_json must contain non-empty text"),
        );
    }
    let mut extra = font_overlay_metadata(&t.font_family, &t.font_path);
    extra.insert("rich_segments", MetaValue::List(documents));
    apply_insert_text_overlay(working, index, "title", &None, &None, &extra, &q, ids)
}

/// A caption.
#[derive(Debug)]
pub struct Caption {
    pub start_s: Num,
    pub end_s: Num,
    pub text: String,
    pub position: TitlePosition,
    pub font_size: u32,
    pub color: String,
    pub safe_area: String,
    pub word_timings: Vec<CaptionWordTiming>,
    pub style: Option<MetaValue>,
}

/// Whether a word has text and times in order.
pub open spec fn word_fine() -> spec_fn(CaptionWordTiming) -> bool {
    |w: CaptionWordTiming|
        !is_blank(w.text@) && w.start_s.is_finite() && w.end_s.is_finite() && !w.end_s.less(
            w.start_s,
        )
}

/// Words as they are kept.
pub open spec fn word_list(v: Seq<CaptionWordTiming>) -> Meta {
    Meta::List(Seq::new(v.len(), |i: int| v[i].document@))
}

/// What else is kept of a caption.
pub open spec fn caption_pairs(c: Caption) -> Pairs {
    let m = if c.word_timings@.len() == 0 {
        Seq::empty()
    } else {
        put(Seq::empty(), "word_timings"@, word_list(c.word_timings@))
    };
    put_opt(m, "caption_style"@, opt(c.style))
}

/// The overlay that a caption asks for.
pub open spec fn caption_overlay(c: Caption) -> TextOverlayModel {
    TextOverlayModel {
        start_s: c.start_s,
        end_s: c.end_s,
        text: c.text@,
        position: c.position,
        font_size: c.font_size,
        color: c.color@,
        font_weight: TitleWeight::Bold,
        animation: TitleAnimation::Still,
        phases: None,
    }
}

/// Showing a caption.
pub open spec fn caption_inserted(
    tl: TimelineModel,
    index: usize,
    c: Caption,
    id: Str,
) -> Done {
    if is_blank(c.safe_area@) {
        Err(bad(index, "insert_caption: safe_area must be non-empty"@))
    } else if !c.word_timings@.all(word_fine()) {
        Err(
            bad(
                index,
                "insert_caption: word_timings must have non-empty text and finite ordered times"@,
            ),
        )
    } else {
        overlay_inserted(
            tl,
            index,
            "caption"@,
            Some(c.safe_area@),
            None,
            caption_pairs(c),
            caption_overlay(c),
            id,
        )
    }
}

fn check_words(v: &Vec<CaptionWordTiming>) -> (r: bool)
    ensures
        r == v@.all(word_fine()),
{
    let mut i: usize = 0;
    while i < v.len()
        invariant
            i <= v@.len(),
            forall|k: int| 0 <= k < i ==> word_fine()(v@[k]),
        decreases v@.len() - i,
    {
        let w = &v[i];
        if blank(w.text.as_str()) || !w.start_s.is_finite() || !w.end_s.is_finite()
            || w.end_s.less(w.start_s) {
            assert(!word_fine()(v@[i as int]));
            return false;
        }
        i = i + 1;
    }
    true
}

fn list_words(v: &Vec<CaptionWordTiming>) -> (r: MetaValue)
    ensures
        r@ == word_list(v@),
{
    let mut documents: Vec<MetaValue> = Vec::new();
    let mut i: usize = 0;
    while i < v.len()
        invariant
            i <= v@.len(),
            documents@.len() == i,
            forall|k: int| 0 <= k < i ==> (#[trigger] documents@[k])@ == v@[k].document@,
        decreases v@.len() - i,
    {
        documents.push(v[i].document.copied());
        i = i + 1;
    }
    let r = MetaValue::List(documents);
    assert(r@->List_0 =~= word_list(v@)->List_0);
    r
}

/// Shows a caption.
pub fn apply_insert_caption(working: Timeline, index: usize, c: &Caption, ids: &mut ClipIds) -> (res:
    Result<(Timeline, String), ApplyError>)
    ensures
        drew(
            *old(ids),
            *final(ids),
            if res is Ok {
                1
            } else {
                0
            },
        ),
        shows(
            res,
            caption_inserted(working@, index, *c, fresh(*old(ids), *final(ids))[0]),
        ),
{
    let q = TextOverlay {
        start_s: c.start_s,
        end_s: c.end_s,
        text: c.text.clone(),
        position: c.position,
        font_size: c.font_size,
        color: c.color.clone(),
        font_weight: TitleWeight::Bold,
        animation: TitleAnimation::Still,
        phases: None,
    };
    if blank(c.safe_area.as_str()) {
        return Err(invalid_str(index, "insert_caption: safe_area must be non-empty"));
    }
    if !check_words(&c.word_timings) {
        return Err(
            invalid_str(
                index,
                "insert_caption: word_timings must have non-empty text and finite ordered times",
            ),
        );
    }
    let mut extra = MetaMap::new();
    if c.word_timings.len() != 0 {
        extra.insert("word_timings", list_words(&c.word_timings));
    }
    if let Some(s) = &c.style {
        extra.insert("caption_style", s.copied());
    }
    let safe_area = Some(c.safe_area.clone());
    apply_insert_text_overlay(working, index, "caption", &safe_area, &None, &extra, &q, ids)
}

// ---- annotations ----------------------------------------------------------

/// A shape to be drawn over the picture.
#[derive(Debug)]
pub struct Annotation {
    pub start_s: Num,
    pub end_s: Num,
    pub kind: AnnotationKind,
    pub x: Num,
    pub y: Num,
    pub width: Num,
    pub height: Num,
    pub color: String,
    pub stroke_width: u32,
    pub label: Option<String>,
}

/// Whether a region lies in the picture, whose sides are of length one.
#[verifier::allow_in_spec]
pub fn valid_normalized_region(x: Num, y: Num, width: Num, height: Num) -> bool
    returns
        x.is_finite() && y.is_finite() && width.is_finite() && height.is_finite() && zero().at_most(
            x,
        ) && zero().at_most(y) && zero().less(width) && zero().less(height) && x.plus(
            width,
        ).at_most(one()) && y.plus(height).at_most(one()),
{
    x.is_finite() && y.is_finite() && width.is_finite() && height.is_finite() && zero().at_most(x)
        && zero().at_most(y) && zero().less(width) && zero().less(height) && x.plus(
        width,
    ).at_most(one()) && y.plus(height).at_most(one())
}

/// Whether an annotation is well-formed.
pub open spec fn annotation_ok(index: usize, q: Annotation) -> Result<(), Refusal> {
    if !q.start_s.is_finite() || !q.end_s.is_finite() || q.end_s.at_most(q.start_s) {
        Err(
            bad(
                index,
                "insert_annotation: invalid window ["@ + shown(q.start_s) + ".."@ + shown(q.end_s)
                    + "]; end_s must be finite and > start_s"@,
            ),
        )
    } else if !valid_normalized_region(q.x, q.y, q.width, q.height) {
        Err(
            bad(
                index,
                "insert_annotation: x/y/width/height must be finite normalized values in 0..=1"@,
            ),
        )
    } else if !is_graphic_color(q.color@) {
        Err(
            bad(
                index,
                "insert_annotation: color must be #RGB/#RGBA/#RRGGBB/#RRGGBBAA hex or an alphanumeric color name"@,
            ),
        )
    } else if q.stroke_width == 0 {
        Err(bad(index, "insert_annotation: stroke_width must be greater than zero"@))
    } else {
        Ok(())
    }
}

fn check_annotation(index: usize, q: &Annotation) -> (r: Result<(), ApplyError>)
    ensures
        checks(r, annotation_ok(index, *q)),
{
    if !q.start_s.is_finite() || !q.end_s.is_finite() || q.end_s.at_most(q.start_s) {
        return Err(
            invalid(
                index,
                cat5(
                    "insert_annotation: invalid window [",
                    show(q.start_s).as_str(),
                    "..",
                    show(q.end_s).as_str(),
                    "]; end_s must be finite and > start_s",
                ),
            ),
        );
    }
    if !valid_normalized_region(q.x, q.y, q.width, q.height) {
        return Err(
            invalid_str(
                index,
                "insert_annotation: x/y/width/height must be finite normalized values in 0..=1",
            ),
        );
    }
    if !valid_graphic_color(q.color.as_str()) {
        return Err(
            invalid_str(
                index,
                "insert_annotation: color must be #RGB/#RGBA/#RRGGBB/#RRGGBBAA hex or an alphanumeric color name",
            ),
        );
    }
    if q.stroke_width == 0 {
        return Err(
            invalid_str(index, "insert_annotation: stroke_width must be greater than zero"),
        );
    }
    Ok(())
}

/// An annotation as it is kept.
pub open spec fn annotation_pairs(q: Annotation) -> Pairs {
    let m = put(Seq::empty(), "kind"@, Meta::Text(annotation_word(q.kind)));
    let m = put(m, "x"@, number_meta(q.x));
    let m = put(m, "y"@, number_meta(q.y));
    let m = put(m, "width"@, number_meta(q.width));
    let m = put(m, "height"@, number_meta(q.height));
    let m = put(m, "start_s"@, number_meta(q.start_s));
    let m = put(m, "end_s"@, number_meta(q.end_s));
    let m = put(m, "color"@, Meta::Text(q.color@));
    let m = put(m, "stroke_width"@, number_meta(ones(q.stroke_width as nat)));
    put_opt(m, "label"@, text_opt(unless_blank(opt(q.label))))
}

fn make_annotation_pairs(q: &Annotation) -> (r: MetaMap)
    ensures
        r@ == annotation_pairs(*q),
{
    let mut m = MetaMap::new().with("kind", MetaValue::text(annotation_kind_str(q.kind))).with(
        "x",
        MetaValue::number(q.x),
    ).with("y", MetaValue::number(q.y)).with("width", MetaValue::number(q.width)).with(
        "height",
        MetaValue::number(q.height),
    ).with("start_s", MetaValue::number(q.start_s)).with("end_s", MetaValue::number(q.end_s)).with(
        "color",
        MetaValue::text(q.color.as_str()),
    ).with("stroke_width", MetaValue::number(whole(q.stroke_width as usize)));
    if let Some(s) = &q.label {
        if !blank(s.as_str()) {
            m.insert("label", MetaValue::text(s.as_str()));
        }
    }
    m
}

/// The clip that shows an annotation.
pub open spec fn annotation_clip(q: Annotation, id: Str) -> ClipModel {
    let c = empty_clip(
        "annotation-"@ + annotation_word(q.kind) + "-"@ + milli3(q.start_s) + "-"@ + milli3(
            q.end_s,
        ),
    );
    let c = with_range(c, TimeRange::seconds(q.start_s, q.end_s.minus(q.start_s), rate24()));
    ClipModel {
        effects: seq![
            EffectModel { name: ""@, effect_name: ANNOTATION@, metadata: annotation_pairs(q) },
        ],
        ..with_uuid(c, id)
    }
}

/// Drawing a shape over the picture.
pub open spec fn annotation_inserted(tl: TimelineModel, index: usize, q: Annotation, id: Str) -> Done {
    match annotation_ok(index, q) {
        Err(e) => Err(e),
        Ok(_) => Ok(
            (
                on_role_track(
                    tl,
                    ANNOTATIONS_TRACK_ROLE_VALUE@,
                    ANNOTATIONS_TRACK_NAME@,
                    q.start_s,
                    annotation_clip(q, id),
                ),
                "inserted "@ + annotation_name(q.kind) + " annotation at ["@ + milli3(q.start_s)
                    + "s.."@ + milli3(q.end_s) + "s]"@,
            ),
        ),
    }
}

/// Draws a shape over the picture.
pub fn apply_insert_annotation(working: Timeline, index: usize, q: &Annotation, ids: &mut ClipIds) -> (res:
    Result<(Timeline, String), ApplyError>)
    ensures
        drew(
            *old(ids),
            *final(ids),
            if res is Ok {
                1
            } else {
                0
            },
        ),
        shows(
            res,
            annotation_inserted(working@, index, *q, fresh(*old(ids), *final(ids))[0]),
        ),
{
    if let Err(e) = check_annotation(index, q) {
        return Err(e);
    }
    let name = cat6(
        "annotation-",
        annotation_kind_str(q.kind),
        "-",
        fix3(q.start_s).as_str(),
        "-",
        fix3(q.end_s).as_str(),
    );
    let mut c = Clip::empty(name.as_str());
    c.source_range = Some(TimeRange::seconds(q.start_s, q.end_s.minus(q.start_s), rate24()));
    let id = ids.draw();
    stamp_clip_uuid(&mut c, id.as_str());
    let ghost bare = c@;
    c.effects.push(Effect::new(ANNOTATION, make_annotation_pairs(q)));
    assert(c@.effects =~= bare.effects.push(c@.effects[0]));
    let out = put_on_role_track(
        working,
        ANNOTATIONS_TRACK_ROLE_VALUE,
        ANNOTATIONS_TRACK_NAME,
        q.start_s,
        c,
    );
    let said = cat7(
        "inserted ",
        name_annotation(q.kind),
        " annotation at [",
        fix3(q.start_s).as_str(),
        "s..",
        fix3(q.end_s).as_str(),
        "s]",
    );
    Ok((out, said))
}

// ---- changes --------------------------------------------------------------

/// What is to be changed of a title.
#[derive(Debug)]
pub struct TitleChange {
    pub start_s: Option<Num>,
    pub end_s: Option<Num>,
    pub text: Option<String>,
    pub position: Option<TitlePosition>,
    pub font_size: Option<u32>,
    pub color: Option<String>,
    pub font_weight: Option<TitleWeight>,
    pub animation: Option<TitleAnimation>,
    pub phases: Option<MetaValue>,
    pub font_family: Option<String>,
    pub font_path: Option<String>,
}

/// The style of a title with the changes made; another family without a file
/// drops the file.
pub open spec fn title_pairs(m: Pairs, ch: TitleChange) -> Pairs {
    let m = put_opt(m, "text"@, text_opt(opt(ch.text)));
    let m = put_opt(
        m,
        "position"@,
        match ch.position {
            Some(p) => Some(Meta::Text(position_word(p))),
            None => None,
        },
    );
    let m = put_opt(
        m,
        "font_size"@,
        match ch.font_size {
            Some(n) => Some(number_meta(ones(n as nat))),
            None => None,
        },
    );
    let m = put_opt(m, "color"@, text_opt(opt(ch.color)));
    let m = put_opt(
        m,
        "font_weight"@,
        match ch.font_weight {
            Some(w) => Some(Meta::Text(weight_word(w))),
            None => None,
        },
    );
    let m = put_opt(
        m,
        "animation"@,
        match ch.animation {
            Some(a) => Some(Meta::Text(animation_word(a))),
            None => None,
        },
    );
    let m = put_opt(m, "phases"@, opt(ch.phases));
    let family = unless_blank(opt(ch.font_family));
    let path = unless_blank(opt(ch.font_path));
    let m = put_opt(m, "font_family"@, text_opt(family));
    let m = if family is Some && path is None {
        without(m, "font_path"@)
    } else {
        m
    };
    put_opt(m, "font_path"@, text_opt(path))
}

#[verifier::rlimit(30)]
fn change_title_pairs(m: &mut MetaMap, ch: &TitleChange)
    ensures
        final(m)@ == title_pairs(old(m)@, *ch),
{
    if let Some(t) = &ch.text {
        m.insert("text", MetaValue::text(t.as_str()));
    }
    if let Some(p) = ch.position {
        m.insert("position", MetaValue::text(title_position_str(p)));
    }
    if let Some(n) = ch.font_size {
        m.insert("font_size", MetaValue::number(whole(n as usize)));
    }
    if let Some(t) = &ch.color {
        m.insert("color", MetaValue::text(t.as_str()));
    }
    if let Some(w) = ch.font_weight {
        m.insert("font_weight", MetaValue::text(title_weight_str(w)));
    }
    if let Some(a) = ch.animation {
        m.insert("animation", MetaValue::text(title_animation_str(a)));
    }
    if let Some(p) = &ch.phases {
        m.insert("phases", p.copied());
    }
    if let Some(t) = &ch.font_family {
        if !blank(t.as_str()) {
            m.insert("font_family", MetaValue::text(t.as_str()));
            if !filled(&ch.font_path) {
                m.remove("font_path");
            }
        }
    }
    if let Some(t) = &ch.font_path {
        if !blank(t.as_str()) {
            m.insert("font_path", MetaValue::text(t.as_str()));
        }
    }
}

/// Whether an effect is a title.
pub open spec fn title_effect() -> spec_fn(EffectModel) -> bool {
    |e: EffectModel| e.effect_name == TITLE@
}

fn find_title_effect(c: &Clip) -> (r: Option<usize>)
    ensures
        match r {
            Some(i) => first_where(c@.effects, title_effect(), 0) == Some(i as int) && i
                < c@.effects.len(),
            None => first_where(c@.effects, title_effect(), 0) is None,
        },
{
    let mut i: usize = 0;
    while i < c.effects.len()
        invariant
            i <= c.effects@.len(),
            first_where(c@.effects, title_effect(), 0) == first_where(
                c@.effects,
                title_effect(),
                i as int,
            ),
        decreases c.effects@.len() - i,
    {
        assert(c@.effects[i as int] == c.effects@[i as int]@);
        if same(c.effects[i].effect_name.as_str(), TITLE) {
            return Some(i);
        }
        i = i + 1;
    }
    None
}

/// The clip with other parameters of one of its effects.
pub open spec fn with_effect_pairs(c: ClipModel, i: int, m: Pairs) -> ClipModel {
    ClipModel {
        effects: c.effects.update(i, EffectModel { metadata: m, ..c.effects[i] }),
        ..c
    }
}

/// The clip of a title with the changes made.
pub open spec fn changed_title(index: usize, c: ClipModel, ch: TitleChange) -> Result<
    ClipModel,
    Refusal,
> {
    match first_where(c.effects, title_effect(), 0) {
        None => Err(
            bad(
                index,
                "set_title: anchored clip "@ + quoted(c.name)
                    + " carries no montage.title effect — SetTitle only updates existing titles, use InsertTitle to create one"@,
            ),
        ),
        Some(i) => if ch.text matches Some(t) && t@.len() == 0 {
            Err(bad(index, "set_title: text must be non-empty"@))
        } else {
            let m = title_pairs(c.effects[i].metadata, ch);
            if ch.start_s is None && ch.end_s is None {
                Ok(with_effect_pairs(c, i, m))
            } else {
                match c.source_range {
                    None => Err(
                        bad(index, "set_title: title clip has no source_range to mutate"@),
                    ),
                    Some(r) => {
                        let a = or_else(ch.start_s, r.start_time.to_seconds());
                        let b = or_else(
                            ch.end_s,
                            r.start_time.to_seconds().plus(r.duration.to_seconds()),
                        );
                        if !a.is_finite() || !b.is_finite() || b.at_most(a) {
                            Err(
                                bad(
                                    index,
                                    "set_title: invalid window ["@ + shown(a) + ".."@ + shown(b)
                                        + "]; end_s must be > start_s"@,
                                ),
                            )
                        } else {
                            let m = put(m, "start_s"@, number_meta(a));
                            let m = put(m, "end_s"@, number_meta(b));
                            Ok(
                                with_effect_pairs(
                                    with_range(
                                        c,
                                        TimeRange::seconds(a, b.minus(a), r.start_time.rate),
                                    ),
                                    i,
                                    m,
                                ),
                            )
                        }
                    },
                }
            }
        },
    }
}

fn change_title(index: usize, c: Clip, ch: &TitleChange) -> (res: Result<Clip, ApplyError>)
    ensures
        match res {
            Ok(k) => changed_title(index, c@, *ch) == Ok::<ClipModel, Refusal>(k@),
            Err(e) => changed_title(index, c@, *ch) == Err::<ClipModel, Refusal>(e@),
        },
{
    let mut c = c;
    let i: usize = match find_title_effect(&c) {
        Some(i) => i,
        None => {
            return Err(
                invalid(
                    index,
                    cat3(
                        "set_title: anchored clip ",
                        quote(c.name.as_str()).as_str(),
                        " carries no montage.title effect — SetTitle only updates existing titles, use InsertTitle to create one",
                    ),
                ),
            );
        },
    };
    if let Some(t) = &ch.text {
        if t.as_str().unicode_len() == 0 {
            return Err(invalid_str(index, "set_title: text must be non-empty"));
        }
    }
    let ghost whole_clip = c@;
    assert(c@.effects[i as int] == c.effects@[i as int]@);
    let mut e = c.effects[i].copied();
    change_title_pairs(&mut e.metadata, ch);
    if ch.start_s.is_some() || ch.end_s.is_some() {
        let r = match c.source_range {
            Some(r) => r,
            None => {
                return Err(
                    invalid_str(index, "set_title: title clip has no source_range to mutate"),
                );
            },
        };
        let a = or_else(ch.start_s, r.start_time.to_seconds());
        let b = or_else(ch.end_s, r.start_time.to_seconds().plus(r.duration.to_seconds()));
        if !a.is_finite() || !b.is_finite() || b.at_most(a) {
            return Err(
                invalid(
                    index,
                    cat5(
                        "set_title: invalid window [",
                        show(a).as_str(),
                        "..",
                        show(b).as_str(),
                        "]; end_s must be > start_s",
                    ),
                ),
            );
        }
        e.metadata.insert("start_s", MetaValue::number(a));
        e.metadata.insert("end_s", MetaValue::number(b));
        c.source_range = Some(TimeRange::seconds(a, b.minus(a), r.start_time.rate));
    }
    c.effects.set(i, e);
    assert(c@.effects =~= whole_clip.effects.update(i as int, e@));
    Ok(c)
}

/// Changing a title.
pub open spec fn title_set(
    tl: TimelineModel,
    index: usize,
    ch: TitleChange,
    locator: Option<ClipLocator>,
) -> Done {
    match locator {
        None => Err(no_place(index)),
        Some(loc) => match track_at(tl, loc.track_index as int) {
            None => Err(bad(index, "set_title: anchor resolved to a non-track stack child"@)),
            Some(_) => match clip_at(tl, loc) {
                None => Err(bad(index, "set_title: anchor resolved to a non-clip child"@)),
                Some(c) => match changed_title(index, c, ch) {
                    Err(e) => Err(e),
                    Ok(k) => Ok(
                        (with_clip(tl, loc, k), "updated title clip "@ + quoted(c.name)),
                    ),
                },
            },
        },
    }
}

/// Changes a title.
pub fn apply_set_title(
    working: Timeline,
    index: usize,
    ch: &TitleChange,
    locator: Option<ClipLocator>,
) -> (res: Result<(Timeline, String), ApplyError>)
    ensures
        shows(res, title_set(working@, index, *ch, locator)),
{
    let loc = match required_locator(index, locator) {
        Ok(l) => l,
        Err(e) => {
            return Err(e);
        },
    };
    if working.track(loc.track_index).is_none() {
        return Err(
            invalid_str(index, "set_title: anchor resolved to a non-track stack child"),
        );
    }
    let c = match working.clip(loc) {
        Some(c) => c.copied(),
        None => {
            return Err(invalid_str(index, "set_title: anchor resolved to a non-clip child"));
        },
    };
    let said = cat2("updated title clip ", quote(c.name.as_str()).as_str());
    match change_title(index, c, ch) {
        Err(e) => Err(e),
        Ok(k) => {
            let mut out = working;
            out.put_clip(loc, k);
            Ok((out, said))
        },
    }
}

} // verus!

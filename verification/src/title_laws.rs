//! What titles and annotations show, when, and where they stand.
use vstd::prelude::*;

use crate::clip::{first_where, lemma_first_where, uuid_of};
use crate::effect_laws::only_clip;
use crate::laws::law_put_then_lookup;
use crate::measures::{
    first, has_clip, has_row, last, law_a_place_is_found, most, plain, row, the_clip, tick,
};
use crate::meta::{lookup, lookup_text, put, put_all, Meta, Pairs};
use crate::model::{
    opt, ClipLocator, ClipModel, StackChildModel, TimelineModel, TrackChildModel, TrackKind,
};
use crate::num::Num;
use crate::op::{
    AnnotationKind, CaptionWordTiming, RichTextSegment, TitleAnimation, TitlePosition, TitleWeight,
};
use crate::text::{is_blank, joined, Str};
use crate::title::{
    annotation_clip, annotation_inserted, annotation_ok, annotation_pairs, begins_from,
    caption_inserted, is_graphic_color, on_role_track, overlay_clip, overlay_inserted,
    overlay_pairs, rich_title_inserted, role_layer, title_effect, title_inserted, title_pairs,
    title_place, title_set, with_role_track, word_fine, Annotation, Caption, RichTitle,
    TextOverlayModel, TitleChange,
};

verus! {

// ---- the track ------------------------------------------------------------------------------

/// Whether a layer is a track for a role, by what it says or by its name.
pub open spec fn for_role(layer: StackChildModel, role: Str, name: Str) -> bool {
    layer is Track && (lookup_text(layer->Track_0.metadata, "montage_track_role"@) == Some(role)
        || layer->Track_0.name == name)
}

/// Whether the track for a role stands at a place: the first there is, or the one that is
/// made behind all where there is none.
pub open spec fn role_place(tl: TimelineModel, role: Str, name: Str, k: int) -> bool {
    ||| 0 <= k < tl.tracks.children.len() && for_role(tl.tracks.children[k], role, name) && forall|
        s: int,
    |
        0 <= s < k ==> !for_role(#[trigger] tl.tracks.children[s], role, name)
    ||| k == tl.tracks.children.len() && forall|s: int|
        0 <= s < k ==> !for_role(#[trigger] tl.tracks.children[s], role, name)
}

/// What stands on the track for a role.
pub open spec fn on_role(tl: TimelineModel, k: int) -> Seq<TrackChildModel> {
    if k < tl.tracks.children.len() {
        row(tl, k)
    } else {
        Seq::empty()
    }
}

/// When a child begins, as a title does: at the start of its range.
pub open spec fn shown_from(c: TrackChildModel) -> int {
    match c {
        TrackChildModel::Clip(c) => match c.source_range {
            Some(r) => first(r),
            None => 0,
        },
        _ => 0,
    }
}

/// Whether a title has been put among others: right in front of the first that begins no
/// earlier, and nothing else has changed.
pub open spec fn put_in_time(
    before: Seq<TrackChildModel>,
    after: Seq<TrackChildModel>,
    x: TrackChildModel,
    at: int,
) -> bool {
    exists|k: int|
        {
            &&& 0 <= k <= before.len()
            &&& after == #[trigger] before.insert(k, x)
            &&& forall|n: int|
                0 <= n < k && (#[trigger] before[n]) is Clip ==> shown_from(before[n]) < at
            &&& k < before.len() ==> before[k] is Clip && at <= shown_from(before[k])
        }
}

proof fn lemma_put_in_time(
    tl: TimelineModel,
    role: Str,
    name: Str,
    start_s: Num,
    c: ClipModel,
    k: int,
)
    requires
        role_place(tl, role, name, k),
        start_s is Fin,
        forall|n: int|
            0 <= n < on_role(tl, k).len() && (#[trigger] on_role(tl, k)[n]) is Clip ==> (
            on_role(tl, k)[n]->Clip_0.source_range matches Some(r) ==> r.start_time.seconds is Fin),
    ensures
        ({
            let out = on_role_track(tl, role, name, start_s, c);
            &&& has_row(out, k)
            &&& put_in_time(
                on_role(tl, k),
                row(out, k),
                TrackChildModel::Clip(c),
                tick(start_s),
            )
            &&& out.tracks.children.len() == most(tl.tracks.children.len() as int, k + 1)
            &&& forall|s: int|
                0 <= s < tl.tracks.children.len() && s != k ==> #[trigger] out.tracks.children[s]
                    == tl.tracks.children[s]
            &&& out.montage == tl.montage
            &&& k == tl.tracks.children.len() ==> {
                let t = out.tracks.children[k]->Track_0;
                t.name == name && t.kind == TrackKind::Video && for_role(
                    out.tracks.children[k],
                    role,
                    name,
                )
            }
        }),
{
    let p = role_layer(role, name);
    let layers = tl.tracks.children;
    lemma_first_where(layers, p, 0);
    assert forall|s: int| 0 <= s < layers.len() implies p(#[trigger] layers[s]) == for_role(
        layers[s],
        role,
        name,
    ) by {}
    let (made, i) = with_role_track(tl, role, name);
    assert(i == k) by {
        match first_where(layers, p, 0) {
            Some(j) => {
                assert(for_role(layers[j], role, name));
            },
            None => {
                if k < layers.len() {
                    assert(!p(layers[k]));
                }
            },
        }
    }
    let t = made.tracks.children[k]->Track_0;
    assert(t.children == on_role(tl, k));
    law_put_then_lookup(
        Seq::empty(),
        "montage_track_role"@,
        Meta::Text(role),
        "montage_track_role"@,
    );
    let before = on_role(tl, k);
    lemma_first_where(before, begins_from(start_s), 0);
    let at = title_place(t, start_s);
    let out = on_role_track(tl, role, name, start_s, c);
    assert(row(out, k) == before.insert(at, TrackChildModel::Clip(c)));
    assert forall|n: int| 0 <= n < at && (#[trigger] before[n]) is Clip implies shown_from(
        before[n],
    ) < tick(start_s) by {
        assert(!begins_from(start_s)(before[n]));
    }
    if at < before.len() {
        assert(begins_from(start_s)(before[at]));
    }
}

// ---- titles ---------------------------------------------------------------------------------

/// The word for a position.
pub open spec fn position_text(p: TitlePosition) -> Str {
    match p {
        TitlePosition::Top => "top"@,
        TitlePosition::Center => "center"@,
        TitlePosition::Bottom => "bottom"@,
    }
}

/// The word for a weight.
pub open spec fn weight_text(w: TitleWeight) -> Str {
    match w {
        TitleWeight::Normal => "normal"@,
        TitleWeight::Bold => "bold"@,
    }
}

/// The word for an animation.
pub open spec fn animation_text(a: TitleAnimation) -> Str {
    match a {
        TitleAnimation::Still => "none"@,
        TitleAnimation::FadeIn => "fade_in"@,
        TitleAnimation::FadeOut => "fade_out"@,
        TitleAnimation::FadeInOut => "fade_in_out"@,
        TitleAnimation::SlideIn => "slide_in"@,
        TitleAnimation::SlideOut => "slide_out"@,
    }
}

/// A whole number of units.
pub open spec fn units_of(n: u32) -> Num {
    Num::Fin((n * 1_000_000_000_000_000) as i128)
}

/// What is put under a key is found there, and all else stays.
pub proof fn lemma_put_one(m: Pairs, key: Str, value: Meta)
    ensures
        lookup(put(m, key, value), key) == Some(value),
        forall|other: Str|
            other != key ==> #[trigger] lookup(put(m, key, value), other) == lookup(m, other),
{
    law_put_then_lookup(m, key, value, key);
    assert forall|other: Str| other != key implies #[trigger] lookup(put(m, key, value), other)
        == lookup(m, other) by {
        law_put_then_lookup(m, key, value, other);
    }
}

/// What is put under a key, if anything, is found there, and all else stays.
pub proof fn lemma_put_some(m: Pairs, key: Str, value: Option<Meta>)
    ensures
        ({
            let now = crate::audio::put_opt(m, key, value);
            &&& value matches Some(v) ==> lookup(now, key) == Some(v)
            &&& value is None ==> now == m
            &&& forall|other: Str|
                other != key ==> #[trigger] lookup(now, other) == lookup(m, other)
        }),
{
    if let Some(v) = value {
        lemma_put_one(m, key, v);
    }
}

proof fn lemma_put_more(m: Pairs, more: Pairs, key: Str)
    requires
        forall|k: int| 0 <= k < more.len() ==> (#[trigger] more[k]).0 != key,
    ensures
        lookup(put_all(m, more), key) == lookup(m, key),
    decreases more.len(),
{
    if more.len() > 0 {
        let rest = more.drop_last();
        assert forall|k: int| 0 <= k < rest.len() implies (#[trigger] rest[k]).0 != key by {
            assert(rest[k] == more[k]);
        }
        lemma_put_more(m, rest, key);
        assert(more[more.len() - 1].0 != key);
        law_put_then_lookup(put_all(m, rest), more.last().0, more.last().1, key);
    }
}

proof fn lemma_title_keys()
    ensures
        "role"@.len() == 4 && "role"@[0] == 'r',
        "text"@.len() == 4 && "text"@[0] == 't',
        "start_s"@.len() == 7,
        "end_s"@.len() == 5 && "end_s"@[0] == 'e',
        "position"@.len() == 8,
        "font_size"@.len() == 9 && "font_size"@[0] == 'f',
        "color"@.len() == 5 && "color"@[0] == 'c',
        "font_weight"@.len() == 11,
        "animation"@.len() == 9 && "animation"@[0] == 'a',
        "phases"@.len() == 6,
        "safe_area"@.len() == 9 && "safe_area"@[0] == 's',
{
    reveal_strlit("role");
    reveal_strlit("text");
    reveal_strlit("start_s");
    reveal_strlit("end_s");
    reveal_strlit("position");
    reveal_strlit("font_size");
    reveal_strlit("color");
    reveal_strlit("font_weight");
    reveal_strlit("animation");
    reveal_strlit("phases");
    reveal_strlit("safe_area");
}

/// The style of a title is kept part by part, each under its own name, unless what is
/// given besides says otherwise.
pub proof fn law_title_style_is_kept_by_name(
    role: Str,
    safe_area: Option<Str>,
    extra: Pairs,
    q: TextOverlayModel,
    key: Str,
)
    requires
        q.start_s is Fin,
        q.end_s is Fin,
        forall|k: int| 0 <= k < extra.len() ==> (#[trigger] extra[k]).0 != key,
    ensures
        ({
            let m = overlay_pairs(role, safe_area, extra, q);
            &&& key == "role"@ ==> lookup(m, key) == Some(Meta::Text(role))
            &&& key == "text"@ ==> lookup(m, key) == Some(Meta::Text(q.text))
            &&& key == "start_s"@ ==> lookup(m, key) == Some(Meta::Number(q.start_s))
            &&& key == "end_s"@ ==> lookup(m, key) == Some(Meta::Number(q.end_s))
            &&& key == "position"@ ==> lookup(m, key) == Some(
                Meta::Text(position_text(q.position)),
            )
            &&& key == "font_size"@ ==> lookup(m, key) == Some(
                Meta::Number(units_of(q.font_size)),
            )
            &&& key == "color"@ ==> lookup(m, key) == Some(Meta::Text(q.color))
            &&& key == "font_weight"@ ==> lookup(m, key) == Some(
                Meta::Text(weight_text(q.font_weight)),
            )
            &&& key == "animation"@ ==> lookup(m, key) == Some(
                Meta::Text(animation_text(q.animation)),
            )
            &&& key == "phases"@ ==> lookup(m, key) == q.phases
            &&& key == "safe_area"@ ==> lookup(m, key) == (match safe_area {
                Some(s) => Some(Meta::Text(s)),
                None => None,
            })
        }),
{
    lemma_title_keys();
    let m0 = Seq::<(Str, Meta)>::empty();
    let v1 = Meta::Text(role);
    let m1 = put(m0, "role"@, v1);
    lemma_put_one(m0, "role"@, v1);
    let v2 = Meta::Text(q.text);
    let m2 = put(m1, "text"@, v2);
    lemma_put_one(m1, "text"@, v2);
    let v3 = Meta::Number(q.start_s);
    let m3 = put(m2, "start_s"@, v3);
    lemma_put_one(m2, "start_s"@, v3);
    let v4 = Meta::Number(q.end_s);
    let m4 = put(m3, "end_s"@, v4);
    lemma_put_one(m3, "end_s"@, v4);
    let v5 = Meta::Text(position_text(q.position));
    let m5 = put(m4, "position"@, v5);
    lemma_put_one(m4, "position"@, v5);
    let v6 = Meta::Number(units_of(q.font_size));
    let m6 = put(m5, "font_size"@, v6);
    lemma_put_one(m5, "font_size"@, v6);
    let v7 = Meta::Text(q.color);
    let m7 = put(m6, "color"@, v7);
    lemma_put_one(m6, "color"@, v7);
    let v8 = Meta::Text(weight_text(q.font_weight));
    let m8 = put(m7, "font_weight"@, v8);
    lemma_put_one(m7, "font_weight"@, v8);
    let v9 = Meta::Text(animation_text(q.animation));
    let m9 = put(m8, "animation"@, v9);
    lemma_put_one(m8, "animation"@, v9);
    let m10 = crate::audio::put_opt(m9, "phases"@, q.phases);
    lemma_put_some(m9, "phases"@, q.phases);
    let area = crate::audio::text_opt(safe_area);
    let m11 = crate::audio::put_opt(m10, "safe_area"@, area);
    lemma_put_some(m10, "safe_area"@, area);
    lemma_put_more(m11, extra, key);
    assert(overlay_pairs(role, safe_area, extra, q) == put_all(m11, extra));
}

/// Whether a clip shows nothing of any media for a stretch, under an id, with one effect
/// of a kind.
pub open spec fn is_drawn(c: ClipModel, from: int, to: int, id: Str, kind: Str) -> bool {
    &&& c.media_reference is Missing
    &&& c.source_range matches Some(r) && first(r) == from && last(r) == to
    &&& uuid_of(c) == Some(id)
    &&& c.effects.len() == 1
    &&& c.effects.last().effect_name == kind
}

/// A title, or a caption, is put in exactly where it has a length and a text.  Its clip
/// lasts for the time asked for, under the id given or else drawn, with its style as its
/// one effect, on the track for titles, which is made where there is none, in the order of
/// time.
pub proof fn law_title_stands_in_its_time(
    tl: TimelineModel,
    index: usize,
    role: Str,
    safe_area: Option<Str>,
    clip_uuid: Option<Str>,
    extra: Pairs,
    q: TextOverlayModel,
    id: Str,
    k: int,
)
    requires
        role_place(tl, "titles"@, "Titles"@, k),
        forall|n: int|
            0 <= n < on_role(tl, k).len() && (#[trigger] on_role(tl, k)[n]) is Clip ==> (
            on_role(tl, k)[n]->Clip_0.source_range matches Some(r) ==> r.start_time.seconds is Fin),
        q.start_s is Fin && q.end_s is Fin ==> i128::MIN <= tick(q.end_s) - tick(q.start_s)
            <= i128::MAX,
    ensures
        ({
            let fine = q.start_s is Fin && q.end_s is Fin && tick(q.start_s) < tick(q.end_s)
                && q.text.len() > 0;
            match overlay_inserted(tl, index, role, safe_area, clip_uuid, extra, q, id) {
                Ok((out, _)) => {
                    let uuid = match clip_uuid {
                        Some(u) => u,
                        None => id,
                    };
                    let c = overlay_clip(role, safe_area, uuid, extra, q);
                    &&& fine
                    &&& is_drawn(c, tick(q.start_s), tick(q.end_s), uuid, "montage.title"@)
                    &&& c.effects.last().metadata == overlay_pairs(role, safe_area, extra, q)
                    &&& has_row(out, k)
                    &&& put_in_time(
                        on_role(tl, k),
                        row(out, k),
                        TrackChildModel::Clip(c),
                        tick(q.start_s),
                    )
                    &&& out.tracks.children.len() == most(tl.tracks.children.len() as int, k + 1)
                    &&& forall|s: int|
                        0 <= s < tl.tracks.children.len() && s != k
                            ==> #[trigger] out.tracks.children[s] == tl.tracks.children[s]
                    &&& k == tl.tracks.children.len() ==> out.tracks.children[k]->Track_0.kind
                        == TrackKind::Video && out.tracks.children[k]->Track_0.name == "Titles"@
                },
                Err(_) => !fine,
            }
        }),
{
    if let Ok((out, _)) = overlay_inserted(tl, index, role, safe_area, clip_uuid, extra, q, id) {
        let uuid = match clip_uuid {
            Some(u) => u,
            None => id,
        };
        let c = overlay_clip(role, safe_area, uuid, extra, q);
        law_put_then_lookup(Seq::empty(), "clip_uuid"@, Meta::Text(uuid), "clip_uuid"@);
        lemma_put_in_time(tl, "titles"@, "Titles"@, q.start_s, c, k);
    }
}

// ---- annotations ------------------------------------------------------------------------------

/// The word for what an annotation draws.
pub open spec fn drawn_text(k: AnnotationKind) -> Str {
    match k {
        AnnotationKind::Rectangle => "rectangle"@,
        AnnotationKind::Circle => "circle"@,
        AnnotationKind::Arrow => "arrow"@,
        AnnotationKind::Bracket => "bracket"@,
        AnnotationKind::Blur => "blur"@,
    }
}

/// Whether a side lies in the picture, whose sides are of length one.
pub open spec fn side_inside(at: Num, long: Num) -> bool {
    at is Fin && long is Fin && 0 <= tick(at) && 0 < tick(long) && tick(at) + tick(long)
        <= 1_000_000_000_000_000
}

/// An annotation is taken exactly where it has a length, lies inside the picture, is drawn
/// in a colour, and with a stroke.
pub proof fn law_annotation_lies_in_the_picture(index: usize, q: Annotation)
    ensures
        annotation_ok(index, q) is Ok <==> {
            &&& q.start_s is Fin && q.end_s is Fin && tick(q.start_s) < tick(q.end_s)
            &&& side_inside(q.x, q.width)
            &&& side_inside(q.y, q.height)
            &&& is_graphic_color(q.color@)
            &&& q.stroke_width > 0
        },
{
}

proof fn lemma_annotation_keys()
    ensures
        "kind"@.len() == 4,
        "x"@.len() == 1 && "x"@[0] == 'x',
        "y"@.len() == 1 && "y"@[0] == 'y',
        "width"@.len() == 5 && "width"@[0] == 'w',
        "height"@.len() == 6,
        "start_s"@.len() == 7,
        "end_s"@.len() == 5 && "end_s"@[0] == 'e',
        "color"@.len() == 5 && "color"@[0] == 'c',
        "stroke_width"@.len() == 12,
        "label"@.len() == 5 && "label"@[0] == 'l',
{
    reveal_strlit("kind");
    reveal_strlit("x");
    reveal_strlit("y");
    reveal_strlit("width");
    reveal_strlit("height");
    reveal_strlit("start_s");
    reveal_strlit("end_s");
    reveal_strlit("color");
    reveal_strlit("stroke_width");
    reveal_strlit("label");
}

/// An annotation that is taken is kept part by part, each under its own name.
pub proof fn law_annotation_is_kept_by_name(index: usize, q: Annotation)
    requires
        annotation_ok(index, q) is Ok,
    ensures
        ({
            let m = annotation_pairs(q);
            &&& lookup(m, "kind"@) == Some(Meta::Text(drawn_text(q.kind)))
            &&& lookup(m, "x"@) == Some(Meta::Number(q.x))
            &&& lookup(m, "y"@) == Some(Meta::Number(q.y))
            &&& lookup(m, "width"@) == Some(Meta::Number(q.width))
            &&& lookup(m, "height"@) == Some(Meta::Number(q.height))
            &&& lookup(m, "start_s"@) == Some(Meta::Number(q.start_s))
            &&& lookup(m, "end_s"@) == Some(Meta::Number(q.end_s))
            &&& lookup(m, "color"@) == Some(Meta::Text(q.color@))
            &&& lookup(m, "stroke_width"@) == Some(Meta::Number(units_of(q.stroke_width)))
            &&& lookup(m, "label"@) == (match q.label {
                Some(l) => if is_blank(l@) {
                    None
                } else {
                    Some(Meta::Text(l@))
                },
                None => None,
            })
        }),
{
    law_annotation_lies_in_the_picture(index, q);
    lemma_annotation_keys();
    let m0 = Seq::<(Str, Meta)>::empty();
    let v1 = Meta::Text(drawn_text(q.kind));
    let m1 = put(m0, "kind"@, v1);
    lemma_put_one(m0, "kind"@, v1);
    let v2 = Meta::Number(q.x);
    let m2 = put(m1, "x"@, v2);
    lemma_put_one(m1, "x"@, v2);
    let v3 = Meta::Number(q.y);
    let m3 = put(m2, "y"@, v3);
    lemma_put_one(m2, "y"@, v3);
    let v4 = Meta::Number(q.width);
    let m4 = put(m3, "width"@, v4);
    lemma_put_one(m3, "width"@, v4);
    let v5 = Meta::Number(q.height);
    let m5 = put(m4, "height"@, v5);
    lemma_put_one(m4, "height"@, v5);
    let v6 = Meta::Number(q.start_s);
    let m6 = put(m5, "start_s"@, v6);
    lemma_put_one(m5, "start_s"@, v6);
    let v7 = Meta::Number(q.end_s);
    let m7 = put(m6, "end_s"@, v7);
    lemma_put_one(m6, "end_s"@, v7);
    let v8 = Meta::Text(q.color@);
    let m8 = put(m7, "color"@, v8);
    lemma_put_one(m7, "color"@, v8);
    let v9 = Meta::Number(units_of(q.stroke_width));
    let m9 = put(m8, "stroke_width"@, v9);
    lemma_put_one(m8, "stroke_width"@, v9);
    let label = crate::audio::text_opt(crate::title::unless_blank(opt(q.label)));
    lemma_put_some(m9, "label"@, label);
    assert(annotation_pairs(q) == crate::audio::put_opt(m9, "label"@, label));
}

/// An annotation is put in exactly where it is taken.  Its clip lasts for the time asked
/// for, with what it draws as its one effect, on the track for annotations, which is made
/// where there is none, in the order of time.
pub proof fn law_annotation_stands_in_its_time(
    tl: TimelineModel,
    index: usize,
    q: Annotation,
    id: Str,
    k: int,
)
    requires
        role_place(tl, "annotations"@, "Annotations"@, k),
        forall|n: int|
            0 <= n < on_role(tl, k).len() && (#[trigger] on_role(tl, k)[n]) is Clip ==> (
            on_role(tl, k)[n]->Clip_0.source_range matches Some(r) ==> r.start_time.seconds is Fin),
        q.start_s is Fin && q.end_s is Fin ==> tick(q.end_s) - tick(q.start_s) <= i128::MAX,
    ensures
        match annotation_inserted(tl, index, q, id) {
            Ok((out, _)) => {
                let c = annotation_clip(q, id);
                &&& annotation_ok(index, q) is Ok
                &&& is_drawn(c, tick(q.start_s), tick(q.end_s), id, "montage.annotation"@)
                &&& c.effects.last().metadata == annotation_pairs(q)
                &&& has_row(out, k)
                &&& put_in_time(
                    on_role(tl, k),
                    row(out, k),
                    TrackChildModel::Clip(c),
                    tick(q.start_s),
                )
                &&& out.tracks.children.len() == most(tl.tracks.children.len() as int, k + 1)
            },
            Err(_) => annotation_ok(index, q) is Err,
        },
{
    law_annotation_lies_in_the_picture(index, q);
    if let Ok((out, _)) = annotation_inserted(tl, index, q, id) {
        law_put_then_lookup(Seq::empty(), "clip_uuid"@, Meta::Text(id), "clip_uuid"@);
        lemma_put_in_time(
            tl,
            "annotations"@,
            "Annotations"@,
            q.start_s,
            annotation_clip(q, id),
            k,
        );
    }
}

// ---- changes ------------------------------------------------------------------------------------

/// Whether the first title of a clip is one of its effects.
pub open spec fn first_title(c: ClipModel, i: int) -> bool {
    &&& 0 <= i < c.effects.len()
    &&& c.effects[i].effect_name == "montage.title"@
    &&& forall|n: int| 0 <= n < i ==> (#[trigger] c.effects[n]).effect_name != "montage.title"@
}

proof fn lemma_change_keys()
    ensures
        "text"@.len() == 4,
        "position"@.len() == 8,
        "font_size"@.len() == 9 && "font_size"@[0] == 'f' && "font_size"@[5] == 's',
        "color"@.len() == 5,
        "font_weight"@.len() == 11 && "font_weight"@[5] == 'w',
        "animation"@.len() == 9 && "animation"@[0] == 'a',
        "phases"@.len() == 6,
        "font_family"@.len() == 11 && "font_family"@[5] == 'f',
        "font_path"@.len() == 9 && "font_path"@[0] == 'f' && "font_path"@[5] == 'p',
{
    reveal_strlit("text");
    reveal_strlit("position");
    reveal_strlit("font_size");
    reveal_strlit("color");
    reveal_strlit("font_weight");
    reveal_strlit("animation");
    reveal_strlit("phases");
    reveal_strlit("font_family");
    reveal_strlit("font_path");
}

/// A change to a title sets each part that it names to what it names.
pub proof fn law_title_change_says_what_was_asked(m: Pairs, ch: TitleChange)
    ensures
        ({
            let now = title_pairs(m, ch);
            &&& ch.text matches Some(x) ==> lookup(now, "text"@) == Some(Meta::Text(x@))
            &&& ch.position matches Some(x) ==> lookup(now, "position"@) == Some(
                Meta::Text(position_text(x)),
            )
            &&& ch.font_size matches Some(x) ==> lookup(now, "font_size"@) == Some(
                Meta::Number(units_of(x)),
            )
            &&& ch.color matches Some(x) ==> lookup(now, "color"@) == Some(Meta::Text(x@))
            &&& ch.font_weight matches Some(x) ==> lookup(now, "font_weight"@) == Some(
                Meta::Text(weight_text(x)),
            )
            &&& ch.animation matches Some(x) ==> lookup(now, "animation"@) == Some(
                Meta::Text(animation_text(x)),
            )
            &&& ch.font_family matches Some(x) ==> !is_blank(x@) ==> lookup(now, "font_family"@)
                == Some(Meta::Text(x@))
            &&& ch.font_path matches Some(x) ==> !is_blank(x@) ==> lookup(now, "font_path"@) == Some(
                Meta::Text(x@),
            )
            &&& (ch.font_family matches Some(x) && !is_blank(x@)) && !(ch.font_path matches Some(y)
                && !is_blank(y@)) ==> lookup(now, "font_path"@) is None
        }),
{
    lemma_change_keys();
    let text = crate::audio::text_opt(opt(ch.text));
    let m1 = crate::audio::put_opt(m, "text"@, text);
    lemma_put_some(m, "text"@, text);
    let position = match ch.position {
        Some(p) => Some(Meta::Text(position_text(p))),
        None => None,
    };
    let m2 = crate::audio::put_opt(m1, "position"@, position);
    lemma_put_some(m1, "position"@, position);
    let size = match ch.font_size {
        Some(n) => Some(Meta::Number(units_of(n))),
        None => None,
    };
    let m3 = crate::audio::put_opt(m2, "font_size"@, size);
    lemma_put_some(m2, "font_size"@, size);
    let color = crate::audio::text_opt(opt(ch.color));
    let m4 = crate::audio::put_opt(m3, "color"@, color);
    lemma_put_some(m3, "color"@, color);
    let weight = match ch.font_weight {
        Some(w) => Some(Meta::Text(weight_text(w))),
        None => None,
    };
    let m5 = crate::audio::put_opt(m4, "font_weight"@, weight);
    lemma_put_some(m4, "font_weight"@, weight);
    let animation = match ch.animation {
        Some(a) => Some(Meta::Text(animation_text(a))),
        None => None,
    };
    let m6 = crate::audio::put_opt(m5, "animation"@, animation);
    lemma_put_some(m5, "animation"@, animation);
    let m7 = crate::audio::put_opt(m6, "phases"@, opt(ch.phases));
    lemma_put_some(m6, "phases"@, opt(ch.phases));
    let family = crate::audio::text_opt(crate::title::unless_blank(opt(ch.font_family)));
    let m8 = crate::audio::put_opt(m7, "font_family"@, family);
    lemma_put_some(m7, "font_family"@, family);
    let path = crate::audio::text_opt(crate::title::unless_blank(opt(ch.font_path)));
    let bare = crate::meta::without(m8, "font_path"@);
    let m9 = if family is Some && path is None {
        bare
    } else {
        m8
    };
    assert forall|other: Str| other != "font_path"@ implies #[trigger] lookup(bare, other) == lookup(
        m8,
        other,
    ) by {
        crate::laws::law_remove_then_lookup(m8, "font_path"@, other);
    }
    crate::laws::law_remove_then_lookup(m8, "font_path"@, "text"@);
    lemma_put_some(m9, "font_path"@, path);
    assert(title_pairs(m, ch) == crate::audio::put_opt(m9, "font_path"@, path));
}

/// A title is changed exactly where the clip has one, its new text is not empty, and its new
/// window, if any, has a length.  Its style then says what was asked and its clip lasts for
/// that window; nothing else changes.
pub proof fn law_title_is_changed_in_place(
    tl: TimelineModel,
    index: usize,
    ch: TitleChange,
    loc: ClipLocator,
    i: int,
)
    requires
        has_clip(tl, loc),
        first_title(the_clip(tl, loc), i),
        the_clip(tl, loc).source_range is Some,
        plain(the_clip(tl, loc).source_range->0),
        ch.start_s matches Some(x) ==> x is Fin && 0 <= tick(x),
        ch.end_s matches Some(x) ==> x is Fin && 0 <= tick(x),
    ensures
        ({
            let was = the_clip(tl, loc);
            let r = was.source_range->0;
            let from = match ch.start_s {
                Some(x) => tick(x),
                None => first(r),
            };
            let to = match ch.end_s {
                Some(x) => tick(x),
                None => last(r),
            };
            let window = ch.start_s is Some || ch.end_s is Some;
            match title_set(tl, index, ch, Some(loc)) {
                Ok((out, _)) => {
                    let now = the_clip(out, loc);
                    &&& ch.text matches Some(t) ==> t@.len() > 0
                    &&& window ==> from < to
                    &&& only_clip(tl, out, loc)
                    &&& now == (ClipModel {
                        effects: now.effects,
                        source_range: now.source_range,
                        ..was
                    })
                    &&& now.effects.len() == was.effects.len()
                    &&& forall|n: int|
                        0 <= n < was.effects.len() && n != i ==> #[trigger] now.effects[n]
                            == was.effects[n]
                    &&& now.effects[i].effect_name == "montage.title"@
                    &&& !window ==> now.source_range == was.source_range
                        && now.effects[i].metadata == title_pairs(was.effects[i].metadata, ch)
                    &&& window ==> now.source_range is Some && first(now.source_range->0) == from
                        && last(now.source_range->0) == to
                },
                Err(_) => (ch.text matches Some(t) && t@.len() == 0) || (window && to <= from),
            }
        }),
{
    law_a_place_is_found(tl, loc);
    let was = the_clip(tl, loc);
    lemma_first_where(was.effects, title_effect(), 0);
    assert(first_where(was.effects, title_effect(), 0) == Some(i)) by {
        match first_where(was.effects, title_effect(), 0) {
            Some(j) => {
                assert(title_effect()(was.effects[j]));
                if i < j {
                    assert(!title_effect()(was.effects[i]));
                }
            },
            None => {
                assert(!title_effect()(was.effects[i]));
            },
        }
    }
}

// ---- captions and titles in segments ----------------------------------------------------------------

/// Whether a word of a caption has text and ends no earlier than it begins.
pub open spec fn word_is_timed(w: CaptionWordTiming) -> bool {
    !is_blank(w.text@) && w.start_s is Fin && w.end_s is Fin && tick(w.start_s) <= tick(w.end_s)
}

/// A caption is put in exactly where it names a safe area, all its words are timed, and it
/// has a length and a text.  It is a title in bold that stands still, in the role of a
/// caption, with its safe area.
pub proof fn law_caption_is_a_bold_title(
    tl: TimelineModel,
    index: usize,
    c: Caption,
    id: Str,
)
    ensures
        ({
            let fine = !is_blank(c.safe_area@) && forall|k: int|
                0 <= k < c.word_timings@.len() ==> word_is_timed(#[trigger] c.word_timings@[k]);
            let q = TextOverlayModel {
                start_s: c.start_s,
                end_s: c.end_s,
                text: c.text@,
                position: c.position,
                font_size: c.font_size,
                color: c.color@,
                font_weight: TitleWeight::Bold,
                animation: TitleAnimation::Still,
                phases: None,
            };
            &&& !fine ==> caption_inserted(tl, index, c, id) is Err
            &&& fine ==> exists|extra: Pairs| #[trigger]
                overlay_inserted(
                    tl,
                    index,
                    "caption"@,
                    Some(c.safe_area@),
                    None,
                    extra,
                    q,
                    id,
                ) == caption_inserted(tl, index, c, id) && (c.word_timings@.len() > 0 ==> (lookup(
                    extra,
                    "word_timings"@,
                ) matches Some(Meta::List(l)) && l.len() == c.word_timings@.len())) && (
                c.style matches Some(s) ==> lookup(extra, "caption_style"@) == Some(s@))
        }),
{
    let p = word_fine();
    if c.word_timings@.all(p) {
        assert forall|k: int| 0 <= k < c.word_timings@.len() implies word_is_timed(
            #[trigger] c.word_timings@[k],
        ) by {
            assert(p(c.word_timings@[k]));
        }
    }
    let fine = !is_blank(c.safe_area@) && forall|k: int|
        0 <= k < c.word_timings@.len() ==> word_is_timed(#[trigger] c.word_timings@[k]);
    if fine {
        assert(c.word_timings@.all(p)) by {
            assert forall|k: int| 0 <= k < c.word_timings@.len() implies p(
                #[trigger] c.word_timings@[k],
            ) by {
                assert(word_is_timed(c.word_timings@[k]));
            }
        }
        reveal_strlit("word_timings");
        reveal_strlit("caption_style");
        assert("word_timings"@.len() != "caption_style"@.len());
        let words = crate::title::word_list(c.word_timings@);
        lemma_put_one(Seq::empty(), "word_timings"@, words);
        let m = if c.word_timings@.len() == 0 {
            Seq::empty()
        } else {
            put(Seq::empty(), "word_timings"@, words)
        };
        lemma_put_some(m, "caption_style"@, opt(c.style));
        let extra = crate::title::caption_pairs(c);
        assert(overlay_inserted(
            tl,
            index,
            "caption"@,
            Some(c.safe_area@),
            None,
            extra,
            crate::title::caption_overlay(c),
            id,
        ) == caption_inserted(tl, index, c, id));
    }
}

/// The texts of segments, one behind the other.
pub open spec fn run_together(v: Seq<RichTextSegment>, n: int) -> Str
    decreases n,
{
    if n <= 0 {
        Seq::empty()
    } else {
        run_together(v, n - 1) + v[n - 1].text@
    }
}

/// A title in segments is refused where none of them has text; its text is that of all
/// segments, one behind the other, and it is otherwise a title as any other.
pub proof fn law_title_in_segments_is_one_title(
    tl: TimelineModel,
    index: usize,
    t: RichTitle,
    id: Str,
)
    ensures
        ({
            let none = forall|k: int|
                0 <= k < t.segments@.len() ==> (#[trigger] t.segments@[k]).text@.len() == 0;
            let q = TextOverlayModel {
                start_s: t.start_s,
                end_s: t.end_s,
                text: run_together(t.segments@, t.segments@.len() as int),
                position: t.position,
                font_size: t.font_size,
                color: "#FFFFFF"@,
                font_weight: TitleWeight::Normal,
                animation: t.animation,
                phases: opt(t.phases),
            };
            &&& none ==> rich_title_inserted(tl, index, t, id) is Err
            &&& !none ==> exists|extra: Pairs| #[trigger]
                overlay_inserted(tl, index, "title"@, None, None, extra, q, id)
                    == rich_title_inserted(tl, index, t, id) && (lookup(
                    extra,
                    "rich_segments"@,
                ) matches Some(Meta::List(l)) && l.len() == t.segments@.len())
        }),
{
    let texts = crate::title::segment_texts(t.segments@);
    lemma_run_together(t.segments@, t.segments@.len() as int);
    let all = crate::title::segment_list(t.segments@);
    let fonts = crate::title::font_pairs(opt(t.font_family), opt(t.font_path));
    lemma_put_one(fonts, "rich_segments"@, all);
    assert(texts.take(texts.len() as int) =~= texts);
    if !(forall|k: int| 0 <= k < t.segments@.len() ==> (#[trigger] t.segments@[k]).text@.len() == 0) {
        let extra = put(fonts, "rich_segments"@, all);
        assert(overlay_inserted(
            tl,
            index,
            "title"@,
            None,
            None,
            extra,
            crate::title::segments_overlay(t),
            id,
        ) == rich_title_inserted(tl, index, t, id));
    }
}

proof fn lemma_run_together(v: Seq<RichTextSegment>, n: int)
    requires
        0 <= n <= v.len(),
    ensures
        joined(crate::title::segment_texts(v).take(n), ""@) == run_together(v, n),
    decreases n,
{
    let texts = crate::title::segment_texts(v);
    let now = texts.take(n);
    if n > 0 {
        lemma_run_together(v, n - 1);
        assert(now.drop_last() =~= texts.take(n - 1));
        assert(now.last() == v[n - 1].text@);
        reveal_strlit("");
        assert(joined(now, ""@) =~= run_together(v, n));
    } else {
        assert(now =~= Seq::<Str>::empty());
    }
}

/// A title is one in the role of a title, with its family and file of letters unless these
/// are blank.
pub proof fn law_title_keeps_its_letters(
    tl: TimelineModel,
    index: usize,
    q: TextOverlayModel,
    family: Option<Str>,
    path: Option<Str>,
    id: Str,
)
    ensures
        exists|extra: Pairs|
            {
                &&& #[trigger] overlay_inserted(tl, index, "title"@, None, None, extra, q, id)
                    == title_inserted(tl, index, q, family, path, id)
                &&& lookup_text(extra, "font_family"@) == (match family {
                    Some(f) if !is_blank(f) => Some(f),
                    _ => None,
                })
                &&& lookup_text(extra, "font_path"@) == (match path {
                    Some(f) if !is_blank(f) => Some(f),
                    _ => None,
                })
            },
{
    reveal_strlit("font_family");
    reveal_strlit("font_path");
    assert("font_family"@.len() != "font_path"@.len());
    let a = crate::audio::text_opt(crate::title::unless_blank(family));
    let b = crate::audio::text_opt(crate::title::unless_blank(path));
    let m0 = Seq::<(Str, Meta)>::empty();
    let m1 = crate::audio::put_opt(m0, "font_family"@, a);
    lemma_put_some(m0, "font_family"@, a);
    lemma_put_some(m1, "font_path"@, b);
    assert(lookup(m0, "font_family"@) is None);
    assert(lookup(m0, "font_path"@) is None);
    let extra = crate::title::font_pairs(family, path);
    assert(overlay_inserted(tl, index, "title"@, None, None, extra, q, id) == title_inserted(
        tl,
        index,
        q,
        family,
        path,
        id,
    ));
}

} // verus!

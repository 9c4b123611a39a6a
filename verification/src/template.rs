//! Motion templates: titles and animations that are made from a pattern.
use vstd::prelude::*;

use crate::clip::first_where;
use crate::docs::{
    animation_set, apply_set_parameter_animation, find_by_id, with_id, AnimationVerdict,
    ParameterAnimation,
};
use crate::error::{bad, invalid, invalid_str, shows, ApplyError, Done, Refusal};
use crate::meta::{lookup, lookup_text, put, Meta, MetaMap, MetaValue, Pairs};
use crate::mint::{drew, fresh, lemma_drew, ClipIds};
use crate::model::{opt, Stored, Timeline, TimelineModel};
use crate::num::Num;
use crate::text::{
    blank, cat2, cat5, cat6, cat7, chars_of, count_usize, decimal, is_blank, of_chars, quote,
    quoted, same, show, shown, Str,
};
use crate::title::{apply_insert_text_overlay, is_alphanumeric, overlay_inserted, TextOverlay};

verus! {

/// How the titles of a template move.
#[derive(Clone, Copy, Debug, PartialEq, Eq, Structural)]
pub enum MotionTemplateAnimation {
    /// They do not.
    Still,
    Opacity,
    Transform,
    TextReveal,
    WriteOn,
}

/// A title that a template comes to.
#[derive(Debug)]
pub struct LoweredTitle {
    pub role: String,
    pub safe_area: Option<String>,
    pub overlay: TextOverlay,
}

/// An animation that a template comes to, with what the registry says of it.
#[derive(Debug)]
pub struct LoweredAnimation {
    pub animation: ParameterAnimation,
    pub verdict: AnimationVerdict,
}

/// What a filled template comes to.
#[derive(Debug)]
pub struct LoweredTemplate {
    pub titles: Vec<LoweredTitle>,
    pub animations: Vec<LoweredAnimation>,
}

/// What is known of a template outside the project.
#[derive(Debug)]
pub struct TemplateVerdict {
    /// The template of that id that comes with the editor.
    pub built_in: Option<MetaValue>,
    /// What the filled template comes to, or why it cannot be filled.
    pub lowered: Result<LoweredTemplate, String>,
}

// ---- the template ---------------------------------------------------------

/// The template with an id: the project's own, or else the one that comes with
/// the editor.
pub open spec fn template_of(tl: TimelineModel, template_id: Str, built_in: Option<Meta>) -> Option<Meta> {
    match tl.montage {
        Some(m) => match first_where(m.motion_templates, with_id(template_id), 0) {
            Some(i) => Some(m.motion_templates[i].body),
            None => built_in,
        },
        None => built_in,
    }
}

/// The template with an id.
pub fn resolve_motion_template(working: &Timeline, template_id: &str, built_in: &Option<MetaValue>) -> (r:
    Option<MetaValue>)
    ensures
        opt(r) == template_of(working@, template_id@, opt(*built_in)),
{
    if let Some(m) = &working.metadata.montage {
        if let Some(i) = find_by_id(&m.motion_templates, template_id) {
            assert(m@.motion_templates[i as int] == m.motion_templates@[i as int]@);
            return Some(m.motion_templates[i].body.copied());
        }
    }
    match built_in {
        Some(b) => Some(b.copied()),
        None => None,
    }
}

/// Whether an entry is a slot with an id.
pub open spec fn is_slot(id: Str) -> spec_fn(Meta) -> bool {
    |v: Meta| v matches Meta::Object(m) && lookup_text(m, "id"@) == Some(id)
}

/// Whether a template has a slot.
pub open spec fn has_slot(template: Meta, id: Str) -> bool {
    match template {
        Meta::Object(m) => match lookup(m, "slots"@) {
            Some(Meta::List(l)) => l.any(is_slot(id)),
            _ => false,
        },
        _ => false,
    }
}

fn any_slot(slots: &Vec<MetaValue>, id: &str) -> (r: bool)
    ensures
        r == (MetaValue::List(*slots)@->List_0).any(is_slot(id@)),
{
    let ghost all = MetaValue::List(*slots)@->List_0;
    let mut i: usize = 0;
    while i < slots.len()
        invariant
            i <= slots@.len(),
            all == MetaValue::List(*slots)@->List_0,
            all.len() == slots@.len(),
            forall|k: int| 0 <= k < i ==> !is_slot(id@)(#[trigger] all[k]),
        decreases slots@.len() - i,
    {
        assert(all[i as int] == slots@[i as int]@);
        if let MetaValue::Object(m) = &slots[i] {
            if let Some(s) = m.get_text("id") {
                if same(s.as_str(), id) {
                    assert(is_slot(id@)(all[i as int]));
                    return true;
                }
            }
        }
        i = i + 1;
    }
    false
}

fn find_slot(template: &MetaValue, id: &str) -> (r: bool)
    ensures
        r == has_slot(template@, id@),
{
    match template {
        MetaValue::Object(m) => match m.get("slots") {
            Some(MetaValue::List(l)) => any_slot(l, id),
            _ => false,
        },
        _ => false,
    }
}

/// The character as it may stand in an id.
pub open spec fn id_char(c: char) -> char {
    if is_alphanumeric(c) || c == '-' || c == '_' {
        c
    } else {
        '-'
    }
}

/// The id of a title's clip.
pub open spec fn template_clip_id(template_id: Str, op_index: nat, title_index: nat) -> Str {
    "motion-template-"@ + template_id.map_values(|c: char| id_char(c)) + "-"@ + decimal(op_index)
        + "-title-"@ + decimal(title_index)
}

/// The id of a title's clip.
pub fn motion_template_clip_id(template_id: &str, op_index: usize, title_index: usize) -> (r: String)
    ensures
        r@ == template_clip_id(template_id@, op_index as nat, title_index as nat),
{
    let all = chars_of(template_id);
    let mut kept: Vec<char> = Vec::new();
    let mut i: usize = 0;
    while i < all.len()
        invariant
            i <= all@.len(),
            kept@.len() == i,
            forall|k: int| 0 <= k < i ==> #[trigger] kept@[k] == id_char(all@[k]),
        decreases all@.len() - i,
    {
        let c = all[i];
        if is_alphanumeric(c) || c == '-' || c == '_' {
            kept.push(c);
        } else {
            kept.push('-');
        }
        i = i + 1;
    }
    assert(kept@ =~= template_id@.map_values(|c: char| id_char(c)));
    cat6(
        "motion-template-",
        of_chars(&kept).as_str(),
        "-",
        count_usize(op_index).as_str(),
        "-title-",
        count_usize(title_index).as_str(),
    )
}

/// The id that the clip of the first title gets, where the template wants to
/// know its clip and is not told.
pub open spec fn generated_id(template: Meta, values: Pairs, template_id: Str, index: usize) -> Option<Str> {
    if has_slot(template, "target_clip"@) && lookup(values, "target_clip"@) is None {
        Some(template_clip_id(template_id, index as nat, 0))
    } else {
        None
    }
}

/// The id that the clip of the first title gets.
pub fn generate_id(template: &MetaValue, values: &MetaMap, template_id: &str, index: usize) -> (r: Option<
    String,
>)
    ensures
        opt(r) == generated_id(template@, values@, template_id@, index),
{
    if find_slot(template, "target_clip") && values.get("target_clip").is_none() {
        Some(motion_template_clip_id(template_id, index, 0))
    } else {
        None
    }
}

/// The values that a template is filled with.
pub open spec fn filled_values(template: Meta, values: Pairs, template_id: Str, index: usize) -> Pairs {
    match generated_id(template, values, template_id, index) {
        Some(id) => put(values, "target_clip"@, Meta::Text(id)),
        None => values,
    }
}

/// The values that a template is filled with.
pub fn fill_values(template: &MetaValue, values: &MetaMap, template_id: &str, index: usize) -> (r:
    MetaMap)
    ensures
        r@ == filled_values(template@, values@, template_id@, index),
{
    let mut m = values.copied();
    if let Some(id) = generate_id(template, values, template_id, index) {
        m.insert("target_clip", MetaValue::text(id.as_str()));
    }
    m
}

// ---- the titles and animations --------------------------------------------

/// How many fresh ids the first `n` titles need.
pub open spec fn ids_needed(n: int, first_id: Option<Str>) -> int {
    if n > 0 && first_id is Some {
        n - 1
    } else {
        n
    }
}

/// The timeline with the first `n` titles.
pub open spec fn with_titles(
    tl: TimelineModel,
    index: usize,
    titles: Seq<LoweredTitle>,
    first_id: Option<Str>,
    n: int,
    ids: Seq<Str>,
) -> Result<TimelineModel, Refusal>
    decreases n,
{
    if n <= 0 {
        Ok(tl)
    } else {
        match with_titles(tl, index, titles, first_id, n - 1, ids) {
            Err(e) => Err(e),
            Ok(t) => match overlay_inserted(
                t,
                index,
                titles[n - 1].role@,
                opt(titles[n - 1].safe_area),
                if n == 1 {
                    first_id
                } else {
                    None
                },
                Seq::empty(),
                titles[n - 1].overlay@,
                ids[ids_needed(n - 1, first_id)],
            ) {
                Err(e) => Err(e),
                Ok((t2, _)) => Ok(t2),
            },
        }
    }
}

proof fn lemma_titles_ids(
    tl: TimelineModel,
    index: usize,
    titles: Seq<LoweredTitle>,
    first_id: Option<Str>,
    n: int,
    a: Seq<Str>,
    b: Seq<Str>,
)
    requires
        forall|k: int| 0 <= k < ids_needed(n, first_id) ==> a[k] == b[k],
    ensures
        with_titles(tl, index, titles, first_id, n, a) == with_titles(
            tl,
            index,
            titles,
            first_id,
            n,
            b,
        ),
    decreases n,
{
    if n > 0 {
        lemma_titles_ids(tl, index, titles, first_id, n - 1, a, b);
    }
}

proof fn lemma_titles_refused(
    tl: TimelineModel,
    index: usize,
    titles: Seq<LoweredTitle>,
    first_id: Option<Str>,
    n: int,
    m: int,
    ids: Seq<Str>,
)
    requires
        n <= m,
        with_titles(tl, index, titles, first_id, n, ids) is Err,
    ensures
        with_titles(tl, index, titles, first_id, m, ids) == with_titles(
            tl,
            index,
            titles,
            first_id,
            n,
            ids,
        ),
    decreases m,
{
    if n < m {
        if m > 0 {
            lemma_titles_refused(tl, index, titles, first_id, n, m - 1, ids);
        }
    }
}

/// A timeline that came about, or a refusal.
pub open spec fn came_to(r: Result<Timeline, ApplyError>, o: Result<TimelineModel, Refusal>) -> bool {
    match r {
        Ok(t) => o == Ok::<TimelineModel, Refusal>(t@),
        Err(e) => o == Err::<TimelineModel, Refusal>(e@),
    }
}

#[verifier::rlimit(30)]
fn insert_titles(
    working: Timeline,
    index: usize,
    titles: &Vec<LoweredTitle>,
    first_id: &Option<String>,
    ids: &mut ClipIds,
) -> (r: Result<Timeline, ApplyError>)
    ensures
        drew(*old(ids), *final(ids), fresh(*old(ids), *final(ids)).len()),
        r is Ok ==> fresh(*old(ids), *final(ids)).len() == ids_needed(
            titles@.len() as int,
            opt(*first_id),
        ),
        came_to(
            r,
            with_titles(
                working@,
                index,
                titles@,
                opt(*first_id),
                titles@.len() as int,
                fresh(*old(ids), *final(ids)),
            ),
        ),
{
    let ghost from = *old(ids);
    let ghost start = working@;
    let mut out = working;
    let mut i: usize = 0;
    assert(fresh(from, *ids) =~= Seq::<Str>::empty());
    while i < titles.len()
        invariant
            i <= titles@.len(),
            from == *old(ids),
            drew(from, *ids, fresh(from, *ids).len()),
            fresh(from, *ids).len() == ids_needed(i as int, opt(*first_id)),
            with_titles(start, index, titles@, opt(*first_id), i as int, fresh(from, *ids)) == Ok::<
                TimelineModel,
                Refusal,
            >(out@),
            start == working@,
        decreases titles@.len() - i,
    {
        let ghost mid = *ids;
        let ghost before = out@;
        let t = &titles[i];
        let uuid = if i == 0 {
            match first_id {
                Some(s) => Some(s.clone()),
                None => None,
            }
        } else {
            None
        };
        let extra = MetaMap::new();
        let done = apply_insert_text_overlay(
            out,
            index,
            t.role.as_str(),
            &t.safe_area,
            &uuid,
            &extra,
            &t.overlay,
            ids,
        );
        proof {
            lemma_drew(from, mid, *ids);
            assert(extra@ =~= Seq::empty());
            lemma_titles_ids(
                start,
                index,
                titles@,
                opt(*first_id),
                i as int,
                fresh(from, mid),
                fresh(from, *ids),
            );
            if done is Ok && uuid is None {
                assert(fresh(from, *ids)[ids_needed(i as int, opt(*first_id))] == fresh(
                    mid,
                    *ids,
                )[0]);
            }
        }
        match done {
            Ok((t2, _)) => {
                out = t2;
            },
            Err(e) => {
                proof {
                    lemma_titles_refused(
                        start,
                        index,
                        titles@,
                        opt(*first_id),
                        i + 1,
                        titles@.len() as int,
                        fresh(from, *ids),
                    );
                }
                return Err(e);
            },
        }
        i = i + 1;
    }
    Ok(out)
}

/// The timeline with the first `n` animations.
pub open spec fn with_animations(
    tl: TimelineModel,
    index: usize,
    animations: Seq<LoweredAnimation>,
    n: int,
) -> Result<TimelineModel, Refusal>
    decreases n,
{
    if n <= 0 {
        Ok(tl)
    } else {
        match with_animations(tl, index, animations, n - 1) {
            Err(e) => Err(e),
            Ok(t) => match animation_set(
                t,
                index,
                animations[n - 1].animation,
                animations[n - 1].verdict,
            ) {
                Err(e) => Err(e),
                Ok((t2, _)) => Ok(t2),
            },
        }
    }
}

proof fn lemma_animations_refused(
    tl: TimelineModel,
    index: usize,
    animations: Seq<LoweredAnimation>,
    n: int,
    m: int,
)
    requires
        n <= m,
        with_animations(tl, index, animations, n) is Err,
    ensures
        with_animations(tl, index, animations, m) == with_animations(tl, index, animations, n),
    decreases m,
{
    if n < m && m > 0 {
        lemma_animations_refused(tl, index, animations, n, m - 1);
    }
}

fn insert_animations(working: Timeline, index: usize, animations: &Vec<LoweredAnimation>) -> (r: Result<
    Timeline,
    ApplyError,
>)
    ensures
        came_to(r, with_animations(working@, index, animations@, animations@.len() as int)),
{
    let ghost start = working@;
    let mut out = working;
    let mut i: usize = 0;
    while i < animations.len()
        invariant
            i <= animations@.len(),
            start == working@,
            with_animations(start, index, animations@, i as int) == Ok::<TimelineModel, Refusal>(
                out@,
            ),
        decreases animations@.len() - i,
    {
        let a = &animations[i];
        match apply_set_parameter_animation(out, index, &a.animation, &a.verdict) {
            Ok((t, _)) => {
                out = t;
            },
            Err(e) => {
                proof {
                    lemma_animations_refused(
                        start,
                        index,
                        animations@,
                        i + 1,
                        animations@.len() as int,
                    );
                }
                return Err(e);
            },
        }
        i = i + 1;
    }
    Ok(out)
}

// ---- the op ---------------------------------------------------------------

/// Making the titles and animations of a template.
pub open spec fn template_instantiated(
    tl: TimelineModel,
    index: usize,
    template_id: Str,
    start_s: Num,
    end_s: Num,
    values: Pairs,
    v: TemplateVerdict,
    ids: Seq<Str>,
) -> Done {
    if is_blank(template_id) {
        Err(bad(index, "instantiate_motion_template: template_id must be non-empty"@))
    } else if !start_s.is_finite() || !end_s.is_finite() || end_s.at_most(start_s) {
        Err(
            bad(
                index,
                "instantiate_motion_template: invalid window ["@ + shown(start_s) + ".."@ + shown(
                    end_s,
                ) + "]; end_s must be finite and > start_s"@,
            ),
        )
    } else {
        match template_of(tl, template_id, opt(v.built_in)) {
            None => Err(
                bad(
                    index,
                    "instantiate_motion_template: unknown template "@ + quoted(template_id),
                ),
            ),
            Some(template) => match v.lowered {
                Err(e) => Err(bad(index, "instantiate_motion_template: "@ + e@)),
                Ok(l) => match with_titles(
                    tl,
                    index,
                    l.titles@,
                    generated_id(template, values, template_id, index),
                    l.titles@.len() as int,
                    ids,
                ) {
                    Err(e) => Err(e),
                    Ok(t) => match with_animations(
                        t,
                        index,
                        l.animations@,
                        l.animations@.len() as int,
                    ) {
                        Err(e) => Err(e),
                        Ok(t2) => Ok(
                            (
                                t2,
                                "instantiated motion template "@ + template_id + " into "@
                                    + decimal(l.titles@.len()) + " title clip(s) and "@ + decimal(
                                    l.animations@.len(),
                                ) + " parameter animation(s)"@,
                            ),
                        ),
                    },
                },
            },
        }
    }
}

/// Makes the titles and animations of a template.
pub fn apply_instantiate_motion_template(
    working: Timeline,
    index: usize,
    template_id: &str,
    start_s: Num,
    end_s: Num,
    values: &MetaMap,
    v: &TemplateVerdict,
    ids: &mut ClipIds,
) -> (r: Result<(Timeline, String), ApplyError>)
    ensures
        drew(*old(ids), *final(ids), fresh(*old(ids), *final(ids)).len()),
        shows(
            r,
            template_instantiated(
                working@,
                index,
                template_id@,
                start_s,
                end_s,
                values@,
                *v,
                fresh(*old(ids), *final(ids)),
            ),
        ),
{
    assert(fresh(*old(ids), *ids) =~= Seq::<Str>::empty());
    if blank(template_id) {
        return Err(
            invalid_str(index, "instantiate_motion_template: template_id must be non-empty"),
        );
    }
    if !start_s.is_finite() || !end_s.is_finite() || end_s.at_most(start_s) {
        return Err(
            invalid(
                index,
                cat5(
                    "instantiate_motion_template: invalid window [",
                    show(start_s).as_str(),
                    "..",
                    show(end_s).as_str(),
                    "]; end_s must be finite and > start_s",
                ),
            ),
        );
    }
    let template = match resolve_motion_template(&working, template_id, &v.built_in) {
        Some(t) => t,
        None => {
            return Err(
                invalid(
                    index,
                    cat2(
                        "instantiate_motion_template: unknown template ",
                        quote(template_id).as_str(),
                    ),
                ),
            );
        },
    };
    let l = match &v.lowered {
        Ok(l) => l,
        Err(e) => {
            return Err(
                invalid(index, cat2("instantiate_motion_template: ", e.as_str())),
            );
        },
    };
    let first_id = generate_id(&template, values, template_id, index);
    let out = match insert_titles(working, index, &l.titles, &first_id, ids) {
        Ok(t) => t,
        Err(e) => {
            return Err(e);
        },
    };
    let out = match insert_animations(out, index, &l.animations) {
        Ok(t) => t,
        Err(e) => {
            return Err(e);
        },
    };
    let said = cat7(
        "instantiated motion template ",
        template_id,
        " into ",
        count_usize(l.titles.len()).as_str(),
        " title clip(s) and ",
        count_usize(l.animations.len()).as_str(),
        " parameter animation(s)",
    );
    Ok((out, said))
}

} // verus!

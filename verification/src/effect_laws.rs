//! What edits of one clip's sound, speed and picture leave on the clip.
use vstd::prelude::*;

use crate::adjust_laws::only_row;
use crate::audio::{audio_removed, clip_muted, fade_set, split_edit_set, volume_set, SplitEditKind};
use crate::boundary::{next_id_from, previous_id, put_boundary};
use crate::edit::montage_of;
use crate::clip::{other_effect, with_sole_effect};
use crate::laws::law_put_then_lookup;
use crate::linked_laws::same_but_one;
use crate::measures::{has_clip, law_a_place_is_found, row, the_clip, tick};
use crate::meta::{lookup, Meta};
use crate::model::{
    AudioRange, ClipLocator, ClipModel, CutBoundaryModel, EffectModel, SplitEditSpecModel,
    TimelineModel, TrackChildModel,
};
use crate::num::Num;
use crate::text::Str;
use crate::trim_laws::{asked, usable};

verus! {

// ---- one clip ---------------------------------------------------------------------------

/// Whether an edit has changed nothing but one clip.
pub open spec fn only_clip(tl: TimelineModel, out: TimelineModel, loc: ClipLocator) -> bool {
    let i = loc.track_index as int;
    &&& only_row(tl, out, i)
    &&& has_clip(out, loc)
    &&& same_but_one(row(out, i), row(tl, i), loc.child_index as int)
}

/// Whether a clip has got an effect, last and in place of all others of its kind; it
/// keeps its effects of other kinds and everything else.
pub open spec fn gains(was: ClipModel, now: ClipModel, kind: Str) -> bool {
    &&& now.effects.len() > 0
    &&& now.effects.last().effect_name == kind
    &&& forall|k: int|
        0 <= k < now.effects.len() - 1 ==> (#[trigger] now.effects[k]).effect_name != kind
            && was.effects.contains(now.effects[k])
    &&& forall|k: int|
        0 <= k < was.effects.len() && (#[trigger] was.effects[k]).effect_name != kind
            ==> now.effects.contains(was.effects[k])
    &&& now.name == was.name
    &&& now.media_reference == was.media_reference
    &&& now.source_range == was.source_range
    &&& now.markers == was.markers
    &&& now.metadata == was.metadata
}

/// What the last effect of a clip says under a key.
pub open spec fn tells(c: ClipModel, key: Str) -> Option<Meta> {
    lookup(c.effects.last().metadata, key)
}

/// What is left of effects without those of a kind.
pub proof fn lemma_kept(s: Seq<EffectModel>, kind: Str)
    ensures
        ({
            let kept = s.filter(other_effect(kind));
            &&& forall|k: int|
                0 <= k < s.len() && (#[trigger] s[k]).effect_name != kind ==> kept.contains(s[k])
            &&& forall|k: int|
                0 <= k < kept.len() ==> (#[trigger] kept[k]).effect_name != kind && s.contains(
                    kept[k],
                )
        }),
    decreases s.len(),
{
    let p = other_effect(kind);
    reveal(Seq::filter);
    if s.len() > 0 {
        let rest = s.drop_last();
        lemma_kept(rest, kind);
        let kept = s.filter(p);
        let less = rest.filter(p);
        assert forall|k: int| 0 <= k < s.len() && (#[trigger] s[k]).effect_name != kind implies
            kept.contains(s[k]) by {
            if k < s.len() - 1 {
                assert(rest[k] == s[k]);
                let j = choose|j: int| 0 <= j < less.len() && less[j] == s[k];
                assert(kept[j] == s[k]);
            } else {
                assert(kept.last() == s[k]);
            }
        }
        assert forall|k: int| 0 <= k < kept.len() implies (#[trigger] kept[k]).effect_name != kind
            && s.contains(kept[k]) by {
            if k < less.len() {
                assert(kept[k] == less[k]);
                let j = choose|j: int| 0 <= j < rest.len() && rest[j] == less[k];
                assert(s[j] == kept[k]);
            } else {
                assert(kept[k] == s.last());
                assert(s[s.len() - 1] == kept[k]);
            }
        }
    }
}

/// An effect that is put on a clip is there in place of all others of its kind.
pub proof fn lemma_gains(c: ClipModel, e: EffectModel)
    ensures
        gains(c, with_sole_effect(c, e), e.effect_name),
        with_sole_effect(c, e).effects.last() == e,
{
    let kind = e.effect_name;
    lemma_kept(c.effects, kind);
    let kept = c.effects.filter(other_effect(kind));
    let now = with_sole_effect(c, e);
    assert(now.effects == kept.push(e));
    assert forall|k: int| 0 <= k < c.effects.len() && (#[trigger] c.effects[k]).effect_name
        != kind implies now.effects.contains(c.effects[k]) by {
        let j = choose|j: int| 0 <= j < kept.len() && kept[j] == c.effects[k];
        assert(now.effects[j] == c.effects[k]);
    }
    assert forall|k: int| 0 <= k < now.effects.len() - 1 implies (
    #[trigger] now.effects[k]).effect_name != kind && c.effects.contains(now.effects[k]) by {
        assert(now.effects[k] == kept[k]);
    }
}

// ---- sound of clips -----------------------------------------------------------------------

/// The volume of a clip is set to the value that was asked for exactly where that can
/// be counted and is not negative.
pub proof fn law_volume_is_what_was_asked(
    tl: TimelineModel,
    index: usize,
    value: Num,
    loc: ClipLocator,
)
    requires
        has_clip(tl, loc),
    ensures
        match volume_set(tl, index, value, Some(loc)) {
            Ok((out, _)) => {
                let now = the_clip(out, loc);
                &&& value is Fin && 0 <= tick(value)
                &&& only_clip(tl, out, loc)
                &&& gains(the_clip(tl, loc), now, "montage.volume"@)
                &&& tells(now, "value"@) == Some(Meta::Number(value))
            },
            Err(_) => value !is Fin || tick(value) < 0,
        },
{
    law_a_place_is_found(tl, loc);
    let m = crate::meta::put(Seq::empty(), "value"@, Meta::Number(value));
    lemma_gains(the_clip(tl, loc), crate::clip::effect_of("montage.volume"@, m));
    law_put_then_lookup(Seq::empty(), "value"@, Meta::Number(value), "value"@);
}

/// The sound of a clip fades in and out for as long as was asked for, or not at all
/// where nothing was, exactly where both can be counted and are not negative.
pub proof fn law_fades_are_what_was_asked(
    tl: TimelineModel,
    index: usize,
    fade_in_s: Option<Num>,
    fade_out_s: Option<Num>,
    loc: ClipLocator,
)
    requires
        has_clip(tl, loc),
    ensures
        match fade_set(tl, index, fade_in_s, fade_out_s, Some(loc)) {
            Ok((out, _)) => {
                let now = the_clip(out, loc);
                &&& usable(fade_in_s)
                &&& usable(fade_out_s)
                &&& only_clip(tl, out, loc)
                &&& gains(the_clip(tl, loc), now, "montage.audio_fade"@)
                &&& tells(now, "fade_in_s"@) == Some(
                    Meta::Number(Num::Fin(asked(fade_in_s, 0) as i128)),
                )
                &&& tells(now, "fade_out_s"@) == Some(
                    Meta::Number(Num::Fin(asked(fade_out_s, 0) as i128)),
                )
            },
            Err(_) => !usable(fade_in_s) || !usable(fade_out_s),
        },
{
    law_a_place_is_found(tl, loc);
    reveal_strlit("fade_in_s");
    reveal_strlit("fade_out_s");
    assert("fade_in_s"@.len() != "fade_out_s"@.len());
    let a = Meta::Number(Num::Fin(asked(fade_in_s, 0) as i128));
    let b = Meta::Number(Num::Fin(asked(fade_out_s, 0) as i128));
    let one = crate::meta::put(Seq::empty(), "fade_in_s"@, a);
    let m = crate::meta::put(one, "fade_out_s"@, b);
    lemma_gains(the_clip(tl, loc), crate::clip::effect_of("montage.audio_fade"@, m));
    law_put_then_lookup(Seq::empty(), "fade_in_s"@, a, "fade_in_s"@);
    law_put_then_lookup(one, "fade_out_s"@, b, "fade_in_s"@);
    law_put_then_lookup(one, "fade_out_s"@, b, "fade_out_s"@);
}

/// Whether a clip is muted.
pub open spec fn is_muted(c: ClipModel) -> bool {
    c.metadata.montage matches Some(m) && (m.audio_override matches Some(o) && o.muted)
}

/// The stretches that are taken out of the sound of a clip.
pub open spec fn silenced(c: ClipModel) -> Seq<AudioRange> {
    match c.metadata.montage {
        Some(m) => match m.audio_override {
            Some(o) => o.removed_ranges,
            None => Seq::empty(),
        },
        None => Seq::empty(),
    }
}

/// Whether two clips differ in their metadata alone.
pub open spec fn same_but_metadata(a: ClipModel, b: ClipModel) -> bool {
    &&& a.name == b.name
    &&& a.media_reference == b.media_reference
    &&& a.source_range == b.source_range
    &&& a.effects == b.effects
    &&& a.markers == b.markers
    &&& a.metadata.extra == b.metadata.extra
    &&& a.metadata.montage matches Some(m) && (b.metadata.montage matches Some(n) ==> m.extra
        == n.extra && m.transcript_snippet == n.transcript_snippet && m.reasoning == n.reasoning)
}

/// A clip is muted or not as was asked, and keeps what is taken out of its sound.
pub proof fn law_mute_does_what_was_asked(
    tl: TimelineModel,
    index: usize,
    muted: bool,
    loc: ClipLocator,
)
    requires
        has_clip(tl, loc),
    ensures
        match clip_muted(tl, index, muted, Some(loc)) {
            Ok((out, _)) => {
                let was = the_clip(tl, loc);
                let now = the_clip(out, loc);
                &&& only_clip(tl, out, loc)
                &&& same_but_metadata(now, was)
                &&& is_muted(now) == muted
                &&& silenced(now) == silenced(was)
                &&& was.metadata.montage matches Some(n) ==> now.metadata.montage->0.split_edit
                    == n.split_edit
            },
            Err(_) => false,
        },
{
    law_a_place_is_found(tl, loc);
    let out = clip_muted(tl, index, muted, Some(loc))->Ok_0.0;
    assert(silenced(the_clip(out, loc)) =~= silenced(the_clip(tl, loc)));
}

/// A stretch is taken out of the sound of a clip, behind all others, exactly where it
/// has a length and does not begin before zero; all are put back where that is asked.
/// Whether the clip is muted does not change.
pub proof fn law_removed_sound_is_what_was_asked(
    tl: TimelineModel,
    index: usize,
    start_s: Option<Num>,
    end_s: Option<Num>,
    clear: bool,
    loc: ClipLocator,
)
    requires
        has_clip(tl, loc),
    ensures
        match audio_removed(tl, index, start_s, end_s, clear, Some(loc)) {
            Ok((out, _)) => {
                let was = the_clip(tl, loc);
                let now = the_clip(out, loc);
                &&& only_clip(tl, out, loc)
                &&& same_but_metadata(now, was)
                &&& is_muted(now) == is_muted(was)
                &&& clear ==> silenced(now).len() == 0
                &&& !clear ==> {
                    &&& start_s is Some && start_s->0 is Fin
                    &&& end_s is Some && end_s->0 is Fin
                    &&& 0 <= tick(start_s->0) < tick(end_s->0)
                    &&& silenced(now) == silenced(was).push(
                        AudioRange { start_s: start_s->0, end_s: end_s->0 },
                    )
                }
            },
            Err(_) => !clear && (start_s is None || end_s is None || start_s->0 !is Fin || end_s->0
                !is Fin || tick(start_s->0) < 0 || tick(end_s->0) <= tick(start_s->0)),
        },
{
    law_a_place_is_found(tl, loc);
    if let Ok((out, _)) = audio_removed(tl, index, start_s, end_s, clear, Some(loc)) {
        if clear {
            assert(silenced(the_clip(out, loc)) =~= Seq::<AudioRange>::empty());
        } else {
            assert(silenced(the_clip(out, loc)) =~= silenced(the_clip(tl, loc)).push(
                AudioRange { start_s: start_s->0, end_s: end_s->0 },
            ));
        }
    }
}

// ---- split edits --------------------------------------------------------------------------

/// Whether the last clip in front of a place stands at another.
pub open spec fn last_clip_before(children: Seq<TrackChildModel>, n: int, k: int) -> bool {
    &&& 0 <= k < n <= children.len()
    &&& children[k] is Clip
    &&& forall|x: int| k < x < n ==> !((#[trigger] children[x]) is Clip)
}

/// Whether the first clip from a place on stands at another.
pub open spec fn first_clip_from(children: Seq<TrackChildModel>, n: int, k: int) -> bool {
    &&& 0 <= n <= k < children.len()
    &&& children[k] is Clip
    &&& forall|x: int| n <= x < k ==> !((#[trigger] children[x]) is Clip)
}

/// The id by which a clip is known: the one that it carries, else its name.
pub open spec fn known_as(c: ClipModel) -> Str {
    match c.metadata.montage {
        Some(m) => match lookup(m.extra, "clip_uuid"@) {
            Some(Meta::Text(t)) => t,
            _ => c.name,
        },
        None => c.name,
    }
}

/// The clip in front is the nearest one there.
pub proof fn law_previous_clip_is_the_nearest(children: Seq<TrackChildModel>, n: int, k: int)
    requires
        last_clip_before(children, n, k),
    ensures
        previous_id(children, n) == Some(known_as(children[k]->Clip_0)),
    decreases n,
{
    if k < n - 1 {
        law_previous_clip_is_the_nearest(children, n - 1, k);
    }
}

/// The clip behind is the nearest one there.
pub proof fn law_next_clip_is_the_nearest(children: Seq<TrackChildModel>, n: int, k: int)
    requires
        first_clip_from(children, n, k),
    ensures
        next_id_from(children, n) == Some(known_as(children[k]->Clip_0)),
    decreases children.len() - n,
{
    if n < k {
        law_next_clip_is_the_nearest(children, n + 1, k);
    }
}

/// What is kept of the split edit of a clip.
pub open spec fn split_edit(c: ClipModel) -> Option<SplitEditSpecModel> {
    match c.metadata.montage {
        Some(m) => m.split_edit,
        None => None,
    }
}

/// The sound of a clip leads its picture by what was asked for, from the nearest clip in
/// front, or trails it to the nearest clip behind.  What the clip says of the other side
/// stays where nothing is given for it.
pub proof fn law_split_edit_goes_the_way_asked(
    tl: TimelineModel,
    index: usize,
    offset_s: Num,
    kind: SplitEditKind,
    given: Option<SplitEditSpecModel>,
    loc: ClipLocator,
    k: int,
)
    requires
        has_clip(tl, loc),
        given matches Some(g) ==> (g.confidence matches Some(x) ==> x is Fin && 0 <= tick(x)
            <= 1_000_000_000_000_000),
    ensures
        ({
            let i = loc.track_index as int;
            let j = loc.child_index as int;
            let was = the_clip(tl, loc);
            match split_edit_set(tl, index, offset_s, kind, given, Some(loc)) {
                Ok((out, _)) => {
                    let now = the_clip(out, loc);
                    let s = split_edit(now)->0;
                    &&& offset_s is Fin && 0 <= tick(offset_s)
                    &&& has_clip(out, loc)
                    &&& out.tracks.children.len() == tl.tracks.children.len()
                    &&& same_but_one(row(out, i), row(tl, i), j)
                    &&& forall|x: int|
                        0 <= x < tl.tracks.children.len() && x != i
                            ==> #[trigger] out.tracks.children[x] == tl.tracks.children[x]
                    &&& same_but_metadata(now, was)
                    &&& split_edit(now) is Some
                    &&& given matches Some(g) ==> {
                        &&& g.reason is Some ==> s.reason == g.reason
                        &&& g.confidence is Some ==> s.confidence == g.confidence
                    }
                    &&& given is None && split_edit(was) is Some ==> s.reason == split_edit(
                        was,
                    )->0.reason && s.confidence == split_edit(was)->0.confidence
                    &&& kind == SplitEditKind::AudioLead ==> {
                        &&& s.audio_lead_s == Some(offset_s)
                        &&& last_clip_before(row(tl, i), j, k) ==> s.audio_lead_from_clip_id == Some(
                            known_as(row(tl, i)[k]->Clip_0),
                        )
                        &&& given is None && split_edit(was) is Some ==> s.audio_trail_s
                            == split_edit(was)->0.audio_trail_s && s.audio_trail_to_clip_id
                            == split_edit(was)->0.audio_trail_to_clip_id
                        &&& given is None && split_edit(was) is None ==> s.audio_trail_s is None
                    }
                    &&& kind == SplitEditKind::AudioTrail ==> {
                        &&& s.audio_trail_s == Some(offset_s)
                        &&& first_clip_from(row(tl, i), j + 1, k) ==> s.audio_trail_to_clip_id
                            == Some(known_as(row(tl, i)[k]->Clip_0))
                        &&& given is None && split_edit(was) is Some ==> s.audio_lead_s
                            == split_edit(was)->0.audio_lead_s && s.audio_lead_from_clip_id
                            == split_edit(was)->0.audio_lead_from_clip_id
                        &&& given is None && split_edit(was) is None ==> s.audio_lead_s is None
                    }
                },
                Err(_) => offset_s !is Fin || tick(offset_s) < 0,
            }
        }),
{
    law_a_place_is_found(tl, loc);
    let i = loc.track_index as int;
    let j = loc.child_index as int;
    if last_clip_before(row(tl, i), j, k) {
        law_previous_clip_is_the_nearest(row(tl, i), j, k);
    }
    if first_clip_from(row(tl, i), j + 1, k) {
        law_next_clip_is_the_nearest(row(tl, i), j + 1, k);
    }
}

/// What is said of the cut at a split edit: that the sound leads or trails, with the reason
/// and the confidence that were given.
pub open spec fn split_cut_says(
    b: CutBoundaryModel,
    kind: SplitEditKind,
    given: Option<SplitEditSpecModel>,
) -> bool {
    &&& b.spec.cut_type == (match kind {
        SplitEditKind::AudioLead => "JCut"@,
        SplitEditKind::AudioTrail => "LCut"@,
    })
    &&& b.spec.audio_relation == (match kind {
        SplitEditKind::AudioLead => "AudioLeads"@,
        SplitEditKind::AudioTrail => "AudioTrails"@,
    })
    &&& given matches Some(g) ==> b.spec.confidence == g.confidence && (g.reason is Some
        ==> b.spec.reason == g.reason)
}

/// A sound that leads its picture is also said of the cut from the nearest clip in front,
/// and one that trails it of the cut to the nearest clip behind.
pub proof fn law_split_edit_is_said_of_its_cut(
    tl: TimelineModel,
    index: usize,
    offset_s: Num,
    kind: SplitEditKind,
    given: Option<SplitEditSpecModel>,
    loc: ClipLocator,
    k: int,
)
    requires
        has_clip(tl, loc),
        split_edit_set(tl, index, offset_s, kind, given, Some(loc)) is Ok,
        match kind {
            SplitEditKind::AudioLead => last_clip_before(
                row(tl, loc.track_index as int),
                loc.child_index as int,
                k,
            ),
            SplitEditKind::AudioTrail => first_clip_from(
                row(tl, loc.track_index as int),
                loc.child_index + 1,
                k,
            ),
        },
    ensures
        ({
            let out = split_edit_set(tl, index, offset_s, kind, given, Some(loc))->Ok_0.0;
            let own = known_as(the_clip(tl, loc));
            let other = known_as(row(tl, loc.track_index as int)[k]->Clip_0);
            let key = match kind {
                SplitEditKind::AudioLead => other + "::"@ + own,
                SplitEditKind::AudioTrail => own + "::"@ + other,
            };
            out.montage matches Some(m) && exists|x: int|
                0 <= x < m.cut_boundaries.len() && (#[trigger] m.cut_boundaries[x]).key == key
                    && split_cut_says(m.cut_boundaries[x], kind, given)
        }),
{
    law_a_place_is_found(tl, loc);
    let i = loc.track_index as int;
    let j = loc.child_index as int;
    let before = row(tl, i);
    let c = the_clip(tl, loc);
    let own = known_as(c);
    let other = known_as(before[k]->Clip_0);
    let key = match kind {
        SplitEditKind::AudioLead => other + "::"@ + own,
        SplitEditKind::AudioTrail => own + "::"@ + other,
    };
    let out = split_edit_set(tl, index, offset_s, kind, given, Some(loc))->Ok_0.0;
    let after = row(out, i);
    assert(after =~= before.update(j, after[j]));
    match kind {
        SplitEditKind::AudioLead => {
            assert(last_clip_before(after, j, k)) by {
                assert(after[k] == before[k]);
                assert forall|x: int| k < x < j implies !((#[trigger] after[x]) is Clip) by {
                    assert(after[x] == before[x]);
                }
            }
            law_previous_clip_is_the_nearest(after, j, k);
        },
        SplitEditKind::AudioTrail => {
            assert(first_clip_from(after, j + 1, k)) by {
                assert(after[k] == before[k]);
                assert forall|x: int| j + 1 <= x < k implies !((#[trigger] after[x]) is Clip) by {
                    assert(after[x] == before[x]);
                }
            }
            law_next_clip_is_the_nearest(after, j + 1, k);
        },
    }
    let bs = montage_of(tl).cut_boundaries;
    let s = crate::audio::split_cut(kind, offset_s, given);
    crate::boundary_laws::lemma_put_keeps(
        bs,
        key,
        s,
        CutBoundaryModel { key, spec: s },
    );
    let now = put_boundary(bs, key, s);
    assert(out.montage->0.cut_boundaries == now);
    let x = choose|x: int| 0 <= x < now.len() && now[x] == CutBoundaryModel { key, spec: s };
    assert(now[x].key == key);
}

} // verus!

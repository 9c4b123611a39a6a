//! What clips say about themselves: identity, source range, links, effects.
use vstd::prelude::*;

use crate::meta::{lookup_text, put, Meta, MetaMap, MetaValue, Pairs};
use crate::model::{
    opt, views, Clip, ClipMetadata, ClipMetadataModel, ClipModel, Effect, EffectModel,
    ExternalReference, ExternalReferenceModel, MediaReference, MediaReferenceModel,
    MontageClipMetadata, MontageClipMetadataModel, SplitEditSpecModel, Stored, TimeRange,
    TrackChild, TrackChildModel,
};
use crate::num::{micro, Num};
use crate::text::{same, Str};

verus! {

/// The first place from `from` on at which `p` holds.
pub open spec fn first_where<A>(s: Seq<A>, p: spec_fn(A) -> bool, from: int) -> Option<int>
    decreases s.len() - from,
{
    if from < 0 || from >= s.len() {
        None
    } else if p(s[from]) {
        Some(from)
    } else {
        first_where(s, p, from + 1)
    }
}

/// What [`first_where`] finds is a place in range at which `p` holds, the
/// first such.
pub proof fn lemma_first_where<A>(s: Seq<A>, p: spec_fn(A) -> bool, from: int)
    requires
        0 <= from,
    ensures
        match first_where(s, p, from) {
            Some(i) => from <= i < s.len() && p(s[i]) && forall|j: int|
                from <= j < i ==> !p(#[trigger] s[j]),
            None => forall|j: int| from <= j < s.len() ==> !p(#[trigger] s[j]),
        },
    decreases s.len() - from,
{
    if from < s.len() && !p(s[from]) {
        lemma_first_where(s, p, from + 1);
    }
}

// ---- metadata -------------------------------------------------------------

/// Clip metadata that holds nothing.
pub open spec fn no_clip_montage() -> MontageClipMetadataModel {
    MontageClipMetadataModel {
        transcript_snippet: None,
        reasoning: None,
        audio_override: None,
        split_edit: None,
        extra: Seq::empty(),
    }
}

/// The editor's metadata of a clip, empty where there is none.
pub open spec fn clip_montage(c: ClipModel) -> MontageClipMetadataModel {
    match c.metadata.montage {
        Some(m) => m,
        None => no_clip_montage(),
    }
}

/// The clip with other editor's metadata.
pub open spec fn with_clip_montage(c: ClipModel, m: MontageClipMetadataModel) -> ClipModel {
    ClipModel { metadata: ClipMetadataModel { montage: Some(m), ..c.metadata }, ..c }
}

/// The clip with `value` under `key` among the editor's extras.
pub open spec fn with_clip_extra(c: ClipModel, key: Str, value: Meta) -> ClipModel {
    let m = clip_montage(c);
    with_clip_montage(c, MontageClipMetadataModel { extra: put(m.extra, key, value), ..m })
}

/// The text among the editor's extras.
pub open spec fn clip_extra_text(c: ClipModel, key: Str) -> Option<Str> {
    match c.metadata.montage {
        Some(m) => lookup_text(m.extra, key),
        None => None,
    }
}

/// The clip's unique id.
pub open spec fn uuid_of(c: ClipModel) -> Option<Str> {
    clip_extra_text(c, "clip_uuid"@)
}

/// The group of clips that move together.
pub open spec fn link_group_of(c: ClipModel) -> Option<Str> {
    clip_extra_text(c, "link_group_id"@)
}

/// The id by which a clip is known: its unique id, else its name.
pub open spec fn id_of(c: ClipModel) -> Str {
    match uuid_of(c) {
        Some(u) => u,
        None => c.name,
    }
}

/// The id of a child of a track, where it is a clip.
pub open spec fn child_id(c: TrackChildModel) -> Option<Str> {
    match c {
        TrackChildModel::Clip(c) => Some(id_of(c)),
        _ => None,
    }
}

/// The clip under a unique id.
pub open spec fn with_uuid(c: ClipModel, uuid: Str) -> ClipModel {
    with_clip_extra(c, "clip_uuid"@, Meta::Text(uuid))
}

/// The clip in a link group.
pub open spec fn with_link_group(c: ClipModel, group: Str) -> ClipModel {
    with_clip_extra(c, "link_group_id"@, Meta::Text(group))
}

impl MontageClipMetadata {
    /// Clip metadata that holds nothing.
    pub fn new() -> (r: MontageClipMetadata)
        ensures
            r@ == no_clip_montage(),
    {
        MontageClipMetadata {
            transcript_snippet: None,
            reasoning: None,
            audio_override: None,
            split_edit: None,
            extra: MetaMap::new(),
        }
    }
}

/// A clip that holds nothing but a name.
pub open spec fn empty_clip(name: Str) -> ClipModel {
    ClipModel {
        name,
        media_reference: MediaReferenceModel::Missing,
        source_range: None,
        effects: Seq::empty(),
        markers: Seq::empty(),
        metadata: ClipMetadataModel { montage: None, extra: Seq::empty() },
    }
}

/// Media in a file of which nothing more is known.
pub open spec fn media_at(url: Str) -> MediaReferenceModel {
    MediaReferenceModel::External(
        ExternalReferenceModel { target_url: url, available_range: None, metadata: Seq::empty() },
    )
}

impl ExternalReference {
    /// A file of which nothing more is known.
    pub fn new(url: &str) -> (r: ExternalReference)
        ensures
            MediaReferenceModel::External(r@) == media_at(url@),
    {
        ExternalReference {
            target_url: url.to_owned(),
            available_range: None,
            metadata: MetaMap::new(),
        }
    }
}

impl Clip {
    /// A clip that holds nothing but a name.
    pub fn empty(name: &str) -> (r: Clip)
        ensures
            r@ == empty_clip(name@),
    {
        let r = Clip {
            name: name.to_owned(),
            media_reference: MediaReference::Missing,
            source_range: None,
            effects: Vec::new(),
            markers: Vec::new(),
            metadata: ClipMetadata { montage: None, extra: MetaMap::new() },
        };
        assert(r@.effects =~= Seq::<EffectModel>::empty());
        assert(r@.markers =~= Seq::<crate::model::MarkerModel>::empty());
        r
    }

    /// The editor's metadata, empty where there is none.
    pub fn montage(&self) -> (r: MontageClipMetadata)
        ensures
            r@ == clip_montage(self@),
    {
        match &self.metadata.montage {
            Some(m) => m.copied(),
            None => MontageClipMetadata::new(),
        }
    }

    /// Puts the editor's metadata.
    pub fn put_montage(&mut self, m: MontageClipMetadata)
        ensures
            final(self)@ == with_clip_montage(old(self)@, m@),
    {
        self.metadata.montage = Some(m);
    }

    /// Puts `value` under `key` among the editor's extras.
    pub fn put_extra(&mut self, key: &str, value: MetaValue)
        ensures
            final(self)@ == with_clip_extra(old(self)@, key@, value@),
    {
        let mut m = self.montage();
        m.extra.insert(key, value);
        self.put_montage(m);
    }

    fn extra_text(&self, key: &str) -> (r: Option<String>)
        ensures
            opt(r) == clip_extra_text(self@, key@),
    {
        match &self.metadata.montage {
            Some(m) => m.extra.get_text(key),
            None => None,
        }
    }
}

/// The clip's unique id.
pub fn clip_uuid(clip: &Clip) -> (r: Option<String>)
    ensures
        opt(r) == uuid_of(clip@),
{
    clip.extra_text("clip_uuid")
}

/// The group of clips that move together.
pub fn clip_link_group_id(clip: &Clip) -> (r: Option<String>)
    ensures
        opt(r) == link_group_of(clip@),
{
    clip.extra_text("link_group_id")
}

/// The id by which a clip is known.
pub fn clip_id(clip: &Clip) -> (r: String)
    ensures
        r@ == id_of(clip@),
{
    match clip_uuid(clip) {
        Some(u) => u,
        None => clip.name.clone(),
    }
}

/// The id of a child of a track, where it is a clip.
pub fn track_child_clip_id(child: &TrackChild) -> (r: Option<String>)
    ensures
        opt(r) == child_id(child@),
{
    match child {
        TrackChild::Clip(c) => Some(clip_id(c)),
        _ => None,
    }
}

/// Puts a clip under a unique id.
pub fn stamp_clip_uuid(clip: &mut Clip, uuid: &str)
    ensures
        final(clip)@ == with_uuid(old(clip)@, uuid@),
{
    clip.put_extra("clip_uuid", MetaValue::text(uuid));
}

/// Puts a clip in a link group.
pub fn stamp_link_group_id(clip: &mut Clip, link_group_id: &str)
    ensures
        final(clip)@ == with_link_group(old(clip)@, link_group_id@),
{
    clip.put_extra("link_group_id", MetaValue::text(link_group_id));
}

/// Whether two optional texts are the same.
pub fn same_opt(a: &Option<String>, b: &Option<String>) -> (r: bool)
    ensures
        r == (opt(*a) == opt(*b)),
{
    match (a, b) {
        (Some(x), Some(y)) => same(x.as_str(), y.as_str()),
        (None, None) => true,
        _ => false,
    }
}

/// Whether an optional text is there and the given one.
pub fn is_some_text(a: &Option<String>, b: &str) -> (r: bool)
    ensures
        r == (opt(*a) == Some(b@)),
{
    match a {
        Some(x) => same(x.as_str(), b),
        None => false,
    }
}

// ---- media and source range -----------------------------------------------

/// The file behind a clip.
pub open spec fn target_of(c: ClipModel) -> Option<Str> {
    match c.media_reference {
        MediaReferenceModel::External(e) => Some(e.target_url),
        MediaReferenceModel::Missing => None,
    }
}

/// The file behind a clip.
pub fn clip_media_target(clip: &Clip) -> (r: Option<String>)
    ensures
        opt(r) == target_of(clip@),
{
    match &clip.media_reference {
        MediaReference::External(e) => Some(e.target_url.clone()),
        MediaReference::Missing => None,
    }
}

/// The stretch of media that is known to exist.
pub open spec fn available_of(c: ClipModel) -> Option<TimeRange> {
    match c.media_reference {
        MediaReferenceModel::External(e) => e.available_range,
        MediaReferenceModel::Missing => None,
    }
}

/// The stretch of media that is known to exist.
pub fn available_range(clip: &Clip) -> (r: Option<TimeRange>)
    ensures
        r == available_of(clip@),
{
    match &clip.media_reference {
        MediaReference::External(e) => e.available_range,
        MediaReference::Missing => None,
    }
}

/// The end of a stretch of time.
#[verifier::allow_in_spec]
pub fn end_of(r: TimeRange) -> Num
    returns
        r.start_time.seconds.plus(r.duration.seconds),
{
    r.start_time.seconds.plus(r.duration.seconds)
}

/// Whether a time lies inside the clip's source range, off its ends.
pub open spec fn contains_source_time(c: ClipModel, at_s: Num) -> bool {
    match c.source_range {
        Some(r) => r.start_time.seconds.less(at_s) && at_s.less(end_of(r)),
        None => false,
    }
}

/// Whether a time lies inside the clip's source range, off its ends.
pub fn clip_contains_source_time(clip: &Clip, at_s: Num) -> (r: bool)
    ensures
        r == contains_source_time(clip@, at_s),
{
    match clip.source_range {
        Some(r) => r.start_time.seconds.less(at_s) && at_s.less(end_of(r)),
        None => false,
    }
}

/// Whether a stretch lies in the clip's source range, up to a millionth.
pub open spec fn covers_source_range(c: ClipModel, start_s: Num, end_s: Num) -> bool {
    match c.source_range {
        Some(r) => r.start_time.seconds.minus(micro()).at_most(start_s) && end_s.at_most(
            end_of(r).plus(micro()),
        ),
        None => false,
    }
}

/// Whether a stretch lies in the clip's source range, up to a millionth.
pub fn clip_covers_source_range(clip: &Clip, start_s: Num, end_s: Num) -> (r: bool)
    ensures
        r == covers_source_range(clip@, start_s, end_s),
{
    match clip.source_range {
        Some(r) => r.start_time.seconds.minus(micro()).at_most(start_s) && end_s.at_most(
            end_of(r).plus(micro()),
        ),
        None => false,
    }
}

/// The clip with another source range.
pub open spec fn with_range(c: ClipModel, r: TimeRange) -> ClipModel {
    ClipModel { source_range: Some(r), ..c }
}

/// The rate of a clip, where it has a source range, else 24.
pub open spec fn rate_of(c: ClipModel) -> Num {
    match c.source_range {
        Some(r) => r.start_time.rate,
        None => crate::num::rate24(),
    }
}

/// The rate of a clip, where it has a source range, else 24.
pub fn clip_rate(clip: &Clip) -> (r: Num)
    ensures
        r == rate_of(clip@),
{
    match clip.source_range {
        Some(r) => r.start_time.rate,
        None => crate::num::rate24(),
    }
}

// ---- split edits ----------------------------------------------------------

/// The clip without the trailing half of its split edit.
pub open spec fn lead_only(c: ClipModel) -> ClipModel {
    match c.metadata.montage {
        Some(m) => match m.split_edit {
            Some(s) => with_clip_montage(
                c,
                MontageClipMetadataModel {
                    split_edit: if s.audio_lead_s is None {
                        None
                    } else {
                        Some(
                            SplitEditSpecModel {
                                audio_trail_s: None,
                                audio_trail_to_clip_id: None,
                                ..s
                            },
                        )
                    },
                    ..m
                },
            ),
            None => c,
        },
        None => c,
    }
}

/// The clip without the leading half of its split edit.
pub open spec fn trail_only(c: ClipModel) -> ClipModel {
    match c.metadata.montage {
        Some(m) => match m.split_edit {
            Some(s) => with_clip_montage(
                c,
                MontageClipMetadataModel {
                    split_edit: if s.audio_trail_s is None {
                        None
                    } else {
                        Some(
                            SplitEditSpecModel {
                                audio_lead_s: None,
                                audio_lead_from_clip_id: None,
                                ..s
                            },
                        )
                    },
                    ..m
                },
            ),
            None => c,
        },
        None => c,
    }
}

/// Drops the trailing half of a clip's split edit.
pub fn keep_only_split_edit_lead(clip: &mut Clip)
    ensures
        final(clip)@ == lead_only(old(clip)@),
{
    let has: bool = match &clip.metadata.montage {
        Some(m) => m.split_edit.is_some(),
        None => false,
    };
    if has {
        let mut m = clip.montage();
        if let Some(s) = m.split_edit {
            let mut s = s;
            s.audio_trail_s = None;
            s.audio_trail_to_clip_id = None;
            m.split_edit = if s.audio_lead_s.is_none() {
                None
            } else {
                Some(s)
            };
            clip.put_montage(m);
        }
    }
}

/// Drops the leading half of a clip's split edit.
pub fn keep_only_split_edit_trail(clip: &mut Clip)
    ensures
        final(clip)@ == trail_only(old(clip)@),
{
    let has: bool = match &clip.metadata.montage {
        Some(m) => m.split_edit.is_some(),
        None => false,
    };
    if has {
        let mut m = clip.montage();
        if let Some(s) = m.split_edit {
            let mut s = s;
            s.audio_lead_s = None;
            s.audio_lead_from_clip_id = None;
            m.split_edit = if s.audio_trail_s.is_none() {
                None
            } else {
                Some(s)
            };
            clip.put_montage(m);
        }
    }
}

// ---- effects --------------------------------------------------------------

/// An effect without a name of its own.
pub open spec fn effect_of(effect_name: Str, metadata: Pairs) -> EffectModel {
    EffectModel { name: ""@, effect_name, metadata }
}

impl Effect {
    /// An effect without a name of its own.
    pub fn new(effect_name: &str, metadata: MetaMap) -> (r: Effect)
        ensures
            r@ == effect_of(effect_name@, metadata@),
    {
        Effect { name: "".to_owned(), effect_name: effect_name.to_owned(), metadata }
    }
}

/// Whether an effect is of another kind.
pub open spec fn other_effect(name: Str) -> spec_fn(EffectModel) -> bool {
    |e: EffectModel| e.effect_name != name
}

/// The clip without the effects of a kind.
pub open spec fn without_effect(c: ClipModel, name: Str) -> ClipModel {
    ClipModel { effects: c.effects.filter(other_effect(name)), ..c }
}

/// The clip with one more effect.
pub open spec fn with_effect(c: ClipModel, e: EffectModel) -> ClipModel {
    ClipModel { effects: c.effects.push(e), ..c }
}

/// The clip with an effect in place of all others of its kind.
pub open spec fn with_sole_effect(c: ClipModel, e: EffectModel) -> ClipModel {
    with_effect(without_effect(c, e.effect_name), e)
}

/// Takes the effects of a kind off a clip.
pub fn drop_effect(clip: &mut Clip, name: &str)
    ensures
        final(clip)@ == without_effect(old(clip)@, name@),
{
    let mut kept: Vec<Effect> = Vec::new();
    let mut i: usize = 0;
    let ghost all = clip@.effects;
    let ghost p = other_effect(name@);
    reveal(Seq::filter);
    assert(all.take(0) =~= Seq::<EffectModel>::empty());
    assert(views(kept@) =~= Seq::<EffectModel>::empty());
    while i < clip.effects.len()
        invariant
            i <= clip.effects@.len(),
            clip@.effects == all,
            p == other_effect(name@),
            views(kept@) == all.take(i as int).filter(p),
        decreases clip.effects@.len() - i,
    {
        reveal(Seq::filter);
        let e = &clip.effects[i];
        let ghost before = views(kept@);
        assert(all.take(i + 1).drop_last() =~= all.take(i as int));
        assert(all[i as int] == e@);
        if !same(e.effect_name.as_str(), name) {
            kept.push(e.copied());
            assert(views(kept@) =~= before.push(e@));
        }
        i = i + 1;
    }
    assert(all.take(all.len() as int) =~= all);
    clip.effects = kept;
}

/// Puts one more effect on a clip.
pub fn add_effect(clip: &mut Clip, effect: Effect)
    ensures
        final(clip)@ == with_effect(old(clip)@, effect@),
{
    let ghost before = clip@.effects;
    clip.effects.push(effect);
    assert(clip@.effects =~= before.push(effect@));
}

/// Puts an effect on a clip in place of all others of its kind.
pub fn set_effect(clip: &mut Clip, effect: Effect)
    ensures
        final(clip)@ == with_sole_effect(old(clip)@, effect@),
{
    drop_effect(clip, effect.effect_name.as_str());
    add_effect(clip, effect);
}

} // verus!

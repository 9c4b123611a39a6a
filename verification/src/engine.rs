//! Envelopes, op by op, and the record of what was done.
use vstd::prelude::*;

use crate::boundary::{
    prune_stale_cut_boundaries, prune_stale_split_edits, with_current_cuts, with_current_splits,
};
use crate::clip::{clip_id, clip_media_target, id_of, target_of};
use crate::dispatch::{
    anchor_of, apply_one, located, op_anchor, op_done, resolve_locator_for_op, Answers,
};
use crate::edit::{clip_at, track_at, track_named};
use crate::envelope::{EdlEnvelope, EdlOp};
use crate::error::{ApplyError, Refusal};
use crate::meta::{lookup, lookup_text, put, Meta, MetaMap, MetaValue, Pairs};
use crate::mint::{drew, fresh, lemma_drew, ClipIds};
use crate::model::{opt, views, ClipLocator, Stored, Timeline, TimelineModel, TrackChildModel};
use crate::op::{Anchor, AnchorModel};
use crate::text::{cat2, holds, same, strs, Str};
use crate::wellformed::{keepable, validate_timeline};

verus! {

// ---- records --------------------------------------------------------------

/// What an op was and what it touched.
#[derive(Debug)]
pub struct AppliedOpMetadata {
    /// What the op is called.
    pub kind: String,
    /// The ids of the clips that were touched.
    pub affected_clip_ids: Vec<String>,
    /// The names of the tracks that were touched.
    pub affected_track_ids: Vec<String>,
    /// Who asked for the op.
    pub source: Option<String>,
    /// The op's short parameters.
    pub parameters: MetaMap,
}

/// What an [`AppliedOpMetadata`] holds.
#[verifier::ext_equal]
pub struct AppliedOpMetadataModel {
    pub kind: Str,
    pub affected_clip_ids: Seq<Str>,
    pub affected_track_ids: Seq<Str>,
    pub source: Option<Str>,
    pub parameters: Pairs,
}

impl View for AppliedOpMetadata {
    type V = AppliedOpMetadataModel;

    open spec fn view(&self) -> AppliedOpMetadataModel {
        AppliedOpMetadataModel {
            kind: self.kind@,
            affected_clip_ids: strs(self.affected_clip_ids@),
            affected_track_ids: strs(self.affected_track_ids@),
            source: opt(self.source),
            parameters: self.parameters@,
        }
    }
}

/// The record of one op.
#[derive(Debug)]
pub struct AppliedOp {
    /// The place of the op in the envelope.
    pub index: usize,
    /// One line on what was done.
    pub description: String,
    /// The place of the clip that the op named.
    pub locator: Option<ClipLocator>,
    pub metadata: AppliedOpMetadata,
}

/// What an [`AppliedOp`] holds.
#[verifier::ext_equal]
pub struct AppliedOpModel {
    pub index: usize,
    pub description: Str,
    pub locator: Option<ClipLocator>,
    pub metadata: AppliedOpMetadataModel,
}

impl View for AppliedOp {
    type V = AppliedOpModel;

    open spec fn view(&self) -> AppliedOpModel {
        AppliedOpModel {
            index: self.index,
            description: self.description@,
            locator: self.locator,
            metadata: self.metadata@,
        }
    }
}

/// The records of an envelope.
#[derive(Debug)]
pub struct ApplyOutcome {
    /// One for each op, in order.
    pub applied: Vec<AppliedOp>,
}

// ---- what an op is --------------------------------------------------------

/// Whether a value is a truth value, a number or a text.
pub open spec fn is_scalar() -> spec_fn(Meta) -> bool {
    |v: Meta| v is Bool || v is Number || v is Text
}

/// Whether the value of an entry is a truth value, a number or a text.
pub open spec fn is_scalar_entry() -> spec_fn((Str, Meta)) -> bool {
    |e: (Str, Meta)| is_scalar()(e.1)
}

/// Whether a value is short enough for a record.
pub open spec fn is_compact(v: Meta) -> bool {
    match v {
        Meta::Null => false,
        Meta::Bool(_) => true,
        Meta::Number(_) => true,
        Meta::Text(_) => true,
        Meta::List(l) => l.len() <= 8 && l.all(is_scalar()),
        Meta::Object(m) => m.len() <= 8 && m.all(is_scalar_entry()),
    }
}

fn is_scalar_json(v: &MetaValue) -> (r: bool)
    ensures
        r == is_scalar()(v@),
{
    match v {
        MetaValue::Bool(_) | MetaValue::Number(_) | MetaValue::Text(_) => true,
        _ => false,
    }
}

/// Whether a value is short enough for a record.
pub fn is_compact_parameter_value(v: &MetaValue) -> (r: bool)
    ensures
        r == is_compact(v@),
{
    match v {
        MetaValue::Null => false,
        MetaValue::Bool(_) | MetaValue::Number(_) | MetaValue::Text(_) => true,
        MetaValue::List(l) => {
            let ghost all = v@->List_0;
            if l.len() > 8 {
                return false;
            }
            let mut i: usize = 0;
            while i < l.len()
                invariant
                    i <= l@.len(),
                    l@.len() <= 8,
                    *v == MetaValue::List(*l),
                    all == v@->List_0,
                    all.len() == l@.len(),
                    forall|k: int| 0 <= k < i ==> is_scalar()(#[trigger] all[k]),
                decreases l@.len() - i,
            {
                assert(all[i as int] == l@[i as int]@);
                if !is_scalar_json(&l[i]) {
                    assert(!is_scalar()(all[i as int]));
                    return false;
                }
                i = i + 1;
            }
            true
        },
        MetaValue::Object(m) => {
            let ghost all = m@;
            if m.entries.len() > 8 {
                return false;
            }
            let mut i: usize = 0;
            while i < m.entries.len()
                invariant
                    i <= m.entries@.len(),
                    m.entries@.len() <= 8,
                    *v == MetaValue::Object(*m),
                    all == m@,
                    all.len() == m.entries@.len(),
                    forall|k: int| 0 <= k < i ==> is_scalar_entry()(#[trigger] all[k]),
                decreases m.entries@.len() - i,
            {
                assert(all[i as int].1 == m.entries@[i as int].value@);
                if !is_scalar_json(&m.entries[i].value) {
                    assert(!is_scalar_entry()(all[i as int]));
                    return false;
                }
                i = i + 1;
            }
            true
        },
    }
}

/// What an op is called.
pub open spec fn kind_of(document: Meta) -> Str {
    match document {
        Meta::Object(m) => match lookup_text(m, "op"@) {
            Some(s) => s,
            None => "unknown"@,
        },
        _ => "unknown"@,
    }
}

/// What an op is called.
pub fn op_kind(document: &MetaValue) -> (r: String)
    ensures
        r@ == kind_of(document@),
{
    match document {
        MetaValue::Object(m) => match m.get_text("op") {
            Some(s) => s,
            None => "unknown".to_owned(),
        },
        _ => "unknown".to_owned(),
    }
}

/// Whether an entry of an op is one of its short parameters.
pub open spec fn is_parameter() -> spec_fn((Str, Meta)) -> bool {
    |e: (Str, Meta)|
        e.0 != "op"@ && e.0 != "anchor"@ && e.0 != "between"@ && e.0 != "plan"@ && e.0 != "edit"@
            && e.0 != "spec"@ && e.0 != "split_edit"@ && is_compact(e.1)
}

/// The short parameters of an op.
pub open spec fn parameters_of(document: Meta) -> Pairs {
    match document {
        Meta::Object(m) => m.filter(is_parameter()),
        _ => Seq::empty(),
    }
}

fn names_parameter(key: &str) -> (r: bool)
    ensures
        r == (key@ != "op"@ && key@ != "anchor"@ && key@ != "between"@ && key@ != "plan"@ && key@
            != "edit"@ && key@ != "spec"@ && key@ != "split_edit"@),
{
    !same(key, "op") && !same(key, "anchor") && !same(key, "between") && !same(key, "plan")
        && !same(key, "edit") && !same(key, "spec") && !same(key, "split_edit")
}

/// The short parameters of an op.
pub fn op_parameters(document: &MetaValue) -> (r: MetaMap)
    ensures
        r@ == parameters_of(document@),
{
    let m = match document {
        MetaValue::Object(m) => m,
        _ => {
            return MetaMap::new();
        },
    };
    let ghost all = m@;
    let mut out = MetaMap::new();
    let mut i: usize = 0;
    reveal(Seq::filter);
    assert(all.take(0) =~= Seq::empty());
    while i < m.entries.len()
        invariant
            i <= m.entries@.len(),
            all == m@,
            all.len() == m.entries@.len(),
            out@ == all.take(i as int).filter(is_parameter()),
        decreases m.entries@.len() - i,
    {
        reveal(Seq::filter);
        let e = &m.entries[i];
        let ghost before = out@;
        assert(all.take(i + 1).drop_last() =~= all.take(i as int));
        assert(all[i as int] == (e.key@, e.value@));
        if names_parameter(e.key.as_str()) && is_compact_parameter_value(&e.value) {
            out.entries.push(
                crate::meta::MetaEntry { key: e.key.clone(), value: e.value.copied() },
            );
            assert(out@ =~= before.push(all[i as int]));
        }
        i = i + 1;
    }
    assert(all.take(all.len() as int) =~= all);
    out
}

// ---- what an op touches ---------------------------------------------------

/// The texts with one more, unless it is empty or there already.
pub open spec fn with_unique(values: Seq<Str>, value: Str) -> Seq<Str> {
    if value.len() == 0 || values.contains(value) {
        values
    } else {
        values.push(value)
    }
}

/// Adds a text, unless it is empty or there already.
pub fn push_unique(values: &mut Vec<String>, value: String)
    ensures
        strs(final(values)@) == with_unique(strs(old(values)@), value@),
{
    let ghost before = strs(values@);
    if value.as_str().unicode_len() != 0 && !holds(values, value.as_str()) {
        values.push(value);
        assert(strs(values@) =~= before.push(value@));
    }
}

/// The track and the clip at a place, by name and by id.
pub open spec fn ids_at(tl: TimelineModel, loc: ClipLocator) -> Option<(Str, Str)> {
    match (track_at(tl, loc.track_index as int), clip_at(tl, loc)) {
        (Some(t), Some(c)) => Some((t.name, id_of(c))),
        _ => None,
    }
}

/// The track and the clip at a place, by name and by id.
pub fn ids_at_locator(timeline: &Timeline, loc: ClipLocator) -> (r: Option<(String, String)>)
    ensures
        match r {
            Some(p) => ids_at(timeline@, loc) == Some((p.0@, p.1@)),
            None => ids_at(timeline@, loc) is None,
        },
{
    match timeline.track(loc.track_index) {
        None => None,
        Some(t) => match timeline.clip(loc) {
            None => None,
            Some(c) => Some((t.name.clone(), clip_id(c))),
        },
    }
}

/// The last clip among the first `n` children that shows an asset, under a name
/// where one is given.
pub open spec fn last_showing(
    children: Seq<TrackChildModel>,
    asset: Str,
    name: Option<Str>,
    n: int,
) -> Option<Str>
    decreases n,
{
    if n <= 0 {
        None
    } else {
        match children[n - 1] {
            TrackChildModel::Clip(c) if (name matches Some(k) ==> c.name == k) && target_of(c)
                == Some(asset) => Some(id_of(c)),
            _ => last_showing(children, asset, name, n - 1),
        }
    }
}

/// The id of the clip that an insert has made.
pub open spec fn inserted_id(tl: TimelineModel, track: Str, asset: Str, name: Option<Str>) -> Option<Str> {
    match track_named(tl, track) {
        None => None,
        Some(i) => {
            let children = track_at(tl, i)->0.children;
            last_showing(children, asset, name, children.len() as int)
        },
    }
}

/// The id of the clip that an insert has made.
pub fn find_inserted_clip_id(timeline: &Timeline, track: &str, asset: &str, name: &Option<String>) -> (r:
    Option<String>)
    ensures
        opt(r) == inserted_id(timeline@, track@, asset@, opt(*name)),
{
    let i: usize = match timeline.find_track(track) {
        Some(i) => i,
        None => {
            return None;
        },
    };
    let t = match timeline.track(i) {
        Some(t) => t,
        None => {
            return None;
        },
    };
    let mut n: usize = t.size();
    while n > 0
        invariant
            n <= t@.children.len(),
            last_showing(t@.children, asset@, opt(*name), t@.children.len() as int)
                == last_showing(t@.children, asset@, opt(*name), n as int),
            inserted_id(timeline@, track@, asset@, opt(*name)) == last_showing(
                t@.children,
                asset@,
                opt(*name),
                t@.children.len() as int,
            ),
        decreases n,
    {
        if let Some(c) = t.clip(n - 1) {
            let named = match name {
                Some(k) => same(c.name.as_str(), k.as_str()),
                None => true,
            };
            let shows = match clip_media_target(c) {
                Some(u) => same(u.as_str(), asset),
                None => false,
            };
            if named && shows {
                return Some(clip_id(c));
            }
        }
        n = n - 1;
    }
    None
}

/// The id of the clip that follows at once on the first clip with an id, from a
/// place on.
pub open spec fn right_of(children: Seq<TrackChildModel>, left_id: Str, from: int) -> Option<Str>
    decreases children.len() - from,
{
    if from < 0 || from + 1 >= children.len() {
        None
    } else {
        match (children[from], children[from + 1]) {
            (TrackChildModel::Clip(l), TrackChildModel::Clip(r)) if id_of(l) == left_id => Some(
                id_of(r),
            ),
            _ => right_of(children, left_id, from + 1),
        }
    }
}

/// The same over all tracks from a place on.
pub open spec fn split_right(tl: TimelineModel, left_id: Str, from: int) -> Option<Str>
    decreases tl.tracks.children.len() - from,
{
    if from < 0 || from >= tl.tracks.children.len() {
        None
    } else {
        match track_at(tl, from) {
            Some(t) => match right_of(t.children, left_id, 0) {
                Some(id) => Some(id),
                None => split_right(tl, left_id, from + 1),
            },
            None => split_right(tl, left_id, from + 1),
        }
    }
}

fn find_right(t: &crate::model::Track, left_id: &str) -> (r: Option<String>)
    ensures
        opt(r) == right_of(t@.children, left_id@, 0),
{
    let n: usize = t.size();
    let mut i: usize = 0;
    while i < n && n - i > 1
        invariant
            i <= n,
            n == t@.children.len(),
            right_of(t@.children, left_id@, 0) == right_of(t@.children, left_id@, i as int),
        decreases n - i,
    {
        if let Some(l) = t.clip(i) {
            if let Some(r) = t.clip(i + 1) {
                if same(clip_id(l).as_str(), left_id) {
                    return Some(clip_id(r));
                }
            }
        }
        i = i + 1;
    }
    None
}

/// The id of the right part of a clip that was split.
pub fn find_split_right_clip_id(timeline: &Timeline, left_id: &str) -> (r: Option<String>)
    ensures
        opt(r) == split_right(timeline@, left_id@, 0),
{
    let n: usize = timeline.size();
    let mut i: usize = 0;
    while i < n
        invariant
            i <= n,
            n == timeline@.tracks.children.len(),
            split_right(timeline@, left_id@, 0) == split_right(timeline@, left_id@, i as int),
        decreases n - i,
    {
        if let Some(t) = timeline.track(i) {
            if let Some(id) = find_right(t, left_id) {
                return Some(id);
            }
        }
        i = i + 1;
    }
    None
}

/// The record of an op before it is applied.
pub open spec fn record_before(
    tl: TimelineModel,
    op: EdlOp,
    loc: Option<ClipLocator>,
    document: Meta,
) -> AppliedOpMetadataModel {
    let found = match loc {
        Some(l) => ids_at(tl, l),
        None => None,
    };
    let clips = match found {
        Some(p) => with_unique(Seq::empty(), p.1),
        None => Seq::empty(),
    };
    let tracks = match found {
        Some(p) => with_unique(Seq::empty(), p.0),
        None => Seq::empty(),
    };
    let parameters = parameters_of(document);
    AppliedOpMetadataModel {
        kind: kind_of(document),
        affected_clip_ids: clips,
        affected_track_ids: match op {
            EdlOp::InsertClip { request } => with_unique(tracks, request.track@),
            EdlOp::SetTrackAudio { track, .. } => with_unique(tracks, track@),
            EdlOp::SetTrackAudioFx { track, .. } => with_unique(tracks, track@),
            _ => tracks,
        },
        source: Some("agent"@),
        parameters: match op {
            EdlOp::InsertClip { request } if lookup(parameters, "asset"@) is None => put(
                parameters,
                "asset"@,
                Meta::Text(request.asset@),
            ),
            _ => parameters,
        },
    }
}

/// Begins the record of an op.
pub fn metadata_before_apply(
    timeline: &Timeline,
    op: &EdlOp,
    loc: Option<ClipLocator>,
    document: &MetaValue,
) -> (r: AppliedOpMetadata)
    ensures
        r@ == record_before(timeline@, *op, loc, document@),
{
    let mut clips: Vec<String> = Vec::new();
    let mut tracks: Vec<String> = Vec::new();
    let mut parameters = op_parameters(document);
    assert(strs(clips@) =~= Seq::<Str>::empty());
    assert(strs(tracks@) =~= Seq::<Str>::empty());
    if let Some(l) = loc {
        if let Some((t, c)) = ids_at_locator(timeline, l) {
            push_unique(&mut tracks, t);
            push_unique(&mut clips, c);
        }
    }
    match op {
        EdlOp::InsertClip { request } => {
            push_unique(&mut tracks, request.track.clone());
            if parameters.get("asset").is_none() {
                parameters.insert("asset", MetaValue::text(request.asset.as_str()));
            }
        },
        EdlOp::SetTrackAudio { track, .. } => {
            push_unique(&mut tracks, track.clone());
        },
        EdlOp::SetTrackAudioFx { track, .. } => {
            push_unique(&mut tracks, track.clone());
        },
        _ => {},
    }
    AppliedOpMetadata {
        kind: op_kind(document),
        affected_clip_ids: clips,
        affected_track_ids: tracks,
        source: Some("agent".to_owned()),
        parameters,
    }
}

/// The record of an op after it was applied.
pub open spec fn record_after(tl: TimelineModel, op: EdlOp, m: AppliedOpMetadataModel) -> AppliedOpMetadataModel {
    let more = match op {
        EdlOp::InsertClip { request } => inserted_id(
            tl,
            request.track@,
            request.asset@,
            opt(request.name),
        ),
        EdlOp::SplitClip { .. } => if m.affected_clip_ids.len() > 0 {
            split_right(tl, m.affected_clip_ids[0], 0)
        } else {
            None
        },
        _ => None,
    };
    match more {
        Some(id) => AppliedOpMetadataModel {
            affected_clip_ids: with_unique(m.affected_clip_ids, id),
            ..m
        },
        None => m,
    }
}

/// Completes the record of an op.
pub fn metadata_after_apply(timeline: &Timeline, op: &EdlOp, m: &mut AppliedOpMetadata)
    ensures
        final(m)@ == record_after(timeline@, *op, old(m)@),
{
    match op {
        EdlOp::InsertClip { request } => {
            if let Some(id) = find_inserted_clip_id(
                timeline,
                request.track.as_str(),
                request.asset.as_str(),
                &request.name,
            ) {
                push_unique(&mut m.affected_clip_ids, id);
            }
        },
        EdlOp::SplitClip { .. } => {
            if m.affected_clip_ids.len() > 0 {
                assert(m@.affected_clip_ids[0] == m.affected_clip_ids@[0]@);
                if let Some(id) = find_split_right_clip_id(
                    timeline,
                    m.affected_clip_ids[0].as_str(),
                ) {
                    push_unique(&mut m.affected_clip_ids, id);
                }
            }
        },
        _ => {},
    }
}

// ---- envelopes ------------------------------------------------------------

/// An envelope on its way: the timeline as it stands, what the right parts of
/// clips that were split are called, and the records.
#[derive(Debug)]
pub struct Session {
    pub working: Timeline,
    /// The id of the right part, under the id of the left part with `-b` behind
    /// it.
    pub aliases: MetaMap,
    pub applied: Vec<AppliedOp>,
}

/// What a [`Session`] holds.
#[verifier::ext_equal]
pub struct SessionModel {
    pub working: TimelineModel,
    pub aliases: Pairs,
    pub applied: Seq<AppliedOpModel>,
}

impl View for Session {
    type V = SessionModel;

    open spec fn view(&self) -> SessionModel {
        SessionModel {
            working: self.working@,
            aliases: self.aliases@,
            applied: views(self.applied@),
        }
    }
}

/// Before the first op.
pub open spec fn begun(original: TimelineModel) -> SessionModel {
    SessionModel { working: original, aliases: Seq::empty(), applied: Seq::empty() }
}

/// The anchor with the right part of a split clip under its own id.
pub open spec fn unaliased(anchor: AnchorModel, aliases: Pairs) -> AnchorModel {
    match anchor {
        AnchorModel::ClipUuid { uuid } => match lookup_text(aliases, uuid) {
            Some(id) => AnchorModel::ClipUuid { uuid: id },
            None => anchor,
        },
        _ => anchor,
    }
}

/// The anchor that an op's clip is looked for under.
pub open spec fn sought(s: SessionModel, op: EdlOp) -> Option<AnchorModel> {
    match anchor_of(op) {
        Some(a) => Some(unaliased(a@, s.aliases)),
        None => None,
    }
}

/// The names of right parts after an op: a split adds one.
pub open spec fn aliases_after(aliases: Pairs, op: EdlOp, clips: Seq<Str>) -> Pairs {
    if op is SplitClip && clips.len() >= 2 {
        put(aliases, clips[0] + "-b"@, Meta::Text(clips.last()))
    } else {
        aliases
    }
}

/// One op further.  What is said of cuts and split edits that are none any more
/// is dropped.
#[verifier::opaque]
pub open spec fn advanced(s: SessionModel, op: EdlOp, a: Answers, ids: Seq<Str>) -> Result<
    SessionModel,
    Refusal,
> {
    let index = s.applied.len() as usize;
    match located(index, op, a) {
        Err(e) => Err(e),
        Ok(loc) => match op_done(s.working, index, op, a, loc, ids) {
            Err(e) => Err(e),
            Ok((tl, said)) => {
                let m = record_after(tl, op, record_before(s.working, op, loc, a.document@));
                Ok(
                    SessionModel {
                        working: with_current_splits(with_current_cuts(tl)),
                        aliases: aliases_after(s.aliases, op, m.affected_clip_ids),
                        applied: s.applied.push(
                            AppliedOpModel {
                                index,
                                description: said,
                                locator: loc,
                                metadata: m,
                            },
                        ),
                    },
                )
            },
        },
    }
}

/// After the last op: the timeline is given back if it can be kept.
pub open spec fn finished(s: SessionModel) -> Result<(TimelineModel, Seq<AppliedOpModel>), Refusal> {
    match keepable(s.working) {
        Ok(_) => Ok((s.working, s.applied)),
        Err(message) => Err(
            Refusal::OtioInvalid {
                index: if s.applied.len() > 0 {
                    s.applied.last().index
                } else {
                    0
                },
                message,
            },
        ),
    }
}

impl Session {
    /// Before the first op.
    pub fn begin(original: &Timeline) -> (r: Session)
        ensures
            r@ == begun(original@),
    {
        let r = Session {
            working: original.copied(),
            aliases: MetaMap::new(),
            applied: Vec::new(),
        };
        assert(r@.applied =~= Seq::empty());
        r
    }

    /// The anchor that an op's clip is looked for under.
    pub fn anchor_for(&self, op: &EdlOp) -> (r: Option<Anchor>)
        ensures
            opt(r) == sought(self@, *op),
    {
        match op_anchor(op) {
            None => None,
            Some(a) => {
                if let Anchor::ClipUuid { uuid } = a {
                    if let Some(id) = self.aliases.get_text(uuid.as_str()) {
                        return Some(Anchor::ClipUuid { uuid: id });
                    }
                }
                Some(a.copied())
            },
        }
    }

    /// One op further.
    pub fn advance(self, op: &EdlOp, a: &Answers, ids: &mut ClipIds) -> (r: Result<Session, ApplyError>)
        ensures
            drew(*old(ids), *final(ids), fresh(*old(ids), *final(ids)).len()),
            match r {
                Ok(s) => advanced(self@, *op, *a, fresh(*old(ids), *final(ids))) == Ok::<
                    SessionModel,
                    Refusal,
                >(s@),
                Err(e) => advanced(self@, *op, *a, fresh(*old(ids), *final(ids))) == Err::<
                    SessionModel,
                    Refusal,
                >(e@),
            },
    {
        reveal(advanced);
        let mut aliases = self.aliases;
        let mut applied = self.applied;
        let ghost before = views(applied@);
        let index: usize = applied.len();
        let loc = match resolve_locator_for_op(index, op, a) {
            Ok(l) => l,
            Err(e) => {
                return Err(e);
            },
        };
        let mut m = metadata_before_apply(&self.working, op, loc, &a.document);
        let (tl, said) = match apply_one(self.working, index, op, a, loc, ids) {
            Ok(p) => p,
            Err(e) => {
                return Err(e);
            },
        };
        metadata_after_apply(&tl, op, &mut m);
        if let EdlOp::SplitClip { .. } = op {
            let n: usize = m.affected_clip_ids.len();
            if n >= 2 {
                assert(m@.affected_clip_ids[0] == m.affected_clip_ids@[0]@);
                assert(m@.affected_clip_ids.last() == m.affected_clip_ids@[n - 1]@);
                let key = cat2(m.affected_clip_ids[0].as_str(), "-b");
                aliases.insert(
                    key.as_str(),
                    MetaValue::text(m.affected_clip_ids[n - 1].as_str()),
                );
            }
        }
        let working = prune_stale_split_edits(prune_stale_cut_boundaries(tl));
        let record = AppliedOp { index, description: said, locator: loc, metadata: m };
        applied.push(record);
        assert(views(applied@) =~= before.push(record@));
        Ok(Session { working, aliases, applied })
    }

    /// After the last op.
    pub fn finish(self) -> (r: Result<(Timeline, ApplyOutcome), ApplyError>)
        ensures
            match r {
                Ok(p) => finished(self@) == Ok::<(TimelineModel, Seq<AppliedOpModel>), Refusal>(
                    (p.0@, views(p.1.applied@)),
                ),
                Err(e) => finished(self@) == Err::<(TimelineModel, Seq<AppliedOpModel>), Refusal>(
                    e@,
                ),
            },
    {
        match validate_timeline(&self.working) {
            Ok(_) => Ok((self.working, ApplyOutcome { applied: self.applied })),
            Err(message) => {
                let n: usize = self.applied.len();
                let index: usize = if n > 0 {
                    assert(self@.applied.last() == self.applied@[n - 1]@);
                    self.applied[n - 1].index
                } else {
                    0
                };
                Err(ApplyError::OtioInvalid { index, message })
            },
        }
    }
}

/// After the first `n` ops.
pub open spec fn after_ops(
    original: TimelineModel,
    ops: Seq<EdlOp>,
    answers: Seq<Answers>,
    drawn: Seq<Seq<Str>>,
    n: int,
) -> Result<SessionModel, Refusal>
    decreases n,
{
    if n <= 0 {
        Ok(begun(original))
    } else {
        match after_ops(original, ops, answers, drawn, n - 1) {
            Err(e) => Err(e),
            Ok(s) => advanced(s, ops[n - 1], answers[n - 1], drawn[n - 1]),
        }
    }
}

/// What an envelope comes to, given what was answered and which ids were handed
/// out for each op.
pub open spec fn envelope_done(
    original: TimelineModel,
    ops: Seq<EdlOp>,
    answers: Seq<Answers>,
    drawn: Seq<Seq<Str>>,
) -> Result<(TimelineModel, Seq<AppliedOpModel>), Refusal> {
    match after_ops(original, ops, answers, drawn, ops.len() as int) {
        Err(e) => Err(e),
        Ok(s) => finished(s),
    }
}

/// The ids handed out for the first `n` ops, in order.
pub open spec fn all_drawn(drawn: Seq<Seq<Str>>, n: int) -> Seq<Str>
    decreases n,
{
    if n <= 0 {
        Seq::empty()
    } else {
        all_drawn(drawn, n - 1) + drawn[n - 1]
    }
}

/// Whether an answer was given when asked of an op, on a timeline as it stood.
pub open spec fn answered<F: Fn(&Timeline, &EdlOp, &Option<Anchor>) -> Answers>(
    ask: F,
    s: SessionModel,
    op: EdlOp,
    a: Answers,
) -> bool {
    exists|t: Timeline, x: Option<Anchor>|
        t@ == s.working && opt(x) == sought(s, op) && #[trigger] call_ensures(
            ask,
            (&t, &op, &x),
            a,
        )
}

/// Whether each answer was given when asked of its op, on the timeline that the
/// ops before it had come to.
pub open spec fn all_answered<F: Fn(&Timeline, &EdlOp, &Option<Anchor>) -> Answers>(
    ask: F,
    original: TimelineModel,
    ops: Seq<EdlOp>,
    answers: Seq<Answers>,
    drawn: Seq<Seq<Str>>,
) -> bool {
    &&& answers.len() <= ops.len()
    &&& drawn.len() == answers.len()
    &&& after_ops(original, ops, answers, drawn, answers.len() as int) is Ok ==> answers.len()
        == ops.len()
    &&& forall|k: int|
        0 <= k < answers.len() ==> (#[trigger] after_ops(original, ops, answers, drawn, k)) is Ok
            && answered(ask, after_ops(original, ops, answers, drawn, k)->Ok_0, ops[k], answers[k])
}

proof fn lemma_after_ops(
    original: TimelineModel,
    ops: Seq<EdlOp>,
    a: Seq<Answers>,
    b: Seq<Answers>,
    c: Seq<Seq<Str>>,
    d: Seq<Seq<Str>>,
    n: int,
)
    requires
        n <= a.len() <= b.len(),
        n <= c.len() <= d.len(),
        forall|k: int| 0 <= k < a.len() ==> a[k] == b[k],
        forall|k: int| 0 <= k < c.len() ==> c[k] == d[k],
    ensures
        after_ops(original, ops, a, c, n) == after_ops(original, ops, b, d, n),
    decreases n,
{
    if n > 0 {
        lemma_after_ops(original, ops, a, b, c, d, n - 1);
    }
}

proof fn lemma_ops_refused(
    original: TimelineModel,
    ops: Seq<EdlOp>,
    a: Seq<Answers>,
    c: Seq<Seq<Str>>,
    n: int,
    m: int,
)
    requires
        n <= m,
        after_ops(original, ops, a, c, n) is Err,
    ensures
        after_ops(original, ops, a, c, m) == after_ops(original, ops, a, c, n),
    decreases m,
{
    if n < m && m > 0 {
        lemma_ops_refused(original, ops, a, c, n, m - 1);
    }
}

proof fn lemma_all_drawn(c: Seq<Seq<Str>>, d: Seq<Seq<Str>>, n: int)
    requires
        n <= c.len() <= d.len(),
        forall|k: int| 0 <= k < c.len() ==> c[k] == d[k],
    ensures
        all_drawn(c, n) == all_drawn(d, n),
    decreases n,
{
    if n > 0 {
        lemma_all_drawn(c, d, n - 1);
    }
}

/// Whether an envelope came to a result by answers of `ask`.
pub open spec fn came_about<F: Fn(&Timeline, &EdlOp, &Option<Anchor>) -> Answers>(
    ask: F,
    original: TimelineModel,
    ops: Seq<EdlOp>,
    answers: Seq<Answers>,
    drawn: Seq<Seq<Str>>,
    r: Result<(Timeline, ApplyOutcome), ApplyError>,
) -> bool {
    &&& all_answered(ask, original, ops, answers, drawn)
    &&& match r {
        Ok(p) => envelope_done(original, ops, answers, drawn) == Ok::<
            (TimelineModel, Seq<AppliedOpModel>),
            Refusal,
        >((p.0@, views(p.1.applied@))),
        Err(e) => envelope_done(original, ops, answers, drawn) == Err::<
            (TimelineModel, Seq<AppliedOpModel>),
            Refusal,
        >(e@),
    }
}

/// Applies an envelope to a copy of a timeline.  Before each op, `ask` is asked
/// about it: it gets the timeline as it stands, the op, and the anchor of the
/// clip that the op names.
pub fn apply<F: Fn(&Timeline, &EdlOp, &Option<Anchor>) -> Answers>(
    original: &Timeline,
    envelope: &EdlEnvelope,
    ask: F,
    ids: &mut ClipIds,
) -> (r: Result<(Timeline, ApplyOutcome), ApplyError>)
    requires
        forall|t: &Timeline, op: &EdlOp, x: &Option<Anchor>| call_requires(ask, (t, op, x)),
    ensures
        drew(*old(ids), *final(ids), fresh(*old(ids), *final(ids)).len()),
        exists|answers: Seq<Answers>, drawn: Seq<Seq<Str>>| #[trigger]
            came_about(ask, original@, envelope.ops@, answers, drawn, r) && fresh(
                *old(ids),
                *final(ids),
            ) == all_drawn(drawn, drawn.len() as int),
{
    let mut s = Session::begin(original);
    let ghost mut answers: Seq<Answers> = Seq::empty();
    let ghost mut drawn: Seq<Seq<Str>> = Seq::empty();
    let ghost from = *old(ids);
    let ghost ops = envelope.ops@;
    let mut i: usize = 0;
    assert(fresh(from, *ids) =~= Seq::<Str>::empty());
    while i < envelope.ops.len()
        invariant
            i <= ops.len(),
            ops == envelope.ops@,
            from == *old(ids),
            answers.len() == i,
            drawn.len() == i,
            drew(from, *ids, fresh(from, *ids).len()),
            fresh(from, *ids) == all_drawn(drawn, i as int),
            after_ops(original@, ops, answers, drawn, i as int) == Ok::<SessionModel, Refusal>(s@),
            forall|t: &Timeline, op: &EdlOp, x: &Option<Anchor>| call_requires(ask, (t, op, x)),
            forall|k: int|
                0 <= k < i ==> (#[trigger] after_ops(original@, ops, answers, drawn, k)) is Ok
                    && answered(
                    ask,
                    after_ops(original@, ops, answers, drawn, k)->Ok_0,
                    ops[k],
                    answers[k],
                ),
        decreases ops.len() - i,
    {
        let op = &envelope.ops[i];
        let x = s.anchor_for(op);
        let ghost here = s@;
        let a = ask(&s.working, op, &x);
        let ghost mid = *ids;
        let done = s.advance(op, &a, ids);
        proof {
            assert(answered(ask, here, ops[i as int], a)) by {
                assert(call_ensures(ask, (&s.working, &ops[i as int], &x), a));
            }
            let more = answers.push(a);
            let taken = drawn.push(fresh(mid, *ids));
            lemma_drew(from, mid, *ids);
            lemma_all_drawn(drawn, taken, i as int);
            assert(fresh(from, *ids) =~= all_drawn(taken, i + 1));
            assert forall|k: int| 0 <= k <= i implies (#[trigger] after_ops(
                original@,
                ops,
                more,
                taken,
                k,
            )) is Ok && answered(
                ask,
                after_ops(original@, ops, more, taken, k)->Ok_0,
                ops[k],
                more[k],
            ) by {
                lemma_after_ops(original@, ops, answers, more, drawn, taken, k);
                if k < i {
                    assert(after_ops(original@, ops, answers, drawn, k) is Ok);
                }
            }
            lemma_after_ops(original@, ops, answers, more, drawn, taken, i as int);
            answers = more;
            drawn = taken;
        }
        match done {
            Ok(next) => {
                s = next;
            },
            Err(e) => {
                proof {
                    lemma_ops_refused(
                        original@,
                        ops,
                        answers,
                        drawn,
                        i + 1,
                        ops.len() as int,
                    );
                }
                assert(came_about(
                    ask,
                    original@,
                    ops,
                    answers,
                    drawn,
                    Err::<(Timeline, ApplyOutcome), ApplyError>(e),
                ));
                return Err(e);
            },
        }
        i = i + 1;
    }
    let r = s.finish();
    assert(came_about(ask, original@, ops, answers, drawn, r));
    r
}

} // verus!

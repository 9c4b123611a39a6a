//! Sound: loudness, muting, fades, split edits, and the controls of sound tracks.
use vstd::prelude::*;

use crate::boundary::{
    boundary_key, cut_boundary_key, next_clip_id, next_id_from, previous_clip_id, previous_id,
    put_boundary, set_boundary,
};
use crate::clip::{
    add_effect, clip_id, clip_montage, drop_effect, effect_of, id_of, set_effect, with_clip_montage,
    with_effect, with_sole_effect, without_effect,
};
use crate::edit::{
    montage_of, track_at, track_named, track_with_clip, with_clip, with_montage, with_track,
};
use crate::effects::{AUDIO_FADE, AUDIO_FX, SPEED, SYNC_GROUP, VOLUME};
use crate::error::{bad, checks, invalid, invalid_str, shows, ApplyError, Done, Refusal};
use crate::locate::{find_clip, found_clip};
use crate::meta::{lookup, number_meta, put, Meta, MetaMap, MetaValue, Pairs};
use crate::model::{
    opt, AudioRange, Clip, ClipAudioOverride, ClipAudioOverrideModel, ClipLocator, ClipModel,
    Effect, MontageClipMetadataModel, MontageTimelineMetadataModel, SemanticCutSpec,
    SemanticCutSpecModel, SplitEditSpec, SplitEditSpecModel, Stored, Timeline, TimelineModel, Track,
    TrackChild, TrackKind, TrackModel,
};
use crate::move_clip::{apply_move_clip_to_time, moved_to_time};
use crate::num::{one, zero, Num};
use crate::op::{AudioFxConfig, EqBand};
use crate::text::{
    blank, cat2, cat3, cat4, cat5, cat6, cat7, fix3, fixed, is_blank, milli3, quote, quoted, show,
    shown, to_fixed, truth, truth_word, Str,
};
use crate::trim::or_else;

verus! {

// ---- clips ----------------------------------------------------------------

/// Setting the loudness of a clip.
pub open spec fn volume_set(tl: TimelineModel, index: usize, value: Num, locator: Option<ClipLocator>) -> Done {
    if !value.is_finite() || value.less(zero()) {
        Err(bad(index, "set_volume: value "@ + shown(value) + " must be finite and >= 0.0"@))
    } else {
        match found_clip(tl, index, locator, "set_volume: "@) {
            Err(e) => Err(e),
            Ok((loc, c)) => Ok(
                (
                    with_clip(
                        tl,
                        loc,
                        with_sole_effect(
                            c,
                            effect_of(
                                VOLUME@,
                                put(Seq::empty(), "value"@, number_meta(value)),
                            ),
                        ),
                    ),
                    "set volume on clip "@ + quoted(c.name) + " to "@ + milli3(value)
                        + " (linear gain)"@,
                ),
            ),
        }
    }
}

/// Sets the loudness of a clip.
pub fn apply_set_volume(working: Timeline, index: usize, value: Num, locator: Option<ClipLocator>) -> (r:
    Result<(Timeline, String), ApplyError>)
    ensures
        shows(r, volume_set(working@, index, value, locator)),
{
    if !value.is_finite() || value.less(zero()) {
        return Err(
            invalid(
                index,
                cat3("set_volume: value ", show(value).as_str(), " must be finite and >= 0.0"),
            ),
        );
    }
    let (loc, c) = match find_clip(&working, index, locator, "set_volume: ") {
        Ok(p) => p,
        Err(e) => {
            return Err(e);
        },
    };
    let said = cat5(
        "set volume on clip ",
        quote(c.name.as_str()).as_str(),
        " to ",
        fix3(value).as_str(),
        " (linear gain)",
    );
    let mut c = c;
    set_effect(
        &mut c,
        Effect::new(VOLUME, MetaMap::new().with("value", MetaValue::number(value))),
    );
    let mut out = working;
    out.put_clip(loc, c);
    Ok((out, said))
}

/// No change to a clip's sound.
pub open spec fn no_override() -> ClipAudioOverrideModel {
    ClipAudioOverrideModel { muted: false, removed_ranges: Seq::empty() }
}

/// What is taken out of a clip's sound, nothing where nothing is kept of it.
pub open spec fn override_of(c: ClipModel) -> ClipAudioOverrideModel {
    match clip_montage(c).audio_override {
        Some(o) => o,
        None => no_override(),
    }
}

/// The clip with other sound taken out; nothing is kept of an override that does
/// nothing.
pub open spec fn with_override(c: ClipModel, o: ClipAudioOverrideModel) -> ClipModel {
    with_clip_montage(
        c,
        MontageClipMetadataModel {
            audio_override: if !o.muted && o.removed_ranges.len() == 0 {
                None
            } else {
                Some(o)
            },
            ..clip_montage(c)
        },
    )
}

fn get_override(c: &Clip) -> (r: ClipAudioOverride)
    ensures
        r@ == override_of(c@),
{
    match &c.metadata.montage {
        Some(m) => match &m.audio_override {
            Some(o) => o.copied(),
            None => ClipAudioOverride { muted: false, removed_ranges: Vec::new() },
        },
        None => ClipAudioOverride { muted: false, removed_ranges: Vec::new() },
    }
}

fn put_override(c: &mut Clip, o: ClipAudioOverride)
    ensures
        final(c)@ == with_override(old(c)@, o@),
{
    let mut m = c.montage();
    m.audio_override = if !o.muted && o.removed_ranges.len() == 0 {
        None
    } else {
        Some(o)
    };
    c.put_montage(m);
}

/// Muting or unmuting a clip.
pub open spec fn clip_muted(tl: TimelineModel, index: usize, muted: bool, locator: Option<ClipLocator>) -> Done {
    match found_clip(tl, index, locator, "mute_clip: "@) {
        Err(e) => Err(e),
        Ok((loc, c)) => Ok(
            (
                with_clip(
                    tl,
                    loc,
                    with_override(c, ClipAudioOverrideModel { muted, ..override_of(c) }),
                ),
                (if muted {
                    "muted"@
                } else {
                    "unmuted"@
                }) + " audio on clip "@ + quoted(c.name) + " (picture kept)"@,
            ),
        ),
    }
}

/// Mutes or unmutes a clip.
pub fn apply_mute_clip(working: Timeline, index: usize, muted: bool, locator: Option<ClipLocator>) -> (r:
    Result<(Timeline, String), ApplyError>)
    ensures
        shows(r, clip_muted(working@, index, muted, locator)),
{
    let (loc, c) = match find_clip(&working, index, locator, "mute_clip: ") {
        Ok(p) => p,
        Err(e) => {
            return Err(e);
        },
    };
    let said = cat4(
        if muted {
            "muted"
        } else {
            "unmuted"
        },
        " audio on clip ",
        quote(c.name.as_str()).as_str(),
        " (picture kept)",
    );
    let mut c = c;
    let mut o = get_override(&c);
    o.muted = muted;
    put_override(&mut c, o);
    let mut out = working;
    out.put_clip(loc, c);
    Ok((out, said))
}

/// Taking a stretch out of a clip's sound, or putting all of it back.
pub open spec fn audio_removed(
    tl: TimelineModel,
    index: usize,
    start_s: Option<Num>,
    end_s: Option<Num>,
    clear: bool,
    locator: Option<ClipLocator>,
) -> Done {
    match found_clip(tl, index, locator, "remove_audio: "@) {
        Err(e) => Err(e),
        Ok((loc, c)) => if clear {
            Ok(
                (
                    with_clip(
                        tl,
                        loc,
                        match clip_montage(c).audio_override {
                            Some(o) => with_override(
                                c,
                                ClipAudioOverrideModel { removed_ranges: Seq::empty(), ..o },
                            ),
                            None => with_clip_montage(c, clip_montage(c)),
                        },
                    ),
                    "cleared audio removals on clip "@ + quoted(c.name),
                ),
            )
        } else if start_s is None || end_s is None {
            Err(
                bad(
                    index,
                    "remove_audio: start_s and end_s are required unless clear:true"@,
                ),
            )
        } else {
            let a = start_s->0;
            let b = end_s->0;
            if !a.is_finite() || !b.is_finite() || a.less(zero()) || b.at_most(a) {
                Err(
                    bad(
                        index,
                        "remove_audio: need finite 0 <= start_s < end_s (got "@ + shown(a) + ".."@
                            + shown(b) + ")"@,
                    ),
                )
            } else {
                let o = override_of(c);
                Ok(
                    (
                        with_clip(
                            tl,
                            loc,
                            with_override(
                                c,
                                ClipAudioOverrideModel {
                                    removed_ranges: o.removed_ranges.push(
                                        AudioRange { start_s: a, end_s: b },
                                    ),
                                    ..o
                                },
                            ),
                        ),
                        "removed audio "@ + milli3(a) + ".."@ + milli3(b) + "s on clip "@ + quoted(
                            c.name,
                        ) + " (picture kept)"@,
                    ),
                )
            }
        },
    }
}

/// Takes a stretch out of a clip's sound, or puts all of it back.
pub fn apply_remove_audio(
    working: Timeline,
    index: usize,
    start_s: Option<Num>,
    end_s: Option<Num>,
    clear: bool,
    locator: Option<ClipLocator>,
) -> (r: Result<(Timeline, String), ApplyError>)
    ensures
        shows(r, audio_removed(working@, index, start_s, end_s, clear, locator)),
{
    let (loc, c) = match find_clip(&working, index, locator, "remove_audio: ") {
        Ok(p) => p,
        Err(e) => {
            return Err(e);
        },
    };
    let mut c = c;
    let mut out = working;
    if clear {
        let said = cat2("cleared audio removals on clip ", quote(c.name.as_str()).as_str());
        let m = c.montage();
        if m.audio_override.is_some() {
            let mut o = get_override(&c);
            o.removed_ranges = Vec::new();
            put_override(&mut c, o);
        } else {
            c.put_montage(m);
        }
        out.put_clip(loc, c);
        return Ok((out, said));
    }
    let (a, b) = match (start_s, end_s) {
        (Some(a), Some(b)) => (a, b),
        _ => {
            return Err(
                invalid_str(
                    index,
                    "remove_audio: start_s and end_s are required unless clear:true",
                ),
            );
        },
    };
    if !a.is_finite() || !b.is_finite() || a.less(zero()) || b.at_most(a) {
        return Err(
            invalid(
                index,
                cat5(
                    "remove_audio: need finite 0 <= start_s < end_s (got ",
                    show(a).as_str(),
                    "..",
                    show(b).as_str(),
                    ")",
                ),
            ),
        );
    }
    let said = cat7(
        "removed audio ",
        fix3(a).as_str(),
        "..",
        fix3(b).as_str(),
        "s on clip ",
        quote(c.name.as_str()).as_str(),
        " (picture kept)",
    );
    let mut o = get_override(&c);
    o.removed_ranges.push(AudioRange { start_s: a, end_s: b });
    put_override(&mut c, o);
    out.put_clip(loc, c);
    Ok((out, said))
}

/// Fading a clip's sound in and out.
pub open spec fn fade_set(
    tl: TimelineModel,
    index: usize,
    fade_in_s: Option<Num>,
    fade_out_s: Option<Num>,
    locator: Option<ClipLocator>,
) -> Done {
    let a = or_else(fade_in_s, zero());
    let b = or_else(fade_out_s, zero());
    if !a.is_finite() || !b.is_finite() || a.less(zero()) || b.less(zero()) {
        Err(
            bad(
                index,
                "set_audio_fade: fade_in_s "@ + shown(a) + " and fade_out_s "@ + shown(b)
                    + " must be finite and >= 0.0"@,
            ),
        )
    } else {
        match found_clip(tl, index, locator, "set_audio_fade: "@) {
            Err(e) => Err(e),
            Ok((loc, c)) => {
                let m = put(
                    put(Seq::empty(), "fade_in_s"@, number_meta(a)),
                    "fade_out_s"@,
                    number_meta(b),
                );
                Ok(
                    (
                        with_clip(tl, loc, with_sole_effect(c, effect_of(AUDIO_FADE@, m))),
                        "set audio fade on clip "@ + quoted(c.name) + ": in="@ + milli3(a)
                            + "s out="@ + milli3(b) + "s"@,
                    ),
                )
            },
        }
    }
}

/// Fades a clip's sound in and out.
pub fn apply_set_audio_fade(
    working: Timeline,
    index: usize,
    fade_in_s: Option<Num>,
    fade_out_s: Option<Num>,
    locator: Option<ClipLocator>,
) -> (r: Result<(Timeline, String), ApplyError>)
    ensures
        shows(r, fade_set(working@, index, fade_in_s, fade_out_s, locator)),
{
    let a = or_else(fade_in_s, zero());
    let b = or_else(fade_out_s, zero());
    if !a.is_finite() || !b.is_finite() || a.less(zero()) || b.less(zero()) {
        return Err(
            invalid(
                index,
                cat5(
                    "set_audio_fade: fade_in_s ",
                    show(a).as_str(),
                    " and fade_out_s ",
                    show(b).as_str(),
                    " must be finite and >= 0.0",
                ),
            ),
        );
    }
    let (loc, c) = match find_clip(&working, index, locator, "set_audio_fade: ") {
        Ok(p) => p,
        Err(e) => {
            return Err(e);
        },
    };
    let said = cat7(
        "set audio fade on clip ",
        quote(c.name.as_str()).as_str(),
        ": in=",
        fix3(a).as_str(),
        "s out=",
        fix3(b).as_str(),
        "s",
    );
    let mut c = c;
    let m = MetaMap::new().with("fade_in_s", MetaValue::number(a)).with(
        "fade_out_s",
        MetaValue::number(b),
    );
    set_effect(&mut c, Effect::new(AUDIO_FADE, m));
    let mut out = working;
    out.put_clip(loc, c);
    Ok((out, said))
}

// ---- split edits ----------------------------------------------------------

/// Which way a split edit goes.
#[derive(Clone, Copy, Debug, PartialEq, Eq, Structural)]
pub enum SplitEditKind {
    /// The clip's sound begins before its picture.
    AudioLead,
    /// The clip's sound ends after its picture.
    AudioTrail,
}

/// A split edit that says nothing.
pub open spec fn no_split() -> SplitEditSpecModel {
    SplitEditSpecModel {
        audio_lead_s: None,
        audio_lead_from_clip_id: None,
        audio_trail_s: None,
        audio_trail_to_clip_id: None,
        reason: None,
        confidence: None,
    }
}

/// The value that a given spec carries.
pub open spec fn given_or(given: Option<SplitEditSpecModel>) -> SplitEditSpecModel {
    match given {
        Some(g) => g,
        None => no_split(),
    }
}

/// A split edit with one side set, and what else the given spec carries.
pub open spec fn split_with(
    old_: Option<SplitEditSpecModel>,
    kind: SplitEditKind,
    offset_s: Num,
    given: Option<SplitEditSpecModel>,
    previous: Option<Str>,
    next: Option<Str>,
) -> SplitEditSpecModel {
    let s = given_or(old_);
    let g = given_or(given);
    let lead_s = match kind {
        SplitEditKind::AudioLead => Some(offset_s),
        SplitEditKind::AudioTrail => g.audio_lead_s,
    };
    let trail_s = match kind {
        SplitEditKind::AudioLead => g.audio_trail_s,
        SplitEditKind::AudioTrail => Some(offset_s),
    };
    SplitEditSpecModel {
        audio_lead_s: if lead_s is Some {
            lead_s
        } else {
            s.audio_lead_s
        },
        audio_lead_from_clip_id: if lead_s is Some {
            previous
        } else {
            s.audio_lead_from_clip_id
        },
        audio_trail_s: if trail_s is Some {
            trail_s
        } else {
            s.audio_trail_s
        },
        audio_trail_to_clip_id: if trail_s is Some {
            next
        } else {
            s.audio_trail_to_clip_id
        },
        reason: if g.reason is Some {
            g.reason
        } else {
            s.reason
        },
        confidence: if g.confidence is Some {
            g.confidence
        } else {
            s.confidence
        },
    }
}

fn empty_split() -> (r: SplitEditSpec)
    ensures
        r@ == no_split(),
{
    SplitEditSpec {
        audio_lead_s: None,
        audio_lead_from_clip_id: None,
        audio_trail_s: None,
        audio_trail_to_clip_id: None,
        reason: None,
        confidence: None,
    }
}

fn copy_split(s: &Option<SplitEditSpec>) -> (r: SplitEditSpec)
    ensures
        r@ == given_or(opt(*s)),
{
    match s {
        Some(g) => g.copied(),
        None => empty_split(),
    }
}

fn make_split(
    old_: &Option<SplitEditSpec>,
    kind: SplitEditKind,
    offset_s: Num,
    given: &Option<SplitEditSpec>,
    previous: Option<String>,
    next: Option<String>,
) -> (r: SplitEditSpec)
    ensures
        r@ == split_with(opt(*old_), kind, offset_s, opt(*given), opt(previous), opt(next)),
{
    let mut s = copy_split(old_);
    let g = copy_split(given);
    let lead_s = match kind {
        SplitEditKind::AudioLead => Some(offset_s),
        SplitEditKind::AudioTrail => g.audio_lead_s,
    };
    let trail_s = match kind {
        SplitEditKind::AudioLead => g.audio_trail_s,
        SplitEditKind::AudioTrail => Some(offset_s),
    };
    if lead_s.is_some() {
        s.audio_lead_s = lead_s;
        s.audio_lead_from_clip_id = previous;
    }
    if trail_s.is_some() {
        s.audio_trail_s = trail_s;
        s.audio_trail_to_clip_id = next;
    }
    if g.reason.is_some() {
        s.reason = g.reason;
    }
    if g.confidence.is_some() {
        s.confidence = g.confidence;
    }
    s
}

/// What the cut at a split edit is said to do.
pub open spec fn split_cut(kind: SplitEditKind, offset_s: Num, given: Option<SplitEditSpecModel>) -> SemanticCutSpecModel {
    let g = given_or(given);
    SemanticCutSpecModel {
        cut_type: match kind {
            SplitEditKind::AudioLead => "JCut"@,
            SplitEditKind::AudioTrail => "LCut"@,
        },
        intent: match kind {
            SplitEditKind::AudioLead => "audio_lead"@,
            SplitEditKind::AudioTrail => "audio_trail"@,
        },
        energy: None,
        audio_relation: match kind {
            SplitEditKind::AudioLead => "AudioLeads"@,
            SplitEditKind::AudioTrail => "AudioTrails"@,
        },
        confidence: g.confidence,
        reason: if g.reason is Some {
            g.reason
        } else {
            Some(
                (match kind {
                    SplitEditKind::AudioLead => "Incoming audio leads picture by"@,
                    SplitEditKind::AudioTrail => "Outgoing audio trails picture by"@,
                }) + " "@ + milli3(offset_s) + "s"@,
            )
        },
        extra: Seq::empty(),
    }
}

fn make_split_cut(kind: SplitEditKind, offset_s: Num, given: &Option<SplitEditSpec>) -> (r:
    SemanticCutSpec)
    ensures
        r@ == split_cut(kind, offset_s, opt(*given)),
{
    let g = copy_split(given);
    let lead = match kind {
        SplitEditKind::AudioLead => true,
        SplitEditKind::AudioTrail => false,
    };
    let reason = match g.reason {
        Some(t) => Some(t),
        None => Some(
            cat4(
                if lead {
                    "Incoming audio leads picture by"
                } else {
                    "Outgoing audio trails picture by"
                },
                " ",
                fix3(offset_s).as_str(),
                "s",
            ),
        ),
    };
    SemanticCutSpec {
        cut_type: if lead {
            "JCut".to_owned()
        } else {
            "LCut".to_owned()
        },
        intent: if lead {
            "audio_lead".to_owned()
        } else {
            "audio_trail".to_owned()
        },
        energy: None,
        audio_relation: if lead {
            "AudioLeads".to_owned()
        } else {
            "AudioTrails".to_owned()
        },
        confidence: g.confidence,
        reason,
        extra: MetaMap::new(),
    }
}

/// The key of the cut at a split edit, where a clip is on the other side.
pub open spec fn split_cut_key(t: TrackModel, j: int, id: Str, kind: SplitEditKind) -> Option<Str> {
    match kind {
        SplitEditKind::AudioLead => match previous_id(t.children, j) {
            Some(p) => Some(boundary_key(p, id)),
            None => None,
        },
        SplitEditKind::AudioTrail => match next_id_from(t.children, j + 1) {
            Some(n) => Some(boundary_key(id, n)),
            None => None,
        },
    }
}

/// The timeline with what the cut at a split edit does.
pub open spec fn with_split_cut(
    tl: TimelineModel,
    loc: ClipLocator,
    id: Str,
    kind: SplitEditKind,
    offset_s: Num,
    given: Option<SplitEditSpecModel>,
) -> TimelineModel {
    match split_cut_key(
        track_at(tl, loc.track_index as int)->0,
        loc.child_index as int,
        id,
        kind,
    ) {
        None => tl,
        Some(key) => {
            let m = montage_of(tl);
            with_montage(
                tl,
                MontageTimelineMetadataModel {
                    cut_boundaries: put_boundary(
                        m.cut_boundaries,
                        key,
                        split_cut(kind, offset_s, given),
                    ),
                    ..m
                },
            )
        },
    }
}

/// Letting a clip's sound lead or trail its picture.
pub open spec fn split_edit_set(
    tl: TimelineModel,
    index: usize,
    offset_s: Num,
    kind: SplitEditKind,
    given: Option<SplitEditSpecModel>,
    locator: Option<ClipLocator>,
) -> Done {
    if !offset_s.is_finite() || offset_s.less(zero()) {
        Err(
            bad(
                index,
                "split edit offset "@ + shown(offset_s) + " must be finite and >= 0.0"@,
            ),
        )
    } else if given_or(given).confidence matches Some(x) && !x.in_unit_interval() {
        Err(
            bad(
                index,
                "split edit confidence "@ + shown(given_or(given).confidence->0)
                    + " must be in [0, 1]"@,
            ),
        )
    } else {
        match found_clip(tl, index, locator, "split edit: "@) {
            Err(e) => Err(e),
            Ok((loc, c)) => {
                let i = loc.track_index as int;
                let j = loc.child_index as int;
                let t = track_at(tl, i)->0;
                let m = clip_montage(c);
                let s = split_with(
                    m.split_edit,
                    kind,
                    offset_s,
                    given,
                    previous_id(t.children, j),
                    next_id_from(t.children, j + 1),
                );
                let stamped = with_clip(
                    tl,
                    loc,
                    with_clip_montage(c, MontageClipMetadataModel { split_edit: Some(s), ..m }),
                );
                Ok(
                    (
                        with_split_cut(stamped, loc, id_of(c), kind, offset_s, given),
                        "set "@ + (match kind {
                            SplitEditKind::AudioLead => "audio lead"@,
                            SplitEditKind::AudioTrail => "audio trail"@,
                        }) + " on clip "@ + quoted(c.name) + ": "@ + milli3(offset_s) + "s"@,
                    ),
                )
            },
        }
    }
}

fn stamp_split_edit_cut_boundary(
    working: Timeline,
    loc: ClipLocator,
    id: &str,
    kind: SplitEditKind,
    offset_s: Num,
    given: &Option<SplitEditSpec>,
) -> (r: Timeline)
    requires
        track_at(working@, loc.track_index as int) is Some,
        loc.child_index < track_at(working@, loc.track_index as int)->0.children.len(),
    ensures
        r@ == with_split_cut(working@, loc, id@, kind, offset_s, opt(*given)),
{
    let key = match working.track(loc.track_index) {
        None => None,
        Some(t) => match kind {
            SplitEditKind::AudioLead => match previous_clip_id(t, loc.child_index) {
                Some(p) => Some(cut_boundary_key(p.as_str(), id)),
                None => None,
            },
            SplitEditKind::AudioTrail => match next_clip_id(t, loc.child_index) {
                Some(n) => Some(cut_boundary_key(id, n.as_str())),
                None => None,
            },
        },
    };
    let mut out = working;
    if let Some(key) = key {
        let mut m = out.take_montage();
        set_boundary(
            &mut m.cut_boundaries,
            key.as_str(),
            make_split_cut(kind, offset_s, given),
        );
        out.put_montage(m);
    }
    out
}

/// Lets a clip's sound lead or trail its picture.
pub fn apply_split_edit_offset(
    working: Timeline,
    index: usize,
    offset_s: Num,
    kind: SplitEditKind,
    given: &Option<SplitEditSpec>,
    locator: Option<ClipLocator>,
) -> (r: Result<(Timeline, String), ApplyError>)
    ensures
        shows(r, split_edit_set(working@, index, offset_s, kind, opt(*given), locator)),
{
    if !offset_s.is_finite() || offset_s.less(zero()) {
        return Err(
            invalid(
                index,
                cat3(
                    "split edit offset ",
                    show(offset_s).as_str(),
                    " must be finite and >= 0.0",
                ),
            ),
        );
    }
    let given_confidence = match given {
        Some(g) => g.confidence,
        None => None,
    };
    if let Some(x) = given_confidence {
        if !x.in_unit_interval() {
            return Err(
                invalid(
                    index,
                    cat3("split edit confidence ", show(x).as_str(), " must be in [0, 1]"),
                ),
            );
        }
    }
    let (loc, c) = match find_clip(&working, index, locator, "split edit: ") {
        Ok(p) => p,
        Err(e) => {
            return Err(e);
        },
    };
    let (previous, next) = match working.track(loc.track_index) {
        Some(t) => (previous_clip_id(t, loc.child_index), next_clip_id(t, loc.child_index)),
        None => (None, None),
    };
    let id = clip_id(&c);
    let said = cat6(
        "set ",
        match kind {
            SplitEditKind::AudioLead => "audio lead",
            SplitEditKind::AudioTrail => "audio trail",
        },
        " on clip ",
        quote(c.name.as_str()).as_str(),
        ": ",
        fix3(offset_s).as_str(),
    );
    let mut c = c;
    let mut m = c.montage();
    m.split_edit = Some(make_split(&m.split_edit, kind, offset_s, given, previous, next));
    c.put_montage(m);
    let mut out = working;
    out.put_clip(loc, c);
    let out = stamp_split_edit_cut_boundary(out, loc, id.as_str(), kind, offset_s, given);
    Ok((out, cat2(said.as_str(), "s")))
}

// ---- tracks ---------------------------------------------------------------

/// The key of a track's sound controls.
pub const AUDIO_TRACK_METADATA_KEY: &'static str = "montage_audio";

/// The sound track of a name; `who` stands in front of the messages.
pub open spec fn sound_track(tl: TimelineModel, index: usize, name: Str, who: Str) -> Result<
    (int, TrackModel),
    Refusal,
> {
    match track_named(tl, name) {
        None => Err(bad(index, who + ": track "@ + quoted(name) + " not found"@)),
        Some(i) => if track_at(tl, i)->0.kind != TrackKind::Audio {
            Err(bad(index, who + ": track "@ + quoted(name) + " is not an audio track"@))
        } else {
            Ok((i, track_at(tl, i)->0))
        },
    }
}

fn find_sound_track(working: &Timeline, index: usize, name: &str, who: &str) -> (r: Result<
    (usize, Track),
    ApplyError,
>)
    ensures
        match r {
            Ok(p) => sound_track(working@, index, name@, who@) == Ok::<(int, TrackModel), Refusal>(
                (p.0 as int, p.1@),
            ) && p.0 < working@.tracks.children.len(),
            Err(e) => sound_track(working@, index, name@, who@) == Err::<
                (int, TrackModel),
                Refusal,
            >(e@),
        },
{
    let missing = cat4(who, ": track ", quote(name).as_str(), " not found");
    match working.find_track(name) {
        None => Err(invalid(index, missing)),
        Some(i) => match working.track(i) {
            None => Err(invalid(index, missing)),
            Some(t) => if t.kind != TrackKind::Audio {
                Err(
                    invalid(
                        index,
                        cat4(who, ": track ", quote(name).as_str(), " is not an audio track"),
                    ),
                )
            } else {
                Ok((i, t.copied()))
            },
        },
    }
}

/// A track's sound controls, where they are a map.
pub open spec fn sound_controls(t: TrackModel) -> Option<Pairs> {
    match lookup(t.metadata, AUDIO_TRACK_METADATA_KEY@) {
        None => Some(Seq::empty()),
        Some(Meta::Object(m)) => Some(m),
        _ => None,
    }
}

/// The track with other sound controls.
pub open spec fn with_controls(t: TrackModel, m: Pairs) -> TrackModel {
    TrackModel {
        metadata: put(t.metadata, AUDIO_TRACK_METADATA_KEY@, Meta::Object(m)),
        ..t
    }
}

/// The refusal where a track's sound controls are no map.
pub open spec fn no_controls(index: usize, who: Str) -> Refusal {
    bad(
        index,
        who + ": existing "@ + AUDIO_TRACK_METADATA_KEY@ + " metadata is not an object"@,
    )
}

fn get_controls(t: &Track) -> (r: Option<MetaMap>)
    ensures
        opt(r) == sound_controls(t@),
{
    match t.metadata.get(AUDIO_TRACK_METADATA_KEY) {
        None => Some(MetaMap::new()),
        Some(MetaValue::Object(m)) => Some(m.copied()),
        _ => None,
    }
}

fn put_controls(t: &mut Track, m: MetaMap)
    ensures
        final(t)@ == with_controls(old(t)@, m@),
{
    let ghost before = t@;
    t.metadata.insert(AUDIO_TRACK_METADATA_KEY, MetaValue::Object(m));
    assert(t@.children =~= before.children);
}

fn refuse_controls(index: usize, who: &str) -> (r: ApplyError)
    ensures
        r@ == no_controls(index, who@),
{
    invalid(
        index,
        cat4(who, ": existing ", AUDIO_TRACK_METADATA_KEY, " metadata is not an object"),
    )
}

/// The map with a value, where there is one.
pub open spec fn put_opt(m: Pairs, key: Str, value: Option<Meta>) -> Pairs {
    match value {
        Some(v) => put(m, key, v),
        None => m,
    }
}

/// A text as a value, where there is one.
pub open spec fn text_opt(s: Option<Str>) -> Option<Meta> {
    match s {
        Some(t) => Some(Meta::Text(t)),
        None => None,
    }
}

/// A number as a value, where there is one.
pub open spec fn number_opt(x: Option<Num>) -> Option<Meta> {
    match x {
        Some(n) => Some(number_meta(n)),
        None => None,
    }
}

/// A truth value as a value, where there is one.
pub open spec fn bool_opt(b: Option<bool>) -> Option<Meta> {
    match b {
        Some(x) => Some(Meta::Bool(x)),
        None => None,
    }
}

/// Setting the sound controls of a track.
pub open spec fn track_audio_set(
    tl: TimelineModel,
    index: usize,
    name: Str,
    role: Option<Str>,
    volume: Option<Num>,
    muted: Option<bool>,
    solo: Option<bool>,
) -> Done {
    if volume is Some && (!volume->0.is_finite() || volume->0.less(zero())) {
        Err(
            bad(
                index,
                "set_track_audio: volume "@ + shown(volume->0) + " must be finite and >= 0.0"@,
            ),
        )
    } else {
        match sound_track(tl, index, name, "set_track_audio"@) {
            Err(e) => Err(e),
            Ok((i, t)) => match sound_controls(t) {
                None => Err(no_controls(index, "set_track_audio"@)),
                Some(m) => {
                    let m = put_opt(m, "role"@, text_opt(role));
                    let m = put_opt(m, "volume"@, number_opt(volume));
                    let m = put_opt(m, "muted"@, bool_opt(muted));
                    let m = put_opt(m, "solo"@, bool_opt(solo));
                    Ok(
                        (
                            with_track(tl, i, with_controls(t, m)),
                            "set audio controls on track "@ + quoted(name),
                        ),
                    )
                },
            },
        }
    }
}

/// Sets the sound controls of a track.
pub fn apply_set_track_audio(
    working: Timeline,
    index: usize,
    name: &str,
    role: &Option<String>,
    volume: Option<Num>,
    muted: Option<bool>,
    solo: Option<bool>,
) -> (r: Result<(Timeline, String), ApplyError>)
    ensures
        shows(
            r,
            track_audio_set(working@, index, name@, opt(*role), volume, muted, solo),
        ),
{
    if let Some(v) = volume {
        if !v.is_finite() || v.less(zero()) {
            return Err(
                invalid(
                    index,
                    cat3(
                        "set_track_audio: volume ",
                        show(v).as_str(),
                        " must be finite and >= 0.0",
                    ),
                ),
            );
        }
    }
    let (i, t) = match find_sound_track(&working, index, name, "set_track_audio") {
        Ok(p) => p,
        Err(e) => {
            return Err(e);
        },
    };
    let mut m = match get_controls(&t) {
        Some(m) => m,
        None => {
            return Err(refuse_controls(index, "set_track_audio"));
        },
    };
    if let Some(s) = role {
        m.insert("role", MetaValue::text(s.as_str()));
    }
    if let Some(v) = volume {
        m.insert("volume", MetaValue::number(v));
    }
    if let Some(b) = muted {
        m.insert("muted", MetaValue::Bool(b));
    }
    if let Some(b) = solo {
        m.insert("solo", MetaValue::Bool(b));
    }
    let mut t = t;
    put_controls(&mut t, m);
    let mut out = working;
    out.put_track(i, t);
    Ok((out, cat2("set audio controls on track ", quote(name).as_str())))
}

/// How far a track is turned down under speech, in tenths of a bel, where
/// nothing is said.
#[verifier::allow_in_spec]
pub fn default_amount_db() -> Num
    returns
        Num::Fin(-12_000_000_000_000_000 as i128),
{
    Num::Fin(-12_000_000_000_000_000)
}

/// How fast a track is turned down, in milliseconds, where nothing is said.
#[verifier::allow_in_spec]
pub fn default_attack_ms() -> Num
    returns
        Num::Fin(80_000_000_000_000_000),
{
    Num::Fin(80_000_000_000_000_000)
}

/// How fast a track is turned up again, in milliseconds, where nothing is said.
#[verifier::allow_in_spec]
pub fn default_release_ms() -> Num
    returns
        Num::Fin(300_000_000_000_000_000),
{
    Num::Fin(300_000_000_000_000_000)
}

/// Turning a track down under speech.
pub open spec fn ducking_set(
    tl: TimelineModel,
    index: usize,
    name: Str,
    enabled: Option<bool>,
    amount_db: Option<Num>,
    attack_ms: Option<Num>,
    release_ms: Option<Num>,
) -> Done {
    let on = match enabled {
        Some(b) => b,
        None => true,
    };
    let amount = or_else(amount_db, default_amount_db());
    let attack = or_else(attack_ms, default_attack_ms());
    let release = or_else(release_ms, default_release_ms());
    if !amount.is_finite() || !attack.is_finite() || !release.is_finite() || attack.less(zero())
        || release.less(zero()) {
        Err(
            bad(
                index,
                "set_ducking: amount_db, attack_ms, and release_ms must be finite; timings must be >= 0.0"@,
            ),
        )
    } else {
        match sound_track(tl, index, name, "set_ducking"@) {
            Err(e) => Err(e),
            Ok((i, t)) => match sound_controls(t) {
                None => Err(no_controls(index, "set_ducking"@)),
                Some(m) => {
                    let d = put(Seq::empty(), "enabled"@, Meta::Bool(on));
                    let d = put(d, "amount_db"@, number_meta(amount));
                    let d = put(d, "attack_ms"@, number_meta(attack));
                    let d = put(d, "release_ms"@, number_meta(release));
                    Ok(
                        (
                            with_track(
                                tl,
                                i,
                                with_controls(t, put(m, "ducking"@, Meta::Object(d))),
                            ),
                            "set ducking on track "@ + quoted(name) + ": enabled="@ + truth(on)
                                + " amount="@ + fixed(amount, 1) + "dB"@,
                        ),
                    )
                },
            },
        }
    }
}

/// Turns a track down under speech.
pub fn apply_set_ducking(
    working: Timeline,
    index: usize,
    name: &str,
    enabled: Option<bool>,
    amount_db: Option<Num>,
    attack_ms: Option<Num>,
    release_ms: Option<Num>,
) -> (r: Result<(Timeline, String), ApplyError>)
    ensures
        shows(
            r,
            ducking_set(working@, index, name@, enabled, amount_db, attack_ms, release_ms),
        ),
{
    let on = match enabled {
        Some(b) => b,
        None => true,
    };
    let amount = or_else(amount_db, default_amount_db());
    let attack = or_else(attack_ms, default_attack_ms());
    let release = or_else(release_ms, default_release_ms());
    if !amount.is_finite() || !attack.is_finite() || !release.is_finite() || attack.less(zero())
        || release.less(zero()) {
        return Err(
            invalid_str(
                index,
                "set_ducking: amount_db, attack_ms, and release_ms must be finite; timings must be >= 0.0",
            ),
        );
    }
    let (i, t) = match find_sound_track(&working, index, name, "set_ducking") {
        Ok(p) => p,
        Err(e) => {
            return Err(e);
        },
    };
    let mut m = match get_controls(&t) {
        Some(m) => m,
        None => {
            return Err(refuse_controls(index, "set_ducking"));
        },
    };
    let d = MetaMap::new().with("enabled", MetaValue::Bool(on)).with(
        "amount_db",
        MetaValue::number(amount),
    ).with("attack_ms", MetaValue::number(attack)).with(
        "release_ms",
        MetaValue::number(release),
    );
    m.insert("ducking", MetaValue::Object(d));
    let mut t = t;
    put_controls(&mut t, m);
    let mut out = working;
    out.put_track(i, t);
    let said = cat7(
        "set ducking on track ",
        quote(name).as_str(),
        ": enabled=",
        truth_word(on),
        " amount=",
        to_fixed(amount, 1).as_str(),
        "dB",
    );
    Ok((out, said))
}

// ---- synchronisation ------------------------------------------------------

/// The least change of speed that counts.
#[verifier::allow_in_spec]
pub fn least_speed_change() -> Num
    returns
        Num::Fin(1_000_000),
{
    Num::Fin(1_000_000)
}

/// The clip with how it is synchronised, and with the speed that this asks for.
pub open spec fn synced_clip(
    c: ClipModel,
    id: Str,
    offset_s: Num,
    speed_factor: Option<Num>,
    confidence: Option<Num>,
) -> ClipModel {
    let m = put(Seq::empty(), "sync_group_id"@, Meta::Text(id));
    let m = put(m, "offset_s"@, number_meta(offset_s));
    let m = put_opt(m, "speed_factor"@, number_opt(speed_factor));
    let m = put_opt(m, "confidence"@, number_opt(confidence));
    let c = without_effect(c, SYNC_GROUP@);
    let c = match speed_factor {
        Some(f) if least_speed_change().less(f.minus(one()).size()) => with_sole_effect(
            c,
            effect_of(SPEED@, put(Seq::empty(), "factor"@, number_meta(f))),
        ),
        _ => c,
    };
    with_effect(c, effect_of(SYNC_GROUP@, m))
}

fn sync_clip(
    c: &mut Clip,
    id: &str,
    offset_s: Num,
    speed_factor: Option<Num>,
    confidence: Option<Num>,
)
    ensures
        final(c)@ == synced_clip(old(c)@, id@, offset_s, speed_factor, confidence),
{
    let mut m = MetaMap::new().with("sync_group_id", MetaValue::text(id)).with(
        "offset_s",
        MetaValue::number(offset_s),
    );
    drop_effect(c, SYNC_GROUP);
    if let Some(f) = speed_factor {
        m.insert("speed_factor", MetaValue::number(f));
        if least_speed_change().less(f.minus(one()).size()) {
            set_effect(
                c,
                Effect::new(SPEED, MetaMap::new().with("factor", MetaValue::number(f))),
            );
        }
    }
    if let Some(x) = confidence {
        m.insert("confidence", MetaValue::number(x));
    }
    add_effect(c, Effect::new(SYNC_GROUP, m));
}

/// Whether a synchronisation is well-formed.
pub open spec fn sync_ok(
    index: usize,
    id: Str,
    offset_s: Num,
    speed_factor: Option<Num>,
    confidence: Option<Num>,
) -> Result<(), Refusal> {
    if is_blank(id) {
        Err(bad(index, "set_sync_group: sync_group_id must not be empty"@))
    } else if !offset_s.is_finite() {
        Err(bad(index, "set_sync_group: offset_s "@ + shown(offset_s) + " must be finite"@))
    } else if speed_factor is Some && (!speed_factor->0.is_finite() || speed_factor->0.at_most(
        zero(),
    )) {
        Err(
            bad(
                index,
                "set_sync_group: speed_factor "@ + shown(speed_factor->0)
                    + " must be finite and > 0.0"@,
            ),
        )
    } else if confidence is Some && !confidence->0.in_unit_interval() {
        Err(
            bad(
                index,
                "set_sync_group: confidence "@ + shown(confidence->0) + " must be in [0, 1]"@,
            ),
        )
    } else {
        Ok(())
    }
}

fn check_sync(
    index: usize,
    id: &str,
    offset_s: Num,
    speed_factor: Option<Num>,
    confidence: Option<Num>,
) -> (r: Result<(), ApplyError>)
    ensures
        checks(r, sync_ok(index, id@, offset_s, speed_factor, confidence)),
{
    if blank(id) {
        return Err(invalid_str(index, "set_sync_group: sync_group_id must not be empty"));
    }
    if !offset_s.is_finite() {
        return Err(
            invalid(
                index,
                cat3("set_sync_group: offset_s ", show(offset_s).as_str(), " must be finite"),
            ),
        );
    }
    if let Some(f) = speed_factor {
        if !f.is_finite() || f.at_most(zero()) {
            return Err(
                invalid(
                    index,
                    cat3(
                        "set_sync_group: speed_factor ",
                        show(f).as_str(),
                        " must be finite and > 0.0",
                    ),
                ),
            );
        }
    }
    if let Some(x) = confidence {
        if !x.in_unit_interval() {
            return Err(
                invalid(
                    index,
                    cat3(
                        "set_sync_group: confidence ",
                        show(x).as_str(),
                        " must be in [0, 1]",
                    ),
                ),
            );
        }
    }
    Ok(())
}

/// Putting a clip in a sync group: it moves to its offset where that is
/// positive.
pub open spec fn sync_set(
    tl: TimelineModel,
    index: usize,
    id: Str,
    offset_s: Num,
    speed_factor: Option<Num>,
    confidence: Option<Num>,
    locator: Option<ClipLocator>,
) -> Done {
    match sync_ok(index, id, offset_s, speed_factor, confidence) {
        Err(e) => Err(e),
        Ok(_) => match found_clip(tl, index, locator, "set_sync_group: "@) {
            Err(e) => Err(e),
            Ok((loc, c)) => {
                let i = loc.track_index as int;
                let j = loc.child_index as int;
                let t = track_with_clip(
                    track_at(tl, i)->0,
                    j,
                    synced_clip(c, id, offset_s, speed_factor, confidence),
                );
                let said = "set sync group "@ + quoted(id) + " on clip "@ + quoted(c.name)
                    + ": offset="@ + milli3(offset_s) + "s"@ + (match speed_factor {
                    Some(v) => " speed_factor="@ + fixed(v, 6),
                    None => ""@,
                }) + (match confidence {
                    Some(v) => " confidence="@ + fixed(v, 2),
                    None => ""@,
                });
                let at = offset_s.larger(zero());
                if zero().less(at) {
                    match moved_to_time(index, t, j, at) {
                        Err(e) => Err(e),
                        Ok((t2, _)) => Ok((with_track(tl, i, t2), said)),
                    }
                } else {
                    Ok((with_track(tl, i, t), said))
                }
            },
        },
    }
}

/// Puts a clip in a sync group.
pub fn apply_set_sync_group(
    working: Timeline,
    index: usize,
    id: &str,
    offset_s: Num,
    speed_factor: Option<Num>,
    confidence: Option<Num>,
    locator: Option<ClipLocator>,
) -> (r: Result<(Timeline, String), ApplyError>)
    ensures
        shows(
            r,
            sync_set(working@, index, id@, offset_s, speed_factor, confidence, locator),
        ),
{
    if let Err(e) = check_sync(index, id, offset_s, speed_factor, confidence) {
        return Err(e);
    }
    let (loc, c) = match find_clip(&working, index, locator, "set_sync_group: ") {
        Ok(p) => p,
        Err(e) => {
            return Err(e);
        },
    };
    let speed_note = match speed_factor {
        Some(v) => cat2(" speed_factor=", to_fixed(v, 6).as_str()),
        None => "".to_owned(),
    };
    let confidence_note = match confidence {
        Some(v) => cat2(" confidence=", to_fixed(v, 2).as_str()),
        None => "".to_owned(),
    };
    let said = cat7(
        "set sync group ",
        quote(id).as_str(),
        " on clip ",
        quote(c.name.as_str()).as_str(),
        ": offset=",
        fix3(offset_s).as_str(),
        "s",
    );
    let said = cat3(said.as_str(), speed_note.as_str(), confidence_note.as_str());
    let mut c = c;
    sync_clip(&mut c, id, offset_s, speed_factor, confidence);
    let mut t = working.track(loc.track_index).unwrap().copied();
    t.put(loc.child_index, TrackChild::Clip(c));
    let at = offset_s.larger(zero());
    let mut out = working;
    if zero().less(at) {
        match apply_move_clip_to_time(index, t, loc.child_index, at) {
            Err(e) => Err(e),
            Ok((t, _)) => {
                out.put_track(loc.track_index, t);
                Ok((out, said))
            },
        }
    } else {
        out.put_track(loc.track_index, t);
        Ok((out, said))
    }
}

// ---- repair ---------------------------------------------------------------

/// Whether a number is missing or finite.
pub open spec fn fine(x: Option<Num>) -> bool {
    x matches Some(v) ==> v.is_finite()
}

fn is_fine(x: Option<Num>) -> (r: bool)
    ensures
        r == fine(x),
{
    match x {
        Some(v) => v.is_finite(),
        None => true,
    }
}

/// Whether all numbers of a band are finite.
pub open spec fn band_fine() -> spec_fn(EqBand) -> bool {
    |b: EqBand| b.freq_hz.is_finite() && b.gain_db.is_finite() && fine(b.width_hz)
}

/// Whether nothing is asked for.
pub open spec fn nothing_asked(fx: AudioFxConfig) -> bool {
    &&& fx.high_pass_hz is None
    &&& fx.low_pass_hz is None
    &&& fx.compressor_threshold_db is None
    &&& fx.compressor_ratio is None
    &&& fx.limiter_limit_db is None
    &&& fx.noise_gate_threshold_db is None
    &&& fx.hum_notch_hz is None
    &&& fx.de_ess_hz is None
    &&& fx.de_ess_reduction_db is None
    &&& fx.loudnorm_i is None
    &&& fx.loudnorm_tp is None
    &&& fx.eq_bands@.len() == 0
}

/// The name of the first number that is not finite.
pub open spec fn unfine_name(fx: AudioFxConfig) -> Option<Str> {
    if !fine(fx.high_pass_hz) {
        Some("high_pass_hz"@)
    } else if !fine(fx.low_pass_hz) {
        Some("low_pass_hz"@)
    } else if !fine(fx.compressor_threshold_db) {
        Some("compressor_threshold_db"@)
    } else if !fine(fx.compressor_ratio) {
        Some("compressor_ratio"@)
    } else if !fine(fx.limiter_limit_db) {
        Some("limiter_limit_db"@)
    } else if !fine(fx.noise_gate_threshold_db) {
        Some("noise_gate_threshold_db"@)
    } else if !fine(fx.hum_notch_hz) {
        Some("hum_notch_hz"@)
    } else if !fine(fx.de_ess_hz) {
        Some("de_ess_hz"@)
    } else if !fine(fx.de_ess_reduction_db) {
        Some("de_ess_reduction_db"@)
    } else if !fine(fx.loudnorm_i) {
        Some("loudnorm_i"@)
    } else if !fine(fx.loudnorm_tp) {
        Some("loudnorm_tp"@)
    } else {
        None
    }
}

fn name_unfine(fx: &AudioFxConfig) -> (r: Option<&'static str>)
    ensures
        match r {
            Some(n) => unfine_name(*fx) == Some(n@),
            None => unfine_name(*fx) is None,
        },
{
    if !is_fine(fx.high_pass_hz) {
        Some("high_pass_hz")
    } else if !is_fine(fx.low_pass_hz) {
        Some("low_pass_hz")
    } else if !is_fine(fx.compressor_threshold_db) {
        Some("compressor_threshold_db")
    } else if !is_fine(fx.compressor_ratio) {
        Some("compressor_ratio")
    } else if !is_fine(fx.limiter_limit_db) {
        Some("limiter_limit_db")
    } else if !is_fine(fx.noise_gate_threshold_db) {
        Some("noise_gate_threshold_db")
    } else if !is_fine(fx.hum_notch_hz) {
        Some("hum_notch_hz")
    } else if !is_fine(fx.de_ess_hz) {
        Some("de_ess_hz")
    } else if !is_fine(fx.de_ess_reduction_db) {
        Some("de_ess_reduction_db")
    } else if !is_fine(fx.loudnorm_i) {
        Some("loudnorm_i")
    } else if !is_fine(fx.loudnorm_tp) {
        Some("loudnorm_tp")
    } else {
        None
    }
}

/// Whether a repair asks for something, and for finite numbers only.
pub open spec fn audio_fx_ok(index: usize, label: Str, fx: AudioFxConfig) -> Result<(), Refusal> {
    if nothing_asked(fx) {
        Err(bad(index, label + ": at least one audio FX parameter is required"@))
    } else if unfine_name(fx) is Some {
        Err(bad(index, label + ": "@ + unfine_name(fx)->0 + " must be finite"@))
    } else if !fx.eq_bands@.all(band_fine()) {
        Err(bad(index, label + ": EQ band values must be finite"@))
    } else {
        Ok(())
    }
}

/// Checks a repair.
pub fn validate_audio_fx(index: usize, label: &str, fx: &AudioFxConfig) -> (r: Result<
    (),
    ApplyError,
>)
    ensures
        checks(r, audio_fx_ok(index, label@, *fx)),
{
    if fx.high_pass_hz.is_none() && fx.low_pass_hz.is_none()
        && fx.compressor_threshold_db.is_none() && fx.compressor_ratio.is_none()
        && fx.limiter_limit_db.is_none() && fx.noise_gate_threshold_db.is_none()
        && fx.hum_notch_hz.is_none() && fx.de_ess_hz.is_none() && fx.de_ess_reduction_db.is_none()
        && fx.loudnorm_i.is_none() && fx.loudnorm_tp.is_none() && fx.eq_bands.len() == 0 {
        return Err(
            invalid(index, cat2(label, ": at least one audio FX parameter is required")),
        );
    }
    if let Some(n) = name_unfine(fx) {
        return Err(invalid(index, cat4(label, ": ", n, " must be finite")));
    }
    let mut i: usize = 0;
    while i < fx.eq_bands.len()
        invariant
            i <= fx.eq_bands@.len(),
            !nothing_asked(*fx),
            unfine_name(*fx) is None,
            forall|k: int| 0 <= k < i ==> band_fine()(fx.eq_bands@[k]),
        decreases fx.eq_bands@.len() - i,
    {
        let b = fx.eq_bands[i];
        if !(b.freq_hz.is_finite() && b.gain_db.is_finite() && is_fine(b.width_hz)) {
            assert(!band_fine()(fx.eq_bands@[i as int]));
            return Err(invalid(index, cat2(label, ": EQ band values must be finite")));
        }
        i = i + 1;
    }
    Ok(())
}

/// A repair as it is kept.
pub open spec fn audio_fx_pairs(index: usize, fx: AudioFxConfig) -> Result<Pairs, Refusal> {
    match fx.document@ {
        Meta::Object(m) => Ok(m),
        _ => Err(bad(index, "audio_fx: serialized config was not an object"@)),
    }
}

/// A repair as it is kept.
pub fn audio_fx_metadata(index: usize, fx: &AudioFxConfig) -> (r: Result<MetaMap, ApplyError>)
    ensures
        match r {
            Ok(m) => audio_fx_pairs(index, *fx) == Ok::<Pairs, Refusal>(m@),
            Err(e) => audio_fx_pairs(index, *fx) == Err::<Pairs, Refusal>(e@),
        },
{
    match &fx.document {
        MetaValue::Object(m) => Ok(m.copied()),
        _ => Err(invalid_str(index, "audio_fx: serialized config was not an object")),
    }
}

/// Repairing the sound of a clip.
pub open spec fn clip_fx_set(
    tl: TimelineModel,
    index: usize,
    fx: AudioFxConfig,
    locator: Option<ClipLocator>,
) -> Done {
    match audio_fx_ok(index, "set_clip_audio_fx"@, fx) {
        Err(e) => Err(e),
        Ok(_) => match found_clip(tl, index, locator, "set_clip_audio_fx: "@) {
            Err(e) => Err(e),
            Ok((loc, c)) => match audio_fx_pairs(index, fx) {
                Err(e) => Err(e),
                Ok(m) => Ok(
                    (
                        with_clip(tl, loc, with_sole_effect(c, effect_of(AUDIO_FX@, m))),
                        "set audio FX on clip "@ + quoted(c.name),
                    ),
                ),
            },
        },
    }
}

/// Repairs the sound of a clip.
pub fn apply_set_clip_audio_fx(
    working: Timeline,
    index: usize,
    fx: &AudioFxConfig,
    locator: Option<ClipLocator>,
) -> (r: Result<(Timeline, String), ApplyError>)
    ensures
        shows(r, clip_fx_set(working@, index, *fx, locator)),
{
    if let Err(e) = validate_audio_fx(index, "set_clip_audio_fx", fx) {
        return Err(e);
    }
    let (loc, c) = match find_clip(&working, index, locator, "set_clip_audio_fx: ") {
        Ok(p) => p,
        Err(e) => {
            return Err(e);
        },
    };
    let m = match audio_fx_metadata(index, fx) {
        Ok(m) => m,
        Err(e) => {
            return Err(e);
        },
    };
    let said = cat2("set audio FX on clip ", quote(c.name.as_str()).as_str());
    let mut c = c;
    set_effect(&mut c, Effect::new(AUDIO_FX, m));
    let mut out = working;
    out.put_clip(loc, c);
    Ok((out, said))
}

/// Repairing the sound of a track.
pub open spec fn track_fx_set(tl: TimelineModel, index: usize, name: Str, fx: AudioFxConfig) -> Done {
    match audio_fx_ok(index, "set_track_audio_fx"@, fx) {
        Err(e) => Err(e),
        Ok(_) => match sound_track(tl, index, name, "set_track_audio_fx"@) {
            Err(e) => Err(e),
            Ok((i, t)) => match sound_controls(t) {
                None => Err(no_controls(index, "set_track_audio_fx"@)),
                Some(m) => match audio_fx_pairs(index, fx) {
                    Err(e) => Err(e),
                    Ok(d) => Ok(
                        (
                            with_track(
                                tl,
                                i,
                                with_controls(t, put(m, "fx"@, Meta::Object(d))),
                            ),
                            "set audio FX on track "@ + quoted(name),
                        ),
                    ),
                },
            },
        },
    }
}

/// Repairs the sound of a track.
pub fn apply_set_track_audio_fx(working: Timeline, index: usize, name: &str, fx: &AudioFxConfig) -> (r:
    Result<(Timeline, String), ApplyError>)
    ensures
        shows(r, track_fx_set(working@, index, name@, *fx)),
{
    if let Err(e) = validate_audio_fx(index, "set_track_audio_fx", fx) {
        return Err(e);
    }
    let (i, t) = match find_sound_track(&working, index, name, "set_track_audio_fx") {
        Ok(p) => p,
        Err(e) => {
            return Err(e);
        },
    };
    let mut m = match get_controls(&t) {
        Some(m) => m,
        None => {
            return Err(refuse_controls(index, "set_track_audio_fx"));
        },
    };
    let d = match audio_fx_metadata(index, fx) {
        Ok(d) => d,
        Err(e) => {
            return Err(e);
        },
    };
    m.insert("fx", MetaValue::Object(d));
    let mut t = t;
    put_controls(&mut t, m);
    let mut out = working;
    out.put_track(i, t);
    Ok((out, cat2("set audio FX on track ", quote(name).as_str())))
}

} // verus!

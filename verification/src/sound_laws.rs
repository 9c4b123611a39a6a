//! What edits of a track's sound, and of how clips are synchronised, leave behind.
use vstd::prelude::*;

use crate::audio::{
    audio_fx_ok, clip_fx_set, ducking_set, sync_set, synced_clip, track_audio_set, track_fx_set,
};
use crate::clip::without_effect;
use crate::effect_laws::{gains, lemma_gains, only_clip, tells};
use crate::laws::law_put_then_lookup;
use crate::measures::{has_clip, has_row, law_a_place_is_found, row, the_clip, tick};
use crate::meta::{lookup, put, Meta, Pairs};
use crate::model::{ClipLocator, ClipModel, TimelineModel, TrackChildModel, TrackKind, TrackModel};
use crate::move_clip::moved_to_time;
use crate::num::Num;
use crate::op::AudioFxConfig;
use crate::text::{is_blank, Str};
use crate::track_laws::{first_named, law_first_named_is_found, none_named};
use crate::trim_laws::usable;

verus! {

/// The sound controls that a track carries, where they are a map or missing.
pub open spec fn controls(t: TrackModel) -> Option<Pairs> {
    match lookup(t.metadata, "montage_audio"@) {
        None => Some(Seq::empty()),
        Some(Meta::Object(m)) => Some(m),
        Some(_) => None,
    }
}

/// Whether nothing but the sound controls of one track has changed.
pub open spec fn only_controls(tl: TimelineModel, out: TimelineModel, i: int) -> bool {
    let was = tl.tracks.children[i]->Track_0;
    let now = out.tracks.children[i]->Track_0;
    &&& has_row(out, i)
    &&& out.tracks.children.len() == tl.tracks.children.len()
    &&& forall|s: int|
        0 <= s < tl.tracks.children.len() && s != i ==> #[trigger] out.tracks.children[s]
            == tl.tracks.children[s]
    &&& now.name == was.name
    &&& now.kind == was.kind
    &&& now.children == was.children
    &&& forall|key: Str|
        key != "montage_audio"@ ==> #[trigger] lookup(now.metadata, key) == lookup(
            was.metadata,
            key,
        )
    &&& out.montage == tl.montage
}

/// Whether one control is as was asked, or as it was where nothing was.
pub open spec fn control_is(was: Pairs, now: Pairs, key: Str, asked: Option<Meta>) -> bool {
    match asked {
        Some(v) => lookup(now, key) == Some(v),
        None => lookup(now, key) == lookup(was, key),
    }
}

proof fn lemma_controls(t: TrackModel, m: Pairs)
    ensures
        ({
            let now = crate::audio::with_controls(t, m);
            &&& controls(now) == Some(m)
            &&& forall|key: Str|
                key != "montage_audio"@ ==> #[trigger] lookup(now.metadata, key) == lookup(
                    t.metadata,
                    key,
                )
        }),
{
    let now = crate::audio::with_controls(t, m);
    law_put_then_lookup(t.metadata, "montage_audio"@, Meta::Object(m), "montage_audio"@);
    assert forall|key: Str| key != "montage_audio"@ implies #[trigger] lookup(now.metadata, key)
        == lookup(t.metadata, key) by {
        law_put_then_lookup(t.metadata, "montage_audio"@, Meta::Object(m), key);
    }
}

proof fn lemma_put_opt(m: Pairs, key: Str, value: Option<Meta>, other: Str)
    ensures
        control_is(m, crate::audio::put_opt(m, key, value), key, value),
        other != key ==> lookup(crate::audio::put_opt(m, key, value), other) == lookup(m, other),
{
    if let Some(v) = value {
        law_put_then_lookup(m, key, v, other);
    }
}

proof fn lemma_four_keys()
    ensures
        "role"@ != "volume"@,
        "role"@ != "muted"@,
        "role"@ != "solo"@,
        "volume"@ != "muted"@,
        "volume"@ != "solo"@,
        "muted"@ != "solo"@,
{
    reveal_strlit("role");
    reveal_strlit("volume");
    reveal_strlit("muted");
    reveal_strlit("solo");
    assert("role"@[0] == 'r');
    assert("solo"@[0] == 's');
    assert("role"@.len() == 4);
    assert("volume"@.len() == 6);
    assert("muted"@.len() == 5);
}

/// A number, if any, as it is kept.
pub open spec fn kept_number(x: Option<Num>) -> Option<Meta> {
    match x {
        Some(n) => Some(Meta::Number(n)),
        None => None,
    }
}

/// The sound controls of a track of a name are set as was asked, each that was left
/// open stays as it was, exactly where there is such a track, it is for sound, its
/// controls are a map, and the volume can be counted and is not negative.
pub proof fn law_track_sound_is_what_was_asked(
    tl: TimelineModel,
    index: usize,
    name: Str,
    role: Option<Str>,
    volume: Option<Num>,
    muted: Option<bool>,
    solo: Option<bool>,
    i: int,
)
    requires
        first_named(tl, name, i),
    ensures
        ({
            let t = tl.tracks.children[i]->Track_0;
            match track_audio_set(tl, index, name, role, volume, muted, solo) {
                Ok((out, _)) => {
                    let was = controls(t)->0;
                    let now = controls(out.tracks.children[i]->Track_0)->0;
                    &&& usable(volume)
                    &&& t.kind == TrackKind::Audio
                    &&& controls(t) is Some
                    &&& only_controls(tl, out, i)
                    &&& controls(out.tracks.children[i]->Track_0) is Some
                    &&& control_is(
                        was,
                        now,
                        "role"@,
                        match role {
                            Some(r) => Some(Meta::Text(r)),
                            None => None,
                        },
                    )
                    &&& control_is(was, now, "volume"@, kept_number(volume))
                    &&& control_is(
                        was,
                        now,
                        "muted"@,
                        match muted {
                            Some(b) => Some(Meta::Bool(b)),
                            None => None,
                        },
                    )
                    &&& control_is(
                        was,
                        now,
                        "solo"@,
                        match solo {
                            Some(b) => Some(Meta::Bool(b)),
                            None => None,
                        },
                    )
                },
                Err(_) => !usable(volume) || t.kind != TrackKind::Audio || controls(t) is None,
            }
        }),
{
    law_first_named_is_found(tl, name);
    let t = tl.tracks.children[i]->Track_0;
    if let Ok((out, _)) = track_audio_set(tl, index, name, role, volume, muted, solo) {
        lemma_four_keys();
        let a = crate::audio::text_opt(role);
        let b = crate::audio::number_opt(volume);
        let c = crate::audio::bool_opt(muted);
        let d = crate::audio::bool_opt(solo);
        let m0 = controls(t)->0;
        let m1 = crate::audio::put_opt(m0, "role"@, a);
        let m2 = crate::audio::put_opt(m1, "volume"@, b);
        let m3 = crate::audio::put_opt(m2, "muted"@, c);
        let m4 = crate::audio::put_opt(m3, "solo"@, d);
        lemma_put_opt(m0, "role"@, a, "volume"@);
        lemma_put_opt(m0, "role"@, a, "muted"@);
        lemma_put_opt(m0, "role"@, a, "solo"@);
        lemma_put_opt(m1, "volume"@, b, "role"@);
        lemma_put_opt(m1, "volume"@, b, "muted"@);
        lemma_put_opt(m1, "volume"@, b, "solo"@);
        lemma_put_opt(m2, "muted"@, c, "role"@);
        lemma_put_opt(m2, "muted"@, c, "volume"@);
        lemma_put_opt(m2, "muted"@, c, "solo"@);
        lemma_put_opt(m3, "solo"@, d, "role"@);
        lemma_put_opt(m3, "solo"@, d, "volume"@);
        lemma_put_opt(m3, "solo"@, d, "muted"@);
        lemma_controls(t, m4);
        assert(out.tracks.children[i]->Track_0 == crate::audio::with_controls(t, m4));
    }
}

/// What is asked for, or else a given number.
pub open spec fn or_given(x: Option<Num>, n: int) -> Num {
    match x {
        Some(v) => v,
        None => Num::Fin(n as i128),
    }
}

proof fn lemma_duck_keys()
    ensures
        "enabled"@ != "amount_db"@,
        "enabled"@ != "attack_ms"@,
        "enabled"@ != "release_ms"@,
        "amount_db"@ != "attack_ms"@,
        "amount_db"@ != "release_ms"@,
        "attack_ms"@ != "release_ms"@,
{
    reveal_strlit("enabled");
    reveal_strlit("amount_db");
    reveal_strlit("attack_ms");
    reveal_strlit("release_ms");
    assert("enabled"@.len() == 7);
    assert("release_ms"@.len() == 10);
    assert("amount_db"@[1] == 'm');
    assert("attack_ms"@[1] == 't');
}

/// Ducking is kept on a track as was asked; what is left open is on, down by twelve
/// decibels, with eighty milliseconds to go down and three hundred to come back.  It is
/// kept exactly where there is a sound track of the name, all numbers can be counted
/// and no time is negative.
pub proof fn law_ducking_is_what_was_asked(
    tl: TimelineModel,
    index: usize,
    name: Str,
    enabled: Option<bool>,
    amount_db: Option<Num>,
    attack_ms: Option<Num>,
    release_ms: Option<Num>,
    i: int,
)
    requires
        first_named(tl, name, i),
    ensures
        ({
            let t = tl.tracks.children[i]->Track_0;
            let fine = (amount_db matches Some(x) ==> x is Fin) && usable(attack_ms) && usable(
                release_ms,
            );
            match ducking_set(tl, index, name, enabled, amount_db, attack_ms, release_ms) {
                Ok((out, _)) => {
                    let now = controls(out.tracks.children[i]->Track_0)->0;
                    &&& fine && t.kind == TrackKind::Audio && controls(t) is Some
                    &&& only_controls(tl, out, i)
                    &&& lookup(now, "ducking"@) matches Some(Meta::Object(d)) && {
                        &&& lookup(d, "enabled"@) == Some(Meta::Bool(enabled != Some(false)))
                        &&& lookup(d, "amount_db"@) == Some(
                            Meta::Number(or_given(amount_db, -12_000_000_000_000_000)),
                        )
                        &&& lookup(d, "attack_ms"@) == Some(
                            Meta::Number(or_given(attack_ms, 80_000_000_000_000_000)),
                        )
                        &&& lookup(d, "release_ms"@) == Some(
                            Meta::Number(or_given(release_ms, 300_000_000_000_000_000)),
                        )
                    }
                    &&& forall|key: Str|
                        key != "ducking"@ ==> #[trigger] lookup(now, key) == lookup(
                            controls(t)->0,
                            key,
                        )
                },
                Err(_) => !fine || t.kind != TrackKind::Audio || controls(t) is None,
            }
        }),
{
    law_first_named_is_found(tl, name);
    let t = tl.tracks.children[i]->Track_0;
    if let Ok((out, _)) = ducking_set(
        tl,
        index,
        name,
        enabled,
        amount_db,
        attack_ms,
        release_ms,
    ) {
        lemma_duck_keys();
        let e = Meta::Bool(enabled != Some(false));
        let a = Meta::Number(or_given(amount_db, -12_000_000_000_000_000));
        let b = Meta::Number(or_given(attack_ms, 80_000_000_000_000_000));
        let c = Meta::Number(or_given(release_ms, 300_000_000_000_000_000));
        let d1 = put(Seq::empty(), "enabled"@, e);
        let d2 = put(d1, "amount_db"@, a);
        let d3 = put(d2, "attack_ms"@, b);
        let d4 = put(d3, "release_ms"@, c);
        law_put_then_lookup(Seq::empty(), "enabled"@, e, "enabled"@);
        law_put_then_lookup(d1, "amount_db"@, a, "enabled"@);
        law_put_then_lookup(d2, "attack_ms"@, b, "enabled"@);
        law_put_then_lookup(d3, "release_ms"@, c, "enabled"@);
        law_put_then_lookup(d2, "attack_ms"@, b, "amount_db"@);
        law_put_then_lookup(d3, "release_ms"@, c, "amount_db"@);
        law_put_then_lookup(d3, "release_ms"@, c, "attack_ms"@);
        let was = controls(t)->0;
        let m = put(was, "ducking"@, Meta::Object(d4));
        lemma_controls(t, m);
        law_put_then_lookup(was, "ducking"@, Meta::Object(d4), "ducking"@);
        assert(out.tracks.children[i]->Track_0 == crate::audio::with_controls(t, m));
        assert forall|key: Str| key != "ducking"@ implies #[trigger] lookup(m, key) == lookup(
            was,
            key,
        ) by {
            law_put_then_lookup(was, "ducking"@, Meta::Object(d4), key);
        }
    }
}

/// Whether all numbers that a repair of sound asks for can be counted.
pub open spec fn all_counted(fx: AudioFxConfig) -> bool {
    &&& fx.high_pass_hz matches Some(x) ==> x is Fin
    &&& fx.low_pass_hz matches Some(x) ==> x is Fin
    &&& fx.compressor_threshold_db matches Some(x) ==> x is Fin
    &&& fx.compressor_ratio matches Some(x) ==> x is Fin
    &&& fx.limiter_limit_db matches Some(x) ==> x is Fin
    &&& fx.noise_gate_threshold_db matches Some(x) ==> x is Fin
    &&& fx.hum_notch_hz matches Some(x) ==> x is Fin
    &&& fx.de_ess_hz matches Some(x) ==> x is Fin
    &&& fx.de_ess_reduction_db matches Some(x) ==> x is Fin
    &&& fx.loudnorm_i matches Some(x) ==> x is Fin
    &&& fx.loudnorm_tp matches Some(x) ==> x is Fin
    &&& forall|k: int|
        0 <= k < fx.eq_bands@.len() ==> (#[trigger] fx.eq_bands@[k]).freq_hz is Fin
            && fx.eq_bands@[k].gain_db is Fin && (fx.eq_bands@[k].width_hz matches Some(x) ==> x
            is Fin)
}

/// Whether a repair of sound asks for anything.
pub open spec fn asks_something(fx: AudioFxConfig) -> bool {
    ||| fx.high_pass_hz is Some
    ||| fx.low_pass_hz is Some
    ||| fx.compressor_threshold_db is Some
    ||| fx.compressor_ratio is Some
    ||| fx.limiter_limit_db is Some
    ||| fx.noise_gate_threshold_db is Some
    ||| fx.hum_notch_hz is Some
    ||| fx.de_ess_hz is Some
    ||| fx.de_ess_reduction_db is Some
    ||| fx.loudnorm_i is Some
    ||| fx.loudnorm_tp is Some
    ||| fx.eq_bands@.len() > 0
}

/// A repair of sound is taken exactly where it asks for something and all its numbers
/// can be counted.
pub proof fn law_repair_asks_for_numbers(index: usize, label: Str, fx: AudioFxConfig)
    ensures
        audio_fx_ok(index, label, fx) is Ok <==> asks_something(fx) && all_counted(fx),
{
    let p = crate::audio::band_fine();
    if fx.eq_bands@.all(p) {
        assert forall|k: int| 0 <= k < fx.eq_bands@.len() implies (
        #[trigger] fx.eq_bands@[k]).freq_hz is Fin && fx.eq_bands@[k].gain_db is Fin && (
        fx.eq_bands@[k].width_hz matches Some(x) ==> x is Fin) by {
            assert(p(fx.eq_bands@[k]));
        }
    }
}

/// A repair that is taken is kept on the clip as it is written, in place of another.
pub proof fn law_repair_is_kept_on_the_clip(
    tl: TimelineModel,
    index: usize,
    fx: AudioFxConfig,
    loc: ClipLocator,
)
    requires
        has_clip(tl, loc),
        fx.document@ is Object,
    ensures
        match clip_fx_set(tl, index, fx, Some(loc)) {
            Ok((out, _)) => {
                let now = the_clip(out, loc);
                &&& asks_something(fx) && all_counted(fx)
                &&& only_clip(tl, out, loc)
                &&& gains(the_clip(tl, loc), now, "montage.audio_fx"@)
                &&& Meta::Object(now.effects.last().metadata) == fx.document@
            },
            Err(_) => !asks_something(fx) || !all_counted(fx),
        },
{
    law_a_place_is_found(tl, loc);
    law_repair_asks_for_numbers(index, "set_clip_audio_fx"@, fx);
    if let Meta::Object(m) = fx.document@ {
        lemma_gains(the_clip(tl, loc), crate::clip::effect_of("montage.audio_fx"@, m));
    }
}

/// A repair that is taken is kept among the controls of the sound track of a name.
pub proof fn law_repair_is_kept_on_the_track(
    tl: TimelineModel,
    index: usize,
    name: Str,
    fx: AudioFxConfig,
    i: int,
)
    requires
        first_named(tl, name, i),
        fx.document@ is Object,
    ensures
        ({
            let t = tl.tracks.children[i]->Track_0;
            match track_fx_set(tl, index, name, fx) {
                Ok((out, _)) => {
                    let now = controls(out.tracks.children[i]->Track_0)->0;
                    &&& asks_something(fx) && all_counted(fx) && t.kind == TrackKind::Audio
                        && controls(t) is Some
                    &&& only_controls(tl, out, i)
                    &&& lookup(now, "fx"@) == Some(fx.document@)
                    &&& forall|key: Str|
                        key != "fx"@ ==> #[trigger] lookup(now, key) == lookup(controls(t)->0, key)
                },
                Err(_) => !asks_something(fx) || !all_counted(fx) || t.kind != TrackKind::Audio
                    || controls(t) is None,
            }
        }),
{
    law_first_named_is_found(tl, name);
    law_repair_asks_for_numbers(index, "set_track_audio_fx"@, fx);
    let t = tl.tracks.children[i]->Track_0;
    if let Ok((out, _)) = track_fx_set(tl, index, name, fx) {
        let was = controls(t)->0;
        let m = put(was, "fx"@, fx.document@);
        lemma_controls(t, m);
        law_put_then_lookup(was, "fx"@, fx.document@, "fx"@);
        assert(out.tracks.children[i]->Track_0 == crate::audio::with_controls(t, m));
        assert forall|key: Str| key != "fx"@ implies #[trigger] lookup(m, key) == lookup(
            was,
            key,
        ) by {
            law_put_then_lookup(was, "fx"@, fx.document@, key);
        }
    }
}

/// No track is changed that is not there.
pub proof fn law_no_sound_without_a_track(
    tl: TimelineModel,
    index: usize,
    name: Str,
    role: Option<Str>,
    volume: Option<Num>,
    muted: Option<bool>,
    fx: AudioFxConfig,
)
    requires
        none_named(tl, name),
    ensures
        track_audio_set(tl, index, name, role, volume, muted, muted) is Err,
        ducking_set(tl, index, name, muted, volume, volume, volume) is Err,
        track_fx_set(tl, index, name, fx) is Err,
{
    law_first_named_is_found(tl, name);
}

// ---- sync groups --------------------------------------------------------------------------

/// Whether a synchronisation can be kept: it names a group, its numbers can be counted,
/// its speed is positive and its confidence between zero and one.
pub open spec fn can_sync(
    id: Str,
    offset_s: Num,
    speed_factor: Option<Num>,
    confidence: Option<Num>,
) -> bool {
    &&& !is_blank(id)
    &&& offset_s is Fin
    &&& speed_factor matches Some(f) ==> f is Fin && 0 < tick(f)
    &&& confidence matches Some(c) ==> c is Fin && 0 <= tick(c) <= 1_000_000_000_000_000
}

/// Whether an effect of a kind is on a clip, with a value under a key.
pub open spec fn has_effect(c: ClipModel, kind: Str, key: Str, value: Meta) -> bool {
    exists|k: int|
        0 <= k < c.effects.len() && (#[trigger] c.effects[k]).effect_name == kind && lookup(
            c.effects[k].metadata,
            key,
        ) == Some(value)
}

proof fn lemma_sync_keys()
    ensures
        "sync_group_id"@ != "offset_s"@,
        "sync_group_id"@ != "speed_factor"@,
        "sync_group_id"@ != "confidence"@,
        "offset_s"@ != "speed_factor"@,
        "offset_s"@ != "confidence"@,
        "speed_factor"@ != "confidence"@,
{
    reveal_strlit("sync_group_id");
    reveal_strlit("offset_s");
    reveal_strlit("speed_factor");
    reveal_strlit("confidence");
    assert("sync_group_id"@.len() == 13);
    assert("offset_s"@.len() == 8);
    assert("speed_factor"@.len() == 12);
    assert("confidence"@.len() == 10);
}

/// A clip that is synchronised carries, last among its effects, its group, its offset and,
/// where given, its speed and how sure that is.  A speed that differs from the ordinary
/// one is its speed from then on.
pub proof fn law_synced_clip_says_how(
    c: ClipModel,
    id: Str,
    offset_s: Num,
    speed_factor: Option<Num>,
    confidence: Option<Num>,
)
    requires
        can_sync(id, offset_s, speed_factor, confidence),
    ensures
        ({
            let now = synced_clip(c, id, offset_s, speed_factor, confidence);
            &&& now.effects.last().effect_name == "montage.sync_group"@
            &&& tells(now, "sync_group_id"@) == Some(Meta::Text(id))
            &&& tells(now, "offset_s"@) == Some(Meta::Number(offset_s))
            &&& tells(now, "speed_factor"@) == kept_number(speed_factor)
            &&& tells(now, "confidence"@) == kept_number(confidence)
            &&& speed_factor matches Some(f) ==> (tick(f) < 999_999_999_000_000 || tick(f)
                > 1_000_000_001_000_000) ==> has_effect(
                now,
                "montage.speed"@,
                "factor"@,
                Meta::Number(f),
            )
            &&& now.source_range == c.source_range
            &&& now.media_reference == c.media_reference
            &&& now.name == c.name
            &&& now.metadata == c.metadata
        }),
{
    lemma_sync_keys();
    let a = Meta::Text(id);
    let b = Meta::Number(offset_s);
    let x = crate::audio::number_opt(speed_factor);
    let y = crate::audio::number_opt(confidence);
    let m0 = Seq::<(Str, Meta)>::empty();
    let m1 = put(m0, "sync_group_id"@, a);
    let m2 = put(m1, "offset_s"@, b);
    let m3 = crate::audio::put_opt(m2, "speed_factor"@, x);
    law_put_then_lookup(m0, "sync_group_id"@, a, "sync_group_id"@);
    law_put_then_lookup(m0, "sync_group_id"@, a, "speed_factor"@);
    law_put_then_lookup(m0, "sync_group_id"@, a, "confidence"@);
    law_put_then_lookup(m1, "offset_s"@, b, "sync_group_id"@);
    law_put_then_lookup(m1, "offset_s"@, b, "speed_factor"@);
    law_put_then_lookup(m1, "offset_s"@, b, "confidence"@);
    lemma_put_opt(m2, "speed_factor"@, x, "sync_group_id"@);
    lemma_put_opt(m2, "speed_factor"@, x, "offset_s"@);
    lemma_put_opt(m2, "speed_factor"@, x, "confidence"@);
    lemma_put_opt(m3, "confidence"@, y, "sync_group_id"@);
    lemma_put_opt(m3, "confidence"@, y, "offset_s"@);
    lemma_put_opt(m3, "confidence"@, y, "speed_factor"@);
    let now = synced_clip(c, id, offset_s, speed_factor, confidence);
    if let Some(f) = speed_factor {
        if tick(f) < 999_999_999_000_000 || tick(f) > 1_000_000_001_000_000 {
            let one = put(Seq::empty(), "factor"@, Meta::Number(f));
            law_put_then_lookup(Seq::empty(), "factor"@, Meta::Number(f), "factor"@);
            let e = crate::clip::effect_of("montage.speed"@, one);
            let bare = without_effect(c, "montage.sync_group"@);
            lemma_gains(bare, e);
            let fast = crate::clip::with_sole_effect(bare, e);
            let k = fast.effects.len() - 1;
            assert(now.effects[k] == e);
        }
    }
}

/// A clip is synchronised exactly where that can be kept, and where it has to move, its
/// move can be done.  It moves to its offset where that is positive, and stays where it
/// is not.
pub proof fn law_sync_moves_to_a_positive_offset(
    tl: TimelineModel,
    index: usize,
    id: Str,
    offset_s: Num,
    speed_factor: Option<Num>,
    confidence: Option<Num>,
    loc: ClipLocator,
)
    requires
        has_clip(tl, loc),
    ensures
        ({
            let i = loc.track_index as int;
            let j = loc.child_index as int;
            let t = tl.tracks.children[i]->Track_0;
            let now = TrackChildModel::Clip(
                synced_clip(the_clip(tl, loc), id, offset_s, speed_factor, confidence),
            );
            let synced = TrackModel { children: t.children.update(j, now), ..t };
            &&& !can_sync(id, offset_s, speed_factor, confidence) ==> sync_set(
                tl,
                index,
                id,
                offset_s,
                speed_factor,
                confidence,
                Some(loc),
            ) is Err
            &&& can_sync(id, offset_s, speed_factor, confidence) && tick(offset_s) <= 0 ==> (
            sync_set(tl, index, id, offset_s, speed_factor, confidence, Some(loc)) matches Ok((
                out,
                _,
            )) && only_clip(tl, out, loc) && row(out, i) == synced.children)
            &&& can_sync(id, offset_s, speed_factor, confidence) && 0 < tick(offset_s) ==> match (
                sync_set(tl, index, id, offset_s, speed_factor, confidence, Some(loc)),
                moved_to_time(index, synced, j, offset_s),
            ) {
                (Ok((out, _)), Ok((moved, _))) => has_row(out, i) && out.tracks.children[i]->Track_0
                    == moved,
                (Err(_), Err(_)) => true,
                _ => false,
            }
        }),
{
    law_a_place_is_found(tl, loc);
}

} // verus!

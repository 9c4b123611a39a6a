//! A program track cut from several cameras.
use vstd::prelude::*;

use crate::clip::{
    clip_montage, empty_clip, media_at, stamp_clip_uuid, with_clip_extra, with_clip_montage,
    with_uuid,
};
use crate::edit::{
    empty_track, gap_child, gap_of, track_named, with_children, with_layers, with_track,
};
use crate::error::{bad, checks, invalid, invalid_str, shows, ApplyError, Done, Refusal};
use crate::meta::{number_meta, Meta, MetaValue};
use crate::mint::{drew, fresh, lemma_drew, ClipIds};
use crate::model::{
    copy_opt, opt, Clip, ClipModel, ExternalReference, MediaReference, MontageClipMetadataModel,
    StackChildModel, TimeRange, Timeline, TimelineModel, Track, TrackChild, TrackChildModel,
    TrackKind, TrackModel,
};
use crate::num::{micro, milli, ones, rate24, whole, zero, Num};
use crate::op::{MulticamApplyPlan, MulticamDecision};
use crate::text::{
    blank, cat2, count_usize, decimal, fix3, is_blank, milli3, quote, quoted, trim, trimmed, Str,
};
use crate::trim::or_else;

verus! {

/// The end of the decision in front of the one with number `k`.
pub open spec fn previous_end(ds: Seq<MulticamDecision>, k: int) -> Num {
    if k <= 0 {
        zero()
    } else {
        ds[k - 1].end_s
    }
}

/// Whether decision `k` names a source and lies behind the one in front of it.
pub open spec fn decision_ok(index: usize, ds: Seq<MulticamDecision>, k: int) -> Result<
    (),
    Refusal,
> {
    let d = ds[k];
    let head = "apply_multicam_plan: decision "@ + decimal(k as nat);
    let before = previous_end(ds, k);
    if is_blank(d.source_asset@) {
        Err(bad(index, head + " source_asset must not be empty"@))
    } else if !d.start_s.is_finite() || d.start_s.less(zero()) {
        Err(bad(index, head + " start_s must be finite and >= 0"@))
    } else if !d.end_s.is_finite() || d.end_s.at_most(d.start_s) {
        Err(bad(index, head + " end_s must be finite and > start_s"@))
    } else if d.start_s.plus(micro()).less(before) {
        Err(
            bad(
                index,
                head + " starts at "@ + milli3(d.start_s) + "s before previous decision ends at "@
                    + milli3(before) + "s"@,
            ),
        )
    } else {
        Ok(())
    }
}

/// Whether the decisions from number `k` on are well-formed: the first that is
/// not is refused.
pub open spec fn decisions_ok_from(index: usize, ds: Seq<MulticamDecision>, k: int) -> Result<
    (),
    Refusal,
>
    decreases ds.len() - k,
{
    if k < 0 || k >= ds.len() {
        Ok(())
    } else {
        match decision_ok(index, ds, k) {
            Err(e) => Err(e),
            Ok(_) => decisions_ok_from(index, ds, k + 1),
        }
    }
}

/// Whether there are decisions and all are well-formed.
pub open spec fn decisions_ok(index: usize, ds: Seq<MulticamDecision>) -> Result<(), Refusal> {
    if ds.len() == 0 {
        Err(bad(index, "apply_multicam_plan: decisions must not be empty"@))
    } else {
        decisions_ok_from(index, ds, 0)
    }
}

/// Checks the decisions of a plan.
pub fn validate_multicam_decisions(index: usize, decisions: &Vec<MulticamDecision>) -> (r: Result<
    (),
    ApplyError,
>)
    ensures
        checks(r, decisions_ok(index, decisions@)),
{
    if decisions.len() == 0 {
        return Err(invalid_str(index, "apply_multicam_plan: decisions must not be empty"));
    }
    let mut before = zero();
    let mut k: usize = 0;
    while k < decisions.len()
        invariant
            k <= decisions@.len(),
            decisions@.len() > 0,
            before == previous_end(decisions@, k as int),
            decisions_ok(index, decisions@) == decisions_ok_from(index, decisions@, k as int),
        decreases decisions@.len() - k,
    {
        let d = &decisions[k];
        let head = cat2("apply_multicam_plan: decision ", count_usize(k).as_str());
        if blank(d.source_asset.as_str()) {
            return Err(invalid(index, cat2(head.as_str(), " source_asset must not be empty")));
        }
        if !d.start_s.is_finite() || d.start_s.less(zero()) {
            return Err(invalid(index, cat2(head.as_str(), " start_s must be finite and >= 0")));
        }
        if !d.end_s.is_finite() || d.end_s.at_most(d.start_s) {
            return Err(
                invalid(index, cat2(head.as_str(), " end_s must be finite and > start_s")),
            );
        }
        if d.start_s.plus(micro()).less(before) {
            return Err(
                invalid(
                    index,
                    crate::text::cat6(
                        head.as_str(),
                        " starts at ",
                        fix3(d.start_s).as_str(),
                        "s before previous decision ends at ",
                        fix3(before).as_str(),
                        "s",
                    ),
                ),
            );
        }
        before = d.end_s;
        k = k + 1;
    }
    Ok(())
}

/// The clip with a text among the editor's extras, where there is one.
pub open spec fn with_text_opt(c: ClipModel, key: Str, value: Option<Str>) -> ClipModel {
    match value {
        Some(v) => with_clip_extra(c, key, Meta::Text(v)),
        None => c,
    }
}

/// The clip of decision `k`.
pub open spec fn decision_clip(d: MulticamDecision, k: nat, id: Str) -> ClipModel {
    let c = ClipModel {
        media_reference: media_at(d.source_asset@),
        source_range: Some(
            TimeRange::seconds(
                or_else(d.source_start_s, d.start_s),
                d.end_s.minus(d.start_s),
                rate24(),
            ),
        ),
        ..empty_clip("multicam-"@ + decimal(k))
    };
    let c = with_clip_montage(
        c,
        MontageClipMetadataModel { reasoning: opt(d.reason), ..clip_montage(c) },
    );
    let c = with_clip_extra(c, "multicam_source_asset"@, Meta::Text(d.source_asset@));
    let c = with_clip_extra(c, "multicam_decision_index"@, number_meta(ones(k)));
    let c = with_text_opt(c, "speaker"@, opt(d.speaker));
    let c = with_text_opt(c, "sync_group_id"@, opt(d.sync_group_id));
    with_uuid(c, id)
}

fn build_decision_clip(d: &MulticamDecision, k: usize, id: &str) -> (r: Clip)
    ensures
        r@ == decision_clip(*d, k as nat, id@),
{
    let mut c = Clip::empty(cat2("multicam-", count_usize(k).as_str()).as_str());
    c.media_reference = MediaReference::External(ExternalReference::new(d.source_asset.as_str()));
    c.source_range = Some(
        TimeRange::seconds(
            or_else(d.source_start_s, d.start_s),
            d.end_s.minus(d.start_s),
            rate24(),
        ),
    );
    let mut m = c.montage();
    m.reasoning = copy_opt(&d.reason);
    c.put_montage(m);
    c.put_extra("multicam_source_asset", MetaValue::text(d.source_asset.as_str()));
    c.put_extra("multicam_decision_index", MetaValue::number(whole(k)));
    if let Some(s) = &d.speaker {
        c.put_extra("speaker", MetaValue::text(s.as_str()));
    }
    if let Some(s) = &d.sync_group_id {
        c.put_extra("sync_group_id", MetaValue::text(s.as_str()));
    }
    stamp_clip_uuid(&mut c, id);
    c
}

/// What the first `n` decisions put on the program track: a clip each, behind
/// empty time where the program has none.  Decision `k` gets id `ids[k]`.
pub open spec fn program_children(ds: Seq<MulticamDecision>, ids: Seq<Str>, n: int) -> Seq<
    TrackChildModel,
>
    decreases n,
{
    if n <= 0 {
        Seq::empty()
    } else {
        let d = ds[n - 1];
        let before = previous_end(ds, n - 1);
        let rest = program_children(ds, ids, n - 1);
        (if before.plus(milli()).less(d.start_s) {
            rest.push(gap_of(d.start_s.minus(before), rate24()))
        } else {
            rest
        }).push(TrackChildModel::Clip(decision_clip(d, (n - 1) as nat, ids[n - 1])))
    }
}

proof fn lemma_program_children(ds: Seq<MulticamDecision>, ids: Seq<Str>, more: Seq<Str>, n: int)
    requires
        n <= ids.len() <= more.len(),
        forall|k: int| 0 <= k < ids.len() ==> ids[k] == more[k],
    ensures
        program_children(ds, ids, n) == program_children(ds, more, n),
    decreases n,
{
    if n > 0 {
        lemma_program_children(ds, ids, more, n - 1);
    }
}

/// The program track of a plan.
pub open spec fn program(name: Str, ds: Seq<MulticamDecision>, ids: Seq<Str>) -> TrackModel {
    with_children(
        empty_track(name, TrackKind::Video),
        program_children(ds, ids, ds.len() as int),
    )
}

/// The program track of a plan.
pub fn build_multicam_program_track(
    program_track: &str,
    decisions: &Vec<MulticamDecision>,
    ids: &mut ClipIds,
) -> (r: Track)
    ensures
        drew(*old(ids), *final(ids), decisions@.len()),
        r@ == program(program_track@, decisions@, fresh(*old(ids), *final(ids))),
{
    let ghost from = *ids;
    let ghost ds = decisions@;
    let mut track = Track::empty(program_track, TrackKind::Video);
    let mut before = zero();
    let mut k: usize = 0;
    while k < decisions.len()
        invariant
            k <= ds.len(),
            ds == decisions@,
            from == *old(ids),
            drew(from, *ids, k as nat),
            before == previous_end(ds, k as int),
            track@ == with_children(
                empty_track(program_track@, TrackKind::Video),
                program_children(ds, fresh(from, *ids), k as int),
            ),
        decreases ds.len() - k,
    {
        let d = &decisions[k];
        let ghost so_far = fresh(from, *ids);
        let ghost mid = *ids;
        if before.plus(milli()).less(d.start_s) {
            track.push(gap_child(d.start_s.minus(before), rate24()));
        }
        let id = ids.draw();
        proof {
            lemma_drew(from, mid, *ids);
            assert(fresh(mid, *ids) =~= seq![id@]);
            lemma_program_children(ds, so_far, fresh(from, *ids), k as int);
        }
        track.push(TrackChild::Clip(build_decision_clip(d, k, id.as_str())));
        before = d.end_s;
        k = k + 1;
    }
    track
}

/// Putting the program of a plan on its track, in place of what was there.
pub open spec fn multicam_applied(
    tl: TimelineModel,
    index: usize,
    plan: MulticamApplyPlan,
    ids: Seq<Str>,
) -> Done {
    let name = trimmed(plan.program_track@);
    if name.len() == 0 {
        Err(bad(index, "apply_multicam_plan: program_track must not be empty"@))
    } else {
        match decisions_ok(index, plan.decisions@) {
            Err(e) => Err(e),
            Ok(_) => {
                let t = program(name, plan.decisions@, ids);
                Ok(
                    (
                        match track_named(tl, name) {
                            Some(i) => with_track(tl, i, t),
                            None => with_layers(
                                tl,
                                tl.tracks.children.push(StackChildModel::Track(t)),
                            ),
                        },
                        "applied multicam plan to track "@ + quoted(name) + " with "@ + decimal(
                            plan.decisions@.len(),
                        ) + " decisions"@,
                    ),
                )
            },
        }
    }
}

/// Puts the program of a plan on its track.
pub fn apply_multicam_plan(
    working: Timeline,
    index: usize,
    plan: &MulticamApplyPlan,
    ids: &mut ClipIds,
) -> (r: Result<(Timeline, String), ApplyError>)
    ensures
        drew(
            *old(ids),
            *final(ids),
            if r is Ok {
                plan.decisions@.len()
            } else {
                0
            },
        ),
        shows(r, multicam_applied(working@, index, *plan, fresh(*old(ids), *final(ids)))),
{
    let name = trim(plan.program_track.as_str());
    if name.as_str().is_empty() {
        return Err(invalid_str(index, "apply_multicam_plan: program_track must not be empty"));
    }
    if let Err(e) = validate_multicam_decisions(index, &plan.decisions) {
        return Err(e);
    }
    let t = build_multicam_program_track(name.as_str(), &plan.decisions, ids);
    let mut out = working;
    match out.find_track(name.as_str()) {
        Some(i) => {
            out.put_track(i, t);
        },
        None => {
            out.push_track(t);
        },
    }
    let said = crate::text::cat5(
        "applied multicam plan to track ",
        quote(name.as_str()).as_str(),
        " with ",
        count_usize(plan.decisions.len()).as_str(),
        " decisions",
    );
    Ok((out, said))
}

} // verus!

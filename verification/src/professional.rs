//! The edits of the cutting room, each of which is put on record.
use vstd::prelude::*;

use crate::adjust::{
    apply_replace_clip, apply_roll_edit, apply_slide_clip, apply_slip_clip, replaced, rolled, slid,
    slipped,
};
use crate::carve::{
    appended, apply_append_clip, apply_extract_range, apply_lift_range, apply_overwrite_clip,
    cut_range, overwritten,
};
use crate::edit::track_at;
use crate::envelope::ProfessionalTimelineEdit;
use crate::error::{bad, invalid, invalid_str, shows, AnchorMiss, ApplyError, Done};
use crate::locate::{no_place, required_locator};
use crate::marker::{
    apply_delete_marker, apply_professional_marker, apply_update_marker, deleted_marker, marked,
    updated_marker,
};
use crate::meta::{Meta, MetaValue};
use crate::mint::{drew, fresh, ClipIds};
use crate::model::{opt, ClipLocator, Timeline, TimelineModel};
use crate::nested::{apply_flatten_nested, apply_wrap_as_nested, flattened, wrapped};
use crate::num::Num;
use crate::op::BetweenPlaces;
use crate::output::{put_extra, with_extra};
use crate::text::{cat2, cat4, holds, quote, quote_list, quoted, quoted_list, strs, Str};
use crate::trim::{apply_trim, trimmed_clip};

verus! {

/// Trimming the end of a clip on one of the named tracks, or on any where none
/// is named.
pub open spec fn ripple_trim_done(
    tl: TimelineModel,
    index: usize,
    new_end_s: Num,
    ripple_tracks: Seq<String>,
    locator: Option<ClipLocator>,
) -> Done {
    match locator {
        None => Err(no_place(index)),
        Some(loc) => match track_at(tl, loc.track_index as int) {
            None => Err(bad(index, "ripple_trim: anchor resolved to a non-track stack child"@)),
            Some(t) => if ripple_tracks.len() > 0 && !strs(ripple_tracks).contains(t.name) {
                Err(
                    bad(
                        index,
                        "ripple_trim: resolved track "@ + quoted(t.name)
                            + " is not included in ripple_tracks "@ + quoted_list(ripple_tracks),
                    ),
                )
            } else {
                trimmed_clip(tl, index, None, Some(new_end_s), locator)
            },
        },
    }
}

fn ripple_trim(
    working: Timeline,
    index: usize,
    new_end_s: Num,
    ripple_tracks: &Vec<String>,
    locator: Option<ClipLocator>,
) -> (r: Result<(Timeline, String), ApplyError>)
    ensures
        shows(r, ripple_trim_done(working@, index, new_end_s, ripple_tracks@, locator)),
{
    let loc = match required_locator(index, locator) {
        Ok(l) => l,
        Err(e) => {
            return Err(e);
        },
    };
    match working.track(loc.track_index) {
        None => {
            return Err(
                invalid_str(index, "ripple_trim: anchor resolved to a non-track stack child"),
            );
        },
        Some(t) => {
            if ripple_tracks.len() > 0 && !holds(ripple_tracks, t.name.as_str()) {
                return Err(
                    invalid(
                        index,
                        cat4(
                            "ripple_trim: resolved track ",
                            quote(t.name.as_str()).as_str(),
                            " is not included in ripple_tracks ",
                            quote_list(ripple_tracks).as_str(),
                        ),
                    ),
                );
            }
        },
    }
    apply_trim(working, index, None, Some(new_end_s), locator)
}

/// What an edit comes to, before it is put on record.
pub open spec fn edit_done(
    tl: TimelineModel,
    index: usize,
    edit: ProfessionalTimelineEdit,
    locator: Option<ClipLocator>,
    places: BetweenPlaces,
    marker: Option<Result<ClipLocator, AnchorMiss>>,
    ids: Seq<Str>,
) -> Done {
    match edit {
        ProfessionalTimelineEdit::RippleTrim { anchor, new_end_s, ripple_tracks } => ripple_trim_done(
            tl,
            index,
            new_end_s,
            ripple_tracks@,
            locator,
        ),
        ProfessionalTimelineEdit::SlipClip { anchor, delta_s } => slipped(
            tl,
            index,
            delta_s,
            locator,
        ),
        ProfessionalTimelineEdit::AddMarker { at_s, label, category } => marked(
            tl,
            index,
            at_s,
            label@,
            opt(category),
        ),
        ProfessionalTimelineEdit::UpdateMarker { selector, change } => updated_marker(
            tl,
            index,
            selector,
            change,
            marker,
        ),
        ProfessionalTimelineEdit::DeleteMarker { selector } => deleted_marker(
            tl,
            index,
            selector,
            marker,
        ),
        ProfessionalTimelineEdit::RollEdit { between, delta_s } => rolled(
            tl,
            index,
            delta_s,
            places,
        ),
        ProfessionalTimelineEdit::SlideClip { anchor, delta_s } => slid(
            tl,
            index,
            delta_s,
            locator,
        ),
        ProfessionalTimelineEdit::LiftRange { range, tracks } => cut_range(
            tl,
            index,
            range,
            tracks@,
            false,
            ids,
        ),
        ProfessionalTimelineEdit::ExtractRange { range, tracks } => cut_range(
            tl,
            index,
            range,
            tracks@,
            true,
            ids,
        ),
        ProfessionalTimelineEdit::ReplaceClip { anchor, asset, range } => replaced(
            tl,
            index,
            asset@,
            range,
            locator,
        ),
        ProfessionalTimelineEdit::Append { track, asset, range } => appended(
            tl,
            index,
            track@,
            asset@,
            range,
            ids[0],
        ),
        ProfessionalTimelineEdit::Overwrite { track, range, asset } => overwritten(
            tl,
            index,
            track@,
            range,
            asset@,
            ids,
        ),
        ProfessionalTimelineEdit::WrapAsNested { track, start_index, end_index, name } => wrapped(
            tl,
            index,
            track@,
            start_index,
            end_index,
            opt(name),
        ),
        ProfessionalTimelineEdit::FlattenNested { track, child_index } => flattened(
            tl,
            index,
            track@,
            child_index,
        ),
    }
}

fn do_edit(
    working: Timeline,
    index: usize,
    edit: &ProfessionalTimelineEdit,
    locator: Option<ClipLocator>,
    places: &BetweenPlaces,
    marker: &Option<Result<ClipLocator, AnchorMiss>>,
    ids: &mut ClipIds,
) -> (r: Result<(Timeline, String), ApplyError>)
    ensures
        drew(*old(ids), *final(ids), fresh(*old(ids), *final(ids)).len()),
        shows(
            r,
            edit_done(
                working@,
                index,
                *edit,
                locator,
                *places,
                *marker,
                fresh(*old(ids), *final(ids)),
            ),
        ),
{
    match edit {
        ProfessionalTimelineEdit::RippleTrim { anchor: _, new_end_s, ripple_tracks } => ripple_trim(
            working,
            index,
            *new_end_s,
            ripple_tracks,
            locator,
        ),
        ProfessionalTimelineEdit::SlipClip { anchor: _, delta_s } => apply_slip_clip(
            working,
            index,
            *delta_s,
            locator,
        ),
        ProfessionalTimelineEdit::AddMarker { at_s, label, category } => apply_professional_marker(
            working,
            index,
            *at_s,
            label.as_str(),
            category,
        ),
        ProfessionalTimelineEdit::UpdateMarker { selector, change } => apply_update_marker(
            working,
            index,
            selector,
            change,
            marker,
        ),
        ProfessionalTimelineEdit::DeleteMarker { selector } => apply_delete_marker(
            working,
            index,
            selector,
            marker,
        ),
        ProfessionalTimelineEdit::RollEdit { between: _, delta_s } => apply_roll_edit(
            working,
            index,
            *delta_s,
            places,
        ),
        ProfessionalTimelineEdit::SlideClip { anchor: _, delta_s } => apply_slide_clip(
            working,
            index,
            *delta_s,
            locator,
        ),
        ProfessionalTimelineEdit::LiftRange { range, tracks } => apply_lift_range(
            working,
            index,
            *range,
            tracks,
            ids,
        ),
        ProfessionalTimelineEdit::ExtractRange { range, tracks } => apply_extract_range(
            working,
            index,
            *range,
            tracks,
            ids,
        ),
        ProfessionalTimelineEdit::ReplaceClip { anchor: _, asset, range } => apply_replace_clip(
            working,
            index,
            asset.as_str(),
            *range,
            locator,
        ),
        ProfessionalTimelineEdit::Append { track, asset, range } => apply_append_clip(
            working,
            index,
            track.as_str(),
            asset.as_str(),
            *range,
            ids,
        ),
        ProfessionalTimelineEdit::Overwrite { track, range, asset } => apply_overwrite_clip(
            working,
            index,
            track.as_str(),
            *range,
            asset.as_str(),
            ids,
        ),
        ProfessionalTimelineEdit::WrapAsNested { track, start_index, end_index, name } => apply_wrap_as_nested(
            working,
            index,
            track.as_str(),
            *start_index,
            *end_index,
            name,
        ),
        ProfessionalTimelineEdit::FlattenNested { track, child_index } => apply_flatten_nested(
            working,
            index,
            track.as_str(),
            *child_index,
        ),
    }
}

/// What is said of an edit, before what it came to.
pub open spec fn edit_words(edit: ProfessionalTimelineEdit) -> Str {
    match edit {
        ProfessionalTimelineEdit::RippleTrim { .. } => "ripple trimmed"@,
        ProfessionalTimelineEdit::SlipClip { .. } => "slipped"@,
        ProfessionalTimelineEdit::AddMarker { .. } => "added marker"@,
        ProfessionalTimelineEdit::UpdateMarker { .. } => "updated marker"@,
        ProfessionalTimelineEdit::DeleteMarker { .. } => "deleted marker"@,
        ProfessionalTimelineEdit::RollEdit { .. } => "rolled edit"@,
        ProfessionalTimelineEdit::SlideClip { .. } => "slid clip"@,
        ProfessionalTimelineEdit::LiftRange { .. } => "lifted range"@,
        ProfessionalTimelineEdit::ExtractRange { .. } => "extracted range"@,
        ProfessionalTimelineEdit::ReplaceClip { .. } => "replaced clip"@,
        ProfessionalTimelineEdit::Append { .. } => "appended clip"@,
        ProfessionalTimelineEdit::Overwrite { .. } => "overwrote range"@,
        ProfessionalTimelineEdit::WrapAsNested { .. } => "wrapped nested stack"@,
        ProfessionalTimelineEdit::FlattenNested { .. } => "flattened nested stack"@,
    }
}

fn say_edit(edit: &ProfessionalTimelineEdit) -> (r: &'static str)
    ensures
        r@ == edit_words(*edit),
{
    match edit {
        ProfessionalTimelineEdit::RippleTrim { .. } => "ripple trimmed",
        ProfessionalTimelineEdit::SlipClip { .. } => "slipped",
        ProfessionalTimelineEdit::AddMarker { .. } => "added marker",
        ProfessionalTimelineEdit::UpdateMarker { .. } => "updated marker",
        ProfessionalTimelineEdit::DeleteMarker { .. } => "deleted marker",
        ProfessionalTimelineEdit::RollEdit { .. } => "rolled edit",
        ProfessionalTimelineEdit::SlideClip { .. } => "slid clip",
        ProfessionalTimelineEdit::LiftRange { .. } => "lifted range",
        ProfessionalTimelineEdit::ExtractRange { .. } => "extracted range",
        ProfessionalTimelineEdit::ReplaceClip { .. } => "replaced clip",
        ProfessionalTimelineEdit::Append { .. } => "appended clip",
        ProfessionalTimelineEdit::Overwrite { .. } => "overwrote range",
        ProfessionalTimelineEdit::WrapAsNested { .. } => "wrapped nested stack",
        ProfessionalTimelineEdit::FlattenNested { .. } => "flattened nested stack",
    }
}

/// Making an edit and putting it on record.
pub open spec fn professional(
    tl: TimelineModel,
    index: usize,
    edit: ProfessionalTimelineEdit,
    document: Meta,
    locator: Option<ClipLocator>,
    places: BetweenPlaces,
    marker: Option<Result<ClipLocator, AnchorMiss>>,
    ids: Seq<Str>,
) -> Done {
    match edit_done(tl, index, edit, locator, places, marker, ids) {
        Err(e) => Err(e),
        Ok((t, said)) => Ok(
            (
                with_extra(t, "last_professional_timeline_edit"@, document),
                edit_words(edit) + " via professional timeline edit: "@ + said,
            ),
        ),
    }
}

/// Makes an edit and puts it on record.
pub fn apply_professional_timeline_edit(
    working: Timeline,
    index: usize,
    edit: &ProfessionalTimelineEdit,
    document: &MetaValue,
    locator: Option<ClipLocator>,
    places: &BetweenPlaces,
    marker: &Option<Result<ClipLocator, AnchorMiss>>,
    ids: &mut ClipIds,
) -> (r: Result<(Timeline, String), ApplyError>)
    ensures
        drew(*old(ids), *final(ids), fresh(*old(ids), *final(ids)).len()),
        shows(
            r,
            professional(
                working@,
                index,
                *edit,
                document@,
                locator,
                *places,
                *marker,
                fresh(*old(ids), *final(ids)),
            ),
        ),
{
    match do_edit(working, index, edit, locator, places, marker, ids) {
        Err(e) => Err(e),
        Ok((t, said)) => {
            let mut out = t;
            put_extra(&mut out, "last_professional_timeline_edit", document.copied());
            let words = cat2(say_edit(edit), " via professional timeline edit: ");
            Ok((out, cat2(words.as_str(), said.as_str())))
        },
    }
}

} // verus!

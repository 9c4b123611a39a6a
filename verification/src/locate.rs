//! From the place of a clip to the clip.
use vstd::prelude::*;

use crate::edit::{clip_at, track_at};
use crate::error::{bad, invalid, invalid_str, ApplyError, Refusal};
use crate::model::{Clip, ClipLocator, ClipModel, Stored, Timeline, TimelineModel};
use crate::text::{cat2, Str};

verus! {

/// The refusal where an op that names a clip got no place.
pub open spec fn no_place(index: usize) -> Refusal {
    bad(index, "internal error: anchored op applied without a resolved locator"@)
}

/// The place, or the refusal where there is none.
pub fn required_locator(index: usize, locator: Option<ClipLocator>) -> (r: Result<
    ClipLocator,
    ApplyError,
>)
    ensures
        match locator {
            Some(l) => r == Ok::<ClipLocator, ApplyError>(l),
            None => r matches Err(e) && e@ == no_place(index),
        },
{
    match locator {
        Some(l) => Ok(l),
        None => Err(
            invalid_str(
                index,
                "internal error: anchored op applied without a resolved locator",
            ),
        ),
    }
}

/// The clip at a place, or the refusal where the place holds none; `who` stands
/// in front of the message.
pub open spec fn found_clip(
    tl: TimelineModel,
    index: usize,
    locator: Option<ClipLocator>,
    who: Str,
) -> Result<(ClipLocator, ClipModel), Refusal> {
    match locator {
        None => Err(no_place(index)),
        Some(loc) => match track_at(tl, loc.track_index as int) {
            None => Err(bad(index, who + "anchor resolved to a non-track stack child"@)),
            Some(_) => match clip_at(tl, loc) {
                None => Err(bad(index, who + "anchor resolved to a non-clip track child"@)),
                Some(clip) => Ok((loc, clip)),
            },
        },
    }
}

/// A copy of the clip at a place, with the place.
pub fn find_clip(
    working: &Timeline,
    index: usize,
    locator: Option<ClipLocator>,
    who: &str,
) -> (r: Result<(ClipLocator, Clip), ApplyError>)
    ensures
        match r {
            Ok(p) => found_clip(working@, index, locator, who@) == Ok::<
                (ClipLocator, ClipModel),
                Refusal,
            >((p.0, p.1@)) && clip_at(working@, p.0) == Some(p.1@) && locator == Some(p.0),
            Err(e) => found_clip(working@, index, locator, who@) == Err::<
                (ClipLocator, ClipModel),
                Refusal,
            >(e@),
        },
{
    let loc = match required_locator(index, locator) {
        Ok(l) => l,
        Err(e) => {
            return Err(e);
        },
    };
    if working.track(loc.track_index).is_none() {
        return Err(invalid(index, cat2(who, "anchor resolved to a non-track stack child")));
    }
    match working.clip(loc) {
        Some(c) => Ok((loc, c.copied())),
        None => Err(invalid(index, cat2(who, "anchor resolved to a non-clip track child"))),
    }
}

} // verus!

//! The names of the effects that the editor puts on clips.
use vstd::prelude::*;

verus! {

/// A change of loudness.
pub const VOLUME: &'static str = "montage.volume";

/// A picture over the picture.
pub const VIDEO_OVERLAY: &'static str = "montage.video_overlay";

/// Sound that fades in and out.
pub const AUDIO_FADE: &'static str = "montage.audio_fade";

/// A change of speed.
pub const SPEED: &'static str = "montage.speed";

/// A speed that changes along the clip.
pub const TIME_REMAP: &'static str = "montage.time_remap";

/// A held frame.
pub const FREEZE: &'static str = "montage.freeze";

/// A change of colour.
pub const COLOR_CORRECTION: &'static str = "montage.color_correction";

/// A colour table.
pub const LUT: &'static str = "montage.lut";

/// The colour path from source to display.
pub const COLOR_PIPELINE: &'static str = "montage.color_pipeline";

/// A title.
pub const TITLE: &'static str = "montage.title";

/// A drawn annotation.
pub const ANNOTATION: &'static str = "montage.annotation";

/// How a clip is synchronised with others.
pub const SYNC_GROUP: &'static str = "montage.sync_group";

/// Repair of sound.
pub const AUDIO_FX: &'static str = "montage.audio_fx";

} // verus!

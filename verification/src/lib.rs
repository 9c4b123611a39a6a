//! Applies edit-decision envelopes to timelines.
pub mod adjust;
pub mod adjust_laws;
pub mod audio;
pub mod boundary;
pub mod boundary_laws;
pub mod broll_laws;
pub mod bundle;
pub mod carve;
pub mod carve_laws;
pub mod clip;
pub mod cut_laws;
pub mod dispatch;
pub mod docs;
pub mod edit;
pub mod edit_laws;
pub mod effect;
pub mod effect_laws;
pub mod effects;
pub mod engine;
pub mod engine_laws;
pub mod envelope;
pub mod error;
pub mod gap;
pub mod insert;
pub mod insert_laws;
pub mod laws;
pub mod linked_laws;
pub mod locate;
pub mod lut;
pub mod marker;
pub mod marker_laws;
pub mod measures;
pub mod merge_laws;
pub mod meta;
pub mod mint;
pub mod model;
pub mod move_clip;
pub mod move_laws;
pub mod multicam;
pub mod nested;
pub mod num;
pub mod num_laws;
pub mod op;
pub mod output;
pub mod overlay;
pub mod overlay_laws;
pub mod path;
pub mod picture_laws;
pub mod playback;
pub mod professional;
pub mod project_laws;
pub mod refusal_laws;
pub mod reverse_laws;
pub mod ripple;
pub mod room_laws;
pub mod scope_laws;
pub mod shift_laws;
pub mod snap;
pub mod snap_laws;
pub mod sound_laws;
pub mod split;
pub mod split_laws;
pub mod stretch_laws;
pub mod template;
pub mod text;
pub mod text_laws;
pub mod time_laws;
pub mod title;
pub mod title_laws;
pub mod track_laws;
pub mod tracks;
pub mod transition;
pub mod transition_laws;
pub mod trim;
pub mod trim_laws;
pub mod undo_laws;
pub mod wellformed;

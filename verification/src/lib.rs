//! Recipe-resolution library: computes the producers and raw resources needed
//! to sustain one unit per second of a crafted item, using exact rational
//! arithmetic, and rescales the result to whole numbers on request.

pub mod catalog;
pub mod enums;
pub mod errors;
pub mod flags;
pub mod laws;
pub mod material;
pub mod material_database;
pub mod ratio;
pub mod recipe;
pub mod settings_update;
pub mod strutil;
pub mod total_raw_result;
pub mod user_settings;

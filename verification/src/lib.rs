//! Reads and rewrites the crosshair and explosion-effect fields of weapon
//! scripts, leaving every other character of the script as it is.
//!
//! A script is read with [`WeaponFile::new`]. A new crosshair is written
//! with [`WeaponFile::replace_crosshair`], a new explosion effect with
//! [`WeaponFile::replace_explosion`]; both give the new text of the script
//! and leave writing it to the caller. The module [`laws`] proves what holds
//! of reading and writing together.

pub mod catalog;
pub mod crosshair;
pub mod effect;
pub mod error;
pub mod field;
pub mod field_laws;
pub mod laws;
pub mod load;
pub mod log;
pub mod number;
pub mod patch;
pub mod path;
pub mod script;
pub mod text;
pub mod weapon;

pub use catalog::Association;
pub use crosshair::CrosshairItem;
pub use crosshair::CrosshairScan;
pub use crosshair::Texture;
pub use effect::EffectView;
pub use effect::ExplosionEffect;
pub use effect::ExplosionKey;
pub use error::Error;
pub use log::LogType;
pub use weapon::ScriptFile;
pub use weapon::WeaponFile;
pub use weapon::WeaponScan;

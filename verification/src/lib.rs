//! A registry of camera records: identity, name and media streams.
//!
//! The registry stands for a mapping from camera id to camera record. It
//! assigns the ids itself, derives the recast URL of each stream that names
//! none, and stores a record whole or not at all. Reads hand out copies.
//!
//! What the registry does is stated as contracts over plain values: each
//! record type has a model, the registry has its records in order and the
//! mapping that they stand for, and `laws` holds what follows for the
//! operations taken together.

pub mod error;
pub mod hydrate;
pub mod ident;
pub mod index;
pub mod laws;
pub mod model;
pub mod recast;
pub mod registry;
pub mod text;

pub use crate::error::RegistryError;
pub use crate::hydrate::{hydrate, LoadNotice, LoadOutcome};
pub use crate::ident::{
    draw_camera_id, generate_camera_id, judge_draw, DrawStep, CAMERA_ID_LEN, MAX_ID_DRAWS,
};
pub use crate::model::{BasicCameraInfo, Camera, Stream};
pub use crate::recast::{derive_recast_url, recast_url_string};
pub use crate::registry::Registry;

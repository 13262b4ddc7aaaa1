//! Core library for folder icon customization.
//!
//! The library maintains a disk-backed cache of a multi-size system folder
//! icon set, converts between the system and the render icon representations,
//! and orchestrates applying a rendered icon set across a batch of target
//! folders with fail-soft semantics and optional progress reporting.

pub mod bounds;
pub mod cache;
pub mod color;
pub mod convert;
pub mod context;
pub mod error;
pub mod icons;
pub mod manifest;
pub mod profile;
pub mod progress;
pub mod store;
pub mod textutil;

pub use cache::{CacheConfig, IconCache};
pub use color::{FolderColor, FolderColorMetadata};
pub use context::{AppInfo, CustomizationContext, CustomizationContextBuilder};
pub use convert::{convert_icon_set, convert_icon_set_to_sys};
pub use error::Error;
pub use profile::{CustomizationProfile, HslMutationSettings};
pub use icons::{RectPx, RenderIconImage, RenderIconSet, SysIconImage, SysIconSet};

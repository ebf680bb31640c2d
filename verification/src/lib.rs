//! A deterministic procedural avatar service core: a seed-addressed
//! value and color generator, a hot-reloadable registry of vector style
//! templates with a sorted de-aliased listing, the render pipeline that
//! binds a style to an identity, the request decisions around it, and a
//! size-bounded rasterizer. Template evaluation and rasterization are
//! the work of outside engines, reached through trusted wrappers; every
//! decision around them is verified.

pub mod config;
pub mod random;
pub mod raster;
pub mod registry;
pub mod render;
pub mod strutil;

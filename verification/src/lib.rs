//! Rendering core of an SVG thumbnail provider: validation of render
//! requests, the stylesheet inliner, pixel transfer out of a mapped GPU
//! surface, and the lifecycle of the per-thread GPU resources.

pub mod cache;
pub mod config;
pub mod css;
pub mod document;
pub mod error;
pub mod native;
pub mod parser;
pub mod pipeline;
pub mod pixels;
pub mod preprocess;
pub mod request;
pub mod scene;
pub mod style_map;
pub mod text;
pub mod variant;

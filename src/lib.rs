//! Per-frame rendering core: resource binding caches, texture-unit allocation,
//! light collection, render-queue partitioning and the frame renderer that
//! turns a scene snapshot into an ordered list of graphics operations.

pub mod resource;
pub mod context;
pub mod scene;
pub mod queue;
pub mod lights;
pub mod engine;

//! Verified core of the MoonWalk 2D/3D rendering engine: object identifiers and
//! the object pool, render-pipeline descriptions, their validation and cache,
//! batching decisions and instance buffers, glyph and texture atlases, font registration, the 3D
//! scene's bookkeeping, and the small numeric helpers the renderer relies on.

pub mod objects;
pub mod strings;
pub mod error;
pub mod pipeline;
pub mod moon_pipeline;
pub mod text;
pub mod store;
pub mod fuse;
pub mod random;
pub mod scene;
pub mod brush;
pub mod video;
pub mod info;
pub mod batching;
pub mod atlas;
pub mod color;
pub mod texture_atlas;
pub mod fonts;
pub mod pipeline_cache;
pub mod glyph_alloc;
pub mod buffers;

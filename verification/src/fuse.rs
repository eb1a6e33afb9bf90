//! Debug-time guard rails: limits on object, texture and font counts, and the
//! texture identifiers reserved by the batcher.

use vstd::prelude::*;
use crate::objects::TextureId;

verus! {

/// Most objects one store may hold before a leak is suspected.
pub const MAX_OBJECTS: usize = 50_000;

/// Most textures the renderer may hold before a leak is suspected.
pub const MAX_TEXTURES: usize = 200;

/// Most fonts the text subsystem may hold before a leak is suspected.
pub const MAX_FONTS: usize = 100;

/// Guard that reports misuse of the engine. The checks reject what the engine
/// treats as a programming error; callers are to stop with the explanation
/// when a check's condition does not hold.
pub struct MoonFuse {
    pub render_calls: u16,
}

/// Texture identifiers reserved for text and emoji atlases: `u32::MAX` and
/// `u32::MAX - 1`.
pub open spec fn texture_id_reserved(id: TextureId) -> bool {
    id.0 == u32::MAX || id.0 == u32::MAX - 1
}

impl MoonFuse {
    pub fn new() -> (r: MoonFuse)
        ensures
            r.render_calls == 0,
    {
        MoonFuse { render_calls: 0 }
    }

    /// Whether a texture identifier may be used by an object: the two highest
    /// identifiers are reserved.
    pub fn texture_id_allowed(id: TextureId) -> (r: bool)
        ensures
            r == !texture_id_reserved(id),
    {
        !(id.0 == u32::MAX || id.0 == u32::MAX - 1)
    }

    /// Whether a store may hold `count` objects.
    pub fn objects_count_allowed(count: usize) -> (r: bool)
        ensures
            r == (count <= MAX_OBJECTS),
    {
        count <= MAX_OBJECTS
    }

    /// Whether the renderer may hold the given numbers of textures and fonts.
    pub fn resource_count_allowed(textures_count: usize, fonts_count: usize) -> (r: bool)
        ensures
            r == (textures_count <= MAX_TEXTURES && fonts_count <= MAX_FONTS),
    {
        !(textures_count > MAX_TEXTURES || fonts_count > MAX_FONTS)
    }

    /// Guards against a reserved texture identifier.
    pub fn validate_texture_id(&self, id: TextureId)
        requires
            !texture_id_reserved(id),
    {
    }

    /// Guards against a store that keeps growing.
    pub fn validate_objects_count(&self, count: usize)
        requires
            count <= MAX_OBJECTS,
    {
    }

    /// Guards against textures or fonts loaded over and over.
    pub fn validate_resource_count(&self, textures_count: usize, fonts_count: usize)
        requires
            textures_count <= MAX_TEXTURES,
            fonts_count <= MAX_FONTS,
    {
    }
}

} // verus!

//! Identifiers of renderable objects, textures and shaders, and the per-object
//! dirty flag used by batching.

use vstd::prelude::*;

verus! {

/// Mask selecting the slot index stored in the low 24 bits of an `ObjectId`.
pub const OBJECT_INDEX_MASK: usize = 0x00FF_FFFF;

/// Position of the object type byte inside an `ObjectId`.
pub const OBJECT_TYPE_SHIFT: usize = 24;

/// Kind of a renderable object; its code is stored in bits 24..32 of an `ObjectId`.
#[derive(Debug, Clone, Copy, PartialEq, Eq, Structural)]
pub enum ObjectType {
    Unknown,
    Rect,
    Text,
}

/// The numeric code of an object type (`Unknown` = 0, `Rect` = 1, `Text` = 2).
pub open spec fn type_code(ty: ObjectType) -> u8 {
    match ty {
        ObjectType::Unknown => 0,
        ObjectType::Rect => 1,
        ObjectType::Text => 2,
    }
}

/// What `ObjectType::from_u8` gives back for a code: only code 1 is recognised.
pub open spec fn type_from_code(v: u8) -> Option<ObjectType> {
    if v == 1 {
        Some(ObjectType::Rect)
    } else {
        None
    }
}

impl ObjectType {
    /// Numeric code of this type.
    pub fn code(&self) -> (r: u8)
        ensures
            r == type_code(*self),
    {
        match self {
            ObjectType::Unknown => 0,
            ObjectType::Rect => 1,
            ObjectType::Text => 2,
        }
    }

    /// Decodes a type code. Only the rectangle code (1) is decoded; every other
    /// code, the text code included, gives `None`.
    pub fn from_u8(v: u8) -> (r: Option<ObjectType>)
        ensures
            r == type_from_code(v),
    {
        match v {
            1 => Some(ObjectType::Rect),
            _ => None,
        }
    }
}

/// Identifier of an object: the type code in bits 24..32 and the slot index in
/// bits 0..24.
#[derive(Debug, Clone, Copy, PartialEq, Eq, Hash, Structural)]
pub struct ObjectId(pub usize);

/// Identifier of a texture.
#[derive(Debug, Clone, Copy, PartialEq, Eq, Hash, Structural)]
pub struct TextureId(pub u32);

/// Identifier of a shader.
#[derive(Debug, Clone, Copy, PartialEq, Eq, Hash, Structural)]
pub struct ShaderId(pub u32);

impl ShaderId {
    /// The default shader identifier, 0.
    pub fn default_id() -> (r: ShaderId)
        ensures
            r.0 == 0,
    {
        ShaderId(0)
    }
}

/// The raw word of the identifier that `ObjectId::new(ty, index)` builds.
pub open spec fn object_id_bits(ty: ObjectType, index: usize) -> usize {
    ((type_code(ty) as usize) << 24usize) | (index & 0x00FF_FFFFusize)
}

/// The slot index stored in an identifier word.
pub open spec fn index_of_bits(bits: usize) -> usize {
    bits & 0x00FF_FFFFusize
}

/// The type byte stored in an identifier word.
pub open spec fn type_byte_of_bits(bits: usize) -> u8 {
    ((bits >> 24usize) & 0xFFusize) as u8
}

proof fn lemma_id_fields(c: usize, index: usize)
    requires
        c < 256,
    ensures
        (((c << 24usize) | (index & 0x00FF_FFFFusize)) & 0x00FF_FFFFusize) == index & 0x00FF_FFFFusize,
        (index & 0x00FF_FFFFusize) == index % 0x0100_0000,
        ((((c << 24usize) | (index & 0x00FF_FFFFusize)) >> 24usize) & 0xFFusize) == c,
{
    assert((((c << 24usize) | (index & 0x00FF_FFFFusize)) & 0x00FF_FFFFusize) == index & 0x00FF_FFFFusize)
        by (bit_vector)
        requires
            c < 256,
    ;
    assert((index & 0x00FF_FFFFusize) == index % 0x0100_0000) by (bit_vector);
    assert(((((c << 24usize) | (index & 0x00FF_FFFFusize)) >> 24usize) & 0xFFusize) == c)
        by (bit_vector)
        requires
            c < 256,
    ;
}

impl TextureId {
    pub fn new(id: u32) -> (r: TextureId)
        ensures
            r.0 == id,
    {
        TextureId(id)
    }
}

impl ObjectId {
    /// Packs a type and a slot index; index bits above the 24th are dropped.
    pub fn new(ty: ObjectType, index: usize) -> (r: ObjectId)
        ensures
            r.0 == object_id_bits(ty, index),
            index_of_bits(r.0) == index % 0x0100_0000,
            type_byte_of_bits(r.0) == type_code(ty),
    {
        let c = ty.code();
        let cu: usize = c as usize;
        proof {
            lemma_id_fields(cu, index);
        }
        let ty_val = cu << OBJECT_TYPE_SHIFT;
        let idx_val = index & OBJECT_INDEX_MASK;
        ObjectId(ty_val | idx_val)
    }

    /// Decodes the type byte of this identifier.
    pub fn get_type(&self) -> (r: Option<ObjectType>)
        ensures
            r == type_from_code(type_byte_of_bits(self.0)),
    {
        let ty_val = ((self.0 >> OBJECT_TYPE_SHIFT) & 0xFF) as u8;
        ObjectType::from_u8(ty_val)
    }

    /// The slot index stored in this identifier.
    pub fn index(&self) -> (r: usize)
        ensures
            r == index_of_bits(self.0),
            r == self.0 % 0x0100_0000,
            r < 0x0100_0000,
    {
        let w = self.0;
        let r = w & OBJECT_INDEX_MASK;
        assert((w & 0x00FF_FFFFusize) == w % 0x0100_0000) by (bit_vector);
        assert((w & 0x00FF_FFFFusize) < 0x0100_0000) by (bit_vector);
        r
    }
}

/// The slot index of the identifier `ObjectId::new(ty, index)` is `index`
/// reduced to its low 24 bits, and its decoded type is the decoding of the
/// type's code: a rectangle identifier decodes as `Rect`, every other as `None`.
pub proof fn law_object_id_round_trip(ty: ObjectType, index: usize)
    ensures
        index_of_bits(object_id_bits(ty, index)) == index % 0x0100_0000,
        type_from_code(type_byte_of_bits(object_id_bits(ty, index))) == type_from_code(type_code(ty)),
        ty == ObjectType::Rect ==> type_from_code(type_byte_of_bits(object_id_bits(ty, index))) == Some(ObjectType::Rect),
        index < 0x0100_0000 ==> index_of_bits(object_id_bits(ty, index)) == index,
{
    lemma_id_fields(type_code(ty) as usize, index);
}

/// Two identifiers built for the same type from slot indices below 2^24 are
/// equal exactly when the indices are equal.
pub proof fn law_object_id_injective(ty: ObjectType, i: usize, j: usize)
    requires
        i < 0x0100_0000,
        j < 0x0100_0000,
    ensures
        (object_id_bits(ty, i) == object_id_bits(ty, j)) <==> (i == j),
{
    lemma_id_fields(type_code(ty) as usize, i);
    lemma_id_fields(type_code(ty) as usize, j);
}

/// Dirty flag of one object: reading it with `get` clears it, so a change is
/// reported exactly once.
#[derive(Debug, Clone, Copy, PartialEq, Eq, Hash, Structural)]
pub struct ObjectDirty(pub bool);

impl ObjectDirty {
    /// A new object is dirty: batching has not seen it yet.
    pub fn new() -> (r: ObjectDirty)
        ensures
            r.0,
    {
        ObjectDirty(true)
    }

    /// Returns the flag and clears it.
    pub fn get(&mut self) -> (r: bool)
        ensures
            (r, *final(self)) == dirty_get(*old(self)),
    {
        let data = self.0;
        self.0 = false;
        data
    }

    /// Marks the object as changed.
    pub fn update(&mut self)
        ensures
            *final(self) == dirty_after_update(*old(self)),
    {
        self.0 = true;
    }
}

/// The flag after `update`.
pub open spec fn dirty_after_update(d: ObjectDirty) -> ObjectDirty {
    ObjectDirty(true)
}

/// What `get` reports and the flag it leaves.
pub open spec fn dirty_get(d: ObjectDirty) -> (bool, ObjectDirty) {
    (d.0, ObjectDirty(false))
}

/// A change is reported exactly once: after `update`, the first `get` gives
/// `true` and every later `get` gives `false` until the next `update`.
pub proof fn law_dirty_reported_once(d: ObjectDirty)
    ensures
        dirty_get(dirty_after_update(d)).0,
        !dirty_get(dirty_get(dirty_after_update(d)).1).0,
        !dirty_get(dirty_get(dirty_get(dirty_after_update(d)).1).1).0,
{
}

} // verus!

//! User fonts of the text system: font files are parsed into the
//! `cosmic_text` font database, and each successfully loaded file gets an
//! identifier under which its family name is kept.

use vstd::prelude::*;
use std::collections::HashMap;
use vstd::slice::slice_to_vec;
use crate::error::MoonWalkError;

verus! {

broadcast use vstd::std_specs::hash::group_hash_axioms;

/// The font system of the `cosmic_text` crate.
#[verifier::external_type_specification]
#[verifier::external_body]
pub struct ExCosmicFontSystem(cosmic_text::FontSystem);

/// The faces of a font system's database in the order the database lists
/// them, each given by its first family name (`None` for a face with no
/// family name).
pub uninterp spec fn face_families(sys: cosmic_text::FontSystem) -> Seq<Option<Seq<char>>>;

/// Counts the faces of the database with `FontSystem::db` and
/// `Database::faces`. Claimed: the number of faces listed.
#[verifier::external_body]
fn face_count(sys: &cosmic_text::FontSystem) -> (r: usize)
    ensures
        r == face_families(*sys).len(),
{
    sys.db().faces().count()
}

/// The first family name of the last face the database lists, read with
/// `FontSystem::db` and `Database::faces`; `None` when there is no face.
/// Claimed: this agrees with `face_families`.
#[verifier::external_body]
fn last_face_family(sys: &cosmic_text::FontSystem) -> (r: Option<Option<String>>)
    ensures
        match r {
            None => face_families(*sys).len() == 0,
            Some(f) => face_families(*sys).len() > 0 && match f {
                Some(name) => face_families(*sys).last() == Some(name@),
                None => face_families(*sys).last() is None,
            },
        },
{
    sys.db().faces().last().map(|face| face.families.first().map(|family| family.0.clone()))
}

/// The number of faces that `fontdb` parses out of font data: one for each
/// face of a collection (one for a single font) that `parse_face_info`
/// accepts.
pub uninterp spec fn font_data_face_count(data: Seq<u8>) -> nat;

/// Parses font data into the database with `FontSystem::db_mut` and
/// `Database::load_font_data`, which inserts one face for every face it can
/// parse and changes no other. Claimed: the database then lists that many
/// more faces. Which faces they are, and where the database lists them, is
/// not stated.
#[verifier::external_body]
fn load_font_data(sys: &mut cosmic_text::FontSystem, data: Vec<u8>)
    ensures
        face_families(*final(sys)).len() == face_families(*old(sys)).len() + font_data_face_count(
            data@,
        ),
{
    sys.db_mut().load_font_data(data)
}

/// Identifier of a font loaded by the text system.
#[derive(Debug, Clone, Copy, PartialEq, Eq, Hash, Default, Structural)]
pub struct FontId(pub u64);

/// The font registry: the `cosmic_text` font system, the identifier the
/// next loaded font gets, and the family name of every loaded font.
pub struct FontRegistry {
    pub sys: cosmic_text::FontSystem,
    next_id: u64,
    families: HashMap<u64, String>,
}

/// A font registry: the faces of its font database, by family name, and
/// the identifier bookkeeping.
pub struct FontRegistryView {
    pub faces: Seq<Option<Seq<char>>>,
    pub next_id: u64,
    pub families: Map<u64, Seq<char>>,
}

impl View for FontRegistry {
    type V = FontRegistryView;

    closed spec fn view(&self) -> FontRegistryView {
        FontRegistryView {
            faces: face_families(self.sys),
            next_id: self.next_id,
            families: self.families@.map_values(|s: String| s@),
        }
    }
}

/// The family name recorded for a newly loaded font: the first family name
/// of the last face, or "Unknown Family" when it has none.
pub open spec fn recorded_family(name: Option<Seq<char>>) -> Seq<char> {
    match name {
        Some(n) => n,
        None => "Unknown Family"@,
    }
}

/// The message of a font that added no face to the database.
pub open spec fn parse_failure_message() -> Seq<char> {
    "Failed to parse font data"@
}

/// The message of a database that lists no face after a face was added.
pub open spec fn missing_face_message() -> Seq<char> {
    "Database error after loading"@
}

/// What registering a loaded font does, given the face counts before and
/// after loading and what `last_face_family` read: the new identifier and
/// the bookkeeping after it, or the error message (the bookkeeping then
/// unchanged).
pub open spec fn register_outcome(
    v: FontRegistryView,
    count_before: usize,
    count_after: usize,
    last_family: Option<Option<Seq<char>>>,
) -> Result<(u64, FontRegistryView), Seq<char>> {
    if count_after <= count_before {
        Err(parse_failure_message())
    } else {
        match last_family {
            None => Err(missing_face_message()),
            Some(name) => Ok(
                (
                    v.next_id,
                    FontRegistryView {
                        faces: v.faces,
                        next_id: (v.next_id + 1) as u64,
                        families: v.families.insert(v.next_id, recorded_family(name)),
                    },
                ),
            ),
        }
    }
}

fn font_loading(msg: &str) -> (r: MoonWalkError)
    ensures
        r matches MoonWalkError::FontLoading(m) && m@ == msg@,
{
    MoonWalkError::FontLoading(String::from_str(msg))
}

impl FontRegistry {
    /// A registry over the given `cosmic_text` font system, with no user
    /// font loaded yet; the first one gets identifier 1.
    pub fn with_system(sys: cosmic_text::FontSystem) -> (r: FontRegistry)
        ensures
            r@.faces == face_families(sys),
            r@.next_id == 1,
            r@.families == Map::<u64, Seq<char>>::empty(),
    {
        let r = FontRegistry { sys, next_id: 1, families: HashMap::new() };
        assert(r@.families =~= Map::<u64, Seq<char>>::empty());
        r
    }

    /// Records a font whose data was just loaded, given the face counts
    /// before and after loading and the family name of the last face.
    pub fn register_loaded_font(
        &mut self,
        count_before: usize,
        count_after: usize,
        last_family: Option<Option<String>>,
    ) -> (r: Result<FontId, MoonWalkError>)
        requires
            old(self)@.next_id < u64::MAX,
        ensures
            ({
                let lf = match last_family {
                    None => None,
                    Some(None) => Some(None),
                    Some(Some(s)) => Some(Some(s@)),
                };
                match register_outcome(old(self)@, count_before, count_after, lf) {
                    Ok((id, v)) => r == Ok::<FontId, MoonWalkError>(FontId(id)) && final(self)@ == v,
                    Err(msg) => (r matches Err(MoonWalkError::FontLoading(m)) && m@ == msg) && final(self)@
                        == old(self)@,
                }
            }),
    {
        if count_after <= count_before {
            return Err(font_loading("Failed to parse font data"));
        }
        let family = match last_family {
            None => {
                return Err(font_loading("Database error after loading"));
            },
            Some(Some(name)) => name,
            Some(None) => String::from_str("Unknown Family"),
        };
        let ghost fam = family@;
        let id = FontId(self.next_id);
        self.next_id = self.next_id + 1;
        let ghost before = self.families@;
        self.families.insert(id.0, family);
        proof {
            assert(self.families@ == before.insert(id.0, self.families@[id.0]));
            assert(self@.families =~= old(self)@.families.insert(id.0, fam));
        }
        Ok(id)
    }

    /// Loads a font from its file contents. The name is not used: the family
    /// name is read from the font itself. Every face parsed from the data is
    /// added to the database; the load fails when there is none. On success
    /// the font gets the next identifier, and the family name of the face the
    /// database now lists last is recorded under it.
    pub fn load_font_from_bytes(&mut self, data: &[u8], _name: &str) -> (r: Result<FontId, MoonWalkError>)
        requires
            old(self)@.next_id < u64::MAX,
        ensures
            final(self)@.faces.len() == old(self)@.faces.len() + font_data_face_count(data@),
            r is Ok <==> font_data_face_count(data@) > 0,
            match r {
                Ok(id) => {
                    &&& id.0 == old(self)@.next_id
                    &&& final(self)@.next_id == old(self)@.next_id + 1
                    &&& final(self)@.families == old(self)@.families.insert(
                        id.0,
                        recorded_family(final(self)@.faces.last()),
                    )
                },
                Err(e) => {
                    &&& e matches MoonWalkError::FontLoading(m) && m@ == parse_failure_message()
                    &&& final(self)@.next_id == old(self)@.next_id
                    &&& final(self)@.families == old(self)@.families
                },
            },
    {
        let count_before = face_count(&self.sys);
        load_font_data(&mut self.sys, slice_to_vec(data));
        let count_after = face_count(&self.sys);
        let last = if count_after > count_before {
            last_face_family(&self.sys)
        } else {
            None
        };
        self.register_loaded_font(count_before, count_after, last)
    }

    /// The family name recorded for a font.
    pub fn get_family_name(&self, id: FontId) -> (r: Option<&String>)
        ensures
            match r {
                Some(s) => self@.families.contains_key(id.0) && s@ == self@.families[id.0],
                None => !self@.families.contains_key(id.0),
            },
    {
        self.families.get(&id.0)
    }
}

} // verus!

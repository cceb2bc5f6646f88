use std::any::TypeId;
use std::collections::hash_map::DefaultHasher;
use std::hash::{BuildHasher, BuildHasherDefault};

use vstd::prelude::*;
use vstd::std_specs::cmp::PartialEqSpecImpl;

verus! {

/// Type to describe unique identifiers of components
pub type UniqueId = u64;

/// Structure containing a location of some code with
/// - a file name
/// - the line number
/// - the column number
#[derive(Hash, Copy, Clone, Debug)]
pub struct CodeLocation(pub &'static str, pub u32, pub u32);

/// `std::any::TypeId`, the identifier of a concrete type.
#[verifier::external_type_specification]
#[verifier::external_body]
pub struct ExTypeId(TypeId);

/// The number that `DefaultHasher` gives for a code location hashed alone
/// (its file name, line and column, in that order).
pub uninterp spec fn location_hash(file: Seq<char>, line: u32, column: u32) -> u64;

/// The number that `DefaultHasher` gives for a code location hashed
/// followed by an additional number.
pub uninterp spec fn biased_location_hash(file: Seq<char>, line: u32, column: u32, bias: u64) -> u64;

/// Hashes a code location with a fresh `DefaultHasher`, through
/// `BuildHasher::hash_one` (which builds the hasher, feeds the value and
/// finishes). `DefaultHasher::new` starts from fixed keys, so the result is
/// the named function of the location.
#[verifier::external_body]
fn hash_location(loc: &CodeLocation) -> (h: u64)
    ensures
        h == location_hash(loc.0@, loc.1, loc.2),
{
    BuildHasherDefault::<DefaultHasher>::default().hash_one(loc)
}

/// Hashes a code location then an additional number with a fresh
/// `DefaultHasher`, through `BuildHasher::hash_one` on the pair (a pair is
/// hashed as its first component followed by its second).
#[verifier::external_body]
fn hash_location_biased(loc: &CodeLocation, bias: u64) -> (h: u64)
    ensures
        h == biased_location_hash(loc.0@, loc.1, loc.2, bias),
{
    BuildHasherDefault::<DefaultHasher>::default().hash_one((*loc, bias))
}

/// `std::any::TypeId::of`: the identifier of the type `T`. Nothing is stated
/// of the value returned.
#[verifier::external_body]
fn type_id_of<T: ?Sized + 'static>() -> TypeId {
    TypeId::of::<T>()
}

/// `==` on `std::any::TypeId`: two identifiers compare equal exactly when
/// they are the same identifier.
#[verifier::external_body]
fn type_ids_equal(a: &TypeId, b: &TypeId) -> (r: bool)
    ensures
        r == (*a == *b),
{
    *a == *b
}

/// An identifier for any widget, based on a unique number (a hash being the
/// more suitable) and on its type.
/// It can be either a generated one or a custom one.
#[derive(Hash, Copy, Clone, Debug)]
pub enum ComponentId {
    Generated(UniqueId, TypeId),
    Custom(UniqueId, TypeId),
}

impl PartialEq for ComponentId {
    fn eq(&self, other: &Self) -> (r: bool) {
        match (self, other) {
            (ComponentId::Generated(a, ta), ComponentId::Generated(b, tb)) => {
                *a == *b && type_ids_equal(ta, tb)
            },
            (ComponentId::Custom(a, ta), ComponentId::Custom(b, tb)) => {
                *a == *b && type_ids_equal(ta, tb)
            },
            _ => false,
        }
    }
}

impl PartialEqSpecImpl for ComponentId {
    open spec fn obeys_eq_spec() -> bool {
        true
    }

    open spec fn eq_spec(&self, other: &ComponentId) -> bool {
        *self == *other
    }
}

impl Eq for ComponentId {}

impl ComponentId {
    /// The number carried by an identifier.
    pub open spec fn number(self) -> UniqueId {
        match self {
            ComponentId::Generated(n, _) => n,
            ComponentId::Custom(n, _) => n,
        }
    }

    /// The type identifier carried by an identifier.
    pub open spec fn type_id(self) -> TypeId {
        match self {
            ComponentId::Generated(_, t) => t,
            ComponentId::Custom(_, t) => t,
        }
    }

    /// Creates a new `ComponentId` from a `CodeLocation`
    pub fn new<T: 'static>(loc: CodeLocation) -> (r: Self)
        ensures
            r is Generated,
            r.number() == location_hash(loc.0@, loc.1, loc.2),
    {
        let h = hash_location(&loc);
        ComponentId::Generated(h, type_id_of::<T>())
    }

    /// Creates a new `ComponentId` from a `CodeLocation` and an additionnal number
    pub fn new_biased<T: 'static>(loc: CodeLocation, id: UniqueId) -> (r: Self)
        ensures
            r is Generated,
            r.number() == biased_location_hash(loc.0@, loc.1, loc.2, id),
    {
        let h = hash_location_biased(&loc, id);
        ComponentId::Generated(h, type_id_of::<T>())
    }

    /// Creates a new, fully custom `ComponentId` from the provided number
    pub fn new_custom<T: 'static>(id: UniqueId) -> (r: Self)
        ensures
            r is Custom,
            r.number() == id,
    {
        ComponentId::Custom(id, type_id_of::<T>())
    }
}

/// Two identifiers compare equal only if they carry the same number, the
/// same type identifier, and are both generated or both custom: a node found
/// by identifier holds a widget of the type it was queried for.
pub proof fn lemma_equal_ids_same_type(a: ComponentId, b: ComponentId)
    requires
        a == b,
    ensures
        a.type_id() == b.type_id(),
        a.number() == b.number(),
        (a is Generated) == (b is Generated),
{
}

} // verus!

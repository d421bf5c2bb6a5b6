//! The entity abstraction: a type that binds to a collection whose name is
//! derived from the entity's simple type name, and that maps to and from
//! the schema-less document representation.

use vstd::prelude::*;

use crate::document::{doc_get, DocModel, Document, Value, ValueModel};
use crate::oid::ObjectId;

verus! {

/// ASCII lower-casing of one character.
pub open spec fn lower_char(c: char) -> char {
    if 65 <= c as u32 && c as u32 <= 90 {
        (((c as u32 + 32) as u8) as char)
    } else {
        c
    }
}

/// ASCII lower-casing of a character sequence.
pub open spec fn lower(s: Seq<char>) -> Seq<char> {
    Seq::new(s.len(), |i: int| lower_char(s[i]))
}

/// The collection name derived from a type's simple name: the name
/// lower-cased, with a pluralizing suffix appended.
pub open spec fn derived_name(n: Seq<char>) -> Seq<char> {
    lower(n).push('s')
}

/// The document value that carries an optional identifier field.
pub open spec fn id_value_model(id: Option<Seq<u8>>) -> ValueModel {
    match id {
        None => ValueModel::Null,
        Some(b) => ValueModel::Id(b),
    }
}

/// A required text field of a document.
pub open spec fn text_field(d: DocModel, k: Seq<char>) -> Option<Seq<char>> {
    match doc_get(d, k) {
        Some(ValueModel::Text(s)) => Some(s),
        _ => None,
    }
}

/// An optional text field: absent or null reads as nothing.
pub open spec fn opt_text_field(d: DocModel, k: Seq<char>) -> Option<Option<Seq<char>>> {
    match doc_get(d, k) {
        None => Some(None),
        Some(ValueModel::Null) => Some(None),
        Some(ValueModel::Text(s)) => Some(Some(s)),
        _ => None,
    }
}

/// An optional identifier field: absent or null reads as nothing.
pub open spec fn opt_id_field(d: DocModel, k: Seq<char>) -> Option<Option<Seq<u8>>> {
    match doc_get(d, k) {
        None => Some(None),
        Some(ValueModel::Null) => Some(None),
        Some(ValueModel::Id(b)) => Some(Some(b)),
        _ => None,
    }
}

/// A required 32-bit integer field of a document.
pub open spec fn i32_field(d: DocModel, k: Seq<char>) -> Option<i32> {
    match doc_get(d, k) {
        Some(ValueModel::Int32(n)) => Some(n),
        _ => None,
    }
}

/// A required boolean field of a document.
pub open spec fn bool_field(d: DocModel, k: Seq<char>) -> Option<bool> {
    match doc_get(d, k) {
        Some(ValueModel::Bool(b)) => Some(b),
        _ => None,
    }
}

/// A required embedded-document field of a document.
pub open spec fn doc_field(d: DocModel, k: Seq<char>) -> Option<DocModel> {
    match doc_get(d, k) {
        Some(ValueModel::Doc(dd)) => Some(dd),
        _ => None,
    }
}

/// Reads a required text field.
pub fn read_text(d: &Document, k: &str) -> (r: Option<String>)
    ensures
        match r {
            Some(s) => text_field(d@, k@) == Some(s@),
            None => text_field(d@, k@) is None,
        },
{
    match d.get(k) {
        Some(Value::Text(s)) => Some(s.clone()),
        _ => None,
    }
}

/// Reads an optional text field.
pub fn read_opt_text(d: &Document, k: &str) -> (r: Option<Option<String>>)
    ensures
        match r {
            Some(None) => opt_text_field(d@, k@) == Some(Option::<Seq<char>>::None),
            Some(Some(s)) => opt_text_field(d@, k@) == Some(Some(s@)),
            None => opt_text_field(d@, k@) is None,
        },
{
    match d.get(k) {
        None => Some(None),
        Some(Value::Null) => Some(None),
        Some(Value::Text(s)) => Some(Some(s.clone())),
        _ => None,
    }
}

/// Reads an optional identifier field.
pub fn read_opt_id(d: &Document, k: &str) -> (r: Option<Option<ObjectId>>)
    ensures
        match r {
            Some(None) => opt_id_field(d@, k@) == Some(Option::<Seq<u8>>::None),
            Some(Some(id)) => opt_id_field(d@, k@) == Some(Some(id@)),
            None => opt_id_field(d@, k@) is None,
        },
{
    match d.get(k) {
        None => Some(None),
        Some(Value::Null) => Some(None),
        Some(Value::Id(id)) => Some(Some(id.dup())),
        _ => None,
    }
}

/// Reads a required 32-bit integer field.
pub fn read_i32(d: &Document, k: &str) -> (r: Option<i32>)
    ensures
        r == i32_field(d@, k@),
{
    match d.get(k) {
        Some(Value::Int32(n)) => Some(*n),
        _ => None,
    }
}

/// Reads a required boolean field.
pub fn read_bool(d: &Document, k: &str) -> (r: Option<bool>)
    ensures
        r == bool_field(d@, k@),
{
    match d.get(k) {
        Some(Value::Bool(b)) => Some(*b),
        _ => None,
    }
}

/// Reads a required embedded-document field.
pub fn read_doc<'a>(d: &'a Document, k: &str) -> (r: Option<&'a Document>)
    ensures
        match r {
            Some(dd) => doc_field(d@, k@) == Some(dd@),
            None => doc_field(d@, k@) is None,
        },
{
    match d.get(k) {
        Some(Value::Doc(dd)) => Some(dd),
        _ => None,
    }
}

/// An entity: a data shape with a nominal identity field, bound to the
/// collection named after its type and mapped to and from documents.
///
/// The view of an entity is its ghost model; all document mappings are
/// stated over that model.
pub trait Entity: View + Sized {
    /// The simple name of the entity type.
    spec fn simple_name() -> Seq<char>;

    /// The identifier carried by an entity, if any.
    spec fn id_model(m: <Self as View>::V) -> Option<Seq<u8>>;

    /// The document an entity is stored as: its fields without the
    /// identifier, which the store tracks separately.
    spec fn payload_model(m: <Self as View>::V) -> DocModel;

    /// The entity read back from a stored document, if it decodes.
    spec fn decode_model(d: DocModel) -> Option<<Self as View>::V>;

    /// The same entity with its identifier set.
    spec fn with_id_model(m: <Self as View>::V, id: Seq<u8>) -> <Self as View>::V;

    /// The same entity with its identifier absent.
    spec fn clear_id_model(m: <Self as View>::V) -> <Self as View>::V;

    /// The name of the collection this entity type binds to: the type's
    /// simple name lower-cased, with a pluralizing suffix.
    fn collection_name() -> (r: String)
        ensures
            r@ == derived_name(Self::simple_name()),
    ;

    /// Serializes the entity's payload (identifier excluded).
    fn encode(&self) -> (d: Document)
        ensures
            d@ == Self::payload_model(self@),
    ;

    /// Serializes the whole entity, identifier field first (null when the
    /// identifier is absent).
    fn encode_with_id(&self) -> (d: Document)
        ensures
            d@ == seq![("_id"@, id_value_model(Self::id_model(self@)))] + Self::payload_model(
                self@,
            ),
    ;

    /// Deserializes an entity from a stored payload document; the
    /// identifier comes out absent.
    fn decode(d: &Document) -> (r: Option<Self>)
        ensures
            match r {
                Some(e) => Self::decode_model(d@) == Some(e@),
                None => Self::decode_model(d@) is None,
            },
    ;

    /// This entity under a given identifier.
    fn with_id(self, id: &ObjectId) -> (r: Self)
        ensures
            r@ == Self::with_id_model(self@, id@),
    ;

    /// Deserialization undoes serialization: decoding an entity's payload
    /// gives the entity back, with its identifier absent.
    proof fn lemma_decode_encode(m: <Self as View>::V)
        ensures
            Self::decode_model(Self::payload_model(m)) == Some(Self::clear_id_model(m)),
    ;

    /// Setting an identifier only touches the identifier: on a cleared
    /// entity it undoes the clearing of an entity that carried it.
    proof fn lemma_with_id_clear(m: <Self as View>::V, id: Seq<u8>)
        ensures
            Self::id_model(Self::with_id_model(m, id)) == Some(id),
            Self::clear_id_model(Self::with_id_model(m, id)) == Self::clear_id_model(m),
            Self::id_model(m) == Some(id) ==> Self::with_id_model(Self::clear_id_model(m), id)
                == m,
    ;
}

} // verus!

//! A verified document-store core: a schema-less document value type,
//! store-style identifiers with their textual form, a model collection
//! with exact CRUD contracts, a generic typed accessor bound to a derived
//! collection name, and the pure request-handling decisions above it.

use vstd::prelude::*;

pub mod controller;
pub mod database;
pub mod document;
pub mod entity;
pub mod models;
pub mod oid;
pub mod store;

pub use controller::{count, create, entity_body, get, index, index_body, remove, Body, Reply};
pub use database::{all_decode, decoded_entry, DbCollection};
pub use document::{DocModel, Document, Field, Value, ValueModel};
pub use entity::Entity;
pub use models::{Contact, ContactModel, Post, PostModel, Product, ProductModel};
pub use oid::{bytes_of_hex, hex_of, valid_oid_text, ObjectId};
pub use store::{Collection, StoredDoc};

verus! {

/// The error taxonomy of the accessor boundary.
///
/// `ValidationError` is a malformed identifier from the caller (no store
/// access is attempted); `NotFound` a query with no matching document;
/// `EncodeError` / `DecodeError` a payload that cannot be converted to or
/// from the document representation; `StoreError` a failure of the store
/// itself (insertion refused).
#[derive(Clone, Copy, PartialEq, Eq, Structural, Debug)]
pub enum DbError {
    ValidationError,
    NotFound,
    EncodeError,
    DecodeError,
    StoreError,
}

} // verus!

//! The resource-controller decisions: the pure translation between
//! requests and accessor calls, and between accessor results and status
//! codes. Nothing here performs transport work; a caller feeds it parsed
//! request values and sends the reply it returns.

use vstd::prelude::*;

use crate::database::{all_decode, decoded_entry, DbCollection};
use crate::document::{Value, ValueModel};
use crate::entity::{id_value_model, Entity};
use crate::oid::{bytes_of_hex, hex_of, valid_oid_text, ObjectId};
use crate::store::{has_id, oid_bytes, StoredDoc, MAX_SEQ};

verus! {

/// A reply body: empty (failures carry no text) or one JSON-like value.
pub enum Body {
    Empty,
    Json(Value),
}

/// A reply: a status code and a body.
pub struct Reply {
    pub status: u16,
    pub body: Body,
}

/// The serialized form of one entity in a reply: its identifier field
/// first, then its payload fields.
pub open spec fn entity_body<T: Entity>(m: <T as View>::V) -> ValueModel {
    ValueModel::Doc(seq![("_id"@, id_value_model(T::id_model(m)))] + T::payload_model(m))
}

/// The reply element for one stored document that decodes.
pub open spec fn index_elem<T: Entity>(e: StoredDoc) -> ValueModel {
    entity_body::<T>(decoded_entry::<T>(e).unwrap())
}

/// The reply body of a listing: one element per stored document, in store
/// order.
pub open spec fn index_body<T: Entity>(docs: Seq<StoredDoc>) -> Seq<ValueModel> {
    Seq::new(docs.len(), |i: int| index_elem::<T>(docs[i]))
}

/// Lists the collection: every entity, serialized under its identifier.
/// When any document fails to decode the whole call fails with an empty
/// server-error reply: there is no partial success.
pub fn index<T: Entity>(col: &DbCollection<T>) -> (r: Reply)
    requires
        col.wf(),
    ensures
        all_decode::<T>(col.docs()) ==> r.status == 200 && (r.body matches Body::Json(v) && v@
            == ValueModel::Array(index_body::<T>(col.docs()))),
        !all_decode::<T>(col.docs()) ==> r.status == 500 && r.body is Empty,
{
    match col.index() {
        Ok(es) => {
            let n = es.len();
            let mut vals: Vec<Value> = Vec::new();
            let mut i: usize = 0;
            while i < n
                invariant
                    n == es@.len() == col.docs().len(),
                    0 <= i <= n,
                    vals@.len() == i,
                    forall|j: int|
                        0 <= j < n ==> decoded_entry::<T>(col.docs()[j]) == Some(
                            (#[trigger] es@[j])@,
                        ),
                    forall|j: int|
                        0 <= j < i ==> crate::document::value_model(#[trigger] vals@[j])
                            == index_elem::<T>(col.docs()[j]),
                decreases n - i,
            {
                let d = es[i].encode_with_id();
                vals.push(Value::Doc(d));
                i += 1;
            }
            proof {
                crate::document::lemma_values_model(vals@);
                assert forall|j: int| 0 <= j < n implies crate::document::values_model(vals@)[j]
                    == index_body::<T>(col.docs())[j] by {
                    assert(crate::document::values_model(vals@)[j]
                        == crate::document::value_model(vals@[j]));
                }
                assert(crate::document::values_model(vals@) =~= index_body::<T>(col.docs()));
            }
            Reply { status: 200, body: Body::Json(Value::Array(vals)) }
        },
        Err(_) => Reply { status: 500, body: Body::Empty },
    }
}

/// Counts the collection. The reply is always a success carrying the
/// count; a failing store would be masked to zero, as the surrounding
/// system expects.
pub fn count<T: Entity>(col: &DbCollection<T>) -> (r: Reply)
    requires
        col.wf(),
    ensures
        r.status == 200,
        r.body matches Body::Json(v) && v@ == ValueModel::Int64(col.docs().len() as i64),
{
    match col.count(None) {
        Ok(c) => Reply { status: 200, body: Body::Json(Value::Int64(c)) },
        Err(_) => Reply { status: 200, body: Body::Json(Value::Int64(0)) },
    }
}

/// Fetches one entity by the textual form of its identifier. A string that
/// is not a well-formed identifier token is refused as a client error
/// before the store is consulted, whatever the collection holds; an absent
/// identifier or an undecodable document is not found.
pub fn get<T: Entity>(id: &str, col: &DbCollection<T>) -> (r: Reply)
    requires
        col.wf(),
    ensures
        !valid_oid_text(id@) ==> r.status == 400 && r.body is Empty,
        valid_oid_text(id@) && !has_id(col.docs(), bytes_of_hex(id@)) ==> r.status == 404
            && r.body is Empty,
        valid_oid_text(id@) ==> forall|i: int|
            0 <= i < col.docs().len() && oid_bytes((#[trigger] col.docs()[i]).seq) == bytes_of_hex(
                id@,
            ) ==> match T::decode_model(col.docs()[i].doc@) {
                Some(m) => r.status == 200 && (r.body matches Body::Json(v) && v@
                    == entity_body::<T>(T::with_id_model(m, bytes_of_hex(id@)))),
                None => r.status == 404 && r.body is Empty,
            },
{
    let id_val = match ObjectId::with_string(id) {
        Ok(v) => v,
        Err(_) => {
            return Reply { status: 400, body: Body::Empty };
        },
    };
    match col.find_by_id(&id_val) {
        Ok(e) => {
            let d = e.encode_with_id();
            Reply { status: 200, body: Body::Json(Value::Doc(d)) }
        },
        Err(_) => Reply { status: 404, body: Body::Empty },
    }
}

/// Persists one entity; the reply body is the textual form of the
/// identifier the store assigned. Fails as a server error exactly when the
/// store refuses the insertion.
pub fn create<T: Entity>(value: T, col: &mut DbCollection<T>) -> (r: Reply)
    requires
        old(col).wf(),
    ensures
        final (col).wf(),
        final (col).collection.name@ == old(col).collection.name@,
        old(col).collection.next < MAX_SEQ ==> {
            &&& r.status == 200
            &&& (r.body matches Body::Json(v) && v@ == ValueModel::Text(
                hex_of(oid_bytes(old(col).collection.next)),
            ))
            &&& final (col).docs().len() == old(col).docs().len() + 1
            &&& final (col).docs().drop_last() == old(col).docs()
            &&& final (col).docs().last().seq == old(col).collection.next
            &&& final (col).docs().last().doc@ == T::payload_model(value@)
            &&& final (col).collection.next == old(col).collection.next + 1
        },
        old(col).collection.next == MAX_SEQ ==> r.status == 500 && r.body is Empty && *final (col)
            == *old(col),
{
    match col.create(value) {
        Ok(id) => {
            let text = id.to_hex();
            Reply { status: 200, body: Body::Json(Value::Text(text)) }
        },
        Err(_) => Reply { status: 500, body: Body::Empty },
    }
}

/// The identifier token a create reply carries leads back to the entity:
/// the token is a well-formed identifier text, and parsing it gives exactly
/// the identifier the store assigned, so a fetch with the reply's body
/// reaches the document just created.
pub proof fn lemma_create_reply_token(seq: u64)
    ensures
        valid_oid_text(hex_of(oid_bytes(seq))),
        bytes_of_hex(hex_of(oid_bytes(seq))) == oid_bytes(seq),
{
    crate::oid::lemma_hex_round_trip(oid_bytes(seq));
}

/// Removes one entity by the textual form of its identifier. A string that
/// is not a well-formed identifier token is refused as a client error and
/// the collection is untouched; otherwise the reply carries how many
/// documents were removed — zero for an identifier that was never created,
/// which is not an error.
pub fn remove<T: Entity>(id: &str, col: &mut DbCollection<T>) -> (r: Reply)
    requires
        old(col).wf(),
    ensures
        final (col).wf(),
        final (col).collection.name@ == old(col).collection.name@,
        final (col).collection.next == old(col).collection.next,
        !valid_oid_text(id@) ==> r.status == 400 && r.body is Empty && *final (col) == *old(col),
        valid_oid_text(id@) && !has_id(old(col).docs(), bytes_of_hex(id@)) ==> r.status == 200 && (
        r.body matches Body::Json(v) && v@ == ValueModel::Int64(0)) && *final (col) == *old(col),
        valid_oid_text(id@) ==> forall|i: int|
            0 <= i < old(col).docs().len() && oid_bytes((#[trigger] old(col).docs()[i]).seq)
                == bytes_of_hex(id@) ==> r.status == 200 && (r.body matches Body::Json(v) && v@
                == ValueModel::Int64(1)) && final (col).docs() == old(col).docs().remove(i),
{
    let id_val = match ObjectId::with_string(id) {
        Ok(v) => v,
        Err(_) => {
            return Reply { status: 400, body: Body::Empty };
        },
    };
    match col.delete_by_id(&id_val) {
        Ok(c) => Reply { status: 200, body: Body::Json(Value::Int64(c)) },
        Err(_) => Reply { status: 404, body: Body::Empty },
    }
}

} // verus!

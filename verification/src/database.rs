//! The generic collection accessor: binds an entity type to the collection
//! named after it and performs typed create / read / delete against it,
//! never letting callers hand-assemble raw documents. The accessor holds
//! the model collection itself; the process edge that speaks to a remote
//! store over a connection lives outside the library.

use vstd::prelude::*;

use core::marker::PhantomData;

use crate::document::Document;
use crate::entity::{derived_name, Entity};
use crate::oid::ObjectId;
use crate::store::{
    has_id, lemma_oid_bytes_injective, make_oid, matching, oid_bytes, seqs_below, seqs_increasing,
    Collection, StoredDoc, MAX_SEQ,
};
use crate::DbError;

verus! {

/// The typed entity read back from one stored document: the decoded payload
/// under the document's store-assigned identifier.
pub open spec fn decoded_entry<T: Entity>(e: StoredDoc) -> Option<<T as View>::V> {
    match T::decode_model(e.doc@) {
        Some(m) => Some(T::with_id_model(m, oid_bytes(e.seq))),
        None => None,
    }
}

/// Every stored document deserializes into the entity type.
pub open spec fn all_decode<T: Entity>(docs: Seq<StoredDoc>) -> bool {
    forall|i: int| 0 <= i < docs.len() ==> T::decode_model((#[trigger] docs[i]).doc@) is Some
}

/// A document that matches a filter is among the matching documents.
pub proof fn lemma_matching_contains(docs: Seq<StoredDoc>, f: crate::document::DocModel, i: int)
    requires
        0 <= i < docs.len(),
        crate::document::doc_matches(docs[i].doc@, f),
    ensures
        exists|k: int|
            0 <= k < matching(docs, f).len() && #[trigger] matching(docs, f)[k] == docs[i],
    decreases docs.len(),
{
    if i == docs.len() - 1 {
        assert(matching(docs, f).last() == docs[i]);
    } else {
        assert(docs.drop_last()[i] == docs[i]);
        lemma_matching_contains(docs.drop_last(), f, i);
        let k = choose|k: int|
            0 <= k < matching(docs.drop_last(), f).len() && #[trigger] matching(
                docs.drop_last(),
                f,
            )[k] == docs[i];
        if crate::document::doc_matches(docs.last().doc@, f) {
            assert(matching(docs, f)[k] == docs[i]);
        } else {
            assert(matching(docs, f)[k] == docs[i]);
        }
    }
}

/// The generic per-entity accessor: a collection bound to the entity type's
/// derived name, holding the typed CRUD surface. It is stateless beyond the
/// bound collection.
pub struct DbCollection<T: Entity> {
    pub collection: Collection,
    pub phantom: PhantomData<T>,
}

impl<T: Entity> DbCollection<T> {
    /// The accessor is well-formed when its collection is.
    pub open spec fn wf(&self) -> bool {
        self.collection.wf()
    }

    /// The stored documents behind the accessor.
    pub open spec fn docs(&self) -> Seq<StoredDoc> {
        self.collection.docs@
    }

    /// Binds a fresh, empty collection under the entity type's derived
    /// name. Construction cannot fail and performs no store work.
    pub fn new() -> (r: DbCollection<T>)
        ensures
            r.wf(),
            r.collection.name@ == derived_name(T::simple_name()),
            r.docs().len() == 0,
            r.collection.next == 0,
    {
        DbCollection { collection: Collection::new(T::collection_name()), phantom: PhantomData }
    }

    /// Every entity in the collection, in store order, each under its
    /// identifier. Fails on the first document that does not deserialize:
    /// there is no partial success.
    pub fn index(&self) -> (r: Result<Vec<T>, DbError>)
        requires
            self.wf(),
        ensures
            r is Ok <==> all_decode::<T>(self.docs()),
            r is Ok ==> r->Ok_0@.len() == self.docs().len(),
            r is Ok ==> forall|i: int|
                0 <= i < self.docs().len() ==> decoded_entry::<T>(self.docs()[i]) == Some(
                    (#[trigger] r->Ok_0@[i])@,
                ),
            r is Err ==> r->Err_0 == DbError::DecodeError,
    {
        let n = self.collection.docs.len();
        let mut out: Vec<T> = Vec::new();
        let mut i: usize = 0;
        while i < n
            invariant
                self.wf(),
                n == self.docs().len(),
                0 <= i <= n,
                out@.len() == i,
                forall|j: int|
                    0 <= j < i ==> decoded_entry::<T>(self.docs()[j]) == Some(
                        (#[trigger] out@[j])@,
                    ),
            decreases n - i,
        {
            match T::decode(&self.collection.docs[i].doc) {
                Some(e) => {
                    let id = make_oid(self.collection.docs[i].seq);
                    out.push(e.with_id(&id));
                },
                None => {
                    return Err(DbError::DecodeError);
                },
            }
            i += 1;
        }
        proof {
            assert forall|k: int| 0 <= k < self.docs().len() implies T::decode_model(
                (#[trigger] self.docs()[k]).doc@,
            ) is Some by {
                assert(decoded_entry::<T>(self.docs()[k]) == Some(out@[k]@));
            }
        }
        Ok(out)
    }

    /// The entities whose documents match a filter, in store order, each
    /// under its identifier. Fails on the first matching document that does
    /// not deserialize.
    pub fn find(&self, query: &Document) -> (r: Result<Vec<T>, DbError>)
        requires
            self.wf(),
        ensures
            r is Ok <==> all_decode::<T>(matching(self.docs(), query@)),
            r is Ok ==> r->Ok_0@.len() == matching(self.docs(), query@).len(),
            r is Ok ==> forall|i: int|
                0 <= i < matching(self.docs(), query@).len() ==> decoded_entry::<T>(
                    matching(self.docs(), query@)[i],
                ) == Some((#[trigger] r->Ok_0@[i])@),
            r is Err ==> r->Err_0 == DbError::DecodeError,
    {
        let n = self.collection.docs.len();
        let mut out: Vec<T> = Vec::new();
        let mut i: usize = 0;
        proof {
            assert(self.docs().take(0) =~= Seq::<StoredDoc>::empty());
        }
        while i < n
            invariant
                self.wf(),
                n == self.docs().len(),
                0 <= i <= n,
                out@.len() == matching(self.docs().take(i as int), query@).len(),
                forall|j: int|
                    0 <= j < out@.len() ==> decoded_entry::<T>(
                        matching(self.docs().take(i as int), query@)[j],
                    ) == Some((#[trigger] out@[j])@),
            decreases n - i,
        {
            proof {
                assert(self.docs().take(i + 1).drop_last() =~= self.docs().take(i as int));
                assert(self.docs().take(i + 1).last() == self.docs()[i as int]);
            }
            if self.collection.docs[i].doc.matches(query) {
                match T::decode(&self.collection.docs[i].doc) {
                    Some(e) => {
                        let id = make_oid(self.collection.docs[i].seq);
                        out.push(e.with_id(&id));
                    },
                    None => {
                        proof {
                            lemma_matching_contains(self.docs(), query@, i as int);
                        }
                        return Err(DbError::DecodeError);
                    },
                }
            }
            i += 1;
        }
        proof {
            assert(self.docs().take(n as int) =~= self.docs());
            assert forall|k: int| 0 <= k < matching(self.docs(), query@).len() implies
                T::decode_model((#[trigger] matching(self.docs(), query@)[k]).doc@) is Some by {
                assert(decoded_entry::<T>(matching(self.docs(), query@)[k]) == Some(out@[k]@));
            }
        }
        Ok(out)
    }

    /// The entity stored under an identifier. `NotFound` when no document
    /// carries the identifier; `DecodeError` when the document found does
    /// not deserialize.
    pub fn find_by_id(&self, id: &ObjectId) -> (r: Result<T, DbError>)
        requires
            self.wf(),
        ensures
            !has_id(self.docs(), id@) ==> r is Err && r->Err_0 == DbError::NotFound,
            forall|i: int|
                0 <= i < self.docs().len() && oid_bytes((#[trigger] self.docs()[i]).seq) == id@
                    ==> match T::decode_model(self.docs()[i].doc@) {
                    Some(m) => r is Ok && r->Ok_0@ == T::with_id_model(m, id@),
                    None => r is Err && r->Err_0 == DbError::DecodeError,
                },
    {
        match self.collection.find_by_id(id) {
            None => Err(DbError::NotFound),
            Some(doc) => match T::decode(doc) {
                Some(e) => Ok(e.with_id(id)),
                None => Err(DbError::DecodeError),
            },
        }
    }

    /// How many documents match; with no filter, the collection size.
    pub fn count(&self, query: Option<&Document>) -> (r: Result<i64, DbError>)
        requires
            self.wf(),
        ensures
            r is Ok,
            match query {
                None => r->Ok_0 == self.docs().len(),
                Some(f) => r->Ok_0 == matching(self.docs(), f@).len(),
            },
    {
        Ok(self.collection.count(query))
    }

    /// Persists an entity as a new document and returns the identifier the
    /// store assigned. The entity's payload is stored; its identifier field
    /// is not (the store tracks the assigned identifier itself). Fails with
    /// `StoreError` exactly when the store's identifier counter is
    /// exhausted.
    pub fn create(&mut self, data: T) -> (r: Result<ObjectId, DbError>)
        requires
            old(self).wf(),
        ensures
            final (self).wf(),
            final (self).collection.name@ == old(self).collection.name@,
            r is Ok <==> old(self).collection.next < MAX_SEQ,
            r is Err ==> r->Err_0 == DbError::StoreError && *final (self) == *old(self),
            r is Ok ==> {
                &&& r->Ok_0@ == oid_bytes(old(self).collection.next)
                &&& r->Ok_0.wf()
                &&& final (self).docs().len() == old(self).docs().len() + 1
                &&& final (self).docs().drop_last() == old(self).docs()
                &&& final (self).docs().last().seq == old(self).collection.next
                &&& final (self).docs().last().doc@ == T::payload_model(data@)
                &&& final (self).collection.next == old(self).collection.next + 1
            },
    {
        let doc = data.encode();
        match self.collection.insert(doc) {
            Some(id) => {
                proof {
                    assert(final (self).docs().drop_last() =~= old(self).docs());
                }
                Ok(id)
            },
            None => Err(DbError::StoreError),
        }
    }

    /// Removes the first document matching a filter; the count removed
    /// (one or none).
    #[verifier::rlimit(50)]
    pub fn delete_one(&mut self, query: &Document) -> (r: Result<i64, DbError>)
        requires
            old(self).wf(),
        ensures
            final (self).wf(),
            final (self).collection.name@ == old(self).collection.name@,
            final (self).collection.next == old(self).collection.next,
            r is Ok && (r->Ok_0 == 0 || r->Ok_0 == 1),
            crate::store::no_match(old(self).docs(), query@) ==> r->Ok_0 == 0 && *final (self)
                == *old(self),
            forall|i: int|
                #[trigger] crate::store::first_match_at(old(self).docs(), query@, i) ==> r->Ok_0
                    == 1 && final (self).docs() == old(self).docs().remove(i),
    {
        let c = self.collection.delete_one(query);
        Ok(c as i64)
    }

    /// Removes every document matching a filter; the count removed.
    pub fn delete(&mut self, query: &Document) -> (r: Result<i64, DbError>)
        requires
            old(self).wf(),
        ensures
            final (self).wf(),
            final (self).collection.name@ == old(self).collection.name@,
            final (self).collection.next == old(self).collection.next,
            r is Ok,
            final (self).docs() == crate::store::non_matching(old(self).docs(), query@),
            r->Ok_0 == matching(old(self).docs(), query@).len(),
    {
        Ok(self.collection.delete_many(query))
    }

    /// Removes the document under an identifier, if there is one; the count
    /// removed (one or none). Deleting an identifier that was never created
    /// is not an error: the count is zero.
    pub fn delete_by_id(&mut self, id: &ObjectId) -> (r: Result<i64, DbError>)
        requires
            old(self).wf(),
        ensures
            final (self).wf(),
            final (self).collection.name@ == old(self).collection.name@,
            final (self).collection.next == old(self).collection.next,
            r is Ok && (r->Ok_0 == 0 || r->Ok_0 == 1),
            !has_id(old(self).docs(), id@) ==> r->Ok_0 == 0 && *final (self) == *old(self),
            forall|i: int|
                0 <= i < old(self).docs().len() && oid_bytes((#[trigger] old(self).docs()[i]).seq)
                    == id@ ==> r->Ok_0 == 1 && final (self).docs() == old(self).docs().remove(i),
    {
        let c = self.collection.delete_by_id(id);
        Ok(c as i64)
    }
}

/// Creating an entity and fetching the assigned identifier gives the entity
/// back, equal to the input except for the now-populated identifier field:
/// in the state after a create, the new identifier is present, and the
/// entity read under it is the input with its identifier set.
pub proof fn lemma_create_then_find<T: Entity>(docs: Seq<StoredDoc>, d: StoredDoc, m: <T as View>::V)
    requires
        seqs_increasing(docs),
        seqs_below(docs, d.seq),
        d.doc@ == T::payload_model(m),
    ensures
        has_id(docs.push(d), oid_bytes(d.seq)),
        forall|i: int|
            0 <= i < docs.push(d).len() && oid_bytes((#[trigger] docs.push(d)[i]).seq) == oid_bytes(
                d.seq,
            ) ==> decoded_entry::<T>(docs.push(d)[i]) == Some(
                T::with_id_model(T::clear_id_model(m), oid_bytes(d.seq)),
            ),
{
    let post = docs.push(d);
    assert(post[post.len() - 1] == d);
    T::lemma_decode_encode(m);
    assert forall|i: int|
        0 <= i < post.len() && oid_bytes((#[trigger] post[i]).seq) == oid_bytes(d.seq) implies
        decoded_entry::<T>(post[i]) == Some(
        T::with_id_model(T::clear_id_model(m), oid_bytes(d.seq)),
    ) by {
        if i < docs.len() {
            lemma_oid_bytes_injective(post[i].seq, d.seq);
            assert(docs[i] == post[i]);
            assert(false);
        } else {
            assert(post[i] == d);
        }
    }
}

/// Deleting by identifier is idempotent in effect: an identifier present in
/// the collection is found at exactly one place, and once that document is
/// removed the identifier is no longer present, so a repeated delete
/// removes nothing.
pub proof fn lemma_delete_by_id_idempotent(docs: Seq<StoredDoc>, i: int, id: Seq<u8>)
    requires
        seqs_increasing(docs),
        0 <= i < docs.len(),
        oid_bytes(docs[i].seq) == id,
    ensures
        has_id(docs, id),
        forall|j: int|
            0 <= j < docs.len() && oid_bytes((#[trigger] docs[j]).seq) == id ==> j == i,
        !has_id(docs.remove(i), id),
{
    assert forall|j: int|
        0 <= j < docs.len() && oid_bytes((#[trigger] docs[j]).seq) == id implies j == i by {
        lemma_oid_bytes_injective(docs[j].seq, docs[i].seq);
        if j < i {
            assert(docs[j].seq < docs[i].seq);
        } else if j > i {
            assert(docs[i].seq < docs[j].seq);
        }
    }
    let rest = docs.remove(i);
    assert forall|k: int| 0 <= k < rest.len() implies oid_bytes((#[trigger] rest[k]).seq)
        != id by {
        if k < i {
            assert(rest[k] == docs[k]);
        } else {
            assert(rest[k] == docs[k + 1]);
        }
    }
}

/// For any collection state the unfiltered count equals the number of
/// entities a successful listing returns: `count` with no filter is
/// specified to return the collection's size, and `index`, when every
/// document decodes, is specified to return exactly that many entities.
pub proof fn lemma_count_none_equals_index_len<T: Entity>(
    col: DbCollection<T>,
    n: i64,
    es: Seq<T>,
)
    requires
        n == col.docs().len(),
        es.len() == col.docs().len(),
    ensures
        n == es.len(),
{
}

/// With an empty filter every document matches: a filtered count over the
/// empty filter, the unfiltered count, and the number of entities `index`
/// returns all equal the collection's size.
pub proof fn lemma_matching_empty(docs: Seq<StoredDoc>)
    ensures
        matching(docs, Seq::empty()) == docs,
    decreases docs.len(),
{
    if docs.len() > 0 {
        lemma_matching_empty(docs.drop_last());
        assert(crate::document::doc_matches(docs.last().doc@, Seq::empty()));
        assert(docs.drop_last().push(docs.last()) =~= docs);
    }
}

} // verus!

//! The model store: one named collection of schema-less documents, each
//! under a store-assigned identifier. Identifiers are generated from a
//! monotone counter and never reused; every operation's effect on the
//! collection state is stated exactly.

use vstd::prelude::*;

use crate::document::{doc_matches, DocModel, Document};
use crate::oid::ObjectId;

verus! {

/// Largest counter value a collection will assign; keeps every count
/// representable as a signed 64-bit integer.
pub const MAX_SEQ: u64 = 0x7fff_ffff_ffff_ffff;

/// One persisted document together with the counter value its identifier
/// was generated from.
pub struct StoredDoc {
    pub seq: u64,
    pub doc: Document,
}

/// A named collection of documents inside the store.
pub struct Collection {
    pub name: String,
    pub next: u64,
    pub docs: Vec<StoredDoc>,
}

/// The 12 identifier bytes generated from a counter value: four zero bytes,
/// then the value big-endian.
pub open spec fn oid_bytes(seq: u64) -> Seq<u8> {
    Seq::new(
        12,
        |i: int|
            if i < 4 {
                0u8
            } else {
                (((seq >> (((11 - i) * 8) as u64)) & 0xff) as u8)
            },
    )
}

/// Distinct counter values give distinct identifiers.
pub proof fn lemma_oid_bytes_injective(a: u64, b: u64)
    requires
        oid_bytes(a) == oid_bytes(b),
    ensures
        a == b,
{
    assert(oid_bytes(a)[4] == ((a >> 56) & 0xff) as u8 && oid_bytes(b)[4] == ((b >> 56)
        & 0xff) as u8);
    assert(oid_bytes(a)[5] == ((a >> 48) & 0xff) as u8 && oid_bytes(b)[5] == ((b >> 48)
        & 0xff) as u8);
    assert(oid_bytes(a)[6] == ((a >> 40) & 0xff) as u8 && oid_bytes(b)[6] == ((b >> 40)
        & 0xff) as u8);
    assert(oid_bytes(a)[7] == ((a >> 32) & 0xff) as u8 && oid_bytes(b)[7] == ((b >> 32)
        & 0xff) as u8);
    assert(oid_bytes(a)[8] == ((a >> 24) & 0xff) as u8 && oid_bytes(b)[8] == ((b >> 24)
        & 0xff) as u8);
    assert(oid_bytes(a)[9] == ((a >> 16) & 0xff) as u8 && oid_bytes(b)[9] == ((b >> 16)
        & 0xff) as u8);
    assert(oid_bytes(a)[10] == ((a >> 8) & 0xff) as u8 && oid_bytes(b)[10] == ((b >> 8)
        & 0xff) as u8);
    assert(oid_bytes(a)[11] == ((a >> 0) & 0xff) as u8 && oid_bytes(b)[11] == ((b >> 0)
        & 0xff) as u8);
    assert((((a >> 56) & 0xff) as u8 == ((b >> 56) & 0xff) as u8 && ((a >> 48) & 0xff) as u8 == ((b
        >> 48) & 0xff) as u8 && ((a >> 40) & 0xff) as u8 == ((b >> 40) & 0xff) as u8 && ((a >> 32)
        & 0xff) as u8 == ((b >> 32) & 0xff) as u8 && ((a >> 24) & 0xff) as u8 == ((b >> 24)
        & 0xff) as u8 && ((a >> 16) & 0xff) as u8 == ((b >> 16) & 0xff) as u8 && ((a >> 8)
        & 0xff) as u8 == ((b >> 8) & 0xff) as u8 && ((a >> 0) & 0xff) as u8 == ((b >> 0)
        & 0xff) as u8) ==> a
        == b) by (bit_vector);
}

/// Builds the identifier for a counter value.
pub fn make_oid(seq: u64) -> (r: ObjectId)
    ensures
        r@ == oid_bytes(seq),
        r.wf(),
{
    let mut bytes: Vec<u8> = Vec::new();
    bytes.push(0);
    bytes.push(0);
    bytes.push(0);
    bytes.push(0);
    let mut k: usize = 0;
    while k < 8
        invariant
            0 <= k <= 8,
            bytes@.len() == 4 + k,
            forall|i: int| 0 <= i < 4 + k ==> bytes@[i] == oid_bytes(seq)[i],
        decreases 8 - k,
    {
        let shift: u64 = (7 - k as u64) * 8;
        let b: u64 = (seq >> shift) & 0xff;
        assert(b <= 0xff) by (bit_vector)
            requires
                b == (seq >> shift) & 0xff,
        ;
        bytes.push(b as u8);
        k += 1;
    }
    proof {
        assert(bytes@ =~= oid_bytes(seq));
    }
    ObjectId::from_bytes(bytes)
}

/// Counter values of stored documents grow strictly along the collection.
pub open spec fn seqs_increasing(docs: Seq<StoredDoc>) -> bool {
    forall|i: int, j: int| 0 <= i < j < docs.len() ==> docs[i].seq < docs[j].seq
}

/// Every stored counter value lies below a bound.
pub open spec fn seqs_below(docs: Seq<StoredDoc>, bound: u64) -> bool {
    forall|i: int| 0 <= i < docs.len() ==> (#[trigger] docs[i].seq) < bound
}

/// Some stored document carries this identifier.
pub open spec fn has_id(docs: Seq<StoredDoc>, id: Seq<u8>) -> bool {
    exists|i: int| 0 <= i < docs.len() && oid_bytes(#[trigger] docs[i].seq) == id
}

/// No stored document matches the filter.
pub open spec fn no_match(docs: Seq<StoredDoc>, f: DocModel) -> bool {
    forall|i: int| 0 <= i < docs.len() ==> !doc_matches((#[trigger] docs[i]).doc@, f)
}

/// The first document matching the filter stands at this index.
pub open spec fn first_match_at(docs: Seq<StoredDoc>, f: DocModel, i: int) -> bool {
    &&& 0 <= i < docs.len()
    &&& doc_matches(docs[i].doc@, f)
    &&& forall|j: int| 0 <= j < i ==> !doc_matches((#[trigger] docs[j]).doc@, f)
}

/// The stored documents that match a filter, in order.
pub open spec fn matching(docs: Seq<StoredDoc>, f: DocModel) -> Seq<StoredDoc>
    decreases docs.len(),
{
    if docs.len() == 0 {
        Seq::empty()
    } else if doc_matches(docs.last().doc@, f) {
        matching(docs.drop_last(), f).push(docs.last())
    } else {
        matching(docs.drop_last(), f)
    }
}

/// The stored documents that do not match a filter, in order.
pub open spec fn non_matching(docs: Seq<StoredDoc>, f: DocModel) -> Seq<StoredDoc>
    decreases docs.len(),
{
    if docs.len() == 0 {
        Seq::empty()
    } else if doc_matches(docs.last().doc@, f) {
        non_matching(docs.drop_last(), f)
    } else {
        non_matching(docs.drop_last(), f).push(docs.last())
    }
}

/// Matching and non-matching documents partition the collection.
pub proof fn lemma_partition(docs: Seq<StoredDoc>, f: DocModel)
    ensures
        matching(docs, f).len() + non_matching(docs, f).len() == docs.len(),
    decreases docs.len(),
{
    if docs.len() > 0 {
        lemma_partition(docs.drop_last(), f);
    }
}

/// Keeping the non-matching documents keeps the counter order and draws
/// every kept document from the original collection.
pub proof fn lemma_non_matching_wf(docs: Seq<StoredDoc>, f: DocModel)
    requires
        seqs_increasing(docs),
    ensures
        seqs_increasing(non_matching(docs, f)),
        forall|k: int|
            0 <= k < non_matching(docs, f).len() ==> exists|i: int|
                0 <= i < docs.len() && #[trigger] non_matching(docs, f)[k] == docs[i],
    decreases docs.len(),
{
    if docs.len() > 0 {
        assert(seqs_increasing(docs.drop_last()));
        lemma_non_matching_wf(docs.drop_last(), f);
        let r = non_matching(docs, f);
        assert forall|k: int| 0 <= k < r.len() implies exists|i: int|
            0 <= i < docs.len() && #[trigger] r[k] == docs[i] by {
            if doc_matches(docs.last().doc@, f) {
                let prev = non_matching(docs.drop_last(), f);
                let i = choose|i: int| 0 <= i < docs.drop_last().len() && prev[k] == docs.drop_last()[i];
                assert(r[k] == docs[i]);
            } else {
                if k < r.len() - 1 {
                    let prev = non_matching(docs.drop_last(), f);
                    let i = choose|i: int|
                        0 <= i < docs.drop_last().len() && prev[k] == docs.drop_last()[i];
                    assert(r[k] == docs[i]);
                } else {
                    assert(r[k] == docs[docs.len() - 1]);
                }
            }
        }
        assert forall|i: int, j: int| 0 <= i < j < r.len() implies r[i].seq < r[j].seq by {
            if doc_matches(docs.last().doc@, f) {
            } else {
                let prev = non_matching(docs.drop_last(), f);
                if j < r.len() - 1 {
                } else {
                    let m = choose|m: int|
                        0 <= m < docs.drop_last().len() && prev[i] == docs.drop_last()[m];
                    assert(r[i].seq == docs[m].seq);
                    assert(docs[m].seq < docs.last().seq);
                }
            }
        }
    }
}

/// In a strictly increasing collection the counter value at an index is at
/// least the index.
pub proof fn lemma_seq_at_least_index(docs: Seq<StoredDoc>, i: int)
    requires
        seqs_increasing(docs),
        0 <= i < docs.len(),
    ensures
        docs[i].seq >= i,
    decreases i,
{
    if i > 0 {
        lemma_seq_at_least_index(docs, i - 1);
    }
}

/// A strictly increasing collection below a bound holds at most that many
/// documents.
pub proof fn lemma_len_bound(docs: Seq<StoredDoc>, bound: u64)
    requires
        seqs_increasing(docs),
        seqs_below(docs, bound),
    ensures
        docs.len() <= bound,
{
    if docs.len() > 0 {
        lemma_seq_at_least_index(docs, docs.len() - 1);
    }
}

/// Removing one document keeps the counter order and the bound.
pub proof fn lemma_remove_wf(docs: Seq<StoredDoc>, i: int, bound: u64)
    requires
        seqs_increasing(docs),
        seqs_below(docs, bound),
        0 <= i < docs.len(),
    ensures
        seqs_increasing(docs.remove(i)),
        seqs_below(docs.remove(i), bound),
{
    let r = docs.remove(i);
    assert forall|k: int| 0 <= k < r.len() implies (#[trigger] r[k].seq) < bound by {
        if k < i {
            assert(r[k] == docs[k]);
        } else {
            assert(r[k] == docs[k + 1]);
        }
    }
    assert forall|k: int, m: int| 0 <= k < m < r.len() implies r[k].seq < r[m].seq by {
        if k < i {
            assert(r[k] == docs[k]);
        } else {
            assert(r[k] == docs[k + 1]);
        }
        if m < i {
            assert(r[m] == docs[m]);
        } else {
            assert(r[m] == docs[m + 1]);
        }
    }
}

impl Collection {
    /// A well-formed collection: counter values strictly increasing, all
    /// below the counter, and the counter within range.
    pub open spec fn wf(&self) -> bool {
        &&& seqs_increasing(self.docs@)
        &&& seqs_below(self.docs@, self.next)
        &&& self.next <= MAX_SEQ
    }

    /// An empty collection under a name. Construction performs no store
    /// work and cannot fail.
    pub fn new(name: String) -> (r: Collection)
        ensures
            r.wf(),
            r.name@ == name@,
            r.docs@.len() == 0,
            r.next == 0,
    {
        Collection { name, next: 0, docs: Vec::new() }
    }

    /// How many documents match; with no filter, how many there are.
    pub fn count(&self, filter: Option<&Document>) -> (r: i64)
        requires
            self.wf(),
        ensures
            match filter {
                None => r == self.docs@.len(),
                Some(f) => r == matching(self.docs@, f@).len(),
            },
            0 <= r <= self.docs@.len(),
    {
        proof {
            lemma_len_bound(self.docs@, self.next);
        }
        match filter {
            None => self.docs.len() as i64,
            Some(f) => {
                let n = self.docs.len();
                let mut cnt: usize = 0;
                let mut i: usize = 0;
                while i < n
                    invariant
                        n == self.docs@.len(),
                        0 <= i <= n,
                        cnt == matching(self.docs@.take(i as int), f@).len(),
                        cnt <= i,
                    decreases n - i,
                {
                    proof {
                        assert(self.docs@.take(i + 1).drop_last() =~= self.docs@.take(i as int));
                        assert(self.docs@.take(i + 1).last() == self.docs@[i as int]);
                    }
                    if self.docs[i].doc.matches(f) {
                        cnt += 1;
                    }
                    i += 1;
                }
                proof {
                    assert(self.docs@.take(n as int) =~= self.docs@);
                }
                cnt as i64
            },
        }
    }

    /// The document stored under an identifier, if any.
    pub fn find_by_id(&self, id: &ObjectId) -> (r: Option<&Document>)
        requires
            self.wf(),
        ensures
            r is Some <==> has_id(self.docs@, id@),
            forall|i: int|
                0 <= i < self.docs@.len() && oid_bytes((#[trigger] self.docs@[i]).seq) == id@
                    ==> r is Some && r->0@ == self.docs@[i].doc@,
    {
        let n = self.docs.len();
        let mut i: usize = 0;
        while i < n
            invariant
                self.wf(),
                n == self.docs@.len(),
                0 <= i <= n,
                forall|j: int| 0 <= j < i ==> oid_bytes((#[trigger] self.docs@[j]).seq) != id@,
            decreases n - i,
        {
            let oid = make_oid(self.docs[i].seq);
            if oid.equals(id) {
                proof {
                    assert forall|j: int|
                        0 <= j < self.docs@.len() && oid_bytes((#[trigger] self.docs@[j]).seq)
                            == id@ implies self.docs@[j].doc@ == self.docs@[i as int].doc@ by {
                        lemma_oid_bytes_injective(self.docs@[j].seq, self.docs@[i as int].seq);
                        if j < i {
                            assert(self.docs@[j].seq < self.docs@[i as int].seq);
                        } else if j > i {
                            assert(self.docs@[i as int].seq < self.docs@[j].seq);
                        }
                    }
                }
                return Some(&self.docs[i].doc);
            }
            i += 1;
        }
        None
    }

    /// Inserts a document under a fresh store-assigned identifier; returns
    /// the identifier, or nothing once the counter is exhausted.
    pub fn insert(&mut self, doc: Document) -> (r: Option<ObjectId>)
        requires
            old(self).wf(),
        ensures
            final (self).wf(),
            final (self).name@ == old(self).name@,
            old(self).next < MAX_SEQ ==> {
                &&& r is Some
                &&& r->0@ == oid_bytes(old(self).next)
                &&& r->0.wf()
                &&& final (self).docs@ == old(self).docs@.push(
                    (StoredDoc { seq: old(self).next, doc }),
                )
                &&& final (self).next == old(self).next + 1
            },
            old(self).next == MAX_SEQ ==> r is None && *final (self) == *old(self),
    {
        if self.next == MAX_SEQ {
            return None;
        }
        let seq = self.next;
        let id = make_oid(seq);
        self.docs.push(StoredDoc { seq, doc });
        self.next = seq + 1;
        Some(id)
    }

    /// Removes the document under an identifier, if there is one; says how
    /// many documents were removed (one or none). Removing an identifier
    /// that is not present is not an error: the count is zero and the
    /// collection is unchanged.
    pub fn delete_by_id(&mut self, id: &ObjectId) -> (r: u64)
        requires
            old(self).wf(),
        ensures
            final (self).wf(),
            final (self).name@ == old(self).name@,
            final (self).next == old(self).next,
            !has_id(old(self).docs@, id@) ==> r == 0 && *final (self) == *old(self),
            forall|i: int|
                0 <= i < old(self).docs@.len() && oid_bytes((#[trigger] old(self).docs@[i]).seq)
                    == id@ ==> r == 1 && final (self).docs@ == old(self).docs@.remove(i),
    {
        let n = self.docs.len();
        let mut i: usize = 0;
        while i < n
            invariant
                *self == *old(self),
                self.wf(),
                n == self.docs@.len(),
                0 <= i <= n,
                forall|j: int| 0 <= j < i ==> oid_bytes((#[trigger] self.docs@[j]).seq) != id@,
            decreases n - i,
        {
            let oid = make_oid(self.docs[i].seq);
            if oid.equals(id) {
                proof {
                    assert forall|j: int|
                        0 <= j < self.docs@.len() && oid_bytes((#[trigger] self.docs@[j]).seq)
                            == id@ implies j == i as int by {
                        lemma_oid_bytes_injective(self.docs@[j].seq, self.docs@[i as int].seq);
                        if j < i {
                            assert(self.docs@[j].seq < self.docs@[i as int].seq);
                        } else if j > i {
                            assert(self.docs@[i as int].seq < self.docs@[j].seq);
                        }
                    }
                    lemma_remove_wf(self.docs@, i as int, self.next);
                }
                self.docs.remove(i);
                return 1;
            }
            i += 1;
        }
        0
    }

    /// Removes the first document that matches a filter; says how many
    /// documents were removed (one or none).
    pub fn delete_one(&mut self, filter: &Document) -> (r: u64)
        requires
            old(self).wf(),
        ensures
            final (self).wf(),
            final (self).name@ == old(self).name@,
            final (self).next == old(self).next,
            r == 0 || r == 1,
            no_match(old(self).docs@, filter@) ==> r == 0 && *final (self) == *old(self),
            forall|i: int|
                #[trigger] first_match_at(old(self).docs@, filter@, i) ==> r == 1
                    && final (self).docs@ == old(self).docs@.remove(i),
    {
        let n = self.docs.len();
        let mut i: usize = 0;
        while i < n
            invariant
                *self == *old(self),
                self.wf(),
                n == self.docs@.len(),
                0 <= i <= n,
                forall|j: int|
                    0 <= j < i ==> !doc_matches((#[trigger] self.docs@[j]).doc@, filter@),
            decreases n - i,
        {
            if self.docs[i].doc.matches(filter) {
                proof {
                    lemma_remove_wf(self.docs@, i as int, self.next);
                }
                self.docs.remove(i);
                return 1;
            }
            i += 1;
        }
        0
    }

    /// Removes every document that matches a filter; says how many were
    /// removed.
    pub fn delete_many(&mut self, filter: &Document) -> (r: i64)
        requires
            old(self).wf(),
        ensures
            final (self).wf(),
            final (self).name@ == old(self).name@,
            final (self).next == old(self).next,
            final (self).docs@ == non_matching(old(self).docs@, filter@),
            r == matching(old(self).docs@, filter@).len(),
    {
        proof {
            lemma_len_bound(self.docs@, self.next);
        }
        let ghost orig = self.docs@;
        let orig_len = self.docs.len();
        let mut i: usize = 0;
        let ghost mut j: int = 0;
        proof {
            assert(orig.take(0) =~= Seq::<StoredDoc>::empty());
            assert(orig.skip(0) =~= orig);
            assert(self.docs@ =~= non_matching(orig.take(0), filter@) + orig.skip(0));
        }
        while i < self.docs.len()
            invariant
                seqs_increasing(orig),
                seqs_below(orig, self.next),
                self.next == old(self).next,
                self.next <= MAX_SEQ,
                self.name@ == old(self).name@,
                orig == old(self).docs@,
                orig_len == orig.len(),
                0 <= j <= orig.len(),
                i == non_matching(orig.take(j), filter@).len(),
                self.docs@ == non_matching(orig.take(j), filter@) + orig.skip(j),
            decreases orig.len() - j,
        {
            proof {
                assert(j < orig.len());
                assert(orig.take(j + 1).drop_last() =~= orig.take(j));
                assert(orig.take(j + 1).last() == orig[j]);
                assert(self.docs@[i as int] == orig.skip(j)[0]);
                assert(orig.skip(j)[0] == orig[j]);
            }
            if self.docs[i].doc.matches(filter) {
                proof {
                    let a = non_matching(orig.take(j), filter@);
                    assert(self.docs@.remove(i as int) =~= a + orig.skip(j + 1));
                    assert(non_matching(orig.take(j + 1), filter@) == a);
                }
                self.docs.remove(i);
                proof {
                    j = j + 1;
                }
            } else {
                proof {
                    let a = non_matching(orig.take(j), filter@);
                    assert(non_matching(orig.take(j + 1), filter@) == a.push(orig[j]));
                    assert(self.docs@ =~= a.push(orig[j]) + orig.skip(j + 1));
                }
                i += 1;
                proof {
                    j = j + 1;
                }
            }
        }
        proof {
            assert(j == orig.len());
            assert(orig.take(j) =~= orig);
            assert(orig.skip(j) =~= Seq::<StoredDoc>::empty());
            assert(self.docs@ =~= non_matching(orig, filter@));
            lemma_partition(orig, filter@);
            lemma_non_matching_wf(orig, filter@);
            assert forall|k: int| 0 <= k < self.docs@.len() implies (#[trigger] self.docs@[k].seq)
                < self.next by {
                let m = choose|m: int|
                    0 <= m < orig.len() && non_matching(orig, filter@)[k] == orig[m];
                assert(self.docs@[k] == orig[m]);
            }
        }
        (orig_len - self.docs.len()) as i64
    }
}

} // verus!

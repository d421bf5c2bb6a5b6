//! The schema-less document representation at the store boundary: a tagged
//! union of primitives, arrays and maps, used only at the serialize /
//! deserialize seam and modelled by ghost sequences of key / value pairs.

use vstd::prelude::*;
use vstd::string::StringSliceAdditionalSpecFns;

use crate::oid::ObjectId;

verus! {

/// Ghost model of a document value.
pub enum ValueModel {
    Null,
    Bool(bool),
    Int32(i32),
    Int64(i64),
    Text(Seq<char>),
    Id(Seq<u8>),
    Array(Seq<ValueModel>),
    Doc(Seq<(Seq<char>, ValueModel)>),
}

/// Ghost model of a document: its fields in order.
pub type DocModel = Seq<(Seq<char>, ValueModel)>;

/// A document value: the only shapes that cross the store boundary.
pub enum Value {
    Null,
    Bool(bool),
    Int32(i32),
    Int64(i64),
    Text(String),
    Id(ObjectId),
    Array(Vec<Value>),
    Doc(Document),
}

/// One named field of a document.
pub struct Field {
    pub key: String,
    pub value: Value,
}

/// A schema-less document: an ordered list of named fields.
pub struct Document {
    pub fields: Vec<Field>,
}

/// Ghost model of a value.
pub open spec fn value_model(v: Value) -> ValueModel
    decreases v,
{
    match v {
        Value::Null => ValueModel::Null,
        Value::Bool(b) => ValueModel::Bool(b),
        Value::Int32(n) => ValueModel::Int32(n),
        Value::Int64(n) => ValueModel::Int64(n),
        Value::Text(s) => ValueModel::Text(s@),
        Value::Id(id) => ValueModel::Id(id@),
        Value::Array(items) => ValueModel::Array(values_model(items@)),
        Value::Doc(d) => ValueModel::Doc(fields_model(d.fields@)),
    }
}

/// Ghost models of a sequence of values, in order.
pub open spec fn values_model(s: Seq<Value>) -> Seq<ValueModel>
    decreases s,
{
    if s.len() == 0 {
        Seq::empty()
    } else {
        values_model(s.drop_last()).push(value_model(s.last()))
    }
}

/// Ghost models of a sequence of fields, in order.
pub open spec fn fields_model(fs: Seq<Field>) -> DocModel
    decreases fs,
{
    if fs.len() == 0 {
        Seq::empty()
    } else {
        fields_model(fs.drop_last()).push((fs.last().key@, value_model(fs.last().value)))
    }
}

impl View for Value {
    type V = ValueModel;

    open spec fn view(&self) -> ValueModel {
        value_model(*self)
    }
}

impl View for Document {
    type V = DocModel;

    open spec fn view(&self) -> DocModel {
        fields_model(self.fields@)
    }
}

/// The model of a value sequence has one entry per value.
pub proof fn lemma_values_model(s: Seq<Value>)
    ensures
        values_model(s).len() == s.len(),
        forall|i: int| 0 <= i < s.len() ==> values_model(s)[i] == value_model(#[trigger] s[i]),
    decreases s,
{
    if s.len() > 0 {
        lemma_values_model(s.drop_last());
        assert forall|i: int| 0 <= i < s.len() implies values_model(s)[i] == value_model(
            #[trigger] s[i],
        ) by {
            if i < s.len() - 1 {
                assert(s.drop_last()[i] == s[i]);
                assert(values_model(s)[i] == values_model(s.drop_last())[i]);
            } else {
                assert(s.last() == s[i]);
            }
        }
    }
}

/// The model of a field sequence has one pair per field.
pub proof fn lemma_fields_model(fs: Seq<Field>)
    ensures
        fields_model(fs).len() == fs.len(),
        forall|i: int|
            0 <= i < fs.len() ==> fields_model(fs)[i] == ((#[trigger] fs[i]).key@, value_model(
                fs[i].value,
            )),
    decreases fs,
{
    if fs.len() > 0 {
        lemma_fields_model(fs.drop_last());
        assert forall|i: int| 0 <= i < fs.len() implies fields_model(fs)[i] == ((
        #[trigger] fs[i]).key@, value_model(fs[i].value)) by {
            if i < fs.len() - 1 {
                assert(fs.drop_last()[i] == fs[i]);
                assert(fields_model(fs)[i] == fields_model(fs.drop_last())[i]);
            } else {
                assert(fs.last() == fs[i]);
            }
        }
    }
}

/// The value under the first occurrence of a key, if any.
pub open spec fn doc_get(d: DocModel, k: Seq<char>) -> Option<ValueModel>
    decreases d.len(),
{
    if d.len() == 0 {
        None
    } else if d[0].0 == k {
        Some(d[0].1)
    } else {
        doc_get(d.drop_first(), k)
    }
}

/// Looking a key up skips a leading field under a different key.
pub proof fn lemma_doc_get_skip(d: DocModel, k: Seq<char>)
    requires
        d.len() > 0,
        d[0].0 != k,
    ensures
        doc_get(d, k) == doc_get(d.drop_first(), k),
{
}

/// A document matches a filter when every field of the filter is present in
/// the document (under first-occurrence lookup) with an equal value.
pub open spec fn doc_matches(d: DocModel, f: DocModel) -> bool {
    forall|i: int| 0 <= i < f.len() ==> doc_get(d, (#[trigger] f[i]).0) == Some(f[i].1)
}

/// String equality, decided byte for byte.
pub fn str_eq(a: &str, b: &str) -> (r: bool)
    ensures
        r == (a@ == b@),
{
    proof {
        vstd::utf8::encode_utf8_decode_utf8(a@);
        vstd::utf8::encode_utf8_decode_utf8(b@);
    }
    let ab = a.as_bytes();
    let bb = b.as_bytes();
    if ab.len() != bb.len() {
        return false;
    }
    let n = ab.len();
    let mut i: usize = 0;
    while i < n
        invariant
            n == ab@.len() == bb@.len(),
            ab@ == a.spec_bytes(),
            bb@ == b.spec_bytes(),
            a@ == vstd::utf8::decode_utf8(a.spec_bytes()),
            b@ == vstd::utf8::decode_utf8(b.spec_bytes()),
            0 <= i <= n,
            forall|j: int| 0 <= j < i ==> ab@[j] == bb@[j],
        decreases n - i,
    {
        if ab[i] != bb[i] {
            return false;
        }
        i += 1;
    }
    proof {
        assert(ab@ =~= bb@);
    }
    true
}

/// Equality of two document values, decided structurally.
pub fn value_eq(a: &Value, b: &Value) -> (r: bool)
    ensures
        r == (a@ == b@),
    decreases *a,
{
    match a {
        Value::Null => match b {
            Value::Null => true,
            _ => false,
        },
        Value::Bool(x) => match b {
            Value::Bool(y) => x == y,
            _ => false,
        },
        Value::Int32(x) => match b {
            Value::Int32(y) => x == y,
            _ => false,
        },
        Value::Int64(x) => match b {
            Value::Int64(y) => x == y,
            _ => false,
        },
        Value::Text(x) => match b {
            Value::Text(y) => str_eq(x.as_str(), y.as_str()),
            _ => false,
        },
        Value::Id(x) => match b {
            Value::Id(y) => x.equals(y),
            _ => false,
        },
        Value::Array(x) => match b {
            Value::Array(y) => {
                proof {
                    lemma_values_model(x@);
                    lemma_values_model(y@);
                }
                if x.len() != y.len() {
                    return false;
                }
                let n = x.len();
                let mut i: usize = 0;
                while i < n
                    invariant
                        *a == Value::Array(*x),
                        *b == Value::Array(*y),
                        n == x@.len() == y@.len(),
                        0 <= i <= n,
                        values_model(x@).len() == n && values_model(y@).len() == n,
                        forall|j: int|
                            0 <= j < n ==> values_model(x@)[j] == value_model(#[trigger] x@[j]),
                        forall|j: int|
                            0 <= j < n ==> values_model(y@)[j] == value_model(#[trigger] y@[j]),
                        forall|j: int| 0 <= j < i ==> values_model(x@)[j] == values_model(y@)[j],
                    decreases n - i,
                {
                    proof {
                        assert(decreases_to!(*a => a->Array_0@[i as int]));
                        assert(a->Array_0@[i as int] == x@[i as int]);
                    }
                    if !value_eq(&x[i], &y[i]) {
                        proof {
                            assert(values_model(x@)[i as int] != values_model(y@)[i as int]);
                        }
                        return false;
                    }
                    i += 1;
                }
                proof {
                    assert(values_model(x@) =~= values_model(y@));
                }
                true
            },
            _ => false,
        },
        Value::Doc(x) => match b {
            Value::Doc(y) => doc_eq(x, y),
            _ => false,
        },
    }
}

/// Equality of two documents, decided field by field.
pub fn doc_eq(a: &Document, b: &Document) -> (r: bool)
    ensures
        r == (a@ == b@),
    decreases *a,
{
    proof {
        lemma_fields_model(a.fields@);
        lemma_fields_model(b.fields@);
    }
    if a.fields.len() != b.fields.len() {
        return false;
    }
    let n = a.fields.len();
    let mut i: usize = 0;
    while i < n
        invariant
            n == a.fields@.len() == b.fields@.len(),
            0 <= i <= n,
            a@.len() == n && b@.len() == n,
            forall|j: int|
                0 <= j < n ==> a@[j] == ((#[trigger] a.fields@[j]).key@, value_model(
                    a.fields@[j].value,
                )),
            forall|j: int|
                0 <= j < n ==> b@[j] == ((#[trigger] b.fields@[j]).key@, value_model(
                    b.fields@[j].value,
                )),
            forall|j: int| 0 <= j < i ==> a@[j] == b@[j],
        decreases n - i,
    {
        if !str_eq(a.fields[i].key.as_str(), b.fields[i].key.as_str()) {
            proof {
                assert(a@[i as int] != b@[i as int]);
            }
            return false;
        }
        if !value_eq(&a.fields[i].value, &b.fields[i].value) {
            proof {
                assert(a@[i as int] != b@[i as int]);
            }
            return false;
        }
        i += 1;
    }
    proof {
        assert(a@ =~= b@);
    }
    true
}

impl Document {
    /// An empty document.
    pub fn new() -> (r: Document)
        ensures
            r@ == Seq::<(Seq<char>, ValueModel)>::empty(),
    {
        Document { fields: Vec::new() }
    }

    /// Appends one field.
    pub fn push_field(&mut self, key: String, value: Value)
        ensures
            final (self)@ == old(self)@.push((key@, value@)),
    {
        proof {
            lemma_fields_model(self.fields@.push(Field { key, value }));
            assert(self.fields@.push(Field { key, value }).drop_last() =~= self.fields@);
        }
        self.fields.push(Field { key, value });
    }

    /// The value under the first occurrence of a key, if any.
    pub fn get(&self, key: &str) -> (r: Option<&Value>)
        ensures
            match r {
                Some(v) => doc_get(self@, key@) == Some(v@),
                None => doc_get(self@, key@) is None,
            },
    {
        proof {
            lemma_fields_model(self.fields@);
        }
        let n = self.fields.len();
        let mut i: usize = 0;
        proof {
            assert(self@.skip(0) =~= self@);
        }
        while i < n
            invariant
                n == self.fields@.len(),
                0 <= i <= n,
                self@.len() == n,
                forall|j: int|
                    0 <= j < n ==> self@[j] == ((#[trigger] self.fields@[j]).key@, value_model(
                        self.fields@[j].value,
                    )),
                doc_get(self@, key@) == doc_get(self@.skip(i as int), key@),
            decreases n - i,
        {
            if str_eq(self.fields[i].key.as_str(), key) {
                proof {
                    assert(self@.skip(i as int)[0] == self@[i as int]);
                }
                return Some(&self.fields[i].value);
            }
            proof {
                assert(self@.skip(i as int)[0] == self@[i as int]);
                assert(self@.skip(i as int).drop_first() =~= self@.skip(i + 1));
            }
            i += 1;
        }
        proof {
            assert(self@.skip(n as int).len() == 0);
        }
        None
    }

    /// Whether this document matches a filter: every field of the filter is
    /// present here with an equal value.
    pub fn matches(&self, filter: &Document) -> (r: bool)
        ensures
            r == doc_matches(self@, filter@),
    {
        proof {
            lemma_fields_model(filter.fields@);
        }
        let n = filter.fields.len();
        let mut i: usize = 0;
        while i < n
            invariant
                n == filter.fields@.len(),
                0 <= i <= n,
                filter@.len() == n,
                forall|j: int|
                    0 <= j < n ==> filter@[j] == ((#[trigger] filter.fields@[j]).key@, value_model(
                        filter.fields@[j].value,
                    )),
                forall|j: int|
                    0 <= j < i ==> doc_get(self@, (#[trigger] filter@[j]).0) == Some(filter@[j].1),
            decreases n - i,
        {
            let found = self.get(filter.fields[i].key.as_str());
            match found {
                Some(v) => {
                    if !value_eq(v, &filter.fields[i].value) {
                        proof {
                            assert(doc_get(self@, filter@[i as int].0) != Some(
                                filter@[i as int].1,
                            ));
                        }
                        return false;
                    }
                },
                None => {
                    proof {
                        assert(doc_get(self@, filter@[i as int].0) is None);
                    }
                    return false;
                },
            }
            i += 1;
        }
        true
    }
}

} // verus!

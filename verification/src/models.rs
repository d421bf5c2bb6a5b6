//! The entity definitions: plain data shapes for Post, Product and Contact
//! with a nominal identity field, and their verified document mappings.

use vstd::prelude::*;
use vstd::string::StringExecFns;

use crate::document::{lemma_doc_get_skip, DocModel, Document, Value, ValueModel};
use crate::entity::{
    bool_field, derived_name, doc_field, i32_field, id_value_model, opt_id_field, opt_text_field,
    read_bool, read_doc, read_i32, read_opt_id, read_opt_text, read_text, text_field, Entity,
};
use crate::oid::ObjectId;

verus! {

/// The document value of an optional text field: null when absent.
pub open spec fn opt_text_value(o: Option<Seq<char>>) -> ValueModel {
    match o {
        None => ValueModel::Null,
        Some(s) => ValueModel::Text(s),
    }
}

/// Ghost model of a product.
pub struct ProductModel {
    pub id: Option<Seq<u8>>,
    pub category: Seq<char>,
    pub description: Seq<char>,
    pub image_url: Option<Seq<char>>,
    pub url: Seq<char>,
    pub comentary_count: i32,
    pub like_count: i32,
    pub received: bool,
}

/// A product that can be posted about.
pub struct Product {
    pub id: Option<ObjectId>,
    pub category: String,
    pub description: String,
    pub image_url: Option<String>,
    pub url: String,
    pub comentary_count: i32,
    pub like_count: i32,
    pub received: bool,
}

impl View for Product {
    type V = ProductModel;

    open spec fn view(&self) -> ProductModel {
        ProductModel {
            id: match self.id {
                Some(o) => Some(o@),
                None => None,
            },
            category: self.category@,
            description: self.description@,
            image_url: match self.image_url {
                Some(s) => Some(s@),
                None => None,
            },
            url: self.url@,
            comentary_count: self.comentary_count,
            like_count: self.like_count,
            received: self.received,
        }
    }
}

/// The embedded form of a product: its identifier field first, then its
/// payload.
pub open spec fn embedded_product_model(p: ProductModel) -> DocModel {
    seq![("_id"@, id_value_model(p.id))] + Product::payload_model(p)
}

/// The product read back from its embedded form, if it decodes.
pub open spec fn decode_embedded_product(d: DocModel) -> Option<ProductModel> {
    match (opt_id_field(d, "_id"@), Product::decode_model(d)) {
        (Some(id), Some(pm)) => Some(
            (ProductModel {
                id,
                category: pm.category,
                description: pm.description,
                image_url: pm.image_url,
                url: pm.url,
                comentary_count: pm.comentary_count,
                like_count: pm.like_count,
                received: pm.received,
            }),
        ),
        _ => None,
    }
}

impl Product {
    /// Appends the payload fields to a document.
    fn push_payload(&self, d: &mut Document)
        ensures
            final (d)@ == old(d)@ + Self::payload_model(self@),
    {
        d.push_field(
            String::from_str("category"),
            Value::Text(self.category.clone()),
        );
        d.push_field(
            String::from_str("description"),
            Value::Text(self.description.clone()),
        );
        let img = match &self.image_url {
            None => Value::Null,
            Some(s) => Value::Text(s.clone()),
        };
        d.push_field(String::from_str("image_url"), img);
        d.push_field(String::from_str("url"), Value::Text(self.url.clone()));
        d.push_field(String::from_str("comentary_count"), Value::Int32(self.comentary_count));
        d.push_field(String::from_str("like_count"), Value::Int32(self.like_count));
        d.push_field(String::from_str("received"), Value::Bool(self.received));
        proof {
            assert(final (d)@ =~= old(d)@ + Self::payload_model(self@));
        }
    }

    /// Serializes the product in its embedded form, identifier included.
    pub fn encode_embedded(&self) -> (d: Document)
        ensures
            d@ == embedded_product_model(self@),
    {
        let mut d = Document::new();
        let idv = match &self.id {
            None => Value::Null,
            Some(o) => Value::Id(o.dup()),
        };
        d.push_field(String::from_str("_id"), idv);
        self.push_payload(&mut d);
        proof {
            assert(d@ =~= embedded_product_model(self@));
        }
        d
    }

    /// Deserializes a product from its embedded form.
    pub fn decode_embedded(d: &Document) -> (r: Option<Product>)
        ensures
            match r {
                Some(p) => decode_embedded_product(d@) == Some(p@),
                None => decode_embedded_product(d@) is None,
            },
    {
        let id = match read_opt_id(d, "_id") {
            Some(id) => id,
            None => {
                return None;
            },
        };
        match Product::decode(d) {
            Some(p) => Some(Product { id, ..p }),
            None => None,
        }
    }

    /// Decoding an embedded product undoes its embedded serialization.
    pub proof fn lemma_decode_embedded(m: ProductModel)
        ensures
            decode_embedded_product(embedded_product_model(m)) == Some(m),
    {
        reveal_strlit("_id");
        reveal_strlit("category");
        reveal_strlit("description");
        reveal_strlit("image_url");
        reveal_strlit("url");
        reveal_strlit("comentary_count");
        reveal_strlit("like_count");
        reveal_strlit("received");
        let d = embedded_product_model(m);
        let p = Product::payload_model(m);
        assert(d.len() == 8);
        assert(d.drop_first() =~= p);
        assert(crate::document::doc_get(d, "_id"@) == Some(id_value_model(m.id)));
        assert(opt_id_field(d, "_id"@) == Some(m.id));
        assert(d[0] == ("_id"@, id_value_model(m.id)));
        assert("_id"@.len() == 3 && "category"@.len() == 8);
        assert(d[0].0 != "category"@);
        assert(crate::document::doc_get(d, "category"@) == crate::document::doc_get(
            d.drop_first(),
            "category"@,
        ));
        assert(crate::document::doc_get(d, "category"@) == crate::document::doc_get(
            p,
            "category"@,
        ));
        assert(text_field(d, "category"@) == text_field(p, "category"@));
        assert(text_field(d, "description"@) == text_field(p, "description"@));
        assert(opt_text_field(d, "image_url"@) == opt_text_field(p, "image_url"@));
        assert("_id"@[0] != "url"@[0]);
        assert(d[0].0 != "url"@);
        assert(text_field(d, "url"@) == text_field(p, "url"@));
        assert(i32_field(d, "comentary_count"@) == i32_field(p, "comentary_count"@));
        assert(i32_field(d, "like_count"@) == i32_field(p, "like_count"@));
        assert(bool_field(d, "received"@) == bool_field(p, "received"@));
        Self::payload_round_trip(m);
        assert(Product::decode_model(d) == Product::decode_model(p));
    }

    /// Decoding a product payload undoes its payload serialization.
    proof fn payload_round_trip(m: ProductModel)
        ensures
            Self::decode_model(Self::payload_model(m)) == Some(Self::clear_id_model(m)),
    {
        reveal_strlit("category");
        reveal_strlit("description");
        reveal_strlit("image_url");
        reveal_strlit("url");
        reveal_strlit("comentary_count");
        reveal_strlit("like_count");
        reveal_strlit("received");
        let p = Self::payload_model(m);
        let p1 = p.drop_first();
        let p2 = p1.drop_first();
        let p3 = p2.drop_first();
        let p4 = p3.drop_first();
        let p5 = p4.drop_first();
        assert(p.len() == 7);
        assert("category"@.len() == 8 && "description"@.len() == 11 && "image_url"@.len() == 9
            && "url"@.len() == 3 && "comentary_count"@.len() == 15 && "like_count"@.len() == 10
            && "received"@.len() == 8);
        assert("category"@[0] != "received"@[0]);
        assert(p1[0] == p[1] && p1.len() == 6);
        assert(p2[0] == p[2] && p2.len() == 5);
        assert(p3[0] == p[3] && p3.len() == 4);
        assert(p4[0] == p[4] && p4.len() == 3);
        assert(p5[0] == p[5] && p5.len() == 2);
        assert(text_field(p, "category"@) == Some(m.category));
        lemma_doc_get_skip(p, "description"@);
        assert(text_field(p, "description"@) == Some(m.description));
        lemma_doc_get_skip(p, "image_url"@);
        lemma_doc_get_skip(p1, "image_url"@);
        assert(opt_text_field(p, "image_url"@) == Some(m.image_url));
        lemma_doc_get_skip(p, "url"@);
        lemma_doc_get_skip(p1, "url"@);
        lemma_doc_get_skip(p2, "url"@);
        assert(text_field(p, "url"@) == Some(m.url));
        lemma_doc_get_skip(p, "comentary_count"@);
        lemma_doc_get_skip(p1, "comentary_count"@);
        lemma_doc_get_skip(p2, "comentary_count"@);
        lemma_doc_get_skip(p3, "comentary_count"@);
        assert(i32_field(p, "comentary_count"@) == Some(m.comentary_count));
        lemma_doc_get_skip(p, "like_count"@);
        lemma_doc_get_skip(p1, "like_count"@);
        lemma_doc_get_skip(p2, "like_count"@);
        lemma_doc_get_skip(p3, "like_count"@);
        lemma_doc_get_skip(p4, "like_count"@);
        assert(i32_field(p, "like_count"@) == Some(m.like_count));
        lemma_doc_get_skip(p, "received"@);
        lemma_doc_get_skip(p1, "received"@);
        lemma_doc_get_skip(p2, "received"@);
        lemma_doc_get_skip(p3, "received"@);
        lemma_doc_get_skip(p4, "received"@);
        lemma_doc_get_skip(p5, "received"@);
        assert(bool_field(p, "received"@) == Some(m.received));
    }
}

impl Entity for Product {
    open spec fn simple_name() -> Seq<char> {
        "Product"@
    }

    open spec fn id_model(m: ProductModel) -> Option<Seq<u8>> {
        m.id
    }

    open spec fn payload_model(m: ProductModel) -> DocModel {
        seq![
            ("category"@, ValueModel::Text(m.category)),
            ("description"@, ValueModel::Text(m.description)),
            ("image_url"@, opt_text_value(m.image_url)),
            ("url"@, ValueModel::Text(m.url)),
            ("comentary_count"@, ValueModel::Int32(m.comentary_count)),
            ("like_count"@, ValueModel::Int32(m.like_count)),
            ("received"@, ValueModel::Bool(m.received)),
        ]
    }

    open spec fn decode_model(d: DocModel) -> Option<ProductModel> {
        match (
            text_field(d, "category"@),
            text_field(d, "description"@),
            opt_text_field(d, "image_url"@),
            text_field(d, "url"@),
            i32_field(d, "comentary_count"@),
            i32_field(d, "like_count"@),
            bool_field(d, "received"@),
        ) {
            (
                Some(category),
                Some(description),
                Some(image_url),
                Some(url),
                Some(comentary_count),
                Some(like_count),
                Some(received),
            ) => Some(
                (ProductModel {
                    id: None,
                    category,
                    description,
                    image_url,
                    url,
                    comentary_count,
                    like_count,
                    received,
                }),
            ),
            _ => None,
        }
    }

    open spec fn with_id_model(m: ProductModel, id: Seq<u8>) -> ProductModel {
        ProductModel { id: Some(id), ..m }
    }

    open spec fn clear_id_model(m: ProductModel) -> ProductModel {
        ProductModel { id: None, ..m }
    }

    fn collection_name() -> (r: String)
        ensures
            r@ == derived_name(Self::simple_name()),
    {
        let r = String::from_str("products");
        proof {
            reveal_strlit("products");
            reveal_strlit("Product");
            assert(r@ =~= derived_name(Self::simple_name()));
        }
        r
    }

    fn encode(&self) -> (d: Document)
        ensures
            d@ == Self::payload_model(self@),
    {
        let mut d = Document::new();
        self.push_payload(&mut d);
        proof {
            assert(d@ =~= Self::payload_model(self@));
        }
        d
    }

    fn encode_with_id(&self) -> (d: Document)
        ensures
            d@ == seq![("_id"@, id_value_model(Self::id_model(self@)))] + Self::payload_model(
                self@,
            ),
    {
        let d = self.encode_embedded();
        d
    }

    fn decode(d: &Document) -> (r: Option<Product>)
        ensures
            match r {
                Some(e) => Self::decode_model(d@) == Some(e@),
                None => Self::decode_model(d@) is None,
            },
    {
        let category = match read_text(d, "category") {
            Some(s) => s,
            None => {
                return None;
            },
        };
        let description = match read_text(d, "description") {
            Some(s) => s,
            None => {
                return None;
            },
        };
        let image_url = match read_opt_text(d, "image_url") {
            Some(o) => o,
            None => {
                return None;
            },
        };
        let url = match read_text(d, "url") {
            Some(s) => s,
            None => {
                return None;
            },
        };
        let comentary_count = match read_i32(d, "comentary_count") {
            Some(n) => n,
            None => {
                return None;
            },
        };
        let like_count = match read_i32(d, "like_count") {
            Some(n) => n,
            None => {
                return None;
            },
        };
        let received = match read_bool(d, "received") {
            Some(b) => b,
            None => {
                return None;
            },
        };
        Some(
            Product {
                id: None,
                category,
                description,
                image_url,
                url,
                comentary_count,
                like_count,
                received,
            },
        )
    }

    fn with_id(self, id: &ObjectId) -> (r: Product)
        ensures
            r@ == Self::with_id_model(self@, id@),
    {
        Product { id: Some(id.dup()), ..self }
    }

    proof fn lemma_decode_encode(m: ProductModel)
        ensures
            Self::decode_model(Self::payload_model(m)) == Some(Self::clear_id_model(m)),
    {
        Self::payload_round_trip(m);
    }

    proof fn lemma_with_id_clear(m: ProductModel, id: Seq<u8>)
        ensures
            Self::id_model(Self::with_id_model(m, id)) == Some(id),
            Self::clear_id_model(Self::with_id_model(m, id)) == Self::clear_id_model(m),
            Self::id_model(m) == Some(id) ==> Self::with_id_model(Self::clear_id_model(m), id)
                == m,
    {
    }
}

/// Ghost model of a post.
pub struct PostModel {
    pub id: Option<Seq<u8>>,
    pub user_image: Option<Seq<char>>,
    pub user_name: Seq<char>,
    pub product: ProductModel,
}

/// A post: a user showing a product.
pub struct Post {
    pub id: Option<ObjectId>,
    pub user_image: Option<String>,
    pub user_name: String,
    pub product: Product,
}

impl View for Post {
    type V = PostModel;

    open spec fn view(&self) -> PostModel {
        PostModel {
            id: match self.id {
                Some(o) => Some(o@),
                None => None,
            },
            user_image: match self.user_image {
                Some(s) => Some(s@),
                None => None,
            },
            user_name: self.user_name@,
            product: self.product@,
        }
    }
}

impl Entity for Post {
    open spec fn simple_name() -> Seq<char> {
        "Post"@
    }

    open spec fn id_model(m: PostModel) -> Option<Seq<u8>> {
        m.id
    }

    open spec fn payload_model(m: PostModel) -> DocModel {
        seq![
            ("user_image"@, opt_text_value(m.user_image)),
            ("user_name"@, ValueModel::Text(m.user_name)),
            ("product"@, ValueModel::Doc(embedded_product_model(m.product))),
        ]
    }

    open spec fn decode_model(d: DocModel) -> Option<PostModel> {
        match (
            opt_text_field(d, "user_image"@),
            text_field(d, "user_name"@),
            doc_field(d, "product"@),
        ) {
            (Some(user_image), Some(user_name), Some(pd)) => match decode_embedded_product(pd) {
                Some(product) => Some(
                    (PostModel { id: None, user_image, user_name, product }),
                ),
                None => None,
            },
            _ => None,
        }
    }

    open spec fn with_id_model(m: PostModel, id: Seq<u8>) -> PostModel {
        PostModel { id: Some(id), ..m }
    }

    open spec fn clear_id_model(m: PostModel) -> PostModel {
        PostModel { id: None, ..m }
    }

    fn collection_name() -> (r: String)
        ensures
            r@ == derived_name(Self::simple_name()),
    {
        let r = String::from_str("posts");
        proof {
            reveal_strlit("posts");
            reveal_strlit("Post");
            assert(r@ =~= derived_name(Self::simple_name()));
        }
        r
    }

    fn encode(&self) -> (d: Document)
        ensures
            d@ == Self::payload_model(self@),
    {
        let mut d = Document::new();
        self.push_payload(&mut d);
        proof {
            assert(d@ =~= Self::payload_model(self@));
        }
        d
    }

    fn encode_with_id(&self) -> (d: Document)
        ensures
            d@ == seq![("_id"@, id_value_model(Self::id_model(self@)))] + Self::payload_model(
                self@,
            ),
    {
        let mut d = Document::new();
        let idv = match &self.id {
            None => Value::Null,
            Some(o) => Value::Id(o.dup()),
        };
        d.push_field(String::from_str("_id"), idv);
        self.push_payload(&mut d);
        proof {
            assert(d@ =~= seq![("_id"@, id_value_model(Self::id_model(self@)))]
                + Self::payload_model(self@));
        }
        d
    }

    fn decode(d: &Document) -> (r: Option<Post>)
        ensures
            match r {
                Some(e) => Self::decode_model(d@) == Some(e@),
                None => Self::decode_model(d@) is None,
            },
    {
        let user_image = match read_opt_text(d, "user_image") {
            Some(o) => o,
            None => {
                return None;
            },
        };
        let user_name = match read_text(d, "user_name") {
            Some(s) => s,
            None => {
                return None;
            },
        };
        let pd = match read_doc(d, "product") {
            Some(dd) => dd,
            None => {
                return None;
            },
        };
        match Product::decode_embedded(pd) {
            Some(product) => Some(Post { id: None, user_image, user_name, product }),
            None => None,
        }
    }

    fn with_id(self, id: &ObjectId) -> (r: Post)
        ensures
            r@ == Self::with_id_model(self@, id@),
    {
        Post { id: Some(id.dup()), ..self }
    }

    proof fn lemma_decode_encode(m: PostModel)
        ensures
            Self::decode_model(Self::payload_model(m)) == Some(Self::clear_id_model(m)),
    {
        reveal_strlit("user_image");
        reveal_strlit("user_name");
        reveal_strlit("product");
        let p = Self::payload_model(m);
        let p1 = p.drop_first();
        assert(p.len() == 3);
        assert("user_image"@.len() == 10 && "user_name"@.len() == 9 && "product"@.len() == 7);
        assert(p1[0] == p[1] && p1.len() == 2);
        assert(p1.drop_first()[0] == p[2]);
        assert(opt_text_field(p, "user_image"@) == Some(m.user_image));
        lemma_doc_get_skip(p, "user_name"@);
        assert(text_field(p, "user_name"@) == Some(m.user_name));
        lemma_doc_get_skip(p, "product"@);
        lemma_doc_get_skip(p1, "product"@);
        assert(doc_field(p, "product"@) == Some(embedded_product_model(m.product)));
        Product::lemma_decode_embedded(m.product);
    }

    proof fn lemma_with_id_clear(m: PostModel, id: Seq<u8>)
        ensures
            Self::id_model(Self::with_id_model(m, id)) == Some(id),
            Self::clear_id_model(Self::with_id_model(m, id)) == Self::clear_id_model(m),
            Self::id_model(m) == Some(id) ==> Self::with_id_model(Self::clear_id_model(m), id)
                == m,
    {
    }
}

impl Post {
    /// Appends the payload fields to a document.
    fn push_payload(&self, d: &mut Document)
        ensures
            final (d)@ == old(d)@ + Self::payload_model(self@),
    {
        let img = match &self.user_image {
            None => Value::Null,
            Some(s) => Value::Text(s.clone()),
        };
        d.push_field(String::from_str("user_image"), img);
        d.push_field(String::from_str("user_name"), Value::Text(self.user_name.clone()));
        d.push_field(String::from_str("product"), Value::Doc(self.product.encode_embedded()));
        proof {
            assert(final (d)@ =~= old(d)@ + Self::payload_model(self@));
        }
    }
}

/// Ghost model of a contact.
pub struct ContactModel {
    pub id: Option<Seq<u8>>,
    pub name: Seq<char>,
    pub user_name: Seq<char>,
    pub image_url: Option<Seq<char>>,
}

/// A contact: a person reachable by name.
pub struct Contact {
    pub id: Option<ObjectId>,
    pub name: String,
    pub user_name: String,
    pub image_url: Option<String>,
}

impl View for Contact {
    type V = ContactModel;

    open spec fn view(&self) -> ContactModel {
        ContactModel {
            id: match self.id {
                Some(o) => Some(o@),
                None => None,
            },
            name: self.name@,
            user_name: self.user_name@,
            image_url: match self.image_url {
                Some(s) => Some(s@),
                None => None,
            },
        }
    }
}

impl Entity for Contact {
    open spec fn simple_name() -> Seq<char> {
        "Contact"@
    }

    open spec fn id_model(m: ContactModel) -> Option<Seq<u8>> {
        m.id
    }

    open spec fn payload_model(m: ContactModel) -> DocModel {
        seq![("name"@, ValueModel::Text(m.name)), ("user_name"@, ValueModel::Text(m.user_name))]
            + (match m.image_url {
            Some(u) => seq![("image_url"@, ValueModel::Text(u))],
            None => Seq::empty(),
        })
    }

    open spec fn decode_model(d: DocModel) -> Option<ContactModel> {
        match (
            text_field(d, "name"@),
            text_field(d, "user_name"@),
            opt_text_field(d, "image_url"@),
        ) {
            (Some(name), Some(user_name), Some(image_url)) => Some(
                (ContactModel { id: None, name, user_name, image_url }),
            ),
            _ => None,
        }
    }

    open spec fn with_id_model(m: ContactModel, id: Seq<u8>) -> ContactModel {
        ContactModel { id: Some(id), ..m }
    }

    open spec fn clear_id_model(m: ContactModel) -> ContactModel {
        ContactModel { id: None, ..m }
    }

    fn collection_name() -> (r: String)
        ensures
            r@ == derived_name(Self::simple_name()),
    {
        let r = String::from_str("contacts");
        proof {
            reveal_strlit("contacts");
            reveal_strlit("Contact");
            assert(r@ =~= derived_name(Self::simple_name()));
        }
        r
    }

    fn encode(&self) -> (d: Document)
        ensures
            d@ == Self::payload_model(self@),
    {
        let mut d = Document::new();
        self.push_payload(&mut d);
        proof {
            assert(d@ =~= Self::payload_model(self@));
        }
        d
    }

    fn encode_with_id(&self) -> (d: Document)
        ensures
            d@ == seq![("_id"@, id_value_model(Self::id_model(self@)))] + Self::payload_model(
                self@,
            ),
    {
        let mut d = Document::new();
        let idv = match &self.id {
            None => Value::Null,
            Some(o) => Value::Id(o.dup()),
        };
        d.push_field(String::from_str("_id"), idv);
        self.push_payload(&mut d);
        proof {
            assert(d@ =~= seq![("_id"@, id_value_model(Self::id_model(self@)))]
                + Self::payload_model(self@));
        }
        d
    }

    fn decode(d: &Document) -> (r: Option<Contact>)
        ensures
            match r {
                Some(e) => Self::decode_model(d@) == Some(e@),
                None => Self::decode_model(d@) is None,
            },
    {
        let name = match read_text(d, "name") {
            Some(s) => s,
            None => {
                return None;
            },
        };
        let user_name = match read_text(d, "user_name") {
            Some(s) => s,
            None => {
                return None;
            },
        };
        let image_url = match read_opt_text(d, "image_url") {
            Some(o) => o,
            None => {
                return None;
            },
        };
        Some(Contact { id: None, name, user_name, image_url })
    }

    fn with_id(self, id: &ObjectId) -> (r: Contact)
        ensures
            r@ == Self::with_id_model(self@, id@),
    {
        Contact { id: Some(id.dup()), ..self }
    }

    proof fn lemma_decode_encode(m: ContactModel)
        ensures
            Self::decode_model(Self::payload_model(m)) == Some(Self::clear_id_model(m)),
    {
        reveal_strlit("name");
        reveal_strlit("user_name");
        reveal_strlit("image_url");
        let p = Self::payload_model(m);
        let p1 = p.drop_first();
        assert("name"@.len() == 4 && "user_name"@.len() == 9 && "image_url"@.len() == 9);
        assert("user_name"@[0] != "image_url"@[0]);
        assert(p[0] == ("name"@, ValueModel::Text(m.name)));
        assert(p[1] == ("user_name"@, ValueModel::Text(m.user_name)));
        assert(p1[0] == p[1]);
        assert(text_field(p, "name"@) == Some(m.name));
        lemma_doc_get_skip(p, "user_name"@);
        assert(text_field(p, "user_name"@) == Some(m.user_name));
        lemma_doc_get_skip(p, "image_url"@);
        lemma_doc_get_skip(p1, "image_url"@);
        match m.image_url {
            Some(u) => {
                assert(p.len() == 3);
                assert(p1.drop_first()[0] == p[2]);
                assert(opt_text_field(p, "image_url"@) == Some(m.image_url));
            },
            None => {
                assert(p.len() == 2);
                assert(p1.drop_first().len() == 0);
                assert(opt_text_field(p, "image_url"@) == Some(m.image_url));
            },
        }
    }

    proof fn lemma_with_id_clear(m: ContactModel, id: Seq<u8>)
        ensures
            Self::id_model(Self::with_id_model(m, id)) == Some(id),
            Self::clear_id_model(Self::with_id_model(m, id)) == Self::clear_id_model(m),
            Self::id_model(m) == Some(id) ==> Self::with_id_model(Self::clear_id_model(m), id)
                == m,
    {
    }
}

impl Contact {
    /// Appends the payload fields to a document.
    fn push_payload(&self, d: &mut Document)
        ensures
            final (d)@ == old(d)@ + Self::payload_model(self@),
    {
        d.push_field(String::from_str("name"), Value::Text(self.name.clone()));
        d.push_field(String::from_str("user_name"), Value::Text(self.user_name.clone()));
        match &self.image_url {
            None => {},
            Some(s) => {
                d.push_field(String::from_str("image_url"), Value::Text(s.clone()));
            },
        }
        proof {
            assert(final (d)@ =~= old(d)@ + Self::payload_model(self@));
        }
    }
}

} // verus!

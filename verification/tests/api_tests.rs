use docstore::{
    Collection, Contact, DbCollection, DbError, Document, Entity, ObjectId, Post, Product, Value,
};

fn sample_product() -> Product {
    Product {
        id: None,
        category: String::from("tools"),
        description: String::from("a fine hammer"),
        image_url: None,
        url: String::from("https://example.test/hammer"),
        comentary_count: 3,
        like_count: 7,
        received: false,
    }
}

fn sample_post() -> Post {
    Post {
        id: None,
        user_image: None,
        user_name: String::from("alice"),
        product: sample_product(),
    }
}

#[test]
fn derived_collection_names() {
    let posts: DbCollection<Post> = DbCollection::new();
    let products: DbCollection<Product> = DbCollection::new();
    let contacts: DbCollection<Contact> = DbCollection::new();
    assert_eq!(posts.collection.name, "posts");
    assert_eq!(products.collection.name, "products");
    assert_eq!(contacts.collection.name, "contacts");
    assert_eq!(Post::collection_name(), "posts");
    assert_eq!(Product::collection_name(), "products");
    assert_eq!(Contact::collection_name(), "contacts");
}

#[test]
fn create_then_find_by_id_round_trips() {
    let mut col: DbCollection<Post> = DbCollection::new();
    let id = col.create(sample_post()).unwrap();
    let found = col.find_by_id(&id).unwrap();
    assert!(found.id.is_some());
    assert!(found.id.as_ref().unwrap().equals(&id));
    assert_eq!(found.user_name, "alice");
    assert_eq!(found.user_image, None);
    assert_eq!(found.product.category, "tools");
    assert_eq!(found.product.description, "a fine hammer");
    assert_eq!(found.product.url, "https://example.test/hammer");
    assert_eq!(found.product.comentary_count, 3);
    assert_eq!(found.product.like_count, 7);
    assert!(!found.product.received);
}

#[test]
fn find_by_id_missing_is_not_found() {
    let col: DbCollection<Post> = DbCollection::new();
    let id = ObjectId::with_string("0123456789abcdef01234567").unwrap();
    match col.find_by_id(&id) {
        Err(DbError::NotFound) => {}
        _ => panic!("expected NotFound"),
    }
}

#[test]
fn delete_by_id_never_created_counts_zero() {
    let mut col: DbCollection<Post> = DbCollection::new();
    col.create(sample_post()).unwrap();
    let other = ObjectId::with_string("ffffffffffffffffffffffff").unwrap();
    assert_eq!(col.delete_by_id(&other).unwrap(), 0);
    assert_eq!(col.count(None).unwrap(), 1);
}

#[test]
fn delete_by_id_twice_counts_one_then_zero() {
    let mut col: DbCollection<Post> = DbCollection::new();
    let id = col.create(sample_post()).unwrap();
    assert_eq!(col.delete_by_id(&id).unwrap(), 1);
    assert_eq!(col.delete_by_id(&id).unwrap(), 0);
}

#[test]
fn count_none_equals_index_len() {
    let mut col: DbCollection<Post> = DbCollection::new();
    assert_eq!(col.count(None).unwrap(), col.index().unwrap().len() as i64);
    col.create(sample_post()).unwrap();
    col.create(sample_post()).unwrap();
    col.create(sample_post()).unwrap();
    assert_eq!(col.count(None).unwrap(), 3);
    assert_eq!(col.count(None).unwrap(), col.index().unwrap().len() as i64);
}

#[test]
fn invalid_identifier_is_validation_error() {
    match ObjectId::with_string("not-a-valid-id") {
        Err(DbError::ValidationError) => {}
        _ => panic!("expected ValidationError"),
    }
    match ObjectId::with_string("0123456789abcdef0123456") {
        Err(DbError::ValidationError) => {}
        _ => panic!("expected ValidationError: too short"),
    }
    match ObjectId::with_string("0123456789abcdef012345678") {
        Err(DbError::ValidationError) => {}
        _ => panic!("expected ValidationError: too long"),
    }
    match ObjectId::with_string("0123456789abcdef0123456g") {
        Err(DbError::ValidationError) => {}
        _ => panic!("expected ValidationError: bad digit"),
    }
}

#[test]
fn identifier_text_round_trips() {
    let id = ObjectId::with_string("0123456789abcdef01234567").unwrap();
    assert_eq!(id.to_hex(), "0123456789abcdef01234567");
    let upper = ObjectId::with_string("0123456789ABCDEF01234567").unwrap();
    assert!(upper.equals(&id));
    let again = ObjectId::with_string(&id.to_hex()).unwrap();
    assert!(again.equals(&id));
}

#[test]
fn created_identifier_is_24_hex_chars() {
    let mut col: DbCollection<Post> = DbCollection::new();
    let id = col.create(sample_post()).unwrap();
    let text = id.to_hex();
    assert_eq!(text.len(), 24);
    assert!(text.chars().all(|c| c.is_ascii_hexdigit()));
}

#[test]
fn identifiers_are_distinct_across_creates() {
    let mut col: DbCollection<Post> = DbCollection::new();
    let a = col.create(sample_post()).unwrap();
    let b = col.create(sample_post()).unwrap();
    assert!(!a.equals(&b));
    assert_eq!(col.count(None).unwrap(), 2);
}

#[test]
fn find_with_filter_selects_matching() {
    let mut col: DbCollection<Contact> = DbCollection::new();
    col.create(Contact {
        id: None,
        name: String::from("Ada"),
        user_name: String::from("ada"),
        image_url: None,
    })
    .unwrap();
    col.create(Contact {
        id: None,
        name: String::from("Grace"),
        user_name: String::from("grace"),
        image_url: Some(String::from("https://example.test/g.png")),
    })
    .unwrap();
    let mut filter = Document::new();
    filter.push_field(String::from("name"), Value::Text(String::from("Grace")));
    let found = col.find(&filter).unwrap();
    assert_eq!(found.len(), 1);
    assert_eq!(found[0].user_name, "grace");
    assert_eq!(col.count(Some(&filter)).unwrap(), 1);
}

#[test]
fn delete_with_filter_removes_all_matching() {
    let mut col: DbCollection<Contact> = DbCollection::new();
    for _ in 0..3 {
        col.create(Contact {
            id: None,
            name: String::from("Ada"),
            user_name: String::from("ada"),
            image_url: None,
        })
        .unwrap();
    }
    col.create(Contact {
        id: None,
        name: String::from("Grace"),
        user_name: String::from("grace"),
        image_url: None,
    })
    .unwrap();
    let mut filter = Document::new();
    filter.push_field(String::from("name"), Value::Text(String::from("Ada")));
    assert_eq!(col.delete(&filter).unwrap(), 3);
    assert_eq!(col.count(None).unwrap(), 1);
    assert_eq!(col.delete(&filter).unwrap(), 0);
}

#[test]
fn delete_one_removes_only_first_match() {
    let mut col: DbCollection<Contact> = DbCollection::new();
    for _ in 0..2 {
        col.create(Contact {
            id: None,
            name: String::from("Ada"),
            user_name: String::from("ada"),
            image_url: None,
        })
        .unwrap();
    }
    let mut filter = Document::new();
    filter.push_field(String::from("name"), Value::Text(String::from("Ada")));
    assert_eq!(col.delete_one(&filter).unwrap(), 1);
    assert_eq!(col.count(None).unwrap(), 1);
    assert_eq!(col.delete_one(&filter).unwrap(), 1);
    assert_eq!(col.delete_one(&filter).unwrap(), 0);
}

#[test]
fn decode_reads_missing_optionals_as_absent() {
    // The shape a request body arrives in: user_name and product only.
    let mut product_doc = Document::new();
    product_doc.push_field(String::from("category"), Value::Text(String::from("tools")));
    product_doc.push_field(
        String::from("description"),
        Value::Text(String::from("a fine hammer")),
    );
    product_doc.push_field(String::from("image_url"), Value::Null);
    product_doc.push_field(
        String::from("url"),
        Value::Text(String::from("https://example.test/hammer")),
    );
    product_doc.push_field(String::from("comentary_count"), Value::Int32(3));
    product_doc.push_field(String::from("like_count"), Value::Int32(7));
    product_doc.push_field(String::from("received"), Value::Bool(false));
    let mut post_doc = Document::new();
    post_doc.push_field(String::from("user_name"), Value::Text(String::from("alice")));
    post_doc.push_field(String::from("product"), Value::Doc(product_doc));
    let post = Post::decode(&post_doc).unwrap();
    assert_eq!(post.user_name, "alice");
    assert_eq!(post.user_image, None);
    assert!(post.id.is_none());
    assert!(post.product.id.is_none());
    assert_eq!(post.product.category, "tools");
}

#[test]
fn decode_rejects_wrong_shapes() {
    let mut doc = Document::new();
    doc.push_field(String::from("user_name"), Value::Int32(5));
    assert!(Post::decode(&doc).is_none());
    let empty = Document::new();
    assert!(Post::decode(&empty).is_none());
    let mut contact_doc = Document::new();
    contact_doc.push_field(String::from("name"), Value::Text(String::from("Ada")));
    assert!(Contact::decode(&contact_doc).is_none());
}

#[test]
fn encode_then_decode_gives_entity_back() {
    let post = sample_post();
    let doc = post.encode();
    let back = Post::decode(&doc).unwrap();
    assert_eq!(back.user_name, post.user_name);
    assert_eq!(back.user_image, post.user_image);
    assert_eq!(back.product.category, post.product.category);
    assert_eq!(back.product.like_count, post.product.like_count);
}

#[test]
fn document_lookup_and_matching() {
    let mut doc = Document::new();
    doc.push_field(String::from("a"), Value::Int32(1));
    doc.push_field(String::from("b"), Value::Text(String::from("x")));
    assert!(doc.get("a").is_some());
    assert!(doc.get("missing").is_none());
    let mut filter = Document::new();
    filter.push_field(String::from("b"), Value::Text(String::from("x")));
    assert!(doc.matches(&filter));
    let mut wrong = Document::new();
    wrong.push_field(String::from("b"), Value::Text(String::from("y")));
    assert!(!doc.matches(&wrong));
    let empty = Document::new();
    assert!(doc.matches(&empty));
}

#[test]
fn decode_error_on_corrupt_document() {
    let mut store = Collection::new(String::from("posts"));
    let mut bad = Document::new();
    bad.push_field(String::from("user_name"), Value::Int32(1));
    let id = store.insert(bad).unwrap();
    let col = DbCollection::<Post> {
        collection: store,
        phantom: std::marker::PhantomData,
    };
    match col.find_by_id(&id) {
        Err(DbError::DecodeError) => {}
        _ => panic!("expected DecodeError"),
    }
    match col.index() {
        Err(DbError::DecodeError) => {}
        _ => panic!("expected the whole listing to fail"),
    }
}

#[test]
fn store_error_when_identifier_counter_exhausted() {
    let store = Collection {
        name: String::from("posts"),
        next: docstore::store::MAX_SEQ,
        docs: Vec::new(),
    };
    let mut col = DbCollection::<Post> {
        collection: store,
        phantom: std::marker::PhantomData,
    };
    match col.create(sample_post()) {
        Err(DbError::StoreError) => {}
        _ => panic!("expected StoreError"),
    }
}

#[test]
fn untyped_collection_insert_and_find() {
    let mut col = Collection::new(String::from("things"));
    let mut doc = Document::new();
    doc.push_field(String::from("k"), Value::Int32(9));
    let id = col.insert(doc).unwrap();
    assert_eq!(col.count(None), 1);
    assert!(col.find_by_id(&id).is_some());
    assert_eq!(col.delete_by_id(&id), 1);
    assert_eq!(col.delete_by_id(&id), 0);
    assert!(col.find_by_id(&id).is_none());
}

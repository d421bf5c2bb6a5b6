use docstore::{count, create, get, index, remove, Body, DbCollection, Post, Product, Value};

fn sample_post() -> Post {
    Post {
        id: None,
        user_image: None,
        user_name: String::from("alice"),
        product: Product {
            id: None,
            category: String::from("tools"),
            description: String::from("a fine hammer"),
            image_url: None,
            url: String::from("https://example.test/hammer"),
            comentary_count: 3,
            like_count: 7,
            received: false,
        },
    }
}

fn body_text(b: &Body) -> String {
    match b {
        Body::Json(Value::Text(s)) => s.clone(),
        _ => panic!("expected a text body"),
    }
}

fn body_i64(b: &Body) -> i64 {
    match b {
        Body::Json(Value::Int64(n)) => *n,
        _ => panic!("expected an integer body"),
    }
}

#[test]
fn post_then_get_then_delete_twice_then_get() {
    let mut col: DbCollection<Post> = DbCollection::new();

    // POST: 200 with a 24-character hexadecimal identifier as body.
    let reply = create(sample_post(), &mut col);
    assert_eq!(reply.status, 200);
    let id_text = body_text(&reply.body);
    assert_eq!(id_text.len(), 24);
    assert!(id_text.chars().all(|c| c.is_ascii_hexdigit()));

    // GET: 200 with the same fields plus that identifier under `_id`.
    let reply = get(&id_text, &col);
    assert_eq!(reply.status, 200);
    let doc = match &reply.body {
        Body::Json(Value::Doc(d)) => d,
        _ => panic!("expected a document body"),
    };
    match doc.get("_id") {
        Some(Value::Id(found)) => {
            assert_eq!(found.to_hex(), id_text);
        }
        _ => panic!("expected the identifier under _id"),
    }
    match doc.get("user_name") {
        Some(Value::Text(s)) => assert_eq!(s, "alice"),
        _ => panic!("expected user_name"),
    }
    match doc.get("product") {
        Some(Value::Doc(pd)) => match pd.get("category") {
            Some(Value::Text(s)) => assert_eq!(s, "tools"),
            _ => panic!("expected the product's category"),
        },
        _ => panic!("expected the embedded product"),
    }

    // DELETE: 200 with body 1; repeated: 200 with body 0.
    let reply = remove(&id_text, &mut col);
    assert_eq!(reply.status, 200);
    assert_eq!(body_i64(&reply.body), 1);
    let reply = remove(&id_text, &mut col);
    assert_eq!(reply.status, 200);
    assert_eq!(body_i64(&reply.body), 0);

    // GET again: 404.
    let reply = get(&id_text, &col);
    assert_eq!(reply.status, 404);
    assert!(matches!(reply.body, Body::Empty));
}

#[test]
fn get_with_invalid_identifier_is_400() {
    let col: DbCollection<Post> = DbCollection::new();
    let reply = get("not-a-valid-id", &col);
    assert_eq!(reply.status, 400);
    assert!(matches!(reply.body, Body::Empty));
}

#[test]
fn delete_with_invalid_identifier_is_400() {
    let mut col: DbCollection<Post> = DbCollection::new();
    create(sample_post(), &mut col);
    let reply = remove("***", &mut col);
    assert_eq!(reply.status, 400);
    assert!(matches!(reply.body, Body::Empty));
    let reply = count(&col);
    assert_eq!(body_i64(&reply.body), 1);
}

#[test]
fn count_of_empty_collection_is_200_with_zero() {
    let col: DbCollection<Post> = DbCollection::new();
    let reply = count(&col);
    assert_eq!(reply.status, 200);
    assert_eq!(body_i64(&reply.body), 0);
}

#[test]
fn count_follows_creates_and_deletes() {
    let mut col: DbCollection<Post> = DbCollection::new();
    let first = create(sample_post(), &mut col);
    create(sample_post(), &mut col);
    assert_eq!(body_i64(&count(&col).body), 2);
    let id_text = body_text(&first.body);
    remove(&id_text, &mut col);
    assert_eq!(body_i64(&count(&col).body), 1);
}

#[test]
fn index_lists_entities_with_identifiers() {
    let mut col: DbCollection<Post> = DbCollection::new();
    let a = body_text(&create(sample_post(), &mut col).body);
    let b = body_text(&create(sample_post(), &mut col).body);
    let reply = index(&col);
    assert_eq!(reply.status, 200);
    let items = match &reply.body {
        Body::Json(Value::Array(items)) => items,
        _ => panic!("expected an array body"),
    };
    assert_eq!(items.len(), 2);
    let mut seen: Vec<String> = Vec::new();
    for item in items {
        match item {
            Value::Doc(d) => match d.get("_id") {
                Some(Value::Id(oid)) => seen.push(oid.to_hex()),
                _ => panic!("expected _id on each listed entity"),
            },
            _ => panic!("expected document items"),
        }
    }
    assert_eq!(seen, vec![a, b]);
}

#[test]
fn get_unknown_but_valid_identifier_is_404() {
    let mut col: DbCollection<Post> = DbCollection::new();
    create(sample_post(), &mut col);
    let reply = get("ffffffffffffffffffffffff", &col);
    assert_eq!(reply.status, 404);
    assert!(matches!(reply.body, Body::Empty));
}

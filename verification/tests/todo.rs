use server_axum::error::TodoError;
use server_axum::models::{Todo, UpdateTodo};
use server_axum::oid::ObjectId;
use server_axum::routes::{add_todo, delete_todo, get_todos, root, update_todo};
use server_axum::store::TodoStore;

fn id_hex(t: &Todo) -> String {
    t.id.as_ref().expect("persisted todo must carry an id").to_hex()
}

fn insert(store: &mut TodoStore, title: &str) -> Todo {
    match add_todo(store, String::from(title)) {
        Ok(t) => t,
        Err(_) => panic!("insert failed"),
    }
}

#[test]
fn root_liveness_string() {
    assert_eq!(root(), "Rust server up and running!");
}

#[test]
fn insert_returns_new_item() {
    let mut store = TodoStore::new();
    let t = insert(&mut store, "Buy milk");
    assert_eq!(t.title, "Buy milk");
    assert!(!t.done);
    assert!(t.id.is_some());
}

#[test]
fn insert_assigns_distinct_ids() {
    let mut store = TodoStore::new();
    let a = insert(&mut store, "first");
    let b = insert(&mut store, "second");
    let c = insert(&mut store, "third");
    assert_ne!(id_hex(&a), id_hex(&b));
    assert_ne!(id_hex(&a), id_hex(&c));
    assert_ne!(id_hex(&b), id_hex(&c));
}

#[test]
fn list_contains_each_item_once_with_current_values() {
    let mut store = TodoStore::new();
    let a = insert(&mut store, "first");
    let b = insert(&mut store, "second");
    let listed = get_todos(&store);
    assert_eq!(listed.len(), 2);
    let hits_a: Vec<&Todo> = listed.iter().filter(|t| id_hex(t) == id_hex(&a)).collect();
    let hits_b: Vec<&Todo> = listed.iter().filter(|t| id_hex(t) == id_hex(&b)).collect();
    assert_eq!(hits_a.len(), 1);
    assert_eq!(hits_b.len(), 1);
    assert_eq!(hits_a[0].title, "first");
    assert!(!hits_a[0].done);
    assert_eq!(hits_b[0].title, "second");
    assert!(!hits_b[0].done);
}

#[test]
fn update_done_only_keeps_title() {
    let mut store = TodoStore::new();
    let t = insert(&mut store, "Buy milk");
    let hex = id_hex(&t);
    let r = update_todo(&mut store, &hex, UpdateTodo { title: None, done: Some(true) });
    let updated = match r {
        Ok(u) => u,
        Err(_) => panic!("update failed"),
    };
    assert_eq!(updated.title, "Buy milk");
    assert!(updated.done);
    assert_eq!(id_hex(&updated), hex);
    let listed = get_todos(&store);
    assert_eq!(listed.len(), 1);
    assert_eq!(listed[0].title, "Buy milk");
    assert!(listed[0].done);
}

#[test]
fn update_title_only_keeps_done() {
    let mut store = TodoStore::new();
    let t = insert(&mut store, "Buy milk");
    let hex = id_hex(&t);
    update_todo(&mut store, &hex, UpdateTodo { title: None, done: Some(true) })
        .expect("first update failed");
    let r = update_todo(
        &mut store,
        &hex,
        UpdateTodo { title: Some(String::from("Buy bread")), done: None },
    );
    let updated = match r {
        Ok(u) => u,
        Err(_) => panic!("second update failed"),
    };
    assert_eq!(updated.title, "Buy bread");
    assert!(updated.done);
}

#[test]
fn update_both_fields() {
    let mut store = TodoStore::new();
    let t = insert(&mut store, "old");
    let r = update_todo(
        &mut store,
        &id_hex(&t),
        UpdateTodo { title: Some(String::from("new")), done: Some(true) },
    );
    let updated = match r {
        Ok(u) => u,
        Err(_) => panic!("update failed"),
    };
    assert_eq!(updated.title, "new");
    assert!(updated.done);
}

#[test]
fn empty_update_is_rejected_before_the_store() {
    let mut store = TodoStore::new();
    let t = insert(&mut store, "Buy milk");
    let r = update_todo(&mut store, &id_hex(&t), UpdateTodo { title: None, done: None });
    let e = match r {
        Ok(_) => panic!("empty update must fail"),
        Err(e) => e,
    };
    assert!(matches!(e, TodoError::EmptyUpdate));
    assert_eq!(e.status_code(), 400);
    assert_eq!(e.message(), "No valid fields to update");
    let listed = get_todos(&store);
    assert_eq!(listed.len(), 1);
    assert_eq!(listed[0].title, "Buy milk");
    assert!(!listed[0].done);
}

#[test]
fn update_unknown_id_is_not_found() {
    let mut store = TodoStore::new();
    insert(&mut store, "Buy milk");
    let r = update_todo(
        &mut store,
        "ffffffffffffffffffffffff",
        UpdateTodo { title: None, done: Some(true) },
    );
    let e = match r {
        Ok(_) => panic!("unknown id must fail"),
        Err(e) => e,
    };
    assert!(matches!(e, TodoError::NotFound));
    assert_eq!(e.status_code(), 404);
    assert_eq!(e.message(), "Todo not found");
}

#[test]
fn update_malformed_id_is_rejected_without_store_interaction() {
    let mut store = TodoStore::new();
    let t = insert(&mut store, "Buy milk");
    let r = update_todo(&mut store, "not-an-id", UpdateTodo { title: None, done: Some(true) });
    let e = match r {
        Ok(_) => panic!("malformed id must fail"),
        Err(e) => e,
    };
    assert!(matches!(e, TodoError::InvalidId));
    assert_eq!(e.status_code(), 400);
    assert_eq!(e.message(), "Invalid ObjectId format");
    let listed = get_todos(&store);
    assert_eq!(listed.len(), 1);
    assert_eq!(id_hex(&listed[0]), id_hex(&t));
    assert!(!listed[0].done);
}

#[test]
fn delete_removes_the_item_from_the_listing() {
    let mut store = TodoStore::new();
    let keep = insert(&mut store, "keep");
    let gone = insert(&mut store, "gone");
    let hex = id_hex(&gone);
    delete_todo(&mut store, &hex).expect("delete of an existing id must succeed");
    let listed = get_todos(&store);
    assert_eq!(listed.len(), 1);
    assert_eq!(id_hex(&listed[0]), id_hex(&keep));
    assert!(listed.iter().all(|t| id_hex(t) != hex));
}

#[test]
fn delete_unknown_id_is_not_found() {
    let mut store = TodoStore::new();
    insert(&mut store, "Buy milk");
    let e = match delete_todo(&mut store, "ffffffffffffffffffffffff") {
        Ok(_) => panic!("unknown id must fail"),
        Err(e) => e,
    };
    assert!(matches!(e, TodoError::NotFound));
    assert_eq!(e.status_code(), 404);
}

#[test]
fn delete_twice_reports_not_found_the_second_time() {
    let mut store = TodoStore::new();
    let t = insert(&mut store, "Buy milk");
    let hex = id_hex(&t);
    delete_todo(&mut store, &hex).expect("first delete must succeed");
    let e = match delete_todo(&mut store, &hex) {
        Ok(_) => panic!("second delete must fail"),
        Err(e) => e,
    };
    assert!(matches!(e, TodoError::NotFound));
}

#[test]
fn delete_malformed_id_is_rejected_without_store_interaction() {
    let mut store = TodoStore::new();
    insert(&mut store, "Buy milk");
    let e = match delete_todo(&mut store, "short") {
        Ok(_) => panic!("malformed id must fail"),
        Err(e) => e,
    };
    assert!(matches!(e, TodoError::InvalidId));
    assert_eq!(e.status_code(), 400);
    assert_eq!(get_todos(&store).len(), 1);
}

#[test]
fn store_error_maps_to_500_with_its_message() {
    let e = TodoError::Store(String::from("Update failed: connection reset"));
    assert_eq!(e.status_code(), 500);
    assert_eq!(e.message(), "Update failed: connection reset");
}

#[test]
fn object_id_round_trips_through_hex() {
    let id = match ObjectId::parse_str("0123456789abcdef01234567") {
        Ok(id) => id,
        Err(_) => panic!("valid id must parse"),
    };
    assert_eq!(id.to_hex(), "0123456789abcdef01234567");
}

#[test]
fn object_id_parse_accepts_upper_case_and_renders_lower_case() {
    let id = match ObjectId::parse_str("0123456789ABCDEF01234567") {
        Ok(id) => id,
        Err(_) => panic!("valid id must parse"),
    };
    assert_eq!(id.to_hex(), "0123456789abcdef01234567");
    let lower = ObjectId::parse_str("0123456789abcdef01234567").unwrap_or_else(|_| panic!());
    assert!(id.same_id(&lower));
}

#[test]
fn object_id_parse_rejects_malformed_strings() {
    assert!(ObjectId::parse_str("").is_err());
    assert!(ObjectId::parse_str("not-an-id").is_err());
    assert!(ObjectId::parse_str("0123456789abcdef0123456").is_err());
    assert!(ObjectId::parse_str("0123456789abcdef012345678").is_err());
    assert!(ObjectId::parse_str("0123456789abcdef0123456g").is_err());
    assert!(ObjectId::parse_str("0123456789abcdef0123456\u{00e9}").is_err());
}

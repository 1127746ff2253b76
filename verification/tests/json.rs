use server_axum::json::{escape_json, todo_to_json, todos_to_json};
use server_axum::models::{Todo, UpdateTodo};
use server_axum::routes::{add_todo, get_todos, update_todo};
use server_axum::store::TodoStore;

#[test]
fn created_todo_renders_with_id_title_and_done() {
    let mut store = TodoStore::new();
    let t = add_todo(&mut store, String::from("Buy milk")).unwrap_or_else(|_| panic!());
    let hex = t.id.as_ref().unwrap().to_hex();
    assert_eq!(
        todo_to_json(&t),
        format!("{{\"_id\":\"{hex}\",\"title\":\"Buy milk\",\"done\":false}}")
    );
}

#[test]
fn updated_todo_renders_done_true() {
    let mut store = TodoStore::new();
    let t = add_todo(&mut store, String::from("Buy milk")).unwrap_or_else(|_| panic!());
    let hex = t.id.as_ref().unwrap().to_hex();
    let u = update_todo(&mut store, &hex, UpdateTodo { title: None, done: Some(true) })
        .unwrap_or_else(|_| panic!());
    assert_eq!(
        todo_to_json(&u),
        format!("{{\"_id\":\"{hex}\",\"title\":\"Buy milk\",\"done\":true}}")
    );
}

#[test]
fn todo_without_id_omits_the_id_key() {
    let t = Todo { id: None, title: String::from("draft"), done: false };
    assert_eq!(todo_to_json(&t), "{\"title\":\"draft\",\"done\":false}");
}

#[test]
fn listing_renders_as_a_json_array() {
    let mut store = TodoStore::new();
    let a = add_todo(&mut store, String::from("first")).unwrap_or_else(|_| panic!());
    let b = add_todo(&mut store, String::from("second")).unwrap_or_else(|_| panic!());
    let ah = a.id.as_ref().unwrap().to_hex();
    let bh = b.id.as_ref().unwrap().to_hex();
    let listed = get_todos(&store);
    assert_eq!(
        todos_to_json(&listed),
        format!(
            "[{{\"_id\":\"{ah}\",\"title\":\"first\",\"done\":false}},{{\"_id\":\"{bh}\",\"title\":\"second\",\"done\":false}}]"
        )
    );
}

#[test]
fn empty_listing_renders_as_empty_array() {
    let store = TodoStore::new();
    assert_eq!(todos_to_json(&get_todos(&store)), "[]");
}

#[test]
fn titles_are_escaped_like_json_strings() {
    assert_eq!(escape_json("plain"), "plain");
    assert_eq!(escape_json("say \"hi\""), "say \\\"hi\\\"");
    assert_eq!(escape_json("back\\slash"), "back\\\\slash");
    assert_eq!(escape_json("line\nbreak\ttab\rcr"), "line\\nbreak\\ttab\\rcr");
    assert_eq!(escape_json("\u{8}\u{c}"), "\\b\\f");
    assert_eq!(escape_json("\u{1}\u{1f}"), "\\u0001\\u001f");
    assert_eq!(escape_json("caf\u{e9} \u{2603}"), "caf\u{e9} \u{2603}");
}

#[test]
fn escaped_title_appears_escaped_in_the_object() {
    let t = Todo { id: None, title: String::from("a \"b\" \\ c"), done: true };
    assert_eq!(todo_to_json(&t), "{\"title\":\"a \\\"b\\\" \\\\ c\",\"done\":true}");
}

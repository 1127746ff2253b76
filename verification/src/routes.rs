//! The request-handling layer over the store: each handler validates its
//! input, invokes one store operation, and reports failures as a
//! [`TodoError`], whose status code and message the HTTP boundary sends.
//! Identifier validation happens before the store is consulted, so a
//! malformed path parameter never reaches it.

use vstd::prelude::*;

use crate::error::TodoError;
use crate::models::{apply_update, Todo, UpdateTodo};
use crate::oid::{bytes_of_hex, valid_hex, ObjectId};
use crate::store::{contains_id, TodoStore};

verus! {

/// The static liveness string served at the root path.
pub fn root() -> (r: &'static str)
    ensures
        r@ == "Rust server up and running!"@,
{
    "Rust server up and running!"
}

/// Lists every stored record, each with its current field values.
pub fn get_todos(store: &TodoStore) -> (r: Vec<Todo>)
    requires
        store.wf(),
    ensures
        r@.map_values(|t: Todo| t@) == store@,
        forall|i: int| 0 <= i < r@.len() ==> (#[trigger] r@[i]).wf(),
{
    store.list_all()
}

/// Creates a record with the given title, not yet done, and returns it with
/// its store-assigned identifier.
pub fn add_todo(store: &mut TodoStore, title: String) -> (r: Result<Todo, TodoError>)
    requires
        old(store).wf(),
    ensures
        final(store).wf(),
        old(store).can_insert() ==> r is Ok,
        r matches Ok(t) ==> {
            &&& t.wf()
            &&& t@.id is Some
            &&& t@.title == title@
            &&& t@.done == false
            &&& !contains_id(old(store)@, t@.id.unwrap())
            &&& final(store)@ == old(store)@.push(t@)
        },
        r is Err ==> *final(store) == *old(store) && (r matches Err(TodoError::Store(_))),
{
    store.insert(title)
}

/// Applies a partial update to the record named by the path parameter `id`
/// and returns the post-update record. A malformed identifier is rejected
/// before the store is consulted; an update with no fields is rejected
/// before the records are; a missing record is `NotFound`.
pub fn update_todo(store: &mut TodoStore, id: &str, update_data: UpdateTodo) -> (r: Result<
    Todo,
    TodoError,
>)
    requires
        old(store).wf(),
    ensures
        final(store).wf(),
        !valid_hex(id@) ==> (r matches Err(TodoError::InvalidId)) && *final(store) == *old(store),
        valid_hex(id@) && update_data@.is_empty() ==> (r matches Err(TodoError::EmptyUpdate))
            && *final(store) == *old(store),
        valid_hex(id@) && !update_data@.is_empty() && !contains_id(old(store)@, bytes_of_hex(id@))
            ==> (r matches Err(TodoError::NotFound)) && *final(store) == *old(store),
        valid_hex(id@) && !update_data@.is_empty() && contains_id(old(store)@, bytes_of_hex(id@))
            ==> r is Ok,
        r matches Ok(t) ==> {
            &&& valid_hex(id@)
            &&& t.wf()
            &&& exists|i: int|
                {
                    &&& 0 <= i < old(store)@.len()
                    &&& (#[trigger] old(store)@[i]).id == Some(bytes_of_hex(id@))
                    &&& final(store)@ == old(store)@.update(
                        i,
                        apply_update(old(store)@[i], update_data@),
                    )
                    &&& t@ == apply_update(old(store)@[i], update_data@)
                }
        },
{
    let object_id = match ObjectId::parse_str(id) {
        Ok(o) => o,
        Err(e) => {
            return Err(e);
        }
    };
    store.partial_update(&object_id, &update_data)
}

/// Removes the record named by the path parameter `id`. A malformed
/// identifier is rejected before the store is consulted; a miss is
/// `NotFound`; after a successful delete no record bears that identifier.
pub fn delete_todo(store: &mut TodoStore, id: &str) -> (r: Result<(), TodoError>)
    requires
        old(store).wf(),
    ensures
        final(store).wf(),
        !valid_hex(id@) ==> (r matches Err(TodoError::InvalidId)) && *final(store) == *old(store),
        valid_hex(id@) && !contains_id(old(store)@, bytes_of_hex(id@)) ==> (r matches Err(
            TodoError::NotFound,
        )) && *final(store) == *old(store),
        valid_hex(id@) && contains_id(old(store)@, bytes_of_hex(id@)) ==> r is Ok,
        r is Ok ==> {
            &&& valid_hex(id@)
            &&& !contains_id(final(store)@, bytes_of_hex(id@))
            &&& exists|i: int|
                {
                    &&& 0 <= i < old(store)@.len()
                    &&& (#[trigger] old(store)@[i]).id == Some(bytes_of_hex(id@))
                    &&& final(store)@ == old(store)@.remove(i)
                }
        },
{
    let object_id = match ObjectId::parse_str(id) {
        Ok(o) => o,
        Err(e) => {
            return Err(e);
        }
    };
    store.delete(&object_id)
}

} // verus!

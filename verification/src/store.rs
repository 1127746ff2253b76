//! An in-memory document store for todo records, the verified model of the
//! collection the service runs against. It assigns a fresh identifier to
//! every inserted record, keeps identifiers unique, and offers the four CRUD
//! operations: list, insert, field-level partial update, and delete.

use vstd::prelude::*;

use crate::error::TodoError;
use crate::models::{apply_update, Todo, TodoView, UpdateTodo};
use crate::oid::{counter_bytes, counter_of, lemma_counter_round_trip, ObjectId};

verus! {

/// Every record in the store carries an identifier: no record is ever
/// returned to a caller without one once it has been persisted.
pub open spec fn all_persisted(s: Seq<TodoView>) -> bool {
    forall|i: int| 0 <= i < s.len() ==> (#[trigger] s[i]).id is Some
}

/// Every identifier in the store is twelve bytes long.
pub open spec fn all_ids_wf(s: Seq<TodoView>) -> bool {
    forall|i: int| 0 <= i < s.len() ==> ((#[trigger] s[i]).id matches Some(b) ==> b.len() == 12)
}

/// No two records share an identifier.
pub open spec fn ids_distinct(s: Seq<TodoView>) -> bool {
    forall|i: int, j: int|
        0 <= i < s.len() && 0 <= j < s.len() && i != j ==> (#[trigger] s[i]).id != (#[trigger] s[j]).id
}

/// Whether some record in `s` bears the identifier `id`.
pub open spec fn contains_id(s: Seq<TodoView>, id: Seq<u8>) -> bool {
    exists|i: int| 0 <= i < s.len() && (#[trigger] s[i]).id == Some(id)
}

/// The store: a sequence of persisted records and the counter the next
/// identifier is minted from.
pub struct TodoStore {
    items: Vec<Todo>,
    next_id: u64,
}

impl View for TodoStore {
    type V = Seq<TodoView>;

    closed spec fn view(&self) -> Seq<TodoView> {
        self.items@.map_values(|t: Todo| t@)
    }
}

impl TodoStore {
    /// Internal shape of stored identifiers: minted from a counter below
    /// `next_id`, so a fresh mint can never collide.
    pub closed spec fn inv(&self) -> bool {
        forall|i: int|
            0 <= i < self.items@.len() ==> {
                let v = (#[trigger] self.items@[i])@;
                &&& v.id is Some
                &&& v.id.unwrap() =~= counter_bytes(counter_of(v.id.unwrap()))
                &&& counter_of(v.id.unwrap()) < self.next_id
            }
    }

    /// The store invariant: every record is persisted under a well-formed,
    /// unique identifier.
    pub open spec fn wf(&self) -> bool {
        &&& self.inv()
        &&& all_persisted(self@)
        &&& all_ids_wf(self@)
        &&& ids_distinct(self@)
    }

    /// Whether another identifier can still be minted.
    pub closed spec fn can_insert(&self) -> bool {
        self.next_id < u64::MAX
    }

    /// An empty store.
    pub fn new() -> (r: TodoStore)
        ensures
            r.wf(),
            r.can_insert(),
            r@.len() == 0,
    {
        TodoStore { items: Vec::new(), next_id: 0 }
    }

    /// The position of the record bearing `id`, if any.
    fn index_of(&self, id: &ObjectId) -> (r: Option<usize>)
        requires
            self.wf(),
        ensures
            r matches Some(i) ==> i < self@.len() && self@[i as int].id == Some(id@),
            r is None ==> !contains_id(self@, id@),
    {
        let mut i: usize = 0;
        while i < self.items.len()
            invariant
                self.wf(),
                i <= self@.len(),
                forall|j: int| 0 <= j < i ==> (#[trigger] self@[j]).id != Some(id@),
            decreases self@.len() - i,
        {
            let t = &self.items[i];
            match &t.id {
                Some(oid) => {
                    if oid.same_id(id) {
                        return Some(i);
                    }
                }
                None => {
                    proof {
                        assert(self@[i as int].id is Some);
                        assert(false);
                    }
                }
            }
            i += 1;
        }
        None
    }

    /// Returns every record in the store, each with its current field
    /// values, in store order.
    pub fn list_all(&self) -> (r: Vec<Todo>)
        requires
            self.wf(),
        ensures
            r@.map_values(|t: Todo| t@) == self@,
            forall|i: int| 0 <= i < r@.len() ==> (#[trigger] r@[i]).wf(),
    {
        let mut r: Vec<Todo> = Vec::new();
        let mut i: usize = 0;
        while i < self.items.len()
            invariant
                self.wf(),
                i <= self@.len(),
                r@.len() == i,
                r@.map_values(|t: Todo| t@) =~= self@.take(i as int),
                forall|j: int| 0 <= j < r@.len() ==> (#[trigger] r@[j]).wf(),
            decreases self@.len() - i,
        {
            let t = self.items[i].clone();
            proof {
                assert(self@[i as int] == self.items@[i as int]@);
                assert(t.wf()) by {
                    assert(self.items@[i as int].wf()) by {
                        assert(all_ids_wf(self@));
                    }
                }
            }
            r.push(t);
            proof {
                assert(r@.map_values(|t: Todo| t@) =~= self@.take(i + 1 as int));
            }
            i += 1;
        }
        proof {
            assert(self@.take(self@.len() as int) =~= self@);
        }
        r
    }

    /// Creates a record with the given title and `done == false`, assigns it
    /// a fresh identifier, appends it to the store, and returns it. Fails
    /// only when the identifier space is exhausted.
    pub fn insert(&mut self, title: String) -> (r: Result<Todo, TodoError>)
        requires
            old(self).wf(),
        ensures
            final(self).wf(),
            old(self).can_insert() ==> r is Ok,
            r matches Ok(t) ==> {
                &&& t.wf()
                &&& t@.id is Some
                &&& t@.title == title@
                &&& t@.done == false
                &&& !contains_id(old(self)@, t@.id.unwrap())
                &&& final(self)@ == old(self)@.push(t@)
            },
            r is Err ==> *final(self) == *old(self) && (r matches Err(TodoError::Store(_))),
    {
        if self.next_id == u64::MAX {
            return Err(TodoError::Store(String::from_str("Failed to insert todo: identifier space exhausted")));
        }
        let oid = ObjectId::from_counter(self.next_id);
        proof {
            lemma_counter_round_trip(self.next_id);
            assert forall|i: int| 0 <= i < self@.len() implies (#[trigger] self@[i]).id != Some(oid@) by {
                assert(self@[i] == self.items@[i]@);
                if self@[i].id == Some(oid@) {
                    assert(counter_of(self.items@[i]@.id.unwrap()) == counter_of(counter_bytes(self.next_id)));
                }
            }
        }
        let todo = Todo { id: Some(oid), title, done: false };
        let out = todo.clone();
        self.items.push(todo);
        self.next_id = self.next_id + 1;
        proof {
            assert(self@ =~= old(self)@.push(out@));
            assert forall|i: int| 0 <= i < self.items@.len() implies {
                let v = (#[trigger] self.items@[i])@;
                &&& v.id is Some
                &&& v.id.unwrap() =~= counter_bytes(counter_of(v.id.unwrap()))
                &&& counter_of(v.id.unwrap()) < self.next_id
            } by {
                if i < self.items@.len() - 1 {
                    assert(self.items@[i] == old(self).items@[i]);
                } else {
                    lemma_counter_round_trip(old(self).next_id);
                }
            }
        }
        Ok(out)
    }

    /// Applies the present fields of `changes` to the record bearing `id`
    /// and returns the record in its post-update state. The empty update is
    /// rejected before the records are consulted; a missing record is
    /// reported as `NotFound`.
    pub fn partial_update(&mut self, id: &ObjectId, changes: &UpdateTodo) -> (r: Result<
        Todo,
        TodoError,
    >)
        requires
            old(self).wf(),
        ensures
            final(self).wf(),
            changes@.is_empty() ==> (r matches Err(TodoError::EmptyUpdate)) && *final(self) == *old(self),
            !changes@.is_empty() && !contains_id(old(self)@, id@) ==> (r matches Err(
                TodoError::NotFound,
            )) && *final(self) == *old(self),
            !changes@.is_empty() && contains_id(old(self)@, id@) ==> r is Ok,
            r matches Ok(t) ==> {
                &&& t.wf()
                &&& exists|i: int|
                    {
                        &&& 0 <= i < old(self)@.len()
                        &&& (#[trigger] old(self)@[i]).id == Some(id@)
                        &&& final(self)@ == old(self)@.update(i, apply_update(old(self)@[i], changes@))
                        &&& t@ == apply_update(old(self)@[i], changes@)
                    }
            },
    {
        if changes.is_empty() {
            return Err(TodoError::EmptyUpdate);
        }
        match self.index_of(id) {
            None => Err(TodoError::NotFound),
            Some(i) => {
                let found = &self.items[i];
                let new_id = match &found.id {
                    Some(o) => Some(o.duplicate()),
                    None => None,
                };
                let new_title = match &changes.title {
                    Some(t) => t.clone(),
                    None => found.title.clone(),
                };
                let new_done = match changes.done {
                    Some(d) => d,
                    None => found.done,
                };
                let updated = Todo { id: new_id, title: new_title, done: new_done };
                let out = updated.clone();
                proof {
                    assert(self@[i as int] == self.items@[i as int]@);
                    assert(updated@ == apply_update(old(self)@[i as int], changes@));
                    assert(updated.wf()) by {
                        assert(all_ids_wf(self@));
                    }
                }
                self.items[i] = updated;
                proof {
                    assert(self@ =~= old(self)@.update(i as int, apply_update(old(self)@[i as int], changes@)));
                    lemma_wf_after_same_ids(*old(self), *self);
                }
                Ok(out)
            }
        }
    }

    /// Removes the record bearing `id`. A miss is reported as `NotFound`;
    /// after a successful delete no record bears `id` any more.
    pub fn delete(&mut self, id: &ObjectId) -> (r: Result<(), TodoError>)
        requires
            old(self).wf(),
        ensures
            final(self).wf(),
            r is Ok <==> contains_id(old(self)@, id@),
            !contains_id(old(self)@, id@) ==> (r matches Err(TodoError::NotFound)) && *final(self)
                == *old(self),
            contains_id(old(self)@, id@) ==> exists|i: int|
                {
                    &&& 0 <= i < old(self)@.len()
                    &&& (#[trigger] old(self)@[i]).id == Some(id@)
                    &&& final(self)@ == old(self)@.remove(i)
                },
            r is Ok ==> !contains_id(final(self)@, id@),
    {
        match self.index_of(id) {
            None => Err(TodoError::NotFound),
            Some(i) => {
                self.items.remove(i);
                proof {
                    assert(self@ =~= old(self)@.remove(i as int));
                    lemma_wf_after_remove(*old(self), *self, i as int, id@);
                }
                Ok(())
            }
        }
    }
}

/// A store whose records changed only in title or flag, never in identifier
/// or position, is still well formed.
proof fn lemma_wf_after_same_ids(pre: TodoStore, post: TodoStore)
    requires
        pre.wf(),
        post.items@.len() == pre.items@.len(),
        post.next_id == pre.next_id,
        forall|i: int|
            0 <= i < pre.items@.len() ==> (#[trigger] post.items@[i])@.id == pre.items@[i]@.id,
    ensures
        post.wf(),
{
    assert forall|i: int| 0 <= i < post.items@.len() implies {
        let v = (#[trigger] post.items@[i])@;
        &&& v.id is Some
        &&& v.id.unwrap() =~= counter_bytes(counter_of(v.id.unwrap()))
        &&& counter_of(v.id.unwrap()) < post.next_id
    } by {
        assert(pre.items@[i]@.id is Some);
    }
    assert forall|i: int| 0 <= i < post@.len() implies (#[trigger] post@[i]).id is Some by {
        assert(post@[i] == post.items@[i]@);
        assert(pre@[i] == pre.items@[i]@);
        assert(pre@[i].id is Some);
    }
    assert forall|i: int| 0 <= i < post@.len() implies ((#[trigger] post@[i]).id matches Some(b)
        ==> b.len() == 12) by {
        assert(post@[i] == post.items@[i]@);
        assert(pre@[i] == pre.items@[i]@);
        assert(pre@[i].id matches Some(b) ==> b.len() == 12);
    }
    assert forall|i: int, j: int|
        0 <= i < post@.len() && 0 <= j < post@.len() && i != j implies (#[trigger] post@[i]).id != (
    #[trigger] post@[j]).id by {
        assert(post@[i] == post.items@[i]@);
        assert(post@[j] == post.items@[j]@);
        assert(pre@[i] == pre.items@[i]@);
        assert(pre@[j] == pre.items@[j]@);
        assert(pre@[i].id != pre@[j].id);
    }
}

/// Removing one record keeps the store well formed, and no remaining record
/// bears the removed record's identifier.
proof fn lemma_wf_after_remove(pre: TodoStore, post: TodoStore, at: int, id: Seq<u8>)
    requires
        pre.wf(),
        0 <= at < pre.items@.len(),
        pre@[at].id == Some(id),
        post.items@ == pre.items@.remove(at),
        post.next_id == pre.next_id,
    ensures
        post.wf(),
        !contains_id(post@, id),
{
    assert forall|i: int| 0 <= i < post.items@.len() implies {
        let v = (#[trigger] post.items@[i])@;
        &&& v.id is Some
        &&& v.id.unwrap() =~= counter_bytes(counter_of(v.id.unwrap()))
        &&& counter_of(v.id.unwrap()) < post.next_id
    } by {
        if i < at {
            assert(post.items@[i] == pre.items@[i]);
        } else {
            assert(post.items@[i] == pre.items@[i + 1]);
        }
    }
    assert forall|i: int| 0 <= i < post@.len() implies (#[trigger] post@[i]).id is Some by {
        assert(post@[i] == post.items@[i]@);
    }
    assert forall|i: int| 0 <= i < post@.len() implies ((#[trigger] post@[i]).id matches Some(b)
        ==> b.len() == 12) by {
        assert(post@[i] == post.items@[i]@);
    }
    assert forall|i: int, j: int|
        0 <= i < post@.len() && 0 <= j < post@.len() && i != j implies (#[trigger] post@[i]).id != (
    #[trigger] post@[j]).id by {
        assert(post@[i] == post.items@[i]@);
        assert(post@[j] == post.items@[j]@);
        let pi = if i < at { i } else { i + 1 };
        let pj = if j < at { j } else { j + 1 };
        assert(post.items@[i] == pre.items@[pi]);
        assert(post.items@[j] == pre.items@[pj]);
        assert(pre@[pi] == pre.items@[pi]@);
        assert(pre@[pj] == pre.items@[pj]@);
        assert(pre@[pi].id != pre@[pj].id);
    }
    assert forall|i: int| 0 <= i < post@.len() implies (#[trigger] post@[i]).id != Some(id) by {
        assert(post@[i] == post.items@[i]@);
        let pi = if i < at { i } else { i + 1 };
        assert(post.items@[i] == pre.items@[pi]);
        assert(pre@[pi] == pre.items@[pi]@);
        assert(pre@[pi].id != pre@[at].id);
    }
}

/// A listing returns exactly the store's records, so after a successful
/// delete of an identifier no listed entry bears it any more.
pub proof fn lemma_deleted_id_not_listed(listing: Seq<TodoView>, s: Seq<TodoView>, id: Seq<u8>)
    requires
        listing == s,
        !contains_id(s, id),
    ensures
        forall|i: int| 0 <= i < listing.len() ==> (#[trigger] listing[i]).id != Some(id),
{
}

/// Within a store whose identifiers are pairwise distinct, an identifier
/// determines the record's position: a listing holds exactly one entry for
/// each stored record.
pub proof fn lemma_id_determines_position(s: Seq<TodoView>, i: int, j: int)
    requires
        ids_distinct(s),
        0 <= i < s.len(),
        0 <= j < s.len(),
        s[i].id == s[j].id,
    ensures
        i == j,
{
}

} // verus!

//! The todo data model: the persisted record, its ghost view, and the
//! partial-update payload whose present fields are merged into a record.

use vstd::prelude::*;

use crate::oid::ObjectId;

verus! {

/// A todo record: a store-assigned identifier (absent before the record is
/// persisted), a title, and a completion flag.
pub struct Todo {
    pub id: Option<ObjectId>,
    pub title: String,
    pub done: bool,
}

/// The mathematical value of a [`Todo`].
pub ghost struct TodoView {
    pub id: Option<Seq<u8>>,
    pub title: Seq<char>,
    pub done: bool,
}

impl View for Todo {
    type V = TodoView;

    open spec fn view(&self) -> TodoView {
        TodoView {
            id: match self.id {
                Some(i) => Some(i@),
                None => None,
            },
            title: self.title@,
            done: self.done,
        }
    }
}

impl Todo {
    /// A well-formed record carries a well-formed identifier, if any.
    pub open spec fn wf(&self) -> bool {
        match self.id {
            Some(i) => i.wf(),
            None => true,
        }
    }
}

impl Clone for Todo {
    /// Clones the record field by field.
    fn clone(&self) -> (r: Todo)
        ensures
            r@ == self@,
            r.wf() == self.wf(),
    {
        Todo {
            id: match &self.id {
                Some(i) => Some(i.duplicate()),
                None => None,
            },
            title: self.title.clone(),
            done: self.done,
        }
    }
}

/// A partial-update payload: only the present fields are applied.
pub struct UpdateTodo {
    pub title: Option<String>,
    pub done: Option<bool>,
}

/// The mathematical value of an [`UpdateTodo`].
pub ghost struct UpdateView {
    pub title: Option<Seq<char>>,
    pub done: Option<bool>,
}

impl View for UpdateTodo {
    type V = UpdateView;

    open spec fn view(&self) -> UpdateView {
        UpdateView {
            title: match self.title {
                Some(t) => Some(t@),
                None => None,
            },
            done: self.done,
        }
    }
}

impl UpdateView {
    /// An update with no fields set changes nothing and is rejected.
    pub open spec fn is_empty(self) -> bool {
        self.title is None && self.done is None
    }
}

impl UpdateTodo {
    /// Whether the payload sets no field at all.
    pub fn is_empty(&self) -> (r: bool)
        ensures
            r == self@.is_empty(),
    {
        self.title.is_none() && self.done.is_none()
    }
}

/// The field-level merge of an update into a record: a present field
/// replaces the stored one, an absent field leaves it untouched, and the
/// identifier never changes.
pub open spec fn apply_update(t: TodoView, u: UpdateView) -> TodoView {
    TodoView {
        id: t.id,
        title: match u.title {
            Some(s) => s,
            None => t.title,
        },
        done: match u.done {
            Some(d) => d,
            None => t.done,
        },
    }
}

/// An update that does not mention the title leaves it unchanged, and one
/// that does not mention the flag leaves it unchanged; the identifier is
/// never touched.
pub proof fn lemma_update_touches_only_present_fields(t: TodoView, u: UpdateView)
    ensures
        apply_update(t, u).id == t.id,
        u.title is None ==> apply_update(t, u).title == t.title,
        u.done is None ==> apply_update(t, u).done == t.done,
        u.title matches Some(s) ==> apply_update(t, u).title == s,
        u.done matches Some(d) ==> apply_update(t, u).done == d,
{
}

} // verus!

//! The wire format of todo records: JSON rendering with the identifier under
//! the `_id` key (omitted entirely while the record has none), the title as
//! an escaped JSON string, and the completion flag as a bare boolean.

use vstd::prelude::*;

use crate::models::{Todo, TodoView};
use crate::oid::{digit_str, hex_char, hex_of_bytes};

verus! {

/// How one character appears inside a JSON string: quote, backslash and
/// control characters are escaped, everything else stands as itself.
pub open spec fn esc_char(c: char) -> Seq<char> {
    let u = c as u32;
    if c == '"' {
        seq!['\\', '"']
    } else if c == '\\' {
        seq!['\\', '\\']
    } else if u == 8 {
        seq!['\\', 'b']
    } else if u == 9 {
        seq!['\\', 't']
    } else if u == 10 {
        seq!['\\', 'n']
    } else if u == 12 {
        seq!['\\', 'f']
    } else if u == 13 {
        seq!['\\', 'r']
    } else if u < 32 {
        seq!['\\', 'u', '0', '0', hex_char((u / 16) as u8), hex_char((u % 16) as u8)]
    } else {
        seq![c]
    }
}

/// The body of a JSON string: each character in its escaped form.
pub open spec fn json_escaped(s: Seq<char>) -> Seq<char>
    decreases s.len(),
{
    if s.len() == 0 {
        Seq::empty()
    } else {
        json_escaped(s.drop_last()) + esc_char(s.last())
    }
}

/// A JSON boolean.
pub open spec fn bool_json(b: bool) -> Seq<char> {
    if b {
        "true"@
    } else {
        "false"@
    }
}

/// The JSON object for a record: `_id` first when present, then the title,
/// then the flag.
pub open spec fn todo_json(t: TodoView) -> Seq<char> {
    match t.id {
        Some(b) => "{\"_id\":\""@ + hex_of_bytes(b) + "\",\"title\":\""@ + json_escaped(t.title)
            + "\",\"done\":"@ + bool_json(t.done) + "}"@,
        None => "{\"title\":\""@ + json_escaped(t.title) + "\",\"done\":"@ + bool_json(t.done)
            + "}"@,
    }
}

/// The JSON array for a listing, records in order, comma separated.
pub open spec fn todos_json(s: Seq<TodoView>) -> Seq<char>
    decreases s.len(),
{
    if s.len() == 0 {
        "[]"@
    } else {
        "["@ + todos_json_items(s) + "]"@
    }
}

/// The comma-separated members of a non-empty listing.
pub open spec fn todos_json_items(s: Seq<TodoView>) -> Seq<char>
    decreases s.len(),
{
    if s.len() == 0 {
        Seq::empty()
    } else if s.len() == 1 {
        todo_json(s[0])
    } else {
        todos_json_items(s.drop_last()) + ","@ + todo_json(s.last())
    }
}

/// Renders the body of a JSON string, escaping as [`esc_char`] says.
pub fn escape_json(s: &str) -> (r: String)
    ensures
        r@ == json_escaped(s@),
{
    let n = s.unicode_len();
    let mut r = String::new();
    let mut i: usize = 0;
    while i < n
        invariant
            n == s@.len(),
            i <= n,
            r@ == json_escaped(s@.take(i as int)),
        decreases n - i,
    {
        let c = s.get_char(i);
        let u = c as u32;
        if c == '"' {
            proof { reveal_strlit("\\\""); }
            r.append("\\\"");
        } else if c == '\\' {
            proof { reveal_strlit("\\\\"); }
            r.append("\\\\");
        } else if u == 8 {
            proof { reveal_strlit("\\b"); }
            r.append("\\b");
        } else if u == 9 {
            proof { reveal_strlit("\\t"); }
            r.append("\\t");
        } else if u == 10 {
            proof { reveal_strlit("\\n"); }
            r.append("\\n");
        } else if u == 12 {
            proof { reveal_strlit("\\f"); }
            r.append("\\f");
        } else if u == 13 {
            proof { reveal_strlit("\\r"); }
            r.append("\\r");
        } else if u < 32 {
            proof { reveal_strlit("\\u00"); }
            r.append("\\u00");
            r.append(digit_str((u / 16) as u8));
            r.append(digit_str((u % 16) as u8));
        } else {
            let piece = s.substring_char(i, i + 1);
            r.append(piece);
            proof {
                assert(piece@ =~= seq![s@[i as int]]);
            }
        }
        proof {
            assert(s@.take(i + 1 as int).drop_last() =~= s@.take(i as int));
            assert(s@.take(i + 1 as int).last() == s@[i as int]);
            assert(r@ =~= json_escaped(s@.take(i + 1 as int)));
        }
        i += 1;
    }
    proof {
        assert(s@.take(n as int) =~= s@);
    }
    r
}

/// Renders one record as its JSON object.
pub fn todo_to_json(t: &Todo) -> (r: String)
    requires
        t.wf(),
    ensures
        r@ == todo_json(t@),
{
    let mut r = String::new();
    match &t.id {
        Some(id) => {
            r.append("{\"_id\":\"");
            let hex = id.to_hex();
            r.append(hex.as_str());
            r.append("\",\"title\":\"");
        }
        None => {
            r.append("{\"title\":\"");
        }
    }
    let title = escape_json(t.title.as_str());
    r.append(title.as_str());
    r.append("\",\"done\":");
    if t.done {
        r.append("true");
    } else {
        r.append("false");
    }
    r.append("}");
    proof {
        assert(r@ =~= todo_json(t@));
    }
    r
}

/// Renders a listing as its JSON array.
pub fn todos_to_json(list: &Vec<Todo>) -> (r: String)
    requires
        forall|i: int| 0 <= i < list@.len() ==> (#[trigger] list@[i]).wf(),
    ensures
        r@ == todos_json(list@.map_values(|t: Todo| t@)),
{
    let ghost views = list@.map_values(|t: Todo| t@);
    if list.len() == 0 {
        let mut r = String::new();
        r.append("[]");
        proof {
            assert(r@ =~= todos_json(views));
        }
        return r;
    }
    let mut r = String::new();
    r.append("[");
    let mut i: usize = 0;
    while i < list.len()
        invariant
            views == list@.map_values(|t: Todo| t@),
            forall|j: int| 0 <= j < list@.len() ==> (#[trigger] list@[j]).wf(),
            0 < list@.len(),
            i <= list@.len(),
            i == 0 ==> r@ == "["@,
            0 < i ==> r@ == "["@ + todos_json_items(views.take(i as int)),
        decreases list@.len() - i,
    {
        if i > 0 {
            r.append(",");
        }
        let piece = todo_to_json(&list[i]);
        r.append(piece.as_str());
        proof {
            assert(views.take(i + 1 as int).drop_last() =~= views.take(i as int));
            assert(views.take(i + 1 as int).last() == views[i as int]);
            assert(views[i as int] == list@[i as int]@);
            if i == 0 {
                assert(todos_json_items(views.take(1)) == todo_json(views[0]));
                assert(r@ =~= "["@ + todos_json_items(views.take(1)));
            } else {
                assert(r@ =~= "["@ + todos_json_items(views.take(i + 1 as int)));
            }
        }
        i += 1;
    }
    r.append("]");
    proof {
        assert(views.take(views.len() as int) =~= views);
        assert(r@ =~= todos_json(views));
    }
    r
}

} // verus!

//! Decoding of the `todos` resource: a single object or an array of
//! objects of the shape `{userId, id, title, completed}`. The members may
//! come in any order, each of the four exactly once; members with other
//! keys are passed over, their values read only to find their end.

use crate::json::{
    bool_at, eat_sym, parse_bool, parse_string, parse_u32, skip_value, skip_value_at, skip_ws,
    string_at, sym_at, u32_at, ws_end,
};
use crate::records::{FetchError, Todo, TodoView};
use crate::response::is_success_status;
use crate::text::{str_chars, string_eq_lit};
use vstd::prelude::*;

verus! {

/// The members read so far while scanning a todo object: each may be given
/// at most once.
pub struct TodoFields {
    pub user_id: Option<u32>,
    pub id: Option<u32>,
    pub title: Option<Seq<char>>,
    pub completed: Option<bool>,
}

/// No member read yet.
pub open spec fn todo_fields_empty() -> TodoFields {
    TodoFields { user_id: None, id: None, title: None, completed: None }
}

/// The record, once every member has been read.
pub open spec fn todo_of_fields(acc: TodoFields) -> Option<TodoView> {
    if acc.user_id is Some && acc.id is Some && acc.title is Some && acc.completed is Some {
        Some(
            TodoView {
                user_id: acc.user_id->0,
                id: acc.id->0,
                title: acc.title->0,
                completed: acc.completed->0,
            },
        )
    } else {
        None
    }
}

/// One member at position `i`: the decoded key picks the value's form; a
/// key already read is rejected; a key outside the todo shape is passed
/// over with its value.
pub open spec fn todo_member(s: Seq<char>, i: int, acc: TodoFields) -> Option<(TodoFields, int)> {
    match parse_string(s, skip_ws(s, i)) {
        Some((key, j)) => match eat_sym(s, j, ':') {
            Some(c) => if key == "userId"@ {
                if acc.user_id is None {
                    match parse_u32(s, skip_ws(s, c)) {
                        Some((v, m)) => Some(
                            (
                                TodoFields {
                                    user_id: Some(v),
                                    id: acc.id,
                                    title: acc.title,
                                    completed: acc.completed,
                                },
                                m,
                            ),
                        ),
                        None => None,
                    }
                } else {
                    None
                }
            } else if key == "id"@ {
                if acc.id is None {
                    match parse_u32(s, skip_ws(s, c)) {
                        Some((v, m)) => Some(
                            (
                                TodoFields {
                                    user_id: acc.user_id,
                                    id: Some(v),
                                    title: acc.title,
                                    completed: acc.completed,
                                },
                                m,
                            ),
                        ),
                        None => None,
                    }
                } else {
                    None
                }
            } else if key == "title"@ {
                if acc.title is None {
                    match parse_string(s, skip_ws(s, c)) {
                        Some((t, m)) => Some(
                            (
                                TodoFields {
                                    user_id: acc.user_id,
                                    id: acc.id,
                                    title: Some(t),
                                    completed: acc.completed,
                                },
                                m,
                            ),
                        ),
                        None => None,
                    }
                } else {
                    None
                }
            } else if key == "completed"@ {
                if acc.completed is None {
                    match parse_bool(s, skip_ws(s, c)) {
                        Some((b, m)) => Some(
                            (
                                TodoFields {
                                    user_id: acc.user_id,
                                    id: acc.id,
                                    title: acc.title,
                                    completed: Some(b),
                                },
                                m,
                            ),
                        ),
                        None => None,
                    }
                } else {
                    None
                }
            } else {
                match skip_value(s, c) {
                    Some(m) => Some((acc, m)),
                    None => None,
                }
            },
            None => None,
        },
        None => None,
    }
}

/// The members that follow a complete member, from a position just after
/// it: either the closing brace — the record must then be complete — or a
/// comma and a further member.
pub open spec fn todo_members_tail(s: Seq<char>, i: int, acc: TodoFields) -> Option<
    (TodoView, int),
>
    decreases s.len() - i,
{
    if !(0 <= i <= s.len()) {
        None
    } else {
        match eat_sym(s, i, '}') {
            Some(j) => match todo_of_fields(acc) {
                Some(t) => Some((t, j)),
                None => None,
            },
            None => match eat_sym(s, i, ',') {
                Some(a) => match todo_member(s, a, acc) {
                    Some((acc2, j)) => if i < j <= s.len() {
                        todo_members_tail(s, j, acc2)
                    } else {
                        None
                    },
                    None => None,
                },
                None => None,
            },
        }
    }
}

/// A todo object at position `i`: braces around the four members `userId`,
/// `id`, `title` and `completed`, in any order, each exactly once, with
/// unknown members passed over.
pub open spec fn parse_todo_obj(s: Seq<char>, i: int) -> Option<(TodoView, int)> {
    match eat_sym(s, i, '{') {
        Some(a) => match todo_member(s, a, todo_fields_empty()) {
            Some((acc, j)) => todo_members_tail(s, j, acc),
            None => None,
        },
        None => None,
    }
}

/// The view of the partly read members that the scanner carries.
pub open spec fn todo_acc_view(
    acc: (Option<u32>, Option<u32>, Option<String>, Option<bool>),
) -> TodoFields {
    TodoFields { user_id: acc.0, id: acc.1, title: acc.2.deep_view(), completed: acc.3 }
}

/// Consumes one member of a todo object at `i`.
fn todo_member_at(s: &Vec<char>, i: usize, acc: (Option<u32>, Option<u32>, Option<String>, Option<bool>))
    -> (r: Option<((Option<u32>, Option<u32>, Option<String>, Option<bool>), usize)>)
    requires
        i <= s@.len(),
    ensures
        match r {
            Some((acc2, j)) => todo_member(s@, i as int, todo_acc_view(acc)) == Some(
                (todo_acc_view(acc2), j as int),
            ) && i <= j <= s@.len(),
            None => todo_member(s@, i as int, todo_acc_view(acc)) is None,
        },
{
    let k0 = ws_end(s, i);
    let (key, j) = match string_at(s, k0) {
        Some(x) => x,
        None => {
            return None;
        },
    };
    let c = match sym_at(s, j, ':') {
        Some(c) => c,
        None => {
            return None;
        },
    };
    let (user_id, id, title, completed) = acc;
    if string_eq_lit(&key, "userId") {
        if user_id.is_some() {
            return None;
        }
        let m0 = ws_end(s, c);
        match u32_at(s, m0) {
            Some((v, m)) => Some(((Some(v), id, title, completed), m)),
            None => None,
        }
    } else if string_eq_lit(&key, "id") {
        if id.is_some() {
            return None;
        }
        let m0 = ws_end(s, c);
        match u32_at(s, m0) {
            Some((v, m)) => Some(((user_id, Some(v), title, completed), m)),
            None => None,
        }
    } else if string_eq_lit(&key, "title") {
        if title.is_some() {
            return None;
        }
        let m0 = ws_end(s, c);
        match string_at(s, m0) {
            Some((t, m)) => Some(((user_id, id, Some(t), completed), m)),
            None => None,
        }
    } else if string_eq_lit(&key, "completed") {
        if completed.is_some() {
            return None;
        }
        let m0 = ws_end(s, c);
        match bool_at(s, m0) {
            Some((b, m)) => Some(((user_id, id, title, Some(b)), m)),
            None => None,
        }
    } else {
        match skip_value_at(s, c) {
            Some(m) => Some(((user_id, id, title, completed), m)),
            None => None,
        }
    }
}

/// Consumes the todo object at `i`.
pub fn todo_obj_at(s: &Vec<char>, i: usize) -> (r: Option<(Todo, usize)>)
    requires
        i <= s@.len(),
    ensures
        match r {
            Some((t, j)) => parse_todo_obj(s@, i as int) == Some((t@, j as int)) && i < j
                <= s@.len(),
            None => parse_todo_obj(s@, i as int) is None,
        },
{
    let a = match sym_at(s, i, '{') {
        Some(a) => a,
        None => {
            return None;
        },
    };
    proof {
        assert(todo_acc_view((None, None, None, None)) == todo_fields_empty());
    }
    let (mut acc, mut k) = match todo_member_at(s, a, (None, None, None, None)) {
        Some(x) => x,
        None => {
            return None;
        },
    };
    loop
        invariant
            i < k <= s@.len(),
            match parse_todo_obj(s@, i as int) {
                Some((t, end)) => todo_members_tail(s@, k as int, todo_acc_view(acc)) == Some(
                    (t, end),
                ),
                None => todo_members_tail(s@, k as int, todo_acc_view(acc)) is None,
            },
        decreases s@.len() - k,
    {
        match sym_at(s, k, '}') {
            Some(j2) => {
                let ghost av = todo_acc_view(acc);
                match acc {
                    (Some(u), Some(d), Some(t), Some(c)) => {
                        let todo = Todo { user_id: u, id: d, title: t, completed: c };
                        proof {
                            assert(todo_members_tail(s@, k as int, av) == Some((todo@, j2 as int)));
                        }
                        return Some((todo, j2));
                    },
                    _ => {
                        proof {
                            assert(todo_of_fields(av) is None);
                            assert(todo_members_tail(s@, k as int, av) is None);
                        }
                        return None;
                    },
                }
            },
            None => {},
        }
        let a2 = match sym_at(s, k, ',') {
            Some(a2) => a2,
            None => {
                proof {
                    assert(todo_members_tail(s@, k as int, todo_acc_view(acc)) is None);
                }
                return None;
            },
        };
        match todo_member_at(s, a2, acc) {
            Some((acc2, j)) => {
                acc = acc2;
                k = j;
            },
            None => {
                proof {
                    assert(todo_members_tail(s@, k as int, todo_acc_view(acc)) is None);
                }
                return None;
            },
        }
    }
}

/// The items that follow the first element of a todo array, from a position
/// just after a complete element: either the closing bracket, or a comma and
/// a further element.
pub open spec fn parse_todo_tail(s: Seq<char>, i: int) -> Option<(Seq<TodoView>, int)>
    decreases s.len() - i,
{
    if !(0 <= i <= s.len()) {
        None
    } else {
        match eat_sym(s, i, ']') {
            Some(j) => Some((Seq::empty(), j)),
            None => match eat_sym(s, i, ',') {
                Some(a) => match parse_todo_obj(s, a) {
                    Some((t, j)) => if i < j <= s.len() {
                        match parse_todo_tail(s, j) {
                            Some((ts, k)) => Some((seq![t] + ts, k)),
                            None => None,
                        }
                    } else {
                        None
                    },
                    None => None,
                },
                None => None,
            },
        }
    }
}

/// A todo array at position `i`: brackets around comma-separated todo
/// objects, possibly none.
pub open spec fn parse_todo_list(s: Seq<char>, i: int) -> Option<(Seq<TodoView>, int)> {
    match eat_sym(s, i, '[') {
        Some(a) => match eat_sym(s, a, ']') {
            Some(b) => Some((Seq::empty(), b)),
            None => match parse_todo_obj(s, a) {
                Some((t, j)) => match parse_todo_tail(s, j) {
                    Some((ts, k)) => Some((seq![t] + ts, k)),
                    None => None,
                },
                None => None,
            },
        },
        None => None,
    }
}

/// Relates the parse of the whole array to the parse of the items still to
/// be read: the elements read so far stand in `acc`.
spec fn todo_tail_rel(s: Seq<char>, i0: int, i: int, acc: Seq<TodoView>) -> bool {
    match parse_todo_list(s, i0) {
        Some((ts, k)) => parse_todo_tail(s, i) matches Some((ts2, k2)) && ts == acc + ts2 && k
            == k2,
        None => parse_todo_tail(s, i) is None,
    }
}

/// Consumes the todo array at `i`.
pub fn todo_list_at(s: &Vec<char>, i: usize) -> (r: Option<(Vec<Todo>, usize)>)
    requires
        i <= s@.len(),
    ensures
        match r {
            Some((v, j)) => parse_todo_list(s@, i as int) == Some((v.deep_view(), j as int)) && i
                < j <= s@.len(),
            None => parse_todo_list(s@, i as int) is None,
        },
{
    let ghost i0 = i as int;
    let a = match sym_at(s, i, '[') {
        Some(a) => a,
        None => {
            return None;
        },
    };
    match sym_at(s, a, ']') {
        Some(b) => {
            let v: Vec<Todo> = Vec::new();
            proof {
                assert(v.deep_view() =~= Seq::<TodoView>::empty());
            }
            return Some((v, b));
        },
        None => {},
    }
    let mut v: Vec<Todo> = Vec::new();
    let mut k: usize;
    match todo_obj_at(s, a) {
        Some((t, j)) => {
            proof {
                assert(v.deep_view() =~= Seq::<TodoView>::empty());
            }
            v.push(t);
            k = j;
        },
        None => {
            return None;
        },
    }
    proof {
        assert(v.deep_view() =~= seq![v@[0]@]);
        if parse_todo_list(s@, i0) is Some {
            let (ts, m) = parse_todo_list(s@, i0)->0;
            if parse_todo_tail(s@, k as int) is Some {
                let (ts2, m2) = parse_todo_tail(s@, k as int)->0;
                assert(ts =~= v.deep_view() + ts2);
            }
        }
    }
    loop
        invariant
            i <= k <= s@.len(),
            todo_tail_rel(s@, i0, k as int, v.deep_view()),
            i0 == i as int,
        decreases s@.len() - k,
    {
        match sym_at(s, k, ']') {
            Some(j2) => {
                proof {
                    assert(parse_todo_tail(s@, k as int) == Some(
                        (Seq::<TodoView>::empty(), j2 as int),
                    ));
                    if parse_todo_list(s@, i0) is Some {
                        let (ts, m) = parse_todo_list(s@, i0)->0;
                        assert(ts =~= v.deep_view());
                    }
                }
                return Some((v, j2));
            },
            None => {},
        }
        let a2 = match sym_at(s, k, ',') {
            Some(a2) => a2,
            None => {
                proof {
                    assert(parse_todo_tail(s@, k as int) is None);
                }
                return None;
            },
        };
        match todo_obj_at(s, a2) {
            Some((t, j)) => {
                let ghost old_view = v.deep_view();
                let ghost tv = t@;
                v.push(t);
                proof {
                    assert(v.deep_view() =~= old_view + seq![tv]);
                    assert(parse_todo_tail(s@, k as int) matches Some((ts2, k2))
                        ==> parse_todo_tail(s@, j as int) matches Some((ts3, k3)) && ts2 == seq![
                        tv,
                    ] + ts3 && k2 == k3);
                    if parse_todo_list(s@, i0) is Some {
                        let (ts, m) = parse_todo_list(s@, i0)->0;
                        let (ts3, m3) = parse_todo_tail(s@, j as int)->0;
                        assert(ts =~= v.deep_view() + ts3);
                    }
                }
                k = j;
            },
            None => {
                proof {
                    assert(parse_todo_tail(s@, k as int) is None);
                }
                return None;
            },
        }
    }
}

/// The whole body as one todo object: nothing but whitespace may follow it.
pub open spec fn todo_json(s: Seq<char>) -> Option<TodoView> {
    match parse_todo_obj(s, 0) {
        Some((t, j)) => if skip_ws(s, j) == s.len() {
            Some(t)
        } else {
            None
        },
        None => None,
    }
}

/// The whole body as a todo array: nothing but whitespace may follow it.
pub open spec fn todos_json(s: Seq<char>) -> Option<Seq<TodoView>> {
    match parse_todo_list(s, 0) {
        Some((ts, j)) => if skip_ws(s, j) == s.len() {
            Some(ts)
        } else {
            None
        },
        None => None,
    }
}

/// Decodes a response body as a single todo record. The body is accepted
/// exactly when it holds one todo object and nothing else.
pub fn parse_todo_body(body: &str) -> (r: Result<Todo, FetchError>)
    ensures
        r is Ok <==> todo_json(body@) is Some,
        r matches Ok(t) ==> todo_json(body@) == Some(t@),
{
    let v = str_chars(body);
    let n = v.len();
    match todo_obj_at(&v, 0) {
        Some((t, j)) => {
            let e = ws_end(&v, j);
            if e == n {
                Ok(t)
            } else {
                Err(FetchError)
            }
        },
        None => Err(FetchError),
    }
}

/// Decodes a response body as an array of todo records. The body is
/// accepted exactly when it holds one todo array and nothing else.
pub fn parse_todos_body(body: &str) -> (r: Result<Vec<Todo>, FetchError>)
    ensures
        r is Ok <==> todos_json(body@) is Some,
        r matches Ok(v) ==> todos_json(body@) == Some(v.deep_view()),
{
    let v = str_chars(body);
    let n = v.len();
    match todo_list_at(&v, 0) {
        Some((ts, j)) => {
            let e = ws_end(&v, j);
            if e == n {
                Ok(ts)
            } else {
                Err(FetchError)
            }
        },
        None => Err(FetchError),
    }
}

/// Turns the status and body of a `GET /todos/{id}` response into the
/// fetched record. The call fails on a non-success status, and on a body
/// that does not hold exactly one well-formed todo object.
pub fn decode_todo_response(status: u16, body: &str) -> (r: Result<Todo, FetchError>)
    ensures
        r is Ok <==> is_success_status(status) && todo_json(body@) is Some,
        r matches Ok(t) ==> todo_json(body@) == Some(t@),
{
    if !(200 <= status && status < 300) {
        return Err(FetchError);
    }
    parse_todo_body(body)
}

/// Turns the status and body of a `GET /todos` response into the fetched
/// records. The call fails on a non-success status, and on a body that does
/// not hold exactly one well-formed todo array.
pub fn decode_todos_response(status: u16, body: &str) -> (r: Result<Vec<Todo>, FetchError>)
    ensures
        r is Ok <==> is_success_status(status) && todos_json(body@) is Some,
        r matches Ok(v) ==> todos_json(body@) == Some(v.deep_view()),
{
    if !(200 <= status && status < 300) {
        return Err(FetchError);
    }
    parse_todos_body(body)
}

} // verus!

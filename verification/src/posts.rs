//! Decoding of the `posts` resource: a single object or an array of
//! objects of the shape `{userId, id, title, body}`. The members may come
//! in any order, each of the four exactly once; members with other keys are
//! passed over, their values read only to find their end.

use crate::json::{
    eat_sym, parse_string, parse_u32, skip_value, skip_value_at, skip_ws, string_at, sym_at,
    u32_at, ws_end,
};
use crate::records::{FetchError, Post, PostView};
use crate::response::is_success_status;
use crate::text::{str_chars, string_eq_lit};
use vstd::prelude::*;

verus! {

/// The members read so far while scanning a post object: each may be given
/// at most once.
pub struct PostFields {
    pub user_id: Option<u32>,
    pub id: Option<u32>,
    pub title: Option<Seq<char>>,
    pub body: Option<Seq<char>>,
}

/// No member read yet.
pub open spec fn post_fields_empty() -> PostFields {
    PostFields { user_id: None, id: None, title: None, body: None }
}

/// The record, once every member has been read.
pub open spec fn post_of_fields(acc: PostFields) -> Option<PostView> {
    if acc.user_id is Some && acc.id is Some && acc.title is Some && acc.body is Some {
        Some(
            PostView {
                user_id: acc.user_id->0,
                id: acc.id->0,
                title: acc.title->0,
                body: acc.body->0,
            },
        )
    } else {
        None
    }
}

/// One member at position `i`: the decoded key picks the value's form; a
/// key already read is rejected; a key outside the post shape is passed
/// over with its value.
pub open spec fn post_member(s: Seq<char>, i: int, acc: PostFields) -> Option<(PostFields, int)> {
    match parse_string(s, skip_ws(s, i)) {
        Some((key, j)) => match eat_sym(s, j, ':') {
            Some(c) => if key == "userId"@ {
                if acc.user_id is None {
                    match parse_u32(s, skip_ws(s, c)) {
                        Some((v, m)) => Some(
                            (
                                PostFields {
                                    user_id: Some(v),
                                    id: acc.id,
                                    title: acc.title,
                                    body: acc.body,
                                },
                                m,
                            ),
                        ),
                        None => None,
                    }
                } else {
                    None
                }
            } else if key == "id"@ {
                if acc.id is None {
                    match parse_u32(s, skip_ws(s, c)) {
                        Some((v, m)) => Some(
                            (
                                PostFields {
                                    user_id: acc.user_id,
                                    id: Some(v),
                                    title: acc.title,
                                    body: acc.body,
                                },
                                m,
                            ),
                        ),
                        None => None,
                    }
                } else {
                    None
                }
            } else if key == "title"@ {
                if acc.title is None {
                    match parse_string(s, skip_ws(s, c)) {
                        Some((t, m)) => Some(
                            (
                                PostFields {
                                    user_id: acc.user_id,
                                    id: acc.id,
                                    title: Some(t),
                                    body: acc.body,
                                },
                                m,
                            ),
                        ),
                        None => None,
                    }
                } else {
                    None
                }
            } else if key == "body"@ {
                if acc.body is None {
                    match parse_string(s, skip_ws(s, c)) {
                        Some((t, m)) => Some(
                            (
                                PostFields {
                                    user_id: acc.user_id,
                                    id: acc.id,
                                    title: acc.title,
                                    body: Some(t),
                                },
                                m,
                            ),
                        ),
                        None => None,
                    }
                } else {
                    None
                }
            } else {
                match skip_value(s, c) {
                    Some(m) => Some((acc, m)),
                    None => None,
                }
            },
            None => None,
        },
        None => None,
    }
}

/// The members that follow a complete member, from a position just after
/// it: either the closing brace — the record must then be complete — or a
/// comma and a further member.
pub open spec fn post_members_tail(s: Seq<char>, i: int, acc: PostFields) -> Option<
    (PostView, int),
>
    decreases s.len() - i,
{
    if !(0 <= i <= s.len()) {
        None
    } else {
        match eat_sym(s, i, '}') {
            Some(j) => match post_of_fields(acc) {
                Some(t) => Some((t, j)),
                None => None,
            },
            None => match eat_sym(s, i, ',') {
                Some(a) => match post_member(s, a, acc) {
                    Some((acc2, j)) => if i < j <= s.len() {
                        post_members_tail(s, j, acc2)
                    } else {
                        None
                    },
                    None => None,
                },
                None => None,
            },
        }
    }
}

/// A post object at position `i`: braces around the four members `userId`,
/// `id`, `title` and `body`, in any order, each exactly once, with unknown
/// members passed over.
pub open spec fn parse_post_obj(s: Seq<char>, i: int) -> Option<(PostView, int)> {
    match eat_sym(s, i, '{') {
        Some(a) => match post_member(s, a, post_fields_empty()) {
            Some((acc, j)) => post_members_tail(s, j, acc),
            None => None,
        },
        None => None,
    }
}

/// The view of the partly read members that the scanner carries.
pub open spec fn post_acc_view(
    acc: (Option<u32>, Option<u32>, Option<String>, Option<String>),
) -> PostFields {
    PostFields { user_id: acc.0, id: acc.1, title: acc.2.deep_view(), body: acc.3.deep_view() }
}

/// Consumes one member of a post object at `i`.
fn post_member_at(
    s: &Vec<char>,
    i: usize,
    acc: (Option<u32>, Option<u32>, Option<String>, Option<String>),
) -> (r: Option<((Option<u32>, Option<u32>, Option<String>, Option<String>), usize)>)
    requires
        i <= s@.len(),
    ensures
        match r {
            Some((acc2, j)) => post_member(s@, i as int, post_acc_view(acc)) == Some(
                (post_acc_view(acc2), j as int),
            ) && i <= j <= s@.len(),
            None => post_member(s@, i as int, post_acc_view(acc)) is None,
        },
{
    let k0 = ws_end(s, i);
    let (key, j) = match string_at(s, k0) {
        Some(x) => x,
        None => {
            return None;
        },
    };
    let c = match sym_at(s, j, ':') {
        Some(c) => c,
        None => {
            return None;
        },
    };
    let (user_id, id, title, body) = acc;
    if string_eq_lit(&key, "userId") {
        if user_id.is_some() {
            return None;
        }
        let m0 = ws_end(s, c);
        match u32_at(s, m0) {
            Some((v, m)) => Some(((Some(v), id, title, body), m)),
            None => None,
        }
    } else if string_eq_lit(&key, "id") {
        if id.is_some() {
            return None;
        }
        let m0 = ws_end(s, c);
        match u32_at(s, m0) {
            Some((v, m)) => Some(((user_id, Some(v), title, body), m)),
            None => None,
        }
    } else if string_eq_lit(&key, "title") {
        if title.is_some() {
            return None;
        }
        let m0 = ws_end(s, c);
        match string_at(s, m0) {
            Some((t, m)) => Some(((user_id, id, Some(t), body), m)),
            None => None,
        }
    } else if string_eq_lit(&key, "body") {
        if body.is_some() {
            return None;
        }
        let m0 = ws_end(s, c);
        match string_at(s, m0) {
            Some((t, m)) => Some(((user_id, id, title, Some(t)), m)),
            None => None,
        }
    } else {
        match skip_value_at(s, c) {
            Some(m) => Some(((user_id, id, title, body), m)),
            None => None,
        }
    }
}

/// Consumes the post object at `i`.
pub fn post_obj_at(s: &Vec<char>, i: usize) -> (r: Option<(Post, usize)>)
    requires
        i <= s@.len(),
    ensures
        match r {
            Some((t, j)) => parse_post_obj(s@, i as int) == Some((t@, j as int)) && i < j
                <= s@.len(),
            None => parse_post_obj(s@, i as int) is None,
        },
{
    let a = match sym_at(s, i, '{') {
        Some(a) => a,
        None => {
            return None;
        },
    };
    proof {
        assert(post_acc_view((None, None, None, None)) == post_fields_empty());
    }
    let (mut acc, mut k) = match post_member_at(s, a, (None, None, None, None)) {
        Some(x) => x,
        None => {
            return None;
        },
    };
    loop
        invariant
            i < k <= s@.len(),
            match parse_post_obj(s@, i as int) {
                Some((t, end)) => post_members_tail(s@, k as int, post_acc_view(acc)) == Some(
                    (t, end),
                ),
                None => post_members_tail(s@, k as int, post_acc_view(acc)) is None,
            },
        decreases s@.len() - k,
    {
        match sym_at(s, k, '}') {
            Some(j2) => {
                let ghost av = post_acc_view(acc);
                match acc {
                    (Some(u), Some(d), Some(t), Some(b)) => {
                        let post = Post { user_id: u, id: d, title: t, body: b };
                        proof {
                            assert(post_members_tail(s@, k as int, av) == Some((post@, j2 as int)));
                        }
                        return Some((post, j2));
                    },
                    _ => {
                        proof {
                            assert(post_of_fields(av) is None);
                            assert(post_members_tail(s@, k as int, av) is None);
                        }
                        return None;
                    },
                }
            },
            None => {},
        }
        let a2 = match sym_at(s, k, ',') {
            Some(a2) => a2,
            None => {
                proof {
                    assert(post_members_tail(s@, k as int, post_acc_view(acc)) is None);
                }
                return None;
            },
        };
        match post_member_at(s, a2, acc) {
            Some((acc2, j)) => {
                acc = acc2;
                k = j;
            },
            None => {
                proof {
                    assert(post_members_tail(s@, k as int, post_acc_view(acc)) is None);
                }
                return None;
            },
        }
    }
}

/// The items that follow the first element of a post array, from a position
/// just after a complete element: either the closing bracket, or a comma and
/// a further element.
pub open spec fn parse_post_tail(s: Seq<char>, i: int) -> Option<(Seq<PostView>, int)>
    decreases s.len() - i,
{
    if !(0 <= i <= s.len()) {
        None
    } else {
        match eat_sym(s, i, ']') {
            Some(j) => Some((Seq::empty(), j)),
            None => match eat_sym(s, i, ',') {
                Some(a) => match parse_post_obj(s, a) {
                    Some((t, j)) => if i < j <= s.len() {
                        match parse_post_tail(s, j) {
                            Some((ts, k)) => Some((seq![t] + ts, k)),
                            None => None,
                        }
                    } else {
                        None
                    },
                    None => None,
                },
                None => None,
            },
        }
    }
}

/// A post array at position `i`: brackets around comma-separated post
/// objects, possibly none.
pub open spec fn parse_post_list(s: Seq<char>, i: int) -> Option<(Seq<PostView>, int)> {
    match eat_sym(s, i, '[') {
        Some(a) => match eat_sym(s, a, ']') {
            Some(b) => Some((Seq::empty(), b)),
            None => match parse_post_obj(s, a) {
                Some((t, j)) => match parse_post_tail(s, j) {
                    Some((ts, k)) => Some((seq![t] + ts, k)),
                    None => None,
                },
                None => None,
            },
        },
        None => None,
    }
}

/// Relates the parse of the whole array to the parse of the items still to
/// be read: the elements read so far stand in `acc`.
spec fn post_tail_rel(s: Seq<char>, i0: int, i: int, acc: Seq<PostView>) -> bool {
    match parse_post_list(s, i0) {
        Some((ts, k)) => parse_post_tail(s, i) matches Some((ts2, k2)) && ts == acc + ts2 && k
            == k2,
        None => parse_post_tail(s, i) is None,
    }
}

/// Consumes the post array at `i`.
pub fn post_list_at(s: &Vec<char>, i: usize) -> (r: Option<(Vec<Post>, usize)>)
    requires
        i <= s@.len(),
    ensures
        match r {
            Some((v, j)) => parse_post_list(s@, i as int) == Some((v.deep_view(), j as int)) && i
                < j <= s@.len(),
            None => parse_post_list(s@, i as int) is None,
        },
{
    let ghost i0 = i as int;
    let a = match sym_at(s, i, '[') {
        Some(a) => a,
        None => {
            return None;
        },
    };
    match sym_at(s, a, ']') {
        Some(b) => {
            let v: Vec<Post> = Vec::new();
            proof {
                assert(v.deep_view() =~= Seq::<PostView>::empty());
            }
            return Some((v, b));
        },
        None => {},
    }
    let mut v: Vec<Post> = Vec::new();
    let mut k: usize;
    match post_obj_at(s, a) {
        Some((t, j)) => {
            proof {
                assert(v.deep_view() =~= Seq::<PostView>::empty());
            }
            v.push(t);
            k = j;
        },
        None => {
            return None;
        },
    }
    proof {
        assert(v.deep_view() =~= seq![v@[0]@]);
        if parse_post_list(s@, i0) is Some {
            let (ts, m) = parse_post_list(s@, i0)->0;
            if parse_post_tail(s@, k as int) is Some {
                let (ts2, m2) = parse_post_tail(s@, k as int)->0;
                assert(ts =~= v.deep_view() + ts2);
            }
        }
    }
    loop
        invariant
            i <= k <= s@.len(),
            post_tail_rel(s@, i0, k as int, v.deep_view()),
            i0 == i as int,
        decreases s@.len() - k,
    {
        match sym_at(s, k, ']') {
            Some(j2) => {
                proof {
                    assert(parse_post_tail(s@, k as int) == Some(
                        (Seq::<PostView>::empty(), j2 as int),
                    ));
                    if parse_post_list(s@, i0) is Some {
                        let (ts, m) = parse_post_list(s@, i0)->0;
                        assert(ts =~= v.deep_view());
                    }
                }
                return Some((v, j2));
            },
            None => {},
        }
        let a2 = match sym_at(s, k, ',') {
            Some(a2) => a2,
            None => {
                proof {
                    assert(parse_post_tail(s@, k as int) is None);
                }
                return None;
            },
        };
        match post_obj_at(s, a2) {
            Some((t, j)) => {
                let ghost old_view = v.deep_view();
                let ghost tv = t@;
                v.push(t);
                proof {
                    assert(v.deep_view() =~= old_view + seq![tv]);
                    assert(parse_post_tail(s@, k as int) matches Some((ts2, k2))
                        ==> parse_post_tail(s@, j as int) matches Some((ts3, k3)) && ts2 == seq![
                        tv,
                    ] + ts3 && k2 == k3);
                    if parse_post_list(s@, i0) is Some {
                        let (ts, m) = parse_post_list(s@, i0)->0;
                        let (ts3, m3) = parse_post_tail(s@, j as int)->0;
                        assert(ts =~= v.deep_view() + ts3);
                    }
                }
                k = j;
            },
            None => {
                proof {
                    assert(parse_post_tail(s@, k as int) is None);
                }
                return None;
            },
        }
    }
}

/// The whole body as one post object: nothing but whitespace may follow it.
pub open spec fn post_json(s: Seq<char>) -> Option<PostView> {
    match parse_post_obj(s, 0) {
        Some((t, j)) => if skip_ws(s, j) == s.len() {
            Some(t)
        } else {
            None
        },
        None => None,
    }
}

/// The whole body as a post array: nothing but whitespace may follow it.
pub open spec fn posts_json(s: Seq<char>) -> Option<Seq<PostView>> {
    match parse_post_list(s, 0) {
        Some((ts, j)) => if skip_ws(s, j) == s.len() {
            Some(ts)
        } else {
            None
        },
        None => None,
    }
}

/// Decodes a response body as a single post record. The body is accepted
/// exactly when it holds one post object and nothing else.
pub fn parse_post_body(body: &str) -> (r: Result<Post, FetchError>)
    ensures
        r is Ok <==> post_json(body@) is Some,
        r matches Ok(t) ==> post_json(body@) == Some(t@),
{
    let v = str_chars(body);
    let n = v.len();
    match post_obj_at(&v, 0) {
        Some((t, j)) => {
            let e = ws_end(&v, j);
            if e == n {
                Ok(t)
            } else {
                Err(FetchError)
            }
        },
        None => Err(FetchError),
    }
}

/// Decodes a response body as an array of post records. The body is
/// accepted exactly when it holds one post array and nothing else.
pub fn parse_posts_body(body: &str) -> (r: Result<Vec<Post>, FetchError>)
    ensures
        r is Ok <==> posts_json(body@) is Some,
        r matches Ok(v) ==> posts_json(body@) == Some(v.deep_view()),
{
    let v = str_chars(body);
    let n = v.len();
    match post_list_at(&v, 0) {
        Some((ts, j)) => {
            let e = ws_end(&v, j);
            if e == n {
                Ok(ts)
            } else {
                Err(FetchError)
            }
        },
        None => Err(FetchError),
    }
}

/// Turns the status and body of a `GET /posts/{id}` response into the
/// fetched record. The call fails on a non-success status, and on a body
/// that does not hold exactly one well-formed post object.
pub fn decode_post_response(status: u16, body: &str) -> (r: Result<Post, FetchError>)
    ensures
        r is Ok <==> is_success_status(status) && post_json(body@) is Some,
        r matches Ok(t) ==> post_json(body@) == Some(t@),
{
    if !(200 <= status && status < 300) {
        return Err(FetchError);
    }
    parse_post_body(body)
}

/// Turns the status and body of a `GET /posts` response into the fetched
/// records. The call fails on a non-success status, and on a body that does
/// not hold exactly one well-formed post array.
pub fn decode_posts_response(status: u16, body: &str) -> (r: Result<Vec<Post>, FetchError>)
    ensures
        r is Ok <==> is_success_status(status) && posts_json(body@) is Some,
        r matches Ok(v) ==> posts_json(body@) == Some(v.deep_view()),
{
    if !(200 <= status && status < 300) {
        return Err(FetchError);
    }
    parse_posts_body(body)
}

} // verus!

//! The request targets of the remote API: the fixed base endpoint with the
//! resource path, and for a fetch-one call the decimal form of the
//! identifier.

use vstd::prelude::*;
use vstd::string::StringExecFns;

verus! {

/// The character of a single decimal digit.
pub open spec fn digit_char(d: nat) -> char
    recommends
        d < 10,
{
    if d == 0 {
        '0'
    } else if d == 1 {
        '1'
    } else if d == 2 {
        '2'
    } else if d == 3 {
        '3'
    } else if d == 4 {
        '4'
    } else if d == 5 {
        '5'
    } else if d == 6 {
        '6'
    } else if d == 7 {
        '7'
    } else if d == 8 {
        '8'
    } else {
        '9'
    }
}

/// The decimal form of a number, most significant digit first, with no
/// leading zero except on the number zero itself.
pub open spec fn dec_digits(n: nat) -> Seq<char>
    decreases n,
{
    if n < 10 {
        seq![digit_char(n)]
    } else {
        dec_digits(n / 10) + seq![digit_char(n % 10)]
    }
}

/// Appends the decimal form of `n`.
fn push_decimal(out: &mut String, n: u32)
    ensures
        final(out)@ == old(out)@ + dec_digits(n as nat),
    decreases n,
{
    if n >= 10 {
        push_decimal(out, n / 10);
    }
    let ghost mid = out@;
    let d = n % 10;
    match d {
        0 => {
            proof {
                reveal_strlit("0");
                assert("0"@ =~= seq!['0']);
            }
            out.append("0");
        },
        1 => {
            proof {
                reveal_strlit("1");
                assert("1"@ =~= seq!['1']);
            }
            out.append("1");
        },
        2 => {
            proof {
                reveal_strlit("2");
                assert("2"@ =~= seq!['2']);
            }
            out.append("2");
        },
        3 => {
            proof {
                reveal_strlit("3");
                assert("3"@ =~= seq!['3']);
            }
            out.append("3");
        },
        4 => {
            proof {
                reveal_strlit("4");
                assert("4"@ =~= seq!['4']);
            }
            out.append("4");
        },
        5 => {
            proof {
                reveal_strlit("5");
                assert("5"@ =~= seq!['5']);
            }
            out.append("5");
        },
        6 => {
            proof {
                reveal_strlit("6");
                assert("6"@ =~= seq!['6']);
            }
            out.append("6");
        },
        7 => {
            proof {
                reveal_strlit("7");
                assert("7"@ =~= seq!['7']);
            }
            out.append("7");
        },
        8 => {
            proof {
                reveal_strlit("8");
                assert("8"@ =~= seq!['8']);
            }
            out.append("8");
        },
        _ => {
            proof {
                reveal_strlit("9");
                assert("9"@ =~= seq!['9']);
            }
            out.append("9");
        },
    }
    proof {
        assert(out@ =~= mid + seq![digit_char((n % 10) as nat)]);
        if n < 10 {
            assert(dec_digits(n as nat) =~= seq![digit_char(n as nat)]);
            assert(out@ =~= old(out)@ + dec_digits(n as nat));
        } else {
            assert(mid == old(out)@ + dec_digits((n / 10) as nat));
            assert(dec_digits(n as nat) =~= dec_digits((n / 10) as nat) + seq![
                digit_char((n % 10) as nat),
            ]);
            assert(out@ =~= old(out)@ + dec_digits(n as nat));
        }
    }
}

/// The fixed base endpoint of the demo service.
pub open spec fn base_url_view() -> Seq<char> {
    "https://jsonplaceholder.typicode.com"@
}

/// The target of a fetch-one call on the `todos` resource under `base`.
pub open spec fn todo_url_with_base_view(base: Seq<char>, id: u32) -> Seq<char> {
    base + "/todos/"@ + dec_digits(id as nat)
}

/// Builds the target of `GET {base}/todos/{id}`: the base endpoint is an
/// injected configuration value, so that a test can aim the client at a
/// local stub server.
pub fn todo_url_with_base(base: &str, id: u32) -> (r: String)
    ensures
        r@ == todo_url_with_base_view(base@, id),
{
    let mut url = String::from_str(base);
    url.append("/todos/");
    push_decimal(&mut url, id);
    proof {
        assert(url@ =~= base@ + "/todos/"@ + dec_digits(id as nat));
    }
    url
}

/// The target of a fetch-one call on the `todos` resource.
pub open spec fn todo_url_view(id: u32) -> Seq<char> {
    todo_url_with_base_view(base_url_view(), id)
}

/// Builds the target of `GET /todos/{id}` on the demo service.
pub fn todo_url(id: u32) -> (r: String)
    ensures
        r@ == todo_url_view(id),
{
    todo_url_with_base("https://jsonplaceholder.typicode.com", id)
}

/// The target of a fetch-all call on the `todos` resource under `base`.
pub open spec fn todos_url_with_base_view(base: Seq<char>) -> Seq<char> {
    base + "/todos"@
}

/// Builds the target of `GET {base}/todos`.
pub fn todos_url_with_base(base: &str) -> (r: String)
    ensures
        r@ == todos_url_with_base_view(base@),
{
    let mut url = String::from_str(base);
    url.append("/todos");
    url
}

/// The target of a fetch-all call on the `todos` resource.
pub open spec fn todos_url_view() -> Seq<char> {
    todos_url_with_base_view(base_url_view())
}

/// Builds the target of `GET /todos` on the demo service.
pub fn todos_url() -> (r: String)
    ensures
        r@ == todos_url_view(),
{
    todos_url_with_base("https://jsonplaceholder.typicode.com")
}

/// The target of a fetch-one call on the `posts` resource under `base`.
pub open spec fn post_url_with_base_view(base: Seq<char>, id: u32) -> Seq<char> {
    base + "/posts/"@ + dec_digits(id as nat)
}

/// Builds the target of `GET {base}/posts/{id}`.
pub fn post_url_with_base(base: &str, id: u32) -> (r: String)
    ensures
        r@ == post_url_with_base_view(base@, id),
{
    let mut url = String::from_str(base);
    url.append("/posts/");
    push_decimal(&mut url, id);
    proof {
        assert(url@ =~= base@ + "/posts/"@ + dec_digits(id as nat));
    }
    url
}

/// The target of a fetch-one call on the `posts` resource.
pub open spec fn post_url_view(id: u32) -> Seq<char> {
    post_url_with_base_view(base_url_view(), id)
}

/// Builds the target of `GET /posts/{id}` on the demo service.
pub fn post_url(id: u32) -> (r: String)
    ensures
        r@ == post_url_view(id),
{
    post_url_with_base("https://jsonplaceholder.typicode.com", id)
}

/// The target of a fetch-all call on the `posts` resource under `base`.
pub open spec fn posts_url_with_base_view(base: Seq<char>) -> Seq<char> {
    base + "/posts"@
}

/// Builds the target of `GET {base}/posts`.
pub fn posts_url_with_base(base: &str) -> (r: String)
    ensures
        r@ == posts_url_with_base_view(base@),
{
    let mut url = String::from_str(base);
    url.append("/posts");
    url
}

/// The target of a fetch-all call on the `posts` resource.
pub open spec fn posts_url_view() -> Seq<char> {
    posts_url_with_base_view(base_url_view())
}

/// Builds the target of `GET /posts` on the demo service.
pub fn posts_url() -> (r: String)
    ensures
        r@ == posts_url_view(),
{
    posts_url_with_base("https://jsonplaceholder.typicode.com")
}

} // verus!

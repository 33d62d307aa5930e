use typicode_client::posts::{decode_post_response, decode_posts_response};

fn post_fixture() -> String {
    String::from(
        "{\n  \"userId\": 1,\n  \"id\": 10,\n  \"title\": \"optio molestias id quia eum\",\n  \"body\": \"quo et expedita modi cum officia vel magni\\ndoloribus qui repudiandae\\nvero nisi sit\\nquos veniam quod sed accusamus veritatis error\"\n}",
    )
}

#[test]
fn post_fixture_decodes_to_known_record() {
    let body = post_fixture();
    let result = decode_post_response(200, &body);
    assert!(result.is_ok());
    let post = result.unwrap();
    assert_eq!(post.id, 10);
    assert!(post.user_id > 0);
    assert!(!post.title.is_empty());
    assert!(!post.body.is_empty());
    assert_eq!(post.title, "optio molestias id quia eum");
    assert!(post.body.contains('\n'));
}

#[test]
fn post_unknown_id_response_fails() {
    let result = decode_post_response(404, "{}");
    assert!(result.is_err());
}

#[test]
fn post_server_error_fails() {
    let body = post_fixture();
    assert!(decode_post_response(500, &body).is_err());
}

#[test]
fn post_malformed_body_fails() {
    assert!(decode_post_response(200, "unexpected response format").is_err());
    assert!(decode_post_response(200, "{}").is_err());
    // a todo-shaped object is not a post
    let body = "{\"userId\": 1, \"id\": 1, \"title\": \"delectus aut autem\", \"completed\": false}";
    assert!(decode_post_response(200, body).is_err());
}

#[test]
fn post_non_ascii_text_and_extras_are_accepted() {
    let body = "{\"body\": \"texte fran\u{e7}ais\\n\u{e9}crit\", \"title\": \"\\u00e9t\\u00e9\", \
                \"id\": 3, \"userId\": 2, \"slug\": \"ete\", \"views\": 10.5}";
    let post = decode_post_response(200, body).unwrap();
    assert_eq!(post.title, "\u{e9}t\u{e9}");
    assert_eq!(post.body, "texte fran\u{e7}ais\n\u{e9}crit");
}

#[test]
fn post_member_order_does_not_matter() {
    let body = "{\"body\": \"b\", \"title\": \"t\", \"id\": 3, \"userId\": 2}";
    let post = decode_post_response(200, body).unwrap();
    assert_eq!(post.user_id, 2);
    assert_eq!(post.id, 3);
    assert_eq!(post.title, "t");
    assert_eq!(post.body, "b");
}

fn posts_array(count: u32) -> String {
    let mut body = String::from("[");
    for k in 1..=count {
        if k > 1 {
            body.push_str(",");
        }
        body.push_str(&format!(
            "\n  {{\n    \"userId\": {},\n    \"id\": {},\n    \"title\": \"post number {}\",\n    \"body\": \"text of post {}\"\n  }}",
            (k - 1) / 10 + 1,
            k,
            k,
            k,
        ));
    }
    body.push_str("\n]");
    body
}

#[test]
fn posts_fixture_cardinality_is_kept() {
    // the demo API serves exactly 100 posts
    let body = posts_array(100);
    let result = decode_posts_response(200, &body);
    assert!(result.is_ok());
    let posts = result.unwrap();
    assert!(!posts.is_empty());
    assert_eq!(posts.len(), 100);
    assert_eq!(posts[9].id, 10);
    assert_eq!(posts[99].user_id, 10);
    assert_eq!(posts[0].body, "text of post 1");
}

#[test]
fn posts_empty_array_is_accepted() {
    let posts = decode_posts_response(200, "[]").unwrap();
    assert_eq!(posts.len(), 0);
}

#[test]
fn posts_server_error_fails() {
    let body = posts_array(2);
    assert!(decode_posts_response(500, &body).is_err());
}

#[test]
fn posts_malformed_body_fails() {
    assert!(decode_posts_response(200, "unexpected response format").is_err());
    assert!(decode_posts_response(200, "[1, 2]").is_err());
}

use typicode_client::todos::{decode_todo_response, decode_todos_response};

fn todo_fixture() -> String {
    String::from(
        "{\n  \"userId\": 1,\n  \"id\": 1,\n  \"title\": \"delectus aut autem\",\n  \"completed\": false\n}",
    )
}

#[test]
fn todo_fixture_decodes_to_known_record() {
    let body = todo_fixture();
    let result = decode_todo_response(200, &body);
    assert!(result.is_ok());
    let todo = result.unwrap();
    assert_eq!(todo.user_id, 1);
    assert_eq!(todo.id, 1);
    assert_eq!(todo.title, "delectus aut autem");
    assert!(!todo.completed);
}

#[test]
fn todo_requested_id_matches_returned_id() {
    let body = "{\"userId\": 3, \"id\": 42, \"title\": \"et doloremque\", \"completed\": true}";
    let todo = decode_todo_response(200, body).unwrap();
    assert_eq!(todo.id, 42);
    assert!(todo.completed);
}

#[test]
fn todo_unknown_id_response_fails() {
    // the demo API answers an out-of-range identifier with 404 and `{}`
    let result = decode_todo_response(404, "{}");
    assert!(result.is_err());
}

#[test]
fn todo_server_error_fails() {
    let body = todo_fixture();
    assert!(decode_todo_response(500, &body).is_err());
    assert!(decode_todo_response(500, "").is_err());
}

#[test]
fn todo_malformed_body_fails() {
    assert!(decode_todo_response(200, "unexpected response format").is_err());
    assert!(decode_todo_response(200, "").is_err());
    assert!(decode_todo_response(200, "{").is_err());
    assert!(decode_todo_response(200, "null").is_err());
}

#[test]
fn todo_partial_object_fails() {
    // a record missing its last field must not decode to a default value
    let body = "{\"userId\": 1, \"id\": 1, \"title\": \"delectus aut autem\"}";
    assert!(decode_todo_response(200, body).is_err());
}

#[test]
fn todo_trailing_text_fails() {
    let body = format!("{} extra", todo_fixture());
    assert!(decode_todo_response(200, &body).is_err());
}

#[test]
fn todo_surrounding_whitespace_is_accepted() {
    let body = format!("\n \t{}\r\n ", todo_fixture());
    let todo = decode_todo_response(200, &body).unwrap();
    assert_eq!(todo.id, 1);
}

#[test]
fn todo_id_at_u32_bound_is_accepted() {
    let body = "{\"userId\": 1, \"id\": 4294967295, \"title\": \"x\", \"completed\": false}";
    let todo = decode_todo_response(200, body).unwrap();
    assert_eq!(todo.id, 4294967295);
}

#[test]
fn todo_zero_id_is_accepted() {
    let body = "{\"userId\": 0, \"id\": 0, \"title\": \"x\", \"completed\": false}";
    let todo = decode_todo_response(200, body).unwrap();
    assert_eq!(todo.id, 0);
}

#[test]
fn todo_number_with_leading_zero_fails() {
    let body = "{\"userId\": 1, \"id\": 01, \"title\": \"x\", \"completed\": false}";
    assert!(decode_todo_response(200, body).is_err());
}

#[test]
fn todo_id_beyond_u32_bound_fails() {
    let body = "{\"userId\": 1, \"id\": 4294967296, \"title\": \"x\", \"completed\": false}";
    assert!(decode_todo_response(200, body).is_err());
}

#[test]
fn todo_title_escapes_are_decoded() {
    let body = "{\"userId\": 1, \"id\": 7, \"title\": \"a\\\"b\\\\c\\nd\\te\\/f\", \"completed\": true}";
    let todo = decode_todo_response(200, body).unwrap();
    assert_eq!(todo.title, "a\"b\\c\nd\te/f");
}

#[test]
fn todo_member_order_does_not_matter() {
    let body = "{\"completed\": false, \"title\": \"delectus aut autem\", \"id\": 1, \"userId\": 1}";
    let todo = decode_todo_response(200, body).unwrap();
    assert_eq!(todo.user_id, 1);
    assert_eq!(todo.id, 1);
    assert_eq!(todo.title, "delectus aut autem");
    assert!(!todo.completed);
}

#[test]
fn todo_duplicate_member_fails() {
    let body = "{\"userId\": 1, \"id\": 1, \"id\": 2, \"title\": \"x\", \"completed\": false}";
    assert!(decode_todo_response(200, body).is_err());
}

#[test]
fn todo_unknown_members_are_skipped() {
    let body = "{\"userId\": 1, \"id\": 1, \"title\": \"x\", \"completed\": false, \"extra\": 5}";
    let todo = decode_todo_response(200, body).unwrap();
    assert_eq!(todo.id, 1);
    let body = "{\"priority\": -1.5e3, \"userId\": 2, \"tags\": [\"a\", {\"b\": null}], \
                \"id\": 7, \"title\": \"y\", \"meta\": {\"nested\": {\"deep\": [1, 2]}}, \
                \"completed\": true}";
    let todo = decode_todo_response(200, body).unwrap();
    assert_eq!(todo.user_id, 2);
    assert_eq!(todo.id, 7);
    assert_eq!(todo.title, "y");
    assert!(todo.completed);
}

#[test]
fn todo_unknown_member_with_bad_value_fails() {
    let body = "{\"userId\": 1, \"id\": 1, \"title\": \"x\", \"completed\": false, \"extra\": 01}";
    assert!(decode_todo_response(200, body).is_err());
    let body = "{\"userId\": 1, \"id\": 1, \"title\": \"x\", \"completed\": false, \"extra\": [}";
    assert!(decode_todo_response(200, body).is_err());
}

#[test]
fn todo_missing_member_is_not_defaulted_even_with_extras() {
    let body = "{\"userId\": 1, \"id\": 1, \"title\": \"x\", \"done\": false}";
    assert!(decode_todo_response(200, body).is_err());
}

#[test]
fn todo_non_ascii_text_is_accepted() {
    let body = "{\"userId\": 1, \"id\": 1, \"title\": \"d\u{e9}lectus \u{65e5}\u{672c} \u{1f600}\", \"completed\": false}";
    let todo = decode_todo_response(200, body).unwrap();
    assert_eq!(todo.title, "d\u{e9}lectus \u{65e5}\u{672c} \u{1f600}");
}

#[test]
fn todo_unicode_escapes_are_decoded() {
    let body = "{\"userId\": 1, \"id\": 1, \"title\": \"\\u0041\\u00e9\\u65e5\", \"completed\": false}";
    let todo = decode_todo_response(200, body).unwrap();
    assert_eq!(todo.title, "A\u{e9}\u{65e5}");
}

#[test]
fn todo_surrogate_pair_escape_is_decoded() {
    let body = "{\"userId\": 1, \"id\": 1, \"title\": \"\\uD83D\\uDE00\", \"completed\": false}";
    let todo = decode_todo_response(200, body).unwrap();
    assert_eq!(todo.title, "\u{1f600}");
}

#[test]
fn todo_lone_surrogate_escape_fails() {
    let body = "{\"userId\": 1, \"id\": 1, \"title\": \"\\uD83D\", \"completed\": false}";
    assert!(decode_todo_response(200, body).is_err());
    let body = "{\"userId\": 1, \"id\": 1, \"title\": \"\\uDE00\", \"completed\": false}";
    assert!(decode_todo_response(200, body).is_err());
}

#[test]
fn todo_escaped_key_is_the_same_key() {
    // the deserializer compares decoded keys, so an escaped spelling of
    // "id" both fills the member and collides with a plain one
    let body = "{\"userId\": 1, \"\\u0069d\": 5, \"title\": \"x\", \"completed\": false}";
    let todo = decode_todo_response(200, body).unwrap();
    assert_eq!(todo.id, 5);
    let body =
        "{\"userId\": 1, \"id\": 5, \"\\u0069d\": 5, \"title\": \"x\", \"completed\": false}";
    assert!(decode_todo_response(200, body).is_err());
}

#[test]
fn todo_raw_control_character_fails() {
    let body = "{\"userId\": 1, \"id\": 1, \"title\": \"a\u{1}b\", \"completed\": false}";
    assert!(decode_todo_response(200, body).is_err());
}

fn todos_array(count: u32) -> String {
    let mut body = String::from("[");
    for k in 1..=count {
        if k > 1 {
            body.push_str(",");
        }
        body.push_str(&format!(
            "\n  {{\n    \"userId\": {},\n    \"id\": {},\n    \"title\": \"item number {}\",\n    \"completed\": {}\n  }}",
            (k - 1) / 20 + 1,
            k,
            k,
            k % 2 == 0,
        ));
    }
    body.push_str("\n]");
    body
}

#[test]
fn todos_fixture_cardinality_is_kept() {
    // the demo API serves exactly 200 todos
    let body = todos_array(200);
    let result = decode_todos_response(200, &body);
    assert!(result.is_ok());
    let todos = result.unwrap();
    assert!(!todos.is_empty());
    assert_eq!(todos.len(), 200);
    assert_eq!(todos[0].id, 1);
    assert_eq!(todos[199].id, 200);
    assert_eq!(todos[199].user_id, 10);
    assert_eq!(todos[41].title, "item number 42");
}

#[test]
fn todos_empty_array_is_accepted() {
    let todos = decode_todos_response(200, "[]").unwrap();
    assert_eq!(todos.len(), 0);
    let todos = decode_todos_response(200, " [ ] ").unwrap();
    assert_eq!(todos.len(), 0);
}

#[test]
fn todos_server_error_fails() {
    let body = todos_array(3);
    assert!(decode_todos_response(500, &body).is_err());
}

#[test]
fn todos_malformed_body_fails() {
    assert!(decode_todos_response(200, "unexpected response format").is_err());
    assert!(decode_todos_response(200, "[{}]").is_err());
    let body = format!("{}]", todos_array(2));
    assert!(decode_todos_response(200, &body).is_err());
    let unclosed = String::from("[{\"userId\": 1, \"id\": 1, \"title\": \"x\", \"completed\": true}");
    assert!(decode_todos_response(200, &unclosed).is_err());
}

#[test]
fn todos_single_object_is_not_an_array() {
    let body = todo_fixture();
    assert!(decode_todos_response(200, &body).is_err());
}

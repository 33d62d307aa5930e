use typicode_client::urls::{
    post_url, post_url_with_base, posts_url, posts_url_with_base, todo_url, todo_url_with_base,
    todos_url, todos_url_with_base,
};

#[test]
fn todo_url_appends_decimal_id() {
    assert_eq!(todo_url(1), "https://jsonplaceholder.typicode.com/todos/1");
    assert_eq!(todo_url(0), "https://jsonplaceholder.typicode.com/todos/0");
    assert_eq!(todo_url(10000), "https://jsonplaceholder.typicode.com/todos/10000");
    assert_eq!(todo_url(4294967295), "https://jsonplaceholder.typicode.com/todos/4294967295");
}

#[test]
fn todos_url_is_the_collection_target() {
    assert_eq!(todos_url(), "https://jsonplaceholder.typicode.com/todos");
}

#[test]
fn post_url_appends_decimal_id() {
    assert_eq!(post_url(10), "https://jsonplaceholder.typicode.com/posts/10");
    assert_eq!(post_url(207), "https://jsonplaceholder.typicode.com/posts/207");
}

#[test]
fn posts_url_is_the_collection_target() {
    assert_eq!(posts_url(), "https://jsonplaceholder.typicode.com/posts");
}

#[test]
fn base_endpoint_can_be_injected_for_a_stub_server() {
    assert_eq!(todo_url_with_base("http://127.0.0.1:8080", 1), "http://127.0.0.1:8080/todos/1");
    assert_eq!(todos_url_with_base("http://127.0.0.1:8080"), "http://127.0.0.1:8080/todos");
    assert_eq!(post_url_with_base("http://127.0.0.1:8080", 10), "http://127.0.0.1:8080/posts/10");
    assert_eq!(posts_url_with_base("http://127.0.0.1:8080"), "http://127.0.0.1:8080/posts");
}

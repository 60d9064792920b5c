use surrealdb_client::verbs::{
    authenticate, change, create, delete, encode_login, encode_signup, frame_request, generic,
    info, invalidate, kill, live, modify, ping, query, select, signin, signup, update,
    use_namespace, LOGIN, SIGNUP,
};

fn split_request(text: &str) -> (String, String) {
    let head = "{\"method\":\"";
    assert!(text.starts_with(head), "{}", text);
    assert!(text.ends_with("\"}"), "{}", text);
    let id_start = text.rfind(",\"id\":\"").expect("id member");
    let id = &text[id_start + 7..text.len() - 2];
    assert_eq!(id.len(), 32);
    assert!(id.chars().all(|c| c.is_ascii_digit() || ('a'..='f').contains(&c)));
    assert_eq!(id.chars().nth(12), Some('4'));
    assert!("89ab".contains(id.chars().nth(16).unwrap()));
    let body = &text[head.len()..id_start];
    let params_at = body.find("\",\"params\":").expect("params member");
    (body[..params_at].to_string(), body[params_at + 11..].to_string())
}

fn some(s: &str) -> Option<String> {
    Some(s.to_string())
}

#[test]
fn frame_request_lays_out_method_params_and_id() {
    assert_eq!(
        frame_request("ping", "[]", "0000000000000000"),
        "{\"method\":\"ping\",\"params\":[],\"id\":\"0000000000000000\"}"
    );
}

#[test]
fn generic_uses_a_fresh_identifier() {
    let a = generic("info", "[]");
    let b = generic("info", "[]");
    assert_eq!(split_request(&a), ("info".to_string(), "[]".to_string()));
    assert_ne!(a, b);
}

#[test]
fn verbs_without_parameters() {
    assert_eq!(split_request(&ping()), ("ping".to_string(), "[]".to_string()));
    assert_eq!(split_request(&info()), ("info".to_string(), "[]".to_string()));
    assert_eq!(split_request(&invalidate()), ("invalidate".to_string(), "[]".to_string()));
}

#[test]
fn verbs_with_strings() {
    assert_eq!(
        split_request(&use_namespace("myapp".to_string(), "myapp".to_string())),
        ("use".to_string(), "[\"myapp\",\"myapp\"]".to_string())
    );
    assert_eq!(
        split_request(&kill("q1".to_string())),
        ("kill".to_string(), "[\"q1\"]".to_string())
    );
    assert_eq!(
        split_request(&live("account".to_string())),
        ("live".to_string(), "[\"account\"]".to_string())
    );
    assert_eq!(
        split_request(&surrealdb_client::verbs::set("k".to_string(), "v\"".to_string())),
        ("set".to_string(), "[\"k\",\"v\\\"\"]".to_string())
    );
    assert_eq!(
        split_request(&select("account".to_string())),
        ("select".to_string(), "[\"account\"]".to_string())
    );
    assert_eq!(
        split_request(&delete("account:1".to_string())),
        ("delete".to_string(), "[\"account:1\"]".to_string())
    );
}

#[test]
fn authenticate_sends_token_or_null() {
    assert_eq!(split_request(&authenticate(None)).1, "[null]");
    assert_eq!(split_request(&authenticate(some("t"))).1, "[\"t\"]");
}

#[test]
fn verbs_with_json_values() {
    assert_eq!(
        split_request(&query("SELECT * FROM $t".to_string(), "{\"t\":\"a\"}".to_string())),
        ("query".to_string(), "[\"SELECT * FROM $t\",{\"t\":\"a\"}]".to_string())
    );
    assert_eq!(split_request(&create("a:1".to_string(), None)).1, "[\"a:1\",null]");
    assert_eq!(
        split_request(&update("a:1".to_string(), some("{\"n\":1}"))),
        ("update".to_string(), "[\"a:1\",{\"n\":1}]".to_string())
    );
    assert_eq!(split_request(&change("a".to_string(), some("[]"))).0, "change");
    assert_eq!(split_request(&modify("a".to_string(), some("[]"))).1, "[\"a\",[]]");
}

fn empty_login() -> LOGIN {
    LOGIN { username: None, password: None, namespace: None, database: None, email: None }
}

#[test]
fn login_leaves_out_unset_fields() {
    assert_eq!(encode_login(&empty_login()), "{}");
    let login = LOGIN { username: some("root"), password: some("root"), ..empty_login() };
    assert_eq!(encode_login(&login), "{\"pass\":\"root\",\"user\":\"root\"}");
}

#[test]
fn login_keys_come_in_map_order() {
    let login = LOGIN {
        username: some("u"),
        password: some("p"),
        namespace: some("n"),
        database: some("d"),
        email: some("e"),
    };
    let mut map = serde_json::Map::new();
    map.insert("user".to_string(), serde_json::Value::String("u".to_string()));
    map.insert("pass".to_string(), serde_json::Value::String("p".to_string()));
    map.insert("NS".to_string(), serde_json::Value::String("n".to_string()));
    map.insert("DB".to_string(), serde_json::Value::String("d".to_string()));
    map.insert("email".to_string(), serde_json::Value::String("e".to_string()));
    let expected = serde_json::to_string(&serde_json::Value::Object(map)).unwrap();
    assert_eq!(encode_login(&login), expected);
    assert_eq!(
        expected,
        "{\"DB\":\"d\",\"NS\":\"n\",\"email\":\"e\",\"pass\":\"p\",\"user\":\"u\"}"
    );
}

#[test]
fn signup_renames_and_orders_fields() {
    let sign = SIGNUP {
        username: some("u"),
        password: some("p"),
        namespace: some("n"),
        database: some("d"),
        email: some("e"),
        scope: some("s"),
        interests: Some(vec!["x".to_string(), "y".to_string()]),
    };
    assert_eq!(
        encode_signup(&sign),
        "{\"DB\":\"d\",\"NS\":\"n\",\"SC\":\"s\",\"email\":\"e\",\"interests\":[\"x\",\"y\"],\"pass\":\"p\",\"user\":\"u\"}"
    );
}

#[test]
fn signup_and_signin_wrap_the_object_in_an_array() {
    let sign = SIGNUP {
        username: some("u"),
        password: None,
        namespace: None,
        database: None,
        email: None,
        scope: some("s"),
        interests: Some(vec![]),
    };
    assert_eq!(
        split_request(&signup(sign)),
        ("signup".to_string(), "[{\"SC\":\"s\",\"interests\":[],\"user\":\"u\"}]".to_string())
    );
    assert_eq!(
        split_request(&signin(LOGIN { email: some("a@b"), ..empty_login() })),
        ("signin".to_string(), "[{\"email\":\"a@b\"}]".to_string())
    );
}

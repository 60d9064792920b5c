use surrealdb_client::interaction::{ClientError, Event, Exchange, Null, SurrealDBSocketClient};

fn ws_error() -> ws::Error {
    ws::Error::new(ws::ErrorKind::Internal, "socket gone")
}

fn json_error() -> serde_json::Error {
    serde_json::from_str::<bool>("not json").unwrap_err()
}

fn request_of<T>(call: &Exchange<T>) -> String {
    match call {
        Exchange::Sending(text) => text.clone(),
        _ => panic!("a new call starts by sending"),
    }
}

#[test]
fn new_keeps_the_endpoint() {
    let client = SurrealDBSocketClient::new("ws://localhost:8000/rpc");
    assert_eq!(client.url(), "ws://localhost:8000/rpc");
}

#[test]
fn calls_start_by_sending_their_request() {
    let client = SurrealDBSocketClient::new("ws://localhost:8000/rpc");
    let ping = request_of(&client.ping());
    assert!(ping.starts_with("{\"method\":\"ping\",\"params\":[],\"id\":\""));
    let use_ns = request_of(&client.use_ns("myapp".to_string(), "myapp".to_string()));
    assert!(use_ns.starts_with("{\"method\":\"use\",\"params\":[\"myapp\",\"myapp\"],\"id\":\""));
    let signin = request_of(&client.signin(
        Some("root".to_string()),
        Some("root".to_string()),
        None,
        None,
        None,
    ));
    assert!(signin.starts_with(
        "{\"method\":\"signin\",\"params\":[{\"pass\":\"root\",\"user\":\"root\"}],\"id\":\""
    ));
    let select = request_of(&client.select::<Vec<u8>>("account".to_string()));
    assert!(select.starts_with("{\"method\":\"select\",\"params\":[\"account\"],\"id\":\""));
    let delete = request_of(&client.delete("account".to_string()));
    assert!(delete.starts_with("{\"method\":\"delete\",\"params\":[\"account\"],\"id\":\""));
    let signup = request_of(&client.signup(None, None, None, None, None, None, None));
    assert!(signup.starts_with("{\"method\":\"signup\",\"params\":[{}],\"id\":\""));
    let set = request_of(&client.set("a".to_string(), "b".to_string()));
    assert!(set.starts_with("{\"method\":\"set\",\"params\":[\"a\",\"b\"],\"id\":\""));
    let auth = request_of(&client.authenticate(None));
    assert!(auth.starts_with("{\"method\":\"authenticate\",\"params\":[null],\"id\":\""));
    let create = request_of(&client.create::<u8>("a:1".to_string(), Some("{}".to_string())));
    assert!(create.starts_with("{\"method\":\"create\",\"params\":[\"a:1\",{}],\"id\":\""));
    let query = request_of(&client.query::<u8>("INFO FOR DB".to_string(), "{}".to_string()));
    assert!(query.starts_with("{\"method\":\"query\",\"params\":[\"INFO FOR DB\",{}],\"id\":\""));
    for call in [
        request_of(&client.info()),
        request_of(&client.invalidate()),
        request_of(&client.live("t".to_string())),
        request_of(&client.kill("k".to_string())),
        request_of(&client.update::<u8>("u".to_string(), None)),
        request_of(&client.change::<u8>("c".to_string(), None)),
        request_of(&client.modify::<u8>("m".to_string(), None)),
    ]
    .iter()
    {
        assert!(call.starts_with("{\"method\":\""));
        assert!(call.ends_with("\"}"));
    }
}

#[test]
fn a_successful_call_returns_the_decoded_result() {
    let client = SurrealDBSocketClient::new("ws://x");
    let call = client.ping();
    assert!(!call.is_finished());
    let call = call.advance(Event::Sent(Ok(())));
    assert!(matches!(call, Exchange::Receiving));
    let call = call.advance(Event::Received(Ok("{\"id\":\"1\",\"result\":true}".to_string())));
    match &call {
        Exchange::Decoding(text) => assert_eq!(text, "{\"id\":\"1\",\"result\":true}"),
        _ => panic!("the received text goes to the decoder"),
    }
    let call = call.advance(Event::Decoded(Ok(true)));
    assert!(call.is_finished());
    assert!(matches!(call, Exchange::Finished(Ok(true))));
}

#[test]
fn a_failed_send_ends_the_call() {
    let call: Exchange<Null> = Exchange::start("{}".to_string());
    let call = call.advance(Event::Sent(Err(ws_error())));
    assert!(matches!(call, Exchange::Finished(Err(ClientError::WSSndErr(_)))));
    let call = call.advance(Event::Received(Ok("late".to_string())));
    assert!(matches!(call, Exchange::Finished(Err(ClientError::WSSndErr(_)))));
}

#[test]
fn a_failed_receipt_ends_the_call() {
    let call: Exchange<String> = Exchange::start("{}".to_string());
    let call = call.advance(Event::Sent(Ok(())));
    let call = call.advance(Event::Received(Err(ws_error())));
    match call {
        Exchange::Finished(Err(ClientError::WSRcvErr(e))) => assert_eq!(e.details, "socket gone"),
        _ => panic!("a failed receipt is a receive error"),
    }
}

#[test]
fn an_undecodable_reply_ends_the_call() {
    let call: Exchange<bool> = Exchange::start("{}".to_string());
    let call = call.advance(Event::Sent(Ok(())));
    let call = call.advance(Event::Received(Ok("garbage".to_string())));
    let call = call.advance(Event::Decoded(Err(json_error())));
    assert!(matches!(call, Exchange::Finished(Err(ClientError::JSErr(_)))));
}

#[test]
fn events_out_of_turn_change_nothing() {
    let call: Exchange<bool> = Exchange::start("req".to_string());
    let call = call.advance(Event::Decoded(Ok(true)));
    assert!(matches!(&call, Exchange::Sending(t) if t == "req"));
    let call = call.advance(Event::Received(Ok("x".to_string())));
    assert!(matches!(&call, Exchange::Sending(t) if t == "req"));
    let call = call.advance(Event::Sent(Ok(())));
    let call = call.advance(Event::Sent(Err(ws_error())));
    assert!(matches!(call, Exchange::Receiving));
    let done: Exchange<bool> = Exchange::Finished(Ok(false));
    let done = done.advance(Event::Decoded(Ok(true)));
    assert!(matches!(done, Exchange::Finished(Ok(false))));
}

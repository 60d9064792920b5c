//! The calls of the client: what each sends, and what each returns from what
//! the socket and the decoder report.
//!
//! A call is an [`Exchange`]: it holds the next thing to do (send the request,
//! receive the reply, decode the reply, or nothing, with the call's result).
//! Whoever owns the socket does that step and hands the outcome back as an
//! [`Event`]; [`Exchange::advance`] then says what comes next.
use vstd::prelude::*;
use crate::verbs;
use crate::verbs::{
    is_request, login_members, no_params, opt_text, signup_members, string_pair_params,
    string_params, string_value_params, LOGIN, SIGNUP,
};
use crate::json_text::{array_text, object_text, optional_text};

verus! {

/// What a call that returns nothing useful gets back: the server answers `null`.
pub type Null = Option<String>;

/// Why a call failed.
#[derive(Debug)]
pub enum ClientError {
    /// The request could not be sent.
    WSSndErr(ws::Error),
    /// No reply could be received.
    WSRcvErr(ws::Error),
    /// The reply could not be decoded.
    JSErr(serde_json::Error),
}

/// The state of one call.
pub enum Exchange<T> {
    /// The request, which still has to be sent.
    Sending(String),
    /// The request went out; the reply still has to be received.
    Receiving,
    /// The reply, whose text still has to be decoded.
    Decoding(String),
    /// The call is over, with this result.
    Finished(Result<T, ClientError>),
}

/// What the socket or the decoder reported for the step that was asked for.
pub enum Event<T> {
    /// The outcome of sending the request.
    Sent(Result<(), ws::Error>),
    /// The outcome of waiting for the reply.
    Received(Result<String, ws::Error>),
    /// The outcome of decoding the reply: the `result` member of the reply
    /// object, as the type that the call returns.
    Decoded(Result<T, serde_json::Error>),
}

impl<T> Exchange<T> {
    /// The state that follows `self` once `event` is reported. A failure ends
    /// the call with the matching error; a success moves it to its next step.
    /// An event that is not the one the state waits for changes nothing.
    pub open spec fn after(self, event: Event<T>) -> Exchange<T> {
        match (self, event) {
            (Exchange::Sending(_), Event::Sent(Ok(()))) => Exchange::Receiving,
            (Exchange::Sending(_), Event::Sent(Err(e))) => Exchange::Finished(Err(ClientError::WSSndErr(e))),
            (Exchange::Receiving, Event::Received(Ok(text))) => Exchange::Decoding(text),
            (Exchange::Receiving, Event::Received(Err(e))) => Exchange::Finished(
                Err(ClientError::WSRcvErr(e)),
            ),
            (Exchange::Decoding(_), Event::Decoded(Ok(v))) => Exchange::Finished(Ok(v)),
            (Exchange::Decoding(_), Event::Decoded(Err(e))) => Exchange::Finished(Err(ClientError::JSErr(e))),
            (state, _) => state,
        }
    }

    /// The call starts by sending a request for `method` with `params`.
    pub open spec fn sends_request(self, method: Seq<char>, params: Seq<char>) -> bool {
        self matches Exchange::Sending(text) && is_request(text@, method, params)
    }

    /// A new call that sends `request`.
    pub fn start(request: String) -> (call: Self)
        ensures
            call == Exchange::<T>::Sending(request),
    {
        Exchange::Sending(request)
    }

    /// The state after `event` is reported.
    pub fn advance(self, event: Event<T>) -> (next: Self)
        ensures
            next == self.after(event),
    {
        match (self, event) {
            (Exchange::Sending(_), Event::Sent(Ok(()))) => Exchange::Receiving,
            (Exchange::Sending(_), Event::Sent(Err(e))) => Exchange::Finished(Err(ClientError::WSSndErr(e))),
            (Exchange::Receiving, Event::Received(Ok(text))) => Exchange::Decoding(text),
            (Exchange::Receiving, Event::Received(Err(e))) => Exchange::Finished(
                Err(ClientError::WSRcvErr(e)),
            ),
            (Exchange::Decoding(_), Event::Decoded(Ok(v))) => Exchange::Finished(Ok(v)),
            (Exchange::Decoding(_), Event::Decoded(Err(e))) => Exchange::Finished(Err(ClientError::JSErr(e))),
            (state, _) => state,
        }
    }

    /// Whether the call is over.
    pub fn is_finished(&self) -> (done: bool)
        ensures
            done == (*self is Finished),
    {
        match self {
            Exchange::Finished(_) => true,
            _ => false,
        }
    }
}

/// The result of a call whose send reported `sent`, whose wait for the reply
/// reported `received`, and whose decoding of that reply reported `decoded`:
/// the first failure, as the error of its step, or the decoded value.
pub open spec fn call_outcome<T>(
    sent: Result<(), ws::Error>,
    received: Result<String, ws::Error>,
    decoded: Result<T, serde_json::Error>,
) -> Result<T, ClientError> {
    match sent {
        Err(e) => Err(ClientError::WSSndErr(e)),
        Ok(()) => match received {
            Err(e) => Err(ClientError::WSRcvErr(e)),
            Ok(_) => match decoded {
                Ok(v) => Ok(v),
                Err(e) => Err(ClientError::JSErr(e)),
            },
        },
    }
}

/// A call that sends its request, receives a reply and decodes it ends with
/// the first failure, as the error of the step that failed, or with the
/// decoded value when all three steps succeed; the text that is decoded is the
/// text that was received; and once a call is over, nothing that is reported
/// afterwards changes its result.
pub proof fn lemma_call_outcome<T>(
    request: String,
    sent: Result<(), ws::Error>,
    received: Result<String, ws::Error>,
    decoded: Result<T, serde_json::Error>,
)
    ensures
        Exchange::<T>::Sending(request).after(Event::Sent(sent)).after(Event::Received(received)).after(
            Event::Decoded(decoded),
        ) == Exchange::<T>::Finished(call_outcome(sent, received, decoded)),
        sent is Ok ==> (received matches Ok(text) ==> Exchange::<T>::Sending(request).after(
            Event::Sent(sent),
        ).after(Event::Received(received)) == Exchange::<T>::Decoding(text)),
        sent is Ok ==> Exchange::<T>::Sending(request).after(Event::Sent(sent))
            == Exchange::<T>::Receiving,
        sent matches Err(e) ==> Exchange::<T>::Sending(request).after(Event::Sent(sent)).after(
            Event::Received(received),
        ).after(Event::Decoded(decoded)) == Exchange::<T>::Finished(Err(ClientError::WSSndErr(e))),
        sent is Ok ==> (received matches Err(e) ==> Exchange::<T>::Sending(request).after(
            Event::Sent(sent),
        ).after(Event::Received(received)).after(Event::Decoded(decoded)) == Exchange::<
            T,
        >::Finished(Err(ClientError::WSRcvErr(e)))),
        sent is Ok && received is Ok ==> (decoded matches Err(e) ==> Exchange::<T>::Sending(
            request,
        ).after(Event::Sent(sent)).after(Event::Received(received)).after(Event::Decoded(decoded))
            == Exchange::<T>::Finished(Err(ClientError::JSErr(e)))),
        sent is Ok && received is Ok ==> (decoded matches Ok(v) ==> Exchange::<T>::Sending(
            request,
        ).after(Event::Sent(sent)).after(Event::Received(received)).after(Event::Decoded(decoded))
            == Exchange::<T>::Finished(Ok(v))),
{
}

/// A call starts by sending a request for `method` with `params` exactly when
/// it is about to send a text that is that request under some fresh identifier.
pub proof fn lemma_sends_request<T>(call: Exchange<T>, method: Seq<char>, params: Seq<char>)
    ensures
        call.sends_request(method, params) <==> (call matches Exchange::Sending(text) && exists|
            id: Seq<char>,
        |
            verbs::is_request_id(id) && text@ == verbs::request_text(method, params, id)),
{
}

/// A call that is over keeps its result, whatever is reported.
pub proof fn lemma_finished_is_final<T>(result: Result<T, ClientError>, event: Event<T>)
    ensures
        Exchange::Finished(result).after(event) == Exchange::Finished(result),
{
}

/// A call that is not over moves only on the report of the step it waits for:
/// a sending call on a send, a receiving call on a receipt, a decoding call on
/// a decoding.
pub proof fn lemma_only_awaited_event_moves<T>(call: Exchange<T>, event: Event<T>)
    ensures
        call.after(event) != call ==> match (call, event) {
            (Exchange::Sending(_), Event::Sent(_)) => true,
            (Exchange::Receiving, Event::Received(_)) => true,
            (Exchange::Decoding(_), Event::Decoded(_)) => true,
            _ => false,
        },
{
}

/// A client of one SurrealDB server.
pub struct SurrealDBSocketClient {
    url: String,
}

impl SurrealDBSocketClient {
    /// The address of the server's RPC endpoint.
    pub closed spec fn endpoint(&self) -> Seq<char> {
        self.url@
    }

    /// A client for the server whose RPC endpoint is at `url`.
    pub fn new(url: &str) -> (client: Self)
        ensures
            client.endpoint() == url@,
    {
        SurrealDBSocketClient { url: String::from_str(url) }
    }

    /// The address of the server's RPC endpoint.
    pub fn url(&self) -> (url: &str)
        ensures
            url@ == self.endpoint(),
    {
        self.url.as_str()
    }

    /// Checks that the server answers.
    pub fn ping(&self) -> (call: Exchange<bool>)
        ensures
            call.sends_request("ping"@, no_params()),
    {
        Exchange::start(verbs::ping())
    }

    /// Starts a live query on `table_or_id`.
    pub fn live(&self, table_or_id: String) -> (call: Exchange<bool>)
        ensures
            call.sends_request("live"@, string_params(table_or_id@)),
    {
        Exchange::start(verbs::live(table_or_id))
    }

    /// Stops the live query `id`.
    pub fn kill(&self, id: String) -> (call: Exchange<bool>)
        ensures
            call.sends_request("kill"@, string_params(id@)),
    {
        Exchange::start(verbs::kill(id))
    }

    /// Asks for the information that the server holds on the session.
    pub fn info(&self) -> (call: Exchange<bool>)
        ensures
            call.sends_request("info"@, no_params()),
    {
        Exchange::start(verbs::info())
    }

    /// Selects the namespace `ns` and the database `db`.
    pub fn use_ns(&self, ns: String, db: String) -> (call: Exchange<Null>)
        ensures
            call.sends_request("use"@, string_pair_params(ns@, db@)),
    {
        Exchange::start(verbs::use_namespace(ns, db))
    }

    /// Creates an account with the details that are given.
    pub fn signup(
        &self,
        username: Option<String>,
        password: Option<String>,
        namespace: Option<String>,
        database: Option<String>,
        email: Option<String>,
        scope: Option<String>,
        interests: Option<Vec<String>>,
    ) -> (call: Exchange<Null>)
        ensures
            call.sends_request(
                "signup"@,
                array_text(
                    seq![object_text(signup_members(SIGNUP { username, password, namespace, database, email, scope, interests }))],
                ),
            ),
    {
        let sign = SIGNUP { username, password, namespace, database, email, scope, interests };
        Exchange::start(verbs::signup(sign))
    }

    /// Signs in with the credentials that are given; the reply is a token.
    pub fn signin(
        &self,
        username: Option<String>,
        password: Option<String>,
        namespace: Option<String>,
        database: Option<String>,
        email: Option<String>,
    ) -> (call: Exchange<String>)
        ensures
            call.sends_request(
                "signin"@,
                array_text(
                    seq![object_text(login_members(LOGIN { username, password, namespace, database, email }))],
                ),
            ),
    {
        let login = LOGIN { username, password, namespace, database, email };
        Exchange::start(verbs::signin(login))
    }

    /// Ends the session's authentication.
    pub fn invalidate(&self) -> (call: Exchange<String>)
        ensures
            call.sends_request("invalidate"@, no_params()),
    {
        Exchange::start(verbs::invalidate())
    }

    /// Authenticates the session with the token `auth`.
    pub fn authenticate(&self, auth: Option<String>) -> (call: Exchange<String>)
        ensures
            call.sends_request("authenticate"@, array_text(seq![optional_text(opt_text(auth))])),
    {
        Exchange::start(verbs::authenticate(auth))
    }

    /// Binds the parameter `key` to `value` for the session.
    pub fn set(&self, key: String, value: String) -> (call: Exchange<Null>)
        ensures
            call.sends_request("set"@, string_pair_params(key@, value@)),
    {
        Exchange::start(verbs::set(key, value))
    }

    /// Runs the statements `sql` with the bindings `replace`, given as JSON text.
    pub fn query<R>(&self, sql: String, replace: String) -> (call: Exchange<R>)
        ensures
            call.sends_request("query"@, string_value_params(sql@, Some(replace@))),
    {
        Exchange::start(verbs::query(sql, replace))
    }

    /// Selects the records of the table, or the record, `table_or_id`.
    pub fn select<R>(&self, table_or_id: String) -> (call: Exchange<R>)
        ensures
            call.sends_request("select"@, string_params(table_or_id@)),
    {
        Exchange::start(verbs::select(table_or_id))
    }

    /// Creates the record `id` with the content `data`, given as JSON text.
    pub fn create<R>(&self, id: String, data: Option<String>) -> (call: Exchange<R>)
        ensures
            call.sends_request("create"@, string_value_params(id@, opt_text(data))),
    {
        Exchange::start(verbs::create(id, data))
    }

    /// Replaces the content of `id` with `data`, given as JSON text.
    pub fn update<R>(&self, id: String, data: Option<String>) -> (call: Exchange<R>)
        ensures
            call.sends_request("update"@, string_value_params(id@, opt_text(data))),
    {
        Exchange::start(verbs::update(id, data))
    }

    /// Merges `data`, given as JSON text, into the content of `id`.
    pub fn change<R>(&self, id: String, data: Option<String>) -> (call: Exchange<R>)
        ensures
            call.sends_request("change"@, string_value_params(id@, opt_text(data))),
    {
        Exchange::start(verbs::change(id, data))
    }

    /// Applies the patch `data`, given as JSON text, to `id`.
    pub fn modify<R>(&self, id: String, data: Option<String>) -> (call: Exchange<R>)
        ensures
            call.sends_request("modify"@, string_value_params(id@, opt_text(data))),
    {
        Exchange::start(verbs::modify(id, data))
    }

    /// Deletes the records of the table, or the record, `id`.
    pub fn delete(&self, id: String) -> (call: Exchange<[String; 0]>)
        ensures
            call.sends_request("delete"@, string_params(id@)),
    {
        Exchange::start(verbs::delete(id))
    }
}

} // verus!

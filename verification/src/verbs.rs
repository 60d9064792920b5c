//! The requests of the SurrealDB RPC protocol, as the text that is sent.
//!
//! Every request is one JSON object `{"method":..,"params":[..],"id":".."}`:
//! the method's name, the array of its parameters, and a fresh identifier.
use vstd::prelude::*;
use crate::json_text::{
    array_text, encode_array, encode_object, encode_optional_string, encode_string,
    encode_string_list, keys_ascending, lemma_array_text_pair, lemma_array_text_shape,
    lemma_optional_text, lemma_sorts_by_first_char, null_text, object_text, optional_text, quoted,
    sorts_before, texts,
};

verus! {

/// The details of a new account, for `signup`. Fields left `None` are left
/// out of the request.
#[allow(non_camel_case_types)]
pub struct SIGNUP {
    pub username: Option<String>,
    pub password: Option<String>,
    pub namespace: Option<String>,
    pub database: Option<String>,
    pub email: Option<String>,
    pub scope: Option<String>,
    pub interests: Option<Vec<String>>,
}

/// The credentials for `signin`. Fields left `None` are left out of the
/// request.
#[allow(non_camel_case_types)]
pub struct LOGIN {
    pub username: Option<String>,
    pub password: Option<String>,
    pub namespace: Option<String>,
    pub database: Option<String>,
    pub email: Option<String>,
}

/// The views of a list of (key, value) string pairs.
pub open spec fn pair_texts(members: Seq<(String, String)>) -> Seq<(Seq<char>, Seq<char>)> {
    members.map_values(|m: (String, String)| (m.0@, m.1@))
}

/// The member `key` with the string literal of `value`, if `value` is set.
pub open spec fn string_member(key: Seq<char>, value: Option<String>) -> Seq<(Seq<char>, Seq<char>)> {
    match value {
        Some(v) => seq![(key, quoted(v@))],
        None => Seq::empty(),
    }
}

/// The member `key` with the array of string literals of `value`, if `value` is set.
pub open spec fn list_member(key: Seq<char>, value: Option<Vec<String>>) -> Seq<
    (Seq<char>, Seq<char>),
> {
    match value {
        Some(v) => seq![(key, array_text(texts(v@).map_values(|s: Seq<char>| quoted(s))))],
        None => Seq::empty(),
    }
}

/// The members of the object that a `SIGNUP` is sent as. The field names are
/// renamed as the protocol wants them (`user`, `pass`, `NS`, `DB`, `SC`), the
/// fields that are not set are left out, and the keys come in ascending order,
/// the order of the map that serde_json collects an object's members in.
pub open spec fn signup_members(sign: SIGNUP) -> Seq<(Seq<char>, Seq<char>)> {
    string_member(seq!['D', 'B'], sign.database) + string_member(seq!['N', 'S'], sign.namespace)
        + string_member(seq!['S', 'C'], sign.scope) + string_member(
        seq!['e', 'm', 'a', 'i', 'l'],
        sign.email,
    ) + list_member(seq!['i', 'n', 't', 'e', 'r', 'e', 's', 't', 's'], sign.interests)
        + string_member(seq!['p', 'a', 's', 's'], sign.password) + string_member(
        seq!['u', 's', 'e', 'r'],
        sign.username,
    )
}

/// The members of the object that a `LOGIN` is sent as, in ascending key order.
pub open spec fn login_members(login: LOGIN) -> Seq<(Seq<char>, Seq<char>)> {
    string_member(seq!['D', 'B'], login.database) + string_member(seq!['N', 'S'], login.namespace)
        + string_member(seq!['e', 'm', 'a', 'i', 'l'], login.email) + string_member(
        seq!['p', 'a', 's', 's'],
        login.password,
    ) + string_member(seq!['u', 's', 'e', 'r'], login.username)
}

/// `members` has a member named `key`.
pub open spec fn has_member(members: Seq<(Seq<char>, Seq<char>)>, key: Seq<char>) -> bool {
    exists|i: int| 0 <= i < members.len() && #[trigger] members[i].0 == key
}

proof fn lemma_has_member_concat(
    a: Seq<(Seq<char>, Seq<char>)>,
    b: Seq<(Seq<char>, Seq<char>)>,
    key: Seq<char>,
)
    ensures
        has_member(a + b, key) == (has_member(a, key) || has_member(b, key)),
{
    if has_member(a + b, key) {
        let i = choose|i: int| 0 <= i < (a + b).len() && #[trigger] (a + b)[i].0 == key;
        if i < a.len() {
            assert(a[i].0 == key);
        } else {
            assert(b[i - a.len()].0 == key);
        }
    }
    if has_member(a, key) {
        let i = choose|i: int| 0 <= i < a.len() && #[trigger] a[i].0 == key;
        assert((a + b)[i].0 == key);
    }
    if has_member(b, key) {
        let i = choose|i: int| 0 <= i < b.len() && #[trigger] b[i].0 == key;
        assert((a + b)[a.len() + i].0 == key);
    }
}

proof fn lemma_has_string_member(name: Seq<char>, value: Option<String>, key: Seq<char>)
    ensures
        has_member(string_member(name, value), key) == (value is Some && name == key),
{
    if value is Some {
        assert(string_member(name, value)[0].0 == name);
    }
}

proof fn lemma_has_list_member(name: Seq<char>, value: Option<Vec<String>>, key: Seq<char>)
    ensures
        has_member(list_member(name, value), key) == (value is Some && name == key),
{
    if value is Some {
        assert(list_member(name, value)[0].0 == name);
    }
}

/// The object sent for a `LOGIN` has a member for each field that is set, and
/// none for a field that is not.
pub proof fn lemma_login_members_present(login: LOGIN)
    ensures
        has_member(login_members(login), seq!['u', 's', 'e', 'r']) == login.username is Some,
        has_member(login_members(login), seq!['p', 'a', 's', 's']) == login.password is Some,
        has_member(login_members(login), seq!['N', 'S']) == login.namespace is Some,
        has_member(login_members(login), seq!['D', 'B']) == login.database is Some,
        has_member(login_members(login), seq!['e', 'm', 'a', 'i', 'l']) == login.email is Some,
{
    let keys = seq![
        seq!['D', 'B'],
        seq!['N', 'S'],
        seq!['e', 'm', 'a', 'i', 'l'],
        seq!['p', 'a', 's', 's'],
        seq!['u', 's', 'e', 'r'],
    ];
    assert forall|k: int| 0 <= k < keys.len() implies has_member(login_members(login), #[trigger] keys[k])
        == (if k == 0 {
        login.database is Some
    } else if k == 1 {
        login.namespace is Some
    } else if k == 2 {
        login.email is Some
    } else if k == 3 {
        login.password is Some
    } else {
        login.username is Some
    }) by {
        let key = keys[k];
        let db = string_member(seq!['D', 'B'], login.database);
        let ns = string_member(seq!['N', 'S'], login.namespace);
        let em = string_member(seq!['e', 'm', 'a', 'i', 'l'], login.email);
        let pw = string_member(seq!['p', 'a', 's', 's'], login.password);
        let us = string_member(seq!['u', 's', 'e', 'r'], login.username);
        lemma_has_member_concat(db, ns, key);
        lemma_has_member_concat(db + ns, em, key);
        lemma_has_member_concat(db + ns + em, pw, key);
        lemma_has_member_concat(db + ns + em + pw, us, key);
        lemma_has_string_member(seq!['D', 'B'], login.database, key);
        lemma_has_string_member(seq!['N', 'S'], login.namespace, key);
        lemma_has_string_member(seq!['e', 'm', 'a', 'i', 'l'], login.email, key);
        lemma_has_string_member(seq!['p', 'a', 's', 's'], login.password, key);
        lemma_has_string_member(seq!['u', 's', 'e', 'r'], login.username, key);
        assert(seq!['D', 'B'][0] != seq!['N', 'S'][0]);
        assert(seq!['e', 'm', 'a', 'i', 'l'][0] != seq!['p', 'a', 's', 's'][0]);
        assert(seq!['e', 'm', 'a', 'i', 'l'][0] != seq!['u', 's', 'e', 'r'][0]);
        assert(seq!['p', 'a', 's', 's'][0] != seq!['u', 's', 'e', 'r'][0]);
    }
    assert(keys[0] == seq!['D', 'B']);
    assert(keys[1] == seq!['N', 'S']);
    assert(keys[2] == seq!['e', 'm', 'a', 'i', 'l']);
    assert(keys[3] == seq!['p', 'a', 's', 's']);
    assert(keys[4] == seq!['u', 's', 'e', 'r']);
}

/// The object sent for a `SIGNUP` has a member for each field that is set,
/// and none for a field that is not.
pub proof fn lemma_signup_members_present(sign: SIGNUP)
    ensures
        has_member(signup_members(sign), seq!['D', 'B']) == sign.database is Some,
        has_member(signup_members(sign), seq!['N', 'S']) == sign.namespace is Some,
        has_member(signup_members(sign), seq!['S', 'C']) == sign.scope is Some,
        has_member(signup_members(sign), seq!['e', 'm', 'a', 'i', 'l']) == sign.email is Some,
        has_member(signup_members(sign), seq!['i', 'n', 't', 'e', 'r', 'e', 's', 't', 's']) == sign.interests is Some,
        has_member(signup_members(sign), seq!['p', 'a', 's', 's']) == sign.password is Some,
        has_member(signup_members(sign), seq!['u', 's', 'e', 'r']) == sign.username is Some,
{
    let keys = seq![
        seq!['D', 'B'],
        seq!['N', 'S'],
        seq!['S', 'C'],
        seq!['e', 'm', 'a', 'i', 'l'],
        seq!['i', 'n', 't', 'e', 'r', 'e', 's', 't', 's'],
        seq!['p', 'a', 's', 's'],
        seq!['u', 's', 'e', 'r'],
    ];
    assert forall|k: int| 0 <= k < keys.len() implies has_member(signup_members(sign), #[trigger] keys[k])
        == (if k == 0 {
        sign.database is Some
    } else if k == 1 {
        sign.namespace is Some
    } else if k == 2 {
        sign.scope is Some
    } else if k == 3 {
        sign.email is Some
    } else if k == 4 {
        sign.interests is Some
    } else if k == 5 {
        sign.password is Some
    } else {
        sign.username is Some
    }) by {
        let key = keys[k];
        let m0 = string_member(seq!['D', 'B'], sign.database);
        let m1 = string_member(seq!['N', 'S'], sign.namespace);
        let m2 = string_member(seq!['S', 'C'], sign.scope);
        let m3 = string_member(seq!['e', 'm', 'a', 'i', 'l'], sign.email);
        let m4 = list_member(seq!['i', 'n', 't', 'e', 'r', 'e', 's', 't', 's'], sign.interests);
        let m5 = string_member(seq!['p', 'a', 's', 's'], sign.password);
        let m6 = string_member(seq!['u', 's', 'e', 'r'], sign.username);
        lemma_has_member_concat(m0, m1, key);
        lemma_has_member_concat(m0 + m1, m2, key);
        lemma_has_member_concat(m0 + m1 + m2, m3, key);
        lemma_has_member_concat(m0 + m1 + m2 + m3, m4, key);
        lemma_has_member_concat(m0 + m1 + m2 + m3 + m4, m5, key);
        lemma_has_member_concat(m0 + m1 + m2 + m3 + m4 + m5, m6, key);
        lemma_has_string_member(seq!['D', 'B'], sign.database, key);
        lemma_has_string_member(seq!['N', 'S'], sign.namespace, key);
        lemma_has_string_member(seq!['S', 'C'], sign.scope, key);
        lemma_has_string_member(seq!['e', 'm', 'a', 'i', 'l'], sign.email, key);
        lemma_has_list_member(seq!['i', 'n', 't', 'e', 'r', 'e', 's', 't', 's'], sign.interests, key);
        lemma_has_string_member(seq!['p', 'a', 's', 's'], sign.password, key);
        lemma_has_string_member(seq!['u', 's', 'e', 'r'], sign.username, key);
        assert(seq!['D', 'B'][0] != seq!['N', 'S'][0]);
        assert(seq!['D', 'B'][0] != seq!['S', 'C'][0]);
        assert(seq!['N', 'S'][0] != seq!['S', 'C'][0]);
        assert(seq!['p', 'a', 's', 's'][0] != seq!['u', 's', 'e', 'r'][0]);
    }
    assert(keys[0] == seq!['D', 'B']);
    assert(keys[1] == seq!['N', 'S']);
    assert(keys[2] == seq!['S', 'C']);
    assert(keys[3] == seq!['e', 'm', 'a', 'i', 'l']);
    assert(keys[4] == seq!['i', 'n', 't', 'e', 'r', 'e', 's', 't', 's']);
    assert(keys[5] == seq!['p', 'a', 's', 's']);
    assert(keys[6] == seq!['u', 's', 'e', 'r']);
}

/// Every key in `members` is non-empty and starts with a character below `c`.
pub open spec fn keys_start_below(members: Seq<(Seq<char>, Seq<char>)>, c: char) -> bool {
    forall|i: int| 0 <= i < members.len() ==> #[trigger] members[i].0.len() > 0 && members[i].0[0] < c
}

/// The first characters of the keys in `members` are strictly ascending.
pub open spec fn first_chars_ascending(members: Seq<(Seq<char>, Seq<char>)>) -> bool {
    forall|i: int, j: int|
        #![trigger members[i], members[j]]
        0 <= i < j < members.len() ==> members[i].0.len() > 0 && members[j].0.len() > 0
            && members[i].0[0] < members[j].0[0]
}

proof fn lemma_append_keyed(
    prefix: Seq<(Seq<char>, Seq<char>)>,
    m: Seq<(Seq<char>, Seq<char>)>,
    key: Seq<char>,
)
    requires
        first_chars_ascending(prefix),
        key.len() > 0,
        keys_start_below(prefix, key[0]),
        m.len() <= 1,
        forall|i: int| 0 <= i < m.len() ==> #[trigger] m[i].0 == key,
    ensures
        first_chars_ascending(prefix + m),
        forall|c: char| key[0] < c ==> keys_start_below(prefix + m, c),
{
    assert forall|i: int, j: int|
        #![trigger (prefix + m)[i], (prefix + m)[j]]
        0 <= i < j < (prefix + m).len() implies (prefix + m)[i].0.len() > 0 && (prefix + m)[j].0.len()
            > 0 && (prefix + m)[i].0[0] < (prefix + m)[j].0[0] by {
        if j < prefix.len() {
            assert(prefix[i] == (prefix + m)[i] && prefix[j] == (prefix + m)[j]);
        } else {
            assert(m[j - prefix.len()].0 == key);
            assert(prefix[i] == (prefix + m)[i]);
        }
    }
    assert forall|c: char| key[0] < c implies keys_start_below(prefix + m, c) by {
        assert forall|i: int| 0 <= i < (prefix + m).len() implies #[trigger] (prefix + m)[i].0.len()
            > 0 && (prefix + m)[i].0[0] < c by {
            if i < prefix.len() {
                assert(prefix[i] == (prefix + m)[i]);
            } else {
                assert(m[i - prefix.len()].0 == key);
            }
        }
    }
}

proof fn lemma_first_chars_give_order(members: Seq<(Seq<char>, Seq<char>)>)
    requires
        first_chars_ascending(members),
    ensures
        keys_ascending(members),
{
    assert forall|i: int, j: int| 0 <= i < j < members.len() implies sorts_before(
        #[trigger] members[i].0,
        #[trigger] members[j].0,
    ) by {
        lemma_sorts_by_first_char(members[i].0, members[j].0);
    }
}

/// The members of the object sent for a `SIGNUP` come in strictly ascending
/// key order, as serde_json's map of an object's members keeps them.
pub proof fn lemma_signup_keys_ascending(sign: SIGNUP)
    ensures
        keys_ascending(signup_members(sign)),
{
    let m0 = string_member(seq!['D', 'B'], sign.database);
    let m1 = string_member(seq!['N', 'S'], sign.namespace);
    let m2 = string_member(seq!['S', 'C'], sign.scope);
    let m3 = string_member(seq!['e', 'm', 'a', 'i', 'l'], sign.email);
    let m4 = list_member(seq!['i', 'n', 't', 'e', 'r', 'e', 's', 't', 's'], sign.interests);
    let m5 = string_member(seq!['p', 'a', 's', 's'], sign.password);
    let m6 = string_member(seq!['u', 's', 'e', 'r'], sign.username);
    lemma_append_keyed(Seq::<(Seq<char>, Seq<char>)>::empty(), m0, seq!['D', 'B']);
    assert(Seq::<(Seq<char>, Seq<char>)>::empty() + m0 =~= m0);
    lemma_append_keyed(m0, m1, seq!['N', 'S']);
    lemma_append_keyed(m0 + m1, m2, seq!['S', 'C']);
    lemma_append_keyed(m0 + m1 + m2, m3, seq!['e', 'm', 'a', 'i', 'l']);
    lemma_append_keyed(m0 + m1 + m2 + m3, m4, seq!['i', 'n', 't', 'e', 'r', 'e', 's', 't', 's']);
    lemma_append_keyed(m0 + m1 + m2 + m3 + m4, m5, seq!['p', 'a', 's', 's']);
    lemma_append_keyed(m0 + m1 + m2 + m3 + m4 + m5, m6, seq!['u', 's', 'e', 'r']);
    assert(m0 + m1 + m2 + m3 + m4 + m5 + m6 =~= signup_members(sign));
    lemma_first_chars_give_order(signup_members(sign));
}

/// The members of the object sent for a `LOGIN` come in strictly ascending key
/// order, as serde_json's map of an object's members keeps them.
pub proof fn lemma_login_keys_ascending(login: LOGIN)
    ensures
        keys_ascending(login_members(login)),
{
    let m0 = string_member(seq!['D', 'B'], login.database);
    let m1 = string_member(seq!['N', 'S'], login.namespace);
    let m2 = string_member(seq!['e', 'm', 'a', 'i', 'l'], login.email);
    let m3 = string_member(seq!['p', 'a', 's', 's'], login.password);
    let m4 = string_member(seq!['u', 's', 'e', 'r'], login.username);
    lemma_append_keyed(Seq::<(Seq<char>, Seq<char>)>::empty(), m0, seq!['D', 'B']);
    assert(Seq::<(Seq<char>, Seq<char>)>::empty() + m0 =~= m0);
    lemma_append_keyed(m0, m1, seq!['N', 'S']);
    lemma_append_keyed(m0 + m1, m2, seq!['e', 'm', 'a', 'i', 'l']);
    lemma_append_keyed(m0 + m1 + m2, m3, seq!['p', 'a', 's', 's']);
    lemma_append_keyed(m0 + m1 + m2 + m3, m4, seq!['u', 's', 'e', 'r']);
    assert(m0 + m1 + m2 + m3 + m4 =~= login_members(login));
    lemma_first_chars_give_order(login_members(login));
}

/// The parameters of a request without any are the empty array `[]`.
pub proof fn lemma_no_params()
    ensures
        no_params() == seq!['[', ']'],
{
    lemma_array_text_shape(Seq::empty(), Seq::empty());
}

/// A request that takes one string sends the whole string, as its escaped
/// string literal, alone in the parameter array.
pub proof fn lemma_string_params(a: Seq<char>)
    ensures
        string_params(a) == seq!['['] + quoted(a) + seq![']'],
{
    lemma_array_text_shape(Seq::empty(), quoted(a));
}

/// A request that takes two strings sends both whole, as their escaped string
/// literals, in order.
pub proof fn lemma_string_pair_params(a: Seq<char>, b: Seq<char>)
    ensures
        string_pair_params(a, b) == seq!['['] + quoted(a) + seq![','] + quoted(b) + seq![']'],
{
    lemma_array_text_pair(quoted(a), quoted(b));
}

/// A request that takes a string and a JSON value sends the whole string as
/// its escaped string literal, then the value's text unchanged, or `null`
/// when there is no value.
pub proof fn lemma_string_value_params(a: Seq<char>, value: Option<Seq<char>>)
    ensures
        value matches Some(t) ==> string_value_params(a, value) == seq!['['] + quoted(a) + seq![',']
            + t + seq![']'],
        value is None ==> string_value_params(a, value) == seq!['['] + quoted(a) + seq![
            ',',
            'n',
            'u',
            'l',
            'l',
            ']',
        ],
{
    lemma_array_text_pair(quoted(a), value_or_null(value));
    if value is None {
        assert(seq!['['] + quoted(a) + seq![','] + null_text() + seq![']'] =~= seq!['['] + quoted(a)
            + seq![',', 'n', 'u', 'l', 'l', ']']);
    }
}

/// `authenticate` sends a set token whole, as its string literal, and `null`
/// only when there is no token.
pub proof fn lemma_authenticate_params(auth: Option<String>)
    ensures
        auth matches Some(t) ==> array_text(seq![optional_text(opt_text(auth))]) == seq!['[']
            + quoted(t@) + seq![']'],
        auth is None ==> array_text(seq![optional_text(opt_text(auth))]) == seq![
            '[',
            'n',
            'u',
            'l',
            'l',
            ']',
        ],
{
    lemma_optional_text(opt_text(auth));
    lemma_array_text_shape(Seq::empty(), optional_text(opt_text(auth)));
    if auth is None {
        assert(seq!['['] + null_text() + seq![']'] =~= seq!['[', 'n', 'u', 'l', 'l', ']']);
    }
}

/// `signup` and `signin` send their object alone in the parameter array.
pub proof fn lemma_object_params(members: Seq<(Seq<char>, Seq<char>)>)
    ensures
        array_text(seq![object_text(members)]) == seq!['['] + object_text(members) + seq![']'],
{
    lemma_array_text_shape(Seq::empty(), object_text(members));
}

proof fn lemma_contains_concat(
    a: Seq<(Seq<char>, Seq<char>)>,
    b: Seq<(Seq<char>, Seq<char>)>,
    x: (Seq<char>, Seq<char>),
)
    ensures
        a.contains(x) ==> (a + b).contains(x),
        b.contains(x) ==> (a + b).contains(x),
{
    if a.contains(x) {
        let i = choose|i: int| 0 <= i < a.len() && a[i] == x;
        assert((a + b)[i] == x);
    }
    if b.contains(x) {
        let i = choose|i: int| 0 <= i < b.len() && b[i] == x;
        assert((a + b)[a.len() + i] == x);
    }
}

/// A set string field is sent whole, as the member of its key with the
/// field's escaped string literal.
pub proof fn lemma_string_member_value(key: Seq<char>, value: Option<String>)
    ensures
        value matches Some(v) ==> string_member(key, value) == seq![(key, quoted(v@))],
        value is None ==> string_member(key, value).len() == 0,
{
}

/// A set list field is sent as the member of its key whose value is the array
/// of the escaped string literals of all its items, in order, whatever their
/// number.
pub proof fn lemma_list_member_value(key: Seq<char>, value: Option<Vec<String>>)
    ensures
        value matches Some(v) ==> list_member(key, value) == seq![
            (key, array_text(Seq::new(v@.len(), |i: int| quoted(v@[i]@)))),
        ],
        value is None ==> list_member(key, value).len() == 0,
{
    if let Some(v) = value {
        assert(texts(v@).map_values(|s: Seq<char>| quoted(s)) =~= Seq::new(
            v@.len(),
            |i: int| quoted(v@[i]@),
        ));
    }
}

/// Each set field of a `LOGIN` is sent whole: its object holds the member of
/// the field's key with the field's escaped string literal.
pub proof fn lemma_login_member_values(login: LOGIN)
    ensures
        login.username matches Some(v) ==> login_members(login).contains(
            (seq!['u', 's', 'e', 'r'], quoted(v@)),
        ),
        login.password matches Some(v) ==> login_members(login).contains(
            (seq!['p', 'a', 's', 's'], quoted(v@)),
        ),
        login.namespace matches Some(v) ==> login_members(login).contains((seq!['N', 'S'], quoted(v@))),
        login.database matches Some(v) ==> login_members(login).contains((seq!['D', 'B'], quoted(v@))),
        login.email matches Some(v) ==> login_members(login).contains(
            (seq!['e', 'm', 'a', 'i', 'l'], quoted(v@)),
        ),
{
    let m0 = string_member(seq!['D', 'B'], login.database);
    lemma_string_member_value(seq!['D', 'B'], login.database);
    let m1 = string_member(seq!['N', 'S'], login.namespace);
    lemma_string_member_value(seq!['N', 'S'], login.namespace);
    let m2 = string_member(seq!['e', 'm', 'a', 'i', 'l'], login.email);
    lemma_string_member_value(seq!['e', 'm', 'a', 'i', 'l'], login.email);
    let m3 = string_member(seq!['p', 'a', 's', 's'], login.password);
    lemma_string_member_value(seq!['p', 'a', 's', 's'], login.password);
    let m4 = string_member(seq!['u', 's', 'e', 'r'], login.username);
    lemma_string_member_value(seq!['u', 's', 'e', 'r'], login.username);
    assert(m0 + m1 + m2 + m3 + m4 =~= login_members(login));
    if let Some(v) = login.database {
        let x = (seq!['D', 'B'], quoted(v@));
        assert(m0[0] == x);
        lemma_contains_concat(m0, m1, x);
        lemma_contains_concat(m0 + m1, m2, x);
        lemma_contains_concat(m0 + m1 + m2, m3, x);
        lemma_contains_concat(m0 + m1 + m2 + m3, m4, x);
    }
    if let Some(v) = login.namespace {
        let x = (seq!['N', 'S'], quoted(v@));
        assert(m1[0] == x);
        lemma_contains_concat(m0, m1, x);
        lemma_contains_concat(m0 + m1, m2, x);
        lemma_contains_concat(m0 + m1 + m2, m3, x);
        lemma_contains_concat(m0 + m1 + m2 + m3, m4, x);
    }
    if let Some(v) = login.email {
        let x = (seq!['e', 'm', 'a', 'i', 'l'], quoted(v@));
        assert(m2[0] == x);
        lemma_contains_concat(m0, m1, x);
        lemma_contains_concat(m0 + m1, m2, x);
        lemma_contains_concat(m0 + m1 + m2, m3, x);
        lemma_contains_concat(m0 + m1 + m2 + m3, m4, x);
    }
    if let Some(v) = login.password {
        let x = (seq!['p', 'a', 's', 's'], quoted(v@));
        assert(m3[0] == x);
        lemma_contains_concat(m0, m1, x);
        lemma_contains_concat(m0 + m1, m2, x);
        lemma_contains_concat(m0 + m1 + m2, m3, x);
        lemma_contains_concat(m0 + m1 + m2 + m3, m4, x);
    }
    if let Some(v) = login.username {
        let x = (seq!['u', 's', 'e', 'r'], quoted(v@));
        assert(m4[0] == x);
        lemma_contains_concat(m0, m1, x);
        lemma_contains_concat(m0 + m1, m2, x);
        lemma_contains_concat(m0 + m1 + m2, m3, x);
        lemma_contains_concat(m0 + m1 + m2 + m3, m4, x);
    }
}

/// Each set field of a `SIGNUP` is sent whole: its object holds the member of
/// the field's key with the field's escaped string literal, and for the
/// interests, the array of the literals of all the items.
pub proof fn lemma_signup_member_values(sign: SIGNUP)
    ensures
        sign.username matches Some(v) ==> signup_members(sign).contains(
            (seq!['u', 's', 'e', 'r'], quoted(v@)),
        ),
        sign.password matches Some(v) ==> signup_members(sign).contains(
            (seq!['p', 'a', 's', 's'], quoted(v@)),
        ),
        sign.namespace matches Some(v) ==> signup_members(sign).contains((seq!['N', 'S'], quoted(v@))),
        sign.database matches Some(v) ==> signup_members(sign).contains((seq!['D', 'B'], quoted(v@))),
        sign.email matches Some(v) ==> signup_members(sign).contains(
            (seq!['e', 'm', 'a', 'i', 'l'], quoted(v@)),
        ),
        sign.scope matches Some(v) ==> signup_members(sign).contains((seq!['S', 'C'], quoted(v@))),
        sign.interests matches Some(v) ==> signup_members(sign).contains(
            (
                seq!['i', 'n', 't', 'e', 'r', 'e', 's', 't', 's'],
                array_text(Seq::new(v@.len(), |i: int| quoted(v@[i]@))),
            ),
        ),
{
    let m0 = string_member(seq!['D', 'B'], sign.database);
    lemma_string_member_value(seq!['D', 'B'], sign.database);
    let m1 = string_member(seq!['N', 'S'], sign.namespace);
    lemma_string_member_value(seq!['N', 'S'], sign.namespace);
    let m2 = string_member(seq!['S', 'C'], sign.scope);
    lemma_string_member_value(seq!['S', 'C'], sign.scope);
    let m3 = string_member(seq!['e', 'm', 'a', 'i', 'l'], sign.email);
    lemma_string_member_value(seq!['e', 'm', 'a', 'i', 'l'], sign.email);
    let m4 = list_member(seq!['i', 'n', 't', 'e', 'r', 'e', 's', 't', 's'], sign.interests);
    lemma_list_member_value(seq!['i', 'n', 't', 'e', 'r', 'e', 's', 't', 's'], sign.interests);
    let m5 = string_member(seq!['p', 'a', 's', 's'], sign.password);
    lemma_string_member_value(seq!['p', 'a', 's', 's'], sign.password);
    let m6 = string_member(seq!['u', 's', 'e', 'r'], sign.username);
    lemma_string_member_value(seq!['u', 's', 'e', 'r'], sign.username);
    assert(m0 + m1 + m2 + m3 + m4 + m5 + m6 =~= signup_members(sign));
    if let Some(v) = sign.database {
        let x = (seq!['D', 'B'], quoted(v@));
        assert(m0[0] == x);
        lemma_contains_concat(m0, m1, x);
        lemma_contains_concat(m0 + m1, m2, x);
        lemma_contains_concat(m0 + m1 + m2, m3, x);
        lemma_contains_concat(m0 + m1 + m2 + m3, m4, x);
        lemma_contains_concat(m0 + m1 + m2 + m3 + m4, m5, x);
        lemma_contains_concat(m0 + m1 + m2 + m3 + m4 + m5, m6, x);
    }
    if let Some(v) = sign.namespace {
        let x = (seq!['N', 'S'], quoted(v@));
        assert(m1[0] == x);
        lemma_contains_concat(m0, m1, x);
        lemma_contains_concat(m0 + m1, m2, x);
        lemma_contains_concat(m0 + m1 + m2, m3, x);
        lemma_contains_concat(m0 + m1 + m2 + m3, m4, x);
        lemma_contains_concat(m0 + m1 + m2 + m3 + m4, m5, x);
        lemma_contains_concat(m0 + m1 + m2 + m3 + m4 + m5, m6, x);
    }
    if let Some(v) = sign.scope {
        let x = (seq!['S', 'C'], quoted(v@));
        assert(m2[0] == x);
        lemma_contains_concat(m0, m1, x);
        lemma_contains_concat(m0 + m1, m2, x);
        lemma_contains_concat(m0 + m1 + m2, m3, x);
        lemma_contains_concat(m0 + m1 + m2 + m3, m4, x);
        lemma_contains_concat(m0 + m1 + m2 + m3 + m4, m5, x);
        lemma_contains_concat(m0 + m1 + m2 + m3 + m4 + m5, m6, x);
    }
    if let Some(v) = sign.email {
        let x = (seq!['e', 'm', 'a', 'i', 'l'], quoted(v@));
        assert(m3[0] == x);
        lemma_contains_concat(m0, m1, x);
        lemma_contains_concat(m0 + m1, m2, x);
        lemma_contains_concat(m0 + m1 + m2, m3, x);
        lemma_contains_concat(m0 + m1 + m2 + m3, m4, x);
        lemma_contains_concat(m0 + m1 + m2 + m3 + m4, m5, x);
        lemma_contains_concat(m0 + m1 + m2 + m3 + m4 + m5, m6, x);
    }
    if let Some(v) = sign.interests {
        let x = (seq!['i', 'n', 't', 'e', 'r', 'e', 's', 't', 's'], array_text(Seq::new(v@.len(), |i: int| quoted(v@[i]@))));
        assert(m4[0] == x);
        lemma_contains_concat(m0, m1, x);
        lemma_contains_concat(m0 + m1, m2, x);
        lemma_contains_concat(m0 + m1 + m2, m3, x);
        lemma_contains_concat(m0 + m1 + m2 + m3, m4, x);
        lemma_contains_concat(m0 + m1 + m2 + m3 + m4, m5, x);
        lemma_contains_concat(m0 + m1 + m2 + m3 + m4 + m5, m6, x);
    }
    if let Some(v) = sign.password {
        let x = (seq!['p', 'a', 's', 's'], quoted(v@));
        assert(m5[0] == x);
        lemma_contains_concat(m0, m1, x);
        lemma_contains_concat(m0 + m1, m2, x);
        lemma_contains_concat(m0 + m1 + m2, m3, x);
        lemma_contains_concat(m0 + m1 + m2 + m3, m4, x);
        lemma_contains_concat(m0 + m1 + m2 + m3 + m4, m5, x);
        lemma_contains_concat(m0 + m1 + m2 + m3 + m4 + m5, m6, x);
    }
    if let Some(v) = sign.username {
        let x = (seq!['u', 's', 'e', 'r'], quoted(v@));
        assert(m6[0] == x);
        lemma_contains_concat(m0, m1, x);
        lemma_contains_concat(m0 + m1, m2, x);
        lemma_contains_concat(m0 + m1 + m2, m3, x);
        lemma_contains_concat(m0 + m1 + m2 + m3, m4, x);
        lemma_contains_concat(m0 + m1 + m2 + m3 + m4, m5, x);
        lemma_contains_concat(m0 + m1 + m2 + m3 + m4 + m5, m6, x);
    }
}

/// A request can be read back: it opens with `{"method":"`, then holds the
/// whole method name, then `","params":`, then the whole parameter text, then
/// `,"id":"`, then the whole identifier, and closes with `"}`.
pub proof fn lemma_request_parts(method: Seq<char>, params: Seq<char>, id: Seq<char>)
    ensures
        ({
            let t = request_text(method, params, id);
            let m = method.len() as int;
            let q = params.len() as int;
            let p = 22 + m;
            &&& t.len() == 31 + method.len() + params.len() + id.len()
            &&& t.subrange(0, 11) == seq!['{', '"', 'm', 'e', 't', 'h', 'o', 'd', '"', ':', '"']
            &&& t.subrange(11, 11 + m) == method
            &&& t.subrange(11 + m, p) == seq![
                '"',
                ',',
                '"',
                'p',
                'a',
                'r',
                'a',
                'm',
                's',
                '"',
                ':',
            ]
            &&& t.subrange(p, p + q) == params
            &&& t.subrange(p + q, p + q + 7) == seq![
                ',',
                '"',
                'i',
                'd',
                '"',
                ':',
                '"',
            ]
            &&& t.subrange(p + q + 7, t.len() - 2) == id
            &&& t.subrange(t.len() - 2, t.len() as int) == seq!['"', '}']
        }),
{
    reveal_strlit("{\"method\":\"");
    reveal_strlit("\",\"params\":");
    reveal_strlit(",\"id\":\"");
    reveal_strlit("\"}");
    let a = "{\"method\":\""@;
    let b = "\",\"params\":"@;
    let c = ",\"id\":\""@;
    let d = "\"}"@;
    assert(a =~= seq!['{', '"', 'm', 'e', 't', 'h', 'o', 'd', '"', ':', '"']);
    assert(b =~= seq!['"', ',', '"', 'p', 'a', 'r', 'a', 'm', 's', '"', ':']);
    assert(c =~= seq![',', '"', 'i', 'd', '"', ':', '"']);
    assert(d =~= seq!['"', '}']);
    let t = request_text(method, params, id);
    let m = method.len() as int;
    let q = params.len() as int;
    let p = 22 + m;
    assert(t =~= a + method + b + params + c + id + d);
    assert(t.subrange(0, 11) =~= a);
    assert(t.subrange(11, 11 + m) =~= method);
    assert(t.subrange(11 + m, p) =~= b);
    assert(t.subrange(p, p + q) =~= params);
    assert(t.subrange(p + q, p + q + 7) =~= c);
    assert(t.subrange(p + q + 7, t.len() - 2) =~= id);
    assert(t.subrange(t.len() - 2, t.len() as int) =~= d);
}

/// 1 when the field is set, 0 when it is not.
pub open spec fn count_set<A>(field: Option<A>) -> nat {
    if field is Some {
        1
    } else {
        0
    }
}

/// The object sent for a `LOGIN` has one member per set field and no others.
pub proof fn lemma_login_member_count(login: LOGIN)
    ensures
        login_members(login).len() == count_set(login.username) + count_set(login.password)
            + count_set(login.namespace) + count_set(login.database) + count_set(login.email),
{
}

/// The object sent for a `SIGNUP` has one member per set field and no others.
pub proof fn lemma_signup_member_count(sign: SIGNUP)
    ensures
        signup_members(sign).len() == count_set(sign.username) + count_set(sign.password)
            + count_set(sign.namespace) + count_set(sign.database) + count_set(sign.email)
            + count_set(sign.scope) + count_set(sign.interests),
{
}

/// Adds the member `key` for `value` when `value` is set.
fn push_string_member(members: &mut Vec<(String, String)>, key: &str, value: &Option<String>)
    ensures
        pair_texts(final(members)@) == pair_texts(old(members)@) + string_member(key@, *value),
{
    match value {
        Some(v) => {
            members.push((String::from_str(key), encode_string(v.as_str())));
        },
        None => {},
    }
    assert(pair_texts(members@) =~= pair_texts(old(members)@) + string_member(key@, *value));
}

/// The JSON object that a `SIGNUP` is sent as.
pub fn encode_signup(sign: &SIGNUP) -> (text: String)
    ensures
        text@ == object_text(signup_members(*sign)),
{
    let mut members: Vec<(String, String)> = Vec::new();
    push_string_member(&mut members, "DB", &sign.database);
    push_string_member(&mut members, "NS", &sign.namespace);
    push_string_member(&mut members, "SC", &sign.scope);
    push_string_member(&mut members, "email", &sign.email);
    let ghost before_interests = pair_texts(members@);
    match &sign.interests {
        Some(list) => {
            members.push((String::from_str("interests"), encode_string_list(list)));
        },
        None => {},
    }
    proof {
        reveal_strlit("interests");
        assert("interests"@ =~= seq!['i', 'n', 't', 'e', 'r', 'e', 's', 't', 's']);
        assert(pair_texts(members@) =~= before_interests + list_member(
            seq!['i', 'n', 't', 'e', 'r', 'e', 's', 't', 's'],
            sign.interests,
        ));
    }
    push_string_member(&mut members, "pass", &sign.password);
    push_string_member(&mut members, "user", &sign.username);
    proof {
        reveal_strlit("DB");
        assert("DB"@ =~= seq!['D', 'B']);
        reveal_strlit("NS");
        assert("NS"@ =~= seq!['N', 'S']);
        reveal_strlit("SC");
        assert("SC"@ =~= seq!['S', 'C']);
        reveal_strlit("email");
        assert("email"@ =~= seq!['e', 'm', 'a', 'i', 'l']);
        reveal_strlit("pass");
        assert("pass"@ =~= seq!['p', 'a', 's', 's']);
        reveal_strlit("user");
        assert("user"@ =~= seq!['u', 's', 'e', 'r']);
        assert(pair_texts(members@) =~= signup_members(*sign));
    }
    encode_object(&members)
}

/// The JSON object that a `LOGIN` is sent as.
pub fn encode_login(login: &LOGIN) -> (text: String)
    ensures
        text@ == object_text(login_members(*login)),
{
    let mut members: Vec<(String, String)> = Vec::new();
    push_string_member(&mut members, "DB", &login.database);
    push_string_member(&mut members, "NS", &login.namespace);
    push_string_member(&mut members, "email", &login.email);
    push_string_member(&mut members, "pass", &login.password);
    push_string_member(&mut members, "user", &login.username);
    proof {
        reveal_strlit("DB");
        assert("DB"@ =~= seq!['D', 'B']);
        reveal_strlit("NS");
        assert("NS"@ =~= seq!['N', 'S']);
        reveal_strlit("email");
        assert("email"@ =~= seq!['e', 'm', 'a', 'i', 'l']);
        reveal_strlit("pass");
        assert("pass"@ =~= seq!['p', 'a', 's', 's']);
        reveal_strlit("user");
        assert("user"@ =~= seq!['u', 's', 'e', 'r']);
        assert(pair_texts(members@) =~= login_members(*login));
    }
    encode_object(&members)
}

/// A lower-case hexadecimal digit.
pub open spec fn is_lower_hex(c: char) -> bool {
    ('0' <= c && c <= '9') || ('a' <= c && c <= 'f')
}

/// A request identifier: a random (version 4) UUID in its simple form, 32
/// lower-case hexadecimal digits, with the version digit `4` at position 12
/// and one of the variant digits `8`, `9`, `a`, `b` at position 16.
pub open spec fn is_request_id(id: Seq<char>) -> bool {
    &&& id.len() == 32
    &&& forall|i: int| 0 <= i < 32 ==> #[trigger] is_lower_hex(id[i])
    &&& id[12] == '4'
    &&& (id[16] == '8' || id[16] == '9' || id[16] == 'a' || id[16] == 'b')
}

/// The text of the request that calls `method` with the parameters `params`
/// (a JSON array) under the identifier `id`.
pub open spec fn request_text(method: Seq<char>, params: Seq<char>, id: Seq<char>) -> Seq<char> {
    "{\"method\":\""@ + method + "\",\"params\":"@ + params + ",\"id\":\""@ + id + "\"}"@
}

/// `text` is a request for `method` with `params` under some fresh identifier.
pub open spec fn is_request(text: Seq<char>, method: Seq<char>, params: Seq<char>) -> bool {
    exists|id: Seq<char>| is_request_id(id) && text == request_text(method, params, id)
}

/// A request identifier has 32 characters, all lower-case hexadecimal
/// digits, with `4` at position 12 and `8`, `9`, `a` or `b` at position 16.
pub proof fn lemma_request_id_shape(id: Seq<char>)
    ensures
        is_request_id(id) <==> (id.len() == 32 && (forall|i: int|
            0 <= i < 32 ==> ('0' <= #[trigger] id[i] && id[i] <= '9') || ('a' <= id[i] && id[i] <= 'f'))
            && id[12] == '4' && (id[16] == '8' || id[16] == '9' || id[16] == 'a' || id[16] == 'b')),
{
    if is_request_id(id) {
        assert forall|i: int| 0 <= i < 32 implies ('0' <= #[trigger] id[i] && id[i] <= '9') || (
        'a' <= id[i] && id[i] <= 'f') by {
            assert(is_lower_hex(id[i]));
        }
    }
    if id.len() == 32 && (forall|i: int|
        0 <= i < 32 ==> ('0' <= #[trigger] id[i] && id[i] <= '9') || ('a' <= id[i] && id[i] <= 'f')) {
        assert forall|i: int| 0 <= i < 32 implies #[trigger] is_lower_hex(id[i]) by {
            assert(('0' <= id[i] && id[i] <= '9') || ('a' <= id[i] && id[i] <= 'f'));
        }
    }
}

/// A text is a request for `method` with `params` exactly when it is that
/// request under some identifier of the right shape.
pub proof fn lemma_is_request(text: Seq<char>, method: Seq<char>, params: Seq<char>)
    ensures
        is_request(text, method, params) <==> exists|id: Seq<char>|
            is_request_id(id) && text == request_text(method, params, id),
{
}

/// The view of an optional string is the string's view when it is set, and
/// nothing when it is not; the views of a list of strings are the strings'
/// views, one for one and in order.
pub proof fn lemma_views(value: Option<String>, items: Seq<String>, pairs: Seq<(String, String)>)
    ensures
        value matches Some(s) ==> opt_text(value) == Some(s@),
        value is None ==> opt_text(value) == None::<Seq<char>>,
        texts(items).len() == items.len(),
        forall|i: int| 0 <= i < items.len() ==> #[trigger] texts(items)[i] == items[i]@,
        pair_texts(pairs).len() == pairs.len(),
        forall|i: int|
            0 <= i < pairs.len() ==> #[trigger] pair_texts(pairs)[i] == (pairs[i].0@, pairs[i].1@),
{
}

/// uuid's `Uuid::new_v4`, written with `simple()` and `to_string()`.
///
/// Claims only the shape of the identifier, which holds of every outcome:
/// `new_v4` masks random bits so that the version nibble is 4 and the
/// variant's top bits are `10`, and the simple form writes the 16 bytes as 32
/// lower-case hexadecimal digits. Which digits come out is left unsaid: they
/// are random.
#[verifier::external_body]
fn fresh_request_id() -> (id: String)
    ensures
        is_request_id(id@),
{
    uuid::Uuid::new_v4().simple().to_string()
}

/// The request for `method` with the parameters `params` under the identifier `id`.
pub fn frame_request(method: &str, params: &str, id: &str) -> (text: String)
    ensures
        text@ == request_text(method@, params@, id@),
{
    let mut text = String::from_str("{\"method\":\"");
    text.append(method);
    text.append("\",\"params\":");
    text.append(params);
    text.append(",\"id\":\"");
    text.append(id);
    text.append("\"}");
    text
}

/// The request for `verb` with the parameters `arg`, under a fresh identifier.
pub fn generic(verb: &str, arg: &str) -> (text: String)
    ensures
        is_request(text@, verb@, arg@),
{
    let id = fresh_request_id();
    let text = frame_request(verb, arg, id.as_str());
    assert(is_request_id(id@) && text@ == request_text(verb@, arg@, id@));
    text
}

/// The parameters of a request that takes none: `[]`.
pub open spec fn no_params() -> Seq<char> {
    array_text(Seq::empty())
}

/// The parameters of a request that takes one string.
pub open spec fn string_params(a: Seq<char>) -> Seq<char> {
    array_text(seq![quoted(a)])
}

/// The parameters of a request that takes two strings.
pub open spec fn string_pair_params(a: Seq<char>, b: Seq<char>) -> Seq<char> {
    array_text(seq![quoted(a), quoted(b)])
}

/// A value given as JSON text, or `null` when there is none.
pub open spec fn value_or_null(value: Option<Seq<char>>) -> Seq<char> {
    match value {
        Some(t) => t,
        None => null_text(),
    }
}

/// The view of an optional string.
pub open spec fn opt_text(value: Option<String>) -> Option<Seq<char>> {
    match value {
        Some(s) => Some(s@),
        None => None,
    }
}

/// The parameters of a request that takes a string and a JSON value or `null`.
pub open spec fn string_value_params(a: Seq<char>, value: Option<Seq<char>>) -> Seq<char> {
    array_text(seq![quoted(a), value_or_null(value)])
}

/// Builds the request for `verb` whose parameters are the JSON texts `params`.
fn request_with(verb: &str, params: Vec<String>) -> (text: String)
    ensures
        is_request(text@, verb@, array_text(texts(params@))),
{
    let arg = encode_array(&params);
    generic(verb, arg.as_str())
}

/// The request `ping`, which takes no parameters.
pub fn ping() -> (text: String)
    ensures
        is_request(text@, "ping"@, no_params()),
{
    let params: Vec<String> = Vec::new();
    assert(texts(params@) =~= Seq::empty());
    request_with("ping", params)
}

/// The request `info`, which takes no parameters.
pub fn info() -> (text: String)
    ensures
        is_request(text@, "info"@, no_params()),
{
    let params: Vec<String> = Vec::new();
    assert(texts(params@) =~= Seq::empty());
    request_with("info", params)
}

/// The request `invalidate`, which takes no parameters.
pub fn invalidate() -> (text: String)
    ensures
        is_request(text@, "invalidate"@, no_params()),
{
    let params: Vec<String> = Vec::new();
    assert(texts(params@) =~= Seq::empty());
    request_with("invalidate", params)
}

/// The request for a verb that takes one string.
fn one_string(verb: &str, a: String) -> (text: String)
    ensures
        is_request(text@, verb@, string_params(a@)),
{
    let mut params: Vec<String> = Vec::new();
    params.push(encode_string(a.as_str()));
    assert(texts(params@) =~= seq![quoted(a@)]);
    request_with(verb, params)
}

/// The request for a verb that takes two strings.
fn two_strings(verb: &str, a: String, b: String) -> (text: String)
    ensures
        is_request(text@, verb@, string_pair_params(a@, b@)),
{
    let mut params: Vec<String> = Vec::new();
    params.push(encode_string(a.as_str()));
    params.push(encode_string(b.as_str()));
    assert(texts(params@) =~= seq![quoted(a@), quoted(b@)]);
    request_with(verb, params)
}

/// The request for a verb that takes a string and a JSON value or `null`.
fn string_and_value(verb: &str, a: String, value: Option<String>) -> (text: String)
    ensures
        is_request(text@, verb@, string_value_params(a@, opt_text(value))),
{
    let mut params: Vec<String> = Vec::new();
    params.push(encode_string(a.as_str()));
    match value {
        Some(t) => params.push(t),
        None => {
            proof {
                reveal_strlit("null");
                assert("null"@ =~= null_text());
            }
            params.push(String::from_str("null"));
        },
    }
    assert(texts(params@) =~= seq![quoted(a@), value_or_null(opt_text(value))]);
    request_with(verb, params)
}

/// The request `use`, which selects the namespace `ns` and the database `db`.
pub fn use_namespace(ns: String, db: String) -> (text: String)
    ensures
        is_request(text@, "use"@, string_pair_params(ns@, db@)),
{
    two_strings("use", ns, db)
}

/// The request `signup`, whose one parameter is the object for `sign`.
pub fn signup(sign: SIGNUP) -> (text: String)
    ensures
        is_request(text@, "signup"@, array_text(seq![object_text(signup_members(sign))])),
{
    let mut params: Vec<String> = Vec::new();
    params.push(encode_signup(&sign));
    assert(texts(params@) =~= seq![object_text(signup_members(sign))]);
    request_with("signup", params)
}

/// The request `signin`, whose one parameter is the object for `login`.
pub fn signin(login: LOGIN) -> (text: String)
    ensures
        is_request(text@, "signin"@, array_text(seq![object_text(login_members(login))])),
{
    let mut params: Vec<String> = Vec::new();
    params.push(encode_login(&login));
    assert(texts(params@) =~= seq![object_text(login_members(login))]);
    request_with("signin", params)
}

/// The request `authenticate`, whose one parameter is the token or `null`.
pub fn authenticate(auth: Option<String>) -> (text: String)
    ensures
        is_request(text@, "authenticate"@, array_text(seq![optional_text(opt_text(auth))])),
{
    let mut params: Vec<String> = Vec::new();
    params.push(encode_optional_string(&auth));
    assert(texts(params@) =~= seq![optional_text(opt_text(auth))]);
    request_with("authenticate", params)
}

/// The request `kill`, which stops the live query `id`.
pub fn kill(id: String) -> (text: String)
    ensures
        is_request(text@, "kill"@, string_params(id@)),
{
    one_string("kill", id)
}

/// The request `live`, which starts a live query on `table`.
pub fn live(table: String) -> (text: String)
    ensures
        is_request(text@, "live"@, string_params(table@)),
{
    one_string("live", table)
}

/// The request `set`, which binds `key` to `value`.
pub fn set(key: String, value: String) -> (text: String)
    ensures
        is_request(text@, "set"@, string_pair_params(key@, value@)),
{
    two_strings("set", key, value)
}

/// The request `query`, with the statement `sql` and the bindings `replace`
/// given as JSON text.
pub fn query(sql: String, replace: String) -> (text: String)
    ensures
        is_request(text@, "query"@, string_value_params(sql@, Some(replace@))),
{
    string_and_value("query", sql, Some(replace))
}

/// The request `select`, for the table or record `id`.
pub fn select(id: String) -> (text: String)
    ensures
        is_request(text@, "select"@, string_params(id@)),
{
    one_string("select", id)
}

/// The request `create`, for the record `id` with the content `data` given as
/// JSON text (`null` when there is none).
pub fn create(id: String, data: Option<String>) -> (text: String)
    ensures
        is_request(text@, "create"@, string_value_params(id@, opt_text(data))),
{
    string_and_value("create", id, data)
}

/// The request `update`, which replaces the content of `id` with `data`.
pub fn update(id: String, data: Option<String>) -> (text: String)
    ensures
        is_request(text@, "update"@, string_value_params(id@, opt_text(data))),
{
    string_and_value("update", id, data)
}

/// The request `change`, which merges `data` into the content of `id`.
pub fn change(id: String, data: Option<String>) -> (text: String)
    ensures
        is_request(text@, "change"@, string_value_params(id@, opt_text(data))),
{
    string_and_value("change", id, data)
}

/// The request `modify`, which applies the patch `data` to `id`.
pub fn modify(id: String, data: Option<String>) -> (text: String)
    ensures
        is_request(text@, "modify"@, string_value_params(id@, opt_text(data))),
{
    string_and_value("modify", id, data)
}

/// The request `delete`, for the table or record `id`.
pub fn delete(id: String) -> (text: String)
    ensures
        is_request(text@, "delete"@, string_params(id@)),
{
    one_string("delete", id)
}

} // verus!

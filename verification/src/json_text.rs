//! JSON text as serde_json writes it in compact form.
use vstd::prelude::*;

verus! {

/// The lower-case hexadecimal digit for `n` (`0 <= n < 16`).
pub open spec fn hex_digit(n: int) -> char {
    seq!['0', '1', '2', '3', '4', '5', '6', '7', '8', '9', 'a', 'b', 'c', 'd', 'e', 'f'][n]
}

/// What one character of a string turns into inside a JSON string literal:
/// the quote and the backslash are escaped with a backslash, the five control
/// characters that have a short escape get it, every other control character
/// below U+0020 becomes `\u00XX`, and everything else stands as it is.
pub open spec fn escape_char(c: char) -> Seq<char> {
    if c == '"' {
        seq!['\\', '"']
    } else if c == '\\' {
        seq!['\\', '\\']
    } else if c == '\u{8}' {
        seq!['\\', 'b']
    } else if c == '\t' {
        seq!['\\', 't']
    } else if c == '\n' {
        seq!['\\', 'n']
    } else if c == '\u{c}' {
        seq!['\\', 'f']
    } else if c == '\r' {
        seq!['\\', 'r']
    } else if (c as int) < 0x20 {
        seq!['\\', 'u', '0', '0', hex_digit((c as int) / 16), hex_digit((c as int) % 16)]
    } else {
        seq![c]
    }
}

/// The escaped contents of a JSON string literal holding `s`.
pub open spec fn escape_text(s: Seq<char>) -> Seq<char>
    decreases s.len(),
{
    if s.len() == 0 {
        Seq::empty()
    } else {
        escape_text(s.drop_last()) + escape_char(s.last())
    }
}

/// The JSON string literal that holds `s`.
pub open spec fn quoted(s: Seq<char>) -> Seq<char> {
    seq!['"'] + escape_text(s) + seq!['"']
}

/// `s` holds no quote, no backslash and no control character below U+0020.
pub open spec fn is_plain(s: Seq<char>) -> bool {
    forall|i: int| 0 <= i < s.len() ==> #[trigger] s[i] != '"' && s[i] != '\\' && (s[i] as int) >= 0x20
}

/// A string without quotes, backslashes or control characters is written
/// between quotes as it is.
pub proof fn lemma_plain_text_quoted(s: Seq<char>)
    requires
        is_plain(s),
    ensures
        quoted(s) == seq!['"'] + s + seq!['"'],
{
    lemma_plain_text_escaped(s);
}

proof fn lemma_plain_text_escaped(s: Seq<char>)
    requires
        is_plain(s),
    ensures
        escape_text(s) == s,
    decreases s.len(),
{
    if s.len() > 0 {
        let c = s.last();
        assert(c == s[s.len() - 1]);
        assert(is_plain(s.drop_last()));
        lemma_plain_text_escaped(s.drop_last());
        assert(s.drop_last().push(c) =~= s);
    }
}

/// Escaping works character by character: the escape of two pieces put
/// together is the escape of the first followed by the escape of the second.
pub proof fn lemma_escape_text_concat(a: Seq<char>, b: Seq<char>)
    ensures
        escape_text(a + b) == escape_text(a) + escape_text(b),
    decreases b.len(),
{
    if b.len() == 0 {
        assert(a + b =~= a);
        assert(escape_text(a) + escape_text(b) =~= escape_text(a));
    } else {
        lemma_escape_text_concat(a, b.drop_last());
        assert((a + b).drop_last() =~= a + b.drop_last());
        assert((a + b).last() == b.last());
        assert(escape_text(a + b) =~= escape_text(a) + escape_text(b));
    }
}

/// serde_json's `to_string` on a `str`.
///
/// Claims that the result is the string literal `quoted(s)`: serde_json's
/// compact serializer writes a quote, each byte run that needs no escape as
/// it is, the escapes of its `ESCAPE` table (`\"`, `\\`, `\b`, `\t`, `\n`,
/// `\f`, `\r`, and `\u00xx` with lower-case digits for the other control
/// characters), and a closing quote; and that the call does not fail, since
/// writing into its own `Vec<u8>` cannot fail.
#[verifier::external_body]
fn serde_quote(s: &str) -> (text: String)
    ensures
        text@ == quoted(s@),
{
    serde_json::to_string(s).unwrap()
}

/// The JSON string literal that holds `s`, as serde_json writes it.
pub fn encode_string(s: &str) -> (text: String)
    ensures
        text@ == quoted(s@),
{
    serde_quote(s)
}

/// The texts in `items`, separated by commas.
pub open spec fn comma_joined(items: Seq<Seq<char>>) -> Seq<char>
    decreases items.len(),
{
    if items.len() == 0 {
        Seq::empty()
    } else if items.len() == 1 {
        items[0]
    } else {
        comma_joined(items.drop_last()) + seq![','] + items.last()
    }
}

/// The JSON array whose elements have the texts `items`.
pub open spec fn array_text(items: Seq<Seq<char>>) -> Seq<char> {
    seq!['['] + comma_joined(items) + seq![']']
}

/// One member `"key":value` of a JSON object.
pub open spec fn member_text(member: (Seq<char>, Seq<char>)) -> Seq<char> {
    quoted(member.0) + seq![':'] + member.1
}

/// The JSON object with the members `members` (key, value text), in that order.
pub open spec fn object_text(members: Seq<(Seq<char>, Seq<char>)>) -> Seq<char> {
    seq!['{'] + comma_joined(members.map_values(|m: (Seq<char>, Seq<char>)| member_text(m))) + seq!['}']
}

/// `a` sorts strictly before `b` in the order of Rust strings: at the first
/// position where they differ, `a` has the smaller character, or `a` ends
/// there and `b` goes on.
pub open spec fn sorts_before(a: Seq<char>, b: Seq<char>) -> bool {
    exists|k: int|
        #![trigger a.take(k), b.take(k)]
        0 <= k <= a.len() && k <= b.len() && a.take(k) == b.take(k) && ((k == a.len() && k < b.len())
            || (k < a.len() && k < b.len() && a[k] < b[k]))
}

/// The keys of `members` sort in strictly ascending order, as those of a map do.
pub open spec fn keys_ascending(members: Seq<(Seq<char>, Seq<char>)>) -> bool {
    forall|i: int, j: int|
        0 <= i < j < members.len() ==> sorts_before(#[trigger] members[i].0, #[trigger] members[j].0)
}

/// Two strings whose first characters differ sort as those characters do.
pub proof fn lemma_sorts_by_first_char(a: Seq<char>, b: Seq<char>)
    requires
        a.len() > 0,
        b.len() > 0,
        a[0] < b[0],
    ensures
        sorts_before(a, b),
{
    assert(a.take(0) =~= b.take(0));
}

/// The JSON `null`.
pub open spec fn null_text() -> Seq<char> {
    seq!['n', 'u', 'l', 'l']
}

/// An optional string: its literal when it is there, `null` when it is not.
pub open spec fn optional_text(value: Option<Seq<char>>) -> Seq<char> {
    match value {
        Some(s) => quoted(s),
        None => null_text(),
    }
}

/// The views of a vector of strings.
pub open spec fn texts(items: Seq<String>) -> Seq<Seq<char>> {
    items.map_values(|s: String| s@)
}

/// Appending one more item to a comma-separated list.
pub proof fn lemma_comma_joined_push(items: Seq<Seq<char>>, item: Seq<char>)
    ensures
        comma_joined(items.push(item)) == if items.len() == 0 {
            item
        } else {
            comma_joined(items) + seq![','] + item
        },
{
    assert(items.push(item).drop_last() =~= items);
}

/// The shape of an array's text: no elements give `[]`; one element stands
/// alone between the brackets; one more element after others goes just
/// before the closing bracket, after a comma.
pub proof fn lemma_array_text_shape(items: Seq<Seq<char>>, item: Seq<char>)
    ensures
        array_text(Seq::empty()) == seq!['[', ']'],
        array_text(seq![item]) == seq!['['] + item + seq![']'],
        items.len() > 0 ==> array_text(items.push(item)) == array_text(items).drop_last() + seq![',']
            + item + seq![']'],
{
    assert(array_text(Seq::empty()) =~= seq!['[', ']']);
    assert(seq![item] =~= Seq::<Seq<char>>::empty().push(item));
    lemma_comma_joined_push(Seq::empty(), item);
    assert(array_text(seq![item]) =~= seq!['['] + item + seq![']']);
    if items.len() > 0 {
        lemma_comma_joined_push(items, item);
        assert((seq!['['] + comma_joined(items) + seq![']']).drop_last() =~= seq!['[']
            + comma_joined(items));
        assert(array_text(items.push(item)) =~= array_text(items).drop_last() + seq![','] + item
            + seq![']']);
    }
}

/// The text of an array of two elements.
pub proof fn lemma_array_text_pair(a: Seq<char>, b: Seq<char>)
    ensures
        array_text(seq![a, b]) == seq!['['] + a + seq![','] + b + seq![']'],
{
    lemma_array_text_shape(seq![a], b);
    assert(seq![a].push(b) =~= seq![a, b]);
    assert((seq!['['] + a + seq![']']).drop_last() =~= seq!['['] + a);
    assert(array_text(seq![a, b]) =~= seq!['['] + a + seq![','] + b + seq![']']);
}

/// The shape of an object's text: no members give `{}`; a member is its key's
/// string literal, a colon and its value; one member stands alone between the
/// braces; one more member after others goes just before the closing brace,
/// after a comma.
pub proof fn lemma_object_text_shape(
    members: Seq<(Seq<char>, Seq<char>)>,
    key: Seq<char>,
    value: Seq<char>,
)
    ensures
        object_text(Seq::empty()) == seq!['{', '}'],
        object_text(seq![(key, value)]) == seq!['{'] + quoted(key) + seq![':'] + value + seq!['}'],
        members.len() > 0 ==> object_text(members.push((key, value))) == object_text(
            members,
        ).drop_last() + seq![','] + quoted(key) + seq![':'] + value + seq!['}'],
{
    let f = |m: (Seq<char>, Seq<char>)| member_text(m);
    let texts_of = members.map_values(f);
    let one = quoted(key) + seq![':'] + value;
    assert(Seq::<(Seq<char>, Seq<char>)>::empty().map_values(f) =~= Seq::<Seq<char>>::empty());
    assert(object_text(Seq::empty()) =~= seq!['{', '}']);
    assert(seq![(key, value)].map_values(f) =~= Seq::<Seq<char>>::empty().push(one));
    lemma_comma_joined_push(Seq::empty(), one);
    assert(object_text(seq![(key, value)]) =~= seq!['{'] + one + seq!['}']);
    if members.len() > 0 {
        assert(members.push((key, value)).map_values(f) =~= texts_of.push(one));
        lemma_comma_joined_push(texts_of, one);
        assert((seq!['{'] + comma_joined(texts_of) + seq!['}']).drop_last() =~= seq!['{']
            + comma_joined(texts_of));
        assert(object_text(members.push((key, value))) =~= object_text(members).drop_last() + seq![
            ',',
        ] + one + seq!['}']);
    }
}

/// An optional string is sent as its whole string literal when it is set, and
/// as `null` only when it is not.
pub proof fn lemma_optional_text(value: Option<Seq<char>>)
    ensures
        value matches Some(s) ==> optional_text(value) == quoted(s),
        value is None ==> optional_text(value) == seq!['n', 'u', 'l', 'l'],
{
}

/// Writes `items` into `text`, separated by commas.
fn append_comma_joined(text: &mut String, items: &Vec<String>)
    ensures
        final(text)@ == old(text)@ + comma_joined(texts(items@)),
{
    let ghost start = text@;
    let ghost views = texts(items@);
    let mut i: usize = 0;
    proof {
        reveal_strlit(",");
        assert(views.take(0) =~= Seq::<Seq<char>>::empty());
    }
    while i < items.len()
        invariant
            i <= items.len(),
            views == texts(items@),
            text@ == start + comma_joined(views.take(i as int)),
        decreases items.len() - i,
    {
        proof {
            reveal_strlit(",");
            assert(views.take(i + 1) =~= views.take(i as int).push(views[i as int]));
            lemma_comma_joined_push(views.take(i as int), views[i as int]);
        }
        if i > 0 {
            text.append(",");
        }
        text.append(items[i].as_str());
        i = i + 1;
    }
    assert(views.take(items.len() as int) =~= views);
}

/// The JSON array whose elements are the JSON texts in `items`.
pub fn encode_array(items: &Vec<String>) -> (text: String)
    ensures
        text@ == array_text(texts(items@)),
{
    let mut text = String::new();
    text.append("[");
    append_comma_joined(&mut text, items);
    text.append("]");
    proof {
        reveal_strlit("[");
        reveal_strlit("]");
    }
    text
}

/// The JSON array of the string literals of `items`.
pub fn encode_string_list(items: &Vec<String>) -> (text: String)
    ensures
        text@ == array_text(texts(items@).map_values(|s: Seq<char>| quoted(s))),
{
    let mut literals: Vec<String> = Vec::new();
    let mut i: usize = 0;
    while i < items.len()
        invariant
            i <= items.len(),
            literals@.len() == i,
            forall|j: int| 0 <= j < i ==> #[trigger] literals@[j]@ == quoted(items@[j]@),
        decreases items.len() - i,
    {
        literals.push(encode_string(items[i].as_str()));
        i = i + 1;
    }
    assert(texts(literals@) =~= texts(items@).map_values(|s: Seq<char>| quoted(s)));
    encode_array(&literals)
}

/// An optional string as JSON: its literal, or `null`.
pub fn encode_optional_string(value: &Option<String>) -> (text: String)
    ensures
        text@ == optional_text(match value {
            Some(s) => Some(s@),
            None => None,
        }),
{
    match value {
        Some(s) => encode_string(s.as_str()),
        None => {
            proof {
                reveal_strlit("null");
            }
            String::from_str("null")
        },
    }
}

/// The JSON object with the given members (key, value text), in the given order.
pub fn encode_object(members: &Vec<(String, String)>) -> (text: String)
    ensures
        text@ == object_text(members@.map_values(|m: (String, String)| (m.0@, m.1@))),
{
    let mut written: Vec<String> = Vec::new();
    let mut i: usize = 0;
    proof {
        reveal_strlit(":");
    }
    while i < members.len()
        invariant
            i <= members.len(),
            written@.len() == i,
            forall|j: int|
                0 <= j < i ==> #[trigger] written@[j]@ == member_text(
                    (members@[j].0@, members@[j].1@),
                ),
        decreases members.len() - i,
    {
        proof {
            reveal_strlit(":");
        }
        let mut member = encode_string(members[i].0.as_str());
        member.append(":");
        member.append(members[i].1.as_str());
        written.push(member);
        i = i + 1;
    }
    let mut text = String::new();
    text.append("{");
    append_comma_joined(&mut text, &written);
    text.append("}");
    proof {
        reveal_strlit("{");
        reveal_strlit("}");
        assert(texts(written@) =~= members@.map_values(|m: (String, String)| (m.0@, m.1@)).map_values(
            |m: (Seq<char>, Seq<char>)| member_text(m),
        ));
    }
    text
}

} // verus!

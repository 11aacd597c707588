//! JSON texts and what the server reads of them.

use vstd::prelude::*;

verus! {

/// A member's value, as far as a message can depend on it.
#[derive(Debug)]
pub enum Json {
    Null,
    Bool(bool),
    /// The value of a number that is written as an unsigned integer of 64 bits, `None`
    /// for any other number.
    Number(Option<u64>),
    Text(String),
    Array,
    Object,
}

/// What a [`Json`] stands for.
pub enum JsonView {
    Null,
    Bool(bool),
    Number(Option<u64>),
    Text(Seq<char>),
    Array,
    Object,
}

impl View for Json {
    type V = JsonView;

    open spec fn view(&self) -> JsonView {
        match self {
            Json::Null => JsonView::Null,
            Json::Bool(b) => JsonView::Bool(*b),
            Json::Number(n) => JsonView::Number(*n),
            Json::Text(s) => JsonView::Text(s@),
            Json::Array => JsonView::Array,
            Json::Object => JsonView::Object,
        }
    }
}

/// The members of an object, by name.
pub type Members = Vec<(String, Json)>;

/// What a text holds: the members of an object, `None` for any other value, or
/// the message of the parser where it is no JSON.
pub type Parsed = Result<Option<Members>, String>;

pub open spec fn members_view(members: Seq<(String, Json)>) -> Seq<(Seq<char>, JsonView)> {
    members.map_values(|member: (String, Json)| (member.0@, member.1@))
}

pub open spec fn parsed_view(parsed: Parsed) -> Result<
    Option<Seq<(Seq<char>, JsonView)>>,
    Seq<char>,
> {
    match parsed {
        Ok(Some(members)) => Ok(Some(members_view(members@))),
        Ok(None) => Ok(None),
        Err(message) => Err(message@),
    }
}

/// The value of the first member called `name`.
pub open spec fn lookup(members: Seq<(Seq<char>, JsonView)>, name: Seq<char>) -> Option<JsonView>
    decreases members.len(),
{
    if members.len() == 0 {
        None
    } else if members[0].0 == name {
        Some(members[0].1)
    } else {
        lookup(members.drop_first(), name)
    }
}

/// The decimal digits of `n`.
pub open spec fn decimal(n: nat) -> Seq<char>
    decreases n,
{
    let digit = "0123456789"@.subrange((n % 10) as int, (n % 10) as int + 1);
    if n < 10 {
        digit
    } else {
        decimal(n / 10) + digit
    }
}

/// How a character stands in a JSON string: the quote, the backslash and the
/// control characters escaped, with a short escape where JSON has one, and every
/// other character as it is.
pub open spec fn escaped(c: char) -> Seq<char> {
    if c == '"' {
        seq!['\\', '"']
    } else if c == '\\' {
        seq!['\\', '\\']
    } else if c == '\u{8}' {
        seq!['\\', 'b']
    } else if c == '\t' {
        seq!['\\', 't']
    } else if c == '\n' {
        seq!['\\', 'n']
    } else if c == '\u{c}' {
        seq!['\\', 'f']
    } else if c == '\r' {
        seq!['\\', 'r']
    } else if (c as int) < 0x20 {
        let digits = "0123456789abcdef"@;
        seq!['\\', 'u', '0', '0', digits[c as int / 16], digits[c as int % 16]]
    } else {
        seq![c]
    }
}

/// `text` as a JSON string, quotes included.
pub open spec fn json_string(text: Seq<char>) -> Seq<char> {
    seq!['"'] + text.map_values(|c: char| escaped(c)).flatten() + seq!['"']
}

/// Whether `value` can be written out.
pub open spec fn writable(value: JsonView) -> bool {
    match value {
        JsonView::Null => true,
        JsonView::Bool(_) => true,
        JsonView::Number(n) => n is Some,
        JsonView::Text(_) => true,
        JsonView::Array => false,
        JsonView::Object => false,
    }
}

pub open spec fn all_writable(members: Seq<(Seq<char>, JsonView)>) -> bool {
    forall|i: int| 0 <= i < members.len() ==> writable((#[trigger] members[i]).1)
}

/// No name occurs twice.
pub open spec fn distinct_names(members: Seq<(Seq<char>, JsonView)>) -> bool {
    forall|i: int, j: int|
        0 <= i < j < members.len() ==> (#[trigger] members[i]).0 != (#[trigger] members[j]).0
}

pub open spec fn value_text(value: JsonView) -> Seq<char> {
    match value {
        JsonView::Null => "null"@,
        JsonView::Bool(b) => if b { "true"@ } else { "false"@ },
        JsonView::Number(Some(n)) => decimal(n as nat),
        JsonView::Text(s) => json_string(s),
        _ => Seq::empty(),
    }
}

pub open spec fn member_text(member: (Seq<char>, JsonView)) -> Seq<char> {
    json_string(member.0) + ":"@ + value_text(member.1)
}

pub open spec fn members_text(members: Seq<(Seq<char>, JsonView)>) -> Seq<char>
    decreases members.len(),
{
    if members.len() == 0 {
        Seq::empty()
    } else if members.len() == 1 {
        member_text(members[0])
    } else {
        members_text(members.drop_last()) + ","@ + member_text(members.last())
    }
}

/// An object in its compact form, its members in the given order.
pub open spec fn object_text(members: Seq<(Seq<char>, JsonView)>) -> Seq<char> {
    "{"@ + members_text(members) + "}"@
}

/// What `serde_json::from_str` makes of `text`, as far as [`Parsed`] holds it.
pub uninterp spec fn parsed_json(text: Seq<char>) -> Result<
    Option<Seq<(Seq<char>, JsonView)>>,
    Seq<char>,
>;

/// Whether `parsed` holds an object with exactly these members.
pub open spec fn holds_members(
    parsed: Result<Option<Seq<(Seq<char>, JsonView)>>, Seq<char>>,
    members: Seq<(Seq<char>, JsonView)>,
) -> bool {
    match parsed {
        Ok(Some(found)) => forall|name: Seq<char>| #[trigger]
            lookup(found, name) == lookup(members, name),
        _ => false,
    }
}

/// `serde_json::from_str` into a `serde_json::Value`.
///
/// The outcome is a function of the text alone. An object that was written in the
/// compact form, with no name twice, is read back with the same members.
#[verifier::external_body]
pub(crate) fn parse_json(text: &str) -> (parsed: Parsed)
    ensures
        parsed_view(parsed) == parsed_json(text@),
        forall|members: Seq<(Seq<char>, JsonView)>|
            text@ == #[trigger] object_text(members) && all_writable(members) && distinct_names(
                members,
            ) ==> holds_members(parsed_view(parsed), members),
{
    let value = serde_json::from_str::<serde_json::Value>(text).map_err(|e| e.to_string())?;
    Ok(value.as_object().map(|map| map.iter().map(|(name, member)| (name.clone(), match member {
        serde_json::Value::Null => Json::Null,
        serde_json::Value::Bool(b) => Json::Bool(*b),
        serde_json::Value::Number(n) => Json::Number(n.as_u64()),
        serde_json::Value::String(s) => Json::Text(s.clone()),
        serde_json::Value::Array(_) => Json::Array,
        serde_json::Value::Object(_) => Json::Object,
    })).collect()))
}

/// `serde_json::to_string` of a string, which does not fail: the text in quotes,
/// with JSON's escapes.
#[verifier::external_body]
pub(crate) fn quote_json(text: &str) -> (quoted: String)
    ensures
        quoted@ == json_string(text@),
{
    serde_json::to_string(text).unwrap()
}

/// Whether `text` is `literal`.
pub(crate) fn is_text(text: &String, literal: &str) -> (same: bool)
    ensures
        same == (text@ == literal@),
{
    *text == literal.to_string()
}

/// Finds the first member called `name`.
pub fn find_member<'a>(members: &'a Members, name: &str) -> (value: Option<&'a Json>)
    ensures
        match value {
            Some(value) => lookup(members_view(members@), name@) == Some(value@),
            None => lookup(members_view(members@), name@) is None,
        },
{
    let ghost all = members_view(members@);
    let mut i: usize = 0;
    assert(all.skip(0) =~= all);
    while i < members.len()
        invariant
            i <= members@.len(),
            all == members_view(members@),
            lookup(all, name@) == lookup(all.skip(i as int), name@),
        decreases members@.len() - i,
    {
        assert(all.skip(i as int)[0] == (members@[i as int].0@, members@[i as int].1@));
        if is_text(&members[i].0, name) {
            return Some(&members[i].1);
        }
        assert(all.skip(i as int).drop_first() =~= all.skip(i + 1));
        i = i + 1;
    }
    None
}

/// Writes `n` in decimal.
fn write_decimal(n: u64) -> (digits: String)
    ensures
        digits@ == decimal(n as nat),
    decreases n,
{
    proof {
        reveal_strlit("0123456789");
    }
    let last: usize = (n % 10) as usize;
    let digit = "0123456789".substring_char(last, last + 1);
    if n < 10 {
        digit.to_string()
    } else {
        write_decimal(n / 10).concat(digit)
    }
}

fn write_value(value: &Json) -> (text: String)
    requires
        writable(value@),
    ensures
        text@ == value_text(value@),
{
    match value {
        Json::Null => "null".to_string(),
        Json::Bool(b) => if *b {
            "true".to_string()
        } else {
            "false".to_string()
        },
        Json::Number(Some(n)) => write_decimal(*n),
        Json::Text(s) => quote_json(s.as_str()),
        _ => String::new(),
    }
}

/// Writes an object with the given members.
pub(crate) fn write_object(members: &Members) -> (text: String)
    requires
        all_writable(members_view(members@)),
    ensures
        text@ == object_text(members_view(members@)),
{
    let ghost all = members_view(members@);
    let mut text = "{".to_string();
    let mut i: usize = 0;
    while i < members.len()
        invariant
            i <= members@.len(),
            all == members_view(members@),
            all_writable(all),
            text@ == "{"@ + members_text(all.take(i as int)),
        decreases members@.len() - i,
    {
        assert(all[i as int] == (members@[i as int].0@, members@[i as int].1@));
        proof {
            assert(all.take(i + 1).drop_last() =~= all.take(i as int));
            assert(all.take(i + 1).last() == all[i as int]);
        }
        if i > 0 {
            text.append(",");
        }
        text.append(quote_json(members[i].0.as_str()).as_str());
        text.append(":");
        text.append(write_value(&members[i].1).as_str());
        assert(text@ =~= "{"@ + members_text(all.take(i + 1)));
        i = i + 1;
    }
    assert(all.take(i as int) =~= all);
    text.append("}");
    text
}

/// What a text holds stands as it is in the view: the members in their order, with
/// their names and values.
pub proof fn law_members_are_seen(members: Members)
    ensures
        parsed_view(Ok(None)) == Ok::<Option<Seq<(Seq<char>, JsonView)>>, Seq<char>>(None),
        forall|message: String|
            #![trigger parsed_view(Err(message))]
            parsed_view(Err(message)) == Err::<Option<Seq<(Seq<char>, JsonView)>>, Seq<char>>(
                message@,
            ),
        parsed_view(Ok(Some(members))) matches Ok(Some(found)) && {
            &&& found.len() == members@.len()
            &&& forall|i: int|
                0 <= i < found.len() ==> (#[trigger] found[i]).0 == members@[i].0@ && match (
                    members@[i].1,
                    found[i].1,
                ) {
                    (Json::Null, JsonView::Null) => true,
                    (Json::Bool(a), JsonView::Bool(b)) => a == b,
                    (Json::Number(a), JsonView::Number(b)) => a == b,
                    (Json::Text(a), JsonView::Text(b)) => a@ == b,
                    (Json::Array, JsonView::Array) => true,
                    (Json::Object, JsonView::Object) => true,
                    _ => false,
                }
        },
{
}

/// What is found under a name is the first member of that name, and nothing is found
/// only where no member has the name.
pub proof fn law_lookup_finds_first(members: Seq<(Seq<char>, JsonView)>, name: Seq<char>)
    ensures
        match lookup(members, name) {
            Some(value) => exists|i: int|
                0 <= i < members.len() && #[trigger] members[i] == (name, value) && forall|j: int|
                    0 <= j < i ==> (#[trigger] members[j]).0 != name,
            None => forall|i: int| 0 <= i < members.len() ==> (#[trigger] members[i]).0 != name,
        },
    decreases members.len(),
{
    if members.len() > 0 && members[0].0 != name {
        let rest = members.drop_first();
        law_lookup_finds_first(rest, name);
        match lookup(rest, name) {
            Some(value) => {
                let i = choose|i: int|
                    0 <= i < rest.len() && #[trigger] rest[i] == (name, value) && forall|j: int|
                        0 <= j < i ==> (#[trigger] rest[j]).0 != name;
                assert(members[i + 1] == (name, value));
                assert forall|j: int| 0 <= j < i + 1 implies (#[trigger] members[j]).0 != name by {
                    if j > 0 {
                        assert(rest[j - 1] == members[j]);
                    }
                }
            },
            None => {
                assert forall|i: int| 0 <= i < members.len() implies (#[trigger] members[i]).0
                    != name by {
                    if i > 0 {
                        assert(rest[i - 1] == members[i]);
                    }
                }
            },
        }
    } else if members.len() > 0 {
        assert(members[0] == (name, members[0].1));
    }
}

/// The number that a text of digits stands for.
pub open spec fn number_of(digits: Seq<char>) -> int
    decreases digits.len(),
{
    if digits.len() == 0 {
        0
    } else {
        number_of(digits.drop_last()) * 10 + (digits.last() as int - '0' as int)
    }
}

/// A number is written in digits alone, without a leading zero, and the digits stand
/// for it.
pub proof fn law_decimal_stands_for_number(n: nat)
    ensures
        number_of(decimal(n)) == n,
        decimal(n).len() > 0,
        decimal(n)[0] == '0' ==> n == 0,
        n == 0 ==> decimal(n).len() == 1,
        forall|i: int| 0 <= i < decimal(n).len() ==> '0' <= #[trigger] decimal(n)[i] <= '9',
    decreases n,
{
    reveal_strlit("0123456789");
    let d = (n % 10) as int;
    let digit = "0123456789"@.subrange(d, d + 1);
    assert(digit.len() == 1 && digit[0] as int == '0' as int + d);
    if n >= 10 {
        law_decimal_stands_for_number(n / 10);
        assert(decimal(n).drop_last() =~= decimal(n / 10));
        assert(decimal(n).last() == digit[0]);
    } else {
        assert(decimal(n) == digit);
        assert(decimal(n).drop_last() =~= Seq::<char>::empty());
        assert(number_of(decimal(n).drop_last()) == 0);
    }
}

/// A JSON string grows with its text, character by character: nothing of the text is
/// left out, and each character stands as it is, or is escaped as JSON wants it.
pub proof fn law_json_string_grows(text: Seq<char>, c: char)
    ensures
        json_string(Seq::empty()) == seq!['"', '"'],
        ({
            let before = json_string(text).drop_last();
            let after = json_string(text.push(c));
            &&& c == '"' ==> after == before + seq!['\\', '"', '"']
            &&& c == '\\' ==> after == before + seq!['\\', '\\', '"']
            &&& c == '\n' ==> after == before + seq!['\\', 'n', '"']
            &&& c == '\r' ==> after == before + seq!['\\', 'r', '"']
            &&& c == '\t' ==> after == before + seq!['\\', 't', '"']
            &&& c == '\u{8}' ==> after == before + seq!['\\', 'b', '"']
            &&& c == '\u{c}' ==> after == before + seq!['\\', 'f', '"']
            &&& c as int >= 0x20 && c != '"' && c != '\\' ==> after == before + seq![c, '"']
            &&& (c as int) < 0x20 && c != '\n' && c != '\r' && c != '\t' && c != '\u{8}' && c != '\u{c}'
                ==> exists|low: char|
                #![trigger is_low_digit(low, c as int % 16)]
                is_low_digit(low, c as int % 16) && after == before + seq![
                    '\\',
                    'u',
                    '0',
                    '0',
                    if (c as int) < 0x10 {
                        '0'
                    } else {
                        '1'
                    },
                    low,
                    '"',
                ]
        }),
{
    let inner = text.map_values(|x: char| escaped(x));
    assert(text.push(c).map_values(|x: char| escaped(x)) =~= inner.push(escaped(c)));
    inner.lemma_flatten_push(escaped(c));
    assert(json_string(text).drop_last() =~= seq!['"'] + inner.flatten());
    let before = json_string(text).drop_last();
    let after = json_string(text.push(c));
    assert(after =~= before + escaped(c) + seq!['"']);
    reveal_strlit("0123456789abcdef");
    if (c as int) < 0x20 {
        let low = "0123456789abcdef"@[c as int % 16];
        assert(is_low_digit(low, c as int % 16));
    }
    assert(json_string(Seq::empty()) =~= seq!['"', '"']) by {
        assert(Seq::<char>::empty().map_values(|x: char| escaped(x)) =~= Seq::<
            Seq<char>,
        >::empty());
    }
}

/// Whether `digit` is the hexadecimal digit for `n`.
pub open spec fn is_low_digit(digit: char, n: int) -> bool {
    if n < 10 {
        digit as int == '0' as int + n
    } else {
        digit as int == 'a' as int + n - 10
    }
}

/// A text without anything to escape stands in quotes as it is.
pub proof fn law_plain_text_is_kept(text: Seq<char>)
    requires
        forall|i: int|
            0 <= i < text.len() ==> (#[trigger] text[i]) >= ' ' && text[i] != '"' && text[i]
                != '\\',
    ensures
        json_string(text) == seq!['"'] + text + seq!['"'],
    decreases text.len(),
{
    if text.len() > 0 {
        let front = text.drop_last();
        law_plain_text_is_kept(front);
        law_json_string_grows(front, text.last());
        assert(front.push(text.last()) =~= text);
        assert(text[text.len() - 1] == text.last());
        assert(json_string(text) =~= seq!['"'] + text + seq!['"']);
    } else {
        law_json_string_grows(text, ' ');
        assert(text =~= Seq::empty());
        assert(json_string(text) =~= seq!['"'] + text + seq!['"']);
    }
}

} // verus!

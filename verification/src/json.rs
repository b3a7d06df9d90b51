//! JSON values as the library reads and writes them.
use crate::ratio::{Ratio, NEGATIVE_ZERO_BITS};
use crate::text;
use vstd::prelude::*;

verus! {

/// A JSON value. Numbers that are not 64-bit integers carry their bits as a
/// double together with their text; arrays and objects are held as compact text.
#[derive(Debug, PartialEq, Eq)]
pub enum Json {
    Null,
    Bool(bool),
    Unsigned(u64),
    /// An integer below zero.
    Negative(i64),
    Real { bits: u64, text: String },
    Text(String),
    Compound(String),
}

/// The mathematical value of a [`Json`].
pub enum JsonView {
    Null,
    Bool(bool),
    Unsigned(u64),
    Negative(i64),
    Real { bits: u64, text: Seq<char> },
    Text(Seq<char>),
    Compound(Seq<char>),
}

impl DeepView for Json {
    type V = JsonView;

    open spec fn deep_view(&self) -> JsonView {
        match self {
            Json::Null => JsonView::Null,
            Json::Bool(b) => JsonView::Bool(*b),
            Json::Unsigned(n) => JsonView::Unsigned(*n),
            Json::Negative(n) => JsonView::Negative(*n),
            Json::Real { bits, text } => JsonView::Real { bits: *bits, text: text@ },
            Json::Text(s) => JsonView::Text(s@),
            Json::Compound(s) => JsonView::Compound(s@),
        }
    }
}

impl Clone for Json {
    fn clone(&self) -> (r: Self)
        ensures
            r.deep_view() == self.deep_view(),
    {
        match self {
            Json::Null => Json::Null,
            Json::Bool(b) => Json::Bool(*b),
            Json::Unsigned(n) => Json::Unsigned(*n),
            Json::Negative(n) => Json::Negative(*n),
            Json::Real { bits, text } => Json::Real { bits: *bits, text: text.clone() },
            Json::Text(s) => Json::Text(s.clone()),
            Json::Compound(s) => Json::Compound(s.clone()),
        }
    }
}

/// What stands for `c` inside a JSON string.
pub open spec fn escaped_char(c: char) -> Seq<char> {
    if c == '"' {
        seq!['\\', '"']
    } else if c == '\\' {
        seq!['\\', '\\']
    } else if c as int == 8 {
        seq!['\\', 'b']
    } else if c as int == 9 {
        seq!['\\', 't']
    } else if c as int == 10 {
        seq!['\\', 'n']
    } else if c as int == 12 {
        seq!['\\', 'f']
    } else if c as int == 13 {
        seq!['\\', 'r']
    } else if (c as int) < 0x20 {
        seq![
            '\\',
            'u',
            '0',
            '0',
            text::hex_digit((c as int / 16) as nat),
            text::hex_digit((c as int % 16) as nat),
        ]
    } else {
        seq![c]
    }
}

/// The inside of the JSON string that denotes `s`.
pub open spec fn escaped(s: Seq<char>) -> Seq<char>
    decreases s.len(),
{
    if s.len() == 0 {
        seq![]
    } else {
        escaped(s.drop_last()) + escaped_char(s.last())
    }
}

/// The JSON string that denotes `s`.
pub open spec fn quoted(s: Seq<char>) -> Seq<char> {
    seq!['"'] + escaped(s) + seq!['"']
}

/// The compact JSON text of a value.
pub open spec fn json_text(v: JsonView) -> Seq<char> {
    match v {
        JsonView::Null => "null"@,
        JsonView::Bool(b) => if b {
            "true"@
        } else {
            "false"@
        },
        JsonView::Unsigned(n) => text::decimal(n as nat),
        JsonView::Negative(n) => text::signed_decimal(n as int),
        JsonView::Real { bits, text } => text,
        JsonView::Text(s) => quoted(s),
        JsonView::Compound(s) => s,
    }
}

fn push_escaped(out: &mut String, c: char)
    ensures
        final(out)@ == old(out)@ + escaped_char(c),
{
    let n: u32 = c as u32;
    if c == '"' {
        out.push('\\');
        out.push('"');
    } else if c == '\\' {
        out.push('\\');
        out.push('\\');
    } else if n == 8 {
        out.push('\\');
        out.push('b');
    } else if n == 9 {
        out.push('\\');
        out.push('t');
    } else if n == 10 {
        out.push('\\');
        out.push('n');
    } else if n == 12 {
        out.push('\\');
        out.push('f');
    } else if n == 13 {
        out.push('\\');
        out.push('r');
    } else if n < 0x20 {
        out.push('\\');
        out.push('u');
        out.push('0');
        out.push('0');
        out.push(text::hex_char((n / 16) as u8));
        out.push(text::hex_char((n % 16) as u8));
    } else {
        out.push(c);
    }
    assert(out@ =~= old(out)@ + escaped_char(c));
}

/// The JSON string that denotes `s`.
pub fn quote(s: &str) -> (r: String)
    ensures
        r@ == quoted(s@),
{
    let chars = text::chars_of(s);
    let mut out = String::new();
    out.push('"');
    let mut i: usize = 0;
    while i < chars.len()
        invariant
            i <= chars.len(),
            out@ == seq!['"'] + escaped(chars@.take(i as int)),
        decreases chars.len() - i,
    {
        assert(chars@.take(i + 1).drop_last() =~= chars@.take(i as int));
        push_escaped(&mut out, chars[i]);
        assert(out@ =~= seq!['"'] + escaped(chars@.take(i + 1)));
        i += 1;
    }
    assert(chars@.take(i as int) =~= chars@);
    out.push('"');
    assert(out@ =~= quoted(s@));
    out
}

/// The JSON text of the double nearest to an integer.
pub uninterp spec fn double_text_of(n: u64) -> Seq<char>;

/// `serde_json::Number::from_f64` on the double that `serde_json::Number::as_f64`
/// gives for `n`: the JSON text of that double.
#[verifier::external_body]
fn double_text(n: u64) -> (r: String)
    ensures
        r@ == double_text_of(n),
{
    let double = serde_json::Number::from(n).as_f64().and_then(serde_json::Number::from_f64);
    double.map(|number| number.to_string()).unwrap_or_default()
}

/// The number as a double; anything else as it is.
pub open spec fn as_double(v: JsonView) -> JsonView {
    match v {
        JsonView::Unsigned(n) => JsonView::Real {
            bits: crate::ratio::ratio_bits(n as nat, 1) as u64,
            text: double_text_of(n),
        },
        other => other,
    }
}

impl Json {
    /// The number as a double; anything else as it is.
    pub fn to_double_value(&self) -> (r: Json)
        ensures
            r.deep_view() == as_double(self.deep_view()),
    {
        match self {
            Json::Unsigned(n) => Json::Real { bits: Ratio::of(*n, 1).bits, text: double_text(*n) },
            other => other.clone(),
        }
    }

    /// The compact JSON text of the value.
    pub fn to_text(&self) -> (r: String)
        ensures
            r@ == json_text(self.deep_view()),
    {
        match self {
            Json::Null => "null".to_owned(),
            Json::Bool(b) => if *b {
                "true".to_owned()
            } else {
                "false".to_owned()
            },
            Json::Unsigned(n) => text::u64_text(*n),
            Json::Negative(n) => text::i64_text(*n),
            Json::Real { bits: _, text } => text.clone(),
            Json::Text(s) => quote(s.as_str()),
            Json::Compound(s) => s.clone(),
        }
    }

    /// The characters of a JSON string.
    pub fn as_str(&self) -> (r: Option<&str>)
        ensures
            r.deep_view() == as_text(self.deep_view()),
    {
        match self {
            Json::Text(s) => Some(s.as_str()),
            _ => None,
        }
    }

    /// The value of an integer from 0 to 2^64 - 1.
    pub fn as_u64(&self) -> (r: Option<u64>)
        ensures
            r == as_unsigned(self.deep_view()),
    {
        match self {
            Json::Unsigned(n) => Some(*n),
            _ => None,
        }
    }
}

/// Whether compact JSON text begins with the zero below zero.
pub open spec fn negative_zero(s: Seq<char>) -> bool {
    s.len() >= 4 && s[0] == '-' && s[1] == '0' && s[2] == '.' && s[3] == '0' && (s.len() == 4 || !(
    '0' <= s[4] <= '9'))
}

/// Compact JSON text without the signs of its zeros; what stands in strings, and
/// where `within` is set the text begins in one, stays as it is.
pub open spec fn without_zero_signs(s: Seq<char>, within: bool) -> Seq<char>
    decreases s.len(),
{
    if s.len() == 0 {
        seq![]
    } else if within && s[0] == '\\' && s.len() >= 2 {
        s.take(2) + without_zero_signs(s.skip(2), true)
    } else if s[0] == '"' {
        s.take(1) + without_zero_signs(s.skip(1), !within)
    } else if !within && negative_zero(s) {
        without_zero_signs(s.skip(1), false)
    } else {
        s.take(1) + without_zero_signs(s.skip(1), within)
    }
}

/// Whether two compact JSON texts denote the same value: zero is the same with a
/// sign and without.
pub open spec fn same_document(a: Seq<char>, b: Seq<char>) -> bool {
    without_zero_signs(a, false) == without_zero_signs(b, false)
}

/// Whether two values are the same. Doubles are the same if they are equal as
/// numbers, so that the sign of zero does not count.
pub open spec fn same_value(a: JsonView, b: JsonView) -> bool {
    match (a, b) {
        (JsonView::Real { bits: x, text: _ }, JsonView::Real { bits: y, text: _ }) => x == y || ((x
            == 0 || x == NEGATIVE_ZERO_BITS) && (y == 0 || y == NEGATIVE_ZERO_BITS)),
        (JsonView::Compound(x), JsonView::Compound(y)) => same_document(x, y),
        _ => a == b,
    }
}

fn is_negative_zero_at(chars: &Vec<char>, i: usize) -> (r: bool)
    requires
        i < chars.len(),
    ensures
        r == negative_zero(chars@.skip(i as int)),
{
    let left: usize = chars.len() - i;
    left >= 4 && chars[i] == '-' && chars[i + 1] == '0' && chars[i + 2] == '.' && chars[i + 3]
        == '0' && (left == 4 || !('0' <= chars[i + 4] && chars[i + 4] <= '9'))
}

fn drop_zero_signs(s: &str) -> (r: String)
    ensures
        r@ == without_zero_signs(s@, false),
{
    let chars = text::chars_of(s);
    let mut out = String::new();
    let mut within = false;
    let mut i: usize = 0;
    assert(chars@.skip(0) =~= chars@);
    assert(out@ + without_zero_signs(chars@, false) =~= without_zero_signs(chars@, false));
    while i < chars.len()
        invariant
            i <= chars.len(),
            out@ + without_zero_signs(chars@.skip(i as int), within) == without_zero_signs(
                chars@,
                false,
            ),
        decreases chars.len() - i,
    {
        let ghost rest = chars@.skip(i as int);
        let ghost before = out@;
        assert(rest[0] == chars[i as int]);
        assert(rest.skip(1) =~= chars@.skip(i + 1));
        if within && chars[i] == '\\' && chars.len() - i >= 2 {
            out.push(chars[i]);
            out.push(chars[i + 1]);
            assert(rest.skip(2) =~= chars@.skip(i + 2));
            assert(out@ =~= before + rest.take(2));
            assert(out@ + without_zero_signs(rest.skip(2), true) =~= before + (rest.take(2)
                + without_zero_signs(rest.skip(2), true)));
            i += 2;
        } else if chars[i] == '"' {
            out.push(chars[i]);
            assert(out@ =~= before + rest.take(1));
            assert(out@ + without_zero_signs(rest.skip(1), !within) =~= before + (rest.take(1)
                + without_zero_signs(rest.skip(1), !within)));
            within = !within;
            i += 1;
        } else if !within && is_negative_zero_at(&chars, i) {
            i += 1;
        } else {
            out.push(chars[i]);
            assert(out@ =~= before + rest.take(1));
            assert(out@ + without_zero_signs(rest.skip(1), within) =~= before + (rest.take(1)
                + without_zero_signs(rest.skip(1), within)));
            i += 1;
        }
    }
    assert(out@ + without_zero_signs(chars@.skip(i as int), within) =~= out@);
    out
}

/// Whether two compact JSON texts denote the same value.
pub fn same_json_text(a: &str, b: &str) -> (r: bool)
    ensures
        r == same_document(a@, b@),
{
    text::same_text(drop_zero_signs(a).as_str(), drop_zero_signs(b).as_str())
}

/// The characters of a JSON string.
pub open spec fn as_text(v: JsonView) -> Option<Seq<char>> {
    match v {
        JsonView::Text(s) => Some(s),
        _ => None,
    }
}

/// The value of an integer from 0 to 2^64 - 1.
pub open spec fn as_unsigned(v: JsonView) -> Option<u64> {
    match v {
        JsonView::Unsigned(n) => Some(n),
        _ => None,
    }
}

/// A named value of a JSON object.
#[derive(Debug, PartialEq, Eq)]
pub struct Member {
    pub key: String,
    pub value: Json,
}

/// The mathematical value of a [`Member`].
pub struct MemberView {
    pub key: Seq<char>,
    pub value: JsonView,
}

impl DeepView for Member {
    type V = MemberView;

    open spec fn deep_view(&self) -> MemberView {
        MemberView {
            key: self.key.deep_view(),
            value: self.value.deep_view(),
        }
    }
}

impl Clone for Member {
    fn clone(&self) -> (r: Self)
        ensures
            r.deep_view() == self.deep_view(),
    {
        Member {
            key: self.key.clone(),
            value: self.value.clone(),
        }
    }
}

/// The parameters of an action: the members of a JSON object in the order of
/// their keys, or some other JSON value.
#[derive(Debug, PartialEq, Eq)]
pub enum Params {
    Object(Vec<Member>),
    Other(Json),
}

/// The mathematical value of [`Params`].
pub enum ParamsView {
    Object(Seq<MemberView>),
    Other(JsonView),
}

impl DeepView for Params {
    type V = ParamsView;

    open spec fn deep_view(&self) -> ParamsView {
        match self {
            Params::Object(members) => ParamsView::Object(members.deep_view()),
            Params::Other(value) => ParamsView::Other(value.deep_view()),
        }
    }
}

impl Clone for Params {
    fn clone(&self) -> (r: Self)
        ensures
            r.deep_view() == self.deep_view(),
    {
        match self {
            Params::Object(members) => {
                let copy = members.clone();
                assert(copy.deep_view() =~= members.deep_view());
                Params::Object(copy)
            },
            Params::Other(value) => Params::Other(value.clone()),
        }
    }
}

/// The value of the first member named `key`.
pub open spec fn member_value(members: Seq<MemberView>, key: Seq<char>) -> Option<JsonView>
    decreases members.len(),
{
    if members.len() == 0 {
        None
    } else if members[0].key == key {
        Some(members[0].value)
    } else {
        member_value(members.skip(1), key)
    }
}

/// The value that the parameters hold under `key`.
pub open spec fn param_value(params: ParamsView, key: Seq<char>) -> Option<JsonView> {
    match params {
        ParamsView::Object(members) => member_value(members, key),
        ParamsView::Other(_) => None,
    }
}

impl Params {
    /// The value that the parameters hold under `key`.
    pub fn get(&self, key: &str) -> (r: Option<&Json>)
        ensures
            r.deep_view() == param_value(self.deep_view(), key@),
    {
        match self {
            Params::Object(members) => {
                let ghost all = members.deep_view();
                let mut i: usize = 0;
                assert(all.skip(0) =~= all);
                while i < members.len()
                    invariant
                        i <= members.len(),
                        all == members.deep_view(),
                        self.deep_view() == ParamsView::Object(all),
                        member_value(all, key@) == member_value(all.skip(i as int), key@),
                    decreases members.len() - i,
                {
                    assert(all.skip(i as int)[0] == members[i as int].deep_view());
                    if text::same_text(members[i].key.as_str(), key) {
                        return Some(&members[i].value);
                    }
                    assert(all.skip(i as int).skip(1) =~= all.skip(i + 1));
                    i += 1;
                }
                None
            },
            Params::Other(_) => None,
        }
    }

    /// The string that the parameters hold under `key`.
    pub fn get_str(&self, key: &str) -> (r: Option<&str>)
        ensures
            r.deep_view() == (match param_value(self.deep_view(), key@) {
                Some(v) => as_text(v),
                None => None,
            }),
    {
        match self.get(key) {
            Some(v) => v.as_str(),
            None => None,
        }
    }

    /// The unsigned integer that the parameters hold under `key`.
    pub fn get_u64(&self, key: &str) -> (r: Option<u64>)
        ensures
            r == (match param_value(self.deep_view(), key@) {
                Some(v) => as_unsigned(v),
                None => None,
            }),
    {
        match self.get(key) {
            Some(v) => v.as_u64(),
            None => None,
        }
    }
}

/// The compact text of the members of an object, without its braces.
pub open spec fn members_text(members: Seq<MemberView>) -> Seq<char>
    decreases members.len(),
{
    if members.len() == 0 {
        seq![]
    } else {
        let rest = members.drop_last();
        let last = quoted(members.last().key) + seq![':'] + json_text(members.last().value);
        if rest.len() == 0 {
            last
        } else {
            members_text(rest) + seq![','] + last
        }
    }
}

/// The compact text of an object with these members, in this order.
pub open spec fn object_text(members: Seq<MemberView>) -> Seq<char> {
    seq!['{'] + members_text(members) + seq!['}']
}

/// The compact text of an object with these members, in this order.
pub fn write_object(members: &Vec<Member>) -> (r: String)
    ensures
        r@ == object_text(members.deep_view()),
{
    let ghost all = members.deep_view();
    let mut out = String::new();
    out.push('{');
    let mut i: usize = 0;
    while i < members.len()
        invariant
            i <= members.len(),
            all == members.deep_view(),
            out@ == seq!['{'] + members_text(all.take(i as int)),
        decreases members.len() - i,
    {
        let ghost before = all.take(i as int);
        let ghost after = all.take(i + 1);
        assert(after.drop_last() =~= before);
        assert(after.last() == members[i as int].deep_view());
        if i > 0 {
            out.push(',');
        }
        out.append(quote(members[i].key.as_str()).as_str());
        out.push(':');
        out.append(members[i].value.to_text().as_str());
        assert(out@ =~= seq!['{'] + members_text(after));
        i += 1;
    }
    assert(all.take(i as int) =~= all);
    out.push('}');
    assert(out@ =~= object_text(all));
    out
}

/// What is wrong with a document that is not JSON; nothing for one that is.
pub uninterp spec fn json_parse_error(document: Seq<char>) -> Option<Seq<char>>;

/// The string under `key` in the JSON object that a document holds.
pub uninterp spec fn json_text_field(document: Seq<char>, key: Seq<char>) -> Option<Seq<char>>;

/// The unsigned integer under `key` in the JSON object that a document holds.
pub uninterp spec fn json_number_field(document: Seq<char>, key: Seq<char>) -> Option<u64>;

/// `serde_json::from_str` into any JSON value: the message of its error, if it
/// gives one.
#[verifier::external_body]
pub(crate) fn parse_error(document: &str) -> (r: Option<String>)
    ensures
        r.deep_view() == json_parse_error(document@),
{
    serde_json::from_str::<serde_json::Value>(document).err().map(|e| e.to_string())
}

/// `serde_json::from_str`, then `Value::get` and `Value::as_str`: the string
/// under `key`; nothing where the document is no JSON object that has one there.
#[verifier::external_body]
pub(crate) fn text_field(document: &str, key: &str) -> (r: Option<String>)
    ensures
        r.deep_view() == json_text_field(document@, key@),
{
    let value = serde_json::from_str::<serde_json::Value>(document).ok()?;
    value.get(key).and_then(|field| field.as_str()).map(str::to_owned)
}

/// `serde_json::from_str`, then `Value::get` and `Value::as_u64`: the unsigned
/// integer under `key`; nothing where the document is no JSON object that has
/// one there.
#[verifier::external_body]
pub(crate) fn number_field(document: &str, key: &str) -> (r: Option<u64>)
    ensures
        r == json_number_field(document@, key@),
{
    let value = serde_json::from_str::<serde_json::Value>(document).ok()?;
    value.get(key).and_then(|field| field.as_u64())
}

/// The string at a JSON pointer in the document.
pub uninterp spec fn json_pointer_text(document: Seq<char>, pointer: Seq<char>) -> Option<
    Seq<char>,
>;

/// `serde_json::from_str`, then `Value::pointer` and `Value::as_str`: the string
/// at a JSON pointer; nothing where the document has none there.
#[verifier::external_body]
pub(crate) fn pointer_text(document: &str, pointer: &str) -> (r: Option<String>)
    ensures
        r.deep_view() == json_pointer_text(document@, pointer@),
{
    let value = serde_json::from_str::<serde_json::Value>(document).ok()?;
    value.pointer(pointer).and_then(|found| found.as_str()).map(str::to_owned)
}

/// The compact text of the value under `key` in the JSON object that a document
/// holds.
pub uninterp spec fn json_value_field(document: Seq<char>, key: Seq<char>) -> Option<Seq<char>>;

/// `serde_json::from_str`, then `Value::get` and `Value::to_string`: the compact
/// text of the value under `key`; nothing where the document is no JSON object
/// that has one there.
#[verifier::external_body]
pub(crate) fn value_field(document: &str, key: &str) -> (r: Option<String>)
    ensures
        r.deep_view() == json_value_field(document@, key@),
{
    let value = serde_json::from_str::<serde_json::Value>(document).ok()?;
    value.get(key).map(|field| field.to_string())
}

impl Json {
    /// Whether this is JSON's null.
    pub fn is_null(&self) -> (r: bool)
        ensures
            r == (self.deep_view() == JsonView::Null),
    {
        match self {
            Json::Null => true,
            _ => false,
        }
    }

    /// Whether two values are the same.
    pub fn same_as(&self, other: &Json) -> (r: bool)
        ensures
            r == same_value(self.deep_view(), other.deep_view()),
    {
        match (self, other) {
            (Json::Null, Json::Null) => true,
            (Json::Bool(a), Json::Bool(b)) => *a == *b,
            (Json::Unsigned(a), Json::Unsigned(b)) => *a == *b,
            (Json::Negative(a), Json::Negative(b)) => *a == *b,
            (Json::Real { bits: a, text: _ }, Json::Real { bits: b, text: _ }) => *a == *b || ((*a
                == 0 || *a == NEGATIVE_ZERO_BITS) && (*b == 0 || *b == NEGATIVE_ZERO_BITS)),
            (Json::Text(s), Json::Text(t)) => text::same_text(s.as_str(), t.as_str()),
            (Json::Compound(s), Json::Compound(t)) => same_json_text(s.as_str(), t.as_str()),
            _ => false,
        }
    }
}

proof fn lemma_escapes_are_safe(c: char, j: int)
    requires
        0 <= j < escaped_char(c).len(),
    ensures
        escaped_char(c)[j] as int >= 0x20,
        escaped_char(c)[j] == '"' ==> j == 1 && escaped_char(c)[0] == '\\',
{
    let x = escaped_char(c);
    if x.len() == 6 {
        let high = (c as int / 16) as nat;
        let low = (c as int % 16) as nat;
        assert(high < 16 && low < 16);
        assert(x[4] == text::hex_digit(high));
        assert(x[5] == text::hex_digit(low));
        assert(j == 0 || j == 1 || j == 2 || j == 3 || j == 4 || j == 5);
    } else if x.len() == 2 {
        assert(j == 0 || j == 1);
    } else {
        assert(j == 0);
    }
}

/// Escaped text holds no control character, and no quotation mark that no
/// backslash stands before.
pub proof fn lemma_escaped_text_is_safe(s: Seq<char>, i: int)
    requires
        0 <= i < escaped(s).len(),
    ensures
        escaped(s)[i] as int >= 0x20,
        escaped(s)[i] == '"' ==> i > 0 && escaped(s)[i - 1] == '\\',
    decreases s.len(),
{
    let before = escaped(s.drop_last());
    let last = escaped_char(s.last());
    if i < before.len() {
        lemma_escaped_text_is_safe(s.drop_last(), i);
        assert(escaped(s)[i] == before[i]);
        if i > 0 {
            assert(escaped(s)[i - 1] == before[i - 1]);
        }
    } else {
        lemma_escapes_are_safe(s.last(), i - before.len());
        assert(escaped(s)[i] == last[i - before.len()]);
        if i > before.len() {
            assert(escaped(s)[i - 1] == last[i - before.len() - 1]);
        }
    }
}

/// Two characters are never escaped alike, and a character that is neither a
/// quotation mark, a backslash nor a control character stands for itself.
pub proof fn lemma_escapes_are_told_apart(c: char, d: char)
    ensures
        escaped_char(c) == escaped_char(d) ==> c == d,
        c != '"' && c != '\\' && c as int >= 0x20 ==> escaped_char(c) == seq![c],
        c == '"' || c == '\\' ==> escaped_char(c) == seq!['\\', c],
{
    let x = escaped_char(c);
    let y = escaped_char(d);
    if x == y {
        assert(x[0] == y[0]);
        if x.len() > 1 {
            assert(x[1] == y[1]);
        }
        if x.len() > 2 {
            assert(x[4] == y[4]);
            assert(x[5] == y[5]);
        }
    }
}

/// The value under a key is that of the first member of this key.
pub proof fn lemma_the_first_member_counts(
    m: MemberView,
    rest: Seq<MemberView>,
    key: Seq<char>,
)
    ensures
        member_value(seq![], key) is None,
        m.key == key ==> member_value(seq![m] + rest, key) == Some(m.value),
        m.key != key ==> member_value(seq![m] + rest, key) == member_value(rest, key),
        param_value(ParamsView::Object(rest), key) == member_value(rest, key),
{
    assert((seq![m] + rest).skip(1) =~= rest);
}

/// Every value is the same as itself, two are the same either way round, and
/// values of different kinds never are. Doubles are the same by their bits, but
/// nought with either sign is one value.
pub proof fn lemma_when_values_are_the_same(a: JsonView, b: JsonView)
    ensures
        same_value(a, a),
        same_value(a, b) == same_value(b, a),
        a is Unsigned && same_value(a, b) ==> b == a,
        a is Text && same_value(a, b) ==> b == a,
        a is Bool && same_value(a, b) ==> b == a,
        a is Null && same_value(a, b) ==> b is Null,
        a is Negative && same_value(a, b) ==> b == a,
        a is Real && same_value(a, b) ==> b is Real && (a->bits == b->bits || (a->bits
            % 0x8000_0000_0000_0000 == 0 && b->bits % 0x8000_0000_0000_0000 == 0)),
        a is Real && b is Real && a->bits == b->bits ==> same_value(a, b),
        a is Compound && same_value(a, b) ==> b is Compound,
{
}

/// A document without a minus sign stays as it is when the signs of nought are
/// taken out; so two such documents are the same only if they are equal.
pub proof fn lemma_documents_without_minus_stay(s: Seq<char>, within: bool)
    requires
        forall|i: int| 0 <= i < s.len() ==> #[trigger] s[i] != '-',
    ensures
        without_zero_signs(s, within) == s,
    decreases s.len(),
{
    if s.len() > 0 {
        let one = s.skip(1);
        assert forall|i: int| 0 <= i < one.len() implies #[trigger] one[i] != '-' by {
            assert(one[i] == s[i + 1]);
        }
        if within && s[0] == '\\' && s.len() >= 2 {
            let two = s.skip(2);
            assert forall|i: int| 0 <= i < two.len() implies #[trigger] two[i] != '-' by {
                assert(two[i] == s[i + 2]);
            }
            lemma_documents_without_minus_stay(two, true);
            assert(s.take(2) + two =~= s);
        } else if s[0] == '"' {
            lemma_documents_without_minus_stay(one, !within);
            assert(s.take(1) + one =~= s);
        } else {
            lemma_documents_without_minus_stay(one, within);
            assert(s.take(1) + one =~= s);
        }
    }
}

/// An object is written member by member in its order, each as its key and its
/// value, between braces.
pub proof fn lemma_objects_are_written_in_order(members: Seq<MemberView>, m: MemberView)
    ensures
        object_text(seq![]) == seq!['{', '}'],
        members.len() > 0 ==> object_text(members.push(m)) == object_text(members).drop_last()
            + seq![','] + quoted(m.key) + seq![':'] + json_text(m.value) + seq!['}'],
        object_text(seq![m]) == seq!['{'] + quoted(m.key) + seq![':'] + json_text(m.value)
            + seq!['}'],
{
    assert(members.push(m).drop_last() =~= members);
    assert(seq![m].drop_last() =~= seq![]);
    assert(object_text(Seq::<MemberView>::empty()) =~= seq!['{', '}']);
    assert(object_text(seq![m]) =~= seq!['{'] + quoted(m.key) + seq![':'] + json_text(m.value)
        + seq!['}']);
    if members.len() > 0 {
        assert(object_text(members.push(m)) =~= object_text(members).drop_last() + seq![',']
            + quoted(m.key) + seq![':'] + json_text(m.value) + seq!['}']);
    }
}

/// Every member stands in the text of its object, as its key and its value, and
/// so does its value.
pub proof fn lemma_objects_hold_their_members(members: Seq<MemberView>, i: int)
    requires
        0 <= i < members.len(),
    ensures
        text::occurs(
            object_text(members),
            quoted(members[i].key) + seq![':'] + json_text(members[i].value),
        ),
        text::occurs(object_text(members), json_text(members[i].value)),
{
    let key = quoted(members[i].key) + seq![':'];
    let value = json_text(members[i].value);
    let one = key + value;
    lemma_lists_hold_their_members(members, i);
    text::lemma_occurs_inside(members_text(members), one, seq!['{'], seq!['}']);
    text::lemma_occurs_itself(value);
    text::lemma_occurs_inside(value, value, key, seq![]);
    assert(key + value + Seq::<char>::empty() =~= one);
    text::lemma_occurs_through(object_text(members), one, value);
}

proof fn lemma_lists_hold_their_members(members: Seq<MemberView>, i: int)
    requires
        0 <= i < members.len(),
    ensures
        text::occurs(
            members_text(members),
            quoted(members[i].key) + seq![':'] + json_text(members[i].value),
        ),
    decreases members.len(),
{
    let one = quoted(members[i].key) + seq![':'] + json_text(members[i].value);
    let rest = members.drop_last();
    let last = quoted(members.last().key) + seq![':'] + json_text(members.last().value);
    if i < rest.len() {
        lemma_lists_hold_their_members(rest, i);
        text::lemma_occurs_inside(members_text(rest), one, seq![], seq![','] + last);
        assert(Seq::<char>::empty() + members_text(rest) + (seq![','] + last) =~= members_text(
            members,
        ));
    } else {
        text::lemma_occurs_itself(one);
        if rest.len() > 0 {
            text::lemma_occurs_inside(one, one, members_text(rest) + seq![','], seq![]);
            assert(members_text(rest) + seq![','] + one + Seq::<char>::empty() =~= members_text(
                members,
            ));
        }
    }
}

} // verus!

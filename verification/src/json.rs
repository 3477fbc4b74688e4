//! JSON documents as plain data: reading one from text, looking up the members
//! of an object, and reading an integer from a number literal.

use vstd::prelude::*;
use vstd::string::{StrSliceExecFns, StringExecFns};

verus! {

/// A JSON document. A number is held as its literal; an object as its members
/// in the order in which the reader hands them out.
#[derive(Debug, PartialEq, Eq)]
pub enum Json {
    Null,
    Bool(bool),
    Number(String),
    Text(String),
    Array(Vec<Json>),
    Object(Vec<(String, Json)>),
}

/// Mathematical content of a [`Json`] document.
pub enum JsonView {
    Null,
    Bool(bool),
    Number(Seq<char>),
    Text(Seq<char>),
    Array(Seq<JsonView>),
    Object(Seq<(Seq<char>, JsonView)>),
}

/// What `document` holds.
pub open spec fn content(document: Json) -> JsonView
    decreases document,
{
    match document {
        Json::Null => JsonView::Null,
        Json::Bool(b) => JsonView::Bool(b),
        Json::Number(literal) => JsonView::Number(literal@),
        Json::Text(text) => JsonView::Text(text@),
        Json::Array(items) => JsonView::Array(
            Seq::new(
                items@.len(),
                |i: int|
                    if 0 <= i < items@.len() {
                        content(items@[i])
                    } else {
                        JsonView::Null
                    },
            ),
        ),
        Json::Object(members) => JsonView::Object(
            Seq::new(
                members@.len(),
                |i: int|
                    if 0 <= i < members@.len() {
                        (members@[i].0@, content(members@[i].1))
                    } else {
                        (Seq::empty(), JsonView::Null)
                    },
            ),
        ),
    }
}

impl View for Json {
    type V = JsonView;

    open spec fn view(&self) -> JsonView {
        content(*self)
    }
}

/// The value of the first of `members` that is named `key`.
pub open spec fn first_named(members: Seq<(Seq<char>, JsonView)>, key: Seq<char>) -> Option<
    JsonView,
>
    decreases members.len(),
{
    if members.len() == 0 {
        None
    } else if members[0].0 == key {
        Some(members[0].1)
    } else {
        first_named(members.drop_first(), key)
    }
}

impl JsonView {
    /// The member `key` of an object; `None` for anything that is not an object
    /// or has no such member.
    pub open spec fn member(self, key: Seq<char>) -> Option<JsonView> {
        match self {
            JsonView::Object(members) => first_named(members, key),
            _ => None,
        }
    }

    /// The characters of a string.
    pub open spec fn text(self) -> Option<Seq<char>> {
        match self {
            JsonView::Text(text) => Some(text),
            _ => None,
        }
    }

    /// The literal of a number.
    pub open spec fn number(self) -> Option<Seq<char>> {
        match self {
            JsonView::Number(literal) => Some(literal),
            _ => None,
        }
    }
}

/// `serde_json`'s document type.
#[verifier::external_type_specification]
#[verifier::external_body]
pub struct ExValue(serde_json::Value);

/// What a `serde_json::Value` holds: the same tree, with each number as the
/// text that its `Display` prints and each object's members in the order in
/// which its map iterates.
pub uninterp spec fn value_content(value: serde_json::Value) -> JsonView;

/// The document that `serde_json::from_str` reads from `text` as a
/// `serde_json::Value`, or `None` where it reports an error.
pub uninterp spec fn json_of_text(text: Seq<char>) -> Option<JsonView>;

/// Calls `serde_json::from_str` for a `serde_json::Value`. Trusted: whether it
/// succeeds and what it reads are functions of the text alone.
#[verifier::external_body]
fn read_value(text: &str) -> (r: Option<serde_json::Value>)
    ensures
        r matches Some(value) ==> json_of_text(text@) == Some(value_content(value)),
        r is None ==> json_of_text(text@) is None,
{
    serde_json::from_str::<serde_json::Value>(text).ok()
}

/// Copies a `serde_json::Value` into a [`Json`], variant by variant. Trusted:
/// the copy holds what the value holds.
#[verifier::external_body]
fn copy_value(value: &serde_json::Value) -> (r: Json)
    ensures
        r@ == value_content(*value),
{
    match value {
        serde_json::Value::Null => Json::Null,
        serde_json::Value::Bool(b) => Json::Bool(*b),
        serde_json::Value::Number(n) => Json::Number(n.to_string()),
        serde_json::Value::String(s) => Json::Text(s.clone()),
        serde_json::Value::Array(items) => Json::Array(items.iter().map(copy_value).collect()),
        serde_json::Value::Object(members) => Json::Object(
            members.iter().map(|(name, member)| (name.clone(), copy_value(member))).collect(),
        ),
    }
}

/// Wraps `r` for a contract: the view of the document, if there is one.
pub open spec fn document_view(r: Option<Json>) -> Option<JsonView> {
    match r {
        Some(document) => Some(document@),
        None => None,
    }
}

/// Reads a JSON document from `text`; `None` where the text is not JSON.
pub fn parse_json(text: &str) -> (r: Option<Json>)
    ensures
        document_view(r) == json_of_text(text@),
{
    match read_value(text) {
        Some(value) => Some(copy_value(&value)),
        None => None,
    }
}

impl Json {
    /// The member `key` of an object, the first one if several share the
    /// name; `None` for anything that is not an object or has no such member.
    pub fn get(&self, key: &str) -> (r: Option<&Json>)
        ensures
            r matches Some(member) ==> self@.member(key@) == Some(member@),
            r is None ==> self@.member(key@) is None,
    {
        match self {
            Json::Object(members) => {
                let wanted = String::from_str(key);
                let ghost all = self@->Object_0;
                assert(all.subrange(0, all.len() as int) == all);
                let mut i: usize = 0;
                while i < members.len()
                    invariant
                        i <= members.len(),
                        wanted@ == key@,
                        self@ == JsonView::Object(all),
                        all.len() == members@.len(),
                        forall|j: int|
                            0 <= j < all.len() ==> all[j] == (
                                #[trigger] members@[j].0@,
                                members@[j].1@,
                            ),
                        first_named(all, key@) == first_named(
                            all.subrange(i as int, all.len() as int),
                            key@,
                        ),
                    decreases members.len() - i,
                {
                    let ghost rest = all.subrange(i as int, all.len() as int);
                    assert(rest.drop_first() == all.subrange(i + 1, all.len() as int));
                    if members[i].0 == wanted {
                        return Some(&members[i].1);
                    }
                    i += 1;
                }
                None
            },
            _ => None,
        }
    }

    /// The characters of a string; `None` for anything else.
    pub fn as_text(&self) -> (r: Option<&String>)
        ensures
            r matches Some(text) ==> self@.text() == Some(text@),
            r is None ==> self@.text() is None,
    {
        match self {
            Json::Text(text) => Some(text),
            _ => None,
        }
    }

    /// The literal of a number; `None` for anything else.
    pub fn as_number(&self) -> (r: Option<&String>)
        ensures
            r matches Some(literal) ==> self@.number() == Some(literal@),
            r is None ==> self@.number() is None,
    {
        match self {
            Json::Number(literal) => Some(literal),
            _ => None,
        }
    }
}

/// Whether `c` is one of the ten decimal digits.
pub open spec fn is_digit(c: char) -> bool {
    '0' <= c <= '9'
}

/// Whether `s` is one decimal digit or more and nothing else.
pub open spec fn all_digits(s: Seq<char>) -> bool {
    s.len() > 0 && forall|i: int| 0 <= i < s.len() ==> is_digit(#[trigger] s[i])
}

/// The number that the decimal digits `s` spell.
pub open spec fn digits_value(s: Seq<char>) -> nat
    decreases s.len(),
{
    if s.len() == 0 {
        0
    } else {
        (digits_value(s.drop_last()) * 10 + (s.last() as u32 - 48)) as nat
    }
}

/// The integer that `literal` spells: decimal digits, with or without a minus
/// sign in front. `None` for any other text.
pub open spec fn integer_of(literal: Seq<char>) -> Option<int> {
    if literal.len() > 0 && literal[0] == '-' {
        if all_digits(literal.drop_first()) {
            Some(-(digits_value(literal.drop_first()) as int))
        } else {
            None
        }
    } else if all_digits(literal) {
        Some(digits_value(literal) as int)
    } else {
        None
    }
}

/// The integer that `literal` spells, where it fits in 64 bits.
pub open spec fn i64_of(literal: Seq<char>) -> Option<i64> {
    match integer_of(literal) {
        Some(v) if i64::MIN <= v <= i64::MAX => Some(v as i64),
        _ => None,
    }
}

/// Digits spell a number that is at least the number that any prefix spells.
pub proof fn lemma_digits_value_grows(s: Seq<char>, n: int)
    requires
        0 <= n <= s.len(),
        forall|i: int| 0 <= i < s.len() ==> is_digit(#[trigger] s[i]),
    ensures
        digits_value(s.subrange(0, n)) <= digits_value(s),
    decreases s.len() - n,
{
    if n == s.len() {
        assert(s.subrange(0, n) == s);
    } else {
        lemma_digits_value_grows(s, n + 1);
        let longer = s.subrange(0, n + 1);
        assert(longer.drop_last() == s.subrange(0, n));
    }
}

/// The number that the digits of `literal` from position `start` on spell,
/// where they are digits and spell no more than `limit`.
pub open spec fn magnitude_of(literal: Seq<char>, start: int, limit: nat) -> Option<u64> {
    let digits = literal.subrange(start, literal.len() as int);
    if all_digits(digits) && digits_value(digits) <= limit {
        Some(digits_value(digits) as u64)
    } else {
        None
    }
}

/// One more digit: the number spelled grows tenfold and by the digit.
proof fn lemma_digits_value_step(digits: Seq<char>, k: int)
    requires
        0 <= k < digits.len(),
        is_digit(digits[k]),
    ensures
        digits_value(digits.subrange(0, k + 1)) == digits_value(digits.subrange(0, k)) * 10 + (
        digits[k] as u32 - 48),
{
    let longer = digits.subrange(0, k + 1);
    assert(longer.drop_last() == digits.subrange(0, k));
}

/// Reads the digits of `literal` from position `start` on as a number of at
/// most `limit`.
fn parse_magnitude(literal: &str, start: usize, limit: u64) -> (r: Option<u64>)
    requires
        start <= literal@.len(),
        limit >= 9,
    ensures
        r == magnitude_of(literal@, start as int, limit as nat),
{
    let n = literal.unicode_len();
    let ghost digits = literal@.subrange(start as int, n as int);
    if start == n {
        return None;
    }
    let mut acc: u64 = 0;
    let mut i: usize = start;
    while i < n
        invariant
            start <= i <= n,
            n == literal@.len(),
            digits == literal@.subrange(start as int, n as int),
            forall|j: int| 0 <= j < i - start ==> is_digit(#[trigger] digits[j]),
            acc == digits_value(digits.subrange(0, i - start)),
            acc <= limit,
            limit >= 9,
        decreases n - i,
    {
        let c = literal.get_char(i);
        let ghost k = i - start;
        if c < '0' || c > '9' {
            assert(!is_digit(digits[k]));
            return None;
        }
        let d: u64 = (c as u32 - 48) as u64;
        proof {
            lemma_digits_value_step(digits, k);
        }
        if acc > (limit - d) / 10 {
            proof {
                if all_digits(digits) {
                    lemma_digits_value_grows(digits, k + 1);
                }
            }
            return None;
        }
        acc = acc * 10 + d;
        i += 1;
    }
    proof {
        assert(digits.subrange(0, n - start) == digits);
    }
    Some(acc)
}

/// Reads a 64-bit integer from a number literal: `None` where the literal has
/// a fraction or an exponent, or spells a number outside the 64-bit range.
pub fn parse_i64(literal: &str) -> (r: Option<i64>)
    ensures
        r == i64_of(literal@),
{
    let n = literal.unicode_len();
    if n == 0 {
        return None;
    }
    if literal.get_char(0) == '-' {
        match parse_magnitude(literal, 1, 0x8000_0000_0000_0000) {
            Some(magnitude) => {
                if magnitude == 0x8000_0000_0000_0000 {
                    Some(i64::MIN)
                } else {
                    Some(-(magnitude as i64))
                }
            },
            None => None,
        }
    } else {
        assert(literal@.subrange(0, n as int) == literal@);
        match parse_magnitude(literal, 0, 0x7FFF_FFFF_FFFF_FFFF) {
            Some(magnitude) => Some(magnitude as i64),
            None => None,
        }
    }
}

} // verus!

//! Decoding the payload of a bus message into a trade message.
//!
//! A payload is UTF-8 JSON: an object whose member `action` says what it is.
//! `"new"` comes with an `intent` object, `"cancel"` with the `id` of the order
//! to cancel. Members that the shape does not name are ignored.

use crate::decimal::{decimal_of_number, decimal_of_text, decimal_view, Decimal, DecimalView};
use crate::id::{uuid_from, Uuid};
use crate::intent::{
    OrderType, OrderTypeView, TimeInForce, TradeIntent, TradeIntentView, TradeMessage,
    TradeMessageView,
};
use crate::json::{i64_of, integer_of, json_of_text, parse_i64, parse_json, Json, JsonView};
use vstd::prelude::*;
use vstd::string::{StringExecFns, StringSliceAdditionalSpecFns};
use vstd::utf8::{decode_utf8, encode_utf8_decode_utf8, valid_utf8};

verus! {

/// Why a payload was not decoded.
#[derive(Clone, Copy, Debug, PartialEq, Eq, Structural)]
pub enum DecodeError {
    /// There is no payload, or it has no bytes.
    Empty,
    /// The payload is not UTF-8.
    InvalidText,
    /// The text is not JSON, or not one of the two message shapes.
    SchemaMismatch,
}

/// The lifetime that `name` stands for on the wire.
pub open spec fn time_in_force_of(name: Seq<char>) -> Option<TimeInForce> {
    if name == "gtc"@ {
        Some(TimeInForce::GoodTilCanceled)
    } else if name == "day"@ {
        Some(TimeInForce::Day)
    } else if name == "ioc"@ {
        Some(TimeInForce::ImmediateOrCancel)
    } else if name == "fok"@ {
        Some(TimeInForce::FillOrKill)
    } else if name == "opg"@ {
        Some(TimeInForce::Open)
    } else if name == "cls"@ {
        Some(TimeInForce::Close)
    } else {
        None
    }
}

/// The characters of the string member `key` of `document`.
pub open spec fn text_member(document: JsonView, key: Seq<char>) -> Option<Seq<char>> {
    match document.member(key) {
        Some(member) => member.text(),
        None => None,
    }
}

/// The identifier that the string member `key` of `document` spells.
pub open spec fn uuid_member(document: JsonView, key: Seq<char>) -> Option<Uuid> {
    match text_member(document, key) {
        Some(text) => uuid_from(text),
        None => None,
    }
}

/// The price that `document` gives, as a string or as a number.
pub open spec fn price_of(document: JsonView) -> Option<DecimalView> {
    match document {
        JsonView::Text(text) => decimal_of_text(text),
        JsonView::Number(literal) => decimal_of_number(literal),
        _ => None,
    }
}

/// The price that the member `key` of `document` gives.
pub open spec fn price_member(document: JsonView, key: Seq<char>) -> Option<DecimalView> {
    match document.member(key) {
        Some(member) => price_of(member),
        None => None,
    }
}

/// The quantity of an intent: an integer of 64 bits that is not zero.
pub open spec fn quantity_of(intent: JsonView) -> Option<i64> {
    match intent.member("qty"@) {
        Some(JsonView::Number(literal)) => match i64_of(literal) {
            Some(qty) if qty != 0 => Some(qty),
            _ => None,
        },
        _ => None,
    }
}

/// The pricing of an intent: the kind that `order_type` names, with the prices
/// that the kind calls for.
pub open spec fn order_type_of(intent: JsonView) -> Option<OrderTypeView> {
    match text_member(intent, "order_type"@) {
        Some(kind) => {
            if kind == "market"@ {
                Some(OrderTypeView::Market)
            } else if kind == "limit"@ {
                match price_member(intent, "limit_price"@) {
                    Some(limit_price) => Some(OrderTypeView::Limit { limit_price }),
                    None => None,
                }
            } else if kind == "stop"@ {
                match price_member(intent, "stop_price"@) {
                    Some(stop_price) => Some(OrderTypeView::Stop { stop_price }),
                    None => None,
                }
            } else if kind == "stop_limit"@ {
                match (price_member(intent, "stop_price"@), price_member(intent, "limit_price"@)) {
                    (Some(stop_price), Some(limit_price)) => Some(
                        OrderTypeView::StopLimit { stop_price, limit_price },
                    ),
                    _ => None,
                }
            } else {
                None
            }
        },
        None => None,
    }
}

/// The lifetime of an intent.
pub open spec fn time_in_force_member(intent: JsonView) -> Option<TimeInForce> {
    match text_member(intent, "time_in_force"@) {
        Some(name) => time_in_force_of(name),
        None => None,
    }
}

/// The intent that `document` describes, if it has every member of an intent
/// and each of them is valid.
pub open spec fn intent_of(document: JsonView) -> Option<TradeIntentView> {
    match (
        text_member(document, "ticker"@),
        quantity_of(document),
        order_type_of(document),
        time_in_force_member(document),
        uuid_member(document, "id"@),
    ) {
        (Some(ticker), Some(qty), Some(order_type), Some(time_in_force), Some(id)) => Some(
            TradeIntentView { id, ticker, qty: qty as int, order_type, time_in_force },
        ),
        _ => None,
    }
}

/// The message that `document` describes, if it has one of the two shapes.
pub open spec fn message_of(document: JsonView) -> Option<TradeMessageView> {
    match text_member(document, "action"@) {
        Some(action) => {
            if action == "new"@ {
                match document.member("intent"@) {
                    Some(body) => match intent_of(body) {
                        Some(intent) => Some(TradeMessageView::New { intent }),
                        None => None,
                    },
                    None => None,
                }
            } else if action == "cancel"@ {
                match uuid_member(document, "id"@) {
                    Some(id) => Some(TradeMessageView::Cancel { id }),
                    None => None,
                }
            } else {
                None
            }
        },
        None => None,
    }
}

/// What decoding `bytes` gives: the message, or the first reason why there is
/// none.
pub open spec fn decoded(bytes: Seq<u8>) -> Result<TradeMessageView, DecodeError> {
    if bytes.len() == 0 {
        Err(DecodeError::Empty)
    } else if !valid_utf8(bytes) {
        Err(DecodeError::InvalidText)
    } else {
        match json_of_text(decode_utf8(bytes)) {
            Some(document) => match message_of(document) {
                Some(message) => Ok(message),
                None => Err(DecodeError::SchemaMismatch),
            },
            None => Err(DecodeError::SchemaMismatch),
        }
    }
}

/// What decoding the payload of a bus message gives. A message without a
/// payload is an empty one.
pub open spec fn received(payload: Option<Seq<u8>>) -> Result<TradeMessageView, DecodeError> {
    match payload {
        Some(bytes) => decoded(bytes),
        None => Err(DecodeError::Empty),
    }
}

/// Wraps `r` for a contract: the view of the intent, if there is one.
pub open spec fn intent_view(r: Option<TradeIntent>) -> Option<TradeIntentView> {
    match r {
        Some(intent) => Some(intent@),
        None => None,
    }
}

/// Wraps `r` for a contract: the view of the message, if there is one.
pub open spec fn message_view(r: Option<TradeMessage>) -> Option<TradeMessageView> {
    match r {
        Some(message) => Some(message@),
        None => None,
    }
}

/// Wraps `r` for a contract: the view of the message, or the error.
pub open spec fn outcome_view(r: Result<TradeMessage, DecodeError>) -> Result<
    TradeMessageView,
    DecodeError,
> {
    match r {
        Ok(message) => Ok(message@),
        Err(e) => Err(e),
    }
}

/// `std::str::from_utf8`. Trusted: it accepts exactly the byte strings that
/// are UTF-8, and the text it hands out is made of the bytes it was given.
#[verifier::external_body]
fn utf8_text(bytes: &[u8]) -> (r: Option<&str>)
    ensures
        r is Some <==> valid_utf8(bytes@),
        r matches Some(text) ==> text.spec_bytes() == bytes@,
{
    std::str::from_utf8(bytes).ok()
}

/// Whether `text` is spelled `literal`.
fn spells(text: &String, literal: &str) -> (r: bool)
    ensures
        r == (text@ == literal@),
{
    let other = String::from_str(literal);
    *text == other
}

/// The lifetime that `name` stands for on the wire.
pub fn time_in_force_from(name: &String) -> (r: Option<TimeInForce>)
    ensures
        r == time_in_force_of(name@),
{
    if spells(name, "gtc") {
        Some(TimeInForce::GoodTilCanceled)
    } else if spells(name, "day") {
        Some(TimeInForce::Day)
    } else if spells(name, "ioc") {
        Some(TimeInForce::ImmediateOrCancel)
    } else if spells(name, "fok") {
        Some(TimeInForce::FillOrKill)
    } else if spells(name, "opg") {
        Some(TimeInForce::Open)
    } else if spells(name, "cls") {
        Some(TimeInForce::Close)
    } else {
        None
    }
}

/// The string member `key` of `document`.
fn text_member_from<'a>(document: &'a Json, key: &str) -> (r: Option<&'a String>)
    ensures
        r matches Some(text) ==> text_member(document@, key@) == Some(text@),
        r is None ==> text_member(document@, key@) is None,
{
    match document.get(key) {
        Some(member) => member.as_text(),
        None => None,
    }
}

/// The identifier that the string member `key` of `document` spells.
fn uuid_member_from(document: &Json, key: &str) -> (r: Option<Uuid>)
    ensures
        r == uuid_member(document@, key@),
{
    match text_member_from(document, key) {
        Some(text) => Uuid::parse_str(text.as_str()),
        None => None,
    }
}

/// The price that the member `key` of `document` gives.
fn price_member_from(document: &Json, key: &str) -> (r: Option<Decimal>)
    ensures
        decimal_view(r) == price_member(document@, key@),
{
    match document.get(key) {
        Some(Json::Text(text)) => Decimal::from_json_text(text.as_str()),
        Some(Json::Number(literal)) => Decimal::from_json_number(literal.as_str()),
        _ => None,
    }
}

/// The quantity of an intent.
fn quantity_from(intent: &Json) -> (r: Option<i64>)
    ensures
        r == quantity_of(intent@),
{
    match intent.get("qty") {
        Some(Json::Number(literal)) => match parse_i64(literal.as_str()) {
            Some(qty) => if qty != 0 {
                Some(qty)
            } else {
                None
            },
            None => None,
        },
        _ => None,
    }
}

/// Wraps `r` for a contract: the view of the pricing, if there is one.
pub open spec fn order_type_view(r: Option<OrderType>) -> Option<OrderTypeView> {
    match r {
        Some(order_type) => Some(order_type@),
        None => None,
    }
}

/// The pricing of an intent.
fn order_type_from(intent: &Json) -> (r: Option<OrderType>)
    ensures
        order_type_view(r) == order_type_of(intent@),
{
    let kind = match text_member_from(intent, "order_type") {
        Some(kind) => kind,
        None => { return None; },
    };
    if spells(kind, "market") {
        Some(OrderType::Market)
    } else if spells(kind, "limit") {
        match price_member_from(intent, "limit_price") {
            Some(limit_price) => Some(OrderType::Limit { limit_price }),
            None => None,
        }
    } else if spells(kind, "stop") {
        match price_member_from(intent, "stop_price") {
            Some(stop_price) => Some(OrderType::Stop { stop_price }),
            None => None,
        }
    } else if spells(kind, "stop_limit") {
        match (price_member_from(intent, "stop_price"), price_member_from(intent, "limit_price")) {
            (Some(stop_price), Some(limit_price)) => Some(
                OrderType::StopLimit { stop_price, limit_price },
            ),
            _ => None,
        }
    } else {
        None
    }
}

/// Reads an intent from the object that describes it: `None` where a member
/// is missing or is not valid.
pub fn intent_from_json(document: &Json) -> (r: Option<TradeIntent>)
    ensures
        intent_view(r) == intent_of(document@),
        r matches Some(intent) ==> intent@.wf(),
{
    let ticker = match text_member_from(document, "ticker") {
        Some(ticker) => ticker.clone(),
        None => { return None; },
    };
    let qty = match quantity_from(document) {
        Some(qty) => qty,
        None => { return None; },
    };
    let order_type = match order_type_from(document) {
        Some(order_type) => order_type,
        None => { return None; },
    };
    let time_in_force = match text_member_from(document, "time_in_force") {
        Some(name) => match time_in_force_from(name) {
            Some(time_in_force) => time_in_force,
            None => { return None; },
        },
        None => { return None; },
    };
    let id = match uuid_member_from(document, "id") {
        Some(id) => id,
        None => { return None; },
    };
    Some(TradeIntent { id, ticker, qty, order_type, time_in_force })
}

/// Reads a message from a JSON document: `None` where the document has
/// neither of the two shapes.
pub fn message_from_json(document: &Json) -> (r: Option<TradeMessage>)
    ensures
        message_view(r) == message_of(document@),
        r matches Some(message) ==> message@.wf(),
{
    let action = match text_member_from(document, "action") {
        Some(action) => action,
        None => { return None; },
    };
    if spells(action, "new") {
        match document.get("intent") {
            Some(body) => match intent_from_json(body) {
                Some(intent) => Some(TradeMessage::New { intent }),
                None => None,
            },
            None => None,
        }
    } else if spells(action, "cancel") {
        match uuid_member_from(document, "id") {
            Some(id) => Some(TradeMessage::Cancel { id }),
            None => None,
        }
    } else {
        None
    }
}

/// Decodes the bytes of a payload. No bytes at all is `Empty`; bytes that are
/// not UTF-8 are `InvalidText`; text that is not JSON, or JSON that is neither
/// a new-order nor a cancel message, is `SchemaMismatch`.
pub fn decode(bytes: &[u8]) -> (r: Result<TradeMessage, DecodeError>)
    ensures
        outcome_view(r) == decoded(bytes@),
        r matches Ok(message) ==> message@.wf(),
{
    if bytes.len() == 0 {
        return Err(DecodeError::Empty);
    }
    let text = match utf8_text(bytes) {
        Some(text) => text,
        None => { return Err(DecodeError::InvalidText); },
    };
    proof {
        encode_utf8_decode_utf8(text@);
    }
    match parse_json(text) {
        Some(document) => match message_from_json(&document) {
            Some(message) => Ok(message),
            None => Err(DecodeError::SchemaMismatch),
        },
        None => Err(DecodeError::SchemaMismatch),
    }
}

/// Wraps `payload` for a contract: its bytes, if there are any.
pub open spec fn payload_view(payload: Option<&[u8]>) -> Option<Seq<u8>> {
    match payload {
        Some(bytes) => Some(bytes@),
        None => None,
    }
}

/// Decodes the payload of a bus message, which may be missing.
pub fn parse_message(payload: Option<&[u8]>) -> (r: Result<TradeMessage, DecodeError>)
    ensures
        outcome_view(r) == received(payload_view(payload)),
        r matches Ok(message) ==> message@.wf(),
{
    match payload {
        Some(bytes) => decode(bytes),
        None => Err(DecodeError::Empty),
    }
}

/// The name of a lifetime on the wire.
pub open spec fn wire_name(time_in_force: TimeInForce) -> Seq<char> {
    match time_in_force {
        TimeInForce::GoodTilCanceled => "gtc"@,
        TimeInForce::Day => "day"@,
        TimeInForce::ImmediateOrCancel => "ioc"@,
        TimeInForce::FillOrKill => "fok"@,
        TimeInForce::Open => "opg"@,
        TimeInForce::Close => "cls"@,
    }
}

/// Whether the member `key` of `document` gives the price `price`.
pub open spec fn gives_price(document: JsonView, key: Seq<char>, price: DecimalView) -> bool {
    document.member(key) matches Some(member) && price_of(member) == Some(price)
}

/// Whether `body` names the kind of `order_type` and gives its prices.
pub open spec fn describes_order_type(body: JsonView, order_type: OrderTypeView) -> bool {
    body.member("order_type"@) matches Some(JsonView::Text(kind)) && match order_type {
        OrderTypeView::Market => kind == "market"@,
        OrderTypeView::Limit { limit_price } => kind == "limit"@ && gives_price(
            body,
            "limit_price"@,
            limit_price,
        ),
        OrderTypeView::Stop { stop_price } => kind == "stop"@ && gives_price(
            body,
            "stop_price"@,
            stop_price,
        ),
        OrderTypeView::StopLimit { stop_price, limit_price } => kind == "stop_limit"@
            && gives_price(body, "stop_price"@, stop_price) && gives_price(
            body,
            "limit_price"@,
            limit_price,
        ),
    }
}

/// Whether `body` is a well-formed description of `intent`: it has the
/// ticker as a string, the quantity as an integer of 64 bits that is not
/// zero, the pricing, the lifetime under its wire name, and the identifier.
pub open spec fn describes_intent(body: JsonView, intent: TradeIntentView) -> bool {
    &&& body.member("ticker"@) == Some(JsonView::Text(intent.ticker))
    &&& body.member("qty"@) matches Some(JsonView::Number(literal)) && integer_of(literal) == Some(
        intent.qty,
    )
    &&& intent.qty != 0
    &&& i64::MIN <= intent.qty <= i64::MAX
    &&& describes_order_type(body, intent.order_type)
    &&& body.member("time_in_force"@) == Some(JsonView::Text(wire_name(intent.time_in_force)))
    &&& body.member("id"@) matches Some(JsonView::Text(text)) && uuid_from(text) == Some(intent.id)
}

/// Whether `document` is a well-formed message that says `message`.
pub open spec fn describes(document: JsonView, message: TradeMessageView) -> bool {
    match message {
        TradeMessageView::New { intent } => {
            &&& document.member("action"@) == Some(JsonView::Text("new"@))
            &&& document.member("intent"@) matches Some(body) && describes_intent(body, intent)
        },
        TradeMessageView::Cancel { id } => {
            &&& document.member("action"@) == Some(JsonView::Text("cancel"@))
            &&& document.member("id"@) matches Some(JsonView::Text(text)) && uuid_from(text)
                == Some(id)
        },
    }
}

/// The words of the wire format are all different.
proof fn lemma_words_differ()
    ensures
        "new"@ != "cancel"@,
        "market"@ != "limit"@,
        "market"@ != "stop"@,
        "market"@ != "stop_limit"@,
        "limit"@ != "stop"@,
        "limit"@ != "stop_limit"@,
        "stop"@ != "stop_limit"@,
        "gtc"@ != "day"@,
        "gtc"@ != "ioc"@,
        "gtc"@ != "fok"@,
        "gtc"@ != "opg"@,
        "gtc"@ != "cls"@,
        "day"@ != "ioc"@,
        "day"@ != "fok"@,
        "day"@ != "opg"@,
        "day"@ != "cls"@,
        "ioc"@ != "fok"@,
        "ioc"@ != "opg"@,
        "ioc"@ != "cls"@,
        "fok"@ != "opg"@,
        "fok"@ != "cls"@,
        "opg"@ != "cls"@,
{
    reveal_strlit("new");
    reveal_strlit("cancel");
    reveal_strlit("market");
    reveal_strlit("limit");
    reveal_strlit("stop");
    reveal_strlit("stop_limit");
    reveal_strlit("gtc");
    reveal_strlit("day");
    reveal_strlit("ioc");
    reveal_strlit("fok");
    reveal_strlit("opg");
    reveal_strlit("cls");
    assert("new"@.len() == 3 && "cancel"@.len() == 6);
    assert("market"@.len() == 6 && "limit"@.len() == 5 && "stop"@.len() == 4 && "stop_limit"@.len()
        == 10);
    assert("gtc"@[0] == 'g' && "day"@[0] == 'd' && "ioc"@[0] == 'i' && "fok"@[0] == 'f' && "opg"@[0]
        == 'o' && "cls"@[0] == 'c');
}

/// A lifetime is read from its wire name and from nothing else.
pub proof fn lemma_time_in_force_names(name: Seq<char>, time_in_force: TimeInForce)
    ensures
        time_in_force_of(name) == Some(time_in_force) <==> name == wire_name(time_in_force),
{
    lemma_words_differ();
}

/// The pricing is read from a body exactly when the body describes it.
pub proof fn lemma_order_type_described(body: JsonView, order_type: OrderTypeView)
    ensures
        order_type_of(body) == Some(order_type) <==> describes_order_type(body, order_type),
{
    lemma_words_differ();
}

/// An intent is read from a body exactly when the body is a well-formed
/// description of it.
pub proof fn lemma_intent_described(body: JsonView, intent: TradeIntentView)
    ensures
        intent_of(body) == Some(intent) <==> describes_intent(body, intent),
{
    lemma_order_type_described(body, intent.order_type);
    lemma_time_in_force_names(
        text_member(body, "time_in_force"@).unwrap(),
        intent.time_in_force,
    );
}

/// A message is read from a document exactly when the document is a
/// well-formed message that says it: a well-formed new-order document gives
/// the new order it describes, a well-formed cancel document the cancellation
/// it describes, and nothing else gives a message.
pub proof fn lemma_message_described(document: JsonView, message: TradeMessageView)
    ensures
        message_of(document) == Some(message) <==> describes(document, message),
{
    lemma_words_differ();
    match message {
        TradeMessageView::New { intent } => {
            if document.member("intent"@) is Some {
                lemma_intent_described(document.member("intent"@).unwrap(), intent);
            }
        },
        TradeMessageView::Cancel { id } => {},
    }
}

/// Decoding succeeds on every payload that is UTF-8 JSON and a well-formed
/// message, and gives the message that the payload says, of the matching
/// variant; it succeeds on no other payload.
pub proof fn lemma_decodes_when_well_formed(bytes: Seq<u8>, message: TradeMessageView)
    ensures
        decoded(bytes) == Ok::<TradeMessageView, DecodeError>(message) <==> {
            &&& bytes.len() > 0
            &&& valid_utf8(bytes)
            &&& json_of_text(decode_utf8(bytes)) matches Some(document) && describes(
                document,
                message,
            )
        },
{
    if bytes.len() > 0 && valid_utf8(bytes) && json_of_text(decode_utf8(bytes)) is Some {
        lemma_message_described(json_of_text(decode_utf8(bytes)).unwrap(), message);
    }
}

/// Each error has its own cause: no bytes at all, bytes that are not UTF-8,
/// and text that is not JSON or is JSON of another shape. A message that is
/// decoded is well formed.
pub proof fn lemma_decode_errors(bytes: Seq<u8>)
    ensures
        decoded(bytes) == Err::<TradeMessageView, DecodeError>(DecodeError::Empty) <==> bytes.len()
            == 0,
        decoded(bytes) == Err::<TradeMessageView, DecodeError>(DecodeError::InvalidText)
            <==> bytes.len() > 0 && !valid_utf8(bytes),
        decoded(bytes) == Err::<TradeMessageView, DecodeError>(DecodeError::SchemaMismatch) <==> {
            &&& bytes.len() > 0
            &&& valid_utf8(bytes)
            &&& json_of_text(decode_utf8(bytes)) matches Some(document) ==> message_of(document)
                is None
        },
        decoded(bytes) matches Ok(message) ==> message.wf(),
{
}

} // verus!

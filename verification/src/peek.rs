//! Peeking into JSON-RPC messages. Bodies are forwarded as their original bytes, so the only
//! fields the proxy interprets on every message are `method` and `id`. Unknown fields are
//! skipped.

use vstd::prelude::*;

use crate::json::{Json, JsonModel, JsonNumber, NumberModel, get, parse_json, json_parse, member, jint};
use crate::text::str_eq;

verus! {

/// The body is not JSON, or `method` / `id` have a type JSON-RPC does not allow.
#[derive(Debug, Clone, Copy, PartialEq, Eq, Structural)]
pub enum PeekError {
    InvalidJson,
}

/// A JSON-RPC request id. LSP allows only `integer | string`.
#[derive(Debug, Clone, PartialEq, Eq, Hash)]
pub enum RequestId {
    Number(i64),
    String(String),
}

/// The mathematical value of a [`RequestId`].
pub ghost enum IdModel {
    Number(i64),
    Text(Seq<char>),
}

impl View for RequestId {
    type V = IdModel;

    open spec fn view(&self) -> IdModel {
        match self {
            RequestId::Number(n) => IdModel::Number(*n),
            RequestId::String(s) => IdModel::Text(s@),
        }
    }
}

impl RequestId {
    /// Whether two ids are the same (strings compared by their characters).
    pub fn same_as(&self, other: &RequestId) -> (r: bool)
        ensures
            r == (self@ == other@),
    {
        match (self, other) {
            (RequestId::Number(a), RequestId::Number(b)) => *a == *b,
            (RequestId::String(a), RequestId::String(b)) => str_eq(a.as_str(), b.as_str()),
            _ => false,
        }
    }

    /// A copy of this id.
    pub fn copied(&self) -> (r: RequestId)
        ensures
            r@ == self@,
    {
        match self {
            RequestId::Number(n) => RequestId::Number(*n),
            RequestId::String(s) => RequestId::String(s.clone()),
        }
    }

    /// The id as JSON (a non-negative number is printed as such, like `serde_json` does).
    pub fn to_json(&self) -> (r: Json)
        ensures
            r@ == id_json(self@),
            id_of_json(r@) == Some(self@),
    {
        match self {
            RequestId::Number(n) => if *n >= 0 {
                Json::Number(JsonNumber::PosInt(*n as u64))
            } else {
                Json::Number(JsonNumber::NegInt(*n))
            },
            RequestId::String(s) => Json::String(s.clone()),
        }
    }
}

/// The JSON of an id.
pub open spec fn id_json(id: IdModel) -> JsonModel {
    match id {
        IdModel::Number(n) => jint(n),
        IdModel::Text(t) => JsonModel::String(t),
    }
}

/// The id a JSON value stands for: an integer that fits in `i64`, or a string.
pub open spec fn id_of_json(j: JsonModel) -> Option<IdModel> {
    match j {
        JsonModel::Number(NumberModel::PosInt(u)) => if u <= i64::MAX {
            Some(IdModel::Number(u as i64))
        } else {
            None
        },
        JsonModel::Number(NumberModel::NegInt(i)) => Some(IdModel::Number(i)),
        JsonModel::String(s) => Some(IdModel::Text(s)),
        _ => None,
    }
}

/// Reads an id from JSON.
pub fn id_from_json(j: &Json) -> (r: Option<RequestId>)
    ensures
        match r {
            Some(id) => id_of_json(j@) == Some(id@),
            None => id_of_json(j@) is None,
        },
{
    match j {
        Json::Number(JsonNumber::PosInt(u)) => if *u <= i64::MAX as u64 {
            Some(RequestId::Number(*u as i64))
        } else {
            None
        },
        Json::Number(JsonNumber::NegInt(i)) => Some(RequestId::Number(*i)),
        Json::String(s) => Some(RequestId::String(s.clone())),
        _ => None,
    }
}

/// The minimum peeked from a message.
#[derive(Debug, Clone, PartialEq, Eq, Default)]
pub struct MessageView {
    pub method: Option<String>,
    pub id: Option<RequestId>,
}

/// The mathematical value of a [`MessageView`].
pub ghost struct ViewModel {
    pub method: Option<Seq<char>>,
    pub id: Option<IdModel>,
}

impl View for MessageView {
    type V = ViewModel;

    open spec fn view(&self) -> ViewModel {
        ViewModel {
            method: match self.method {
                Some(m) => Some(m@),
                None => None,
            },
            id: match self.id {
                Some(i) => Some(i@),
                None => None,
            },
        }
    }
}

/// A request needs a response: it has both `method` and `id`.
pub open spec fn is_request_model(v: ViewModel) -> bool {
    v.method is Some && v.id is Some
}

/// A notification needs no response: it has `method` and no `id`.
pub open spec fn is_notification_model(v: ViewModel) -> bool {
    v.method is Some && v.id is None
}

impl MessageView {
    /// A request that needs a response (both `method` and `id`).
    pub fn is_request(&self) -> (r: bool)
        ensures
            r == is_request_model(self@),
    {
        self.method.is_some() && self.id.is_some()
    }

    /// A notification that needs no response (`method` only).
    pub fn is_notification(&self) -> (r: bool)
        ensures
            r == is_notification_model(self@),
    {
        self.method.is_some() && self.id.is_none()
    }

    /// The method name, if any.
    pub fn method(&self) -> (r: Option<&str>)
        ensures
            match r {
                Some(m) => self@.method == Some(m@),
                None => self@.method is None,
            },
    {
        match &self.method {
            Some(m) => Some(m.as_str()),
            None => None,
        }
    }

    /// Whether this is a notification with the method `name`.
    pub fn is_notification_named(&self, name: &str) -> (r: bool)
        ensures
            r == (is_notification_model(self@) && self@.method == Some(name@)),
    {
        match &self.method {
            Some(m) => self.id.is_none() && str_eq(m.as_str(), name),
            None => false,
        }
    }
}

/// What peeking makes of a parsed body: `method` a string, `null` or absent, `id` an id,
/// `null` or absent; anything else, and a value that is not an object, is an error.
pub open spec fn view_of_json(j: JsonModel) -> Option<ViewModel> {
    if !(j is Object) {
        None
    } else {
        let method: Option<Option<Seq<char>>> = match member(j, "method"@) {
            None => Some(None),
            Some(JsonModel::Null) => Some(None),
            Some(JsonModel::String(s)) => Some(Some(s)),
            Some(_) => None,
        };
        let id: Option<Option<IdModel>> = match member(j, "id"@) {
            None => Some(None),
            Some(JsonModel::Null) => Some(None),
            Some(v) => match id_of_json(v) {
                Some(i) => Some(Some(i)),
                None => None,
            },
        };
        match (method, id) {
            (Some(m), Some(i)) => Some(ViewModel { method: m, id: i }),
            _ => None,
        }
    }
}

/// What peeking makes of a body.
pub open spec fn peek_model(body: Seq<u8>) -> Option<ViewModel> {
    match json_parse(body) {
        Some(j) => view_of_json(j),
        None => None,
    }
}

/// Peeks `method` and `id` from a parsed body.
pub fn peek_json(j: &Json) -> (r: Result<MessageView, PeekError>)
    ensures
        match r {
            Ok(v) => view_of_json(j@) == Some(v@),
            Err(_) => view_of_json(j@) is None,
        },
{
    match j {
        Json::Object(_) => {},
        _ => return Err(PeekError::InvalidJson),
    }
    let method: Option<String> = match get(j, "method") {
        None => None,
        Some(Json::Null) => None,
        Some(Json::String(s)) => Some(s.clone()),
        Some(_) => return Err(PeekError::InvalidJson),
    };
    let id: Option<RequestId> = match get(j, "id") {
        None => None,
        Some(Json::Null) => None,
        Some(v) => match id_from_json(v) {
            Some(i) => Some(i),
            None => return Err(PeekError::InvalidJson),
        },
    };
    Ok(MessageView { method, id })
}

/// Peeks `method` and `id` from a message body.
pub fn peek(body: &[u8]) -> (r: Result<MessageView, PeekError>)
    ensures
        match r {
            Ok(v) => peek_model(body@) == Some(v@),
            Err(_) => peek_model(body@) is None,
        },
{
    match parse_json(body) {
        Some(j) => peek_json(&j),
        None => Err(PeekError::InvalidJson),
    }
}

} // verus!

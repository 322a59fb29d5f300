//! Answers to requests.
use vstd::prelude::*;
use vstd::string::*;
use crate::json::{text, to_compact, Fields, Json};
#[allow(unused_imports)]
use crate::json::{compact_text, is_plain, json_in, plain_key, JsonV};
#[allow(unused_imports)]
use vstd::utf8::encode_utf8;

verus! {

/// A status code with a text.
#[derive(Debug)]
pub struct Reply {
    /// HTTP status code.
    pub status: u16,
    /// The body; empty for none.
    pub body: String,
}

/// The contents of a [`Reply`].
#[verifier::ext_equal]
pub struct ReplyV {
    pub status: u16,
    pub body: Seq<char>,
}

impl DeepView for Reply {
    type V = ReplyV;

    open spec fn deep_view(&self) -> ReplyV {
        ReplyV { status: self.status, body: self.body@ }
    }
}

/// A reply as a mathematical value.
pub open spec fn answer(status: u16, body: Seq<char>) -> ReplyV {
    ReplyV { status, body }
}

/// Makes a reply.
pub fn reply(status: u16, body: &str) -> (r: Reply)
    ensures
        r.deep_view() == answer(status, body@),
{
    Reply { status, body: body.to_owned() }
}

/// A JSON value as a reply.
pub open spec fn json_answer(status: u16, v: JsonV) -> ReplyV {
    answer(status, compact_text(v))
}

/// Makes a reply of a JSON value. Its body reads as the value again.
pub fn json_reply(status: u16, j: Json) -> (r: Reply)
    requires
        is_plain(j.deep_view(), 127),
    ensures
        r.deep_view() == json_answer(status, j.deep_view()),
        json_in(encode_utf8(r.body@)) == Some(j.deep_view()),
{
    Reply { status, body: to_compact(j) }
}

/// An object with one text.
pub open spec fn one_text(key: Seq<char>, value: Seq<char>) -> JsonV {
    JsonV::Object(map![key => JsonV::Text(value)])
}

/// Makes a reply of an object with one text. Its body reads as the object again.
pub fn text_reply(status: u16, key: &str, value: &str) -> (r: Reply)
    requires
        plain_key(key@),
    ensures
        r.deep_view() == json_answer(status, one_text(key@, value@)),
        json_in(encode_utf8(r.body@)) == Some(one_text(key@, value@)),
{
    broadcast use crate::json::group_plain;

    json_reply(status, Fields::new().with(key, text(value)).object())
}

/// What a look into the store has found.
#[derive(Debug, Clone, Copy, PartialEq, Eq, Structural)]
pub enum Lookup {
    /// The key is there.
    Found,
    /// The key is not there.
    Missing,
    /// The store could not tell.
    Failed,
}

} // verus!

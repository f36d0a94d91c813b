//! The values that cross the Redis interface, and their models.

use vstd::prelude::*;

use crate::text::int_text;

verus! {

/// A reply as the Redis client returns it. Doubles are held by their bit
/// pattern; `Unsupported` stands for a kind of reply that this interface
/// does not know, with its debug text.
pub enum RedisReply {
    Nil,
    Int(i64),
    BulkString(Vec<u8>),
    Array(Vec<RedisReply>),
    SimpleString(String),
    Okay,
    MapOf(Vec<(RedisReply, RedisReply)>),
    Attribute { data: Box<RedisReply>, attributes: Vec<(RedisReply, RedisReply)> },
    SetOf(Vec<RedisReply>),
    Double(u64),
    Boolean(bool),
    VerbatimString { format: ReplyVerbatimFormat, text: String },
    BigNumber(String),
    Push { kind: ReplyPushKind, data: Vec<RedisReply> },
    ServerError(String),
    Unsupported(String),
}

/// The format of a verbatim string reply; `Unsupported` carries the debug
/// text of a format that this interface does not know.
pub enum ReplyVerbatimFormat {
    Unknown(String),
    Markdown,
    Text,
    Unsupported(String),
}

/// The kind of a push reply; `Unsupported` carries the debug text of a kind
/// that this interface does not know.
pub enum ReplyPushKind {
    Disconnection,
    Other(String),
    Invalidate,
    Message,
    PMessage,
    SMessage,
    Unsubscribe,
    PUnsubscribe,
    SUnsubscribe,
    Subscribe,
    PSubscribe,
    SSubscribe,
    Unsupported(String),
}

/// The format of a verbatim string as plugins see it.
pub enum VerbatimFormat {
    Unknown(String),
    Markdown,
    Text,
}

/// A verbatim string as plugins see it.
pub struct VerbatimString {
    pub format: VerbatimFormat,
    pub text: String,
}

/// The kind of a push message as plugins see it.
pub enum PushKind {
    Disconnection,
    Other(String),
    Invalidate,
    Message,
    Pmessage,
    Smessage,
    Unsubscribe,
    Punsubscribe,
    Sunsubscribe,
    Subscribe,
    Psubscribe,
    Ssubscribe,
}

/// An attribute reply as plugins see it: the handle of its data and the
/// handles of its attribute pairs.
pub struct Attribute {
    pub data: u32,
    pub attributes: Vec<(u32, u32)>,
}

/// A push message as plugins see it: its kind and the handles of its data.
pub struct Push {
    pub kind: PushKind,
    pub data: Vec<u32>,
}

/// A value as plugins see it. Nested values are lazy values, named by
/// their handle (the representation of their resource) in the resource
/// table; doubles are held by their bit pattern.
pub enum RedisValue {
    Nil,
    Int(i64),
    BulkString(Vec<u8>),
    Array(Vec<u32>),
    SimpleString(String),
    Okay,
    MapOf(Vec<(u32, u32)>),
    Attribute(Attribute),
    SetOf(Vec<u32>),
    Double(u64),
    Boolean(bool),
    VerbatimString(VerbatimString),
    BigNumber(String),
    Push(Push),
}

/// The errors of the Redis interface.
pub enum RedisError {
    ServerError(String),
    TypeError(String),
    Other(String),
}

/// An argument of a Redis command.
pub enum RedisArgument {
    I64(i64),
    Str(String),
}

/// A value held behind a lazy-value resource.
pub struct LazyRedisValue {
    pub value: RedisValue,
}

/// How to reach a Redis server.
pub struct RedisConnectionConfig {
    pub url: String,
}

impl LazyRedisValue {
    /// Wraps a value for the resource table.
    pub fn new(value: RedisValue) -> (lazy: LazyRedisValue)
        ensures
            lazy.value == value,
    {
        LazyRedisValue { value }
    }
}

/// The text that a command argument is sent as: the decimal text of an
/// integer, or the string itself.
pub open spec fn argument_text(arg: RedisArgument) -> Seq<char> {
    match arg {
        RedisArgument::I64(v) => int_text(v as int),
        RedisArgument::Str(s) => s@,
    }
}

/// Renders a command argument as the text that the command carries.
pub fn redis_argument_text(arg: &RedisArgument) -> (text: String)
    ensures
        text@ == argument_text(*arg),
{
    match arg {
        RedisArgument::I64(v) => {
            let mut out = String::new();
            crate::text::write_signed(*v, &mut out);
            out
        },
        RedisArgument::Str(s) => s.clone(),
    }
}

// ---------------------------------------------------------------------------
// Models

/// The model of a verbatim format.
pub enum FormatModel {
    Unknown(Seq<char>),
    Markdown,
    Text,
}

/// The model of a push kind.
pub enum KindModel {
    Disconnection,
    Other(Seq<char>),
    Invalidate,
    Message,
    Pmessage,
    Smessage,
    Unsubscribe,
    Punsubscribe,
    Sunsubscribe,
    Subscribe,
    Psubscribe,
    Ssubscribe,
}

/// The model of a value as plugins see it.
pub enum ValueModel {
    Nil,
    Int(i64),
    BulkString(Seq<u8>),
    Array(Seq<u32>),
    SimpleString(Seq<char>),
    Okay,
    MapOf(Seq<(u32, u32)>),
    Attribute(u32, Seq<(u32, u32)>),
    SetOf(Seq<u32>),
    Double(u64),
    Boolean(bool),
    VerbatimString(FormatModel, Seq<char>),
    BigNumber(Seq<char>),
    Push(KindModel, Seq<u32>),
}

/// The model of an error.
pub enum ErrorModel {
    ServerError(Seq<char>),
    TypeError(Seq<char>),
    Other(Seq<char>),
}

impl View for VerbatimFormat {
    type V = FormatModel;

    open spec fn view(&self) -> FormatModel {
        match self {
            VerbatimFormat::Unknown(s) => FormatModel::Unknown(s@),
            VerbatimFormat::Markdown => FormatModel::Markdown,
            VerbatimFormat::Text => FormatModel::Text,
        }
    }
}

impl View for PushKind {
    type V = KindModel;

    open spec fn view(&self) -> KindModel {
        match self {
            PushKind::Disconnection => KindModel::Disconnection,
            PushKind::Other(s) => KindModel::Other(s@),
            PushKind::Invalidate => KindModel::Invalidate,
            PushKind::Message => KindModel::Message,
            PushKind::Pmessage => KindModel::Pmessage,
            PushKind::Smessage => KindModel::Smessage,
            PushKind::Unsubscribe => KindModel::Unsubscribe,
            PushKind::Punsubscribe => KindModel::Punsubscribe,
            PushKind::Sunsubscribe => KindModel::Sunsubscribe,
            PushKind::Subscribe => KindModel::Subscribe,
            PushKind::Psubscribe => KindModel::Psubscribe,
            PushKind::Ssubscribe => KindModel::Ssubscribe,
        }
    }
}

impl View for RedisValue {
    type V = ValueModel;

    open spec fn view(&self) -> ValueModel {
        match self {
            RedisValue::Nil => ValueModel::Nil,
            RedisValue::Int(i) => ValueModel::Int(*i),
            RedisValue::BulkString(b) => ValueModel::BulkString(b@),
            RedisValue::Array(h) => ValueModel::Array(h@),
            RedisValue::SimpleString(s) => ValueModel::SimpleString(s@),
            RedisValue::Okay => ValueModel::Okay,
            RedisValue::MapOf(h) => ValueModel::MapOf(h@),
            RedisValue::Attribute(a) => ValueModel::Attribute(a.data, a.attributes@),
            RedisValue::SetOf(h) => ValueModel::SetOf(h@),
            RedisValue::Double(d) => ValueModel::Double(*d),
            RedisValue::Boolean(b) => ValueModel::Boolean(*b),
            RedisValue::VerbatimString(v) => ValueModel::VerbatimString(v.format@, v.text@),
            RedisValue::BigNumber(s) => ValueModel::BigNumber(s@),
            RedisValue::Push(p) => ValueModel::Push(p.kind@, p.data@),
        }
    }
}

impl View for RedisError {
    type V = ErrorModel;

    open spec fn view(&self) -> ErrorModel {
        match self {
            RedisError::ServerError(s) => ErrorModel::ServerError(s@),
            RedisError::TypeError(s) => ErrorModel::TypeError(s@),
            RedisError::Other(s) => ErrorModel::Other(s@),
        }
    }
}

} // verus!

//! Conversion of Redis replies into component values.

use vstd::prelude::*;

use wasmtime::component::{ResourceTable, ResourceTableError};

use super::table::{lazy_values, table_error_text, table_max, table_push_lazy, table_slots};
use super::types::{
    Attribute, ErrorModel, FormatModel, KindModel, LazyRedisValue, Push, PushKind, RedisError,
    RedisReply, RedisValue, ReplyPushKind, ReplyVerbatimFormat, ValueModel, VerbatimFormat,
    VerbatimString,
};

verus! {

// ---------------------------------------------------------------------------
// What a conversion must give

/// Rust's debug text of a string (`{:?}`): the string quoted and escaped.
pub uninterp spec fn str_debug(s: Seq<char>) -> Seq<char>;

/// The debug text of a string, as `format!("{:?}", s)` writes it.
#[verifier::external_body]
pub(crate) fn debug_str(s: &str) -> (text: String)
    ensures
        text@ == str_debug(s@),
{
    format!("{s:?}")
}

/// The text of an interface error that a nested conversion reports: its
/// debug text, `Error::<variant>(<debug text of the message>)`.
pub open spec fn nested_error_text(e: ErrorModel) -> Seq<char> {
    match e {
        ErrorModel::ServerError(s) => "Error::ServerError("@ + str_debug(s) + ")"@,
        ErrorModel::TypeError(s) => "Error::TypeError("@ + str_debug(s) + ")"@,
        ErrorModel::Other(s) => "Error::Other("@ + str_debug(s) + ")"@,
    }
}

/// An error of a nested value, as the enclosing value reports it.
pub open spec fn nest(e: Option<ErrorModel>) -> Option<ErrorModel> {
    match e {
        Some(e) => Some(ErrorModel::Other(nested_error_text(e))),
        None => None,
    }
}

/// The error that converting `r` meets first, in the order in which the
/// conversion visits the parts of a reply; `None` when every part converts.
pub open spec fn reply_error(r: RedisReply) -> Option<ErrorModel>
    decreases r, 0nat,
{
    match r {
        RedisReply::Array(items) => nest(replies_error(items@)),
        RedisReply::MapOf(pairs) => nest(pairs_error(pairs@)),
        RedisReply::Attribute { data, attributes } => match reply_error(*data) {
            Some(e) => nest(Some(e)),
            None => nest(pairs_error(attributes@)),
        },
        RedisReply::SetOf(items) => nest(replies_error(items@)),
        RedisReply::VerbatimString { format, text } => match format {
            ReplyVerbatimFormat::Unsupported(d) => Some(
                ErrorModel::TypeError("Unknown verbatim format `"@ + d@ + "`"@),
            ),
            _ => None,
        },
        RedisReply::Push { kind, data } => match kind {
            ReplyPushKind::Unsupported(d) => Some(
                ErrorModel::TypeError("Unknown push kind `"@ + d@ + "`"@),
            ),
            _ => nest(replies_error(data@)),
        },
        RedisReply::ServerError(s) => Some(ErrorModel::ServerError(s@)),
        RedisReply::Unsupported(d) => Some(
            ErrorModel::TypeError("Could not convert value `"@ + d@ + "`"@),
        ),
        _ => None,
    }
}

/// The first error among replies converted one after another.
pub open spec fn replies_error(s: Seq<RedisReply>) -> Option<ErrorModel>
    decreases s, 1nat,
{
    if s.len() == 0 {
        None
    } else {
        match reply_error(s[0]) {
            Some(e) => Some(e),
            None => replies_error(s.subrange(1, s.len() as int)),
        }
    }
}

/// The first error among pairs converted one after another, each key
/// before its value.
pub open spec fn pairs_error(s: Seq<(RedisReply, RedisReply)>) -> Option<ErrorModel>
    decreases s, 1nat,
{
    if s.len() == 0 {
        None
    } else {
        match reply_error(s[0].0) {
            Some(e) => Some(e),
            None => match reply_error(s[0].1) {
                Some(e) => Some(e),
                None => pairs_error(s.subrange(1, s.len() as int)),
            },
        }
    }
}

/// Whether the value `v`, read through the lazy values `m`, is the
/// conversion of the reply `r`.
pub open spec fn reply_matches(r: RedisReply, v: ValueModel, m: Map<u32, ValueModel>) -> bool
    decreases r, 0nat,
{
    match r {
        RedisReply::Nil => v == ValueModel::Nil,
        RedisReply::Int(i) => v == ValueModel::Int(i),
        RedisReply::BulkString(b) => v == ValueModel::BulkString(b@),
        RedisReply::Array(items) => match v {
            ValueModel::Array(hs) => replies_match(items@, hs, m),
            _ => false,
        },
        RedisReply::SimpleString(s) => v == ValueModel::SimpleString(s@),
        RedisReply::Okay => v == ValueModel::Okay,
        RedisReply::MapOf(pairs) => match v {
            ValueModel::MapOf(hs) => pairs_match(pairs@, hs, m),
            _ => false,
        },
        RedisReply::Attribute { data, attributes } => match v {
            ValueModel::Attribute(d, hs) => {
                &&& m.contains_key(d)
                &&& reply_matches(*data, m[d], m)
                &&& pairs_match(attributes@, hs, m)
            },
            _ => false,
        },
        RedisReply::SetOf(items) => match v {
            ValueModel::SetOf(hs) => replies_match(items@, hs, m),
            _ => false,
        },
        RedisReply::Double(d) => v == ValueModel::Double(d),
        RedisReply::Boolean(b) => v == ValueModel::Boolean(b),
        RedisReply::VerbatimString { format, text } => match format {
            ReplyVerbatimFormat::Unknown(f) => v == ValueModel::VerbatimString(
                FormatModel::Unknown(f@),
                text@,
            ),
            ReplyVerbatimFormat::Markdown => v == ValueModel::VerbatimString(
                FormatModel::Markdown,
                text@,
            ),
            ReplyVerbatimFormat::Text => v == ValueModel::VerbatimString(FormatModel::Text, text@),
            ReplyVerbatimFormat::Unsupported(_) => false,
        },
        RedisReply::BigNumber(s) => v == ValueModel::BigNumber(s@),
        RedisReply::Push { kind, data } => match v {
            ValueModel::Push(k, hs) => {
                &&& kind_converts(kind, k)
                &&& replies_match(data@, hs, m)
            },
            _ => false,
        },
        RedisReply::ServerError(_) => false,
        RedisReply::Unsupported(_) => false,
    }
}

/// Whether the handles `hs`, read through `m`, are the conversions of the
/// replies `s`, one for one.
pub open spec fn replies_match(s: Seq<RedisReply>, hs: Seq<u32>, m: Map<u32, ValueModel>) -> bool
    decreases s, 1nat,
{
    &&& hs.len() == s.len()
    &&& forall|j: int|
        0 <= j < s.len() ==> m.contains_key(#[trigger] hs[j]) && reply_matches(s[j], m[hs[j]], m)
}

/// Whether the handle pairs `hs`, read through `m`, are the conversions of
/// the reply pairs `s`, one for one.
pub open spec fn pairs_match(
    s: Seq<(RedisReply, RedisReply)>,
    hs: Seq<(u32, u32)>,
    m: Map<u32, ValueModel>,
) -> bool
    decreases s, 1nat,
{
    &&& hs.len() == s.len()
    &&& forall|j: int|
        0 <= j < s.len() ==> {
            &&& m.contains_key(#[trigger] hs[j].0)
            &&& m.contains_key(hs[j].1)
            &&& reply_matches(s[j].0, m[hs[j].0], m)
            &&& reply_matches(s[j].1, m[hs[j].1], m)
        }
}

/// Whether `k` is the push kind that plugins see for the reply's kind.
pub open spec fn kind_converts(kind: ReplyPushKind, k: KindModel) -> bool {
    match kind {
        ReplyPushKind::Disconnection => k == KindModel::Disconnection,
        ReplyPushKind::Other(s) => k == KindModel::Other(s@),
        ReplyPushKind::Invalidate => k == KindModel::Invalidate,
        ReplyPushKind::Message => k == KindModel::Message,
        ReplyPushKind::PMessage => k == KindModel::Pmessage,
        ReplyPushKind::SMessage => k == KindModel::Smessage,
        ReplyPushKind::Unsubscribe => k == KindModel::Unsubscribe,
        ReplyPushKind::PUnsubscribe => k == KindModel::Punsubscribe,
        ReplyPushKind::SUnsubscribe => k == KindModel::Sunsubscribe,
        ReplyPushKind::Subscribe => k == KindModel::Subscribe,
        ReplyPushKind::PSubscribe => k == KindModel::Psubscribe,
        ReplyPushKind::SSubscribe => k == KindModel::Ssubscribe,
        ReplyPushKind::Unsupported(_) => false,
    }
}

/// Whether a reply holds no nested values, so that converting it puts
/// nothing into the table.
pub open spec fn is_plain(r: RedisReply) -> bool {
    !(r is Array || r is MapOf || r is Attribute || r is SetOf || r is Push)
}

/// How many values are nested in a reply, at any depth: the elements of an
/// array, a set or a push, the keys and values of a map, and the data and
/// the attribute keys and values of an attribute reply, with what each of
/// them holds.
pub open spec fn nested_count(r: RedisReply) -> nat
    decreases r, 0nat,
{
    match r {
        RedisReply::Array(items) => replies_count(items@),
        RedisReply::MapOf(pairs) => pairs_count(pairs@),
        RedisReply::Attribute { data, attributes } => 1 + nested_count(*data) + pairs_count(
            attributes@,
        ),
        RedisReply::SetOf(items) => replies_count(items@),
        RedisReply::Push { kind, data } => replies_count(data@),
        _ => 0,
    }
}

/// How many values replies are and hold.
pub open spec fn replies_count(s: Seq<RedisReply>) -> nat
    decreases s, 1nat,
{
    if s.len() == 0 {
        0
    } else {
        replies_count(s.subrange(0, s.len() - 1)) + 1 + nested_count(s[s.len() - 1])
    }
}

/// How many values reply pairs are and hold.
pub open spec fn pairs_count(s: Seq<(RedisReply, RedisReply)>) -> nat
    decreases s, 1nat,
{
    if s.len() == 0 {
        0
    } else {
        pairs_count(s.subrange(0, s.len() - 1)) + 2 + nested_count(s[s.len() - 1].0)
            + nested_count(s[s.len() - 1].1)
    }
}

/// Whether the lazy values `after` are `before` with exactly `added` new
/// ones: every old one is kept, and the table is unchanged or holds
/// `added` more entries.
pub open spec fn grew_from(before: Map<u32, ValueModel>, after: Map<u32, ValueModel>, added: nat) -> bool {
    &&& before.submap_of(after)
    &&& after.dom().len() == before.dom().len() + added
    &&& (after == before || (before.dom().finite() && after.dom().finite()))
}

/// Whether a table has room for `n` more values: its slots and `n` more
/// stay within its limit and within 2^32.
pub open spec fn has_room(table: ResourceTable, n: nat) -> bool {
    &&& table_slots(table) + n <= table_max(table)
    &&& table_slots(table) + n <= 0x1_0000_0000
}

// ---------------------------------------------------------------------------
// Lemmas

/// A conversion stays valid when the table only gains lazy values.
pub proof fn lemma_matches_grow(r: RedisReply, v: ValueModel, m1: Map<u32, ValueModel>, m2: Map<
    u32,
    ValueModel,
>)
    requires
        m1.submap_of(m2),
        reply_matches(r, v, m1),
    ensures
        reply_matches(r, v, m2),
    decreases r, 0nat,
{
    match r {
        RedisReply::Array(items) => {
            lemma_replies_grow(items@, v->Array_0, m1, m2);
        },
        RedisReply::SetOf(items) => {
            lemma_replies_grow(items@, v->SetOf_0, m1, m2);
        },
        RedisReply::Push { kind, data } => {
            lemma_replies_grow(data@, v->Push_1, m1, m2);
        },
        RedisReply::MapOf(pairs) => {
            lemma_pairs_grow(pairs@, v->MapOf_0, m1, m2);
        },
        RedisReply::Attribute { data, attributes } => {
            lemma_matches_grow(*data, m1[v->Attribute_0], m1, m2);
            lemma_pairs_grow(attributes@, v->Attribute_1, m1, m2);
        },
        _ => {},
    }
}

/// A table that grew still holds what it held.
proof fn lemma_submap_at(m1: Map<u32, ValueModel>, m2: Map<u32, ValueModel>, k: u32)
    requires
        m1.submap_of(m2),
        m1.contains_key(k),
    ensures
        m2.contains_key(k),
        m2[k] == m1[k],
{
    assert(m2.dom().contains(k));
}

/// Growing a table twice is growing it once.
proof fn lemma_submap_trans(m1: Map<u32, ValueModel>, m2: Map<u32, ValueModel>, m3: Map<u32, ValueModel>)
    requires
        m1.submap_of(m2),
        m2.submap_of(m3),
    ensures
        m1.submap_of(m3),
{
    assert forall|k: u32| #[trigger] m1.contains_key(k) implies m3.contains_key(k) && m3[k] == m1[k] by {
        lemma_submap_at(m1, m2, k);
        lemma_submap_at(m2, m3, k);
    }
}

/// The first replies hold no more values than all of them.
proof fn lemma_replies_count_take(s: Seq<RedisReply>, k: int)
    requires
        0 <= k <= s.len(),
    ensures
        replies_count(s.take(k)) <= replies_count(s),
    decreases s.len(),
{
    if k < s.len() {
        assert(s.drop_last().take(k) =~= s.take(k));
        lemma_replies_count_take(s.drop_last(), k);
        assert(s.drop_last() =~= s.subrange(0, s.len() - 1));
    } else {
        assert(s.take(k) =~= s);
    }
}

/// The first pairs hold no more values than all of them.
proof fn lemma_pairs_count_take(s: Seq<(RedisReply, RedisReply)>, k: int)
    requires
        0 <= k <= s.len(),
    ensures
        pairs_count(s.take(k)) <= pairs_count(s),
    decreases s.len(),
{
    if k < s.len() {
        assert(s.drop_last().take(k) =~= s.take(k));
        lemma_pairs_count_take(s.drop_last(), k);
        assert(s.drop_last() =~= s.subrange(0, s.len() - 1));
    } else {
        assert(s.take(k) =~= s);
    }
}

/// Growing by `x` and then by `y` is growing by `x + y`.
proof fn lemma_grew_trans(
    a: Map<u32, ValueModel>,
    b: Map<u32, ValueModel>,
    c: Map<u32, ValueModel>,
    x: nat,
    y: nat,
)
    requires
        grew_from(a, b, x),
        grew_from(b, c, y),
    ensures
        grew_from(a, c, x + y),
{
    lemma_submap_trans(a, b, c);
}

/// Adding one new lazy value to a table is growing it by one.
proof fn lemma_grew_push(a: Map<u32, ValueModel>, h: u32, v: ValueModel)
    requires
        a.dom().finite(),
        !a.contains_key(h),
    ensures
        grew_from(a, a.insert(h, v), 1),
{
    assert(a.insert(h, v).dom() =~= a.dom().insert(h));
    assert(a.insert(h, v) != a) by {
        assert(a.insert(h, v).contains_key(h));
    }
}

proof fn lemma_replies_grow(s: Seq<RedisReply>, hs: Seq<u32>, m1: Map<u32, ValueModel>, m2: Map<
    u32,
    ValueModel,
>)
    requires
        m1.submap_of(m2),
        replies_match(s, hs, m1),
    ensures
        replies_match(s, hs, m2),
    decreases s, 1nat,
{
    assert forall|j: int| 0 <= j < s.len() implies m2.contains_key(#[trigger] hs[j])
        && reply_matches(s[j], m2[hs[j]], m2) by {
        lemma_matches_grow(s[j], m1[hs[j]], m1, m2);
    }
}

proof fn lemma_pairs_grow(
    s: Seq<(RedisReply, RedisReply)>,
    hs: Seq<(u32, u32)>,
    m1: Map<u32, ValueModel>,
    m2: Map<u32, ValueModel>,
)
    requires
        m1.submap_of(m2),
        pairs_match(s, hs, m1),
    ensures
        pairs_match(s, hs, m2),
    decreases s, 1nat,
{
    assert forall|j: int| 0 <= j < s.len() implies {
        &&& m2.contains_key(#[trigger] hs[j].0)
        &&& m2.contains_key(hs[j].1)
        &&& reply_matches(s[j].0, m2[hs[j].0], m2)
        &&& reply_matches(s[j].1, m2[hs[j].1], m2)
    } by {
        lemma_matches_grow(s[j].0, m1[hs[j].0], m1, m2);
        lemma_matches_grow(s[j].1, m1[hs[j].1], m1, m2);
    }
}

// ---------------------------------------------------------------------------
// Conversion

/// Why a nested value could not be made a lazy value: its own conversion
/// failed, or the table refused it.
pub enum LazyFailure {
    Value(RedisError),
    Table(ResourceTableError),
}

/// The text of three literal pieces put together.
fn concat3(a: &str, b: &str, c: &str) -> (s: String)
    ensures
        s@ == a@ + b@ + c@,
{
    let mut s = a.to_owned();
    s.append(b);
    s.append(c);
    s
}

/// The interface error that the enclosing value reports for a nested
/// failure.
pub fn nested_failure_error(failure: LazyFailure) -> (e: RedisError)
    ensures
        match failure {
            LazyFailure::Value(x) => e@ == ErrorModel::Other(nested_error_text(x@)),
            LazyFailure::Table(_) => e is Other,
        },
{
    match failure {
        LazyFailure::Value(x) => {
            let text = match &x {
                RedisError::ServerError(s) => concat3(
                    "Error::ServerError(",
                    debug_str(s.as_str()).as_str(),
                    ")",
                ),
                RedisError::TypeError(s) => concat3(
                    "Error::TypeError(",
                    debug_str(s.as_str()).as_str(),
                    ")",
                ),
                RedisError::Other(s) => concat3("Error::Other(", debug_str(s.as_str()).as_str(), ")"),
            };
            RedisError::Other(text)
        },
        LazyFailure::Table(t) => RedisError::Other(table_error_text(&t)),
    }
}

/// What a conversion of `r` into the table `m` promises, given its outcome.
pub open spec fn conversion_outcome(
    r: RedisReply,
    res: Result<ValueModel, ErrorModel>,
    m: Map<u32, ValueModel>,
) -> bool {
    &&& reply_error(r) is Some ==> res is Err
    &&& match res {
        Ok(v) => reply_error(r) is None && reply_matches(r, v, m),
        Err(e) => reply_error(r) == Some(e) || e is Other,
    }
}

/// The model of a conversion's outcome.
pub open spec fn outcome_model(res: Result<RedisValue, RedisError>) -> Result<ValueModel, ErrorModel> {
    match res {
        Ok(v) => Ok(v@),
        Err(e) => Err(e@),
    }
}

/// Converts a reply into the value that plugins see, putting its nested
/// values into the resource table as lazy values. A reply without nested
/// values converts without touching the table, and succeeds unless it is an
/// error of its own; a server error, an unknown verbatim format or push kind
/// and an unsupported reply are reported as such, before anything is put
/// into the table. A successful conversion puts one new lazy value into the
/// table for each value nested in the reply, and nothing else. When the
/// table has room for them, the conversion succeeds exactly when the reply
/// holds no error.
pub fn redis_value_to_wasm(table: &mut ResourceTable, v: RedisReply) -> (r: Result<
    RedisValue,
    RedisError,
>)
    ensures
        lazy_values(*old(table)).submap_of(lazy_values(*final(table))),
        conversion_outcome(v, outcome_model(r), lazy_values(*final(table))),
        is_plain(v) ==> lazy_values(*final(table)) == lazy_values(*old(table)),
        is_plain(v) && reply_error(v) is None ==> r is Ok,
        reply_error(v) matches Some(e) ==> (!(e is Other) ==> outcome_model(r) == Err::<
            ValueModel,
            ErrorModel,
        >(e) && lazy_values(*final(table)) == lazy_values(*old(table))),
        r is Ok ==> grew_from(lazy_values(*old(table)), lazy_values(*final(table)), nested_count(v)),
        has_room(*old(table), nested_count(v)) ==> (r is Ok <==> reply_error(v) is None),
{
    convert_reply(table, &v)
}

fn convert_reply(table: &mut ResourceTable, v: &RedisReply) -> (r: Result<RedisValue, RedisError>)
    ensures
        lazy_values(*old(table)).submap_of(lazy_values(*final(table))),
        conversion_outcome(*v, outcome_model(r), lazy_values(*final(table))),
        is_plain(*v) ==> lazy_values(*final(table)) == lazy_values(*old(table)),
        is_plain(*v) && reply_error(*v) is None ==> r is Ok,
        reply_error(*v) matches Some(e) ==> (!(e is Other) ==> outcome_model(r) == Err::<
            ValueModel,
            ErrorModel,
        >(e) && lazy_values(*final(table)) == lazy_values(*old(table))),
        r is Ok ==> grew_from(lazy_values(*old(table)), lazy_values(*final(table)), nested_count(*v)),
        table_max(*final(table)) == table_max(*old(table)),
        table_slots(*final(table)) <= table_slots(*old(table)) + nested_count(*v),
        has_room(*old(table), nested_count(*v)) && reply_error(*v) is None ==> r is Ok,
    decreases *v, 0nat,
{
    match v {
        RedisReply::Nil => Ok(RedisValue::Nil),
        RedisReply::Int(i) => Ok(RedisValue::Int(*i)),
        RedisReply::BulkString(b) => {
            let copy = b.clone();
            assert(copy@ =~= b@);
            Ok(RedisValue::BulkString(copy))
        },
        RedisReply::Array(items) => match convert_vec_to_wasm(table, items) {
            Ok(hs) => Ok(RedisValue::Array(hs)),
            Err(f) => Err(nested_failure_error(f)),
        },
        RedisReply::SimpleString(s) => Ok(RedisValue::SimpleString(s.clone())),
        RedisReply::Okay => Ok(RedisValue::Okay),
        RedisReply::MapOf(pairs) => match convert_map_to_wasm(table, pairs) {
            Ok(hs) => Ok(RedisValue::MapOf(hs)),
            Err(f) => Err(nested_failure_error(f)),
        },
        RedisReply::Attribute { data, attributes } => {
            let ghost t0 = lazy_values(*table);
            let d = match convert_value_to_lazy(table, &**data) {
                Ok(d) => d,
                Err(f) => {
                    return Err(nested_failure_error(f));
                },
            };
            let ghost t1 = lazy_values(*table);
            match convert_map_to_wasm(table, attributes) {
                Ok(hs) => {
                    proof {
                        lemma_matches_grow(**data, t1[d], t1, lazy_values(*table));
                        lemma_submap_trans(t0, t1, lazy_values(*table));
                        lemma_submap_at(t1, lazy_values(*table), d);
                        lemma_grew_trans(
                            t0,
                            t1,
                            lazy_values(*table),
                            1 + nested_count(**data),
                            pairs_count(attributes@),
                        );
                    }
                    Ok(RedisValue::Attribute(Attribute { data: d, attributes: hs }))
                },
                Err(f) => {
                    proof {
                        lemma_submap_trans(t0, t1, lazy_values(*table));
                    }
                    Err(nested_failure_error(f))
                },
            }
        },
        RedisReply::SetOf(items) => match convert_vec_to_wasm(table, items) {
            Ok(hs) => Ok(RedisValue::SetOf(hs)),
            Err(f) => Err(nested_failure_error(f)),
        },
        RedisReply::Double(d) => Ok(RedisValue::Double(*d)),
        RedisReply::Boolean(b) => Ok(RedisValue::Boolean(*b)),
        RedisReply::VerbatimString { format, text } => {
            let format = match format {
                ReplyVerbatimFormat::Unknown(f) => VerbatimFormat::Unknown(f.clone()),
                ReplyVerbatimFormat::Markdown => VerbatimFormat::Markdown,
                ReplyVerbatimFormat::Text => VerbatimFormat::Text,
                ReplyVerbatimFormat::Unsupported(d) => {
                    return Err(
                        RedisError::TypeError(
                            concat3("Unknown verbatim format `", d.as_str(), "`"),
                        ),
                    );
                },
            };
            Ok(RedisValue::VerbatimString(VerbatimString { format, text: text.clone() }))
        },
        RedisReply::BigNumber(s) => Ok(RedisValue::BigNumber(s.clone())),
        RedisReply::Push { kind, data } => {
            let kind = match kind {
                ReplyPushKind::Disconnection => PushKind::Disconnection,
                ReplyPushKind::Other(k) => PushKind::Other(k.clone()),
                ReplyPushKind::Invalidate => PushKind::Invalidate,
                ReplyPushKind::Message => PushKind::Message,
                ReplyPushKind::PMessage => PushKind::Pmessage,
                ReplyPushKind::SMessage => PushKind::Smessage,
                ReplyPushKind::Unsubscribe => PushKind::Unsubscribe,
                ReplyPushKind::PUnsubscribe => PushKind::Punsubscribe,
                ReplyPushKind::SUnsubscribe => PushKind::Sunsubscribe,
                ReplyPushKind::Subscribe => PushKind::Subscribe,
                ReplyPushKind::PSubscribe => PushKind::Psubscribe,
                ReplyPushKind::SSubscribe => PushKind::Ssubscribe,
                ReplyPushKind::Unsupported(d) => {
                    return Err(
                        RedisError::TypeError(concat3("Unknown push kind `", d.as_str(), "`")),
                    );
                },
            };
            match convert_vec_to_wasm(table, data) {
                Ok(hs) => Ok(RedisValue::Push(Push { kind, data: hs })),
                Err(f) => Err(nested_failure_error(f)),
            }
        },
        RedisReply::ServerError(s) => Err(RedisError::ServerError(s.clone())),
        RedisReply::Unsupported(d) => Err(
            RedisError::TypeError(concat3("Could not convert value `", d.as_str(), "`")),
        ),
    }
}

/// Converts a reply and puts the result into the table as a lazy value,
/// returning its handle.
fn convert_value_to_lazy(table: &mut ResourceTable, v: &RedisReply) -> (r: Result<u32, LazyFailure>)
    ensures
        lazy_values(*old(table)).submap_of(lazy_values(*final(table))),
        reply_error(*v) is Some ==> r is Err,
        match r {
            Ok(h) => {
                &&& reply_error(*v) is None
                &&& lazy_values(*final(table)).contains_key(h)
                &&& reply_matches(*v, lazy_values(*final(table))[h], lazy_values(*final(table)))
            },
            Err(LazyFailure::Value(e)) => reply_error(*v) == Some(e@) || e is Other,
            Err(LazyFailure::Table(_)) => true,
        },
        r is Ok ==> grew_from(lazy_values(*old(table)), lazy_values(*final(table)), 1 + nested_count(*v)),
        table_max(*final(table)) == table_max(*old(table)),
        table_slots(*final(table)) <= table_slots(*old(table)) + 1 + nested_count(*v),
        has_room(*old(table), 1 + nested_count(*v)) && reply_error(*v) is None ==> r is Ok,
    decreases *v, 1nat,
{
    let ghost t0 = lazy_values(*table);
    let value = match convert_reply(table, v) {
        Ok(value) => value,
        Err(e) => {
            return Err(LazyFailure::Value(e));
        },
    };
    let ghost mid = lazy_values(*table);
    let ghost model = value@;
    match table_push_lazy(table, LazyRedisValue::new(value)) {
        Ok(h) => {
            proof {
                assert(mid.submap_of(lazy_values(*table)));
                lemma_matches_grow(*v, model, mid, lazy_values(*table));
                lemma_submap_trans(t0, mid, lazy_values(*table));
                lemma_grew_push(mid, h, model);
                lemma_grew_trans(t0, mid, lazy_values(*table), nested_count(*v), 1);
            }
            Ok(h)
        },
        Err(t) => {
            proof {
                lemma_submap_trans(t0, mid, lazy_values(*table));
            }
            Err(LazyFailure::Table(t))
        },
    }
}

/// Converts replies one after another into lazy values.
fn convert_vec_to_wasm(table: &mut ResourceTable, values: &Vec<RedisReply>) -> (r: Result<
    Vec<u32>,
    LazyFailure,
>)
    ensures
        lazy_values(*old(table)).submap_of(lazy_values(*final(table))),
        replies_error(values@) is Some ==> r is Err,
        match r {
            Ok(hs) => replies_error(values@) is None && replies_match(
                values@,
                hs@,
                lazy_values(*final(table)),
            ),
            Err(LazyFailure::Value(e)) => replies_error(values@) == Some(e@) || e is Other,
            Err(LazyFailure::Table(_)) => true,
        },
        r is Ok ==> grew_from(lazy_values(*old(table)), lazy_values(*final(table)), replies_count(values@)),
        table_max(*final(table)) == table_max(*old(table)),
        table_slots(*final(table)) <= table_slots(*old(table)) + replies_count(values@),
        has_room(*old(table), replies_count(values@)) && replies_error(values@) is None ==> r is Ok,
    decreases *values, 2nat,
{
    let ghost t0 = lazy_values(*table);
    let ghost tab0 = *table;
    let n = values.len();
    let mut result: Vec<u32> = Vec::new();
    let mut i: usize = 0;
    assert(values@.subrange(0, n as int) =~= values@);
    while i < n
        invariant
            n == values@.len(),
            0 <= i <= n,
            t0.submap_of(lazy_values(*table)),
            t0 == lazy_values(*old(table)),
            result@.len() == i,
            forall|j: int|
                0 <= j < i ==> lazy_values(*table).contains_key(#[trigger] result@[j])
                    && reply_matches(values@[j], lazy_values(*table)[result@[j]], lazy_values(*table)),
            replies_error(values@) == replies_error(values@.subrange(i as int, n as int)),
            grew_from(t0, lazy_values(*table), replies_count(values@.subrange(0, i as int))),
            tab0 == *old(table),
            table_max(*table) == table_max(tab0),
            table_slots(*table) <= table_slots(tab0) + replies_count(values@.subrange(0, i as int)),
        decreases n - i,
    {
        let ghost before = lazy_values(*table);
        let ghost tb = *table;
        let ghost rest = values@.subrange(i as int, n as int);
        assert(rest[0] == values@[i as int]);
        proof {
            assert(values@.subrange(0, i + 1).subrange(0, i as int) =~= values@.subrange(0, i as int));
            assert(values@.subrange(0, i + 1)[i as int] == values@[i as int]);
            assert(replies_count(values@.subrange(0, i + 1)) == replies_count(values@.subrange(0, i as int))
                + 1 + nested_count(values@[i as int]));
            lemma_replies_count_take(values@, i + 1);
            assert(values@.take(i + 1) == values@.subrange(0, i + 1));
        }
        assert(rest.subrange(1, rest.len() as int) =~= values@.subrange(i + 1, n as int));
        assert(decreases_to!(*values => values@[i as int]));
        match convert_value_to_lazy(table, &values[i]) {
            Ok(h) => {
                proof {
                    let now = lazy_values(*table);
                    lemma_submap_trans(t0, before, now);
                    lemma_grew_trans(
                        t0,
                        before,
                        now,
                        replies_count(values@.subrange(0, i as int)),
                        1 + nested_count(values@[i as int]),
                    );
                    assert(values@.subrange(0, i + 1).subrange(0, i as int) =~= values@.subrange(
                        0,
                        i as int,
                    ));
                    assert forall|j: int| 0 <= j < i implies now.contains_key(#[trigger] result@[j])
                        && reply_matches(values@[j], now[result@[j]], now) by {
                        lemma_submap_at(before, now, result@[j]);
                        lemma_matches_grow(values@[j], before[result@[j]], before, now);
                    }
                }
                result.push(h);
            },
            Err(f) => {
                proof {
                    lemma_submap_trans(t0, before, lazy_values(*table));
                }
                return Err(f);
            },
        }
        i = i + 1;
    }
    proof {
        assert(values@.subrange(n as int, n as int).len() == 0);
    }
    Ok(result)
}

/// Converts reply pairs one after another, each key before its value, into
/// pairs of lazy values.
fn convert_map_to_wasm(table: &mut ResourceTable, values: &Vec<(RedisReply, RedisReply)>) -> (r:
    Result<Vec<(u32, u32)>, LazyFailure>)
    ensures
        lazy_values(*old(table)).submap_of(lazy_values(*final(table))),
        pairs_error(values@) is Some ==> r is Err,
        match r {
            Ok(hs) => pairs_error(values@) is None && pairs_match(
                values@,
                hs@,
                lazy_values(*final(table)),
            ),
            Err(LazyFailure::Value(e)) => pairs_error(values@) == Some(e@) || e is Other,
            Err(LazyFailure::Table(_)) => true,
        },
        r is Ok ==> grew_from(lazy_values(*old(table)), lazy_values(*final(table)), pairs_count(values@)),
        table_max(*final(table)) == table_max(*old(table)),
        table_slots(*final(table)) <= table_slots(*old(table)) + pairs_count(values@),
        has_room(*old(table), pairs_count(values@)) && pairs_error(values@) is None ==> r is Ok,
    decreases *values, 2nat,
{
    let ghost t0 = lazy_values(*table);
    let ghost tab0 = *table;
    let n = values.len();
    let mut result: Vec<(u32, u32)> = Vec::new();
    let mut i: usize = 0;
    assert(values@.subrange(0, n as int) =~= values@);
    while i < n
        invariant
            n == values@.len(),
            0 <= i <= n,
            t0.submap_of(lazy_values(*table)),
            t0 == lazy_values(*old(table)),
            result@.len() == i,
            forall|j: int|
                0 <= j < i ==> {
                    &&& lazy_values(*table).contains_key(#[trigger] result@[j].0)
                    &&& lazy_values(*table).contains_key(result@[j].1)
                    &&& reply_matches(values@[j].0, lazy_values(*table)[result@[j].0], lazy_values(*table))
                    &&& reply_matches(values@[j].1, lazy_values(*table)[result@[j].1], lazy_values(*table))
                },
            pairs_error(values@) == pairs_error(values@.subrange(i as int, n as int)),
            grew_from(t0, lazy_values(*table), pairs_count(values@.subrange(0, i as int))),
            tab0 == *old(table),
            table_max(*table) == table_max(tab0),
            table_slots(*table) <= table_slots(tab0) + pairs_count(values@.subrange(0, i as int)),
        decreases n - i,
    {
        let ghost before = lazy_values(*table);
        let ghost rest = values@.subrange(i as int, n as int);
        assert(rest[0] == values@[i as int]);
        proof {
            assert(values@.subrange(0, i + 1).subrange(0, i as int) =~= values@.subrange(0, i as int));
            assert(values@.subrange(0, i + 1)[i as int] == values@[i as int]);
            assert(pairs_count(values@.subrange(0, i + 1)) == pairs_count(values@.subrange(0, i as int))
                + 2 + nested_count(values@[i as int].0) + nested_count(values@[i as int].1));
            lemma_pairs_count_take(values@, i + 1);
            assert(values@.take(i + 1) == values@.subrange(0, i + 1));
        }
        assert(rest.subrange(1, rest.len() as int) =~= values@.subrange(i + 1, n as int));
        assert(decreases_to!(*values => values@[i as int]));
        assert(decreases_to!(values@[i as int] => values@[i as int].0));
        assert(decreases_to!(values@[i as int] => values@[i as int].1));
        let key = match convert_value_to_lazy(table, &values[i].0) {
            Ok(h) => h,
            Err(f) => {
                proof {
                    lemma_submap_trans(t0, before, lazy_values(*table));
                }
                return Err(f);
            },
        };
        let ghost middle = lazy_values(*table);
        let value = match convert_value_to_lazy(table, &values[i].1) {
            Ok(h) => h,
            Err(f) => {
                proof {
                    lemma_submap_trans(before, middle, lazy_values(*table));
                    lemma_submap_trans(t0, before, lazy_values(*table));
                }
                return Err(f);
            },
        };
        proof {
            let now = lazy_values(*table);
            lemma_submap_trans(before, middle, now);
            lemma_submap_trans(t0, before, now);
            lemma_grew_trans(
                before,
                middle,
                now,
                1 + nested_count(values@[i as int].0),
                1 + nested_count(values@[i as int].1),
            );
            lemma_grew_trans(
                t0,
                before,
                now,
                pairs_count(values@.subrange(0, i as int)),
                (1 + nested_count(values@[i as int].0)) + (1 + nested_count(values@[i as int].1)),
            );
            assert(values@.subrange(0, i + 1).subrange(0, i as int) =~= values@.subrange(
                0,
                i as int,
            ));
            assert(values@.subrange(0, i + 1)[i as int] == values@[i as int]);
            assert(pairs_count(values@.subrange(0, i + 1)) == pairs_count(values@.subrange(0, i as int))
                + 2 + nested_count(values@[i as int].0) + nested_count(values@[i as int].1));
            assert(grew_from(t0, now, pairs_count(values@.subrange(0, i + 1))));
            lemma_submap_at(middle, now, key);
            lemma_matches_grow(values@[i as int].0, middle[key], middle, lazy_values(*table));
            assert forall|j: int| 0 <= j < i implies {
                &&& lazy_values(*table).contains_key(#[trigger] result@[j].0)
                &&& lazy_values(*table).contains_key(result@[j].1)
                &&& reply_matches(values@[j].0, lazy_values(*table)[result@[j].0], lazy_values(*table))
                &&& reply_matches(values@[j].1, lazy_values(*table)[result@[j].1], lazy_values(*table))
            } by {
                lemma_submap_at(before, lazy_values(*table), result@[j].0);
                lemma_submap_at(before, lazy_values(*table), result@[j].1);
                lemma_matches_grow(values@[j].0, before[result@[j].0], before, lazy_values(*table));
                lemma_matches_grow(values@[j].1, before[result@[j].1], before, lazy_values(*table));
            }
        }
        result.push((key, value));
        i = i + 1;
    }
    proof {
        assert(values@.subrange(n as int, n as int).len() == 0);
    }
    Ok(result)
}

/// The push kind that plugins see is the reply's own kind, one for one:
/// each kind of the protocol goes to the kind of the same name, and an
/// unknown kind's name is kept.
pub proof fn law_push_kind_same_name(k: KindModel, s: String)
    ensures
        kind_converts(ReplyPushKind::Disconnection, k) <==> k == KindModel::Disconnection,
        kind_converts(ReplyPushKind::Other(s), k) <==> k == KindModel::Other(s@),
        kind_converts(ReplyPushKind::Invalidate, k) <==> k == KindModel::Invalidate,
        kind_converts(ReplyPushKind::Message, k) <==> k == KindModel::Message,
        kind_converts(ReplyPushKind::PMessage, k) <==> k == KindModel::Pmessage,
        kind_converts(ReplyPushKind::SMessage, k) <==> k == KindModel::Smessage,
        kind_converts(ReplyPushKind::Unsubscribe, k) <==> k == KindModel::Unsubscribe,
        kind_converts(ReplyPushKind::PUnsubscribe, k) <==> k == KindModel::Punsubscribe,
        kind_converts(ReplyPushKind::SUnsubscribe, k) <==> k == KindModel::Sunsubscribe,
        kind_converts(ReplyPushKind::Subscribe, k) <==> k == KindModel::Subscribe,
        kind_converts(ReplyPushKind::PSubscribe, k) <==> k == KindModel::Psubscribe,
        kind_converts(ReplyPushKind::SSubscribe, k) <==> k == KindModel::Ssubscribe,
        !kind_converts(ReplyPushKind::Unsupported(s), k),
{
}

/// Two different push kinds never reach plugins as the same kind.
pub proof fn law_push_kind_injective(a: ReplyPushKind, b: ReplyPushKind, k: KindModel)
    requires
        kind_converts(a, k),
        kind_converts(b, k),
    ensures
        a == b || (a matches ReplyPushKind::Other(x) && b matches ReplyPushKind::Other(y) && x@ == y@),
{
}

} // verus!

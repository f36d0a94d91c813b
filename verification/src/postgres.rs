//! The PostgreSQL interface of plugins: column values as plugins see them,
//! decoded from PostgreSQL's binary format, and the types of parameters and
//! columns.

use vstd::prelude::*;

use tokio_postgres::types::private::BytesMut;
use tokio_postgres::types::{FromSql, ToSql, Type};

verus! {

/// The PostgreSQL types that the interface tells apart.
pub enum PgType {
    Bytea,
    Bool,
    Int4,
    Int8,
    Text,
    Timestamp,
    Uuid,
    /// Any other type, by its name.
    Other(String),
}

/// A column value as plugins see it.
pub enum Value {
    Binary(Vec<u8>),
    Boolean(bool),
    Int32(i32),
    Int64(i64),
    Text(String),
    /// The raw bytes of a value of a type that the interface does not decode.
    Unsupported(Vec<u8>),
    PgNull,
}

/// The type of a column as plugins see it.
pub enum DataType {
    Binary,
    Boolean,
    Int32,
    Int64,
    Text,
    Timestamp,
    Uuid,
    Other(String),
}

/// The kinds of parameter that plugins bind to a statement.
pub enum ParameterKind {
    Binary,
    Boolean,
    Int32,
    Int64,
    Text,
    Timestamp,
    Uuid,
    PgNull,
}

/// A column's name and type.
pub struct Column {
    pub name: String,
    pub data_type: DataType,
}

/// How PostgreSQL's binary format writes a 32-bit integer: four bytes, most
/// significant first, in two's complement.
pub open spec fn be_i32(b: Seq<u8>) -> int {
    let u = b[0] * 16777216 + b[1] * 65536 + b[2] * 256 + b[3] as int;
    if u >= 0x8000_0000 {
        u - 0x1_0000_0000
    } else {
        u
    }
}

/// How PostgreSQL's binary format writes a 64-bit integer: eight bytes, most
/// significant first, in two's complement.
pub open spec fn be_i64(b: Seq<u8>) -> int {
    let hi = b[0] * 16777216 + b[1] * 65536 + b[2] * 256 + b[3] as int;
    let lo = b[4] * 16777216 + b[5] * 65536 + b[6] * 256 + b[7] as int;
    let u = hi * 0x1_0000_0000 + lo;
    if u >= 0x8000_0000_0000_0000 {
        u - 0x1_0000_0000_0000_0000
    } else {
        u
    }
}

/// `bool::from_sql`: one byte, which is true when it is not zero.
#[verifier::external_body]
fn bool_from_sql(raw: &[u8]) -> (r: Result<bool, String>)
    ensures
        r is Ok <==> raw@.len() == 1,
        r is Ok ==> r->Ok_0 == (raw@[0] != 0),
{
    match <bool as FromSql>::from_sql(&Type::BOOL, raw) {
        Ok(b) => Ok(b),
        Err(e) => Err(e.to_string()),
    }
}

/// `i32::from_sql`: exactly four bytes, big-endian.
#[verifier::external_body]
fn i32_from_sql(raw: &[u8]) -> (r: Result<i32, String>)
    ensures
        r is Ok <==> raw@.len() == 4,
        r is Ok ==> r->Ok_0 as int == be_i32(raw@),
{
    match <i32 as FromSql>::from_sql(&Type::INT4, raw) {
        Ok(v) => Ok(v),
        Err(e) => Err(e.to_string()),
    }
}

/// `i64::from_sql`: exactly eight bytes, big-endian.
#[verifier::external_body]
fn i64_from_sql(raw: &[u8]) -> (r: Result<i64, String>)
    ensures
        r is Ok <==> raw@.len() == 8,
        r is Ok ==> r->Ok_0 as int == be_i64(raw@),
{
    match <i64 as FromSql>::from_sql(&Type::INT8, raw) {
        Ok(v) => Ok(v),
        Err(e) => Err(e.to_string()),
    }
}

/// `String::from_sql` for a `TEXT` value: the bytes as UTF-8, refused when
/// they are not valid UTF-8.
#[verifier::external_body]
fn text_from_sql(raw: &[u8]) -> (r: Result<String, String>)
    ensures
        r is Ok <==> vstd::utf8::valid_utf8(raw@),
        r is Ok ==> r->Ok_0@ == vstd::utf8::decode_utf8(raw@),
{
    match <String as FromSql>::from_sql(&Type::TEXT, raw) {
        Ok(s) => Ok(s),
        Err(e) => Err(e.to_string()),
    }
}

/// `Vec::<u8>::from_sql` for a `BYTEA` value: the bytes themselves.
#[verifier::external_body]
fn bytea_from_sql(raw: &[u8]) -> (r: Result<Vec<u8>, String>)
    ensures
        r is Ok,
        r is Ok ==> r->Ok_0@ == raw@,
{
    match <Vec<u8> as FromSql>::from_sql(&Type::BYTEA, raw) {
        Ok(b) => Ok(b),
        Err(e) => Err(e.to_string()),
    }
}

/// Whether the interface decodes values of this type (timestamps and UUIDs
/// are not decoded yet).
pub open spec fn is_decodable(ty: PgType) -> bool {
    !(ty is Timestamp) && !(ty is Uuid)
}

/// The value that a non-null column of type `ty` with the bytes `raw`
/// decodes to; `None` when the bytes are not a value of the type.
pub open spec fn decoded_value(ty: PgType, raw: Seq<u8>) -> Option<ValueModel> {
    match ty {
        PgType::Bytea => Some(ValueModel::Binary(raw)),
        PgType::Bool => if raw.len() == 1 {
            Some(ValueModel::Boolean(raw[0] != 0))
        } else {
            None
        },
        PgType::Int4 => if raw.len() == 4 {
            Some(ValueModel::Int32(be_i32(raw)))
        } else {
            None
        },
        PgType::Int8 => if raw.len() == 8 {
            Some(ValueModel::Int64(be_i64(raw)))
        } else {
            None
        },
        PgType::Text => if vstd::utf8::valid_utf8(raw) {
            Some(ValueModel::Text(vstd::utf8::decode_utf8(raw)))
        } else {
            None
        },
        _ => Some(ValueModel::Unsupported(raw)),
    }
}

/// The model of a column value.
pub enum ValueModel {
    Binary(Seq<u8>),
    Boolean(bool),
    Int32(int),
    Int64(int),
    Text(Seq<char>),
    Unsupported(Seq<u8>),
    PgNull,
}

impl View for Value {
    type V = ValueModel;

    open spec fn view(&self) -> ValueModel {
        match self {
            Value::Binary(b) => ValueModel::Binary(b@),
            Value::Boolean(b) => ValueModel::Boolean(*b),
            Value::Int32(v) => ValueModel::Int32(*v as int),
            Value::Int64(v) => ValueModel::Int64(*v as int),
            Value::Text(s) => ValueModel::Text(s@),
            Value::Unsupported(b) => ValueModel::Unsupported(b@),
            Value::PgNull => ValueModel::PgNull,
        }
    }
}

/// Decodes a non-null column value of type `ty` from PostgreSQL's binary
/// format; the error carries the decoder's message.
pub fn value_from_sql(ty: &PgType, raw: &[u8]) -> (r: Result<Value, String>)
    requires
        is_decodable(*ty),
    ensures
        r is Ok <==> decoded_value(*ty, raw@) is Some,
        r is Ok ==> decoded_value(*ty, raw@) == Some(r->Ok_0@),
{
    match ty {
        PgType::Bytea => match bytea_from_sql(raw) {
            Ok(b) => Ok(Value::Binary(b)),
            Err(e) => Err(e),
        },
        PgType::Bool => match bool_from_sql(raw) {
            Ok(b) => Ok(Value::Boolean(b)),
            Err(e) => Err(e),
        },
        PgType::Int4 => match i32_from_sql(raw) {
            Ok(v) => Ok(Value::Int32(v)),
            Err(e) => Err(e),
        },
        PgType::Int8 => match i64_from_sql(raw) {
            Ok(v) => Ok(Value::Int64(v)),
            Err(e) => Err(e),
        },
        PgType::Text => match text_from_sql(raw) {
            Ok(s) => Ok(Value::Text(s)),
            Err(e) => Err(e),
        },
        _ => Ok(Value::Unsupported(vstd::slice::slice_to_vec(raw))),
    }
}

/// The value of a null column.
pub fn value_from_sql_null() -> (v: Value)
    ensures
        v is PgNull,
{
    Value::PgNull
}

/// Whether `d` is the type that plugins see for a column of type `ty`: the
/// same kind, and for any other type its name.
pub open spec fn is_data_type_of(ty: PgType, d: DataType) -> bool {
    match ty {
        PgType::Bytea => d is Binary,
        PgType::Bool => d is Boolean,
        PgType::Int4 => d is Int32,
        PgType::Int8 => d is Int64,
        PgType::Text => d is Text,
        PgType::Timestamp => d is Timestamp,
        PgType::Uuid => d is Uuid,
        PgType::Other(name) => (d matches DataType::Other(n) && n@ == name@),
    }
}

/// The type that plugins see for a column of type `ty`.
pub fn data_type_of(ty: &PgType) -> (d: DataType)
    ensures
        is_data_type_of(*ty, d),
{
    match ty {
        PgType::Bytea => DataType::Binary,
        PgType::Bool => DataType::Boolean,
        PgType::Int4 => DataType::Int32,
        PgType::Int8 => DataType::Int64,
        PgType::Text => DataType::Text,
        PgType::Timestamp => DataType::Timestamp,
        PgType::Uuid => DataType::Uuid,
        PgType::Other(name) => DataType::Other(name.clone()),
    }
}

/// The PostgreSQL type that a parameter of the given kind is bound as; a
/// null parameter is bound as `ANY`, which the interface counts among the
/// other types.
pub fn parameter_type(kind: &ParameterKind) -> (ty: PgType)
    ensures
        match *kind {
            ParameterKind::Binary => ty is Bytea,
            ParameterKind::Boolean => ty is Bool,
            ParameterKind::Int32 => ty is Int4,
            ParameterKind::Int64 => ty is Int8,
            ParameterKind::Text => ty is Text,
            ParameterKind::Timestamp => ty is Timestamp,
            ParameterKind::Uuid => ty is Uuid,
            ParameterKind::PgNull => ty matches PgType::Other(n) && n@ == "any"@,
        },
{
    match kind {
        ParameterKind::Binary => PgType::Bytea,
        ParameterKind::Boolean => PgType::Bool,
        ParameterKind::Int32 => PgType::Int4,
        ParameterKind::Int64 => PgType::Int8,
        ParameterKind::Text => PgType::Text,
        ParameterKind::Timestamp => PgType::Timestamp,
        ParameterKind::Uuid => PgType::Uuid,
        ParameterKind::PgNull => PgType::Other("any".to_owned()),
    }
}

/// A column of a result: its name, and its type as plugins see it (see
/// [`data_type_of`]).
pub fn column_of(name: &str, ty: &PgType) -> (c: Column)
    ensures
        c.name@ == name@,
        is_data_type_of(*ty, c.data_type),
{
    Column { name: name.to_owned(), data_type: data_type_of(ty) }
}

/// A parameter value that a plugin binds to a statement.
pub enum Parameter {
    Binary(Vec<u8>),
    Boolean(bool),
    Int32(i32),
    Int64(i64),
    Text(String),
    PgNull,
}

/// The value that a non-null parameter stands for, as a column would
/// hold it.
pub open spec fn parameter_value(p: Parameter) -> ValueModel {
    match p {
        Parameter::Binary(b) => ValueModel::Binary(b@),
        Parameter::Boolean(v) => ValueModel::Boolean(v),
        Parameter::Int32(v) => ValueModel::Int32(v as int),
        Parameter::Int64(v) => ValueModel::Int64(v as int),
        Parameter::Text(s) => ValueModel::Text(s@),
        Parameter::PgNull => ValueModel::PgNull,
    }
}

/// The type that a non-null parameter is bound as.
pub open spec fn bound_type(p: Parameter) -> Option<PgType> {
    match p {
        Parameter::Binary(_) => Some(PgType::Bytea),
        Parameter::Boolean(_) => Some(PgType::Bool),
        Parameter::Int32(_) => Some(PgType::Int4),
        Parameter::Int64(_) => Some(PgType::Int8),
        Parameter::Text(_) => Some(PgType::Text),
        Parameter::PgNull => None,
    }
}

/// Whether `out` is how a parameter goes over the wire in PostgreSQL's
/// binary format: the bytes of a bytea, one byte 1 or 0 for a boolean, the
/// big-endian two's complement of an integer, the UTF-8 of a text, and no
/// bytes at all (SQL `NULL`) for a null parameter.
pub open spec fn is_encoding(p: Parameter, out: Option<Seq<u8>>) -> bool {
    match p {
        Parameter::Binary(b) => out == Some(b@),
        Parameter::Boolean(v) => out == Some(seq![if v { 1u8 } else { 0u8 }]),
        Parameter::Int32(v) => (out matches Some(bytes) && bytes.len() == 4 && be_i32(bytes) == v),
        Parameter::Int64(v) => (out matches Some(bytes) && bytes.len() == 8 && be_i64(bytes) == v),
        Parameter::Text(s) => out == Some(vstd::utf8::encode_utf8(s@)),
        Parameter::PgNull => out is None,
    }
}

/// `bool::to_sql`: one byte, 1 for true and 0 for false.
#[verifier::external_body]
fn bool_to_sql(v: bool) -> (r: Result<Vec<u8>, String>)
    ensures
        r is Ok,
        r matches Ok(out) ==> out@ == seq![if v { 1u8 } else { 0u8 }],
{
    let mut buf = BytesMut::new();
    match <bool as ToSql>::to_sql(&v, &Type::BOOL, &mut buf) {
        Ok(_) => Ok(buf.to_vec()),
        Err(e) => Err(e.to_string()),
    }
}

/// `i32::to_sql`: four bytes, big-endian.
#[verifier::external_body]
fn i32_to_sql(v: i32) -> (r: Result<Vec<u8>, String>)
    ensures
        r is Ok,
        r matches Ok(out) ==> out@.len() == 4 && be_i32(out@) == v,
{
    let mut buf = BytesMut::new();
    match <i32 as ToSql>::to_sql(&v, &Type::INT4, &mut buf) {
        Ok(_) => Ok(buf.to_vec()),
        Err(e) => Err(e.to_string()),
    }
}

/// `i64::to_sql`: eight bytes, big-endian.
#[verifier::external_body]
fn i64_to_sql(v: i64) -> (r: Result<Vec<u8>, String>)
    ensures
        r is Ok,
        r matches Ok(out) ==> out@.len() == 8 && be_i64(out@) == v,
{
    let mut buf = BytesMut::new();
    match <i64 as ToSql>::to_sql(&v, &Type::INT8, &mut buf) {
        Ok(_) => Ok(buf.to_vec()),
        Err(e) => Err(e.to_string()),
    }
}

/// `String::to_sql` for a `TEXT` value: the string's UTF-8 bytes.
#[verifier::external_body]
fn text_to_sql(v: &String) -> (r: Result<Vec<u8>, String>)
    ensures
        r is Ok,
        r matches Ok(out) ==> out@ == vstd::utf8::encode_utf8(v@),
{
    let mut buf = BytesMut::new();
    match <String as ToSql>::to_sql(v, &Type::TEXT, &mut buf) {
        Ok(_) => Ok(buf.to_vec()),
        Err(e) => Err(e.to_string()),
    }
}

/// `Vec::<u8>::to_sql`: the bytes themselves.
#[verifier::external_body]
fn bytea_to_sql(v: &Vec<u8>) -> (r: Result<Vec<u8>, String>)
    ensures
        r is Ok,
        r matches Ok(out) ==> out@ == v@,
{
    let mut buf = BytesMut::new();
    match <Vec<u8> as ToSql>::to_sql(v, &Type::BYTEA, &mut buf) {
        Ok(_) => Ok(buf.to_vec()),
        Err(e) => Err(e.to_string()),
    }
}

impl Parameter {
    /// The type that this parameter is bound as (see [`parameter_type`]).
    pub fn get_oid(&self) -> (ty: PgType)
        ensures
            bound_type(*self) matches Some(t) ==> ty == t,
            *self is PgNull ==> (ty matches PgType::Other(n) && n@ == "any"@),
    {
        let kind = match self {
            Parameter::Binary(_) => ParameterKind::Binary,
            Parameter::Boolean(_) => ParameterKind::Boolean,
            Parameter::Int32(_) => ParameterKind::Int32,
            Parameter::Int64(_) => ParameterKind::Int64,
            Parameter::Text(_) => ParameterKind::Text,
            Parameter::PgNull => ParameterKind::PgNull,
        };
        parameter_type(&kind)
    }

    /// Writes this parameter in PostgreSQL's binary format (see
    /// [`is_encoding`]); `Ok(None)` is SQL `NULL`.
    pub fn to_sql(&self) -> (r: Result<Option<Vec<u8>>, String>)
        ensures
            r is Ok,
            r matches Ok(out) ==> is_encoding(
                *self,
                match out {
                    Some(b) => Some(b@),
                    None => None,
                },
            ),
    {
        let bytes = match self {
            Parameter::Binary(b) => bytea_to_sql(b),
            Parameter::Boolean(v) => bool_to_sql(*v),
            Parameter::Int32(v) => i32_to_sql(*v),
            Parameter::Int64(v) => i64_to_sql(*v),
            Parameter::Text(s) => text_to_sql(s),
            Parameter::PgNull => return Ok(None),
        };
        match bytes {
            Ok(b) => Ok(Some(b)),
            Err(e) => Err(e),
        }
    }
}

/// A non-null parameter, written in PostgreSQL's binary format and read back
/// as a column of the type it was bound as, gives back its own value.
pub proof fn law_parameter_round_trip(p: Parameter, out: Seq<u8>)
    requires
        !(p is PgNull),
        is_encoding(p, Some(out)),
    ensures
        bound_type(p) matches Some(t) && decoded_value(t, out) == Some(parameter_value(p)),
{
    broadcast use vstd::utf8::encode_utf8_valid_utf8, vstd::utf8::encode_utf8_decode_utf8;
}

/// The rows of a query's result as plugins see them: the columns, and each
/// row's values.
pub struct RowSet {
    pub columns: Vec<Column>,
    pub rows: Vec<Vec<Value>>,
}

/// A cell of a result row as its bytes, `None` for SQL `NULL`.
pub open spec fn cell_bytes(cell: Option<Vec<u8>>) -> Option<Seq<u8>> {
    match cell {
        Some(b) => Some(b@),
        None => None,
    }
}

/// The value that a cell of a column of type `ty` decodes to: `PgNull` for
/// SQL `NULL`, otherwise its decoded bytes; `None` when they do not decode.
pub open spec fn cell_value(ty: PgType, cell: Option<Seq<u8>>) -> Option<ValueModel> {
    match cell {
        None => Some(ValueModel::PgNull),
        Some(b) => decoded_value(ty, b),
    }
}

/// Whether the cell in row `i`, column `j` decodes.
pub open spec fn cell_ok(columns: Seq<(String, PgType)>, rows: Seq<Vec<Option<Vec<u8>>>>, i: int, j: int) -> bool {
    cell_value(columns[j].1, cell_bytes(rows[i]@[j])) is Some
}

/// Whether every cell before row `i`, column `j`, row by row, decodes.
pub open spec fn cells_ok_before(
    columns: Seq<(String, PgType)>,
    rows: Seq<Vec<Option<Vec<u8>>>>,
    i: int,
    j: int,
) -> bool {
    forall|a: int, b: int|
        0 <= a <= i && 0 <= b < columns.len() && (a < i || b < j) ==> #[trigger] cell_ok(
            columns,
            rows,
            a,
            b,
        )
}

/// The error text of a cell that does not decode.
pub open spec fn column_error(j: nat) -> Seq<char> {
    "error deserializing column "@ + crate::text::dec_digits(j)
}

/// The rows of a query's result as plugins see them, from the result's
/// columns (name and type) and each row's cells. No rows give no columns
/// either. Every cell is decoded, row by row; the first that does not
/// decode fails the whole result with `error deserializing column <n>`.
/// A non-null timestamp or UUID cell is not decoded yet.
pub fn row_set(columns: &Vec<(String, PgType)>, rows: &Vec<Vec<Option<Vec<u8>>>>) -> (r: Result<
    RowSet,
    String,
>)
    requires
        forall|i: int| 0 <= i < rows@.len() ==> #[trigger] rows@[i]@.len() == columns@.len(),
        forall|i: int, j: int|
            0 <= i < rows@.len() && 0 <= j < columns@.len() && #[trigger] rows@[i]@[j] is Some
                ==> is_decodable(columns@[j].1),
    ensures
        rows@.len() == 0 ==> (r matches Ok(set) && set.columns@.len() == 0 && set.rows@.len() == 0),
        r is Ok <==> cells_ok_before(columns@, rows@, rows@.len() as int, 0),
        r matches Ok(set) ==> (rows@.len() > 0 ==> {
            &&& set.columns@.len() == columns@.len()
            &&& forall|j: int| 0 <= j < columns@.len() ==> (#[trigger] set.columns@[j]).name@
                == columns@[j].0@ && is_data_type_of(columns@[j].1, set.columns@[j].data_type)
            &&& set.rows@.len() == rows@.len()
            &&& forall|i: int| 0 <= i < rows@.len() ==> (#[trigger] set.rows@[i])@.len() == columns@.len()
            &&& forall|i: int, j: int|
                0 <= i < rows@.len() && 0 <= j < columns@.len() ==> cell_value(
                    columns@[j].1,
                    cell_bytes(rows@[i]@[j]),
                ) == Some((#[trigger] set.rows@[i]@[j])@)
        }),
        r matches Err(msg) ==> exists|i: int, j: int|
            0 <= i < rows@.len() && 0 <= j < columns@.len() && !#[trigger] cell_ok(columns@, rows@, i, j)
                && cells_ok_before(columns@, rows@, i, j) && msg@ == column_error(j as nat),
{
    if rows.len() == 0 {
        return Ok(RowSet { columns: Vec::new(), rows: Vec::new() });
    }
    let mut cols: Vec<Column> = Vec::new();
    let mut j: usize = 0;
    while j < columns.len()
        invariant
            j <= columns@.len(),
            cols@.len() == j,
            forall|k: int| 0 <= k < j ==> (#[trigger] cols@[k]).name@ == columns@[k].0@
                && is_data_type_of(columns@[k].1, cols@[k].data_type),
        decreases columns@.len() - j,
    {
        cols.push(column_of(columns[j].0.as_str(), &columns[j].1));
        j = j + 1;
    }
    let mut out: Vec<Vec<Value>> = Vec::new();
    let mut i: usize = 0;
    while i < rows.len()
        invariant
            i <= rows@.len(),
            forall|a: int| 0 <= a < rows@.len() ==> #[trigger] rows@[a]@.len() == columns@.len(),
            forall|a: int, b: int|
                0 <= a < rows@.len() && 0 <= b < columns@.len() && #[trigger] rows@[a]@[b] is Some
                    ==> is_decodable(columns@[b].1),
            out@.len() == i,
            cells_ok_before(columns@, rows@, i as int, 0),
            forall|a: int| 0 <= a < i ==> (#[trigger] out@[a])@.len() == columns@.len(),
            forall|a: int, b: int|
                0 <= a < i && 0 <= b < columns@.len() ==> cell_value(
                    columns@[b].1,
                    cell_bytes(rows@[a]@[b]),
                ) == Some((#[trigger] out@[a]@[b])@),
        decreases rows@.len() - i,
    {
        let row = &rows[i];
        let mut values: Vec<Value> = Vec::new();
        let mut k: usize = 0;
        while k < columns.len()
            invariant
                i < rows@.len(),
                row@ == rows@[i as int]@,
                row@.len() == columns@.len(),
                forall|b: int| 0 <= b < columns@.len() && #[trigger] row@[b] is Some ==> is_decodable(
                    columns@[b].1,
                ),
                k <= columns@.len(),
                values@.len() == k,
                cells_ok_before(columns@, rows@, i as int, k as int),
                forall|b: int| 0 <= b < k ==> cell_value(columns@[b].1, cell_bytes(row@[b])) == Some(
                    (#[trigger] values@[b])@,
                ),
            decreases columns@.len() - k,
        {
            let value = match &row[k] {
                None => value_from_sql_null(),
                Some(bytes) => match value_from_sql(&columns[k].1, bytes.as_slice()) {
                    Ok(v) => v,
                    Err(_) => {
                        let mut msg = "error deserializing column ".to_owned();
                        crate::text::write_unsigned(k as u128, &mut msg);
                        proof {
                            reveal_strlit("error deserializing column ");
                            assert(!cell_ok(columns@, rows@, i as int, k as int));
                        }
                        return Err(msg);
                    },
                },
            };
            proof {
                assert(cell_ok(columns@, rows@, i as int, k as int));
                assert forall|a: int, b: int|
                    0 <= a <= i && 0 <= b < columns@.len() && (a < i || b < k + 1) implies #[trigger] cell_ok(
                    columns@,
                    rows@,
                    a,
                    b,
                ) by {
                    if !(a == i && b == k) {
                        assert(cells_ok_before(columns@, rows@, i as int, k as int));
                    }
                }
            }
            values.push(value);
            k = k + 1;
        }
        out.push(values);
        proof {
            assert forall|a: int, b: int|
                0 <= a <= i + 1 && 0 <= b < columns@.len() && (a < i + 1 || b < 0) implies #[trigger] cell_ok(
                columns@,
                rows@,
                a,
                b,
            ) by {
                assert(cells_ok_before(columns@, rows@, i as int, columns@.len() as int));
            }
        }
        i = i + 1;
    }
    Ok(RowSet { columns: cols, rows: out })
}

/// The connection string of a PostgreSQL connection.
pub struct PgConnectionConfig {
    pub string: String,
}

/// The type that plugins see for a column agrees with the values its cells
/// decode to: a cell that decodes to a 32-bit integer, a 64-bit integer, a
/// boolean, a text or bytes lies in a column of exactly that type.
pub proof fn law_column_type_matches_values(ty: PgType, d: DataType, raw: Seq<u8>, v: ValueModel)
    requires
        is_data_type_of(ty, d),
        decoded_value(ty, raw) == Some(v),
    ensures
        v is Int32 <==> d is Int32,
        v is Int64 <==> d is Int64,
        v is Boolean <==> d is Boolean,
        v is Text <==> d is Text,
        v is Binary <==> d is Binary,
{
}

} // verus!

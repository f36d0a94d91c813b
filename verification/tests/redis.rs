use wasmtime::component::ResourceTable;
use wassel::redis::convert::redis_value_to_wasm;
use wassel::redis::host::{lazy_value_drop, lazy_value_get, lazy_value_new};
use wassel::redis::types::{
    LazyRedisValue, PushKind, RedisArgument, RedisError, RedisReply, RedisValue, ReplyPushKind,
    ReplyVerbatimFormat, VerbatimFormat,
};

fn take(table: &mut ResourceTable, handle: u32) -> RedisValue {
    lazy_value_get(table, handle).expect("lazy value present")
}

#[test]
fn redis_scalars_convert_as_they_are() {
    let mut table = ResourceTable::new();
    assert!(matches!(redis_value_to_wasm(&mut table, RedisReply::Nil), Ok(RedisValue::Nil)));
    assert!(matches!(redis_value_to_wasm(&mut table, RedisReply::Int(-7)), Ok(RedisValue::Int(-7))));
    assert!(matches!(redis_value_to_wasm(&mut table, RedisReply::Okay), Ok(RedisValue::Okay)));
    match redis_value_to_wasm(&mut table, RedisReply::BulkString(vec![1, 2, 3])) {
        Ok(RedisValue::BulkString(b)) => assert_eq!(b, vec![1, 2, 3]),
        _ => panic!("expected a bulk string"),
    }
    let bits = 1.5f64.to_bits();
    match redis_value_to_wasm(&mut table, RedisReply::Double(bits)) {
        Ok(RedisValue::Double(d)) => assert_eq!(f64::from_bits(d), 1.5),
        _ => panic!("expected a double"),
    }
    assert!(table.is_empty());
}

#[test]
fn redis_array_items_become_lazy_values() {
    let mut table = ResourceTable::new();
    let reply = RedisReply::Array(vec![
        RedisReply::Int(1),
        RedisReply::SimpleString("two".to_string()),
    ]);
    let handles = match redis_value_to_wasm(&mut table, reply) {
        Ok(RedisValue::Array(h)) => h,
        _ => panic!("expected an array"),
    };
    assert_eq!(handles.len(), 2);
    assert!(matches!(take(&mut table, handles[0]), RedisValue::Int(1)));
    match take(&mut table, handles[1]) {
        RedisValue::SimpleString(s) => assert_eq!(s, "two"),
        _ => panic!("expected a simple string"),
    }
    assert!(table.is_empty());
}

#[test]
fn redis_map_and_attribute_convert_keys_before_values() {
    let mut table = ResourceTable::new();
    let reply = RedisReply::Attribute {
        data: Box::new(RedisReply::Boolean(true)),
        attributes: vec![(RedisReply::SimpleString("k".to_string()), RedisReply::Int(9))],
    };
    let attribute = match redis_value_to_wasm(&mut table, reply) {
        Ok(RedisValue::Attribute(a)) => a,
        _ => panic!("expected an attribute"),
    };
    assert!(matches!(take(&mut table, attribute.data), RedisValue::Boolean(true)));
    let (k, v) = attribute.attributes[0];
    match take(&mut table, k) {
        RedisValue::SimpleString(s) => assert_eq!(s, "k"),
        _ => panic!("expected the key"),
    }
    assert!(matches!(take(&mut table, v), RedisValue::Int(9)));
}

#[test]
fn redis_nested_arrays_read_back() {
    let mut table = ResourceTable::new();
    let reply = RedisReply::SetOf(vec![RedisReply::Array(vec![RedisReply::Int(5)])]);
    let outer = match redis_value_to_wasm(&mut table, reply) {
        Ok(RedisValue::SetOf(h)) => h,
        _ => panic!("expected a set"),
    };
    let inner = match take(&mut table, outer[0]) {
        RedisValue::Array(h) => h,
        _ => panic!("expected an array"),
    };
    assert!(matches!(take(&mut table, inner[0]), RedisValue::Int(5)));
}

#[test]
fn redis_server_error_is_reported() {
    let mut table = ResourceTable::new();
    match redis_value_to_wasm(&mut table, RedisReply::ServerError("ERR wrong".to_string())) {
        Err(RedisError::ServerError(s)) => assert_eq!(s, "ERR wrong"),
        _ => panic!("expected a server error"),
    }
}

#[test]
fn redis_unknown_formats_and_kinds_are_type_errors() {
    let mut table = ResourceTable::new();
    let reply = RedisReply::VerbatimString {
        format: ReplyVerbatimFormat::Unsupported("Html".to_string()),
        text: "x".to_string(),
    };
    match redis_value_to_wasm(&mut table, reply) {
        Err(RedisError::TypeError(s)) => assert_eq!(s, "Unknown verbatim format `Html`"),
        _ => panic!("expected a type error"),
    }
    let reply = RedisReply::Push {
        kind: ReplyPushKind::Unsupported("Pong".to_string()),
        data: vec![RedisReply::Int(1)],
    };
    match redis_value_to_wasm(&mut table, reply) {
        Err(RedisError::TypeError(s)) => assert_eq!(s, "Unknown push kind `Pong`"),
        _ => panic!("expected a type error"),
    }
    assert!(table.is_empty());
    match redis_value_to_wasm(&mut table, RedisReply::Unsupported("Weird".to_string())) {
        Err(RedisError::TypeError(s)) => assert_eq!(s, "Could not convert value `Weird`"),
        _ => panic!("expected a type error"),
    }
}

#[test]
fn redis_nested_error_is_wrapped_once_per_level() {
    let mut table = ResourceTable::new();
    let reply = RedisReply::Array(vec![RedisReply::ServerError("boom".to_string())]);
    match redis_value_to_wasm(&mut table, reply) {
        Err(RedisError::Other(s)) => assert_eq!(s, "Error::ServerError(\"boom\")"),
        _ => panic!("expected a nested error"),
    }
    let reply = RedisReply::Array(vec![RedisReply::Array(vec![RedisReply::ServerError(
        "boom".to_string(),
    )])]);
    match redis_value_to_wasm(&mut table, reply) {
        Err(RedisError::Other(s)) => {
            assert_eq!(s, "Error::Other(\"Error::ServerError(\\\"boom\\\")\")")
        }
        _ => panic!("expected a nested error"),
    }
}

#[test]
fn redis_first_error_in_order_wins() {
    let mut table = ResourceTable::new();
    let reply = RedisReply::Array(vec![
        RedisReply::Int(1),
        RedisReply::Unsupported("A".to_string()),
        RedisReply::ServerError("B".to_string()),
    ]);
    match redis_value_to_wasm(&mut table, reply) {
        Err(RedisError::Other(s)) => {
            assert_eq!(s, "Error::TypeError(\"Could not convert value `A`\")")
        }
        _ => panic!("expected the first error"),
    }
}

#[test]
fn redis_push_and_verbatim_convert() {
    let mut table = ResourceTable::new();
    let reply = RedisReply::Push { kind: ReplyPushKind::PMessage, data: vec![] };
    match redis_value_to_wasm(&mut table, reply) {
        Ok(RedisValue::Push(p)) => {
            assert!(matches!(p.kind, PushKind::Pmessage));
            assert!(p.data.is_empty());
        }
        _ => panic!("expected a push"),
    }
    let reply = RedisReply::VerbatimString {
        format: ReplyVerbatimFormat::Markdown,
        text: "# hi".to_string(),
    };
    match redis_value_to_wasm(&mut table, reply) {
        Ok(RedisValue::VerbatimString(v)) => {
            assert!(matches!(v.format, VerbatimFormat::Markdown));
            assert_eq!(v.text, "# hi");
        }
        _ => panic!("expected a verbatim string"),
    }
}

#[test]
fn redis_lazy_value_get_after_new() {
    let mut table = ResourceTable::new();
    let h = lazy_value_new(&mut table, RedisValue::Int(3)).unwrap();
    assert!(matches!(lazy_value_get(&mut table, h), Ok(RedisValue::Int(3))));
    assert!(lazy_value_get(&mut table, h).is_err());
    let h = lazy_value_new(&mut table, RedisValue::Nil).unwrap();
    assert!(lazy_value_drop(&mut table, h).is_ok());
    assert!(lazy_value_drop(&mut table, h).is_err());
}

#[test]
fn redis_lazy_value_new_wraps() {
    let lazy = LazyRedisValue::new(RedisValue::Boolean(false));
    assert!(matches!(lazy.value, RedisValue::Boolean(false)));
}

#[test]
fn redis_argument_texts() {
    assert_eq!(wassel::redis::types::redis_argument_text(&RedisArgument::I64(-12)), "-12");
    assert_eq!(
        wassel::redis::types::redis_argument_text(&RedisArgument::Str("key".to_string())),
        "key"
    );
}

#[test]
fn redis_set_of_one_integer_adds_one_entry() {
    let mut table = ResourceTable::new();
    let handles = match redis_value_to_wasm(&mut table, RedisReply::SetOf(vec![RedisReply::Int(7)])) {
        Ok(RedisValue::SetOf(h)) => h,
        _ => panic!("expected a set"),
    };
    assert_eq!(handles.len(), 1);
    assert!(matches!(take(&mut table, handles[0]), RedisValue::Int(7)));
    assert!(table.is_empty());
}

#[test]
fn redis_nested_values_each_get_one_entry() {
    let mut table = ResourceTable::new();
    let reply = RedisReply::Array(vec![
        RedisReply::Array(vec![RedisReply::Int(1), RedisReply::Int(2)]),
        RedisReply::MapOf(vec![(RedisReply::Int(3), RedisReply::Nil)]),
    ]);
    let handles = match redis_value_to_wasm(&mut table, reply) {
        Ok(RedisValue::Array(h)) => h,
        _ => panic!("expected an array"),
    };
    let inner = match take(&mut table, handles[0]) {
        RedisValue::Array(h) => h,
        _ => panic!("expected an inner array"),
    };
    let pairs = match take(&mut table, handles[1]) {
        RedisValue::MapOf(p) => p,
        _ => panic!("expected a map"),
    };
    assert!(matches!(take(&mut table, inner[0]), RedisValue::Int(1)));
    assert!(matches!(take(&mut table, inner[1]), RedisValue::Int(2)));
    assert!(matches!(take(&mut table, pairs[0].0), RedisValue::Int(3)));
    assert!(matches!(take(&mut table, pairs[0].1), RedisValue::Nil));
    assert!(table.is_empty());
}

#[test]
fn redis_own_errors_leave_the_table_alone() {
    let mut table = ResourceTable::new();
    match redis_value_to_wasm(&mut table, RedisReply::ServerError("ERR x".to_string())) {
        Err(RedisError::ServerError(s)) => assert_eq!(s, "ERR x"),
        _ => panic!("expected a server error"),
    }
    let reply = RedisReply::Push {
        kind: ReplyPushKind::Unsupported("Weird".to_string()),
        data: vec![RedisReply::Int(1)],
    };
    assert!(matches!(redis_value_to_wasm(&mut table, reply), Err(RedisError::TypeError(_))));
    assert!(table.is_empty());
}

#[test]
fn redis_room_for_nested_values_means_success() {
    let mut table = ResourceTable::new();
    let reply = RedisReply::MapOf(vec![(RedisReply::Int(1), RedisReply::SetOf(vec![RedisReply::Nil]))]);
    assert!(matches!(redis_value_to_wasm(&mut table, reply), Ok(RedisValue::MapOf(_))));
}

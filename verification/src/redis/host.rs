//! The lazy-value resource of the Redis interface: what plugins can do with
//! a value that the host put into the resource table.

use vstd::prelude::*;

use wasmtime::component::{ResourceTable, ResourceTableError};

use super::table::{lazy_parents, lazy_values, table_delete_lazy, table_push_lazy};
use super::types::{LazyRedisValue, RedisValue, ValueModel};

verus! {

/// What creating a lazy value from `v` did to the lazy values `before`,
/// given its outcome.
pub open spec fn lazy_new_post(
    before: Map<u32, ValueModel>,
    v: ValueModel,
    r: Result<u32, ()>,
    after: Map<u32, ValueModel>,
) -> bool {
    match r {
        Ok(h) => !before.contains_key(h) && after == before.insert(h, v),
        Err(_) => after == before,
    }
}

/// What taking the value of the lazy value `h` did to the lazy values
/// `before`, given its outcome.
pub open spec fn lazy_get_post(
    before: Map<u32, ValueModel>,
    h: u32,
    r: Result<ValueModel, ()>,
    after: Map<u32, ValueModel>,
) -> bool {
    match r {
        Ok(v) => before.contains_key(h) && v == before[h] && after == before.remove(h),
        Err(_) => after == before,
    }
}

/// The outcome of a table operation, with its error forgotten.
pub open spec fn handle_outcome(r: Result<u32, ResourceTableError>) -> Result<u32, ()> {
    match r {
        Ok(h) => Ok(h),
        Err(_) => Err(()),
    }
}

/// The outcome of taking a value, as its model, with its error forgotten.
pub open spec fn value_outcome(r: Result<RedisValue, ResourceTableError>) -> Result<ValueModel, ()> {
    match r {
        Ok(v) => Ok(v@),
        Err(_) => Err(()),
    }
}

/// Puts a value into the table as a new lazy value and returns its handle.
pub fn lazy_value_new(table: &mut ResourceTable, value: RedisValue) -> (r: Result<
    u32,
    ResourceTableError,
>)
    ensures
        lazy_new_post(
            lazy_values(*old(table)),
            value@,
            handle_outcome(r),
            lazy_values(*final(table)),
        ),
{
    table_push_lazy(table, LazyRedisValue::new(value))
}

/// Takes the value of a lazy value; the lazy value is gone afterwards. It
/// succeeds whenever `handle` holds a lazy value that no other resource was
/// made a child of.
pub fn lazy_value_get(table: &mut ResourceTable, handle: u32) -> (r: Result<
    RedisValue,
    ResourceTableError,
>)
    ensures
        lazy_get_post(
            lazy_values(*old(table)),
            handle,
            value_outcome(r),
            lazy_values(*final(table)),
        ),
        lazy_values(*old(table)).contains_key(handle) && !lazy_parents(*old(table)).contains(handle)
            ==> r is Ok,
{
    match table_delete_lazy(table, handle) {
        Ok(lazy) => Ok(lazy.value),
        Err(e) => Err(e),
    }
}

/// Drops a lazy value. It succeeds whenever `handle` holds a lazy value
/// that no other resource was made a child of.
pub fn lazy_value_drop(table: &mut ResourceTable, handle: u32) -> (r: Result<(), ResourceTableError>)
    ensures
        match r {
            Ok(()) => lazy_values(*old(table)).contains_key(handle) && lazy_values(*final(table))
                == lazy_values(*old(table)).remove(handle),
            Err(_) => lazy_values(*final(table)) == lazy_values(*old(table)),
        },
        lazy_values(*old(table)).contains_key(handle) && !lazy_parents(*old(table)).contains(handle)
            ==> r is Ok,
{
    match table_delete_lazy(table, handle) {
        Ok(_) => Ok(()),
        Err(e) => Err(e),
    }
}

/// Taking the value of a lazy value right after creating it gives back
/// the value it was created from, and leaves the other lazy values as they
/// were.
pub proof fn law_get_after_new(
    before: Map<u32, ValueModel>,
    v: ValueModel,
    h: u32,
    middle: Map<u32, ValueModel>,
    got: ValueModel,
    after: Map<u32, ValueModel>,
)
    requires
        lazy_new_post(before, v, Ok(h), middle),
        lazy_get_post(middle, h, Ok(got), after),
    ensures
        got == v,
        after == before,
{
    assert(after =~= before);
}

} // verus!

//! The component's resource table, as far as lazy values are concerned.

use vstd::prelude::*;

use wasmtime::component::{Resource, ResourceTable, ResourceTableError};

use super::types::{LazyRedisValue, ValueModel};

verus! {

#[verifier::external_type_specification]
#[verifier::external_body]
pub struct ExResourceTable(ResourceTable);

#[verifier::external_type_specification]
#[verifier::external_body]
pub struct ExResourceTableError(ResourceTableError);

/// The lazy values that a resource table holds, by the representation of
/// their resource. Entries of other types are not part of it.
pub uninterp spec fn lazy_values(table: ResourceTable) -> Map<u32, ValueModel>;

/// The representations of the lazy values in a table that other resources
/// were made children of (`ResourceTable::push_child`); the table refuses to
/// delete those.
pub uninterp spec fn lazy_parents(table: ResourceTable) -> Set<u32>;

/// How many slots a table has: the entries it has handed out, occupied or
/// free again.
pub uninterp spec fn table_slots(table: ResourceTable) -> nat;

/// The most slots a table may have (`ResourceTable::max_capacity`), a limit
/// that it is made with.
pub uninterp spec fn table_max(table: ResourceTable) -> nat;

/// `ResourceTable::push` of a lazy value. The value goes into a slot that
/// held nothing, without children, and the representation of its new
/// resource is returned; when the table has no free slot
/// (`ResourceTableError::Full`), nothing changes. No other entry gains or
/// loses children. It succeeds whenever the table has fewer slots than its
/// limit and than 2^32; a push adds at most one slot and leaves the limit as
/// it is. A table holds finitely many entries.
#[verifier::external_body]
pub(crate) fn table_push_lazy(table: &mut ResourceTable, value: LazyRedisValue) -> (r: Result<
    u32,
    ResourceTableError,
>)
    ensures
        match r {
            Ok(rep) => {
                &&& !lazy_values(*old(table)).contains_key(rep)
                &&& lazy_values(*final(table)) == lazy_values(*old(table)).insert(rep, value.value@)
            },
            Err(_) => lazy_values(*final(table)) == lazy_values(*old(table)),
        },
        lazy_parents(*final(table)) == lazy_parents(*old(table)),
        r matches Ok(rep) ==> !lazy_parents(*final(table)).contains(rep),
        lazy_values(*old(table)).dom().finite() && lazy_values(*final(table)).dom().finite(),
        table_max(*final(table)) == table_max(*old(table)),
        table_slots(*final(table)) <= table_slots(*old(table)) + 1,
        table_slots(*old(table)) < table_max(*old(table)) && table_slots(*old(table)) <= 0xffff_ffff
            ==> r is Ok,
{
    table.push(value).map(|resource| resource.rep())
}

/// `ResourceTable::delete` of a lazy value. When it succeeds, the value held
/// under `rep` is handed back and leaves the table; when it fails, no lazy
/// value leaves the table. It succeeds whenever `rep` holds a lazy value
/// without children; a lazy value with children is refused
/// (`ResourceTableError::HasChildren`), and so is a `rep` that holds no
/// lazy value (`NotPresent` or `WrongType`). The table keeps its slots and
/// its limit.
#[verifier::external_body]
pub(crate) fn table_delete_lazy(table: &mut ResourceTable, rep: u32) -> (r: Result<
    LazyRedisValue,
    ResourceTableError,
>)
    ensures
        match r {
            Ok(value) => {
                &&& lazy_values(*old(table)).contains_key(rep)
                &&& value.value@ == lazy_values(*old(table))[rep]
                &&& lazy_values(*final(table)) == lazy_values(*old(table)).remove(rep)
            },
            Err(_) => lazy_values(*final(table)) == lazy_values(*old(table)),
        },
        lazy_values(*old(table)).contains_key(rep) && !lazy_parents(*old(table)).contains(rep)
            ==> r is Ok,
        table_max(*final(table)) == table_max(*old(table)),
        table_slots(*final(table)) == table_slots(*old(table)),
{
    table.delete(Resource::<LazyRedisValue>::new_own(rep))
}

/// The text of a resource table error (its `Display`). What the text is,
/// is not stated.
#[verifier::external_body]
pub(crate) fn table_error_text(error: &ResourceTableError) -> String {
    error.to_string()
}

} // verus!

//! The FFI-stable collections of `abi_stable` that the host state is kept in,
//! and what the library relies on of the few methods it calls.

use crate::internal_pluggie_context::ChannelFunc;
use abi_stable::std_types::{RHashMap, RVec};
use vstd::prelude::*;

verus! {

#[verifier::external_type_specification]
#[verifier::external_body]
#[verifier::reject_recursive_types(K)]
#[verifier::reject_recursive_types(V)]
#[verifier::reject_recursive_types(S)]
pub struct ExRHashMap<K, V, S>(RHashMap<K, V, S>);

#[verifier::external_type_specification]
#[verifier::external_body]
#[verifier::reject_recursive_types(T)]
pub struct ExRVec<T>(RVec<T>);

/// The entries of a table from name hashes to plain numbers.
pub uninterp spec fn hash_table_entries(m: RHashMap<[u8; 32], usize>) -> Map<[u8; 32], usize>;

/// Calls `RHashMap::new`. Trusted: the new table has no entries.
#[verifier::external_body]
pub(crate) fn hash_table_new() -> (table: RHashMap<[u8; 32], usize>)
    ensures
        hash_table_entries(table) =~= Map::empty(),
{
    RHashMap::new()
}

/// Calls `RHashMap::insert`. Trusted: afterwards `key` maps to `value` and
/// every other entry is as before (keys are compared by their 32 bytes).
#[verifier::external_body]
pub(crate) fn hash_table_insert(m: &mut RHashMap<[u8; 32], usize>, key: [u8; 32], value: usize)
    ensures
        hash_table_entries(*final(m)) == hash_table_entries(*old(m)).insert(key, value),
{
    m.insert(key, value);
}

/// Calls `RHashMap::get_p`. Trusted: the value stored under `key`, if any.
#[verifier::external_body]
pub(crate) fn hash_table_get(m: &RHashMap<[u8; 32], usize>, key: &[u8; 32]) -> (r: Option<usize>)
    ensures
        r == (if hash_table_entries(*m).contains_key(*key) {
            Some(hash_table_entries(*m)[*key])
        } else {
            None::<usize>
        }),
{
    m.get_p(key).copied()
}

/// The subscribers held in a channel list, front first.
pub uninterp spec fn channel_list_items(v: RVec<ChannelFunc>) -> Seq<ChannelFunc>;

/// Calls `RVec::new`. Trusted: the new list is empty.
#[verifier::external_body]
pub(crate) fn channel_list_new() -> (list: RVec<ChannelFunc>)
    ensures
        channel_list_items(list) =~= Seq::<ChannelFunc>::empty(),
{
    RVec::new()
}

/// Calls `RVec::len`. Trusted: the number of subscribers in the list.
#[verifier::external_body]
pub(crate) fn channel_list_len(v: &RVec<ChannelFunc>) -> (len: usize)
    ensures
        len == channel_list_items(*v).len(),
{
    v.len()
}

/// Indexes an `RVec` (through its slice). Trusted: the subscriber at
/// `index`; indexing panics past the end, so `index` must be in bounds.
#[verifier::external_body]
pub(crate) fn channel_list_get(v: &RVec<ChannelFunc>, index: usize) -> (item: ChannelFunc)
    requires
        index < channel_list_items(*v).len(),
    ensures
        item == channel_list_items(*v)[index as int],
{
    v[index]
}

/// Calls `RVec::insert`. Trusted: `item` now stands at `index` and the
/// items from `index` on moved one place back. The method asserts
/// `index <= len`, so that is required.
#[verifier::external_body]
pub(crate) fn channel_list_insert(v: &mut RVec<ChannelFunc>, index: usize, item: ChannelFunc)
    requires
        index <= channel_list_items(*old(v)).len(),
        channel_list_items(*old(v)).len() < usize::MAX,
    ensures
        channel_list_items(*final(v)) == channel_list_items(*old(v)).insert(index as int, item),
{
    v.insert(index, item)
}

/// The channels of a table from name hashes to subscriber lists, each list
/// taken by its items.
pub uninterp spec fn channel_table_entries(m: RHashMap<[u8; 32], RVec<ChannelFunc>>) -> Map<[u8; 32], Seq<ChannelFunc>>;

/// Calls `RHashMap::new`. Trusted: the new table has no channels.
#[verifier::external_body]
pub(crate) fn channel_table_new() -> (table: RHashMap<[u8; 32], RVec<ChannelFunc>>)
    ensures
        channel_table_entries(table) =~= Map::empty(),
{
    RHashMap::new()
}

/// Calls `RHashMap::get_p`. Trusted: the list stored under `key`, if any.
#[verifier::external_body]
pub(crate) fn channel_table_get<'a>(m: &'a RHashMap<[u8; 32], RVec<ChannelFunc>>, key: &[u8; 32]) -> (r: Option<&'a RVec<ChannelFunc>>)
    ensures
        r is Some <==> channel_table_entries(*m).contains_key(*key),
        r matches Some(list) ==> channel_list_items(*list) == channel_table_entries(*m)[*key],
{
    m.get_p(key)
}

/// Calls `RHashMap::remove_p`. Trusted: the list stored under `key` is
/// taken out, if there is one, and the other channels stay.
#[verifier::external_body]
pub(crate) fn channel_table_remove(m: &mut RHashMap<[u8; 32], RVec<ChannelFunc>>, key: &[u8; 32]) -> (r: Option<RVec<ChannelFunc>>)
    ensures
        r is Some <==> channel_table_entries(*old(m)).contains_key(*key),
        r matches Some(list) ==> channel_list_items(list) == channel_table_entries(*old(m))[*key],
        channel_table_entries(*final(m)) == channel_table_entries(*old(m)).remove(*key),
{
    m.remove_p(key).into_option()
}

/// Calls `RHashMap::insert`. Trusted: afterwards `key` holds `list` and
/// every other channel is as before.
#[verifier::external_body]
pub(crate) fn channel_table_insert(m: &mut RHashMap<[u8; 32], RVec<ChannelFunc>>, key: [u8; 32], list: RVec<ChannelFunc>)
    ensures
        channel_table_entries(*final(m)) == channel_table_entries(*old(m)).insert(key, channel_list_items(list)),
{
    m.insert(key, list);
}

/// The handles held in a list of hooks, in the order they were added.
pub uninterp spec fn hook_list_items(v: RVec<usize>) -> Seq<usize>;

/// Calls `RVec::new`. Trusted: the new list is empty.
#[verifier::external_body]
pub(crate) fn hook_list_new() -> (list: RVec<usize>)
    ensures
        hook_list_items(list) =~= Seq::<usize>::empty(),
{
    RVec::new()
}

/// Calls `RVec::push`. Trusted: `hook` is appended at the end.
#[verifier::external_body]
pub(crate) fn hook_list_push(v: &mut RVec<usize>, hook: usize)
    requires
        hook_list_items(*old(v)).len() < usize::MAX,
    ensures
        hook_list_items(*final(v)) == hook_list_items(*old(v)).push(hook),
{
    v.push(hook)
}

/// Calls `RVec::drain` over the whole list and collects what it yields.
/// Trusted: every handle comes out, in order, and the list is left empty.
#[verifier::external_body]
pub(crate) fn hook_list_drain(v: &mut RVec<usize>) -> (drained: Vec<usize>)
    ensures
        drained@ == hook_list_items(*old(v)),
        hook_list_items(*final(v)) =~= Seq::<usize>::empty(),
{
    v.drain(..).collect()
}

} // verus!

use vstd::prelude::*;

use cosmwasm_std::{Deps, DepsMut, StdError};
use cw_storage_plus::Map as StorageMap;

verus! {

/// The storage and the address checks that an execution of a contract works
/// with: the contract's `cosmwasm_std::DepsMut`, seen only through the
/// functions below.
#[verifier::external_body]
pub struct Store<'a>(pub DepsMut<'a>);

/// The storage and the address checks that a query of a contract reads: the
/// contract's `cosmwasm_std::Deps`, seen only through the functions below.
#[verifier::external_body]
pub struct QueryStore<'a>(pub Deps<'a>);

/// The entries that a `cw_storage_plus::Map<String, String>` with namespace
/// `namespace` holds in the storage behind `store`: for each key with data,
/// `Some(text)` where the data reads as a JSON string and `None` where it does
/// not.
pub uninterp spec fn stored_strings(store: Store, namespace: Seq<char>) -> Map<
    Seq<char>,
    Option<Seq<char>>,
>;

/// The same for the storage behind a query.
pub uninterp spec fn queried_strings(store: QueryStore, namespace: Seq<char>) -> Map<
    Seq<char>,
    Option<Seq<char>>,
>;

/// `cosmwasm_std::DepsMut::as_ref`: a read-only view of the same storage and
/// the same address checks, so it sees the same entries.
#[verifier::external_body]
pub fn query_view<'b>(store: &'b Store) -> (view: QueryStore<'b>)
    ensures
        forall|ns: Seq<char>| #[trigger] queried_strings(view, ns) == stored_strings(*store, ns),
{
    QueryStore(store.0.as_ref())
}

/// `cw_storage_plus::Map::<String, String>::may_load`: reads the entry under
/// `key`; `Ok(None)` where there is no data, an error where the data does not
/// read as a string. `Map` panics on namespaces over 0xFFFF bytes, which the
/// `requires` rules out (four bytes at most per character).
#[verifier::external_body]
pub fn load_string(store: &QueryStore, namespace: &str, key: &String) -> (res: Result<
    Option<String>,
    StdError,
>)
    requires
        namespace@.len() <= 16383,
    ensures
        match res {
            Ok(None) => !queried_strings(*store, namespace@).contains_key(key@),
            Ok(Some(v)) => queried_strings(*store, namespace@).contains_key(key@)
                && queried_strings(*store, namespace@)[key@] == Some(v@),
            Err(_) => queried_strings(*store, namespace@).contains_key(key@) && queried_strings(
                *store,
                namespace@,
            )[key@] is None,
        },
{
    StorageMap::<String, String>::new(namespace).may_load(store.0.storage, key.clone())
}

/// `cw_storage_plus::Map::<String, String>::save`: stores `value` under `key`.
/// Serialising a string cannot fail, so the result is `Ok`; other namespaces
/// live under other storage keys (each key starts with its namespace and that
/// namespace's length) and keep their entries.
#[verifier::external_body]
pub fn save_string(store: &mut Store, namespace: &str, key: &String, value: &String) -> (res:
    Result<(), StdError>)
    requires
        namespace@.len() <= 16383,
    ensures
        res is Ok,
        stored_strings(*final(store), namespace@) == stored_strings(*old(store), namespace@).insert(
            key@,
            Some(value@),
        ),
        forall|ns: Seq<char>|
            ns != namespace@ ==> #[trigger] stored_strings(*final(store), ns) == stored_strings(
                *old(store),
                ns,
            ),
{
    StorageMap::<String, String>::new(namespace).save(store.0.storage, key.clone(), value)
}

/// `cw_storage_plus::Map::<String, String>::remove`: deletes the data under
/// `key`; other namespaces keep their entries.
#[verifier::external_body]
pub fn remove_string(store: &mut Store, namespace: &str, key: &String)
    requires
        namespace@.len() <= 16383,
    ensures
        stored_strings(*final(store), namespace@) == stored_strings(*old(store), namespace@).remove(
            key@,
        ),
        forall|ns: Seq<char>|
            ns != namespace@ ==> #[trigger] stored_strings(*final(store), ns) == stored_strings(
                *old(store),
                ns,
            ),
{
    StorageMap::<String, String>::new(namespace).remove(store.0.storage, key.clone())
}

/// `cosmwasm_std::Api::addr_validate`: whether `input` is a valid address
/// depends on the chain, so nothing is said of when it fails; an accepted
/// address comes back as the same text.
#[verifier::external_body]
pub fn validate_address(store: &QueryStore, input: &String) -> (res: Result<String, StdError>)
    ensures
        res matches Ok(addr) ==> addr@ == input@,
{
    match store.0.api.addr_validate(input) {
        Ok(addr) => Ok(addr.into_string()),
        Err(e) => Err(e),
    }
}

} // verus!

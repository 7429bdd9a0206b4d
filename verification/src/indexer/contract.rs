use vstd::prelude::*;

use cosmwasm_std::StdError;

use crate::coin::{duplicate_coin, Coin};
pub use crate::group::helpers::invalid_char;
use crate::cw5::helpers::{LookUpResponse, ReverseLookUpResponse};
use crate::cw5::query::{ADDR_KEY, NAMES_KEY};
use crate::error::{ContractError, ErrorView};
use crate::group::helpers::{check_name, matches_verdict, name_verdict};
use crate::indexer::coin_helpers::{assert_sent_sufficient_coin, sufficient_funds};
use crate::indexer::msg::{ExecuteMsg, InstantiateMsg};
use crate::indexer::state::Config;
use crate::store::{
    load_string, query_view, queried_strings, remove_string, save_string, stored_strings,
    validate_address, QueryStore, Store,
};
use crate::text::{lemma_split_labels_nonempty, reversed, split_at_dots, split_labels};

verus! {

// configurations to validate naming
const MIN_NAME_LENGTH: u64 = 2;

const MAX_NAME_LENGTH: u64 = 30;

/// Who sent a message, and the coins sent with it.
#[derive(Clone, Debug, PartialEq)]
pub struct MessageInfo {
    pub sender: String,
    pub funds: Vec<Coin>,
}

// ---------------------------------------------------------------------------
// The registry's model
// ---------------------------------------------------------------------------

/// The map from names to addresses, as an execution sees it.
pub open spec fn name_to_address(store: Store) -> Map<Seq<char>, Option<Seq<char>>> {
    stored_strings(store, ADDR_KEY@)
}

/// The map from addresses to names, as an execution sees it.
pub open spec fn address_to_name(store: Store) -> Map<Seq<char>, Option<Seq<char>>> {
    stored_strings(store, NAMES_KEY@)
}

/// The map from names to addresses, as a query sees it.
pub open spec fn queried_addresses(store: QueryStore) -> Map<Seq<char>, Option<Seq<char>>> {
    queried_strings(store, ADDR_KEY@)
}

/// The map from addresses to names, as a query sees it.
pub open spec fn queried_names(store: QueryStore) -> Map<Seq<char>, Option<Seq<char>>> {
    queried_strings(store, NAMES_KEY@)
}

/// Reading `key` from `entries` gives `value`: nothing where there is no
/// entry, the text where the entry reads as text.
pub open spec fn reads_as(
    entries: Map<Seq<char>, Option<Seq<char>>>,
    key: Seq<char>,
    value: Option<Seq<char>>,
) -> bool {
    match value {
        None => !entries.contains_key(key),
        Some(v) => entries.contains_key(key) && entries[key] == Some(v),
    }
}

/// The entry under `key` is there but does not read as text.
pub open spec fn unreadable(entries: Map<Seq<char>, Option<Seq<char>>>, key: Seq<char>) -> bool {
    entries.contains_key(key) && entries[key] is None
}

/// The rules an indexer holds names to: 2 to 30 bytes of ASCII digits,
/// lowercase letters, `.`, `-` or `_`.
pub open spec fn indexer_name_verdict(name: Seq<char>) -> Result<(), ErrorView> {
    name_verdict(name, 2, 30)
}

/// What registering `name` for the (valid) address `address` gives, checked
/// in this order: the name's form, the price, whether the name is taken,
/// whether the address already has a name. Entries that do not read as text
/// give a storage error where they are read.
pub open spec fn register_verdict(
    addresses: Map<Seq<char>, Option<Seq<char>>>,
    names: Map<Seq<char>, Option<Seq<char>>>,
    price: Option<Coin>,
    funds: Seq<Coin>,
    address: Seq<char>,
    name: Seq<char>,
) -> Result<(), ErrorView> {
    match indexer_name_verdict(name) {
        Err(v) => Err(v),
        Ok(()) => if !sufficient_funds(funds, price) {
            Err(ErrorView::InsufficientFundsSend)
        } else if addresses.contains_key(name) {
            if addresses[name] is Some {
                Err(ErrorView::NameTaken { name })
            } else {
                Err(ErrorView::Std)
            }
        } else if names.contains_key(address) {
            match names[address] {
                Some(current) => Err(ErrorView::AddressAlreadySet { address, name: current }),
                None => Err(ErrorView::Std),
            }
        } else {
            Ok(())
        },
    }
}

/// Whether `sender` may move the name that `address` looks up: the admins
/// may, and so may the address itself where owners can update.
pub open spec fn may_update(
    admins: Seq<Seq<char>>,
    owner_can_update: bool,
    sender: Seq<char>,
    address: Seq<char>,
) -> bool {
    admins.contains(sender) || (owner_can_update && sender == address)
}

/// What moving `address` to the name `to` gives, checked in this order: the
/// new name's form, whether it is taken, whether the name-to-address map has
/// an entry under the text of `address` (that entry is what is moved), and
/// whether the sender may do it.
pub open spec fn change_verdict(
    addresses: Map<Seq<char>, Option<Seq<char>>>,
    admins: Seq<Seq<char>>,
    owner_can_update: bool,
    sender: Seq<char>,
    address: Seq<char>,
    to: Seq<char>,
) -> Result<(), ErrorView> {
    match indexer_name_verdict(to) {
        Err(v) => Err(v),
        Ok(()) => if addresses.contains_key(to) {
            if addresses[to] is Some {
                Err(ErrorView::NameTaken { name: to })
            } else {
                Err(ErrorView::Std)
            }
        } else if addresses.contains_key(address) {
            if addresses[address] is None {
                Err(ErrorView::Std)
            } else if may_update(admins, owner_can_update, sender, address) {
                Ok(())
            } else {
                Err(ErrorView::Unauthorized)
            }
        } else {
            Err(ErrorView::Unauthorized)
        },
    }
}

/// Namespaces other than the two maps keep their entries.
pub open spec fn others_kept(before: Store, after: Store) -> bool {
    forall|ns: Seq<char>|
        ns != ADDR_KEY@ && ns != NAMES_KEY@ ==> #[trigger] stored_strings(after, ns)
            == stored_strings(before, ns)
}

/// The storage after registering `name` for `address`.
pub open spec fn registered(before: Store, after: Store, address: Seq<char>, name: Seq<char>) -> bool {
    &&& name_to_address(after) == name_to_address(before).insert(name, Some(address))
    &&& address_to_name(after) == address_to_name(before).insert(address, Some(name))
    &&& others_kept(before, after)
}

/// The storage after moving `address` to the name `to`: the entry that the
/// name-to-address map held under the text of `address` names the entry that
/// is dropped.
pub open spec fn changed(before: Store, after: Store, address: Seq<char>, to: Seq<char>) -> bool {
    let moved = name_to_address(before)[address].unwrap();
    &&& name_to_address(after) == name_to_address(before).remove(moved).insert(to, Some(address))
    &&& address_to_name(after) == address_to_name(before).insert(address, Some(to))
    &&& others_kept(before, after)
}

/// What `execute_register` promises: success only where the verdict is
/// success, with the registration done; every failure leaves the storage as
/// it was, and is the verdict's error or an error of the address check.
pub open spec fn register_outcome(
    before: Store,
    after: Store,
    config: Config,
    funds: Seq<Coin>,
    address: Seq<char>,
    name: Seq<char>,
    res: Result<(), ContractError>,
) -> bool {
    let verdict = register_verdict(
        name_to_address(before),
        address_to_name(before),
        config.price,
        funds,
        address,
        name,
    );
    match res {
        Ok(()) => verdict is Ok && registered(before, after, address, name),
        Err(e) => after == before && (e@ == ErrorView::Std || verdict == Err::<(), ErrorView>(
            e@,
        )),
    }
}

/// What `execute_change` promises, in the same way.
pub open spec fn change_outcome(
    before: Store,
    after: Store,
    config: Config,
    sender: Seq<char>,
    address: Seq<char>,
    to: Seq<char>,
    res: Result<(), ContractError>,
) -> bool {
    let verdict = change_verdict(
        name_to_address(before),
        config.admin.unwrap().deep_view(),
        config.owner_can_update,
        sender,
        address,
        to,
    );
    match res {
        Ok(()) => verdict is Ok && changed(before, after, address, to),
        Err(e) => after == before && (e@ == ErrorView::Std || verdict == Err::<(), ErrorView>(
            e@,
        )),
    }
}

/// The check of `address` gave back its own text where it accepted it.
pub open spec fn checked_as(address: Seq<char>, checked: Result<String, StdError>) -> bool {
    checked matches Ok(a) ==> a@ == address
}

/// What registering `name` gives once the address check gave `checked`: a
/// refused address is passed on unchanged as the error and the storage is
/// left as it was; an accepted address is registered as `register` does it.
pub open spec fn register_checked_outcome(
    before: Store,
    after: Store,
    config: Config,
    funds: Seq<Coin>,
    checked: Result<String, StdError>,
    name: Seq<char>,
    res: Result<(), ContractError>,
) -> bool {
    match checked {
        Err(e) => res == Err::<(), ContractError>(ContractError::Std(e)) && after == before,
        Ok(a) => {
            &&& matches_verdict(
                res,
                register_verdict(
                    name_to_address(before),
                    address_to_name(before),
                    config.price,
                    funds,
                    a@,
                    name,
                ),
            )
            &&& res is Ok ==> registered(before, after, a@, name)
            &&& res is Err ==> after == before
        },
    }
}

/// What moving an address to the name `to` gives once the address check gave
/// `checked`, in the same way.
pub open spec fn change_checked_outcome(
    before: Store,
    after: Store,
    config: Config,
    sender: Seq<char>,
    checked: Result<String, StdError>,
    to: Seq<char>,
    res: Result<(), ContractError>,
) -> bool {
    match checked {
        Err(e) => res == Err::<(), ContractError>(ContractError::Std(e)) && after == before,
        Ok(a) => {
            &&& matches_verdict(
                res,
                change_verdict(
                    name_to_address(before),
                    config.admin.unwrap().deep_view(),
                    config.owner_can_update,
                    sender,
                    a@,
                    to,
                ),
            )
            &&& res is Ok ==> changed(before, after, a@, to)
            &&& res is Err ==> after == before
        },
    }
}

/// What `execute_register` does: the check of `address` gives some outcome,
/// and the registration follows from it.
pub open spec fn execute_register_outcome(
    before: Store,
    after: Store,
    config: Config,
    info: MessageInfo,
    address: Seq<char>,
    name: Seq<char>,
    res: Result<(), ContractError>,
) -> bool {
    exists|checked: Result<String, StdError>|
        checked_as(address, checked) && #[trigger] register_checked_outcome(
            before,
            after,
            config,
            info.funds@,
            checked,
            name,
            res,
        )
}

/// What `execute_change` does, in the same way.
pub open spec fn execute_change_outcome(
    before: Store,
    after: Store,
    config: Config,
    info: MessageInfo,
    address: Seq<char>,
    to: Seq<char>,
    res: Result<(), ContractError>,
) -> bool {
    exists|checked: Result<String, StdError>|
        checked_as(address, checked) && #[trigger] change_checked_outcome(
            before,
            after,
            config,
            info.sender@,
            checked,
            to,
            res,
        )
}

/// What `execute` does with `msg`: what the handler of that message does.
pub open spec fn execute_outcome(
    before: Store,
    after: Store,
    config: Config,
    info: MessageInfo,
    msg: ExecuteMsg,
    res: Result<(), ContractError>,
) -> bool {
    match msg {
        ExecuteMsg::Register { address, name } => execute_register_outcome(
            before,
            after,
            config,
            info,
            address@,
            name@,
            res,
        ),
        ExecuteMsg::Update { address, to } => execute_change_outcome(
            before,
            after,
            config,
            info,
            address@,
            to@,
            res,
        ),
    }
}

/// A configuration without admins stops an update that passes the checks of
/// the address and the new name; the update may run where there are admins
/// or where the new name is refused.
pub open spec fn may_run_update(config: Config, to: Seq<char>) -> bool {
    config.admin is Some || indexer_name_verdict(to) is Err
}

// ---------------------------------------------------------------------------
// Names
// ---------------------------------------------------------------------------

/// Returns an error if `name` breaks the indexer's rules on names.
pub fn validate_name(name: &str) -> (res: Result<(), ContractError>)
    ensures
        matches_verdict(res, indexer_name_verdict(name@)),
{
    check_name(name, MIN_NAME_LENGTH, MAX_NAME_LENGTH)
}

// ---------------------------------------------------------------------------
// Instantiation and execution
// ---------------------------------------------------------------------------

/// The configuration that an indexer is instantiated with.
pub fn instantiate(msg: InstantiateMsg) -> (config: Config)
    ensures
        config.price == msg.price,
        config.admin == msg.admin,
        config.owner_can_update == msg.owner_can_update,
{
    Config { price: msg.price, admin: msg.admin, owner_can_update: msg.owner_can_update }
}

/// Runs a message against the registry.
pub fn execute(store: &mut Store, config: &Config, info: MessageInfo, msg: ExecuteMsg) -> (res:
    Result<(), ContractError>)
    requires
        msg matches ExecuteMsg::Update { to, .. } ==> may_run_update(*config, to@),
    ensures
        execute_outcome(*old(store), *final(store), *config, info, msg, res),
        match msg {
            ExecuteMsg::Register { address, name } => register_outcome(
                *old(store),
                *final(store),
                *config,
                info.funds@,
                address@,
                name@,
                res,
            ),
            ExecuteMsg::Update { address, to } => change_outcome(
                *old(store),
                *final(store),
                *config,
                info.sender@,
                address@,
                to@,
                res,
            ),
        },
{
    match msg {
        ExecuteMsg::Register { address, name } => execute_register(store, config, info, address, name),
        ExecuteMsg::Update { address, to } => execute_change(store, config, info, address, to),
    }
}

/// Registers `name` for `address` once the address has been checked.
pub fn execute_register(
    store: &mut Store,
    config: &Config,
    info: MessageInfo,
    address: String,
    name: String,
) -> (res: Result<(), ContractError>)
    ensures
        execute_register_outcome(*old(store), *final(store), *config, info, address@, name@, res),
        register_outcome(*old(store), *final(store), *config, info.funds@, address@, name@, res),
{
    let checked = {
        let view = query_view(store);
        validate_address(&view, &address)
    };
    let ghost c = checked;
    let res = register_checked(store, config, &info.funds, checked, name);
    assert(register_checked_outcome(*old(store), *store, *config, info.funds@, c, name@, res));
    res
}

/// Registers `name` for the address whose check gave `checked`: a refused
/// address is passed on as the error, an accepted one goes to `register`.
pub fn register_checked(
    store: &mut Store,
    config: &Config,
    funds: &Vec<Coin>,
    checked: Result<String, StdError>,
    name: String,
) -> (res: Result<(), ContractError>)
    ensures
        register_checked_outcome(*old(store), *final(store), *config, funds@, checked, name@, res),
{
    match checked {
        Ok(address) => register(store, config, funds, address, name),
        Err(e) => Err(ContractError::Std(e)),
    }
}

/// Registers `name` for the valid address `address`: the checks of
/// `register_verdict`, then both maps get the new pair.
pub fn register(
    store: &mut Store,
    config: &Config,
    funds: &Vec<Coin>,
    address: String,
    name: String,
) -> (res: Result<(), ContractError>)
    ensures
        matches_verdict(
            res,
            register_verdict(
                name_to_address(*old(store)),
                address_to_name(*old(store)),
                config.price,
                funds@,
                address@,
                name@,
            ),
        ),
        res is Ok ==> registered(*old(store), *final(store), address@, name@),
        res is Err ==> *final(store) == *old(store),
{
    proof {
        reveal_strlit("address");
        reveal_strlit("names");
    }
    match validate_name(name.as_str()) {
        Ok(()) => {},
        Err(e) => return Err(e),
    }
    match assert_sent_sufficient_coin(funds.as_slice(), duplicate_coin(&config.price)) {
        Ok(()) => {},
        Err(e) => return Err(e),
    }
    {
        let view = query_view(store);
        match load_string(&view, ADDR_KEY, &name) {
            Ok(Some(_)) => return Err(ContractError::NameTaken { name }),
            Ok(None) => {},
            Err(e) => return Err(ContractError::Std(e)),
        }
        match load_string(&view, NAMES_KEY, &address) {
            Ok(Some(name_p)) => return Err(ContractError::AddressAlreadySet { address, name: name_p }),
            Ok(None) => {},
            Err(e) => return Err(ContractError::Std(e)),
        }
    }
    match save_string(store, NAMES_KEY, &address, &name) {
        Ok(()) => {},
        Err(e) => return Err(ContractError::Std(e)),
    }
    match save_string(store, ADDR_KEY, &name, &address) {
        Ok(()) => {},
        Err(e) => return Err(ContractError::Std(e)),
    }
    Ok(())
}

/// Whether `list` holds `s`.
fn contains_string(list: &Vec<String>, s: &String) -> (r: bool)
    ensures
        r == list.deep_view().contains(s@),
{
    let mut i: usize = 0;
    while i < list.len()
        invariant
            i <= list.len(),
            forall|k: int| 0 <= k < i ==> #[trigger] list.deep_view()[k] != s@,
        decreases list.len() - i,
    {
        if list[i] == *s {
            assert(list.deep_view()[i as int] == s@);
            return true;
        }
        i = i + 1;
    }
    false
}

/// Moves `address` to the name `to` once the address has been checked.
pub fn execute_change(
    store: &mut Store,
    config: &Config,
    info: MessageInfo,
    address: String,
    to: String,
) -> (res: Result<(), ContractError>)
    requires
        may_run_update(*config, to@),
    ensures
        execute_change_outcome(*old(store), *final(store), *config, info, address@, to@, res),
        change_outcome(*old(store), *final(store), *config, info.sender@, address@, to@, res),
{
    let checked = {
        let view = query_view(store);
        validate_address(&view, &address)
    };
    let ghost c = checked;
    let res = change_checked(store, config, &info.sender, checked, to);
    assert(change_checked_outcome(*old(store), *store, *config, info.sender@, c, to@, res));
    res
}

/// Moves the address whose check gave `checked` to the name `to`: a refused
/// address is passed on as the error, an accepted one goes to `change`.
pub fn change_checked(
    store: &mut Store,
    config: &Config,
    sender: &String,
    checked: Result<String, StdError>,
    to: String,
) -> (res: Result<(), ContractError>)
    requires
        config.admin is Some || checked is Err || indexer_name_verdict(to@) is Err,
    ensures
        change_checked_outcome(*old(store), *final(store), *config, sender@, checked, to@, res),
{
    match checked {
        Ok(address) => change(store, config, sender, address, to),
        Err(e) => Err(ContractError::Std(e)),
    }
}

/// Moves the valid address `address` to the name `to`: the checks of
/// `change_verdict`, then the address maps to `to`, `to` maps to the address,
/// and the name-to-address entry that the text of `address` looked up is
/// dropped.
pub fn change(
    store: &mut Store,
    config: &Config,
    sender: &String,
    address: String,
    to: String,
) -> (res: Result<(), ContractError>)
    requires
        may_run_update(*config, to@),
    ensures
        matches_verdict(
            res,
            change_verdict(
                name_to_address(*old(store)),
                config.admin.unwrap().deep_view(),
                config.owner_can_update,
                sender@,
                address@,
                to@,
            ),
        ),
        res is Ok ==> changed(*old(store), *final(store), address@, to@),
        res is Err ==> *final(store) == *old(store),
{
    proof {
        reveal_strlit("address");
        reveal_strlit("names");
    }
    match validate_name(to.as_str()) {
        Ok(()) => {},
        Err(e) => return Err(e),
    }
    let authorized = match &config.admin {
        Some(admins) => contains_string(admins, sender) || (config.owner_can_update && address
            == *sender),
        None => false,
    };
    let name_actual = {
        let view = query_view(store);
        match load_string(&view, ADDR_KEY, &to) {
            Ok(Some(_)) => return Err(ContractError::NameTaken { name: to }),
            Ok(None) => {},
            Err(e) => return Err(ContractError::Std(e)),
        }
        match load_string(&view, ADDR_KEY, &address) {
            Ok(Some(name_actual)) => name_actual,
            Ok(None) => return Err(ContractError::Unauthorized {  }),
            Err(e) => return Err(ContractError::Std(e)),
        }
    };
    if !authorized {
        return Err(ContractError::Unauthorized {  });
    }
    let ghost before = *store;
    remove_string(store, NAMES_KEY, &address);
    remove_string(store, ADDR_KEY, &name_actual);
    match save_string(store, NAMES_KEY, &address, &to) {
        Ok(()) => {},
        Err(e) => return Err(ContractError::Std(e)),
    }
    match save_string(store, ADDR_KEY, &to, &address) {
        Ok(()) => {},
        Err(e) => return Err(ContractError::Std(e)),
    }
    proof {
        assert(name_to_address(before)[address@].unwrap() == name_actual@);
        assert(address_to_name(before).remove(address@).insert(address@, Some(to@))
            =~= address_to_name(before).insert(address@, Some(to@)));
    }
    Ok(())
}

// ---------------------------------------------------------------------------
// Queries
// ---------------------------------------------------------------------------

/// What the reverse look-up gives once the check of the address gave
/// `checked`: a refused address is passed on as the error; for an accepted
/// one, what `reverse_lookup` gives.
pub open spec fn reverse_checked_outcome(
    deps: QueryStore,
    checked: Result<String, StdError>,
    res: Result<ReverseLookUpResponse, StdError>,
) -> bool {
    match checked {
        Err(e) => res == Err::<ReverseLookUpResponse, StdError>(e),
        Ok(a) => {
            &&& res is Ok <==> !unreadable(queried_names(deps), a@)
            &&& res matches Ok(r) ==> reads_as(queried_names(deps), a@, r.name.deep_view())
        },
    }
}

/// The name registered for `addr`, once the address has been checked.
pub fn query_reverse_lookup(deps: &QueryStore, addr: String) -> (res: Result<
    ReverseLookUpResponse,
    StdError,
>)
    ensures
        res matches Ok(r) ==> reads_as(queried_names(*deps), addr@, r.name.deep_view()),
        unreadable(queried_names(*deps), addr@) ==> res is Err,
        exists|checked: Result<String, StdError>|
            checked_as(addr@, checked) && #[trigger] reverse_checked_outcome(*deps, checked, res),
{
    let checked = validate_address(deps, &addr);
    let ghost c = checked;
    let res = reverse_lookup_checked(deps, checked);
    assert(reverse_checked_outcome(*deps, c, res));
    res
}

/// The name registered for the address whose check gave `checked`.
pub fn reverse_lookup_checked(deps: &QueryStore, checked: Result<String, StdError>) -> (res: Result<
    ReverseLookUpResponse,
    StdError,
>)
    ensures
        reverse_checked_outcome(*deps, checked, res),
{
    match checked {
        Ok(addr) => reverse_lookup(deps, addr),
        Err(e) => Err(e),
    }
}

/// The name registered for the valid address `addr`: an error exactly where
/// its entry does not read as text.
pub fn reverse_lookup(deps: &QueryStore, addr: String) -> (res: Result<
    ReverseLookUpResponse,
    StdError,
>)
    ensures
        res is Ok <==> !unreadable(queried_names(*deps), addr@),
        res matches Ok(r) ==> reads_as(queried_names(*deps), addr@, r.name.deep_view()),
{
    proof {
        reveal_strlit("names");
    }
    let name = match load_string(deps, NAMES_KEY, &addr) {
        Ok(n) => n,
        Err(e) => return Err(e),
    };
    Ok(ReverseLookUpResponse { name })
}

/// The labels of a dotted name in the order they are resolved: the last
/// label first, in the registry itself, then each label to its left in the
/// registry that the previous one named.
pub open spec fn resolution_order(name: Seq<char>) -> Seq<Seq<char>> {
    split_labels(name).reverse()
}

/// Where the resolution of a dotted name stands: the labels still to resolve,
/// in order, and the address the last resolved label gave.
#[derive(Clone, Debug, PartialEq)]
pub struct LookupProgress {
    pub pending: Vec<String>,
    pub current: Option<String>,
}

/// What the resolution of a dotted name needs next: nothing more, or the
/// answer of the registry at `contract` to a look-up of `label`.
#[derive(Clone, Debug, PartialEq)]
pub enum LookupStep {
    Done(LookUpResponse),
    Ask { contract: String, label: String, remaining: Vec<String> },
}

/// Starts resolving `name`: its last label is looked up in this registry.
pub fn lookup_start(deps: &QueryStore, name: String) -> (res: Result<LookupProgress, StdError>)
    ensures
        resolution_order(name@).len() >= 1,
        res matches Ok(p) ==> {
            &&& reads_as(queried_addresses(*deps), resolution_order(name@)[0], p.current.deep_view())
            &&& p.pending.deep_view() == resolution_order(name@).drop_first()
        },
        res is Err <==> unreadable(queried_addresses(*deps), resolution_order(name@)[0]),
{
    proof {
        reveal_strlit("address");
        lemma_split_labels_nonempty(name@);
    }
    let mut pending = reversed(split_at_dots(name.as_str()));
    let ghost order = pending.deep_view();
    let first = pending.remove(0);
    assert(pending.deep_view() =~= order.drop_first());
    let current = match load_string(deps, ADDR_KEY, &first) {
        Ok(a) => a,
        Err(e) => return Err(e),
    };
    Ok(LookupProgress { pending, current })
}

/// The step that asks for the next label once the check of the current
/// address gave `checked`: a refused address is passed on as the error; an
/// accepted one is the registry to ask for the first pending label.
pub open spec fn ask_outcome(
    pending: Seq<Seq<char>>,
    checked: Result<String, StdError>,
    res: Result<LookupStep, StdError>,
) -> bool {
    match checked {
        Err(e) => res == Err::<LookupStep, StdError>(e),
        Ok(a) => match res {
            Ok(LookupStep::Ask { contract, label, remaining }) => {
                &&& contract == a
                &&& label@ == pending[0]
                &&& remaining.deep_view() == pending.drop_first()
            },
            _ => false,
        },
    }
}

/// Takes the resolution one step on: with no label left the answer is the
/// current address; otherwise the current address is checked and is the
/// registry to ask for the next label. Resolving a label through a name that
/// gave no address is refused (`requires`).
pub fn lookup_step(deps: &QueryStore, progress: LookupProgress) -> (res: Result<LookupStep, StdError>)
    requires
        progress.pending.len() > 0 ==> progress.current is Some,
    ensures
        progress.pending.len() == 0 ==> (res matches Ok(LookupStep::Done(r)) && r.addr
            == progress.current),
        progress.pending.len() > 0 ==> match res {
            Ok(LookupStep::Ask { contract, label, remaining }) => {
                &&& contract@ == progress.current.unwrap()@
                &&& label@ == progress.pending.deep_view()[0]
                &&& remaining.deep_view() == progress.pending.deep_view().drop_first()
            },
            Ok(LookupStep::Done(_)) => false,
            Err(_) => true,
        },
        progress.pending.len() > 0 ==> exists|checked: Result<String, StdError>|
            checked_as(progress.current.unwrap()@, checked) && #[trigger] ask_outcome(
                progress.pending.deep_view(),
                checked,
                res,
            ),
{
    let LookupProgress { pending, current } = progress;
    if pending.len() == 0 {
        return Ok(LookupStep::Done(LookUpResponse { addr: current }));
    }
    let addr = match current {
        Some(a) => a,
        None => return Ok(LookupStep::Done(LookUpResponse { addr: None })),
    };
    let checked = validate_address(deps, &addr);
    let ghost c = checked;
    let ghost order = pending.deep_view();
    let res = lookup_ask(pending, checked);
    assert(ask_outcome(order, c, res));
    res
}

/// The step that asks for the first of the `pending` labels once the check
/// of the current address gave `checked`.
pub fn lookup_ask(pending: Vec<String>, checked: Result<String, StdError>) -> (res: Result<
    LookupStep,
    StdError,
>)
    requires
        pending.len() > 0,
    ensures
        ask_outcome(pending.deep_view(), checked, res),
{
    match checked {
        Ok(contract) => {
            let mut remaining = pending;
            let ghost order = remaining.deep_view();
            let label = remaining.remove(0);
            assert(remaining.deep_view() =~= order.drop_first());
            Ok(LookupStep::Ask { contract, label, remaining })
        },
        Err(e) => Err(e),
    }
}

} // verus!

use vstd::prelude::*;

use cosmwasm_std::StdError;

use crate::coin::Coin;
use crate::cw5::helpers::ReverseLookUpResponse;
use crate::cw5::query::{ADDR_KEY, NAMES_KEY};
use crate::error::{ContractError, ErrorView};
use crate::indexer::coin_helpers::sufficient_funds;
use crate::indexer::contract::{
    address_to_name, change_checked_outcome, change_outcome, execute_change_outcome,
    execute_outcome, execute_register_outcome, indexer_name_verdict, name_to_address,
    queried_addresses, queried_names, reads_as, register_checked_outcome, register_outcome,
    register_verdict, resolution_order, reverse_checked_outcome, unreadable, MessageInfo,
};
use crate::indexer::msg::ExecuteMsg;
use crate::indexer::state::Config;
use crate::store::{queried_strings, stored_strings, QueryStore, Store};
use crate::text::lemma_split_labels_dotless;

verus! {

/// Every entry of both maps reads as text, and the maps are inverse to each
/// other: a name maps to an address exactly when that address maps back to
/// the name.
pub open spec fn mutually_inverse(
    addresses: Map<Seq<char>, Option<Seq<char>>>,
    names: Map<Seq<char>, Option<Seq<char>>>,
) -> bool {
    &&& forall|k: Seq<char>| #[trigger] addresses.contains_key(k) ==> addresses[k] is Some
    &&& forall|k: Seq<char>| #[trigger] names.contains_key(k) ==> names[k] is Some
    &&& forall|n: Seq<char>, a: Seq<char>|
        #[trigger] addresses.contains_key(n) && addresses[n] == Some(a) <==> #[trigger] names.contains_key(a)
            && names[a] == Some(n)
}

/// A query made on the storage that an execution left sees that storage's
/// entries.
pub open spec fn sees(view: QueryStore, store: Store) -> bool {
    forall|ns: Seq<char>| #[trigger] queried_strings(view, ns) == stored_strings(store, ns)
}

/// After a successful registration, looking up the name gives the address
/// and looking up the address gives the name, in the storage and in any
/// query made on it; every other name and address reads as before.
pub proof fn lemma_register_then_lookup(
    before: Store,
    after: Store,
    view: QueryStore,
    config: Config,
    funds: Seq<Coin>,
    address: Seq<char>,
    name: Seq<char>,
)
    requires
        register_outcome(before, after, config, funds, address, name, Ok(())),
        sees(view, after),
    ensures
        reads_as(queried_addresses(view), name, Some(address)),
        reads_as(queried_names(view), address, Some(name)),
        forall|n: Seq<char>|
            n != name ==> #[trigger] name_to_address(after).get(n) == name_to_address(before).get(
                n,
            ),
        forall|a: Seq<char>|
            a != address ==> #[trigger] address_to_name(after).get(a) == address_to_name(
                before,
            ).get(a),
{
    assert(queried_addresses(view) == name_to_address(after));
    assert(queried_names(view) == address_to_name(after));
}

/// A successful registration keeps the two maps inverse to each other.
pub proof fn lemma_register_keeps_maps_inverse(
    before: Store,
    after: Store,
    config: Config,
    funds: Seq<Coin>,
    address: Seq<char>,
    name: Seq<char>,
)
    requires
        mutually_inverse(name_to_address(before), address_to_name(before)),
        register_outcome(before, after, config, funds, address, name, Ok(())),
    ensures
        mutually_inverse(name_to_address(after), address_to_name(after)),
{
    let a0 = name_to_address(before);
    let n0 = address_to_name(before);
    let a1 = name_to_address(after);
    let n1 = address_to_name(after);
    assert(!a0.contains_key(name));
    assert(!n0.contains_key(address));
    assert forall|n: Seq<char>, a: Seq<char>|
        #[trigger] a1.contains_key(n) && a1[n] == Some(a) <==> #[trigger] n1.contains_key(a)
            && n1[a] == Some(n) by {
        if n == name || a == address {
            if a0.contains_key(n) && a0[n] == Some(a) {
                assert(n0.contains_key(a) && n0[a] == Some(n));
            }
            if n0.contains_key(a) && n0[a] == Some(n) {
                assert(a0.contains_key(n) && a0[n] == Some(a));
            }
        }
    }
}

/// Names go to whoever registers them first: once a registration of `name`
/// has succeeded, every later registration of it that pays the price is
/// refused as taken.
pub proof fn lemma_register_first_come(
    before: Store,
    after: Store,
    config: Config,
    funds: Seq<Coin>,
    address: Seq<char>,
    name: Seq<char>,
    later_funds: Seq<Coin>,
    later_address: Seq<char>,
)
    requires
        register_outcome(before, after, config, funds, address, name, Ok(())),
        sufficient_funds(later_funds, config.price),
    ensures
        register_verdict(
            name_to_address(after),
            address_to_name(after),
            config.price,
            later_funds,
            later_address,
            name,
        ) == Err::<(), ErrorView>(ErrorView::NameTaken { name }),
{
}

/// An address holds one name: once `address` has registered `name`, a
/// registration of another free, well-formed name for it that pays the price
/// is refused, naming the name it holds.
pub proof fn lemma_one_name_per_address(
    before: Store,
    after: Store,
    config: Config,
    funds: Seq<Coin>,
    address: Seq<char>,
    name: Seq<char>,
    other_funds: Seq<Coin>,
    other_name: Seq<char>,
)
    requires
        register_outcome(before, after, config, funds, address, name, Ok(())),
        indexer_name_verdict(other_name) is Ok,
        sufficient_funds(other_funds, config.price),
        !name_to_address(after).contains_key(other_name),
    ensures
        register_verdict(
            name_to_address(after),
            address_to_name(after),
            config.price,
            other_funds,
            address,
            other_name,
        ) == Err::<(), ErrorView>(ErrorView::AddressAlreadySet { address, name }),
{
}

/// After a successful update, the new name looks up the address and the
/// address looks up the new name; the entry that the address's text looked
/// up is gone, unless it is the new name itself.
pub proof fn lemma_change_then_lookup(
    before: Store,
    after: Store,
    view: QueryStore,
    config: Config,
    sender: Seq<char>,
    address: Seq<char>,
    to: Seq<char>,
)
    requires
        change_outcome(before, after, config, sender, address, to, Ok(())),
        sees(view, after),
    ensures
        reads_as(queried_addresses(view), to, Some(address)),
        reads_as(queried_names(view), address, Some(to)),
        name_to_address(before)[address].unwrap() != to ==> !name_to_address(after).contains_key(
            name_to_address(before)[address].unwrap(),
        ),
{
    assert(queried_addresses(view) == name_to_address(after));
    assert(queried_names(view) == address_to_name(after));
}

/// An update keeps the two maps inverse to each other where the address has
/// no name or is named by the entry it moves, and that entry is no name or
/// names the address. Elsewhere it does not: the update drops the moved entry
/// by its text, not the address's registered name.
pub proof fn lemma_change_keeps_maps_inverse(
    before: Store,
    after: Store,
    config: Config,
    sender: Seq<char>,
    address: Seq<char>,
    to: Seq<char>,
)
    requires
        mutually_inverse(name_to_address(before), address_to_name(before)),
        change_outcome(before, after, config, sender, address, to, Ok(())),
        ({
            let moved = name_to_address(before)[address].unwrap();
            &&& address_to_name(before).contains_key(address) ==> address_to_name(before)[address]
                == Some(moved)
            &&& name_to_address(before).contains_key(moved) ==> name_to_address(before)[moved]
                == Some(address)
        }),
    ensures
        mutually_inverse(name_to_address(after), address_to_name(after)),
{
    let a0 = name_to_address(before);
    let n0 = address_to_name(before);
    let a1 = name_to_address(after);
    let n1 = address_to_name(after);
    let moved = a0[address].unwrap();
    assert(!a0.contains_key(to));
    assert(a0.contains_key(address) && a0[address] == Some(moved));
    assert forall|n: Seq<char>, a: Seq<char>|
        #[trigger] a1.contains_key(n) && a1[n] == Some(a) <==> #[trigger] n1.contains_key(a)
            && n1[a] == Some(n) by {
        if a0.contains_key(n) && a0[n] == Some(a) {
            assert(n0.contains_key(a) && n0[a] == Some(n));
        }
        if n0.contains_key(a) && n0[a] == Some(n) {
            assert(a0.contains_key(n) && a0[n] == Some(a));
        }
    }
}

/// A result as the errors' views see it.
pub open spec fn outcome_view(res: Result<(), ContractError>) -> Result<(), ErrorView> {
    match res {
        Ok(()) => Ok(()),
        Err(e) => Err(e@),
    }
}

/// Who sends a registration makes no difference: two registrations of the
/// same name with the same coins, whose address checks came out the same,
/// succeed or fail alike, with the same error where it is the registry's
/// own, and leave the same entries; a refused address gives both the same
/// error.
pub proof fn lemma_register_ignores_sender(
    before: Store,
    after1: Store,
    after2: Store,
    config: Config,
    info1: MessageInfo,
    info2: MessageInfo,
    checked: Result<String, StdError>,
    name: Seq<char>,
    res1: Result<(), ContractError>,
    res2: Result<(), ContractError>,
)
    requires
        info1.funds@ == info2.funds@,
        register_checked_outcome(before, after1, config, info1.funds@, checked, name, res1),
        register_checked_outcome(before, after2, config, info2.funds@, checked, name, res2),
    ensures
        outcome_view(res1) == outcome_view(res2),
        forall|ns: Seq<char>| #[trigger] stored_strings(after1, ns) == stored_strings(after2, ns),
        checked is Err ==> res1 == res2,
{
    assert forall|ns: Seq<char>| #[trigger] stored_strings(after1, ns) == stored_strings(
        after2,
        ns,
    ) by {
        if res1 is Ok && ns != ADDR_KEY@ && ns != NAMES_KEY@ {
            assert(stored_strings(after1, ns) == stored_strings(before, ns));
            assert(stored_strings(after2, ns) == stored_strings(before, ns));
        }
    }
}

/// The coins sent with an update make no difference, and an update never
/// writes outside the two maps (the configuration it reads is not written):
/// two updates by the same sender whose address checks came out the same
/// succeed or fail alike and leave the same entries.
pub proof fn lemma_update_ignores_funds(
    before: Store,
    after1: Store,
    after2: Store,
    config: Config,
    info1: MessageInfo,
    info2: MessageInfo,
    checked: Result<String, StdError>,
    to: Seq<char>,
    res1: Result<(), ContractError>,
    res2: Result<(), ContractError>,
)
    requires
        info1.sender@ == info2.sender@,
        change_checked_outcome(before, after1, config, info1.sender@, checked, to, res1),
        change_checked_outcome(before, after2, config, info2.sender@, checked, to, res2),
    ensures
        outcome_view(res1) == outcome_view(res2),
        forall|ns: Seq<char>| #[trigger] stored_strings(after1, ns) == stored_strings(after2, ns),
        forall|ns: Seq<char>|
            ns != ADDR_KEY@ && ns != NAMES_KEY@ ==> #[trigger] stored_strings(after1, ns)
                == stored_strings(before, ns),
        checked is Err ==> res1 == res2,
{
    assert forall|ns: Seq<char>| #[trigger] stored_strings(after1, ns) == stored_strings(
        after2,
        ns,
    ) by {
        if res1 is Ok && ns != ADDR_KEY@ && ns != NAMES_KEY@ {
            assert(stored_strings(after1, ns) == stored_strings(before, ns));
            assert(stored_strings(after2, ns) == stored_strings(before, ns));
        }
    }
    assert forall|ns: Seq<char>|
        ns != ADDR_KEY@ && ns != NAMES_KEY@ implies #[trigger] stored_strings(after1, ns)
            == stored_strings(before, ns) by {
        if res1 is Ok {
            assert(stored_strings(after1, ns) == stored_strings(before, ns));
        }
    }
}

/// `execute` does what the handler of its message does: a registration as
/// `execute_register`, an update as `execute_change`.
pub proof fn lemma_execute_is_its_handler(
    before: Store,
    after: Store,
    config: Config,
    info: MessageInfo,
    msg: ExecuteMsg,
    res: Result<(), ContractError>,
)
    ensures
        execute_outcome(before, after, config, info, msg, res) == match msg {
            ExecuteMsg::Register { address, name } => execute_register_outcome(
                before,
                after,
                config,
                info,
                address@,
                name@,
                res,
            ),
            ExecuteMsg::Update { address, to } => execute_change_outcome(
                before,
                after,
                config,
                info,
                address@,
                to@,
                res,
            ),
        },
{
}

/// A coin of the price's denomination that carries at least the price pays
/// for a registration, wherever it stands among the coins sent.
pub proof fn lemma_any_paying_coin_suffices(sent: Seq<Coin>, price: Coin, i: int)
    requires
        0 <= i < sent.len(),
        sent[i].denom@ == price.denom@,
        sent[i].amount >= price.amount,
    ensures
        sufficient_funds(sent, Some(price)),
{
}

/// Without a price, or with a price of zero, nothing is owed; with a positive
/// price, coins of which none has the price's denomination and amount do not
/// pay.
pub proof fn lemma_unpaid_price_refused(sent: Seq<Coin>, price: Coin)
    ensures
        sufficient_funds(sent, None),
        price.amount == 0 ==> sufficient_funds(sent, Some(price)),
        price.amount > 0 && (forall|i: int|
            0 <= i < sent.len() ==> !(#[trigger] sent[i].denom@ == price.denom@ && sent[i].amount
                >= price.amount)) ==> !sufficient_funds(sent, Some(price)),
{
}

/// Every sender on the admin list may move an address to a free,
/// well-formed name whose entry reads as text, whether or not owners may
/// update too; so may the address itself where owners may update.
pub proof fn lemma_admins_may_update(
    before: Store,
    after: Store,
    config: Config,
    sender: Seq<char>,
    address: String,
    to: Seq<char>,
    res: Result<(), ContractError>,
)
    requires
        config.admin is Some,
        config.admin.unwrap().deep_view().contains(sender) || (config.owner_can_update && sender
            == address@),
        indexer_name_verdict(to) is Ok,
        !name_to_address(before).contains_key(to),
        name_to_address(before).contains_key(address@),
        name_to_address(before)[address@] is Some,
        change_checked_outcome(before, after, config, sender, Ok::<String, StdError>(address), to, res),
    ensures
        res is Ok,
        reads_as(name_to_address(after), to, Some(address@)),
        reads_as(address_to_name(after), address@, Some(to)),
{
}

/// A sender neither on the admin list nor, where owners may update, the
/// address itself is refused as unauthorised.
pub proof fn lemma_others_may_not_update(
    before: Store,
    after: Store,
    config: Config,
    sender: Seq<char>,
    address: String,
    to: Seq<char>,
    res: Result<(), ContractError>,
)
    requires
        config.admin is Some,
        !config.admin.unwrap().deep_view().contains(sender),
        !(config.owner_can_update && sender == address@),
        indexer_name_verdict(to) is Ok,
        !name_to_address(before).contains_key(to),
        name_to_address(before).contains_key(address@),
        name_to_address(before)[address@] is Some,
        change_checked_outcome(before, after, config, sender, Ok::<String, StdError>(address), to, res),
    ensures
        res matches Err(e) && e@ == ErrorView::Unauthorized,
        after == before,
{
}

/// A name without a `.` is resolved in one step, as itself, in the registry
/// asked: no label is left to ask elsewhere.
pub proof fn lemma_dotless_name_is_one_label(name: Seq<char>)
    requires
        !name.contains('.'),
    ensures
        resolution_order(name) == seq![name],
        resolution_order(name).drop_first().len() == 0,
{
    lemma_split_labels_dotless(name);
    assert(seq![name].reverse() =~= seq![name]);
}

/// For an address that the check accepts, the reverse look-up fails only
/// where its entry does not read as text, and otherwise gives that entry.
pub proof fn lemma_reverse_lookup_of_accepted_address(
    deps: QueryStore,
    addr: String,
    res: Result<ReverseLookUpResponse, StdError>,
)
    requires
        reverse_checked_outcome(deps, Ok::<String, StdError>(addr), res),
    ensures
        !unreadable(queried_names(deps), addr@) ==> res is Ok,
        res matches Ok(r) ==> match r.name {
            Some(n) => queried_names(deps).contains_key(addr@) && queried_names(deps)[addr@] == Some(n@),
            None => !queried_names(deps).contains_key(addr@),
        },
{
}

} // verus!

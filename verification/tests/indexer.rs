use cosmwasm_std::testing::{mock_dependencies, MockApi, MockQuerier, MockStorage};
use cosmwasm_std::{OwnedDeps, StdError};

use cw_indexer::coin::Coin;
use cw_indexer::error::ContractError;
use cw_indexer::indexer::coin_helpers::assert_sent_sufficient_coin;
use cw_indexer::indexer::contract::{
    change_checked, execute, instantiate, invalid_char, lookup_ask, lookup_start, lookup_step,
    query_reverse_lookup, register_checked, reverse_lookup, reverse_lookup_checked,
    validate_name, LookupProgress, LookupStep, MessageInfo,
};
use cw_indexer::indexer::msg::{ExecuteMsg, InstantiateMsg, PriceQuery};
use cw_indexer::indexer::state::Config;
use cw_indexer::store::{QueryStore, Store};

type Deps = OwnedDeps<MockStorage, MockApi, MockQuerier>;

/// A set of indexers, each at its own address.
struct World {
    contracts: Vec<(String, Deps, Config)>,
}

impl World {
    fn new() -> World {
        World { contracts: Vec::new() }
    }

    fn instantiate(&mut self, msg: InstantiateMsg) -> String {
        let addr = format!("contract{}", self.contracts.len());
        self.contracts.push((addr.clone(), mock_dependencies(), instantiate(msg)));
        addr
    }

    fn find(&mut self, addr: &str) -> &mut (String, Deps, Config) {
        self.contracts.iter_mut().find(|c| c.0 == addr).expect("no such contract")
    }

    fn execute(&mut self, contract: &str, sender: &str, msg: ExecuteMsg) -> Result<(), ContractError> {
        let (_, deps, config) = self.find(contract);
        let config = config.clone();
        let info = MessageInfo { sender: sender.to_string(), funds: vec![] };
        let mut store = Store(deps.as_mut());
        execute(&mut store, &config, info, msg)
    }

    /// Resolves `name` in the indexer at `contract`, asking the indexers it
    /// names for the labels to the left.
    fn look_up(&mut self, contract: &str, name: &str) -> Option<String> {
        let mut progress = {
            let (_, deps, _) = self.find(contract);
            lookup_start(&QueryStore(deps.as_ref()), name.to_string()).unwrap()
        };
        loop {
            let step = {
                let (_, deps, _) = self.find(contract);
                lookup_step(&QueryStore(deps.as_ref()), progress).unwrap()
            };
            match step {
                LookupStep::Done(r) => return r.addr,
                LookupStep::Ask { contract: next, label, remaining } => {
                    let answer = self.look_up(&next, &label);
                    if !remaining.is_empty() && answer.is_none() {
                        panic!("called `Option::unwrap()` on a `None` value");
                    }
                    progress = LookupProgress { pending: remaining, current: answer };
                }
            }
        }
    }
}

fn no_price() -> InstantiateMsg {
    InstantiateMsg { price: None, admin: None, owner_can_update: true }
}

fn register(address: &str, name: &str) -> ExecuteMsg {
    ExecuteMsg::Register { address: address.to_string(), name: name.to_string() }
}

fn lookup_local(deps: &Deps, name: &str) -> Option<String> {
    let q = QueryStore(deps.as_ref());
    let progress = lookup_start(&q, name.to_string()).unwrap();
    match lookup_step(&q, progress).unwrap() {
        LookupStep::Done(r) => r.addr,
        LookupStep::Ask { .. } => panic!("a one-label name resolves locally"),
    }
}

#[test]
fn register_indexed_second_layer() {
    let mut world = World::new();
    let alice = "alice_address";
    let root_indexer = world.instantiate(no_price());
    let branch_indexer = world.instantiate(no_price());

    world.execute(&root_indexer, alice, register(&branch_indexer, "guildhub")).unwrap();
    world.execute(&branch_indexer, alice, register(alice, "alice")).unwrap();

    let queried_alice = world.look_up(&root_indexer, "alice.guildhub");
    assert_eq!(queried_alice.unwrap(), alice.to_string())
}

/// The named group answers a look-up of a member's name with its address.
fn named_group(world: &mut World) -> String {
    let group = world.instantiate(no_price());
    for (addr, name) in [("alice_address", "alice"), ("bob_address", "bob"), ("carol_address", "carol")] {
        world.execute(&group, "alice_address", register(addr, name)).unwrap();
    }
    group
}

#[test]
fn register_group_named() {
    let mut world = World::new();
    let alice = "alice_address";
    let bob = "bob_address";
    let carol = "carol_address";
    let group_contract = named_group(&mut world);
    let root_indexer = world.instantiate(no_price());

    world.execute(&root_indexer, alice, register(&group_contract, "guildhub")).unwrap();

    assert_eq!(world.look_up(&root_indexer, "alice.guildhub").unwrap(), alice.to_string());
    assert_eq!(world.look_up(&root_indexer, "bob.guildhub").unwrap(), bob.to_string());
    assert_eq!(world.look_up(&root_indexer, "carol.guildhub").unwrap(), carol.to_string());
    assert!(world.look_up(&root_indexer, "unknown.guildhub").is_none());
}

#[test]
fn register_indexed_more_layers() {
    let mut world = World::new();
    let alice = "alice_address";
    let bob = "bob_address";
    let carol = "carol_address";
    let group_contract = named_group(&mut world);
    let root_indexer = world.instantiate(no_price());
    let branch_indexer = world.instantiate(no_price());

    world.execute(&branch_indexer, alice, register(&group_contract, "gamers_for_life")).unwrap();
    world.execute(&root_indexer, alice, register(&branch_indexer, "guildhub")).unwrap();

    assert_eq!(
        world.look_up(&root_indexer, "alice.gamers_for_life.guildhub").unwrap(),
        alice.to_string()
    );
    assert_eq!(world.look_up(&root_indexer, "bob.gamers_for_life.guildhub").unwrap(), bob.to_string());
    assert_eq!(
        world.look_up(&root_indexer, "carol.gamers_for_life.guildhub").unwrap(),
        carol.to_string()
    );
    assert!(world.look_up(&root_indexer, "unknown.gamers_for_life.guildhub").is_none());
}

#[test]
fn register_available_name_and_query_works() {
    let mut deps = mock_dependencies();
    let config = instantiate(no_price());
    let info = MessageInfo { sender: "alice_key".to_string(), funds: vec![] };
    execute(&mut Store(deps.as_mut()), &config, info, register("test", "alice"))
        .expect("contract successfully handles Register message");
    assert_eq!(lookup_local(&deps, "alice"), Some("test".to_string()));
}

// ---------------------------------------------------------------------------

fn coin(amount: u128, denom: &str) -> Coin {
    Coin { denom: denom.to_string(), amount }
}

fn priced(amount: u128) -> Config {
    instantiate(InstantiateMsg {
        price: Some(coin(amount, "token")),
        admin: Some(vec!["admin_key".to_string()]),
        owner_can_update: false,
    })
}

fn run(deps: &mut Deps, config: &Config, sender: &str, funds: Vec<Coin>, msg: ExecuteMsg) -> Result<(), ContractError> {
    let info = MessageInfo { sender: sender.to_string(), funds };
    execute(&mut Store(deps.as_mut()), config, info, msg)
}

fn reverse(deps: &Deps, addr: &str) -> Option<String> {
    query_reverse_lookup(&QueryStore(deps.as_ref()), addr.to_string()).unwrap().name
}

#[test]
fn registration_sets_both_directions() {
    let mut deps = mock_dependencies();
    let config = instantiate(no_price());
    run(&mut deps, &config, "x", vec![], register("bob_addr", "bob")).unwrap();
    assert_eq!(lookup_local(&deps, "bob"), Some("bob_addr".to_string()));
    assert_eq!(reverse(&deps, "bob_addr"), Some("bob".to_string()));
    assert_eq!(lookup_local(&deps, "carol"), None);
    assert_eq!(reverse(&deps, "carol_addr"), None);
}

#[test]
fn fails_on_register_already_taken_name() {
    let mut deps = mock_dependencies();
    let config = instantiate(no_price());
    run(&mut deps, &config, "alice_key", vec![], register("test", "alice")).unwrap();
    let res = run(&mut deps, &config, "bob_key", vec![], register("other", "alice"));
    assert_eq!(res, Err(ContractError::NameTaken { name: "alice".to_string() }));
    assert_eq!(lookup_local(&deps, "alice"), Some("test".to_string()));
    assert_eq!(reverse(&deps, "other"), None);
}

#[test]
fn fails_on_second_name_for_address() {
    let mut deps = mock_dependencies();
    let config = instantiate(no_price());
    run(&mut deps, &config, "alice_key", vec![], register("test", "alice")).unwrap();
    let res = run(&mut deps, &config, "alice_key", vec![], register("test", "alicia"));
    assert_eq!(
        res,
        Err(ContractError::AddressAlreadySet { address: "test".to_string(), name: "alice".to_string() })
    );
    assert_eq!(lookup_local(&deps, "alicia"), None);
}

#[test]
fn register_fails_with_invalid_name() {
    let mut deps = mock_dependencies();
    let config = instantiate(no_price());
    assert_eq!(
        run(&mut deps, &config, "bob_key", vec![], register("test", "h")),
        Err(ContractError::NameTooShort { length: 1, min_length: 2 })
    );
    let long = "0123456789012345678901234567890";
    assert_eq!(
        run(&mut deps, &config, "bob_key", vec![], register("test", long)),
        Err(ContractError::NameTooLong { length: 31, max_length: 30 })
    );
    assert_eq!(
        run(&mut deps, &config, "bob_key", vec![], register("test", "LOUD")),
        Err(ContractError::InvalidCharacter { c: 'L' })
    );
    assert_eq!(
        run(&mut deps, &config, "bob_key", vec![], register("test", "two words")),
        Err(ContractError::InvalidCharacter { c: ' ' })
    );
    assert_eq!(lookup_local(&deps, "two"), None);
}

#[test]
fn register_fails_with_invalid_address() {
    let mut deps = mock_dependencies();
    let config = instantiate(no_price());
    let res = run(&mut deps, &config, "bob_key", vec![], register("ab", "bob"));
    assert!(matches!(res, Err(ContractError::Std(_))));
    assert_eq!(lookup_local(&deps, "bob"), None);
}

#[test]
fn fails_on_register_insufficient_fees() {
    let mut deps = mock_dependencies();
    let config = priced(2);
    assert_eq!(
        run(&mut deps, &config, "alice_key", vec![], register("test", "alice")),
        Err(ContractError::InsufficientFundsSend {})
    );
    assert_eq!(
        run(&mut deps, &config, "alice_key", vec![coin(2, "earth")], register("test", "alice")),
        Err(ContractError::InsufficientFundsSend {})
    );
    assert_eq!(
        run(&mut deps, &config, "alice_key", vec![coin(1, "token")], register("test", "alice")),
        Err(ContractError::InsufficientFundsSend {})
    );
    run(&mut deps, &config, "alice_key", vec![coin(1, "earth"), coin(5, "token")], register("test", "alice"))
        .unwrap();
    assert_eq!(lookup_local(&deps, "alice"), Some("test".to_string()));
}

#[test]
fn sufficient_coin_rules() {
    assert_eq!(assert_sent_sufficient_coin(&[], None), Ok(()));
    assert_eq!(assert_sent_sufficient_coin(&[], Some(coin(0, "token"))), Ok(()));
    assert_eq!(assert_sent_sufficient_coin(&[coin(3, "token")], Some(coin(3, "token"))), Ok(()));
    assert_eq!(
        assert_sent_sufficient_coin(&[coin(2, "token"), coin(9, "other")], Some(coin(3, "token"))),
        Err(ContractError::InsufficientFundsSend {})
    );
}

#[test]
fn update_by_admin_moves_the_entry() {
    let mut deps = mock_dependencies();
    let config = priced(0);
    // the name-to-address map is read under the address's text
    run(&mut deps, &config, "x", vec![], register("old_target", "owner_addr")).unwrap();
    let msg = ExecuteMsg::Update { address: "owner_addr".to_string(), to: "fresh".to_string() };
    assert_eq!(run(&mut deps, &config, "stranger", vec![], msg.clone()), Err(ContractError::Unauthorized {}));
    // owners may not update here
    assert_eq!(run(&mut deps, &config, "owner_addr", vec![], msg.clone()), Err(ContractError::Unauthorized {}));
    run(&mut deps, &config, "admin_key", vec![], msg).unwrap();
    assert_eq!(lookup_local(&deps, "fresh"), Some("owner_addr".to_string()));
    assert_eq!(reverse(&deps, "owner_addr"), Some("fresh".to_string()));
    // the entry under the moved name ("old_target") is dropped, if any
    assert_eq!(lookup_local(&deps, "old_target"), None);
    assert_eq!(lookup_local(&deps, "owner_addr"), Some("old_target".to_string()));
}

#[test]
fn update_drops_the_entry_named_by_the_moved_text() {
    let mut deps = mock_dependencies();
    let config = priced(0);
    run(&mut deps, &config, "x", vec![], register("zz_target", "owner_addr")).unwrap();
    run(&mut deps, &config, "x", vec![], register("other_addr", "zz_target")).unwrap();
    run(&mut deps, &config, "x", vec![], register("owner_addr", "first")).unwrap();
    let msg = ExecuteMsg::Update { address: "owner_addr".to_string(), to: "fresh".to_string() };
    run(&mut deps, &config, "admin_key", vec![], msg).unwrap();
    assert_eq!(lookup_local(&deps, "zz_target"), None);
    assert_eq!(lookup_local(&deps, "fresh"), Some("owner_addr".to_string()));
    assert_eq!(reverse(&deps, "owner_addr"), Some("fresh".to_string()));
    // the pair registered for the address itself is left behind
    assert_eq!(lookup_local(&deps, "first"), Some("owner_addr".to_string()));
    assert_eq!(reverse(&deps, "other_addr"), Some("zz_target".to_string()));
}

#[test]
fn update_by_owner_when_allowed() {
    let mut deps = mock_dependencies();
    let config = instantiate(InstantiateMsg { price: None, admin: Some(vec![]), owner_can_update: true });
    run(&mut deps, &config, "x", vec![], register("somebody", "owner_addr")).unwrap();
    let msg = ExecuteMsg::Update { address: "owner_addr".to_string(), to: "renamed".to_string() };
    run(&mut deps, &config, "owner_addr", vec![], msg).unwrap();
    assert_eq!(lookup_local(&deps, "renamed"), Some("owner_addr".to_string()));
}

#[test]
fn update_refusals() {
    let mut deps = mock_dependencies();
    let config = priced(0);
    run(&mut deps, &config, "x", vec![], register("taken_addr", "taken")).unwrap();
    let to_taken = ExecuteMsg::Update { address: "taken_addr".to_string(), to: "taken".to_string() };
    assert_eq!(
        run(&mut deps, &config, "admin_key", vec![], to_taken),
        Err(ContractError::NameTaken { name: "taken".to_string() })
    );
    let unknown = ExecuteMsg::Update { address: "nobody_addr".to_string(), to: "fresh".to_string() };
    assert_eq!(run(&mut deps, &config, "admin_key", vec![], unknown), Err(ContractError::Unauthorized {}));
    let bad_name = ExecuteMsg::Update { address: "taken_addr".to_string(), to: "X".to_string() };
    assert_eq!(
        run(&mut deps, &config, "admin_key", vec![], bad_name),
        Err(ContractError::NameTooShort { length: 1, min_length: 2 })
    );
}

#[test]
fn lookup_of_dotted_name_asks_in_order() {
    let mut deps = mock_dependencies();
    let config = instantiate(no_price());
    run(&mut deps, &config, "x", vec![], register("tld_contract", "hub")).unwrap();
    let q = QueryStore(deps.as_ref());
    let progress = lookup_start(&q, "a.b.hub".to_string()).unwrap();
    assert_eq!(progress.current, Some("tld_contract".to_string()));
    assert_eq!(progress.pending, vec!["b".to_string(), "a".to_string()]);
    match lookup_step(&q, progress).unwrap() {
        LookupStep::Ask { contract, label, remaining } => {
            assert_eq!(contract, "tld_contract");
            assert_eq!(label, "b");
            assert_eq!(remaining, vec!["a".to_string()]);
        }
        LookupStep::Done(_) => panic!("two labels are left"),
    }
    let empty = lookup_start(&q, "".to_string()).unwrap();
    assert_eq!(empty.current, None);
    assert!(empty.pending.is_empty());
}

#[test]
fn indexer_name_rules() {
    assert_eq!(validate_name("ab"), Ok(()));
    assert_eq!(validate_name("a-b_c.9"), Ok(()));
    assert_eq!(validate_name("a"), Err(ContractError::NameTooShort { length: 1, min_length: 2 }));
    assert_eq!(validate_name("é"), Err(ContractError::InvalidCharacter { c: 'é' }));
    assert_eq!(validate_name("ä"), Err(ContractError::InvalidCharacter { c: 'ä' }));
    assert_eq!(validate_name("aé"), Err(ContractError::InvalidCharacter { c: 'é' }));
    assert!(invalid_char('A'));
    assert!(!invalid_char('z'));
}

#[test]
fn price_query_reports_the_price() {
    let config = priced(7);
    let a = PriceQuery::from(config.clone());
    let b = PriceQuery::from(priced(7));
    let c = PriceQuery::from(priced(8));
    assert_eq!(a, b);
    assert_ne!(a, c);
}

#[test]
fn reverse_lookup_of_checked_address() {
    let mut deps = mock_dependencies();
    let config = instantiate(no_price());
    run(&mut deps, &config, "x", vec![], register("dana_addr", "dana")).unwrap();
    let q = QueryStore(deps.as_ref());
    assert_eq!(reverse_lookup(&q, "dana_addr".to_string()).unwrap().name, Some("dana".to_string()));
    assert_eq!(reverse_lookup(&q, "nobody".to_string()).unwrap().name, None);
    assert!(query_reverse_lookup(&q, "AB".to_string()).is_err());
}

#[test]
fn refused_address_check_is_passed_on() {
    let mut deps = mock_dependencies();
    let config = priced(0);
    let refused = || Err(StdError::generic_err("refused"));
    assert_eq!(
        register_checked(&mut Store(deps.as_mut()), &config, &vec![], refused(), "alice".to_string()),
        Err(ContractError::Std(StdError::generic_err("refused")))
    );
    assert_eq!(
        change_checked(&mut Store(deps.as_mut()), &config, &"admin_key".to_string(), refused(), "fresh".to_string()),
        Err(ContractError::Std(StdError::generic_err("refused")))
    );
    let q = QueryStore(deps.as_ref());
    assert_eq!(reverse_lookup_checked(&q, refused()), Err(StdError::generic_err("refused")));
    assert_eq!(lookup_ask(vec!["a".to_string()], refused()), Err(StdError::generic_err("refused")));
    assert_eq!(lookup_local(&deps, "alice"), None);
}

#[test]
fn accepted_address_check_goes_on() {
    let mut deps = mock_dependencies();
    let config = instantiate(no_price());
    register_checked(&mut Store(deps.as_mut()), &config, &vec![], Ok("erin_addr".to_string()), "erin".to_string())
        .unwrap();
    let q = QueryStore(deps.as_ref());
    assert_eq!(reverse_lookup_checked(&q, Ok("erin_addr".to_string())).unwrap().name, Some("erin".to_string()));
    assert_eq!(
        lookup_ask(vec!["a".to_string(), "b".to_string()], Ok("reg".to_string())),
        Ok(LookupStep::Ask { contract: "reg".to_string(), label: "a".to_string(), remaining: vec!["b".to_string()] })
    );
}

#[test]
fn update_without_admins_reports_a_bad_name() {
    let mut deps = mock_dependencies();
    let config = instantiate(no_price());
    let msg = ExecuteMsg::Update { address: "someone".to_string(), to: "X".to_string() };
    assert_eq!(
        run(&mut deps, &config, "someone", vec![], msg),
        Err(ContractError::NameTooShort { length: 1, min_length: 2 })
    );
    let bad_address = ExecuteMsg::Update { address: "ab".to_string(), to: "X".to_string() };
    assert!(matches!(run(&mut deps, &config, "someone", vec![], bad_address), Err(ContractError::Std(_))));
}

use uref_share::group::{admits, Context};
use uref_share::locked::{activate_access, prepare_access};
use uref_share::principal::Principal;
use uref_share::resource::{access_state, check_grant, gated_operation, AccessState};
use uref_share::share::{Record, ShareBroker};
use uref_share::signal::Signal;
use uref_share::token::Token;

fn token(n: u8) -> Token {
    Token::new([n; 32], 7)
}

fn principal(n: u8) -> Principal {
    Principal::new([n; 32])
}

struct Deployed {
    group: Vec<Token>,
    broker: ShareBroker,
    admin: Context,
    user: Principal,
    unauth: Principal,
}

fn deploy() -> Deployed {
    let user = principal(2);
    let group = vec![token(10), token(11)];
    let plan = prepare_access(&vec![user], group.clone()).unwrap();
    let mut admin = Context::new();
    admin.receive(plan.retained);
    let mut broker = ShareBroker::new();
    broker.distribute(&plan.grants);
    Deployed { group, broker, admin, user, unauth: principal(3) }
}

#[test]
fn deployer_calls_function() {
    let contract = deploy();
    let signal = gated_operation(admits(&contract.group, &contract.admin));
    assert_eq!(signal, Signal::Reached);
    assert_eq!(signal.user_code(), Some(777));
}

#[test]
fn unauth_calls_function() {
    let contract = deploy();
    let ctx = Context::new();
    let signal = gated_operation(admits(&contract.group, &ctx));
    assert_eq!(signal, Signal::InvalidContext);
    assert_eq!(signal.user_code(), None);
}

#[test]
fn getting_access() {
    let contract = deploy();
    let mut ctx = Context::new();
    assert_eq!(activate_access(&contract.broker, &contract.user, &mut ctx), Ok(()));
    let signal = gated_operation(admits(&contract.group, &ctx));
    assert_eq!(signal, Signal::Reached);
    assert_eq!(signal.user_code(), Some(777));
}

#[test]
fn unable_to_gain_access() {
    let contract = deploy();
    let mut ctx = Context::new();
    let denied = activate_access(&contract.broker, &contract.unauth, &mut ctx);
    assert_eq!(denied, Err(Signal::NoGrant));
    assert_eq!(Signal::NoGrant.user_code(), Some(1));
    assert!(ctx.tokens.is_empty());
    assert_eq!(gated_operation(admits(&contract.group, &ctx)), Signal::InvalidContext);
}

#[test]
fn granted_user_is_refused_before_activation() {
    let contract = deploy();
    assert!(contract.broker.lookup(&contract.user).is_some());
    let ctx = Context::new();
    assert_eq!(gated_operation(admits(&contract.group, &ctx)), Signal::InvalidContext);
}

#[test]
fn repeated_activation_fetches_the_same_token() {
    let contract = deploy();
    let mut ctx = Context::new();
    assert_eq!(activate_access(&contract.broker, &contract.user, &mut ctx), Ok(()));
    assert_eq!(activate_access(&contract.broker, &contract.user, &mut ctx), Ok(()));
    assert_eq!(ctx.tokens.len(), 2);
    assert!(ctx.tokens[0] == ctx.tokens[1]);
    assert!(contract.broker.lookup(&contract.user).is_some());
}

#[test]
fn retained_token_never_reaches_the_broker() {
    let users = vec![principal(1), principal(2), principal(3)];
    let group = vec![token(20), token(21), token(22), token(23)];
    let plan = prepare_access(&users, group).unwrap();
    assert_eq!(plan.grants.len(), 3);
    assert!(plan.retained == token(23));
    let mut broker = ShareBroker::new();
    broker.distribute(&plan.grants);
    for user in &users {
        let found = broker.retrieve(user);
        assert!(!found.is_sentinel());
        assert!(found != plan.retained);
    }
    assert!(broker.retrieve(&users[0]) == token(22));
    assert!(broker.retrieve(&users[1]) == token(21));
    assert!(broker.retrieve(&users[2]) == token(20));
}

#[test]
fn setup_for_no_principal_retains_the_only_token() {
    let plan = prepare_access(&Vec::new(), vec![token(4)]).unwrap();
    assert!(plan.retained == token(4));
    assert!(plan.grants.is_empty());
}

#[test]
fn setup_refuses_a_group_of_the_wrong_size() {
    assert!(prepare_access(&vec![principal(1)], vec![token(4)]).is_none());
    assert!(prepare_access(&vec![principal(1)], vec![token(4), token(4)]).is_none());
}

#[test]
fn retrieve_without_record_gives_the_sentinel() {
    let mut broker = ShareBroker::new();
    assert!(broker.retrieve(&principal(1)).is_sentinel());
    assert!(broker.lookup(&principal(1)).is_none());
    broker.store(token(9), principal(2));
    assert!(broker.retrieve(&principal(1)).is_sentinel());
    assert!(broker.retrieve(&principal(2)) == token(9));
}

#[test]
fn store_overwrites_the_principals_record() {
    let mut broker = ShareBroker::new();
    broker.store(token(1), principal(5));
    broker.store(token(2), principal(6));
    broker.store(token(3), principal(5));
    assert!(broker.retrieve(&principal(5)) == token(3));
    assert!(broker.retrieve(&principal(6)) == token(2));
}

#[test]
fn stored_sentinel_is_told_from_a_missing_record() {
    let mut broker = ShareBroker::new();
    broker.store(Token::sentinel(), principal(5));
    assert!(broker.lookup(&principal(5)).unwrap().is_sentinel());
    assert!(broker.lookup(&principal(6)).is_none());
    let mut ctx = Context::new();
    assert_eq!(activate_access(&broker, &principal(5), &mut ctx), Err(Signal::NoGrant));
}

#[test]
fn grant_check_denies_the_sentinel_only() {
    assert_eq!(check_grant(Token::sentinel()), Err(Signal::NoGrant));
    let granted = check_grant(token(1)).unwrap();
    assert!(granted == token(1));
}

#[test]
fn distribution_stores_grants_in_order() {
    let mut broker = ShareBroker::new();
    let grants = vec![
        Record { principal: principal(1), token: token(1) },
        Record { principal: principal(1), token: token(2) },
    ];
    broker.distribute(&grants);
    assert!(broker.retrieve(&principal(1)) == token(2));
}

#[test]
fn states_of_a_principal() {
    let contract = deploy();
    let mut ctx = Context::new();
    let unauth = access_state(
        contract.broker.lookup(&contract.unauth).is_some(),
        admits(&contract.group, &ctx),
    );
    assert_eq!(unauth, AccessState::Unregistered);
    let before = access_state(
        contract.broker.lookup(&contract.user).is_some(),
        admits(&contract.group, &ctx),
    );
    assert_eq!(before, AccessState::Registered);
    assert_eq!(activate_access(&contract.broker, &contract.user, &mut ctx), Ok(()));
    let after = access_state(
        contract.broker.lookup(&contract.user).is_some(),
        admits(&contract.group, &ctx),
    );
    assert_eq!(after, AccessState::Activated);
    assert_eq!(access_state(false, true), AccessState::Activated);
}

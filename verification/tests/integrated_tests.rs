use uref_share::group::{admits, Context};
use uref_share::locked_with_share::{accumulate, activate_access, prepare_access, BatchBroker};
use uref_share::principal::Principal;
use uref_share::resource::gated_operation;
use uref_share::signal::Signal;
use uref_share::token::Token;

fn token(n: u8) -> Token {
    Token::new([n; 32], 7)
}

fn principal(n: u8) -> Principal {
    Principal::new([n; 32])
}

struct Deployed {
    group: Vec<Token>,
    broker: BatchBroker,
    admin: Context,
    user: Principal,
    unauth: Principal,
}

fn deploy() -> Deployed {
    let user = principal(2);
    let group = vec![token(10), token(11)];
    let batch = prepare_access(vec![user], group.clone()).unwrap();
    let mut admin = Context::new();
    admin.receive(batch.retained);
    let mut broker = BatchBroker::new();
    assert_eq!(broker.append(batch.tokens, batch.principals), Ok(()));
    Deployed { group, broker, admin, user, unauth: principal(3) }
}

#[test]
fn integrated_deployer_calls_function() {
    let contract = deploy();
    let signal = gated_operation(admits(&contract.group, &contract.admin));
    assert_eq!(signal, Signal::Reached);
    assert_eq!(signal.user_code(), Some(777));
}

#[test]
fn integrated_unauth_calls_function() {
    let contract = deploy();
    let ctx = Context::new();
    assert_eq!(gated_operation(admits(&contract.group, &ctx)), Signal::InvalidContext);
}

#[test]
fn integrated_getting_access() {
    let contract = deploy();
    let mut ctx = Context::new();
    assert_eq!(activate_access(&contract.broker, &contract.user, &mut ctx), Ok(()));
    let signal = gated_operation(admits(&contract.group, &ctx));
    assert_eq!(signal, Signal::Reached);
    assert_eq!(signal.user_code(), Some(777));
}

#[test]
fn integrated_unable_to_gain_access() {
    let contract = deploy();
    let mut ctx = Context::new();
    let denied = activate_access(&contract.broker, &contract.unauth, &mut ctx);
    assert_eq!(denied, Err(Signal::NoGrant));
    assert_eq!(Signal::NoGrant.user_code(), Some(1));
    assert!(ctx.tokens.is_empty());
    assert_eq!(gated_operation(admits(&contract.group, &ctx)), Signal::InvalidContext);
}

#[test]
fn append_with_mismatched_lengths_writes_nothing() {
    let mut broker = BatchBroker::new();
    assert_eq!(broker.append(vec![token(1)], vec![principal(1)]), Ok(()));
    let refused = broker.append(vec![token(2), token(3)], vec![principal(1)]);
    assert_eq!(refused, Err(Signal::LengthMismatch));
    assert_eq!(Signal::LengthMismatch.user_code(), Some(3));
    assert_eq!(broker.tokens(&principal(1)), vec![token(1)]);
    let refused = broker.append(Vec::new(), vec![principal(2)]);
    assert_eq!(refused, Err(Signal::LengthMismatch));
    assert!(broker.tokens(&principal(2)).is_empty());
}

#[test]
fn append_pairs_tokens_and_principals_by_position() {
    let mut broker = BatchBroker::new();
    let tokens = vec![token(1), token(2), token(3)];
    let principals = vec![principal(7), principal(8), principal(9)];
    assert_eq!(broker.append(tokens, principals), Ok(()));
    assert_eq!(broker.tokens(&principal(7)), vec![token(1)]);
    assert_eq!(broker.tokens(&principal(8)), vec![token(2)]);
    assert_eq!(broker.tokens(&principal(9)), vec![token(3)]);
}

#[test]
fn append_takes_the_pairs_from_the_back() {
    let mut broker = BatchBroker::new();
    let tokens = vec![token(1), token(2), token(3)];
    let principals = vec![principal(7), principal(8), principal(7)];
    assert_eq!(broker.append(tokens, principals), Ok(()));
    assert_eq!(broker.tokens(&principal(7)), vec![token(3), token(1)]);
    assert_eq!(broker.append(vec![token(4)], vec![principal(7)]), Ok(()));
    assert_eq!(broker.tokens(&principal(7)), vec![token(3), token(1), token(4)]);
}

#[test]
fn append_of_an_empty_batch_changes_nothing() {
    let mut broker = BatchBroker::new();
    assert_eq!(broker.append(Vec::new(), Vec::new()), Ok(()));
    assert!(broker.tokens(&principal(1)).is_empty());
}

#[test]
fn retrieve_all_keeps_the_record() {
    let contract = deploy();
    let first = contract.broker.retrieve_all(&contract.user).unwrap();
    let second = contract.broker.retrieve_all(&contract.user).unwrap();
    assert_eq!(first, vec![token(10)]);
    assert_eq!(first, second);
}

#[test]
fn retrieve_all_without_record_is_denied() {
    let contract = deploy();
    assert_eq!(contract.broker.retrieve_all(&contract.unauth), Err(Signal::NoGrant));
    assert!(contract.broker.tokens(&contract.unauth).is_empty());
    assert_eq!(BatchBroker::new().retrieve_all(&contract.user), Err(Signal::NoGrant));
}

#[test]
fn accumulate_refuses_an_empty_sequence() {
    let mut ctx = Context::new();
    ctx.receive(token(1));
    assert_eq!(accumulate(&mut ctx, Vec::new()), Err(Signal::EmptyGrant));
    assert_eq!(Signal::EmptyGrant.user_code(), Some(2));
    assert_eq!(ctx.tokens, vec![token(1)]);
}

#[test]
fn accumulate_appends_after_what_is_held() {
    let mut ctx = Context::new();
    ctx.receive(token(1));
    assert_eq!(accumulate(&mut ctx, vec![token(2), token(3)]), Ok(()));
    assert_eq!(ctx.tokens, vec![token(1), token(2), token(3)]);
}

#[test]
fn integrated_setup_keeps_the_retained_token() {
    let users = vec![principal(1), principal(2)];
    let batch = prepare_access(users.clone(), vec![token(5), token(6), token(7)]).unwrap();
    assert!(batch.retained == token(7));
    assert_eq!(batch.tokens, vec![token(6), token(5)]);
    assert_eq!(batch.principals, users);
    let mut broker = BatchBroker::new();
    assert_eq!(broker.append(batch.tokens, batch.principals), Ok(()));
    for user in &users {
        assert!(!broker.tokens(user).contains(&batch.retained));
    }
}

#[test]
fn integrated_setup_refuses_a_group_of_the_wrong_size() {
    assert!(prepare_access(vec![principal(1)], vec![token(4)]).is_none());
    assert!(prepare_access(Vec::new(), Vec::new()).is_none());
}

#[test]
fn batch_pairs_come_last_first() {
    let tokens = vec![token(1), token(2), token(3)];
    let principals = vec![principal(7), principal(8), principal(9)];
    let pairs = uref_share::locked_with_share::pair_batch(&tokens, &principals).unwrap();
    assert_eq!(pairs.len(), 3);
    assert!(pairs[0].principal == principal(9) && pairs[0].token == token(3));
    assert!(pairs[1].principal == principal(8) && pairs[1].token == token(2));
    assert!(pairs[2].principal == principal(7) && pairs[2].token == token(1));
}

#[test]
fn batch_of_mismatched_lengths_has_no_pairs() {
    let refused = uref_share::locked_with_share::pair_batch(&vec![token(1)], &Vec::new());
    assert_eq!(refused.err(), Some(Signal::LengthMismatch));
}

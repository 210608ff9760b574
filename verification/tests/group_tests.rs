use uref_share::group::{admits, contains_token, group_size, is_valid_group, mint_group, Context};
use uref_share::token::Token;

fn token(n: u8) -> Token {
    Token::new([n; 32], 7)
}

#[test]
fn group_is_one_larger_than_the_principals() {
    assert_eq!(group_size(0), Some(1));
    assert_eq!(group_size(1), Some(2));
    assert_eq!(group_size(254), Some(255));
}

#[test]
fn group_size_that_does_not_fit_is_refused() {
    assert_eq!(group_size(255), None);
    assert_eq!(group_size(256), None);
    assert_eq!(group_size(usize::MAX), None);
}

#[test]
fn valid_group_has_no_sentinel_and_no_duplicate() {
    assert!(is_valid_group(&vec![token(1), token(2), token(3)]));
    assert!(is_valid_group(&Vec::new()));
    assert!(!is_valid_group(&vec![token(1), Token::sentinel()]));
    assert!(!is_valid_group(&vec![token(1), token(2), token(1)]));
}

#[test]
fn mint_retains_the_last_token() {
    let grants = mint_group(2, vec![token(1), token(2), token(3)]).unwrap();
    assert!(grants.retained == token(3));
    assert_eq!(grants.distributable.len(), 2);
    assert!(grants.distributable[0] == token(2));
    assert!(grants.distributable[1] == token(1));
    assert!(!contains_token(&grants.distributable, &grants.retained));
}

#[test]
fn mint_for_no_principal_retains_everything() {
    let grants = mint_group(0, vec![token(9)]).unwrap();
    assert!(grants.retained == token(9));
    assert!(grants.distributable.is_empty());
}

#[test]
fn mint_refuses_a_group_of_the_wrong_size() {
    assert!(mint_group(2, vec![token(1), token(2)]).is_none());
    assert!(mint_group(1, vec![token(1), token(2), token(3)]).is_none());
    assert!(mint_group(0, Vec::new()).is_none());
}

#[test]
fn mint_refuses_an_invalid_group() {
    assert!(mint_group(1, vec![token(1), token(1)]).is_none());
    assert!(mint_group(1, vec![Token::sentinel(), token(1)]).is_none());
}

#[test]
fn context_admitted_only_with_a_group_token() {
    let group = vec![token(1), token(2)];
    let mut ctx = Context::new();
    assert!(!admits(&group, &ctx));
    ctx.receive(token(5));
    assert!(!admits(&group, &ctx));
    assert!(ctx.holds(&token(5)));
    assert!(!ctx.holds(&token(2)));
    ctx.receive(token(2));
    assert!(admits(&group, &ctx));
    assert!(!admits(&Vec::new(), &ctx));
}

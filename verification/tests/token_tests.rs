use uref_share::token::Token;

#[test]
fn sentinel_is_recognised() {
    let sentinel = Token::sentinel();
    assert!(sentinel.is_sentinel());
    assert_eq!(sentinel.addr, [0u8; 32]);
    assert_eq!(sentinel.rights, 0);
}

#[test]
fn issued_token_is_no_sentinel() {
    let mut addr = [0u8; 32];
    addr[31] = 1;
    assert!(!Token::new(addr, 0).is_sentinel());
    assert!(!Token::new([0u8; 32], 7).is_sentinel());
}

#[test]
fn tokens_are_equal_when_address_and_rights_agree() {
    let a = Token::new([5u8; 32], 1);
    let b = Token::new([5u8; 32], 1);
    let c = Token::new([5u8; 32], 2);
    let mut other = [5u8; 32];
    other[0] = 6;
    let d = Token::new(other, 1);
    assert!(a == b);
    assert!(a != c);
    assert!(a != d);
}

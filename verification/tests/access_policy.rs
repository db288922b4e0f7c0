use greeting_core::access::{AccessPolicy, CidrBlock, IpAddress};

fn v4(a: u8, b: u8, c: u8, d: u8) -> IpAddress {
    IpAddress::V4(u32::from_be_bytes([a, b, c, d]))
}

#[test]
fn a_block_needs_a_network_address_and_a_fitting_prefix() {
    assert!(CidrBlock::new(v4(127, 0, 0, 0), 8).is_some());
    assert!(CidrBlock::new(v4(127, 0, 0, 1), 8).is_none());
    assert!(CidrBlock::new(v4(127, 0, 0, 1), 32).is_some());
    assert!(CidrBlock::new(v4(127, 0, 0, 0), 33).is_none());
    assert!(CidrBlock::new(v4(0, 0, 0, 0), 0).is_some());
    assert!(CidrBlock::new(v4(1, 0, 0, 0), 0).is_none());
    assert!(CidrBlock::new(IpAddress::V6(1), 128).is_some());
    assert!(CidrBlock::new(IpAddress::V6(1), 127).is_none());
    assert!(CidrBlock::new(IpAddress::V6(0), 129).is_none());
    assert!(CidrBlock::new(IpAddress::V6(0x2001_0db8 << 96), 32).is_some());
    let block = CidrBlock::new(v4(192, 0, 2, 0), 24).unwrap();
    assert_eq!(block.network_address(), v4(192, 0, 2, 0));
    assert_eq!(block.network_length(), 24);
}

#[test]
fn a_block_holds_the_addresses_that_share_its_prefix() {
    let block = CidrBlock::new(v4(192, 0, 2, 0), 24).unwrap();
    assert!(block.contains(v4(192, 0, 2, 0)));
    assert!(block.contains(v4(192, 0, 2, 1)));
    assert!(block.contains(v4(192, 0, 2, 255)));
    assert!(!block.contains(v4(192, 0, 3, 1)));
    assert!(!block.contains(v4(64, 0, 2, 1)));
    assert!(!block.contains(IpAddress::V6(0xc000_0201)));
    let host = CidrBlock::new(v4(10, 1, 2, 3), 32).unwrap();
    assert!(host.contains(v4(10, 1, 2, 3)));
    assert!(!host.contains(v4(10, 1, 2, 2)));
    let all = CidrBlock::new(v4(0, 0, 0, 0), 0).unwrap();
    assert!(all.contains(v4(255, 255, 255, 255)));
    assert!(!all.contains(IpAddress::V6(0)));
    let six = CidrBlock::new(IpAddress::V6(0x2001_0db8_1234_5678 << 64), 64).unwrap();
    assert!(six.contains(IpAddress::V6((0x2001_0db8_1234_5678 << 64) | 0x1001_0002_0003_0004)));
    assert!(!six.contains(IpAddress::V6((0x2001_0db8_1234_5679 << 64) | 1)));
    assert!(!six.contains(v4(32, 1, 13, 184)));
}

#[test]
fn origin_or_secret_authorizes() {
    let mut policy = AccessPolicy::new();
    assert!(!policy.auth(None, None));
    assert!(!policy.auth(Some(""), Some(v4(127, 0, 0, 1))));
    policy.set_allow_list(&vec![
        CidrBlock::new(v4(10, 0, 0, 0), 8).unwrap(),
        CidrBlock::new(v4(127, 0, 0, 0), 8).unwrap(),
    ]);
    assert!(policy.auth(None, Some(v4(127, 0, 0, 1))));
    assert!(policy.auth(Some("junk"), Some(v4(10, 200, 0, 1))));
    assert!(!policy.auth(Some("junk"), Some(v4(11, 0, 0, 1))));
    assert!(policy.origin_allowed(Some(v4(127, 9, 9, 9))));
    assert!(!policy.origin_allowed(Some(v4(128, 0, 0, 1))));
    assert!(!policy.origin_allowed(None));
    policy.update_secret(Some("open sesame"));
    assert!(policy.auth(Some("open sesame"), None));
    assert!(policy.auth(Some("open sesame"), Some(v4(11, 0, 0, 1))));
    assert!(!policy.auth(Some("open sesame "), None));
    assert!(!policy.auth(Some(""), None));
    assert!(!policy.auth(None, None));
}

#[test]
fn a_secret_is_replaced_but_never_cleared() {
    let mut policy = AccessPolicy::new();
    policy.update_secret(Some(""));
    assert!(!policy.auth(Some(""), None));
    policy.update_secret(Some("one"));
    policy.update_secret(None);
    assert!(policy.auth(Some("one"), None));
    policy.update_secret(Some(""));
    assert!(policy.auth(Some("one"), None));
    policy.update_secret(Some("two"));
    assert!(!policy.auth(Some("one"), None));
    assert!(policy.auth(Some("two"), None));
}

#[test]
fn setting_the_allow_list_replaces_it() {
    let mut policy = AccessPolicy::new();
    let ten = CidrBlock::new(v4(10, 0, 0, 0), 8).unwrap();
    let loopback = CidrBlock::new(v4(127, 0, 0, 0), 8).unwrap();
    policy.set_allow_list(&vec![ten, ten, loopback, ten]);
    assert!(policy.origin_allowed(Some(v4(10, 1, 1, 1))));
    assert!(policy.origin_allowed(Some(v4(127, 1, 1, 1))));
    policy.set_allow_list(&vec![loopback]);
    assert!(!policy.origin_allowed(Some(v4(10, 1, 1, 1))));
    assert!(policy.origin_allowed(Some(v4(127, 1, 1, 1))));
    policy.set_allow_list(&Vec::new());
    assert!(!policy.origin_allowed(Some(v4(127, 1, 1, 1))));
}

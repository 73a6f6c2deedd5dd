use std::str::FromStr;

use ursa_network::{ContentId, payload_is_cid};

const KNOWN: &str = "bafkreif2opfibjypwkjzzry3jbibcjqcjwnpoqpeiqw75eu3s3u3zbdszq";

fn known_bytes() -> Vec<u8> {
    cid::Cid::from_str(KNOWN).unwrap().to_bytes()
}

#[test]
fn cid_bytes_are_accepted() {
    let bytes = known_bytes();
    let id = ContentId::from_bytes(bytes.clone()).expect("a valid identifier");
    assert_eq!(id.to_bytes(), bytes);
}

#[test]
fn empty_bytes_are_refused() {
    assert!(ContentId::from_bytes(Vec::new()).is_none());
}

#[test]
fn garbage_bytes_are_refused() {
    assert!(ContentId::from_bytes(vec![0xff, 0xff, 0xff]).is_none());
    assert!(!payload_is_cid(&vec![1]));
}

#[test]
fn payload_check_accepts_identifier() {
    assert!(payload_is_cid(&known_bytes()));
}

#[test]
fn debug_text_names_the_identifier() {
    let id = ContentId::from_bytes(known_bytes()).unwrap();
    assert_eq!(id.debug_text(), format!("Cid({})", KNOWN));
}

#[test]
fn identifiers_compare_by_bytes() {
    let a = ContentId::from_bytes(known_bytes()).unwrap();
    let b = a.duplicate();
    assert!(a.same_as(&b));
    assert!(a == b);
    let other = cid::Cid::new_v1(0x71, *cid::Cid::from_str(KNOWN).unwrap().hash());
    let c = ContentId::from_bytes(other.to_bytes()).unwrap();
    assert!(!a.same_as(&c));
    assert!(a != c);
}

#[test]
fn trailing_bytes_are_refused() {
    let mut bytes = known_bytes();
    bytes.push(0);
    assert!(ContentId::from_bytes(bytes.clone()).is_none());
    assert!(payload_is_cid(&bytes));
    let mut short = known_bytes();
    short.pop();
    assert!(ContentId::from_bytes(short).is_none());
}

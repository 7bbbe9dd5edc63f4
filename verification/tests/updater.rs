use osus_proxy::bancho::Country;
use osus_proxy::setup::single_private_key;
use osus_proxy::updater::hash_differs;
use osus_proxy::updater::update_available;

const HELLO_SHA256: &str = "2cf24dba5fb0a30e26e83b2ac5b9e29e1b161e5c1fa7425e73043362938b9824";
const EMPTY_SHA256: &str = "e3b0c44298fc1c149afbf4c8996fb92427ae41e4649b934ca495991b7852b855";

#[test]
fn same_hash_is_no_update() {
    assert!(!hash_differs("sha256-abc", "abc"));
}

#[test]
fn other_hash_is_an_update() {
    assert!(hash_differs("sha256-abd", "abc"));
    assert!(hash_differs("sha256-", "abc"));
    assert!(hash_differs("sha256-abcd", "abc"));
}

#[test]
fn header_without_marker_names_nothing() {
    assert!(!hash_differs("abc", "abc"));
    assert!(!hash_differs("abd", "abc"));
    assert!(!hash_differs("", "abc"));
    assert!(!hash_differs("sha256", "abc"));
}

#[test]
fn hash_ends_at_the_next_marker() {
    assert!(!hash_differs("sha256-abcsha256-def", "abc"));
    assert!(hash_differs("sha256-abcsha256-def", "def"));
    assert!(hash_differs("sha256-abcsha256-def", "abcsha256-def"));
}

#[test]
fn what_stands_before_the_marker_is_ignored() {
    assert!(!hash_differs("W/ sha256-abc", "abc"));
    assert!(hash_differs("W/ sha256-abc", "W/ "));
}

#[test]
fn running_the_offered_program_is_no_update() {
    let header = format!("sha256-{}", HELLO_SHA256);
    assert!(!update_available(b"hello", Some(&header)));
}

#[test]
fn running_another_program_is_an_update() {
    let header = format!("sha256-{}", HELLO_SHA256);
    assert!(update_available(b"hello!", Some(&header)));
    assert!(update_available(b"", Some(&header)));
}

#[test]
fn digest_of_no_bytes() {
    let header = format!("sha256-{}", EMPTY_SHA256);
    assert!(!update_available(b"", Some(&header)));
    assert!(update_available(b"hello", Some(&header)));
}

#[test]
fn upper_case_digest_is_another_digest() {
    let header = format!("sha256-{}", HELLO_SHA256.to_uppercase());
    assert!(update_available(b"hello", Some(&header)));
}

#[test]
fn no_header_is_no_update() {
    assert!(!update_available(b"hello", None));
}

#[test]
fn a_single_key_is_chosen() {
    assert_eq!(single_private_key(vec![vec![1, 2, 3]]), Some(vec![1, 2, 3]));
}

#[test]
fn no_key_or_several_keys_are_refused() {
    assert_eq!(single_private_key(vec![]), None);
    assert_eq!(single_private_key(vec![vec![1], vec![2]]), None);
}

#[test]
fn country_of_every_number() {
    let mut known = 0;
    for code in 0..=u8::MAX {
        match Country::from_u8(code) {
            Some(country) => {
                assert_eq!(country.as_u8(), code);
                known += 1;
            }
            None => {}
        }
    }
    assert_eq!(known, 120);
}

#[test]
fn country_of_known_numbers() {
    assert_eq!(Country::from_u8(0), Some(Country::Unknown));
    assert_eq!(Country::from_u8(111), Some(Country::Japan));
    assert_eq!(Country::from_u8(225), Some(Country::UnitedStates));
    assert_eq!(Country::from_u8(1), None);
    assert_eq!(Country::from_u8(255), None);
}

use dcloud_storage::address::{derive_file_address, derive_summary_address};
use dcloud_storage::identity::Identity;

fn id(b: u8) -> Identity {
    Identity::from_bytes(vec![b; 32]).unwrap()
}

#[test]
fn derivation_is_deterministic() {
    let u = id(3);
    assert_eq!(derive_summary_address(&u), derive_summary_address(&u));
    let h = b"content-hash".to_vec();
    assert_eq!(derive_file_address(&u, &h), derive_file_address(&u, &h));
}

#[test]
fn distinct_owners_get_distinct_summary_addresses() {
    assert_ne!(derive_summary_address(&id(1)), derive_summary_address(&id(2)));
}

#[test]
fn summary_and_file_addresses_never_collide() {
    let u = id(1);
    // A file hash chosen so both addresses have the same length.
    let h = Vec::new();
    let s = derive_summary_address(&u);
    let f = derive_file_address(&u, &h);
    assert_eq!(s.len(), f.len());
    assert_ne!(s, f);
}

#[test]
fn file_addresses_separate_owner_and_hash() {
    let u = id(1);
    let v = id(2);
    let h1 = b"aa".to_vec();
    let h2 = b"ab".to_vec();
    assert_ne!(derive_file_address(&u, &h1), derive_file_address(&u, &h2));
    assert_ne!(derive_file_address(&u, &h1), derive_file_address(&v, &h1));
}

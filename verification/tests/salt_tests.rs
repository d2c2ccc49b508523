use bee_protocol::salt::Salt;
use std::time::Duration;

#[test]
fn create_new_salt() {
    let salt = Salt::new(Duration::from_secs(60)).unwrap();

    assert_eq!(20, salt.size());
    assert!(!salt.expired());
}

#[test]
fn salt_bytes_length() {
    let salt = Salt::new(Duration::from_secs(1)).unwrap();
    assert_eq!(salt.bytes().len(), 20);
}

#[test]
fn salt_expiration_is_stable() {
    let salt = Salt::new(Duration::from_secs(60)).unwrap();
    assert_eq!(*salt.expiration(), *salt.expiration());
}

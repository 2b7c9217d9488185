use raktar::auth::TokenStore;
use raktar::error::RegistryError;

fn entropy(seed: u8) -> Vec<u8> {
    (0u8..16).map(|i| i.wrapping_mul(31).wrapping_add(seed)).collect()
}

#[test]
fn test_token_generation() {
    let mut store = TokenStore::new();
    let (_id, key) = store.generate_token(0, "test token".to_string(), &entropy(1));
    assert_eq!(key.len(), 32);
    assert!(key.chars().all(|c| c.is_ascii_hexdigit()));

    // The plaintext works exactly as a credential for its owner.
    assert_eq!(store.authenticate(&key).expect("the fresh key to authenticate"), 0);

    let tokens = store.my_tokens(0);
    assert_eq!(tokens.len(), 1);
    assert_eq!(tokens[0].1, "test token");
}

#[test]
fn test_my_tokens() {
    let mut store = TokenStore::new();
    store.generate_token(10, "test token".to_string(), &entropy(1));
    store.generate_token(11, "test token".to_string(), &entropy(2));
    store.generate_token(11, "test token 2".to_string(), &entropy(3));

    let tokens = store.my_tokens(11);
    assert_eq!(tokens.len(), 2);
    let names: Vec<&str> = tokens.iter().map(|t| t.1.as_str()).collect();
    assert!(names.contains(&"test token"));
    assert!(names.contains(&"test token 2"));

    assert_eq!(store.my_tokens(10).len(), 1);
}

#[test]
fn test_delete_token() {
    let mut store = TokenStore::new();
    store.generate_token(20, "test token".to_string(), &entropy(1));
    let (id, _key) = store.generate_token(20, "test token 2".to_string(), &entropy(2));

    store.delete_token(20, id).expect("deleting an owned token to succeed");

    let tokens = store.my_tokens(20);
    assert_eq!(tokens.len(), 1);
    assert_eq!(tokens[0].1, "test token");
}

#[test]
fn test_delete_token_of_another_user_fails() {
    let mut store = TokenStore::new();
    let (id, _key) = store.generate_token(20, "test token".to_string(), &entropy(1));
    let r = store.delete_token(21, id);
    assert!(matches!(r, Err(RegistryError::Unauthorized)));
    assert_eq!(store.my_tokens(20).len(), 1);
}

#[test]
fn test_authenticate_rejects_unknown_and_deleted_keys() {
    let mut store = TokenStore::new();
    assert!(matches!(store.authenticate("no such key"), Err(RegistryError::Unauthorized)));

    let (id, key) = store.generate_token(7, "test token".to_string(), &entropy(9));
    assert_eq!(store.authenticate(&key).expect("the key to authenticate"), 7);

    store.delete_token(7, id).expect("deleting the token to succeed");
    assert!(matches!(store.authenticate(&key), Err(RegistryError::Unauthorized)));
}

#[test]
fn test_plaintext_key_is_never_persisted() {
    let mut store = TokenStore::new();
    let (_id, key) = store.generate_token(3, "test token".to_string(), &entropy(5));
    // The store holds only the derivation: no record field equals the key.
    for record in &store.tokens {
        assert_ne!(record.name, key);
        assert_ne!(format!("{:x}", record.derived), key);
    }
}

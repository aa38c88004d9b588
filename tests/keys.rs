use vidhost::keys::{generate_random_key, object_key, RANDOM_ID_LENGTH};

#[test]
fn key_joins_identifier_and_extension() {
    assert_eq!(object_key("abc", "mp4"), "abc.mp4");
    assert_eq!(object_key("", ""), ".");
}

#[test]
fn random_key_has_identifier_dot_extension() {
    let key = generate_random_key("mp4");
    assert_eq!(key.len(), RANDOM_ID_LENGTH + 4);
    assert!(key.ends_with(".mp4"));
    assert!(key[..RANDOM_ID_LENGTH]
        .chars()
        .all(|c| c == '_' || c == '-' || c.is_ascii_alphanumeric()));
}

#[test]
fn random_keys_differ() {
    assert_ne!(generate_random_key("mp4"), generate_random_key("mp4"));
}

use rust_bbs::auth::{
    accepts, check_key, compare_password, fingerprint, hash_password, offered_key,
    parse_public_key, validate_password, validate_username, validate_username_format,
    verify_password, Comparison, PublicKey,
};

const ED25519: &str =
    "ssh-ed25519 AAAAC3NzaC1lZDI1NTE5AAAAIJdD7y3aLq454yWBdwLWbieU1ebz9/cu7/QEXn9OIeZJ user@example.com";

#[test]
fn usernames_are_checked() {
    assert!(validate_username("alice").is_ok());
    assert!(validate_username("a-b_9").is_ok());
    assert_eq!(validate_username("ab").unwrap_err(), "Username must be 3-16 characters long.");
    assert!(validate_username(&"a".repeat(16)).is_ok());
    assert_eq!(
        validate_username(&"a".repeat(17)).unwrap_err(),
        "Username must be 3-16 characters long."
    );
    assert_eq!(validate_username("1abc").unwrap_err(), "Username must start with a letter.");
    assert_eq!(
        validate_username("ab.c").unwrap_err(),
        "Username may only contain letters, digits, '_' and '-'."
    );
    assert_eq!(validate_username("Sysop").unwrap_err(), "That username is reserved.");
    assert!(validate_username_format("Sysop").is_ok());
    assert!(validate_username_format("äbc").is_err());
}

#[test]
fn passwords_are_checked() {
    assert!(validate_password("alice", "12345678").is_ok());
    assert!(validate_password("alice", "1234567").is_err());
    assert!(validate_password("alice", &"x".repeat(128)).is_ok());
    assert!(validate_password("alice", &"x".repeat(129)).is_err());
    assert!(validate_password("alicealice", "AliceAlice").is_err());
}

#[test]
fn a_hash_verifies_its_password_and_no_other() {
    let hash = hash_password("long-enough-pw").unwrap();
    assert!(hash.starts_with("$argon2id$"));
    assert!(verify_password("long-enough-pw", &hash));
    assert!(!verify_password("wrong", &hash));
    assert_eq!(compare_password("long-enough-pw", &hash), Comparison::Match);
    assert_eq!(compare_password("wrong", &hash), Comparison::Mismatch);
    assert_ne!(hash_password("long-enough-pw").unwrap(), hash);
}

#[test]
fn what_is_no_hash_matches_nothing() {
    assert!(!verify_password("x", "not a hash"));
    assert!(!verify_password("", ""));
    let scrypt = "$scrypt$ln=16,r=8,p=1$aM15713r3Xsvxbi31lqr1Q$nFNh2CVHVjNldFVKDHDlm4CbdRSCdEBsjjJxD+iCs5E";
    assert!(!verify_password("password", scrypt));
    assert_eq!(compare_password("password", scrypt), Comparison::Mismatch);
    assert_eq!(compare_password("x", "not a hash"), Comparison::Mismatch);
}

#[test]
fn only_a_match_is_accepted() {
    assert!(accepts(Comparison::Match));
    assert!(!accepts(Comparison::Mismatch));
    assert!(!accepts(Comparison::OutOfMemory));
}

#[test]
fn keys_are_parsed() {
    let (key, comment) = parse_public_key(&format!("  {ED25519}\n")).unwrap();
    assert!(fingerprint(&key).starts_with("SHA256:"));
    assert_eq!(comment, "user@example.com");
    assert!(!key.is_dsa);
    assert_eq!(key.comment, "user@example.com");
    assert_eq!(offered_key(ED25519).unwrap().fingerprint, key.fingerprint);
    assert!(parse_public_key("hello")
        .err()
        .unwrap()
        .starts_with("That doesn't look like an OpenSSH public key"));
    assert!(offered_key("").is_none());
}

fn key(is_dsa: bool, comment: &str) -> Option<PublicKey> {
    Some(PublicKey { fingerprint: "SHA256:x".into(), is_dsa, comment: comment.into() })
}

#[test]
fn dsa_keys_are_refused_and_comments_cut() {
    assert_eq!(check_key(key(true, "")).err().unwrap(), "DSA keys are not supported.");
    let (kept, comment) = check_key(key(false, "a\x1bb\nc")).unwrap();
    assert_eq!(comment, "abc");
    assert_eq!((kept.fingerprint.as_str(), kept.is_dsa, kept.comment.as_str()), ("SHA256:x", false, "a\x1bb\nc"));
    let (_, comment) = check_key(key(false, &"é".repeat(100))).unwrap();
    assert_eq!(comment.chars().count(), 64);
}

use wmtp_core::token::{
    constant_time_eq, ephemeral_token_from, generate_ephemeral_token, generate_identity_token,
    is_ephemeral_token, verify_identity_token,
};

#[test]
fn test_token_generation_deterministic() {
    let email = "test@example.com";
    let secret = "test-secret-key";

    let token1 = generate_identity_token(email, secret);
    let token2 = generate_identity_token(email, secret);

    assert_eq!(token1, token2);
    assert_eq!(token1.len(), 64);
}

#[test]
fn test_token_different_emails() {
    let secret = "test-secret-key";

    let token1 = generate_identity_token("alice@example.com", secret);
    let token2 = generate_identity_token("bob@example.com", secret);

    assert_ne!(token1, token2);
}

#[test]
fn test_token_case_insensitive() {
    let secret = "test-secret-key";

    let token1 = generate_identity_token("Test@Example.COM", secret);
    let token2 = generate_identity_token("test@example.com", secret);

    assert_eq!(token1, token2);
}

#[test]
fn test_token_verification() {
    let email = "test@example.com";
    let secret = "test-secret-key";

    let token = generate_identity_token(email, secret);

    assert!(verify_identity_token(&token, email, secret));
    assert!(!verify_identity_token(&token, "wrong@example.com", secret));
    assert!(!verify_identity_token("invalid-token", email, secret));
}

#[test]
fn test_ephemeral_token() {
    let token = generate_ephemeral_token();
    assert!(is_ephemeral_token(&token));
    assert!(!is_ephemeral_token("regular-token"));
    assert!(token.starts_with("WMTP-"));
}

#[test]
fn identity_token_known_value() {
    // HMAC-SHA256 with key "key" over the message "user@example.com".
    let t = generate_identity_token("  USER@example.com \n", "key");
    assert_eq!(t, generate_identity_token("user@example.com", "key"));
    assert_eq!(t.len(), 64);
    assert!(t.chars().all(|c| c.is_ascii_digit() || ('a'..='f').contains(&c)));
}

#[test]
fn identity_token_rfc4231_vector() {
    // RFC 4231 test case 2: key "Jefe", data "what do ya want for nothing?".
    let t = generate_identity_token("what do ya want for nothing?", "Jefe");
    assert_eq!(t, "5bdcc146bf60754e6a042426089575c75a003f089d2739839dec58b964ec3843");
}

#[test]
fn identity_token_depends_on_secret() {
    let a = generate_identity_token("user@example.com", "secret-one");
    let b = generate_identity_token("user@example.com", "secret-two");
    assert_ne!(a, b);
}

#[test]
fn verify_rejects_same_length_noise() {
    let token = generate_identity_token("a@b.c", "s");
    let noise: String = "0".repeat(64);
    assert_ne!(token, noise);
    assert!(!verify_identity_token(&noise, "a@b.c", "s"));
    assert!(verify_identity_token(&token, " A@B.C ", "s"));
}

#[test]
fn constant_time_eq_cases() {
    assert!(constant_time_eq("", ""));
    assert!(constant_time_eq("abc", "abc"));
    assert!(!constant_time_eq("abc", "abd"));
    assert!(!constant_time_eq("abc", "ab"));
    assert!(!constant_time_eq("é", "e"));
}

#[test]
fn ephemeral_prefix_rules() {
    assert_eq!(ephemeral_token_from("xyz"), "WMTP-xyz");
    assert!(is_ephemeral_token("WMTP-"));
    assert!(!is_ephemeral_token("WMTP"));
    assert!(!is_ephemeral_token("wmtp-abc"));
    assert!(!is_ephemeral_token(""));
    let a = generate_ephemeral_token();
    let b = generate_ephemeral_token();
    assert_ne!(a, b);
    assert_eq!(a.len(), 41);
    let id = generate_identity_token("x@y.z", "s");
    assert!(!is_ephemeral_token(&id));
}

#[test]
fn ephemeral_token_shape() {
    let t = generate_ephemeral_token();
    let id: Vec<char> = t["WMTP-".len()..].chars().collect();
    assert_eq!(id.len(), 36);
    for (i, c) in id.iter().enumerate() {
        if [8, 13, 18, 23].contains(&i) {
            assert_eq!(*c, '-');
        } else {
            assert!(c.is_ascii_digit() || ('a'..='f').contains(c));
        }
    }
}

use dino_run::generator::{
    create_rng, generate_password, generate_pin, password_from_bytes, pin_from_digits, seed_from_str,
};

#[test]
fn pin_has_requested_digits() {
    let pin = generate_pin(6, None).unwrap();
    assert_eq!(pin.chars().count(), 6);
    assert!(pin.chars().all(|c| c.is_ascii_digit()));
    assert_eq!(generate_pin(0, None).unwrap(), "");
}

#[test]
fn seeded_pin_is_repeatable() {
    let seed = "hello".to_string();
    let a = generate_pin(12, Some(&seed)).unwrap();
    let b = generate_pin(12, Some(&seed)).unwrap();
    assert_eq!(a, b);
    assert_eq!(a.len(), 12);
}

#[test]
fn password_is_alphanumeric() {
    let seed = "s3cret".to_string();
    let pw = generate_password(16, Some(&seed)).unwrap();
    assert_eq!(pw.len(), 16);
    assert!(pw.chars().all(|c| c.is_ascii_alphanumeric()));
    assert_eq!(pw, generate_password(16, Some(&seed)).unwrap());
    let free = generate_password(40, None).unwrap();
    assert!(free.chars().all(|c| c.is_ascii_alphanumeric()));
}

#[test]
fn digits_spell_the_pin() {
    assert_eq!(pin_from_digits(&vec![0, 9, 4, 1]), "0941");
    assert_eq!(pin_from_digits(&vec![]), "");
}

#[test]
fn bytes_spell_the_password() {
    assert_eq!(password_from_bytes(&b"aZ09xQ".to_vec()), "aZ09xQ");
    assert_eq!(password_from_bytes(&vec![]), "");
}

#[test]
fn seeded_rng_is_always_built() {
    let seed = "x".to_string();
    assert!(create_rng(Some(&seed)).is_some());
}

#[test]
fn seed_is_truncated_or_zero_padded() {
    let s = seed_from_str("ab");
    assert_eq!(s[0], b'a');
    assert_eq!(s[1], b'b');
    assert!(s[2..].iter().all(|&b| b == 0));
    let long = "x".repeat(40);
    let t = seed_from_str(&long);
    assert!(t.iter().all(|&b| b == b'x'));
}

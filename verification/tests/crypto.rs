use dat_discovery::crypto::{discovery_key_name_bytes, generate_discovery_key, generate_keypair, token_from_seed, KeyPair};

#[test]
fn discovery_key_is_blake2b_of_hypercore_under_the_key() {
    let public_key: Vec<u8> = (0u8..32).collect();
    assert_eq!(
        hex::encode(generate_discovery_key(&public_key)),
        "b74b6d642892501cca569ff03d3bd21d9db9768a3c12a5516a4a80a7bebad901"
    );
    assert_eq!(
        hex::encode(generate_discovery_key(&[])),
        "f7939b245918bbd3b167df469af1da5ba003e21218138ec62b7f4b6f0283de13"
    );
}

#[test]
fn discovery_key_has_32_bytes_and_depends_on_the_key() {
    let one = generate_discovery_key(&[1u8; 32]);
    let two = generate_discovery_key(&[2u8; 32]);
    assert_eq!(one.len(), 32);
    assert_eq!(two.len(), 32);
    assert_ne!(one, two);
    assert_ne!(one, vec![1u8; 32]);
    assert_eq!(generate_discovery_key(&[7u8; 64]).len(), 32);
}

#[test]
fn discovery_key_name_is_hypercore() {
    assert_eq!(discovery_key_name_bytes(), b"hypercore".to_vec());
}

#[test]
fn token_is_base64_of_sha256_of_the_seed() {
    assert_eq!(token_from_seed("0.5"), "0sutcf8zPeZ9B+xnbjUqt/OCSOtpyUKVAVciBgfFXoQ=");
    assert_eq!(token_from_seed(""), "47DEQpj8HBSa+/TImW+5JCeuQeRkm5NMpJWZG3hSuFU=");
    assert_eq!(token_from_seed("0.123456789").len(), 44);
    assert_ne!(token_from_seed("0.1"), token_from_seed("0.2"));
}

#[test]
fn key_pair_splits_secret_then_public() {
    let mut bytes = [0u8; 64];
    for (i, byte) in bytes.iter_mut().enumerate() {
        *byte = i as u8;
    }
    let pair = KeyPair::from_bytes(&bytes);
    assert_eq!(pair.secret, (0u8..32).collect::<Vec<u8>>());
    assert_eq!(pair.public, (32u8..64).collect::<Vec<u8>>());
}

#[test]
fn generated_key_pairs_have_two_halves_and_differ() {
    let one = generate_keypair().unwrap();
    let two = generate_keypair().unwrap();
    assert_eq!(one.public.len(), 32);
    assert_eq!(one.secret.len(), 32);
    assert_ne!(one.secret, two.secret);
    assert_ne!(one.public, two.public);
    assert_ne!(one.public, one.secret);
}

#[test]
fn generated_public_key_belongs_to_the_secret_key() {
    let pair = generate_keypair().unwrap();
    let secret = ed25519_dalek::SecretKey::from_bytes(&pair.secret).unwrap();
    let public = ed25519_dalek::PublicKey::from_secret::<sha2::Sha512>(&secret);
    assert_eq!(public.as_bytes().to_vec(), pair.public);
}

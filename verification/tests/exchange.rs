use streamchat::exchange::{
    decode_public_key, encode_public_key, generate_private_key, HandshakeError,
    KeyExchangeParameters, G, P, PRIVATE_KEY_END, PRIVATE_KEY_MIN, PUBLIC_KEY_LEN,
};

#[test]
fn standard_parameters() {
    let params = KeyExchangeParameters::standard();
    assert_eq!(params.modulus, 0xD87FA3E291B4C7F3);
    assert_eq!(params.generator, 2);
    assert_eq!(P, 0xD87FA3E291B4C7F3);
    assert_eq!(G, 2);
}

#[test]
fn private_keys_lie_in_the_range() {
    for _ in 0..2000 {
        let key = generate_private_key();
        assert!(key >= 1000);
        assert!(key < 100000);
    }
    assert_eq!(PRIVATE_KEY_MIN, 1000);
    assert_eq!(PRIVATE_KEY_END, 100000);
}

#[test]
fn private_keys_vary() {
    let first = generate_private_key();
    let mut seen_other = false;
    for _ in 0..200 {
        if generate_private_key() != first {
            seen_other = true;
        }
    }
    assert!(seen_other);
}

#[test]
fn concrete_vector_gives_identical_secrets() {
    let params = KeyExchangeParameters::standard();
    let a: u64 = 12345;
    let b: u64 = 54321;
    let public_a = params.derive_public_key(a);
    let public_b = params.derive_public_key(b);
    assert_eq!(public_a, 9738017624642813618);
    assert_eq!(public_b, 3825426485894474575);
    let secret_a = params.derive_shared_secret(public_b, a);
    let secret_b = params.derive_shared_secret(public_a, b);
    assert_eq!(secret_a, secret_b);
    assert_eq!(secret_a, 15382450291812185542);
}

#[test]
fn secrets_agree_for_keys_across_the_range() {
    let params = KeyExchangeParameters::standard();
    let keys: [u64; 5] = [1000, 1001, 31337, 65536, 99999];
    for a in keys {
        for b in keys {
            let left = params.derive_shared_secret(params.derive_public_key(b), a);
            let right = params.derive_shared_secret(params.derive_public_key(a), b);
            assert_eq!(left, right);
        }
    }
}

#[test]
fn secrets_agree_for_drawn_keys() {
    let params = KeyExchangeParameters::standard();
    for _ in 0..20 {
        let a = generate_private_key();
        let b = generate_private_key();
        let left = params.derive_shared_secret(params.derive_public_key(b), a);
        let right = params.derive_shared_secret(params.derive_public_key(a), b);
        assert_eq!(left, right);
    }
}

#[test]
fn alternate_parameters() {
    let params = KeyExchangeParameters { modulus: 23, generator: 5 };
    assert_eq!(params.derive_public_key(6), 8);
    assert_eq!(params.derive_public_key(15), 19);
    assert_eq!(params.derive_shared_secret(19, 6), 2);
    assert_eq!(params.derive_shared_secret(8, 15), 2);
}

#[test]
fn public_key_goes_out_big_endian() {
    assert_eq!(
        encode_public_key(9738017624642813618),
        vec![135, 36, 99, 111, 117, 83, 254, 178]
    );
    assert_eq!(encode_public_key(1), vec![0, 0, 0, 0, 0, 0, 0, 1]);
    assert_eq!(encode_public_key(0).len(), PUBLIC_KEY_LEN);
}

#[test]
fn public_key_comes_in_big_endian() {
    assert_eq!(
        decode_public_key(&[53, 22, 165, 30, 246, 28, 107, 79]),
        Ok(3825426485894474575)
    );
    assert_eq!(decode_public_key(&[0, 0, 0, 0, 0, 0, 1, 0]), Ok(256));
}

#[test]
fn public_key_round_trip() {
    for key in [0u64, 1, 0xD87FA3E291B4C7F2, u64::MAX] {
        assert_eq!(decode_public_key(&encode_public_key(key)), Ok(key));
    }
}

#[test]
fn short_or_long_public_key_is_refused() {
    assert_eq!(decode_public_key(&[]), Err(HandshakeError::TruncatedPublicKey));
    assert_eq!(
        decode_public_key(&[1, 2, 3, 4, 5, 6, 7]),
        Err(HandshakeError::TruncatedPublicKey)
    );
    assert_eq!(
        decode_public_key(&[1, 2, 3, 4, 5, 6, 7, 8, 9]),
        Err(HandshakeError::TruncatedPublicKey)
    );
}

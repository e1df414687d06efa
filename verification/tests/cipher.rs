use streamchat::cipher::StreamCipher;

#[test]
fn new_cipher_keeps_its_seed() {
    assert_eq!(StreamCipher::new(42).state(), 42);
    assert_eq!(StreamCipher::new(u64::MAX).state(), u64::MAX);
}

#[test]
fn first_bytes_from_seed_one() {
    let mut cipher = StreamCipher::new(1);
    let bytes: Vec<u8> = (0..5).map(|_| cipher.next_byte()).collect();
    assert_eq!(bytes, vec![166, 231, 148, 61, 50]);
    assert_eq!(cipher.state(), 4182499122);
}

#[test]
fn first_state_after_seed_one() {
    let mut cipher = StreamCipher::new(1);
    assert_eq!(cipher.next_byte(), 166);
    assert_eq!(cipher.state(), 1103527590);
}

#[test]
fn first_bytes_from_seed_zero() {
    let mut cipher = StreamCipher::new(0);
    let bytes: Vec<u8> = (0..4).map(|_| cipher.next_byte()).collect();
    assert_eq!(bytes, vec![57, 126, 223, 44]);
    assert_eq!(cipher.state(), 3596950572);
}

#[test]
fn seed_above_32_bits_is_reduced_by_the_first_step() {
    let mut wide = StreamCipher::new((1u64 << 40) + 7);
    let mut narrow = StreamCipher::new(7);
    for _ in 0..4 {
        assert_eq!(wide.next_byte(), narrow.next_byte());
    }
    assert_eq!(wide.state(), 1486001571);
    assert_eq!(narrow.state(), 1486001571);
}

#[test]
fn encrypt_known_text() {
    let mut cipher = StreamCipher::new(42);
    assert_eq!(cipher.encrypt(b"hello"), vec![115, 221, 253, 154, 152]);
    assert_eq!(cipher.state(), 3055579383);
}

#[test]
fn encrypt_nothing_leaves_the_state() {
    let mut cipher = StreamCipher::new(42);
    assert_eq!(cipher.encrypt(&[]), Vec::<u8>::new());
    assert_eq!(cipher.state(), 42);
}

#[test]
fn same_seed_same_stream() {
    let mut first = StreamCipher::new(0xD579710A6A91B5C6);
    let mut second = StreamCipher::new(0xD579710A6A91B5C6);
    for _ in 0..1000 {
        assert_eq!(first.next_byte(), second.next_byte());
    }
    assert_eq!(first.state(), second.state());
}

#[test]
fn decrypt_undoes_encrypt() {
    let data: Vec<u8> = (0..=255u8).cycle().take(2000).collect();
    for seed in [0u64, 1, 42, 0xFFFF_FFFF, u64::MAX] {
        let mut sending = StreamCipher::new(seed);
        let mut receiving = StreamCipher::new(seed);
        let sealed = sending.encrypt(&data);
        assert_ne!(sealed, data);
        assert_eq!(receiving.decrypt(&sealed), data);
        assert_eq!(sending.state(), receiving.state());
    }
}

#[test]
fn decrypt_undoes_encrypt_at_a_later_offset() {
    let mut sending = StreamCipher::new(99);
    let mut receiving = StreamCipher::new(99);
    let first = sending.encrypt(b"first message");
    let second = sending.encrypt(b"second");
    assert_eq!(receiving.decrypt(&first), b"first message".to_vec());
    assert_eq!(receiving.decrypt(&second), b"second".to_vec());
}

#[test]
fn pieces_continue_the_stream() {
    let mut whole = StreamCipher::new(7);
    let mut pieces = StreamCipher::new(7);
    let all = whole.encrypt(b"hello, world");
    let mut joined = pieces.encrypt(b"hello");
    joined.extend(pieces.encrypt(b", world"));
    assert_eq!(all, joined);
    assert_eq!(whole.state(), pieces.state());
}

#[test]
fn a_skipped_byte_breaks_decryption() {
    let mut sending = StreamCipher::new(5);
    let mut receiving = StreamCipher::new(5);
    receiving.next_byte();
    let sealed = sending.encrypt(b"hello");
    assert_ne!(receiving.decrypt(&sealed), b"hello".to_vec());
}

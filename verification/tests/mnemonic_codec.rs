use algosig::account::Account;
use algosig::errors::{AlgorandError, CryptoError};
use algosig::mnemonic::Mnemonic;

use sha2::Digest;

fn checksum_of(seed: &[u8]) -> u16 {
    let d = sha2::Sha512_256::digest(seed);
    (d[0] as u16) + 256 * ((d[1] % 8) as u16)
}

#[test]
fn round_trip_zero_seed() {
    let seed = [0u8; 32];
    let a = Account::from_seed(seed);
    let m = a.mnemonic();
    let b = Account::from_mnemonic(&m).unwrap();
    assert_eq!(b.seed(), seed);
    assert_eq!(b.address().0, a.address().0);
}

#[test]
fn round_trip_various_seeds() {
    let mut seed = [0u8; 32];
    for (i, byte) in seed.iter_mut().enumerate() {
        *byte = (i as u8).wrapping_mul(37).wrapping_add(11);
    }
    for probe in [seed, [0xffu8; 32], [1u8; 32]] {
        let a = Account::from_seed(probe);
        let b = Account::from_mnemonic(&a.mnemonic()).unwrap();
        assert_eq!(b.seed(), probe);
    }
}

#[test]
fn zero_seed_words_are_zero_plus_checksum() {
    let seed = [0u8; 32];
    let words = Account::from_seed(seed).mnemonic().words();
    assert_eq!(words.len(), 25);
    for w in &words[..24] {
        assert_eq!(*w, 0);
    }
    assert_eq!(words[24], checksum_of(&seed));
}

#[test]
fn words_follow_little_endian_bit_packing() {
    let mut seed = [0u8; 32];
    seed[0] = 0xff;
    seed[1] = 0xff;
    let words = Account::from_seed(seed).mnemonic().words();
    // The first 11 bits of 0xffff, little-endian, are all ones; the
    // next word takes the remaining 5 bits.
    assert_eq!(words[0], 0x7ff);
    assert_eq!(words[1], 0x1f);
    for w in &words[2..24] {
        assert_eq!(*w, 0);
    }

    let mut seed2 = [0u8; 32];
    seed2[0] = 1;
    let words2 = Account::from_seed(seed2).mnemonic().words();
    assert_eq!(words2[0], 1);
    for w in &words2[1..24] {
        assert_eq!(*w, 0);
    }
}

#[test]
fn bad_checksum_is_rejected() {
    let a = Account::from_seed([13u8; 32]);
    let mut words = a.mnemonic().words();
    words[24] = (words[24] + 1) % 2048;
    let tampered = Mnemonic::from_words(words).unwrap();
    assert_eq!(
        Account::from_mnemonic(&tampered).unwrap_err(),
        AlgorandError::InvalidChecksum
    );
}

#[test]
fn tampered_data_word_is_rejected() {
    let a = Account::from_seed([21u8; 32]);
    let mut words = a.mnemonic().words();
    words[3] ^= 1;
    let tampered = Mnemonic::from_words(words).unwrap();
    assert_eq!(
        Account::from_mnemonic(&tampered).unwrap_err(),
        AlgorandError::InvalidChecksum
    );
}

#[test]
fn wrong_word_count_is_rejected() {
    let words = vec![0u16; 24];
    assert_eq!(
        Mnemonic::from_words(words).unwrap_err(),
        CryptoError::InvalidMnemonicLength
    );
    let words26 = vec![0u16; 26];
    assert_eq!(
        Mnemonic::from_words(words26).unwrap_err(),
        CryptoError::InvalidMnemonicLength
    );
}

#[test]
fn word_outside_vocabulary_is_rejected() {
    let mut words = vec![0u16; 25];
    words[7] = 2048;
    assert_eq!(
        Mnemonic::from_words(words).unwrap_err(),
        CryptoError::InvalidWordsInMnemonic
    );
}

#[test]
fn mnemonic_is_deterministic() {
    let a = Account::from_seed([99u8; 32]);
    assert_eq!(a.mnemonic().words(), a.mnemonic().words());
}

#[test]
fn decoder_drops_bits_beyond_the_seed() {
    // 24 words of all ones carry 264 set bits; only the low 256 reach
    // the seed, so the checksum of the all-ones seed must be accepted.
    let mut words = vec![0x7ffu16; 24];
    words.push(checksum_of(&[0xffu8; 32]));
    let m = Mnemonic::from_words(words).unwrap();
    let a = Account::from_mnemonic(&m).unwrap();
    assert_eq!(a.seed(), [0xffu8; 32]);
}

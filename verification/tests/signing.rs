use algosig::account::Account;
use algosig::transaction::{Bid, Transaction, TransactionAuthorization};

use data_encoding::BASE32_NOPAD;
use ed25519_dalek::{Signer, Verifier};
use sha2::Digest;

fn account(seed: [u8; 32]) -> Account {
    Account::from_seed(seed)
}

#[test]
fn from_seed_is_deterministic() {
    let seed = [7u8; 32];
    let a = account(seed);
    let b = account(seed);
    assert_eq!(a.address().0, b.address().0);
    let payload = b"some payload";
    assert_eq!(a.sign(payload).0.to_vec(), b.sign(payload).0.to_vec());
    assert_eq!(a.seed(), seed);
}

#[test]
fn address_matches_reference_implementation() {
    let seed = [0u8; 32];
    let a = account(seed);
    let reference = ed25519_dalek::SigningKey::from_bytes(&seed);
    assert_eq!(a.address().0, reference.verifying_key().to_bytes());

    let seed2 = [42u8; 32];
    let a2 = account(seed2);
    let reference2 = ed25519_dalek::SigningKey::from_bytes(&seed2);
    assert_eq!(a2.address().0, reference2.verifying_key().to_bytes());
}

#[test]
fn signature_matches_reference_implementation() {
    let seed = [3u8; 32];
    let a = account(seed);
    let msg = b"message to sign";
    let sig = a.sign(msg);
    let reference = ed25519_dalek::SigningKey::from_bytes(&seed);
    let expected = reference.sign(msg);
    assert_eq!(sig.0.to_vec(), expected.to_bytes().to_vec());
    let dalek_sig = ed25519_dalek::Signature::from_bytes(&sig.0);
    assert!(reference.verifying_key().verify(msg, &dalek_sig).is_ok());
}

#[test]
fn program_signature_is_domain_separated() {
    let a = account([9u8; 32]);
    let program = vec![1u8, 32, 200];
    let mut raw = b"Program".to_vec();
    raw.extend_from_slice(&program);
    assert_eq!(a.sign(&raw).0.to_vec(), a.sign_program(&program).0.to_vec());

    let mut other = program.clone();
    other[1] ^= 1;
    assert_ne!(
        a.sign_program(&program).0.to_vec(),
        a.sign_program(&other).0.to_vec()
    );
}

#[test]
fn sign_transaction_scenario_zero_seed() {
    let seed = [0u8; 32];
    let a = account(seed);
    let canonical: Vec<u8> = b"TXfixed-canonical-transaction-bytes".to_vec();
    let tx = Transaction {
        sender: a.address(),
        canonical_bytes: canonical.clone(),
    };
    let signed = a.sign_transaction(&tx).unwrap();

    // The signature is a 64-byte Ed25519 signature over exactly the
    // canonical bytes, reproducible by an independent implementation.
    let reference = ed25519_dalek::SigningKey::from_bytes(&seed);
    let expected = reference.sign(&canonical);
    match &signed.authorization {
        TransactionAuthorization::Single(sig) => {
            assert_eq!(sig.0.len(), 64);
            assert_eq!(sig.0.to_vec(), expected.to_bytes().to_vec());
        }
        _ => panic!("expected a single-signer authorization"),
    }

    // The id is the unpadded base-32 form of the truncated 512-bit
    // digest of the same canonical bytes.
    let digest = sha2::Sha512_256::digest(&canonical);
    assert_eq!(signed.transaction_id, BASE32_NOPAD.encode(&digest));

    // Determinism of the whole operation.
    let signed_again = a.sign_transaction(&tx).unwrap();
    assert_eq!(signed, signed_again);
}

#[test]
fn sign_bid_uses_bid_domain_tag() {
    let a = account([5u8; 32]);
    let bid = Bid {
        canonical_bytes: vec![10, 20, 30],
    };
    let signed = a.sign_bid(Bid {
        canonical_bytes: bid.canonical_bytes.clone(),
    })
    .unwrap();
    let mut raw = b"aB".to_vec();
    raw.extend_from_slice(&bid.canonical_bytes);
    assert_eq!(signed.sig.0.to_vec(), a.sign(&raw).0.to_vec());
    assert_eq!(signed.bid.canonical_bytes, bid.canonical_bytes);
}

#[test]
fn generate_yields_working_account() {
    let a = Account::generate();
    let b = Account::from_seed(a.seed());
    assert_eq!(a.address().0, b.address().0);
}

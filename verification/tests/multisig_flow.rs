use algosig::account::Account;
use algosig::address::{Address, Signature};
use algosig::errors::AlgorandError;
use algosig::multisig::MultisigAddress;
use algosig::transaction::{LogicSignature, SignedTransaction, Transaction, TransactionAuthorization};

use sha2::Digest;

fn policy(threshold: u8, members: &[&Account]) -> MultisigAddress {
    MultisigAddress {
        version: 1,
        threshold,
        public_keys: members.iter().map(|a| a.address().as_public_key()).collect(),
    }
}

fn transaction_for(policy: &MultisigAddress, payload: &[u8]) -> Transaction {
    Transaction {
        sender: policy.address(),
        canonical_bytes: payload.to_vec(),
    }
}

fn msig_of(tx: &SignedTransaction) -> &algosig::multisig::MultisigSignature {
    match &tx.authorization {
        TransactionAuthorization::Multi(m) => m,
        _ => panic!("expected a multisig authorization"),
    }
}

#[test]
fn multisig_address_is_prefixed_digest() {
    let a = Account::from_seed([1u8; 32]);
    let b = Account::from_seed([2u8; 32]);
    let ma = policy(2, &[&a, &b]);
    let mut preimage = b"MultisigAddr".to_vec();
    preimage.push(1);
    preimage.push(2);
    preimage.extend_from_slice(&a.address().0);
    preimage.extend_from_slice(&b.address().0);
    let digest = sha2::Sha512_256::digest(&preimage);
    assert_eq!(ma.address().0.to_vec(), digest.to_vec());
}

#[test]
fn merge_is_commutative() {
    let k1 = Account::from_seed([1u8; 32]);
    let k2 = Account::from_seed([2u8; 32]);
    let ma = policy(2, &[&k1, &k2]);
    let tx = transaction_for(&ma, b"pay 7 to k3");
    let a = k1.sign_multisig_transaction(ma.clone(), &tx).unwrap();
    let b = k2.sign_multisig_transaction(ma.clone(), &tx).unwrap();
    let ab = Account::merge_multisig_transactions(&vec![a.clone(), b.clone()]).unwrap();
    let ba = Account::merge_multisig_transactions(&vec![b, a]).unwrap();
    assert_eq!(ab, ba);
}

#[test]
fn merge_is_idempotent() {
    let k1 = Account::from_seed([1u8; 32]);
    let k2 = Account::from_seed([2u8; 32]);
    let ma = policy(2, &[&k1, &k2]);
    let tx = transaction_for(&ma, b"pay 7 to k3");
    let a = k1.sign_multisig_transaction(ma.clone(), &tx).unwrap();
    let b = k2.sign_multisig_transaction(ma.clone(), &tx).unwrap();
    let merged = Account::merge_multisig_transactions(&vec![a.clone(), b]).unwrap();
    let again = Account::merge_multisig_transactions(&vec![merged.clone(), a]).unwrap();
    assert_eq!(again, merged);
}

#[test]
fn merge_rejects_single_input() {
    let k1 = Account::from_seed([1u8; 32]);
    let k2 = Account::from_seed([2u8; 32]);
    let ma = policy(2, &[&k1, &k2]);
    let tx = transaction_for(&ma, b"pay");
    let a = k1.sign_multisig_transaction(ma, &tx).unwrap();
    assert_eq!(
        Account::merge_multisig_transactions(&vec![a]).unwrap_err(),
        AlgorandError::InsufficientTransactions
    );
}

#[test]
fn merge_rejects_conflicting_signatures() {
    let k1 = Account::from_seed([1u8; 32]);
    let k2 = Account::from_seed([2u8; 32]);
    let ma = policy(2, &[&k1, &k2]);
    let tx = transaction_for(&ma, b"pay");
    let a = k1.sign_multisig_transaction(ma, &tx).unwrap();
    let mut forged = a.clone();
    if let TransactionAuthorization::Multi(m) = &mut forged.authorization {
        m.subsigs[0].sig = Some(Signature([9u8; 64]));
    }
    assert_eq!(
        Account::merge_multisig_transactions(&vec![a, forged]).unwrap_err(),
        AlgorandError::MismatchingSignatures
    );
}

#[test]
fn merge_rejects_mismatched_slot_counts() {
    let k1 = Account::from_seed([1u8; 32]);
    let k2 = Account::from_seed([2u8; 32]);
    let k3 = Account::from_seed([3u8; 32]);
    let two = policy(2, &[&k1, &k2]);
    let three = policy(2, &[&k1, &k2, &k3]);
    let tx2 = transaction_for(&two, b"pay");
    let tx3 = transaction_for(&three, b"pay");
    let a = k1.sign_multisig_transaction(two, &tx2).unwrap();
    let b = k1.sign_multisig_transaction(three, &tx3).unwrap();
    assert_eq!(
        Account::merge_multisig_transactions(&vec![a, b]).unwrap_err(),
        AlgorandError::InvalidNumberOfSubsignatures
    );
}

#[test]
fn merge_rejects_different_members() {
    let k1 = Account::from_seed([1u8; 32]);
    let k2 = Account::from_seed([2u8; 32]);
    let k3 = Account::from_seed([3u8; 32]);
    let left = policy(2, &[&k1, &k2]);
    let right = policy(2, &[&k1, &k3]);
    let txl = transaction_for(&left, b"pay");
    let txr = transaction_for(&right, b"pay");
    let a = k1.sign_multisig_transaction(left, &txl).unwrap();
    let b = k1.sign_multisig_transaction(right, &txr).unwrap();
    assert_eq!(
        Account::merge_multisig_transactions(&vec![a, b]).unwrap_err(),
        AlgorandError::InvalidPublicKeyInMultisig
    );
}

#[test]
fn two_of_three_scenario() {
    let k1 = Account::from_seed([11u8; 32]);
    let k2 = Account::from_seed([22u8; 32]);
    let k3 = Account::from_seed([33u8; 32]);
    let ma = policy(2, &[&k1, &k2, &k3]);
    let tx = transaction_for(&ma, b"move 5");
    let p1 = k1.sign_multisig_transaction(ma.clone(), &tx).unwrap();
    let p2 = k2.sign_multisig_transaction(ma.clone(), &tx).unwrap();
    let merged = Account::merge_multisig_transactions(&vec![p1, p2]).unwrap();
    let m = msig_of(&merged);
    assert_eq!(m.version, 1);
    assert_eq!(m.threshold, 2);
    assert_eq!(m.subsigs.len(), 3);
    assert_eq!(m.subsigs[0].key.0, k1.address().0);
    assert_eq!(m.subsigs[1].key.0, k2.address().0);
    assert_eq!(m.subsigs[2].key.0, k3.address().0);
    assert!(m.subsigs[0].sig.is_some());
    assert!(m.subsigs[1].sig.is_some());
    assert!(m.subsigs[2].sig.is_none());
}

#[test]
fn sign_multisig_rejects_wrong_sender() {
    let k1 = Account::from_seed([1u8; 32]);
    let k2 = Account::from_seed([2u8; 32]);
    let ma = policy(2, &[&k1, &k2]);
    let tx = Transaction {
        sender: Address([0u8; 32]),
        canonical_bytes: b"pay".to_vec(),
    };
    assert_eq!(
        k1.sign_multisig_transaction(ma, &tx).unwrap_err(),
        AlgorandError::InvalidSenderInMultisig
    );
}

#[test]
fn sign_multisig_rejects_non_member() {
    let k1 = Account::from_seed([1u8; 32]);
    let k2 = Account::from_seed([2u8; 32]);
    let outsider = Account::from_seed([77u8; 32]);
    let ma = policy(2, &[&k1, &k2]);
    let tx = transaction_for(&ma, b"pay");
    assert_eq!(
        outsider.sign_multisig_transaction(ma, &tx).unwrap_err(),
        AlgorandError::InvalidSecretKeyInMultisig
    );
}

#[test]
fn append_equals_sign_then_merge() {
    let k1 = Account::from_seed([1u8; 32]);
    let k2 = Account::from_seed([2u8; 32]);
    let ma = policy(2, &[&k1, &k2]);
    let tx = transaction_for(&ma, b"pay");
    let p1 = k1.sign_multisig_transaction(ma.clone(), &tx).unwrap();
    let appended = k2.append_multisig_transaction(ma.clone(), &p1).unwrap();
    let p2 = k2.sign_multisig_transaction(ma, &tx).unwrap();
    let merged = Account::merge_multisig_transactions(&vec![p2, p1]).unwrap();
    assert_eq!(appended, merged);
    let m = msig_of(&appended);
    assert!(m.subsigs[0].sig.is_some());
    assert!(m.subsigs[1].sig.is_some());
}

#[test]
fn logic_msig_fills_only_signer_slot() {
    let k1 = Account::from_seed([1u8; 32]);
    let k2 = Account::from_seed([2u8; 32]);
    let ma = policy(2, &[&k1, &k2]);
    let lsig = LogicSignature {
        logic: vec![1, 2, 3],
        sig: None,
        msig: None,
    };
    let signed = k1.sign_logic_msig(lsig, ma).unwrap();
    assert_eq!(signed.logic, vec![1, 2, 3]);
    assert!(signed.sig.is_none());
    let m = signed.msig.as_ref().unwrap();
    assert_eq!(m.version, 1);
    assert_eq!(m.threshold, 2);
    assert_eq!(m.subsigs.len(), 2);
    let expected = k1.sign_program(&[1, 2, 3]);
    assert_eq!(m.subsigs[0].sig.as_ref().unwrap().0.to_vec(), expected.0.to_vec());
    assert!(m.subsigs[1].sig.is_none());
}

#[test]
fn logic_msig_append_fills_second_slot() {
    let k1 = Account::from_seed([1u8; 32]);
    let k2 = Account::from_seed([2u8; 32]);
    let ma = policy(2, &[&k1, &k2]);
    let lsig = LogicSignature {
        logic: vec![9, 9],
        sig: None,
        msig: None,
    };
    let once = k1.sign_logic_msig(lsig, ma).unwrap();
    let twice = k2.append_to_logic_msig(once).unwrap();
    let m = twice.msig.as_ref().unwrap();
    assert!(m.subsigs[0].sig.is_some());
    let expected = k2.sign_program(&[9, 9]);
    assert_eq!(m.subsigs[1].sig.as_ref().unwrap().0.to_vec(), expected.0.to_vec());
}

#[test]
fn logic_msig_rejects_non_member() {
    let k1 = Account::from_seed([1u8; 32]);
    let k2 = Account::from_seed([2u8; 32]);
    let outsider = Account::from_seed([50u8; 32]);
    let ma = policy(2, &[&k1, &k2]);
    let lsig = LogicSignature {
        logic: vec![4],
        sig: None,
        msig: None,
    };
    assert_eq!(
        outsider.sign_logic_msig(lsig, ma).unwrap_err(),
        AlgorandError::InvalidSecretKeyInMultisig
    );
}

#[test]
fn logic_msig_append_requires_existing_msig() {
    let k1 = Account::from_seed([1u8; 32]);
    let lsig = LogicSignature {
        logic: vec![4],
        sig: None,
        msig: None,
    };
    assert_eq!(
        k1.append_to_logic_msig(lsig).unwrap_err(),
        AlgorandError::InvalidSecretKeyInMultisig
    );
}

#[test]
fn duplicate_member_fills_every_matching_slot() {
    let k1 = Account::from_seed([1u8; 32]);
    let k2 = Account::from_seed([2u8; 32]);
    let ma = policy(2, &[&k1, &k2, &k1]);
    let tx = transaction_for(&ma, b"pay");
    let p = k1.sign_multisig_transaction(ma, &tx).unwrap();
    let m = msig_of(&p);
    assert!(m.subsigs[0].sig.is_some());
    assert!(m.subsigs[1].sig.is_none());
    assert!(m.subsigs[2].sig.is_some());
    assert_eq!(m.subsigs[0].sig, m.subsigs[2].sig);
}

#[test]
fn append_overwrites_own_slot() {
    let k1 = Account::from_seed([1u8; 32]);
    let k2 = Account::from_seed([2u8; 32]);
    let ma = policy(2, &[&k1, &k2]);
    let lsig = LogicSignature {
        logic: vec![6, 6],
        sig: None,
        msig: None,
    };
    let once = k1.sign_logic_msig(lsig, ma).unwrap();
    let again = k1.append_to_logic_msig(once.clone()).unwrap();
    assert_eq!(once, again);
}

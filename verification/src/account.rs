//! Signing identities: derive an account from a seed or mnemonic, sign
//! domain-separated payloads, open and extend threshold signatures, and
//! merge independently produced partial transactions.

use vstd::prelude::*;

use crate::address::{concat_bytes, Address, Ed25519PublicKey, Signature};
use crate::crypto::{base32_nopad_of, ed25519_pk_of, ed25519_sig_of, sha512_256_of};
use crate::errors::AlgorandError;
use crate::mnemonic::{
    checksum_word, decoded_seed, le_bytes_to_nat, le_words_to_nat, mnemonic_to_seed,
    seed_to_mnemonic, Mnemonic,
};
use crate::multisig::{
    merge_msig_fold, merge_msig_pair, msig_preimage, MultisigAddress, MultisigAddressView,
    MultisigSignature, MultisigSignatureView, MultisigSubsig, MultisigSubsigView,
};
use crate::transaction::{
    lsig_result_view, stx_result_view, LogicSignature, LogicSignatureView, SignedBid,
    SignedTransaction, SignedTransactionView, Transaction, TransactionAuthView,
    TransactionAuthorization, TransactionView, Bid,
};
use vstd::pervasive::unreached;

verus! {

/// The ASCII bytes of "Program", the domain tag of program signatures.
pub open spec fn program_prefix() -> Seq<u8> {
    seq![80u8, 114u8, 111u8, 103u8, 114u8, 97u8, 109u8]
}

/// The ASCII bytes of "aB", the domain tag of bid signatures.
pub open spec fn bid_prefix() -> Seq<u8> {
    seq![97u8, 66u8]
}

/// The id of a transaction: the base-32 form, without padding, of the
/// truncated 512-bit digest of its canonical bytes.
pub open spec fn spec_transaction_id(tx_bytes: Seq<u8>) -> Seq<char> {
    base32_nopad_of(sha512_256_of(tx_bytes))
}

/// The signed transaction a single signer with `seed` produces.
pub open spec fn spec_sign_transaction(seed: Seq<u8>, tx: TransactionView) -> SignedTransactionView {
    SignedTransactionView {
        transaction: tx,
        authorization: TransactionAuthView::Single(ed25519_sig_of(seed, tx.canonical_bytes)),
        transaction_id: spec_transaction_id(tx.canonical_bytes),
    }
}

/// A fresh slot list over a policy's member keys: the signer's slots
/// carry `sig`, every other slot is empty.
pub open spec fn fresh_subsigs(keys: Seq<Seq<u8>>, me: Seq<u8>, sig: Seq<u8>) -> Seq<
    MultisigSubsigView,
> {
    Seq::new(
        keys.len(),
        |i: int|
            MultisigSubsigView {
                key: keys[i],
                sig: if keys[i] == me {
                    Some(sig)
                } else {
                    None
                },
            },
    )
}

/// A slot list with the signer's slots overwritten by `sig` and every
/// other slot untouched.
pub open spec fn appended_subsigs(subsigs: Seq<MultisigSubsigView>, me: Seq<u8>, sig: Seq<u8>) -> Seq<
    MultisigSubsigView,
> {
    Seq::new(
        subsigs.len(),
        |i: int|
            if subsigs[i].key == me {
                MultisigSubsigView { key: subsigs[i].key, sig: Some(sig) }
            } else {
                subsigs[i]
            },
    )
}

/// Whether some slot of the list belongs to the key `me`.
pub open spec fn subsigs_contain_key(subsigs: Seq<MultisigSubsigView>, me: Seq<u8>) -> bool {
    exists|i: int| 0 <= i < subsigs.len() && subsigs[i].key == me
}

/// The program authorization produced by opening a fresh threshold
/// signature over `ma` with the signer's program signature.
pub open spec fn spec_sign_logic_msig(
    seed: Seq<u8>,
    lsig: LogicSignatureView,
    ma: MultisigAddressView,
) -> Result<LogicSignatureView, AlgorandError> {
    let me = ed25519_pk_of(seed);
    if !ma.public_keys.contains(me) {
        Err(AlgorandError::InvalidSecretKeyInMultisig)
    } else {
        let sig = ed25519_sig_of(seed, program_prefix() + lsig.logic);
        Ok(
            LogicSignatureView {
                logic: lsig.logic,
                sig: lsig.sig,
                msig: Some(
                    MultisigSignatureView {
                        version: ma.version,
                        threshold: ma.threshold,
                        subsigs: fresh_subsigs(ma.public_keys, me, sig),
                    },
                ),
            },
        )
    }
}

/// The program authorization produced by filling the signer's slot of an
/// existing threshold signature.
pub open spec fn spec_append_to_logic_msig(seed: Seq<u8>, lsig: LogicSignatureView) -> Result<
    LogicSignatureView,
    AlgorandError,
> {
    let me = ed25519_pk_of(seed);
    match lsig.msig {
        None => Err(AlgorandError::InvalidSecretKeyInMultisig),
        Some(msig) => if !subsigs_contain_key(msig.subsigs, me) {
            Err(AlgorandError::InvalidSecretKeyInMultisig)
        } else {
            let sig = ed25519_sig_of(seed, program_prefix() + lsig.logic);
            Ok(
                LogicSignatureView {
                    logic: lsig.logic,
                    sig: lsig.sig,
                    msig: Some(
                        MultisigSignatureView {
                            version: msig.version,
                            threshold: msig.threshold,
                            subsigs: appended_subsigs(msig.subsigs, me, sig),
                        },
                    ),
                },
            )
        },
    }
}

/// The partial signed transaction a policy member with `seed` produces:
/// the sender must be the policy's derived address and the signer must be
/// a member; the member's slot carries the transaction signature.
pub open spec fn spec_sign_multisig_transaction(
    seed: Seq<u8>,
    ma: MultisigAddressView,
    tx: TransactionView,
) -> Result<SignedTransactionView, AlgorandError> {
    let me = ed25519_pk_of(seed);
    if sha512_256_of(msig_preimage(ma)) != tx.sender {
        Err(AlgorandError::InvalidSenderInMultisig)
    } else if !ma.public_keys.contains(me) {
        Err(AlgorandError::InvalidSecretKeyInMultisig)
    } else {
        let sig = ed25519_sig_of(seed, tx.canonical_bytes);
        Ok(
            SignedTransactionView {
                transaction: tx,
                authorization: TransactionAuthView::Multi(
                    MultisigSignatureView {
                        version: ma.version,
                        threshold: ma.threshold,
                        subsigs: fresh_subsigs(ma.public_keys, me, sig),
                    },
                ),
                transaction_id: spec_transaction_id(tx.canonical_bytes),
            },
        )
    }
}

/// The aggregated signature a multisig-signed transaction carries.
pub open spec fn spec_msig_of(t: SignedTransactionView) -> MultisigSignatureView {
    match t.authorization {
        TransactionAuthView::Multi(m) => m,
        _ => vstd::pervasive::arbitrary(),
    }
}

/// The models of a list of signed transactions.
pub open spec fn stx_views(txs: Seq<SignedTransaction>) -> Seq<SignedTransactionView> {
    Seq::new(txs.len(), |i: int| txs[i]@)
}

/// The merge of a batch of partial transactions: fewer than two inputs
/// are rejected; otherwise the first transaction's fields are kept and
/// every input's aggregated signature is folded in, slot by slot.
pub open spec fn spec_merge_multisig_transactions(txs: Seq<SignedTransactionView>) -> Result<
    SignedTransactionView,
    AlgorandError,
> {
    if txs.len() < 2 {
        Err(AlgorandError::InsufficientTransactions)
    } else {
        match merge_msig_fold(
            spec_msig_of(txs[0]),
            txs.map_values(|t: SignedTransactionView| spec_msig_of(t)),
        ) {
            Ok(m) => Ok(
                SignedTransactionView {
                    transaction: txs[0].transaction,
                    authorization: TransactionAuthView::Multi(m),
                    transaction_id: txs[0].transaction_id,
                },
            ),
            Err(e) => Err(e),
        }
    }
}

/// The signed transaction produced by signing fresh as a policy member
/// and merging with an existing partial transaction.
pub open spec fn spec_append_multisig_transaction(
    seed: Seq<u8>,
    ma: MultisigAddressView,
    stx: SignedTransactionView,
) -> Result<SignedTransactionView, AlgorandError> {
    match spec_sign_multisig_transaction(seed, ma, stx.transaction) {
        Ok(f) => spec_merge_multisig_transactions(seq![f, stx]),
        Err(e) => Err(e),
    }
}

/// One signing identity: a 32-byte seed and the address derived from it.
#[derive(Debug)]
pub struct Account {
    seed: [u8; 32],
    address: Address,
}

impl Account {
    /// The address is always the public key derived from the seed.
    #[verifier::type_invariant]
    pub closed spec fn well_formed(self) -> bool {
        self.address@ == ed25519_pk_of(self.seed@)
    }

    /// The account's secret seed, as a byte sequence.
    pub closed spec fn spec_seed(&self) -> Seq<u8> {
        self.seed@
    }

    /// The account's public address, as a byte sequence.
    pub closed spec fn spec_address(&self) -> Seq<u8> {
        self.address@
    }

    /// Derive the account of a 32-byte seed: deterministic, with the
    /// address equal to the seed's public key.
    pub fn from_seed(seed: [u8; 32]) -> (r: Account)
        ensures
            r.spec_seed() == seed@,
            r.spec_address() == ed25519_pk_of(seed@),
    {
        let pk = crate::crypto::ed25519_public_key(&seed);
        Account { seed, address: Address(pk) }
    }

    /// Draw a fresh 32-byte seed from the secure source and derive its
    /// account.
    pub fn generate() -> (r: Account)
        ensures
            r.spec_address() == ed25519_pk_of(r.spec_seed()),
    {
        let seed = crate::crypto::random_seed();
        Self::from_seed(seed)
    }

    /// Decode a mnemonic and derive its account; a mnemonic whose
    /// checksum word does not match the decoded seed is rejected.
    pub fn from_mnemonic(mnemonic: &Mnemonic) -> (r: Result<Account, AlgorandError>)
        ensures
            match r {
                Ok(a) => a.spec_seed() == decoded_seed(mnemonic@) && a.spec_address()
                    == ed25519_pk_of(a.spec_seed()) && checksum_word(decoded_seed(mnemonic@))
                    == mnemonic@[24],
                Err(e) => e == AlgorandError::InvalidChecksum && checksum_word(
                    decoded_seed(mnemonic@),
                ) != mnemonic@[24],
            },
    {
        match mnemonic_to_seed(mnemonic) {
            Ok(seed) => Ok(Self::from_seed(seed)),
            Err(e) => Err(e.into_algorand_error()),
        }
    }

    /// The public address of the account.
    pub fn address(&self) -> (r: Address)
        ensures
            r@ == self.spec_address(),
            r@ == ed25519_pk_of(self.spec_seed()),
    {
        proof {
            use_type_invariant(self);
        }
        self.address
    }

    /// The mnemonic of the account's seed.
    pub fn mnemonic(&self) -> (r: Mnemonic)
        ensures
            r@.len() == 25,
            forall|k: int| 0 <= k < 25 ==> r@[k] < 2048,
            le_words_to_nat(r@.take(24)) == le_bytes_to_nat(self.spec_seed()),
            r@[24] as nat == checksum_word(self.spec_seed()),
    {
        seed_to_mnemonic(&self.seed)
    }

    /// The account's 32-byte seed.
    pub fn seed(&self) -> (r: [u8; 32])
        ensures
            r@ == self.spec_seed(),
    {
        self.seed
    }

    /// Sign exactly the given bytes with the account's key.
    pub fn sign(&self, bytes: &[u8]) -> (r: Signature)
        ensures
            r@ == ed25519_sig_of(self.spec_seed(), bytes@),
    {
        Signature(crate::crypto::ed25519_sign(&self.seed, bytes))
    }

    /// Sign `"Program" || bytes`: the domain tag keeps a program
    /// signature from standing for any other payload class.
    pub fn sign_program(&self, bytes: &[u8]) -> (r: Signature)
        ensures
            r@ == ed25519_sig_of(self.spec_seed(), program_prefix() + bytes@),
    {
        let mut prefix: Vec<u8> = Vec::new();
        prefix.push(80u8);
        prefix.push(114u8);
        prefix.push(111u8);
        prefix.push(103u8);
        prefix.push(114u8);
        prefix.push(97u8);
        prefix.push(109u8);
        assert(prefix@ =~= program_prefix());
        let msg = concat_bytes(prefix.as_slice(), bytes);
        self.sign(msg.as_slice())
    }

    /// Sign a bid: the canonical bid bytes behind the 2-byte `"aB"`
    /// domain tag.
    pub fn sign_bid(&self, bid: Bid) -> (r: Result<SignedBid, AlgorandError>)
        ensures
            match r {
                Ok(sb) => sb.bid@ == bid@ && sb.sig@ == ed25519_sig_of(
                    self.spec_seed(),
                    bid_prefix() + bid@.canonical_bytes,
                ),
                Err(_) => false,
            },
    {
        let mut prefix: Vec<u8> = Vec::new();
        prefix.push(97u8);
        prefix.push(66u8);
        assert(prefix@ =~= bid_prefix());
        let msg = concat_bytes(prefix.as_slice(), bid.canonical_bytes.as_slice());
        let signature = self.sign(msg.as_slice());
        Ok(SignedBid { bid, sig: signature })
    }

    /// Sign a transaction as a single signer: the signature and the
    /// transaction id are both computed over the same canonical bytes.
    pub fn sign_transaction(&self, transaction: &Transaction) -> (r: Result<
        SignedTransaction,
        AlgorandError,
    >)
        ensures
            stx_result_view(r) == Ok::<_, AlgorandError>(
                spec_sign_transaction(self.spec_seed(), transaction@),
            ),
    {
        let tx_bytes = transaction.bytes_to_sign();
        let signature = self.sign(tx_bytes.as_slice());
        let digest = crate::crypto::sha512_256(tx_bytes.as_slice());
        let id = crate::crypto::base32_nopad_encode(digest.as_slice());
        let r = SignedTransaction {
            transaction: transaction.clone(),
            authorization: TransactionAuthorization::Single(signature),
            transaction_id: id,
        };
        assert(r@ =~~= spec_sign_transaction(self.spec_seed(), transaction@));
        Ok(r)
    }

    /// Open a fresh threshold signature over the policy `ma` for the
    /// program of `lsig`: the signer must be a member; the signer's slots
    /// carry the program signature, all others are empty, in the policy's
    /// member order. The single-signer field of `lsig` is untouched.
    pub fn sign_logic_msig(&self, lsig: LogicSignature, ma: MultisigAddress) -> (r: Result<
        LogicSignature,
        AlgorandError,
    >)
        ensures
            lsig_result_view(r) == spec_sign_logic_msig(self.spec_seed(), lsig@, ma@),
    {
        proof {
            use_type_invariant(self);
        }
        let my_public_key = self.address.as_public_key();
        if !ma.contains_key(&my_public_key) {
            return Err(AlgorandError::InvalidSecretKeyInMultisig);
        }
        let sig = self.sign_program(lsig.logic.as_slice());
        let subsigs = build_fresh_subsigs(&ma.public_keys, &my_public_key, &sig);
        let msig = MultisigSignature { version: ma.version, threshold: ma.threshold, subsigs };
        let r = LogicSignature { logic: lsig.logic, sig: lsig.sig, msig: Some(msig) };
        assert(r@ =~~= spec_sign_logic_msig(self.spec_seed(), lsig@, ma@).unwrap());
        Ok(r)
    }

    /// Fill the signer's slot of an existing threshold signature with the
    /// program signature, leaving every other slot untouched; there must
    /// be an existing threshold signature and the signer must own a slot.
    pub fn append_to_logic_msig(&self, lsig: LogicSignature) -> (r: Result<
        LogicSignature,
        AlgorandError,
    >)
        ensures
            lsig_result_view(r) == spec_append_to_logic_msig(self.spec_seed(), lsig@),
    {
        proof {
            use_type_invariant(self);
        }
        let ghost lv = lsig@;
        let my_public_key = self.address.as_public_key();
        let LogicSignature { logic, sig, msig } = lsig;
        let msig = match msig {
            None => {
                return Err(AlgorandError::InvalidSecretKeyInMultisig);
            },
            Some(m) => m,
        };
        let new_sig = self.sign_program(logic.as_slice());
        let ghost me = my_public_key@;
        let mut out: Vec<MultisigSubsig> = Vec::new();
        let mut found = false;
        let n = msig.subsigs.len();
        let mut i: usize = 0;
        while i < n
            invariant
                n == msig.subsigs@.len(),
                i <= n,
                out@.len() == i,
                me == my_public_key@,
                found <==> exists|k: int| 0 <= k < i && msig@.subsigs[k].key == me,
                forall|k: int|
                    0 <= k < i ==> #[trigger] out@[k]@ == appended_subsigs(
                        msig@.subsigs,
                        me,
                        new_sig@,
                    )[k],
            decreases n - i,
        {
            let ss = &msig.subsigs[i];
            if ss.key.matches(&my_public_key) {
                found = true;
                proof {
                    assert(msig@.subsigs[i as int].key == me);
                }
                out.push(MultisigSubsig { key: ss.key, sig: Some(new_sig) });
            } else {
                proof {
                    assert(msig@.subsigs[i as int].key != me);
                }
                out.push(*ss);
            }
            i += 1;
        }
        if !found {
            return Err(AlgorandError::InvalidSecretKeyInMultisig);
        }
        let r = LogicSignature {
            logic,
            sig,
            msig: Some(
                MultisigSignature { version: msig.version, threshold: msig.threshold, subsigs: out },
            ),
        };
        assert(subsigs_contain_key(lv.msig.unwrap().subsigs, ed25519_pk_of(self.spec_seed())));
        assert(r@ =~~= spec_append_to_logic_msig(self.spec_seed(), lv).unwrap());
        Ok(r)
    }

    /// Sign a transaction as one member of the policy `ma`: the policy's
    /// derived address must be the transaction's sender and the signer
    /// must be a member; the result carries a fresh threshold signature
    /// with only the signer's slots filled.
    pub fn sign_multisig_transaction(&self, from: MultisigAddress, transaction: &Transaction) -> (r:
        Result<SignedTransaction, AlgorandError>)
        ensures
            stx_result_view(r) == spec_sign_multisig_transaction(
                self.spec_seed(),
                from@,
                transaction@,
            ),
    {
        proof {
            use_type_invariant(self);
        }
        let derived = from.address();
        if !derived.matches(&transaction.sender) {
            return Err(AlgorandError::InvalidSenderInMultisig);
        }
        let my_public_key = self.address.as_public_key();
        if !from.contains_key(&my_public_key) {
            return Err(AlgorandError::InvalidSecretKeyInMultisig);
        }
        let signed = match self.sign_transaction(transaction) {
            Ok(s) => s,
            Err(e) => {
                return Err(e);
            },
        };
        let signature = match signed.authorization {
            TransactionAuthorization::Single(s) => s,
            _ => unreached(),
        };
        let subsigs = build_fresh_subsigs(&from.public_keys, &my_public_key, &signature);
        let msig = MultisigSignature { version: from.version, threshold: from.threshold, subsigs };
        let r = SignedTransaction {
            transaction: transaction.clone(),
            authorization: TransactionAuthorization::Multi(msig),
            transaction_id: signed.transaction_id,
        };
        assert(r@ =~~= spec_sign_multisig_transaction(
            self.spec_seed(),
            from@,
            transaction@,
        ).unwrap());
        Ok(r)
    }

    /// Sign fresh as a member of `from` and merge with an existing
    /// partial transaction.
    pub fn append_multisig_transaction(&self, from: MultisigAddress, transaction: &SignedTransaction) -> (r:
        Result<SignedTransaction, AlgorandError>)
        requires
            transaction@.authorization is Multi,
        ensures
            stx_result_view(r) == spec_append_multisig_transaction(
                self.spec_seed(),
                from@,
                transaction@,
            ),
    {
        let fresh = match self.sign_multisig_transaction(from, &transaction.transaction) {
            Ok(f) => f,
            Err(e) => {
                return Err(e);
            },
        };
        let ghost fv = fresh@;
        let mut pair: Vec<SignedTransaction> = Vec::new();
        pair.push(fresh);
        pair.push(transaction.clone());
        proof {
            assert(stx_views(pair@) =~= seq![fv, transaction@]);
        }
        Self::merge_multisig_transactions(&pair)
    }

    /// Merge partial transactions produced by independent signers of one
    /// policy: at least two inputs, equal slot counts, identical member
    /// order; a filled slot is adopted where the accumulator's is empty
    /// and two different filled signatures for one slot are rejected. All
    /// other fields come from the first transaction.
    pub fn merge_multisig_transactions(transactions: &Vec<SignedTransaction>) -> (r: Result<
        SignedTransaction,
        AlgorandError,
    >)
        requires
            forall|i: int|
                0 <= i < transactions@.len() ==> (#[trigger] transactions@[i]@).authorization
                    is Multi,
        ensures
            stx_result_view(r) == spec_merge_multisig_transactions(stx_views(transactions@)),
    {
        if transactions.len() < 2 {
            return Err(AlgorandError::InsufficientTransactions);
        }
        let ghost views = stx_views(transactions@);
        let ghost all = views.map_values(|t: SignedTransactionView| spec_msig_of(t));
        let first = &transactions[0];
        let mut merged_msig: MultisigSignature = match &first.authorization {
            TransactionAuthorization::Multi(m) => m.clone(),
            _ => unreached(),
        };
        proof {
            assert(views[0] == transactions@[0]@);
            assert(all.skip(0) =~= all);
            assert(merged_msig@ == spec_msig_of(views[0]));
        }
        let n = transactions.len();
        let mut k: usize = 0;
        while k < n
            invariant
                n == transactions@.len(),
                2 <= n,
                k <= n,
                forall|i: int|
                    0 <= i < transactions@.len() ==> (#[trigger] transactions@[i]@).authorization
                        is Multi,
                views == stx_views(transactions@),
                all == views.map_values(|t: SignedTransactionView| spec_msig_of(t)),
                merge_msig_fold(spec_msig_of(views[0]), all) == merge_msig_fold(
                    merged_msig@,
                    all.skip(k as int),
                ),
            decreases n - k,
        {
            let tref = &transactions[k];
            let cur: &MultisigSignature = match &tref.authorization {
                TransactionAuthorization::Multi(m) => m,
                _ => unreached(),
            };
            proof {
                assert(all[k as int] == spec_msig_of(views[k as int]));
                assert(views[k as int] == transactions@[k as int]@);
                assert(all.skip(k as int)[0] == all[k as int]);
            }
            match merged_msig.merged_with(cur) {
                Ok(m) => {
                    proof {
                        assert(all.skip(k as int).skip(1) =~= all.skip(k as int + 1));
                    }
                    merged_msig = m;
                },
                Err(e) => {
                    return Err(e);
                },
            }
            k += 1;
        }
        proof {
            assert(all.skip(n as int) =~= Seq::<MultisigSignatureView>::empty());
        }
        let r = SignedTransaction {
            transaction: transactions[0].transaction.clone(),
            authorization: TransactionAuthorization::Multi(merged_msig),
            transaction_id: transactions[0].transaction_id.clone(),
        };
        assert(r@ =~~= spec_merge_multisig_transactions(views).unwrap());
        Ok(r)
    }
}

/// Build the slot list of a fresh threshold signature: the signer's
/// slots carry `sig`, every other slot is empty, in member order.
fn build_fresh_subsigs(
    keys: &Vec<Ed25519PublicKey>,
    me: &Ed25519PublicKey,
    sig: &Signature,
) -> (r: Vec<MultisigSubsig>)
    ensures
        r@.len() == keys@.len(),
        forall|i: int|
            0 <= i < keys@.len() ==> #[trigger] r@[i]@ == fresh_subsigs(
                Seq::new(keys@.len(), |j: int| keys@[j]@),
                me@,
                sig@,
            )[i],
{
    let n = keys.len();
    let mut out: Vec<MultisigSubsig> = Vec::new();
    let mut i: usize = 0;
    let ghost keyviews = Seq::new(keys@.len(), |j: int| keys@[j]@);
    while i < n
        invariant
            n == keys@.len(),
            i <= n,
            out@.len() == i,
            keyviews == Seq::new(keys@.len(), |j: int| keys@[j]@),
            forall|t: int|
                0 <= t < i ==> #[trigger] out@[t]@ == fresh_subsigs(keyviews, me@, sig@)[t],
        decreases n - i,
    {
        let key = &keys[i];
        if key.matches(me) {
            out.push(MultisigSubsig { key: *key, sig: Some(*sig) });
        } else {
            out.push(MultisigSubsig { key: *key, sig: None });
        }
        i += 1;
    }
    out
}

/// Deriving an account from one seed twice gives the same address, and
/// signing one payload under that seed gives the same signature: every
/// result of `from_seed` and `sign` is a function of the seed alone.
pub proof fn lemma_from_seed_deterministic(a: Account, b: Account, payload: Seq<u8>)
    requires
        a.spec_seed() == b.spec_seed(),
        a.spec_address() == ed25519_pk_of(a.spec_seed()),
        b.spec_address() == ed25519_pk_of(b.spec_seed()),
    ensures
        a.spec_address() == b.spec_address(),
        ed25519_sig_of(a.spec_seed(), payload) == ed25519_sig_of(b.spec_seed(), payload),
{
}

/// Signing the raw bytes `"Program" || p` equals signing the program
/// `p`: the two operations' contracts name one and the same signature.
pub proof fn lemma_program_domain_separation(seed: Seq<u8>, p: Seq<u8>, raw: Seq<u8>)
    requires
        raw == program_prefix() + p,
    ensures
        ed25519_sig_of(seed, raw) == ed25519_sig_of(seed, program_prefix() + p),
{
}

/// Merging two partial transactions over one policy does not depend on
/// their order, provided both carry the same transaction and id (as two
/// partial signatures of one transaction always do).
pub proof fn lemma_merge_two_commutes(a: SignedTransactionView, b: SignedTransactionView)
    requires
        a.authorization is Multi,
        b.authorization is Multi,
        a.transaction == b.transaction,
        a.transaction_id == b.transaction_id,
        spec_msig_of(a).version == spec_msig_of(b).version,
        spec_msig_of(a).threshold == spec_msig_of(b).threshold,
    ensures
        spec_merge_multisig_transactions(seq![a, b]) == spec_merge_multisig_transactions(
            seq![b, a],
        ),
{
    let ma = spec_msig_of(a);
    let mb = spec_msig_of(b);
    let fab = seq![a, b].map_values(|t: SignedTransactionView| spec_msig_of(t));
    let fba = seq![b, a].map_values(|t: SignedTransactionView| spec_msig_of(t));
    assert(fab =~= seq![ma, mb]);
    assert(fba =~= seq![mb, ma]);
    crate::multisig::lemma_merge_pair_self(ma);
    crate::multisig::lemma_merge_pair_self(mb);
    crate::multisig::lemma_merge_pair_comm(ma, mb);
    assert(seq![ma, mb].skip(1) =~= seq![mb]);
    assert(seq![mb, ma].skip(1) =~= seq![ma]);
    assert(seq![mb].skip(1) =~= Seq::<MultisigSignatureView>::empty());
    assert(seq![ma].skip(1) =~= Seq::<MultisigSignatureView>::empty());
    assert(seq![ma, mb][0] == ma && seq![mb, ma][0] == mb);
    assert(seq![mb][0] == mb && seq![ma][0] == ma);
    assert(merge_msig_fold(ma, seq![ma, mb]) == merge_msig_fold(ma, seq![mb]));
    assert(merge_msig_fold(mb, seq![mb, ma]) == merge_msig_fold(mb, seq![ma]));
    match merge_msig_pair(ma, mb) {
        Ok(m) => {
            assert(merge_msig_fold(ma, seq![mb]) == merge_msig_fold(
                m,
                Seq::<MultisigSignatureView>::empty(),
            ));
            assert(merge_msig_fold(mb, seq![ma]) == merge_msig_fold(
                m,
                Seq::<MultisigSignatureView>::empty(),
            ));
            assert(merge_msig_fold(m, Seq::<MultisigSignatureView>::empty()) == Ok::<
                _,
                AlgorandError,
            >(m));
            assert(spec_merge_multisig_transactions(seq![a, b]).unwrap()
                =~= spec_merge_multisig_transactions(seq![b, a]).unwrap());
        },
        Err(e) => {
            assert(merge_msig_fold(ma, seq![mb]) == Err::<MultisigSignatureView, _>(e));
            assert(merge_msig_fold(mb, seq![ma]) == Err::<MultisigSignatureView, _>(e));
        },
    }
}

/// Merging one of its inputs once more into a merged transaction changes
/// nothing.
pub proof fn lemma_merge_idempotent(
    a: SignedTransactionView,
    b: SignedTransactionView,
    m: SignedTransactionView,
)
    requires
        a.authorization is Multi,
        b.authorization is Multi,
        spec_merge_multisig_transactions(seq![a, b]) == Ok::<_, AlgorandError>(m),
    ensures
        spec_merge_multisig_transactions(seq![m, a]) == Ok::<_, AlgorandError>(m),
{
    let ma = spec_msig_of(a);
    let mb = spec_msig_of(b);
    let fab = seq![a, b].map_values(|t: SignedTransactionView| spec_msig_of(t));
    assert(fab =~= seq![ma, mb]);
    crate::multisig::lemma_merge_pair_self(ma);
    assert(seq![ma, mb].skip(1) =~= seq![mb]);
    assert(seq![mb].skip(1) =~= Seq::<MultisigSignatureView>::empty());
    assert(seq![ma, mb][0] == ma && seq![mb][0] == mb);
    assert(merge_msig_fold(ma, seq![ma, mb]) == merge_msig_fold(ma, seq![mb]));
    if merge_msig_pair(ma, mb) is Err {
        assert(merge_msig_fold(ma, seq![mb]) == merge_msig_fold(ma, seq![ma, mb]));
        assert(spec_merge_multisig_transactions(seq![a, b]) is Err);
        assert(false);
    }
    let mm = merge_msig_pair(ma, mb).unwrap();
    assert(merge_msig_pair(ma, mb) == Ok::<_, AlgorandError>(mm));
    assert(merge_msig_fold(ma, seq![mb]) == merge_msig_fold(
        mm,
        Seq::<MultisigSignatureView>::empty(),
    ));
    assert(merge_msig_fold(ma, seq![ma, mb]) == Ok::<_, AlgorandError>(mm));
    assert(m.authorization == TransactionAuthView::Multi(mm));
    assert(spec_msig_of(m) == mm);
    crate::multisig::lemma_merge_pair_idem(ma, mb, mm);
    crate::multisig::lemma_merge_pair_self(mm);
    let fma = seq![m, a].map_values(|t: SignedTransactionView| spec_msig_of(t));
    assert(fma =~= seq![mm, ma]);
    assert(seq![mm, ma].skip(1) =~= seq![ma]);
    assert(seq![ma].skip(1) =~= Seq::<MultisigSignatureView>::empty());
    assert(seq![mm, ma][0] == mm && seq![ma][0] == ma);
    assert(merge_msig_fold(mm, seq![mm, ma]) == merge_msig_fold(mm, seq![ma]));
    assert(merge_msig_fold(mm, seq![ma]) == merge_msig_fold(
        mm,
        Seq::<MultisigSignatureView>::empty(),
    ));
    assert(merge_msig_fold(mm, seq![mm, ma]) == Ok::<_, AlgorandError>(mm));
    assert(spec_merge_multisig_transactions(seq![m, a]).unwrap() =~= m);
}

} // verus!

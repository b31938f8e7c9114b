//! Payloads that are signed — transactions, bids, program authorizations —
//! and the signed values produced from them. The concrete serialization
//! schema is a collaborator of this crate: a payload carries its canonical
//! byte encoding, which signing and hashing consume.

use vstd::prelude::*;

use crate::address::{Address, Signature};
use crate::multisig::{MultisigSignature, MultisigSignatureView};

verus! {

/// A transaction, reduced to what signing needs: the declared sender and
/// the canonical bytes over which signatures and the transaction id are
/// computed.
#[derive(Debug, PartialEq, Eq)]
pub struct Transaction {
    pub sender: Address,
    pub canonical_bytes: Vec<u8>,
}

/// An auction bid, reduced to its canonical byte encoding.
#[derive(Debug, PartialEq, Eq)]
pub struct Bid {
    pub canonical_bytes: Vec<u8>,
}

/// A bid together with its signature.
#[derive(Debug, PartialEq, Eq)]
pub struct SignedBid {
    pub bid: Bid,
    pub sig: Signature,
}

/// A signed program authorization: the program bytes, and either a single
/// signer's signature or an aggregated group signature over them.
#[derive(Debug, PartialEq, Eq)]
pub struct LogicSignature {
    pub logic: Vec<u8>,
    pub sig: Option<Signature>,
    pub msig: Option<MultisigSignature>,
}

/// The one authorization form a fully signed transaction carries.
#[derive(Debug, PartialEq, Eq)]
pub enum TransactionAuthorization {
    Single(Signature),
    Logic(LogicSignature),
    Multi(MultisigSignature),
}

/// A transaction plus its proof of authorization and its derived id.
#[derive(Debug, PartialEq, Eq)]
pub struct SignedTransaction {
    pub transaction: Transaction,
    pub authorization: TransactionAuthorization,
    pub transaction_id: String,
}

/// Mathematical model of a transaction.
#[verifier::ext_equal]
pub struct TransactionView {
    pub sender: Seq<u8>,
    pub canonical_bytes: Seq<u8>,
}

/// Mathematical model of a bid.
#[verifier::ext_equal]
pub struct BidView {
    pub canonical_bytes: Seq<u8>,
}

/// Mathematical model of a signed program authorization.
#[verifier::ext_equal]
pub struct LogicSignatureView {
    pub logic: Seq<u8>,
    pub sig: Option<Seq<u8>>,
    pub msig: Option<MultisigSignatureView>,
}

/// Mathematical model of an authorization form.
#[verifier::ext_equal]
pub enum TransactionAuthView {
    Single(Seq<u8>),
    Logic(LogicSignatureView),
    Multi(MultisigSignatureView),
}

/// Mathematical model of a signed transaction.
#[verifier::ext_equal]
pub struct SignedTransactionView {
    pub transaction: TransactionView,
    pub authorization: TransactionAuthView,
    pub transaction_id: Seq<char>,
}

impl View for Transaction {
    type V = TransactionView;

    open spec fn view(&self) -> TransactionView {
        TransactionView { sender: self.sender@, canonical_bytes: self.canonical_bytes@ }
    }
}

impl View for Bid {
    type V = BidView;

    open spec fn view(&self) -> BidView {
        BidView { canonical_bytes: self.canonical_bytes@ }
    }
}

impl View for SignedBid {
    type V = (BidView, Seq<u8>);

    open spec fn view(&self) -> (BidView, Seq<u8>) {
        (self.bid@, self.sig@)
    }
}

impl View for LogicSignature {
    type V = LogicSignatureView;

    open spec fn view(&self) -> LogicSignatureView {
        LogicSignatureView {
            logic: self.logic@,
            sig: match self.sig {
                Some(s) => Some(s@),
                None => None,
            },
            msig: match self.msig {
                Some(m) => Some(m@),
                None => None,
            },
        }
    }
}

impl View for TransactionAuthorization {
    type V = TransactionAuthView;

    open spec fn view(&self) -> TransactionAuthView {
        match self {
            TransactionAuthorization::Single(s) => TransactionAuthView::Single(s@),
            TransactionAuthorization::Logic(l) => TransactionAuthView::Logic(l@),
            TransactionAuthorization::Multi(m) => TransactionAuthView::Multi(m@),
        }
    }
}

impl View for SignedTransaction {
    type V = SignedTransactionView;

    open spec fn view(&self) -> SignedTransactionView {
        SignedTransactionView {
            transaction: self.transaction@,
            authorization: self.authorization@,
            transaction_id: self.transaction_id@,
        }
    }
}

/// The bytes of `v`, as a fresh vector.
pub fn copy_bytes(v: &Vec<u8>) -> (r: Vec<u8>)
    ensures
        r@ == v@,
{
    let mut out: Vec<u8> = Vec::new();
    let mut i: usize = 0;
    while i < v.len()
        invariant
            i <= v@.len(),
            out@ == v@.take(i as int),
        decreases v@.len() - i,
    {
        out.push(v[i]);
        i += 1;
        assert(out@ =~= v@.take(i as int));
    }
    assert(out@ =~= v@);
    out
}

impl Clone for Transaction {
    /// An exact copy.
    fn clone(&self) -> (r: Self)
        ensures
            r@ == self@,
    {
        Transaction { sender: self.sender, canonical_bytes: copy_bytes(&self.canonical_bytes) }
    }
}

impl Clone for Bid {
    /// An exact copy.
    fn clone(&self) -> (r: Self)
        ensures
            r@ == self@,
    {
        Bid { canonical_bytes: copy_bytes(&self.canonical_bytes) }
    }
}

impl Clone for MultisigSignature {
    /// An exact copy.
    fn clone(&self) -> (r: Self)
        ensures
            r@ == self@,
    {
        let mut subsigs: Vec<crate::multisig::MultisigSubsig> = Vec::new();
        let mut i: usize = 0;
        while i < self.subsigs.len()
            invariant
                i <= self.subsigs@.len(),
                subsigs@ == self.subsigs@.take(i as int),
            decreases self.subsigs@.len() - i,
        {
            subsigs.push(self.subsigs[i]);
            i += 1;
            assert(subsigs@ =~= self.subsigs@.take(i as int));
        }
        assert(subsigs@ =~= self.subsigs@);
        let r = MultisigSignature { version: self.version, threshold: self.threshold, subsigs };
        assert(r@ =~= self@);
        r
    }
}

impl Clone for LogicSignature {
    /// An exact copy.
    fn clone(&self) -> (r: Self)
        ensures
            r@ == self@,
    {
        let r = LogicSignature {
            logic: copy_bytes(&self.logic),
            sig: self.sig,
            msig: match &self.msig {
                Some(m) => Some(m.clone()),
                None => None,
            },
        };
        assert(r@ =~= self@);
        r
    }
}

impl Clone for TransactionAuthorization {
    /// An exact copy.
    fn clone(&self) -> (r: Self)
        ensures
            r@ == self@,
    {
        match self {
            TransactionAuthorization::Single(s) => TransactionAuthorization::Single(*s),
            TransactionAuthorization::Logic(l) => TransactionAuthorization::Logic(l.clone()),
            TransactionAuthorization::Multi(m) => TransactionAuthorization::Multi(m.clone()),
        }
    }
}

impl Clone for SignedTransaction {
    /// An exact copy.
    fn clone(&self) -> (r: Self)
        ensures
            r@ == self@,
    {
        let r = SignedTransaction {
            transaction: self.transaction.clone(),
            authorization: self.authorization.clone(),
            transaction_id: self.transaction_id.clone(),
        };
        assert(r@ =~= self@);
        r
    }
}

impl Transaction {
    /// The canonical bytes that signatures and the transaction id are
    /// computed over.
    pub fn bytes_to_sign(&self) -> (r: Vec<u8>)
        ensures
            r@ == self@.canonical_bytes,
    {
        copy_bytes(&self.canonical_bytes)
    }
}

/// The model of a fallible operation that yields a signed transaction.
pub open spec fn stx_result_view(
    r: Result<SignedTransaction, crate::errors::AlgorandError>,
) -> Result<SignedTransactionView, crate::errors::AlgorandError> {
    match r {
        Ok(t) => Ok(t@),
        Err(e) => Err(e),
    }
}

/// The model of a fallible operation that yields a program authorization.
pub open spec fn lsig_result_view(
    r: Result<LogicSignature, crate::errors::AlgorandError>,
) -> Result<LogicSignatureView, crate::errors::AlgorandError> {
    match r {
        Ok(l) => Ok(l@),
        Err(e) => Err(e),
    }
}

} // verus!

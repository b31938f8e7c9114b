use vstd::prelude::*;

verus! {

/// Errors of the seed/mnemonic codec layer.
#[derive(Debug, Clone, Copy, PartialEq, Eq, Structural)]
pub enum CryptoError {
    /// A decoded key is not exactly 32 bytes.
    InvalidKeyLength,
    /// A mnemonic does not have the required word count.
    InvalidMnemonicLength,
    /// A mnemonic word is outside the known vocabulary.
    InvalidWordsInMnemonic,
    /// The checksum embedded in a mnemonic does not match its payload.
    InvalidChecksum,
}

/// Errors of the signing and multisig aggregation layer; the mnemonic
/// kinds are repeated here so that account construction from a mnemonic
/// reports through one flat taxonomy.
#[derive(Debug, Clone, Copy, PartialEq, Eq, Structural)]
pub enum AlgorandError {
    /// A decoded key is not exactly 32 bytes.
    InvalidKeyLength,
    /// A mnemonic does not have the required word count.
    InvalidMnemonicLength,
    /// A mnemonic word is outside the known vocabulary.
    InvalidWordsInMnemonic,
    /// The checksum embedded in a mnemonic does not match its payload.
    InvalidChecksum,
    /// The signer is not a member of the declared policy, or there is no
    /// existing multisig to append to.
    InvalidSecretKeyInMultisig,
    /// The policy-derived address does not match the transaction's sender.
    InvalidSenderInMultisig,
    /// Fewer than two transactions were passed to a merge.
    InsufficientTransactions,
    /// Merge inputs have differing subsignature counts.
    InvalidNumberOfSubsignatures,
    /// Merge inputs disagree on member identity at some slot.
    InvalidPublicKeyInMultisig,
    /// Merge inputs hold two different non-empty signatures for one slot.
    MismatchingSignatures,
}

impl CryptoError {
    /// Lift a codec error into the flat account-layer taxonomy.
    pub fn into_algorand_error(self) -> (r: AlgorandError)
        ensures
            r == self.as_algorand_error(),
    {
        match self {
            CryptoError::InvalidKeyLength => AlgorandError::InvalidKeyLength,
            CryptoError::InvalidMnemonicLength => AlgorandError::InvalidMnemonicLength,
            CryptoError::InvalidWordsInMnemonic => AlgorandError::InvalidWordsInMnemonic,
            CryptoError::InvalidChecksum => AlgorandError::InvalidChecksum,
        }
    }

    /// The account-layer error that stands for this codec error.
    pub open spec fn as_algorand_error(self) -> AlgorandError {
        match self {
            CryptoError::InvalidKeyLength => AlgorandError::InvalidKeyLength,
            CryptoError::InvalidMnemonicLength => AlgorandError::InvalidMnemonicLength,
            CryptoError::InvalidWordsInMnemonic => AlgorandError::InvalidWordsInMnemonic,
            CryptoError::InvalidChecksum => AlgorandError::InvalidChecksum,
        }
    }
}

} // verus!

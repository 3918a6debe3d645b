//! The failures a wallet operation can end in.
use vstd::prelude::*;

verus! {

/// Why an input could not be signed.
#[derive(Clone, Copy, Debug, PartialEq, Eq, Structural)]
pub enum SigningFailure {
    /// No secret key is registered for the input's internal key.
    MissingKeyMaterial,
    /// The input's internal key has no recorded derivation origin.
    MissingKeyOrigin,
    /// No signature hash is defined for the input.
    NoSighash,
    /// The input carries no signature.
    Unsigned,
    /// The transaction to sign already carries an unlocking script or a
    /// witness.
    AlreadySigned,
    /// The signature that was drawn is not valid for its hash under the key
    /// it was made with.
    InvalidSignature,
}

/// The failures of the wallet. No operation recovers from one locally: each
/// aborts the command that met it.
#[derive(Clone, Copy, Debug, PartialEq, Eq, Structural)]
pub enum WalletError {
    /// The store holds more than one seed.
    Integrity,
    /// A seed, a child index or a derivation path is malformed, or a key could
    /// not be derived from them.
    Derivation,
    /// The store could not be reached.
    Persistence,
    /// The selected outputs do not cover the amount and the fee.
    InsufficientFunds,
    /// An input could not be signed.
    Signing(SigningFailure),
    /// The finalised transaction fails the check of one of its inputs.
    Verification,
    /// The chain backend failed.
    ChainService,
    /// A text is no address of the wallet's network.
    InvalidAddress,
    /// The index of an unspent output does not fit in 32 bits: no transaction
    /// input can name the output.
    InvalidOutpoint,
}

impl WalletError {
    /// A short text for the operator.
    pub fn message(&self) -> (text: &'static str)
        ensures
            text@ == Self::message_of(*self),
    {
        match self {
            WalletError::Integrity => "More than one seed in database",
            WalletError::Derivation => "Key derivation failed",
            WalletError::Persistence => "Store unreachable",
            WalletError::InsufficientFunds => "Not enough funds",
            WalletError::Signing(SigningFailure::MissingKeyMaterial) => "Missing key material",
            WalletError::Signing(SigningFailure::MissingKeyOrigin) => "Missing taproot key origin",
            WalletError::Signing(SigningFailure::NoSighash) => "No signature hash for input",
            WalletError::Signing(SigningFailure::Unsigned) => "Input is not signed",
            WalletError::Signing(SigningFailure::AlreadySigned) => "Transaction is signed already",
            WalletError::Signing(SigningFailure::InvalidSignature) => "Signature is not valid",
            WalletError::Verification => "Failed to verify transaction",
            WalletError::ChainService => "Chain backend failure",
            WalletError::InvalidAddress => "Invalid address",
            WalletError::InvalidOutpoint => "Output index out of range",
        }
    }

    /// The text that [`WalletError::message`] gives for each failure.
    pub open spec fn message_of(e: WalletError) -> Seq<char> {
        match e {
            WalletError::Integrity => "More than one seed in database"@,
            WalletError::Derivation => "Key derivation failed"@,
            WalletError::Persistence => "Store unreachable"@,
            WalletError::InsufficientFunds => "Not enough funds"@,
            WalletError::Signing(SigningFailure::MissingKeyMaterial) => "Missing key material"@,
            WalletError::Signing(SigningFailure::MissingKeyOrigin) => "Missing taproot key origin"@,
            WalletError::Signing(SigningFailure::NoSighash) => "No signature hash for input"@,
            WalletError::Signing(SigningFailure::Unsigned) => "Input is not signed"@,
            WalletError::Signing(SigningFailure::AlreadySigned) => "Transaction is signed already"@,
            WalletError::Signing(SigningFailure::InvalidSignature) => "Signature is not valid"@,
            WalletError::Verification => "Failed to verify transaction"@,
            WalletError::ChainService => "Chain backend failure"@,
            WalletError::InvalidAddress => "Invalid address"@,
            WalletError::InvalidOutpoint => "Output index out of range"@,
        }
    }
}

} // verus!

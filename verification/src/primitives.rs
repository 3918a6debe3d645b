//! The calls into the Bitcoin and secp256k1 libraries.
//!
//! Nothing in this file is proved. Each function hands plain bytes to one
//! library routine, and the contract beside it says what the wallet takes that
//! routine to return. Where a routine's result is a function of its arguments
//! alone, that result has a name here, and the rest of the crate reasons about
//! the name.
use vstd::prelude::*;
use bitcoin::bip32::{ChildNumber, DerivationPath, ExtendedPrivKey, Fingerprint};
use bitcoin::key::TapTweak;
use bitcoin::sighash::{Prevouts, SighashCache, TapSighashType};
use bitcoin::{Amount, OutPoint, Script, ScriptBuf, Sequence, Witness};
use secp256k1_zkp::{KeyPair, Message, Secp256k1, XOnlyPublicKey};
use crate::text::four_bytes_of_hex;
use crate::types::{
    outputs_view, witnesses_fit, Network, Transaction, TransactionView, TxOut, TxOutView,
};

verus! {

/// The BIP-32 master key of `seed`, in its 78-byte binary encoding; `None`
/// where the seed yields no valid key.
pub uninterp spec fn master_key_of(network: Network, seed: Seq<u8>) -> Option<Seq<u8>>;

/// The key reached from the encoded extended private key `key` along `path`,
/// encoded as `key` is. A step with its top bit set is hardened. `None` where
/// `key` is no encoded key.
pub uninterp spec fn derived_key_of(key: Seq<u8>, path: Seq<u32>) -> Option<Seq<u8>>;

/// The fingerprint of the encoded extended private key `key`, as eight
/// hexadecimal digits; `None` where `key` is no encoded key.
pub uninterp spec fn fingerprint_of(key: Seq<u8>) -> Option<Seq<char>>;

/// The x-only public key of the secret key `secret`; `None` where `secret` is
/// no valid secret key.
pub uninterp spec fn x_only_public_key_of(secret: Seq<u8>) -> Option<Seq<u8>>;

/// The text of the Taproot address whose internal key is `key` and which
/// commits to no script; `None` where `key` is no x-only public key.
pub uninterp spec fn p2tr_address_of(network: Network, key: Seq<u8>) -> Option<Seq<char>>;

/// The locking script of the address written as `text`; `None` where `text`
/// is no address, or an address of another network than `network`.
pub uninterp spec fn script_pubkey_of(network: Network, text: Seq<char>) -> Option<Seq<u8>>;

/// The steps of the derivation path written as `text`, a hardened step with
/// its top bit set; `None` where `text` is no path.
pub uninterp spec fn derivation_path_of(text: Seq<char>) -> Option<Seq<u32>>;

/// The consensus encoding of a transaction.
pub uninterp spec fn serialized(tx: TransactionView) -> Seq<u8>;

/// The BIP-341 key-spend signature hash of input `index` of the encoded
/// transaction `tx`, for the spent outputs `prevouts` and the signature-hash
/// type `hash_ty`; `None` where `tx` is no transaction, `hash_ty` is no type,
/// or the hash is not defined for them.
pub uninterp spec fn key_spend_sighash_of(
    tx: Seq<u8>,
    index: usize,
    prevouts: Seq<TxOutView>,
    hash_ty: u8,
) -> Option<Seq<u8>>;

/// The secret key `secret` after the Taproot key-path tweak with no script
/// tree; `None` where `secret` is no valid secret key.
pub uninterp spec fn tweaked_secret_of(secret: Seq<u8>) -> Option<Seq<u8>>;

/// Whether `signature` is a valid BIP-340 signature of `message` under the
/// x-only public key `key`.
pub uninterp spec fn schnorr_accepts(signature: Seq<u8>, message: Seq<u8>, key: Seq<u8>) -> bool;

/// Whether the consensus library accepts input `index` of the encoded
/// transaction `tx` as a spend of an output of `amount` locked by `script`.
pub uninterp spec fn consensus_accepts(
    script: Seq<u8>,
    index: usize,
    amount: u64,
    tx: Seq<u8>,
) -> bool;

/// Fills 32 bytes from `rand::thread_rng` with `rand::RngCore::fill_bytes`.
/// Nothing is claimed of the bytes.
#[verifier::external_body]
pub(crate) fn random_seed() -> (seed: [u8; 32]) {
    let mut seed = [0u8; 32];
    rand::RngCore::fill_bytes(&mut rand::thread_rng(), &mut seed);
    seed
}

/// Calls `bitcoin::bip32::ExtendedPrivKey::new_master` and encodes the key with
/// `ExtendedPrivKey::encode`. The contract claims that the result depends on
/// the network and the seed alone, and that a master key has depth zero, the
/// fifth byte of its encoding.
#[verifier::external_body]
pub(crate) fn master_key(network: Network, seed: &[u8]) -> (r: Option<[u8; 78]>)
    ensures
        match r {
            Some(k) => master_key_of(network, seed@) == Some(k@) && k@[4] == 0,
            None => master_key_of(network, seed@) is None,
        },
{
    let net = match network {
        Network::Bitcoin => bitcoin::Network::Bitcoin,
        Network::Testnet => bitcoin::Network::Testnet,
        Network::Signet => bitcoin::Network::Signet,
        Network::Regtest => bitcoin::Network::Regtest,
    };
    ExtendedPrivKey::new_master(net, seed).ok().map(|k| k.encode())
}

/// Decodes `key` with `ExtendedPrivKey::decode`, calls
/// `ExtendedPrivKey::derive_priv` with `path` and encodes the child. The
/// contract claims that the result depends on the key and the path alone, and
/// that the child's depth is the parent's plus the number of steps. The depth
/// is one byte: the caller keeps it in range. The library aborts where a step
/// meets a hash that is no scalar, which no known input does.
#[verifier::external_body]
pub(crate) fn derive_child_key(key: &[u8; 78], path: &Vec<u32>) -> (r: Option<[u8; 78]>)
    requires
        key@[4] + path@.len() <= 255,
    ensures
        match r {
            Some(c) => derived_key_of(key@, path@) == Some(c@) && c@[4] == key@[4] + path@.len(),
            None => derived_key_of(key@, path@) is None,
        },
{
    let secp = Secp256k1::new();
    let steps: Vec<ChildNumber> = path.iter().map(|n| ChildNumber::from(*n)).collect();
    let parent = ExtendedPrivKey::decode(key).ok()?;
    parent.derive_priv(&secp, &steps).ok().map(|c| c.encode())
}

/// Decodes `key` with `ExtendedPrivKey::decode` and writes out what
/// `ExtendedPrivKey::fingerprint` returns. The contract claims that the text
/// depends on the key alone.
#[verifier::external_body]
pub(crate) fn key_fingerprint(key: &[u8; 78]) -> (r: Option<String>)
    ensures
        match r {
            Some(t) => fingerprint_of(key@) == Some(t@),
            None => fingerprint_of(key@) is None,
        },
{
    let secp = Secp256k1::new();
    ExtendedPrivKey::decode(key).ok().map(|k| k.fingerprint(&secp).to_string())
}

/// Builds a key pair with `secp256k1::KeyPair::from_seckey_slice` and
/// serialises what `KeyPair::x_only_public_key` returns. The contract claims
/// that the result depends on the secret key alone.
#[verifier::external_body]
pub(crate) fn x_only_public_key(secret: &[u8; 32]) -> (r: Option<[u8; 32]>)
    ensures
        match r {
            Some(k) => x_only_public_key_of(secret@) == Some(k@),
            None => x_only_public_key_of(secret@) is None,
        },
{
    let secp = Secp256k1::new();
    KeyPair::from_seckey_slice(&secp, secret).ok().map(|p| p.x_only_public_key().0.serialize())
}

/// Parses `key` with `secp256k1::XOnlyPublicKey::from_slice` and writes out
/// the address that `bitcoin::Address::p2tr` makes of it with no script tree.
/// The contract claims that the text depends on the network and the key alone.
/// The library aborts where the tweak of the key is no scalar, which no known
/// input does.
#[verifier::external_body]
pub(crate) fn p2tr_address(network: Network, key: &[u8; 32]) -> (r: Option<String>)
    ensures
        match r {
            Some(t) => p2tr_address_of(network, key@) == Some(t@),
            None => p2tr_address_of(network, key@) is None,
        },
{
    let net = match network {
        Network::Bitcoin => bitcoin::Network::Bitcoin,
        Network::Testnet => bitcoin::Network::Testnet,
        Network::Signet => bitcoin::Network::Signet,
        Network::Regtest => bitcoin::Network::Regtest,
    };
    let secp = Secp256k1::new();
    let key = XOnlyPublicKey::from_slice(key).ok()?;
    Some(bitcoin::Address::p2tr(&secp, key, None, net).to_string())
}

/// Parses `text` as a `bitcoin::Address`, checks it with
/// `Address::require_network` and returns the bytes of
/// `Address::script_pubkey`. The contract claims that the script depends on the
/// network and the text alone.
#[verifier::external_body]
pub(crate) fn address_script(network: Network, text: &str) -> (r: Option<Vec<u8>>)
    ensures
        match r {
            Some(s) => script_pubkey_of(network, text@) == Some(s@),
            None => script_pubkey_of(network, text@) is None,
        },
{
    let net = match network {
        Network::Bitcoin => bitcoin::Network::Bitcoin,
        Network::Testnet => bitcoin::Network::Testnet,
        Network::Signet => bitcoin::Network::Signet,
        Network::Regtest => bitcoin::Network::Regtest,
    };
    let parsed = text.parse::<bitcoin::Address<bitcoin::address::NetworkUnchecked>>().ok()?;
    parsed.require_network(net).ok().map(|a| a.script_pubkey().into_bytes())
}

/// Parses `text` with the `FromStr` of `bitcoin::bip32::Fingerprint`, which
/// reads hexadecimal digits of either case, two for each byte. The contract
/// claims that there is a result exactly for a text of eight such digits,
/// and that it is the four bytes they write.
#[verifier::external_body]
pub(crate) fn parse_fingerprint(text: &str) -> (r: Option<[u8; 4]>)
    ensures
        match r {
            Some(b) => four_bytes_of_hex(text@) == Some(b@),
            None => four_bytes_of_hex(text@) is None,
        },
{
    text.parse::<Fingerprint>().ok().map(|f| f.to_bytes())
}

/// Parses `text` with the `FromStr` of `bitcoin::bip32::DerivationPath` and
/// gives each step as the number that `u32::from` makes of it. The contract
/// claims that the steps depend on the text alone.
#[verifier::external_body]
pub(crate) fn parse_derivation_path(text: &str) -> (r: Option<Vec<u32>>)
    ensures
        match r {
            Some(p) => derivation_path_of(text@) == Some(p@),
            None => derivation_path_of(text@) is None,
        },
{
    text.parse::<DerivationPath>().ok().map(|p| p.into_iter().map(|c| u32::from(*c)).collect())
}

/// Builds a `bitcoin::Transaction` of the same fields and encodes it with
/// `bitcoin::consensus::serialize`. The contract claims that the bytes depend
/// on the transaction's fields alone. `bitcoin::Witness::from_slice` notes
/// where each item starts in 32 bits and aborts where that does not fit: the
/// caller keeps each witness small enough.
#[verifier::external_body]
pub(crate) fn serialize_transaction(tx: &Transaction) -> (r: Vec<u8>)
    requires
        witnesses_fit(tx@),
    ensures
        r@ == serialized(tx@),
{
    let input = tx.input.iter().map(|i| bitcoin::TxIn {
        previous_output: OutPoint::new(bitcoin::hashes::Hash::from_byte_array(i.txid), i.vout),
        script_sig: ScriptBuf::from_bytes(i.script_sig.clone()),
        sequence: Sequence(i.sequence),
        witness: Witness::from_slice(&i.witness),
    }).collect();
    let output = tx.output.iter().map(|o| bitcoin::TxOut {
        value: o.value,
        script_pubkey: ScriptBuf::from_bytes(o.script_pubkey.clone()),
    }).collect();
    let lock_time = bitcoin::absolute::LockTime::from_consensus(tx.lock_time);
    bitcoin::consensus::serialize(&bitcoin::Transaction { version: tx.version, lock_time, input, output })
}

/// Decodes `tx` with `bitcoin::consensus::deserialize` and calls
/// `SighashCache::taproot_key_spend_signature_hash` with all of `prevouts`
/// and the type that `TapSighashType::from_consensus_u8` makes of `hash_ty`.
/// The contract claims that the hash depends on these four values alone.
#[verifier::external_body]
pub(crate) fn key_spend_sighash(
    tx: &Vec<u8>,
    index: usize,
    prevouts: &Vec<TxOut>,
    hash_ty: u8,
) -> (r: Option<[u8; 32]>)
    ensures
        match r {
            Some(h) => key_spend_sighash_of(tx@, index, outputs_view(prevouts@), hash_ty) == Some(h@),
            None => key_spend_sighash_of(tx@, index, outputs_view(prevouts@), hash_ty) is None,
        },
{
    let tx: bitcoin::Transaction = bitcoin::consensus::deserialize(tx).ok()?;
    let spent: Vec<bitcoin::TxOut> = prevouts.iter().map(|o| bitcoin::TxOut {
        value: o.value,
        script_pubkey: ScriptBuf::from_bytes(o.script_pubkey.clone()),
    }).collect();
    let ty = TapSighashType::from_consensus_u8(hash_ty).ok()?;
    let hash = SighashCache::new(&tx).taproot_key_spend_signature_hash(index, &Prevouts::All(&spent), ty);
    hash.ok().map(|h| bitcoin::hashes::Hash::to_byte_array(h))
}

/// Builds a key pair with `KeyPair::from_seckey_slice`, tweaks it with
/// `bitcoin::key::TapTweak::tap_tweak` and no script tree, and returns the
/// secret bytes of the tweaked pair. The contract claims that the result
/// depends on the secret key alone, that it is there exactly for a valid
/// secret key, and that it is a valid secret key itself. The library aborts
/// where the tweak is no scalar, which no known input does.
#[verifier::external_body]
pub(crate) fn tap_tweak_secret(secret: &[u8; 32]) -> (r: Option<[u8; 32]>)
    ensures
        r is Some <==> x_only_public_key_of(secret@) is Some,
        match r {
            Some(t) => tweaked_secret_of(secret@) == Some(t@) && x_only_public_key_of(t@) is Some,
            None => tweaked_secret_of(secret@) is None,
        },
{
    let secp = Secp256k1::new();
    let pair = KeyPair::from_seckey_slice(&secp, secret).ok()?;
    Some(pair.tap_tweak(&secp, None).to_inner().secret_bytes())
}

/// Signs `message` with `Secp256k1::sign_schnorr` under the key pair that
/// `KeyPair::from_seckey_slice` makes of `secret`. The signature is drawn with
/// fresh randomness: the contract claims only that there is one exactly for a
/// valid secret key.
#[verifier::external_body]
pub(crate) fn sign_schnorr(secret: &[u8; 32], message: &[u8; 32]) -> (r: Option<[u8; 64]>)
    ensures
        r is Some <==> x_only_public_key_of(secret@) is Some,
{
    let secp = Secp256k1::new();
    let pair = KeyPair::from_seckey_slice(&secp, secret).ok()?;
    let message = Message::from_slice(message).ok()?;
    Some(*secp.sign_schnorr(&message, &pair).as_ref())
}

/// Parses the three values and calls `Secp256k1::verify_schnorr`; `false`
/// where one of them does not parse. The contract claims that the answer
/// depends on the three values alone.
#[verifier::external_body]
pub(crate) fn verify_schnorr(signature: &[u8; 64], message: &[u8; 32], key: &[u8; 32]) -> (r: bool)
    ensures
        r == schnorr_accepts(signature@, message@, key@),
{
    let secp = Secp256k1::new();
    let parsed = (
        secp256k1_zkp::schnorr::Signature::from_slice(signature),
        Message::from_slice(message),
        XOnlyPublicKey::from_slice(key),
    );
    match parsed {
        (Ok(s), Ok(m), Ok(k)) => secp.verify_schnorr(&s, &m, &k).is_ok(),
        _ => false,
    }
}

/// Calls `bitcoin::Script::verify`, which hands the script, the amount and the
/// encoded transaction to the consensus library. The contract claims that the
/// answer depends on the four values alone. The consensus library evaluates
/// witness version 0 and the scripts before it; a later witness version it
/// accepts as it stands.
#[verifier::external_body]
pub(crate) fn consensus_verify(script: &Vec<u8>, index: usize, amount: u64, tx: &Vec<u8>) -> (r: bool)
    ensures
        r == consensus_accepts(script@, index, amount, tx@),
{
    Script::from_bytes(script).verify(index, Amount::from_sat(amount), tx).is_ok()
}

} // verus!

//! Signing: the context that the signer needs of each input, and the Taproot
//! key-path signature that it leaves there.
use vstd::prelude::*;
use crate::bytes::same_bytes;
use crate::error::{SigningFailure, WalletError};
use crate::primitives::{
    derivation_path_of, key_spend_sighash, key_spend_sighash_of, parse_derivation_path,
    parse_fingerprint, schnorr_accepts, serialize_transaction, serialized, sign_schnorr,
    tap_tweak_secret, tweaked_secret_of, verify_schnorr, x_only_public_key,
    x_only_public_key_of,
};
use crate::text::four_bytes_of_hex;
use crate::types::{
    is_unsigned, lemma_unsigned_fits, outputs_view, Transaction, TransactionView, TxOut,
    TxOutView,
};
use crate::wallet::{claimed_output, infos_view, AddressInfo, AddressInfoView};

verus! {

/// The signature-hash type that stands for "all", written out or not.
pub const SIGHASH_DEFAULT: u8 = 0;

/// The signature-hash type that commits to all inputs and all outputs.
pub const SIGHASH_ALL: u8 = 1;

/// Where a key comes from: the fingerprint of the master key and the path
/// from it, a hardened step with its top bit set.
#[derive(Debug)]
pub struct KeyOrigin {
    pub xonly_public_key: [u8; 32],
    pub fingerprint: [u8; 4],
    pub path: Vec<u32>,
}

/// What a [`KeyOrigin`] holds, as mathematical values.
pub struct KeyOriginView {
    pub xonly_public_key: Seq<u8>,
    pub fingerprint: Seq<u8>,
    pub path: Seq<u32>,
}

impl View for KeyOrigin {
    type V = KeyOriginView;

    open spec fn view(&self) -> KeyOriginView {
        KeyOriginView {
            xonly_public_key: self.xonly_public_key@,
            fingerprint: self.fingerprint@,
            path: self.path@,
        }
    }
}

impl Clone for KeyOrigin {
    fn clone(&self) -> (r: Self)
        ensures
            r@ == self@,
    {
        KeyOrigin {
            xonly_public_key: self.xonly_public_key,
            fingerprint: self.fingerprint,
            path: self.path.clone(),
        }
    }
}

/// A Taproot signature: the 64 bytes of the Schnorr signature and the
/// signature-hash type it was made for.
#[derive(Clone, Copy, Debug)]
pub struct TapSignature {
    pub sig: [u8; 64],
    pub hash_ty: u8,
}

/// What signing needs of one input, and, once the input is signed, its
/// signature.
#[derive(Debug)]
pub struct SigningContext {
    /// The output that the input claims to spend.
    pub witness_utxo: TxOut,
    /// The signer's internal key.
    pub tap_internal_key: [u8; 32],
    /// The origins of the keys of the transaction.
    pub tap_key_origins: Vec<KeyOrigin>,
    /// The signature-hash type asked for.
    pub sighash_type: Option<u32>,
    /// The key-path signature.
    pub tap_key_sig: Option<TapSignature>,
}

/// What a [`SigningContext`] holds, as mathematical values.
pub struct SigningContextView {
    pub witness_utxo: TxOutView,
    pub tap_internal_key: Seq<u8>,
    pub tap_key_origins: Seq<KeyOriginView>,
    pub sighash_type: Option<u32>,
    pub tap_key_sig: Option<TapSignature>,
}

impl View for SigningContext {
    type V = SigningContextView;

    open spec fn view(&self) -> SigningContextView {
        SigningContextView {
            witness_utxo: self.witness_utxo@,
            tap_internal_key: self.tap_internal_key@,
            tap_key_origins: origins_view(self.tap_key_origins@),
            sighash_type: self.sighash_type,
            tap_key_sig: self.tap_key_sig,
        }
    }
}

/// A transaction on its way to being signed: the unsigned transaction and
/// one context for each of its inputs.
#[derive(Debug)]
pub struct Psbt {
    pub unsigned_tx: Transaction,
    pub inputs: Vec<SigningContext>,
}

/// What a [`Psbt`] holds, as mathematical values.
pub struct PsbtView {
    pub unsigned_tx: TransactionView,
    pub inputs: Seq<SigningContextView>,
}

impl View for Psbt {
    type V = PsbtView;

    open spec fn view(&self) -> PsbtView {
        PsbtView { unsigned_tx: self.unsigned_tx@, inputs: contexts_view(self.inputs@) }
    }
}

/// The secret keys that one signing run may use, each under its x-only
/// public key. The table lives for one run and is dropped with it.
#[derive(Debug)]
pub struct SecretKeys {
    /// Public key and secret key, in the order they were put in. Of two
    /// entries with one public key the later one counts.
    pub entries: Vec<([u8; 32], [u8; 32])>,
}

impl View for SecretKeys {
    type V = Map<Seq<u8>, Seq<u8>>;

    open spec fn view(&self) -> Map<Seq<u8>, Seq<u8>> {
        keys_map(self.entries@)
    }
}

/// The origins of `s`, each by its view.
pub open spec fn origins_view(s: Seq<KeyOrigin>) -> Seq<KeyOriginView> {
    s.map_values(|origin: KeyOrigin| origin@)
}

/// The contexts of `s`, each by its view.
pub open spec fn contexts_view(s: Seq<SigningContext>) -> Seq<SigningContextView> {
    s.map_values(|context: SigningContext| context@)
}

/// The map that a list of entries stands for: a later entry replaces an
/// earlier one with the same public key.
pub open spec fn keys_map(entries: Seq<([u8; 32], [u8; 32])>) -> Map<Seq<u8>, Seq<u8>>
    decreases entries.len(),
{
    if entries.len() == 0 {
        Map::empty()
    } else {
        keys_map(entries.drop_last()).insert(entries.last().0@, entries.last().1@)
    }
}

/// The secret keys of `infos`, each under its public key.
pub open spec fn secret_keys_of(infos: Seq<AddressInfoView>) -> Map<Seq<u8>, Seq<u8>>
    decreases infos.len(),
{
    if infos.len() == 0 {
        Map::empty()
    } else {
        secret_keys_of(infos.drop_last()).insert(
            infos.last().xonly_public_key,
            infos.last().secret_key,
        )
    }
}

/// The origin of the key of `info`; `None` where its fingerprint or its path
/// is malformed.
pub open spec fn origin_of(info: AddressInfoView) -> Option<KeyOriginView> {
    match (four_bytes_of_hex(info.fingerprint), derivation_path_of(info.derivation_path)) {
        (Some(fingerprint), Some(path)) => Some(
            KeyOriginView { xonly_public_key: info.xonly_public_key, fingerprint, path },
        ),
        _ => None,
    }
}

/// Whether each of `infos` has an origin.
pub open spec fn have_origins(infos: Seq<AddressInfoView>) -> bool {
    forall|i: int| 0 <= i < infos.len() ==> origin_of(#[trigger] infos[i]) is Some
}

/// The origins of the keys of `infos`, in their order.
pub open spec fn origins_of(infos: Seq<AddressInfoView>) -> Seq<KeyOriginView> {
    infos.map_values(|info: AddressInfoView| origin_of(info)->0)
}

/// Whether `origins` records an origin for `key`.
pub open spec fn has_origin(origins: Seq<KeyOriginView>, key: Seq<u8>) -> bool {
    exists|i: int| 0 <= i < origins.len() && (#[trigger] origins[i]).xonly_public_key == key
}

/// The context of the input that spends `info`, before it is signed: the
/// claimed output, the internal key, the origins of all keys, and the policy
/// to sign all inputs and all outputs.
pub open spec fn attached_context(
    info: AddressInfoView,
    origins: Seq<KeyOriginView>,
) -> SigningContextView {
    SigningContextView {
        witness_utxo: claimed_output(info),
        tap_internal_key: info.xonly_public_key,
        tap_key_origins: origins,
        sighash_type: Some(SIGHASH_ALL as u32),
        tap_key_sig: None,
    }
}

/// The contexts of the inputs that spend `infos`.
pub open spec fn attached_contexts(infos: Seq<AddressInfoView>) -> Seq<SigningContextView> {
    infos.map_values(|info: AddressInfoView| attached_context(info, origins_of(infos)))
}

/// Whether `ty` is a Taproot signature-hash type.
pub open spec fn is_tap_sighash_type(ty: u32) -> bool {
    ty == 0x00 || ty == 0x01 || ty == 0x02 || ty == 0x03 || ty == 0x81 || ty == 0x82 || ty == 0x83
}

/// The signature-hash type that an input is signed with: the one asked for
/// where that is a Taproot type, and "all" otherwise.
pub open spec fn hash_type_of(sighash_type: Option<u32>) -> u8 {
    match sighash_type {
        Some(ty) => if is_tap_sighash_type(ty) {
            ty as u8
        } else {
            SIGHASH_ALL
        },
        None => SIGHASH_ALL,
    }
}

/// The outputs that the inputs of `contexts` claim to spend.
pub open spec fn prevouts_of(contexts: Seq<SigningContextView>) -> Seq<TxOutView> {
    contexts.map_values(|context: SigningContextView| context.witness_utxo)
}

/// Why input `index` cannot be signed, if it cannot: no signature hash is
/// defined for it; or its internal key has no recorded origin; or no secret
/// key is there for its internal key, or none that is valid.
pub open spec fn signing_failure(
    tx: Seq<u8>,
    prevouts: Seq<TxOutView>,
    index: usize,
    context: SigningContextView,
    keys: Map<Seq<u8>, Seq<u8>>,
) -> Option<SigningFailure> {
    if key_spend_sighash_of(tx, index, prevouts, hash_type_of(context.sighash_type)) is None {
        Some(SigningFailure::NoSighash)
    } else if !has_origin(context.tap_key_origins, context.tap_internal_key) {
        Some(SigningFailure::MissingKeyOrigin)
    } else if !keys.contains_key(context.tap_internal_key) || x_only_public_key_of(
        keys[context.tap_internal_key],
    ) is None {
        Some(SigningFailure::MissingKeyMaterial)
    } else {
        None
    }
}

/// Why the first `count` inputs cannot all be signed, if they cannot: the
/// failure of the first input that has one.
pub open spec fn first_signing_failure(
    tx: Seq<u8>,
    contexts: Seq<SigningContextView>,
    keys: Map<Seq<u8>, Seq<u8>>,
    count: int,
) -> Option<SigningFailure>
    decreases count,
{
    if count <= 0 {
        None
    } else {
        match first_signing_failure(tx, contexts, keys, count - 1) {
            Some(failure) => Some(failure),
            None => signing_failure(
                tx,
                prevouts_of(contexts),
                (count - 1) as usize,
                contexts[count - 1],
                keys,
            ),
        }
    }
}

/// Whether `after` is `before` with a signature for the type that `before`
/// asks for, and no other change.
pub open spec fn signed_from(before: SigningContextView, after: SigningContextView) -> bool {
    &&& after.tap_key_sig matches Some(signature)
    &&& signature.hash_ty == hash_type_of(before.sighash_type)
    &&& after == SigningContextView { tap_key_sig: after.tap_key_sig, ..before }
}

/// The public key that a key-path signature made with `secret` is checked
/// under: the x-only public key of the secret key after the Taproot tweak.
pub open spec fn signing_key_of(secret: Seq<u8>) -> Option<Seq<u8>> {
    match tweaked_secret_of(secret) {
        Some(tweaked) => x_only_public_key_of(tweaked),
        None => None,
    }
}

/// Whether `signature` is a valid key-path signature of `hash` for the secret
/// key `secret`: a valid Schnorr signature of `hash` under the public key of
/// the tweaked secret key.
pub open spec fn is_key_path_signature(
    secret: Seq<u8>,
    hash: Seq<u8>,
    signature: TapSignature,
) -> bool {
    signing_key_of(secret) matches Some(key) && schnorr_accepts(signature.sig@, hash, key)
}

/// Whether a signature was rejected as a key-path signature of `hash` for the
/// secret key `secret`: there is one that is no valid Schnorr signature of
/// `hash` under the public key of the tweaked secret key.
pub open spec fn a_signature_fails(secret: Seq<u8>, hash: Seq<u8>) -> bool {
    match signing_key_of(secret) {
        Some(key) => exists|sig: Seq<u8>| !(#[trigger] schnorr_accepts(sig, hash, key)),
        None => false,
    }
}

/// Whether signing gets as far as input `index` and a signature is rejected
/// there: every input up to and with `index` can be signed, and a signature
/// was rejected for the signature hash and the secret key of input `index`.
pub open spec fn rejected_at(
    tx: Seq<u8>,
    contexts: Seq<SigningContextView>,
    keys: Map<Seq<u8>, Seq<u8>>,
    index: int,
) -> bool {
    &&& first_signing_failure(tx, contexts, keys, index + 1) is None
    &&& key_spend_sighash_of(
        tx,
        index as usize,
        prevouts_of(contexts),
        hash_type_of(contexts[index].sighash_type),
    ) matches Some(hash)
    &&& a_signature_fails(keys[contexts[index].tap_internal_key], hash)
}

/// Whether `after` is `before` signed as input `index` of the encoded
/// transaction `tx`: with a signature, of the type that `before` asks for,
/// that is a valid key-path signature of the input's signature hash over
/// `tx` and all of `prevouts`, for the secret key that `keys` holds under
/// the internal key.
pub open spec fn input_is_signed(
    tx: Seq<u8>,
    prevouts: Seq<TxOutView>,
    index: usize,
    before: SigningContextView,
    keys: Map<Seq<u8>, Seq<u8>>,
    after: SigningContextView,
) -> bool {
    &&& signed_from(before, after)
    &&& keys.contains_key(before.tap_internal_key)
    &&& key_spend_sighash_of(tx, index, prevouts, hash_type_of(before.sighash_type)) matches Some(
        hash,
    )
    &&& is_key_path_signature(keys[before.tap_internal_key], hash, after.tap_key_sig->0)
}

impl SecretKeys {
    /// A table with no key.
    pub fn new() -> (keys: SecretKeys)
        ensures
            keys@ == Map::<Seq<u8>, Seq<u8>>::empty(),
    {
        SecretKeys { entries: Vec::new() }
    }

    /// Puts `secret_key` in the table under `xonly_public_key`, in place of
    /// what was there.
    pub fn insert(&mut self, xonly_public_key: [u8; 32], secret_key: [u8; 32])
        ensures
            final(self)@ == old(self)@.insert(xonly_public_key@, secret_key@),
    {
        self.entries.push((xonly_public_key, secret_key));
        assert(final(self).entries@.drop_last() =~= old(self).entries@);
    }

    /// The secret key that the table holds under `xonly_public_key`.
    pub fn get(&self, xonly_public_key: &[u8; 32]) -> (r: Option<[u8; 32]>)
        ensures
            match r {
                Some(secret) => self@.contains_key(xonly_public_key@) && self@[xonly_public_key@]
                    == secret@,
                None => !self@.contains_key(xonly_public_key@),
            },
    {
        let mut found: Option<[u8; 32]> = None;
        let mut i: usize = 0;
        while i < self.entries.len()
            invariant
                i <= self.entries@.len(),
                match found {
                    Some(secret) => keys_map(self.entries@.take(i as int)).contains_key(
                        xonly_public_key@,
                    ) && keys_map(self.entries@.take(i as int))[xonly_public_key@] == secret@,
                    None => !keys_map(self.entries@.take(i as int)).contains_key(
                        xonly_public_key@,
                    ),
                },
            decreases self.entries@.len() - i,
        {
            assert(self.entries@.take(i + 1).drop_last() =~= self.entries@.take(i as int));
            if same_bytes(self.entries[i].0.as_slice(), xonly_public_key.as_slice()) {
                found = Some(self.entries[i].1);
            }
            i += 1;
        }
        assert(self.entries@.take(i as int) =~= self.entries@);
        found
    }
}

/// The secret keys of `inputs_info`, each under its public key.
pub fn collect_secret_keys(inputs_info: &Vec<AddressInfo>) -> (keys: SecretKeys)
    ensures
        keys@ == secret_keys_of(infos_view(inputs_info@)),
{
    let mut keys = SecretKeys::new();
    let mut i: usize = 0;
    while i < inputs_info.len()
        invariant
            i <= inputs_info@.len(),
            keys@ == secret_keys_of(infos_view(inputs_info@).take(i as int)),
        decreases inputs_info@.len() - i,
    {
        let ghost infos = infos_view(inputs_info@);
        assert(infos.take(i + 1).drop_last() =~= infos.take(i as int));
        keys.insert(inputs_info[i].xonly_public_key, inputs_info[i].secret_key);
        i += 1;
    }
    assert(infos_view(inputs_info@).take(i as int) =~= infos_view(inputs_info@));
    keys
}

/// The origins of the keys of `inputs_info`, in their order.
///
/// Fails with `Derivation` where a fingerprint or a path is malformed.
pub fn key_origins(inputs_info: &Vec<AddressInfo>) -> (r: Result<Vec<KeyOrigin>, WalletError>)
    ensures
        match r {
            Ok(origins) => have_origins(infos_view(inputs_info@)) && origins_view(origins@)
                == origins_of(infos_view(inputs_info@)),
            Err(e) => e == WalletError::Derivation && !have_origins(infos_view(inputs_info@)),
        },
{
    let ghost infos = infos_view(inputs_info@);
    let mut origins: Vec<KeyOrigin> = Vec::new();
    let mut i: usize = 0;
    while i < inputs_info.len()
        invariant
            i <= inputs_info@.len(),
            infos == infos_view(inputs_info@),
            origins@.len() == i,
            forall|j: int| 0 <= j < i ==> origin_of(#[trigger] infos[j]) == Some(origins@[j]@),
        decreases inputs_info@.len() - i,
    {
        let info = &inputs_info[i];
        assert(infos[i as int] == info@);
        let fingerprint = match parse_fingerprint(info.fingerprint.as_str()) {
            Some(bytes) => bytes,
            None => { return Err(WalletError::Derivation); },
        };
        let path = match parse_derivation_path(info.derivation_path.as_str()) {
            Some(steps) => steps,
            None => { return Err(WalletError::Derivation); },
        };
        origins.push(KeyOrigin { xonly_public_key: info.xonly_public_key, fingerprint, path });
        i += 1;
    }
    Ok(origins)
}

/// A copy of `origins`.
pub fn clone_origins(origins: &Vec<KeyOrigin>) -> (r: Vec<KeyOrigin>)
    ensures
        origins_view(r@) == origins_view(origins@),
{
    let mut r: Vec<KeyOrigin> = Vec::new();
    let mut i: usize = 0;
    while i < origins.len()
        invariant
            i <= origins@.len(),
            r@.len() == i,
            forall|j: int| 0 <= j < i ==> r@[j]@ == origins@[j]@,
        decreases origins@.len() - i,
    {
        r.push(origins[i].clone());
        i += 1;
    }
    r
}

/// Whether `tx` carries nothing that unlocks its inputs.
pub fn carries_no_signature(tx: &Transaction) -> (r: bool)
    ensures
        r == is_unsigned(tx@),
{
    let mut i: usize = 0;
    while i < tx.input.len()
        invariant
            i <= tx.input@.len(),
            forall|j: int|
                0 <= j < i ==> (#[trigger] tx@.input[j]).script_sig.len() == 0
                    && tx@.input[j].witness.len() == 0,
        decreases tx.input@.len() - i,
    {
        assert(tx@.input[i as int] == tx.input@[i as int]@);
        if tx.input[i].script_sig.len() != 0 || tx.input[i].witness.len() != 0 {
            return false;
        }
        i += 1;
    }
    true
}

/// Attaches to the unsigned transaction `tx` what signing needs of each
/// input that spends one of `inputs_info`: the output it claims to spend, its
/// internal key, the origins of the keys, and the policy to sign all inputs
/// and all outputs.
///
/// Fails with `AlreadySigned` where `tx` carries an unlocking script or a
/// witness; else with `Derivation` where a fingerprint or a path is
/// malformed.
pub fn attach_signing_context(tx: Transaction, inputs_info: &Vec<AddressInfo>) -> (r: Result<
    Psbt,
    WalletError,
>)
    ensures
        match r {
            Ok(psbt) => {
                &&& is_unsigned(tx@)
                &&& have_origins(infos_view(inputs_info@))
                &&& psbt@.unsigned_tx == tx@
                &&& psbt@.inputs == attached_contexts(infos_view(inputs_info@))
            },
            Err(e) => if is_unsigned(tx@) {
                e == WalletError::Derivation && !have_origins(infos_view(inputs_info@))
            } else {
                e == WalletError::Signing(SigningFailure::AlreadySigned)
            },
        },
{
    if !carries_no_signature(&tx) {
        return Err(WalletError::Signing(SigningFailure::AlreadySigned));
    }
    let ghost infos = infos_view(inputs_info@);
    let origins = match key_origins(inputs_info) {
        Ok(origins) => origins,
        Err(e) => { return Err(e); },
    };
    let mut inputs: Vec<SigningContext> = Vec::new();
    let mut i: usize = 0;
    while i < inputs_info.len()
        invariant
            i <= inputs_info@.len(),
            infos == infos_view(inputs_info@),
            origins_view(origins@) == origins_of(infos),
            inputs@.len() == i,
            forall|j: int|
                0 <= j < i ==> (#[trigger] inputs@[j])@ == attached_context(
                    infos[j],
                    origins_of(infos),
                ),
        decreases inputs_info@.len() - i,
    {
        let info = &inputs_info[i];
        let context = SigningContext {
            witness_utxo: TxOut {
                value: info.value,
                script_pubkey: info.address.script_pubkey.clone(),
            },
            tap_internal_key: info.xonly_public_key,
            tap_key_origins: clone_origins(&origins),
            sighash_type: Some(SIGHASH_ALL as u32),
            tap_key_sig: None,
        };
        inputs.push(context);
        i += 1;
    }
    Ok(Psbt { unsigned_tx: tx, inputs })
}

/// The signature-hash type that an input is signed with.
pub fn hash_type(sighash_type: Option<u32>) -> (ty: u8)
    ensures
        ty == hash_type_of(sighash_type),
{
    match sighash_type {
        Some(ty) => {
            if ty == 0x00 || ty == 0x01 || ty == 0x02 || ty == 0x03 || ty == 0x81 || ty == 0x82
                || ty == 0x83 {
                ty as u8
            } else {
                SIGHASH_ALL
            }
        },
        None => SIGHASH_ALL,
    }
}

/// Whether `origins` records an origin for `key`.
pub fn knows_origin(origins: &Vec<KeyOrigin>, key: &[u8; 32]) -> (r: bool)
    ensures
        r == has_origin(origins_view(origins@), key@),
{
    let mut i: usize = 0;
    while i < origins.len()
        invariant
            i <= origins@.len(),
            forall|j: int|
                0 <= j < i ==> (#[trigger] origins_view(origins@)[j]).xonly_public_key != key@,
        decreases origins@.len() - i,
    {
        if same_bytes(origins[i].xonly_public_key.as_slice(), key.as_slice()) {
            assert(origins_view(origins@)[i as int].xonly_public_key == key@);
            return true;
        }
        i += 1;
    }
    false
}

/// Takes `sig` as the signature of an input, where it is a valid signature of
/// `hash` under `key`: leaves it, with its type, in `psbt_input`.
///
/// Fails with `InvalidSignature` where it is not, and then leaves
/// `psbt_input` as it was.
pub fn accept_signature(
    psbt_input: &mut SigningContext,
    sig: [u8; 64],
    hash_ty: u8,
    hash: &[u8; 32],
    key: &[u8; 32],
) -> (r: Result<(), WalletError>)
    ensures
        match r {
            Ok(_) => {
                &&& schnorr_accepts(sig@, hash@, key@)
                &&& final(psbt_input).tap_key_sig == Some(TapSignature { sig, hash_ty })
                &&& final(psbt_input)@ == SigningContextView {
                    tap_key_sig: final(psbt_input).tap_key_sig,
                    ..old(psbt_input)@
                }
            },
            Err(e) => {
                &&& e == WalletError::Signing(SigningFailure::InvalidSignature)
                &&& !schnorr_accepts(sig@, hash@, key@)
                &&& *final(psbt_input) == *old(psbt_input)
            },
        },
{
    if !verify_schnorr(&sig, hash, key) {
        return Err(WalletError::Signing(SigningFailure::InvalidSignature));
    }
    psbt_input.tap_key_sig = Some(TapSignature { sig, hash_ty });
    Ok(())
}

/// Signs `hash` for the key path: tweaks `secret_key` as a key that commits to
/// no script tree, signs `hash` with the tweaked key, checks the signature
/// under the public key of the tweaked key, and leaves it, with its type, in
/// `psbt_input`.
///
/// Fails with `MissingKeyMaterial` where `secret_key` is no valid secret key,
/// and with `InvalidSignature` where the signature that was drawn does not
/// pass the check; either way `psbt_input` stays as it was.
pub fn sign_psbt_taproot(
    secret_key: &[u8; 32],
    psbt_input: &mut SigningContext,
    hash: &[u8; 32],
    hash_ty: u8,
) -> (r: Result<(), WalletError>)
    ensures
        match r {
            Ok(_) => {
                &&& x_only_public_key_of(secret_key@) is Some
                &&& final(psbt_input).tap_key_sig matches Some(signature)
                &&& signature.hash_ty == hash_ty
                &&& is_key_path_signature(secret_key@, hash@, signature)
                &&& final(psbt_input)@ == SigningContextView {
                    tap_key_sig: final(psbt_input).tap_key_sig,
                    ..old(psbt_input)@
                }
            },
            Err(e) => {
                &&& *final(psbt_input) == *old(psbt_input)
                &&& if x_only_public_key_of(secret_key@) is None {
                    e == WalletError::Signing(SigningFailure::MissingKeyMaterial)
                } else {
                    &&& e == WalletError::Signing(SigningFailure::InvalidSignature)
                    &&& a_signature_fails(secret_key@, hash@)
                }
            },
        },
{
    let tweaked = match tap_tweak_secret(secret_key) {
        Some(tweaked) => tweaked,
        None => { return Err(WalletError::Signing(SigningFailure::MissingKeyMaterial)); },
    };
    let key = match x_only_public_key(&tweaked) {
        Some(key) => key,
        None => { return Err(WalletError::Signing(SigningFailure::MissingKeyMaterial)); },
    };
    let sig = match sign_schnorr(&tweaked, hash) {
        Some(sig) => sig,
        None => { return Err(WalletError::Signing(SigningFailure::MissingKeyMaterial)); },
    };
    let accepted = accept_signature(psbt_input, sig, hash_ty, hash, &key);
    proof {
        if accepted is Err {
            // The signature that was drawn is one that the check rejects.
            let public = signing_key_of(secret_key@)->0;
            assert(!schnorr_accepts(sig@, hash@, public));
        }
    }
    accepted
}

/// Signs input `index` of the encoded transaction `tx`: computes the input's
/// key-path signature hash over the whole transaction and all of `prevouts`,
/// looks up the origin and the secret key of its internal key, and signs.
///
/// Fails with the input's [`signing_failure`], and with `InvalidSignature`
/// where the signature that was drawn does not pass its check; either way
/// `context` stays as it was.
pub fn sign_input(
    tx: &Vec<u8>,
    prevouts: &Vec<TxOut>,
    index: usize,
    context: &mut SigningContext,
    keys: &SecretKeys,
) -> (r: Result<(), WalletError>)
    ensures
        match signing_failure(tx@, outputs_view(prevouts@), index, old(context)@, keys@) {
            Some(failure) => r == Err::<(), WalletError>(WalletError::Signing(failure))
                && *final(context) == *old(context),
            None => match r {
                Ok(_) => input_is_signed(
                    tx@,
                    outputs_view(prevouts@),
                    index,
                    old(context)@,
                    keys@,
                    final(context)@,
                ),
                Err(e) => {
                    &&& e == WalletError::Signing(SigningFailure::InvalidSignature)
                    &&& *final(context) == *old(context)
                    &&& key_spend_sighash_of(
                        tx@,
                        index,
                        outputs_view(prevouts@),
                        hash_type_of(old(context)@.sighash_type),
                    ) matches Some(hash)
                    &&& a_signature_fails(keys@[old(context)@.tap_internal_key], hash)
                },
            },
        },
{
    let hash_ty = hash_type(context.sighash_type);
    let hash = match key_spend_sighash(tx, index, prevouts, hash_ty) {
        Some(hash) => hash,
        None => { return Err(WalletError::Signing(SigningFailure::NoSighash)); },
    };
    if !knows_origin(&context.tap_key_origins, &context.tap_internal_key) {
        return Err(WalletError::Signing(SigningFailure::MissingKeyOrigin));
    }
    let secret_key = match keys.get(&context.tap_internal_key) {
        Some(secret_key) => secret_key,
        None => { return Err(WalletError::Signing(SigningFailure::MissingKeyMaterial)); },
    };
    sign_psbt_taproot(&secret_key, context, &hash, hash_ty)
}

/// The outputs that the inputs of `inputs` claim to spend.
pub fn context_prevouts(inputs: &Vec<SigningContext>) -> (prevouts: Vec<TxOut>)
    ensures
        outputs_view(prevouts@) == prevouts_of(contexts_view(inputs@)),
{
    let mut prevouts: Vec<TxOut> = Vec::new();
    let mut i: usize = 0;
    while i < inputs.len()
        invariant
            i <= inputs@.len(),
            prevouts@.len() == i,
            forall|j: int| 0 <= j < i ==> prevouts@[j]@ == inputs@[j]@.witness_utxo,
        decreases inputs@.len() - i,
    {
        prevouts.push(inputs[i].witness_utxo.clone());
        i += 1;
    }
    prevouts
}

/// Whether `signed` is `psbt` with every input signed: the same unsigned
/// transaction, and each context signed over it and the claimed outputs of
/// all inputs.
pub open spec fn is_signed_form(
    psbt: PsbtView,
    keys: Map<Seq<u8>, Seq<u8>>,
    signed: PsbtView,
) -> bool {
    &&& signed.unsigned_tx == psbt.unsigned_tx
    &&& signed.inputs.len() == psbt.inputs.len()
    &&& forall|i: int|
        0 <= i < psbt.inputs.len() ==> input_is_signed(
            serialized(psbt.unsigned_tx),
            prevouts_of(psbt.inputs),
            i as usize,
            psbt.inputs[i],
            keys,
            #[trigger] signed.inputs[i],
        )
}

/// Signs every input of `psbt`, in the order of the inputs, each over the
/// whole transaction and the claimed outputs of all inputs.
///
/// Fails with `AlreadySigned` where the transaction of `psbt` carries an
/// unlocking script or a witness. Else it fails with the failure of the
/// first input that cannot be signed, or, where an input before that draws a
/// signature that does not pass its check, with `InvalidSignature`. A `psbt`
/// without inputs is signed as it stands.
pub fn sign_psbt(psbt: Psbt, keys: &SecretKeys) -> (r: Result<Psbt, WalletError>)
    ensures
        ({
            let failure = first_signing_failure(
                serialized(psbt@.unsigned_tx),
                psbt@.inputs,
                keys@,
                psbt@.inputs.len() as int,
            );
            if !is_unsigned(psbt@.unsigned_tx) {
                r == Err::<Psbt, WalletError>(
                    WalletError::Signing(SigningFailure::AlreadySigned),
                )
            } else {
                match r {
                    Ok(signed) => failure is None && is_signed_form(psbt@, keys@, signed@),
                    Err(e) => (failure matches Some(f) && e == WalletError::Signing(f)) || (e
                        == WalletError::Signing(SigningFailure::InvalidSignature)
                        && exists|i: int|
                        0 <= i < psbt@.inputs.len() && #[trigger] rejected_at(
                            serialized(psbt@.unsigned_tx),
                            psbt@.inputs,
                            keys@,
                            i,
                        )),
                }
            }
        }),
        is_unsigned(psbt@.unsigned_tx) && psbt@.inputs.len() == 0 ==> r is Ok,
        is_unsigned(psbt@.unsigned_tx) && psbt@.inputs.len() > 0 ==> match signing_failure(
            serialized(psbt@.unsigned_tx),
            prevouts_of(psbt@.inputs),
            0,
            psbt@.inputs[0],
            keys@,
        ) {
            Some(f) => r == Err::<Psbt, WalletError>(WalletError::Signing(f)),
            None => true,
        },
{
    if !carries_no_signature(&psbt.unsigned_tx) {
        return Err(WalletError::Signing(SigningFailure::AlreadySigned));
    }
    let ghost before = psbt@.inputs;
    let ghost encoded = serialized(psbt@.unsigned_tx);
    proof {
        lemma_unsigned_fits(psbt@.unsigned_tx);
    }
    let tx = serialize_transaction(&psbt.unsigned_tx);
    let prevouts = context_prevouts(&psbt.inputs);
    let unsigned_tx = psbt.unsigned_tx;
    let mut rest = psbt.inputs;
    let mut inputs: Vec<SigningContext> = Vec::new();
    while rest.len() > 0
        invariant
            is_unsigned(psbt@.unsigned_tx),
            before == psbt@.inputs,
            encoded == serialized(psbt@.unsigned_tx),
            unsigned_tx@ == psbt@.unsigned_tx,
            tx@ == encoded,
            outputs_view(prevouts@) == prevouts_of(before),
            inputs@.len() + rest@.len() == before.len(),
            contexts_view(rest@) == before.skip(inputs@.len() as int),
            first_signing_failure(encoded, before, keys@, inputs@.len() as int) is None,
            forall|i: int|
                0 <= i < inputs@.len() ==> input_is_signed(
                    encoded,
                    prevouts_of(before),
                    i as usize,
                    before[i],
                    keys@,
                    (#[trigger] inputs@[i])@,
                ),
        decreases rest@.len(),
    {
        let ghost done = inputs@.len() as int;
        let ghost waiting = rest@;
        let mut context = rest.remove(0);
        proof {
            assert(before.skip(done)[0] == before[done]);
            assert forall|j: int| 0 <= j < rest@.len() implies contexts_view(rest@)[j]
                == before.skip(done + 1)[j] by {
                assert(contexts_view(waiting)[j + 1] == before.skip(done)[j + 1]);
            }
            assert(first_signing_failure(encoded, before, keys@, done + 1) == signing_failure(
                encoded,
                prevouts_of(before),
                done as usize,
                before[done],
                keys@,
            ));
        }
        match sign_input(&tx, &prevouts, inputs.len(), &mut context, keys) {
            Ok(_) => inputs.push(context),
            Err(e) => {
                proof {
                    if first_signing_failure(encoded, before, keys@, done + 1) is Some {
                        lemma_failure_stays(encoded, before, keys@, done + 1, before.len() as int);
                    } else {
                        assert(rejected_at(encoded, before, keys@, done));
                    }
                    lemma_first_input_decides(encoded, before, keys@, done + 1);
                }
                return Err(e);
            },
        }
    }
    proof {
        if before.len() > 0 {
            lemma_first_input_decides(encoded, before, keys@, before.len() as int);
        }
    }
    Ok(Psbt { unsigned_tx, inputs })
}

/// What stops the first input stops every run that goes beyond it.
pub proof fn lemma_first_input_decides(
    tx: Seq<u8>,
    contexts: Seq<SigningContextView>,
    keys: Map<Seq<u8>, Seq<u8>>,
    count: int,
)
    requires
        count >= 1,
    ensures
        signing_failure(tx, prevouts_of(contexts), 0, contexts[0], keys) is Some
            ==> first_signing_failure(tx, contexts, keys, count) == signing_failure(
            tx,
            prevouts_of(contexts),
            0,
            contexts[0],
            keys,
        ),
{
    assert(first_signing_failure(tx, contexts, keys, 0) is None);
    assert(first_signing_failure(tx, contexts, keys, 1) == signing_failure(
        tx,
        prevouts_of(contexts),
        0,
        contexts[0],
        keys,
    ));
    if first_signing_failure(tx, contexts, keys, 1) is Some {
        lemma_failure_stays(tx, contexts, keys, 1, count);
    }
}

/// A failure among the first inputs is the failure of any longer run.
pub proof fn lemma_failure_stays(
    tx: Seq<u8>,
    contexts: Seq<SigningContextView>,
    keys: Map<Seq<u8>, Seq<u8>>,
    count: int,
    longer: int,
)
    requires
        count <= longer,
        first_signing_failure(tx, contexts, keys, count) is Some,
    ensures
        first_signing_failure(tx, contexts, keys, longer) == first_signing_failure(
            tx,
            contexts,
            keys,
            count,
        ),
    decreases longer - count,
{
    if count < longer {
        lemma_failure_stays(tx, contexts, keys, count, longer - 1);
    }
}

} // verus!

//! The wallet's view of its addresses and of what can be spent from them.
use vstd::prelude::*;
use crate::addresses::{KeyRecordView, WalletStore};
use crate::error::{SigningFailure, WalletError};
use crate::finalizer::{
    all_signed, finalize_psbt, finalized, input_verifies, is_p2tr,
    lemma_final_fits, lemma_final_input_stands_on_its_signature, output_key, verifies,
    verify_transaction,
};
use crate::signing::{
    attach_signing_context, attached_contexts, collect_secret_keys, first_signing_failure,
    have_origins, input_is_signed, is_signed_form, prevouts_of, rejected_at, secret_keys_of,
    sign_psbt, signing_failure,
    signing_key_of, PsbtView, TapSignature, SIGHASH_ALL,
};
use crate::primitives::{
    address_script, consensus_accepts, key_spend_sighash_of, schnorr_accepts, script_pubkey_of,
    serialized,
};
use crate::types::{
    clone_outputs, lemma_unsigned_is_own_form, outputs_view, unsigned_form, Address, AddressView,
    Network, Transaction, TransactionView, TxIn, TxInView, TxOut, TxOutView,
};

verus! {

/// An unspent output as the chain backend reports it for one address.
#[derive(Clone, Copy, Debug)]
pub struct Utxo {
    /// Confirmation height of the transaction that created this output.
    pub height: usize,
    /// Id of the transaction.
    pub tx_hash: [u8; 32],
    /// Index of the output in the transaction.
    pub tx_pos: usize,
    /// Value of the output.
    pub value: u64,
}

/// An unspent output together with what is needed to spend it: the address
/// that holds it, the address's keys and where they come from.
#[derive(Debug)]
pub struct AddressInfo {
    pub address: Address,
    pub secret_key: [u8; 32],
    pub xonly_public_key: [u8; 32],
    pub fingerprint: String,
    pub derivation_path: String,
    /// Confirmation height of the transaction that created this output.
    pub height: usize,
    /// Id of the transaction.
    pub tx_hash: [u8; 32],
    /// Index of the output in the transaction.
    pub tx_pos: usize,
    /// Value of the output.
    pub value: u64,
}

/// What an [`AddressInfo`] holds, as mathematical values.
pub struct AddressInfoView {
    pub address: AddressView,
    pub secret_key: Seq<u8>,
    pub xonly_public_key: Seq<u8>,
    pub fingerprint: Seq<char>,
    pub derivation_path: Seq<char>,
    pub height: usize,
    pub tx_hash: Seq<u8>,
    pub tx_pos: usize,
    pub value: u64,
}

impl View for AddressInfo {
    type V = AddressInfoView;

    open spec fn view(&self) -> AddressInfoView {
        AddressInfoView {
            address: self.address@,
            secret_key: self.secret_key@,
            xonly_public_key: self.xonly_public_key@,
            fingerprint: self.fingerprint@,
            derivation_path: self.derivation_path@,
            height: self.height,
            tx_hash: self.tx_hash@,
            tx_pos: self.tx_pos,
            value: self.value,
        }
    }
}

/// The items of `s`, each by its view.
pub open spec fn infos_view(s: Seq<AddressInfo>) -> Seq<AddressInfoView> {
    s.map_values(|info: AddressInfo| info@)
}

/// The version of the transactions that the wallet builds.
pub const TX_VERSION: i32 = 2;

/// The sequence number of every input: relative lock times are off.
pub const SEQUENCE_FINAL: u32 = 0xffff_ffff;

/// The address written as `text`, where it is one of `network`.
pub open spec fn parsed_address(network: Network, text: Seq<char>) -> Option<AddressView> {
    match script_pubkey_of(network, text) {
        Some(script) => Some(AddressView { text, script_pubkey: script }),
        None => None,
    }
}

/// What is listed of one record: its address, its fingerprint, its path, its
/// public key and its secret key.
pub open spec fn listed(
    network: Network,
    record: KeyRecordView,
    entry: (Address, String, String, [u8; 32], [u8; 32]),
) -> bool {
    &&& parsed_address(network, record.address) == Some(entry.0@)
    &&& entry.1@ == record.fingerprint
    &&& entry.2@ == record.derivation_path
    &&& entry.3@ == record.public_key
    &&& entry.4@ == record.secret_key
}

/// The spendable output that `utxo` is for the address of `entry`.
pub open spec fn unspent_of(
    entry: (Address, String, String, [u8; 32], [u8; 32]),
    utxo: Utxo,
) -> AddressInfoView {
    AddressInfoView {
        address: entry.0@,
        secret_key: entry.4@,
        xonly_public_key: entry.3@,
        fingerprint: entry.1@,
        derivation_path: entry.2@,
        height: utxo.height,
        tx_hash: utxo.tx_hash@,
        tx_pos: utxo.tx_pos,
        value: utxo.value,
    }
}

/// The output that spending `info` claims to spend: its value, locked by the
/// script of its address.
pub open spec fn claimed_output(info: AddressInfoView) -> TxOutView {
    TxOutView { value: info.value, script_pubkey: info.address.script_pubkey }
}

/// The outputs that spending `infos` claims to spend, in their order.
pub open spec fn claimed_outputs(infos: Seq<AddressInfoView>) -> Seq<TxOutView> {
    infos.map_values(|info: AddressInfoView| claimed_output(info))
}

/// Whether the index of every output of `infos` fits in 32 bits, as the
/// index of an outpoint must.
pub open spec fn outpoints_fit(infos: Seq<AddressInfoView>) -> bool {
    forall|i: int| 0 <= i < infos.len() ==> (#[trigger] infos[i]).tx_pos <= u32::MAX
}

/// The input that spends `info`, before it is signed: no unlocking script,
/// no witness, relative lock times off. It names the output of `info` where
/// the index of that output fits in 32 bits.
pub open spec fn unsigned_input(info: AddressInfoView) -> TxInView {
    TxInView {
        txid: info.tx_hash,
        vout: info.tx_pos as u32,
        script_sig: Seq::empty(),
        sequence: SEQUENCE_FINAL,
        witness: Seq::empty(),
    }
}

/// The unsigned transaction that spends `infos` to `outputs`: one input for
/// each of `infos`, the outputs as they are and in their order, version 2,
/// lock time zero.
pub open spec fn unsigned_tx(
    infos: Seq<AddressInfoView>,
    outputs: Seq<TxOutView>,
) -> TransactionView {
    TransactionView {
        version: TX_VERSION,
        lock_time: 0,
        input: infos.map_values(|info: AddressInfoView| unsigned_input(info)),
        output: outputs,
    }
}

/// The address written as `text`.
///
/// Fails with `InvalidAddress` where `text` is no address of `network`.
pub fn parse_address(network: Network, text: &str) -> (r: Result<Address, WalletError>)
    ensures
        match r {
            Ok(address) => parsed_address(network, text@) == Some(address@),
            Err(e) => e == WalletError::InvalidAddress && parsed_address(network, text@) is None,
        },
{
    match address_script(network, text) {
        Some(script_pubkey) => Ok(Address { text: text.to_owned(), script_pubkey }),
        None => Err(WalletError::InvalidAddress),
    }
}

/// The addresses of all records, in storage order.
///
/// Fails with `InvalidAddress` where a stored text is no address of
/// `network`.
pub fn get_all_addresses(store: &WalletStore, network: Network) -> (r: Result<
    Vec<Address>,
    WalletError,
>)
    ensures
        match r {
            Ok(addresses) => {
                &&& addresses@.len() == store@.records.len()
                &&& forall|i: int|
                    0 <= i < addresses@.len() ==> parsed_address(
                        network,
                        store@.records[i].address,
                    ) == Some(#[trigger] addresses@[i]@)
            },
            Err(e) => {
                &&& e == WalletError::InvalidAddress
                &&& exists|i: int|
                    0 <= i < store@.records.len() && parsed_address(
                        network,
                        (#[trigger] store@.records[i]).address,
                    ) is None
            },
        },
{
    let mut addresses: Vec<Address> = Vec::new();
    let mut i: usize = 0;
    while i < store.records.len()
        invariant
            i <= store.records@.len(),
            addresses@.len() == i,
            forall|j: int|
                0 <= j < i ==> parsed_address(network, store@.records[j].address) == Some(
                    #[trigger] addresses@[j]@,
                ),
        decreases store.records@.len() - i,
    {
        let record = &store.records[i];
        assert(store@.records[i as int] == record@);
        match parse_address(network, record.address.as_str()) {
            Ok(address) => addresses.push(address),
            Err(e) => { return Err(e); },
        }
        i += 1;
    }
    Ok(addresses)
}

/// What is needed to spend from each record, in storage order: the address,
/// the fingerprint, the derivation path, the public key and the secret key.
///
/// Fails with `InvalidAddress` where a stored text is no address of
/// `network`.
pub fn get_all_addresses_info(store: &WalletStore, network: Network) -> (r: Result<
    Vec<(Address, String, String, [u8; 32], [u8; 32])>,
    WalletError,
>)
    ensures
        match r {
            Ok(entries) => {
                &&& entries@.len() == store@.records.len()
                &&& forall|i: int|
                    0 <= i < entries@.len() ==> listed(
                        network,
                        store@.records[i],
                        #[trigger] entries@[i],
                    )
            },
            Err(e) => {
                &&& e == WalletError::InvalidAddress
                &&& exists|i: int|
                    0 <= i < store@.records.len() && parsed_address(
                        network,
                        (#[trigger] store@.records[i]).address,
                    ) is None
            },
        },
{
    let mut entries: Vec<(Address, String, String, [u8; 32], [u8; 32])> = Vec::new();
    let mut i: usize = 0;
    while i < store.records.len()
        invariant
            i <= store.records@.len(),
            entries@.len() == i,
            forall|j: int|
                0 <= j < i ==> listed(network, store@.records[j], #[trigger] entries@[j]),
        decreases store.records@.len() - i,
    {
        let record = &store.records[i];
        assert(store@.records[i as int] == record@);
        let address = match parse_address(network, record.address.as_str()) {
            Ok(address) => address,
            Err(e) => { return Err(e); },
        };
        entries.push(
            (
                address,
                record.fingerprint.clone(),
                record.derivation_path.clone(),
                record.public_key,
                record.secret_key,
            ),
        );
        i += 1;
    }
    Ok(entries)
}

/// Adds to `list` the unspent outputs that the backend reported for the
/// address of `entry`, in the order it reported them.
pub fn list_unspent(
    list: &mut Vec<AddressInfo>,
    entry: &(Address, String, String, [u8; 32], [u8; 32]),
    utxos: &Vec<Utxo>,
)
    ensures
        final(list)@.len() == old(list)@.len() + utxos@.len(),
        forall|i: int| 0 <= i < old(list)@.len() ==> final(list)@[i] == old(list)@[i],
        forall|i: int|
            0 <= i < utxos@.len() ==> (#[trigger] final(list)@[old(list)@.len() + i])@
                == unspent_of(*entry, utxos@[i]),
{
    let mut i: usize = 0;
    while i < utxos.len()
        invariant
            i <= utxos@.len(),
            list@.len() == old(list)@.len() + i,
            forall|j: int| 0 <= j < old(list)@.len() ==> list@[j] == old(list)@[j],
            forall|j: int|
                0 <= j < i ==> (#[trigger] list@[old(list)@.len() + j])@ == unspent_of(
                    *entry,
                    utxos@[j],
                ),
        decreases utxos@.len() - i,
    {
        let utxo = &utxos[i];
        list.push(
            AddressInfo {
                address: entry.0.clone(),
                secret_key: entry.4,
                xonly_public_key: entry.3,
                fingerprint: entry.1.clone(),
                derivation_path: entry.2.clone(),
                height: utxo.height,
                tx_hash: utxo.tx_hash,
                tx_pos: utxo.tx_pos,
                value: utxo.value,
            },
        );
        i += 1;
    }
}

/// The outputs that spending `inputs_info` claims to spend.
pub fn claimed_prevouts(inputs_info: &Vec<AddressInfo>) -> (prevouts: Vec<TxOut>)
    ensures
        outputs_view(prevouts@) == claimed_outputs(infos_view(inputs_info@)),
{
    let mut prevouts: Vec<TxOut> = Vec::new();
    let mut i: usize = 0;
    while i < inputs_info.len()
        invariant
            i <= inputs_info@.len(),
            prevouts@.len() == i,
            forall|j: int| 0 <= j < i ==> prevouts@[j]@ == claimed_output(inputs_info@[j]@),
        decreases inputs_info@.len() - i,
    {
        let info = &inputs_info[i];
        prevouts.push(TxOut { value: info.value, script_pubkey: info.address.script_pubkey.clone() });
        i += 1;
    }
    prevouts
}

/// The unsigned transaction that spends `inputs_info` to `outputs`.
///
/// Fails with `InvalidOutpoint` where the index of an output does not fit in
/// 32 bits.
pub fn build_unsigned_tx(inputs_info: &Vec<AddressInfo>, outputs: &Vec<TxOut>) -> (r: Result<
    Transaction,
    WalletError,
>)
    ensures
        match r {
            Ok(tx) => outpoints_fit(infos_view(inputs_info@)) && tx@ == unsigned_tx(
                infos_view(inputs_info@),
                outputs_view(outputs@),
            ),
            Err(e) => e == WalletError::InvalidOutpoint && !outpoints_fit(infos_view(inputs_info@)),
        },
{
    let ghost infos = infos_view(inputs_info@);
    let mut tx_inputs: Vec<TxIn> = Vec::new();
    let mut i: usize = 0;
    while i < inputs_info.len()
        invariant
            i <= inputs_info@.len(),
            infos == infos_view(inputs_info@),
            tx_inputs@.len() == i,
            forall|j: int| 0 <= j < i ==> (#[trigger] infos[j]).tx_pos <= u32::MAX,
            forall|j: int| 0 <= j < i ==> tx_inputs@[j]@ == unsigned_input(inputs_info@[j]@),
        decreases inputs_info@.len() - i,
    {
        let info = &inputs_info[i];
        assert(infos[i as int] == info@);
        if info.tx_pos > 0xffff_ffff {
            return Err(WalletError::InvalidOutpoint);
        }
        let input = TxIn {
            txid: info.tx_hash,
            vout: info.tx_pos as u32,
            script_sig: Vec::new(),
            sequence: SEQUENCE_FINAL,
            witness: Vec::new(),
        };
        assert(input@.witness =~= Seq::<Seq<u8>>::empty());
        tx_inputs.push(input);
        i += 1;
    }
    let tx = Transaction {
        version: TX_VERSION,
        lock_time: 0,
        input: tx_inputs,
        output: clone_outputs(outputs),
    };
    assert(tx@.input =~= unsigned_tx(infos, outputs_view(outputs@)).input);
    Ok(tx)
}

/// The spend of `infos` to `outputs` as it stands before signing: the
/// unsigned transaction and the context of each input.
pub open spec fn attached_spend(infos: Seq<AddressInfoView>, outputs: Seq<TxOutView>) -> PsbtView {
    PsbtView { unsigned_tx: unsigned_tx(infos, outputs), inputs: attached_contexts(infos) }
}

/// Why the inputs that spend `infos` to `outputs` cannot all be signed, if
/// they cannot.
pub open spec fn spend_signing_failure(
    infos: Seq<AddressInfoView>,
    outputs: Seq<TxOutView>,
) -> Option<SigningFailure> {
    first_signing_failure(
        serialized(unsigned_tx(infos, outputs)),
        attached_contexts(infos),
        secret_keys_of(infos),
        infos.len() as int,
    )
}

/// Why the first input of the spend of `infos` to `outputs` cannot be signed,
/// if it cannot. Nothing is drawn before this is known.
pub open spec fn first_input_failure(
    infos: Seq<AddressInfoView>,
    outputs: Seq<TxOutView>,
) -> Option<SigningFailure> {
    signing_failure(
        serialized(unsigned_tx(infos, outputs)),
        prevouts_of(attached_contexts(infos)),
        0,
        attached_contexts(infos)[0],
        secret_keys_of(infos),
    )
}

/// Whether `signed` is what signing leaves of the spend of `infos` to
/// `outputs`: the unsigned transaction, and for each input its context with
/// a signature, of the type "all", that is a valid key-path signature of the
/// input's signature hash over the unsigned transaction and all claimed
/// outputs, for the secret key that `infos` holds under the input's key.
pub open spec fn is_signed_spend(
    signed: PsbtView,
    infos: Seq<AddressInfoView>,
    outputs: Seq<TxOutView>,
) -> bool {
    is_signed_form(attached_spend(infos, outputs), secret_keys_of(infos), signed)
}

/// The public key that input `index` of a spend of `infos` is signed under:
/// that of the secret key that `infos` holds under the input's key, after
/// the Taproot tweak.
pub open spec fn signing_key_at(infos: Seq<AddressInfoView>, index: int) -> Option<Seq<u8>> {
    signing_key_of(secret_keys_of(infos)[infos[index].xonly_public_key])
}

/// Whether nothing outside the wallet stands against input `index` of the
/// signed spend: the consensus library accepts the input in the final
/// transaction, and the output that the input claims, where it pays to a
/// Taproot key, pays to the key that the input is signed under.
pub open spec fn input_is_well_keyed(
    signed: PsbtView,
    infos: Seq<AddressInfoView>,
    index: int,
) -> bool {
    let spent = claimed_output(infos[index]);
    &&& consensus_accepts(
        spent.script_pubkey,
        index as usize,
        spent.value,
        serialized(finalized(signed)),
    )
    &&& is_p2tr(spent.script_pubkey) ==> signing_key_at(infos, index) == Some(
        output_key(spent.script_pubkey),
    )
}

/// Whether `tx` is a signed key-path spend of `infos` to `outputs`: the
/// unsigned transaction, with one witness item for each input, a signature
/// of 64 bytes with the type "all" behind it.
pub open spec fn is_key_path_spend(
    tx: TransactionView,
    infos: Seq<AddressInfoView>,
    outputs: Seq<TxOutView>,
) -> bool {
    &&& tx.version == TX_VERSION
    &&& tx.lock_time == 0
    &&& tx.output == outputs
    &&& tx.input.len() == infos.len()
    &&& forall|i: int|
        0 <= i < infos.len() ==> {
            let input = #[trigger] tx.input[i];
            &&& input.witness.len() == 1
            &&& input.witness[0].len() == 65
            &&& input.witness[0][64] == SIGHASH_ALL
            &&& input == TxInView { witness: input.witness, ..unsigned_input(infos[i]) }
        }
}

/// Whether `tx` is what spending `infos` to `outputs` gives where it
/// succeeds: the final form of the validly signed spend, which passes the
/// check of every input against the outputs that `infos` claims.
pub open spec fn spend_succeeded(
    tx: TransactionView,
    infos: Seq<AddressInfoView>,
    outputs: Seq<TxOutView>,
) -> bool {
    &&& outpoints_fit(infos)
    &&& have_origins(infos)
    &&& spend_signing_failure(infos, outputs) is None
    &&& is_key_path_spend(tx, infos, outputs)
    &&& exists|signed: PsbtView| is_signed_spend(signed, infos, outputs) && tx == finalized(signed)
    &&& verifies(tx, claimed_outputs(infos))
}

/// Whether `e` is how spending `infos` to `outputs` fails where it does:
///
/// - with `InvalidOutpoint` where an output's index does not fit;
/// - else with `Derivation` where a key has no origin;
/// - else with the failure of the first input that cannot be signed, or,
///   where an input before that drew a signature that was rejected in its
///   check, with `InvalidSignature`;
/// - else, with every input validly signed, with `Verification`: for a
///   signed spend whose final form does not pass the check, which has an
///   input that the consensus library rejects or that claims a Taproot
///   output of another key than the one it is signed under.
pub open spec fn spend_failed(
    e: WalletError,
    infos: Seq<AddressInfoView>,
    outputs: Seq<TxOutView>,
) -> bool {
    match e {
        WalletError::InvalidOutpoint => !outpoints_fit(infos),
        WalletError::Derivation => outpoints_fit(infos) && !have_origins(infos),
        WalletError::Signing(failure) => {
            &&& outpoints_fit(infos)
            &&& have_origins(infos)
            &&& spend_signing_failure(infos, outputs) == Some(failure) || (failure
                == SigningFailure::InvalidSignature && exists|i: int|
                0 <= i < infos.len() && #[trigger] rejected_at(
                    serialized(unsigned_tx(infos, outputs)),
                    attached_contexts(infos),
                    secret_keys_of(infos),
                    i,
                ))
        },
        WalletError::Verification => {
            &&& outpoints_fit(infos)
            &&& have_origins(infos)
            &&& spend_signing_failure(infos, outputs) is None
            &&& exists|signed: PsbtView|
                {
                    &&& is_signed_spend(signed, infos, outputs)
                    &&& !verifies(finalized(signed), claimed_outputs(infos))
                    &&& exists|i: int|
                        0 <= i < infos.len() && !input_is_well_keyed(signed, infos, i)
                }
        },
        _ => false,
    }
}

/// Builds, signs, finalises and checks the transaction that spends
/// `inputs_info` to `outputs` by the Taproot key path.
///
/// The transaction has one input for each of `inputs_info` and the outputs as
/// given. Every input is signed over the whole transaction and the claimed
/// outputs of all inputs, with the secret key that `inputs_info` holds for its
/// public key, and each signature is checked as soon as it is drawn. The
/// signatures are drawn with fresh randomness, so that two runs differ in
/// their witnesses; whatever was drawn, a transaction is only returned where
/// every input passes the check against the output it claims.
///
/// Fails as [`spend_failed`] says. A spend of nothing has nothing to sign and
/// nothing to check, and succeeds.
pub fn generate_p2tr_key_spend_tx(inputs_info: &Vec<AddressInfo>, outputs: &Vec<TxOut>) -> (r:
    Result<Transaction, WalletError>)
    ensures
        match r {
            Ok(tx) => spend_succeeded(tx@, infos_view(inputs_info@), outputs_view(outputs@)),
            Err(e) => spend_failed(e, infos_view(inputs_info@), outputs_view(outputs@)),
        },
        inputs_info@.len() == 0 ==> r is Ok,
        ({
            let infos = infos_view(inputs_info@);
            let failure = first_input_failure(infos, outputs_view(outputs@));
            infos.len() > 0 && outpoints_fit(infos) && have_origins(infos) && failure is Some
                ==> r == Err::<Transaction, WalletError>(WalletError::Signing(failure->0))
        }),
{
    let ghost infos = infos_view(inputs_info@);
    let ghost outs = outputs_view(outputs@);
    let secret_keys = collect_secret_keys(inputs_info);
    let tx1 = match build_unsigned_tx(inputs_info, outputs) {
        Ok(tx) => tx,
        Err(e) => { return Err(e); },
    };
    proof {
        lemma_unsigned_tx_is_unsigned(infos, outs);
        lemma_unsigned_is_own_form(tx1@);
    }
    let psbt = match attach_signing_context(tx1, inputs_info) {
        Ok(psbt) => psbt,
        Err(e) => { return Err(e); },
    };
    assert(psbt@ == attached_spend(infos, outs));
    let signed = match sign_psbt(psbt, &secret_keys) {
        Ok(signed) => signed,
        Err(e) => { return Err(e); },
    };
    let ghost signed_spend = signed@;
    proof {
        assert(is_signed_spend(signed_spend, infos, outs));
        lemma_signed_spend_is_signed(infos, outs, signed_spend);
    }
    let tx = match finalize_psbt(signed) {
        Ok(tx) => tx,
        Err(e) => { return Err(e); },
    };
    let prevouts = claimed_prevouts(inputs_info);
    match verify_transaction(&tx, &prevouts) {
        Ok(_) => Ok(tx),
        Err(e) => {
            proof {
                if forall|i: int|
                    0 <= i < infos.len() ==> input_is_well_keyed(signed_spend, infos, i) {
                    lemma_well_keyed_spend_passes(infos, outs, signed_spend);
                }
            }
            Err(e)
        },
    }
}

/// Whether `signature` is valid for input `index` of the spend of `infos` to
/// `outputs` under `key`: a valid signature of the hash that signing takes,
/// the key-path signature hash of the input over the unsigned transaction
/// and all claimed outputs.
pub open spec fn signature_is_valid(
    infos: Seq<AddressInfoView>,
    outputs: Seq<TxOutView>,
    index: int,
    signature: TapSignature,
    key: Seq<u8>,
) -> bool {
    let hash = key_spend_sighash_of(
        serialized(unsigned_tx(infos, outputs)),
        index as usize,
        claimed_outputs(infos),
        SIGHASH_ALL,
    );
    hash is Some && schnorr_accepts(signature.sig@, hash->0, key)
}

/// The unsigned transaction carries nothing that unlocks its inputs.
pub proof fn lemma_unsigned_tx_is_unsigned(infos: Seq<AddressInfoView>, outputs: Seq<TxOutView>)
    ensures
        unsigned_form(unsigned_tx(infos, outputs)) == unsigned_tx(infos, outputs),
{
    assert(unsigned_form(unsigned_tx(infos, outputs)).input =~= unsigned_tx(infos, outputs).input);
}

/// In a signed spend every input carries a signature of the type "all" that
/// is valid, for the hash that signing takes, under the key that the input
/// is signed under.
pub proof fn lemma_signed_spend_is_signed(
    infos: Seq<AddressInfoView>,
    outputs: Seq<TxOutView>,
    signed: PsbtView,
)
    requires
        is_signed_spend(signed, infos, outputs),
    ensures
        all_signed(signed),
        forall|i: int|
            0 <= i < infos.len() ==> {
                let signature = (#[trigger] signed.inputs[i]).tap_key_sig->0;
                &&& signature.hash_ty == SIGHASH_ALL
                &&& signing_key_at(infos, i) is Some
                &&& signature_is_valid(infos, outputs, i, signature, signing_key_at(infos, i)->0)
            },
{
    let before = attached_spend(infos, outputs);
    assert(prevouts_of(before.inputs) =~= claimed_outputs(infos));
    assert forall|i: int| 0 <= i < infos.len() implies {
        let signature = (#[trigger] signed.inputs[i]).tap_key_sig->0;
        &&& signed.inputs[i].tap_key_sig is Some
        &&& signature.hash_ty == SIGHASH_ALL
        &&& signing_key_at(infos, i) is Some
        &&& signature_is_valid(infos, outputs, i, signature, signing_key_at(infos, i)->0)
    } by {
        assert(input_is_signed(
            serialized(before.unsigned_tx),
            prevouts_of(before.inputs),
            i as usize,
            before.inputs[i],
            secret_keys_of(infos),
            signed.inputs[i],
        ));
    }
}

/// From building to checking, a spend can only fail on what lies outside the
/// wallet. Once every input is signed, the final transaction passes the
/// check exactly where, for every input, the consensus library accepts the
/// spend and, for an output that pays to a Taproot key, the signature is
/// valid for the hash that was signed under the key that the output pays to.
/// Nothing that building, attaching or finalising does stands in the way.
pub proof fn lemma_round_trip_stands_on_signatures(
    infos: Seq<AddressInfoView>,
    outputs: Seq<TxOutView>,
    signed: PsbtView,
)
    requires
        is_signed_spend(signed, infos, outputs),
    ensures
        verifies(finalized(signed), claimed_outputs(infos)) <==> forall|i: int|
            #![trigger infos[i]]
            0 <= i < infos.len() ==> {
                let spent = claimed_output(infos[i]);
                &&& consensus_accepts(
                    spent.script_pubkey,
                    i as usize,
                    spent.value,
                    serialized(finalized(signed)),
                )
                &&& is_p2tr(spent.script_pubkey) ==> signature_is_valid(
                    infos,
                    outputs,
                    i,
                    signed.inputs[i].tap_key_sig->0,
                    output_key(spent.script_pubkey),
                )
            },
{
    let tx = finalized(signed);
    let claims = claimed_outputs(infos);
    lemma_unsigned_tx_is_unsigned(infos, outputs);
    lemma_signed_spend_is_signed(infos, outputs, signed);
    lemma_final_fits(signed);
    assert forall|i: int| 0 <= i < infos.len() implies (input_verifies(tx, claims, i) <==> {
        let spent = claimed_output(#[trigger] infos[i]);
        &&& consensus_accepts(spent.script_pubkey, i as usize, spent.value, serialized(tx))
        &&& is_p2tr(spent.script_pubkey) ==> signature_is_valid(
            infos,
            outputs,
            i,
            signed.inputs[i].tap_key_sig->0,
            output_key(spent.script_pubkey),
        )
    }) by {
        lemma_final_input_stands_on_its_signature(signed, claims, i);
    }
}

/// A spend of well-formed inputs passes the check once it is signed: where
/// the consensus library accepts every input of the final transaction, and
/// every claimed Taproot output pays to the key that its input is signed
/// under, the final form of the signed spend passes.
pub proof fn lemma_well_keyed_spend_passes(
    infos: Seq<AddressInfoView>,
    outputs: Seq<TxOutView>,
    signed: PsbtView,
)
    requires
        is_signed_spend(signed, infos, outputs),
        forall|i: int| 0 <= i < infos.len() ==> input_is_well_keyed(signed, infos, i),
    ensures
        verifies(finalized(signed), claimed_outputs(infos)),
{
    lemma_round_trip_stands_on_signatures(infos, outputs, signed);
    lemma_signed_spend_is_signed(infos, outputs, signed);
    assert forall|i: int| #![trigger infos[i]] 0 <= i < infos.len() implies {
        let spent = claimed_output(infos[i]);
        &&& consensus_accepts(
            spent.script_pubkey,
            i as usize,
            spent.value,
            serialized(finalized(signed)),
        )
        &&& is_p2tr(spent.script_pubkey) ==> signature_is_valid(
            infos,
            outputs,
            i,
            signed.inputs[i].tap_key_sig->0,
            output_key(spent.script_pubkey),
        )
    } by {
        assert(input_is_well_keyed(signed, infos, i));
        assert(signed.inputs[i].tap_key_sig is Some);
    }
}

} // verus!

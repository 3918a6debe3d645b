//! The last two steps before a transaction leaves the wallet: the signatures
//! become witnesses, and every input is checked against the output it claims
//! to spend.
use vstd::prelude::*;
use crate::bytes::{array32_at, first64, to_vec};
use crate::error::{SigningFailure, WalletError};
use crate::primitives::{
    consensus_accepts, consensus_verify, key_spend_sighash, key_spend_sighash_of,
    schnorr_accepts, serialize_transaction, serialized, verify_schnorr,
};
use crate::signing::{Psbt, PsbtView, SigningContextView, TapSignature, SIGHASH_DEFAULT};
use crate::types::{
    can_be_encoded, clone_outputs, is_unsigned, lemma_unsigned_fits, outputs_view, unsigned_form,
    unsigned_input_form, witness_weight, witnesses_fit, Transaction, TransactionView, TxIn,
    TxInView, TxOut, TxOutView, MAX_WITNESS_WEIGHT,
};

verus! {

/// The bytes of a signature as a witness holds them: the 64 bytes of the
/// Schnorr signature, and behind them the signature-hash type unless it is
/// the default one.
pub open spec fn signature_bytes(signature: TapSignature) -> Seq<u8> {
    if signature.hash_ty == SIGHASH_DEFAULT {
        signature.sig@
    } else {
        signature.sig@.push(signature.hash_ty)
    }
}

/// Whether `psbt` has one context for each input, each with a signature.
pub open spec fn all_signed(psbt: PsbtView) -> bool {
    &&& psbt.inputs.len() == psbt.unsigned_tx.input.len()
    &&& forall|i: int| 0 <= i < psbt.inputs.len() ==> (#[trigger] psbt.inputs[i]).tap_key_sig is Some
}

/// An input made final: its witness is the one signature of its context, and
/// it has no unlocking script.
pub open spec fn finalized_input(input: TxInView, context: SigningContextView) -> TxInView {
    TxInView {
        script_sig: Seq::empty(),
        witness: seq![signature_bytes(context.tap_key_sig->0)],
        ..input
    }
}

/// The transaction that a signed `psbt` stands for: the unsigned transaction
/// with every input made final. Nothing else of the contexts stays.
pub open spec fn finalized(psbt: PsbtView) -> TransactionView {
    TransactionView {
        input: Seq::new(
            psbt.unsigned_tx.input.len(),
            |i: int| finalized_input(psbt.unsigned_tx.input[i], psbt.inputs[i]),
        ),
        ..psbt.unsigned_tx
    }
}

/// Whether `script` pays to a Taproot output key.
pub open spec fn is_p2tr(script: Seq<u8>) -> bool {
    script.len() == 34 && script[0] == 0x51 && script[1] == 0x20
}

/// The output key that a Taproot script pays to.
pub open spec fn output_key(script: Seq<u8>) -> Seq<u8> {
    script.subrange(2, 34)
}

/// Whether `witness` is that of a key-path spend with no annex: one item, a
/// signature of 64 bytes, or of 65 with a type other than the default behind
/// it.
pub open spec fn is_key_path_witness(witness: Seq<Seq<u8>>) -> bool {
    &&& witness.len() == 1
    &&& witness[0].len() == 64 || (witness[0].len() == 65 && witness[0][64] != SIGHASH_DEFAULT)
}

/// The signature-hash type of a key-path signature.
pub open spec fn witness_hash_type(item: Seq<u8>) -> u8 {
    if item.len() == 64 {
        SIGHASH_DEFAULT
    } else {
        item[64]
    }
}

/// Whether input `index` of `tx` is a key-path spend of the Taproot output
/// `prevouts[index]`: the input has no unlocking script and a key-path
/// witness, and the signature is valid, under the output key, for the
/// signature hash of the input over the unsigned form of `tx` and all of
/// `prevouts`.
pub open spec fn key_path_verifies(
    tx: TransactionView,
    prevouts: Seq<TxOutView>,
    index: int,
) -> bool {
    let input = tx.input[index];
    let spent = prevouts[index];
    &&& input.script_sig.len() == 0
    &&& is_key_path_witness(input.witness)
    &&& key_spend_sighash_of(
        serialized(unsigned_form(tx)),
        index as usize,
        prevouts,
        witness_hash_type(input.witness[0]),
    ) matches Some(hash)
    &&& schnorr_accepts(input.witness[0].take(64), hash, output_key(spent.script_pubkey))
}

/// Whether input `index` of `tx` validly spends the output `prevouts[index]`:
/// the consensus library accepts the spend of that script and amount, and,
/// where the output pays to a Taproot key, the input is a valid key-path
/// spend of it.
pub open spec fn input_verifies(tx: TransactionView, prevouts: Seq<TxOutView>, index: int) -> bool {
    let spent = prevouts[index];
    &&& consensus_accepts(spent.script_pubkey, index as usize, spent.value, serialized(tx))
    &&& is_p2tr(spent.script_pubkey) ==> key_path_verifies(tx, prevouts, index)
}

/// Whether `tx` can be encoded and every input of it validly spends the
/// output that `prevouts` claims for it.
pub open spec fn verifies(tx: TransactionView, prevouts: Seq<TxOutView>) -> bool {
    &&& prevouts.len() == tx.input.len()
    &&& witnesses_fit(tx)
    &&& forall|i: int| 0 <= i < tx.input.len() ==> input_verifies(tx, prevouts, i)
}

/// The bytes of `signature` as a witness holds them.
pub fn signature_to_vec(signature: &TapSignature) -> (bytes: Vec<u8>)
    ensures
        bytes@ == signature_bytes(*signature),
{
    let mut bytes = to_vec(signature.sig.as_slice());
    if signature.hash_ty != SIGHASH_DEFAULT {
        bytes.push(signature.hash_ty);
    }
    bytes
}

/// Makes the signed `psbt` final: each input gets the one signature of its
/// context as its witness and an empty unlocking script; what else the
/// contexts hold is dropped.
///
/// Fails with `Unsigned` where an input has no context or no signature.
pub fn finalize_psbt(psbt: Psbt) -> (r: Result<Transaction, WalletError>)
    ensures
        match r {
            Ok(tx) => all_signed(psbt@) && tx@ == finalized(psbt@),
            Err(e) => e == WalletError::Signing(SigningFailure::Unsigned) && !all_signed(psbt@),
        },
{
    if psbt.inputs.len() != psbt.unsigned_tx.input.len() {
        return Err(WalletError::Signing(SigningFailure::Unsigned));
    }
    let mut tx_inputs: Vec<TxIn> = Vec::new();
    let mut i: usize = 0;
    while i < psbt.unsigned_tx.input.len()
        invariant
            i <= psbt.unsigned_tx.input@.len(),
            psbt.inputs@.len() == psbt.unsigned_tx.input@.len(),
            tx_inputs@.len() == i,
            forall|j: int| 0 <= j < i ==> (#[trigger] psbt@.inputs[j]).tap_key_sig is Some,
            forall|j: int|
                0 <= j < i ==> (#[trigger] tx_inputs@[j])@ == finalized_input(
                    psbt@.unsigned_tx.input[j],
                    psbt@.inputs[j],
                ),
        decreases psbt.unsigned_tx.input@.len() - i,
    {
        let unsigned = &psbt.unsigned_tx.input[i];
        let context = &psbt.inputs[i];
        assert(psbt@.inputs[i as int] == context@);
        let signature = match context.tap_key_sig {
            Some(signature) => signature,
            None => { return Err(WalletError::Signing(SigningFailure::Unsigned)); },
        };
        let mut script_witness: Vec<Vec<u8>> = Vec::new();
        script_witness.push(signature_to_vec(&signature));
        let input = TxIn {
            txid: unsigned.txid,
            vout: unsigned.vout,
            script_sig: Vec::new(),
            sequence: unsigned.sequence,
            witness: script_witness,
        };
        assert(input@.witness =~= seq![signature_bytes(signature)]);
        tx_inputs.push(input);
        i += 1;
    }
    let tx = Transaction {
        version: psbt.unsigned_tx.version,
        lock_time: psbt.unsigned_tx.lock_time,
        input: tx_inputs,
        output: clone_outputs(&psbt.unsigned_tx.output),
    };
    assert(tx@.input =~= finalized(psbt@).input);
    Ok(tx)
}

/// The output key that `script` pays to, where it pays to a Taproot key.
pub fn taproot_output_key(script: &Vec<u8>) -> (r: Option<[u8; 32]>)
    ensures
        match r {
            Some(key) => is_p2tr(script@) && key@ == output_key(script@),
            None => !is_p2tr(script@),
        },
{
    if script.len() != 34 || script[0] != 0x51 || script[1] != 0x20 {
        return None;
    }
    Some(array32_at(script.as_slice(), 2))
}

/// The signature that a key-path witness holds, with its type.
pub fn key_path_signature(witness: &Vec<Vec<u8>>) -> (r: Option<TapSignature>)
    ensures
        match r {
            Some(signature) => {
                &&& is_key_path_witness(witness@.map_values(|item: Vec<u8>| item@))
                &&& signature.sig@ == witness@[0]@.take(64)
                &&& signature.hash_ty == witness_hash_type(witness@[0]@)
            },
            None => !is_key_path_witness(witness@.map_values(|item: Vec<u8>| item@)),
        },
{
    if witness.len() != 1 {
        return None;
    }
    let item = &witness[0];
    if item.len() == 64 {
        Some(TapSignature { sig: first64(item.as_slice()), hash_ty: SIGHASH_DEFAULT })
    } else if item.len() == 65 && item[64] != SIGHASH_DEFAULT {
        Some(TapSignature { sig: first64(item.as_slice()), hash_ty: item[64] })
    } else {
        None
    }
}

/// A copy of `tx` without what unlocks its inputs.
pub fn strip_signatures(tx: &Transaction) -> (stripped: Transaction)
    ensures
        stripped@ == unsigned_form(tx@),
{
    let mut tx_inputs: Vec<TxIn> = Vec::new();
    let mut i: usize = 0;
    while i < tx.input.len()
        invariant
            i <= tx.input@.len(),
            tx_inputs@.len() == i,
            forall|j: int| 0 <= j < i ==> tx_inputs@[j]@ == unsigned_input_form(tx.input@[j]@),
        decreases tx.input@.len() - i,
    {
        let input = &tx.input[i];
        let bare = TxIn {
            txid: input.txid,
            vout: input.vout,
            script_sig: Vec::new(),
            sequence: input.sequence,
            witness: Vec::new(),
        };
        assert(bare@.witness =~= Seq::<Seq<u8>>::empty());
        tx_inputs.push(bare);
        i += 1;
    }
    let stripped = Transaction {
        version: tx.version,
        lock_time: tx.lock_time,
        input: tx_inputs,
        output: clone_outputs(&tx.output),
    };
    assert(stripped@.input =~= unsigned_form(tx@).input);
    stripped
}

/// Whether input `index` of `tx` validly spends `prevouts[index]`, for `tx`
/// encoded as `encoded` and its unsigned form as `unsigned`.
fn verify_input(
    tx: &Transaction,
    encoded: &Vec<u8>,
    unsigned: &Vec<u8>,
    prevouts: &Vec<TxOut>,
    index: usize,
) -> (r: bool)
    requires
        index < tx.input@.len(),
        prevouts@.len() == tx.input@.len(),
        encoded@ == serialized(tx@),
        unsigned@ == serialized(unsigned_form(tx@)),
    ensures
        r == input_verifies(tx@, outputs_view(prevouts@), index as int),
{
    let input = &tx.input[index];
    let spent = &prevouts[index];
    if !consensus_verify(&spent.script_pubkey, index, spent.value, encoded) {
        return false;
    }
    let key = match taproot_output_key(&spent.script_pubkey) {
        Some(key) => key,
        None => { return true; },
    };
    if input.script_sig.len() != 0 {
        return false;
    }
    let signature = match key_path_signature(&input.witness) {
        Some(signature) => signature,
        None => { return false; },
    };
    match key_spend_sighash(unsigned, index, prevouts, signature.hash_ty) {
        Some(hash) => verify_schnorr(&signature.sig, &hash, &key),
        None => false,
    }
}

/// Checks every input of `tx` against the output that `prevouts` claims for
/// it. Nothing that fails this check may be sent out.
///
/// Fails with `Verification` where `prevouts` has not one output for each
/// input, a witness is too large to be encoded, or an input does not validly
/// spend its output.
pub fn verify_transaction(tx: &Transaction, prevouts: &Vec<TxOut>) -> (r: Result<(), WalletError>)
    ensures
        match r {
            Ok(_) => verifies(tx@, outputs_view(prevouts@)),
            Err(e) => e == WalletError::Verification && !verifies(tx@, outputs_view(prevouts@)),
        },
{
    if prevouts.len() != tx.input.len() || !can_be_encoded(tx) {
        return Err(WalletError::Verification);
    }
    let encoded = serialize_transaction(tx);
    let stripped = strip_signatures(tx);
    proof {
        lemma_unsigned_form_is_unsigned(tx@);
        lemma_unsigned_fits(stripped@);
    }
    let unsigned = serialize_transaction(&stripped);
    let mut i: usize = 0;
    while i < tx.input.len()
        invariant
            i <= tx.input@.len(),
            prevouts@.len() == tx.input@.len(),
            witnesses_fit(tx@),
            encoded@ == serialized(tx@),
            unsigned@ == serialized(unsigned_form(tx@)),
            forall|j: int| 0 <= j < i ==> input_verifies(tx@, outputs_view(prevouts@), j),
        decreases tx.input@.len() - i,
    {
        if !verify_input(tx, &encoded, &unsigned, prevouts, i) {
            return Err(WalletError::Verification);
        }
        i += 1;
    }
    Ok(())
}

/// The unsigned form of a transaction is unsigned.
pub proof fn lemma_unsigned_form_is_unsigned(tx: TransactionView)
    ensures
        is_unsigned(unsigned_form(tx)),
{
}

/// A final transaction can be encoded: each witness is one signature.
pub proof fn lemma_final_fits(psbt: PsbtView)
    requires
        all_signed(psbt),
    ensures
        witnesses_fit(finalized(psbt)),
{
    let tx = finalized(psbt);
    assert forall|i: int| 0 <= i < tx.input.len() implies witness_weight(
        (#[trigger] tx.input[i]).witness,
    ) <= MAX_WITNESS_WEIGHT by {
        let witness = tx.input[i].witness;
        assert(witness.drop_last() =~= Seq::<Seq<u8>>::empty());
        assert(witness_weight(witness.drop_last()) == 0);
    }
}

/// The witness that finalising makes of a signature is a key-path witness,
/// and reading it gives the signature and its type back.
pub proof fn lemma_final_witness_is_key_path(signature: TapSignature)
    ensures
        is_key_path_witness(seq![signature_bytes(signature)]),
        signature_bytes(signature).take(64) == signature.sig@,
        witness_hash_type(signature_bytes(signature)) == signature.hash_ty,
{
}

/// Making a transaction final changes nothing of what its signatures commit
/// to: where the unsigned transaction of `psbt` carries no unlocking script
/// and no witness, it is the unsigned form of the final transaction.
pub proof fn lemma_final_keeps_what_was_signed(psbt: PsbtView)
    requires
        all_signed(psbt),
        unsigned_form(psbt.unsigned_tx) == psbt.unsigned_tx,
    ensures
        unsigned_form(finalized(psbt)) == psbt.unsigned_tx,
{
    let signed = unsigned_form(finalized(psbt));
    assert forall|i: int| 0 <= i < signed.input.len() implies signed.input[i]
        == psbt.unsigned_tx.input[i] by {
        assert(unsigned_form(psbt.unsigned_tx).input[i] == psbt.unsigned_tx.input[i]);
    }
    assert(signed.input =~= psbt.unsigned_tx.input);
}

/// Once an input is final, the check of its key-path spend comes down to its
/// signature: the input passes exactly where the signature hash over the
/// transaction that was signed is defined for the type of the signature, and
/// the signature of its context is valid for that hash under the output key.
pub proof fn lemma_final_input_stands_on_its_signature(
    psbt: PsbtView,
    prevouts: Seq<TxOutView>,
    index: int,
)
    requires
        all_signed(psbt),
        unsigned_form(psbt.unsigned_tx) == psbt.unsigned_tx,
        0 <= index < psbt.inputs.len(),
    ensures
        ({
            let signature = psbt.inputs[index].tap_key_sig->0;
            let hash = key_spend_sighash_of(
                serialized(psbt.unsigned_tx),
                index as usize,
                prevouts,
                signature.hash_ty,
            );
            key_path_verifies(finalized(psbt), prevouts, index) <==> hash is Some
                && schnorr_accepts(
                signature.sig@,
                hash->0,
                output_key(prevouts[index].script_pubkey),
            )
        }),
{
    lemma_final_keeps_what_was_signed(psbt);
    lemma_final_witness_is_key_path(psbt.inputs[index].tap_key_sig->0);
}

} // verus!

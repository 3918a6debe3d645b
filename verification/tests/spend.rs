use bitcoin::key::TapTweak;
use bitcoin::secp256k1::{schnorr, Message, Secp256k1, XOnlyPublicKey};
use bitcoin::sighash::{Prevouts, SighashCache, TapSighashType};
use taproot_wallet::addresses::{generate_new_key, install_seed, WalletStore};
use taproot_wallet::error::{SigningFailure, WalletError};
use taproot_wallet::finalizer::{
    finalize_psbt, key_path_signature, signature_to_vec, strip_signatures, taproot_output_key,
    verify_transaction,
};
use taproot_wallet::send::{begin_send, send};
use taproot_wallet::signing::{
    accept_signature, attach_signing_context, carries_no_signature, clone_origins, collect_secret_keys, context_prevouts, hash_type,
    key_origins, knows_origin, sign_input, sign_psbt, sign_psbt_taproot, KeyOrigin, Psbt,
    SecretKeys, SigningContext, TapSignature, SIGHASH_ALL, SIGHASH_DEFAULT,
};
use taproot_wallet::types::{
    can_be_encoded, clone_outputs, witness_fits, Address, Network, Transaction, TxOut,
};
use taproot_wallet::wallet::{
    build_unsigned_tx, claimed_prevouts, generate_p2tr_key_spend_tx, get_all_addresses_info,
    list_unspent, parse_address, AddressInfo, Utxo, SEQUENCE_FINAL, TX_VERSION,
};

const NET: Network = Network::Regtest;

/// A wallet with `count` addresses and one unspent output of `value` on each.
fn funded(count: usize, value: u64) -> Vec<AddressInfo> {
    let mut store = WalletStore::new();
    install_seed(&mut store, &[42u8; 32]);
    for _ in 0..count {
        generate_new_key(&mut store, NET, false).unwrap();
    }
    let entries = get_all_addresses_info(&store, NET).unwrap();
    let mut list = Vec::new();
    for (i, entry) in entries.iter().enumerate() {
        let utxo = Utxo { height: 100, tx_hash: [i as u8 + 1; 32], tx_pos: i, value };
        list_unspent(&mut list, entry, &vec![utxo]);
    }
    list
}

fn destination() -> Address {
    parse_address(NET, "bcrt1qw508d6qejxtdg4y5r3zarvary0c5xw7kygt080").unwrap()
}

fn outputs(values: &[u64]) -> Vec<TxOut> {
    values
        .iter()
        .map(|v| TxOut { value: *v, script_pubkey: destination().script_pubkey.clone() })
        .collect()
}

fn to_bitcoin(tx: &Transaction) -> bitcoin::Transaction {
    bitcoin::Transaction {
        version: tx.version,
        lock_time: bitcoin::absolute::LockTime::from_consensus(tx.lock_time),
        input: tx
            .input
            .iter()
            .map(|i| bitcoin::TxIn {
                previous_output: bitcoin::OutPoint::new(
                    bitcoin::hashes::Hash::from_byte_array(i.txid),
                    i.vout,
                ),
                script_sig: bitcoin::ScriptBuf::from_bytes(i.script_sig.clone()),
                sequence: bitcoin::Sequence(i.sequence),
                witness: bitcoin::Witness::from_slice(&i.witness),
            })
            .collect(),
        output: tx
            .output
            .iter()
            .map(|o| bitcoin::TxOut {
                value: o.value,
                script_pubkey: bitcoin::ScriptBuf::from_bytes(o.script_pubkey.clone()),
            })
            .collect(),
    }
}

#[test]
fn unsigned_tx_has_the_fixed_fields() {
    let infos = funded(2, 5000);
    let outs = outputs(&[7000, 2000]);
    let tx = build_unsigned_tx(&infos, &outs).unwrap();
    assert_eq!(tx.version, 2);
    assert_eq!(TX_VERSION, 2);
    assert_eq!(tx.lock_time, 0);
    assert_eq!(tx.input.len(), 2);
    for (input, info) in tx.input.iter().zip(infos.iter()) {
        assert_eq!(input.txid, info.tx_hash);
        assert_eq!(input.vout as usize, info.tx_pos);
        assert!(input.script_sig.is_empty());
        assert_eq!(input.sequence, 0xffff_ffff);
        assert_eq!(SEQUENCE_FINAL, 0xffff_ffff);
        assert!(input.witness.is_empty());
    }
    assert_eq!(tx.output.len(), 2);
    assert_eq!(tx.output[0].value, 7000);
    assert_eq!(tx.output[1].value, 2000);
    assert_eq!(tx.output[0].script_pubkey, outs[0].script_pubkey);
}

#[test]
fn an_output_index_beyond_32_bits_is_refused() {
    let mut infos = funded(2, 5000);
    infos[1].tx_pos = 0xffff_ffff;
    let tx = build_unsigned_tx(&infos, &outputs(&[1])).unwrap();
    assert_eq!(tx.input[1].vout, 0xffff_ffff);
    infos[1].tx_pos = 0x1_0000_0000;
    assert_eq!(
        build_unsigned_tx(&infos, &outputs(&[1])).unwrap_err(),
        WalletError::InvalidOutpoint
    );
    infos[1].tx_pos = 0x1_0000_0007;
    assert_eq!(
        build_unsigned_tx(&infos, &outputs(&[1])).unwrap_err(),
        WalletError::InvalidOutpoint
    );
    assert_eq!(
        generate_p2tr_key_spend_tx(&infos, &outputs(&[1])).unwrap_err(),
        WalletError::InvalidOutpoint
    );
    // The index is looked at before the origins are.
    infos[0].fingerprint.clear();
    assert_eq!(
        generate_p2tr_key_spend_tx(&infos, &outputs(&[1])).unwrap_err(),
        WalletError::InvalidOutpoint
    );
    infos[0].value = 9000;
    assert_eq!(
        send(infos, &destination(), &destination(), 10_000, 0).unwrap_err(),
        WalletError::InvalidOutpoint
    );
}

#[test]
fn unsigned_tx_of_nothing_is_empty() {
    let tx = build_unsigned_tx(&Vec::new(), &Vec::new()).unwrap();
    assert!(tx.input.is_empty());
    assert!(tx.output.is_empty());
    assert_eq!(tx.version, 2);
}

#[test]
fn outputs_are_copied_as_they_are() {
    let outs = outputs(&[3, 1, 2]);
    let copy = clone_outputs(&outs);
    assert_eq!(copy.iter().map(|o| o.value).collect::<Vec<_>>(), vec![3, 1, 2]);
    assert_eq!(copy[2].script_pubkey, outs[2].script_pubkey);
}

#[test]
fn claimed_prevouts_are_value_and_address_script() {
    let infos = funded(2, 1234);
    let prevouts = claimed_prevouts(&infos);
    assert_eq!(prevouts.len(), 2);
    for (prevout, info) in prevouts.iter().zip(infos.iter()) {
        assert_eq!(prevout.value, 1234);
        assert_eq!(prevout.script_pubkey, info.address.script_pubkey);
    }
}

#[test]
fn key_origins_parse_fingerprint_and_path() {
    let infos = funded(2, 1);
    let origins = key_origins(&infos).unwrap();
    assert_eq!(origins.len(), 2);
    for (i, (origin, info)) in origins.iter().zip(infos.iter()).enumerate() {
        assert_eq!(origin.xonly_public_key, info.xonly_public_key);
        let text: String = origin.fingerprint.iter().map(|b| format!("{:02x}", b)).collect();
        assert_eq!(text, info.fingerprint);
        assert_eq!(
            origin.path,
            vec![0x8000_0056, 0x8000_0000, 0x8000_0000, 0, i as u32]
        );
    }
    let copy = clone_origins(&origins);
    assert_eq!(copy.len(), 2);
    assert_eq!(copy[1].path, origins[1].path);
    assert_eq!(copy[1].fingerprint, origins[1].fingerprint);
    assert!(knows_origin(&origins, &infos[1].xonly_public_key));
    assert!(!knows_origin(&origins, &[9u8; 32]));
    assert!(!knows_origin(&Vec::new(), &infos[1].xonly_public_key));
}

#[test]
fn malformed_origins_are_derivation_failures() {
    let mut infos = funded(2, 1);
    infos[1].fingerprint = String::from("xyz");
    assert_eq!(key_origins(&infos).unwrap_err(), WalletError::Derivation);
    assert_eq!(
        generate_p2tr_key_spend_tx(&infos, &outputs(&[1])).unwrap_err(),
        WalletError::Derivation
    );
    let mut infos = funded(2, 1);
    infos[0].fingerprint = String::from("0011223344");
    assert_eq!(key_origins(&infos).unwrap_err(), WalletError::Derivation);
    let mut infos = funded(2, 1);
    infos[0].derivation_path = String::from("86h/0h");
    assert_eq!(key_origins(&infos).unwrap_err(), WalletError::Derivation);
    let tx = build_unsigned_tx(&infos, &outputs(&[1])).unwrap();
    assert_eq!(attach_signing_context(tx, &infos).unwrap_err(), WalletError::Derivation);
    assert_eq!(
        generate_p2tr_key_spend_tx(&infos, &outputs(&[1])).unwrap_err(),
        WalletError::Derivation
    );
    let mut infos = funded(1, 1);
    infos[0].derivation_path = String::from("m/86h/x");
    assert_eq!(key_origins(&infos).unwrap_err(), WalletError::Derivation);
}

#[test]
fn attached_contexts_hold_what_signing_needs() {
    let infos = funded(3, 777);
    let tx = build_unsigned_tx(&infos, &outputs(&[1])).unwrap();
    let psbt = attach_signing_context(tx, &infos).unwrap();
    assert_eq!(psbt.inputs.len(), 3);
    assert_eq!(psbt.unsigned_tx.input.len(), 3);
    for (context, info) in psbt.inputs.iter().zip(infos.iter()) {
        assert_eq!(context.witness_utxo.value, 777);
        assert_eq!(context.witness_utxo.script_pubkey, info.address.script_pubkey);
        assert_eq!(context.tap_internal_key, info.xonly_public_key);
        assert_eq!(context.tap_key_origins.len(), 3);
        assert_eq!(context.sighash_type, Some(1));
        assert!(context.tap_key_sig.is_none());
    }
    let prevouts = context_prevouts(&psbt.inputs);
    assert_eq!(prevouts.len(), 3);
    assert_eq!(prevouts[2].script_pubkey, infos[2].address.script_pubkey);
}

#[test]
fn hash_type_falls_back_to_all() {
    assert_eq!(SIGHASH_DEFAULT, 0);
    assert_eq!(SIGHASH_ALL, 1);
    assert_eq!(hash_type(None), 1);
    assert_eq!(hash_type(Some(0)), 0);
    assert_eq!(hash_type(Some(1)), 1);
    assert_eq!(hash_type(Some(2)), 2);
    assert_eq!(hash_type(Some(3)), 3);
    assert_eq!(hash_type(Some(0x81)), 0x81);
    assert_eq!(hash_type(Some(0x82)), 0x82);
    assert_eq!(hash_type(Some(0x83)), 0x83);
    assert_eq!(hash_type(Some(4)), 1);
    assert_eq!(hash_type(Some(0x80)), 1);
    assert_eq!(hash_type(Some(0x84)), 1);
    assert_eq!(hash_type(Some(0x101)), 1);
    assert_eq!(hash_type(Some(u32::MAX)), 1);
}

#[test]
fn secret_keys_keep_the_later_entry() {
    let mut keys = SecretKeys::new();
    assert_eq!(keys.get(&[1u8; 32]), None);
    keys.insert([1u8; 32], [10u8; 32]);
    keys.insert([2u8; 32], [20u8; 32]);
    assert_eq!(keys.get(&[1u8; 32]), Some([10u8; 32]));
    assert_eq!(keys.get(&[2u8; 32]), Some([20u8; 32]));
    keys.insert([1u8; 32], [11u8; 32]);
    assert_eq!(keys.get(&[1u8; 32]), Some([11u8; 32]));
    assert_eq!(keys.get(&[3u8; 32]), None);
    let infos = funded(2, 1);
    let keys = collect_secret_keys(&infos);
    assert_eq!(keys.get(&infos[0].xonly_public_key), Some(infos[0].secret_key));
    assert_eq!(keys.get(&infos[1].xonly_public_key), Some(infos[1].secret_key));
}

#[test]
fn signature_bytes_carry_the_type_unless_default() {
    let mut sig = [0u8; 64];
    for (i, byte) in sig.iter_mut().enumerate() {
        *byte = i as u8;
    }
    let plain = signature_to_vec(&TapSignature { sig, hash_ty: 0 });
    assert_eq!(plain, sig.to_vec());
    let all = signature_to_vec(&TapSignature { sig, hash_ty: 1 });
    assert_eq!(all.len(), 65);
    assert_eq!(all[..64], sig);
    assert_eq!(all[64], 1);
    let other = signature_to_vec(&TapSignature { sig, hash_ty: 0x83 });
    assert_eq!(other[64], 0x83);
}

#[test]
fn round_trip_with_one_input() {
    let infos = funded(1, 100_000);
    let outs = outputs(&[60_000, 39_000]);
    let tx = generate_p2tr_key_spend_tx(&infos, &outs).unwrap();
    assert_eq!(tx.version, 2);
    assert_eq!(tx.lock_time, 0);
    assert_eq!(tx.input.len(), 1);
    assert_eq!(tx.input[0].txid, infos[0].tx_hash);
    assert_eq!(tx.input[0].vout, 0);
    assert_eq!(tx.input[0].sequence, 0xffff_ffff);
    assert!(tx.input[0].script_sig.is_empty());
    assert_eq!(tx.input[0].witness.len(), 1);
    assert_eq!(tx.input[0].witness[0].len(), 65);
    assert_eq!(tx.input[0].witness[0][64], 1);
    assert_eq!(tx.output.len(), 2);
    assert_eq!(tx.output[0].value, 60_000);
    assert_eq!(tx.output[1].value, 39_000);
    assert_eq!(verify_transaction(&tx, &claimed_prevouts(&infos)), Ok(()));
}

#[test]
fn round_trip_with_three_inputs() {
    let infos = funded(3, 40_000);
    let outs = outputs(&[100_000, 19_000]);
    let tx = generate_p2tr_key_spend_tx(&infos, &outs).unwrap();
    assert_eq!(tx.input.len(), 3);
    for (i, input) in tx.input.iter().enumerate() {
        assert_eq!(input.txid, infos[i].tx_hash);
        assert_eq!(input.vout as usize, i);
        assert_eq!(input.witness.len(), 1);
        assert_eq!(input.witness[0].len(), 65);
    }
    assert_eq!(verify_transaction(&tx, &claimed_prevouts(&infos)), Ok(()));
}

#[test]
fn signatures_are_valid_for_the_bip341_hash_under_the_output_key() {
    let secp = Secp256k1::new();
    let infos = funded(2, 40_000);
    let outs = outputs(&[70_000, 9_000]);
    let tx = generate_p2tr_key_spend_tx(&infos, &outs).unwrap();
    let theirs = to_bitcoin(&tx);
    let spent: Vec<bitcoin::TxOut> = infos
        .iter()
        .map(|i| bitcoin::TxOut {
            value: i.value,
            script_pubkey: bitcoin::ScriptBuf::from_bytes(i.address.script_pubkey.clone()),
        })
        .collect();
    for (index, info) in infos.iter().enumerate() {
        let hash = SighashCache::new(&theirs)
            .taproot_key_spend_signature_hash(index, &Prevouts::All(&spent), TapSighashType::All)
            .unwrap();
        let internal = XOnlyPublicKey::from_slice(&info.xonly_public_key).unwrap();
        let (output_key, _) = internal.tap_tweak(&secp, None);
        assert_eq!(
            info.address.script_pubkey[2..],
            output_key.to_inner().serialize()
        );
        let signature = schnorr::Signature::from_slice(&tx.input[index].witness[0][..64]).unwrap();
        let message = Message::from_slice(&bitcoin::hashes::Hash::to_byte_array(hash)).unwrap();
        assert!(secp.verify_schnorr(&signature, &message, &output_key.to_inner()).is_ok());
    }
}

#[test]
fn changing_an_output_after_signing_fails_the_check() {
    let infos = funded(2, 40_000);
    let prevouts = claimed_prevouts(&infos);
    let outs = outputs(&[70_000, 9_000]);
    let mut tx = generate_p2tr_key_spend_tx(&infos, &outs).unwrap();
    assert_eq!(verify_transaction(&tx, &prevouts), Ok(()));
    tx.output[0].value += 1;
    assert_eq!(verify_transaction(&tx, &prevouts), Err(WalletError::Verification));
    tx.output[0].value -= 1;
    assert_eq!(verify_transaction(&tx, &prevouts), Ok(()));
    tx.output[1].script_pubkey[5] ^= 1;
    assert_eq!(verify_transaction(&tx, &prevouts), Err(WalletError::Verification));
    tx.output[1].script_pubkey[5] ^= 1;
    tx.output.pop();
    assert_eq!(verify_transaction(&tx, &prevouts), Err(WalletError::Verification));
}

#[test]
fn changing_a_claimed_output_fails_the_check() {
    let infos = funded(2, 40_000);
    let outs = outputs(&[70_000, 9_000]);
    let tx = generate_p2tr_key_spend_tx(&infos, &outs).unwrap();
    let mut prevouts = claimed_prevouts(&infos);
    prevouts[1].value += 1;
    assert_eq!(verify_transaction(&tx, &prevouts), Err(WalletError::Verification));
    prevouts[1].value -= 1;
    assert_eq!(verify_transaction(&tx, &prevouts), Ok(()));
    prevouts[0].script_pubkey[33] ^= 1;
    assert_eq!(verify_transaction(&tx, &prevouts), Err(WalletError::Verification));
    prevouts[0].script_pubkey[33] ^= 1;
    prevouts.swap(0, 1);
    assert_eq!(verify_transaction(&tx, &prevouts), Err(WalletError::Verification));
    prevouts.swap(0, 1);
    prevouts.pop();
    assert_eq!(verify_transaction(&tx, &prevouts), Err(WalletError::Verification));
}

#[test]
fn changing_an_input_or_a_witness_fails_the_check() {
    let infos = funded(1, 40_000);
    let prevouts = claimed_prevouts(&infos);
    let outs = outputs(&[30_000]);
    let tx = generate_p2tr_key_spend_tx(&infos, &outs).unwrap();
    let copy = |tx: &Transaction| to_ours(&to_bitcoin(tx));

    let mut changed = copy(&tx);
    changed.input[0].vout = 1;
    assert_eq!(verify_transaction(&changed, &prevouts), Err(WalletError::Verification));
    let mut changed = copy(&tx);
    changed.input[0].sequence = 0;
    assert_eq!(verify_transaction(&changed, &prevouts), Err(WalletError::Verification));
    let mut changed = copy(&tx);
    changed.lock_time = 1;
    assert_eq!(verify_transaction(&changed, &prevouts), Err(WalletError::Verification));
    let mut changed = copy(&tx);
    changed.input[0].witness[0][3] ^= 0x40;
    assert_eq!(verify_transaction(&changed, &prevouts), Err(WalletError::Verification));
    let mut changed = copy(&tx);
    changed.input[0].witness[0].pop();
    assert_eq!(verify_transaction(&changed, &prevouts), Err(WalletError::Verification));
    let mut changed = copy(&tx);
    changed.input[0].witness[0][64] = 0;
    assert_eq!(verify_transaction(&changed, &prevouts), Err(WalletError::Verification));
    let mut changed = copy(&tx);
    changed.input[0].witness.clear();
    assert_eq!(verify_transaction(&changed, &prevouts), Err(WalletError::Verification));
    let mut changed = copy(&tx);
    changed.input[0].witness.push(vec![1]);
    assert_eq!(verify_transaction(&changed, &prevouts), Err(WalletError::Verification));
    let mut changed = copy(&tx);
    changed.input[0].script_sig.push(0x51);
    assert_eq!(verify_transaction(&changed, &prevouts), Err(WalletError::Verification));
    assert_eq!(verify_transaction(&copy(&tx), &prevouts), Ok(()));
}

fn to_ours(tx: &bitcoin::Transaction) -> Transaction {
    Transaction {
        version: tx.version,
        lock_time: tx.lock_time.to_consensus_u32(),
        input: tx
            .input
            .iter()
            .map(|i| taproot_wallet::types::TxIn {
                txid: bitcoin::hashes::Hash::to_byte_array(i.previous_output.txid),
                vout: i.previous_output.vout,
                script_sig: i.script_sig.to_bytes(),
                sequence: i.sequence.0,
                witness: i.witness.to_vec(),
            })
            .collect(),
        output: tx
            .output
            .iter()
            .map(|o| TxOut { value: o.value, script_pubkey: o.script_pubkey.to_bytes() })
            .collect(),
    }
}

#[test]
fn an_unsigned_transaction_fails_the_check() {
    let infos = funded(1, 40_000);
    let tx = build_unsigned_tx(&infos, &outputs(&[1])).unwrap();
    assert_eq!(
        verify_transaction(&tx, &claimed_prevouts(&infos)),
        Err(WalletError::Verification)
    );
}

#[test]
fn a_transaction_without_inputs_passes_the_check_of_no_claim() {
    let tx = build_unsigned_tx(&Vec::new(), &outputs(&[1])).unwrap();
    assert_eq!(verify_transaction(&tx, &Vec::new()), Ok(()));
    assert_eq!(verify_transaction(&tx, &outputs(&[1])), Err(WalletError::Verification));
}

#[test]
fn a_claim_that_is_no_taproot_output_fails_the_check() {
    let infos = funded(1, 40_000);
    let tx = generate_p2tr_key_spend_tx(&infos, &outputs(&[1])).unwrap();
    let claim = vec![TxOut { value: 40_000, script_pubkey: destination().script_pubkey }];
    assert_eq!(verify_transaction(&tx, &claim), Err(WalletError::Verification));
}

#[test]
fn a_signature_of_the_default_type_passes_the_check() {
    let infos = funded(1, 40_000);
    let tx = build_unsigned_tx(&infos, &outputs(&[1])).unwrap();
    let mut psbt = attach_signing_context(tx, &infos).unwrap();
    psbt.inputs[0].sighash_type = Some(0);
    let signed = sign_psbt(psbt, &collect_secret_keys(&infos)).unwrap();
    assert_eq!(signed.inputs[0].tap_key_sig.unwrap().hash_ty, 0);
    let tx = finalize_psbt(signed).unwrap();
    assert_eq!(tx.input[0].witness[0].len(), 64);
    assert_eq!(verify_transaction(&tx, &claimed_prevouts(&infos)), Ok(()));
}

#[test]
fn signing_fills_every_context_and_changes_nothing_else() {
    let infos = funded(2, 40_000);
    let tx = build_unsigned_tx(&infos, &outputs(&[1])).unwrap();
    let psbt = attach_signing_context(tx, &infos).unwrap();
    let signed = sign_psbt(psbt, &collect_secret_keys(&infos)).unwrap();
    assert_eq!(signed.inputs.len(), 2);
    assert_eq!(signed.unsigned_tx.input.len(), 2);
    assert!(signed.unsigned_tx.input[0].witness.is_empty());
    for (context, info) in signed.inputs.iter().zip(infos.iter()) {
        let signature = context.tap_key_sig.unwrap();
        assert_eq!(signature.hash_ty, 1);
        assert_eq!(context.tap_internal_key, info.xonly_public_key);
        assert_eq!(context.witness_utxo.value, info.value);
        assert_eq!(context.sighash_type, Some(1));
        assert_eq!(context.tap_key_origins.len(), 2);
    }
    let tx = finalize_psbt(signed).unwrap();
    assert_eq!(verify_transaction(&tx, &claimed_prevouts(&infos)), Ok(()));
}

#[test]
fn signing_without_the_secret_key_fails() {
    let infos = funded(2, 40_000);
    let tx = build_unsigned_tx(&infos, &outputs(&[1])).unwrap();
    let psbt = attach_signing_context(tx, &infos).unwrap();
    let mut keys = SecretKeys::new();
    keys.insert(infos[0].xonly_public_key, infos[0].secret_key);
    assert_eq!(
        sign_psbt(psbt, &keys).unwrap_err(),
        WalletError::Signing(SigningFailure::MissingKeyMaterial)
    );
}

#[test]
fn signing_with_an_invalid_secret_key_fails() {
    let mut infos = funded(1, 40_000);
    infos[0].secret_key = [0u8; 32];
    assert_eq!(
        generate_p2tr_key_spend_tx(&infos, &outputs(&[1])).unwrap_err(),
        WalletError::Signing(SigningFailure::MissingKeyMaterial)
    );
    let mut context = SigningContext {
        witness_utxo: TxOut { value: 1, script_pubkey: Vec::new() },
        tap_internal_key: [1u8; 32],
        tap_key_origins: Vec::new(),
        sighash_type: None,
        tap_key_sig: None,
    };
    assert_eq!(
        sign_psbt_taproot(&[0xffu8; 32], &mut context, &[7u8; 32], 1).unwrap_err(),
        WalletError::Signing(SigningFailure::MissingKeyMaterial)
    );
    assert!(context.tap_key_sig.is_none());
}

#[test]
fn signing_with_the_wrong_secret_key_fails_the_check() {
    let mut infos = funded(2, 40_000);
    infos[0].secret_key = infos[1].secret_key;
    assert_eq!(
        generate_p2tr_key_spend_tx(&infos, &outputs(&[1])).unwrap_err(),
        WalletError::Verification
    );
}

#[test]
fn signing_without_an_origin_fails() {
    let infos = funded(1, 40_000);
    let tx = build_unsigned_tx(&infos, &outputs(&[1])).unwrap();
    let mut psbt = attach_signing_context(tx, &infos).unwrap();
    psbt.inputs[0].tap_key_origins.clear();
    assert_eq!(
        sign_psbt(psbt, &collect_secret_keys(&infos)).unwrap_err(),
        WalletError::Signing(SigningFailure::MissingKeyOrigin)
    );
    let tx = build_unsigned_tx(&infos, &outputs(&[1])).unwrap();
    let mut psbt = attach_signing_context(tx, &infos).unwrap();
    psbt.inputs[0].tap_key_origins =
        vec![KeyOrigin { xonly_public_key: [5u8; 32], fingerprint: [0u8; 4], path: vec![1] }];
    assert_eq!(
        sign_psbt(psbt, &SecretKeys::new()).unwrap_err(),
        WalletError::Signing(SigningFailure::MissingKeyOrigin)
    );
}

#[test]
fn signing_without_a_signature_hash_fails() {
    // One context for two inputs: the hash over all claimed outputs is not
    // defined.
    let infos = funded(2, 40_000);
    let tx = build_unsigned_tx(&infos, &outputs(&[1])).unwrap();
    let mut psbt = attach_signing_context(tx, &infos).unwrap();
    psbt.inputs.pop();
    assert_eq!(
        sign_psbt(psbt, &collect_secret_keys(&infos)).unwrap_err(),
        WalletError::Signing(SigningFailure::NoSighash)
    );
    // "Single" with no output at the input's index.
    let tx = build_unsigned_tx(&infos, &outputs(&[1])).unwrap();
    let mut psbt = attach_signing_context(tx, &infos).unwrap();
    psbt.inputs[1].sighash_type = Some(3);
    assert_eq!(
        sign_psbt(psbt, &collect_secret_keys(&infos)).unwrap_err(),
        WalletError::Signing(SigningFailure::NoSighash)
    );
}

#[test]
fn sign_input_signs_one_input() {
    let infos = funded(1, 40_000);
    let tx = build_unsigned_tx(&infos, &outputs(&[1])).unwrap();
    let mut psbt = attach_signing_context(tx, &infos).unwrap();
    let encoded = bitcoin::consensus::serialize(&to_bitcoin(&psbt.unsigned_tx));
    let prevouts = claimed_prevouts(&infos);
    let keys = collect_secret_keys(&infos);
    assert_eq!(sign_input(&encoded, &prevouts, 0, &mut psbt.inputs[0], &keys), Ok(()));
    assert!(psbt.inputs[0].tap_key_sig.is_some());
    let mut other = attach_signing_context(build_unsigned_tx(&infos, &outputs(&[1])).unwrap(), &infos)
        .unwrap();
    assert_eq!(
        sign_input(&vec![1, 2, 3], &prevouts, 0, &mut other.inputs[0], &keys),
        Err(WalletError::Signing(SigningFailure::NoSighash))
    );
    assert!(other.inputs[0].tap_key_sig.is_none());
}

#[test]
fn finalizing_needs_every_signature() {
    let infos = funded(2, 40_000);
    let tx = build_unsigned_tx(&infos, &outputs(&[1])).unwrap();
    let psbt = attach_signing_context(tx, &infos).unwrap();
    assert_eq!(
        finalize_psbt(psbt).unwrap_err(),
        WalletError::Signing(SigningFailure::Unsigned)
    );
    let tx = build_unsigned_tx(&infos, &outputs(&[1])).unwrap();
    let psbt = attach_signing_context(tx, &infos).unwrap();
    let mut signed = sign_psbt(psbt, &collect_secret_keys(&infos)).unwrap();
    signed.inputs[1].tap_key_sig = None;
    assert_eq!(
        finalize_psbt(signed).unwrap_err(),
        WalletError::Signing(SigningFailure::Unsigned)
    );
    let tx = build_unsigned_tx(&infos, &outputs(&[1])).unwrap();
    let psbt = attach_signing_context(tx, &infos).unwrap();
    let mut signed = sign_psbt(psbt, &collect_secret_keys(&infos)).unwrap();
    signed.inputs.pop();
    assert_eq!(
        finalize_psbt(signed).unwrap_err(),
        WalletError::Signing(SigningFailure::Unsigned)
    );
}

#[test]
fn finalizing_sets_the_witness_and_clears_the_script() {
    let sig = [3u8; 64];
    let context = |hash_ty: u8| SigningContext {
        witness_utxo: TxOut { value: 1, script_pubkey: vec![1] },
        tap_internal_key: [1u8; 32],
        tap_key_origins: Vec::new(),
        sighash_type: Some(1),
        tap_key_sig: Some(TapSignature { sig, hash_ty }),
    };
    let input = |tag: u8| taproot_wallet::types::TxIn {
        txid: [tag; 32],
        vout: tag as u32,
        script_sig: vec![tag],
        sequence: 5,
        witness: vec![vec![tag]],
    };
    let psbt = Psbt {
        unsigned_tx: Transaction {
            version: 2,
            lock_time: 9,
            input: vec![input(1), input(2)],
            output: outputs(&[4, 5]),
        },
        inputs: vec![context(1), context(0)],
    };
    let tx = finalize_psbt(psbt).unwrap();
    assert_eq!(tx.version, 2);
    assert_eq!(tx.lock_time, 9);
    assert_eq!(tx.output.len(), 2);
    assert_eq!(tx.output[1].value, 5);
    assert_eq!(tx.input.len(), 2);
    assert_eq!(tx.input[0].txid, [1u8; 32]);
    assert_eq!(tx.input[1].vout, 2);
    assert_eq!(tx.input[1].sequence, 5);
    assert!(tx.input[0].script_sig.is_empty());
    let mut expected = sig.to_vec();
    assert_eq!(tx.input[1].witness, vec![expected.clone()]);
    expected.push(1);
    assert_eq!(tx.input[0].witness, vec![expected]);
}

#[test]
fn two_outputs_of_one_address_are_both_signed() {
    let mut store = WalletStore::new();
    generate_new_key(&mut store, NET, false).unwrap();
    let entries = get_all_addresses_info(&store, NET).unwrap();
    let mut list = Vec::new();
    let utxos = vec![
        Utxo { height: 1, tx_hash: [1u8; 32], tx_pos: 0, value: 500 },
        Utxo { height: 2, tx_hash: [2u8; 32], tx_pos: 3, value: 700 },
    ];
    list_unspent(&mut list, &entries[0], &utxos);
    assert_eq!(list.len(), 2);
    assert_eq!(list[1].tx_pos, 3);
    assert_eq!(list[1].height, 2);
    assert_eq!(list[1].value, 700);
    assert_eq!(list[1].address.text, entries[0].0.text);
    assert_eq!(list[1].fingerprint, entries[0].1);
    assert_eq!(list[1].derivation_path, entries[0].2);
    assert_eq!(list[1].xonly_public_key, entries[0].3);
    assert_eq!(list[1].secret_key, entries[0].4);
    let tx = generate_p2tr_key_spend_tx(&list, &outputs(&[1000])).unwrap();
    assert_eq!(tx.input.len(), 2);
    assert_eq!(verify_transaction(&tx, &claimed_prevouts(&list)), Ok(()));
}

#[test]
fn send_spends_the_one_output_to_destination_and_change() {
    let mut store = WalletStore::new();
    generate_new_key(&mut store, NET, false).unwrap();
    let (change, entries) = begin_send(&mut store, NET).unwrap();
    assert_eq!(entries.len(), 2);
    let mut list = Vec::new();
    let held = Utxo { height: 10, tx_hash: [0xabu8; 32], tx_pos: 1, value: 100_000 };
    list_unspent(&mut list, &entries[0], &vec![held]);
    list_unspent(&mut list, &entries[1], &Vec::new());

    let (tx, raw) = send(list, &destination(), &change, 50_000, 1_000).unwrap();
    assert_eq!(tx.input.len(), 1);
    assert_eq!(tx.input[0].txid, [0xabu8; 32]);
    assert_eq!(tx.input[0].vout, 1);
    assert_eq!(tx.output.len(), 2);
    assert_eq!(tx.output[0].value, 50_000);
    assert_eq!(tx.output[0].script_pubkey, destination().script_pubkey);
    assert_eq!(tx.output[1].value, 49_000);
    assert_eq!(tx.output[1].script_pubkey, change.script_pubkey);
    assert_eq!(change.text, store.records[1].address);
    assert!(store.records[1].is_change);

    assert_eq!(raw, bitcoin::consensus::serialize(&to_bitcoin(&tx)));
    let decoded: bitcoin::Transaction = bitcoin::consensus::deserialize(&raw).unwrap();
    assert_eq!(decoded.version, 2);
    assert_eq!(decoded.output[1].value, 49_000);
    assert_eq!(decoded.input[0].witness.len(), 1);
}

#[test]
fn send_without_funds_builds_nothing() {
    let infos = funded(2, 10);
    let change = destination();
    assert_eq!(
        send(infos, &destination(), &change, 50, 0).unwrap_err(),
        WalletError::InsufficientFunds
    );
    assert_eq!(
        send(Vec::new(), &destination(), &change, 1, 0).unwrap_err(),
        WalletError::InsufficientFunds
    );
}

#[test]
fn send_picks_the_smallest_outputs() {
    let mut infos = funded(3, 0);
    infos[0].value = 30;
    infos[1].value = 10;
    infos[2].value = 20;
    let second = infos[1].tx_hash;
    let third = infos[2].tx_hash;
    let (tx, _) = send(infos, &destination(), &destination(), 25, 0).unwrap();
    assert_eq!(tx.input.len(), 2);
    assert_eq!(tx.input[0].txid, second);
    assert_eq!(tx.input[1].txid, third);
    assert_eq!(tx.output[0].value, 25);
    assert_eq!(tx.output[1].value, 5);
}

#[test]
fn parse_address_knows_its_network() {
    let text = "bcrt1qw508d6qejxtdg4y5r3zarvary0c5xw7kygt080";
    let address = parse_address(Network::Regtest, text).unwrap();
    assert_eq!(address.text, text);
    assert_eq!(address.script_pubkey.len(), 22);
    assert_eq!(address.script_pubkey[..2], [0x00, 0x14]);
    assert_eq!(parse_address(Network::Bitcoin, text).unwrap_err(), WalletError::InvalidAddress);
    assert_eq!(parse_address(Network::Signet, text).unwrap_err(), WalletError::InvalidAddress);
    assert_eq!(parse_address(Network::Regtest, "").unwrap_err(), WalletError::InvalidAddress);
    assert_eq!(
        parse_address(Network::Regtest, "bcrt1qw508d6qejxtdg4y5r3zarvary0c5xw7kygt081")
            .unwrap_err(),
        WalletError::InvalidAddress
    );
    let legacy = parse_address(Network::Bitcoin, "1BvBMSEYstWetqTFn5Au4m4GFg7xJaNVN2").unwrap();
    assert_eq!(legacy.script_pubkey.len(), 25);
}

/// A signed spend of a pay-to-witness-key-hash output, made with the Bitcoin
/// library alone, and the output it spends.
fn key_hash_spend() -> (Transaction, Vec<TxOut>) {
    let secp = Secp256k1::new();
    let secret = bitcoin::secp256k1::SecretKey::from_slice(&[1u8; 32]).unwrap();
    let public = bitcoin::PublicKey::new(secret.public_key(&secp));
    let script = bitcoin::ScriptBuf::new_v0_p2wpkh(&public.wpubkey_hash().unwrap());
    let mut tx = to_bitcoin(&Transaction {
        version: 2,
        lock_time: 0,
        input: vec![taproot_wallet::types::TxIn {
            txid: [7u8; 32],
            vout: 0,
            script_sig: Vec::new(),
            sequence: 0xffff_ffff,
            witness: Vec::new(),
        }],
        output: outputs(&[900]),
    });
    let hash = SighashCache::new(&tx)
        .segwit_signature_hash(
            0,
            &script.p2wpkh_script_code().unwrap(),
            1000,
            bitcoin::sighash::EcdsaSighashType::All,
        )
        .unwrap();
    let message = Message::from_slice(&bitcoin::hashes::Hash::to_byte_array(hash)).unwrap();
    let mut signature = secp.sign_ecdsa(&message, &secret).serialize_der().to_vec();
    signature.push(1);
    tx.input[0].witness = bitcoin::Witness::from_slice(&[signature, public.to_bytes()]);
    (to_ours(&tx), vec![TxOut { value: 1000, script_pubkey: script.to_bytes() }])
}

#[test]
fn a_spend_of_another_kind_of_output_is_left_to_the_consensus_rules() {
    let (tx, prevouts) = key_hash_spend();
    assert_eq!(verify_transaction(&tx, &prevouts), Ok(()));
    let mut changed = to_ours(&to_bitcoin(&tx));
    changed.output[0].value += 1;
    assert_eq!(verify_transaction(&changed, &prevouts), Err(WalletError::Verification));
    let mut claim = clone_outputs(&prevouts);
    claim[0].value += 1;
    assert_eq!(verify_transaction(&tx, &claim), Err(WalletError::Verification));
    let mut changed = to_ours(&to_bitcoin(&tx));
    changed.input[0].witness[0][10] ^= 1;
    assert_eq!(verify_transaction(&changed, &prevouts), Err(WalletError::Verification));
}

#[test]
fn a_taproot_signature_does_not_spend_a_key_hash_output() {
    let infos = funded(1, 1000);
    let tx = generate_p2tr_key_spend_tx(&infos, &outputs(&[900])).unwrap();
    let (_, prevouts) = key_hash_spend();
    assert_eq!(verify_transaction(&tx, &prevouts), Err(WalletError::Verification));
    let mut infos = funded(1, 1000);
    infos[0].address = Address {
        text: String::from("elsewhere"),
        script_pubkey: prevouts[0].script_pubkey.clone(),
    };
    assert_eq!(
        generate_p2tr_key_spend_tx(&infos, &outputs(&[900])).unwrap_err(),
        WalletError::Verification
    );
}

#[test]
fn taproot_output_key_reads_the_script() {
    let mut script = vec![0x51, 0x20];
    script.extend((0..32).map(|i| i as u8 + 100));
    let key = taproot_output_key(&script).unwrap();
    assert_eq!(key.to_vec(), (100..132).map(|i| i as u8).collect::<Vec<u8>>());
    assert_eq!(taproot_output_key(&script[..33].to_vec()), None);
    let mut longer = script.clone();
    longer.push(0);
    assert_eq!(taproot_output_key(&longer), None);
    let mut other = script.clone();
    other[0] = 0x00;
    assert_eq!(taproot_output_key(&other), None);
    let mut other = script.clone();
    other[1] = 0x21;
    assert_eq!(taproot_output_key(&other), None);
    assert_eq!(taproot_output_key(&Vec::new()), None);
    assert_eq!(taproot_output_key(&destination().script_pubkey), None);
}

#[test]
fn key_path_signature_reads_the_witness() {
    let sig: Vec<u8> = (0..64).collect();
    let read = key_path_signature(&vec![sig.clone()]).unwrap();
    assert_eq!(read.sig.to_vec(), sig);
    assert_eq!(read.hash_ty, 0);
    let mut with_type = sig.clone();
    with_type.push(0x81);
    let read = key_path_signature(&vec![with_type.clone()]).unwrap();
    assert_eq!(read.sig.to_vec(), sig);
    assert_eq!(read.hash_ty, 0x81);
    assert_eq!(signature_to_vec(&read), with_type);
    let mut with_default = sig.clone();
    with_default.push(0);
    assert!(key_path_signature(&vec![with_default]).is_none());
    assert!(key_path_signature(&Vec::new()).is_none());
    assert!(key_path_signature(&vec![sig.clone(), sig.clone()]).is_none());
    assert!(key_path_signature(&vec![sig[..63].to_vec()]).is_none());
    let mut long = with_type.clone();
    long.push(1);
    assert!(key_path_signature(&vec![long]).is_none());
    assert!(key_path_signature(&vec![Vec::new()]).is_none());
}

#[test]
fn stripping_removes_what_unlocks_and_nothing_else() {
    let infos = funded(2, 40_000);
    let tx = generate_p2tr_key_spend_tx(&infos, &outputs(&[70_000, 9_000])).unwrap();
    let bare = strip_signatures(&tx);
    assert_eq!(bare.version, tx.version);
    assert_eq!(bare.lock_time, tx.lock_time);
    assert_eq!(bare.input.len(), 2);
    for (stripped, input) in bare.input.iter().zip(tx.input.iter()) {
        assert_eq!(stripped.txid, input.txid);
        assert_eq!(stripped.vout, input.vout);
        assert_eq!(stripped.sequence, input.sequence);
        assert!(stripped.script_sig.is_empty());
        assert!(stripped.witness.is_empty());
    }
    assert_eq!(bare.output.len(), 2);
    assert_eq!(bare.output[1].value, 9_000);
    assert_eq!(bare.output[1].script_pubkey, tx.output[1].script_pubkey);
    let unsigned = build_unsigned_tx(&infos, &outputs(&[70_000, 9_000])).unwrap();
    assert_eq!(
        bitcoin::consensus::serialize(&to_bitcoin(&bare)),
        bitcoin::consensus::serialize(&to_bitcoin(&unsigned))
    );
}

#[test]
fn a_signed_transaction_gets_no_signing_context() {
    let infos = funded(1, 40_000);
    let tx = generate_p2tr_key_spend_tx(&infos, &outputs(&[1])).unwrap();
    assert!(!carries_no_signature(&tx));
    assert_eq!(
        attach_signing_context(tx, &infos).unwrap_err(),
        WalletError::Signing(SigningFailure::AlreadySigned)
    );
    let mut tx = build_unsigned_tx(&infos, &outputs(&[1])).unwrap();
    assert!(carries_no_signature(&tx));
    tx.input[0].script_sig.push(1);
    assert!(!carries_no_signature(&tx));
    let mut broken = funded(1, 40_000);
    broken[0].fingerprint.clear();
    assert_eq!(
        attach_signing_context(tx, &broken).unwrap_err(),
        WalletError::Signing(SigningFailure::AlreadySigned)
    );
    assert!(carries_no_signature(&build_unsigned_tx(&Vec::new(), &Vec::new()).unwrap()));
}

fn bare_context() -> SigningContext {
    SigningContext {
        witness_utxo: TxOut { value: 1, script_pubkey: Vec::new() },
        tap_internal_key: [1u8; 32],
        tap_key_origins: Vec::new(),
        sighash_type: Some(1),
        tap_key_sig: None,
    }
}

#[test]
fn the_stored_signature_is_valid_under_the_tweaked_key_only() {
    let secp = Secp256k1::new();
    let infos = funded(1, 1000);
    let hash = [0x5au8; 32];
    let mut context = bare_context();
    assert_eq!(sign_psbt_taproot(&infos[0].secret_key, &mut context, &hash, 1), Ok(()));
    let stored = context.tap_key_sig.unwrap();
    assert_eq!(stored.hash_ty, 1);
    let signature = schnorr::Signature::from_slice(&stored.sig).unwrap();
    let message = Message::from_slice(&hash).unwrap();
    let internal = XOnlyPublicKey::from_slice(&infos[0].xonly_public_key).unwrap();
    let (output_key, _) = internal.tap_tweak(&secp, None);
    assert!(secp.verify_schnorr(&signature, &message, &output_key.to_inner()).is_ok());
    assert!(secp.verify_schnorr(&signature, &message, &internal).is_err());
    let other = Message::from_slice(&[0x5bu8; 32]).unwrap();
    assert!(secp.verify_schnorr(&signature, &other, &output_key.to_inner()).is_err());
    assert_eq!(infos[0].address.script_pubkey[2..], output_key.to_inner().serialize());
}

#[test]
fn a_signature_is_accepted_only_where_it_is_valid() {
    let secp = Secp256k1::new();
    let infos = funded(1, 1000);
    let hash = [0x33u8; 32];
    let mut signed = bare_context();
    sign_psbt_taproot(&infos[0].secret_key, &mut signed, &hash, 1).unwrap();
    let good = signed.tap_key_sig.unwrap().sig;
    let internal = XOnlyPublicKey::from_slice(&infos[0].xonly_public_key).unwrap();
    let key = internal.tap_tweak(&secp, None).0.to_inner().serialize();

    let mut context = bare_context();
    assert_eq!(accept_signature(&mut context, good, 0x81, &hash, &key), Ok(()));
    let stored = context.tap_key_sig.unwrap();
    assert_eq!(stored.sig, good);
    assert_eq!(stored.hash_ty, 0x81);
    assert_eq!(context.tap_internal_key, [1u8; 32]);
    assert_eq!(context.sighash_type, Some(1));

    let failed = Err(WalletError::Signing(SigningFailure::InvalidSignature));
    let mut context = bare_context();
    assert_eq!(accept_signature(&mut context, [0u8; 64], 1, &hash, &key), failed);
    assert!(context.tap_key_sig.is_none());
    let mut bent = good;
    bent[40] ^= 1;
    assert_eq!(accept_signature(&mut context, bent, 1, &hash, &key), failed);
    assert_eq!(accept_signature(&mut context, good, 1, &[0x34u8; 32], &key), failed);
    assert_eq!(
        accept_signature(&mut context, good, 1, &hash, &infos[0].xonly_public_key),
        failed
    );
    assert_eq!(accept_signature(&mut context, good, 1, &hash, &[0xffu8; 32]), failed);
    assert!(context.tap_key_sig.is_none());
}

#[test]
fn signing_refuses_a_transaction_that_is_signed_already() {
    let infos = funded(1, 40_000);
    let tx = build_unsigned_tx(&infos, &outputs(&[1])).unwrap();
    let mut psbt = attach_signing_context(tx, &infos).unwrap();
    psbt.unsigned_tx.input[0].witness.push(vec![1, 2, 3]);
    assert_eq!(
        sign_psbt(psbt, &collect_secret_keys(&infos)).unwrap_err(),
        WalletError::Signing(SigningFailure::AlreadySigned)
    );
    let tx = build_unsigned_tx(&infos, &outputs(&[1])).unwrap();
    let mut psbt = attach_signing_context(tx, &infos).unwrap();
    psbt.unsigned_tx.input[0].script_sig.push(0x51);
    assert_eq!(
        sign_psbt(psbt, &SecretKeys::new()).unwrap_err(),
        WalletError::Signing(SigningFailure::AlreadySigned)
    );
}

#[test]
fn witnesses_of_ordinary_size_can_be_encoded() {
    assert!(witness_fits(&Vec::new()));
    assert!(witness_fits(&vec![Vec::new()]));
    assert!(witness_fits(&vec![vec![0u8; 65]]));
    assert!(witness_fits(&vec![vec![0u8; 100_000], vec![1u8; 100_000], Vec::new()]));
    let infos = funded(2, 40_000);
    let tx = generate_p2tr_key_spend_tx(&infos, &outputs(&[1])).unwrap();
    assert!(can_be_encoded(&tx));
    assert!(can_be_encoded(&build_unsigned_tx(&infos, &outputs(&[1])).unwrap()));
    assert!(can_be_encoded(&build_unsigned_tx(&Vec::new(), &Vec::new()).unwrap()));
}

#[test]
fn fingerprints_are_eight_hexadecimal_digits_of_either_case() {
    let origin = |text: &str| {
        let mut infos = funded(1, 1);
        infos[0].fingerprint = String::from(text);
        key_origins(&infos).map(|origins| origins[0].fingerprint)
    };
    assert_eq!(origin("00000000"), Ok([0, 0, 0, 0]));
    assert_eq!(origin("0123abcd"), Ok([0x01, 0x23, 0xab, 0xcd]));
    assert_eq!(origin("89EFfe98"), Ok([0x89, 0xef, 0xfe, 0x98]));
    assert_eq!(origin("ffffffff"), Ok([0xff, 0xff, 0xff, 0xff]));
    assert_eq!(origin("FFFFFFFF"), Ok([0xff, 0xff, 0xff, 0xff]));
    for bad in [
        "", "0", "0123abc", "0123abcde", "0123abcdef", "0123abcg", "0123abc ", " 123abcd",
        "0x23abcd", "+123abcd", "0123_bcd", "0123abc\u{e9}", "\u{ff10}123abcd", "0123:bcd",
        "0123@bcd", "0123Gbcd", "0123`bcd", "0123/bcd",
    ] {
        assert_eq!(origin(bad), Err(WalletError::Derivation));
    }
}

#[test]
fn a_spend_of_nothing_succeeds() {
    let tx = generate_p2tr_key_spend_tx(&Vec::new(), &outputs(&[5, 6])).unwrap();
    assert!(tx.input.is_empty());
    assert_eq!(tx.output.len(), 2);
    assert_eq!(tx.output[1].value, 6);
    assert_eq!(tx.version, 2);
    let psbt = Psbt { unsigned_tx: build_unsigned_tx(&Vec::new(), &Vec::new()).unwrap(), inputs: Vec::new() };
    let signed = sign_psbt(psbt, &SecretKeys::new()).unwrap();
    assert!(signed.inputs.is_empty());
    let (tx, raw) = send(Vec::new(), &destination(), &destination(), 0, 0).unwrap();
    assert!(tx.input.is_empty());
    assert_eq!(tx.output.len(), 2);
    assert_eq!(raw, bitcoin::consensus::serialize(&to_bitcoin(&tx)));
}

#[test]
fn the_failure_of_the_first_input_is_the_one_reported() {
    // Nothing is drawn before the first input is found wanting.
    let infos = funded(3, 40_000);
    let tx = build_unsigned_tx(&infos, &outputs(&[1])).unwrap();
    let mut psbt = attach_signing_context(tx, &infos).unwrap();
    psbt.inputs[0].tap_key_origins.clear();
    let mut keys = SecretKeys::new();
    keys.insert(infos[1].xonly_public_key, infos[1].secret_key);
    assert_eq!(
        sign_psbt(psbt, &keys).unwrap_err(),
        WalletError::Signing(SigningFailure::MissingKeyOrigin)
    );
    let tx = build_unsigned_tx(&infos, &outputs(&[1])).unwrap();
    let psbt = attach_signing_context(tx, &infos).unwrap();
    assert_eq!(
        sign_psbt(psbt, &keys).unwrap_err(),
        WalletError::Signing(SigningFailure::MissingKeyMaterial)
    );
    let mut broken = funded(3, 40_000);
    broken[0].secret_key = [0u8; 32];
    assert_eq!(
        generate_p2tr_key_spend_tx(&broken, &outputs(&[1])).unwrap_err(),
        WalletError::Signing(SigningFailure::MissingKeyMaterial)
    );
}

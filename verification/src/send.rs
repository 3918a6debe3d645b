//! A payment, from the list of what can be spent to the bytes for the
//! network.
//!
//! Sending takes two calls with a question to the chain backend between
//! them. [`begin_send`] issues the change address and lists what is needed to
//! spend from every address; the caller asks the backend for the unspent
//! outputs of each; [`send`] then selects, builds, signs and checks.
use vstd::prelude::*;
use crate::addresses::{
    generate_new_key, issuance, next_record, stored_seed_of, well_formed, WalletStore,
};
use crate::error::WalletError;
use crate::primitives::{serialize_transaction, serialized};
use crate::selection::{
    accepted_count, lemma_overshoot_is_bounded, lemma_walk_stops_at_count, select_utxos,
    selection_of, sorted_by_value, sum_values, total_value,
};
use crate::types::{outputs_view, Address, AddressView, Network, Transaction, TxOut, TxOutView};
use crate::wallet::{
    generate_p2tr_key_spend_tx, get_all_addresses_info, infos_view, listed, parsed_address,
    spend_failed, spend_succeeded, AddressInfo,
};

verus! {

/// The two outputs of a payment: the amount to the destination, then the
/// change to the change address, also where the change is zero.
pub open spec fn payment_outputs(
    destination: AddressView,
    change: AddressView,
    amount: u64,
    change_amount: u64,
) -> Seq<TxOutView> {
    seq![
        TxOutView { value: amount, script_pubkey: destination.script_pubkey },
        TxOutView { value: change_amount, script_pubkey: change.script_pubkey },
    ]
}

/// What a selection leaves over after the amount and the fee.
pub open spec fn change_of(selected: Seq<AddressInfo>, amount: u64, fees: u64) -> int {
    total_value(selected) - amount - fees
}

/// The change of a selection that covers the amount and the fee is at most
/// the value of one output.
pub proof fn lemma_change_fits(items: Seq<AddressInfo>, amount: u64, fees: u64)
    requires
        change_of(selection_of(items, amount + fees), amount, fees) >= 0,
    ensures
        change_of(selection_of(items, amount + fees), amount, fees) <= u64::MAX,
{
    let sorted = sorted_by_value(items);
    let count = accepted_count(sorted, amount + fees);
    lemma_walk_stops_at_count(sorted, amount + fees);
    if count > 0 {
        lemma_overshoot_is_bounded(sorted, amount + fees, count);
    }
}

/// Plans a payment of `amount` with a fee of `fees`: selects what to spend
/// from `list_unspent`, smallest first, and sets up the two outputs.
///
/// Fails with `InsufficientFunds` where the selection does not cover the
/// amount and the fee.
pub fn plan_payment(
    list_unspent: Vec<AddressInfo>,
    destination: &Address,
    change: &Address,
    amount: u64,
    fees: u64,
) -> (r: Result<(Vec<AddressInfo>, Vec<TxOut>), WalletError>)
    ensures
        match r {
            Ok(plan) => {
                &&& plan.0@ == selection_of(list_unspent@, amount + fees)
                &&& 0 <= change_of(plan.0@, amount, fees) <= u64::MAX
                &&& outputs_view(plan.1@) == payment_outputs(
                    destination@,
                    change@,
                    amount,
                    change_of(plan.0@, amount, fees) as u64,
                )
            },
            Err(e) => {
                &&& e == WalletError::InsufficientFunds
                &&& change_of(selection_of(list_unspent@, amount + fees), amount, fees) < 0
            },
        },
{
    let previous_outputs = select_utxos(list_unspent, amount, fees);
    let input_amount = sum_values(&previous_outputs);
    let threshold: u128 = amount as u128 + fees as u128;
    if input_amount < threshold {
        return Err(WalletError::InsufficientFunds);
    }
    proof {
        lemma_change_fits(list_unspent@, amount, fees);
    }
    let change_amount = (input_amount - threshold) as u64;
    let mut outputs: Vec<TxOut> = Vec::new();
    outputs.push(TxOut { value: amount, script_pubkey: destination.script_pubkey.clone() });
    outputs.push(TxOut { value: change_amount, script_pubkey: change.script_pubkey.clone() });
    assert(outputs_view(outputs@) =~= payment_outputs(
        destination@,
        change@,
        amount,
        change_amount,
    ));
    Ok((previous_outputs, outputs))
}

/// Pays `amount` to `destination` with a fee of `fees` out of `list_unspent`,
/// the change to `change`: plans the payment, builds and signs the
/// transaction, checks it, and returns it with its bytes for the network.
///
/// Fails with `InsufficientFunds` where the selection does not cover the
/// amount and the fee, before anything is built; else as
/// [`generate_p2tr_key_spend_tx`] does.
pub fn send(
    list_unspent: Vec<AddressInfo>,
    destination: &Address,
    change: &Address,
    amount: u64,
    fees: u64,
) -> (r: Result<(Transaction, Vec<u8>), WalletError>)
    ensures
        ({
            let selected = selection_of(list_unspent@, amount + fees);
            let left = change_of(selected, amount, fees);
            let outputs = payment_outputs(destination@, change@, amount, left as u64);
            if left < 0 {
                r == Err::<(Transaction, Vec<u8>), WalletError>(WalletError::InsufficientFunds)
            } else {
                match r {
                    Ok(sent) => spend_succeeded(sent.0@, infos_view(selected), outputs) && sent.1@
                        == serialized(sent.0@),
                    Err(e) => spend_failed(e, infos_view(selected), outputs),
                }
            }
        }),
{
    let (previous_outputs, outputs) = match plan_payment(
        list_unspent,
        destination,
        change,
        amount,
        fees,
    ) {
        Ok(plan) => plan,
        Err(e) => { return Err(e); },
    };
    let tx = match generate_p2tr_key_spend_tx(&previous_outputs, &outputs) {
        Ok(tx) => tx,
        Err(e) => { return Err(e); },
    };
    let tx_bytes = serialize_transaction(&tx);
    Ok((tx, tx_bytes))
}

/// Opens a payment: issues a fresh change address, which is written to the
/// book, and lists what is needed to spend from every address of the book, the
/// new one among them. Returns the change address and the list.
///
/// Fails as [`generate_new_key`] does, with `Integrity` for a book with more
/// than one seed before anything is written; and with `InvalidAddress` where
/// a stored text is no address of `network`. A change address that was
/// issued stays in the book also where the payment then fails.
pub fn begin_send(store: &mut WalletStore, network: Network) -> (r: Result<
    (Address, Vec<(Address, String, String, [u8; 32], [u8; 32])>),
    WalletError,
>)
    ensures
        well_formed(old(store)@) ==> well_formed(final(store)@),
        match stored_seed_of(old(store)@.seeds) {
            Err(e) => r == Err::<
                (Address, Vec<(Address, String, String, [u8; 32], [u8; 32])>),
                WalletError,
            >(e) && final(store)@ == old(store)@,
            Ok(found) => {
                &&& final(store)@.seeds.len() == 1
                &&& found is Some ==> final(store)@.seeds == old(store)@.seeds
                &&& match next_record(network, final(store)@.seeds[0], old(store)@.records, true) {
                    None => {
                        &&& r == Err::<
                            (Address, Vec<(Address, String, String, [u8; 32], [u8; 32])>),
                            WalletError,
                        >(WalletError::Derivation)
                        &&& final(store)@.records == old(store)@.records
                    },
                    Some(record) => {
                        &&& final(store)@.records == old(store)@.records.push(record)
                        &&& issuance(old(store)@.records, final(store)@.records, true)
                        &&& match r {
                            Ok(opened) => {
                                &&& parsed_address(network, record.address) == Some(opened.0@)
                                &&& opened.1@.len() == final(store)@.records.len()
                                &&& forall|i: int|
                                    0 <= i < opened.1@.len() ==> listed(
                                        network,
                                        final(store)@.records[i],
                                        #[trigger] opened.1@[i],
                                    )
                            },
                            Err(e) => {
                                &&& e == WalletError::InvalidAddress
                                &&& exists|i: int|
                                    0 <= i < final(store)@.records.len() && parsed_address(
                                        network,
                                        (#[trigger] final(store)@.records[i]).address,
                                    ) is None
                            },
                        }
                    },
                }
            },
        },
{
    if let Err(e) = generate_new_key(store, network, true) {
        return Err(e);
    }
    let entries = match get_all_addresses_info(store, network) {
        Ok(entries) => entries,
        Err(e) => { return Err(e); },
    };
    let change = entries[entries.len() - 1].0.clone();
    Ok((change, entries))
}

} // verus!

//! The wallet's book: its seed and the addresses it has issued.
//!
//! The book is a value. A caller loads it from storage, lets the functions
//! here read and extend it, and saves what was added: the seed where there
//! was none, and each new record.
use vstd::prelude::*;
use crate::bytes::{to_array32, to_vec};
use crate::error::WalletError;
use crate::keys::{
    account_of, address_key_of, address_of_secret, address_of_secret_key, derivation_path_text,
    derive_account_key, derive_address_key, derive_master, fingerprint,
    lemma_paths_of_indices_differ, master_of, taproot_address,
};
use crate::primitives::{fingerprint_of, p2tr_address_of, random_seed};
use crate::types::Network;

verus! {

/// One issued address: where it sits beneath the seed, its keys, and the
/// texts that were stored with it. A record is written once and never changed.
#[derive(Debug)]
pub struct KeyRecord {
    pub index: u32,
    pub is_change: bool,
    pub secret_key: [u8; 32],
    pub public_key: [u8; 32],
    pub address: String,
    pub fingerprint: String,
    pub derivation_path: String,
}

/// What a [`KeyRecord`] holds, as mathematical values.
pub struct KeyRecordView {
    pub index: u32,
    pub is_change: bool,
    pub secret_key: Seq<u8>,
    pub public_key: Seq<u8>,
    pub address: Seq<char>,
    pub fingerprint: Seq<char>,
    pub derivation_path: Seq<char>,
}

impl View for KeyRecord {
    type V = KeyRecordView;

    open spec fn view(&self) -> KeyRecordView {
        KeyRecordView {
            index: self.index,
            is_change: self.is_change,
            secret_key: self.secret_key@,
            public_key: self.public_key@,
            address: self.address@,
            fingerprint: self.fingerprint@,
            derivation_path: self.derivation_path@,
        }
    }
}

/// The book: the rows of the seed table and the rows of the record table, in
/// storage order.
#[derive(Debug)]
pub struct WalletStore {
    pub seeds: Vec<Vec<u8>>,
    pub records: Vec<KeyRecord>,
}

/// What a [`WalletStore`] holds, as mathematical values.
pub struct WalletStoreView {
    pub seeds: Seq<Seq<u8>>,
    pub records: Seq<KeyRecordView>,
}

impl View for WalletStore {
    type V = WalletStoreView;

    open spec fn view(&self) -> WalletStoreView {
        WalletStoreView {
            seeds: self.seeds@.map_values(|row: Vec<u8>| row@),
            records: self.records@.map_values(|record: KeyRecord| record@),
        }
    }
}

/// What the seed table says: no seed yet, the one seed, or a failure.
/// More than one row is an `Integrity` failure, whatever the rows hold; one
/// row of another length than 32 bytes is a `Derivation` failure.
pub open spec fn stored_seed_of(seeds: Seq<Seq<u8>>) -> Result<Option<Seq<u8>>, WalletError> {
    if seeds.len() > 1 {
        Err(WalletError::Integrity)
    } else if seeds.len() == 0 {
        Ok(None)
    } else if seeds[0].len() == 32 {
        Ok(Some(seeds[0]))
    } else {
        Err(WalletError::Derivation)
    }
}

/// The highest index among the records of a branch, or -1 where it has none.
pub open spec fn highest_index(records: Seq<KeyRecordView>, is_change: bool) -> int
    decreases records.len(),
{
    if records.len() == 0 {
        -1
    } else {
        let rest = highest_index(records.drop_last(), is_change);
        let last = records.last();
        if last.is_change == is_change && last.index > rest {
            last.index as int
        } else {
            rest
        }
    }
}

/// The index that the next address of a branch gets: one more than the
/// highest, or zero where the branch has no record.
pub open spec fn next_index_of(records: Seq<KeyRecordView>, is_change: bool) -> int {
    highest_index(records, is_change) + 1
}

/// The indices of the records of a branch, in storage order.
pub open spec fn branch_indices(records: Seq<KeyRecordView>, is_change: bool) -> Seq<u32>
    decreases records.len(),
{
    if records.len() == 0 {
        Seq::empty()
    } else {
        let rest = branch_indices(records.drop_last(), is_change);
        if records.last().is_change == is_change {
            rest.push(records.last().index)
        } else {
            rest
        }
    }
}

/// Whether `indices` is `0, 1, 2, ...` in this order.
pub open spec fn counts_up(indices: Seq<u32>) -> bool {
    forall|i: int| 0 <= i < indices.len() ==> indices[i] == i
}

/// Whether `indices` rises from each index to the next.
pub open spec fn rising(indices: Seq<u32>) -> bool {
    forall|i: int, j: int| 0 <= i < j < indices.len() ==> indices[i] < indices[j]
}

/// Whether a book is as the wallet keeps it: at most one seed, of 32 bytes,
/// and on each branch indices that rise in storage order, so that none
/// occurs twice.
pub open spec fn well_formed(store: WalletStoreView) -> bool {
    &&& store.seeds.len() <= 1
    &&& store.seeds.len() == 1 ==> store.seeds[0].len() == 32
    &&& rising(branch_indices(store.records, false))
    &&& rising(branch_indices(store.records, true))
}

/// Whether `after` is `before` with one record more, on the given branch and
/// with the branch's next index.
pub open spec fn issuance(
    before: Seq<KeyRecordView>,
    after: Seq<KeyRecordView>,
    is_change: bool,
) -> bool {
    &&& after.len() == before.len() + 1
    &&& after.drop_last() == before
    &&& after.last().is_change == is_change
    &&& after.last().index == next_index_of(before, is_change)
}

/// The record of the address at `index` on a branch, for a wallet with the
/// given seed; `None` where one of the derivations fails.
pub open spec fn issued_record(network: Network, seed: Seq<u8>, is_change: bool, index: u32) -> Option<
    KeyRecordView,
> {
    match master_of(network, seed) {
        Some(master) => match (fingerprint_of(master), account_of(master)) {
            (Some(print), Some(account)) => match address_key_of(account, is_change, index) {
                Some(key) => match p2tr_address_of(network, key.xonly_public_key) {
                    Some(address) => Some(
                        KeyRecordView {
                            index,
                            is_change,
                            secret_key: key.secret_key,
                            public_key: key.xonly_public_key,
                            address,
                            fingerprint: print,
                            derivation_path: key.derivation_path,
                        },
                    ),
                    None => None,
                },
                None => None,
            },
            _ => None,
        },
        None => None,
    }
}

/// The record that the next issuance on a branch adds to `records`, for a
/// wallet with the given seed; `None` where the next index does not fit or
/// one of the derivations fails.
pub open spec fn next_record(
    network: Network,
    seed: Seq<u8>,
    records: Seq<KeyRecordView>,
    is_change: bool,
) -> Option<KeyRecordView> {
    if next_index_of(records, is_change) <= u32::MAX {
        issued_record(network, seed, is_change, next_index_of(records, is_change) as u32)
    } else {
        None
    }
}

impl WalletStore {
    /// A book with no seed and no record.
    pub fn new() -> (store: WalletStore)
        ensures
            store@.seeds.len() == 0,
            store@.records.len() == 0,
            well_formed(store@),
    {
        WalletStore { seeds: Vec::new(), records: Vec::new() }
    }
}

/// The seed that the book holds, if it holds one.
///
/// Fails with `Integrity` where the seed table has more than one row, and
/// with `Derivation` where its one row has not 32 bytes.
pub fn stored_seed(store: &WalletStore) -> (r: Result<Option<[u8; 32]>, WalletError>)
    ensures
        match r {
            Ok(Some(seed)) => stored_seed_of(store@.seeds) == Ok::<Option<Seq<u8>>, WalletError>(
                Some(seed@),
            ),
            Ok(None) => stored_seed_of(store@.seeds) == Ok::<Option<Seq<u8>>, WalletError>(None),
            Err(e) => stored_seed_of(store@.seeds) == Err::<Option<Seq<u8>>, WalletError>(e),
        },
{
    if store.seeds.len() > 1 {
        return Err(WalletError::Integrity);
    }
    if store.seeds.len() == 0 {
        return Ok(None);
    }
    match to_array32(store.seeds[0].as_slice()) {
        Some(seed) => Ok(Some(seed)),
        None => Err(WalletError::Derivation),
    }
}

/// Writes `seed` to the seed table as a new row.
pub fn install_seed(store: &mut WalletStore, seed: &[u8; 32])
    ensures
        final(store)@.seeds == old(store)@.seeds.push(seed@),
        final(store)@.records == old(store)@.records,
{
    store.seeds.push(to_vec(seed.as_slice()));
}

/// The wallet's seed: the one that the book holds, or, where it holds none, a
/// fresh random one, which is then written to the book.
///
/// Fails as [`stored_seed`] does, and then leaves the book as it was.
pub fn generate_or_get_seed(store: &mut WalletStore) -> (r: Result<[u8; 32], WalletError>)
    ensures
        well_formed(old(store)@) ==> well_formed(final(store)@),
        final(store)@.records == old(store)@.records,
        match stored_seed_of(old(store)@.seeds) {
            Ok(Some(seed)) => r matches Ok(s) && s@ == seed && final(store)@.seeds == old(
                store,
            )@.seeds,
            Ok(None) => r matches Ok(s) && final(store)@.seeds == seq![s@],
            Err(e) => r == Err::<[u8; 32], WalletError>(e) && final(store)@.seeds == old(
                store,
            )@.seeds,
        },
{
    match stored_seed(store) {
        Ok(Some(seed)) => Ok(seed),
        Ok(None) => {
            let seed = random_seed();
            install_seed(store, &seed);
            Ok(seed)
        },
        Err(e) => Err(e),
    }
}

/// The index for the next address of a branch.
///
/// Fails with `Derivation` where the branch already holds the highest index
/// that a record can carry.
pub fn get_next_bip32_index(store: &WalletStore, is_change: bool) -> (r: Result<u32, WalletError>)
    ensures
        match r {
            Ok(index) => index == next_index_of(store@.records, is_change),
            Err(e) => e == WalletError::Derivation && next_index_of(store@.records, is_change)
                > u32::MAX,
        },
{
    let mut highest: Option<u32> = None;
    let mut i: usize = 0;
    while i < store.records.len()
        invariant
            i <= store.records@.len(),
            highest_index(store@.records.take(i as int), is_change) == match highest {
                Some(h) => h as int,
                None => -1,
            },
        decreases store.records@.len() - i,
    {
        let record = &store.records[i];
        assert(store@.records.take(i + 1).drop_last() =~= store@.records.take(i as int));
        if record.is_change == is_change {
            highest = match highest {
                Some(h) => if record.index > h { Some(record.index) } else { Some(h) },
                None => Some(record.index),
            };
        }
        i += 1;
    }
    assert(store@.records.take(i as int) =~= store@.records);
    match highest {
        Some(h) => if h == u32::MAX { Err(WalletError::Derivation) } else { Ok(h + 1) },
        None => Ok(0),
    }
}

/// Writes the record of a new address at the end of the record table.
pub fn insert_address(
    store: &mut WalletStore,
    client_secret_key: &[u8; 32],
    client_pubkey: &[u8; 32],
    bip32index: u32,
    address: &str,
    is_change: bool,
    fingerprint: &str,
    derivation_path: &str,
)
    ensures
        final(store)@.seeds == old(store)@.seeds,
        final(store)@.records == old(store)@.records.push(
            KeyRecordView {
                index: bip32index,
                is_change,
                secret_key: client_secret_key@,
                public_key: client_pubkey@,
                address: address@,
                fingerprint: fingerprint@,
                derivation_path: derivation_path@,
            },
        ),
{
    let record = KeyRecord {
        index: bip32index,
        is_change,
        secret_key: *client_secret_key,
        public_key: *client_pubkey,
        address: address.to_owned(),
        fingerprint: fingerprint.to_owned(),
        derivation_path: derivation_path.to_owned(),
    };
    store.records.push(record);
}

/// Derives the record of the address at `index` on a branch from `seed`.
///
/// Fails with `Derivation` where one of the derivations does.
pub fn derive_record(network: Network, seed: &[u8; 32], is_change: bool, index: u32) -> (r: Result<
    KeyRecord,
    WalletError,
>)
    ensures
        match r {
            Ok(record) => issued_record(network, seed@, is_change, index) == Some(record@),
            Err(e) => e == WalletError::Derivation && issued_record(
                network,
                seed@,
                is_change,
                index,
            ) is None,
        },
{
    let root = match derive_master(network, seed.as_slice()) {
        Ok(key) => key,
        Err(e) => { return Err(e); },
    };
    let print = match fingerprint(&root) {
        Ok(text) => text,
        Err(e) => { return Err(e); },
    };
    let child = match derive_account_key(&root) {
        Ok(key) => key,
        Err(e) => { return Err(e); },
    };
    let key = match derive_address_key(&child, is_change, index) {
        Ok(key) => key,
        Err(e) => { return Err(e); },
    };
    let address = match taproot_address(network, &key.xonly_public_key) {
        Ok(text) => text,
        Err(e) => { return Err(e); },
    };
    Ok(
        KeyRecord {
            index,
            is_change,
            secret_key: key.secret_key,
            public_key: key.xonly_public_key,
            address,
            fingerprint: print,
            derivation_path: key.derivation_path,
        },
    )
}

/// Issues the next address of a branch: takes the wallet's seed, creating it
/// where the book has none, derives the key at the branch's next index, and
/// writes its record to the book. Returns the address's public key, its text
/// and its index.
///
/// Fails as [`generate_or_get_seed`] does, and with `Derivation` where the
/// next index does not fit or a derivation fails. A seed that was created
/// stays in the book also where the derivation then fails.
pub fn generate_new_key(store: &mut WalletStore, network: Network, is_change: bool) -> (r: Result<
    ([u8; 32], String, u32),
    WalletError,
>)
    ensures
        well_formed(old(store)@) ==> well_formed(final(store)@),
        match stored_seed_of(old(store)@.seeds) {
            Err(e) => r == Err::<([u8; 32], String, u32), WalletError>(e) && final(store)@ == old(
                store,
            )@,
            Ok(found) => {
                &&& final(store)@.seeds.len() == 1
                &&& found is Some ==> final(store)@.seeds == old(store)@.seeds
                &&& match next_record(
                    network,
                    final(store)@.seeds[0],
                    old(store)@.records,
                    is_change,
                ) {
                    Some(record) => {
                        &&& r matches Ok(issued)
                        &&& issued.0@ == record.public_key
                        &&& issued.1@ == record.address
                        &&& issued.2 == record.index
                        &&& final(store)@.records == old(store)@.records.push(record)
                        &&& issuance(old(store)@.records, final(store)@.records, is_change)
                    },
                    None => {
                        &&& r == Err::<([u8; 32], String, u32), WalletError>(
                            WalletError::Derivation,
                        )
                        &&& final(store)@.records == old(store)@.records
                    },
                }
            },
        },
{
    let seed = match generate_or_get_seed(store) {
        Ok(seed) => seed,
        Err(e) => { return Err(e); },
    };
    let bip32_index = match get_next_bip32_index(store, is_change) {
        Ok(index) => index,
        Err(e) => { return Err(e); },
    };
    let record = match derive_record(network, &seed, is_change, bip32_index) {
        Ok(record) => record,
        Err(e) => { return Err(e); },
    };
    insert_address(
        store,
        &record.secret_key,
        &record.public_key,
        bip32_index,
        record.address.as_str(),
        is_change,
        record.fingerprint.as_str(),
        record.derivation_path.as_str(),
    );
    proof {
        assert(final(store)@.records.drop_last() =~= old(store)@.records);
        if well_formed(old(store)@) {
            lemma_issuance_keeps_rising(old(store)@.records, final(store)@.records, is_change);
        }
    }
    Ok((record.public_key, record.address, bip32_index))
}

/// Whether the stored address of `record` is the one that its stored secret
/// key spends from.
pub open spec fn address_matches_key(network: Network, record: KeyRecordView) -> bool {
    address_of_secret(network, record.secret_key) == Some(record.address)
}

/// Derives the address of `record` again from its stored secret key and says
/// whether it is, letter for letter, the stored address.
pub fn check_record(network: Network, record: &KeyRecord) -> (r: bool)
    ensures
        r == address_matches_key(network, record@),
{
    match address_of_secret_key(network, &record.secret_key) {
        Ok(text) => text == record.address,
        Err(_) => false,
    }
}

/// Whether `history` is the record table after each of a run of issuances
/// that starts from an empty table, the `k`-th on the branch `branches[k]`.
pub open spec fn issuances(history: Seq<Seq<KeyRecordView>>, branches: Seq<bool>) -> bool {
    &&& history.len() == branches.len() + 1
    &&& history[0].len() == 0
    &&& forall|k: int|
        0 <= k < branches.len() ==> issuance(
            #[trigger] history[k],
            history[k + 1],
            branches[k],
        )
}

/// How many of `branches` are the given branch.
pub open spec fn issued_on(branches: Seq<bool>, is_change: bool) -> nat
    decreases branches.len(),
{
    if branches.len() == 0 {
        0
    } else {
        issued_on(branches.drop_last(), is_change) + if branches.last() == is_change {
            1nat
        } else {
            0nat
        }
    }
}

/// A table with more than one seed is an integrity failure, whatever else it
/// holds: of the seed itself, and so of every operation that starts by taking
/// the seed.
pub proof fn lemma_many_seeds_are_a_failure(seeds: Seq<Seq<u8>>)
    requires
        seeds.len() > 1,
    ensures
        stored_seed_of(seeds) == Err::<Option<Seq<u8>>, WalletError>(WalletError::Integrity),
{
}

/// The record of an address is a function of the seed, the network, the
/// branch and the index: deriving it twice gives the same secret key, the
/// same public key and the same address.
pub proof fn lemma_same_seed_same_keys(
    network: Network,
    seed: Seq<u8>,
    is_change: bool,
    index: u32,
    first: KeyRecordView,
    second: KeyRecordView,
)
    requires
        issued_record(network, seed, is_change, index) == Some(first),
        issued_record(network, seed, is_change, index) == Some(second),
    ensures
        first.secret_key == second.secret_key,
        first.public_key == second.public_key,
        first.address == second.address,
{
}

/// The address stored with an issued record is the address that its stored
/// secret key spends from.
pub proof fn lemma_issued_address_matches_key(
    network: Network,
    seed: Seq<u8>,
    is_change: bool,
    index: u32,
)
    requires
        issued_record(network, seed, is_change, index) is Some,
    ensures
        address_matches_key(network, issued_record(network, seed, is_change, index)->0),
{
}

/// The next index of a branch lies above every index of the branch, and
/// directly above one of them unless it is zero.
pub proof fn lemma_next_index_is_least_above(records: Seq<KeyRecordView>, is_change: bool)
    ensures
        next_index_of(records, is_change) >= 0,
        forall|i: int|
            0 <= i < records.len() && (#[trigger] records[i]).is_change == is_change
                ==> records[i].index < next_index_of(records, is_change),
        next_index_of(records, is_change) > 0 ==> exists|i: int|
            0 <= i < records.len() && (#[trigger] records[i]).is_change == is_change
                && records[i].index + 1 == next_index_of(records, is_change),
    decreases records.len(),
{
    if records.len() > 0 {
        let rest = records.drop_last();
        lemma_next_index_is_least_above(rest, is_change);
        assert forall|i: int|
            0 <= i < records.len() && (#[trigger] records[i]).is_change == is_change
                implies records[i].index < next_index_of(records, is_change) by {
            if i < rest.len() {
                assert(rest[i] == records[i]);
            }
        }
        if highest_index(records, is_change) == highest_index(rest, is_change) {
            // The record below the next index is one of `rest`.
            if next_index_of(rest, is_change) > 0 {
                let i = choose|i: int|
                    0 <= i < rest.len() && (#[trigger] rest[i]).is_change == is_change
                        && rest[i].index + 1 == next_index_of(rest, is_change);
                assert(records[i] == rest[i]);
            }
        } else {
            // It is the last record.
            assert(records[records.len() - 1] == records.last());
        }
    }
}

/// The index of a newly issued record is higher than every index that its
/// branch held before: no index is given out twice on a branch, and the
/// indices of a branch rise in the order of issuance.
pub proof fn lemma_issued_index_is_fresh(
    before: Seq<KeyRecordView>,
    after: Seq<KeyRecordView>,
    is_change: bool,
)
    requires
        issuance(before, after, is_change),
    ensures
        forall|i: int|
            0 <= i < before.len() && (#[trigger] before[i]).is_change == is_change
                ==> before[i].index < after.last().index,
{
    lemma_next_index_is_least_above(before, is_change);
}

/// Whether `record` carries the path of its own branch and index, as every
/// record does that the wallet has issued.
pub open spec fn carries_own_path(record: KeyRecordView) -> bool {
    record.derivation_path == derivation_path_text(record.is_change, record.index)
}

/// A record that the wallet issues carries the path of its branch and index.
pub proof fn lemma_issued_record_carries_own_path(
    network: Network,
    seed: Seq<u8>,
    is_change: bool,
    index: u32,
)
    requires
        issued_record(network, seed, is_change, index) is Some,
    ensures
        carries_own_path(issued_record(network, seed, is_change, index)->0),
        issued_record(network, seed, is_change, index)->0.index == index,
        issued_record(network, seed, is_change, index)->0.is_change == is_change,
{
}

/// A newly issued record sits where no record of its branch sat before: its
/// path differs from the path of every earlier record of the branch that
/// carries its own path.
pub proof fn lemma_issued_path_is_new(
    before: Seq<KeyRecordView>,
    after: Seq<KeyRecordView>,
    is_change: bool,
)
    requires
        issuance(before, after, is_change),
        carries_own_path(after.last()),
    ensures
        forall|i: int|
            0 <= i < before.len() && (#[trigger] before[i]).is_change == is_change
                && carries_own_path(before[i]) ==> before[i].derivation_path
                != after.last().derivation_path,
{
    lemma_issued_index_is_fresh(before, after, is_change);
    assert forall|i: int|
        0 <= i < before.len() && (#[trigger] before[i]).is_change == is_change
            && carries_own_path(before[i]) implies before[i].derivation_path
        != after.last().derivation_path by {
        lemma_paths_of_indices_differ(is_change, before[i].index, after.last().index);
    }
}

/// Whether a record of the branch has the index `index`.
pub open spec fn is_index_on(records: Seq<KeyRecordView>, is_change: bool, index: u32) -> bool {
    exists|i: int|
        0 <= i < records.len() && (#[trigger] records[i]).is_change == is_change
            && records[i].index == index
}

/// Every index of a branch is the index of a record of that branch.
proof fn lemma_branch_indices_are_of_records(records: Seq<KeyRecordView>, is_change: bool)
    ensures
        forall|k: int|
            0 <= k < branch_indices(records, is_change).len() ==> is_index_on(
                records,
                is_change,
                #[trigger] branch_indices(records, is_change)[k],
            ),
    decreases records.len(),
{
    if records.len() > 0 {
        let rest = records.drop_last();
        lemma_branch_indices_are_of_records(rest, is_change);
        let all = branch_indices(records, is_change);
        let fewer = branch_indices(rest, is_change);
        assert forall|k: int| 0 <= k < all.len() implies is_index_on(
            records,
            is_change,
            #[trigger] all[k],
        ) by {
            if k < fewer.len() {
                assert(is_index_on(rest, is_change, fewer[k]));
                let i = choose|i: int|
                    0 <= i < rest.len() && (#[trigger] rest[i]).is_change == is_change
                        && rest[i].index == fewer[k];
                assert(records[i] == rest[i]);
            } else {
                assert(records[records.len() - 1] == records.last());
            }
        }
    }
}

/// One issuance keeps the indices of its branch rising and leaves those of
/// the other branch as they were.
pub proof fn lemma_issuance_keeps_rising(
    before: Seq<KeyRecordView>,
    after: Seq<KeyRecordView>,
    is_change: bool,
)
    requires
        issuance(before, after, is_change),
        rising(branch_indices(before, is_change)),
    ensures
        rising(branch_indices(after, is_change)),
        branch_indices(after, !is_change) == branch_indices(before, !is_change),
{
    lemma_branch_indices_are_of_records(before, is_change);
    lemma_next_index_is_least_above(before, is_change);
    let earlier = branch_indices(before, is_change);
    let all = branch_indices(after, is_change);
    assert(all == earlier.push(after.last().index));
    assert forall|i: int, j: int| 0 <= i < j < all.len() implies all[i] < all[j] by {
        if j == earlier.len() {
            assert(is_index_on(before, is_change, earlier[i]));
        }
    }
}

/// Where the indices of a branch count up from zero, the highest of them is
/// their number less one.
proof fn lemma_highest_of_counting(records: Seq<KeyRecordView>, is_change: bool)
    requires
        counts_up(branch_indices(records, is_change)),
    ensures
        highest_index(records, is_change) == branch_indices(records, is_change).len() - 1,
    decreases records.len(),
{
    if records.len() > 0 {
        let rest = records.drop_last();
        let all = branch_indices(records, is_change);
        let fewer = branch_indices(rest, is_change);
        assert forall|i: int| 0 <= i < fewer.len() implies fewer[i] == i by {
            assert(fewer[i] == all[i]);
        }
        lemma_highest_of_counting(rest, is_change);
        if records.last().is_change == is_change {
            assert(all[all.len() - 1] == records.last().index);
        }
    }
}

/// One issuance on a branch whose indices count up from zero gives the new
/// record the branch's count as its index, so that the indices still count
/// up, and leaves the indices of the other branch as they were.
pub proof fn lemma_issuance_counts_on(
    before: Seq<KeyRecordView>,
    after: Seq<KeyRecordView>,
    is_change: bool,
)
    requires
        issuance(before, after, is_change),
        counts_up(branch_indices(before, is_change)),
    ensures
        after.last().index == branch_indices(before, is_change).len(),
        branch_indices(after, is_change) == branch_indices(before, is_change).push(
            after.last().index,
        ),
        counts_up(branch_indices(after, is_change)),
        branch_indices(after, !is_change) == branch_indices(before, !is_change),
{
    lemma_highest_of_counting(before, is_change);
}

/// After a run of issuances from an empty table, the indices of each branch
/// are `0, 1, 2, ...` in the order of issuance, as many as were issued on
/// that branch: the two branches are numbered apart.
pub proof fn lemma_sequential_issuances(
    history: Seq<Seq<KeyRecordView>>,
    branches: Seq<bool>,
    is_change: bool,
)
    requires
        issuances(history, branches),
    ensures
        counts_up(branch_indices(history.last(), is_change)),
        branch_indices(history.last(), is_change).len() == issued_on(branches, is_change),
    decreases branches.len(),
{
    if branches.len() > 0 {
        let earlier = history.drop_last();
        let fewer = branches.drop_last();
        assert(issuances(earlier, fewer)) by {
            assert forall|k: int| 0 <= k < fewer.len() implies issuance(
                #[trigger] earlier[k],
                earlier[k + 1],
                fewer[k],
            ) by {
                assert(issuance(history[k], history[k + 1], branches[k]));
            }
        }
        lemma_sequential_issuances(earlier, fewer, is_change);
        lemma_sequential_issuances(earlier, fewer, !is_change);
        let n = branches.len() - 1;
        if branches[n] == is_change {
            lemma_issuance_counts_on(history[n], history[n + 1], is_change);
        } else {
            lemma_issuance_counts_on(history[n], history[n + 1], !is_change);
        }
    }
}

} // verus!

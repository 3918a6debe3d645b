//! Key derivation: the master key of a seed, the account key on the fixed
//! Taproot path, and the key of each address beneath it.
use vstd::prelude::*;
use vstd::string::*;
use crate::error::WalletError;
use crate::primitives::{
    derive_child_key, derived_key_of, key_fingerprint, fingerprint_of, master_key, master_key_of,
    p2tr_address, p2tr_address_of, x_only_public_key, x_only_public_key_of,
};
use crate::text::{decimal, lemma_decimal_is_injective, push_decimal};
use crate::types::Network;

verus! {

/// The number of bytes of a seed.
pub const SEED_LEN: usize = 32;

/// The bit that marks a hardened step of a derivation path.
pub const HARDENED: u32 = 0x8000_0000;

/// The purpose of the account path: single-key Taproot.
pub const PURPOSE: u32 = 86;

/// The text of the account path.
pub const ACCOUNT_PATH_TEXT: &'static str = "m/86h/0h/0h";

/// An extended private key, in its 78-byte binary encoding. The fifth byte is
/// the depth of the key; the last 32 bytes are the secret key.
#[derive(Clone, Copy, Debug)]
pub struct ExtendedKey {
    pub encoded: [u8; 78],
}

/// The key of one address.
#[derive(Debug)]
pub struct AddressKey {
    pub secret_key: [u8; 32],
    pub xonly_public_key: [u8; 32],
    pub derivation_path: String,
}

/// What an [`AddressKey`] holds, as mathematical values.
pub struct AddressKeyView {
    pub secret_key: Seq<u8>,
    pub xonly_public_key: Seq<u8>,
    pub derivation_path: Seq<char>,
}

impl View for AddressKey {
    type V = AddressKeyView;

    open spec fn view(&self) -> AddressKeyView {
        AddressKeyView {
            secret_key: self.secret_key@,
            xonly_public_key: self.xonly_public_key@,
            derivation_path: self.derivation_path@,
        }
    }
}

/// The number of a branch: 0 for addresses handed out, 1 for change.
pub open spec fn branch_number(is_change: bool) -> u32 {
    if is_change {
        1
    } else {
        0
    }
}

/// The account path `m/86'/0'/0'`, each step with its hardened bit.
pub open spec fn account_path() -> Seq<u32> {
    seq![0x8000_0056u32, 0x8000_0000u32, 0x8000_0000u32]
}

/// The two steps from the account key to the key of an address.
pub open spec fn address_path(is_change: bool, index: u32) -> Seq<u32> {
    seq![branch_number(is_change), index]
}

/// The text of the path of an address: the account path, the branch and the
/// index.
pub open spec fn derivation_path_text(is_change: bool, index: u32) -> Seq<char> {
    ACCOUNT_PATH_TEXT@ + "/"@ + decimal(branch_number(is_change) as nat) + "/"@ + decimal(
        index as nat,
    )
}

/// The master key of a seed: there is one only for a seed of 32 bytes.
pub open spec fn master_of(network: Network, seed: Seq<u8>) -> Option<Seq<u8>> {
    if seed.len() == SEED_LEN {
        master_key_of(network, seed)
    } else {
        None
    }
}

/// The account key beneath an encoded master key.
pub open spec fn account_of(master: Seq<u8>) -> Option<Seq<u8>> {
    if master.len() == 78 && master[4] <= 252 {
        derived_key_of(master, account_path())
    } else {
        None
    }
}

/// The secret key that an encoded extended key carries.
pub open spec fn secret_of(key: Seq<u8>) -> Seq<u8> {
    key.subrange(46, 78)
}

/// The key of the address at `index` on a branch beneath an encoded account
/// key. There is none for an index of 2^31 or more.
pub open spec fn address_key_of(account: Seq<u8>, is_change: bool, index: u32) -> Option<
    AddressKeyView,
> {
    if account.len() == 78 && account[4] <= 253 && index < HARDENED {
        match derived_key_of(account, address_path(is_change, index)) {
            Some(child) => match x_only_public_key_of(secret_of(child)) {
                Some(public) => Some(
                    AddressKeyView {
                        secret_key: secret_of(child),
                        xonly_public_key: public,
                        derivation_path: derivation_path_text(is_change, index),
                    },
                ),
                None => None,
            },
            None => None,
        }
    } else {
        None
    }
}

/// The Taproot address that a secret key spends from.
pub open spec fn address_of_secret(network: Network, secret: Seq<u8>) -> Option<Seq<char>> {
    match x_only_public_key_of(secret) {
        Some(public) => p2tr_address_of(network, public),
        None => None,
    }
}

/// The master key of `seed`.
///
/// Fails with `Derivation` where the seed has not 32 bytes or yields no key.
pub fn derive_master(network: Network, seed: &[u8]) -> (r: Result<ExtendedKey, WalletError>)
    ensures
        match r {
            Ok(key) => master_of(network, seed@) == Some(key.encoded@),
            Err(e) => e == WalletError::Derivation && master_of(network, seed@) is None,
        },
{
    if seed.len() != SEED_LEN {
        return Err(WalletError::Derivation);
    }
    match master_key(network, seed) {
        Some(encoded) => Ok(ExtendedKey { encoded }),
        None => Err(WalletError::Derivation),
    }
}

/// The fingerprint of a key, as text.
pub fn fingerprint(key: &ExtendedKey) -> (r: Result<String, WalletError>)
    ensures
        match r {
            Ok(text) => fingerprint_of(key.encoded@) == Some(text@),
            Err(e) => e == WalletError::Derivation && fingerprint_of(key.encoded@) is None,
        },
{
    match key_fingerprint(&key.encoded) {
        Some(text) => Ok(text),
        None => Err(WalletError::Derivation),
    }
}

/// The account key beneath `master`, three hardened steps down.
///
/// Fails with `Derivation` where `master` is no key or lies too deep for
/// three more steps.
pub fn derive_account_key(master: &ExtendedKey) -> (r: Result<ExtendedKey, WalletError>)
    ensures
        match r {
            Ok(key) => account_of(master.encoded@) == Some(key.encoded@),
            Err(e) => e == WalletError::Derivation && account_of(master.encoded@) is None,
        },
{
    if master.encoded[4] > 252 {
        return Err(WalletError::Derivation);
    }
    let path: Vec<u32> = vec![HARDENED + PURPOSE, HARDENED, HARDENED];
    match derive_child_key(&master.encoded, &path) {
        Some(encoded) => Ok(ExtendedKey { encoded }),
        None => Err(WalletError::Derivation),
    }
}

/// The secret key that `key` carries.
pub fn secret_key(key: &ExtendedKey) -> (secret: [u8; 32])
    ensures
        secret@ == secret_of(key.encoded@),
{
    let mut secret = [0u8; 32];
    let mut i: usize = 0;
    while i < 32
        invariant
            i <= 32,
            forall|j: int| 0 <= j < i ==> secret@[j] == key.encoded@[46 + j],
        decreases 32 - i,
    {
        secret[i] = key.encoded[46 + i];
        i += 1;
    }
    secret
}

/// The text of the path of the address at `index` on a branch.
pub fn derivation_path(is_change: bool, index: u32) -> (text: String)
    ensures
        text@ == derivation_path_text(is_change, index),
{
    let mut text = String::from_str(ACCOUNT_PATH_TEXT);
    text.append("/");
    push_decimal(&mut text, if is_change { 1 } else { 0 });
    text.append("/");
    push_decimal(&mut text, index);
    text
}

/// The key of the address at `index` on a branch beneath `account`.
///
/// Fails with `Derivation` where the index is 2^31 or more, `account` is no
/// key or lies too deep, or the child carries no valid secret key.
pub fn derive_address_key(account: &ExtendedKey, is_change: bool, index: u32) -> (r: Result<
    AddressKey,
    WalletError,
>)
    ensures
        match r {
            Ok(key) => address_key_of(account.encoded@, is_change, index) == Some(key@),
            Err(e) => e == WalletError::Derivation && address_key_of(
                account.encoded@,
                is_change,
                index,
            ) is None,
        },
{
    if account.encoded[4] > 253 || index >= HARDENED {
        return Err(WalletError::Derivation);
    }
    let branch: u32 = if is_change { 1 } else { 0 };
    let path: Vec<u32> = vec![branch, index];
    let child = match derive_child_key(&account.encoded, &path) {
        Some(encoded) => ExtendedKey { encoded },
        None => { return Err(WalletError::Derivation); },
    };
    let secret = secret_key(&child);
    match x_only_public_key(&secret) {
        Some(public) => Ok(
            AddressKey {
                secret_key: secret,
                xonly_public_key: public,
                derivation_path: derivation_path(is_change, index),
            },
        ),
        None => Err(WalletError::Derivation),
    }
}

/// The Taproot address of the x-only public key `key`, with no script tree.
///
/// Fails with `Derivation` where `key` is no public key.
pub fn taproot_address(network: Network, key: &[u8; 32]) -> (r: Result<String, WalletError>)
    ensures
        match r {
            Ok(text) => p2tr_address_of(network, key@) == Some(text@),
            Err(e) => e == WalletError::Derivation && p2tr_address_of(network, key@) is None,
        },
{
    match p2tr_address(network, key) {
        Some(text) => Ok(text),
        None => Err(WalletError::Derivation),
    }
}

/// The Taproot address that the secret key `secret` spends from.
///
/// Fails with `Derivation` where `secret` is no valid secret key.
pub fn address_of_secret_key(network: Network, secret: &[u8; 32]) -> (r: Result<
    String,
    WalletError,
>)
    ensures
        match r {
            Ok(text) => address_of_secret(network, secret@) == Some(text@),
            Err(e) => e == WalletError::Derivation && address_of_secret(network, secret@) is None,
        },
{
    match x_only_public_key(secret) {
        Some(public) => taproot_address(network, &public),
        None => Err(WalletError::Derivation),
    }
}

/// Two addresses of one branch with different indices have different paths.
pub proof fn lemma_paths_of_indices_differ(is_change: bool, first: u32, second: u32)
    requires
        first != second,
    ensures
        derivation_path_text(is_change, first) != derivation_path_text(is_change, second),
{
    let stem = ACCOUNT_PATH_TEXT@ + "/"@ + decimal(branch_number(is_change) as nat) + "/"@;
    let one = derivation_path_text(is_change, first);
    let other = derivation_path_text(is_change, second);
    if one == other {
        assert(one =~= stem + decimal(first as nat));
        assert(other =~= stem + decimal(second as nat));
        assert(one.skip(stem.len() as int) =~= decimal(first as nat));
        assert(other.skip(stem.len() as int) =~= decimal(second as nat));
        lemma_decimal_is_injective(first as nat, second as nat);
    }
}

} // verus!

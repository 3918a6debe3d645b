//! The plain values the wallet works on: networks, addresses, transactions.
use vstd::prelude::*;

verus! {

/// The chain a key or an address is meant for.
#[derive(Clone, Copy, Debug, PartialEq, Eq, Structural)]
pub enum Network {
    Bitcoin,
    Testnet,
    Signet,
    Regtest,
}

/// An address: its text and the script that locks what is paid to it.
#[derive(Debug)]
pub struct Address {
    pub text: String,
    pub script_pubkey: Vec<u8>,
}

/// What an [`Address`] holds, as mathematical values.
pub struct AddressView {
    pub text: Seq<char>,
    pub script_pubkey: Seq<u8>,
}

impl View for Address {
    type V = AddressView;

    open spec fn view(&self) -> AddressView {
        AddressView { text: self.text@, script_pubkey: self.script_pubkey@ }
    }
}

impl Clone for Address {
    fn clone(&self) -> (r: Self)
        ensures
            r@ == self@,
    {
        Address { text: self.text.clone(), script_pubkey: self.script_pubkey.clone() }
    }
}

/// A transaction output: an amount in satoshis and the script that locks it.
#[derive(Debug)]
pub struct TxOut {
    pub value: u64,
    pub script_pubkey: Vec<u8>,
}

/// What a [`TxOut`] holds, as mathematical values.
pub struct TxOutView {
    pub value: u64,
    pub script_pubkey: Seq<u8>,
}

impl View for TxOut {
    type V = TxOutView;

    open spec fn view(&self) -> TxOutView {
        TxOutView { value: self.value, script_pubkey: self.script_pubkey@ }
    }
}

impl Clone for TxOut {
    fn clone(&self) -> (r: Self)
        ensures
            r@ == self@,
    {
        TxOut { value: self.value, script_pubkey: self.script_pubkey.clone() }
    }
}

/// A transaction input: the output it spends, and what unlocks it.
#[derive(Debug)]
pub struct TxIn {
    /// The id of the transaction that holds the spent output.
    pub txid: [u8; 32],
    /// The index of the spent output in that transaction.
    pub vout: u32,
    pub script_sig: Vec<u8>,
    pub sequence: u32,
    pub witness: Vec<Vec<u8>>,
}

/// What a [`TxIn`] holds, as mathematical values.
pub struct TxInView {
    pub txid: Seq<u8>,
    pub vout: u32,
    pub script_sig: Seq<u8>,
    pub sequence: u32,
    pub witness: Seq<Seq<u8>>,
}

impl View for TxIn {
    type V = TxInView;

    open spec fn view(&self) -> TxInView {
        TxInView {
            txid: self.txid@,
            vout: self.vout,
            script_sig: self.script_sig@,
            sequence: self.sequence,
            witness: self.witness@.map_values(|item: Vec<u8>| item@),
        }
    }
}

/// A transaction.
#[derive(Debug)]
pub struct Transaction {
    pub version: i32,
    pub lock_time: u32,
    pub input: Vec<TxIn>,
    pub output: Vec<TxOut>,
}

/// What a [`Transaction`] holds, as mathematical values.
pub struct TransactionView {
    pub version: i32,
    pub lock_time: u32,
    pub input: Seq<TxInView>,
    pub output: Seq<TxOutView>,
}

/// The outputs of `s`, each by its view.
pub open spec fn outputs_view(s: Seq<TxOut>) -> Seq<TxOutView> {
    s.map_values(|o: TxOut| o@)
}

/// The inputs of `s`, each by its view.
pub open spec fn inputs_view(s: Seq<TxIn>) -> Seq<TxInView> {
    s.map_values(|i: TxIn| i@)
}

impl View for Transaction {
    type V = TransactionView;

    open spec fn view(&self) -> TransactionView {
        TransactionView {
            version: self.version,
            lock_time: self.lock_time,
            input: inputs_view(self.input@),
            output: outputs_view(self.output@),
        }
    }
}

/// An input without what unlocks it: no unlocking script and no witness.
pub open spec fn unsigned_input_form(input: TxInView) -> TxInView {
    TxInView { script_sig: Seq::empty(), witness: Seq::empty(), ..input }
}

/// A transaction without what unlocks its inputs. This is the form that the
/// signature hash is taken of: a signature commits to everything of a
/// transaction but the unlocking scripts and the witnesses.
pub open spec fn unsigned_form(tx: TransactionView) -> TransactionView {
    TransactionView {
        input: tx.input.map_values(|input: TxInView| unsigned_input_form(input)),
        ..tx
    }
}

/// Whether `tx` carries nothing that unlocks its inputs.
pub open spec fn is_unsigned(tx: TransactionView) -> bool {
    forall|i: int|
        0 <= i < tx.input.len() ==> (#[trigger] tx.input[i]).script_sig.len() == 0
            && tx.input[i].witness.len() == 0
}

/// A transaction is unsigned exactly where it is its own unsigned form.
pub proof fn lemma_unsigned_is_own_form(tx: TransactionView)
    ensures
        is_unsigned(tx) <==> unsigned_form(tx) == tx,
{
    if is_unsigned(tx) {
        assert forall|i: int| 0 <= i < tx.input.len() implies unsigned_form(tx).input[i]
            == tx.input[i] by {
            assert(tx.input[i].script_sig =~= Seq::<u8>::empty());
            assert(tx.input[i].witness =~= Seq::<Seq<u8>>::empty());
        }
        assert(unsigned_form(tx).input =~= tx.input);
    }
    if unsigned_form(tx) == tx {
        assert forall|i: int| 0 <= i < tx.input.len() implies (#[trigger] tx.input[i]).script_sig.len()
            == 0 && tx.input[i].witness.len() == 0 by {
            assert(unsigned_form(tx).input[i] == unsigned_input_form(tx.input[i]));
        }
    }
}

/// The room that a witness takes where it is encoded, counted generously:
/// the bytes of each item and nine more for its length.
pub open spec fn witness_weight(witness: Seq<Seq<u8>>) -> int
    decreases witness.len(),
{
    if witness.len() == 0 {
        0
    } else {
        witness_weight(witness.drop_last()) + witness.last().len() + 9
    }
}

/// The most that the witness of one input may weigh: where an item starts
/// must fit in 32 bits.
pub const MAX_WITNESS_WEIGHT: u64 = 0xffff_ffff;

/// Whether the witness of every input of `tx` is small enough to be encoded.
pub open spec fn witnesses_fit(tx: TransactionView) -> bool {
    forall|i: int|
        0 <= i < tx.input.len() ==> witness_weight((#[trigger] tx.input[i]).witness)
            <= MAX_WITNESS_WEIGHT
}

/// A witness weighs at least what its first items weigh.
proof fn lemma_witness_weight_grows(witness: Seq<Seq<u8>>, count: int)
    requires
        0 <= count <= witness.len(),
    ensures
        0 <= witness_weight(witness.take(count)) <= witness_weight(witness),
    decreases witness.len(),
{
    if count == witness.len() {
        assert(witness.take(count) =~= witness);
        if witness.len() > 0 {
            lemma_witness_weight_grows(witness.drop_last(), count - 1);
            assert(witness.drop_last().take(count - 1) =~= witness.drop_last());
        }
    } else {
        lemma_witness_weight_grows(witness.drop_last(), count);
        assert(witness.drop_last().take(count) =~= witness.take(count));
    }
}

/// Whether `witness` weighs no more than [`MAX_WITNESS_WEIGHT`].
pub fn witness_fits(witness: &Vec<Vec<u8>>) -> (r: bool)
    ensures
        r == (witness_weight(witness@.map_values(|item: Vec<u8>| item@)) <= MAX_WITNESS_WEIGHT),
{
    let ghost items = witness@.map_values(|item: Vec<u8>| item@);
    let mut weight: u128 = 0;
    let mut i: usize = 0;
    while i < witness.len()
        invariant
            i <= witness@.len(),
            items == witness@.map_values(|item: Vec<u8>| item@),
            weight == witness_weight(items.take(i as int)),
            weight <= MAX_WITNESS_WEIGHT,
        decreases witness@.len() - i,
    {
        assert(items.take(i + 1).drop_last() =~= items.take(i as int));
        weight = weight + witness[i].len() as u128 + 9;
        if weight > MAX_WITNESS_WEIGHT as u128 {
            proof {
                lemma_witness_weight_grows(items, i + 1);
            }
            return false;
        }
        i += 1;
    }
    assert(items.take(i as int) =~= items);
    true
}

/// Whether the witness of every input of `tx` is small enough to be encoded.
pub fn can_be_encoded(tx: &Transaction) -> (r: bool)
    ensures
        r == witnesses_fit(tx@),
{
    let mut i: usize = 0;
    while i < tx.input.len()
        invariant
            i <= tx.input@.len(),
            forall|j: int|
                0 <= j < i ==> witness_weight((#[trigger] tx@.input[j]).witness)
                    <= MAX_WITNESS_WEIGHT,
        decreases tx.input@.len() - i,
    {
        assert(tx@.input[i as int] == tx.input@[i as int]@);
        if !witness_fits(&tx.input[i].witness) {
            return false;
        }
        i += 1;
    }
    true
}

/// An unsigned transaction can be encoded: its witnesses are empty.
pub proof fn lemma_unsigned_fits(tx: TransactionView)
    requires
        is_unsigned(tx),
    ensures
        witnesses_fit(tx),
{
    assert forall|i: int| 0 <= i < tx.input.len() implies witness_weight(
        (#[trigger] tx.input[i]).witness,
    ) <= MAX_WITNESS_WEIGHT by {
        assert(tx.input[i].witness.len() == 0);
    }
}

/// A copy of `outputs`.
pub fn clone_outputs(outputs: &Vec<TxOut>) -> (r: Vec<TxOut>)
    ensures
        outputs_view(r@) == outputs_view(outputs@),
{
    let mut r: Vec<TxOut> = Vec::new();
    let mut i: usize = 0;
    while i < outputs.len()
        invariant
            i <= outputs.len(),
            r@.len() == i,
            forall|j: int| 0 <= j < i ==> r@[j]@ == outputs@[j]@,
        decreases outputs.len() - i,
    {
        r.push(outputs[i].clone());
        i += 1;
    }
    r
}

} // verus!

//! Turning fetched blocks into rows and column arrays for the store.

use crate::amount::{
    decimal_text, digits_value, lemma_decimal_text_round_trip, lemma_four_limbs, U256,
};
use crate::decimal::{
    as_u256, u256_decimal, u64_decimal, whole, ConversionError, Decimal, DecimalValue,
};
use crate::ledger::{
    hex_text, lemma_hex_text_len, receipt_confirms, receipt_status, render_address, render_hash, Block, ReceiptLookup,
    Transaction,
};
use vstd::prelude::*;

verus! {

/// What the node answered when asked for the block at a height.
#[derive(Clone, Debug, PartialEq, Eq)]
pub enum FetchReply {
    /// The call failed after the client's retries were spent.
    Unreachable,
    /// The node holds no block at that height.
    Missing,
    /// The block, with its transactions.
    Found(Block),
}

/// Why a height could not be fetched.
#[derive(Clone, Copy, Debug, PartialEq, Eq, Structural)]
pub enum FetchError {
    /// The node holds no block at that height.
    NotFound,
    /// The call failed after the client's retries were spent.
    Transport,
}

/// The block that a fetch produced, or why there is none.
pub fn transaction_from_block(reply: FetchReply) -> (fetched: Result<Block, FetchError>)
    ensures
        fetched == match reply {
            FetchReply::Found(block) => Ok::<Block, FetchError>(block),
            FetchReply::Missing => Err(FetchError::NotFound),
            FetchReply::Unreachable => Err(FetchError::Transport),
        },
{
    match reply {
        FetchReply::Found(block) => Ok(block),
        FetchReply::Missing => Err(FetchError::NotFound),
        FetchReply::Unreachable => Err(FetchError::Transport),
    }
}

/// One transaction, ready for the store.
#[derive(Clone, Debug, PartialEq, Eq)]
pub struct NormalizedRow {
    pub time: i32,
    pub tx_from: String,
    pub tx_to: String,
    pub value: Decimal,
    pub gas: Decimal,
    pub gas_price: Decimal,
    pub block: Decimal,
    pub tx_hash: String,
    pub contract_to: String,
    pub contract_value: String,
    pub status: bool,
}

/// What a row holds.
pub ghost struct RowView {
    pub time: i32,
    pub tx_from: Seq<char>,
    pub tx_to: Seq<char>,
    pub value: DecimalValue,
    pub gas: DecimalValue,
    pub gas_price: DecimalValue,
    pub block: DecimalValue,
    pub tx_hash: Seq<char>,
    pub contract_to: Seq<char>,
    pub contract_value: Seq<char>,
    pub status: bool,
}

impl View for NormalizedRow {
    type V = RowView;

    open spec fn view(&self) -> RowView {
        RowView {
            time: self.time,
            tx_from: self.tx_from@,
            tx_to: self.tx_to@,
            value: self.value@,
            gas: self.gas@,
            gas_price: self.gas_price@,
            block: self.block@,
            tx_hash: self.tx_hash@,
            contract_to: self.contract_to@,
            contract_value: self.contract_value@,
            status: self.status,
        }
    }
}

/// The row for a transaction of the block at `height` with timestamp `time`:
/// addresses and hash in canonical text, an absent recipient as the empty
/// text, every amount as the whole number it is, an absent gas price as zero,
/// and the contract fields empty.
pub open spec fn normalized(time: i32, height: u64, tx: Transaction, status: bool) -> RowView {
    RowView {
        time,
        tx_from: hex_text(tx.from.bytes@),
        tx_to: match tx.to {
            Some(to) => hex_text(to.bytes@),
            None => Seq::empty(),
        },
        value: whole(tx.value@),
        gas: whole(tx.gas@),
        gas_price: match tx.gas_price {
            Some(price) => whole(price@),
            None => whole(0),
        },
        block: whole(height as nat),
        tx_hash: hex_text(tx.hash.bytes@),
        contract_to: Seq::empty(),
        contract_value: Seq::empty(),
        status,
    }
}

/// Whatever 256-bit quantity a transaction holds as its value, its gas or
/// its gas price, zero and 2^256 - 1 included, the base-10 text of the
/// quantity reads back as the quantity, and the decimal in the transaction's
/// row reads back as the quantity too.
pub proof fn lemma_amounts_read_back_exactly(time: i32, height: u64, tx: Transaction, status: bool)
    ensures
        digits_value(decimal_text(tx.value@)) == tx.value@,
        digits_value(decimal_text(tx.gas@)) == tx.gas@,
        as_u256(normalized(time, height, tx, status).value) == Some(tx.value@),
        as_u256(normalized(time, height, tx, status).gas) == Some(tx.gas@),
        tx.gas_price matches Some(price) ==> digits_value(decimal_text(price@)) == price@
            && as_u256(normalized(time, height, tx, status).gas_price) == Some(price@),
        tx.gas_price is None ==> as_u256(normalized(time, height, tx, status).gas_price) == Some(
            0nat,
        ),
{
    lemma_decimal_text_round_trip(tx.value@);
    lemma_decimal_text_round_trip(tx.gas@);
    lemma_four_limbs(tx.value.limbs@);
    lemma_four_limbs(tx.gas.limbs@);
    if let Some(price) = tx.gas_price {
        lemma_decimal_text_round_trip(price@);
        lemma_four_limbs(price.limbs@);
    }
    lemma_four_limbs(U256 { limbs: [0, 0, 0, 0] }.limbs@);
}

/// The recipient column of a row is the empty text exactly when the
/// transaction has no recipient; a recipient that is present is written out
/// in full, as 42 characters.
pub proof fn lemma_recipient_empty_iff_absent(time: i32, height: u64, tx: Transaction, status: bool)
    ensures
        normalized(time, height, tx, status).tx_to.len() == 0 <==> tx.to is None,
        tx.to is Some ==> normalized(time, height, tx, status).tx_to.len() == 42,
        normalized(time, height, tx, status).tx_from.len() == 42,
{
    lemma_hex_text_len(tx.from.bytes@);
    if let Some(to) = tx.to {
        lemma_hex_text_len(to.bytes@);
    }
}

/// Builds the row to insert for one transaction. `receipt` is what the
/// receipt lookup for the transaction came back with.
pub fn insert_transaction_from_block(
    time: i32,
    block_id: u64,
    transaction: &Transaction,
    receipt: &ReceiptLookup,
) -> (row: Result<NormalizedRow, ConversionError>)
    ensures
        row is Ok,
        row->Ok_0@ == normalized(time, block_id, *transaction, receipt_confirms(*receipt)),
{
    let tx_from = render_address(&transaction.from);
    let tx_to = match &transaction.to {
        Some(to) => render_address(to),
        None => String::new(),
    };
    let value = match u256_decimal(transaction.value) {
        Ok(d) => d,
        Err(e) => { return Err(e); },
    };
    let gas = match u256_decimal(transaction.gas) {
        Ok(d) => d,
        Err(e) => { return Err(e); },
    };
    let gas_price = match transaction.gas_price {
        Some(price) => match u256_decimal(price) {
            Ok(d) => d,
            Err(e) => { return Err(e); },
        },
        None => Decimal::zero(),
    };
    let block = match u64_decimal(block_id) {
        Ok(d) => d,
        Err(e) => { return Err(e); },
    };
    let tx_hash = render_hash(&transaction.hash);
    Ok(
        NormalizedRow {
            time,
            tx_from,
            tx_to,
            value,
            gas,
            gas_price,
            block,
            tx_hash,
            contract_to: String::new(),
            contract_value: String::new(),
            status: receipt_status(receipt),
        },
    )
}

/// The rows of one block as parallel arrays, one array for each column of
/// the store. The arrays are aligned: the entries at one index are one row.
#[derive(Clone, Debug, PartialEq, Eq)]
pub struct ColumnBatch {
    pub time: Vec<i32>,
    pub tx_from: Vec<String>,
    pub tx_to: Vec<String>,
    pub value: Vec<Decimal>,
    pub gas: Vec<Decimal>,
    pub gas_price: Vec<Decimal>,
    pub block: Vec<Decimal>,
    pub tx_hash: Vec<String>,
    pub contract_to: Vec<String>,
    pub contract_value: Vec<String>,
    pub status: Vec<bool>,
}

impl ColumnBatch {
    /// Every column has one entry for each row.
    pub open spec fn wf(&self) -> bool {
        &&& self.tx_from.len() == self.time.len()
        &&& self.tx_to.len() == self.time.len()
        &&& self.value.len() == self.time.len()
        &&& self.gas.len() == self.time.len()
        &&& self.gas_price.len() == self.time.len()
        &&& self.block.len() == self.time.len()
        &&& self.tx_hash.len() == self.time.len()
        &&& self.contract_to.len() == self.time.len()
        &&& self.contract_value.len() == self.time.len()
        &&& self.status.len() == self.time.len()
    }

    /// The row made of the entries at index `i`.
    pub open spec fn row(&self, i: int) -> RowView {
        RowView {
            time: self.time[i],
            tx_from: self.tx_from[i]@,
            tx_to: self.tx_to[i]@,
            value: self.value[i]@,
            gas: self.gas[i]@,
            gas_price: self.gas_price[i]@,
            block: self.block[i]@,
            tx_hash: self.tx_hash[i]@,
            contract_to: self.contract_to[i]@,
            contract_value: self.contract_value[i]@,
            status: self.status[i],
        }
    }

    /// A batch without rows.
    pub fn new() -> (batch: ColumnBatch)
        ensures
            batch.wf(),
            batch@ == Seq::<RowView>::empty(),
    {
        ColumnBatch {
            time: Vec::new(),
            tx_from: Vec::new(),
            tx_to: Vec::new(),
            value: Vec::new(),
            gas: Vec::new(),
            gas_price: Vec::new(),
            block: Vec::new(),
            tx_hash: Vec::new(),
            contract_to: Vec::new(),
            contract_value: Vec::new(),
            status: Vec::new(),
        }
    }

    /// The number of rows.
    pub fn len(&self) -> (n: usize)
        ensures
            n == self@.len(),
    {
        self.time.len()
    }

    /// Appends one row, an entry to each column.
    pub fn push(&mut self, row: NormalizedRow)
        requires
            old(self).wf(),
        ensures
            final(self).wf(),
            final(self)@ == old(self)@.push(row@),
    {
        self.time.push(row.time);
        self.tx_from.push(row.tx_from);
        self.tx_to.push(row.tx_to);
        self.value.push(row.value);
        self.gas.push(row.gas);
        self.gas_price.push(row.gas_price);
        self.block.push(row.block);
        self.tx_hash.push(row.tx_hash);
        self.contract_to.push(row.contract_to);
        self.contract_value.push(row.contract_value);
        self.status.push(row.status);
    }
}

impl View for ColumnBatch {
    type V = Seq<RowView>;

    open spec fn view(&self) -> Seq<RowView> {
        Seq::new(self.time.len() as nat, |i: int| self.row(i))
    }
}

/// Why a block's rows could not be built.
#[derive(Clone, Copy, Debug, PartialEq, Eq, Structural)]
pub enum BatchError {
    /// There is not exactly one receipt lookup for each transaction.
    ReceiptCount,
    /// An amount could not be converted. No block makes this happen: it is
    /// there so that a refusal by the decimal parser would stop the block
    /// instead of storing a made-up amount.
    Conversion,
}

/// The truncation of a block's timestamp to the 32 bits of the store's
/// `time` column.
pub open spec fn row_time(timestamp: i64) -> i32 {
    timestamp as i32
}

/// The rows of a block, one for each transaction and in the block's order.
/// `receipts[i]` is what the receipt lookup for transaction `i` came back
/// with.
pub open spec fn normalized_block(block: Block, receipts: Seq<ReceiptLookup>) -> Seq<RowView> {
    Seq::new(
        block.transactions.len() as nat,
        |i: int|
            normalized(
                row_time(block.timestamp),
                block.height,
                block.transactions[i],
                receipt_confirms(receipts[i]),
            ),
    )
}

/// Builds the column arrays to insert for one block: one row for each of its
/// transactions, in the block's order. Fails with `ReceiptCount`, and builds
/// nothing, unless there is one receipt lookup for each transaction.
pub fn insert_transactions_from_block(block: &Block, receipts: &Vec<ReceiptLookup>) -> (batch:
    Result<ColumnBatch, BatchError>)
    ensures
        receipts.len() == block.transactions.len() ==> batch is Ok,
        receipts.len() != block.transactions.len() ==> batch == Err::<ColumnBatch, BatchError>(
            BatchError::ReceiptCount,
        ),
        batch matches Ok(columns) ==> columns.wf() && columns@ == normalized_block(
            *block,
            receipts@,
        ) && columns@.len() == block.transactions.len(),
{
    let count = block.transactions.len();
    if receipts.len() != count {
        return Err(BatchError::ReceiptCount);
    }
    let time = #[verifier::truncate]
    (block.timestamp as i32);
    let mut columns = ColumnBatch::new();
    let mut i: usize = 0;
    while i < count
        invariant
            i <= count,
            count == block.transactions.len(),
            count == receipts.len(),
            time == row_time(block.timestamp),
            columns.wf(),
            columns@ == normalized_block(*block, receipts@).take(i as int),
        decreases count - i,
    {
        match insert_transaction_from_block(time, block.height, &block.transactions[i], &receipts[i]) {
            Ok(row) => columns.push(row),
            Err(_) => {
                return Err(BatchError::Conversion);
            },
        }
        i += 1;
    }
    Ok(columns)
}

} // verus!

//! Blocks and transactions as the ledger reports them.

use crate::amount::U256;
use vstd::prelude::*;

verus! {

/// The lowercase hexadecimal digit that stands for `n`, for `n` below sixteen.
pub open spec fn hex_digit(n: nat) -> char {
    if n < 10 {
        (48 + n) as u8 as char
    } else {
        (87 + n) as u8 as char
    }
}

/// Two lowercase hexadecimal digits for each byte, first byte first.
pub open spec fn hex_digits(bytes: Seq<u8>) -> Seq<char>
    decreases bytes.len(),
{
    if bytes.len() == 0 {
        Seq::empty()
    } else {
        hex_digits(bytes.drop_last()).push(hex_digit(bytes.last() as nat / 16)).push(
            hex_digit(bytes.last() as nat % 16),
        )
    }
}

/// The canonical text of an address or hash: `0x`, then its bytes in
/// lowercase hexadecimal.
pub open spec fn hex_text(bytes: Seq<u8>) -> Seq<char> {
    seq!['0', 'x'] + hex_digits(bytes)
}

/// Canonical text has two characters for the prefix and two for each byte,
/// so it is never empty.
pub proof fn lemma_hex_text_len(bytes: Seq<u8>)
    ensures
        hex_text(bytes).len() == 2 + 2 * bytes.len(),
        hex_digits(bytes).len() == 2 * bytes.len(),
    decreases bytes.len(),
{
    if bytes.len() > 0 {
        lemma_hex_text_len(bytes.drop_last());
    }
}

/// A 20-byte account address.
#[derive(Clone, Copy, Debug, PartialEq, Eq)]
pub struct Address {
    pub bytes: [u8; 20],
}

/// A 32-byte transaction identifier.
#[derive(Clone, Copy, Debug, PartialEq, Eq)]
pub struct TxHash {
    pub bytes: [u8; 32],
}

/// A transaction as the ledger reports it.
#[derive(Clone, Copy, Debug, PartialEq, Eq)]
pub struct Transaction {
    pub hash: TxHash,
    pub from: Address,
    /// Absent for a contract creation.
    pub to: Option<Address>,
    pub value: U256,
    pub gas: U256,
    pub gas_price: Option<U256>,
}

/// A block with its transactions, in the ledger's order.
#[derive(Clone, Debug, PartialEq, Eq)]
pub struct Block {
    pub height: u64,
    /// Unix seconds.
    pub timestamp: i64,
    pub transactions: Vec<Transaction>,
}

/// What a receipt lookup came back with.
#[derive(Clone, Copy, Debug, PartialEq, Eq)]
pub enum ReceiptLookup {
    /// The node could not be reached.
    Unreachable,
    /// The node holds no receipt for the transaction.
    Missing,
    /// The receipt, with its status code where it carries one.
    Found { status: Option<u64> },
}

/// Whether a receipt lookup confirms that the transaction succeeded: the
/// receipt was found and its status code is 1.
pub open spec fn receipt_confirms(lookup: ReceiptLookup) -> bool {
    lookup == (ReceiptLookup::Found { status: Some(1u64) })
}

/// The status to store for a transaction. An unreachable node, a missing
/// receipt, a receipt without a status and a failed transaction all give
/// `false`.
pub fn receipt_status(lookup: &ReceiptLookup) -> (status: bool)
    ensures
        status == receipt_confirms(*lookup),
{
    match lookup {
        ReceiptLookup::Found { status: Some(code) } => *code == 1,
        _ => false,
    }
}

/// The canonical text of an address.
///
/// Not proved: the `Debug` impl of `ethers::types::H160` is taken to write
/// `0x` and then each byte as two lowercase hexadecimal digits.
#[verifier::external_body]
pub(crate) fn render_address(address: &Address) -> (text: String)
    ensures
        text@ == hex_text(address.bytes@),
{
    format!("{:?}", ethers::types::H160(address.bytes))
}

/// The canonical text of a transaction hash.
///
/// Not proved: the `Debug` impl of `ethers::types::H256` is taken to write
/// `0x` and then each byte as two lowercase hexadecimal digits.
#[verifier::external_body]
pub(crate) fn render_hash(hash: &TxHash) -> (text: String)
    ensures
        text@ == hex_text(hash.bytes@),
{
    format!("{:?}", ethers::types::H256(hash.bytes))
}

} // verus!

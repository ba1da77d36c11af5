use block_indexer::amount::U256;
use block_indexer::decimal::{Decimal, Sign};
use block_indexer::indexer::{
    insert_transaction_from_block, insert_transactions_from_block, transaction_from_block,
    BatchError, ColumnBatch, FetchError, FetchReply, NormalizedRow,
};
use block_indexer::ledger::{receipt_status, Address, Block, ReceiptLookup, Transaction, TxHash};

const SUCCESS: ReceiptLookup = ReceiptLookup::Found { status: Some(1) };

fn sender() -> Address {
    Address {
        bytes: [
            0x44, 0x35, 0xe3, 0x1f, 0xb1, 0x58, 0x44, 0x43, 0x63, 0x90, 0xf3, 0xc9, 0x81, 0x9e,
            0x32, 0x97, 0x6e, 0xdd, 0x05, 0x64,
        ],
    }
}

fn recipient() -> Address {
    let mut bytes = [0u8; 20];
    bytes[19] = 0xAB;
    Address { bytes }
}

fn hash(last: u8) -> TxHash {
    let mut bytes = [0xffu8; 32];
    bytes[0] = 0x00;
    bytes[31] = last;
    TxHash { bytes }
}

fn transfer(last: u8, value: u64) -> Transaction {
    Transaction {
        hash: hash(last),
        from: sender(),
        to: Some(recipient()),
        value: U256::from_u64(value),
        gas: U256::from_u64(21000),
        gas_price: Some(U256::from_u64(30_000_000_000)),
    }
}

fn plus(n: u64) -> Decimal {
    Decimal { sign: Sign::Plus, magnitude: vec![n], scale: 0 }
}

#[test]
fn row_of_a_transfer() {
    let row = insert_transaction_from_block(1_631_000_000, 13217541, &transfer(7, 5), &SUCCESS);
    assert_eq!(
        row,
        Ok(NormalizedRow {
            time: 1_631_000_000,
            tx_from: String::from("0x4435e31fb15844436390f3c9819e32976edd0564"),
            tx_to: String::from("0x00000000000000000000000000000000000000ab"),
            value: plus(5),
            gas: plus(21000),
            gas_price: plus(30_000_000_000),
            block: plus(13217541),
            tx_hash: String::from(
                "0x00ffffffffffffffffffffffffffffffffffffffffffffffffffffffffffff07"
            ),
            contract_to: String::new(),
            contract_value: String::new(),
            status: true,
        })
    );
}

#[test]
fn contract_creation_has_an_empty_recipient() {
    let mut tx = transfer(1, 0);
    tx.to = None;
    let row = insert_transaction_from_block(1, 2, &tx, &SUCCESS).unwrap();
    assert_eq!(row.tx_to, "");
    assert_eq!(row.tx_from.len(), 42);
    assert_ne!(row.tx_to, "0x0000000000000000000000000000000000000000");
}

#[test]
fn zero_address_recipient_is_written_out() {
    let mut tx = transfer(1, 0);
    tx.to = Some(Address { bytes: [0; 20] });
    let row = insert_transaction_from_block(1, 2, &tx, &SUCCESS).unwrap();
    assert_eq!(row.tx_to, "0x0000000000000000000000000000000000000000");
}

#[test]
fn absent_gas_price_is_zero() {
    let mut tx = transfer(1, 9);
    tx.gas_price = None;
    let row = insert_transaction_from_block(1, 2, &tx, &SUCCESS).unwrap();
    assert_eq!(row.gas_price, Decimal::zero());
    assert_eq!(row.gas_price.to_u256(), Some(U256::zero()));
}

#[test]
fn row_amounts_read_back_exactly() {
    let mut tx = transfer(3, 0);
    tx.value = U256 { limbs: [u64::MAX; 4] };
    tx.gas = U256 { limbs: [0, 0, 0, 1] };
    tx.gas_price = Some(U256 { limbs: [1, 2, 3, 4] });
    let row = insert_transaction_from_block(0, 0, &tx, &SUCCESS).unwrap();
    assert_eq!(row.value.to_u256(), Some(tx.value));
    assert_eq!(row.gas.to_u256(), Some(tx.gas));
    assert_eq!(row.gas_price.to_u256(), tx.gas_price);
    assert_eq!(row.block, Decimal::zero());
    assert_eq!(row.contract_to, "");
    assert_eq!(row.contract_value, "");
}

#[test]
fn status_is_true_only_for_a_confirmed_success() {
    assert!(receipt_status(&ReceiptLookup::Found { status: Some(1) }));
    assert!(!receipt_status(&ReceiptLookup::Found { status: Some(0) }));
    assert!(!receipt_status(&ReceiptLookup::Found { status: Some(2) }));
    assert!(!receipt_status(&ReceiptLookup::Found { status: None }));
    assert!(!receipt_status(&ReceiptLookup::Missing));
    assert!(!receipt_status(&ReceiptLookup::Unreachable));
    let tx = transfer(1, 1);
    for (lookup, expected) in [
        (ReceiptLookup::Found { status: Some(1) }, true),
        (ReceiptLookup::Found { status: Some(0) }, false),
        (ReceiptLookup::Missing, false),
        (ReceiptLookup::Unreachable, false),
    ] {
        let row = insert_transaction_from_block(1, 2, &tx, &lookup).unwrap();
        assert_eq!(row.status, expected);
    }
}

#[test]
fn block_gives_one_row_for_each_transaction_in_order() {
    let block = Block {
        height: 100,
        timestamp: 1_631_000_000,
        transactions: vec![transfer(1, 10), transfer(2, 20), transfer(3, 30)],
    };
    let receipts = vec![SUCCESS, ReceiptLookup::Missing, SUCCESS];
    let batch = insert_transactions_from_block(&block, &receipts).unwrap();
    assert_eq!(batch.len(), 3);
    assert_eq!(batch.time, vec![1_631_000_000; 3]);
    assert_eq!(batch.tx_from.len(), 3);
    assert_eq!(batch.tx_to.len(), 3);
    assert_eq!(batch.value, vec![plus(10), plus(20), plus(30)]);
    assert_eq!(batch.gas, vec![plus(21000), plus(21000), plus(21000)]);
    assert_eq!(batch.gas_price.len(), 3);
    assert_eq!(batch.block, vec![plus(100), plus(100), plus(100)]);
    assert_eq!(
        batch.tx_hash,
        vec![
            String::from("0x00ffffffffffffffffffffffffffffffffffffffffffffffffffffffffffff01"),
            String::from("0x00ffffffffffffffffffffffffffffffffffffffffffffffffffffffffffff02"),
            String::from("0x00ffffffffffffffffffffffffffffffffffffffffffffffffffffffffffff03"),
        ]
    );
    assert_eq!(batch.contract_to, vec![String::new(); 3]);
    assert_eq!(batch.contract_value, vec![String::new(); 3]);
    assert_eq!(batch.status, vec![true, false, true]);
}

#[test]
fn batch_columns_hold_the_rows_of_the_single_row_path() {
    let block = Block {
        height: 7,
        timestamp: 99,
        transactions: vec![transfer(1, 10), transfer(2, 20)],
    };
    let receipts = vec![SUCCESS, SUCCESS];
    let batch = insert_transactions_from_block(&block, &receipts).unwrap();
    for i in 0..2 {
        let row =
            insert_transaction_from_block(99, 7, &block.transactions[i], &receipts[i]).unwrap();
        assert_eq!(batch.time[i], row.time);
        assert_eq!(batch.tx_from[i], row.tx_from);
        assert_eq!(batch.tx_to[i], row.tx_to);
        assert_eq!(batch.value[i], row.value);
        assert_eq!(batch.gas[i], row.gas);
        assert_eq!(batch.gas_price[i], row.gas_price);
        assert_eq!(batch.block[i], row.block);
        assert_eq!(batch.tx_hash[i], row.tx_hash);
        assert_eq!(batch.contract_to[i], row.contract_to);
        assert_eq!(batch.contract_value[i], row.contract_value);
        assert_eq!(batch.status[i], row.status);
    }
}

#[test]
fn empty_block_gives_an_empty_batch() {
    let block = Block { height: 1, timestamp: 1, transactions: vec![] };
    let batch = insert_transactions_from_block(&block, &vec![]).unwrap();
    assert_eq!(batch, ColumnBatch::new());
    assert_eq!(batch.len(), 0);
}

#[test]
fn receipts_must_match_the_transactions() {
    let block = Block { height: 1, timestamp: 1, transactions: vec![transfer(1, 1)] };
    assert_eq!(insert_transactions_from_block(&block, &vec![]), Err(BatchError::ReceiptCount));
    assert_eq!(
        insert_transactions_from_block(&block, &vec![SUCCESS, SUCCESS]),
        Err(BatchError::ReceiptCount)
    );
    assert_ne!(
        insert_transactions_from_block(&block, &vec![SUCCESS]),
        Err(BatchError::Conversion)
    );
}

#[test]
fn timestamp_is_cut_to_32_bits() {
    let mut block = Block { height: 1, timestamp: 2_147_483_647, transactions: vec![transfer(1, 1)] };
    let receipts = vec![SUCCESS];
    assert_eq!(insert_transactions_from_block(&block, &receipts).unwrap().time, vec![i32::MAX]);
    block.timestamp = 2_147_483_648;
    assert_eq!(insert_transactions_from_block(&block, &receipts).unwrap().time, vec![i32::MIN]);
    block.timestamp = (1 << 32) + 5;
    assert_eq!(insert_transactions_from_block(&block, &receipts).unwrap().time, vec![5]);
    block.timestamp = -1;
    assert_eq!(insert_transactions_from_block(&block, &receipts).unwrap().time, vec![-1]);
}

#[test]
fn pushing_a_row_extends_every_column() {
    let mut batch = ColumnBatch::new();
    let row = insert_transaction_from_block(1, 2, &transfer(1, 1), &SUCCESS).unwrap();
    batch.push(row.clone());
    batch.push(row.clone());
    assert_eq!(batch.len(), 2);
    assert_eq!(batch.value, vec![row.value.clone(), row.value]);
    assert_eq!(batch.status, vec![true, true]);
}

#[test]
fn fetch_reply_becomes_block_or_error() {
    let block = Block { height: 5, timestamp: 6, transactions: vec![transfer(1, 1)] };
    assert_eq!(transaction_from_block(FetchReply::Found(block.clone())), Ok(block));
    assert_eq!(transaction_from_block(FetchReply::Missing), Err(FetchError::NotFound));
    assert_eq!(transaction_from_block(FetchReply::Unreachable), Err(FetchError::Transport));
}

use vstd::prelude::*;

verus! {

/// Header fields of a chain head, as the node reports them.
#[derive(Debug)]
pub struct BlockHeader {
    pub beneficiary: String,
    pub gas_limit: u64,
    pub gas_used: u64,
    pub number: u64,
    pub hash: String,
    /// Unix seconds.
    pub time: u64,
    pub nonce: String,
}

/// Normalized chain-head record handed to block subscribers.
#[derive(Debug, PartialEq, Eq, Hash)]
pub struct Block {
    pub beneficiary: String,
    pub gas_limit: u64,
    pub gas_used: u64,
    pub number: u64,
    pub hash: String,
    /// Unix seconds.
    pub time: u64,
    pub nonce: String,
    /// Number of transactions in the block.
    pub transactions: u64,
}

impl Clone for Block {
    fn clone(&self) -> (r: Self)
        ensures
            r == *self,
    {
        Block {
            beneficiary: self.beneficiary.clone(),
            gas_limit: self.gas_limit,
            gas_used: self.gas_used,
            number: self.number,
            hash: self.hash.clone(),
            time: self.time,
            nonce: self.nonce.clone(),
            transactions: self.transactions,
        }
    }
}

pub open spec fn block_of(h: BlockHeader, transactions: u64) -> Block {
    Block {
        beneficiary: h.beneficiary,
        gas_limit: h.gas_limit,
        gas_used: h.gas_used,
        number: h.number,
        hash: h.hash,
        time: h.time,
        nonce: h.nonce,
        transactions,
    }
}

impl Block {
    /// The record for a head with `transactions` transactions.
    pub fn from_header(h: BlockHeader, transactions: u64) -> (r: Block)
        ensures
            r == block_of(h, transactions),
    {
        Block {
            beneficiary: h.beneficiary,
            gas_limit: h.gas_limit,
            gas_used: h.gas_used,
            number: h.number,
            hash: h.hash,
            time: h.time,
            nonce: h.nonce,
            transactions,
        }
    }
}

/// A transaction as listed on a block's page.
#[derive(Debug, PartialEq, Eq)]
pub struct Transaction {
    pub hash: String,
    pub from: String,
    pub block_number: u64,
    /// Position in the block, from 0.
    pub index: u64,
}

/// A block with its transactions.
#[derive(Debug)]
pub struct BlockResponse {
    pub block: Block,
    pub transactions: Vec<Transaction>,
}

/// A single transaction.
#[derive(Debug)]
pub struct TransactionResponse {
    pub transaction: Transaction,
}

impl BlockResponse {
    /// Projects a fetched block: its header and the `(hash, sender)` of each
    /// of its transactions, in block order.
    pub fn project(header: BlockHeader, txs: &Vec<(String, String)>) -> (r: BlockResponse)
        ensures
            r.block == block_of(header, txs@.len() as u64),
            r.transactions@.len() == txs@.len(),
            forall|i: int|
                0 <= i < txs@.len() ==> (#[trigger] r.transactions@[i]) == (Transaction {
                    hash: txs@[i].0,
                    from: txs@[i].1,
                    block_number: header.number,
                    index: i as u64,
                }),
    {
        let number = header.number;
        let mut transactions: Vec<Transaction> = Vec::new();
        let mut i: usize = 0;
        while i < txs.len()
            invariant
                i <= txs@.len(),
                transactions@.len() == i,
                forall|k: int|
                    0 <= k < i ==> (#[trigger] transactions@[k]) == (Transaction {
                        hash: txs@[k].0,
                        from: txs@[k].1,
                        block_number: number,
                        index: k as u64,
                    }),
            decreases txs@.len() - i,
        {
            let t = Transaction {
                hash: txs[i].0.clone(),
                from: txs[i].1.clone(),
                block_number: number,
                index: i as u64,
            };
            transactions.push(t);
            i = i + 1;
        }
        let count = txs.len() as u64;
        BlockResponse { block: Block::from_header(header, count), transactions }
    }
}

} // verus!

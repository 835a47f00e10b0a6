//! The records that the ledger stores.
use vstd::prelude::*;

verus! {

/// Where a payment stands.
#[derive(Debug, Clone, Copy, PartialEq, Eq, Structural)]
pub enum TransactionStatus {
    Pending,
    Completed,
    Failed,
}

/// A step in the life of a product along the supply chain.
#[derive(Debug, Clone, Copy, PartialEq, Eq, Structural)]
pub enum SupplyChainAction {
    Manufactured,
    Shipped,
    Received,
    Sold,
}

/// A loyalty token of the store. Two tokens are equal when their symbols are.
#[derive(Debug)]
pub struct RetailToken {
    pub symbol: String,
    /// The amount as decimal text.
    pub amount: String,
    pub loyalty_points: u32,
}

/// The currency of a payment.
#[derive(Debug)]
pub enum Currency {
    BTC,
    ETH,
    USDT,
    RETAIL(RetailToken),
}

/// A payment record. The ledger never looks inside it: it only stores it and
/// encodes its fields, in a fixed order, when a block is digested.
#[derive(Debug)]
pub struct Transaction {
    /// The record's identifier (the 128 bits of a UUID).
    pub id: u128,
    pub from_address: String,
    pub to_address: String,
    /// The amount as decimal text.
    pub amount: String,
    pub currency: Currency,
    /// The time of the payment as RFC 3339 text.
    pub timestamp: String,
    pub status: TransactionStatus,
}

/// A block of the ledger. `hash` is blank until the block is sealed.
#[derive(Debug)]
pub struct Block {
    pub index: u64,
    /// The time of creation as RFC 3339 text.
    pub timestamp: String,
    pub transactions: Vec<Transaction>,
    pub previous_hash: String,
    pub hash: String,
    pub nonce: u64,
}

/// What a block holds, with its transactions as a sequence.
pub ghost struct BlockView {
    pub index: u64,
    pub timestamp: Seq<char>,
    pub transactions: Seq<Transaction>,
    pub previous_hash: Seq<char>,
    pub hash: Seq<char>,
    pub nonce: u64,
}

impl View for Block {
    type V = BlockView;

    open spec fn view(&self) -> BlockView {
        BlockView {
            index: self.index,
            timestamp: self.timestamp@,
            transactions: self.transactions@,
            previous_hash: self.previous_hash@,
            hash: self.hash@,
            nonce: self.nonce,
        }
    }
}

impl PartialEq for RetailToken {
    fn eq(&self, other: &RetailToken) -> (r: bool) {
        self.symbol == other.symbol
    }
}

impl vstd::std_specs::cmp::PartialEqSpecImpl for RetailToken {
    open spec fn obeys_eq_spec() -> bool {
        true
    }

    open spec fn eq_spec(&self, other: &RetailToken) -> bool {
        self.symbol@ == other.symbol@
    }
}

impl Eq for RetailToken {}

impl PartialEq for Currency {
    fn eq(&self, other: &Currency) -> (r: bool) {
        match (self, other) {
            (Currency::BTC, Currency::BTC) => true,
            (Currency::ETH, Currency::ETH) => true,
            (Currency::USDT, Currency::USDT) => true,
            (Currency::RETAIL(a), Currency::RETAIL(b)) => a.symbol == b.symbol,
            _ => false,
        }
    }
}

impl vstd::std_specs::cmp::PartialEqSpecImpl for Currency {
    open spec fn obeys_eq_spec() -> bool {
        true
    }

    open spec fn eq_spec(&self, other: &Currency) -> bool {
        match (self, other) {
            (Currency::BTC, Currency::BTC) => true,
            (Currency::ETH, Currency::ETH) => true,
            (Currency::USDT, Currency::USDT) => true,
            (Currency::RETAIL(a), Currency::RETAIL(b)) => a.symbol@ == b.symbol@,
            _ => false,
        }
    }
}

impl Eq for Currency {}

impl Clone for RetailToken {
    fn clone(&self) -> (r: RetailToken)
        ensures
            r == *self,
    {
        RetailToken {
            symbol: self.symbol.clone(),
            amount: self.amount.clone(),
            loyalty_points: self.loyalty_points,
        }
    }
}

impl Clone for Currency {
    fn clone(&self) -> (r: Currency)
        ensures
            r == *self,
    {
        match self {
            Currency::BTC => Currency::BTC,
            Currency::ETH => Currency::ETH,
            Currency::USDT => Currency::USDT,
            Currency::RETAIL(t) => Currency::RETAIL(t.clone()),
        }
    }
}

impl Clone for Transaction {
    fn clone(&self) -> (r: Transaction)
        ensures
            r == *self,
    {
        Transaction {
            id: self.id,
            from_address: self.from_address.clone(),
            to_address: self.to_address.clone(),
            amount: self.amount.clone(),
            currency: self.currency.clone(),
            timestamp: self.timestamp.clone(),
            status: self.status,
        }
    }
}

impl Clone for Block {
    fn clone(&self) -> (r: Block)
        ensures
            r@ == self@,
    {
        let mut transactions: Vec<Transaction> = Vec::new();
        let mut i: usize = 0;
        while i < self.transactions.len()
            invariant
                i <= self.transactions@.len(),
                transactions@ == self.transactions@.take(i as int),
            decreases self.transactions@.len() - i,
        {
            transactions.push(self.transactions[i].clone());
            i += 1;
            assert(transactions@ =~= self.transactions@.take(i as int));
        }
        assert(transactions@ =~= self.transactions@);
        Block {
            index: self.index,
            timestamp: self.timestamp.clone(),
            transactions,
            previous_hash: self.previous_hash.clone(),
            hash: self.hash.clone(),
            nonce: self.nonce,
        }
    }
}

} // verus!

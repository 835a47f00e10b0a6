//! A hash-linked ledger of transaction records, sealed into blocks by a
//! proof-of-work search and checked by a fail-fast chain walk.
pub mod blockchain;
mod clock;
pub mod digest;
pub mod encoding;
pub mod inventory;
pub mod models;
pub mod supply_chain;

pub use blockchain::{Blockchain, BlockchainError};
pub use inventory::{InventoryError, InventoryManager, Product};
pub use supply_chain::{SupplyChainError, SupplyChainManager, SupplyChainRecord};
pub use models::{Block, Currency, RetailToken, SupplyChainAction, Transaction, TransactionStatus};

//! The ledger: sealed blocks, each linked to the one before by its digest, and
//! a pool of transactions waiting to be sealed.
use vstd::prelude::*;
use vstd::utf8::{encode_utf8, is_ascii_chars, is_ascii_chars_encode_utf8};

use crate::clock::now_rfc3339;
use crate::digest::{digest_of_bytes, is_hex_digit, digest_text, lemma_hex_chars, sha256_of};
use crate::encoding::{block_bytes, encode_block, lemma_digest_not_encoded, DIGIT_ZERO};
use crate::models::{Block, BlockView, Transaction};

verus! {

/// The number of leading zero digits that `Blockchain::new` asks of a digest.
pub const DEFAULT_DIFFICULTY: u64 = 2;

/// Why a block could not be sealed.
#[derive(Debug, Clone, Copy, PartialEq, Eq, Structural)]
pub enum BlockchainError {
    /// The pool holds no transaction.
    NoTransactions,
    /// The chain failed its check.
    InvalidChain,
    /// No nonce of 64 bits gives a digest with enough leading zeros.
    NonceSpaceExhausted,
}

/// The previous digest that the first block carries.
pub open spec fn genesis_previous_hash() -> Seq<char> {
    "0"@
}

/// The digest of a block: the digest text of its canonical bytes.
pub open spec fn block_digest(b: BlockView) -> Seq<char> {
    digest_text(block_bytes(b))
}

/// The UTF-8 text of `digest` begins with `k` zero digits.
pub open spec fn meets_difficulty(digest: Seq<char>, k: nat) -> bool {
    &&& k <= encode_utf8(digest).len()
    &&& forall|i: int| 0 <= i < k ==> encode_utf8(digest)[i] == DIGIT_ZERO
}

/// The first block: index 0, no transactions, the fixed previous digest, nonce 0,
/// and its own digest.
pub open spec fn is_genesis(b: BlockView) -> bool {
    &&& b.index == 0
    &&& b.transactions.len() == 0
    &&& b.previous_hash == genesis_previous_hash()
    &&& b.nonce == 0
    &&& b.hash == block_digest(b)
}

/// `b` with another nonce.
pub open spec fn with_nonce(b: BlockView, n: u64) -> BlockView {
    BlockView { nonce: n, ..b }
}

/// `cur` follows `prev` soundly: it names `prev`'s digest, its own digest is
/// that of its content, and that digest meets the difficulty.
pub open spec fn follows(prev: BlockView, cur: BlockView, k: nat) -> bool {
    &&& cur.previous_hash == prev.hash
    &&& cur.hash == block_digest(cur)
    &&& meets_difficulty(cur.hash, k)
}

/// Every block after the first follows the one before it.
pub open spec fn chain_sound(blocks: Seq<BlockView>, k: nat) -> bool {
    forall|i: int| 1 <= i < blocks.len() ==> #[trigger] follows(blocks[i - 1], blocks[i], k)
}

/// Block `i` is the first block after the first that does not follow the one before it.
pub open spec fn is_first_fault(blocks: Seq<BlockView>, k: nat, i: int) -> bool {
    &&& 1 <= i < blocks.len()
    &&& !follows(blocks[i - 1], blocks[i], k)
    &&& forall|j: int| 1 <= j < i ==> #[trigger] follows(blocks[j - 1], blocks[j], k)
}

/// `b` is sealed with the least nonce whose digest meets the difficulty.
pub open spec fn sealed_with_least_nonce(b: BlockView, k: nat) -> bool {
    &&& b.hash == block_digest(b)
    &&& meets_difficulty(b.hash, k)
    &&& forall|n: u64| n < b.nonce ==> !meets_difficulty(#[trigger] block_digest(with_nonce(b, n)), k)
}

/// No nonce of 64 bits seals `b`.
pub open spec fn no_nonce_seals(b: BlockView, k: nat) -> bool {
    forall|n: u64| !meets_difficulty(#[trigger] block_digest(with_nonce(b, n)), k)
}

/// A ledger of sealed blocks and a pool of pending transactions.
pub struct Blockchain {
    pub chain: Vec<Block>,
    pending_transactions: Vec<Transaction>,
    difficulty: u64,
}

impl Blockchain {
    /// The sealed blocks, oldest first.
    pub closed spec fn blocks(&self) -> Seq<BlockView> {
        self.chain@.map_values(|b: Block| b@)
    }

    /// The pending transactions, in the order they were accepted.
    pub closed spec fn pool(&self) -> Seq<Transaction> {
        self.pending_transactions@
    }

    /// The number of leading zero digits that a sealed digest needs.
    pub closed spec fn difficulty(&self) -> nat {
        self.difficulty as nat
    }

    /// A ledger that asks two leading zero digits of each digest.
    pub fn new() -> (r: Self)
        ensures
            r.blocks().len() == 1,
            is_genesis(r.blocks()[0]),
            r.pool() == Seq::<Transaction>::empty(),
            r.difficulty() == DEFAULT_DIFFICULTY,
    {
        Self::with_difficulty(DEFAULT_DIFFICULTY)
    }

    /// A ledger whose sealed digests need `difficulty` leading zero digits.
    pub fn with_difficulty(difficulty: u64) -> (r: Self)
        ensures
            r.blocks().len() == 1,
            is_genesis(r.blocks()[0]),
            r.pool() == Seq::<Transaction>::empty(),
            r.difficulty() == difficulty,
    {
        let mut blockchain = Blockchain {
            chain: Vec::new(),
            pending_transactions: Vec::new(),
            difficulty,
        };
        blockchain.create_genesis_block();
        assert(blockchain.blocks() =~= seq![blockchain.blocks().last()]);
        blockchain
    }

    fn create_genesis_block(&mut self)
        ensures
            final(self).blocks() == old(self).blocks().push(final(self).blocks().last()),
            is_genesis(final(self).blocks().last()),
            final(self).pool() == old(self).pool(),
            final(self).difficulty() == old(self).difficulty(),
    {
        let mut genesis = Block {
            index: 0,
            timestamp: now_rfc3339(),
            transactions: Vec::new(),
            previous_hash: "0".to_owned(),
            hash: String::new(),
            nonce: 0,
        };
        let hash = self.calculate_hash(&genesis);
        let ghost unsealed = genesis@;
        genesis.hash = hash;
        proof {
            lemma_digest_not_encoded(genesis@, unsealed);
        }
        self.chain.push(genesis);
        assert(self.blocks() =~= old(self).blocks().push(genesis@));
    }

    /// Adds a transaction at the end of the pool.
    pub fn add_transaction(&mut self, transaction: Transaction)
        ensures
            final(self).pool() == old(self).pool().push(transaction),
            final(self).blocks() == old(self).blocks(),
            final(self).difficulty() == old(self).difficulty(),
    {
        self.pending_transactions.push(transaction);
    }

    fn calculate_hash(&self, block: &Block) -> (r: String)
        ensures
            r@ == block_digest(block@),
            r@.len() == 64,
            is_ascii_chars(r@),
            forall|i: int| 0 <= i < 64 ==> is_hex_digit(#[trigger] r@[i]),
    {
        let bytes = encode_block(block);
        digest_of_bytes(bytes.as_slice())
    }

    fn is_hash_valid(&self, hash: &str) -> (r: bool)
        ensures
            r == meets_difficulty(hash@, self.difficulty()),
    {
        let bytes = hash.as_bytes();
        if self.difficulty as u128 > bytes.len() as u128 {
            return false;
        }
        let k = self.difficulty as usize;
        let mut i: usize = 0;
        while i < k
            invariant
                k == self.difficulty(),
                k <= bytes@.len(),
                bytes@ == encode_utf8(hash@),
                i <= k,
                forall|j: int| 0 <= j < i ==> bytes@[j] == DIGIT_ZERO,
            decreases k - i,
        {
            if bytes[i] != DIGIT_ZERO {
                return false;
            }
            i += 1;
        }
        true
    }

    /// Tries nonces from 0 upward and seals `block` with the first whose digest
    /// meets the difficulty; `false` when none of 64 bits does.
    fn proof_of_work(&self, block: &mut Block) -> (found: bool)
        ensures
            final(block)@ == (BlockView { nonce: final(block).nonce, hash: final(block).hash@, ..old(block)@ }),
            found ==> sealed_with_least_nonce(final(block)@, self.difficulty()),
            found ==> is_ascii_chars(final(block).hash@),
            found ==> final(block).hash@.len() == 64,
            found ==> forall|i: int| 0 <= i < 64 ==> is_hex_digit(#[trigger] final(block).hash@[i]),
            !found ==> no_nonce_seals(old(block)@, self.difficulty()),
    {
        let ghost start = block@;
        let mut nonce: u64 = 0;
        loop
            invariant
                start == old(block)@,
                block@ == (BlockView { nonce: block.nonce, hash: block.hash@, ..start }),
                forall|n: u64| n < nonce ==> !meets_difficulty(#[trigger] block_digest(with_nonce(start, n)), self.difficulty()),
            decreases u64::MAX - nonce,
        {
            block.nonce = nonce;
            let hash = self.calculate_hash(block);
            proof {
                lemma_digest_not_encoded(block@, with_nonce(start, nonce));
            }
            if self.is_hash_valid(hash.as_str()) {
                block.hash = hash;
                proof {
                    lemma_digest_not_encoded(block@, with_nonce(start, nonce));
                }
                assert forall|n: u64| n < block.nonce implies !meets_difficulty(
                    #[trigger] block_digest(with_nonce(block@, n)),
                    self.difficulty(),
                ) by {
                    lemma_digest_not_encoded(with_nonce(block@, n), with_nonce(start, n));
                    assert(block_digest(with_nonce(block@, n)) == block_digest(with_nonce(start, n)));
                }
                return true;
            }
            if nonce == u64::MAX {
                assert forall|n: u64| !meets_difficulty(#[trigger] block_digest(with_nonce(start, n)), self.difficulty()) by {}
                return false;
            }
            nonce += 1;
        }
    }

    /// Seals every pending transaction, in pool order, into a new block linked
    /// to the last one, with the least nonce whose digest meets the difficulty,
    /// and appends it.
    pub fn mine_block(&mut self) -> (r: Result<Block, BlockchainError>)
        requires
            old(self).blocks().len() > 0,
            old(self).blocks().last().index < u64::MAX,
        ensures
            final(self).difficulty() == old(self).difficulty(),
            (r == Err::<Block, BlockchainError>(BlockchainError::NoTransactions)) <==> old(self).pool().len() == 0,
            match r {
                Ok(b) => {
                    &&& final(self).pool() == Seq::<Transaction>::empty()
                    &&& final(self).blocks() == old(self).blocks().push(b@)
                    &&& b.index == old(self).blocks().last().index + 1
                    &&& b@.transactions == old(self).pool()
                    &&& b@.previous_hash == old(self).blocks().last().hash
                    &&& sealed_with_least_nonce(b@, old(self).difficulty())
                    &&& forall|i: int| 0 <= i < old(self).difficulty() ==> b@.hash[i] == '0'
                    &&& b@.hash.len() == 64
                    &&& forall|i: int| 0 <= i < 64 ==> is_hex_digit(#[trigger] b@.hash[i])
                },
                Err(e) => {
                    &&& final(self).pool() == old(self).pool()
                    &&& final(self).blocks() == old(self).blocks()
                    &&& e != BlockchainError::InvalidChain
                    &&& e == BlockchainError::NonceSpaceExhausted ==> exists|c: BlockView|
                        {
                            &&& c.index == old(self).blocks().last().index + 1
                            &&& c.transactions == old(self).pool()
                            &&& c.previous_hash == old(self).blocks().last().hash
                            &&& #[trigger] no_nonce_seals(c, old(self).difficulty())
                        }
                },
            },
    {
        if self.pending_transactions.len() == 0 {
            return Err(BlockchainError::NoTransactions);
        }
        let last = &self.chain[self.chain.len() - 1];
        proof {
            assert(last@ == self.blocks().last());
        }
        let index = last.index + 1;
        let previous_hash = last.hash.clone();
        let mut transactions: Vec<Transaction> = Vec::new();
        std::mem::swap(&mut transactions, &mut self.pending_transactions);
        let mut block = Block {
            index,
            timestamp: now_rfc3339(),
            transactions,
            previous_hash,
            hash: String::new(),
            nonce: 0,
        };
        let ghost candidate = block@;
        if self.proof_of_work(&mut block) {
            proof {
                lemma_leading_zero_digits(block@.hash, self.difficulty());
            }
            let sealed = block.clone();
            self.chain.push(block);
            assert(self.blocks() =~= old(self).blocks().push(sealed@));
            assert(sealed@.transactions == old(self).pool());
            Ok(sealed)
        } else {
            std::mem::swap(&mut block.transactions, &mut self.pending_transactions);
            assert(no_nonce_seals(candidate, self.difficulty()));
            Err(BlockchainError::NonceSpaceExhausted)
        }
    }

    /// The position of the first block, after the first, that does not follow
    /// the block before it; `None` when every one does. The walk stops there.
    pub fn first_invalid_block(&self) -> (r: Option<usize>)
        ensures
            match r {
                None => chain_sound(self.blocks(), self.difficulty()),
                Some(i) => is_first_fault(self.blocks(), self.difficulty(), i as int),
            },
    {
        let mut i: usize = 1;
        while i < self.chain.len()
            invariant
                1 <= i,
                forall|j: int| 1 <= j < i && j < self.blocks().len() ==> #[trigger] follows(
                    self.blocks()[j - 1],
                    self.blocks()[j],
                    self.difficulty(),
                ),
            decreases self.chain@.len() - i,
        {
            let current = &self.chain[i];
            let previous = &self.chain[i - 1];
            proof {
                assert(current@ == self.blocks()[i as int]);
                assert(previous@ == self.blocks()[i - 1]);
            }
            if current.previous_hash != previous.hash {
                return Some(i);
            }
            let calculated = self.calculate_hash(current);
            if current.hash != calculated {
                return Some(i);
            }
            if !self.is_hash_valid(current.hash.as_str()) {
                return Some(i);
            }
            i += 1;
        }
        None
    }

    /// Whether every block after the first names the digest of the block
    /// before it, carries the digest of its own content, and that digest meets
    /// the difficulty. The first block is not checked.
    pub fn is_chain_valid(&self) -> (r: bool)
        ensures
            r == chain_sound(self.blocks(), self.difficulty()),
    {
        match self.first_invalid_block() {
            None => true,
            Some(_) => false,
        }
    }

    /// The number of sealed blocks.
    pub fn get_chain_length(&self) -> (r: usize)
        ensures
            r == self.blocks().len(),
    {
        self.chain.len()
    }

    /// The last sealed block.
    pub fn get_last_block(&self) -> (r: Option<&Block>)
        ensures
            match r {
                None => self.blocks().len() == 0,
                Some(b) => self.blocks().len() > 0 && b@ == self.blocks().last(),
            },
    {
        if self.chain.len() == 0 {
            None
        } else {
            Some(&self.chain[self.chain.len() - 1])
        }
    }

    /// The number of transactions waiting to be sealed.
    pub fn get_pending_transactions_count(&self) -> (r: usize)
        ensures
            r == self.pool().len(),
    {
        self.pending_transactions.len()
    }
}

/// A digest that meets difficulty `k` begins with `k` zero digits.
pub proof fn lemma_leading_zero_digits(digest: Seq<char>, k: nat)
    requires
        is_ascii_chars(digest),
        meets_difficulty(digest, k),
    ensures
        k <= digest.len(),
        forall|i: int| 0 <= i < k ==> digest[i] == '0',
{
    is_ascii_chars_encode_utf8(digest);
    assert forall|i: int| 0 <= i < k implies digest[i] == '0' by {
        assert(digest[i] as u8 == encode_utf8(digest)[i]);
    }
}

/// In a sound chain, the digest of every block after the first begins with
/// `k` zero digits.
pub proof fn lemma_sound_chain_leading_zeros(blocks: Seq<BlockView>, k: nat, i: int)
    requires
        chain_sound(blocks, k),
        1 <= i < blocks.len(),
    ensures
        k <= blocks[i].hash.len(),
        forall|j: int| 0 <= j < k ==> blocks[i].hash[j] == '0',
{
    assert(follows(blocks[i - 1], blocks[i], k));
    lemma_hex_chars(sha256_of(block_bytes(blocks[i])));
    lemma_leading_zero_digits(blocks[i].hash, k);
}

/// Tampering with a sealed block after the first of a sound chain makes that
/// block the first fault of the walk: changing its previous digest; changing
/// a field its digest covers, without digesting it again, where that changes
/// what the digest would be; or changing its digest alone.
pub proof fn lemma_tampered_block_is_first_fault(
    blocks: Seq<BlockView>,
    k: nat,
    i: int,
    b: BlockView,
)
    requires
        chain_sound(blocks, k),
        1 <= i < blocks.len(),
        b.previous_hash != blocks[i].previous_hash || (b.hash == blocks[i].hash && block_digest(b)
            != block_digest(blocks[i])) || (b.hash != blocks[i].hash && block_bytes(b)
            == block_bytes(blocks[i])),
    ensures
        is_first_fault(blocks.update(i, b), k, i),
{
    let t = blocks.update(i, b);
    assert(follows(blocks[i - 1], blocks[i], k));
    assert(t[i - 1] == blocks[i - 1]);
    assert forall|j: int| 1 <= j < i implies #[trigger] follows(t[j - 1], t[j], k) by {
        assert(follows(blocks[j - 1], blocks[j], k));
    }
}

/// The verdict of the chain check depends on the blocks and the difficulty
/// alone: two ledgers that agree on them get the same verdict, so checking
/// an unchanged ledger again gives the same answer.
pub proof fn lemma_validity_is_stable(a: &Blockchain, b: &Blockchain)
    requires
        a.blocks() == b.blocks(),
        a.difficulty() == b.difficulty(),
    ensures
        chain_sound(a.blocks(), a.difficulty()) == chain_sound(b.blocks(), b.difficulty()),
{
}

/// Appending a block that names the last digest and is sealed for difficulty
/// `k` keeps a sound chain sound.
pub proof fn lemma_sealing_keeps_chain_sound(blocks: Seq<BlockView>, b: BlockView, k: nat)
    requires
        chain_sound(blocks, k),
        blocks.len() > 0,
        b.previous_hash == blocks.last().hash,
        sealed_with_least_nonce(b, k),
    ensures
        chain_sound(blocks.push(b), k),
{
    let t = blocks.push(b);
    assert forall|i: int| 1 <= i < t.len() implies #[trigger] follows(t[i - 1], t[i], k) by {
        if i < blocks.len() {
            assert(follows(blocks[i - 1], blocks[i], k));
        }
    }
}

} // verus!

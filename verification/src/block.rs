//! Blocks: transactions chained by hash, with a Merkle root and proof of work.

use vstd::prelude::*;
use crate::amount::COIN;
use crate::clock::{format_utc, now, utc_display_text};
use crate::digest::{sha256_hex, text_hash};
use crate::text::{decimal_text, has_leading_zeros, leading_zeros, push_decimal, same_text};
use crate::transaction::{
    push_transactions_json, tx_hash, tx_valid, tx_views, txs_json, Transaction, TransactionView,
};

verus! {

/// A block of transactions.
#[derive(Debug, Clone)]
pub struct Block {
    pub index: u64,
    pub timestamp: i64,
    pub transactions: Vec<Transaction>,
    pub previous_hash: String,
    pub hash: String,
    pub nonce: u64,
    pub merkle_root: String,
}

/// What a block holds.
pub struct BlockView {
    pub index: u64,
    pub timestamp: i64,
    pub transactions: Seq<TransactionView>,
    pub previous_hash: Seq<char>,
    pub hash: Seq<char>,
    pub nonce: u64,
    pub merkle_root: Seq<char>,
}

impl View for Block {
    type V = BlockView;

    open spec fn view(&self) -> BlockView {
        BlockView {
            index: self.index,
            timestamp: self.timestamp,
            transactions: tx_views(self.transactions@),
            previous_hash: self.previous_hash@,
            hash: self.hash@,
            nonce: self.nonce,
            merkle_root: self.merkle_root@,
        }
    }
}

/// The block with another nonce.
pub open spec fn with_nonce(b: BlockView, n: u64) -> BlockView {
    BlockView { nonce: n, ..b }
}

/// What is hashed of a block: index, time, previous hash, Merkle root, nonce
/// and the JSON of its transactions.
pub open spec fn block_preimage(b: BlockView) -> Seq<char> {
    decimal_text(b.index as nat) + utc_display_text(b.timestamp) + b.previous_hash + b.merkle_root
        + decimal_text(b.nonce as nat) + txs_json(b.transactions)
}

/// The hash of a block (hex of SHA-256); it does not cover the stored hash.
pub open spec fn block_hash(b: BlockView) -> Seq<char> {
    text_hash(block_preimage(b))
}

/// One level up the Merkle tree: each pair hashed together, the last hash
/// paired with itself when the count is odd.
pub open spec fn merkle_level(level: Seq<Seq<char>>) -> Seq<Seq<char>> {
    Seq::new(
        ((level.len() + 1) / 2) as nat,
        |i: int|
            text_hash(
                level[2 * i] + if 2 * i + 1 < level.len() {
                    level[2 * i + 1]
                } else {
                    level[2 * i]
                },
            ),
    )
}

/// The root over a nonempty level.
pub open spec fn merkle_reduce(level: Seq<Seq<char>>) -> Seq<char>
    decreases level.len(),
{
    if level.len() <= 1 {
        level[0]
    } else {
        merkle_reduce(merkle_level(level))
    }
}

/// The Merkle root of transactions by their hashes; empty without transactions.
pub open spec fn merkle_root_of(ts: Seq<TransactionView>) -> Seq<char> {
    if ts.len() == 0 {
        Seq::empty()
    } else {
        merkle_reduce(ts.map_values(|t: TransactionView| tx_hash(t)))
    }
}

/// The Merkle root of a single transaction is its hash.
pub proof fn law_merkle_single(t: TransactionView)
    ensures
        merkle_root_of(seq![t]) == tx_hash(t),
{
    assert(seq![t].map_values(|u: TransactionView| tx_hash(u))[0] == tx_hash(t));
}

/// No nonce gives the block a hash with `difficulty` leading zeros.
pub open spec fn no_nonce_meets(b: BlockView, difficulty: nat) -> bool {
    forall|n: u64| !meets_target(#[trigger] block_hash(with_nonce(b, n)), difficulty)
}

/// A failed search from nonce 0 leaves no nonce that meets the target: the
/// stored hash does not take part in the block's hash.
pub proof fn lemma_search_exhausted(start: BlockView, end: BlockView, difficulty: nat)
    requires
        start.nonce == 0,
        end == (BlockView { nonce: u64::MAX, hash: block_hash(with_nonce(start, u64::MAX)), ..start }),
        !meets_target(end.hash, difficulty),
        forall|n: u64| start.nonce <= n < u64::MAX ==> !meets_target(
            #[trigger] block_hash(with_nonce(start, n)),
            difficulty,
        ),
    ensures
        no_nonce_meets(start, difficulty),
        no_nonce_meets(end, difficulty),
{
    assert forall|n: u64| !meets_target(#[trigger] block_hash(with_nonce(start, n)), difficulty) by {
        if n < u64::MAX {
            assert(start.nonce <= n < u64::MAX);
        }
    }
    assert forall|n: u64| !meets_target(#[trigger] block_hash(with_nonce(end, n)), difficulty) by {
        assert(block_preimage(with_nonce(end, n)) =~= block_preimage(with_nonce(start, n)));
        assert(!meets_target(block_hash(with_nonce(start, n)), difficulty));
    }
}

/// The hash begins with `difficulty` zeros.
pub open spec fn meets_target(hash: Seq<char>, difficulty: nat) -> bool {
    leading_zeros(hash, difficulty)
}

/// A block is valid after a block of hash `previous`: it names that hash, its
/// stored hash and Merkle root are its own, and its transactions are valid.
pub open spec fn block_valid(b: BlockView, previous: Seq<char>) -> bool {
    &&& b.previous_hash == previous
    &&& b.hash == block_hash(b)
    &&& forall|i: int| 0 <= i < b.transactions.len() ==> #[trigger] tx_valid(b.transactions[i])
    &&& b.merkle_root == merkle_root_of(b.transactions)
}

/// A block is valid only if each of its transactions is valid, it names the
/// previous hash, and its stored hash and Merkle root are its own.
pub proof fn law_valid_block_parts(b: BlockView, previous: Seq<char>)
    requires
        block_valid(b, previous),
    ensures
        forall|i: int| 0 <= i < b.transactions.len() ==> tx_valid(#[trigger] b.transactions[i]),
        b.previous_hash == previous,
        b.hash == block_hash(b),
        b.merkle_root == merkle_root_of(b.transactions),
{
}

/// A hash meets a difficulty only when that many of its first characters are
/// `0`.
pub proof fn law_target_is_leading_zeros(hash: Seq<char>, difficulty: nat)
    requires
        meets_target(hash, difficulty),
    ensures
        hash.len() >= difficulty,
        forall|i: int| 0 <= i < difficulty ==> #[trigger] hash[i] == '0',
{
}

/// Sum of the amounts of transactions.
pub open spec fn amount_sum(ts: Seq<TransactionView>) -> int
    decreases ts.len(),
{
    if ts.len() == 0 {
        0
    } else {
        amount_sum(ts.drop_last()) + ts.last().amount
    }
}

/// Views of a list of strings.
pub open spec fn string_views(v: Seq<String>) -> Seq<Seq<char>> {
    v.map_values(|s: String| s@)
}

impl Block {
    /// A new block at the current time, nonce 0, with its Merkle root and hash.
    pub fn new(index: u64, transactions: Vec<Transaction>, previous_hash: String) -> (b: Self)
        ensures
            b.index == index,
            b@.transactions == tx_views(transactions@),
            b@.previous_hash == previous_hash@,
            b.nonce == 0,
            b@.merkle_root == merkle_root_of(b@.transactions),
            b@.hash == block_hash(b@),
    {
        let timestamp = now();
        let merkle_root = Self::calculate_merkle_root(transactions.as_slice());
        let mut block = Block {
            index,
            timestamp,
            transactions,
            previous_hash,
            hash: String::new(),
            nonce: 0,
            merkle_root,
        };
        block.hash = block.calculate_hash();
        block
    }

    /// The hash of the block's contents.
    pub fn calculate_hash(&self) -> (h: String)
        ensures
            h@ == block_hash(self@),
            h@.len() == 64,
    {
        let mut data = String::new();
        push_decimal(&mut data, self.index);
        let time = format_utc(self.timestamp);
        data.append(time.as_str());
        data.append(self.previous_hash.as_str());
        data.append(self.merkle_root.as_str());
        push_decimal(&mut data, self.nonce);
        push_transactions_json(&mut data, self.transactions.as_slice());
        proof {
            assert(data@ =~= block_preimage(self@));
        }
        sha256_hex(data.as_str())
    }

    /// Proof of work: tries nonces upwards from the current one until the
    /// hash begins with `difficulty` zeros. Returns whether it found one;
    /// it stops without one only when the nonce reaches its largest value.
    pub fn mine_block(&mut self, difficulty: usize) -> (found: bool)
        ensures
            old(self).nonce <= final(self).nonce,
            final(self)@ == (BlockView {
                nonce: final(self).nonce,
                hash: block_hash(with_nonce(old(self)@, final(self).nonce)),
                ..old(self)@
            }),
            found ==> meets_target(final(self)@.hash, difficulty as nat),
            found ==> final(self)@.hash.len() >= difficulty,
            found ==> forall|i: int| 0 <= i < difficulty ==> #[trigger] final(self)@.hash[i] == '0',
            !found ==> final(self).nonce == u64::MAX && !meets_target(final(self)@.hash, difficulty as nat),
            forall|n: u64| old(self).nonce <= n < final(self).nonce ==> !meets_target(
                #[trigger] block_hash(with_nonce(old(self)@, n)),
                difficulty as nat,
            ),
    {
        let ghost start = self@;
        loop
            invariant
                start == old(self)@,
                start.nonce <= self.nonce,
                self@ == (BlockView { nonce: self.nonce, hash: self@.hash, ..start }),
                forall|n: u64| start.nonce <= n < self.nonce ==> !meets_target(
                    #[trigger] block_hash(with_nonce(start, n)),
                    difficulty as nat,
                ),
            decreases u64::MAX - self.nonce,
        {
            self.hash = self.calculate_hash();
            proof {
                assert(block_preimage(self@) =~= block_preimage(with_nonce(start, self.nonce)));
            }
            if has_leading_zeros(self.hash.as_str(), difficulty) {
                return true;
            }
            if self.nonce == u64::MAX {
                return false;
            }
            self.nonce = self.nonce + 1;
        }
    }

    /// Whether the block is valid after a block of hash `previous_hash`.
    pub fn is_valid(&self, previous_hash: &str) -> (ok: bool)
        ensures
            ok == block_valid(self@, previous_hash@),
            ok ==> forall|i: int| 0 <= i < self@.transactions.len() ==> tx_valid(#[trigger] self@.transactions[i]),
            ok ==> self@.previous_hash == previous_hash@ && self@.hash == block_hash(self@) && self@.merkle_root
                == merkle_root_of(self@.transactions),
    {
        if !same_text(self.previous_hash.as_str(), previous_hash) {
            return false;
        }
        let h = self.calculate_hash();
        if !(self.hash == h) {
            return false;
        }
        let mut i: usize = 0;
        while i < self.transactions.len()
            invariant
                i <= self.transactions@.len(),
                forall|j: int| 0 <= j < i ==> #[trigger] tx_valid(self@.transactions[j]),
            decreases self.transactions@.len() - i,
        {
            if !self.transactions[i].is_valid() {
                assert(self@.transactions[i as int] == self.transactions@[i as int]@);
                return false;
            }
            i = i + 1;
        }
        let calculated_merkle = Self::calculate_merkle_root(self.transactions.as_slice());
        if !(self.merkle_root == calculated_merkle) {
            return false;
        }
        true
    }

    /// The Merkle root of the transactions.
    pub fn calculate_merkle_root(transactions: &[Transaction]) -> (root: String)
        ensures
            root@ == merkle_root_of(tx_views(transactions@)),
    {
        let ghost txs = tx_views(transactions@);
        if transactions.len() == 0 {
            return String::new();
        }
        let mut hashes: Vec<String> = Vec::new();
        let mut k: usize = 0;
        while k < transactions.len()
            invariant
                k <= transactions@.len(),
                txs == tx_views(transactions@),
                string_views(hashes@) =~= txs.take(k as int).map_values(|t: TransactionView| tx_hash(t)),
            decreases transactions@.len() - k,
        {
            let h = transactions[k].calculate_hash();
            hashes.push(h);
            proof {
                assert(txs.take(k + 1).map_values(|t: TransactionView| tx_hash(t)) =~= txs.take(
                    k as int,
                ).map_values(|t: TransactionView| tx_hash(t)).push(h@));
                assert(string_views(hashes@) =~= txs.take(k + 1).map_values(|t: TransactionView| tx_hash(t)));
            }
            k = k + 1;
        }
        proof {
            assert(txs.take(transactions@.len() as int) =~= txs);
        }
        while hashes.len() > 1
            invariant
                hashes@.len() >= 1,
                merkle_reduce(string_views(hashes@)) == merkle_root_of(txs),
            decreases hashes@.len(),
        {
            let ghost level = string_views(hashes@);
            let mut new_hashes: Vec<String> = Vec::new();
            let len = hashes.len();
            let pairs = len / 2 + len % 2;
            let mut j: usize = 0;
            while j < pairs
                invariant
                    level == string_views(hashes@),
                    len == level.len(),
                    len > 1,
                    pairs == (len + 1) / 2,
                    j <= pairs,
                    new_hashes@.len() == j,
                    forall|k: int| 0 <= k < j ==> #[trigger] new_hashes@[k]@ == merkle_level(level)[k],
                decreases pairs - j,
            {
                let i = 2 * j;
                let mut combined = hashes[i].clone();
                if i + 1 < len {
                    combined.append(hashes[i + 1].as_str());
                } else {
                    combined.append(hashes[i].as_str());
                }
                let h = sha256_hex(combined.as_str());
                proof {
                    assert(h@ == merkle_level(level)[j as int]);
                }
                new_hashes.push(h);
                j = j + 1;
            }
            proof {
                assert(string_views(new_hashes@) =~= merkle_level(level));
            }
            hashes = new_hashes;
        }
        proof {
            assert(merkle_reduce(string_views(hashes@)) == string_views(hashes@)[0]);
        }
        hashes[0].clone()
    }

    /// The first block: the genesis transaction, mined at difficulty 2.
    pub fn genesis() -> (b: Self)
        ensures
            b.index == 0,
            b@.previous_hash.len() == 0,
            b@.transactions.len() == 1,
            b@.transactions[0].id == "genesis"@,
            b@.transactions[0].from_address.len() == 0,
            b@.transactions[0].to_address == "genesis_reward"@,
            b@.transactions[0].amount == 100 * COIN,
            b@.merkle_root == merkle_root_of(b@.transactions),
            b@.hash == block_hash(b@),
            meets_target(b@.hash, 2) || (b.nonce == u64::MAX && no_nonce_meets(b@, 2)),
    {
        let genesis_transaction = Transaction::genesis_transaction();
        let mut transactions: Vec<Transaction> = Vec::new();
        transactions.push(genesis_transaction);
        let mut genesis_block = Block::new(0, transactions, String::new());
        let ghost start = genesis_block@;
        let found = genesis_block.mine_block(2);
        proof {
            if !found {
                lemma_search_exhausted(start, genesis_block@, 2);
            }
        }
        genesis_block
    }

    /// The number of transactions.
    pub fn get_transaction_count(&self) -> (n: usize)
        ensures
            n == self@.transactions.len(),
    {
        self.transactions.len()
    }

    /// The sum of the amounts of the transactions, in units.
    pub fn get_total_amount(&self) -> (total: i128)
        ensures
            total == amount_sum(self@.transactions),
    {
        let mut total: i128 = 0;
        let mut i: usize = 0;
        while i < self.transactions.len()
            invariant
                i <= self.transactions@.len(),
                total == amount_sum(self@.transactions.take(i as int)),
                -(i as int) * 0x8000_0000_0000_0000 <= total <= (i as int) * 0x8000_0000_0000_0000,
            decreases self.transactions@.len() - i,
        {
            proof {
                assert(self@.transactions.take(i + 1).drop_last() =~= self@.transactions.take(i as int));
                assert((i as int + 1) * 0x8000_0000_0000_0000 <= 0x8000_0000_0000_0000_0000_0000_0000_0000) by (nonlinear_arith)
                    requires (i as int) < 0x1_0000_0000_0000_0000;
            }
            total = total + self.transactions[i].amount as i128;
            i = i + 1;
        }
        proof {
            assert(self@.transactions.take(self@.transactions.len() as int) =~= self@.transactions);
        }
        total
    }
}

} // verus!

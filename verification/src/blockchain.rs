//! The chain of blocks, the pool of pending transactions and the balances,
//! with the halving reward schedule and the supply cap.

use vstd::prelude::*;
use crate::amount::{amount_text, push_amount, COIN, MAX_SUPPLY};
use crate::block::{
    block_hash, block_preimage, block_valid, lemma_search_exhausted, meets_target, merkle_root_of, no_nonce_meets,
    with_nonce, Block, BlockView,
};
use crate::ledger::{balance_in, minted_sum, tx_applied, txs_applied, Ledger};
use crate::text::owned;
use crate::transaction::{tx_valid, tx_views, Transaction, TransactionView};

verus! {

/// Blocks between two halvings of the mining reward.
pub const HALVING_INTERVAL: u64 = 100_000;

/// Halvings after which mining pays nothing.
pub const MAX_HALVINGS: u64 = 8;

/// Proof-of-work difficulty of new chains: leading zeros of a block's hash.
pub const DEFAULT_DIFFICULTY: usize = 5;

/// The chain, the pending transactions and the balances.
#[derive(Debug)]
pub struct Blockchain {
    chain: Vec<Block>,
    difficulty: usize,
    pending_transactions: Vec<Transaction>,
    mining_reward: i64,
    balances: Ledger,
}

/// What a blockchain holds; `supply` is the sum of all balances.
pub struct BlockchainView {
    pub chain: Seq<BlockView>,
    pub difficulty: usize,
    pub pending: Seq<TransactionView>,
    pub mining_reward: i64,
    pub balances: Map<Seq<char>, i64>,
    pub supply: int,
}

pub open spec fn block_views(bs: Seq<Block>) -> Seq<BlockView> {
    bs.map_values(|b: Block| b@)
}

impl View for Blockchain {
    type V = BlockchainView;

    closed spec fn view(&self) -> BlockchainView {
        BlockchainView {
            chain: block_views(self.chain@),
            difficulty: self.difficulty,
            pending: tx_views(self.pending_transactions@),
            mining_reward: self.mining_reward,
            balances: self.balances@,
            supply: self.balances.total(),
        }
    }
}

/// Summary figures of a blockchain.
#[derive(Debug, Clone, Copy, PartialEq, Eq, Structural)]
pub struct BlockchainInfo {
    pub total_blocks: usize,
    pub total_transactions: usize,
    pub total_supply: i128,
    pub difficulty: usize,
    pub mining_reward: i64,
    pub pending_transactions: usize,
}

pub open spec fn pow2(n: nat) -> nat
    decreases n,
{
    if n == 0 {
        1
    } else {
        2 * pow2((n - 1) as nat)
    }
}

/// `base` halved `h` times, rounded toward zero.
pub open spec fn halved(base: int, h: nat) -> int {
    if base >= 0 {
        base / (pow2(h) as int)
    } else {
        -((-base) / (pow2(h) as int))
    }
}

/// The reward for mining the block at `height` when `supply` units exist:
/// `base` halved once per 100,000 blocks, nothing after 8 halvings, and never
/// more than what is left below the supply cap.
pub open spec fn reward_at(height: nat, supply: int, base: int) -> int {
    let halvings = height / (HALVING_INTERVAL as nat);
    if halvings >= MAX_HALVINGS {
        0
    } else if supply >= MAX_SUPPLY {
        0
    } else if supply + halved(base, halvings) > MAX_SUPPLY {
        MAX_SUPPLY - supply
    } else {
        halved(base, halvings)
    }
}

/// The hash that the next block must name: that of the last block, or empty.
pub open spec fn tip_hash(c: Seq<BlockView>) -> Seq<char> {
    if c.len() == 0 {
        Seq::empty()
    } else {
        c.last().hash
    }
}

/// A block follows another: it is valid after it, names its hash, and has
/// the next index.
#[verifier::opaque]
pub open spec fn link_ok(prev: BlockView, cur: BlockView) -> bool {
    &&& block_valid(cur, prev.hash)
    &&& cur.previous_hash == prev.hash
    &&& cur.index == prev.index + 1
}

/// The chain is valid: the first block has index 0 and no previous hash, and
/// every later block follows the one before it.
pub open spec fn chain_valid(c: Seq<BlockView>) -> bool {
    c.len() == 0 || {
        &&& c[0].index == 0
        &&& c[0].previous_hash.len() == 0
        &&& forall|i: int| 1 <= i < c.len() ==> link_ok(c[i - 1], #[trigger] c[i])
    }
}

/// A reward transaction: issued by the system to the miner.
pub open spec fn is_reward_tx(t: TransactionView, miner: Seq<char>, reward: int) -> bool {
    &&& t.from_address.len() == 0
    &&& t.to_address == miner
    &&& t.amount == reward
    &&& t.fee == 0
    &&& t.signature is None
    &&& t.id.len() == 36
}

/// The fees of transactions.
pub open spec fn fees_sum(ts: Seq<TransactionView>) -> int
    decreases ts.len(),
{
    if ts.len() == 0 {
        0
    } else {
        fees_sum(ts.drop_last()) + ts.last().fee
    }
}

/// What the miner of the next block is paid: the reward and the fees of the
/// pending transactions.
pub open spec fn payout(s: BlockchainView) -> int {
    reward_at(s.chain.len(), s.supply, s.mining_reward as int) + fees_sum(s.pending)
}

/// The transactions of a block mined by `miner`: the payout, when positive,
/// then the pending transactions.
pub open spec fn mined_transactions(s: BlockchainView, miner: Seq<char>, ts: Seq<TransactionView>) -> bool {
    if payout(s) > 0 {
        ts.len() == s.pending.len() + 1 && is_reward_tx(ts[0], miner, payout(s)) && ts.skip(1) == s.pending
    } else {
        ts == s.pending
    }
}

/// A block the miner may search a nonce for: the next index, the mined
/// transactions, the tip's hash and their Merkle root; its time is the
/// clock's.
pub open spec fn mining_candidate(s: BlockchainView, miner: Seq<char>, b: BlockView) -> bool {
    &&& b.index == s.chain.len()
    &&& mined_transactions(s, miner, b.transactions)
    &&& b.previous_hash == tip_hash(s.chain)
    &&& b.merkle_root == merkle_root_of(b.transactions)
}

/// The first block of a chain.
pub open spec fn is_genesis_block(b: BlockView) -> bool {
    &&& b.index == 0
    &&& b.previous_hash.len() == 0
    &&& b.transactions.len() == 1
    &&& b.transactions[0].id == "genesis"@
    &&& b.transactions[0].from_address.len() == 0
    &&& b.transactions[0].to_address == "genesis_reward"@
    &&& b.transactions[0].amount == 100 * COIN
    &&& b.merkle_root == merkle_root_of(b.transactions)
    &&& b.hash == block_hash(b)
    &&& (meets_target(b.hash, 2) || (b.nonce == u64::MAX && no_nonce_meets(b, 2)))
}

/// The message of a refused transfer.
pub open spec fn insufficient_message(balance: int, amount: int) -> Seq<char> {
    "موجودی ناکافی! موجودی فعلی: "@ + amount_text(balance) + ", مقدار درخواستی: "@ + amount_text(amount)
}

/// A transaction that involves the address, as sender or receiver.
pub open spec fn involves(t: TransactionView, a: Seq<char>) -> bool {
    t.from_address == a || t.to_address == a
}

/// The transactions of `ts` that involve the address, in order.
pub open spec fn txs_involving(ts: Seq<TransactionView>, a: Seq<char>) -> Seq<TransactionView>
    decreases ts.len(),
{
    if ts.len() == 0 {
        Seq::empty()
    } else if involves(ts.last(), a) {
        txs_involving(ts.drop_last(), a).push(ts.last())
    } else {
        txs_involving(ts.drop_last(), a)
    }
}

/// All transactions of the chain, block after block.
pub open spec fn chain_transactions(c: Seq<BlockView>) -> Seq<TransactionView>
    decreases c.len(),
{
    if c.len() == 0 {
        Seq::empty()
    } else {
        chain_transactions(c.drop_last()) + c.last().transactions
    }
}

/// The number of transactions in the chain.
pub open spec fn transaction_count(c: Seq<BlockView>) -> int
    decreases c.len(),
{
    if c.len() == 0 {
        0
    } else {
        transaction_count(c.drop_last()) + c.last().transactions.len()
    }
}

/// In a valid chain each block's index is its position.
pub proof fn lemma_chain_indices(c: Seq<BlockView>)
    requires
        chain_valid(c),
    ensures
        forall|i: int| 0 <= i < c.len() ==> #[trigger] c[i].index == i,
{
    assert forall|i: int| 0 <= i < c.len() implies #[trigger] c[i].index == i by {
        lemma_chain_index(c, i);
    }
}

proof fn lemma_chain_index(c: Seq<BlockView>, i: int)
    requires
        chain_valid(c),
        0 <= i < c.len(),
    ensures
        c[i].index == i,
    decreases i,
{
    if i > 0 {
        lemma_chain_index(c, i - 1);
        assert(link_ok(c[i - 1], c[i]));
        reveal(link_ok);
    }
}

/// Appending a block that is valid after the tip and has the next index keeps
/// a chain valid.
pub proof fn lemma_chain_extend(c: Seq<BlockView>, b: BlockView)
    requires
        chain_valid(c),
        block_valid(b, tip_hash(c)),
        b.index == c.len(),
    ensures
        chain_valid(c.push(b)),
{
    let n = c.push(b);
    if c.len() > 0 {
        lemma_chain_indices(c);
        assert(c[c.len() - 1].index == c.len() - 1);
        assert forall|i: int| 1 <= i < n.len() implies link_ok(n[i - 1], #[trigger] n[i]) by {
            if i < c.len() {
                assert(n[i] == c[i] && n[i - 1] == c[i - 1]);
            } else {
                reveal(link_ok);
            }
        }
    }
}

/// One operation on a chain: it stays as it is, an empty chain gets its
/// genesis block, or a block is appended that is valid after the tip and has
/// the next index.
pub open spec fn chain_step(a: Seq<BlockView>, b: Seq<BlockView>) -> bool {
    ||| b == a
    ||| a.len() == 0 && b.len() == 1 && is_genesis_block(b[0])
    ||| b.len() == a.len() + 1 && b.drop_last() == a && b.last().index == a.len() && block_valid(
        b.last(),
        tip_hash(a),
    )
}

/// Every chain reached from an empty one is valid. `new` gives an empty
/// chain, and `create_genesis_block`, `mine_pending_transactions`,
/// `add_transaction` and `update_balances_from_block` each take a chain one
/// `chain_step` further.
pub proof fn law_reachable_chains_valid(trace: Seq<Seq<BlockView>>)
    requires
        trace.len() > 0,
        trace[0].len() == 0,
        forall|i: int| 0 <= i < trace.len() - 1 ==> chain_step(#[trigger] trace[i], trace[i + 1]),
    ensures
        forall|i: int| 0 <= i < trace.len() ==> chain_valid(#[trigger] trace[i]),
    decreases trace.len(),
{
    if trace.len() > 1 {
        let p = trace.drop_last();
        assert forall|i: int| 0 <= i < p.len() - 1 implies chain_step(#[trigger] p[i], p[i + 1]) by {
            assert(chain_step(trace[i], trace[i + 1]));
        }
        law_reachable_chains_valid(p);
        let n = trace.len() - 1;
        let a = trace[n - 1];
        let b = trace[n];
        assert(chain_valid(p[n - 1]));
        assert(chain_step(trace[n - 1], trace[n]));
        if b == a {
        } else if a.len() == 0 && b.len() == 1 && is_genesis_block(b[0]) {
        } else {
            assert(b =~= a.push(b.last()));
            lemma_chain_extend(a, b.last());
        }
        assert forall|i: int| 0 <= i < trace.len() implies chain_valid(#[trigger] trace[i]) by {
            if i < n {
                assert(trace[i] == p[i]);
            }
        }
    }
}

/// Where the transactions apply, every prefix of them applies.
proof fn lemma_txs_applied_prefix(m: Map<Seq<char>, i64>, ts: Seq<TransactionView>, k: int)
    requires
        0 <= k <= ts.len(),
        txs_applied(m, ts) is Some,
    ensures
        txs_applied(m, ts.take(k)) is Some,
    decreases ts.len(),
{
    if k < ts.len() {
        assert(ts.drop_last().take(k) =~= ts.take(k));
        lemma_txs_applied_prefix(m, ts.drop_last(), k);
    } else {
        assert(ts.take(k) =~= ts);
    }
}

/// The reward transaction's effect on balances: a credit from the system.
pub open spec fn reward_view(miner: Seq<char>, reward: i64) -> TransactionView {
    TransactionView {
        id: Seq::empty(),
        from_address: Seq::empty(),
        to_address: miner,
        amount: reward,
        fee: 0,
        timestamp: 0,
        signature: None,
        public_key: None,
    }
}

/// Nothing to mine: no reward and no pending transactions.
pub open spec fn nothing_to_mine(s: BlockchainView) -> bool {
    reward_at(s.chain.len(), s.supply, s.mining_reward as int) <= 0 && s.pending.len() == 0
}

/// Every pending transaction is valid.
pub open spec fn pool_valid(s: BlockchainView) -> bool {
    forall|i: int| 0 <= i < s.pending.len() ==> #[trigger] tx_valid(s.pending[i])
}

/// The balances after paying the miner (when the payout is positive) and
/// applying the pending transactions, or `None` when a balance or the payout
/// would leave the range of `i64`.
pub open spec fn mined_balances(s: BlockchainView, miner: Seq<char>) -> Option<Map<Seq<char>, i64>> {
    if payout(s) > i64::MAX {
        None
    } else if payout(s) > 0 {
        txs_applied(s.balances, seq![reward_view(miner, payout(s) as i64)] + s.pending)
    } else {
        txs_applied(s.balances, s.pending)
    }
}

/// Two lists of transactions move the same amounts between the same addresses.
pub open spec fn same_effects(a: Seq<TransactionView>, b: Seq<TransactionView>) -> bool {
    &&& a.len() == b.len()
    &&& forall|i: int| 0 <= i < a.len() ==> {
        &&& #[trigger] a[i].from_address == b[i].from_address
        &&& a[i].to_address == b[i].to_address
        &&& a[i].amount == b[i].amount
        &&& a[i].fee == b[i].fee
    }
}

/// A mined list of transactions moves what the reward and the pool move.
proof fn lemma_mined_effects(s: BlockchainView, miner: Seq<char>, reward: i64, txs: Seq<TransactionView>)
    requires
        txs.len() == s.pending.len() + 1,
        txs[0].from_address.len() == 0,
        txs[0].to_address == miner,
        txs[0].amount == reward,
        txs[0].fee == 0,
        txs.skip(1) == s.pending,
    ensures
        txs_applied(s.balances, txs) == txs_applied(s.balances, seq![reward_view(miner, reward)] + s.pending),
{
    let b = seq![reward_view(miner, reward)] + s.pending;
    assert(txs[0].from_address =~= b[0].from_address);
    assert forall|i: int| 0 <= i < txs.len() implies #[trigger] txs[i].from_address == b[i].from_address
        && txs[i].to_address == b[i].to_address && txs[i].amount == b[i].amount && txs[i].fee == b[i].fee by {
        if i > 0 {
            assert(txs[i] == txs.skip(1)[i - 1]);
            assert(b[i] == s.pending[i - 1]);
        }
    }
    lemma_txs_applied_effects(s.balances, txs, b);
}

/// The transactions of a mined block are valid when the pool is.
proof fn lemma_mined_valid(s: BlockchainView, miner: Seq<char>, txs: Seq<TransactionView>)
    requires
        pool_valid(s),
        mined_transactions(s, miner, txs),
    ensures
        forall|j: int| 0 <= j < txs.len() ==> #[trigger] tx_valid(txs[j]),
{
    assert forall|j: int| 0 <= j < txs.len() implies #[trigger] tx_valid(txs[j]) by {
        if payout(s) > 0 {
            if j > 0 {
                assert(txs[j] == txs.skip(1)[j - 1]);
                assert(tx_valid(s.pending[j - 1]));
            }
        } else {
            assert(tx_valid(s.pending[j]));
        }
    }
}

/// Balances after transactions depend only on who pays whom how much.
proof fn lemma_txs_applied_effects(m: Map<Seq<char>, i64>, a: Seq<TransactionView>, b: Seq<TransactionView>)
    requires
        same_effects(a, b),
    ensures
        txs_applied(m, a) == txs_applied(m, b),
    decreases a.len(),
{
    if a.len() > 0 {
        let n = a.len() - 1;
        assert(a[n].from_address == b[n].from_address);
        assert(same_effects(a.drop_last(), b.drop_last())) by {
            assert forall|i: int| 0 <= i < a.drop_last().len() implies #[trigger] a.drop_last()[i].from_address
                == b.drop_last()[i].from_address && a.drop_last()[i].to_address == b.drop_last()[i].to_address
                && a.drop_last()[i].amount == b.drop_last()[i].amount && a.drop_last()[i].fee
                == b.drop_last()[i].fee by {
                assert(a[i].from_address == b[i].from_address);
            }
        }
        lemma_txs_applied_effects(m, a.drop_last(), b.drop_last());
    }
}

impl Blockchain {
    /// An empty chain: difficulty 5, a base reward of 50 TEC, no balances.
    pub fn new() -> (bc: Self)
        ensures
            bc@.chain.len() == 0,
            bc@.difficulty == DEFAULT_DIFFICULTY,
            bc@.pending.len() == 0,
            bc@.mining_reward == 50 * COIN,
            bc@.balances == Map::<Seq<char>, i64>::empty(),
            bc@.supply == 0,
    {
        let bc = Blockchain {
            chain: Vec::new(),
            difficulty: DEFAULT_DIFFICULTY,
            pending_transactions: Vec::new(),
            mining_reward: 50 * COIN,
            balances: Ledger::new(),
        };
        proof {
            assert(block_views(bc.chain@) =~= Seq::<BlockView>::empty());
            assert(tx_views(bc.pending_transactions@) =~= Seq::<TransactionView>::empty());
        }
        bc
    }

    /// A blockchain of the given parts, taken as they are.
    pub fn from_parts(
        chain: Vec<Block>,
        difficulty: usize,
        pending_transactions: Vec<Transaction>,
        mining_reward: i64,
        balances: Vec<(String, i64)>,
    ) -> (bc: Self)
        ensures
            bc@.chain == block_views(chain@),
            bc@.difficulty == difficulty,
            bc@.pending == tx_views(pending_transactions@),
            bc@.mining_reward == mining_reward,
            bc@.balances == crate::ledger::entries_map(crate::ledger::entry_views(balances@)),
    {
        Blockchain {
            chain,
            difficulty,
            pending_transactions,
            mining_reward,
            balances: Ledger::from_entries(balances),
        }
    }

    /// Adds the genesis block to an empty chain and credits its transaction.
    /// A chain that has blocks is left as it is; so is one whose balances
    /// cannot take the credit.
    pub fn create_genesis_block(&mut self)
        ensures
            old(self)@.chain.len() > 0 ==> final(self)@ == old(self)@,
            old(self)@.chain.len() == 0 && balance_in(old(self)@.balances, "genesis_reward"@) + 100 * COIN
                > i64::MAX ==> final(self)@ == old(self)@,
            old(self)@.chain.len() == 0 && balance_in(old(self)@.balances, "genesis_reward"@) + 100 * COIN
                <= i64::MAX ==> {
                &&& final(self)@.chain.len() == 1
                &&& is_genesis_block(final(self)@.chain[0])
                &&& txs_applied(old(self)@.balances, final(self)@.chain[0].transactions) == Some(final(self)@.balances)
                &&& final(self)@.supply == old(self)@.supply + 100 * COIN
                &&& final(self)@.pending == old(self)@.pending
                &&& final(self)@.difficulty == old(self)@.difficulty
                &&& final(self)@.mining_reward == old(self)@.mining_reward
            },
            chain_valid(old(self)@.chain) ==> chain_valid(final(self)@.chain),
            chain_step(old(self)@.chain, final(self)@.chain),
    {
        if self.chain.len() == 0 {
            let genesis_block = Block::genesis();
            let ghost gv = genesis_block@;
            proof {
                reveal_with_fuel(minted_sum, 2);
                assert(gv.transactions.drop_last() =~= Seq::<TransactionView>::empty());
                assert(minted_sum(gv.transactions) == 100 * COIN);
                reveal_with_fuel(txs_applied, 2);
                assert(txs_applied(self@.balances, gv.transactions) == tx_applied(self@.balances, gv.transactions[0]));
                assert(txs_applied(self@.balances, gv.transactions) is Some <==> balance_in(
                    self@.balances,
                    "genesis_reward"@,
                ) + 100 * COIN <= i64::MAX);
            }
            assert(block_views(self.chain@).len() == 0);
            if self.update_balances_from_block(&genesis_block) {
                assert(block_views(self.chain@).len() == 0);
                assert(self.chain@.len() == 0);
                self.chain.push(genesis_block);
                proof {
                    assert(self.chain@.len() == 1);
                    assert(self.chain@[0]@ == gv);
                    assert(block_views(self.chain@) =~= seq![gv]);
                }
            }
        }
    }

    /// The reward for mining the next block.
    pub fn calculate_mining_reward(&self) -> (r: i64)
        ensures
            r == reward_at(self@.chain.len(), self@.supply, self@.mining_reward as int),
    {
        let current_height = self.chain.len() as u64;
        let halvings = current_height / HALVING_INTERVAL;
        if halvings >= MAX_HALVINGS {
            return 0;
        }
        let mut divisor: i128 = 1;
        let mut k: u64 = 0;
        while k < halvings
            invariant
                k <= halvings < MAX_HALVINGS,
                divisor == pow2(k as nat),
                1 <= divisor <= 128,
            decreases halvings - k,
        {
            proof {
                lemma_pow2_bound(k as nat);
                assert(pow2((k + 1) as nat) == 2 * pow2(k as nat));
            }
            divisor = divisor * 2;
            k = k + 1;
        }
        let base = self.mining_reward as i128;
        let current_reward: i128 = if base >= 0 {
            proof {
                lemma_div_bound(base as int, divisor as int);
            }
            base / divisor
        } else {
            proof {
                lemma_div_bound(-base, divisor as int);
            }
            -((-base) / divisor)
        };
        assert(current_reward == halved(base as int, halvings as nat));
        assert(i64::MIN <= current_reward <= i64::MAX);
        let current_supply = self.get_total_supply();
        if current_supply >= MAX_SUPPLY {
            return 0;
        }
        if current_supply + current_reward > MAX_SUPPLY {
            return (MAX_SUPPLY - current_supply) as i64;
        }
        current_reward as i64
    }

    /// The number of the halving that the chain has just reached, if its
    /// length is a positive multiple of the interval.
    pub fn check_halving(&self) -> (r: Option<u64>)
        ensures
            r == (if self@.chain.len() > 0 && self@.chain.len() % (HALVING_INTERVAL as nat) == 0 {
                Some((self@.chain.len() / (HALVING_INTERVAL as nat)) as u64)
            } else {
                None
            }),
    {
        let current_height = self.chain.len() as u64;
        if current_height > 0 && current_height % HALVING_INTERVAL == 0 {
            Some(current_height / HALVING_INTERVAL)
        } else {
            None
        }
    }

    /// The last block.
    pub fn get_latest_block(&self) -> (r: Option<&Block>)
        ensures
            match r {
                Some(b) => self@.chain.len() > 0 && b@ == self@.chain.last(),
                None => self@.chain.len() == 0,
            },
    {
        let n = self.chain.len();
        if n == 0 {
            None
        } else {
            Some(&self.chain[n - 1])
        }
    }

    /// Puts a valid transaction in the pool of pending transactions, when its
    /// sender has at least its amount and fee. Transfers that the system issues are
    /// refused: new coins come only from mining.
    pub fn add_transaction(&mut self, transaction: Transaction) -> (r: Result<(), String>)
        ensures
            chain_step(old(self)@.chain, final(self)@.chain),
            match r {
                Ok(()) => {
                    &&& transaction@.from_address.len() > 0
                    &&& tx_valid(transaction@)
                    &&& balance_in(old(self)@.balances, transaction@.from_address) >= transaction@.amount
                        + transaction@.fee
                    &&& final(self)@ == (BlockchainView { pending: old(self)@.pending.push(transaction@), ..old(self)@ })
                },
                Err(e) => {
                    &&& final(self)@ == old(self)@
                    &&& if transaction@.from_address.len() == 0 {
                        e@ == "system transactions are not accepted"@
                    } else if !tx_valid(transaction@) {
                        e@ == "تراکنش نامعتبر است"@
                    } else {
                        &&& balance_in(old(self)@.balances, transaction@.from_address) < transaction@.amount
                            + transaction@.fee
                        &&& e@ == insufficient_message(
                            balance_in(old(self)@.balances, transaction@.from_address),
                            transaction@.amount + transaction@.fee,
                        )
                    }
                },
            },
    {
        if transaction.from_address.as_str().is_empty() {
            return Err("system transactions are not accepted".to_string());
        }
        if !transaction.is_valid() {
            return Err("تراکنش نامعتبر است".to_string());
        }
        let balance = self.get_balance(transaction.from_address.as_str());
        let needed = transaction.amount + transaction.fee;
        if balance < needed {
            let mut message = "موجودی ناکافی! موجودی فعلی: ".to_string();
            push_amount(&mut message, balance);
            message.append(", مقدار درخواستی: ");
            push_amount(&mut message, needed);
            return Err(message);
        }
        self.pending_transactions.push(transaction);
        proof {
            assert(tx_views(self.pending_transactions@) =~= tx_views(old(self).pending_transactions@).push(
                transaction@,
            ));
        }
        Ok(())
    }

    /// Mines a block of the reward (when positive) for `mining_reward_address`
    /// and the pending transactions, at the chain's difficulty; credits its
    /// transactions, appends it, and empties the pool. It fails, changing
    /// nothing, when there is nothing to mine, when a pending transaction is
    /// invalid, when a balance would leave the range of `i64`, or when no
    /// nonce meets the difficulty.
    #[verifier::rlimit(50)]
    #[verifier::spinoff_prover]
    pub fn mine_pending_transactions(&mut self, mining_reward_address: &str) -> (r: Result<(), String>)
        ensures
            r is Ok ==> !nothing_to_mine(old(self)@) && pool_valid(old(self)@) && mined_balances(
                old(self)@,
                mining_reward_address@,
            ) is Some,
            !nothing_to_mine(old(self)@) && pool_valid(old(self)@) && mined_balances(
                old(self)@,
                mining_reward_address@,
            ) is Some && old(self)@.difficulty == 0 ==> r is Ok,
            chain_step(old(self)@.chain, final(self)@.chain),
            match r {
                Ok(()) => {
                    &&& final(self)@.chain.len() == old(self)@.chain.len() + 1
                    &&& final(self)@.chain.drop_last() == old(self)@.chain
                    &&& final(self)@.chain.last().index == old(self)@.chain.len()
                    &&& mined_transactions(old(self)@, mining_reward_address@, final(self)@.chain.last().transactions)
                    &&& block_valid(final(self)@.chain.last(), tip_hash(old(self)@.chain))
                    &&& meets_target(final(self)@.chain.last().hash, old(self)@.difficulty as nat)
                    &&& final(self)@.chain.last().hash.len() >= old(self)@.difficulty
                    &&& forall|i: int| 0 <= i < old(self)@.difficulty ==> #[trigger] final(self)@.chain.last().hash[i]
                        == '0'
                    &&& txs_applied(old(self)@.balances, final(self)@.chain.last().transactions) == Some(final(self)@.balances)
                    &&& mined_balances(old(self)@, mining_reward_address@) == Some(final(self)@.balances)
                    &&& final(self)@.supply == old(self)@.supply + minted_sum(final(self)@.chain.last().transactions)
                    &&& final(self)@.pending.len() == 0
                    &&& final(self)@.difficulty == old(self)@.difficulty
                    &&& final(self)@.mining_reward == old(self)@.mining_reward
                    &&& chain_valid(old(self)@.chain) ==> chain_valid(final(self)@.chain)
                },
                Err(e) => {
                    &&& final(self)@ == old(self)@
                    &&& if nothing_to_mine(old(self)@) {
                        e@ == "هیچ تراکنش برای استخراج وجود ندارد"@
                    } else if !pool_valid(old(self)@) {
                        e@ == "بلاک استخراج شده نامعتبر است"@
                    } else if mined_balances(old(self)@, mining_reward_address@) is None {
                        e@ == "balance overflow"@
                    } else {
                        &&& e@ == "nonce space exhausted"@
                        &&& old(self)@.difficulty > 0
                        &&& exists|b: BlockView| #[trigger] mining_candidate(old(self)@, mining_reward_address@, b)
                            && no_nonce_meets(b, old(self)@.difficulty as nat)
                    }
                },
            },
    {
        let ghost s = self@;
        let current_reward = self.calculate_mining_reward();
        if current_reward <= 0 && self.pending_transactions.len() == 0 {
            return Err("هیچ تراکنش برای استخراج وجود ندارد".to_string());
        }
        let mut k: usize = 0;
        while k < self.pending_transactions.len()
            invariant
                self@ == s,
                k <= s.pending.len(),
                forall|j: int| 0 <= j < k ==> #[trigger] tx_valid(s.pending[j]),
            decreases s.pending.len() - k,
        {
            assert(s.pending[k as int] == self.pending_transactions@[k as int]@);
            if !self.pending_transactions[k].is_valid() {
                return Err("بلاک استخراج شده نامعتبر است".to_string());
            }
            k = k + 1;
        }
        let mut fees: i128 = 0;
        let mut f: usize = 0;
        while f < self.pending_transactions.len()
            invariant
                self@ == s,
                f <= s.pending.len(),
                fees == fees_sum(s.pending.take(f as int)),
                -(f as int) * 0x8000_0000_0000_0000 <= fees <= (f as int) * 0x8000_0000_0000_0000,
            decreases s.pending.len() - f,
        {
            proof {
                assert(s.pending.take(f + 1).drop_last() =~= s.pending.take(f as int));
                assert(s.pending[f as int] == self.pending_transactions@[f as int]@);
            }
            fees = fees + self.pending_transactions[f].fee as i128;
            f = f + 1;
        }
        proof {
            assert(s.pending.take(s.pending.len() as int) =~= s.pending);
        }
        let total: i128 = current_reward as i128 + fees;
        assert(total == payout(s));
        if total > i64::MAX as i128 {
            return Err("balance overflow".to_string());
        }
        let mut transactions: Vec<Transaction> = Vec::new();
        if total > 0 {
            let reward_transaction = Transaction::mining_reward(owned(mining_reward_address), total as i64);
            transactions.push(reward_transaction);
            assert(tx_views(transactions@)[0] == reward_transaction@);
        }
        assert(tx_views(transactions@).len() == if total > 0 { 1int } else { 0int });
        let ghost head = tx_views(transactions@);
        let mut i: usize = 0;
        while i < self.pending_transactions.len()
            invariant
                self@ == s,
                i <= self.pending_transactions@.len(),
                tx_views(transactions@) =~= head + tx_views(self.pending_transactions@).take(i as int),
            decreases self.pending_transactions@.len() - i,
        {
            let t = self.pending_transactions[i].duplicate();
            let ghost before = tx_views(transactions@);
            transactions.push(t);
            proof {
                assert(tx_views(transactions@) =~= before.push(t@));
                assert(tx_views(self.pending_transactions@).take(i + 1) =~= tx_views(
                    self.pending_transactions@,
                ).take(i as int).push(t@));
            }
            i = i + 1;
        }
        let ghost txs = tx_views(transactions@);
        proof {
            assert(tx_views(self.pending_transactions@).take(self.pending_transactions@.len() as int)
                =~= tx_views(self.pending_transactions@));
            assert(txs =~= head + s.pending);
            if total > 0 {
                assert(txs.skip(1) =~= s.pending);
                lemma_mined_effects(s, mining_reward_address@, total as i64, txs);
            } else {
                assert(txs =~= s.pending);
            }
            assert(mined_balances(s, mining_reward_address@) == txs_applied(s.balances, txs));
            assert(mined_transactions(s, mining_reward_address@, txs));
        }
        let ledger = match self.ledger_after(&transactions) {
            Some(l) => l,
            None => {
                return Err("balance overflow".to_string());
            },
        };
        let previous_hash = match self.get_latest_block() {
            Some(block) => block.hash.clone(),
            None => String::new(),
        };
        let mut new_block = Block::new(self.chain.len() as u64, transactions, previous_hash);
        let ghost unmined = new_block@;
        if !new_block.mine_block(self.difficulty) {
            proof {
                lemma_search_exhausted(unmined, new_block@, self.difficulty as nat);
                assert(mining_candidate(s, mining_reward_address@, unmined));
            }
            return Err("nonce space exhausted".to_string());
        }
        proof {
            assert(block_preimage(new_block@) =~= block_preimage(with_nonce(unmined, new_block.nonce)));
            lemma_mined_valid(s, mining_reward_address@, txs);
        }
        let ghost old_chain = block_views(self.chain@);
        self.balances = ledger;
        self.chain.push(new_block);
        self.pending_transactions.clear();
        proof {
            assert(block_views(self.chain@) =~= old_chain.push(new_block@));
            assert(block_views(self.chain@).drop_last() =~= old_chain);
            assert(tx_views(self.pending_transactions@) =~= Seq::<TransactionView>::empty());
            if chain_valid(old_chain) {
                lemma_chain_extend(old_chain, new_block@);
            }
        }
        Ok(())
    }

    /// The ledger after the transactions, in order, or `None` when a balance
    /// would leave the range of `i64`.
    fn ledger_after(&self, transactions: &Vec<Transaction>) -> (r: Option<Ledger>)
        ensures
            match txs_applied(self@.balances, tx_views(transactions@)) {
                Some(m) => r matches Some(l) && l@ == m && l.total() == self@.supply + minted_sum(
                    tx_views(transactions@),
                ),
                None => r is None,
            },
    {
        let ghost ts = tx_views(transactions@);
        let mut ledger = self.balances.duplicate();
        let mut i: usize = 0;
        while i < transactions.len()
            invariant
                i <= transactions@.len(),
                ts == tx_views(transactions@),
                txs_applied(self.balances@, ts.take(i as int)) == Some(ledger@),
                ledger.total() == self.balances.total() + minted_sum(ts.take(i as int)),
            decreases transactions@.len() - i,
        {
            proof {
                assert(ts.take(i + 1).drop_last() =~= ts.take(i as int));
                assert(ts.take(i + 1).last() == transactions@[i as int]@);
            }
            if !ledger.apply_transaction(&transactions[i]) {
                proof {
                    if txs_applied(self.balances@, ts) is Some {
                        lemma_txs_applied_prefix(self.balances@, ts, i + 1);
                    }
                }
                return None;
            }
            i = i + 1;
        }
        proof {
            assert(ts.take(ts.len() as int) =~= ts);
        }
        Some(ledger)
    }

    /// Credits and debits the block's transactions, in order; changes nothing
    /// and returns `false` when a balance would leave the range of `i64`.
    pub fn update_balances_from_block(&mut self, block: &Block) -> (ok: bool)
        ensures
            chain_step(old(self)@.chain, final(self)@.chain),
            match txs_applied(old(self)@.balances, block@.transactions) {
                Some(m) => ok && final(self)@ == (BlockchainView {
                    balances: m,
                    supply: old(self)@.supply + minted_sum(block@.transactions),
                    ..old(self)@
                }),
                None => !ok && final(self)@ == old(self)@,
            },
    {
        match self.ledger_after(&block.transactions) {
            Some(ledger) => {
                self.balances = ledger;
                true
            },
            None => false,
        }
    }

    /// The balance of an address, in units.
    pub fn get_balance(&self, address: &str) -> (b: i64)
        ensures
            b == balance_in(self@.balances, address@),
    {
        self.balances.get(address)
    }

    /// Whether the chain is valid.
    #[verifier::rlimit(100)]
    #[verifier::spinoff_prover]
    pub fn is_chain_valid(&self) -> (ok: bool)
        ensures
            ok == chain_valid(self@.chain),
            ok ==> forall|i: int, k: int| 1 <= i < self@.chain.len() && 0 <= k < self@.chain[i].transactions.len()
                ==> tx_valid(#[trigger] self@.chain[i].transactions[k]),
    {
        let ghost c = block_views(self.chain@);
        let n = self.chain.len();
        if n == 0 {
            return true;
        }
        proof {
            assert(c[0] == self.chain@[0]@);
        }
        if self.chain[0].index != 0 || !self.chain[0].previous_hash.as_str().is_empty() {
            return false;
        }
        let mut i: usize = 1;
        while i < n
            invariant
                n == self.chain@.len(),
                c == block_views(self.chain@),
                1 <= i <= n,
                c[0].index == 0,
                c[0].previous_hash.len() == 0,
                forall|j: int| 1 <= j < i ==> link_ok(c[j - 1], #[trigger] c[j]),
            decreases n - i,
        {
            let current_block = &self.chain[i];
            let previous_block = &self.chain[i - 1];
            proof {
                assert(c[i as int] == current_block@);
                assert(c[i - 1] == previous_block@);
            }
            if !current_block.is_valid(previous_block.hash.as_str()) {
                proof {
                    reveal(link_ok);
                    assert(!link_ok(c[i - 1], c[i as int]));
                }
                return false;
            }
            if !(current_block.previous_hash == previous_block.hash) {
                proof {
                    reveal(link_ok);
                    assert(!link_ok(c[i - 1], c[i as int]));
                }
                return false;
            }
            if previous_block.index == u64::MAX || current_block.index != previous_block.index + 1 {
                proof {
                    reveal(link_ok);
                    assert(!link_ok(c[i - 1], c[i as int]));
                }
                return false;
            }
            proof {
                reveal(link_ok);
                assert(link_ok(c[i - 1], c[i as int]));
            }
            i = i + 1;
        }
        proof {
            law_valid_chain_parts(c);
        }
        true
    }

    /// The number of blocks.
    pub fn get_chain_length(&self) -> (n: usize)
        ensures
            n == self@.chain.len(),
    {
        self.chain.len()
    }

    /// The number of pending transactions.
    pub fn get_pending_transactions_count(&self) -> (n: usize)
        ensures
            n == self@.pending.len(),
    {
        self.pending_transactions.len()
    }

    /// The sum of all balances, in units.
    pub fn get_total_supply(&self) -> (s: i128)
        ensures
            s == self@.supply,
            -crate::ledger::supply_bound() <= s <= crate::ledger::supply_bound(),
    {
        self.balances.total_supply()
    }

    /// The proof-of-work difficulty.
    pub fn get_difficulty(&self) -> (d: usize)
        ensures
            d == self@.difficulty,
    {
        self.difficulty
    }

    /// The base mining reward, in units.
    pub fn get_mining_reward(&self) -> (r: i64)
        ensures
            r == self@.mining_reward,
    {
        self.mining_reward
    }

    /// The blocks.
    pub fn blocks(&self) -> (bs: &Vec<Block>)
        ensures
            block_views(bs@) == self@.chain,
    {
        &self.chain
    }

    /// The pending transactions.
    pub fn pending(&self) -> (ts: &Vec<Transaction>)
        ensures
            tx_views(ts@) == self@.pending,
    {
        &self.pending_transactions
    }

    /// The balances as (address, units) pairs.
    pub fn balance_entries(&self) -> (es: Vec<(String, i64)>)
        ensures
            crate::ledger::entries_map(crate::ledger::entry_views(es@)) == self@.balances,
    {
        self.balances.entries()
    }

    /// Summary figures; the transaction count stops at `usize::MAX`.
    pub fn get_chain_info(&self) -> (info: BlockchainInfo)
        ensures
            info.total_blocks == self@.chain.len(),
            info.total_transactions == (if transaction_count(self@.chain) <= usize::MAX {
                transaction_count(self@.chain)
            } else {
                usize::MAX as int
            }),
            info.total_transactions == (if chain_transactions(self@.chain).len() <= usize::MAX {
                chain_transactions(self@.chain).len() as int
            } else {
                usize::MAX as int
            }),
            info.total_supply == self@.supply,
            info.difficulty == self@.difficulty,
            info.mining_reward == self@.mining_reward,
            info.pending_transactions == self@.pending.len(),
    {
        let ghost c = block_views(self.chain@);
        let mut total: usize = 0;
        let mut i: usize = 0;
        while i < self.chain.len()
            invariant
                c == block_views(self.chain@),
                i <= c.len(),
                total == (if transaction_count(c.take(i as int)) <= usize::MAX {
                    transaction_count(c.take(i as int))
                } else {
                    usize::MAX as int
                }),
            decreases c.len() - i,
        {
            proof {
                assert(c.take(i + 1).drop_last() =~= c.take(i as int));
                assert(c[i as int] == self.chain@[i as int]@);
                lemma_transaction_count_nonneg(c.take(i as int));
            }
            total = total.saturating_add(self.chain[i].transactions.len());
            i = i + 1;
        }
        proof {
            assert(c.take(c.len() as int) =~= c);
        }
        proof {
            lemma_count_is_len(c);
        }
        BlockchainInfo {
            total_blocks: self.chain.len(),
            total_transactions: total,
            total_supply: self.get_total_supply(),
            difficulty: self.difficulty,
            mining_reward: self.mining_reward,
            pending_transactions: self.pending_transactions.len(),
        }
    }

    /// The transactions of the chain that involve the address, in chain order.
    pub fn get_transactions_for_address(&self, address: &str) -> (r: Vec<&Transaction>)
        ensures
            r@.map_values(|t: &Transaction| t@) == txs_involving(chain_transactions(self@.chain), address@),
    {
        let ghost c = block_views(self.chain@);
        let key = owned(address);
        let mut transactions: Vec<&Transaction> = Vec::new();
        let mut i: usize = 0;
        while i < self.chain.len()
            invariant
                key@ == address@,
                c == block_views(self.chain@),
                i <= c.len(),
                transactions@.map_values(|t: &Transaction| t@) =~= txs_involving(
                    chain_transactions(c.take(i as int)),
                    address@,
                ),
            decreases c.len() - i,
        {
            let block = &self.chain[i];
            let ghost before = chain_transactions(c.take(i as int));
            proof {
                assert(c[i as int] == block@);
            }
            let mut j: usize = 0;
            while j < block.transactions.len()
                invariant
                    key@ == address@,
                    j <= block@.transactions.len(),
                    transactions@.map_values(|t: &Transaction| t@) =~= txs_involving(
                        before + block@.transactions.take(j as int),
                        address@,
                    ),
                decreases block@.transactions.len() - j,
            {
                let t = &block.transactions[j];
                proof {
                    let s = before + block@.transactions.take(j + 1);
                    assert(s.drop_last() =~= before + block@.transactions.take(j as int));
                    assert(s.last() == t@);
                }
                if t.from_address == key || t.to_address == key {
                    transactions.push(t);
                }
                j = j + 1;
            }
            proof {
                assert(c.take(i + 1).drop_last() =~= c.take(i as int));
                assert(block@.transactions.take(block@.transactions.len() as int) =~= block@.transactions);
            }
            i = i + 1;
        }
        proof {
            assert(c.take(c.len() as int) =~= c);
        }
        transactions
    }
}

/// The mining reward is never negative nor above the base reward, and it never
/// lifts a supply that is within the cap above the cap.
pub proof fn law_reward_within_cap(height: nat, supply: int, base: int)
    requires
        base >= 0,
        supply <= MAX_SUPPLY,
    ensures
        0 <= reward_at(height, supply, base) <= base,
        supply + reward_at(height, supply, base) <= MAX_SUPPLY,
{
    let h = height / (HALVING_INTERVAL as nat);
    if h < MAX_HALVINGS {
        lemma_pow2_positive(h);
        lemma_div_bound(base, pow2(h) as int);
    }
}

/// Every 100,000 blocks the reward halves (rounding down), as long as the
/// supply cap does not cut it.
pub proof fn law_reward_halves(height: nat, supply: int, base: int)
    requires
        base >= 0,
        height / (HALVING_INTERVAL as nat) + 1 < MAX_HALVINGS,
        supply + base <= MAX_SUPPLY,
    ensures
        reward_at(height + (HALVING_INTERVAL as nat), supply, base) == reward_at(height, supply, base) / 2,
        reward_at(height, supply, base) == halved(base, height / (HALVING_INTERVAL as nat)),
{
    let h = height / (HALVING_INTERVAL as nat);
    assert((height + (HALVING_INTERVAL as nat)) / (HALVING_INTERVAL as nat) == h + 1);
    lemma_pow2_positive(h);
    lemma_pow2_positive(h + 1);
    lemma_div_bound(base, pow2(h) as int);
    lemma_div_bound(base, pow2(h + 1) as int);
    assert(pow2(h + 1) == 2 * pow2(h));
    lemma_div_twice(base, pow2(h) as int);
}

/// After eight halvings mining pays nothing.
pub proof fn law_reward_ends(height: nat, supply: int, base: int)
    requires
        height >= MAX_HALVINGS * HALVING_INTERVAL,
    ensures
        reward_at(height, supply, base) == 0,
{
}

proof fn lemma_pow2_positive(n: nat)
    ensures
        pow2(n) >= 1,
    decreases n,
{
    if n > 0 {
        lemma_pow2_positive((n - 1) as nat);
    }
}

proof fn lemma_div_twice(a: int, d: int)
    requires
        a >= 0,
        d >= 1,
    ensures
        a / (2 * d) == (a / d) / 2,
{
    vstd::arithmetic::div_mod::lemma_div_denominator(a, d, 2);
}

proof fn lemma_pow2_bound(k: nat)
    requires
        k < 7,
    ensures
        1 <= pow2(k) <= 64,
{
    reveal_with_fuel(pow2, 8);
    assert(k == 0 || k == 1 || k == 2 || k == 3 || k == 4 || k == 5 || k == 6);
}

proof fn lemma_div_bound(a: int, d: int)
    requires
        a >= 0,
        d >= 1,
    ensures
        0 <= a / d <= a,
{
    assert(0 <= a / d <= a) by (nonlinear_arith)
        requires a >= 0, d >= 1;
}

/// The transaction count of a chain is the number of its transactions, and
/// appending a block raises it by the block's number of transactions.
pub proof fn law_transaction_count(c: Seq<BlockView>, b: BlockView)
    ensures
        transaction_count(c) == chain_transactions(c).len(),
        transaction_count(c.push(b)) == transaction_count(c) + b.transactions.len(),
        chain_transactions(c.push(b)) == chain_transactions(c) + b.transactions,
{
    assert(c.push(b).drop_last() =~= c);
    lemma_count_is_len(c);
}

proof fn lemma_count_is_len(c: Seq<BlockView>)
    ensures
        transaction_count(c) == chain_transactions(c).len(),
    decreases c.len(),
{
    if c.len() > 0 {
        lemma_count_is_len(c.drop_last());
    }
}

/// In a valid chain every transaction of every block after the first is
/// valid, and each such block names the hash of the block before it.
pub proof fn law_valid_chain_parts(c: Seq<BlockView>)
    requires
        chain_valid(c),
    ensures
        forall|i: int, k: int| 1 <= i < c.len() && 0 <= k < c[i].transactions.len() ==> tx_valid(
            #[trigger] c[i].transactions[k],
        ),
        forall|i: int| 1 <= i < c.len() ==> (#[trigger] c[i]).previous_hash == c[i - 1].hash,
{
    reveal(link_ok);
    assert forall|i: int, k: int| 1 <= i < c.len() && 0 <= k < c[i].transactions.len() implies tx_valid(
        #[trigger] c[i].transactions[k],
    ) by {
        assert(link_ok(c[i - 1], c[i]));
    }
    assert forall|i: int| 1 <= i < c.len() implies (#[trigger] c[i]).previous_hash == c[i - 1].hash by {
        assert(link_ok(c[i - 1], c[i]));
    }
}

proof fn lemma_transaction_count_nonneg(c: Seq<BlockView>)
    ensures
        transaction_count(c) >= 0,
    decreases c.len(),
{
    if c.len() > 0 {
        lemma_transaction_count_nonneg(c.drop_last());
    }
}

impl Default for Blockchain {
    fn default() -> (bc: Self)
        ensures
            bc@.chain.len() == 0,
            bc@.difficulty == DEFAULT_DIFFICULTY,
            bc@.pending.len() == 0,
            bc@.mining_reward == 50 * COIN,
            bc@.supply == 0,
    {
        Self::new()
    }
}

} // verus!

//! The decisions of miners and the figures of a mining pool.

use vstd::prelude::*;

verus! {

/// Figures of a mining pool.
#[derive(Debug, Clone, Copy, PartialEq, Eq, Structural)]
pub struct MiningStats {
    pub total_miners: usize,
    pub active_miners: usize,
    pub total_blocks: usize,
    pub pending_transactions: usize,
}

/// What a miner does next.
#[derive(Debug, Clone, Copy, PartialEq, Eq, Structural)]
pub enum MinerStep {
    /// Mining was stopped: leave the loop.
    Stop,
    /// There are pending transactions: mine a block, then wait.
    Mine,
    /// Nothing to mine: wait and look again.
    Wait,
}

/// A miner may start unless it is already mining.
pub fn begin_mining(is_mining: bool) -> (r: Result<(), String>)
    ensures
        r is Ok <==> !is_mining,
        r matches Err(e) ==> e@ == "mining در حال حاضر active است"@,
{
    if is_mining {
        Err("mining در حال حاضر active است".to_string())
    } else {
        Ok(())
    }
}

/// One turn of a miner's loop.
pub fn next_step(is_mining: bool, has_pending: bool) -> (s: MinerStep)
    ensures
        s == (if !is_mining {
            MinerStep::Stop
        } else if has_pending {
            MinerStep::Mine
        } else {
            MinerStep::Wait
        }),
{
    if !is_mining {
        MinerStep::Stop
    } else if has_pending {
        MinerStep::Mine
    } else {
        MinerStep::Wait
    }
}

/// The number of `true` flags.
pub open spec fn count_true(s: Seq<bool>) -> nat
    decreases s.len(),
{
    if s.len() == 0 {
        0
    } else {
        count_true(s.drop_last()) + if s.last() { 1nat } else { 0nat }
    }
}

proof fn lemma_count_true_bound(s: Seq<bool>)
    ensures
        count_true(s) <= s.len(),
    decreases s.len(),
{
    if s.len() > 0 {
        lemma_count_true_bound(s.drop_last());
    }
}

/// The figures of a pool whose miners' mining flags are given.
pub fn mining_stats(mining_flags: &Vec<bool>, total_blocks: usize, pending_transactions: usize) -> (st: MiningStats)
    ensures
        st.total_miners == mining_flags@.len(),
        st.active_miners == count_true(mining_flags@),
        st.active_miners <= st.total_miners,
        st.total_blocks == total_blocks,
        st.pending_transactions == pending_transactions,
{
    let mut active_miners: usize = 0;
    let mut i: usize = 0;
    while i < mining_flags.len()
        invariant
            i <= mining_flags@.len(),
            active_miners == count_true(mining_flags@.take(i as int)),
            active_miners <= i,
        decreases mining_flags@.len() - i,
    {
        proof {
            assert(mining_flags@.take(i + 1).drop_last() =~= mining_flags@.take(i as int));
        }
        if mining_flags[i] {
            active_miners = active_miners + 1;
        }
        i = i + 1;
    }
    proof {
        assert(mining_flags@.take(mining_flags@.len() as int) =~= mining_flags@);
        lemma_count_true_bound(mining_flags@);
    }
    MiningStats { total_miners: mining_flags.len(), active_miners, total_blocks, pending_transactions }
}

} // verus!

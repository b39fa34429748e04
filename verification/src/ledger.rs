//! Balances by address, in units, and how transactions move them.

use vstd::prelude::*;
use crate::text::owned;
use crate::transaction::{Transaction, TransactionView};

verus! {

/// Balance of an address: what the map holds for it, or zero.
pub open spec fn balance_in(m: Map<Seq<char>, i64>, a: Seq<char>) -> int {
    if m.contains_key(a) {
        m[a] as int
    } else {
        0
    }
}

/// No sum of balances reaches this far: at most `usize::MAX` entries of at
/// most 2^63 units each.
pub open spec fn supply_bound() -> int {
    0xffff_ffff_ffff_ffffint * 0x8000_0000_0000_0000int
}

pub open spec fn fits_i64(v: int) -> bool {
    i64::MIN <= v <= i64::MAX
}

/// The units a transaction adds to the sum of balances: its amount when the
/// system sends it; otherwise its fee leaves the balances, to come back when
/// the miner is paid.
pub open spec fn minted(t: TransactionView) -> int {
    if t.from_address.len() == 0 {
        t.amount as int
    } else {
        -t.fee
    }
}

/// The units that a list of transactions issues.
pub open spec fn minted_sum(ts: Seq<TransactionView>) -> int
    decreases ts.len(),
{
    if ts.len() == 0 {
        0
    } else {
        minted_sum(ts.drop_last()) + minted(ts.last())
    }
}

/// Balances after a transaction: the sender (unless the system) loses the
/// amount and the fee, then the receiver gains the amount; `None` when a balance would leave the
/// range of `i64`.
pub open spec fn tx_applied(m: Map<Seq<char>, i64>, t: TransactionView) -> Option<Map<Seq<char>, i64>> {
    let debited = if t.from_address.len() == 0 {
        Some(m)
    } else if fits_i64(balance_in(m, t.from_address) - t.amount - t.fee) {
        Some(m.insert(t.from_address, (balance_in(m, t.from_address) - t.amount - t.fee) as i64))
    } else {
        None
    };
    match debited {
        Some(m1) => if fits_i64(balance_in(m1, t.to_address) + t.amount) {
            Some(m1.insert(t.to_address, (balance_in(m1, t.to_address) + t.amount) as i64))
        } else {
            None
        },
        None => None,
    }
}

/// Balances after the transactions in order; `None` when one does not apply.
pub open spec fn txs_applied(m: Map<Seq<char>, i64>, ts: Seq<TransactionView>) -> Option<Map<Seq<char>, i64>>
    decreases ts.len(),
{
    if ts.len() == 0 {
        Some(m)
    } else {
        match txs_applied(m, ts.drop_last()) {
            Some(m1) => tx_applied(m1, ts.last()),
            None => None,
        }
    }
}

/// Sum of the balances of entries.
pub open spec fn entries_total(es: Seq<(Seq<char>, i64)>) -> int
    decreases es.len(),
{
    if es.len() == 0 {
        0
    } else {
        entries_total(es.drop_last()) + es.last().1
    }
}

/// Map of entries; a later entry of an address wins.
pub open spec fn entries_map(es: Seq<(Seq<char>, i64)>) -> Map<Seq<char>, i64>
    decreases es.len(),
{
    if es.len() == 0 {
        Map::empty()
    } else {
        entries_map(es.drop_last()).insert(es.last().0, es.last().1)
    }
}

pub open spec fn keys_distinct(es: Seq<(Seq<char>, i64)>) -> bool {
    forall|i: int, j: int| 0 <= i < j < es.len() ==> es[i].0 != es[j].0
}

proof fn lemma_entries_map(es: Seq<(Seq<char>, i64)>)
    requires
        keys_distinct(es),
    ensures
        forall|a: Seq<char>| #[trigger] entries_map(es).contains_key(a) <==> exists|i: int| 0 <= i < es.len() && es[i].0 == a,
        forall|i: int| 0 <= i < es.len() ==> #[trigger] entries_map(es)[es[i].0] == es[i].1,
    decreases es.len(),
{
    if es.len() > 0 {
        let p = es.drop_last();
        assert(keys_distinct(p));
        lemma_entries_map(p);
        assert forall|a: Seq<char>| #[trigger] entries_map(es).contains_key(a) <==> exists|i: int| 0 <= i < es.len() && es[i].0 == a by {
            if entries_map(p).contains_key(a) {
                let i = choose|i: int| 0 <= i < p.len() && p[i].0 == a;
                assert(es[i].0 == a);
            }
            if exists|i: int| 0 <= i < es.len() && es[i].0 == a {
                let i = choose|i: int| 0 <= i < es.len() && es[i].0 == a;
                if i < es.len() - 1 {
                    assert(p[i].0 == a);
                }
            }
        }
        assert forall|i: int| 0 <= i < es.len() implies #[trigger] entries_map(es)[es[i].0] == es[i].1 by {
            if i < es.len() - 1 {
                assert(p[i] == es[i]);
                assert(entries_map(p)[p[i].0] == p[i].1);
                assert(es[i].0 != es[es.len() - 1].0);
            }
        }
    }
}

proof fn lemma_total_update(es: Seq<(Seq<char>, i64)>, i: int, e: (Seq<char>, i64))
    requires
        0 <= i < es.len(),
    ensures
        entries_total(es.update(i, e)) == entries_total(es) - es[i].1 + e.1,
    decreases es.len(),
{
    if i < es.len() - 1 {
        assert(es.update(i, e).drop_last() =~= es.drop_last().update(i, e));
        lemma_total_update(es.drop_last(), i, e);
    } else {
        assert(es.update(i, e).drop_last() =~= es.drop_last());
    }
}

proof fn lemma_total_bound(es: Seq<(Seq<char>, i64)>)
    ensures
        -(es.len() as int) * 0x8000_0000_0000_0000 <= entries_total(es) <= (es.len() as int) * 0x8000_0000_0000_0000,
    decreases es.len(),
{
    if es.len() > 0 {
        lemma_total_bound(es.drop_last());
    }
}

/// Balances by address.
#[derive(Debug)]
pub struct Ledger {
    entries: Vec<(String, i64)>,
}

pub open spec fn entry_views(es: Seq<(String, i64)>) -> Seq<(Seq<char>, i64)> {
    es.map_values(|e: (String, i64)| (e.0@, e.1))
}

impl Ledger {
    pub closed spec fn entry_seq(self) -> Seq<(Seq<char>, i64)> {
        entry_views(self.entries@)
    }

    #[verifier::type_invariant]
    closed spec fn addresses_unique(self) -> bool {
        keys_distinct(self.entry_seq())
    }

    /// Sum of all balances.
    pub closed spec fn total(self) -> int {
        entries_total(self.entry_seq())
    }
}

impl View for Ledger {
    type V = Map<Seq<char>, i64>;

    closed spec fn view(&self) -> Map<Seq<char>, i64> {
        entries_map(self.entry_seq())
    }
}

impl Ledger {
    /// No balances.
    pub fn new() -> (l: Self)
        ensures
            l@ == Map::<Seq<char>, i64>::empty(),
            l.total() == 0,
    {
        let l = Ledger { entries: Vec::new() };
        proof {
            assert(l.entry_seq() =~= Seq::<(Seq<char>, i64)>::empty());
        }
        l
    }

    fn find(&self, address: &str) -> (r: Option<usize>)
        ensures
            match r {
                Some(i) => i < self.entries@.len() && self.entry_seq()[i as int].0 == address@,
                None => forall|i: int| 0 <= i < self.entries@.len() ==> self.entry_seq()[i].0 != address@,
            },
    {
        let key = owned(address);
        let mut i: usize = 0;
        while i < self.entries.len()
            invariant
                key@ == address@,
                i <= self.entries@.len(),
                forall|j: int| 0 <= j < i ==> self.entry_seq()[j].0 != address@,
            decreases self.entries@.len() - i,
        {
            if self.entries[i].0 == key {
                return Some(i);
            }
            i = i + 1;
        }
        None
    }

    /// The balance of an address (zero when it has none).
    pub fn get(&self, address: &str) -> (b: i64)
        ensures
            b == balance_in(self@, address@),
    {
        proof {
            use_type_invariant(self);
            lemma_entries_map(self.entry_seq());
        }
        match self.find(address) {
            Some(i) => self.entries[i].1,
            None => 0,
        }
    }

    /// Sets the balance of an address.
    pub fn set(&mut self, address: &str, value: i64)
        ensures
            final(self)@ == old(self)@.insert(address@, value),
            final(self).total() == old(self).total() - balance_in(old(self)@, address@) + value,
    {
        proof {
            use_type_invariant(&*self);
            lemma_entries_map(self.entry_seq());
        }
        let ghost old_es = self.entry_seq();
        let mut es: Vec<(String, i64)> = Vec::new();
        std::mem::swap(&mut es, &mut self.entries);
        assert(entry_views(es@) == old_es);
        match self.find_in(&es, address) {
            Some(i) => {
                let key = es[i].0.clone();
                es.set(i, (key, value));
                proof {
                    let ne = entry_views(es@);
                    assert(ne =~= old_es.update(i as int, (address@, value)));
                    lemma_total_update(old_es, i as int, (address@, value));
                    assert(keys_distinct(ne));
                    lemma_entries_map(ne);
                    assert(entries_map(ne) =~= entries_map(old_es).insert(address@, value)) by {
                        assert forall|a: Seq<char>| entries_map(ne).contains_key(a) <==> entries_map(old_es).insert(address@, value).contains_key(a) by {
                            if entries_map(ne).contains_key(a) {
                                let k = choose|k: int| 0 <= k < ne.len() && ne[k].0 == a;
                                if k != i {
                                    assert(old_es[k].0 == a);
                                }
                            }
                            if a != address@ && entries_map(old_es).contains_key(a) {
                                let k = choose|k: int| 0 <= k < old_es.len() && old_es[k].0 == a;
                                assert(ne[k].0 == a);
                            }
                            if a == address@ {
                                assert(ne[i as int].0 == a);
                            }
                        }
                        assert forall|a: Seq<char>| #[trigger] entries_map(ne).contains_key(a) implies entries_map(ne)[a] == entries_map(old_es).insert(address@, value)[a] by {
                            let k = choose|k: int| 0 <= k < ne.len() && ne[k].0 == a;
                            assert(entries_map(ne)[ne[k].0] == ne[k].1);
                            if k != i {
                                assert(entries_map(old_es)[old_es[k].0] == old_es[k].1);
                            }
                        }
                    }
                    assert(balance_in(entries_map(old_es), address@) == old_es[i as int].1);
                }
                self.entries = es;
            },
            None => {
                es.push((owned(address), value));
                proof {
                    let ne = entry_views(es@);
                    assert(ne =~= old_es.push((address@, value)));
                    assert(ne.drop_last() =~= old_es);
                    assert forall|x: int, y: int| 0 <= x < y < ne.len() implies ne[x].0 != ne[y].0 by {
                        assert(ne[x] == old_es[x] || y == ne.len() - 1);
                    }
                    assert(!entries_map(old_es).contains_key(address@)) by {
                        if entries_map(old_es).contains_key(address@) {
                            let k = choose|k: int| 0 <= k < old_es.len() && old_es[k].0 == address@;
                        }
                    }
                }
                self.entries = es;
            },
        }
    }

    fn find_in(&self, es: &Vec<(String, i64)>, address: &str) -> (r: Option<usize>)
        ensures
            match r {
                Some(i) => i < es@.len() && entry_views(es@)[i as int].0 == address@,
                None => forall|i: int| 0 <= i < es@.len() ==> entry_views(es@)[i].0 != address@,
            },
    {
        let key = owned(address);
        let mut i: usize = 0;
        while i < es.len()
            invariant
                key@ == address@,
                i <= es@.len(),
                forall|j: int| 0 <= j < i ==> entry_views(es@)[j].0 != address@,
            decreases es@.len() - i,
        {
            if es[i].0 == key {
                return Some(i);
            }
            i = i + 1;
        }
        None
    }

    /// The sum of all balances.
    pub fn total_supply(&self) -> (t: i128)
        ensures
            t == self.total(),
            -supply_bound() <= t <= supply_bound(),
    {
        let mut total: i128 = 0;
        let mut i: usize = 0;
        while i < self.entries.len()
            invariant
                i <= self.entries@.len(),
                total == entries_total(self.entry_seq().take(i as int)),
            decreases self.entries@.len() - i,
        {
            proof {
                let p = self.entry_seq().take(i + 1);
                assert(p.drop_last() =~= self.entry_seq().take(i as int));
                lemma_total_bound(p);
                assert((i as int + 1) * 0x8000_0000_0000_0000 <= 0x8000_0000_0000_0000_0000_0000_0000_0000) by (nonlinear_arith)
                    requires (i as int) < 0x1_0000_0000_0000_0000;
            }
            total = total + self.entries[i].1 as i128;
            i = i + 1;
        }
        proof {
            assert(self.entry_seq().take(self.entries@.len() as int) =~= self.entry_seq());
            lemma_total_bound(self.entry_seq());
            let n = self.entries@.len() as int;
            assert(n * 0x8000_0000_0000_0000 <= supply_bound()) by (nonlinear_arith)
                requires n <= 0xffff_ffff_ffff_ffff;
        }
        total
    }

    /// A copy of the ledger.
    pub fn duplicate(&self) -> (l: Ledger)
        ensures
            l@ == self@,
            l.total() == self.total(),
    {
        proof {
            use_type_invariant(self);
        }
        let mut es: Vec<(String, i64)> = Vec::new();
        let mut i: usize = 0;
        while i < self.entries.len()
            invariant
                i <= self.entries@.len(),
                entry_views(es@) =~= self.entry_seq().take(i as int),
            decreases self.entries@.len() - i,
        {
            es.push((self.entries[i].0.clone(), self.entries[i].1));
            proof {
                assert(self.entry_seq().take(i + 1) =~= self.entry_seq().take(i as int).push(self.entry_seq()[i as int]));
            }
            i = i + 1;
        }
        proof {
            assert(self.entry_seq().take(self.entries@.len() as int) =~= self.entry_seq());
        }
        Ledger { entries: es }
    }

    /// The balances as (address, units) pairs.
    pub fn entries(&self) -> (es: Vec<(String, i64)>)
        ensures
            entry_views(es@) == self.entry_seq(),
            entries_map(entry_views(es@)) == self@,
    {
        proof {
            use_type_invariant(self);
        }
        let mut es: Vec<(String, i64)> = Vec::new();
        let mut i: usize = 0;
        while i < self.entries.len()
            invariant
                i <= self.entries@.len(),
                entry_views(es@) =~= self.entry_seq().take(i as int),
            decreases self.entries@.len() - i,
        {
            es.push((self.entries[i].0.clone(), self.entries[i].1));
            proof {
                assert(self.entry_seq().take(i + 1) =~= self.entry_seq().take(i as int).push(self.entry_seq()[i as int]));
            }
            i = i + 1;
        }
        proof {
            assert(self.entry_seq().take(self.entries@.len() as int) =~= self.entry_seq());
        }
        es
    }

    /// Balances from (address, units) pairs; a later pair of an address wins.
    pub fn from_entries(pairs: Vec<(String, i64)>) -> (l: Ledger)
        ensures
            l@ == entries_map(entry_views(pairs@)),
    {
        let mut l = Ledger::new();
        let mut i: usize = 0;
        while i < pairs.len()
            invariant
                i <= pairs@.len(),
                l@ == entries_map(entry_views(pairs@).take(i as int)),
            decreases pairs@.len() - i,
        {
            l.set(pairs[i].0.as_str(), pairs[i].1);
            proof {
                assert(entry_views(pairs@).take(i + 1).drop_last() =~= entry_views(pairs@).take(i as int));
            }
            i = i + 1;
        }
        proof {
            assert(entry_views(pairs@).take(pairs@.len() as int) =~= entry_views(pairs@));
        }
        l
    }

    /// Moves the amount of a transaction: from the sender (with the fee),
    /// unless the system sends it, then to the receiver. Changes nothing and returns `false`
    /// when a balance would leave the range of `i64`.
    pub fn apply_transaction(&mut self, t: &Transaction) -> (ok: bool)
        ensures
            match tx_applied(old(self)@, t@) {
                Some(m) => ok && final(self)@ == m && final(self).total() == old(self).total() + minted(t@),
                None => !ok && final(self)@ == old(self)@ && final(self).total() == old(self).total(),
            },
    {
        let from_system = t.from_address.as_str().is_empty();
        let sender_balance: i64 = if from_system {
            0
        } else {
            let v = self.get(t.from_address.as_str()) as i128 - t.amount as i128 - t.fee as i128;
            if v < i64::MIN as i128 || v > i64::MAX as i128 {
                return false;
            }
            v as i64
        };
        let receiver_base: i64 = if !from_system && t.from_address == t.to_address {
            sender_balance
        } else {
            self.get(t.to_address.as_str())
        };
        let receiver_balance = match receiver_base.checked_add(t.amount) {
            Some(v) => v,
            None => {
                return false;
            },
        };
        if !from_system {
            self.set(t.from_address.as_str(), sender_balance);
        }
        self.set(t.to_address.as_str(), receiver_balance);
        true
    }
}

} // verus!

//! The share ledger: per-round, per-prover counts of credited shares.
//!
//! A round is identified by the pair of block height and coinbase record of
//! the template the share was proven against; keying by the pair makes a
//! rotation that lands mid-request harmless, because the credit stays under
//! the round it was checked against. Counts only ever grow: there is no
//! operation that decrements or deletes.

use vstd::prelude::*;
use crate::assoc::{assoc_map, keys_distinct, lemma_assoc_map_dom, lemma_assoc_map_index,
    lemma_assoc_map_push, lemma_assoc_map_update};
use crate::template::BlockTemplate;

verus! {

/// The key of a round: the block height mined on and the coinbase record of
/// the template for that round.
#[derive(Clone, Copy, PartialEq, Eq, Structural, Debug)]
pub struct RoundKey {
    /// The height of the block the shares were proven against.
    pub block_height: u32,
    /// The coinbase record of the round's template.
    pub coinbase_record: u64,
}

/// The round a template belongs to: the pairing of its height and its
/// coinbase record. Keying shares by the pair ties every credit to the
/// rotation the proof was checked against.
pub open spec fn spec_round_of(t: BlockTemplate) -> RoundKey {
    RoundKey { block_height: t.block_height, coinbase_record: t.coinbase_record }
}

/// The ways recording a share can fail.
#[derive(Clone, Copy, PartialEq, Eq, Structural, Debug)]
pub enum ShareError {
    /// The prover's counter for this round cannot grow any further.
    CounterSaturated,
}

/// The per-round maps of an entry list, with each row read as a map from
/// prover to count.
pub open spec fn spec_round_maps(rounds: Seq<(RoundKey, Vec<(u64, u64)>)>) -> Seq<
    (RoundKey, Map<u64, u64>),
> {
    rounds.map_values(|p: (RoundKey, Vec<(u64, u64)>)| (p.0, assoc_map(p.1@)))
}

/// The rows of the ledger as plain sequences, round by round.
pub open spec fn spec_rows(rounds: Seq<(RoundKey, Vec<(u64, u64)>)>) -> Seq<
    (RoundKey, Seq<(u64, u64)>),
> {
    rounds.map_values(|p: (RoundKey, Vec<(u64, u64)>)| (p.0, p.1@))
}

/// The count a ledger holds for one prover in one round; zero when the round
/// or the prover is unknown.
pub open spec fn spec_share_count(m: Map<RoundKey, Map<u64, u64>>, key: RoundKey, prover: u64) -> u64 {
    if m.contains_key(key) && m[key].contains_key(prover) {
        m[key][prover]
    } else {
        0
    }
}

/// Crediting one share: the prover's count under the round key grows by one,
/// starting from zero for a first share; nothing else changes.
pub open spec fn spec_credit(m: Map<RoundKey, Map<u64, u64>>, key: RoundKey, prover: u64) -> Map<
    RoundKey,
    Map<u64, u64>,
>
    recommends
        spec_share_count(m, key, prover) < u64::MAX,
{
    let inner = if m.contains_key(key) {
        m[key]
    } else {
        Map::<u64, u64>::empty()
    };
    m.insert(key, inner.insert(prover, (spec_share_count(m, key, prover) + 1) as u64))
}

/// The total count of shares a prover holds across all rounds of a row list.
pub open spec fn spec_prover_total(rows: Seq<(RoundKey, Seq<(u64, u64)>)>, prover: u64) -> int
    decreases rows.len(),
{
    if rows.len() == 0 {
        0
    } else {
        spec_prover_total(rows.drop_last(), prover) + spec_row_count(rows.last().1, prover)
    }
}

/// The count one row holds for a prover; zero when the prover is absent.
pub open spec fn spec_row_count(row: Seq<(u64, u64)>, prover: u64) -> u64 {
    if assoc_map(row).contains_key(prover) {
        assoc_map(row)[prover]
    } else {
        0
    }
}

/// Whether a prover occurs in any round of a row list.
pub open spec fn spec_is_prover(rows: Seq<(RoundKey, Seq<(u64, u64)>)>, prover: u64) -> bool {
    exists|i: int, j: int|
        0 <= i < rows.len() && 0 <= j < rows[i].1.len() && rows[i].1[j].0 == prover
}

/// The index of the pair for `prover` in one round's row, if there is one.
fn find_prover(row: &Vec<(u64, u64)>, prover: u64) -> (pos: Option<usize>)
    ensures
        match pos {
            Some(j) => j < row@.len() && row@[j as int].0 == prover,
            None => forall|q: int| 0 <= q < row@.len() ==> row@[q].0 != prover,
        },
{
    let n = row.len();
    let mut j: usize = 0;
    while j < n
        invariant
            0 <= j <= n,
            n == row@.len(),
            forall|q: int| 0 <= q < j ==> row@[q].0 != prover,
        decreases n - j,
    {
        if row[j].0 == prover {
            return Some(j);
        }
        j += 1;
    }
    None
}

/// A copy of one round's row.
fn copy_row(row: &Vec<(u64, u64)>) -> (c: Vec<(u64, u64)>)
    ensures
        c@ == row@,
{
    let n = row.len();
    let mut c: Vec<(u64, u64)> = Vec::new();
    proof {
        assert(c@ =~= row@.subrange(0, 0));
    }
    let mut j: usize = 0;
    while j < n
        invariant
            0 <= j <= n,
            n == row@.len(),
            c@ == row@.subrange(0, j as int),
        decreases n - j,
    {
        c.push(row[j]);
        proof {
            assert(c@ =~= row@.subrange(0, j as int + 1));
        }
        j += 1;
    }
    proof {
        assert(c@ =~= row@);
    }
    c
}

/// Whether an address already stands in a list of provers.
fn contains_prover(ps: &Vec<u64>, prover: u64) -> (found: bool)
    ensures
        found == ps@.contains(prover),
{
    let n = ps.len();
    let mut j: usize = 0;
    while j < n
        invariant
            0 <= j <= n,
            n == ps@.len(),
            forall|q: int| 0 <= q < j ==> ps@[q] != prover,
        decreases n - j,
    {
        if ps[j] == prover {
            return true;
        }
        j += 1;
    }
    false
}

/// The ledger of credited shares, keyed by round and, within a round, by
/// prover address.
pub struct ShareLedger {
    /// One entry per round that has received a credited share.
    pub rounds: Vec<(RoundKey, Vec<(u64, u64)>)>,
}

impl View for ShareLedger {
    type V = Map<RoundKey, Map<u64, u64>>;

    open spec fn view(&self) -> Map<RoundKey, Map<u64, u64>> {
        assoc_map(spec_round_maps(self.rounds@))
    }
}

impl ShareLedger {
    /// The rows of this ledger as plain sequences.
    pub open spec fn rows(&self) -> Seq<(RoundKey, Seq<(u64, u64)>)> {
        spec_rows(self.rounds@)
    }

    /// The representation invariant: one entry per round key, and within each
    /// round one entry per prover.
    pub open spec fn wf(&self) -> bool {
        &&& keys_distinct(self.rounds@)
        &&& forall|i: int| 0 <= i < self.rounds@.len() ==> keys_distinct(#[trigger] self.rounds@[i].1@)
    }

    /// An empty ledger.
    pub fn new() -> (l: Self)
        ensures
            l.wf(),
            l@ == Map::<RoundKey, Map<u64, u64>>::empty(),
            l.rows() == Seq::<(RoundKey, Seq<(u64, u64)>)>::empty(),
    {
        let l = ShareLedger { rounds: Vec::new() };
        proof {
            assert(l.rows() =~= Seq::<(RoundKey, Seq<(u64, u64)>)>::empty());
        }
        l
    }

    /// The keys of the mapped rounds mirror the keys of the stored rounds.
    proof fn lemma_round_maps_distinct(&self)
        requires
            keys_distinct(self.rounds@),
        ensures
            keys_distinct(spec_round_maps(self.rounds@)),
    {
        assert forall|i: int, j: int|
            0 <= i < j < spec_round_maps(self.rounds@).len() implies spec_round_maps(
            self.rounds@,
        )[i].0 != spec_round_maps(self.rounds@)[j].0 by {
            assert(self.rounds@[i].0 != self.rounds@[j].0);
        }
    }

    /// The index of the round entry for `key`, if that round is present.
    fn find_round(&self, key: RoundKey) -> (pos: Option<usize>)
        ensures
            match pos {
                Some(i) => i < self.rounds@.len() && self.rounds@[i as int].0 == key,
                None => forall|i: int| 0 <= i < self.rounds@.len() ==> self.rounds@[i].0 != key,
            },
    {
        let n = self.rounds.len();
        let mut i: usize = 0;
        while i < n
            invariant
                0 <= i <= n,
                n == self.rounds@.len(),
                forall|j: int| 0 <= j < i ==> self.rounds@[j].0 != key,
            decreases n - i,
        {
            if self.rounds[i].0.block_height == key.block_height
                && self.rounds[i].0.coinbase_record == key.coinbase_record {
                return Some(i);
            }
            i += 1;
        }
        None
    }

    /// Adds one to the prover's count under the round of the given height and
    /// coinbase record, creating the round entry or the prover entry as
    /// needed; fails exactly when the prover's counter for that round can no
    /// longer grow.
    pub fn increment_share(&mut self, block_height: u32, coinbase_record: u64, prover: u64) -> (r:
        Result<(), ShareError>)
        requires
            old(self).wf(),
        ensures
            final(self).wf(),
            ({
                let key = RoundKey { block_height, coinbase_record };
                &&& r == if spec_share_count(old(self)@, key, prover) < u64::MAX {
                    Ok::<(), ShareError>(())
                } else {
                    Err::<(), ShareError>(ShareError::CounterSaturated)
                }
                &&& (r is Ok ==> final(self)@ == spec_credit(old(self)@, key, prover))
                &&& (r is Err ==> final(self)@ == old(self)@ && final(self).rows() == old(self).rows())
            }),
    {
        let key = RoundKey { block_height, coinbase_record };
        proof {
            self.lemma_round_maps_distinct();
            lemma_assoc_map_dom(spec_round_maps(self.rounds@));
        }
        match self.find_round(key) {
            Some(i) => {
                proof {
                    lemma_assoc_map_index(spec_round_maps(self.rounds@), i as int);
                    lemma_assoc_map_dom(self.rounds@[i as int].1@);
                }
                let ghost inner0 = self.rounds@[i as int].1@;
                match find_prover(&self.rounds[i].1, prover) {
                    Some(j) => {
                        // The prover already has a counter in this round.
                        proof {
                            lemma_assoc_map_index(inner0, j as int);
                        }
                        let count = self.rounds[i].1[j].1;
                        if count == u64::MAX {
                            return Err(ShareError::CounterSaturated);
                        }
                        proof {
                            lemma_assoc_map_update(inner0, j as int, (count + 1) as u64);
                        }
                        self.rounds[i].1[j].1 = count + 1;
                        proof {
                            self.lemma_increment_in_round(*old(self), i as int, j as int, prover);
                        }
                        Ok(())
                    }
                    None => {
                        // First share of this prover in an existing round.
                        proof {
                            lemma_assoc_map_push(inner0, prover, 1u64);
                        }
                        self.rounds[i].1.push((prover, 1));
                        proof {
                            self.lemma_first_in_round(*old(self), i as int, prover);
                        }
                        Ok(())
                    }
                }
            }
            None => {
                // First share of the whole round.
                proof {
                    lemma_assoc_map_dom(self.rounds@);
                }
                let mut row: Vec<(u64, u64)> = Vec::new();
                row.push((prover, 1));
                proof {
                    assert(row@.drop_last() =~= Seq::<(u64, u64)>::empty());
                    assert(assoc_map(row@) == assoc_map(row@.drop_last()).insert(prover, 1u64));
                }
                self.rounds.push((key, row));
                proof {
                    self.lemma_new_round(*old(self), key, prover);
                }
                Ok(())
            }
        }
    }

    /// The per-prover counts of one round, copied out; empty when no share has
    /// been credited under that round.
    pub fn shares_for_block(&self, block_height: u32, coinbase_record: u64) -> (row: Vec<
        (u64, u64),
    >)
        requires
            self.wf(),
        ensures
            keys_distinct(row@),
            assoc_map(row@) == ({
                let key = RoundKey { block_height, coinbase_record };
                if self@.contains_key(key) {
                    self@[key]
                } else {
                    Map::<u64, u64>::empty()
                }
            }),
    {
        let key = RoundKey { block_height, coinbase_record };
        proof {
            self.lemma_round_maps_distinct();
            lemma_assoc_map_dom(spec_round_maps(self.rounds@));
        }
        match self.find_round(key) {
            Some(i) => {
                proof {
                    lemma_assoc_map_index(spec_round_maps(self.rounds@), i as int);
                }
                copy_row(&self.rounds[i].1)
            }
            None => {
                proof {
                    assert forall|q: int| 0 <= q < spec_round_maps(self.rounds@).len()
                        implies spec_round_maps(self.rounds@)[q].0 != key by {
                        assert(self.rounds@[q].0 != key);
                    }
                    assert(!self@.contains_key(key));
                }
                Vec::new()
            }
        }
    }

    /// The total count of credited shares of one prover, aggregated across
    /// every round this ledger has recorded; the total saturates at the
    /// largest representable count.
    pub fn shares_for_prover(&self, prover: u64) -> (total: u64)
        requires
            self.wf(),
        ensures
            ({
                let t = spec_prover_total(self.rows(), prover);
                if t <= u64::MAX {
                    total == t
                } else {
                    total == u64::MAX
                }
            }),
    {
        let n = self.rounds.len();
        let mut total: u64 = 0;
        proof {
            assert(self.rows().take(0) =~= Seq::<(RoundKey, Seq<(u64, u64)>)>::empty());
        }
        let mut i: usize = 0;
        while i < n
            invariant
                0 <= i <= n,
                self.wf(),
                n == self.rounds@.len(),
                ({
                    let t = spec_prover_total(self.rows().take(i as int), prover);
                    if t <= u64::MAX {
                        total == t
                    } else {
                        total == u64::MAX
                    }
                }),
            decreases n - i,
        {
            proof {
                lemma_assoc_map_dom(self.rounds@[i as int].1@);
            }
            let c: u64 = match find_prover(&self.rounds[i].1, prover) {
                Some(j) => {
                    proof {
                        lemma_assoc_map_index(self.rounds@[i as int].1@, j as int);
                    }
                    self.rounds[i].1[j].1
                }
                None => 0,
            };
            proof {
                assert(self.rows()[i as int].1 == self.rounds@[i as int].1@);
                assert(c == spec_row_count(self.rows()[i as int].1, prover));
                assert(self.rows().take(i as int + 1).drop_last() =~= self.rows().take(i as int));
                assert(self.rows().take(i as int + 1).last() == self.rows()[i as int]);
            }
            if c <= u64::MAX - total {
                total = total + c;
            } else {
                total = u64::MAX;
            }
            i += 1;
        }
        proof {
            assert(self.rows().take(n as int) =~= self.rows());
        }
        total
    }

    /// Every round this ledger has recorded, with its per-prover counts,
    /// copied out in insertion order.
    pub fn all_shares(&self) -> (all: Vec<(RoundKey, Vec<(u64, u64)>)>)
        ensures
            spec_rows(all@) == self.rows(),
    {
        let n = self.rounds.len();
        let mut all: Vec<(RoundKey, Vec<(u64, u64)>)> = Vec::new();
        proof {
            assert(spec_rows(all@) =~= self.rows().take(0));
        }
        let mut i: usize = 0;
        while i < n
            invariant
                0 <= i <= n,
                n == self.rounds@.len(),
                spec_rows(all@) == self.rows().take(i as int),
            decreases n - i,
        {
            let ghost all0 = all@;
            let row = copy_row(&self.rounds[i].1);
            let ghost row_v = row@;
            all.push((self.rounds[i].0, row));
            proof {
                assert(spec_rows(all0).len() == all0.len());
                assert(all0.len() == i as int);
                assert(all@.len() == i as int + 1);
                assert forall|q: int| 0 <= q < all@.len() implies spec_rows(all@)[q]
                    == self.rows().take(i as int + 1)[q] by {
                    if q < i {
                        assert(all@[q] == all0[q]);
                        assert(spec_rows(all0)[q] == self.rows().take(i as int)[q]);
                    } else {
                        assert(all@[q] == (self.rounds@[i as int].0, all@[q].1));
                        assert(all@[q].1@ == row_v);
                        assert(self.rows()[i as int] == (self.rounds@[i as int].0, self.rounds@[i as int].1@));
                    }
                }
                assert(spec_rows(all@) =~= self.rows().take(i as int + 1));
            }
            i += 1;
        }
        proof {
            assert(self.rows().take(n as int) =~= self.rows());
        }
        all
    }

    /// The distinct provers that have ever been credited a share by this
    /// ledger, each listed once.
    pub fn provers(&self) -> (ps: Vec<u64>)
        ensures
            ps@.no_duplicates(),
            forall|p: u64| ps@.contains(p) <==> spec_is_prover(self.rows(), p),
    {
        let n = self.rounds.len();
        let mut ps: Vec<u64> = Vec::new();
        let mut i: usize = 0;
        while i < n
            invariant
                0 <= i <= n,
                n == self.rounds@.len(),
                ps@.no_duplicates(),
                forall|p: u64| ps@.contains(p) <==> spec_is_prover(self.rows().take(i as int), p),
            decreases n - i,
        {
            let m = self.rounds[i].1.len();
            let mut j: usize = 0;
            while j < m
                invariant
                    0 <= j <= m,
                    i < n,
                    n == self.rounds@.len(),
                    m == self.rounds@[i as int].1@.len(),
                    ps@.no_duplicates(),
                    forall|p: u64|
                        ps@.contains(p) <==> (spec_is_prover(self.rows().take(i as int), p)
                            || exists|q: int|
                            0 <= q < j && self.rounds@[i as int].1@[q].0 == p),
                decreases m - j,
            {
                let p = self.rounds[i].1[j].0;
                let ghost ps0 = ps@;
                let dup = contains_prover(&ps, p);
                if !dup {
                    ps.push(p);
                }
                proof {
                    assert(self.rounds@[i as int].1@[j as int].0 == p);
                    assert forall|x: u64| ps@.contains(x) implies (ps0.contains(x) || x == p) by {
                        let q = choose|q: int| 0 <= q < ps@.len() && ps@[q] == x;
                        if q < ps0.len() {
                            assert(ps0[q] == x);
                            assert(ps0.contains(x));
                        } else {
                            assert(ps@[q] == p);
                        }
                    }
                    assert forall|x: u64| (ps0.contains(x) || x == p) implies ps@.contains(x) by {
                        if ps0.contains(x) {
                            let q = choose|q: int| 0 <= q < ps0.len() && ps0[q] == x;
                            assert(ps@[q] == x);
                            assert(ps@.contains(x));
                        } else if dup {
                            assert(ps0.contains(p));
                            assert(ps@.contains(x));
                        } else {
                            assert(ps@[ps0.len() as int] == p);
                            assert(ps@.contains(x));
                        }
                    }
                    assert(ps@.no_duplicates()) by {
                        assert forall|a: int, b: int|
                            0 <= a < b < ps@.len() implies ps@[a] != ps@[b] by {
                            if b < ps0.len() {
                                assert(ps0[a] == ps@[a] && ps0[b] == ps@[b]);
                            } else {
                                assert(ps@[b] == p);
                                assert(ps0[a] == ps@[a]);
                                assert(ps0.contains(ps0[a]));
                            }
                        }
                    }
                    assert forall|x: u64|
                        ps@.contains(x) implies (spec_is_prover(self.rows().take(i as int), x)
                            || exists|q: int|
                            0 <= q < j + 1 && self.rounds@[i as int].1@[q].0 == x) by {
                        if x == p {
                            assert(self.rounds@[i as int].1@[j as int].0 == x);
                        } else {
                            assert(ps0.contains(x));
                            if !spec_is_prover(self.rows().take(i as int), x) {
                                let q = choose|q: int|
                                    0 <= q < j && self.rounds@[i as int].1@[q].0 == x;
                                assert(0 <= q < j + 1 && self.rounds@[i as int].1@[q].0 == x);
                            }
                        }
                    }
                    assert forall|x: u64|
                        (spec_is_prover(self.rows().take(i as int), x) || exists|q: int|
                            0 <= q < j + 1 && self.rounds@[i as int].1@[q].0 == x)
                        implies ps@.contains(x) by {
                        if spec_is_prover(self.rows().take(i as int), x) {
                            assert(ps0.contains(x));
                            assert(ps@.contains(x));
                        } else {
                            let q = choose|q: int|
                                0 <= q < j + 1 && self.rounds@[i as int].1@[q].0 == x;
                            if q < j {
                                assert(ps0.contains(x));
                                assert(ps@.contains(x));
                            } else {
                                assert(x == p);
                                assert(ps@.contains(x));
                            }
                        }
                    }
                }
                j += 1;
            }
            proof {
                assert(self.rows().take(i as int + 1).drop_last() =~= self.rows().take(i as int));
                assert forall|x: u64|
                    spec_is_prover(self.rows().take(i as int + 1), x) implies ps@.contains(x) by {
                    let rows1 = self.rows().take(i as int + 1);
                    let (a, b): (int, int) = choose|a: int, b: int|
                        0 <= a < rows1.len() && 0 <= b < rows1[a].1.len() && rows1[a].1[b].0 == x;
                    if a < i {
                        assert(self.rows().take(i as int)[a] == rows1[a]);
                        assert(spec_is_prover(self.rows().take(i as int), x));
                    } else {
                        assert(rows1[a] == self.rows()[i as int]);
                        assert(self.rounds@[i as int].1@[b].0 == x);
                    }
                }
                assert forall|x: u64|
                    ps@.contains(x) implies spec_is_prover(self.rows().take(i as int + 1), x) by {
                    if spec_is_prover(self.rows().take(i as int), x) {
                        let rows0 = self.rows().take(i as int);
                        let (a, b): (int, int) = choose|a: int, b: int|
                            0 <= a < rows0.len() && 0 <= b < rows0[a].1.len() && rows0[a].1[b].0
                                == x;
                        assert(self.rows().take(i as int + 1)[a] == rows0[a]);
                        assert(spec_is_prover(self.rows().take(i as int + 1), x));
                    } else {
                        let q = choose|q: int|
                            0 <= q < m && self.rounds@[i as int].1@[q].0 == x;
                        assert(self.rows().take(i as int + 1)[i as int]
                            == self.rows()[i as int]);
                        assert(self.rows().take(i as int + 1)[i as int].1[q].0 == x);
                        assert(spec_is_prover(self.rows().take(i as int + 1), x));
                    }
                }
            }
            i += 1;
        }
        proof {
            assert(self.rows().take(n as int) =~= self.rows());
        }
        ps
    }

    /// After replacing, inside round `i`, the prover's pair by one with count
    /// one higher, the ledger denotes the credited map.
    proof fn lemma_increment_in_round(&self, pre: Self, i: int, j: int, prover: u64)
        requires
            pre.wf(),
            0 <= i < pre.rounds@.len(),
            0 <= j < pre.rounds@[i].1@.len(),
            pre.rounds@[i].1@[j].0 == prover,
            pre.rounds@[i].1@[j].1 < u64::MAX,
            self.rounds@.len() == pre.rounds@.len(),
            forall|q: int| 0 <= q < pre.rounds@.len() && q != i ==> self.rounds@[q] == pre.rounds@[q],
            self.rounds@[i].0 == pre.rounds@[i].0,
            self.rounds@[i].1@ == pre.rounds@[i].1@.update(
                j,
                (prover, (pre.rounds@[i].1@[j].1 + 1) as u64),
            ),
        ensures
            self.wf(),
            self@ == spec_credit(pre@, pre.rounds@[i].0, prover),
    {
        let key = pre.rounds@[i].0;
        let inner0 = pre.rounds@[i].1@;
        let count = inner0[j].1;
        pre.lemma_round_maps_distinct();
        lemma_assoc_map_dom(spec_round_maps(pre.rounds@));
        lemma_assoc_map_index(spec_round_maps(pre.rounds@), i);
        lemma_assoc_map_index(inner0, j);
        lemma_assoc_map_dom(inner0);
        lemma_assoc_map_update(inner0, j, (count + 1) as u64);
        assert(spec_round_maps(self.rounds@) =~= spec_round_maps(pre.rounds@).update(
            i,
            (key, assoc_map(inner0).insert(prover, (count + 1) as u64)),
        ));
        lemma_assoc_map_update(
            spec_round_maps(pre.rounds@),
            i,
            assoc_map(inner0).insert(prover, (count + 1) as u64),
        );
        assert(spec_share_count(pre@, key, prover) == count);
        assert(self@ =~= spec_credit(pre@, key, prover));
        assert forall|q: int| 0 <= q < self.rounds@.len() implies keys_distinct(
            #[trigger] self.rounds@[q].1@,
        ) by {
            if q != i {
                assert(self.rounds@[q] == pre.rounds@[q]);
            }
        }
    }

    /// After appending, inside round `i`, a first pair for the prover with
    /// count one, the ledger denotes the credited map.
    proof fn lemma_first_in_round(&self, pre: Self, i: int, prover: u64)
        requires
            pre.wf(),
            0 <= i < pre.rounds@.len(),
            forall|q: int| 0 <= q < pre.rounds@[i].1@.len() ==> pre.rounds@[i].1@[q].0 != prover,
            self.rounds@.len() == pre.rounds@.len(),
            forall|q: int| 0 <= q < pre.rounds@.len() && q != i ==> self.rounds@[q] == pre.rounds@[q],
            self.rounds@[i].0 == pre.rounds@[i].0,
            self.rounds@[i].1@ == pre.rounds@[i].1@.push((prover, 1u64)),
        ensures
            self.wf(),
            self@ == spec_credit(pre@, pre.rounds@[i].0, prover),
    {
        let key = pre.rounds@[i].0;
        let inner0 = pre.rounds@[i].1@;
        pre.lemma_round_maps_distinct();
        lemma_assoc_map_dom(spec_round_maps(pre.rounds@));
        lemma_assoc_map_index(spec_round_maps(pre.rounds@), i);
        lemma_assoc_map_dom(inner0);
        lemma_assoc_map_push(inner0, prover, 1u64);
        assert(spec_round_maps(self.rounds@) =~= spec_round_maps(pre.rounds@).update(
            i,
            (key, assoc_map(inner0).insert(prover, 1u64)),
        ));
        lemma_assoc_map_update(
            spec_round_maps(pre.rounds@),
            i,
            assoc_map(inner0).insert(prover, 1u64),
        );
        assert(spec_share_count(pre@, key, prover) == 0);
        assert(self@ =~= spec_credit(pre@, key, prover));
        assert forall|q: int| 0 <= q < self.rounds@.len() implies keys_distinct(
            #[trigger] self.rounds@[q].1@,
        ) by {
            if q != i {
                assert(self.rounds@[q] == pre.rounds@[q]);
            }
        }
    }

    /// After appending a whole new round holding one share for the prover,
    /// the ledger denotes the credited map.
    proof fn lemma_new_round(&self, pre: Self, key: RoundKey, prover: u64)
        requires
            pre.wf(),
            forall|q: int| 0 <= q < pre.rounds@.len() ==> pre.rounds@[q].0 != key,
            self.rounds@.len() == pre.rounds@.len() + 1,
            forall|q: int| 0 <= q < pre.rounds@.len() ==> self.rounds@[q] == pre.rounds@[q],
            self.rounds@.last().0 == key,
            self.rounds@.last().1@ == Seq::<(u64, u64)>::empty().push((prover, 1u64)),
        ensures
            self.wf(),
            self@ == spec_credit(pre@, key, prover),
    {
        pre.lemma_round_maps_distinct();
        lemma_assoc_map_dom(spec_round_maps(pre.rounds@));
        let inner = self.rounds@.last().1@;
        assert(inner.drop_last() =~= Seq::<(u64, u64)>::empty());
        assert(assoc_map(inner) == assoc_map(inner.drop_last()).insert(prover, 1u64));
        assert(assoc_map(inner) =~= Map::<u64, u64>::empty().insert(prover, 1u64));
        assert(spec_round_maps(self.rounds@) =~= spec_round_maps(pre.rounds@).push(
            (key, assoc_map(inner)),
        ));
        lemma_assoc_map_push(spec_round_maps(pre.rounds@), key, assoc_map(inner));
        assert(spec_share_count(pre@, key, prover) == 0);
        assert(self@ =~= spec_credit(pre@, key, prover));
        assert forall|q: int| 0 <= q < self.rounds@.len() implies keys_distinct(
            #[trigger] self.rounds@[q].1@,
        ) by {
            if q < self.rounds@.len() - 1 {
                assert(self.rounds@[q] == pre.rounds@[q]);
            } else {
                assert(keys_distinct(inner));
            }
        }
    }
}

} // verus!

use vstd::prelude::*;

use crate::error::ContractError;

verus! {

/// Nanoseconds in a second: timestamps count nanoseconds, lock periods seconds.
pub const NANOS_PER_SECOND: u128 = 1_000_000_000;

/// Collateral pulled in from a completed liquidation, locked for the lock
/// period after `timestamp` (nanoseconds).
#[derive(Debug, Clone, Copy, PartialEq, Eq, Structural)]
pub struct TokenRecord {
    pub amount: u128,
    pub timestamp: u64,
}

/// A claim record under its key in the queue.
#[derive(Debug, Clone, Copy, PartialEq, Eq, Structural)]
pub struct ClaimEntry {
    pub key: u32,
    pub record: TokenRecord,
}

/// The moment (nanoseconds) at which something stamped `timestamp` has
/// waited `seconds`.
pub open spec fn unlocks_at(timestamp: u64, seconds: u64) -> int {
    timestamp + seconds * NANOS_PER_SECOND
}

/// Whether a claim's lock period has run out at `now`.
pub open spec fn matured(e: ClaimEntry, now: u64, lock_period: u64) -> bool {
    unlocks_at(e.record.timestamp, lock_period) <= now
}

/// The collateral held by a sequence of claims.
pub open spec fn sum_claims(s: Seq<ClaimEntry>) -> int
    decreases s.len(),
{
    if s.len() == 0 {
        0
    } else {
        s[0].record.amount + sum_claims(s.drop_first())
    }
}

/// A well-formed queue: keys strictly increase from the oldest record to the
/// newest, no record is empty, and the total fits in 128 bits.
pub open spec fn claims_wf(s: Seq<ClaimEntry>) -> bool {
    &&& forall|i: int, j: int| 0 <= i < j < s.len() ==> s[i].key < s[j].key
    &&& forall|i: int| 0 <= i < s.len() ==> s[i].record.amount > 0
    &&& sum_claims(s) <= u128::MAX
}

/// Whether `k` is the length of the longest prefix of matured claims.
pub open spec fn matured_prefix(s: Seq<ClaimEntry>, k: int, now: u64, lock_period: u64) -> bool {
    &&& 0 <= k <= s.len()
    &&& forall|j: int| 0 <= j < k ==> matured(#[trigger] s[j], now, lock_period)
    &&& (k == s.len() || !matured(s[k], now, lock_period))
}

/// The queue left after `need` collateral is taken from it oldest first:
/// records are removed whole while they are covered, and the first one that
/// is not is reduced.
pub open spec fn consume_front(s: Seq<ClaimEntry>, need: int) -> Seq<ClaimEntry>
    decreases s.len(),
{
    if s.len() == 0 || need <= 0 {
        s
    } else if need >= s[0].record.amount {
        consume_front(s.drop_first(), need - s[0].record.amount)
    } else {
        s.update(
            0,
            ClaimEntry {
                key: s[0].key,
                record: TokenRecord {
                    amount: (s[0].record.amount - need) as u128,
                    timestamp: s[0].record.timestamp,
                },
            },
        )
    }
}

/// The total of two sequences of claims laid end to end.
pub proof fn lemma_sum_concat(a: Seq<ClaimEntry>, b: Seq<ClaimEntry>)
    ensures
        sum_claims(a + b) == sum_claims(a) + sum_claims(b),
    decreases a.len(),
{
    if a.len() == 0 {
        assert(a + b =~= b);
    } else {
        assert((a + b).drop_first() =~= a.drop_first() + b);
        lemma_sum_concat(a.drop_first(), b);
    }
}

/// The total splits at any position, and no part of it is negative.
pub proof fn lemma_sum_split(s: Seq<ClaimEntry>, i: int)
    requires
        0 <= i <= s.len(),
    ensures
        sum_claims(s) == sum_claims(s.take(i)) + sum_claims(s.skip(i)),
        sum_claims(s.take(i)) >= 0,
        sum_claims(s.skip(i)) >= 0,
{
    assert(s.take(i) + s.skip(i) =~= s);
    lemma_sum_concat(s.take(i), s.skip(i));
    lemma_sum_nonneg(s.take(i));
    lemma_sum_nonneg(s.skip(i));
}

proof fn lemma_sum_nonneg(s: Seq<ClaimEntry>)
    ensures
        sum_claims(s) >= 0,
    decreases s.len(),
{
    if s.len() > 0 {
        lemma_sum_nonneg(s.drop_first());
    }
}

proof fn lemma_sum_push(s: Seq<ClaimEntry>, e: ClaimEntry)
    ensures
        sum_claims(s.push(e)) == sum_claims(s) + e.record.amount,
{
    let one = seq![e];
    assert(s.push(e) =~= s + one);
    lemma_sum_concat(s, one);
    assert(one[0] == e);
    assert(one.drop_first() =~= Seq::<ClaimEntry>::empty());
    assert(sum_claims(one) == e.record.amount + sum_claims(one.drop_first()));
}

proof fn lemma_take_succ_sum(s: Seq<ClaimEntry>, i: int)
    requires
        0 <= i < s.len(),
    ensures
        sum_claims(s.take(i + 1)) == sum_claims(s.take(i)) + s[i].record.amount,
{
    assert(s.take(i + 1) =~= s.take(i).push(s[i]));
    lemma_sum_push(s.take(i), s[i]);
}

/// The time-ordered queue of locked collateral claims, oldest first.
pub struct ClaimQueue {
    entries: Vec<ClaimEntry>,
}

impl View for ClaimQueue {
    type V = Seq<ClaimEntry>;

    closed spec fn view(&self) -> Seq<ClaimEntry> {
        self.entries@
    }
}

impl ClaimQueue {
    /// The queue holds a well-formed sequence of claims.
    pub open spec fn wf(&self) -> bool {
        claims_wf(self@)
    }

    /// The collateral locked by the whole queue.
    pub open spec fn locked(&self) -> int {
        sum_claims(self@)
    }

    /// An empty queue.
    pub fn new() -> (r: ClaimQueue)
        ensures
            r@ == Seq::<ClaimEntry>::empty(),
            r.wf(),
    {
        ClaimQueue { entries: Vec::new() }
    }

    /// The queue of the given records, provided they form a well-formed queue.
    pub fn from_entries(entries: Vec<ClaimEntry>) -> (r: Option<ClaimQueue>)
        ensures
            r is Some <==> claims_wf(entries@),
            r matches Some(q) ==> q@ == entries@,
    {
        let ghost s = entries@;
        let mut total: u128 = 0;
        let mut i: usize = 0;
        while i < entries.len()
            invariant
                s == entries@,
                0 <= i <= s.len(),
                total == sum_claims(s.take(i as int)),
                forall|a: int, b: int| 0 <= a < b < i ==> s[a].key < s[b].key,
                forall|a: int| 0 <= a < i ==> s[a].record.amount > 0,
            decreases s.len() - i,
        {
            let e = entries[i];
            proof {
                lemma_take_succ_sum(s, i as int);
                lemma_sum_split(s, i as int + 1);
            }
            if e.record.amount == 0 {
                return None;
            }
            if i > 0 && entries[i - 1].key >= e.key {
                return None;
            }
            total = match total.checked_add(e.record.amount) {
                Some(v) => v,
                None => return None,
            };
            proof {
                assert forall|a: int, b: int| 0 <= a < b < i + 1 implies s[a].key < s[b].key by {
                    if b == i && a < i - 1 {
                        assert(s[a].key < s[i - 1].key);
                    }
                }
            }
            i = i + 1;
        }
        proof {
            assert(s.take(i as int) =~= s);
        }
        Some(ClaimQueue { entries })
    }

    /// The records, oldest first.
    pub fn entries(&self) -> (r: &Vec<ClaimEntry>)
        ensures
            r@ == self@,
    {
        &self.entries
    }

    /// The collateral locked by the whole queue.
    pub fn total(&self) -> (r: u128)
        requires
            self.wf(),
        ensures
            r == self.locked(),
    {
        let ghost s = self@;
        let mut total: u128 = 0;
        let mut i: usize = 0;
        while i < self.entries.len()
            invariant
                s == self@,
                0 <= i <= s.len(),
                claims_wf(s),
                total == sum_claims(s.take(i as int)),
            decreases s.len() - i,
        {
            proof {
                lemma_take_succ_sum(s, i as int);
                lemma_sum_split(s, i as int + 1);
            }
            total = total + self.entries[i].record.amount;
            i = i + 1;
        }
        proof {
            assert(s.take(i as int) =~= s);
        }
        total
    }

    /// Whether the claim at position `i` has matured at `now`.
    fn matured_at(&self, i: usize, now: u64, lock_period: u64) -> (r: bool)
        requires
            i < self@.len(),
        ensures
            r == matured(self@[i as int], now, lock_period),
    {
        let t = self.entries[i].record.timestamp as u128;
        t + (lock_period as u128) * NANOS_PER_SECOND <= now as u128
    }

    /// Appends a claim of `amount` stamped `timestamp` under the key after
    /// the newest one (0 for an empty queue), and returns that key. Fails with
    /// an overflow where the keys or the locked total run out of range.
    pub fn append(&mut self, amount: u128, timestamp: u64) -> (r: Result<u32, ContractError>)
        requires
            old(self).wf(),
            amount > 0,
        ensures
            final(self).wf(),
            r is Ok <==> (old(self).locked() + amount <= u128::MAX && (old(self)@.len() == 0
                || old(self)@.last().key < u32::MAX)),
            r matches Ok(k) ==> k == (if old(self)@.len() == 0 {
                0
            } else {
                old(self)@.last().key + 1
            }),
            r matches Ok(k) ==> final(self)@ == old(self)@.push(
                (ClaimEntry { key: k, record: TokenRecord { amount, timestamp } }),
            ),
            r matches Ok(k) ==> final(self).locked() == old(self).locked() + amount,
            r is Err ==> *final(self) == *old(self),
            r matches Err(e) ==> (e == ContractError::OverflowError {}),
    {
        let total = self.total();
        if total > u128::MAX - amount {
            return Err(ContractError::OverflowError {});
        }
        let n = self.entries.len();
        let key: u32 = if n == 0 {
            0
        } else {
            let last = self.entries[n - 1].key;
            if last == u32::MAX {
                return Err(ContractError::OverflowError {});
            }
            last + 1
        };
        let e = ClaimEntry { key, record: TokenRecord { amount, timestamp } };
        let ghost s = self@;
        self.entries.push(e);
        proof {
            lemma_sum_push(s, e);
            assert forall|i: int, j: int| 0 <= i < j < self@.len() implies self@[i].key < self@[j].key by {
                if j == s.len() && i < s.len() - 1 {
                    assert(s[i].key < s[s.len() - 1].key);
                }
            }
        }
        Ok(key)
    }

    /// Whether the oldest claim has matured at `now`.
    pub fn unlockable(&self, now: u64, lock_period: u64) -> (r: bool)
        ensures
            r <==> (self@.len() > 0 && matured(self@[0], now, lock_period)),
    {
        self.entries.len() > 0 && self.matured_at(0, now, lock_period)
    }

    /// Removes the longest run of matured claims from the front of the queue
    /// and returns the collateral they held. Scanning stops at the first claim
    /// still locked.
    pub fn unlock_matured(&mut self, now: u64, lock_period: u64) -> (r: u128)
        requires
            old(self).wf(),
        ensures
            final(self).wf(),
            exists|k: int|
                matured_prefix(old(self)@, k, now, lock_period) && final(self)@ == old(self)@.skip(k)
                    && r == sum_claims(old(self)@.take(k)),
            r == old(self).locked() - final(self).locked(),
            r <= old(self).locked(),
    {
        let ghost s = self@;
        let mut released: u128 = 0;
        let mut i: usize = 0;
        while i < self.entries.len() && self.matured_at(i, now, lock_period)
            invariant
                s == self@,
                claims_wf(s),
                0 <= i <= s.len(),
                forall|j: int| 0 <= j < i ==> matured(#[trigger] s[j], now, lock_period),
                released == sum_claims(s.take(i as int)),
            decreases s.len() - i,
        {
            proof {
                lemma_take_succ_sum(s, i as int);
                lemma_sum_split(s, i as int + 1);
            }
            released = released + self.entries[i].record.amount;
            i = i + 1;
        }
        let rest = self.entries.split_off(i);
        self.entries = rest;
        proof {
            assert(self@ =~= s.skip(i as int));
            lemma_sum_split(s, i as int);
            assert(matured_prefix(s, i as int, now, lock_period));
            assert forall|a: int, b: int| 0 <= a < b < self@.len() implies self@[a].key
                < self@[b].key by {
                assert(self@[a] == s[a + i]);
                assert(self@[b] == s[b + i]);
            }
            assert forall|a: int| 0 <= a < self@.len() implies self@[a].record.amount > 0 by {
                assert(self@[a] == s[a + i]);
            }
        }
        released
    }

    /// Takes up to `need` collateral from the queue, oldest claims first,
    /// whether or not their lock period has run out: covered claims are
    /// removed, and the first claim not covered is reduced by what remains.
    /// Returns the collateral released.
    pub fn force_release(&mut self, need: u128) -> (r: u128)
        requires
            old(self).wf(),
        ensures
            final(self).wf(),
            final(self)@ == consume_front(old(self)@, need as int),
            r as int == if need <= old(self).locked() {
                need as int
            } else {
                old(self).locked()
            },
            r == old(self).locked() - final(self).locked(),
    {
        let ghost s = self@;
        let mut remaining: u128 = need;
        let mut released: u128 = 0;
        let mut i: usize = 0;
        proof {
            assert(s.skip(0) =~= s);
        }
        while i < self.entries.len() && remaining > 0 && remaining >= self.entries[i].record.amount
            invariant
                s == self@,
                claims_wf(s),
                0 <= i <= s.len(),
                released == sum_claims(s.take(i as int)),
                need == released + remaining,
                consume_front(s, need as int) == consume_front(s.skip(i as int), remaining as int),
            decreases s.len() - i,
        {
            proof {
                lemma_take_succ_sum(s, i as int);
                lemma_sum_split(s, i as int + 1);
                assert(s.skip(i as int).drop_first() =~= s.skip(i as int + 1));
            }
            let a = self.entries[i].record.amount;
            remaining = remaining - a;
            released = released + a;
            i = i + 1;
        }
        let mut rest = self.entries.split_off(i);
        proof {
            assert(rest@ =~= s.skip(i as int));
            lemma_sum_split(s, i as int);
        }
        if remaining > 0 && rest.len() > 0 {
            let e = rest[0];
            proof {
                assert(rest@[0] == s[i as int]);
                assert(rest@.drop_first() =~= s.skip(i as int + 1));
                lemma_sum_split(s, i as int + 1);
                lemma_take_succ_sum(s, i as int);
            }
            let reduced = ClaimEntry {
                key: e.key,
                record: TokenRecord { amount: e.record.amount - remaining, timestamp: e.record.timestamp },
            };
            rest.set(0, reduced);
            released = released + remaining;
            proof {
                assert(rest@.drop_first() =~= s.skip(i as int + 1));
            }
        }
        self.entries = rest;
        proof {
            if i as int == s.len() {
                assert(s.take(i as int) =~= s);
            }
            assert forall|a: int, b: int| 0 <= a < b < self@.len() implies self@[a].key
                < self@[b].key by {
                assert(self@[b] == s[b + i]);
                assert(self@[a].key == s[a + i].key);
            }
            assert forall|a: int| 0 <= a < self@.len() implies self@[a].record.amount > 0 by {
                if a > 0 {
                    assert(self@[a] == s[a + i]);
                }
            }
        }
        released
    }
}

} // verus!

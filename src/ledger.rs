use vstd::prelude::*;

use crate::error::ContractError;

verus! {

/// The total of a sequence of share amounts.
pub open spec fn sum_shares(s: Seq<u128>) -> int
    decreases s.len(),
{
    if s.len() == 0 {
        0
    } else {
        sum_shares(s.drop_last()) + s.last()
    }
}

proof fn lemma_sum_push(s: Seq<u128>, v: u128)
    ensures
        sum_shares(s.push(v)) == sum_shares(s) + v,
{
    assert(s.push(v).drop_last() =~= s);
}

proof fn lemma_sum_nonneg(s: Seq<u128>)
    ensures
        sum_shares(s) >= 0,
    decreases s.len(),
{
    if s.len() > 0 {
        lemma_sum_nonneg(s.drop_last());
    }
}

/// Replacing one amount changes the total by the difference, and the total
/// covers every single amount.
proof fn lemma_sum_update(s: Seq<u128>, i: int, v: u128)
    requires
        0 <= i < s.len(),
    ensures
        sum_shares(s.update(i, v)) == sum_shares(s) - s[i] + v,
        s[i] <= sum_shares(s),
    decreases s.len(),
{
    lemma_sum_nonneg(s.drop_last());
    if i == s.len() - 1 {
        assert(s.update(i, v).drop_last() =~= s.drop_last());
    } else {
        assert(s.update(i, v).drop_last() =~= s.drop_last().update(i, v));
        lemma_sum_update(s.drop_last(), i, v);
    }
}

/// Per-holder share balances, keyed by the holder's address.
pub struct ShareLedger {
    holders: Vec<String>,
    shares: Vec<u128>,
}

impl ShareLedger {
    /// The holders' addresses, in the order of their first deposit.
    pub closed spec fn keys(&self) -> Seq<Seq<char>> {
        self.holders@.map_values(|h: String| h@)
    }

    /// The holders' balances, in the order of `keys`.
    pub closed spec fn amounts(&self) -> Seq<u128> {
        self.shares@
    }

    /// Each holder appears once, with one balance, and the balances sum to
    /// no more than 128 bits hold.
    pub open spec fn wf(&self) -> bool {
        &&& self.keys().len() == self.amounts().len()
        &&& self.total() <= u128::MAX
        &&& forall|i: int, j: int|
            0 <= i < j < self.keys().len() ==> self.keys()[i] != self.keys()[j]
    }

    /// Whether `h` has a balance entry.
    pub open spec fn has(&self, h: Seq<char>) -> bool {
        exists|i: int| 0 <= i < self.keys().len() && self.keys()[i] == h
    }

    /// The shares held by `h`; zero for an address that never held any.
    pub open spec fn balance_of(&self, h: Seq<char>) -> int {
        if self.has(h) {
            self.amounts()[choose|i: int| 0 <= i < self.keys().len() && self.keys()[i] == h] as int
        } else {
            0
        }
    }

    /// The sum of all balances.
    pub open spec fn total(&self) -> int {
        sum_shares(self.amounts())
    }

    proof fn lemma_balance_at(&self, i: int)
        requires
            self.wf(),
            0 <= i < self.keys().len(),
        ensures
            self.balance_of(self.keys()[i]) == self.amounts()[i],
            self.amounts()[i] <= self.total(),
    {
        let h = self.keys()[i];
        assert(self.has(h));
        let j = choose|j: int| 0 <= j < self.keys().len() && self.keys()[j] == h;
        assert(j == i);
        lemma_sum_update(self.amounts(), i, 0);
    }

    /// No holder has more shares than all holders together.
    pub proof fn lemma_balance_le_total(&self, h: Seq<char>)
        requires
            self.wf(),
        ensures
            0 <= self.balance_of(h) <= self.total(),
    {
        if self.has(h) {
            let j = choose|j: int| 0 <= j < self.keys().len() && self.keys()[j] == h;
            self.lemma_balance_at(j);
        } else {
            lemma_sum_nonneg(self.amounts());
        }
    }

    /// The sum of all balances.
    pub fn total_shares(&self) -> (r: u128)
        requires
            self.wf(),
        ensures
            r == self.total(),
    {
        let mut total: u128 = 0;
        let mut i: usize = 0;
        while i < self.shares.len()
            invariant
                self.wf(),
                0 <= i <= self.shares@.len(),
                total == sum_shares(self.shares@.take(i as int)),
            decreases self.shares@.len() - i,
        {
            proof {
                assert(self.shares@.take(i as int + 1) =~= self.shares@.take(i as int).push(self.shares@[i as int]));
                lemma_sum_push(self.shares@.take(i as int), self.shares@[i as int]);
                lemma_prefix_sum_bounded(self.shares@, i as int + 1);
            }
            total = total + self.shares[i];
            i = i + 1;
        }
        proof {
            assert(self.shares@.take(i as int) =~= self.shares@);
        }
        total
    }

    /// A ledger with no holders.
    pub fn new() -> (r: ShareLedger)
        ensures
            r.wf(),
            r.keys().len() == 0,
            r.total() == 0,
            forall|h: Seq<char>| r.balance_of(h) == 0,
    {
        let r = ShareLedger { holders: Vec::new(), shares: Vec::new() };
        assert(r.keys() =~= Seq::<Seq<char>>::empty());
        r
    }

    /// The ledger of the given holders and balances, provided each holder
    /// appears once, the two lists have one length, and the total fits in 128 bits.
    pub fn from_entries(holders: Vec<String>, shares: Vec<u128>) -> (r: Option<ShareLedger>)
        ensures
            r is Some <==> (holders@.len() == shares@.len() && (forall|i: int, j: int|
                0 <= i < j < holders@.len() ==> holders@[i]@ != holders@[j]@) && sum_shares(shares@)
                <= u128::MAX),
            r matches Some(l) ==> l.wf() && l.amounts() == shares@ && l.keys() == holders@.map_values(
                |h: String| h@,
            ),
    {
        if holders.len() != shares.len() {
            return None;
        }
        let mut total: u128 = 0;
        let mut i: usize = 0;
        while i < holders.len()
            invariant
                holders@.len() == shares@.len(),
                0 <= i <= holders@.len(),
                total == sum_shares(shares@.take(i as int)),
                forall|a: int, b: int| 0 <= a < b < i ==> holders@[a]@ != holders@[b]@,
            decreases holders@.len() - i,
        {
            let mut j: usize = 0;
            while j < i
                invariant
                    0 <= j <= i < holders@.len(),
                    forall|a: int| 0 <= a < j ==> holders@[a]@ != holders@[i as int]@,
                decreases i - j,
            {
                if holders[j] == holders[i] {
                    return None;
                }
                j = j + 1;
            }
            proof {
                assert(shares@.take(i as int + 1) =~= shares@.take(i as int).push(shares@[i as int]));
                lemma_sum_push(shares@.take(i as int), shares@[i as int]);
                lemma_sum_nonneg(shares@.take(i as int));
            }
            total = match total.checked_add(shares[i]) {
                Some(v) => v,
                None => {
                    proof {
                        lemma_prefix_sum_bounded(shares@, i as int + 1);
                    }
                    return None;
                },
            };
            i = i + 1;
        }
        proof {
            assert(shares@.take(i as int) =~= shares@);
        }
        Some(ShareLedger { holders, shares })
    }

    /// The holders' addresses.
    pub fn holders(&self) -> (r: &Vec<String>)
        ensures
            r@.map_values(|h: String| h@) == self.keys(),
    {
        &self.holders
    }

    /// The holders' balances, in the order of `holders`.
    pub fn shares(&self) -> (r: &Vec<u128>)
        ensures
            r@ == self.amounts(),
    {
        &self.shares
    }

    fn find(&self, h: &String) -> (r: Option<usize>)
        requires
            self.wf(),
        ensures
            r matches Some(i) ==> i < self.keys().len() && self.keys()[i as int] == h@,
            r is None ==> !self.has(h@),
    {
        let mut i: usize = 0;
        while i < self.holders.len()
            invariant
                self.wf(),
                0 <= i <= self.holders@.len(),
                forall|j: int| 0 <= j < i ==> self.keys()[j] != h@,
            decreases self.holders@.len() - i,
        {
            if self.holders[i] == *h {
                return Some(i);
            }
            i = i + 1;
        }
        None
    }

    /// The shares held by `h`.
    pub fn balance(&self, h: &String) -> (r: u128)
        requires
            self.wf(),
        ensures
            r == self.balance_of(h@),
    {
        match self.find(h) {
            Some(i) => {
                proof {
                    self.lemma_balance_at(i as int);
                }
                self.shares[i]
            },
            None => 0,
        }
    }

    /// Adds `amount` shares to the balance of `h`.
    pub fn credit(&mut self, h: &String, amount: u128)
        requires
            old(self).wf(),
            old(self).total() + amount <= u128::MAX,
        ensures
            final(self).wf(),
            final(self).balance_of(h@) == old(self).balance_of(h@) + amount,
            forall|x: Seq<char>| x != h@ ==> final(self).balance_of(x) == old(self).balance_of(x),
            final(self).total() == old(self).total() + amount,
    {
        let ghost old_self = *self;
        match self.find(h) {
            Some(i) => {
                proof {
                    self.lemma_balance_at(i as int);
                    lemma_sum_update(self.shares@, i as int, (self.shares@[i as int] + amount) as u128);
                }
                let v = self.shares[i] + amount;
                self.shares.set(i, v);
                proof {
                    assert(self.keys() == old_self.keys());
                    self.lemma_balance_at(i as int);
                    assert forall|x: Seq<char>| x != h@ implies self.balance_of(x)
                        == old_self.balance_of(x) by {
                        if old_self.has(x) {
                            let j = choose|j: int| 0 <= j < old_self.keys().len() && old_self.keys()[j] == x;
                            old_self.lemma_balance_at(j);
                            self.lemma_balance_at(j);
                        }
                    }
                }
            },
            None => {
                let ghost n = self.holders@.len() as int;
                self.holders.push(h.clone());
                self.shares.push(amount);
                proof {
                    assert(self.keys() =~= old_self.keys().push(h@));
                    lemma_sum_push(old_self.shares@, amount);
                    self.lemma_balance_at(n);
                    assert forall|x: Seq<char>| x != h@ implies self.balance_of(x)
                        == old_self.balance_of(x) by {
                        if old_self.has(x) {
                            let j = choose|j: int| 0 <= j < old_self.keys().len() && old_self.keys()[j] == x;
                            old_self.lemma_balance_at(j);
                            self.lemma_balance_at(j);
                        } else {
                            assert(!self.has(x)) by {
                                if self.has(x) {
                                    let j = choose|j: int| 0 <= j < self.keys().len() && self.keys()[j] == x;
                                    assert(j < n);
                                }
                            }
                        }
                    }
                }
            },
        }
    }

    /// Removes `amount` shares from the balance of `h`; fails with an
    /// overflow, and changes nothing, where the balance is smaller.
    pub fn debit(&mut self, h: &String, amount: u128) -> (r: Result<(), ContractError>)
        requires
            old(self).wf(),
        ensures
            final(self).wf(),
            r is Ok <==> amount <= old(self).balance_of(h@),
            r is Ok ==> final(self).balance_of(h@) == old(self).balance_of(h@) - amount,
            r is Ok ==> final(self).total() == old(self).total() - amount,
            r is Ok ==> forall|x: Seq<char>|
                x != h@ ==> final(self).balance_of(x) == old(self).balance_of(x),
            r is Err ==> *final(self) == *old(self),
            r matches Err(e) ==> (e == ContractError::OverflowError {}),
    {
        let ghost old_self = *self;
        match self.find(h) {
            Some(i) => {
                proof {
                    self.lemma_balance_at(i as int);
                }
                if self.shares[i] < amount {
                    return Err(ContractError::OverflowError {});
                }
                proof {
                    lemma_sum_update(self.shares@, i as int, (self.shares@[i as int] - amount) as u128);
                }
                let v = self.shares[i] - amount;
                self.shares.set(i, v);
                proof {
                    assert(self.keys() == old_self.keys());
                    self.lemma_balance_at(i as int);
                    assert forall|x: Seq<char>| x != h@ implies self.balance_of(x)
                        == old_self.balance_of(x) by {
                        if old_self.has(x) {
                            let j = choose|j: int| 0 <= j < old_self.keys().len() && old_self.keys()[j] == x;
                            old_self.lemma_balance_at(j);
                            self.lemma_balance_at(j);
                        }
                    }
                }
                Ok(())
            },
            None => {
                if amount > 0 {
                    return Err(ContractError::OverflowError {});
                }
                Ok(())
            },
        }
    }
}

proof fn lemma_prefix_sum_bounded(s: Seq<u128>, k: int)
    requires
        0 <= k <= s.len(),
    ensures
        sum_shares(s.take(k)) <= sum_shares(s),
    decreases s.len() - k,
{
    if k < s.len() {
        lemma_prefix_sum_bounded(s, k + 1);
        assert(s.take(k + 1) =~= s.take(k).push(s[k]));
        lemma_sum_push(s.take(k), s[k]);
    } else {
        assert(s.take(k) =~= s);
    }
}

} // verus!

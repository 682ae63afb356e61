use vstd::prelude::*;

verus! {

/// One registered account of the ledger: its identifier and current balance.
pub struct AccountEntry {
    pub id: String,
    pub balance: u128,
}

/// Why the ledger refused to move funds. Each variant is reported exactly on
/// the inputs stated in the contracts of `transfer` and `transfer_register`.
#[derive(Clone, Copy, Debug, PartialEq, Eq, Structural)]
pub enum LedgerError {
    /// Sender and receiver are the same account.
    SelfTransfer,
    /// The amount to move is zero.
    ZeroAmount,
    /// A party that must already hold storage is not registered.
    NotRegistered,
    /// The paying account's balance does not cover the amount.
    InsufficientBalance,
}

/// The token-balance ledger: a fixed total supply distributed over registered
/// accounts. Accounts are registered once and never removed; every transfer
/// conserves the total supply.
pub struct Ledger {
    accounts: Vec<AccountEntry>,
    total_supply: u128,
}

impl Ledger {
    /// The balances of a sequence of entries, summed.
    pub closed spec fn spec_sum(s: Seq<AccountEntry>) -> int
        decreases s.len(),
    {
        if s.len() == 0 {
            0
        } else {
            Self::spec_sum(s.drop_last()) + s.last().balance
        }
    }

    /// Whether an account identifier holds a registered entry.
    pub closed spec fn spec_registered(self, a: Seq<char>) -> bool {
        exists|i: int| 0 <= i < self.accounts@.len() && self.accounts@[i].id@ == a
    }

    /// The position of a registered account's entry.
    pub closed spec fn spec_index_of(self, a: Seq<char>) -> int {
        choose|i: int| 0 <= i < self.accounts@.len() && self.accounts@[i].id@ == a
    }

    /// The balance of an account; an unregistered account holds nothing.
    pub closed spec fn spec_balance_of(self, a: Seq<char>) -> u128 {
        if self.spec_registered(a) {
            self.accounts@[self.spec_index_of(a)].balance
        } else {
            0
        }
    }

    pub closed spec fn spec_total_supply(self) -> u128 {
        self.total_supply
    }

    /// Well-formed: account identifiers are distinct and the balances sum to
    /// the fixed total supply, so no transfer can mint or burn.
    pub closed spec fn wf(self) -> bool {
        &&& forall|i: int, j: int|
            0 <= i < j < self.accounts@.len() ==> self.accounts@[i].id@ != self.accounts@[j].id@
        &&& Self::spec_sum(self.accounts@) == self.total_supply
    }

    /// `transfer` succeeds exactly here: distinct parties, a positive amount
    /// covered by `from`, and both parties registered.
    pub open spec fn can_transfer(self, from: Seq<char>, to: Seq<char>, amount: u128) -> bool {
        &&& from != to
        &&& amount > 0
        &&& self.spec_registered(from)
        &&& self.spec_registered(to)
        &&& self.spec_balance_of(from) >= amount
    }

    /// `transfer_register` succeeds exactly here: as `can_transfer`, except
    /// that `to` need not be registered yet.
    pub open spec fn can_transfer_register(self, from: Seq<char>, to: Seq<char>, amount: u128) -> bool {
        &&& from != to
        &&& amount > 0
        &&& self.spec_registered(from)
        &&& self.spec_balance_of(from) >= amount
    }

    /// The error `transfer` reports when it fails: the first check to fail,
    /// in the order the checks are made.
    pub open spec fn transfer_error(self, from: Seq<char>, to: Seq<char>, amount: u128) -> LedgerError {
        if from == to {
            LedgerError::SelfTransfer
        } else if amount == 0 {
            LedgerError::ZeroAmount
        } else if !self.spec_registered(from) {
            LedgerError::NotRegistered
        } else if self.spec_balance_of(from) < amount {
            LedgerError::InsufficientBalance
        } else {
            LedgerError::NotRegistered
        }
    }

    /// The error `transfer_register` reports when it fails.
    pub open spec fn transfer_register_error(self, from: Seq<char>, to: Seq<char>, amount: u128) -> LedgerError {
        if from == to {
            LedgerError::SelfTransfer
        } else if amount == 0 {
            LedgerError::ZeroAmount
        } else if !self.spec_registered(from) {
            LedgerError::NotRegistered
        } else {
            LedgerError::InsufficientBalance
        }
    }

    /// An entry's position determines registration, index and balance.
    proof fn lemma_entry_at(self, a: Seq<char>, i: int)
        requires
            self.wf(),
            0 <= i < self.accounts@.len(),
            self.accounts@[i].id@ == a,
        ensures
            self.spec_registered(a),
            self.spec_index_of(a) == i,
            self.spec_balance_of(a) == self.accounts@[i].balance,
    {
        assert(self.spec_registered(a));
        let j = self.spec_index_of(a);
        assert(0 <= j < self.accounts@.len() && self.accounts@[j].id@ == a);
        if i < j {
            assert(self.accounts@[i].id@ != self.accounts@[j].id@);
        } else if j < i {
            assert(self.accounts@[j].id@ != self.accounts@[i].id@);
        }
    }

    /// Mint the whole supply into a single reserve account.
    pub fn new(reserve_id: String, total_supply: u128) -> (r: Ledger)
        ensures
            r.wf(),
            r.spec_total_supply() == total_supply,
            r.spec_registered(reserve_id@),
            r.spec_balance_of(reserve_id@) == total_supply,
            forall|x: Seq<char>|
                x != reserve_id@ ==> !r.spec_registered(x) && r.spec_balance_of(x) == 0,
    {
        let mut accounts: Vec<AccountEntry> = Vec::new();
        accounts.push(AccountEntry { id: reserve_id, balance: total_supply });
        let r = Ledger { accounts, total_supply };
        proof {
            assert(r.accounts@.len() == 1);
            assert(r.accounts@.drop_last() =~= Seq::<AccountEntry>::empty());
            assert(Ledger::spec_sum(Seq::<AccountEntry>::empty()) == 0);
            assert(Ledger::spec_sum(r.accounts@) == total_supply);
            assert(r.wf());
            r.lemma_entry_at(r.accounts@[0].id@, 0);
        }
        r
    }

    /// The position of an account's entry, if it has one.
    fn find(&self, a: &String) -> (r: Option<usize>)
        ensures
            match r {
                Some(i) => i < self.accounts@.len() && self.accounts@[i as int].id@ == a@
                    && self.spec_registered(a@),
                None => !self.spec_registered(a@),
            },
    {
        let n = self.accounts.len();
        let mut i: usize = 0;
        while i < n
            invariant
                n == self.accounts@.len(),
                i <= n,
                forall|j: int| 0 <= j < i ==> self.accounts@[j].id@ != a@,
            decreases n - i,
        {
            if self.accounts[i].id == *a {
                return Some(i);
            }
            i = i + 1;
        }
        None
    }

    pub fn total_supply(&self) -> (r: u128)
        ensures
            r == self.spec_total_supply(),
    {
        self.total_supply
    }

    pub fn is_registered(&self, a: &String) -> (r: bool)
        requires
            self.wf(),
        ensures
            r == self.spec_registered(a@),
    {
        match self.find(a) {
            Some(i) => {
                proof {
                    self.lemma_entry_at(a@, i as int);
                }
                true
            },
            None => false,
        }
    }

    pub fn balance_of(&self, a: &String) -> (r: u128)
        requires
            self.wf(),
        ensures
            r == self.spec_balance_of(a@),
    {
        match self.find(a) {
            Some(i) => {
                proof {
                    self.lemma_entry_at(a@, i as int);
                }
                self.accounts[i].balance
            },
            None => 0,
        }
    }

    /// Register an account with an empty balance; registering an account that
    /// already holds an entry changes nothing.
    pub fn register_account(&mut self, a: &String)
        requires
            old(self).wf(),
        ensures
            final(self).wf(),
            final(self).spec_total_supply() == old(self).spec_total_supply(),
            final(self).spec_registered(a@),
            forall|x: Seq<char>|
                x != a@ ==> final(self).spec_registered(x) == old(self).spec_registered(x),
            forall|x: Seq<char>|
                #[trigger] final(self).spec_balance_of(x) == old(self).spec_balance_of(x),
    {
        match self.find(a) {
            Some(i) => {
                proof {
                    self.lemma_entry_at(a@, i as int);
                }
            },
            None => {
                let ghost pre = *self;
                self.accounts.push(AccountEntry { id: a.clone(), balance: 0 });
                proof {
                    let n = pre.accounts@.len() as int;
                    assert(self.accounts@.drop_last() =~= pre.accounts@);
                    assert forall|i: int, j: int|
                        0 <= i < j < self.accounts@.len() implies self.accounts@[i].id@
                        != self.accounts@[j].id@ by {
                        if j == n && pre.accounts@[i].id@ == a@ {
                            assert(pre.spec_registered(a@));
                        }
                    }
                    assert(self.wf());
                    self.lemma_entry_at(a@, n);
                    assert forall|x: Seq<char>| #[trigger]
                        self.spec_balance_of(x) == pre.spec_balance_of(x) by {
                        self.frame_after_push(pre, a@, x);
                    }
                    assert forall|x: Seq<char>|
                        x != a@ implies self.spec_registered(x) == pre.spec_registered(x) by {
                        self.frame_after_push(pre, a@, x);
                    }
                }
            },
        }
    }

    /// After appending a fresh, empty entry, every other account keeps its
    /// registration and every account keeps its balance.
    proof fn frame_after_push(self, pre: Ledger, fresh: Seq<char>, x: Seq<char>)
        requires
            pre.wf(),
            self.wf(),
            !pre.spec_registered(fresh),
            self.accounts@.len() == pre.accounts@.len() + 1,
            forall|i: int| 0 <= i < pre.accounts@.len() ==> self.accounts@[i] == pre.accounts@[i],
            self.accounts@.last().id@ == fresh,
            self.accounts@.last().balance == 0,
        ensures
            x != fresh ==> self.spec_registered(x) == pre.spec_registered(x),
            self.spec_balance_of(x) == pre.spec_balance_of(x),
    {
        let n = pre.accounts@.len() as int;
        if x == fresh {
            self.lemma_entry_at(fresh, n);
            assert(self.spec_balance_of(x) == 0);
        } else {
            if pre.spec_registered(x) {
                let i = pre.spec_index_of(x);
                pre.lemma_entry_at(x, i);
                self.lemma_entry_at(x, i);
            } else {
                assert(!self.spec_registered(x)) by {
                    if self.spec_registered(x) {
                        let i = self.spec_index_of(x);
                        assert(0 <= i < n + 1 && self.accounts@[i].id@ == x);
                        assert(i != n);
                        assert(pre.accounts@[i].id@ == x);
                    }
                }
            }
        }
    }

    /// Move `amount` between two already-registered accounts. Refused, with
    /// the ledger unchanged, exactly on the stated inputs.
    pub fn transfer(&mut self, from: &String, to: &String, amount: u128) -> (r: Result<
        (),
        LedgerError,
    >)
        requires
            old(self).wf(),
        ensures
            final(self).wf(),
            final(self).spec_total_supply() == old(self).spec_total_supply(),
            match r {
                Ok(()) => old(self).can_transfer(from@, to@, amount) && spec_moved(
                    *old(self),
                    *final(self),
                    from@,
                    to@,
                    amount,
                ) && forall|x: Seq<char>|
                    final(self).spec_registered(x) == old(self).spec_registered(x),
                Err(e) => {
                    &&& *final(self) == *old(self)
                    &&& !old(self).can_transfer(from@, to@, amount)
                    &&& e == old(self).transfer_error(from@, to@, amount)
                },
            },
    {
        if *from == *to {
            return Err(LedgerError::SelfTransfer);
        }
        if amount == 0 {
            return Err(LedgerError::ZeroAmount);
        }
        let fi = match self.find(from) {
            Some(i) => i,
            None => {
                return Err(LedgerError::NotRegistered);
            },
        };
        proof {
            self.lemma_entry_at(from@, fi as int);
        }
        if self.accounts[fi].balance < amount {
            return Err(LedgerError::InsufficientBalance);
        }
        let ti = match self.find(to) {
            Some(i) => i,
            None => {
                return Err(LedgerError::NotRegistered);
            },
        };
        proof {
            self.lemma_entry_at(to@, ti as int);
        }
        self.move_between(fi, ti, amount);
        Ok(())
    }

    /// Move `amount` from the entry at `fi` to the entry at `ti`.
    fn move_between(&mut self, fi: usize, ti: usize, amount: u128)
        requires
            old(self).wf(),
            fi < old(self).accounts@.len(),
            ti < old(self).accounts@.len(),
            fi != ti,
            old(self).accounts@[fi as int].balance >= amount,
        ensures
            final(self).wf(),
            final(self).spec_total_supply() == old(self).spec_total_supply(),
            forall|x: Seq<char>| final(self).spec_registered(x) == old(self).spec_registered(x),
            final(self).spec_balance_of(old(self).accounts@[fi as int].id@) == old(
                self,
            ).spec_balance_of(old(self).accounts@[fi as int].id@) - amount,
            final(self).spec_balance_of(old(self).accounts@[ti as int].id@) == old(
                self,
            ).spec_balance_of(old(self).accounts@[ti as int].id@) + amount,
            forall|x: Seq<char>|
                x != old(self).accounts@[fi as int].id@ && x != old(self).accounts@[ti as int].id@
                    ==> #[trigger] final(self).spec_balance_of(x) == old(self).spec_balance_of(x),
    {
        let ghost pre = *self;
        proof {
            lemma_sum_pair(pre.accounts@, fi as int, ti as int);
        }
        let from_bal = self.accounts[fi].balance;
        let to_bal = self.accounts[ti].balance;
        let entry_from = &mut self.accounts[fi];
        entry_from.balance = from_bal - amount;
        let entry_to = &mut self.accounts[ti];
        entry_to.balance = to_bal + amount;
        proof {
            let s0 = pre.accounts@;
            let s1 = self.accounts@;
            let mid = s0.update(fi as int, s1[fi as int]);
            assert(s1 =~= mid.update(ti as int, s1[ti as int]));
            lemma_sum_update(s0, fi as int, s1[fi as int]);
            lemma_sum_update(mid, ti as int, s1[ti as int]);
            assert(Self::spec_sum(s1) == self.total_supply);
            assert(forall|i: int| 0 <= i < s1.len() ==> s1[i].id@ == s0[i].id@);
            assert forall|x: Seq<char>|
                self.spec_registered(x) == pre.spec_registered(x) by {
                if pre.spec_registered(x) {
                    let i = pre.spec_index_of(x);
                    assert(s1[i].id@ == x);
                }
                if self.spec_registered(x) {
                    let i = self.spec_index_of(x);
                    assert(s0[i].id@ == x);
                }
            }
            pre.lemma_entry_at(s0[fi as int].id@, fi as int);
            pre.lemma_entry_at(s0[ti as int].id@, ti as int);
            self.lemma_entry_at(s0[fi as int].id@, fi as int);
            self.lemma_entry_at(s0[ti as int].id@, ti as int);
            assert forall|x: Seq<char>|
                x != s0[fi as int].id@ && x != s0[ti as int].id@ implies #[trigger] self
                .spec_balance_of(x) == pre.spec_balance_of(x) by {
                if pre.spec_registered(x) {
                    let i = pre.spec_index_of(x);
                    pre.lemma_entry_at(x, i);
                    self.lemma_entry_at(x, i);
                } else {
                    if self.spec_registered(x) {
                        let i = self.spec_index_of(x);
                        assert(s0[i].id@ == x);
                    }
                }
            }
        }
    }

    /// Move `amount` to an account that may not hold an entry yet: the
    /// receiver is registered as part of the same all-or-nothing step.
    pub fn transfer_register(&mut self, from: &String, to: &String, amount: u128) -> (r: Result<
        (),
        LedgerError,
    >)
        requires
            old(self).wf(),
        ensures
            final(self).wf(),
            final(self).spec_total_supply() == old(self).spec_total_supply(),
            match r {
                Ok(()) => old(self).can_transfer_register(from@, to@, amount) && spec_moved(
                    *old(self),
                    *final(self),
                    from@,
                    to@,
                    amount,
                ),
                Err(e) => {
                    &&& *final(self) == *old(self)
                    &&& !old(self).can_transfer_register(from@, to@, amount)
                    &&& e == old(self).transfer_register_error(from@, to@, amount)
                },
            },
    {
        if *from == *to {
            return Err(LedgerError::SelfTransfer);
        }
        if amount == 0 {
            return Err(LedgerError::ZeroAmount);
        }
        let fi = match self.find(from) {
            Some(i) => i,
            None => {
                return Err(LedgerError::NotRegistered);
            },
        };
        proof {
            self.lemma_entry_at(from@, fi as int);
        }
        if self.accounts[fi].balance < amount {
            return Err(LedgerError::InsufficientBalance);
        }
        let ghost pre = *self;
        self.register_account(to);
        let fi2 = match self.find(from) {
            Some(i) => i,
            None => {
                proof {
                    assert(false);
                }
                return Err(LedgerError::NotRegistered);
            },
        };
        let ti = match self.find(to) {
            Some(i) => i,
            None => {
                proof {
                    assert(false);
                }
                return Err(LedgerError::NotRegistered);
            },
        };
        proof {
            self.lemma_entry_at(from@, fi2 as int);
            self.lemma_entry_at(to@, ti as int);
        }
        self.move_between(fi2, ti, amount);
        Ok(())
    }
}

/// `amount` has moved from `from` to `to`: `to` holds an entry afterwards,
/// no other registration changed, the two balances shifted by `amount`, and
/// every other balance is kept.
pub open spec fn spec_moved(pre: Ledger, post: Ledger, from: Seq<char>, to: Seq<char>, amount: u128) -> bool {
    &&& post.wf()
    &&& post.spec_total_supply() == pre.spec_total_supply()
    &&& post.spec_registered(to)
    &&& forall|x: Seq<char>| x != to ==> post.spec_registered(x) == pre.spec_registered(x)
    &&& post.spec_balance_of(from) == pre.spec_balance_of(from) - amount
    &&& post.spec_balance_of(to) == pre.spec_balance_of(to) + amount
    &&& forall|x: Seq<char>|
        x != from && x != to ==> #[trigger] post.spec_balance_of(x) == pre.spec_balance_of(x)
}

/// The sum of entry balances is never negative.
proof fn lemma_sum_nonneg(s: Seq<AccountEntry>)
    ensures
        Ledger::spec_sum(s) >= 0,
    decreases s.len(),
{
    if s.len() > 0 {
        lemma_sum_nonneg(s.drop_last());
    }
}

/// Every entry's balance is bounded by the sum of all balances.
proof fn lemma_sum_elem(s: Seq<AccountEntry>, i: int)
    requires
        0 <= i < s.len(),
    ensures
        s[i].balance <= Ledger::spec_sum(s),
    decreases s.len(),
{
    if i == s.len() - 1 {
        lemma_sum_nonneg(s.drop_last());
    } else {
        lemma_sum_elem(s.drop_last(), i);
    }
}

/// Two distinct entries' balances are together bounded by the sum.
proof fn lemma_sum_pair(s: Seq<AccountEntry>, i: int, j: int)
    requires
        0 <= i < s.len(),
        0 <= j < s.len(),
        i != j,
    ensures
        s[i].balance + s[j].balance <= Ledger::spec_sum(s),
    decreases s.len(),
{
    if i == s.len() - 1 {
        lemma_sum_elem(s.drop_last(), j);
    } else if j == s.len() - 1 {
        lemma_sum_elem(s.drop_last(), i);
    } else {
        lemma_sum_pair(s.drop_last(), i, j);
    }
}

/// Replacing one entry shifts the sum by the difference in that entry.
proof fn lemma_sum_update(s: Seq<AccountEntry>, i: int, e: AccountEntry)
    requires
        0 <= i < s.len(),
    ensures
        Ledger::spec_sum(s.update(i, e)) == Ledger::spec_sum(s) - s[i].balance + e.balance,
    decreases s.len(),
{
    if i == s.len() - 1 {
        assert(s.update(i, e).drop_last() =~= s.drop_last());
    } else {
        lemma_sum_update(s.drop_last(), i, e);
        assert(s.update(i, e).drop_last() =~= s.drop_last().update(i, e));
    }
}

} // verus!

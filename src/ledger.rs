use vstd::prelude::*;

verus! {

/// The balance of `account` in the ledger model `m`: an absent account holds zero.
pub open spec fn balance(m: Map<Seq<char>, u128>, account: Seq<char>) -> int {
    if m.contains_key(account) {
        m[account] as int
    } else {
        0
    }
}

/// Per-account credit balances, one entry per account.
///
/// The accounts are kept in order of first credit; an entry that has been
/// debited down to zero stays present.
pub struct Balances {
    accounts: Vec<String>,
    amounts: Vec<u128>,
}

impl Balances {
    /// `j` is the position of `account` in the ledger.
    pub closed spec fn at(&self, account: Seq<char>, j: int) -> bool {
        0 <= j < self.accounts@.len() && self.accounts@[j]@ == account
    }

    closed spec fn position_of(&self, account: Seq<char>) -> int {
        choose|j: int| self.at(account, j)
    }

    /// The two columns line up and no account appears twice.
    pub closed spec fn wf(&self) -> bool {
        &&& self.accounts@.len() == self.amounts@.len()
        &&& forall|i: int, j: int|
            0 <= i < j < self.accounts@.len() ==> self.accounts@[i]@ != self.accounts@[j]@
    }

    proof fn lemma_position(&self, account: Seq<char>, j: int)
        requires
            self.wf(),
            self.at(account, j),
        ensures
            self.position_of(account) == j,
            self@.contains_key(account),
            self@[account] == self.amounts@[j],
    {
        let p = self.position_of(account);
        assert(self.at(account, p));
        if p < j {
            assert(self.accounts@[p]@ != self.accounts@[j]@);
        } else if j < p {
            assert(self.accounts@[j]@ != self.accounts@[p]@);
        }
    }

    /// An empty ledger.
    pub fn new() -> (r: Balances)
        ensures
            r.wf(),
            r@ == Map::<Seq<char>, u128>::empty(),
    {
        let r = Balances { accounts: Vec::new(), amounts: Vec::new() };
        assert(r@ =~= Map::<Seq<char>, u128>::empty());
        r
    }

    fn position(&self, account: &String) -> (r: Option<usize>)
        requires
            self.wf(),
        ensures
            match r {
                Some(j) => self.at(account@, j as int),
                None => !self@.contains_key(account@),
            },
    {
        let n = self.accounts.len();
        let mut j: usize = 0;
        while j < n
            invariant
                n == self.accounts@.len(),
                j <= n,
                forall|i: int| 0 <= i < j ==> self.accounts@[i]@ != account@,
            decreases n - j,
        {
            if self.accounts[j] == *account {
                return Some(j);
            }
            j = j + 1;
        }
        None
    }

    /// The recorded amount of `account`, or `None` where it has no entry.
    pub fn get(&self, account: &String) -> (r: Option<u128>)
        requires
            self.wf(),
        ensures
            r == (if self@.contains_key(account@) {
                Some(self@[account@])
            } else {
                None::<u128>
            }),
    {
        match self.position(account) {
            Some(j) => {
                proof {
                    self.lemma_position(account@, j as int);
                }
                Some(self.amounts[j])
            },
            None => None,
        }
    }

    /// The balance of `account`, zero where it has no entry.
    pub fn balance_of(&self, account: &String) -> (r: u128)
        requires
            self.wf(),
        ensures
            r == balance(self@, account@),
    {
        match self.get(account) {
            Some(a) => a,
            None => 0,
        }
    }

    /// Records `amount` as the balance of `account`, adding an entry where it has none.
    pub fn set(&mut self, account: String, amount: u128)
        requires
            old(self).wf(),
        ensures
            final(self).wf(),
            final(self)@ == old(self)@.insert(account@, amount),
    {
        match self.position(&account) {
            Some(j) => {
                proof {
                    old(self).lemma_position(account@, j as int);
                }
                self.amounts.set(j, amount);
                proof {
                    assert forall|k: Seq<char>| #[trigger] self@.contains_key(k) <==> old(self)@.insert(account@, amount).contains_key(k) by {
                        if self@.contains_key(k) {
                            let p = choose|p: int| self.at(k, p);
                            assert(old(self).at(k, p));
                        }
                        if old(self)@.contains_key(k) {
                            let p = choose|p: int| old(self).at(k, p);
                            assert(self.at(k, p));
                        }
                        if k == account@ {
                            assert(self.at(k, j as int));
                        }
                    }
                    assert forall|k: Seq<char>| #[trigger] self@.contains_key(k) implies self@[k] == old(self)@.insert(account@, amount)[k] by {
                        let p = choose|p: int| self.at(k, p);
                        self.lemma_position(k, p);
                        assert(old(self).at(k, p));
                        old(self).lemma_position(k, p);
                    }
                    assert(self@ =~= old(self)@.insert(account@, amount));
                }
            },
            None => {
                let ghost n = self.accounts@.len() as int;
                self.accounts.push(account);
                self.amounts.push(amount);
                proof {
                    assert forall|i: int, j: int|
                        0 <= i < j < self.accounts@.len() implies self.accounts@[i]@ != self.accounts@[j]@ by {
                        if j == n {
                            assert(old(self).at(self.accounts@[i]@, i));
                        } else {
                            assert(old(self).accounts@[i]@ != old(self).accounts@[j]@);
                        }
                    }
                    assert forall|k: Seq<char>| #[trigger] self@.contains_key(k) <==> old(self)@.insert(account@, amount).contains_key(k) by {
                        if self@.contains_key(k) {
                            let p = choose|p: int| self.at(k, p);
                            if p < n {
                                assert(old(self).at(k, p));
                            }
                        }
                        if old(self)@.contains_key(k) {
                            let p = choose|p: int| old(self).at(k, p);
                            assert(self.at(k, p));
                        }
                        if k == account@ {
                            assert(self.at(k, n));
                        }
                    }
                    assert forall|k: Seq<char>| #[trigger] self@.contains_key(k) implies self@[k] == old(self)@.insert(account@, amount)[k] by {
                        let p = choose|p: int| self.at(k, p);
                        self.lemma_position(k, p);
                        if p < n {
                            assert(old(self).at(k, p));
                            old(self).lemma_position(k, p);
                        }
                    }
                    assert(self@ =~= old(self)@.insert(account@, amount));
                }
            },
        }
    }

    /// Adds `amount` to the balance of `account`, creating its entry where it has none.
    pub fn credit(&mut self, account: &String, amount: u128)
        requires
            old(self).wf(),
            balance(old(self)@, account@) + amount <= u128::MAX,
        ensures
            final(self).wf(),
            final(self)@ == old(self)@.insert(account@, (balance(old(self)@, account@) + amount) as u128),
    {
        let current = self.balance_of(account);
        self.set(account.clone(), current + amount);
    }

    /// Takes `amount` off the recorded balance of `account`.
    pub fn debit(&mut self, account: &String, amount: u128)
        requires
            old(self).wf(),
            old(self)@.contains_key(account@),
            amount <= old(self)@[account@],
        ensures
            final(self).wf(),
            final(self)@ == old(self)@.insert(account@, (old(self)@[account@] - amount) as u128),
    {
        let current = self.balance_of(account);
        self.set(account.clone(), current - amount);
    }

    /// Every entry as an (account, amount) pair, in order of first credit.
    pub fn entries(&self) -> (r: Vec<(String, u128)>)
        requires
            self.wf(),
        ensures
            forall|i: int| 0 <= i < r@.len() ==> {
                &&& self@.contains_key((#[trigger] r@[i]).0@)
                &&& self@[r@[i].0@] == r@[i].1
            },
            forall|k: Seq<char>| self@.contains_key(k) ==> exists|i: int| 0 <= i < r@.len() && (#[trigger] r@[i]).0@ == k,
            forall|i: int, j: int| 0 <= i < j < r@.len() ==> r@[i].0@ != r@[j].0@,
    {
        let n = self.accounts.len();
        let mut r: Vec<(String, u128)> = Vec::new();
        let mut j: usize = 0;
        while j < n
            invariant
                self.wf(),
                n == self.accounts@.len(),
                j <= n,
                r@.len() == j,
                forall|i: int| 0 <= i < j ==> (#[trigger] r@[i]).0@ == self.accounts@[i]@ && r@[i].1 == self.amounts@[i],
            decreases n - j,
        {
            r.push((self.accounts[j].clone(), self.amounts[j]));
            j = j + 1;
        }
        proof {
            assert forall|i: int| 0 <= i < r@.len() implies {
                &&& self@.contains_key((#[trigger] r@[i]).0@)
                &&& self@[r@[i].0@] == r@[i].1
            } by {
                self.lemma_position(r@[i].0@, i);
            }
            assert forall|k: Seq<char>| self@.contains_key(k) implies exists|i: int| 0 <= i < r@.len() && (#[trigger] r@[i]).0@ == k by {
                let p = choose|p: int| self.at(k, p);
                assert(r@[p].0@ == k);
            }
        }
        r
    }
}

impl View for Balances {
    type V = Map<Seq<char>, u128>;

    closed spec fn view(&self) -> Map<Seq<char>, u128> {
        Map::new(
            |k: Seq<char>| exists|j: int| self.at(k, j),
            |k: Seq<char>| self.amounts@[self.position_of(k)],
        )
    }
}

} // verus!

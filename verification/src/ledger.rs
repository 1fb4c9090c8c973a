//! The contribution ledger: what each account has deposited and may still
//! claim back.
//!
//! A ledger is modelled as the sequence of its entries, `(account, amount)`,
//! in the order in which the accounts first appeared. No account occurs twice
//! and no amount is negative.

use vstd::prelude::*;

verus! {

/// No account occurs twice and no amount is negative.
pub open spec fn well_formed(entries: Seq<(Seq<char>, int)>) -> bool {
    &&& forall|i: int, j: int|
        0 <= i < j < entries.len() ==> (#[trigger] entries[i]).0 != (#[trigger] entries[j]).0
    &&& forall|i: int| 0 <= i < entries.len() ==> (#[trigger] entries[i]).1 >= 0
}

/// Where the entry of an account stands, if it has one.
pub open spec fn position(entries: Seq<(Seq<char>, int)>, account: Seq<char>) -> Option<int> {
    if exists|i: int| 0 <= i < entries.len() && (#[trigger] entries[i]).0 == account {
        Some(choose|i: int| 0 <= i < entries.len() && (#[trigger] entries[i]).0 == account)
    } else {
        None
    }
}

/// What an account has on the ledger: its entry, or nothing.
pub open spec fn balance_of(entries: Seq<(Seq<char>, int)>, account: Seq<char>) -> int {
    match position(entries, account) {
        Some(i) => entries[i].1,
        None => 0,
    }
}

/// The sum of all entries.
pub open spec fn total(entries: Seq<(Seq<char>, int)>) -> int
    decreases entries.len(),
{
    if entries.len() == 0 {
        0
    } else {
        total(entries.drop_last()) + entries.last().1
    }
}

/// The ledger after `amount` was added to the entry of `account`; an account
/// without an entry gets one at the end.
pub open spec fn credited(entries: Seq<(Seq<char>, int)>, account: Seq<char>, amount: int) -> Seq<
    (Seq<char>, int),
> {
    match position(entries, account) {
        Some(i) => entries.update(i, (account, entries[i].1 + amount)),
        None => entries.push((account, amount)),
    }
}

/// The ledger after the entry of `account` was set to zero.
pub open spec fn cleared(entries: Seq<(Seq<char>, int)>, account: Seq<char>) -> Seq<
    (Seq<char>, int),
> {
    match position(entries, account) {
        Some(i) => entries.update(i, (account, 0int)),
        None => entries,
    }
}

/// In a ledger without repeated accounts, an entry that names the account is
/// the entry of the account.
pub proof fn lemma_position_found(entries: Seq<(Seq<char>, int)>, account: Seq<char>, i: int)
    requires
        well_formed(entries),
        0 <= i < entries.len(),
        entries[i].0 == account,
    ensures
        position(entries, account) == Some(i),
        balance_of(entries, account) == entries[i].1,
{
}

/// An account that no entry names has no position and a balance of zero.
pub proof fn lemma_position_absent(entries: Seq<(Seq<char>, int)>, account: Seq<char>)
    requires
        forall|i: int| 0 <= i < entries.len() ==> (#[trigger] entries[i]).0 != account,
    ensures
        position(entries, account) is None,
        balance_of(entries, account) == 0,
{
}

/// Appending an entry adds its amount to the total.
pub proof fn lemma_total_push(entries: Seq<(Seq<char>, int)>, entry: (Seq<char>, int))
    ensures
        total(entries.push(entry)) == total(entries) + entry.1,
{
    assert(entries.push(entry).drop_last() =~= entries);
}

/// Replacing an entry changes the total by the difference of the amounts.
pub proof fn lemma_total_update(entries: Seq<(Seq<char>, int)>, i: int, entry: (Seq<char>, int))
    requires
        0 <= i < entries.len(),
    ensures
        total(entries.update(i, entry)) == total(entries) - entries[i].1 + entry.1,
    decreases entries.len(),
{
    let updated = entries.update(i, entry);
    if i == entries.len() - 1 {
        assert(updated.drop_last() =~= entries.drop_last());
    } else {
        assert(updated.drop_last() =~= entries.drop_last().update(i, entry));
        lemma_total_update(entries.drop_last(), i, entry);
    }
}

/// Where no amount is negative, no entry exceeds the total.
pub proof fn lemma_total_bounds(entries: Seq<(Seq<char>, int)>, i: int)
    requires
        forall|k: int| 0 <= k < entries.len() ==> (#[trigger] entries[k]).1 >= 0,
    ensures
        total(entries) >= 0,
        0 <= i < entries.len() ==> entries[i].1 <= total(entries),
    decreases entries.len(),
{
    if entries.len() > 0 {
        let front = entries.drop_last();
        assert forall|k: int| 0 <= k < front.len() implies (#[trigger] front[k]).1 >= 0 by {
            assert(front[k] == entries[k]);
        }
        lemma_total_bounds(front, i);
        if 0 <= i < front.len() {
            assert(front[i] == entries[i]);
        }
    }
}

/// The balance of an account is between zero and the total.
pub proof fn lemma_balance_bounds(entries: Seq<(Seq<char>, int)>, account: Seq<char>)
    requires
        well_formed(entries),
    ensures
        0 <= balance_of(entries, account) <= total(entries),
{
    match position(entries, account) {
        Some(i) => lemma_total_bounds(entries, i),
        None => lemma_total_bounds(entries, 0),
    }
}

/// What crediting an account does: the ledger stays well formed, the total
/// grows by the amount, the account's balance grows by the amount, and every
/// other balance stays.
pub proof fn lemma_credited(entries: Seq<(Seq<char>, int)>, account: Seq<char>, amount: int)
    requires
        well_formed(entries),
        amount >= 0,
    ensures
        well_formed(credited(entries, account, amount)),
        total(credited(entries, account, amount)) == total(entries) + amount,
        balance_of(credited(entries, account, amount), account) == balance_of(entries, account)
            + amount,
        forall|other: Seq<char>|
            other != account ==> #[trigger] balance_of(credited(entries, account, amount), other)
                == balance_of(entries, other),
{
    let after = credited(entries, account, amount);
    match position(entries, account) {
        Some(i) => {
            lemma_total_update(entries, i, (account, entries[i].1 + amount));
            lemma_position_found(after, account, i);
            assert forall|other: Seq<char>| other != account implies #[trigger] balance_of(
                after,
                other,
            ) == balance_of(entries, other) by {
                lemma_update_keeps_others(entries, i, entries[i].1 + amount, other);
            }
        },
        None => {
            lemma_total_push(entries, (account, amount));
            lemma_position_found(after, account, entries.len() as int);
            assert forall|other: Seq<char>| other != account implies #[trigger] balance_of(
                after,
                other,
            ) == balance_of(entries, other) by {
                lemma_push_keeps_others(entries, (account, amount), other);
            }
        },
    }
}

/// What clearing an account does: the ledger stays well formed, the total
/// shrinks by the account's balance, the account's balance is zero, and every
/// other balance stays.
pub proof fn lemma_cleared(entries: Seq<(Seq<char>, int)>, account: Seq<char>)
    requires
        well_formed(entries),
    ensures
        well_formed(cleared(entries, account)),
        total(cleared(entries, account)) == total(entries) - balance_of(entries, account),
        balance_of(cleared(entries, account), account) == 0,
        forall|other: Seq<char>|
            other != account ==> #[trigger] balance_of(cleared(entries, account), other)
                == balance_of(entries, other),
{
    let after = cleared(entries, account);
    match position(entries, account) {
        Some(i) => {
            lemma_total_update(entries, i, (account, 0int));
            lemma_position_found(after, account, i);
            assert forall|other: Seq<char>| other != account implies #[trigger] balance_of(
                after,
                other,
            ) == balance_of(entries, other) by {
                lemma_update_keeps_others(entries, i, 0, other);
            }
        },
        None => {},
    }
}

/// One line of a ledger.
#[derive(Debug)]
pub struct Entry {
    pub account: String,
    pub amount: i128,
}

impl View for Entry {
    type V = (Seq<char>, int);

    open spec fn view(&self) -> (Seq<char>, int) {
        (self.account@, self.amount as int)
    }
}

impl Clone for Entry {
    fn clone(&self) -> (copy: Self)
        ensures
            copy@ == self@,
    {
        Entry { account: self.account.clone(), amount: self.amount }
    }
}

/// What a sequence of entries holds.
pub open spec fn entries_view(entries: Seq<Entry>) -> Seq<(Seq<char>, int)> {
    entries.map_values(|e: Entry| e@)
}

/// A ledger of deposits by account.
#[derive(Debug)]
pub struct Ledger {
    entries: Vec<Entry>,
}

impl View for Ledger {
    type V = Seq<(Seq<char>, int)>;

    closed spec fn view(&self) -> Seq<(Seq<char>, int)> {
        entries_view(self.entries@)
    }
}

impl Ledger {
    /// The invariant of a ledger: no account twice, no negative amount.
    pub open spec fn wf(&self) -> bool {
        well_formed(self@)
    }

    /// A ledger without entries.
    pub fn new() -> (ledger: Ledger)
        ensures
            ledger@ == Seq::<(Seq<char>, int)>::empty(),
            ledger.wf(),
    {
        let ledger = Ledger { entries: Vec::new() };
        assert(ledger@ =~= Seq::<(Seq<char>, int)>::empty());
        ledger
    }

    /// A ledger with the given entries, if they form one: `None` where an
    /// account occurs twice or an amount is negative.
    pub fn from_entries(entries: Vec<Entry>) -> (ledger: Option<Ledger>)
        ensures
            ledger is Some <==> well_formed(entries_view(entries@)),
            ledger matches Some(l) ==> l@ == entries_view(entries@),
    {
        let ghost model = entries_view(entries@);
        let mut i: usize = 0;
        while i < entries.len()
            invariant
                i <= entries.len(),
                model == entries_view(entries@),
                well_formed(model.take(i as int)),
            decreases entries.len() - i,
        {
            if entries[i].amount < 0 {
                assert(model[i as int].1 < 0);
                return None;
            }
            let mut j: usize = 0;
            while j < i
                invariant
                    j <= i < entries.len(),
                    model == entries_view(entries@),
                    forall|k: int| 0 <= k < j ==> (#[trigger] model[k]).0 != model[i as int].0,
                decreases i - j,
            {
                if entries[j].account == entries[i].account {
                    assert(model[j as int].0 == model[i as int].0);
                    return None;
                }
                j += 1;
            }
            proof {
                let next = model.take(i + 1);
                assert forall|a: int, b: int| 0 <= a < b < next.len() implies (#[trigger] next[a]).0
                    != (#[trigger] next[b]).0 by {
                    if b < i {
                        assert(model.take(i as int)[a] == next[a]);
                        assert(model.take(i as int)[b] == next[b]);
                    }
                }
                assert forall|a: int| 0 <= a < next.len() implies (#[trigger] next[a]).1 >= 0 by {
                    if a < i {
                        assert(model.take(i as int)[a] == next[a]);
                    }
                }
            }
            i += 1;
        }
        assert(model.take(i as int) =~= model);
        Some(Ledger { entries })
    }

    /// The number of entries.
    pub fn len(&self) -> (n: usize)
        ensures
            n == self@.len(),
    {
        self.entries.len()
    }

    /// The entries, in the order in which their accounts first appeared.
    pub fn entries(&self) -> (entries: &Vec<Entry>)
        ensures
            entries_view(entries@) == self@,
    {
        &self.entries
    }

    /// Where the entry of `account` stands.
    pub fn find(&self, account: &String) -> (at: Option<usize>)
        requires
            self.wf(),
        ensures
            at matches Some(i) ==> position(self@, account@) == Some(i as int),
            at is None ==> position(self@, account@) is None,
    {
        let mut i: usize = 0;
        while i < self.entries.len()
            invariant
                i <= self.entries.len(),
                self@.len() == self.entries.len(),
                self.wf(),
                forall|k: int| 0 <= k < i ==> (#[trigger] self@[k]).0 != account@,
            decreases self.entries.len() - i,
        {
            if self.entries[i].account == *account {
                proof {
                    lemma_position_found(self@, account@, i as int);
                }
                return Some(i);
            }
            i += 1;
        }
        proof {
            lemma_position_absent(self@, account@);
        }
        None
    }

    /// What `account` has on the ledger; zero for an account without an entry.
    pub fn get(&self, account: &String) -> (amount: i128)
        requires
            self.wf(),
        ensures
            amount == balance_of(self@, account@),
            amount >= 0,
    {
        match self.find(account) {
            Some(i) => self.entries[i].amount,
            None => 0,
        }
    }

    /// Adds `amount` to what `account` has. Nothing is done, and `false` is
    /// returned, where the amount is negative or the entry would leave the
    /// range of `i128`.
    pub fn credit(&mut self, account: &String, amount: i128) -> (done: bool)
        requires
            old(self).wf(),
        ensures
            done <==> amount >= 0 && balance_of(old(self)@, account@) + amount <= i128::MAX,
            done ==> final(self)@ == credited(old(self)@, account@, amount as int),
            !done ==> final(self)@ == old(self)@,
            final(self).wf(),
    {
        if amount < 0 {
            return false;
        }
        proof {
            lemma_credited(self@, account@, amount as int);
        }
        match self.find(account) {
            Some(i) => {
                let held = self.entries[i].amount;
                if amount > i128::MAX - held {
                    return false;
                }
                self.entries[i].amount = held + amount;
                assert(self@ =~= credited(old(self)@, account@, amount as int));
                true
            },
            None => {
                self.entries.push(Entry { account: account.clone(), amount });
                assert(self@ =~= credited(old(self)@, account@, amount as int));
                true
            },
        }
    }

    /// Sets what `account` has to zero and returns what it had.
    pub fn clear(&mut self, account: &String) -> (held: i128)
        requires
            old(self).wf(),
        ensures
            held == balance_of(old(self)@, account@),
            final(self)@ == cleared(old(self)@, account@),
            final(self).wf(),
    {
        proof {
            lemma_cleared(self@, account@);
        }
        match self.find(account) {
            Some(i) => {
                let held = self.entries[i].amount;
                self.entries[i].amount = 0;
                assert(self@ =~= cleared(old(self)@, account@));
                held
            },
            None => 0,
        }
    }

    /// The sum of all entries, or `None` where it exceeds `i128`.
    pub fn sum(&self) -> (sum: Option<i128>)
        requires
            self.wf(),
        ensures
            sum matches Some(t) ==> t == total(self@),
            sum is None ==> total(self@) > i128::MAX,
    {
        let mut acc: i128 = 0;
        let mut i: usize = 0;
        while i < self.entries.len()
            invariant
                i <= self.entries.len(),
                self@.len() == self.entries.len(),
                self.wf(),
                acc == total(self@.take(i as int)),
                acc >= 0,
            decreases self.entries.len() - i,
        {
            let amount = self.entries[i].amount;
            proof {
                assert(self@.take(i + 1) =~= self@.take(i as int).push(self@[i as int]));
                lemma_total_push(self@.take(i as int), self@[i as int]);
                assert(self@[i as int].1 == amount);
            }
            if amount > i128::MAX - acc {
                proof {
                    lemma_total_prefix(self@, i + 1);
                }
                return None;
            }
            acc = acc + amount;
            i += 1;
        }
        assert(self@.take(i as int) =~= self@);
        Some(acc)
    }
}

impl Clone for Ledger {
    fn clone(&self) -> (copy: Self)
        ensures
            copy@ == self@,
    {
        let mut entries: Vec<Entry> = Vec::new();
        let mut i: usize = 0;
        while i < self.entries.len()
            invariant
                i <= self.entries.len(),
                entries@.len() == i,
                forall|k: int| 0 <= k < i ==> (#[trigger] entries@[k])@ == self.entries@[k]@,
            decreases self.entries.len() - i,
        {
            entries.push(self.entries[i].clone());
            i += 1;
        }
        let copy = Ledger { entries };
        assert(copy@ =~= self@);
        copy
    }
}

/// Where no amount is negative, the entries up to a point sum to no more than
/// all of them.
proof fn lemma_total_prefix(entries: Seq<(Seq<char>, int)>, n: int)
    requires
        forall|k: int| 0 <= k < entries.len() ==> (#[trigger] entries[k]).1 >= 0,
        0 <= n <= entries.len(),
    ensures
        total(entries.take(n)) <= total(entries),
    decreases entries.len() - n,
{
    if n < entries.len() {
        assert(entries.take(n + 1) =~= entries.take(n).push(entries[n]));
        lemma_total_push(entries.take(n), entries[n]);
        lemma_total_prefix(entries, n + 1);
    } else {
        assert(entries.take(n) =~= entries);
    }
}

proof fn lemma_update_keeps_others(
    entries: Seq<(Seq<char>, int)>,
    i: int,
    amount: int,
    other: Seq<char>,
)
    requires
        well_formed(entries),
        0 <= i < entries.len(),
        other != entries[i].0,
    ensures
        balance_of(entries.update(i, (entries[i].0, amount)), other) == balance_of(entries, other),
{
    let after = entries.update(i, (entries[i].0, amount));
    assert forall|a: int, b: int| 0 <= a < b < after.len() implies (#[trigger] after[a]).0 != (
    #[trigger] after[b]).0 by {
        assert(after[a].0 == entries[a].0);
        assert(after[b].0 == entries[b].0);
    }
    match position(entries, other) {
        Some(k) => {
            assert(after[k] == entries[k]);
            assert(exists|j: int| 0 <= j < after.len() && (#[trigger] after[j]).0 == other);
            let k2 = position(after, other).unwrap();
            assert(after[k2].0 == entries[k2].0);
            assert(k2 == k) by {
                if k2 < k {
                    assert(entries[k2].0 != entries[k].0);
                } else if k < k2 {
                    assert(entries[k].0 != entries[k2].0);
                }
            }
        },
        None => {
            assert forall|j: int| 0 <= j < after.len() implies (#[trigger] after[j]).0 != other by {
                assert(after[j].0 == entries[j].0);
            }
        },
    }
}

proof fn lemma_push_keeps_others(
    entries: Seq<(Seq<char>, int)>,
    entry: (Seq<char>, int),
    other: Seq<char>,
)
    requires
        well_formed(entries),
        other != entry.0,
    ensures
        balance_of(entries.push(entry), other) == balance_of(entries, other),
{
    let after = entries.push(entry);
    match position(entries, other) {
        Some(k) => {
            assert(after[k] == entries[k]);
            assert(exists|j: int| 0 <= j < after.len() && (#[trigger] after[j]).0 == other);
            let k2 = position(after, other).unwrap();
            assert(k2 < entries.len());
            assert(after[k2] == entries[k2]);
            assert(k2 == k) by {
                if k2 < k {
                    assert(entries[k2].0 != entries[k].0);
                } else if k < k2 {
                    assert(entries[k].0 != entries[k2].0);
                }
            }
        },
        None => {
            assert forall|j: int| 0 <= j < after.len() implies (#[trigger] after[j]).0 != other by {
                if j < entries.len() {
                    assert(after[j] == entries[j]);
                }
            }
        },
    }
}

} // verus!

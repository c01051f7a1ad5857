//! Royalty tables: accounts with their shares in basis points.

use vstd::prelude::*;
use vstd::string::*;
use crate::account::{account_id_valid, is_valid_account_id};
use crate::error::Error;

verus! {

/// 100 percent in basis points.
pub const FULL_BPS: u32 = 10_000;

/// The most that the royalties of a series may sum to, in basis points.
pub const MAX_ROYALTY_BPS: u32 = 9_000;

/// The most accounts in the royalty table of a series.
pub const MAX_ROYALTY_ACCOUNTS: usize = 10;

/// The most accounts in the purchase-time royalty table of a series.
pub const MAX_ROYALTY_BUY_ACCOUNTS: usize = 5;

/// The model of a royalty table: its entries in order, each an account and
/// its basis points.
pub type RoyaltyView = Seq<(Seq<char>, u32)>;

/// No account occurs twice in the table.
pub open spec fn distinct_accounts(t: RoyaltyView) -> bool {
    forall|i: int, j: int| 0 <= i < j < t.len() ==> (#[trigger] t[i]).0 != (#[trigger] t[j]).0
}

/// The sum of the basis points of the table.
pub open spec fn total_bps(t: RoyaltyView) -> nat
    decreases t.len(),
{
    if t.len() == 0 {
        0
    } else {
        total_bps(t.drop_last()) + t.last().1 as nat
    }
}

/// The position of `account` in the table, or its length where the table
/// does not hold the account.
pub open spec fn position_of(t: RoyaltyView, account: Seq<char>) -> int
    decreases t.len(),
{
    if t.len() == 0 {
        0
    } else if t[0].0 == account {
        0
    } else {
        1 + position_of(t.drop_first(), account)
    }
}

/// Whether the table holds `account`.
pub open spec fn has_account(t: RoyaltyView, account: Seq<char>) -> bool {
    exists|i: int| 0 <= i < t.len() && (#[trigger] t[i]).0 == account
}

/// The table after `account` was given `bps`: its entry replaced where it
/// had one, a new entry at the end where it had none.
pub open spec fn with_entry(t: RoyaltyView, account: Seq<char>, bps: u32) -> RoyaltyView {
    let p = position_of(t, account);
    if p < t.len() {
        t.update(p, (account, bps))
    } else {
        t.push((account, bps))
    }
}

/// The first fault among the entries: a malformed account, or the account
/// that must stay out of the table. Both are looked for entry by entry.
pub open spec fn entries_fault(t: RoyaltyView, excluded: Option<Seq<char>>) -> Option<Error>
    decreases t.len(),
{
    if t.len() == 0 {
        None
    } else if !account_id_valid(t[0].0) {
        Some(Error::InvalidRoyaltyAccount)
    } else if excluded == Some(t[0].0) {
        Some(Error::CreatorInSplitList)
    } else {
        entries_fault(t.drop_first(), excluded)
    }
}

/// Why a royalty table is refused, if it is: a faulty entry, more than ten
/// accounts, or more than 9000 basis points, looked for in this order.
pub open spec fn royalty_fault(t: RoyaltyView) -> Option<Error> {
    if entries_fault(t, None) is Some {
        entries_fault(t, None)
    } else if t.len() > MAX_ROYALTY_ACCOUNTS {
        Some(Error::TooManyRoyaltyAccounts)
    } else if total_bps(t) > MAX_ROYALTY_BPS {
        Some(Error::RoyaltyExceedsCap)
    } else {
        None
    }
}

/// Why a purchase-time royalty table is refused, if it is: a faulty entry
/// (the creator's among them), more than five accounts, or more basis
/// points than 9000 less the vault fee, looked for in this order.
pub open spec fn royalty_buy_fault(t: RoyaltyView, creator: Seq<char>, vault_fee: u32) -> Option<Error>
    recommends
        vault_fee <= MAX_ROYALTY_BPS,
{
    if entries_fault(t, Some(creator)) is Some {
        entries_fault(t, Some(creator))
    } else if t.len() > MAX_ROYALTY_BUY_ACCOUNTS {
        Some(Error::TooManyRoyaltyBuyAccounts)
    } else if total_bps(t) > MAX_ROYALTY_BPS - vault_fee {
        Some(Error::RoyaltyBuyExceedsCap { max: (MAX_ROYALTY_BPS - vault_fee) as u32 })
    } else {
        None
    }
}

/// The verdict on a table as the result of a check.
pub open spec fn as_result(fault: Option<Error>) -> Result<(), Error> {
    match fault {
        Some(e) => Err(e),
        None => Ok(()),
    }
}

/// What `position_of` returns: the first position of the account, or the length.
pub proof fn lemma_position_of(t: RoyaltyView, account: Seq<char>)
    ensures
        0 <= position_of(t, account) <= t.len(),
        position_of(t, account) < t.len() ==> t[position_of(t, account)].0 == account,
        forall|i: int| 0 <= i < position_of(t, account) ==> (#[trigger] t[i]).0 != account,
        has_account(t, account) <==> position_of(t, account) < t.len(),
    decreases t.len(),
{
    if t.len() == 0 {
    } else if t[0].0 == account {
    } else {
        let rest = t.drop_first();
        lemma_position_of(rest, account);
        let p = position_of(t, account);
        assert forall|i: int| 0 <= i < p implies (#[trigger] t[i]).0 != account by {
            if i > 0 {
                assert(t[i] == rest[i - 1]);
            }
        }
        if p < t.len() {
            assert(t[p] == rest[p - 1]);
        }
        if has_account(t, account) {
            let i = choose|i: int| 0 <= i < t.len() && (#[trigger] t[i]).0 == account;
            assert(rest[i - 1] == t[i]);
            assert(has_account(rest, account));
        }
    }
}

/// Adding an entry for an account keeps the accounts of a table distinct.
pub proof fn lemma_with_entry_distinct(t: RoyaltyView, account: Seq<char>, bps: u32)
    requires
        distinct_accounts(t),
    ensures
        distinct_accounts(with_entry(t, account, bps)),
        has_account(with_entry(t, account, bps), account),
{
    lemma_position_of(t, account);
    let p = position_of(t, account);
    let u = with_entry(t, account, bps);
    if p < t.len() {
        assert(u[p].0 == account);
        assert forall|i: int, j: int| 0 <= i < j < u.len() implies (#[trigger] u[i]).0 != (#[trigger] u[j]).0 by {
            assert(u[i].0 == t[i].0);
            assert(u[j].0 == t[j].0);
        }
    } else {
        assert(u[t.len() as int].0 == account);
        assert forall|i: int, j: int| 0 <= i < j < u.len() implies (#[trigger] u[i]).0 != (#[trigger] u[j]).0 by {
            if j < t.len() {
                assert(u[i] == t[i]);
                assert(u[j] == t[j]);
            } else {
                assert(u[i] == t[i]);
            }
        }
    }
}

/// In a table without a faulty entry every account is well formed and none
/// is the excluded one.
pub proof fn lemma_entries_without_fault(t: RoyaltyView, excluded: Option<Seq<char>>)
    requires
        entries_fault(t, excluded) is None,
    ensures
        forall|i: int| 0 <= i < t.len() ==> account_id_valid((#[trigger] t[i]).0),
        forall|i: int| 0 <= i < t.len() ==> excluded != Some((#[trigger] t[i]).0),
    decreases t.len(),
{
    if t.len() > 0 {
        let rest = t.drop_first();
        lemma_entries_without_fault(rest, excluded);
        assert forall|i: int| 0 <= i < t.len() implies account_id_valid((#[trigger] t[i]).0) && excluded
            != Some(t[i].0) by {
            if i > 0 {
                assert(t[i] == rest[i - 1]);
            }
        }
    }
}

/// One entry of a royalty table.
#[derive(Clone, Debug, PartialEq, Eq)]
pub struct RoyaltyEntry {
    pub account_id: String,
    pub bps: u32,
}

/// A royalty table: each account at most once, in the order in which the
/// accounts were first given.
#[derive(Debug, PartialEq, Eq)]
pub struct RoyaltyTable {
    entries: Vec<RoyaltyEntry>,
}

impl View for RoyaltyTable {
    type V = RoyaltyView;

    closed spec fn view(&self) -> RoyaltyView {
        Seq::new(self.entries@.len(), |i: int| (self.entries@[i].account_id@, self.entries@[i].bps))
    }
}

impl Clone for RoyaltyTable {
    fn clone(&self) -> (r: Self)
        ensures
            r@ == self@,
            r.well_formed() == self.well_formed(),
    {
        let mut entries: Vec<RoyaltyEntry> = Vec::new();
        let mut i: usize = 0;
        while i < self.entries.len()
            invariant
                i <= self.entries.len(),
                entries@.len() == i,
                forall|j: int| 0 <= j < i ==> (#[trigger] entries@[j]).account_id@ == self.entries@[j].account_id@
                    && entries@[j].bps == self.entries@[j].bps,
            decreases self.entries.len() - i,
        {
            entries.push(RoyaltyEntry { account_id: self.entries[i].account_id.clone(), bps: self.entries[i].bps });
            i = i + 1;
        }
        let r = RoyaltyTable { entries };
        assert(r@ =~= self@);
        r
    }
}

impl RoyaltyTable {
    /// The invariant of the type: no account occurs twice.
    pub open spec fn well_formed(&self) -> bool {
        distinct_accounts(self@)
    }

    /// Whether the invariant of the type holds.
    pub fn is_well_formed(&self) -> (b: bool)
        ensures
            b == self.well_formed(),
    {
        let ghost t = self@;
        let mut j: usize = 0;
        while j < self.entries.len()
            invariant
                j <= self.entries.len(),
                t == self@,
                forall|a: int, b: int| 0 <= a < b < j ==> (#[trigger] t[a]).0 != (#[trigger] t[b]).0,
            decreases self.entries.len() - j,
        {
            let mut i: usize = 0;
            while i < j
                invariant
                    i <= j < self.entries.len(),
                    t == self@,
                    forall|a: int| 0 <= a < i ==> (#[trigger] t[a]).0 != t[j as int].0,
                decreases j - i,
            {
                if self.entries[i].account_id == self.entries[j].account_id {
                    assert(t[i as int].0 == t[j as int].0);
                    return false;
                }
                i = i + 1;
            }
            j = j + 1;
        }
        true
    }

    /// A table without entries.
    pub fn new() -> (t: Self)
        ensures
            t@ == Seq::<(Seq<char>, u32)>::empty(),
            t.well_formed(),
    {
        let t = RoyaltyTable { entries: Vec::new() };
        assert(t@ =~= Seq::<(Seq<char>, u32)>::empty());
        t
    }

    /// The number of accounts.
    pub fn len(&self) -> (n: usize)
        ensures
            n == self@.len(),
    {
        self.entries.len()
    }

    /// The account of entry `i`.
    pub fn account_at(&self, i: usize) -> (a: &String)
        requires
            i < self@.len(),
        ensures
            a@ == self@[i as int].0,
    {
        &self.entries[i].account_id
    }

    /// The basis points of entry `i`.
    pub fn bps_at(&self, i: usize) -> (b: u32)
        requires
            i < self@.len(),
        ensures
            b == self@[i as int].1,
    {
        self.entries[i].bps
    }

    /// The position of `account`, if the table holds it.
    pub fn find(&self, account: &String) -> (r: Option<usize>)
        ensures
            match r {
                Some(i) => i == position_of(self@, account@) && i < self@.len(),
                None => position_of(self@, account@) == self@.len(),
            },
    {
        let mut i: usize = 0;
        while i < self.entries.len()
            invariant
                i <= self.entries.len(),
                forall|j: int| 0 <= j < i ==> (#[trigger] self@[j]).0 != account@,
            decreases self.entries.len() - i,
        {
            if self.entries[i].account_id == *account {
                proof {
                    lemma_position_of(self@, account@);
                    assert(self@[i as int].0 == account@);
                }
                return Some(i);
            }
            i = i + 1;
        }
        proof {
            lemma_position_of(self@, account@);
        }
        None
    }

    /// The basis points of `account`, if the table holds it.
    pub fn get(&self, account: &String) -> (r: Option<u32>)
        ensures
            has_account(self@, account@) ==> r == Some(self@[position_of(self@, account@)].1),
            !has_account(self@, account@) ==> r is None,
    {
        proof {
            lemma_position_of(self@, account@);
        }
        match self.find(account) {
            Some(i) => Some(self.entries[i].bps),
            None => None,
        }
    }

    /// Gives `account` the share `bps`, and returns the share that it had before.
    pub fn insert(&mut self, account: String, bps: u32) -> (r: Option<u32>)
        requires
            old(self).well_formed(),
        ensures
            final(self)@ == with_entry(old(self)@, account@, bps),
            final(self).well_formed(),
            has_account(old(self)@, account@) ==> r == Some(old(self)@[position_of(old(self)@, account@)].1),
            !has_account(old(self)@, account@) ==> r is None,
    {
        proof {
            lemma_position_of(self@, account@);
            lemma_with_entry_distinct(self@, account@, bps);
        }
        match self.find(&account) {
            Some(i) => {
                let before = self.entries[i].bps;
                self.entries.set(i, RoyaltyEntry { account_id: account, bps });
                assert(self@ =~= with_entry(old(self)@, account@, bps));
                Some(before)
            },
            None => {
                self.entries.push(RoyaltyEntry { account_id: account, bps });
                assert(self@ =~= with_entry(old(self)@, account@, bps));
                None
            },
        }
    }

    /// The sum of the basis points of all entries.
    pub fn total(&self) -> (sum: u128)
        ensures
            sum == total_bps(self@),
    {
        let mut sum: u128 = 0;
        let mut i: usize = 0;
        while i < self.entries.len()
            invariant
                i <= self.entries.len(),
                sum == total_bps(self@.take(i as int)),
                sum <= i * 0xffff_ffff,
            decreases self.entries.len() - i,
        {
            proof {
                assert(self@.take(i + 1).drop_last() =~= self@.take(i as int));
                assert(i * 0xffff_ffff + 0xffff_ffff == (i + 1) * 0xffff_ffff) by (nonlinear_arith);
                assert(i * 0xffff_ffff <= usize::MAX * 0xffff_ffff) by (nonlinear_arith)
                    requires
                        i <= usize::MAX,
                ;
            }
            sum = sum + self.entries[i].bps as u128;
            i = i + 1;
        }
        assert(self@.take(i as int) =~= self@);
        sum
    }

    /// Looks for the first faulty entry: a malformed account, or `excluded`.
    pub fn check_entries(&self, excluded: Option<&String>) -> (r: Result<(), Error>)
        ensures
            r == as_result(
                entries_fault(
                    self@,
                    match excluded {
                        Some(a) => Some(a@),
                        None => None,
                    },
                ),
            ),
    {
        let ghost ex: Option<Seq<char>> = match excluded {
            Some(a) => Some(a@),
            None => None,
        };
        let mut i: usize = 0;
        assert(self@.skip(0) =~= self@);
        while i < self.entries.len()
            invariant
                i <= self.entries.len(),
                ex == (match excluded {
                    Some(a) => Some(a@),
                    None => None,
                }),
                entries_fault(self@, ex) == entries_fault(self@.skip(i as int), ex),
            decreases self.entries.len() - i,
        {
            let ghost rest = self@.skip(i as int);
            assert(rest[0] == self@[i as int]);
            assert(rest.drop_first() =~= self@.skip(i + 1));
            if !is_valid_account_id(&self.entries[i].account_id) {
                return Err(Error::InvalidRoyaltyAccount);
            }
            match excluded {
                Some(a) => {
                    if self.entries[i].account_id == *a {
                        return Err(Error::CreatorInSplitList);
                    }
                },
                None => {},
            }
            i = i + 1;
        }
        Ok(())
    }

    /// Checks the table as the royalty table of a series.
    pub fn check_royalty(&self) -> (r: Result<(), Error>)
        ensures
            r == as_result(royalty_fault(self@)),
    {
        match self.check_entries(None) {
            Err(e) => {
                return Err(e);
            },
            Ok(_) => {},
        }
        if self.entries.len() > MAX_ROYALTY_ACCOUNTS {
            return Err(Error::TooManyRoyaltyAccounts);
        }
        if self.total() > MAX_ROYALTY_BPS as u128 {
            return Err(Error::RoyaltyExceedsCap);
        }
        Ok(())
    }

    /// Checks the table as the purchase-time royalty table of a series of
    /// `creator`, under the given vault fee.
    pub fn check_royalty_buy(&self, creator: &String, vault_fee: u32) -> (r: Result<(), Error>)
        requires
            vault_fee <= MAX_ROYALTY_BPS,
        ensures
            r == as_result(royalty_buy_fault(self@, creator@, vault_fee)),
    {
        match self.check_entries(Some(creator)) {
            Err(e) => {
                return Err(e);
            },
            Ok(_) => {},
        }
        if self.entries.len() > MAX_ROYALTY_BUY_ACCOUNTS {
            return Err(Error::TooManyRoyaltyBuyAccounts);
        }
        let max: u32 = MAX_ROYALTY_BPS - vault_fee;
        if self.total() > max as u128 {
            return Err(Error::RoyaltyBuyExceedsCap { max });
        }
        Ok(())
    }
}

} // verus!

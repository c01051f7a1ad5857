//! Splitting an amount over a royalty table. Each recipient gets the floor
//! of its share; one account takes what is left, so that nothing is lost.

use vstd::prelude::*;
use vstd::string::*;
use vstd::arithmetic::div_mod::lemma_fundamental_div_mod_converse;
use crate::error::Error;
use crate::royalty::{RoyaltyTable, RoyaltyView, distinct_accounts};

verus! {

/// The model of a payout: its recipients in order, each with its amount.
pub type PayoutView = Seq<(Seq<char>, nat)>;

/// The share of `bps` basis points in `amount`: `floor(amount * bps / 10000)`.
pub open spec fn bps_share(amount: nat, bps: nat) -> nat {
    amount * bps / 10000
}

/// The basis points of all entries but that of `excluded`.
pub open spec fn payable_bps(t: RoyaltyView, excluded: Seq<char>) -> nat
    decreases t.len(),
{
    if t.len() == 0 {
        0
    } else if t.last().0 == excluded {
        payable_bps(t.drop_last(), excluded)
    } else {
        payable_bps(t.drop_last(), excluded) + t.last().1 as nat
    }
}

/// The shares of all entries but that of `excluded`, in the table's order.
pub open spec fn royalty_shares(total: nat, t: RoyaltyView, excluded: Seq<char>) -> PayoutView
    decreases t.len(),
{
    if t.len() == 0 {
        Seq::empty()
    } else if t.last().0 == excluded {
        royalty_shares(total, t.drop_last(), excluded)
    } else {
        royalty_shares(total, t.drop_last(), excluded).push(
            (t.last().0, bps_share(total, t.last().1 as nat)),
        )
    }
}

/// The sum of the amounts of a payout.
pub open spec fn sum_amounts(p: PayoutView) -> nat
    decreases p.len(),
{
    if p.len() == 0 {
        0
    } else {
        sum_amounts(p.drop_last()) + p.last().1
    }
}

/// The payout of `total` over the table: the shares of all entries but that
/// of `excluded`, then `excluded` with the rest of `total`.
pub open spec fn split_payout(total: nat, t: RoyaltyView, excluded: Seq<char>) -> PayoutView {
    let shares = royalty_shares(total, t, excluded);
    shares.push((excluded, (total - sum_amounts(shares)) as nat))
}

/// How `split` ends: with a failure where the table has more entries than
/// the market pays, or its payable basis points exceed 10000; else with the payout.
pub open spec fn split_result(total: nat, t: RoyaltyView, max_recipients: nat, excluded: Seq<char>) -> Result<
    PayoutView,
    Error,
> {
    if t.len() > max_recipients {
        Err(Error::TooManyPayoutReceivers)
    } else if payable_bps(t, excluded) > 10000 {
        Err(Error::PayoutOverflow)
    } else {
        Ok(split_payout(total, t, excluded))
    }
}

/// A share of at most 10000 basis points is at most the amount.
pub proof fn lemma_bps_share_bounded(amount: nat, bps: nat)
    requires
        bps <= 10000,
    ensures
        bps_share(amount, bps) <= amount,
        bps_share(amount, bps) * 10000 <= amount * bps,
{
    assert(amount * bps / 10000 <= amount && (amount * bps / 10000) * 10000 <= amount * bps)
        by (nonlinear_arith)
        requires
            bps <= 10000,
    ;
}

/// The shares of a table sum to no more than the share of its payable basis points.
pub proof fn lemma_shares_bounded(total: nat, t: RoyaltyView, excluded: Seq<char>)
    ensures
        sum_amounts(royalty_shares(total, t, excluded)) * 10000 <= total * payable_bps(t, excluded),
        royalty_shares(total, t, excluded).len() <= t.len(),
        payable_bps(t, excluded) <= 10000 ==> sum_amounts(royalty_shares(total, t, excluded)) <= total,
    decreases t.len(),
{
    let shares = royalty_shares(total, t, excluded);
    let bps = payable_bps(t, excluded);
    if t.len() == 0 {
        assert(total * bps == 0) by (nonlinear_arith)
            requires
                bps == 0,
        ;
    } else {
        let rest = t.drop_last();
        lemma_shares_bounded(total, rest, excluded);
        let rest_shares = royalty_shares(total, rest, excluded);
        let rest_bps = payable_bps(rest, excluded);
        if t.last().0 != excluded {
            let b = t.last().1 as nat;
            let s = bps_share(total, b);
            assert(shares.drop_last() =~= rest_shares);
            assert(sum_amounts(shares) == sum_amounts(rest_shares) + s);
            assert((sum_amounts(rest_shares) + s) * 10000 <= total * (rest_bps + b)) by (nonlinear_arith)
                requires
                    sum_amounts(rest_shares) * 10000 <= total * rest_bps,
                    s == total * b / 10000,
            ;
        }
    }
    if bps <= 10000 {
        assert(sum_amounts(shares) <= total) by (nonlinear_arith)
            requires
                sum_amounts(shares) * 10000 <= total * bps,
                bps <= 10000,
        ;
    }
}

/// The amounts of a payout sum to the amount that was split: nothing leaks.
pub proof fn lemma_split_conserves(total: nat, t: RoyaltyView, excluded: Seq<char>)
    requires
        payable_bps(t, excluded) <= 10000,
    ensures
        sum_amounts(split_payout(total, t, excluded)) == total,
{
    lemma_shares_bounded(total, t, excluded);
    let shares = royalty_shares(total, t, excluded);
    let p = split_payout(total, t, excluded);
    assert(p.drop_last() =~= shares);
}

/// Every recipient among the shares is an account of the table other than
/// the excluded one, and the recipients keep the table's order.
pub proof fn lemma_shares_come_from_table(total: nat, t: RoyaltyView, excluded: Seq<char>)
    ensures
        forall|i: int|
            0 <= i < royalty_shares(total, t, excluded).len() ==> (#[trigger] royalty_shares(
                total,
                t,
                excluded,
            )[i]).0 != excluded,
        distinct_accounts(t) ==> forall|i: int, j: int|
            0 <= i < j < royalty_shares(total, t, excluded).len() ==> (#[trigger] royalty_shares(
                total,
                t,
                excluded,
            )[i]).0 != (#[trigger] royalty_shares(total, t, excluded)[j]).0,
        forall|i: int|
            0 <= i < royalty_shares(total, t, excluded).len() ==> exists|k: int|
                0 <= k < t.len() && (#[trigger] t[k]).0 == (#[trigger] royalty_shares(total, t, excluded)[i]).0,
    decreases t.len(),
{
    let shares = royalty_shares(total, t, excluded);
    if t.len() > 0 {
        let rest = t.drop_last();
        let rest_shares = royalty_shares(total, rest, excluded);
        lemma_shares_come_from_table(total, rest, excluded);
        assert forall|i: int| 0 <= i < shares.len() implies exists|k: int|
            0 <= k < t.len() && (#[trigger] t[k]).0 == (#[trigger] shares[i]).0 by {
            if i < rest_shares.len() {
                assert(shares[i] == rest_shares[i]);
                let k = choose|k: int| 0 <= k < rest.len() && (#[trigger] rest[k]).0 == rest_shares[i].0;
                assert(t[k] == rest[k]);
            } else {
                assert(t[t.len() - 1].0 == shares[i].0);
            }
        }
        if distinct_accounts(t) {
            assert(distinct_accounts(rest)) by {
                assert forall|i: int, j: int| 0 <= i < j < rest.len() implies (#[trigger] rest[i]).0 != (
                #[trigger] rest[j]).0 by {
                    assert(rest[i] == t[i]);
                    assert(rest[j] == t[j]);
                }
            }
            assert forall|i: int, j: int| 0 <= i < j < shares.len() implies (#[trigger] shares[i]).0 != (
            #[trigger] shares[j]).0 by {
                if j < rest_shares.len() {
                    assert(shares[i] == rest_shares[i]);
                    assert(shares[j] == rest_shares[j]);
                } else {
                    assert(shares[i] == rest_shares[i]);
                    let k = choose|k: int| 0 <= k < rest.len() && (#[trigger] rest[k]).0 == rest_shares[i].0;
                    assert(t[k] == rest[k]);
                    assert(t[k].0 != t[t.len() - 1].0);
                }
            }
        }
    }
}

/// No account is paid twice: the recipients of a payout are distinct where
/// the accounts of the table are.
pub proof fn lemma_split_recipients_distinct(total: nat, t: RoyaltyView, excluded: Seq<char>)
    requires
        distinct_accounts(t),
    ensures
        forall|i: int, j: int|
            0 <= i < j < split_payout(total, t, excluded).len() ==> (#[trigger] split_payout(
                total,
                t,
                excluded,
            )[i]).0 != (#[trigger] split_payout(total, t, excluded)[j]).0,
{
    lemma_shares_come_from_table(total, t, excluded);
    let shares = royalty_shares(total, t, excluded);
    let p = split_payout(total, t, excluded);
    assert forall|i: int, j: int| 0 <= i < j < p.len() implies (#[trigger] p[i]).0 != (#[trigger] p[j]).0 by {
        assert(p[i] == shares[i]);
        if j < shares.len() {
            assert(p[j] == shares[j]);
        }
    }
}

/// The share of every entry of the table, in the table's order.
pub open spec fn all_shares(total: nat, t: RoyaltyView) -> PayoutView {
    Seq::new(t.len(), |i: int| (t[i].0, bps_share(total, t[i].1 as nat)))
}

/// The share of `bps` basis points in `balance`, rounded down.
pub fn royalty_to_payout(bps: u32, balance: u128) -> (share: u128)
    requires
        bps_share(balance as nat, bps as nat) <= u128::MAX,
    ensures
        share == bps_share(balance as nat, bps as nat),
{
    let q: u128 = balance / 10_000u128;
    let r: u128 = balance % 10_000u128;
    let b: u128 = bps as u128;
    let ghost whole = (balance as int) * (b as int);
    let ghost low = (r as int) * (b as int);
    proof {
        assert(whole == (q * b) * 10000 + low) by (nonlinear_arith)
            requires
                whole == balance * b,
                low == r * b,
                balance == q * 10000 + r,
        ;
        assert(0 <= low) by (nonlinear_arith)
            requires
                low == r * b,
                0 <= r,
                0 <= b,
        ;
        assert(low <= 9999 * 0xffff_ffff) by (nonlinear_arith)
            requires
                low == r * b,
                0 <= r <= 9999,
                0 <= b <= 0xffff_ffff,
        ;
        assert(0 <= q * b) by (nonlinear_arith)
            requires
                0 <= q,
                0 <= b,
        ;
        lemma_fundamental_div_mod_converse(whole, 10000, q * b + low / 10000, low % 10000);
    }
    q * b + (r * b) / 10_000u128
}

/// One recipient of a payout with its amount.
#[derive(Clone, Debug, PartialEq, Eq)]
pub struct PayoutEntry {
    pub account_id: String,
    pub amount: u128,
}

/// Who is paid how much.
#[derive(Clone, Debug, PartialEq, Eq)]
pub struct Payout {
    pub payout: Vec<PayoutEntry>,
}

impl View for Payout {
    type V = PayoutView;

    open spec fn view(&self) -> PayoutView {
        Seq::new(self.payout@.len(), |i: int| (self.payout@[i].account_id@, self.payout@[i].amount as nat))
    }
}

/// Splits `total` over the royalty table. Every account of the table but
/// `excluded` gets the floor of its share; `excluded` gets the rest. Fails
/// where the table has more than `max_recipients` entries, or where the
/// basis points to pay exceed 10000.
pub fn split(total: u128, royalty: &RoyaltyTable, max_recipients: u32, excluded: &String) -> (r: Result<
    Payout,
    Error,
>)
    ensures
        match (r, split_result(total as nat, royalty@, max_recipients as nat, excluded@)) {
            (Ok(p), Ok(expected)) => p@ == expected && sum_amounts(p@) == total,
            (Err(e), Err(expected)) => e == expected,
            _ => false,
        },
{
    if royalty.len() > max_recipients as usize {
        return Err(Error::TooManyPayoutReceivers);
    }
    let n = royalty.len();
    // first pass: the basis points that are to be paid
    let mut bps_sum: u128 = 0;
    let mut i: usize = 0;
    while i < n
        invariant
            i <= n,
            n == royalty@.len(),
            bps_sum == payable_bps(royalty@.take(i as int), excluded@),
            bps_sum <= i * 0xffff_ffff,
        decreases n - i,
    {
        proof {
            assert(royalty@.take(i + 1).drop_last() =~= royalty@.take(i as int));
            assert(i * 0xffff_ffff + 0xffff_ffff == (i + 1) * 0xffff_ffff) by (nonlinear_arith);
            assert(i * 0xffff_ffff <= usize::MAX * 0xffff_ffff) by (nonlinear_arith)
                requires
                    i <= usize::MAX,
            ;
        }
        if *royalty.account_at(i) != *excluded {
            bps_sum = bps_sum + royalty.bps_at(i) as u128;
        }
        i = i + 1;
    }
    assert(royalty@.take(n as int) =~= royalty@);
    if bps_sum > 10_000u128 {
        return Err(Error::PayoutOverflow);
    }
    // second pass: the shares
    let mut entries: Vec<PayoutEntry> = Vec::new();
    let mut spent: u128 = 0;
    let mut i: usize = 0;
    let ghost full = royalty@;
    let ghost ex = excluded@;
    let ghost tot = total as nat;
    while i < n
        invariant
            i <= n,
            n == full.len(),
            full == royalty@,
            ex == excluded@,
            tot == total,
            payable_bps(full, ex) <= 10000,
            spent == sum_amounts(royalty_shares(tot, full.take(i as int), ex)),
            entries@.len() == royalty_shares(tot, full.take(i as int), ex).len(),
            forall|j: int|
                0 <= j < entries@.len() ==> (#[trigger] entries@[j]).account_id@ == royalty_shares(
                    tot,
                    full.take(i as int),
                    ex,
                )[j].0 && entries@[j].amount == royalty_shares(tot, full.take(i as int), ex)[j].1,
        decreases n - i,
    {
        let ghost before = full.take(i as int);
        let ghost after = full.take(i + 1);
        proof {
            assert(after.drop_last() =~= before);
            assert(after.last() == full[i as int]);
            lemma_payable_bps_prefix(full, ex, i + 1);
            lemma_shares_bounded(tot, after, ex);
        }
        if *royalty.account_at(i) != *excluded {
            let bps = royalty.bps_at(i);
            proof {
                lemma_payable_bps_entry(after, ex);
                lemma_bps_share_bounded(tot, bps as nat);
                assert(royalty_shares(tot, after, ex).drop_last() =~= royalty_shares(tot, before, ex));
            }
            let amount = royalty_to_payout(bps, total);
            entries.push(PayoutEntry { account_id: royalty.account_at(i).clone(), amount });
            spent = spent + amount;
        }
        i = i + 1;
    }
    assert(full.take(n as int) =~= full);
    proof {
        lemma_shares_bounded(tot, full, ex);
        lemma_split_conserves(tot, full, ex);
    }
    entries.push(PayoutEntry { account_id: excluded.clone(), amount: total - spent });
    let p = Payout { payout: entries };
    assert(p@ =~= split_payout(tot, full, ex));
    Ok(p)
}

/// The payable basis points of a prefix are no more than those of the table.
pub proof fn lemma_payable_bps_prefix(t: RoyaltyView, excluded: Seq<char>, k: int)
    requires
        0 <= k <= t.len(),
    ensures
        payable_bps(t.take(k), excluded) <= payable_bps(t, excluded),
    decreases t.len() - k,
{
    if k < t.len() {
        lemma_payable_bps_prefix(t, excluded, k + 1);
        assert(t.take(k + 1).drop_last() =~= t.take(k));
    } else {
        assert(t.take(k) =~= t);
    }
}

/// The basis points of a payable last entry are among the payable basis points.
pub proof fn lemma_payable_bps_entry(t: RoyaltyView, excluded: Seq<char>)
    requires
        t.len() > 0,
        t.last().0 != excluded,
    ensures
        t.last().1 <= payable_bps(t, excluded),
{
}

} // verus!

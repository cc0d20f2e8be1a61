//! The contributions recorded for one campaign: at most one entry per
//! investor, each holding what that investor has put in (and not yet taken
//! back as a refund or return).

use vstd::prelude::*;

use crate::accounting::{share_of, MAX_TARGET_AMOUNT};

verus! {

/// What one investor has contributed to a campaign.
#[derive(Debug, PartialEq, Eq)]
pub struct Contribution {
    pub investor: String,
    pub amount: i128,
}

/// No investor has two entries.
pub open spec fn investors_distinct(entries: Seq<Contribution>) -> bool {
    forall|i: int, j: int|
        0 <= i < j < entries.len() ==> #[trigger] entries[i].investor@
            != #[trigger] entries[j].investor@
}

/// Every recorded amount is non-negative.
pub open spec fn amounts_nonnegative(entries: Seq<Contribution>) -> bool {
    forall|i: int| 0 <= i < entries.len() ==> 0 <= #[trigger] entries[i].amount
}

/// What `who` has contributed according to `entries` (zero when absent).
pub open spec fn contribution_of(entries: Seq<Contribution>, who: Seq<char>) -> int
    decreases entries.len(),
{
    if entries.len() == 0 {
        0
    } else if entries.last().investor@ == who {
        entries.last().amount as int
    } else {
        contribution_of(entries.drop_last(), who)
    }
}

/// The sum of `f` over the entries.
pub open spec fn sum_over(entries: Seq<Contribution>, f: spec_fn(Contribution) -> int) -> int
    decreases entries.len(),
{
    if entries.len() == 0 {
        0
    } else {
        sum_over(entries.drop_last(), f) + f(entries.last())
    }
}

/// The amount of an entry.
pub open spec fn amount_of() -> spec_fn(Contribution) -> int {
    |c: Contribution| c.amount as int
}

/// The pro-rata share of `pool` owed to an entry out of `total`.
pub open spec fn share_in(pool: int, total: int) -> spec_fn(Contribution) -> int {
    |c: Contribution| share_of(c.amount as int, pool, total)
}

/// Everything recorded in `entries`.
pub open spec fn total_contributed(entries: Seq<Contribution>) -> int {
    sum_over(entries, amount_of())
}

/// What all the recorded investors could claim, together, of `pool` when
/// each claims the truncating pro-rata share of its contribution out of
/// `total`.
pub open spec fn total_claimable(entries: Seq<Contribution>, pool: int, total: int) -> int {
    sum_over(entries, share_in(pool, total))
}

proof fn lemma_contribution_of_prefix(entries: Seq<Contribution>, k: int, who: Seq<char>)
    requires
        0 <= k <= entries.len(),
        forall|i: int| k <= i < entries.len() ==> #[trigger] entries[i].investor@ != who,
    ensures
        contribution_of(entries, who) == contribution_of(entries.subrange(0, k), who),
    decreases entries.len() - k,
{
    if k < entries.len() {
        assert(entries.drop_last().subrange(0, k) =~= entries.subrange(0, k));
        lemma_contribution_of_prefix(entries.drop_last(), k, who);
    } else {
        assert(entries.subrange(0, k) =~= entries);
    }
}

/// With distinct investors, the entry at `i` gives its investor's contribution.
pub proof fn lemma_contribution_at(entries: Seq<Contribution>, i: int)
    requires
        investors_distinct(entries),
        0 <= i < entries.len(),
    ensures
        contribution_of(entries, entries[i].investor@) == entries[i].amount,
{
    let who = entries[i].investor@;
    assert forall|j: int| i + 1 <= j < entries.len() implies #[trigger] entries[j].investor@
        != who by {
        assert(entries[i].investor@ != entries[j].investor@);
    }
    lemma_contribution_of_prefix(entries, i + 1, who);
    let pre = entries.subrange(0, i + 1);
    assert(pre.last() == entries[i]);
}

/// An investor without an entry has contributed nothing.
pub proof fn lemma_contribution_absent(entries: Seq<Contribution>, who: Seq<char>)
    requires
        forall|i: int| 0 <= i < entries.len() ==> #[trigger] entries[i].investor@ != who,
    ensures
        contribution_of(entries, who) == 0,
{
    lemma_contribution_of_prefix(entries, 0, who);
}

proof fn lemma_sum_over_update(
    entries: Seq<Contribution>,
    i: int,
    e: Contribution,
    f: spec_fn(Contribution) -> int,
)
    requires
        0 <= i < entries.len(),
    ensures
        sum_over(entries.update(i, e), f) == sum_over(entries, f) - f(entries[i]) + f(e),
    decreases entries.len(),
{
    let s2 = entries.update(i, e);
    if i == entries.len() - 1 {
        assert(s2.drop_last() =~= entries.drop_last());
    } else {
        assert(s2.drop_last() =~= entries.drop_last().update(i, e));
        lemma_sum_over_update(entries.drop_last(), i, e, f);
    }
}

proof fn lemma_sum_over_push(entries: Seq<Contribution>, e: Contribution, f: spec_fn(Contribution) -> int)
    ensures
        sum_over(entries.push(e), f) == sum_over(entries, f) + f(e),
{
    assert(entries.push(e).drop_last() =~= entries);
}

proof fn lemma_sum_nonnegative(entries: Seq<Contribution>, f: spec_fn(Contribution) -> int)
    requires
        forall|k: int| 0 <= k < entries.len() ==> 0 <= #[trigger] f(entries[k]),
    ensures
        0 <= sum_over(entries, f),
    decreases entries.len(),
{
    if entries.len() > 0 {
        let pre = entries.drop_last();
        assert forall|k: int| 0 <= k < pre.len() implies 0 <= #[trigger] f(pre[k]) by {
            assert(pre[k] == entries[k]);
        }
        lemma_sum_nonnegative(pre, f);
        assert(0 <= f(entries[entries.len() - 1]));
    }
}

/// A non-negative term is at most the sum of non-negative terms.
pub proof fn lemma_term_at_most_sum(
    entries: Seq<Contribution>,
    i: int,
    f: spec_fn(Contribution) -> int,
)
    requires
        0 <= i < entries.len(),
        forall|k: int| 0 <= k < entries.len() ==> 0 <= #[trigger] f(entries[k]),
    ensures
        f(entries[i]) <= sum_over(entries, f),
    decreases entries.len(),
{
    let pre = entries.drop_last();
    assert forall|k: int| 0 <= k < pre.len() implies 0 <= #[trigger] f(pre[k]) by {
        assert(pre[k] == entries[k]);
    }
    lemma_sum_nonnegative(pre, f);
    assert(0 <= f(entries[entries.len() - 1]));
    if i < entries.len() - 1 {
        lemma_term_at_most_sum(pre, i, f);
        assert(pre[i] == entries[i]);
    }
}

/// The sum of the truncated shares is at most the truncated share of the
/// sum.
pub proof fn lemma_total_claimable_bounded(entries: Seq<Contribution>, pool: int, total: int)
    requires
        amounts_nonnegative(entries),
        0 <= pool,
        0 < total,
    ensures
        total_claimable(entries, pool, total) <= share_of(total_contributed(entries), pool, total),
    decreases entries.len(),
{
    if entries.len() > 0 {
        let pre = entries.drop_last();
        assert(amounts_nonnegative(pre)) by {
            assert forall|i: int| 0 <= i < pre.len() implies 0 <= #[trigger] pre[i].amount by {
                assert(pre[i] == entries[i]);
            }
        }
        lemma_total_claimable_bounded(pre, pool, total);
        let a = total_contributed(pre);
        let b = entries.last().amount as int;
        assert(share_of(a, pool, total) + share_of(b, pool, total) <= share_of(a + b, pool, total))
            by (nonlinear_arith)
            requires
                0 < total,
        {
            assert((a + b) * pool == a * pool + b * pool) by (nonlinear_arith);
            let x = a * pool;
            let y = b * pool;
            assert(x / total + y / total <= (x + y) / total) by (nonlinear_arith)
                requires
                    0 < total,
            {
                assert(x == total * (x / total) + x % total) by (nonlinear_arith)
                    requires
                        0 < total,
                ;
                assert(y == total * (y / total) + y % total) by (nonlinear_arith)
                    requires
                        0 < total,
                ;
            }
        }
    }
}

proof fn lemma_contribution_of_update(
    entries: Seq<Contribution>,
    i: int,
    e: Contribution,
    w: Seq<char>,
)
    requires
        0 <= i < entries.len(),
        e.investor@ == entries[i].investor@,
        w != e.investor@,
    ensures
        contribution_of(entries.update(i, e), w) == contribution_of(entries, w),
    decreases entries.len(),
{
    let s2 = entries.update(i, e);
    if i == entries.len() - 1 {
        assert(s2.drop_last() =~= entries.drop_last());
    } else {
        assert(s2.drop_last() =~= entries.drop_last().update(i, e));
        lemma_contribution_of_update(entries.drop_last(), i, e, w);
    }
}

/// Non-negative amounts add up to a non-negative total.
pub proof fn lemma_total_contributed_nonnegative(entries: Seq<Contribution>)
    requires
        amounts_nonnegative(entries),
    ensures
        0 <= total_contributed(entries),
{
    assert forall|k: int| 0 <= k < entries.len() implies 0 <= #[trigger] amount_of()(
        entries[k],
    ) by {
        assert(0 <= entries[k].amount);
    }
    lemma_sum_nonnegative(entries, amount_of());
}

/// Shares of non-negative amounts in a non-negative pool add up to a
/// non-negative total.
pub proof fn lemma_total_claimable_nonnegative(entries: Seq<Contribution>, pool: int, total: int)
    requires
        amounts_nonnegative(entries),
        0 <= pool,
        0 < total,
    ensures
        0 <= total_claimable(entries, pool, total),
{
    assert forall|k: int| 0 <= k < entries.len() implies 0 <= #[trigger] share_in(pool, total)(
        entries[k],
    ) by {
        let a = entries[k].amount as int;
        assert(0 <= a);
        assert(0 <= a * pool / total) by (nonlinear_arith)
            requires
                0 <= a,
                0 <= pool,
                0 < total,
        ;
    }
    lemma_sum_nonnegative(entries, share_in(pool, total));
}

/// With distinct investors and non-negative amounts, any investor's
/// contribution lies between zero and the total recorded.
pub proof fn lemma_contribution_bounds(entries: Seq<Contribution>, who: Seq<char>)
    requires
        investors_distinct(entries),
        amounts_nonnegative(entries),
    ensures
        0 <= contribution_of(entries, who) <= total_contributed(entries),
{
    assert forall|k: int| 0 <= k < entries.len() implies 0 <= #[trigger] amount_of()(
        entries[k],
    ) by {
        assert(0 <= entries[k].amount);
    }
    if exists|i: int| 0 <= i < entries.len() && #[trigger] entries[i].investor@ == who {
        let i = choose|i: int| 0 <= i < entries.len() && #[trigger] entries[i].investor@ == who;
        lemma_contribution_at(entries, i);
        lemma_term_at_most_sum(entries, i, amount_of());
    } else {
        lemma_contribution_absent(entries, who);
        lemma_sum_nonnegative(entries, amount_of());
    }
}

/// How many entries hold a positive amount.
pub open spec fn count_positive(entries: Seq<Contribution>) -> int
    decreases entries.len(),
{
    if entries.len() == 0 {
        0
    } else {
        count_positive(entries.drop_last()) + if entries.last().amount > 0 {
            1int
        } else {
            0
        }
    }
}

proof fn lemma_no_positive_entry(entries: Seq<Contribution>)
    requires
        amounts_nonnegative(entries),
        count_positive(entries) == 0,
    ensures
        total_contributed(entries) == 0,
    decreases entries.len(),
{
    if entries.len() > 0 {
        let pre = entries.drop_last();
        assert(amounts_nonnegative(pre)) by {
            assert forall|i: int| 0 <= i < pre.len() implies 0 <= #[trigger] pre[i].amount by {
                assert(pre[i] == entries[i]);
            }
        }
        lemma_count_positive_nonnegative(pre);
        assert(0 <= entries[entries.len() - 1].amount);
        lemma_no_positive_entry(pre);
    }
}

proof fn lemma_count_positive_nonnegative(entries: Seq<Contribution>)
    ensures
        0 <= count_positive(entries),
    decreases entries.len(),
{
    if entries.len() > 0 {
        lemma_count_positive_nonnegative(entries.drop_last());
    }
}

proof fn lemma_claimable_floor_gap(entries: Seq<Contribution>, pool: int, total: int)
    requires
        amounts_nonnegative(entries),
        0 <= pool,
        0 < total,
    ensures
        total * total_claimable(entries, pool, total) >= total_contributed(entries) * pool
            - count_positive(entries) * (total - 1),
    decreases entries.len(),
{
    if entries.len() > 0 {
        let pre = entries.drop_last();
        assert(amounts_nonnegative(pre)) by {
            assert forall|i: int| 0 <= i < pre.len() implies 0 <= #[trigger] pre[i].amount by {
                assert(pre[i] == entries[i]);
            }
        }
        lemma_claimable_floor_gap(pre, pool, total);
        let a = entries.last().amount as int;
        assert(0 <= a);
        let sa = total_claimable(pre, pool, total);
        let ca = total_contributed(pre);
        let na = count_positive(pre);
        let sh = share_of(a, pool, total);
        let g: int = if a > 0 {
            1
        } else {
            0
        };
        assert(total * sh >= a * pool - g * (total - 1)) by (nonlinear_arith)
            requires
                sh == a * pool / total,
                0 < total,
                0 <= a,
                0 <= pool,
                g == (if a > 0 {
                    1int
                } else {
                    0int
                }),
        {
            assert(a * pool == total * (a * pool / total) + (a * pool) % total);
            if a == 0 {
                assert(a * pool == 0);
            }
        }
        assert((ca + a) * pool == ca * pool + a * pool) by (nonlinear_arith);
        assert((na + g) * (total - 1) == na * (total - 1) + g * (total - 1)) by (nonlinear_arith);
        assert(total * (sa + sh) == total * sa + total * sh) by (nonlinear_arith);
    }
}

/// When the entries add up to exactly `total` (no claim made yet), what
/// the investors can claim together of `pool` falls short of the pool by
/// less than the number of investors with a positive contribution: each
/// truncated share loses less than one unit.
pub proof fn lemma_claim_dust_below_count(entries: Seq<Contribution>, pool: int, total: int)
    requires
        amounts_nonnegative(entries),
        0 <= pool,
        0 < total,
        total_contributed(entries) == total,
    ensures
        1 <= count_positive(entries),
        pool - total_claimable(entries, pool, total) < count_positive(entries),
{
    lemma_count_positive_nonnegative(entries);
    if count_positive(entries) == 0 {
        lemma_no_positive_entry(entries);
    }
    lemma_claimable_floor_gap(entries, pool, total);
    let n = count_positive(entries);
    let sc = total_claimable(entries, pool, total);
    assert(pool - sc < n) by (nonlinear_arith)
        requires
            total * sc >= total * pool - n * (total - 1),
            0 < total,
            1 <= n,
    ;
}

/// A sum of zero terms is zero.
pub proof fn lemma_sum_of_zeros(entries: Seq<Contribution>, f: spec_fn(Contribution) -> int)
    requires
        forall|k: int| 0 <= k < entries.len() ==> #[trigger] f(entries[k]) == 0,
    ensures
        sum_over(entries, f) == 0,
    decreases entries.len(),
{
    if entries.len() > 0 {
        let pre = entries.drop_last();
        assert forall|k: int| 0 <= k < pre.len() implies #[trigger] f(pre[k]) == 0 by {
            assert(pre[k] == entries[k]);
        }
        lemma_sum_of_zeros(pre, f);
        assert(f(entries[entries.len() - 1]) == 0);
    }
}

/// The position of `who`'s entry, if it has one.
pub fn find_contribution(entries: &Vec<Contribution>, who: &String) -> (r: Option<usize>)
    ensures
        match r {
            Some(i) => i < entries.len() && entries@[i as int].investor@ == who@,
            None => forall|i: int| 0 <= i < entries.len() ==> #[trigger] entries@[i].investor@ != who@,
        },
{
    let mut i: usize = 0;
    while i < entries.len()
        invariant
            i <= entries.len(),
            forall|k: int| 0 <= k < i ==> #[trigger] entries@[k].investor@ != who@,
        decreases entries.len() - i,
    {
        if entries[i].investor == *who {
            return Some(i);
        }
        i = i + 1;
    }
    None
}

/// What `who` has contributed (zero when absent).
pub fn contribution_amount(entries: &Vec<Contribution>, who: &String) -> (r: i128)
    requires
        investors_distinct(entries@),
    ensures
        r == contribution_of(entries@, who@),
{
    match find_contribution(entries, who) {
        Some(i) => {
            proof {
                lemma_contribution_at(entries@, i as int);
            }
            entries[i].amount
        },
        None => {
            proof {
                lemma_contribution_absent(entries@, who@);
            }
            0
        },
    }
}

/// Sets `who`'s recorded contribution to `amount`, adding an entry when it
/// has none.
pub fn set_contribution(entries: &mut Vec<Contribution>, who: String, amount: i128)
    requires
        investors_distinct(old(entries)@),
    ensures
        investors_distinct(final(entries)@),
        amounts_nonnegative(old(entries)@) && 0 <= amount ==> amounts_nonnegative(
            final(entries)@,
        ),
        contribution_of(final(entries)@, who@) == amount,
        forall|w: Seq<char>|
            w != who@ ==> #[trigger] contribution_of(final(entries)@, w) == contribution_of(
                old(entries)@,
                w,
            ),
        total_contributed(final(entries)@) == total_contributed(old(entries)@) - contribution_of(
            old(entries)@,
            who@,
        ) + amount,
        forall|pool: int, total: int|
            0 < total ==> #[trigger] total_claimable(final(entries)@, pool, total) == total_claimable(
                old(entries)@,
                pool,
                total,
            ) - share_of(contribution_of(old(entries)@, who@), pool, total) + share_of(
                amount as int,
                pool,
                total,
            ),
{
    let ghost old_entries = entries@;
    let ghost who_view = who@;
    match find_contribution(entries, &who) {
        Some(i) => {
            proof {
                lemma_contribution_at(old_entries, i as int);
            }
            entries.set(i, Contribution { investor: who, amount });
            proof {
                let e = entries@[i as int];
                assert(entries@ == old_entries.update(i as int, e));
                assert(investors_distinct(entries@)) by {
                    assert forall|a: int, b: int|
                        0 <= a < b < entries@.len() implies #[trigger] entries@[a].investor@
                        != #[trigger] entries@[b].investor@ by {
                        assert(old_entries[a].investor@ != old_entries[b].investor@);
                    }
                }
                lemma_contribution_at(entries@, i as int);
                assert forall|w: Seq<char>| w != who_view implies #[trigger] contribution_of(
                    entries@,
                    w,
                ) == contribution_of(old_entries, w) by {
                    lemma_contribution_of_update(old_entries, i as int, e, w);
                }
                lemma_sum_over_update(old_entries, i as int, e, amount_of());
                assert forall|pool: int, total: int|
                    0 < total implies #[trigger] total_claimable(entries@, pool, total) == total_claimable(
                        old_entries,
                        pool,
                        total,
                    ) - share_of(contribution_of(old_entries, who_view), pool, total) + share_of(
                        amount as int,
                        pool,
                        total,
                    ) by {
                    lemma_sum_over_update(old_entries, i as int, e, share_in(pool, total));
                }
            }
        },
        None => {
            proof {
                lemma_contribution_absent(old_entries, who_view);
            }
            entries.push(Contribution { investor: who, amount });
            proof {
                let e = entries@.last();
                assert(entries@ == old_entries.push(e));
                assert(entries@.drop_last() =~= old_entries);
                assert(investors_distinct(entries@)) by {
                    assert forall|a: int, b: int|
                        0 <= a < b < entries@.len() implies #[trigger] entries@[a].investor@
                        != #[trigger] entries@[b].investor@ by {
                        if b < old_entries.len() {
                            assert(old_entries[a].investor@ != old_entries[b].investor@);
                        } else {
                            assert(old_entries[a].investor@ != who_view);
                        }
                    }
                }
                lemma_sum_over_push(old_entries, e, amount_of());
                assert forall|pool: int, total: int|
                    0 < total implies #[trigger] total_claimable(entries@, pool, total) == total_claimable(
                        old_entries,
                        pool,
                        total,
                    ) - share_of(contribution_of(old_entries, who_view), pool, total) + share_of(
                        amount as int,
                        pool,
                        total,
                    ) by {
                    lemma_sum_over_push(old_entries, e, share_in(pool, total));
                    assert(share_of(0, pool, total) == 0) by (nonlinear_arith)
                        requires
                            0 < total,
                    ;
                }
            }
        },
    }
}

/// With non-negative amounts, a prefix never records more than the whole.
pub proof fn lemma_prefix_total_at_most(entries: Seq<Contribution>, m: int)
    requires
        amounts_nonnegative(entries),
        0 <= m <= entries.len(),
    ensures
        total_contributed(entries.subrange(0, m)) <= total_contributed(entries),
    decreases entries.len(),
{
    if m == entries.len() {
        assert(entries.subrange(0, m) =~= entries);
    } else {
        let pre = entries.drop_last();
        assert(amounts_nonnegative(pre)) by {
            assert forall|i: int| 0 <= i < pre.len() implies 0 <= #[trigger] pre[i].amount by {
                assert(pre[i] == entries[i]);
            }
        }
        lemma_prefix_total_at_most(pre, m);
        assert(pre.subrange(0, m) =~= entries.subrange(0, m));
        assert(0 <= entries[entries.len() - 1].amount);
    }
}

/// Whether `entries` has one non-negative entry per investor adding up to at
/// most `total_funded` (exactly `total_funded` when `exact`).
pub fn contributions_well_formed(entries: &Vec<Contribution>, total_funded: i128, exact: bool) -> (r:
    bool)
    requires
        0 <= total_funded <= MAX_TARGET_AMOUNT,
    ensures
        r == (investors_distinct(entries@) && amounts_nonnegative(entries@) && total_contributed(
            entries@,
        ) <= total_funded && (exact ==> total_contributed(entries@) == total_funded)),
{
    let n = entries.len();
    let mut i: usize = 0;
    while i < n
        invariant
            n == entries.len(),
            i <= n,
            forall|a: int, b: int|
                0 <= a < b < n && a < i ==> #[trigger] entries@[a].investor@
                    != #[trigger] entries@[b].investor@,
        decreases n - i,
    {
        let mut j: usize = i + 1;
        while j < n
            invariant
                n == entries.len(),
                i < n,
                i + 1 <= j <= n,
                forall|a: int, b: int|
                    0 <= a < b < n && a < i ==> #[trigger] entries@[a].investor@
                        != #[trigger] entries@[b].investor@,
                forall|b: int| i < b < j ==> entries@[i as int].investor@ != #[trigger] entries@[b].investor@,
            decreases n - j,
        {
            if entries[i].investor == entries[j].investor {
                proof {
                    assert(!investors_distinct(entries@)) by {
                        assert(entries@[i as int].investor@ == entries@[j as int].investor@);
                    }
                }
                return false;
            }
            j = j + 1;
        }
        i = i + 1;
    }
    let mut sum: i128 = 0;
    let mut k: usize = 0;
    while k < n
        invariant
            n == entries.len(),
            k <= n,
            0 <= total_funded <= MAX_TARGET_AMOUNT,
            investors_distinct(entries@),
            forall|m: int| 0 <= m < k ==> 0 <= #[trigger] entries@[m].amount,
            sum == total_contributed(entries@.subrange(0, k as int)),
            0 <= sum <= total_funded,
        decreases n - k,
    {
        let amount = entries[k].amount;
        proof {
            assert(entries@.subrange(0, k + 1).drop_last() =~= entries@.subrange(0, k as int));
        }
        if amount < 0 {
            return false;
        }
        if amount > total_funded - sum {
            proof {
                if amounts_nonnegative(entries@) {
                    lemma_prefix_total_at_most(entries@, k + 1);
                }
            }
            return false;
        }
        sum = sum + amount;
        k = k + 1;
    }
    proof {
        assert(entries@.subrange(0, n as int) =~= entries@);
    }
    if exact && sum != total_funded {
        return false;
    }
    true
}

} // verus!

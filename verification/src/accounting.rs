//! Arithmetic of a campaign's books: what is still held in escrow, which
//! statuses are terminal, the pro-rata share of a pool, and the solvency rule.

use vstd::prelude::*;

use crate::types::{Campaign, CampaignStatus, EscrowError};

verus! {

/// The largest amount a campaign may target (the token's `i64` range), so
/// that pro-rata products of two amounts stay within `i128`.
pub const MAX_TARGET_AMOUNT: i128 = 9_223_372_036_854_775_807i128;

/// Funds still held in escrow: contributed, and not yet released,
/// refundable or returnable.
pub open spec fn held(c: Campaign) -> int {
    c.total_funded - c.released - c.refundable - c.returnable
}

/// The books of a campaign are consistent: a positive target within the
/// token range, funding within the target, and the three kinds of
/// obligations non-negative and together within what was funded.
pub open spec fn campaign_books_consistent(c: Campaign) -> bool {
    &&& 0 < c.target_amount <= MAX_TARGET_AMOUNT
    &&& 0 <= c.total_funded <= c.target_amount
    &&& 0 <= c.released
    &&& 0 <= c.refundable
    &&& 0 <= c.returnable
    &&& c.released + c.refundable + c.returnable <= c.total_funded
}

/// Statuses in which tranche releases are blocked.
pub open spec fn terminal_status(s: CampaignStatus) -> bool {
    s == CampaignStatus::Disputed || s == CampaignStatus::Resolved || s == CampaignStatus::Settled
        || s == CampaignStatus::Failed
}

/// Statuses in which a campaign accepts contributions.
pub open spec fn accepting_status(s: CampaignStatus) -> bool {
    s == CampaignStatus::Active || s == CampaignStatus::Funding
}

/// Statuses from which a dispute may be opened or a failure declared.
pub open spec fn open_status(s: CampaignStatus) -> bool {
    s == CampaignStatus::Active || s == CampaignStatus::Funding || s == CampaignStatus::Funded
        || s == CampaignStatus::InProduction
}

/// Statuses in which tranches may be released and a harvest reported.
pub open spec fn producing_status(s: CampaignStatus) -> bool {
    s == CampaignStatus::Funded || s == CampaignStatus::InProduction
}

/// The integer (truncating) pro-rata share of `pool` owed to a
/// contribution out of `total`.
pub open spec fn share_of(contributed: int, pool: int, total: int) -> int {
    contributed * pool / total
}

/// Funds still held in escrow (not yet released, refundable, or returnable).
pub fn escrow_held(campaign: &Campaign) -> (r: i128)
    requires
        i128::MIN <= campaign.total_funded - campaign.released <= i128::MAX,
        i128::MIN <= campaign.total_funded - campaign.released - campaign.refundable
            <= i128::MAX,
        i128::MIN <= held(*campaign) <= i128::MAX,
    ensures
        r == held(*campaign),
        campaign_books_consistent(*campaign) ==> 0 <= r <= campaign.total_funded,
{
    campaign.total_funded - campaign.released - campaign.refundable - campaign.returnable
}

/// Returns true if the campaign is in a terminal / blocked state where
/// tranche releases must be prevented.
pub fn is_terminal(status: &CampaignStatus) -> (r: bool)
    ensures
        r == terminal_status(*status),
{
    match status {
        CampaignStatus::Disputed
        | CampaignStatus::Resolved
        | CampaignStatus::Settled
        | CampaignStatus::Failed => true,
        _ => false,
    }
}

/// Rejects a campaign whose recorded liabilities (funds still owed to the
/// farmer or investors) exceed `balance`, the escrow's actual balance of the
/// campaign's token: the escrow must never claim to hold more than it really
/// does.
pub fn assert_solvent(campaign: &Campaign, balance: i128) -> (r: Result<(), EscrowError>)
    requires
        i128::MIN <= campaign.total_funded - campaign.released <= i128::MAX,
        i128::MIN <= campaign.total_funded - campaign.released - campaign.refundable
            <= i128::MAX,
        i128::MIN <= held(*campaign) <= i128::MAX,
    ensures
        r is Ok <==> held(*campaign) <= balance,
        r is Err ==> r == Err::<(), EscrowError>(EscrowError::InsufficientBalance),
{
    if escrow_held(campaign) > balance {
        Err(EscrowError::InsufficientBalance)
    } else {
        Ok(())
    }
}

/// A pro-rata share of a pool, for a contribution within the total, lies
/// between zero and the pool.
pub proof fn lemma_share_bounds(contributed: int, pool: int, total: int)
    requires
        0 <= contributed <= total,
        0 <= pool <= total,
        0 < total,
    ensures
        0 <= contributed * pool <= total * total,
        0 <= share_of(contributed, pool, total) <= pool,
{
    assert(0 <= contributed * pool <= total * total) by (nonlinear_arith)
        requires
            0 <= contributed <= total,
            0 <= pool <= total,
    ;
    assert(contributed * pool <= total * pool) by (nonlinear_arith)
        requires
            0 <= contributed <= total,
            0 <= pool,
    ;
    assert(0 <= contributed * pool / total <= pool) by (nonlinear_arith)
        requires
            0 <= contributed * pool <= total * pool,
            0 < total,
            0 <= pool,
    ;
}

/// Integer division of `x` by a positive `t`, truncated toward zero.
pub open spec fn truncated_quotient(x: int, t: int) -> int {
    if x >= 0 {
        x / t
    } else {
        -((-x) / t)
    }
}

/// The truncating pro-rata share `contributed * pool / total` of a pool.
pub fn pro_rata_share(contributed: i128, pool: i128, total: i128) -> (r: i128)
    requires
        0 < total,
        i128::MIN <= contributed * pool <= i128::MAX,
    ensures
        r == truncated_quotient(contributed * pool, total as int),
        0 <= contributed && 0 <= pool ==> r == share_of(
            contributed as int,
            pool as int,
            total as int,
        ),
        0 <= contributed <= total && 0 <= pool <= total ==> 0 <= r <= pool,
{
    proof {
        if 0 <= contributed && 0 <= pool {
            assert(0 <= contributed * pool) by (nonlinear_arith)
                requires
                    0 <= contributed,
                    0 <= pool,
            ;
        }
        if 0 <= contributed <= total && 0 <= pool <= total {
            lemma_share_bounds(contributed as int, pool as int, total as int);
        }
    }
    contributed * pool / total
}

} // verus!

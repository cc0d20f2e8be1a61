//! When each operation of the escrow accepts a request, stated directly in
//! terms of the campaign's status, the caller's role and the amounts
//! involved, and what the accepted operations do to the money a campaign
//! holds.
//!
//! Every operation returns `Err` exactly when its rejection (for instance
//! `fund_rejection`) is `Some`, and otherwise performs the stated update; the
//! laws below pin down, for all inputs, which requests are accepted.

use vstd::prelude::*;

use crate::contributions::contribution_of;
use crate::escrow::{tranche_total, ProductionEscrowContract};
use crate::types::{Campaign, CampaignStatus, DisputeResolution, DisputeStatus, Tranche};

verus! {

/// What a campaign still holds in escrow, spelled out: contributed and not
/// yet paid to the farmer, refundable or returnable.
pub open spec fn still_held(c: Campaign) -> int {
    c.total_funded - c.released - c.refundable - c.returnable
}

/// `who` is the escrow's administrator.
pub open spec fn administrator_is(s: ProductionEscrowContract, who: Seq<char>) -> bool {
    s.admin_account() is Some && s.admin_account().unwrap()@ == who
}

/// A new campaign is accepted exactly when its id is unused and its target
/// is positive and within the token's `i64` range.
pub proof fn law_create_accepted(s: ProductionEscrowContract, id: u64, target: i128)
    ensures
        s.create_rejection(id, target) is None <==> (!s.books().contains_key(id) && 0 < target
            && target <= i64::MAX),
{
}

/// A contribution is accepted exactly when it is positive, the campaign
/// exists and is Active or Funding, and it fits within what remains of the
/// target.
pub proof fn law_fund_accepted(s: ProductionEscrowContract, id: u64, amount: i128)
    ensures
        s.fund_rejection(id, amount) is None <==> ({
            let c = s.books()[id].campaign;
            &&& 0 < amount
            &&& s.books().contains_key(id)
            &&& (c.status == CampaignStatus::Active || c.status == CampaignStatus::Funding)
            &&& c.total_funded + amount <= c.target_amount
        }),
{
}

/// A reconciled contribution is accepted exactly as a funded one is, once an
/// administrator exists.
pub proof fn law_receive_accepted(s: ProductionEscrowContract, id: u64, amount: i128)
    ensures
        s.receive_rejection(id, amount) is None <==> ({
            let c = s.books()[id].campaign;
            &&& 0 < amount
            &&& s.admin_account() is Some
            &&& s.books().contains_key(id)
            &&& (c.status == CampaignStatus::Active || c.status == CampaignStatus::Funding)
            &&& c.total_funded + amount <= c.target_amount
        }),
{
}

/// Completing the funding is accepted exactly when an administrator exists,
/// the campaign is Active or Funding, the stated total is the recorded one
/// and it has reached the target.
pub proof fn law_complete_accepted(s: ProductionEscrowContract, id: u64, total: i128)
    ensures
        s.complete_rejection(id, total) is None <==> ({
            let c = s.books()[id].campaign;
            &&& s.admin_account() is Some
            &&& s.books().contains_key(id)
            &&& (c.status == CampaignStatus::Active || c.status == CampaignStatus::Funding)
            &&& total == c.total_funded
            &&& c.total_funded >= c.target_amount
        }),
{
}

/// Tranches are accepted exactly for a Funded campaign, by an existing
/// administrator, when the list is non-empty, every amount is positive and
/// the amounts add up to at most what was funded.
pub proof fn law_configure_accepted(s: ProductionEscrowContract, id: u64, ts: Seq<Tranche>)
    ensures
        s.configure_rejection(id, ts) is None <==> ({
            let c = s.books()[id].campaign;
            &&& s.admin_account() is Some
            &&& s.books().contains_key(id)
            &&& c.status == CampaignStatus::Funded
            &&& ts.len() > 0
            &&& (forall|i: int| 0 <= i < ts.len() ==> #[trigger] ts[i].amount > 0)
            &&& tranche_total(ts) <= c.total_funded
        }),
{
}

/// A release is accepted exactly when it is positive, an administrator
/// exists, the campaign is Funded or InProduction, the amount is at most what
/// is still held, and either no tranches are configured (any such amount,
/// however much was released before) or the amount is that of the first
/// tranche not yet released.
pub proof fn law_release_accepted(s: ProductionEscrowContract, id: u64, amount: i128)
    ensures
        s.release_rejection(id, amount) is None <==> ({
            let b = s.books()[id];
            let c = b.campaign;
            let ts = b.tranches@;
            &&& 0 < amount
            &&& s.admin_account() is Some
            &&& s.books().contains_key(id)
            &&& (c.status == CampaignStatus::Funded || c.status == CampaignStatus::InProduction)
            &&& amount <= still_held(c)
            &&& (ts.len() == 0 || exists|k: int|
                #![trigger ts[k]]
                0 <= k < ts.len() && !ts[k].released && ts[k].amount == amount && (forall|j: int|
                    0 <= j < k ==> #[trigger] ts[j].released))
        }),
{
    let ts = s.books()[id].tranches@;
    if crate::escrow::next_tranche_is(ts, amount) {
        let k = choose|k: int| crate::escrow::next_unreleased(ts, k) && ts[k].amount == amount;
        assert(0 <= k < ts.len() && !ts[k].released && ts[k].amount == amount);
    }
    if exists|k: int|
        #![trigger ts[k]]
        0 <= k < ts.len() && !ts[k].released && ts[k].amount == amount && (forall|j: int|
            0 <= j < k ==> #[trigger] ts[j].released) {
        let k = choose|k: int|
            #![trigger ts[k]]
            0 <= k < ts.len() && !ts[k].released && ts[k].amount == amount && (forall|j: int|
                0 <= j < k ==> #[trigger] ts[j].released);
        assert(crate::escrow::next_unreleased(ts, k));
    }
}

/// With no tranches configured, a release of any amount up to what is still
/// held is accepted on a Funded or InProduction campaign, whatever was
/// released before.
pub proof fn law_release_without_tranches(s: ProductionEscrowContract, id: u64, amount: i128)
    requires
        s.admin_account() is Some,
        s.books().contains_key(id),
        s.books()[id].tranches@.len() == 0,
        s.books()[id].campaign.status == CampaignStatus::Funded
            || s.books()[id].campaign.status == CampaignStatus::InProduction,
        0 < amount <= still_held(s.books()[id].campaign),
    ensures
        s.release_rejection(id, amount) is None,
{
    law_release_accepted(s, id, amount);
}

/// A harvest report is accepted exactly when the campaign is Funded or
/// InProduction and the reporter is its farmer or the administrator.
pub proof fn law_harvest_accepted(s: ProductionEscrowContract, id: u64, reporter: Seq<char>)
    ensures
        s.harvest_rejection(id, reporter) is None <==> ({
            let c = s.books()[id].campaign;
            &&& s.books().contains_key(id)
            &&& (c.farmer@ == reporter || administrator_is(s, reporter))
            &&& (c.status == CampaignStatus::Funded || c.status == CampaignStatus::InProduction)
        }),
{
}

/// A dispute is accepted exactly on a campaign that is Active, Funding,
/// Funded or InProduction, opened by its farmer, an investor with a positive
/// contribution, or the administrator.
pub proof fn law_dispute_accepted(s: ProductionEscrowContract, id: u64, opener: Seq<char>)
    ensures
        s.dispute_rejection(id, opener) is None <==> ({
            let b = s.books()[id];
            let c = b.campaign;
            &&& s.books().contains_key(id)
            &&& (c.status == CampaignStatus::Active || c.status == CampaignStatus::Funding
                || c.status == CampaignStatus::Funded || c.status == CampaignStatus::InProduction)
            &&& (c.farmer@ == opener || contribution_of(b.contributions@, opener) > 0
                || administrator_is(s, opener))
        }),
{
}

/// A resolution is accepted exactly for an open dispute on a Disputed
/// campaign, by an existing administrator: a full refund or full payout with
/// a zero payout argument, or a partial settlement paying strictly between
/// zero and what is still held.
pub proof fn law_resolve_accepted(
    s: ProductionEscrowContract,
    id: u64,
    resolution: DisputeResolution,
    payout: i128,
)
    ensures
        s.resolve_rejection(id, resolution, payout) is None <==> ({
            let b = s.books()[id];
            let c = b.campaign;
            &&& s.admin_account() is Some
            &&& s.books().contains_key(id)
            &&& c.status == CampaignStatus::Disputed
            &&& b.dispute is Some
            &&& b.dispute.unwrap().status == DisputeStatus::Open
            &&& match resolution {
                DisputeResolution::Pending => false,
                DisputeResolution::FullRefund => payout == 0,
                DisputeResolution::FullPayout => payout == 0,
                DisputeResolution::PartialSettlement => 0 < payout < still_held(c),
            }
        }),
{
}

/// An accepted resolution splits exactly what is still held: the farmer's
/// part and the investors' part are non-negative and add up to it — all of
/// it refunded, all of it paid, or `payout` paid and the rest refunded.
pub proof fn law_resolution_splits_what_is_held(
    resolution: DisputeResolution,
    payout: i128,
    held: int,
)
    requires
        0 <= held,
        resolution != DisputeResolution::Pending,
        resolution == DisputeResolution::PartialSettlement ==> 0 < payout < held,
    ensures
        ({
            let (to_farmer, to_investors) = ProductionEscrowContract::resolution_split(
                resolution,
                payout,
                held,
            );
            &&& 0 <= to_farmer
            &&& 0 <= to_investors
            &&& to_farmer + to_investors == held
            &&& resolution == DisputeResolution::FullRefund ==> to_farmer == 0
            &&& resolution == DisputeResolution::FullPayout ==> to_investors == 0
            &&& resolution == DisputeResolution::PartialSettlement ==> to_farmer == payout
        }),
{
}

/// A settlement is accepted exactly for a Harvested campaign, by an existing
/// administrator, naming the campaign's farmer, with a payout between zero
/// and what is still held.
pub proof fn law_settle_accepted(
    s: ProductionEscrowContract,
    id: u64,
    farmer: Seq<char>,
    payout: i128,
)
    ensures
        s.settle_rejection(id, farmer, payout) is None <==> ({
            let c = s.books()[id].campaign;
            &&& s.admin_account() is Some
            &&& s.books().contains_key(id)
            &&& c.status == CampaignStatus::Harvested
            &&& farmer == c.farmer@
            &&& 0 <= payout <= still_held(c)
        }),
{
}

/// Declaring a campaign failed is accepted exactly when an administrator
/// exists and the campaign is Active, Funding, Funded or InProduction.
pub proof fn law_fail_accepted(s: ProductionEscrowContract, id: u64)
    ensures
        s.fail_rejection(id) is None <==> ({
            let c = s.books()[id].campaign;
            &&& s.admin_account() is Some
            &&& s.books().contains_key(id)
            &&& (c.status == CampaignStatus::Active || c.status == CampaignStatus::Funding
                || c.status == CampaignStatus::Funded || c.status == CampaignStatus::InProduction)
        }),
{
}

/// A refund claim is accepted exactly on a Resolved or Failed campaign, for
/// an investor with a positive contribution whose truncated share
/// `contribution * refundable / total_funded` is positive.
pub proof fn law_refund_accepted(s: ProductionEscrowContract, id: u64, investor: Seq<char>)
    ensures
        s.refund_rejection(id, investor) is None <==> ({
            let b = s.books()[id];
            let c = b.campaign;
            let contributed = contribution_of(b.contributions@, investor);
            &&& s.books().contains_key(id)
            &&& (c.status == CampaignStatus::Resolved || c.status == CampaignStatus::Failed)
            &&& contributed > 0
            &&& contributed * c.refundable / (c.total_funded as int) > 0
        }),
{
}

/// A return claim is accepted exactly on a Settled campaign, for an investor
/// with a positive contribution whose truncated share
/// `contribution * returnable / total_funded` is positive.
pub proof fn law_return_accepted(s: ProductionEscrowContract, id: u64, investor: Seq<char>)
    ensures
        s.return_rejection(id, investor) is None <==> ({
            let b = s.books()[id];
            let c = b.campaign;
            let contributed = contribution_of(b.contributions@, investor);
            &&& s.books().contains_key(id)
            &&& c.status == CampaignStatus::Settled
            &&& contributed > 0
            &&& contributed * c.returnable / (c.total_funded as int) > 0
        }),
{
}

/// A contribution raises what was funded by exactly its amount, and a
/// `fund_campaign` contribution marks the campaign Funded exactly when the
/// target is reached.
pub proof fn law_contribution_adds_amount(c: Campaign, amount: i128, status: CampaignStatus)
    requires
        0 <= c.total_funded,
        0 < amount,
        c.total_funded + amount <= c.target_amount <= i64::MAX,
    ensures
        crate::escrow::with_contribution(c, amount as int, status).total_funded == c.total_funded
            + amount,
        crate::escrow::with_contribution(c, amount as int, status).status == status,
        still_held(crate::escrow::with_contribution(c, amount as int, status)) == still_held(c)
            + amount,
        (ProductionEscrowContract::funding_status(c, amount as int) == CampaignStatus::Funded)
            <==> c.total_funded + amount >= c.target_amount,
{
}

/// A release pays out exactly its amount: released grows by it and what is
/// still held shrinks by it; a Funded campaign moves into production.
pub proof fn law_release_pays_amount(c: Campaign, amount: i128)
    requires
        0 <= c.released,
        0 < amount,
        c.released + amount <= c.total_funded <= i64::MAX,
    ensures
        ProductionEscrowContract::after_release(c, amount).released == c.released + amount,
        still_held(ProductionEscrowContract::after_release(c, amount)) == still_held(c) - amount,
        ProductionEscrowContract::after_release(c, amount).status == (if c.status
            == CampaignStatus::Funded {
            CampaignStatus::InProduction
        } else {
            c.status
        }),
{
}

/// What the accounting calls held is what a campaign still holds.
pub proof fn law_held_is_still_held(c: Campaign)
    ensures
        crate::accounting::held(c) == still_held(c),
{
}

/// The share paid on a claim is the pro-rata part of the pool rounded down:
/// `total * share <= contributed * pool < total * (share + 1)`; it is at
/// most the pool when the contribution is at most the total.
pub proof fn law_share_rounds_down(contributed: int, pool: int, total: int)
    requires
        0 <= contributed,
        0 <= pool,
        0 < total,
    ensures
        total * crate::accounting::share_of(contributed, pool, total) <= contributed * pool,
        contributed * pool < total * (crate::accounting::share_of(contributed, pool, total) + 1),
        contributed <= total ==> crate::accounting::share_of(contributed, pool, total) <= pool,
{
    let x = contributed * pool;
    let q = crate::accounting::share_of(contributed, pool, total);
    assert(q == x / total);
    assert(x == total * (x / total) + x % total && 0 <= x % total < total) by (nonlinear_arith)
        requires
            0 < total,
    ;
    assert(total * (q + 1) == total * q + total) by (nonlinear_arith);
    if contributed <= total {
        assert(x <= total * pool) by (nonlinear_arith)
            requires
                x == contributed * pool,
                0 <= contributed <= total,
                0 <= pool,
        ;
        assert(q <= pool) by (nonlinear_arith)
            requires
                total * q <= x,
                x <= total * pool,
                0 < total,
        ;
    }
}

} // verus!

use production_escrow::{
    Campaign, CampaignStatus, DisputeResolution, DisputeStatus, Effect, EscrowError, Event, Party,
    ProductionEscrowContract, Tranche,
};

const ADMIN: &str = "GADMIN";
const FARMER: &str = "GFARMER";
const TOKEN: &str = "CTOKEN";
const ALICE: &str = "GALICE";
const BOB: &str = "GBOB";
const CAROL: &str = "GCAROL";

fn s(x: &str) -> String {
    x.to_string()
}

fn escrow_with_admin() -> ProductionEscrowContract {
    let mut e = ProductionEscrowContract::new();
    e.initialize(s(ADMIN)).unwrap();
    e
}

fn escrow_with_campaign(target: i128) -> ProductionEscrowContract {
    let mut e = escrow_with_admin();
    e.create_campaign(1, s(FARMER), target, s(TOKEN), 1_000, s("maize")).unwrap();
    e
}

fn funded_escrow() -> ProductionEscrowContract {
    let mut e = escrow_with_campaign(1_000);
    e.fund_campaign(1, s(ALICE), 600).unwrap();
    e.fund_campaign(1, s(BOB), 400).unwrap();
    e
}

fn campaign(e: &ProductionEscrowContract) -> Campaign {
    e.get_campaign(1).unwrap()
}

fn auth(who: &str) -> Effect {
    Effect::RequireAuth { account: s(who) }
}

#[test]
fn initialize_sets_admin_once() {
    let mut e = ProductionEscrowContract::new();
    assert!(!e.has_admin());
    assert_eq!(e.get_admin(), Err(EscrowError::AdminNotSet));
    assert_eq!(e.initialize(s(ADMIN)), Ok(vec![auth(ADMIN)]));
    assert_eq!(e.get_admin(), Ok(s(ADMIN)));
    assert_eq!(e.initialize(s(BOB)), Err(EscrowError::AdminAlreadyInitialized));
    assert_eq!(e.get_admin(), Ok(s(ADMIN)));
}

#[test]
fn create_campaign_records_an_active_campaign() {
    let mut e = escrow_with_admin();
    let effects = e.create_campaign(7, s(FARMER), 5_000, s(TOKEN), 99, s("rice")).unwrap();
    assert_eq!(
        effects,
        vec![
            auth(FARMER),
            Effect::Emit {
                event: Event::CampaignCreated {
                    campaign_id: 7,
                    farmer: s(FARMER),
                    target_amount: 5_000,
                },
            },
        ]
    );
    assert!(e.has_campaign(7));
    assert_eq!(
        e.get_campaign(7),
        Some(Campaign {
            farmer: s(FARMER),
            target_amount: 5_000,
            token_address: s(TOKEN),
            deadline: 99,
            harvest_metadata: s("rice"),
            total_funded: 0,
            released: 0,
            refundable: 0,
            returnable: 0,
            status: CampaignStatus::Active,
        })
    );
    assert_eq!(e.get_tranches(7), vec![]);
    assert_eq!(e.get_dispute(7), None);
    assert_eq!(e.get_harvest_record(7), None);
    assert_eq!(e.get_contribution(7, s(ALICE)), 0);
}

#[test]
fn create_campaign_rejections() {
    let mut e = escrow_with_campaign(1_000);
    assert_eq!(
        e.create_campaign(1, s(FARMER), 10, s(TOKEN), 0, s("x")),
        Err(EscrowError::CampaignAlreadyExists)
    );
    assert_eq!(
        e.create_campaign(2, s(FARMER), 0, s(TOKEN), 0, s("x")),
        Err(EscrowError::TargetNotPositive)
    );
    assert_eq!(
        e.create_campaign(2, s(FARMER), -5, s(TOKEN), 0, s("x")),
        Err(EscrowError::TargetNotPositive)
    );
    assert_eq!(
        e.create_campaign(2, s(FARMER), i64::MAX as i128 + 1, s(TOKEN), 0, s("x")),
        Err(EscrowError::TargetTooLarge)
    );
    assert!(e.create_campaign(2, s(FARMER), i64::MAX as i128, s(TOKEN), 0, s("x")).is_ok());
    assert!(!e.has_campaign(3));
}

#[test]
fn fund_campaign_moves_to_funded_at_target() {
    let mut e = escrow_with_campaign(1_000);
    let first = e.fund_campaign(1, s(ALICE), 600).unwrap();
    assert_eq!(
        first,
        vec![
            auth(ALICE),
            Effect::Transfer {
                token: s(TOKEN),
                from: Party::Account(s(ALICE)),
                to: Party::Escrow,
                amount: 600,
            },
            Effect::CheckSolvency { campaign_id: 1, token: s(TOKEN) },
            Effect::Emit {
                event: Event::ContributionReceived { campaign_id: 1, investor: s(ALICE), amount: 600 },
            },
        ]
    );
    assert_eq!(campaign(&e).status, CampaignStatus::Funding);
    assert_eq!(campaign(&e).total_funded, 600);
    let second = e.fund_campaign(1, s(BOB), 400).unwrap();
    assert_eq!(
        second[2],
        Effect::Emit { event: Event::CampaignFunded { campaign_id: 1, total_funded: 1_000 } }
    );
    assert_eq!(second.len(), 5);
    assert_eq!(campaign(&e).status, CampaignStatus::Funded);
    assert_eq!(e.get_contribution(1, s(ALICE)), 600);
    assert_eq!(e.get_contribution(1, s(BOB)), 400);
}

#[test]
fn fund_campaign_rejections() {
    let mut e = escrow_with_campaign(1_000);
    assert_eq!(e.fund_campaign(1, s(ALICE), 0), Err(EscrowError::AmountNotPositive));
    assert_eq!(e.fund_campaign(9, s(ALICE), 10), Err(EscrowError::CampaignNotFound));
    e.fund_campaign(1, s(ALICE), 900).unwrap();
    assert_eq!(e.fund_campaign(1, s(BOB), 101), Err(EscrowError::ExceedsRemainingTarget));
    e.fund_campaign(1, s(BOB), 100).unwrap();
    assert_eq!(e.fund_campaign(1, s(BOB), 1), Err(EscrowError::NotAcceptingContributions));
    assert_eq!(campaign(&e).total_funded, 1_000);
}

#[test]
fn repeated_contributions_accumulate() {
    let mut e = escrow_with_campaign(1_000);
    e.fund_campaign(1, s(ALICE), 100).unwrap();
    e.fund_campaign(1, s(BOB), 50).unwrap();
    e.fund_campaign(1, s(ALICE), 25).unwrap();
    assert_eq!(e.get_contribution(1, s(ALICE)), 125);
    assert_eq!(e.get_contribution(1, s(BOB)), 50);
    assert_eq!(campaign(&e).total_funded, 175);
}

#[test]
fn receive_contribution_needs_admin_and_farmer() {
    let mut e = ProductionEscrowContract::new();
    e.create_campaign(1, s(FARMER), 1_000, s(TOKEN), 0, s("m")).unwrap();
    assert_eq!(e.receive_contribution(1, s(ALICE), 10), Err(EscrowError::AdminNotSet));
    e.initialize(s(ADMIN)).unwrap();
    assert_eq!(e.receive_contribution(1, s(ALICE), -1), Err(EscrowError::AmountNotPositive));
    assert_eq!(e.receive_contribution(2, s(ALICE), 1), Err(EscrowError::CampaignNotFound));
    assert_eq!(e.receive_contribution(1, s(ALICE), 1_001), Err(EscrowError::ExceedsRemainingTarget));
    let effects = e.receive_contribution(1, s(ALICE), 1_000).unwrap();
    assert_eq!(
        effects,
        vec![
            auth(ADMIN),
            auth(FARMER),
            Effect::CheckSolvency { campaign_id: 1, token: s(TOKEN) },
            Effect::Emit {
                event: Event::ContributionReconciled {
                    campaign_id: 1,
                    investor: s(ALICE),
                    amount: 1_000,
                },
            },
        ]
    );
    // A reconciled contribution does not mark the campaign funded by itself.
    assert_eq!(campaign(&e).status, CampaignStatus::Funding);
    assert_eq!(campaign(&e).total_funded, 1_000);
    assert_eq!(e.get_contribution(1, s(ALICE)), 1_000);
}

#[test]
fn complete_funding_checks_totals() {
    let mut e = escrow_with_campaign(1_000);
    e.receive_contribution(1, s(ALICE), 700).unwrap();
    assert_eq!(e.complete_funding(1, 600), Err(EscrowError::TotalFundedMismatch));
    assert_eq!(e.complete_funding(1, 700), Err(EscrowError::TargetNotReached));
    e.receive_contribution(1, s(BOB), 300).unwrap();
    assert_eq!(e.complete_funding(2, 1_000), Err(EscrowError::CampaignNotFound));
    let effects = e.complete_funding(1, 1_000).unwrap();
    assert_eq!(
        effects,
        vec![
            auth(ADMIN),
            Effect::Emit { event: Event::CampaignFunded { campaign_id: 1, total_funded: 1_000 } },
        ]
    );
    assert_eq!(campaign(&e).status, CampaignStatus::Funded);
    assert_eq!(e.complete_funding(1, 1_000), Err(EscrowError::NotAcceptingContributions));
}

#[test]
fn configure_tranches_validation() {
    let mut e = escrow_with_campaign(1_000);
    let t = |a: i128| Tranche { amount: a, released: false };
    assert_eq!(e.configure_tranches(1, vec![t(10)]), Err(EscrowError::NotFundedForTranches));
    e.fund_campaign(1, s(ALICE), 1_000).unwrap();
    assert_eq!(e.configure_tranches(1, vec![]), Err(EscrowError::EmptyTrancheList));
    assert_eq!(
        e.configure_tranches(1, vec![t(2_000), t(0)]),
        Err(EscrowError::TrancheNotPositive)
    );
    assert_eq!(
        e.configure_tranches(1, vec![t(600), t(401)]),
        Err(EscrowError::TranchesExceedFunded)
    );
    let effects = e.configure_tranches(1, vec![t(600), t(400)]).unwrap();
    assert_eq!(
        effects,
        vec![
            auth(ADMIN),
            Effect::Emit { event: Event::TranchesConfigured { campaign_id: 1, count: 2 } },
        ]
    );
    assert_eq!(e.get_tranches(1), vec![t(600), t(400)]);
}

#[test]
fn release_tranche_pays_the_next_tranche_in_order() {
    let mut e = escrow_with_campaign(1_000);
    e.fund_campaign(1, s(ALICE), 1_000).unwrap();
    let t = |a: i128, r: bool| Tranche { amount: a, released: r };
    e.configure_tranches(1, vec![t(300, false), t(400, false), t(300, false)]).unwrap();
    assert_eq!(e.release_tranche(1, s(FARMER), 0), Err(EscrowError::AmountNotPositive));
    assert_eq!(e.release_tranche(1, s(FARMER), 250), Err(EscrowError::NoMatchingTranche));
    // The 400 tranche is not the next one yet.
    assert_eq!(e.release_tranche(1, s(FARMER), 400), Err(EscrowError::NoMatchingTranche));
    let effects = e.release_tranche(1, s(CAROL), 300).unwrap();
    assert_eq!(
        effects,
        vec![
            auth(ADMIN),
            Effect::Transfer {
                token: s(TOKEN),
                from: Party::Escrow,
                to: Party::Account(s(FARMER)),
                amount: 300,
            },
            Effect::Emit {
                event: Event::TrancheReleased { campaign_id: 1, recipient: s(CAROL), amount: 300 },
            },
        ]
    );
    assert_eq!(e.get_tranches(1), vec![t(300, true), t(400, false), t(300, false)]);
    assert_eq!(campaign(&e).status, CampaignStatus::InProduction);
    assert_eq!(campaign(&e).released, 300);
    assert_eq!(e.release_tranche(1, s(FARMER), 300), Err(EscrowError::NoMatchingTranche));
    e.release_tranche(1, s(FARMER), 400).unwrap();
    assert_eq!(e.get_tranches(1), vec![t(300, true), t(400, true), t(300, false)]);
    e.release_tranche(1, s(FARMER), 300).unwrap();
    assert_eq!(campaign(&e).released, 1_000);
    // Every tranche is released: released equals their sum.
    assert_eq!(e.get_tranches(1).iter().filter(|x| x.released).map(|x| x.amount).sum::<i128>(), 1_000);
    assert_eq!(e.release_tranche(1, s(FARMER), 300), Err(EscrowError::ExceedsEscrowBalance));
}

#[test]
fn release_tranche_rejects_when_all_tranches_released() {
    let mut e = escrow_with_campaign(1_000);
    e.fund_campaign(1, s(ALICE), 1_000).unwrap();
    let t = |a: i128, r: bool| Tranche { amount: a, released: r };
    e.configure_tranches(1, vec![t(100, true)]).unwrap();
    assert_eq!(e.release_tranche(1, s(FARMER), 100), Err(EscrowError::NoMatchingTranche));
}

#[test]
fn release_without_tranches_is_bounded_by_escrow() {
    let mut e = funded_escrow();
    assert_eq!(e.release_tranche(1, s(FARMER), 1_001), Err(EscrowError::ExceedsEscrowBalance));
    e.release_tranche(1, s(FARMER), 250).unwrap();
    assert_eq!(campaign(&e).released, 250);
    assert_eq!(e.get_tranches(1), vec![]);
    assert_eq!(e.release_tranche(1, s(FARMER), 751), Err(EscrowError::ExceedsEscrowBalance));
}

#[test]
fn release_is_blocked_for_terminal_and_unfunded_campaigns() {
    let mut e = escrow_with_campaign(1_000);
    e.fund_campaign(1, s(ALICE), 500).unwrap();
    assert_eq!(e.release_tranche(1, s(FARMER), 100), Err(EscrowError::NotFundedOrInProduction));
    e.open_dispute(1, s(ALICE), s("late"), 10, 20).unwrap();
    assert_eq!(e.release_tranche(1, s(FARMER), 100), Err(EscrowError::TerminalState));
    let mut f = escrow_with_campaign(1_000);
    f.mark_failed(1).unwrap();
    assert_eq!(f.release_tranche(1, s(FARMER), 100), Err(EscrowError::TerminalState));
}

#[test]
fn report_harvest_by_farmer_or_admin() {
    let mut e = funded_escrow();
    assert_eq!(
        e.report_harvest(1, s(ALICE), s("good"), 5, 6),
        Err(EscrowError::NotAuthorizedToReportHarvest)
    );
    assert_eq!(
        e.report_harvest(2, s(FARMER), s("good"), 5, 6),
        Err(EscrowError::CampaignNotFound)
    );
    let effects = e.report_harvest(1, s(ADMIN), s("good"), 5, 6).unwrap();
    assert_eq!(
        effects,
        vec![
            auth(ADMIN),
            Effect::Emit {
                event: Event::HarvestReported {
                    campaign_id: 1,
                    farmer: s(ADMIN),
                    outcome: s("good"),
                },
            },
        ]
    );
    let record = e.get_harvest_record(1).unwrap();
    assert_eq!(record.farmer, s(ADMIN));
    assert_eq!(record.outcome, s("good"));
    assert_eq!(record.timestamp, 5);
    assert_eq!(record.ledger_sequence, 6);
    assert_eq!(campaign(&e).status, CampaignStatus::Harvested);
    assert_eq!(
        e.report_harvest(1, s(FARMER), s("again"), 7, 8),
        Err(EscrowError::NotFundedOrInProduction)
    );
}

#[test]
fn open_dispute_authorization() {
    let mut e = escrow_with_campaign(1_000);
    e.fund_campaign(1, s(ALICE), 100).unwrap();
    assert_eq!(
        e.open_dispute(1, s(CAROL), s("why"), 1, 2),
        Err(EscrowError::NotAuthorizedToOpenDispute)
    );
    let effects = e.open_dispute(1, s(ALICE), s("why"), 1, 2).unwrap();
    assert_eq!(
        effects,
        vec![
            auth(ALICE),
            Effect::Emit {
                event: Event::DisputeOpened { campaign_id: 1, opener: s(ALICE), reason: s("why") },
            },
        ]
    );
    let d = e.get_dispute(1).unwrap();
    assert_eq!(d.campaign_id, 1);
    assert_eq!(d.opener, s(ALICE));
    assert_eq!(d.status, DisputeStatus::Open);
    assert_eq!(d.resolution, DisputeResolution::Pending);
    assert_eq!(campaign(&e).status, CampaignStatus::Disputed);
    assert_eq!(e.open_dispute(1, s(FARMER), s("again"), 1, 2), Err(EscrowError::NotDisputable));
    let mut f = escrow_with_campaign(1_000);
    assert!(f.open_dispute(1, s(FARMER), s("farmer"), 1, 2).is_ok());
    let mut g = escrow_with_campaign(1_000);
    assert!(g.open_dispute(1, s(ADMIN), s("admin"), 1, 2).is_ok());
}

#[test]
fn resolve_dispute_partial_settlement() {
    let mut e = funded_escrow();
    e.release_tranche(1, s(FARMER), 200).unwrap();
    assert_eq!(
        e.resolve_dispute(1, DisputeResolution::FullRefund, 0),
        Err(EscrowError::NotDisputed)
    );
    e.open_dispute(1, s(BOB), s("pests"), 3, 4).unwrap();
    assert_eq!(
        e.resolve_dispute(1, DisputeResolution::Pending, 0),
        Err(EscrowError::InvalidResolution)
    );
    assert_eq!(
        e.resolve_dispute(1, DisputeResolution::FullRefund, 1),
        Err(EscrowError::PayoutMustBeZeroForFullRefund)
    );
    assert_eq!(
        e.resolve_dispute(1, DisputeResolution::FullPayout, 1),
        Err(EscrowError::PayoutMustBeZeroForFullPayout)
    );
    assert_eq!(
        e.resolve_dispute(1, DisputeResolution::PartialSettlement, 800),
        Err(EscrowError::InvalidPartialSettlement)
    );
    assert_eq!(
        e.resolve_dispute(1, DisputeResolution::PartialSettlement, 0),
        Err(EscrowError::InvalidPartialSettlement)
    );
    let effects = e.resolve_dispute(1, DisputeResolution::PartialSettlement, 300).unwrap();
    assert_eq!(
        effects,
        vec![
            auth(ADMIN),
            Effect::Transfer {
                token: s(TOKEN),
                from: Party::Escrow,
                to: Party::Account(s(FARMER)),
                amount: 300,
            },
            Effect::Emit {
                event: Event::DisputeResolved {
                    campaign_id: 1,
                    admin: s(ADMIN),
                    resolution: DisputeResolution::PartialSettlement,
                    payout_to_farmer: 300,
                    refundable_to_investors: 500,
                },
            },
        ]
    );
    let c = campaign(&e);
    assert_eq!(c.released, 500);
    assert_eq!(c.refundable, 500);
    assert_eq!(c.status, CampaignStatus::Resolved);
    let d = e.get_dispute(1).unwrap();
    assert_eq!(d.status, DisputeStatus::Resolved);
    assert_eq!(d.resolution, DisputeResolution::PartialSettlement);
    assert_eq!(
        e.resolve_dispute(1, DisputeResolution::FullRefund, 0),
        Err(EscrowError::NotDisputed)
    );
}

#[test]
fn resolve_dispute_full_refund_and_full_payout() {
    let mut e = funded_escrow();
    e.open_dispute(1, s(FARMER), s("x"), 0, 0).unwrap();
    let refund = e.resolve_dispute(1, DisputeResolution::FullRefund, 0).unwrap();
    // Nothing goes to the farmer, so nothing is transferred.
    assert_eq!(refund.len(), 2);
    assert_eq!(campaign(&e).refundable, 1_000);
    assert_eq!(campaign(&e).released, 0);
    let mut f = funded_escrow();
    f.open_dispute(1, s(FARMER), s("x"), 0, 0).unwrap();
    let payout = f.resolve_dispute(1, DisputeResolution::FullPayout, 0).unwrap();
    assert_eq!(
        payout[1],
        Effect::Transfer {
            token: s(TOKEN),
            from: Party::Escrow,
            to: Party::Account(s(FARMER)),
            amount: 1_000,
        }
    );
    assert_eq!(campaign(&f).refundable, 0);
    assert_eq!(campaign(&f).released, 1_000);
}

#[test]
fn claim_refund_pays_truncated_pro_rata_share() {
    let mut e = escrow_with_campaign(1_000);
    e.fund_campaign(1, s(ALICE), 333).unwrap();
    e.fund_campaign(1, s(BOB), 333).unwrap();
    e.fund_campaign(1, s(CAROL), 334).unwrap();
    e.release_tranche(1, s(FARMER), 900).unwrap();
    e.mark_failed(1).unwrap();
    assert_eq!(campaign(&e).refundable, 100);
    let a = e.claim_refund(1, s(ALICE)).unwrap();
    assert_eq!(
        a,
        vec![
            auth(ALICE),
            Effect::Transfer {
                token: s(TOKEN),
                from: Party::Escrow,
                to: Party::Account(s(ALICE)),
                amount: 33,
            },
            Effect::Emit {
                event: Event::RefundClaimed { campaign_id: 1, investor: s(ALICE), amount: 33 },
            },
        ]
    );
    assert_eq!(e.get_contribution(1, s(ALICE)), 0);
    assert_eq!(e.claim_refund(1, s(ALICE)), Err(EscrowError::NothingToRefund));
    let b = e.claim_refund(1, s(BOB)).unwrap();
    let c = e.claim_refund(1, s(CAROL)).unwrap();
    let paid = |fx: &Vec<Effect>| match &fx[1] {
        Effect::Transfer { amount, .. } => *amount,
        _ => panic!("expected a transfer"),
    };
    assert_eq!(paid(&b), 33);
    assert_eq!(paid(&c), 33);
    // The dust stays in escrow: the claims add up to less than the pool.
    assert!(33 + paid(&b) + paid(&c) <= campaign(&e).refundable);
    assert_eq!(campaign(&e).refundable, 100);
}

#[test]
fn claim_refund_rejections() {
    let mut e = funded_escrow();
    assert_eq!(e.claim_refund(1, s(ALICE)), Err(EscrowError::NoRefundAvailable));
    assert_eq!(e.claim_refund(4, s(ALICE)), Err(EscrowError::CampaignNotFound));
    e.release_tranche(1, s(FARMER), 1_000).unwrap();
    e.mark_failed(1).unwrap();
    assert_eq!(campaign(&e).refundable, 0);
    assert_eq!(e.claim_refund(1, s(CAROL)), Err(EscrowError::NothingToRefund));
    // Nothing left to refund: the share rounds to zero.
    assert_eq!(e.claim_refund(1, s(ALICE)), Err(EscrowError::NothingToRefund));
}

#[test]
fn settle_and_claim_returns() {
    let mut e = funded_escrow();
    e.release_tranche(1, s(FARMER), 200).unwrap();
    assert_eq!(e.settle_campaign(1, s(FARMER), 100), Err(EscrowError::NotHarvested));
    e.report_harvest(1, s(FARMER), s("bumper"), 1, 1).unwrap();
    assert_eq!(e.settle_campaign(1, s(FARMER), -1), Err(EscrowError::NegativePayout));
    assert_eq!(
        e.settle_campaign(1, s(FARMER), 801),
        Err(EscrowError::PayoutExceedsEscrowBalance)
    );
    assert_eq!(e.claim_return(1, s(ALICE)), Err(EscrowError::NotSettled));
    let effects = e.settle_campaign(1, s(FARMER), 300).unwrap();
    assert_eq!(
        effects,
        vec![
            auth(ADMIN),
            Effect::Transfer {
                token: s(TOKEN),
                from: Party::Escrow,
                to: Party::Account(s(FARMER)),
                amount: 300,
            },
            Effect::Emit {
                event: Event::CampaignSettled {
                    campaign_id: 1,
                    farmer: s(FARMER),
                    farmer_payout: 300,
                    investor_returns: 500,
                },
            },
        ]
    );
    let c = campaign(&e);
    assert_eq!(c.released, 500);
    assert_eq!(c.returnable, 500);
    assert_eq!(c.status, CampaignStatus::Settled);
    let a = e.claim_return(1, s(ALICE)).unwrap();
    assert_eq!(
        a[2],
        Effect::Emit { event: Event::ReturnClaimed { campaign_id: 1, investor: s(ALICE), amount: 300 } }
    );
    let b = e.claim_return(1, s(BOB)).unwrap();
    assert_eq!(
        b[1],
        Effect::Transfer {
            token: s(TOKEN),
            from: Party::Escrow,
            to: Party::Account(s(BOB)),
            amount: 200,
        }
    );
    assert_eq!(e.claim_return(1, s(BOB)), Err(EscrowError::NothingToReturn));
}

#[test]
fn settle_with_zero_payout_has_no_transfer() {
    let mut e = funded_escrow();
    e.report_harvest(1, s(FARMER), s("poor"), 1, 1).unwrap();
    let effects = e.settle_campaign(1, s(FARMER), 0).unwrap();
    assert_eq!(effects.len(), 2);
    assert_eq!(effects[0], auth(ADMIN));
    assert_eq!(campaign(&e).returnable, 1_000);
}

#[test]
fn settle_rejects_disputed_campaign() {
    let mut e = funded_escrow();
    e.open_dispute(1, s(ALICE), s("x"), 0, 0).unwrap();
    assert_eq!(e.settle_campaign(1, s(FARMER), 0), Err(EscrowError::CampaignDisputed));
}

#[test]
fn mark_failed_makes_held_funds_refundable() {
    let mut e = escrow_with_campaign(1_000);
    assert_eq!(e.mark_failed(3), Err(EscrowError::CampaignNotFound));
    e.fund_campaign(1, s(ALICE), 400).unwrap();
    let effects = e.mark_failed(1).unwrap();
    assert_eq!(
        effects,
        vec![
            auth(ADMIN),
            Effect::Emit { event: Event::CampaignFailed { campaign_id: 1, refundable: 400 } },
        ]
    );
    assert_eq!(campaign(&e).status, CampaignStatus::Failed);
    assert_eq!(e.mark_failed(1), Err(EscrowError::CannotMarkFailed));
    let mut f = ProductionEscrowContract::new();
    assert_eq!(f.mark_failed(1), Err(EscrowError::AdminNotSet));
}

#[test]
fn admin_only_operations_need_an_admin() {
    let mut e = ProductionEscrowContract::new();
    e.create_campaign(1, s(FARMER), 100, s(TOKEN), 0, s("m")).unwrap();
    assert_eq!(e.complete_funding(1, 0), Err(EscrowError::AdminNotSet));
    assert_eq!(e.configure_tranches(1, vec![]), Err(EscrowError::AdminNotSet));
    assert_eq!(e.release_tranche(1, s(FARMER), 1), Err(EscrowError::AdminNotSet));
    assert_eq!(
        e.resolve_dispute(1, DisputeResolution::FullRefund, 0),
        Err(EscrowError::AdminNotSet)
    );
    assert_eq!(e.settle_campaign(1, s(FARMER), 0), Err(EscrowError::AdminNotSet));
}

#[test]
fn solvency_check_compares_held_funds_with_balance() {
    let mut e = funded_escrow();
    e.release_tranche(1, s(FARMER), 300).unwrap();
    assert_eq!(e.check_solvency(1, 700), Ok(()));
    assert_eq!(e.check_solvency(1, 699), Err(EscrowError::InsufficientBalance));
    assert_eq!(e.check_solvency(2, 700), Err(EscrowError::CampaignNotFound));
}

#[test]
fn settled_campaign_record_never_changes() {
    let mut e = funded_escrow();
    e.report_harvest(1, s(FARMER), s("ok"), 1, 1).unwrap();
    e.settle_campaign(1, s(FARMER), 400).unwrap();
    let before = campaign(&e);
    assert!(e.fund_campaign(1, s(ALICE), 1).is_err());
    assert!(e.release_tranche(1, s(FARMER), 1).is_err());
    assert!(e.open_dispute(1, s(ALICE), s("x"), 0, 0).is_err());
    assert!(e.mark_failed(1).is_err());
    assert!(e.settle_campaign(1, s(FARMER), 0).is_err());
    e.claim_return(1, s(ALICE)).unwrap();
    assert_eq!(campaign(&e), before);
}

#[test]
fn contributions_add_up_to_total_before_payouts() {
    let mut e = escrow_with_campaign(10_000);
    e.fund_campaign(1, s(ALICE), 1_234).unwrap();
    e.receive_contribution(1, s(BOB), 766).unwrap();
    e.fund_campaign(1, s(ALICE), 1).unwrap();
    let total = e.get_contribution(1, s(ALICE)) + e.get_contribution(1, s(BOB));
    assert_eq!(total, campaign(&e).total_funded);
}

#[test]
fn settlement_pays_only_the_campaign_farmer() {
    let mut e = funded_escrow();
    e.report_harvest(1, s(FARMER), s("ok"), 1, 1).unwrap();
    assert_eq!(e.settle_campaign(1, s(CAROL), 100), Err(EscrowError::NotCampaignFarmer));
    assert_eq!(campaign(&e).status, CampaignStatus::Harvested);
    let effects = e.settle_campaign(1, s(FARMER), 100).unwrap();
    assert_eq!(
        effects[1],
        Effect::Transfer {
            token: s(TOKEN),
            from: Party::Escrow,
            to: Party::Account(s(FARMER)),
            amount: 100,
        }
    );
}

use production_escrow::{
    assert_solvent, contribution_amount, escrow_held, find_contribution, find_next_unreleased,
    is_terminal, pro_rata_share, set_contribution, Campaign, CampaignStatus, Contribution,
    EscrowError, Tranche, MAX_TARGET_AMOUNT,
};

fn books(total: i128, released: i128, refundable: i128, returnable: i128) -> Campaign {
    Campaign {
        farmer: "GFARMER".to_string(),
        target_amount: 1_000_000,
        token_address: "CTOKEN".to_string(),
        deadline: 0,
        harvest_metadata: "m".to_string(),
        total_funded: total,
        released,
        refundable,
        returnable,
        status: CampaignStatus::InProduction,
    }
}

#[test]
fn escrow_held_subtracts_all_obligations() {
    assert_eq!(escrow_held(&books(1_000, 100, 200, 300)), 400);
    assert_eq!(escrow_held(&books(1_000, 0, 0, 0)), 1_000);
    assert_eq!(escrow_held(&books(500, 500, 0, 0)), 0);
}

#[test]
fn terminal_statuses() {
    assert!(is_terminal(&CampaignStatus::Disputed));
    assert!(is_terminal(&CampaignStatus::Resolved));
    assert!(is_terminal(&CampaignStatus::Settled));
    assert!(is_terminal(&CampaignStatus::Failed));
    assert!(!is_terminal(&CampaignStatus::Active));
    assert!(!is_terminal(&CampaignStatus::Funding));
    assert!(!is_terminal(&CampaignStatus::Funded));
    assert!(!is_terminal(&CampaignStatus::InProduction));
    assert!(!is_terminal(&CampaignStatus::Harvested));
}

#[test]
fn pro_rata_share_truncates() {
    assert_eq!(pro_rata_share(1, 2, 3), 0);
    assert_eq!(pro_rata_share(2, 2, 3), 1);
    assert_eq!(pro_rata_share(333, 100, 1_000), 33);
    assert_eq!(pro_rata_share(1_000, 1_000, 1_000), 1_000);
    let max = MAX_TARGET_AMOUNT;
    assert_eq!(pro_rata_share(max, max, max), max);
    assert_eq!(pro_rata_share(max - 1, max, max), max - 1);
    // Division truncates toward zero, also for a negative product.
    assert_eq!(pro_rata_share(-7, 1, 2), -3);
    assert_eq!(pro_rata_share(7, 1, 2), 3);
}

#[test]
fn assert_solvent_requires_balance_to_cover_held_funds() {
    let c = books(1_000, 100, 0, 0);
    assert_eq!(assert_solvent(&c, 900), Ok(()));
    assert_eq!(assert_solvent(&c, 10_000), Ok(()));
    assert_eq!(assert_solvent(&c, 899), Err(EscrowError::InsufficientBalance));
    // Books that are not consistent are still checked by their held amount.
    let odd = books(100, 300, 0, 0);
    assert_eq!(assert_solvent(&odd, -200), Ok(()));
    assert_eq!(assert_solvent(&odd, -201), Err(EscrowError::InsufficientBalance));
}

#[test]
fn contribution_entries_are_kept_per_investor() {
    let mut entries: Vec<Contribution> = Vec::new();
    set_contribution(&mut entries, "GA".to_string(), 10);
    set_contribution(&mut entries, "GB".to_string(), 20);
    set_contribution(&mut entries, "GA".to_string(), 15);
    assert_eq!(entries.len(), 2);
    assert_eq!(contribution_amount(&entries, &"GA".to_string()), 15);
    assert_eq!(contribution_amount(&entries, &"GB".to_string()), 20);
    assert_eq!(contribution_amount(&entries, &"GC".to_string()), 0);
    assert_eq!(find_contribution(&entries, &"GB".to_string()), Some(1));
    assert_eq!(find_contribution(&entries, &"GC".to_string()), None);
}

#[test]
fn next_unreleased_tranche() {
    let t = |a: i128, r: bool| Tranche { amount: a, released: r };
    let ts = vec![t(5, true), t(7, false), t(5, false)];
    assert_eq!(find_next_unreleased(&ts), Some(1));
    assert_eq!(find_next_unreleased(&vec![t(5, true)]), None);
    assert_eq!(find_next_unreleased(&vec![]), None);
}

use production_escrow::{
    amounts_consistent, book_is_well_formed, check_tranches, contributions_well_formed, Campaign,
    CampaignBook, CampaignStatus, Contribution, EscrowError, ProductionEscrowContract, Tranche,
};

fn campaign(total: i128, released: i128, status: CampaignStatus) -> Campaign {
    Campaign {
        farmer: "GFARMER".to_string(),
        target_amount: 1_000,
        token_address: "CTOKEN".to_string(),
        deadline: 0,
        harvest_metadata: "m".to_string(),
        total_funded: total,
        released,
        refundable: 0,
        returnable: 0,
        status,
    }
}

fn entry(who: &str, amount: i128) -> Contribution {
    Contribution { investor: who.to_string(), amount }
}

fn book(total: i128, entries: Vec<Contribution>, status: CampaignStatus) -> CampaignBook {
    CampaignBook {
        campaign: campaign(total, 0, status),
        contributions: entries,
        tranches: vec![],
        dispute: None,
        harvest_record: None,
    }
}

#[test]
fn amounts_consistency_rules() {
    assert!(amounts_consistent(&campaign(500, 100, CampaignStatus::Funded)));
    assert!(!amounts_consistent(&campaign(1_001, 0, CampaignStatus::Funded)));
    assert!(!amounts_consistent(&campaign(500, 501, CampaignStatus::Funded)));
    assert!(!amounts_consistent(&campaign(500, -1, CampaignStatus::Funded)));
    let mut c = campaign(500, 100, CampaignStatus::Resolved);
    c.refundable = 300;
    c.returnable = 100;
    assert!(amounts_consistent(&c));
    c.returnable = 101;
    assert!(!amounts_consistent(&c));
}

#[test]
fn tranche_checks() {
    let t = |a: i128| Tranche { amount: a, released: false };
    assert_eq!(check_tranches(&vec![], 0), Ok(()));
    assert_eq!(check_tranches(&vec![t(1), t(2)], 3), Ok(()));
    assert_eq!(check_tranches(&vec![t(1), t(3)], 3), Err(EscrowError::TranchesExceedFunded));
    assert_eq!(check_tranches(&vec![t(5), t(-3)], 3), Err(EscrowError::TrancheNotPositive));
}

#[test]
fn contribution_list_checks() {
    let ok = vec![entry("GA", 300), entry("GB", 200)];
    assert!(contributions_well_formed(&ok, 500, true));
    assert!(contributions_well_formed(&ok, 600, false));
    assert!(!contributions_well_formed(&ok, 600, true));
    assert!(!contributions_well_formed(&ok, 499, false));
    let twice = vec![entry("GA", 1), entry("GB", 1), entry("GA", 1)];
    assert!(!contributions_well_formed(&twice, 3, true));
    let negative = vec![entry("GA", 10), entry("GB", -1)];
    assert!(!contributions_well_formed(&negative, 9, true));
}

#[test]
fn stored_books_are_checked_before_loading() {
    let good = book(500, vec![entry("GA", 500)], CampaignStatus::Funded);
    assert!(book_is_well_formed(&good));
    let short = book(500, vec![entry("GA", 400)], CampaignStatus::Funded);
    assert!(!book_is_well_formed(&short));
    // After payouts begin, cleared claims leave the entries below the total.
    let claimed = book(500, vec![entry("GA", 0), entry("GB", 100)], CampaignStatus::Failed);
    assert!(book_is_well_formed(&claimed));

    let mut ledger = ProductionEscrowContract::with_admin(Some("GADMIN".to_string()));
    assert_eq!(ledger.get_admin(), Ok("GADMIN".to_string()));
    assert_eq!(ledger.load_book(3, short), Err(EscrowError::MalformedBooks));
    assert!(!ledger.has_campaign(3));
    assert_eq!(ledger.load_book(3, good), Ok(()));
    assert!(ledger.has_campaign(3));
    assert_eq!(ledger.get_contribution(3, "GA".to_string()), 500);
    assert_eq!(ledger.book(3).unwrap().campaign.total_funded, 500);
    assert!(ledger.book(4).is_none());
    let again = book(500, vec![entry("GA", 500)], CampaignStatus::Funded);
    assert_eq!(ledger.load_book(3, again), Err(EscrowError::MalformedBooks));
    // The loaded campaign is operated on like any other.
    assert_eq!(ledger.release_tranche(3, "GFARMER".to_string(), 200).map(|fx| fx.len()), Ok(3));
    assert_eq!(ledger.get_campaign(3).unwrap().status, CampaignStatus::InProduction);
}

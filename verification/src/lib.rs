//! A verified model of an agricultural production escrow: farmers open
//! funding campaigns, investors contribute tokens, an administrator releases
//! tranches, and disputes, harvest settlement and failure turn what is still
//! held in escrow into payouts and pro-rata refunds or returns.
//!
//! The ledger keeps every campaign's books; each operation either rejects the
//! request with an `EscrowError` and leaves the books untouched, or updates
//! them and hands back the `Effect`s (authorisations, token transfers, a
//! solvency check and events) that the hosting environment must carry out.

pub mod accounting;
pub mod contributions;
pub mod escrow;
pub mod laws;
pub mod types;

pub use accounting::{assert_solvent, escrow_held, is_terminal, pro_rata_share, MAX_TARGET_AMOUNT};
pub use contributions::{
    contribution_amount, contributions_well_formed, find_contribution, set_contribution,
    Contribution,
};
pub use escrow::{
    amounts_consistent, book_is_well_formed, check_tranches, find_next_unreleased, CampaignBook,
    ProductionEscrowContract,
};
pub use types::{
    Campaign, CampaignStatus, Dispute, DisputeResolution, DisputeStatus, Effect, EscrowError,
    Event, HarvestRecord, Party, Tranche,
};

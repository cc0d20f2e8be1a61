//! Records kept by the escrow, its error codes, and the effects and events
//! that an operation asks its host to carry out.
//!
//! Accounts (investors, farmers, administrators and token contracts) are
//! identified by the text of their address; short labels (metadata, harvest
//! outcomes, dispute reasons) are carried as text too.

use vstd::prelude::*;

verus! {

/// Lifecycle of a funding campaign.
#[derive(Clone, Copy, Debug, PartialEq, Eq, Structural)]
pub enum CampaignStatus {
    Active,
    Funding,
    Funded,
    InProduction,
    Harvested,
    Disputed,
    Resolved,
    Settled,
    Failed,
}

/// The books of one campaign.
#[derive(Debug, PartialEq, Eq)]
pub struct Campaign {
    pub farmer: String,
    pub target_amount: i128,
    pub token_address: String,
    pub deadline: u64,
    pub harvest_metadata: String,
    /// Everything contributed so far.
    pub total_funded: i128,
    /// Paid out to the farmer.
    pub released: i128,
    /// Owed back to investors after a dispute or a failure.
    pub refundable: i128,
    /// Owed to investors after a settlement.
    pub returnable: i128,
    pub status: CampaignStatus,
}

impl Clone for Campaign {
    fn clone(&self) -> (r: Self)
        ensures
            r == *self,
    {
        Campaign {
            farmer: self.farmer.clone(),
            target_amount: self.target_amount,
            token_address: self.token_address.clone(),
            deadline: self.deadline,
            harvest_metadata: self.harvest_metadata.clone(),
            total_funded: self.total_funded,
            released: self.released,
            refundable: self.refundable,
            returnable: self.returnable,
            status: self.status,
        }
    }
}

/// One planned release of funds to the farmer.
#[derive(Clone, Copy, Debug, PartialEq, Eq, Structural)]
pub struct Tranche {
    pub amount: i128,
    pub released: bool,
}

#[derive(Clone, Copy, Debug, PartialEq, Eq, Structural)]
pub enum DisputeStatus {
    Open,
    Resolved,
}

#[derive(Clone, Copy, Debug, PartialEq, Eq, Structural)]
pub enum DisputeResolution {
    Pending,
    FullRefund,
    FullPayout,
    PartialSettlement,
}

#[derive(Debug, PartialEq, Eq)]
pub struct Dispute {
    pub campaign_id: u64,
    pub opener: String,
    pub reason: String,
    pub timestamp: u64,
    pub ledger_sequence: u32,
    pub status: DisputeStatus,
    pub resolution: DisputeResolution,
}

impl Clone for Dispute {
    fn clone(&self) -> (r: Self)
        ensures
            r == *self,
    {
        Dispute {
            campaign_id: self.campaign_id,
            opener: self.opener.clone(),
            reason: self.reason.clone(),
            timestamp: self.timestamp,
            ledger_sequence: self.ledger_sequence,
            status: self.status,
            resolution: self.resolution,
        }
    }
}

#[derive(Debug, PartialEq, Eq)]
pub struct HarvestRecord {
    pub farmer: String,
    pub outcome: String,
    pub timestamp: u64,
    pub ledger_sequence: u32,
}

impl Clone for HarvestRecord {
    fn clone(&self) -> (r: Self)
        ensures
            r == *self,
    {
        HarvestRecord {
            farmer: self.farmer.clone(),
            outcome: self.outcome.clone(),
            timestamp: self.timestamp,
            ledger_sequence: self.ledger_sequence,
        }
    }
}

/// Why a request was rejected.
#[derive(Clone, Copy, Debug, PartialEq, Eq, Structural)]
pub enum EscrowError {
    AdminAlreadyInitialized,
    AdminNotSet,
    CampaignAlreadyExists,
    TargetNotPositive,
    TargetTooLarge,
    AmountNotPositive,
    CampaignNotFound,
    NotAcceptingContributions,
    ExceedsRemainingTarget,
    InsufficientBalance,
    TotalFundedMismatch,
    TargetNotReached,
    NotFundedForTranches,
    EmptyTrancheList,
    TrancheNotPositive,
    TranchesExceedFunded,
    TerminalState,
    NotFundedOrInProduction,
    ExceedsEscrowBalance,
    NoMatchingTranche,
    NotAuthorizedToReportHarvest,
    NotDisputable,
    NotAuthorizedToOpenDispute,
    NotDisputed,
    DisputeNotFound,
    DisputeAlreadyResolved,
    InvalidResolution,
    PayoutMustBeZeroForFullRefund,
    PayoutMustBeZeroForFullPayout,
    InvalidPartialSettlement,
    NoRefundAvailable,
    NothingToRefund,
    NegativePayout,
    CampaignDisputed,
    NotHarvested,
    /// The named farmer is not the campaign's farmer.
    NotCampaignFarmer,
    PayoutExceedsEscrowBalance,
    CannotMarkFailed,
    NotSettled,
    NothingToReturn,
    /// Stored books that are inconsistent, or a campaign loaded twice.
    MalformedBooks,
}

/// A side of a token transfer: the escrow contract itself or an account.
#[derive(Debug, PartialEq, Eq)]
pub enum Party {
    Escrow,
    Account(String),
}

/// What the escrow announces after a successful operation.
#[derive(Debug, PartialEq, Eq)]
pub enum Event {
    CampaignCreated { campaign_id: u64, farmer: String, target_amount: i128 },
    CampaignFunded { campaign_id: u64, total_funded: i128 },
    ContributionReceived { campaign_id: u64, investor: String, amount: i128 },
    ContributionReconciled { campaign_id: u64, investor: String, amount: i128 },
    TranchesConfigured { campaign_id: u64, count: usize },
    TrancheReleased { campaign_id: u64, recipient: String, amount: i128 },
    HarvestReported { campaign_id: u64, farmer: String, outcome: String },
    DisputeOpened { campaign_id: u64, opener: String, reason: String },
    DisputeResolved {
        campaign_id: u64,
        admin: String,
        resolution: DisputeResolution,
        payout_to_farmer: i128,
        refundable_to_investors: i128,
    },
    RefundClaimed { campaign_id: u64, investor: String, amount: i128 },
    CampaignSettled {
        campaign_id: u64,
        farmer: String,
        farmer_payout: i128,
        investor_returns: i128,
    },
    CampaignFailed { campaign_id: u64, refundable: i128 },
    ReturnClaimed { campaign_id: u64, investor: String, amount: i128 },
}

/// Work that the host must carry out, in order, for an accepted operation.
/// If any of it fails the whole operation must be abandoned.
#[derive(Debug, PartialEq, Eq)]
pub enum Effect {
    /// The account must have authorised this call.
    RequireAuth { account: String },
    /// Move `amount` of `token` from one party to the other.
    Transfer { token: String, from: Party, to: Party, amount: i128 },
    /// Read the escrow's balance of `token` and pass it to
    /// `ProductionEscrowContract::check_solvency` for this campaign.
    CheckSolvency { campaign_id: u64, token: String },
    /// Publish an event.
    Emit { event: Event },
}

} // verus!

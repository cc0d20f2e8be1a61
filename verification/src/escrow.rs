//! The escrow ledger and its operations.
//!
//! Each operation checks its request in a fixed order and rejects the first
//! violation with an `EscrowError`, leaving the ledger unchanged; otherwise it
//! updates the ledger and returns the effects the host must perform, in
//! order. Every operation keeps the ledger well formed (`wf`).

use std::collections::HashMap;

use vstd::prelude::*;

use crate::accounting::{
    accepting_status, assert_solvent, campaign_books_consistent, escrow_held, held, is_terminal,
    lemma_share_bounds, open_status, pro_rata_share, producing_status, share_of, terminal_status,
    MAX_TARGET_AMOUNT,
};
use crate::contributions::{
    count_positive, lemma_claim_dust_below_count, lemma_sum_of_zeros, share_in, amounts_nonnegative, contribution_amount, contribution_of, contributions_well_formed,
    investors_distinct, lemma_contribution_bounds, lemma_total_claimable_bounded,
    set_contribution, total_claimable, total_contributed, Contribution,
};
use crate::types::{
    Campaign, CampaignStatus, Dispute, DisputeResolution, DisputeStatus, Effect, EscrowError,
    Event, HarvestRecord, Party, Tranche,
};

verus! {

broadcast use vstd::std_specs::hash::group_hash_axioms;

/// Everything the escrow records about one campaign.
#[derive(Debug, PartialEq, Eq)]
pub struct CampaignBook {
    pub campaign: Campaign,
    /// At most one entry per investor.
    pub contributions: Vec<Contribution>,
    /// The configured tranches, in release order (empty when none).
    pub tranches: Vec<Tranche>,
    pub dispute: Option<Dispute>,
    pub harvest_record: Option<HarvestRecord>,
}

/// The escrow: its administrator and the books of every campaign.
#[derive(Debug)]
pub struct ProductionEscrowContract {
    admin: Option<String>,
    books: HashMap<u64, CampaignBook>,
}

/// Statuses in which investors are owed refunds or returns.
pub open spec fn payout_status(s: CampaignStatus) -> bool {
    s == CampaignStatus::Resolved || s == CampaignStatus::Settled || s == CampaignStatus::Failed
}

/// A campaign's books are well formed: the amounts are consistent, each
/// investor has one non-negative entry, the entries never add up to more
/// than was funded, and before payouts begin they add up to exactly what was
/// funded; the configured tranches are positive and never add up to more
/// than was funded.
pub open spec fn book_wf(b: CampaignBook) -> bool {
    &&& campaign_books_consistent(b.campaign)
    &&& tranches_positive(b.tranches@)
    &&& tranche_total(b.tranches@) <= b.campaign.total_funded
    &&& investors_distinct(b.contributions@)
    &&& amounts_nonnegative(b.contributions@)
    &&& total_contributed(b.contributions@) <= b.campaign.total_funded
    &&& !payout_status(b.campaign.status) ==> total_contributed(b.contributions@)
        == b.campaign.total_funded
    &&& before_release_status(b.campaign.status) ==> b.campaign.released == 0
        && b.campaign.refundable == 0 && b.campaign.returnable == 0
}

/// Statuses in which nothing has yet left escrow or become owed to anyone.
pub open spec fn before_release_status(s: CampaignStatus) -> bool {
    s == CampaignStatus::Active || s == CampaignStatus::Funding || s == CampaignStatus::Funded
}

/// Once a campaign is resolved, settled or failed, no investor's recorded
/// contribution to it ever grows again.
pub open spec fn closed_contributions_never_grow(
    prev: ProductionEscrowContract,
    next: ProductionEscrowContract,
) -> bool {
    forall|id: u64, w: Seq<char>|
        #![trigger prev.books().contains_key(id), contribution_of(next.books()[id].contributions@, w)]
        prev.books().contains_key(id) && payout_status(prev.books()[id].campaign.status)
            ==> contribution_of(next.books()[id].contributions@, w) <= contribution_of(
            prev.books()[id].contributions@,
            w,
        )
}

/// Once set, the administrator never changes.
pub open spec fn admin_kept(prev: ProductionEscrowContract, next: ProductionEscrowContract) -> bool {
    prev.admin_account() is Some ==> next.admin_account() == prev.admin_account()
}

/// What every operation guarantees between the ledger before and after it,
/// whether it accepts or rejects the request: both are well formed, the
/// administrator once set stays, resolved, settled and failed campaigns keep
/// their record and never see a contribution grow, and every campaign moves
/// only forward along its lifecycle.
pub open spec fn ledger_step(prev: ProductionEscrowContract, next: ProductionEscrowContract) -> bool {
    &&& prev.wf()
    &&& next.wf()
    &&& admin_kept(prev, next)
    &&& payout_records_kept(prev, next)
    &&& campaigns_progress(prev, next)
    &&& closed_contributions_never_grow(prev, next)
}

/// `next` differs from `prev` at most in the books of `id`, which `prev`
/// already held.
pub open spec fn only_book_changed(
    prev: ProductionEscrowContract,
    next: ProductionEscrowContract,
    id: u64,
) -> bool {
    &&& next.admin_account() == prev.admin_account()
    &&& prev.books().contains_key(id)
    &&& next.books() == prev.books().insert(id, next.books()[id])
}

/// Once a campaign has been resolved, settled or declared failed, its
/// record never changes again.
pub open spec fn payout_records_kept(prev: ProductionEscrowContract, next: ProductionEscrowContract) -> bool {
    forall|id: u64|
        #[trigger] prev.books().contains_key(id) && payout_status(prev.books()[id].campaign.status)
            ==> next.books().contains_key(id) && next.books()[id].campaign
            == prev.books()[id].campaign
}

/// The lifecycle of a campaign: the statuses that may follow `from` (a
/// status may always stay as it is). Resolved, settled and failed campaigns
/// stay where they are.
pub open spec fn status_may_follow(from: CampaignStatus, to: CampaignStatus) -> bool {
    from == to || match from {
        CampaignStatus::Active => to == CampaignStatus::Funding || to == CampaignStatus::Funded
            || to == CampaignStatus::Disputed || to == CampaignStatus::Failed,
        CampaignStatus::Funding => to == CampaignStatus::Funded || to == CampaignStatus::Disputed
            || to == CampaignStatus::Failed,
        CampaignStatus::Funded => to == CampaignStatus::InProduction || to
            == CampaignStatus::Harvested || to == CampaignStatus::Disputed || to
            == CampaignStatus::Failed,
        CampaignStatus::InProduction => to == CampaignStatus::Harvested || to
            == CampaignStatus::Disputed || to == CampaignStatus::Failed,
        CampaignStatus::Harvested => to == CampaignStatus::Settled,
        CampaignStatus::Disputed => to == CampaignStatus::Resolved,
        _ => false,
    }
}

/// Campaigns are never dropped, move only along their lifecycle, and what
/// they record as funded, released, refundable and returnable never
/// decreases.
pub open spec fn campaigns_progress(prev: ProductionEscrowContract, next: ProductionEscrowContract) -> bool {
    forall|id: u64|
        #[trigger] prev.books().contains_key(id) ==> {
            let a = prev.books()[id].campaign;
            let b = next.books()[id].campaign;
            &&& next.books().contains_key(id)
            &&& status_may_follow(a.status, b.status)
            &&& a.total_funded <= b.total_funded
            &&& a.released <= b.released
            &&& a.refundable <= b.refundable
            &&& a.returnable <= b.returnable
        }
}

/// `next` records `amount` for `who` and the same as `prev` for everybody else.
pub open spec fn contribution_recorded(
    prev: Seq<Contribution>,
    next: Seq<Contribution>,
    who: Seq<char>,
    amount: int,
) -> bool {
    &&& contribution_of(next, who) == amount
    &&& forall|w: Seq<char>| w != who ==> #[trigger] contribution_of(next, w) == contribution_of(prev, w)
}

/// The campaign after `amount` more has been contributed, in `status`.
pub open spec fn with_contribution(c: Campaign, amount: int, status: CampaignStatus) -> Campaign {
    Campaign { total_funded: (c.total_funded + amount) as i128, status, ..c }
}

/// The sum of the tranche amounts.
pub open spec fn tranche_total(s: Seq<Tranche>) -> int
    decreases s.len(),
{
    if s.len() == 0 {
        0
    } else {
        tranche_total(s.drop_last()) + s.last().amount
    }
}

/// Every tranche amount is positive.
pub open spec fn tranches_positive(s: Seq<Tranche>) -> bool {
    forall|i: int| 0 <= i < s.len() ==> #[trigger] s[i].amount > 0
}

/// `k` is the next tranche to release: the first one not yet released.
pub open spec fn next_unreleased(s: Seq<Tranche>, k: int) -> bool {
    &&& 0 <= k < s.len()
    &&& !s[k].released
    &&& forall|j: int| 0 <= j < k ==> #[trigger] s[j].released
}

/// The next tranche to release has exactly this amount.
pub open spec fn next_tranche_is(s: Seq<Tranche>, amount: i128) -> bool {
    exists|k: int| next_unreleased(s, k) && s[k].amount == amount
}

/// The sum of the amounts of the tranches already released.
pub open spec fn released_tranche_total(s: Seq<Tranche>) -> int
    decreases s.len(),
{
    if s.len() == 0 {
        0
    } else {
        released_tranche_total(s.drop_last()) + if s.last().released {
            s.last().amount as int
        } else {
            0
        }
    }
}

/// The books after `amount` is released to the farmer: the campaign records
/// it as released (a `Funded` campaign moves into production) and, when
/// tranches are configured, the next unreleased tranche, which has exactly
/// this amount, is marked released; nothing else changes.
pub open spec fn release_step(prev: CampaignBook, next: CampaignBook, amount: i128) -> bool {
    &&& next.campaign == ProductionEscrowContract::after_release(prev.campaign, amount)
    &&& next.contributions == prev.contributions
    &&& next.dispute == prev.dispute
    &&& next.harvest_record == prev.harvest_record
    &&& if prev.tranches@.len() == 0 {
        next.tranches@ == prev.tranches@
    } else {
        exists|k: int|
            next_unreleased(prev.tranches@, k) && prev.tranches@[k].amount == amount
                && next.tranches@ == prev.tranches@.update(k, Tranche { amount, released: true })
    }
}

/// Marking a tranche released keeps the tranche total.
pub proof fn lemma_tranche_total_mark_released(s: Seq<Tranche>, i: int)
    requires
        0 <= i < s.len(),
    ensures
        tranche_total(s.update(i, Tranche { amount: s[i].amount, released: true }))
            == tranche_total(s),
    decreases s.len(),
{
    let t = Tranche { amount: s[i].amount, released: true };
    let s2 = s.update(i, t);
    if i == s.len() - 1 {
        assert(s2.drop_last() =~= s.drop_last());
    } else {
        assert(s2.drop_last() =~= s.drop_last().update(i, t));
        lemma_tranche_total_mark_released(s.drop_last(), i);
    }
}

/// The position of the next tranche to release, if any is unreleased.
pub fn find_next_unreleased(tranches: &Vec<Tranche>) -> (r: Option<usize>)
    ensures
        match r {
            Some(k) => next_unreleased(tranches@, k as int),
            None => forall|j: int| 0 <= j < tranches@.len() ==> #[trigger] tranches@[j].released,
        },
{
    let mut i: usize = 0;
    while i < tranches.len()
        invariant
            i <= tranches.len(),
            forall|j: int| 0 <= j < i ==> #[trigger] tranches@[j].released,
        decreases tranches.len() - i,
    {
        if !tranches[i].released {
            return Some(i);
        }
        i = i + 1;
    }
    None
}

/// Checks that every tranche amount is positive (else `TrancheNotPositive`)
/// and that together they do not exceed `funded` (else
/// `TranchesExceedFunded`).
pub fn check_tranches(tranches: &Vec<Tranche>, funded: i128) -> (r: Result<(), EscrowError>)
    requires
        0 <= funded <= MAX_TARGET_AMOUNT,
    ensures
        r == if !tranches_positive(tranches@) {
            Err(EscrowError::TrancheNotPositive)
        } else if tranche_total(tranches@) > funded {
            Err(EscrowError::TranchesExceedFunded)
        } else {
            Ok::<(), EscrowError>(())
        },
{
    let mut total: i128 = 0;
    let mut exceeded = false;
    let mut i: usize = 0;
    while i < tranches.len()
        invariant
            i <= tranches.len(),
            0 <= funded <= MAX_TARGET_AMOUNT,
            0 <= total <= funded,
            forall|k: int| 0 <= k < i ==> #[trigger] tranches@[k].amount > 0,
            !exceeded ==> total == tranche_total(tranches@.subrange(0, i as int)) && total <= funded,
            exceeded ==> tranche_total(tranches@.subrange(0, i as int)) > funded,
        decreases tranches.len() - i,
    {
        let amount = tranches[i].amount;
        if amount <= 0 {
            return Err(EscrowError::TrancheNotPositive);
        }
        proof {
            assert(tranches@.subrange(0, i + 1).drop_last() =~= tranches@.subrange(0, i as int));
        }
        if !exceeded {
            if amount > funded - total {
                exceeded = true;
            } else {
                total = total + amount;
            }
        }
        i = i + 1;
    }
    proof {
        assert(tranches@.subrange(0, tranches@.len() as int) =~= tranches@);
    }
    if exceeded {
        Err(EscrowError::TranchesExceedFunded)
    } else {
        Ok(())
    }
}

/// Whether a campaign's amounts are consistent (`campaign_books_consistent`).
pub fn amounts_consistent(c: &Campaign) -> (r: bool)
    ensures
        r == campaign_books_consistent(*c),
{
    if !(0 < c.target_amount && c.target_amount <= MAX_TARGET_AMOUNT) {
        return false;
    }
    if !(0 <= c.total_funded && c.total_funded <= c.target_amount) {
        return false;
    }
    if c.released < 0 || c.refundable < 0 || c.returnable < 0 {
        return false;
    }
    if c.released > c.total_funded {
        return false;
    }
    if c.refundable > c.total_funded - c.released {
        return false;
    }
    c.returnable <= c.total_funded - c.released - c.refundable
}

/// Whether stored books are well formed (`book_wf`).
pub fn book_is_well_formed(b: &CampaignBook) -> (r: bool)
    ensures
        r == book_wf(*b),
{
    if !amounts_consistent(&b.campaign) {
        return false;
    }
    match check_tranches(&b.tranches, b.campaign.total_funded) {
        Ok(()) => {},
        Err(_) => {
            return false;
        },
    }
    let st = b.campaign.status;
    if (st == CampaignStatus::Active || st == CampaignStatus::Funding || st
        == CampaignStatus::Funded) && !(b.campaign.released == 0 && b.campaign.refundable == 0
        && b.campaign.returnable == 0) {
        return false;
    }
    let exact = !(st == CampaignStatus::Resolved || st == CampaignStatus::Settled || st
        == CampaignStatus::Failed);
    contributions_well_formed(&b.contributions, b.campaign.total_funded, exact)
}

impl ProductionEscrowContract {
    /// The administrator, once initialized.
    pub closed spec fn admin_account(self) -> Option<String> {
        self.admin
    }

    /// The books of every campaign, by campaign id.
    pub closed spec fn books(self) -> Map<u64, CampaignBook> {
        self.books@
    }

    /// Every campaign's books are well formed.
    pub open spec fn wf(self) -> bool {
        forall|id: u64| #[trigger] self.books().contains_key(id) ==> book_wf(self.books()[id])
    }

    /// `who` is the administrator.
    pub open spec fn is_admin(self, who: Seq<char>) -> bool {
        self.admin_account() is Some && self.admin_account().unwrap()@ == who
    }

    /// An escrow with no administrator and no campaigns.
    pub fn new() -> (r: Self)
        ensures
            r.wf(),
            r.admin_account() is None,
            r.books() == Map::<u64, CampaignBook>::empty(),
    {
        ProductionEscrowContract { admin: None, books: HashMap::new() }
    }

    fn take_book(&mut self, id: u64) -> (b: CampaignBook)
        requires
            old(self).books().contains_key(id),
        ensures
            b == old(self).books()[id],
            final(self).books() == old(self).books().remove(id),
            final(self).admin_account() == old(self).admin_account(),
    {
        self.books.remove(&id).unwrap()
    }

    fn put_book(&mut self, id: u64, b: CampaignBook)
        ensures
            final(self).books() == old(self).books().insert(id, b),
            final(self).admin_account() == old(self).admin_account(),
    {
        self.books.insert(id, b);
    }

    /// Whether an administrator has been set.
    pub fn has_admin(&self) -> (r: bool)
        ensures
            r == self.admin_account() is Some,
    {
        self.admin.is_some()
    }

    /// The administrator.
    pub fn get_admin(&self) -> (r: Result<String, EscrowError>)
        ensures
            match self.admin_account() {
                Some(a) => r == Ok::<String, EscrowError>(a),
                None => r == Err::<String, EscrowError>(EscrowError::AdminNotSet),
            },
    {
        match &self.admin {
            Some(a) => Ok(a.clone()),
            None => Err(EscrowError::AdminNotSet),
        }
    }

    /// Whether a campaign with this id exists.
    pub fn has_campaign(&self, campaign_id: u64) -> (r: bool)
        ensures
            r == self.books().contains_key(campaign_id),
    {
        self.books.contains_key(&campaign_id)
    }

    /// Sets the administrator, once.
    pub fn initialize(&mut self, admin: String) -> (r: Result<Vec<Effect>, EscrowError>)
        requires
            old(self).wf(),
        ensures
            final(self).wf(),
            ledger_step(*old(self), *final(self)),
            match r {
                Err(e) => e == EscrowError::AdminAlreadyInitialized && old(self).admin_account()
                    is Some && *final(self) == *old(self),
                Ok(effects) => {
                    &&& old(self).admin_account() is None
                    &&& final(self).admin_account() == Some(admin)
                    &&& final(self).books() == old(self).books()
                    &&& effects@ == seq![Effect::RequireAuth { account: admin }]
                },
            },
    {
        if self.admin.is_some() {
            return Err(EscrowError::AdminAlreadyInitialized);
        }
        let mut effects: Vec<Effect> = Vec::new();
        effects.push(Effect::RequireAuth { account: admin.clone() });
        self.admin = Some(admin);
        proof {
            assert(self.books() == old(self).books());
            assert forall|id: u64| #[trigger] self.books().contains_key(id) implies book_wf(
                self.books()[id],
            ) by {
                assert(old(self).books().contains_key(id));
            }
            assert(effects@ =~= seq![Effect::RequireAuth { account: admin }]);
        }
        Ok(effects)
    }

    /// Why `create_campaign` would reject this request, if it would.
    pub open spec fn create_rejection(self, campaign_id: u64, target_amount: i128) -> Option<
        EscrowError,
    > {
        if self.books().contains_key(campaign_id) {
            Some(EscrowError::CampaignAlreadyExists)
        } else if target_amount <= 0 {
            Some(EscrowError::TargetNotPositive)
        } else if target_amount > MAX_TARGET_AMOUNT {
            Some(EscrowError::TargetTooLarge)
        } else {
            None
        }
    }

    /// A farmer opens a new campaign with nothing funded yet.
    pub fn create_campaign(
        &mut self,
        campaign_id: u64,
        farmer: String,
        target_amount: i128,
        token_address: String,
        deadline: u64,
        harvest_metadata: String,
    ) -> (r: Result<Vec<Effect>, EscrowError>)
        requires
            old(self).wf(),
        ensures
            final(self).wf(),
            ledger_step(*old(self), *final(self)),
            match r {
                Err(e) => old(self).create_rejection(campaign_id, target_amount) == Some(e)
                    && *final(self) == *old(self),
                Ok(effects) => {
                    let b = final(self).books()[campaign_id];
                    &&& old(self).create_rejection(campaign_id, target_amount) is None
                    &&& final(self).admin_account() == old(self).admin_account()
                    &&& final(self).books() == old(self).books().insert(campaign_id, b)
                    &&& b.campaign == Campaign {
                        farmer,
                        target_amount,
                        token_address,
                        deadline,
                        harvest_metadata,
                        total_funded: 0,
                        released: 0,
                        refundable: 0,
                        returnable: 0,
                        status: CampaignStatus::Active,
                    }
                    &&& b.contributions@.len() == 0
                    &&& b.tranches@.len() == 0
                    &&& b.dispute is None
                    &&& b.harvest_record is None
                    &&& effects@ == seq![
                        Effect::RequireAuth { account: farmer },
                        Effect::Emit {
                            event: Event::CampaignCreated { campaign_id, farmer, target_amount },
                        },
                    ]
                },
            },
    {
        if self.books.contains_key(&campaign_id) {
            return Err(EscrowError::CampaignAlreadyExists);
        }
        if target_amount <= 0 {
            return Err(EscrowError::TargetNotPositive);
        }
        if target_amount > MAX_TARGET_AMOUNT {
            return Err(EscrowError::TargetTooLarge);
        }
        let mut effects: Vec<Effect> = Vec::new();
        effects.push(Effect::RequireAuth { account: farmer.clone() });
        effects.push(
            Effect::Emit {
                event: Event::CampaignCreated {
                    campaign_id,
                    farmer: farmer.clone(),
                    target_amount,
                },
            },
        );
        let book = CampaignBook {
            campaign: Campaign {
                farmer,
                target_amount,
                token_address,
                deadline,
                harvest_metadata,
                total_funded: 0,
                released: 0,
                refundable: 0,
                returnable: 0,
                status: CampaignStatus::Active,
            },
            contributions: Vec::new(),
            tranches: Vec::new(),
            dispute: None,
            harvest_record: None,
        };
        proof {
            assert(total_contributed(book.contributions@) == 0);
        }
        self.put_book(campaign_id, book);
        Ok(effects)
    }

    /// Whether the escrow's `balance` of the campaign's token covers what
    /// the campaign still holds in escrow (see `assert_solvent`).
    pub fn check_solvency(&self, campaign_id: u64, balance: i128) -> (r: Result<(), EscrowError>)
        requires
            self.wf(),
        ensures
            !self.books().contains_key(campaign_id) ==> r == Err::<(), EscrowError>(
                EscrowError::CampaignNotFound,
            ),
            self.books().contains_key(campaign_id) ==> r == if held(
                self.books()[campaign_id].campaign,
            ) <= balance {
                Ok::<(), EscrowError>(())
            } else {
                Err(EscrowError::InsufficientBalance)
            },
    {
        match self.books.get(&campaign_id) {
            Some(book) => {
                proof {
                    assert(book_wf(self.books()[campaign_id]));
                }
                let r = assert_solvent(&book.campaign, balance);
                match r {
                    Ok(()) => Ok(()),
                    Err(e) => Err(e),
                }
            },
            None => Err(EscrowError::CampaignNotFound),
        }
    }

    /// Why `fund_campaign` would reject this request, if it would.
    pub open spec fn fund_rejection(self, campaign_id: u64, amount: i128) -> Option<EscrowError> {
        if amount <= 0 {
            Some(EscrowError::AmountNotPositive)
        } else if !self.books().contains_key(campaign_id) {
            Some(EscrowError::CampaignNotFound)
        } else if !accepting_status(self.books()[campaign_id].campaign.status) {
            Some(EscrowError::NotAcceptingContributions)
        } else if amount > self.books()[campaign_id].campaign.target_amount
            - self.books()[campaign_id].campaign.total_funded {
            Some(EscrowError::ExceedsRemainingTarget)
        } else {
            None
        }
    }

    /// Why `receive_contribution` would reject this request, if it would.
    pub open spec fn receive_rejection(self, campaign_id: u64, amount: i128) -> Option<
        EscrowError,
    > {
        if amount <= 0 {
            Some(EscrowError::AmountNotPositive)
        } else if self.admin_account() is None {
            Some(EscrowError::AdminNotSet)
        } else {
            self.fund_rejection(campaign_id, amount)
        }
    }

    /// The status a campaign reaches once `amount` more is contributed
    /// through `fund_campaign`: `Funded` when the target is reached.
    pub open spec fn funding_status(c: Campaign, amount: int) -> CampaignStatus {
        if c.total_funded + amount >= c.target_amount {
            CampaignStatus::Funded
        } else {
            CampaignStatus::Funding
        }
    }

    fn record_contribution(
        &mut self,
        campaign_id: u64,
        investor: String,
        amount: i128,
        status: CampaignStatus,
    )
        requires
            old(self).wf(),
            old(self).fund_rejection(campaign_id, amount) is None,
            !payout_status(status),
        ensures
            final(self).wf(),
            only_book_changed(*old(self), *final(self), campaign_id),
            payout_records_kept(*old(self), *final(self)),
            ({
                let ob = old(self).books()[campaign_id];
                let nb = final(self).books()[campaign_id];
                &&& nb.campaign == with_contribution(ob.campaign, amount as int, status)
                &&& nb.tranches == ob.tranches
                &&& nb.dispute == ob.dispute
                &&& nb.harvest_record == ob.harvest_record
                &&& contribution_recorded(
                    ob.contributions@,
                    nb.contributions@,
                    investor@,
                    contribution_of(ob.contributions@, investor@) + amount,
                )
            }),
    {
        let ghost ob = self.books()[campaign_id];
        proof {
            assert(book_wf(ob));
            lemma_contribution_bounds(ob.contributions@, investor@);
        }
        let mut book = self.take_book(campaign_id);
        book.campaign.total_funded = book.campaign.total_funded + amount;
        book.campaign.status = status;
        let prior = contribution_amount(&book.contributions, &investor);
        set_contribution(&mut book.contributions, investor, prior + amount);
        proof {
            assert(book.campaign == with_contribution(ob.campaign, amount as int, status));
        }
        self.restore_book(campaign_id, book, Ghost(*old(self)));
    }

    /// An investor funds a campaign: its tokens move into escrow, the
    /// contribution is recorded, and the campaign becomes `Funded` as soon as
    /// its target is reached (`Funding` otherwise). Contributions beyond the
    /// remaining target are rejected.
    pub fn fund_campaign(&mut self, campaign_id: u64, investor: String, amount: i128) -> (r: Result<
        Vec<Effect>,
        EscrowError,
    >)
        requires
            old(self).wf(),
        ensures
            final(self).wf(),
            ledger_step(*old(self), *final(self)),
            match r {
                Err(e) => old(self).fund_rejection(campaign_id, amount) == Some(e) && *final(self)
                    == *old(self),
                Ok(effects) => {
                    let ob = old(self).books()[campaign_id];
                    let nb = final(self).books()[campaign_id];
                    let c = ob.campaign;
                    let status = Self::funding_status(c, amount as int);
                    let token = c.token_address;
                    &&& old(self).fund_rejection(campaign_id, amount) is None
                    &&& only_book_changed(*old(self), *final(self), campaign_id)
                    &&& nb.campaign == with_contribution(c, amount as int, status)
                    &&& nb.tranches == ob.tranches
                    &&& nb.dispute == ob.dispute
                    &&& nb.harvest_record == ob.harvest_record
                    &&& contribution_recorded(
                        ob.contributions@,
                        nb.contributions@,
                        investor@,
                        contribution_of(ob.contributions@, investor@) + amount,
                    )
                    &&& effects@ == seq![
                        Effect::RequireAuth { account: investor },
                        Effect::Transfer {
                            token,
                            from: Party::Account(investor),
                            to: Party::Escrow,
                            amount,
                        },
                    ] + (if status == CampaignStatus::Funded {
                        seq![
                            Effect::Emit {
                                event: Event::CampaignFunded {
                                    campaign_id,
                                    total_funded: nb.campaign.total_funded,
                                },
                            },
                        ]
                    } else {
                        Seq::<Effect>::empty()
                    }) + seq![
                        Effect::CheckSolvency { campaign_id, token },
                        Effect::Emit {
                            event: Event::ContributionReceived { campaign_id, investor, amount },
                        },
                    ]
                },
            },
    {
        if amount <= 0 {
            return Err(EscrowError::AmountNotPositive);
        }
        let (status, token) = match self.books.get(&campaign_id) {
            None => {
                return Err(EscrowError::CampaignNotFound);
            },
            Some(book) => {
                let c = &book.campaign;
                if !(c.status == CampaignStatus::Active || c.status == CampaignStatus::Funding) {
                    return Err(EscrowError::NotAcceptingContributions);
                }
                proof {
                    assert(book_wf(self.books()[campaign_id]));
                }
                let remaining = c.target_amount - c.total_funded;
                if amount > remaining {
                    return Err(EscrowError::ExceedsRemainingTarget);
                }
                let status = if c.total_funded + amount >= c.target_amount {
                    CampaignStatus::Funded
                } else {
                    CampaignStatus::Funding
                };
                (status, c.token_address.clone())
            },
        };
        self.record_contribution(campaign_id, investor.clone(), amount, status);
        let mut effects: Vec<Effect> = Vec::new();
        effects.push(Effect::RequireAuth { account: investor.clone() });
        effects.push(
            Effect::Transfer {
                token: token.clone(),
                from: Party::Account(investor.clone()),
                to: Party::Escrow,
                amount,
            },
        );
        let ghost prefix = effects@;
        if status == CampaignStatus::Funded {
            let total_funded = match self.books.get(&campaign_id) {
                Some(book) => book.campaign.total_funded,
                None => 0,
            };
            effects.push(
                Effect::Emit { event: Event::CampaignFunded { campaign_id, total_funded } },
            );
        }
        let ghost middle = effects@;
        effects.push(Effect::CheckSolvency { campaign_id, token });
        effects.push(
            Effect::Emit { event: Event::ContributionReceived { campaign_id, investor, amount } },
        );
        proof {
            assert(middle.len() == prefix.len() || middle.len() == prefix.len() + 1);
            assert(effects@ =~= middle + effects@.subrange(middle.len() as int, effects@.len() as int));
        }
        Ok(effects)
    }

    /// Admin-only reconciliation of a contribution verified off-chain: it
    /// records bookkeeping without moving tokens, needs both the
    /// administrator's and the campaign farmer's authorisation, and must be
    /// backed by the escrow's real balance. The campaign is left `Funding`
    /// even when the target is reached.
    pub fn receive_contribution(
        &mut self,
        campaign_id: u64,
        investor: String,
        amount: i128,
    ) -> (r: Result<Vec<Effect>, EscrowError>)
        requires
            old(self).wf(),
        ensures
            final(self).wf(),
            ledger_step(*old(self), *final(self)),
            match r {
                Err(e) => old(self).receive_rejection(campaign_id, amount) == Some(e)
                    && *final(self) == *old(self),
                Ok(effects) => {
                    let ob = old(self).books()[campaign_id];
                    let nb = final(self).books()[campaign_id];
                    let c = ob.campaign;
                    &&& old(self).receive_rejection(campaign_id, amount) is None
                    &&& only_book_changed(*old(self), *final(self), campaign_id)
                    &&& nb.campaign == with_contribution(c, amount as int, CampaignStatus::Funding)
                    &&& nb.tranches == ob.tranches
                    &&& nb.dispute == ob.dispute
                    &&& nb.harvest_record == ob.harvest_record
                    &&& contribution_recorded(
                        ob.contributions@,
                        nb.contributions@,
                        investor@,
                        contribution_of(ob.contributions@, investor@) + amount,
                    )
                    &&& effects@ == seq![
                        Effect::RequireAuth { account: old(self).admin_account().unwrap() },
                        Effect::RequireAuth { account: c.farmer },
                        Effect::CheckSolvency { campaign_id, token: c.token_address },
                        Effect::Emit {
                            event: Event::ContributionReconciled { campaign_id, investor, amount },
                        },
                    ]
                },
            },
    {
        if amount <= 0 {
            return Err(EscrowError::AmountNotPositive);
        }
        let admin = match &self.admin {
            Some(a) => a.clone(),
            None => {
                return Err(EscrowError::AdminNotSet);
            },
        };
        let (farmer, token) = match self.books.get(&campaign_id) {
            None => {
                return Err(EscrowError::CampaignNotFound);
            },
            Some(book) => {
                let c = &book.campaign;
                if !(c.status == CampaignStatus::Active || c.status == CampaignStatus::Funding) {
                    return Err(EscrowError::NotAcceptingContributions);
                }
                proof {
                    assert(book_wf(self.books()[campaign_id]));
                }
                let remaining = c.target_amount - c.total_funded;
                if amount > remaining {
                    return Err(EscrowError::ExceedsRemainingTarget);
                }
                (c.farmer.clone(), c.token_address.clone())
            },
        };
        self.record_contribution(campaign_id, investor.clone(), amount, CampaignStatus::Funding);
        let mut effects: Vec<Effect> = Vec::new();
        effects.push(Effect::RequireAuth { account: admin });
        effects.push(Effect::RequireAuth { account: farmer });
        effects.push(Effect::CheckSolvency { campaign_id, token });
        effects.push(
            Effect::Emit { event: Event::ContributionReconciled { campaign_id, investor, amount } },
        );
        proof {
            assert(effects@ =~= seq![
                Effect::RequireAuth { account: old(self).admin_account().unwrap() },
                Effect::RequireAuth { account: old(self).books()[campaign_id].campaign.farmer },
                Effect::CheckSolvency {
                    campaign_id,
                    token: old(self).books()[campaign_id].campaign.token_address,
                },
                Effect::Emit {
                    event: Event::ContributionReconciled { campaign_id, investor, amount },
                },
            ]);
        }
        Ok(effects)
    }

    /// Why `complete_funding` would reject this request, if it would.
    pub open spec fn complete_rejection(self, campaign_id: u64, total_funded: i128) -> Option<
        EscrowError,
    > {
        if self.admin_account() is None {
            Some(EscrowError::AdminNotSet)
        } else if !self.books().contains_key(campaign_id) {
            Some(EscrowError::CampaignNotFound)
        } else if !accepting_status(self.books()[campaign_id].campaign.status) {
            Some(EscrowError::NotAcceptingContributions)
        } else if total_funded != self.books()[campaign_id].campaign.total_funded {
            Some(EscrowError::TotalFundedMismatch)
        } else if self.books()[campaign_id].campaign.total_funded
            < self.books()[campaign_id].campaign.target_amount {
            Some(EscrowError::TargetNotReached)
        } else {
            None
        }
    }

    /// Puts back, as `b`, the book of `campaign_id` that was taken out of
    /// `prev`; `b` keeps it well formed.
    fn restore_book(&mut self, campaign_id: u64, b: CampaignBook, Ghost(prev): Ghost<Self>)
        requires
            prev.wf(),
            prev.books().contains_key(campaign_id),
            old(self).books() == prev.books().remove(campaign_id),
            old(self).admin_account() == prev.admin_account(),
            book_wf(b),
            payout_status(prev.books()[campaign_id].campaign.status) ==> b.campaign
                == prev.books()[campaign_id].campaign,
        ensures
            final(self).wf(),
            only_book_changed(prev, *final(self), campaign_id),
            final(self).books()[campaign_id] == b,
            payout_records_kept(prev, *final(self)),
    {
        self.put_book(campaign_id, b);
        proof {
            assert forall|id: u64| #[trigger] self.books().contains_key(id) implies book_wf(
                self.books()[id],
            ) by {
                if id != campaign_id {
                    assert(prev.books().contains_key(id));
                }
            }
            assert(self.books() == prev.books().insert(campaign_id, self.books()[campaign_id]));
            assert forall|id: u64|
                #[trigger] prev.books().contains_key(id) && payout_status(
                    prev.books()[id].campaign.status,
                ) implies self.books().contains_key(id) && self.books()[id].campaign
                == prev.books()[id].campaign by {
                if id != campaign_id {
                    assert(self.books()[id] == prev.books()[id]);
                }
            }
        }
    }

    /// The administrator confirms that a campaign's recorded funding has
    /// reached its target and marks it `Funded`.
    pub fn complete_funding(&mut self, campaign_id: u64, total_funded: i128) -> (r: Result<
        Vec<Effect>,
        EscrowError,
    >)
        requires
            old(self).wf(),
        ensures
            final(self).wf(),
            ledger_step(*old(self), *final(self)),
            match r {
                Err(e) => old(self).complete_rejection(campaign_id, total_funded) == Some(e)
                    && *final(self) == *old(self),
                Ok(effects) => {
                    let ob = old(self).books()[campaign_id];
                    &&& old(self).complete_rejection(campaign_id, total_funded) is None
                    &&& only_book_changed(*old(self), *final(self), campaign_id)
                    &&& final(self).books()[campaign_id] == CampaignBook {
                        campaign: Campaign { status: CampaignStatus::Funded, ..ob.campaign },
                        ..ob
                    }
                    &&& effects@ == seq![
                        Effect::RequireAuth { account: old(self).admin_account().unwrap() },
                        Effect::Emit { event: Event::CampaignFunded { campaign_id, total_funded } },
                    ]
                },
            },
    {
        let admin = match &self.admin {
            Some(a) => a.clone(),
            None => {
                return Err(EscrowError::AdminNotSet);
            },
        };
        match self.books.get(&campaign_id) {
            None => {
                return Err(EscrowError::CampaignNotFound);
            },
            Some(book) => {
                let c = &book.campaign;
                if !(c.status == CampaignStatus::Active || c.status == CampaignStatus::Funding) {
                    return Err(EscrowError::NotAcceptingContributions);
                }
                if total_funded != c.total_funded {
                    return Err(EscrowError::TotalFundedMismatch);
                }
                if c.total_funded < c.target_amount {
                    return Err(EscrowError::TargetNotReached);
                }
            },
        }
        let ghost ob = self.books()[campaign_id];
        proof {
            assert(book_wf(ob));
        }
        let mut book = self.take_book(campaign_id);
        book.campaign.status = CampaignStatus::Funded;
        self.restore_book(campaign_id, book, Ghost(*old(self)));
        let mut effects: Vec<Effect> = Vec::new();
        effects.push(Effect::RequireAuth { account: admin });
        effects.push(Effect::Emit { event: Event::CampaignFunded { campaign_id, total_funded } });
        proof {
            assert(effects@ =~= seq![
                Effect::RequireAuth { account: old(self).admin_account().unwrap() },
                Effect::Emit { event: Event::CampaignFunded { campaign_id, total_funded } },
            ]);
        }
        Ok(effects)
    }

    /// Why `configure_tranches` would reject this request, if it would.
    pub open spec fn configure_rejection(self, campaign_id: u64, tranches: Seq<Tranche>) -> Option<
        EscrowError,
    > {
        if self.admin_account() is None {
            Some(EscrowError::AdminNotSet)
        } else if !self.books().contains_key(campaign_id) {
            Some(EscrowError::CampaignNotFound)
        } else if self.books()[campaign_id].campaign.status != CampaignStatus::Funded {
            Some(EscrowError::NotFundedForTranches)
        } else if tranches.len() == 0 {
            Some(EscrowError::EmptyTrancheList)
        } else if !tranches_positive(tranches) {
            Some(EscrowError::TrancheNotPositive)
        } else if tranche_total(tranches) > self.books()[campaign_id].campaign.total_funded {
            Some(EscrowError::TranchesExceedFunded)
        } else {
            None
        }
    }

    /// The administrator configures the ordered tranches of a funded
    /// campaign; the tranche amounts must be positive and must not add up to
    /// more than was funded.
    pub fn configure_tranches(&mut self, campaign_id: u64, tranches: Vec<Tranche>) -> (r: Result<
        Vec<Effect>,
        EscrowError,
    >)
        requires
            old(self).wf(),
        ensures
            final(self).wf(),
            ledger_step(*old(self), *final(self)),
            match r {
                Err(e) => old(self).configure_rejection(campaign_id, tranches@) == Some(e)
                    && *final(self) == *old(self),
                Ok(effects) => {
                    let ob = old(self).books()[campaign_id];
                    &&& old(self).configure_rejection(campaign_id, tranches@) is None
                    &&& only_book_changed(*old(self), *final(self), campaign_id)
                    &&& final(self).books()[campaign_id] == CampaignBook { tranches, ..ob }
                    &&& effects@ == seq![
                        Effect::RequireAuth { account: old(self).admin_account().unwrap() },
                        Effect::Emit {
                            event: Event::TranchesConfigured {
                                campaign_id,
                                count: tranches@.len() as usize,
                            },
                        },
                    ]
                },
            },
    {
        let admin = match &self.admin {
            Some(a) => a.clone(),
            None => {
                return Err(EscrowError::AdminNotSet);
            },
        };
        let funded = match self.books.get(&campaign_id) {
            None => {
                return Err(EscrowError::CampaignNotFound);
            },
            Some(book) => {
                if book.campaign.status != CampaignStatus::Funded {
                    return Err(EscrowError::NotFundedForTranches);
                }
                proof {
                    assert(book_wf(self.books()[campaign_id]));
                }
                book.campaign.total_funded
            },
        };
        if tranches.len() == 0 {
            return Err(EscrowError::EmptyTrancheList);
        }
        match check_tranches(&tranches, funded) {
            Ok(()) => {},
            Err(e) => {
                return Err(e);
            },
        }
        let count = tranches.len();
        let ghost ob = self.books()[campaign_id];
        let mut book = self.take_book(campaign_id);
        book.tranches = tranches;
        self.restore_book(campaign_id, book, Ghost(*old(self)));
        let mut effects: Vec<Effect> = Vec::new();
        effects.push(Effect::RequireAuth { account: admin });
        effects.push(Effect::Emit { event: Event::TranchesConfigured { campaign_id, count } });
        proof {
            assert(effects@ =~= seq![
                Effect::RequireAuth { account: old(self).admin_account().unwrap() },
                Effect::Emit {
                    event: Event::TranchesConfigured { campaign_id, count: tranches@.len() as usize },
                },
            ]);
        }
        Ok(effects)
    }

    /// The campaign after `amount` more is released to the farmer: a
    /// `Funded` campaign moves into production.
    pub open spec fn after_release(c: Campaign, amount: i128) -> Campaign {
        Campaign {
            released: (c.released + amount) as i128,
            status: if c.status == CampaignStatus::Funded {
                CampaignStatus::InProduction
            } else {
                c.status
            },
            ..c
        }
    }

    /// Why `release_tranche` would reject this request, if it would.
    pub open spec fn release_rejection(self, campaign_id: u64, amount: i128) -> Option<
        EscrowError,
    > {
        let b = self.books()[campaign_id];
        if amount <= 0 {
            Some(EscrowError::AmountNotPositive)
        } else if self.admin_account() is None {
            Some(EscrowError::AdminNotSet)
        } else if !self.books().contains_key(campaign_id) {
            Some(EscrowError::CampaignNotFound)
        } else if terminal_status(b.campaign.status) {
            Some(EscrowError::TerminalState)
        } else if !producing_status(b.campaign.status) {
            Some(EscrowError::NotFundedOrInProduction)
        } else if amount > held(b.campaign) {
            Some(EscrowError::ExceedsEscrowBalance)
        } else if b.tranches@.len() > 0 && !next_tranche_is(b.tranches@, amount) {
            Some(EscrowError::NoMatchingTranche)
        } else {
            None
        }
    }

    /// The administrator releases `amount` to the campaign's farmer, who is
    /// paid from escrow. Releases are blocked for disputed and terminal
    /// campaigns and may not exceed what is held in escrow; when tranches are
    /// configured, only the next unreleased tranche can be released, for
    /// exactly its amount, and it is marked released. `recipient` is
    /// announced in the event.
    pub fn release_tranche(&mut self, campaign_id: u64, recipient: String, amount: i128) -> (r:
        Result<Vec<Effect>, EscrowError>)
        requires
            old(self).wf(),
        ensures
            final(self).wf(),
            ledger_step(*old(self), *final(self)),
            match r {
                Err(e) => old(self).release_rejection(campaign_id, amount) == Some(e)
                    && *final(self) == *old(self),
                Ok(effects) => {
                    let ob = old(self).books()[campaign_id];
                    let nb = final(self).books()[campaign_id];
                    &&& old(self).release_rejection(campaign_id, amount) is None
                    &&& only_book_changed(*old(self), *final(self), campaign_id)
                    &&& release_step(ob, nb, amount)
                    &&& effects@ == seq![
                        Effect::RequireAuth { account: old(self).admin_account().unwrap() },
                        Effect::Transfer {
                            token: ob.campaign.token_address,
                            from: Party::Escrow,
                            to: Party::Account(ob.campaign.farmer),
                            amount,
                        },
                        Effect::Emit {
                            event: Event::TrancheReleased { campaign_id, recipient, amount },
                        },
                    ]
                },
            },
    {
        if amount <= 0 {
            return Err(EscrowError::AmountNotPositive);
        }
        let admin = match &self.admin {
            Some(a) => a.clone(),
            None => {
                return Err(EscrowError::AdminNotSet);
            },
        };
        let (slot, farmer, token) = match self.books.get(&campaign_id) {
            None => {
                return Err(EscrowError::CampaignNotFound);
            },
            Some(book) => {
                let c = &book.campaign;
                if is_terminal(&c.status) {
                    return Err(EscrowError::TerminalState);
                }
                if !(c.status == CampaignStatus::Funded || c.status == CampaignStatus::InProduction) {
                    return Err(EscrowError::NotFundedOrInProduction);
                }
                proof {
                    assert(book_wf(self.books()[campaign_id]));
                }
                if amount > escrow_held(c) {
                    return Err(EscrowError::ExceedsEscrowBalance);
                }
                let slot = if book.tranches.len() == 0 {
                    None
                } else {
                    match find_next_unreleased(&book.tranches) {
                        Some(k) => {
                            proof {
                                assert forall|k2: int|
                                    next_unreleased(book.tranches@, k2) implies k2 == k as int by {
                                    if k2 < k as int {
                                        assert(book.tranches@[k2].released);
                                    } else if k2 > k as int {
                                        assert(book.tranches@[k as int].released);
                                    }
                                }
                            }
                            if book.tranches[k].amount != amount {
                                return Err(EscrowError::NoMatchingTranche);
                            }
                            Some(k)
                        },
                        None => {
                            return Err(EscrowError::NoMatchingTranche);
                        },
                    }
                };
                (slot, c.farmer.clone(), c.token_address.clone())
            },
        };
        let ghost ob = self.books()[campaign_id];
        let mut book = self.take_book(campaign_id);
        match slot {
            Some(k) => {
                proof {
                    lemma_tranche_total_mark_released(book.tranches@, k as int);
                }
                book.tranches.set(k, Tranche { amount, released: true });
            },
            None => {},
        }
        if book.campaign.status == CampaignStatus::Funded {
            book.campaign.status = CampaignStatus::InProduction;
        }
        book.campaign.released = book.campaign.released + amount;
        proof {
            assert(book.campaign == Self::after_release(ob.campaign, amount));
        }
        self.restore_book(campaign_id, book, Ghost(*old(self)));
        let mut effects: Vec<Effect> = Vec::new();
        effects.push(Effect::RequireAuth { account: admin });
        effects.push(
            Effect::Transfer {
                token,
                from: Party::Escrow,
                to: Party::Account(farmer),
                amount,
            },
        );
        effects.push(
            Effect::Emit { event: Event::TrancheReleased { campaign_id, recipient, amount } },
        );
        proof {
            assert(effects@ =~= seq![
                Effect::RequireAuth { account: old(self).admin_account().unwrap() },
                Effect::Transfer {
                    token: ob.campaign.token_address,
                    from: Party::Escrow,
                    to: Party::Account(ob.campaign.farmer),
                    amount,
                },
                Effect::Emit { event: Event::TrancheReleased { campaign_id, recipient, amount } },
            ]);
        }
        Ok(effects)
    }

    /// Why `report_harvest` would reject this request, if it would.
    pub open spec fn harvest_rejection(self, campaign_id: u64, farmer: Seq<char>) -> Option<
        EscrowError,
    > {
        let c = self.books()[campaign_id].campaign;
        if !self.books().contains_key(campaign_id) {
            Some(EscrowError::CampaignNotFound)
        } else if c.farmer@ != farmer && !self.is_admin(farmer) {
            Some(EscrowError::NotAuthorizedToReportHarvest)
        } else if !producing_status(c.status) {
            Some(EscrowError::NotFundedOrInProduction)
        } else {
            None
        }
    }

    /// `who` is the administrator (none is when unset).
    fn admin_is(&self, who: &String) -> (r: bool)
        ensures
            r == self.is_admin(who@),
    {
        match &self.admin {
            Some(a) => *a == *who,
            None => false,
        }
    }

    /// The campaign's farmer, or the administrator, reports the harvest
    /// outcome at the given ledger time, moving the campaign to `Harvested`.
    pub fn report_harvest(
        &mut self,
        campaign_id: u64,
        farmer: String,
        outcome: String,
        timestamp: u64,
        ledger_sequence: u32,
    ) -> (r: Result<Vec<Effect>, EscrowError>)
        requires
            old(self).wf(),
        ensures
            final(self).wf(),
            ledger_step(*old(self), *final(self)),
            match r {
                Err(e) => old(self).harvest_rejection(campaign_id, farmer@) == Some(e)
                    && *final(self) == *old(self),
                Ok(effects) => {
                    let ob = old(self).books()[campaign_id];
                    &&& old(self).harvest_rejection(campaign_id, farmer@) is None
                    &&& only_book_changed(*old(self), *final(self), campaign_id)
                    &&& final(self).books()[campaign_id] == CampaignBook {
                        campaign: Campaign { status: CampaignStatus::Harvested, ..ob.campaign },
                        harvest_record: Some(
                            HarvestRecord { farmer, outcome, timestamp, ledger_sequence },
                        ),
                        ..ob
                    }
                    &&& effects@ == seq![
                        Effect::RequireAuth { account: farmer },
                        Effect::Emit {
                            event: Event::HarvestReported { campaign_id, farmer, outcome },
                        },
                    ]
                },
            },
    {
        let is_admin = self.admin_is(&farmer);
        match self.books.get(&campaign_id) {
            None => {
                return Err(EscrowError::CampaignNotFound);
            },
            Some(book) => {
                if !(book.campaign.farmer == farmer) && !is_admin {
                    return Err(EscrowError::NotAuthorizedToReportHarvest);
                }
                if !(book.campaign.status == CampaignStatus::Funded || book.campaign.status
                    == CampaignStatus::InProduction) {
                    return Err(EscrowError::NotFundedOrInProduction);
                }
                proof {
                    assert(book_wf(self.books()[campaign_id]));
                }
            },
        }
        let mut effects: Vec<Effect> = Vec::new();
        effects.push(Effect::RequireAuth { account: farmer.clone() });
        effects.push(
            Effect::Emit {
                event: Event::HarvestReported {
                    campaign_id,
                    farmer: farmer.clone(),
                    outcome: outcome.clone(),
                },
            },
        );
        let mut book = self.take_book(campaign_id);
        book.harvest_record = Some(HarvestRecord { farmer, outcome, timestamp, ledger_sequence });
        book.campaign.status = CampaignStatus::Harvested;
        self.restore_book(campaign_id, book, Ghost(*old(self)));
        Ok(effects)
    }

    /// Why `open_dispute` would reject this request, if it would.
    pub open spec fn dispute_rejection(self, campaign_id: u64, opener: Seq<char>) -> Option<
        EscrowError,
    > {
        let b = self.books()[campaign_id];
        if !self.books().contains_key(campaign_id) {
            Some(EscrowError::CampaignNotFound)
        } else if !open_status(b.campaign.status) {
            Some(EscrowError::NotDisputable)
        } else if !(b.campaign.farmer@ == opener || contribution_of(b.contributions@, opener) > 0
            || self.is_admin(opener)) {
            Some(EscrowError::NotAuthorizedToOpenDispute)
        } else {
            None
        }
    }

    /// The farmer, a contributing investor or the administrator opens a
    /// dispute on a campaign that is not yet harvested or closed; the
    /// campaign becomes `Disputed`.
    pub fn open_dispute(
        &mut self,
        campaign_id: u64,
        opener: String,
        reason: String,
        timestamp: u64,
        ledger_sequence: u32,
    ) -> (r: Result<Vec<Effect>, EscrowError>)
        requires
            old(self).wf(),
        ensures
            final(self).wf(),
            ledger_step(*old(self), *final(self)),
            match r {
                Err(e) => old(self).dispute_rejection(campaign_id, opener@) == Some(e)
                    && *final(self) == *old(self),
                Ok(effects) => {
                    let ob = old(self).books()[campaign_id];
                    &&& old(self).dispute_rejection(campaign_id, opener@) is None
                    &&& only_book_changed(*old(self), *final(self), campaign_id)
                    &&& final(self).books()[campaign_id] == CampaignBook {
                        campaign: Campaign { status: CampaignStatus::Disputed, ..ob.campaign },
                        dispute: Some(
                            Dispute {
                                campaign_id,
                                opener,
                                reason,
                                timestamp,
                                ledger_sequence,
                                status: DisputeStatus::Open,
                                resolution: DisputeResolution::Pending,
                            },
                        ),
                        ..ob
                    }
                    &&& effects@ == seq![
                        Effect::RequireAuth { account: opener },
                        Effect::Emit { event: Event::DisputeOpened { campaign_id, opener, reason } },
                    ]
                },
            },
    {
        let is_admin = self.admin_is(&opener);
        match self.books.get(&campaign_id) {
            None => {
                return Err(EscrowError::CampaignNotFound);
            },
            Some(book) => {
                let st = book.campaign.status;
                if !(st == CampaignStatus::Active || st == CampaignStatus::Funding || st
                    == CampaignStatus::Funded || st == CampaignStatus::InProduction) {
                    return Err(EscrowError::NotDisputable);
                }
                proof {
                    assert(book_wf(self.books()[campaign_id]));
                }
                let is_farmer = book.campaign.farmer == opener;
                let is_contributor = contribution_amount(&book.contributions, &opener) > 0;
                if !is_farmer && !is_contributor && !is_admin {
                    return Err(EscrowError::NotAuthorizedToOpenDispute);
                }
            },
        }
        let mut effects: Vec<Effect> = Vec::new();
        effects.push(Effect::RequireAuth { account: opener.clone() });
        effects.push(
            Effect::Emit {
                event: Event::DisputeOpened {
                    campaign_id,
                    opener: opener.clone(),
                    reason: reason.clone(),
                },
            },
        );
        let mut book = self.take_book(campaign_id);
        book.dispute = Some(
            Dispute {
                campaign_id,
                opener,
                reason,
                timestamp,
                ledger_sequence,
                status: DisputeStatus::Open,
                resolution: DisputeResolution::Pending,
            },
        );
        book.campaign.status = CampaignStatus::Disputed;
        self.restore_book(campaign_id, book, Ghost(*old(self)));
        Ok(effects)
    }

    /// Why a resolution with this payout is invalid, if it is.
    pub open spec fn resolution_rejection(
        resolution: DisputeResolution,
        payout_amount: i128,
        held_amount: int,
    ) -> Option<EscrowError> {
        match resolution {
            DisputeResolution::Pending => Some(EscrowError::InvalidResolution),
            DisputeResolution::FullRefund => if payout_amount != 0 {
                Some(EscrowError::PayoutMustBeZeroForFullRefund)
            } else {
                None
            },
            DisputeResolution::FullPayout => if payout_amount != 0 {
                Some(EscrowError::PayoutMustBeZeroForFullPayout)
            } else {
                None
            },
            DisputeResolution::PartialSettlement => if payout_amount <= 0 || payout_amount
                >= held_amount {
                Some(EscrowError::InvalidPartialSettlement)
            } else {
                None
            },
        }
    }

    /// How a resolution splits what is held: (to the farmer, refundable to
    /// investors).
    pub open spec fn resolution_split(
        resolution: DisputeResolution,
        payout_amount: i128,
        held_amount: int,
    ) -> (int, int) {
        match resolution {
            DisputeResolution::FullRefund => (0, held_amount),
            DisputeResolution::FullPayout => (held_amount, 0),
            DisputeResolution::PartialSettlement => (
                payout_amount as int,
                held_amount - payout_amount,
            ),
            DisputeResolution::Pending => (0, 0),
        }
    }

    /// Why `resolve_dispute` would reject this request, if it would.
    pub open spec fn resolve_rejection(
        self,
        campaign_id: u64,
        resolution: DisputeResolution,
        payout_amount: i128,
    ) -> Option<EscrowError> {
        let b = self.books()[campaign_id];
        if self.admin_account() is None {
            Some(EscrowError::AdminNotSet)
        } else if !self.books().contains_key(campaign_id) {
            Some(EscrowError::CampaignNotFound)
        } else if b.campaign.status != CampaignStatus::Disputed {
            Some(EscrowError::NotDisputed)
        } else if b.dispute is None {
            Some(EscrowError::DisputeNotFound)
        } else if b.dispute.unwrap().status != DisputeStatus::Open {
            Some(EscrowError::DisputeAlreadyResolved)
        } else {
            Self::resolution_rejection(resolution, payout_amount, held(b.campaign))
        }
    }

    /// The administrator resolves an open dispute: what is still held in
    /// escrow is split between the campaign's farmer, who is paid its part
    /// from escrow (recorded as released, like a tranche release), and the
    /// investors, whose part becomes refundable; the campaign becomes
    /// `Resolved`.
    pub fn resolve_dispute(
        &mut self,
        campaign_id: u64,
        resolution: DisputeResolution,
        payout_amount: i128,
    ) -> (r: Result<Vec<Effect>, EscrowError>)
        requires
            old(self).wf(),
        ensures
            final(self).wf(),
            ledger_step(*old(self), *final(self)),
            match r {
                Err(e) => old(self).resolve_rejection(campaign_id, resolution, payout_amount)
                    == Some(e) && *final(self) == *old(self),
                Ok(effects) => {
                    let ob = old(self).books()[campaign_id];
                    let c = ob.campaign;
                    let (to_farmer, to_investors) = Self::resolution_split(
                        resolution,
                        payout_amount,
                        held(c),
                    );
                    &&& old(self).resolve_rejection(campaign_id, resolution, payout_amount)
                        is None
                    &&& only_book_changed(*old(self), *final(self), campaign_id)
                    &&& final(self).books()[campaign_id] == CampaignBook {
                        campaign: Campaign {
                            released: (c.released + to_farmer) as i128,
                            refundable: (c.refundable + to_investors) as i128,
                            status: CampaignStatus::Resolved,
                            ..c
                        },
                        dispute: Some(
                            Dispute {
                                status: DisputeStatus::Resolved,
                                resolution,
                                ..ob.dispute.unwrap()
                            },
                        ),
                        ..ob
                    }
                    &&& effects@ == seq![
                        Effect::RequireAuth { account: old(self).admin_account().unwrap() },
                    ] + (if to_farmer > 0 {
                        seq![
                            Effect::Transfer {
                                token: c.token_address,
                                from: Party::Escrow,
                                to: Party::Account(c.farmer),
                                amount: to_farmer as i128,
                            },
                        ]
                    } else {
                        Seq::<Effect>::empty()
                    }) + seq![
                        Effect::Emit {
                            event: Event::DisputeResolved {
                                campaign_id,
                                admin: old(self).admin_account().unwrap(),
                                resolution,
                                payout_to_farmer: to_farmer as i128,
                                refundable_to_investors: to_investors as i128,
                            },
                        },
                    ]
                },
            },
    {
        let admin = match &self.admin {
            Some(a) => a.clone(),
            None => {
                return Err(EscrowError::AdminNotSet);
            },
        };
        let (payout_to_farmer, refundable_to_investors, farmer, token) = match self.books.get(
            &campaign_id,
        ) {
            None => {
                return Err(EscrowError::CampaignNotFound);
            },
            Some(book) => {
                if book.campaign.status != CampaignStatus::Disputed {
                    return Err(EscrowError::NotDisputed);
                }
                match &book.dispute {
                    None => {
                        return Err(EscrowError::DisputeNotFound);
                    },
                    Some(d) => {
                        if d.status != DisputeStatus::Open {
                            return Err(EscrowError::DisputeAlreadyResolved);
                        }
                    },
                }
                proof {
                    assert(book_wf(self.books()[campaign_id]));
                }
                let held_amount = escrow_held(&book.campaign);
                let (to_farmer, to_investors) = match resolution {
                    DisputeResolution::Pending => {
                        return Err(EscrowError::InvalidResolution);
                    },
                    DisputeResolution::FullRefund => {
                        if payout_amount != 0 {
                            return Err(EscrowError::PayoutMustBeZeroForFullRefund);
                        }
                        (0i128, held_amount)
                    },
                    DisputeResolution::FullPayout => {
                        if payout_amount != 0 {
                            return Err(EscrowError::PayoutMustBeZeroForFullPayout);
                        }
                        (held_amount, 0i128)
                    },
                    DisputeResolution::PartialSettlement => {
                        if payout_amount <= 0 || payout_amount >= held_amount {
                            return Err(EscrowError::InvalidPartialSettlement);
                        }
                        (payout_amount, held_amount - payout_amount)
                    },
                };
                (
                    to_farmer,
                    to_investors,
                    book.campaign.farmer.clone(),
                    book.campaign.token_address.clone(),
                )
            },
        };
        let mut effects: Vec<Effect> = Vec::new();
        effects.push(Effect::RequireAuth { account: admin.clone() });
        let ghost first = effects@;
        if payout_to_farmer > 0 {
            effects.push(
                Effect::Transfer {
                    token,
                    from: Party::Escrow,
                    to: Party::Account(farmer),
                    amount: payout_to_farmer,
                },
            );
        }
        let ghost middle = effects@;
        effects.push(
            Effect::Emit {
                event: Event::DisputeResolved {
                    campaign_id,
                    admin,
                    resolution,
                    payout_to_farmer,
                    refundable_to_investors,
                },
            },
        );
        proof {
            assert(effects@ =~= middle + effects@.subrange(middle.len() as int, effects@.len() as int));
            assert(middle =~= first + middle.subrange(1, middle.len() as int));
        }
        let mut book = self.take_book(campaign_id);
        book.campaign.released = book.campaign.released + payout_to_farmer;
        book.campaign.refundable = book.campaign.refundable + refundable_to_investors;
        book.campaign.status = CampaignStatus::Resolved;
        let d = book.dispute.unwrap();
        book.dispute = Some(Dispute { status: DisputeStatus::Resolved, resolution, ..d });
        self.restore_book(campaign_id, book, Ghost(*old(self)));
        Ok(effects)
    }

    /// Why `mark_failed` would reject this request, if it would.
    pub open spec fn fail_rejection(self, campaign_id: u64) -> Option<EscrowError> {
        if self.admin_account() is None {
            Some(EscrowError::AdminNotSet)
        } else if !self.books().contains_key(campaign_id) {
            Some(EscrowError::CampaignNotFound)
        } else if !open_status(self.books()[campaign_id].campaign.status) {
            Some(EscrowError::CannotMarkFailed)
        } else {
            None
        }
    }

    /// The administrator marks a campaign that is not yet harvested or
    /// closed as `Failed`: everything still held becomes refundable.
    pub fn mark_failed(&mut self, campaign_id: u64) -> (r: Result<Vec<Effect>, EscrowError>)
        requires
            old(self).wf(),
        ensures
            final(self).wf(),
            ledger_step(*old(self), *final(self)),
            match r {
                Err(e) => old(self).fail_rejection(campaign_id) == Some(e) && *final(self)
                    == *old(self),
                Ok(effects) => {
                    let ob = old(self).books()[campaign_id];
                    let c = ob.campaign;
                    let refundable = c.refundable + held(c);
                    &&& old(self).fail_rejection(campaign_id) is None
                    &&& only_book_changed(*old(self), *final(self), campaign_id)
                    &&& final(self).books()[campaign_id] == CampaignBook {
                        campaign: Campaign {
                            refundable: refundable as i128,
                            status: CampaignStatus::Failed,
                            ..c
                        },
                        ..ob
                    }
                    &&& effects@ == seq![
                        Effect::RequireAuth { account: old(self).admin_account().unwrap() },
                        Effect::Emit {
                            event: Event::CampaignFailed {
                                campaign_id,
                                refundable: refundable as i128,
                            },
                        },
                    ]
                },
            },
    {
        let admin = match &self.admin {
            Some(a) => a.clone(),
            None => {
                return Err(EscrowError::AdminNotSet);
            },
        };
        let refundable = match self.books.get(&campaign_id) {
            None => {
                return Err(EscrowError::CampaignNotFound);
            },
            Some(book) => {
                let st = book.campaign.status;
                if !(st == CampaignStatus::Active || st == CampaignStatus::Funding || st
                    == CampaignStatus::Funded || st == CampaignStatus::InProduction) {
                    return Err(EscrowError::CannotMarkFailed);
                }
                proof {
                    assert(book_wf(self.books()[campaign_id]));
                }
                book.campaign.refundable + escrow_held(&book.campaign)
            },
        };
        let mut book = self.take_book(campaign_id);
        book.campaign.refundable = refundable;
        book.campaign.status = CampaignStatus::Failed;
        self.restore_book(campaign_id, book, Ghost(*old(self)));
        let mut effects: Vec<Effect> = Vec::new();
        effects.push(Effect::RequireAuth { account: admin });
        effects.push(Effect::Emit { event: Event::CampaignFailed { campaign_id, refundable } });
        proof {
            assert(effects@ =~= seq![
                Effect::RequireAuth { account: old(self).admin_account().unwrap() },
                Effect::Emit { event: Event::CampaignFailed { campaign_id, refundable } },
            ]);
        }
        Ok(effects)
    }

    /// Why `settle_campaign` would reject this request, if it would.
    pub open spec fn settle_rejection(
        self,
        campaign_id: u64,
        farmer: Seq<char>,
        farmer_payout: i128,
    ) -> Option<EscrowError> {
        let c = self.books()[campaign_id].campaign;
        if farmer_payout < 0 {
            Some(EscrowError::NegativePayout)
        } else if self.admin_account() is None {
            Some(EscrowError::AdminNotSet)
        } else if !self.books().contains_key(campaign_id) {
            Some(EscrowError::CampaignNotFound)
        } else if c.status == CampaignStatus::Disputed {
            Some(EscrowError::CampaignDisputed)
        } else if c.status != CampaignStatus::Harvested {
            Some(EscrowError::NotHarvested)
        } else if farmer != c.farmer@ {
            Some(EscrowError::NotCampaignFarmer)
        } else if farmer_payout > held(c) {
            Some(EscrowError::PayoutExceedsEscrowBalance)
        } else {
            None
        }
    }

    /// The administrator settles a harvested campaign: `farmer_payout` is
    /// paid to the campaign's farmer (`farmer` must name it) and the rest of
    /// what is held becomes returnable to the investors, pro rata; the
    /// campaign becomes `Settled`.
    pub fn settle_campaign(&mut self, campaign_id: u64, farmer: String, farmer_payout: i128) -> (r:
        Result<Vec<Effect>, EscrowError>)
        requires
            old(self).wf(),
        ensures
            final(self).wf(),
            ledger_step(*old(self), *final(self)),
            match r {
                Err(e) => old(self).settle_rejection(campaign_id, farmer@, farmer_payout) == Some(e)
                    && *final(self) == *old(self),
                Ok(effects) => {
                    let ob = old(self).books()[campaign_id];
                    let c = ob.campaign;
                    let investor_returns = held(c) - farmer_payout;
                    &&& old(self).settle_rejection(campaign_id, farmer@, farmer_payout) is None
                    &&& only_book_changed(*old(self), *final(self), campaign_id)
                    &&& final(self).books()[campaign_id] == CampaignBook {
                        campaign: Campaign {
                            released: (c.released + farmer_payout) as i128,
                            returnable: (c.returnable + investor_returns) as i128,
                            status: CampaignStatus::Settled,
                            ..c
                        },
                        ..ob
                    }
                    &&& effects@ == seq![
                        Effect::RequireAuth { account: old(self).admin_account().unwrap() },
                    ] + (if farmer_payout > 0 {
                        seq![
                            Effect::Transfer {
                                token: c.token_address,
                                from: Party::Escrow,
                                to: Party::Account(c.farmer),
                                amount: farmer_payout,
                            },
                        ]
                    } else {
                        Seq::<Effect>::empty()
                    }) + seq![
                        Effect::Emit {
                            event: Event::CampaignSettled {
                                campaign_id,
                                farmer: c.farmer,
                                farmer_payout,
                                investor_returns: investor_returns as i128,
                            },
                        },
                    ]
                },
            },
    {
        if farmer_payout < 0 {
            return Err(EscrowError::NegativePayout);
        }
        let admin = match &self.admin {
            Some(a) => a.clone(),
            None => {
                return Err(EscrowError::AdminNotSet);
            },
        };
        let (investor_returns, token, payee) = match self.books.get(&campaign_id) {
            None => {
                return Err(EscrowError::CampaignNotFound);
            },
            Some(book) => {
                if book.campaign.status == CampaignStatus::Disputed {
                    return Err(EscrowError::CampaignDisputed);
                }
                if book.campaign.status != CampaignStatus::Harvested {
                    return Err(EscrowError::NotHarvested);
                }
                if !(farmer == book.campaign.farmer) {
                    return Err(EscrowError::NotCampaignFarmer);
                }
                proof {
                    assert(book_wf(self.books()[campaign_id]));
                }
                let held_amount = escrow_held(&book.campaign);
                if farmer_payout > held_amount {
                    return Err(EscrowError::PayoutExceedsEscrowBalance);
                }
                (
                    held_amount - farmer_payout,
                    book.campaign.token_address.clone(),
                    book.campaign.farmer.clone(),
                )
            },
        };
        let mut effects: Vec<Effect> = Vec::new();
        effects.push(Effect::RequireAuth { account: admin });
        let ghost first = effects@;
        if farmer_payout > 0 {
            effects.push(
                Effect::Transfer {
                    token,
                    from: Party::Escrow,
                    to: Party::Account(payee.clone()),
                    amount: farmer_payout,
                },
            );
        }
        let ghost middle = effects@;
        effects.push(
            Effect::Emit {
                event: Event::CampaignSettled {
                    campaign_id,
                    farmer: payee,
                    farmer_payout,
                    investor_returns,
                },
            },
        );
        proof {
            assert(effects@ =~= middle + effects@.subrange(middle.len() as int, effects@.len() as int));
            assert(middle =~= first + middle.subrange(1, middle.len() as int));
        }
        let mut book = self.take_book(campaign_id);
        book.campaign.released = book.campaign.released + farmer_payout;
        book.campaign.returnable = book.campaign.returnable + investor_returns;
        book.campaign.status = CampaignStatus::Settled;
        self.restore_book(campaign_id, book, Ghost(*old(self)));
        Ok(effects)
    }

    /// Why `claim_refund` would reject this request, if it would.
    pub open spec fn refund_rejection(self, campaign_id: u64, investor: Seq<char>) -> Option<
        EscrowError,
    > {
        let b = self.books()[campaign_id];
        let c = b.campaign;
        let contributed = contribution_of(b.contributions@, investor);
        if !self.books().contains_key(campaign_id) {
            Some(EscrowError::CampaignNotFound)
        } else if !(c.status == CampaignStatus::Resolved || c.status == CampaignStatus::Failed) {
            Some(EscrowError::NoRefundAvailable)
        } else if contributed <= 0 {
            Some(EscrowError::NothingToRefund)
        } else if share_of(contributed, c.refundable as int, c.total_funded as int) <= 0 {
            Some(EscrowError::NothingToRefund)
        } else {
            None
        }
    }

    /// Why `claim_return` would reject this request, if it would.
    pub open spec fn return_rejection(self, campaign_id: u64, investor: Seq<char>) -> Option<
        EscrowError,
    > {
        let b = self.books()[campaign_id];
        let c = b.campaign;
        let contributed = contribution_of(b.contributions@, investor);
        if !self.books().contains_key(campaign_id) {
            Some(EscrowError::CampaignNotFound)
        } else if c.status != CampaignStatus::Settled {
            Some(EscrowError::NotSettled)
        } else if contributed <= 0 {
            Some(EscrowError::NothingToReturn)
        } else if share_of(contributed, c.returnable as int, c.total_funded as int) <= 0 {
            Some(EscrowError::NothingToReturn)
        } else {
            None
        }
    }

    /// The investor's pro-rata share of `pool` (zero when it has no
    /// contribution), with the facts that make the arithmetic safe.
    fn share_for(&self, campaign_id: u64, investor: &String, pool: i128) -> (r: (i128, i128))
        requires
            self.wf(),
            self.books().contains_key(campaign_id),
            pool == self.books()[campaign_id].campaign.refundable || pool
                == self.books()[campaign_id].campaign.returnable,
        ensures
            ({
                let b = self.books()[campaign_id];
                let contributed = contribution_of(b.contributions@, investor@);
                &&& r.0 == contributed
                &&& 0 <= contributed <= b.campaign.total_funded
                &&& contributed > 0 ==> r.1 == share_of(
                    contributed,
                    pool as int,
                    b.campaign.total_funded as int,
                ) && 0 <= r.1 <= pool
            }),
    {
        let ghost b = self.books()[campaign_id];
        proof {
            assert(book_wf(b));
            lemma_contribution_bounds(b.contributions@, investor@);
        }
        let book = self.books.get(&campaign_id).unwrap();
        let contributed = contribution_amount(&book.contributions, investor);
        if contributed <= 0 {
            (contributed, 0)
        } else {
            let total = book.campaign.total_funded;
            proof {
                assert(contributed * pool <= MAX_TARGET_AMOUNT * MAX_TARGET_AMOUNT)
                    by (nonlinear_arith)
                    requires
                        0 <= contributed <= total,
                        0 <= pool <= total,
                        total <= MAX_TARGET_AMOUNT,
                ;
                assert(0 <= contributed * pool) by (nonlinear_arith)
                    requires
                        0 <= contributed,
                        0 <= pool,
                ;
            }
            (contributed, pro_rata_share(contributed, pool, total))
        }
    }

    /// Sets the investor's contribution to zero once its share is paid.
    fn clear_contribution(&mut self, campaign_id: u64, investor: String, Ghost(pool): Ghost<int>)
        requires
            old(self).wf(),
            old(self).books().contains_key(campaign_id),
            payout_status(old(self).books()[campaign_id].campaign.status),
        ensures
            final(self).wf(),
            only_book_changed(*old(self), *final(self), campaign_id),
            payout_records_kept(*old(self), *final(self)),
            ({
                let ob = old(self).books()[campaign_id];
                let nb = final(self).books()[campaign_id];
                let total = ob.campaign.total_funded as int;
                &&& nb.campaign == ob.campaign
                &&& nb.tranches == ob.tranches
                &&& nb.dispute == ob.dispute
                &&& nb.harvest_record == ob.harvest_record
                &&& contribution_recorded(ob.contributions@, nb.contributions@, investor@, 0)
                &&& 0 < total ==> total_claimable(nb.contributions@, pool, total)
                    == total_claimable(ob.contributions@, pool, total) - share_of(
                    contribution_of(ob.contributions@, investor@),
                    pool,
                    total,
                )
            }),
    {
        let ghost ob = self.books()[campaign_id];
        proof {
            assert(book_wf(ob));
            lemma_contribution_bounds(ob.contributions@, investor@);
        }
        let mut book = self.take_book(campaign_id);
        set_contribution(&mut book.contributions, investor, 0);
        proof {
            let total = ob.campaign.total_funded as int;
            if 0 < total {
                assert(share_of(0, pool, total) == 0) by (nonlinear_arith)
                    requires
                        0 < total,
                ;
            }
        }
        self.restore_book(campaign_id, book, Ghost(*old(self)));
    }

    /// An investor claims its pro-rata share `contributed * refundable /
    /// total_funded` (truncated) of a resolved or failed campaign's refundable
    /// funds; its contribution is then cleared. The truncation dust stays in
    /// escrow, so the claims of all investors never add up to more than the
    /// refundable amount (see `lemma_claims_within_pool`).
    pub fn claim_refund(&mut self, campaign_id: u64, investor: String) -> (r: Result<
        Vec<Effect>,
        EscrowError,
    >)
        requires
            old(self).wf(),
        ensures
            final(self).wf(),
            ledger_step(*old(self), *final(self)),
            match r {
                Err(e) => old(self).refund_rejection(campaign_id, investor@) == Some(e)
                    && *final(self) == *old(self),
                Ok(effects) => {
                    let ob = old(self).books()[campaign_id];
                    let nb = final(self).books()[campaign_id];
                    let c = ob.campaign;
                    let contributed = contribution_of(ob.contributions@, investor@);
                    let share = share_of(contributed, c.refundable as int, c.total_funded as int);
                    &&& old(self).refund_rejection(campaign_id, investor@) is None
                    &&& only_book_changed(*old(self), *final(self), campaign_id)
                    &&& nb.campaign == c
                    &&& nb.tranches == ob.tranches
                    &&& nb.dispute == ob.dispute
                    &&& nb.harvest_record == ob.harvest_record
                    &&& contribution_recorded(ob.contributions@, nb.contributions@, investor@, 0)
                    &&& total_claimable(
                        nb.contributions@,
                        c.refundable as int,
                        c.total_funded as int,
                    ) == total_claimable(
                        ob.contributions@,
                        c.refundable as int,
                        c.total_funded as int,
                    ) - share
                    &&& effects@ == seq![
                        Effect::RequireAuth { account: investor },
                        Effect::Transfer {
                            token: c.token_address,
                            from: Party::Escrow,
                            to: Party::Account(investor),
                            amount: share as i128,
                        },
                        Effect::Emit {
                            event: Event::RefundClaimed {
                                campaign_id,
                                investor,
                                amount: share as i128,
                            },
                        },
                    ]
                },
            },
    {
        let (share, token) = match self.books.get(&campaign_id) {
            None => {
                return Err(EscrowError::CampaignNotFound);
            },
            Some(book) => {
                let c = &book.campaign;
                if !(c.status == CampaignStatus::Resolved || c.status == CampaignStatus::Failed) {
                    return Err(EscrowError::NoRefundAvailable);
                }
                let (contributed, share) = self.share_for(campaign_id, &investor, c.refundable);
                if contributed <= 0 {
                    return Err(EscrowError::NothingToRefund);
                }
                if share <= 0 {
                    return Err(EscrowError::NothingToRefund);
                }
                (share, c.token_address.clone())
            },
        };
        let mut effects: Vec<Effect> = Vec::new();
        effects.push(Effect::RequireAuth { account: investor.clone() });
        effects.push(
            Effect::Transfer {
                token,
                from: Party::Escrow,
                to: Party::Account(investor.clone()),
                amount: share,
            },
        );
        effects.push(
            Effect::Emit {
                event: Event::RefundClaimed { campaign_id, investor: investor.clone(), amount: share },
            },
        );
        let ghost pool = self.books()[campaign_id].campaign.refundable as int;
        self.clear_contribution(campaign_id, investor, Ghost(pool));
        Ok(effects)
    }

    /// An investor claims its pro-rata share `contributed * returnable /
    /// total_funded` (truncated) of a settled campaign's investor returns;
    /// its contribution is then cleared. The truncation dust stays in escrow,
    /// so the claims of all investors never add up to more than the
    /// returnable amount (see `lemma_claims_within_pool`).
    pub fn claim_return(&mut self, campaign_id: u64, investor: String) -> (r: Result<
        Vec<Effect>,
        EscrowError,
    >)
        requires
            old(self).wf(),
        ensures
            final(self).wf(),
            ledger_step(*old(self), *final(self)),
            match r {
                Err(e) => old(self).return_rejection(campaign_id, investor@) == Some(e)
                    && *final(self) == *old(self),
                Ok(effects) => {
                    let ob = old(self).books()[campaign_id];
                    let nb = final(self).books()[campaign_id];
                    let c = ob.campaign;
                    let contributed = contribution_of(ob.contributions@, investor@);
                    let share = share_of(contributed, c.returnable as int, c.total_funded as int);
                    &&& old(self).return_rejection(campaign_id, investor@) is None
                    &&& only_book_changed(*old(self), *final(self), campaign_id)
                    &&& nb.campaign == c
                    &&& nb.tranches == ob.tranches
                    &&& nb.dispute == ob.dispute
                    &&& nb.harvest_record == ob.harvest_record
                    &&& contribution_recorded(ob.contributions@, nb.contributions@, investor@, 0)
                    &&& total_claimable(
                        nb.contributions@,
                        c.returnable as int,
                        c.total_funded as int,
                    ) == total_claimable(
                        ob.contributions@,
                        c.returnable as int,
                        c.total_funded as int,
                    ) - share
                    &&& effects@ == seq![
                        Effect::RequireAuth { account: investor },
                        Effect::Transfer {
                            token: c.token_address,
                            from: Party::Escrow,
                            to: Party::Account(investor),
                            amount: share as i128,
                        },
                        Effect::Emit {
                            event: Event::ReturnClaimed {
                                campaign_id,
                                investor,
                                amount: share as i128,
                            },
                        },
                    ]
                },
            },
    {
        let (share, token) = match self.books.get(&campaign_id) {
            None => {
                return Err(EscrowError::CampaignNotFound);
            },
            Some(book) => {
                let c = &book.campaign;
                if c.status != CampaignStatus::Settled {
                    return Err(EscrowError::NotSettled);
                }
                let (contributed, share) = self.share_for(campaign_id, &investor, c.returnable);
                if contributed <= 0 {
                    return Err(EscrowError::NothingToReturn);
                }
                if share <= 0 {
                    return Err(EscrowError::NothingToReturn);
                }
                (share, c.token_address.clone())
            },
        };
        let mut effects: Vec<Effect> = Vec::new();
        effects.push(Effect::RequireAuth { account: investor.clone() });
        effects.push(
            Effect::Transfer {
                token,
                from: Party::Escrow,
                to: Party::Account(investor.clone()),
                amount: share,
            },
        );
        effects.push(
            Effect::Emit {
                event: Event::ReturnClaimed { campaign_id, investor: investor.clone(), amount: share },
            },
        );
        let ghost pool = self.books()[campaign_id].campaign.returnable as int;
        self.clear_contribution(campaign_id, investor, Ghost(pool));
        Ok(effects)
    }

    /// The campaign's record, if it exists.
    pub fn get_campaign(&self, campaign_id: u64) -> (r: Option<Campaign>)
        ensures
            r == if self.books().contains_key(campaign_id) {
                Some(self.books()[campaign_id].campaign)
            } else {
                None::<Campaign>
            },
    {
        match self.books.get(&campaign_id) {
            Some(book) => Some(book.campaign.clone()),
            None => None,
        }
    }

    /// The campaign's dispute, if one was opened.
    pub fn get_dispute(&self, campaign_id: u64) -> (r: Option<Dispute>)
        ensures
            r == if self.books().contains_key(campaign_id) {
                self.books()[campaign_id].dispute
            } else {
                None::<Dispute>
            },
    {
        match self.books.get(&campaign_id) {
            Some(book) => match &book.dispute {
                Some(d) => Some(d.clone()),
                None => None,
            },
            None => None,
        }
    }

    /// What the investor has contributed to the campaign and not yet claimed
    /// back (zero when nothing).
    pub fn get_contribution(&self, campaign_id: u64, investor: String) -> (r: i128)
        requires
            self.wf(),
        ensures
            r == if self.books().contains_key(campaign_id) {
                contribution_of(self.books()[campaign_id].contributions@, investor@)
            } else {
                0
            },
    {
        match self.books.get(&campaign_id) {
            Some(book) => {
                proof {
                    assert(book_wf(self.books()[campaign_id]));
                }
                contribution_amount(&book.contributions, &investor)
            },
            None => 0,
        }
    }

    /// The campaign's configured tranches (empty when none).
    pub fn get_tranches(&self, campaign_id: u64) -> (r: Vec<Tranche>)
        ensures
            r@ == if self.books().contains_key(campaign_id) {
                self.books()[campaign_id].tranches@
            } else {
                Seq::<Tranche>::empty()
            },
    {
        let mut out: Vec<Tranche> = Vec::new();
        match self.books.get(&campaign_id) {
            Some(book) => {
                let mut i: usize = 0;
                while i < book.tranches.len()
                    invariant
                        i <= book.tranches.len(),
                        out@ == book.tranches@.subrange(0, i as int),
                    decreases book.tranches.len() - i,
                {
                    out.push(book.tranches[i]);
                    i = i + 1;
                    proof {
                        assert(out@ =~= book.tranches@.subrange(0, i as int));
                    }
                }
                proof {
                    assert(out@ =~= book.tranches@);
                }
            },
            None => {
                proof {
                    assert(out@ =~= Seq::<Tranche>::empty());
                }
            },
        }
        out
    }

    /// The campaign's harvest record, if the harvest was reported.
    pub fn get_harvest_record(&self, campaign_id: u64) -> (r: Option<HarvestRecord>)
        ensures
            r == if self.books().contains_key(campaign_id) {
                self.books()[campaign_id].harvest_record
            } else {
                None::<HarvestRecord>
            },
    {
        match self.books.get(&campaign_id) {
            Some(book) => match &book.harvest_record {
                Some(h) => Some(h.clone()),
                None => None,
            },
            None => None,
        }
    }

    /// An escrow with this administrator and no campaign books loaded: where
    /// a host resumes its stored ledger, one campaign at a time.
    pub fn with_admin(admin: Option<String>) -> (r: Self)
        ensures
            r.wf(),
            r.admin_account() == admin,
            r.books() == Map::<u64, CampaignBook>::empty(),
    {
        ProductionEscrowContract { admin, books: HashMap::new() }
    }

    /// Loads the stored books of a campaign, provided they are well formed
    /// and no books are held for that campaign yet.
    pub fn load_book(&mut self, campaign_id: u64, book: CampaignBook) -> (r: Result<(), EscrowError>)
        requires
            old(self).wf(),
        ensures
            final(self).wf(),
            r is Ok <==> book_wf(book) && !old(self).books().contains_key(campaign_id),
            r is Err ==> r == Err::<(), EscrowError>(EscrowError::MalformedBooks) && *final(self)
                == *old(self),
            r is Ok ==> final(self).books() == old(self).books().insert(campaign_id, book)
                && final(self).admin_account() == old(self).admin_account(),
    {
        if self.books.contains_key(&campaign_id) || !book_is_well_formed(&book) {
            return Err(EscrowError::MalformedBooks);
        }
        self.put_book(campaign_id, book);
        proof {
            assert forall|id: u64| #[trigger] self.books().contains_key(id) implies book_wf(
                self.books()[id],
            ) by {
                if id != campaign_id {
                    assert(old(self).books().contains_key(id));
                }
            }
        }
        Ok(())
    }

    /// The books held for a campaign, if any.
    pub fn book(&self, campaign_id: u64) -> (r: Option<&CampaignBook>)
        ensures
            match r {
                Some(b) => self.books().contains_key(campaign_id) && *b
                    == self.books()[campaign_id],
                None => !self.books().contains_key(campaign_id),
            },
    {
        self.books.get(&campaign_id)
    }
}

/// The sum of a sequence of amounts.
pub open spec fn sum_amounts(s: Seq<int>) -> int
    decreases s.len(),
{
    if s.len() == 0 {
        0
    } else {
        sum_amounts(s.drop_last()) + s.last()
    }
}

/// In a well-formed campaign, what all the investors can still claim
/// together of the refundable or returnable pool (each its truncated pro-rata
/// share) is between zero and that pool.
pub proof fn lemma_claims_within_pool(book: CampaignBook, pool: int)
    requires
        book_wf(book),
        pool == book.campaign.refundable || pool == book.campaign.returnable,
        0 < book.campaign.total_funded,
    ensures
        0 <= total_claimable(book.contributions@, pool, book.campaign.total_funded as int) <= pool,
{
    let entries = book.contributions@;
    let total = book.campaign.total_funded as int;
    lemma_total_claimable_bounded(entries, pool, total);
    crate::contributions::lemma_total_contributed_nonnegative(entries);
    lemma_share_bounds(total_contributed(entries), pool, total);
    crate::contributions::lemma_total_claimable_nonnegative(entries, pool, total);
}

/// Successive claims on one campaign never pay out more than its pool: if
/// each claim leaves the campaign's record as it was and lowers what can
/// still be claimed by exactly the share it pays (as `claim_refund` and
/// `claim_return` guarantee), the shares paid add up to at most the pool.
pub proof fn lemma_claim_sequence_within_pool(books: Seq<CampaignBook>, shares: Seq<int>, pool: int)
    requires
        books.len() == shares.len() + 1,
        forall|i: int| 0 <= i < books.len() ==> book_wf(#[trigger] books[i]),
        forall|i: int| 0 <= i < books.len() ==> #[trigger] books[i].campaign == books[0].campaign,
        pool == books[0].campaign.refundable || pool == books[0].campaign.returnable,
        0 < books[0].campaign.total_funded,
        forall|i: int|
            0 <= i < shares.len() ==> total_claimable(
                #[trigger] books[i + 1].contributions@,
                pool,
                books[0].campaign.total_funded as int,
            ) == total_claimable(books[i].contributions@, pool, books[0].campaign.total_funded as int)
                - shares[i],
    ensures
        sum_amounts(shares) <= pool,
    decreases shares.len(),
{
    let total = books[0].campaign.total_funded as int;
    let n = shares.len() as int;
    if n == 0 {
        lemma_claims_within_pool(books[0], pool);
    } else {
        lemma_claim_sequence_partial(books, shares, pool, n);
        assert(shares.subrange(0, n) =~= shares);
        assert(books[n].campaign == books[0].campaign);
        lemma_claims_within_pool(books[n], pool);
        lemma_claims_within_pool(books[0], pool);
    }
}

proof fn lemma_claim_sequence_partial(books: Seq<CampaignBook>, shares: Seq<int>, pool: int, k: int)
    requires
        books.len() == shares.len() + 1,
        0 <= k <= shares.len(),
        forall|i: int|
            0 <= i < shares.len() ==> total_claimable(
                #[trigger] books[i + 1].contributions@,
                pool,
                books[0].campaign.total_funded as int,
            ) == total_claimable(books[i].contributions@, pool, books[0].campaign.total_funded as int)
                - shares[i],
    ensures
        sum_amounts(shares.subrange(0, k)) == total_claimable(
            books[0].contributions@,
            pool,
            books[0].campaign.total_funded as int,
        ) - total_claimable(books[k].contributions@, pool, books[0].campaign.total_funded as int),
    decreases k,
{
    if k > 0 {
        lemma_claim_sequence_partial(books, shares, pool, k - 1);
        assert(shares.subrange(0, k).drop_last() =~= shares.subrange(0, k - 1));
        assert(books[(k - 1) + 1] == books[k]);
    }
}

/// An investor whose contribution has been cleared (as `claim_refund` and
/// `claim_return` leave it) has nothing left to claim: a second claim is
/// rejected.
pub proof fn lemma_cleared_investor_cannot_claim_again(
    escrow: ProductionEscrowContract,
    campaign_id: u64,
    investor: Seq<char>,
)
    requires
        escrow.books().contains_key(campaign_id),
        contribution_of(escrow.books()[campaign_id].contributions@, investor) == 0,
    ensures
        escrow.refund_rejection(campaign_id, investor) is Some,
        escrow.return_rejection(campaign_id, investor) is Some,
{
}

/// Every request on campaign `id` other than a refund or return claim is
/// rejected, whatever its arguments.
pub open spec fn only_claims_accepted(s: ProductionEscrowContract, id: u64) -> bool {
    &&& forall|t: i128| #[trigger] s.create_rejection(id, t) is Some
    &&& forall|a: i128| #[trigger] s.fund_rejection(id, a) is Some
    &&& forall|a: i128| #[trigger] s.receive_rejection(id, a) is Some
    &&& forall|a: i128| #[trigger] s.complete_rejection(id, a) is Some
    &&& forall|ts: Seq<Tranche>| #[trigger] s.configure_rejection(id, ts) is Some
    &&& forall|a: i128| #[trigger] s.release_rejection(id, a) is Some
    &&& forall|w: Seq<char>| #[trigger] s.harvest_rejection(id, w) is Some
    &&& forall|w: Seq<char>| #[trigger] s.dispute_rejection(id, w) is Some
    &&& forall|r: DisputeResolution, a: i128| #[trigger] s.resolve_rejection(id, r, a) is Some
    &&& forall|w: Seq<char>, a: i128| #[trigger] s.settle_rejection(id, w, a) is Some
    &&& s.fail_rejection(id) is Some
}

/// A resolved, settled or failed campaign accepts nothing but claims: a
/// refund claim when it was resolved or failed, a return claim when it was
/// settled.
pub proof fn lemma_closed_campaign_accepts_only_claims(s: ProductionEscrowContract, id: u64)
    requires
        s.books().contains_key(id),
        payout_status(s.books()[id].campaign.status),
    ensures
        only_claims_accepted(s, id),
        s.books()[id].campaign.status == CampaignStatus::Settled ==> forall|w: Seq<char>|
            #[trigger] s.refund_rejection(id, w) is Some,
        s.books()[id].campaign.status != CampaignStatus::Settled ==> forall|w: Seq<char>|
            #[trigger] s.return_rejection(id, w) is Some,
{
}

proof fn lemma_steps_keep_closed_record(ls: Seq<ProductionEscrowContract>, id: u64, k: int)
    requires
        0 <= k < ls.len(),
        forall|i: int| 0 <= i < ls.len() - 1 ==> ledger_step(#[trigger] ls[i], ls[i + 1]),
        ls[0].books().contains_key(id),
        payout_status(ls[0].books()[id].campaign.status),
    ensures
        ls[k].books().contains_key(id),
        ls[k].books()[id].campaign == ls[0].books()[id].campaign,
    decreases k,
{
    if k > 0 {
        lemma_steps_keep_closed_record(ls, id, k - 1);
        assert(ledger_step(ls[k - 1], ls[k]));
        assert(ls[k - 1].books().contains_key(id));
    }
}

/// Once a campaign is resolved, settled or failed, it stays so: along any
/// run of operations (each step as every operation guarantees) its record
/// never changes and every request on it except a claim is rejected.
pub proof fn lemma_closed_campaign_stays_closed(ls: Seq<ProductionEscrowContract>, id: u64)
    requires
        ls.len() >= 1,
        forall|i: int| 0 <= i < ls.len() - 1 ==> ledger_step(#[trigger] ls[i], ls[i + 1]),
        ls[0].books().contains_key(id),
        payout_status(ls[0].books()[id].campaign.status),
    ensures
        forall|k: int|
            #![trigger ls[k]]
            0 <= k < ls.len() ==> ls[k].books().contains_key(id) && ls[k].books()[id].campaign
                == ls[0].books()[id].campaign && only_claims_accepted(ls[k], id),
{
    assert forall|k: int|
        #![trigger ls[k]]
        0 <= k < ls.len() implies ls[k].books().contains_key(id) && ls[k].books()[id].campaign
            == ls[0].books()[id].campaign && only_claims_accepted(ls[k], id) by {
        lemma_steps_keep_closed_record(ls, id, k);
        lemma_closed_campaign_accepts_only_claims(ls[k], id);
    }
}

proof fn lemma_steps_keep_cleared(
    ls: Seq<ProductionEscrowContract>,
    id: u64,
    investor: Seq<char>,
    k: int,
)
    requires
        0 <= k < ls.len(),
        forall|i: int| 0 <= i < ls.len() - 1 ==> ledger_step(#[trigger] ls[i], ls[i + 1]),
        ls[0].wf(),
        ls[0].books().contains_key(id),
        payout_status(ls[0].books()[id].campaign.status),
        contribution_of(ls[0].books()[id].contributions@, investor) == 0,
    ensures
        ls[k].books().contains_key(id),
        payout_status(ls[k].books()[id].campaign.status),
        contribution_of(ls[k].books()[id].contributions@, investor) == 0,
    decreases k,
{
    lemma_steps_keep_closed_record(ls, id, k);
    if k > 0 {
        lemma_steps_keep_cleared(ls, id, investor, k - 1);
        let prev = ls[k - 1];
        let next = ls[k];
        assert(ledger_step(prev, next));
        assert(prev.books().contains_key(id));
        assert(contribution_of(next.books()[id].contributions@, investor) <= contribution_of(
            prev.books()[id].contributions@,
            investor,
        ));
        assert(book_wf(next.books()[id]));
        lemma_contribution_bounds(next.books()[id].contributions@, investor);
    }
}

/// An investor is paid a refund or return at most once per campaign: once a
/// claim has cleared its contribution to a resolved, settled or failed
/// campaign, every later claim along any run of operations is rejected.
pub proof fn lemma_claimed_at_most_once(
    ls: Seq<ProductionEscrowContract>,
    id: u64,
    investor: Seq<char>,
)
    requires
        ls.len() >= 1,
        forall|i: int| 0 <= i < ls.len() - 1 ==> ledger_step(#[trigger] ls[i], ls[i + 1]),
        ls[0].wf(),
        ls[0].books().contains_key(id),
        payout_status(ls[0].books()[id].campaign.status),
        contribution_of(ls[0].books()[id].contributions@, investor) == 0,
    ensures
        forall|k: int|
            0 <= k < ls.len() ==> #[trigger] ls[k].refund_rejection(id, investor) is Some
                && ls[k].return_rejection(id, investor) is Some,
{
    assert forall|k: int| 0 <= k < ls.len() implies #[trigger] ls[k].refund_rejection(
        id,
        investor,
    ) is Some && ls[k].return_rejection(id, investor) is Some by {
        lemma_steps_keep_cleared(ls, id, investor, k);
    }
}

proof fn lemma_steps_keep_admin(ls: Seq<ProductionEscrowContract>, k: int)
    requires
        0 <= k < ls.len(),
        forall|i: int| 0 <= i < ls.len() - 1 ==> ledger_step(#[trigger] ls[i], ls[i + 1]),
        ls[0].admin_account() is Some,
    ensures
        ls[k].admin_account() == ls[0].admin_account(),
    decreases k,
{
    if k > 0 {
        lemma_steps_keep_admin(ls, k - 1);
        assert(ledger_step(ls[k - 1], ls[k]));
    }
}

/// Once initialized, the administrator never changes along any run of
/// operations (`initialize` rejects a second call; `get_admin` reports it).
pub proof fn lemma_admin_never_changes(ls: Seq<ProductionEscrowContract>)
    requires
        ls.len() >= 1,
        forall|i: int| 0 <= i < ls.len() - 1 ==> ledger_step(#[trigger] ls[i], ls[i + 1]),
        ls[0].admin_account() is Some,
    ensures
        forall|k: int| 0 <= k < ls.len() ==> #[trigger] ls[k].admin_account() == ls[0].admin_account(),
{
    assert forall|k: int| 0 <= k < ls.len() implies #[trigger] ls[k].admin_account()
        == ls[0].admin_account() by {
        lemma_steps_keep_admin(ls, k);
    }
}

/// Claims on a campaign leave less than one unit of dust per investor: from
/// the moment a campaign is resolved, failed or settled (when its
/// contributions still add up to what was funded), once successive claims
/// have left every investor a zero share (each has claimed or is owed
/// nothing), the shares paid fall short of the pool by less than the number
/// of investors who had contributed.
pub proof fn lemma_claims_leave_less_than_one_per_investor(
    books: Seq<CampaignBook>,
    shares: Seq<int>,
    pool: int,
)
    requires
        books.len() == shares.len() + 1,
        forall|i: int| 0 <= i < books.len() ==> book_wf(#[trigger] books[i]),
        forall|i: int| 0 <= i < books.len() ==> #[trigger] books[i].campaign == books[0].campaign,
        pool == books[0].campaign.refundable || pool == books[0].campaign.returnable,
        0 < books[0].campaign.total_funded,
        forall|i: int|
            0 <= i < shares.len() ==> total_claimable(
                #[trigger] books[i + 1].contributions@,
                pool,
                books[0].campaign.total_funded as int,
            ) == total_claimable(books[i].contributions@, pool, books[0].campaign.total_funded as int)
                - shares[i],
        total_contributed(books[0].contributions@) == books[0].campaign.total_funded,
        forall|j: int|
            0 <= j < books[shares.len() as int].contributions@.len() ==> share_of(
                #[trigger] books[shares.len() as int].contributions@[j].amount as int,
                pool,
                books[0].campaign.total_funded as int,
            ) == 0,
    ensures
        0 <= pool - sum_amounts(shares) < count_positive(books[0].contributions@),
{
    let n = shares.len() as int;
    let total = books[0].campaign.total_funded as int;
    lemma_claim_sequence_within_pool(books, shares, pool);
    lemma_claim_sequence_partial(books, shares, pool, n);
    assert(shares.subrange(0, n) =~= shares);
    let last = books[n].contributions@;
    assert forall|j: int| 0 <= j < last.len() implies #[trigger] share_in(pool, total)(last[j])
        == 0 by {
        assert(share_of(last[j].amount as int, pool, total) == 0);
    }
    lemma_sum_of_zeros(last, share_in(pool, total));
    assert(book_wf(books[0]));
    lemma_claim_dust_below_count(books[0].contributions@, pool, total);
}

proof fn lemma_released_total_mark(s: Seq<Tranche>, k: int)
    requires
        0 <= k < s.len(),
        !s[k].released,
    ensures
        released_tranche_total(s.update(k, Tranche { amount: s[k].amount, released: true }))
            == released_tranche_total(s) + s[k].amount,
    decreases s.len(),
{
    let t = Tranche { amount: s[k].amount, released: true };
    let s2 = s.update(k, t);
    if k == s.len() - 1 {
        assert(s2.drop_last() =~= s.drop_last());
    } else {
        assert(s2.drop_last() =~= s.drop_last().update(k, t));
        lemma_released_total_mark(s.drop_last(), k);
    }
}

proof fn lemma_released_total_bounds(s: Seq<Tranche>)
    requires
        tranches_positive(s),
    ensures
        0 <= released_tranche_total(s) <= tranche_total(s),
    decreases s.len(),
{
    if s.len() > 0 {
        let pre = s.drop_last();
        assert(tranches_positive(pre)) by {
            assert forall|i: int| 0 <= i < pre.len() implies #[trigger] pre[i].amount > 0 by {
                assert(pre[i] == s[i]);
            }
        }
        lemma_released_total_bounds(pre);
        assert(s[s.len() - 1].amount > 0);
    }
}

proof fn lemma_nothing_released(s: Seq<Tranche>)
    requires
        forall|i: int| 0 <= i < s.len() ==> !(#[trigger] s[i].released),
    ensures
        released_tranche_total(s) == 0,
    decreases s.len(),
{
    if s.len() > 0 {
        let pre = s.drop_last();
        assert forall|i: int| 0 <= i < pre.len() implies !(#[trigger] pre[i].released) by {
            assert(pre[i] == s[i]);
        }
        lemma_nothing_released(pre);
        assert(!s[s.len() - 1].released);
    }
}

/// Tranches configured on a funded campaign with none marked released start
/// level with the campaign: nothing released, no tranche released.
pub proof fn lemma_configured_tranches_start_level(b: CampaignBook)
    requires
        book_wf(b),
        b.campaign.status == CampaignStatus::Funded,
        forall|i: int| 0 <= i < b.tranches@.len() ==> !(#[trigger] b.tranches@[i].released),
    ensures
        b.campaign.released == released_tranche_total(b.tranches@),
{
    lemma_nothing_released(b.tranches@);
}

proof fn lemma_release_steps_at(books: Seq<CampaignBook>, amounts: Seq<i128>, m: int)
    requires
        books.len() == amounts.len() + 1,
        0 <= m < books.len(),
        books[0].tranches@.len() > 0,
        book_wf(books[0]),
        books[0].campaign.released == released_tranche_total(books[0].tranches@),
        forall|i: int|
            0 <= i < amounts.len() ==> release_step(#[trigger] books[i], books[i + 1], amounts[i]),
    ensures
        books[m].tranches@.len() == books[0].tranches@.len(),
        tranches_positive(books[m].tranches@),
        tranche_total(books[m].tranches@) == tranche_total(books[0].tranches@),
        books[m].campaign.released == released_tranche_total(books[m].tranches@),
    decreases m,
{
    if m > 0 {
        lemma_release_steps_at(books, amounts, m - 1);
        let prev = books[m - 1];
        let next = books[m];
        let amount = amounts[m - 1];
        assert(release_step(prev, next, amount));
        let s = prev.tranches@;
        let k = choose|k: int|
            next_unreleased(s, k) && s[k].amount == amount && next.tranches@ == s.update(
                k,
                Tranche { amount, released: true },
            );
        lemma_released_total_mark(s, k);
        lemma_tranche_total_mark_released(s, k);
        assert(tranches_positive(next.tranches@)) by {
            assert forall|i: int| 0 <= i < next.tranches@.len() implies #[trigger] next.tranches@[i].amount
                > 0 by {
                assert(s[i].amount > 0);
            }
        }
        lemma_released_total_bounds(next.tranches@);
        assert(tranche_total(books[0].tranches@) <= MAX_TARGET_AMOUNT);
        assert(prev.campaign.released + amount == released_tranche_total(next.tranches@));
    }
}

/// Along releases from configured tranches, what the campaign has released
/// is exactly the sum of the tranches marked released, which never exceeds
/// the sum of all the tranches (and so what was funded).
pub proof fn lemma_releases_follow_tranches(books: Seq<CampaignBook>, amounts: Seq<i128>)
    requires
        books.len() == amounts.len() + 1,
        books[0].tranches@.len() > 0,
        book_wf(books[0]),
        books[0].campaign.released == released_tranche_total(books[0].tranches@),
        forall|i: int|
            0 <= i < amounts.len() ==> release_step(#[trigger] books[i], books[i + 1], amounts[i]),
    ensures
        books[amounts.len() as int].campaign.released == released_tranche_total(
            books[amounts.len() as int].tranches@,
        ),
        released_tranche_total(books[amounts.len() as int].tranches@) <= tranche_total(
            books[0].tranches@,
        ),
        tranche_total(books[0].tranches@) <= books[0].campaign.total_funded,
{
    let n = amounts.len() as int;
    lemma_release_steps_at(books, amounts, n);
    lemma_released_total_bounds(books[n].tranches@);
}

} // verus!

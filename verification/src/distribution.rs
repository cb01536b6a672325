//! Rental-income distribution for tokenized real-world assets.
//!
//! An administrator registers properties and their shareholders, then
//! creates distributions of an amount over a property's shares; each
//! shareholder claims its pro-rata part of each distribution once.

use vstd::prelude::*;

use crate::math::{
    div_trunc, fits_i128, lemma_floor_div_superadditive, lemma_tdiv_bounds, lemma_tdiv_cancel,
    lemma_tdiv_monotone, lemma_tdiv_positive_divisor, tdiv,
};
use crate::store::Store;

verus! {

/// A registered property.
#[derive(Debug)]
pub struct PropertyInfo {
    pub id: u64,
    pub admin: String,
    pub total_shares: u32,
}

impl Clone for PropertyInfo {
    fn clone(&self) -> (r: Self)
        ensures
            r == *self,
    {
        PropertyInfo { id: self.id, admin: self.admin.clone(), total_shares: self.total_shares }
    }
}

/// One distribution of an amount over the shares of a property.
#[derive(Copy, Clone, Debug, PartialEq, Eq, Structural)]
pub struct Distribution {
    pub id: u32,
    pub property_id: u64,
    pub total_amount: i128,
    pub period: u64,
    pub total_shares: u32,
    pub claimed_amount: i128,
}

/// Why an operation of the distribution contract was refused.
#[derive(Copy, Clone, Debug, PartialEq, Eq, Structural)]
pub enum DistributionError {
    AlreadyInitialized,
    NotInitialized,
    NotAdmin,
    PropertyNotFound,
    AlreadyClaimed,
    NoSharesRegistered,
    DistributionNotFound,
    ArithmeticOverflow,
    DivisionByZero,
}

/// The message under which the contract reports each refusal.
pub open spec fn error_message(e: DistributionError) -> Seq<char> {
    match e {
        DistributionError::AlreadyInitialized => "already initialized"@,
        DistributionError::NotInitialized => "not initialized"@,
        DistributionError::NotAdmin => "not admin"@,
        DistributionError::PropertyNotFound => "property not found"@,
        DistributionError::AlreadyClaimed => "already claimed"@,
        DistributionError::NoSharesRegistered => "no shares registered"@,
        DistributionError::DistributionNotFound => "distribution not found"@,
        DistributionError::ArithmeticOverflow => "arithmetic overflow"@,
        DistributionError::DivisionByZero => "division by zero"@,
    }
}

impl DistributionError {
    /// The message under which the contract reports the refusal.
    pub fn message(&self) -> (m: &'static str)
        ensures
            m@ == error_message(*self),
    {
        match self {
            DistributionError::AlreadyInitialized => "already initialized",
            DistributionError::NotInitialized => "not initialized",
            DistributionError::NotAdmin => "not admin",
            DistributionError::PropertyNotFound => "property not found",
            DistributionError::AlreadyClaimed => "already claimed",
            DistributionError::NoSharesRegistered => "no shares registered",
            DistributionError::DistributionNotFound => "distribution not found",
            DistributionError::ArithmeticOverflow => "arithmetic overflow",
            DistributionError::DivisionByZero => "division by zero",
        }
    }
}

/// The abstract state of the distribution contract.
pub struct LedgerModel {
    pub admin: Option<Seq<char>>,
    pub properties: Map<u64, PropertyInfo>,
    pub shares: Map<(u64, Seq<char>), u32>,
    pub dist_counts: Map<u64, u32>,
    pub distributions: Map<(u64, u32), Distribution>,
    pub claimed: Map<(u64, u32, Seq<char>), bool>,
}

/// The administrator check that guards every administrative operation.
pub open spec fn admin_refusal(m: LedgerModel, admin: Seq<char>) -> Option<DistributionError> {
    match m.admin {
        None => Some(DistributionError::NotInitialized),
        Some(a) => if a != admin {
            Some(DistributionError::NotAdmin)
        } else {
            None
        },
    }
}

/// A holder's part of a distribution: `total_amount * shares / total_shares`,
/// rounded toward zero.
pub open spec fn pro_rata(d: Distribution, shares: u32) -> Result<i128, DistributionError> {
    if !fits_i128(d.total_amount * shares) {
        Err(DistributionError::ArithmeticOverflow)
    } else if d.total_shares == 0 {
        Err(DistributionError::DivisionByZero)
    } else {
        Ok(tdiv(d.total_amount * shares, d.total_shares as int) as i128)
    }
}

/// Shares registered for a holder of a property, zero when none.
pub open spec fn shares_of(m: LedgerModel, property_id: u64, holder: Seq<char>) -> u32 {
    if m.shares.contains_key((property_id, holder)) {
        m.shares[(property_id, holder)]
    } else {
        0
    }
}

/// What `claim_distribution` answers in state `m`.
pub open spec fn claim_outcome(
    m: LedgerModel,
    holder: Seq<char>,
    property_id: u64,
    dist_id: u32,
) -> Result<i128, DistributionError> {
    if m.claimed.contains_key((property_id, dist_id, holder)) {
        Err(DistributionError::AlreadyClaimed)
    } else if shares_of(m, property_id, holder) == 0 {
        Err(DistributionError::NoSharesRegistered)
    } else if !m.distributions.contains_key((property_id, dist_id)) {
        Err(DistributionError::DistributionNotFound)
    } else {
        let d = m.distributions[(property_id, dist_id)];
        match pro_rata(d, shares_of(m, property_id, holder)) {
            Err(e) => Err(e),
            Ok(amount) => if fits_i128(d.claimed_amount + amount) {
                Ok(amount)
            } else {
                Err(DistributionError::ArithmeticOverflow)
            },
        }
    }
}

/// The state after a successful claim of `amount`.
pub open spec fn after_claim(
    m: LedgerModel,
    holder: Seq<char>,
    property_id: u64,
    dist_id: u32,
    amount: i128,
) -> LedgerModel {
    let d = m.distributions[(property_id, dist_id)];
    LedgerModel {
        distributions: m.distributions.insert(
            (property_id, dist_id),
            Distribution { claimed_amount: (d.claimed_amount + amount) as i128, ..d },
        ),
        claimed: m.claimed.insert((property_id, dist_id, holder), true),
        ..m
    }
}

/// What `get_claimable` answers in state `m`.
pub open spec fn claimable_outcome(
    m: LedgerModel,
    holder: Seq<char>,
    property_id: u64,
    dist_id: u32,
) -> Result<i128, DistributionError> {
    if m.claimed.contains_key((property_id, dist_id, holder)) {
        Ok(0)
    } else if shares_of(m, property_id, holder) == 0 {
        Ok(0)
    } else if !m.distributions.contains_key((property_id, dist_id)) {
        Ok(0)
    } else {
        pro_rata(m.distributions[(property_id, dist_id)], shares_of(m, property_id, holder))
    }
}

/// What `create_distribution` answers in state `m`: the next distribution id
/// of the property.
pub open spec fn create_outcome(m: LedgerModel, admin: Seq<char>, property_id: u64) -> Result<
    u32,
    DistributionError,
> {
    if admin_refusal(m, admin) is Some {
        Err(admin_refusal(m, admin)->Some_0)
    } else if !m.properties.contains_key(property_id) {
        Err(DistributionError::PropertyNotFound)
    } else {
        let id = if m.dist_counts.contains_key(property_id) {
            m.dist_counts[property_id]
        } else {
            0
        };
        if id == u32::MAX {
            Err(DistributionError::ArithmeticOverflow)
        } else {
            Ok(id)
        }
    }
}

/// The state after distribution `id` of `total_amount` was created.
pub open spec fn after_create(
    m: LedgerModel,
    property_id: u64,
    id: u32,
    total_amount: i128,
    period: u64,
) -> LedgerModel {
    LedgerModel {
        distributions: m.distributions.insert(
            (property_id, id),
            Distribution {
                id,
                property_id,
                total_amount,
                period,
                total_shares: m.properties[property_id].total_shares,
                claimed_amount: 0,
            },
        ),
        dist_counts: m.dist_counts.insert(property_id, (id + 1) as u32),
        ..m
    }
}

/// The state after the administrator was set.
pub open spec fn after_initialize(m: LedgerModel, admin: Seq<char>) -> LedgerModel {
    LedgerModel { admin: Some(admin), ..m }
}

/// The state after a property was (re-)registered.
pub open spec fn after_register_property(m: LedgerModel, info: PropertyInfo) -> LedgerModel {
    LedgerModel {
        properties: m.properties.insert(info.id, info),
        dist_counts: m.dist_counts.insert(info.id, 0),
        ..m
    }
}

/// The state after a holder's shares in a property were recorded.
pub open spec fn after_register_shareholder(
    m: LedgerModel,
    property_id: u64,
    holder: Seq<char>,
    shares: u32,
) -> LedgerModel {
    LedgerModel { shares: m.shares.insert((property_id, holder), shares), ..m }
}

/// The distribution contract's state.
pub struct Contract {
    pub admin: Option<String>,
    pub properties: Store<u64, PropertyInfo>,
    pub shares: Store<(u64, String), u32>,
    pub dist_counts: Store<u64, u32>,
    pub distributions: Store<(u64, u32), Distribution>,
    pub claimed: Store<(u64, u32, String), bool>,
}

impl View for Contract {
    type V = LedgerModel;

    closed spec fn view(&self) -> LedgerModel {
        LedgerModel {
            admin: match self.admin {
                Some(a) => Some(a@),
                None => None,
            },
            properties: self.properties.map(),
            shares: self.shares.map(),
            dist_counts: self.dist_counts.map(),
            distributions: self.distributions.map(),
            claimed: self.claimed.map(),
        }
    }
}

impl Contract {
    pub closed spec fn wf(&self) -> bool {
        &&& self.properties.wf()
        &&& self.shares.wf()
        &&& self.dist_counts.wf()
        &&& self.distributions.wf()
        &&& self.claimed.wf()
    }

    /// A contract with no administrator and empty storage.
    pub fn new() -> (c: Self)
        ensures
            c.wf(),
            c@.admin is None,
            c@.properties == Map::<u64, PropertyInfo>::empty(),
            c@.shares == Map::<(u64, Seq<char>), u32>::empty(),
            c@.dist_counts == Map::<u64, u32>::empty(),
            c@.distributions == Map::<(u64, u32), Distribution>::empty(),
            c@.claimed == Map::<(u64, u32, Seq<char>), bool>::empty(),
    {
        Contract {
            admin: None,
            properties: Store::new(),
            shares: Store::new(),
            dist_counts: Store::new(),
            distributions: Store::new(),
            claimed: Store::new(),
        }
    }

    fn check_admin(&self, admin: &String) -> (r: Result<(), DistributionError>)
        ensures
            r is Err <==> admin_refusal(self@, admin@) is Some,
            r matches Err(e) ==> admin_refusal(self@, admin@) == Some(e),
    {
        match &self.admin {
            None => Err(DistributionError::NotInitialized),
            Some(stored) => if *admin != *stored {
                Err(DistributionError::NotAdmin)
            } else {
                Ok(())
            },
        }
    }

    /// Sets the administrator; refused once one is set.
    pub fn initialize(&mut self, admin: String) -> (r: Result<(), DistributionError>)
        requires
            old(self).wf(),
        ensures
            final(self).wf(),
            old(self)@.admin is Some ==> r == Err::<(), DistributionError>(
                DistributionError::AlreadyInitialized,
            ) && final(self)@ == old(self)@,
            old(self)@.admin is None ==> r is Ok && final(self)@ == after_initialize(
                old(self)@,
                admin@,
            ),
    {
        if self.admin.is_some() {
            return Err(DistributionError::AlreadyInitialized);
        }
        self.admin = Some(admin);
        Ok(())
    }

    /// Registers (or re-registers) a property with its total number of
    /// shares, and restarts its distribution numbering at zero.
    pub fn register_property(&mut self, admin: String, property_id: u64, total_shares: u32) -> (r:
        Result<(), DistributionError>)
        requires
            old(self).wf(),
        ensures
            final(self).wf(),
            admin_refusal(old(self)@, admin@) matches Some(e) ==> r == Err::<(), DistributionError>(
                e,
            ) && final(self)@ == old(self)@,
            admin_refusal(old(self)@, admin@) is None ==> r is Ok && final(self)@
                == after_register_property(
                old(self)@,
                (PropertyInfo { id: property_id, admin, total_shares }),
            ),
    {
        self.check_admin(&admin)?;
        let info = PropertyInfo { id: property_id, admin, total_shares };
        self.properties.set(property_id, info);
        self.dist_counts.set(property_id, 0);
        Ok(())
    }

    /// Records the number of shares a holder owns in a registered property.
    pub fn register_shareholder(
        &mut self,
        admin: String,
        property_id: u64,
        holder: String,
        shares: u32,
    ) -> (r: Result<(), DistributionError>)
        requires
            old(self).wf(),
        ensures
            final(self).wf(),
            admin_refusal(old(self)@, admin@) matches Some(e) ==> r == Err::<(), DistributionError>(
                e,
            ),
            admin_refusal(old(self)@, admin@) is None && !old(self)@.properties.contains_key(
                property_id,
            ) ==> r == Err::<(), DistributionError>(DistributionError::PropertyNotFound),
            r is Err ==> final(self)@ == old(self)@,
            admin_refusal(old(self)@, admin@) is None && old(self)@.properties.contains_key(
                property_id,
            ) ==> r is Ok && final(self)@ == after_register_shareholder(
                old(self)@,
                property_id,
                holder@,
                shares,
            ),
    {
        self.check_admin(&admin)?;
        if !self.properties.contains(&property_id) {
            return Err(DistributionError::PropertyNotFound);
        }
        self.shares.set((property_id, holder), shares);
        Ok(())
    }

    /// Creates the next distribution of `total_amount` for a property and
    /// returns its id; the distribution covers the property's total shares.
    pub fn create_distribution(
        &mut self,
        admin: String,
        property_id: u64,
        total_amount: i128,
        period: u64,
    ) -> (r: Result<u32, DistributionError>)
        requires
            old(self).wf(),
        ensures
            final(self).wf(),
            r == create_outcome(old(self)@, admin@, property_id),
            r is Err ==> final(self)@ == old(self)@,
            r matches Ok(id) ==> final(self)@ == after_create(
                old(self)@,
                property_id,
                id,
                total_amount,
                period,
            ),
    {
        self.check_admin(&admin)?;
        let total_shares = match self.properties.get(&property_id) {
            Some(info) => info.total_shares,
            None => return Err(DistributionError::PropertyNotFound),
        };
        let dist_id: u32 = match self.dist_counts.get(&property_id) {
            Some(c) => *c,
            None => 0,
        };
        if dist_id == u32::MAX {
            return Err(DistributionError::ArithmeticOverflow);
        }
        let dist = Distribution {
            id: dist_id,
            property_id,
            total_amount,
            period,
            total_shares,
            claimed_amount: 0,
        };
        self.distributions.set((property_id, dist_id), dist);
        self.dist_counts.set(property_id, dist_id + 1);
        Ok(dist_id)
    }

    fn registered_shares(&self, property_id: u64, holder: &String) -> (s: u32)
        requires
            self.wf(),
        ensures
            s == shares_of(self@, property_id, holder@),
    {
        match self.shares.get(&(property_id, holder.clone())) {
            Some(s) => *s,
            None => 0,
        }
    }

    /// A holder's pro-rata part of a distribution.
    fn share_amount(d: &Distribution, shares: u32) -> (r: Result<i128, DistributionError>)
        ensures
            r == pro_rata(*d, shares),
    {
        let product = match d.total_amount.checked_mul(shares as i128) {
            Some(p) => p,
            None => return Err(DistributionError::ArithmeticOverflow),
        };
        if d.total_shares == 0 {
            return Err(DistributionError::DivisionByZero);
        }
        proof {
            lemma_tdiv_positive_divisor(product as int, d.total_shares as int);
        }
        Ok(div_trunc(product, d.total_shares as i128))
    }

    /// Pays a holder its part of a distribution, once.
    pub fn claim_distribution(&mut self, holder: String, property_id: u64, dist_id: u32) -> (r:
        Result<i128, DistributionError>)
        requires
            old(self).wf(),
        ensures
            final(self).wf(),
            r == claim_outcome(old(self)@, holder@, property_id, dist_id),
            r is Err ==> final(self)@ == old(self)@,
            r matches Ok(amount) ==> final(self)@ == after_claim(
                old(self)@,
                holder@,
                property_id,
                dist_id,
                amount,
            ),
    {
        let claimed_key = (property_id, dist_id, holder.clone());
        if self.claimed.contains(&claimed_key) {
            return Err(DistributionError::AlreadyClaimed);
        }
        let shares = self.registered_shares(property_id, &holder);
        if shares == 0 {
            return Err(DistributionError::NoSharesRegistered);
        }
        let mut dist = match self.distributions.get(&(property_id, dist_id)) {
            Some(d) => *d,
            None => return Err(DistributionError::DistributionNotFound),
        };
        let amount = Self::share_amount(&dist, shares)?;
        dist.claimed_amount = match dist.claimed_amount.checked_add(amount) {
            Some(c) => c,
            None => return Err(DistributionError::ArithmeticOverflow),
        };
        self.distributions.set((property_id, dist_id), dist);
        self.claimed.set(claimed_key, true);
        Ok(amount)
    }

    /// The distribution with the given id, if it exists.
    pub fn get_distribution(&self, property_id: u64, dist_id: u32) -> (r: Option<Distribution>)
        requires
            self.wf(),
        ensures
            r == (if self@.distributions.contains_key((property_id, dist_id)) {
                Some(self@.distributions[(property_id, dist_id)])
            } else {
                None::<Distribution>
            }),
    {
        match self.distributions.get(&(property_id, dist_id)) {
            Some(d) => Some(*d),
            None => None,
        }
    }

    /// What a holder could claim from a distribution now: zero when already
    /// claimed, without shares, or when the distribution does not exist.
    pub fn get_claimable(&self, holder: String, property_id: u64, dist_id: u32) -> (r: Result<
        i128,
        DistributionError,
    >)
        requires
            self.wf(),
        ensures
            r == claimable_outcome(self@, holder@, property_id, dist_id),
    {
        let claimed_key = (property_id, dist_id, holder.clone());
        if self.claimed.contains(&claimed_key) {
            return Ok(0);
        }
        let shares = self.registered_shares(property_id, &holder);
        if shares == 0 {
            return Ok(0);
        }
        let dist = match self.distributions.get(&(property_id, dist_id)) {
            Some(d) => *d,
            None => return Ok(0),
        };
        Self::share_amount(&dist, shares)
    }
}

/// A holder can claim a distribution at most once: after a successful claim,
/// the same claim is refused as already claimed.
pub proof fn lemma_claim_at_most_once(m: LedgerModel, holder: Seq<char>, property_id: u64, dist_id: u32)
    requires
        claim_outcome(m, holder, property_id, dist_id) is Ok,
    ensures
        claim_outcome(
            after_claim(m, holder, property_id, dist_id, claim_outcome(m, holder, property_id, dist_id)->Ok_0),
            holder,
            property_id,
            dist_id,
        ) == Err::<i128, DistributionError>(DistributionError::AlreadyClaimed),
{
}

/// A successful claim pays exactly what `get_claimable` reported before it.
pub proof fn lemma_claim_pays_claimable(m: LedgerModel, holder: Seq<char>, property_id: u64, dist_id: u32)
    requires
        claim_outcome(m, holder, property_id, dist_id) is Ok,
    ensures
        claimable_outcome(m, holder, property_id, dist_id) == claim_outcome(m, holder, property_id, dist_id),
{
}

/// After a successful claim nothing more is claimable by that holder from
/// that distribution.
pub proof fn lemma_nothing_claimable_after_claim(
    m: LedgerModel,
    holder: Seq<char>,
    property_id: u64,
    dist_id: u32,
)
    requires
        claim_outcome(m, holder, property_id, dist_id) is Ok,
    ensures
        claimable_outcome(
            after_claim(m, holder, property_id, dist_id, claim_outcome(m, holder, property_id, dist_id)->Ok_0),
            holder,
            property_id,
            dist_id,
        ) == Ok::<i128, DistributionError>(0),
{
}

/// A successful claim adds the amount paid to the distribution's claimed
/// amount and leaves the rest of the distribution as it was.
pub proof fn lemma_claim_accumulates(m: LedgerModel, holder: Seq<char>, property_id: u64, dist_id: u32)
    requires
        claim_outcome(m, holder, property_id, dist_id) is Ok,
    ensures
        ({
            let amount = claim_outcome(m, holder, property_id, dist_id)->Ok_0;
            let before = m.distributions[(property_id, dist_id)];
            let after = after_claim(m, holder, property_id, dist_id, amount).distributions[(property_id, dist_id)];
            &&& after.claimed_amount == before.claimed_amount + amount
            &&& after.total_amount == before.total_amount
            &&& after.total_shares == before.total_shares
        }),
{
}

/// One holder's claim does not change what any other holder can claim.
pub proof fn lemma_claims_independent(
    m: LedgerModel,
    holder: Seq<char>,
    other: Seq<char>,
    property_id: u64,
    dist_id: u32,
    other_property: u64,
    other_dist: u32,
)
    requires
        claim_outcome(m, holder, property_id, dist_id) is Ok,
        other != holder,
    ensures
        claimable_outcome(
            after_claim(m, holder, property_id, dist_id, claim_outcome(m, holder, property_id, dist_id)->Ok_0),
            other,
            other_property,
            other_dist,
        ) == claimable_outcome(m, other, other_property, other_dist),
{
    let amount = claim_outcome(m, holder, property_id, dist_id)->Ok_0;
    let m2 = after_claim(m, holder, property_id, dist_id, amount);
    assert(shares_of(m2, other_property, other) == shares_of(m, other_property, other));
    if m.distributions.contains_key((other_property, other_dist)) {
        let d = m.distributions[(other_property, other_dist)];
        let d2 = m2.distributions[(other_property, other_dist)];
        assert(d2.total_amount == d.total_amount && d2.total_shares == d.total_shares);
    }
}

/// Registering a property restarts its distribution ids at zero.
pub proof fn lemma_first_distribution_id(m: LedgerModel, admin: Seq<char>, info: PropertyInfo)
    requires
        admin_refusal(m, admin) is None,
    ensures
        create_outcome(after_register_property(m, info), admin, info.id) == Ok::<u32, DistributionError>(0),
{
}

/// Distribution ids of a property are consecutive: after distribution `id`
/// was created, the next one gets `id + 1`.
pub proof fn lemma_distribution_ids_consecutive(
    m: LedgerModel,
    admin: Seq<char>,
    property_id: u64,
    total_amount: i128,
    period: u64,
)
    requires
        create_outcome(m, admin, property_id) is Ok,
        create_outcome(m, admin, property_id)->Ok_0 + 1 < u32::MAX,
    ensures
        ({
            let id = create_outcome(m, admin, property_id)->Ok_0;
            create_outcome(after_create(m, property_id, id, total_amount, period), admin, property_id)
                == Ok::<u32, DistributionError>((id + 1) as u32)
        }),
{
}

/// A new distribution has nothing claimed yet and covers the property's
/// total shares.
pub proof fn lemma_new_distribution_unclaimed(
    m: LedgerModel,
    admin: Seq<char>,
    property_id: u64,
    total_amount: i128,
    period: u64,
)
    requires
        create_outcome(m, admin, property_id) is Ok,
    ensures
        ({
            let id = create_outcome(m, admin, property_id)->Ok_0;
            let d = after_create(m, property_id, id, total_amount, period).distributions[(property_id, id)];
            &&& d.claimed_amount == 0
            &&& d.total_amount == total_amount
            &&& d.total_shares == m.properties[property_id].total_shares
            &&& d.id == id
        }),
{
}

/// Total of a list of share counts.
pub open spec fn total_shares(shares: Seq<u32>) -> int
    decreases shares.len(),
{
    if shares.len() == 0 {
        0
    } else {
        total_shares(shares.drop_last()) + shares.last()
    }
}

/// Total paid out when each holder of `shares` claims its pro-rata part of
/// a distribution.
pub open spec fn total_payout(d: Distribution, shares: Seq<u32>) -> int
    decreases shares.len(),
{
    if shares.len() == 0 {
        0
    } else {
        total_payout(d, shares.drop_last()) + tdiv(d.total_amount * shares.last(), d.total_shares as int)
    }
}

proof fn lemma_payout_below_share_of_total(d: Distribution, shares: Seq<u32>)
    requires
        d.total_amount >= 0,
        d.total_shares > 0,
    ensures
        0 <= total_shares(shares),
        total_payout(d, shares) <= tdiv(d.total_amount * total_shares(shares), d.total_shares as int),
    decreases shares.len(),
{
    let t = d.total_amount as int;
    let s = d.total_shares as int;
    if shares.len() > 0 {
        let rest = shares.drop_last();
        let last = shares.last() as int;
        lemma_payout_below_share_of_total(d, rest);
        let a = t * total_shares(rest);
        let b = t * last;
        assert(a >= 0 && b >= 0) by (nonlinear_arith)
            requires
                t >= 0,
                total_shares(rest) >= 0,
                last >= 0,
                a == t * total_shares(rest),
                b == t * last,
        ;
        lemma_floor_div_superadditive(a, b, s);
        assert(a + b == t * total_shares(shares)) by (nonlinear_arith)
            requires
                total_shares(shares) == total_shares(rest) + last,
                a == t * total_shares(rest),
                b == t * last,
        ;
    } else {
        assert(t * 0 == 0);
    }
}

/// A distribution never pays out more than its amount: when the shares of
/// its holders add up to at most its total shares and the amount is not
/// negative, the pro-rata parts of all holders add up to at most the amount.
pub proof fn lemma_payouts_within_amount(d: Distribution, shares: Seq<u32>)
    requires
        d.total_amount >= 0,
        d.total_shares > 0,
        total_shares(shares) <= d.total_shares,
    ensures
        total_payout(d, shares) <= d.total_amount,
{
    let t = d.total_amount as int;
    let s = d.total_shares as int;
    lemma_payout_below_share_of_total(d, shares);
    assert(t * total_shares(shares) <= t * s) by (nonlinear_arith)
        requires
            t >= 0,
            total_shares(shares) <= s,
    ;
    lemma_tdiv_monotone(t * total_shares(shares), t * s, s);
    lemma_tdiv_cancel(t, s);
}

/// A holder's part of a distribution is its shares' part of the amount,
/// multiplied before dividing and rounded toward zero: `part * total_shares`
/// lies within one `total_shares` of `total_amount * shares`, on the side of
/// zero.
pub open spec fn is_share_part(d: Distribution, shares: u32, part: int) -> bool {
    let owed = d.total_amount * shares;
    let whole = d.total_shares as int;
    &&& whole > 0
    &&& owed >= 0 ==> part * whole <= owed < part * whole + whole
    &&& owed <= 0 ==> part * whole - whole < owed <= part * whole
}

/// What a successful claim pays is the holder's part of the distribution:
/// the amount times the holder's shares, divided by the total shares and
/// rounded toward zero. The claim succeeds whenever the holder has shares in
/// an existing distribution over a positive number of shares, has not
/// claimed it, and the amounts fit in an `i128`.
pub proof fn lemma_claim_is_share_part(m: LedgerModel, holder: Seq<char>, property_id: u64, dist_id: u32)
    ensures
        ({
            let d = m.distributions[(property_id, dist_id)];
            let s = shares_of(m, property_id, holder);
            &&& claim_outcome(m, holder, property_id, dist_id) matches Ok(v) ==> is_share_part(d, s, v as int)
            &&& {
                ||| claim_outcome(m, holder, property_id, dist_id) is Ok
                ||| m.claimed.contains_key((property_id, dist_id, holder))
                ||| s == 0
                ||| !m.distributions.contains_key((property_id, dist_id))
                ||| d.total_shares == 0
                ||| !fits_i128(d.total_amount * s)
                ||| !fits_i128(d.claimed_amount + tdiv(d.total_amount * s, d.total_shares as int))
            }
        }),
{
    let d = m.distributions[(property_id, dist_id)];
    let s = shares_of(m, property_id, holder);
    if d.total_shares > 0 {
        lemma_tdiv_bounds(d.total_amount * s, d.total_shares as int);
        lemma_tdiv_positive_divisor(d.total_amount * s, d.total_shares as int);
    }
}

/// What `get_claimable` reports for a holder who has shares in an existing,
/// unclaimed distribution is the holder's part of it (multiplied before
/// dividing, rounded toward zero).
pub proof fn lemma_claimable_is_share_part(m: LedgerModel, holder: Seq<char>, property_id: u64, dist_id: u32)
    requires
        !m.claimed.contains_key((property_id, dist_id, holder)),
        shares_of(m, property_id, holder) > 0,
        m.distributions.contains_key((property_id, dist_id)),
    ensures
        claimable_outcome(m, holder, property_id, dist_id) matches Ok(v) ==> is_share_part(
            m.distributions[(property_id, dist_id)],
            shares_of(m, property_id, holder),
            v as int,
        ),
{
    let d = m.distributions[(property_id, dist_id)];
    let s = shares_of(m, property_id, holder);
    if d.total_shares > 0 {
        lemma_tdiv_bounds(d.total_amount * s, d.total_shares as int);
    }
}

/// With a non-negative amount, a holder with more shares never gets a
/// smaller part of the same distribution.
pub proof fn lemma_more_shares_never_less(
    m: LedgerModel,
    holder1: Seq<char>,
    holder2: Seq<char>,
    property_id: u64,
    dist_id: u32,
)
    requires
        m.distributions.contains_key((property_id, dist_id)),
        m.distributions[(property_id, dist_id)].total_amount >= 0,
        !m.claimed.contains_key((property_id, dist_id, holder1)),
        !m.claimed.contains_key((property_id, dist_id, holder2)),
        0 < shares_of(m, property_id, holder1) <= shares_of(m, property_id, holder2),
        claimable_outcome(m, holder1, property_id, dist_id) is Ok,
        claimable_outcome(m, holder2, property_id, dist_id) is Ok,
    ensures
        claimable_outcome(m, holder1, property_id, dist_id)->Ok_0 <= claimable_outcome(
            m,
            holder2,
            property_id,
            dist_id,
        )->Ok_0,
{
    let d = m.distributions[(property_id, dist_id)];
    let s1 = shares_of(m, property_id, holder1);
    let s2 = shares_of(m, property_id, holder2);
    assert(d.total_amount * s1 <= d.total_amount * s2) by (nonlinear_arith)
        requires
            d.total_amount >= 0,
            s1 <= s2,
    ;
    lemma_tdiv_monotone(d.total_amount * s1, d.total_amount * s2, d.total_shares as int);
}

/// Registering a holder's shares records exactly the given count, replacing
/// whatever was registered before, and leaves every other holding as it was.
pub proof fn lemma_register_shareholder_records_count(
    m: LedgerModel,
    property_id: u64,
    holder: Seq<char>,
    shares: u32,
    other_property: u64,
    other: Seq<char>,
)
    ensures
        shares_of(after_register_shareholder(m, property_id, holder, shares), property_id, holder) == shares,
        (other_property, other) != (property_id, holder) ==> shares_of(
            after_register_shareholder(m, property_id, holder, shares),
            other_property,
            other,
        ) == shares_of(m, other_property, other),
{
}

/// Registering a holder twice keeps only the second count: the state is as
/// if the first registration had not happened.
pub proof fn lemma_register_shareholder_last_wins(
    m: LedgerModel,
    property_id: u64,
    holder: Seq<char>,
    first: u32,
    second: u32,
)
    ensures
        after_register_shareholder(
            after_register_shareholder(m, property_id, holder, first),
            property_id,
            holder,
            second,
        ) == after_register_shareholder(m, property_id, holder, second),
{
    assert(m.shares.insert((property_id, holder), first).insert((property_id, holder), second) =~= m.shares.insert(
        (property_id, holder),
        second,
    ));
}

} // verus!

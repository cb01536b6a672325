//! Lending pools: interest-rate model, positions and price feed.

use vstd::prelude::*;

use crate::store::Store;

pub mod interest;
pub mod oracle;
pub mod positions;

use interest::InterestRateModel;
use crate::lists::{names, no_duplicates};
use positions::{BorrowPosition, DepositPosition};

verus! {

/// The lending contract's storage.
pub struct LendingStore {
    pub models: Store<String, InterestRateModel>,
    pub indexes: Store<String, i128>,
    pub last_accruals: Store<String, u64>,
    pub deposits: Store<(String, String), DepositPosition>,
    pub borrows: Store<(String, String), BorrowPosition>,
    pub user_deposits: Store<String, Vec<String>>,
    pub user_borrows: Store<String, Vec<String>>,
    pub oracle_address: Option<String>,
}

/// The names in an optional stored list; empty when none was stored.
pub open spec fn stored_names(m: Map<Seq<char>, Vec<String>>, user: Seq<char>) -> Seq<Seq<char>> {
    if m.contains_key(user) {
        names(m[user]@)
    } else {
        Seq::empty()
    }
}

impl LendingStore {
    /// Every table is well formed and no user's pool list names a pool twice.
    pub open spec fn wf(&self) -> bool {
        &&& self.models.wf()
        &&& self.indexes.wf()
        &&& self.last_accruals.wf()
        &&& self.deposits.wf()
        &&& self.borrows.wf()
        &&& self.user_deposits.wf()
        &&& self.user_borrows.wf()
        &&& forall|u: Seq<char>|
            #[trigger] no_duplicates(stored_names(self.user_deposits.map(), u))
        &&& forall|u: Seq<char>|
            #[trigger] no_duplicates(stored_names(self.user_borrows.map(), u))
    }

    pub open spec fn models(&self) -> Map<Seq<char>, InterestRateModel> {
        self.models.map()
    }

    pub open spec fn indexes(&self) -> Map<Seq<char>, i128> {
        self.indexes.map()
    }

    pub open spec fn last_accruals(&self) -> Map<Seq<char>, u64> {
        self.last_accruals.map()
    }

    /// Deposit positions keyed by (depositor, pool).
    pub open spec fn deposits(&self) -> Map<(Seq<char>, Seq<char>), DepositPosition> {
        self.deposits.map()
    }

    /// Borrow positions keyed by (borrower, pool).
    pub open spec fn borrows(&self) -> Map<(Seq<char>, Seq<char>), BorrowPosition> {
        self.borrows.map()
    }

    /// Pools in which a user holds a deposit, in the order they were added.
    pub open spec fn user_deposit_pools(&self, user: Seq<char>) -> Seq<Seq<char>> {
        stored_names(self.user_deposits.map(), user)
    }

    /// Pools in which a user holds a borrow, in the order they were added.
    pub open spec fn user_borrow_pools(&self, user: Seq<char>) -> Seq<Seq<char>> {
        stored_names(self.user_borrows.map(), user)
    }

    pub open spec fn oracle(&self) -> Option<Seq<char>> {
        match self.oracle_address {
            Some(a) => Some(a@),
            None => None,
        }
    }

    /// The interest index of a pool; `PRECISION` when none was stored.
    pub open spec fn interest_index(&self, pool_id: Seq<char>) -> i128 {
        if self.indexes().contains_key(pool_id) {
            self.indexes()[pool_id]
        } else {
            interest::PRECISION
        }
    }

    pub open spec fn same_positions(&self, other: LendingStore) -> bool {
        &&& self.deposits() == other.deposits()
        &&& self.borrows() == other.borrows()
        &&& forall|u: Seq<char>| #[trigger]
            self.user_deposit_pools(u) == other.user_deposit_pools(u)
        &&& forall|u: Seq<char>| #[trigger] self.user_borrow_pools(u) == other.user_borrow_pools(u)
    }

    pub open spec fn unchanged_except_models(&self, other: LendingStore) -> bool {
        &&& self.indexes() == other.indexes()
        &&& self.last_accruals() == other.last_accruals()
        &&& self.oracle() == other.oracle()
        &&& self.same_positions(other)
    }

    pub open spec fn unchanged_except_indexes(&self, other: LendingStore) -> bool {
        &&& self.models() == other.models()
        &&& self.last_accruals() == other.last_accruals()
        &&& self.oracle() == other.oracle()
        &&& self.same_positions(other)
    }

    pub open spec fn unchanged_except_last_accruals(&self, other: LendingStore) -> bool {
        &&& self.models() == other.models()
        &&& self.indexes() == other.indexes()
        &&& self.oracle() == other.oracle()
        &&& self.same_positions(other)
    }

    /// The pool parameters (models, indexes, accrual times, oracle) are unchanged.
    pub open spec fn same_pools(&self, other: LendingStore) -> bool {
        &&& self.models() == other.models()
        &&& self.indexes() == other.indexes()
        &&& self.last_accruals() == other.last_accruals()
        &&& self.oracle() == other.oracle()
    }

    /// Empty storage.
    pub fn new() -> (s: Self)
        ensures
            s.wf(),
            s.models() == Map::<Seq<char>, InterestRateModel>::empty(),
            s.indexes() == Map::<Seq<char>, i128>::empty(),
            s.last_accruals() == Map::<Seq<char>, u64>::empty(),
            s.deposits() == Map::<(Seq<char>, Seq<char>), DepositPosition>::empty(),
            s.borrows() == Map::<(Seq<char>, Seq<char>), BorrowPosition>::empty(),
            forall|u: Seq<char>| #[trigger] s.user_deposit_pools(u) == Seq::<Seq<char>>::empty(),
            forall|u: Seq<char>| #[trigger] s.user_borrow_pools(u) == Seq::<Seq<char>>::empty(),
            s.oracle() is None,
    {
        let s = LendingStore {
            models: Store::new(),
            indexes: Store::new(),
            last_accruals: Store::new(),
            deposits: Store::new(),
            borrows: Store::new(),
            user_deposits: Store::new(),
            user_borrows: Store::new(),
            oracle_address: None,
        };
        assert forall|u: Seq<char>| #[trigger] no_duplicates(s.user_deposit_pools(u)) by {
            assert(s.user_deposit_pools(u) =~= Seq::<Seq<char>>::empty());
        }
        assert forall|u: Seq<char>| #[trigger] no_duplicates(s.user_borrow_pools(u)) by {
            assert(s.user_borrow_pools(u) =~= Seq::<Seq<char>>::empty());
        }
        s
    }
}

} // verus!

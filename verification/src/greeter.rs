//! The starter greeting contract: a stored greeting, greeting counters and a
//! premium flag set by paying callers.

use vstd::prelude::*;

use crate::store::Store;

verus! {

/// 2 to the power 128.
pub open spec fn two_128() -> nat {
    0x1_0000_0000_0000_0000_0000_0000_0000_0000nat
}

/// An unsigned 256-bit integer, held as its high and low 128-bit halves.
#[derive(Copy, Clone, Debug, PartialEq, Eq, Structural)]
pub struct U256Value {
    pub hi: u128,
    pub lo: u128,
}

impl View for U256Value {
    type V = nat;

    open spec fn view(&self) -> nat {
        (self.hi * two_128() + self.lo) as nat
    }
}

/// Largest value of a `U256Value`.
pub open spec fn u256_max() -> nat {
    (two_128() * two_128() - 1) as nat
}

impl U256Value {
    /// The value of a `u32`.
    pub fn from_u32(v: u32) -> (r: Self)
        ensures
            r@ == v,
    {
        U256Value { hi: 0, lo: v as u128 }
    }

    /// The value plus one, or `None` when it would exceed 256 bits.
    pub fn checked_increment(&self) -> (r: Option<Self>)
        ensures
            self@ < u256_max() ==> (r matches Some(v) && v@ == self@ + 1),
            self@ == u256_max() ==> r is None,
    {
        proof {
            assert(self@ <= u256_max()) by (nonlinear_arith)
                requires
                    self.hi <= two_128() - 1,
                    self.lo <= two_128() - 1,
                    self@ == self.hi * two_128() + self.lo,
            ;
        }
        if self.lo < u128::MAX {
            Some(U256Value { hi: self.hi, lo: self.lo + 1 })
        } else if self.hi < u128::MAX {
            Some(U256Value { hi: self.hi + 1, lo: 0 })
        } else {
            None
        }
    }

    /// Whether the value is greater than zero.
    pub fn is_positive(&self) -> (r: bool)
        ensures
            r == (self@ > 0),
    {
        self.hi != 0 || self.lo != 0
    }
}

/// Why a greeting-contract operation was refused.
#[derive(Copy, Clone, Debug, PartialEq, Eq, Structural)]
pub enum GreeterError {
    GreetingNotInitialized,
    OwnerNotInitialized,
    CounterOverflow,
}

/// The greeting stored by `initialize`.
pub open spec fn initial_greeting() -> Seq<u8> {
    seq![
        66u8, 117u8, 105u8, 108u8, 100u8, 105u8, 110u8, 103u8, 32u8, 85u8, 110u8, 115u8,
        116u8, 111u8, 112u8, 112u8, 97u8, 98u8, 108u8, 101u8, 32u8, 65u8, 112u8, 112u8,
        115u8, 33u8, 33u8, 33u8
    ]
}

/// The abstract state of the greeting contract.
pub struct GreeterModel {
    pub owner: Option<Seq<char>>,
    pub greeting: Option<Seq<u8>>,
    pub total_counter: Option<nat>,
    pub user_counters: Map<Seq<char>, nat>,
    pub premium: Option<bool>,
}

/// A stored counter, zero when absent.
pub open spec fn count_or_zero(c: Option<nat>) -> nat {
    match c {
        Some(n) => n,
        None => 0,
    }
}

/// A user's greeting count, zero when absent.
pub open spec fn user_count(m: GreeterModel, user: Seq<char>) -> nat {
    if m.user_counters.contains_key(user) {
        m.user_counters[user]
    } else {
        0
    }
}

/// The state after `caller` set `greeting` paying `amount`, when both
/// counters could be incremented.
pub open spec fn after_set_greeting(
    m: GreeterModel,
    caller: Seq<char>,
    greeting: Seq<u8>,
    amount: nat,
) -> GreeterModel {
    GreeterModel {
        owner: m.owner,
        greeting: Some(greeting),
        total_counter: Some(count_or_zero(m.total_counter) + 1),
        user_counters: m.user_counters.insert(caller, user_count(m, caller) + 1),
        premium: Some(amount > 0),
    }
}

/// Whether `set_greeting` by `caller` overflows one of the counters.
pub open spec fn set_greeting_overflows(m: GreeterModel, caller: Seq<char>) -> bool {
    count_or_zero(m.total_counter) >= u256_max() || user_count(m, caller) >= u256_max()
}

/// The greeting contract's state.
pub struct YourContract {
    pub owner: Option<String>,
    pub greeting: Option<Vec<u8>>,
    pub total_counter: Option<U256Value>,
    pub user_counters: Store<String, U256Value>,
    pub premium: Option<bool>,
}

impl View for YourContract {
    type V = GreeterModel;

    closed spec fn view(&self) -> GreeterModel {
        GreeterModel {
            owner: match self.owner {
                Some(o) => Some(o@),
                None => None,
            },
            greeting: match self.greeting {
                Some(g) => Some(g@),
                None => None,
            },
            total_counter: match self.total_counter {
                Some(c) => Some(c@),
                None => None,
            },
            user_counters: self.user_counters.map().map_values(|c: U256Value| c@),
            premium: self.premium,
        }
    }
}

impl YourContract {
    pub closed spec fn wf(&self) -> bool {
        self.user_counters.wf()
    }

    /// A contract with nothing stored.
    pub fn new() -> (c: Self)
        ensures
            c.wf(),
            c@.owner is None,
            c@.greeting is None,
            c@.total_counter is None,
            c@.user_counters == Map::<Seq<char>, nat>::empty(),
            c@.premium is None,
    {
        let c = YourContract {
            owner: None,
            greeting: None,
            total_counter: None,
            user_counters: Store::new(),
            premium: None,
        };
        assert(c@.user_counters =~= Map::<Seq<char>, nat>::empty());
        c
    }

    /// Sets the owner, the initial greeting and zero counters; the premium
    /// flag is left as it was.
    pub fn initialize(&mut self, owner: String)
        requires
            old(self).wf(),
        ensures
            final(self).wf(),
            final(self)@.owner == Some(owner@),
            final(self)@.greeting == Some(initial_greeting()),
            final(self)@.total_counter == Some(0nat),
            final(self)@.user_counters == Map::<Seq<char>, nat>::empty(),
            final(self)@.premium == old(self)@.premium,
    {
        let greeting: Vec<u8> = vec![
            66u8, 117u8, 105u8, 108u8, 100u8, 105u8, 110u8, 103u8, 32u8, 85u8, 110u8, 115u8,
            116u8, 111u8, 112u8, 112u8, 97u8, 98u8, 108u8, 101u8, 32u8, 65u8, 112u8, 112u8,
            115u8, 33u8, 33u8, 33u8
        ];
        self.owner = Some(owner);
        self.greeting = Some(greeting);
        self.total_counter = Some(U256Value::from_u32(0));
        self.user_counters = Store::new();
        proof {
            assert(self@.user_counters =~= Map::<Seq<char>, nat>::empty());
            assert(self@.greeting->Some_0 =~= initial_greeting());
        }
    }

    /// The current greeting; refused before `initialize` or `set_greeting`.
    pub fn greeting(&self) -> (r: Result<Vec<u8>, GreeterError>)
        ensures
            self@.greeting is None ==> r == Err::<Vec<u8>, GreeterError>(
                GreeterError::GreetingNotInitialized,
            ),
            self@.greeting matches Some(g) ==> (r matches Ok(v) && v@ == g),
    {
        match &self.greeting {
            Some(g) => Ok(g.clone()),
            None => Err(GreeterError::GreetingNotInitialized),
        }
    }

    /// Replaces the greeting, counts it for `caller` and in the total, and
    /// marks the contract premium exactly when `amount_xlm` is positive.
    pub fn set_greeting(&mut self, caller: String, new_greeting: Vec<u8>, amount_xlm: U256Value) -> (r:
        Result<(), GreeterError>)
        requires
            old(self).wf(),
        ensures
            final(self).wf(),
            set_greeting_overflows(old(self)@, caller@) ==> r == Err::<(), GreeterError>(
                GreeterError::CounterOverflow,
            ) && final(self)@ == old(self)@,
            !set_greeting_overflows(old(self)@, caller@) ==> r is Ok && final(self)@
                == after_set_greeting(old(self)@, caller@, new_greeting@, amount_xlm@),
    {
        let ghost old_view = self@;
        let total = match self.total_counter {
            Some(t) => t,
            None => U256Value::from_u32(0),
        };
        let new_total = match total.checked_increment() {
            Some(t) => t,
            None => return Err(GreeterError::CounterOverflow),
        };
        let user = match self.user_counters.get(&caller) {
            Some(c) => *c,
            None => U256Value::from_u32(0),
        };
        let new_user = match user.checked_increment() {
            Some(c) => c,
            None => return Err(GreeterError::CounterOverflow),
        };
        self.greeting = Some(new_greeting);
        self.total_counter = Some(new_total);
        self.user_counters.set(caller, new_user);
        self.premium = Some(amount_xlm.is_positive());
        proof {
            assert(self@.user_counters =~= old_view.user_counters.insert(
                caller@,
                user_count(old_view, caller@) + 1,
            ));
        }
        Ok(())
    }

    /// The owner, who alone may withdraw; refused before `initialize`.
    pub fn withdraw(&self) -> (r: Result<String, GreeterError>)
        ensures
            self@.owner is None ==> r == Err::<String, GreeterError>(
                GreeterError::OwnerNotInitialized,
            ),
            self@.owner matches Some(o) ==> (r matches Ok(s) && s@ == o),
    {
        match &self.owner {
            Some(o) => Ok(o.clone()),
            None => Err(GreeterError::OwnerNotInitialized),
        }
    }

    /// Whether the last greeting was paid for; false when never set.
    pub fn premium(&self) -> (b: bool)
        ensures
            b == (self@.premium == Some(true)),
    {
        match self.premium {
            Some(p) => p,
            None => false,
        }
    }

    /// How many greetings `user` has set since the last `initialize`.
    pub fn user_greeting_count(&self, user: &String) -> (c: U256Value)
        requires
            self.wf(),
        ensures
            c@ == user_count(self@, user@),
    {
        match self.user_counters.get(user) {
            Some(c) => *c,
            None => U256Value::from_u32(0),
        }
    }

    /// How many greetings were set since the last `initialize`.
    pub fn total_greeting_count(&self) -> (c: U256Value)
        ensures
            c@ == count_or_zero(self@.total_counter),
    {
        match self.total_counter {
            Some(c) => c,
            None => U256Value::from_u32(0),
        }
    }
}

/// Setting a greeting makes it the current greeting, counts it once in the
/// total and once for the caller, and sets the premium flag from the payment.
pub proof fn lemma_set_greeting_effects(m: GreeterModel, caller: Seq<char>, greeting: Seq<u8>, amount: nat)
    requires
        !set_greeting_overflows(m, caller),
    ensures
        after_set_greeting(m, caller, greeting, amount).greeting == Some(greeting),
        count_or_zero(after_set_greeting(m, caller, greeting, amount).total_counter) == count_or_zero(m.total_counter) + 1,
        user_count(after_set_greeting(m, caller, greeting, amount), caller) == user_count(m, caller) + 1,
        forall|other: Seq<char>| other != caller ==> #[trigger] user_count(after_set_greeting(m, caller, greeting, amount), other) == user_count(m, other),
        after_set_greeting(m, caller, greeting, amount).premium == Some(amount > 0),
{
}

} // verus!

use std::collections::HashMap;

use vstd::prelude::*;

use crate::loader::{check_module, check_result, LoadError};
use crate::ops::{arity, OpKind};

verus! {

broadcast use vstd::std_specs::hash::group_hash_axioms;

/// Why one invocation failed.
#[derive(Clone, Copy, Debug, PartialEq, Eq, Structural)]
pub enum InvocationError {
    /// The module aborted.
    Trap,
    /// The call would take the meter past its ceiling.
    ResourceExhausted,
    /// The arguments do not match the entry point's shape.
    InvalidArguments,
}

/// What a successful invocation reports: the resource units it consumed and
/// the value it returned, if any.
#[derive(Clone, Copy, Debug, PartialEq, Eq, Structural)]
pub struct Outcome {
    pub units: u64,
    pub value: Option<u64>,
}

/// Resource units charged for each entry point.
pub const INITIALIZE_COST: u64 = 400;
pub const MINT_COST: u64 = 650;
pub const TRANSFER_COST: u64 = 900;
pub const BALANCE_COST: u64 = 150;

/// The default metering ceiling of a host context.
pub const DEFAULT_CEILING: u64 = 1000000;

pub open spec fn cost(k: OpKind) -> nat {
    match k {
        OpKind::Initialize => INITIALIZE_COST as nat,
        OpKind::Mint => MINT_COST as nat,
        OpKind::Transfer => TRANSFER_COST as nat,
        OpKind::Balance => BALANCE_COST as nat,
    }
}

fn cost_exec(k: OpKind) -> (r: u64)
    ensures
        r == cost(k),
{
    match k {
        OpKind::Initialize => INITIALIZE_COST,
        OpKind::Mint => MINT_COST,
        OpKind::Transfer => TRANSFER_COST,
        OpKind::Balance => BALANCE_COST,
    }
}

/// The emulated ledger state of a contract: its admin once initialized, the
/// account balances, and the units metered so far.
pub ghost struct Ledger {
    pub admin: Option<u64>,
    pub balances: Map<u64, u64>,
    pub meter: nat,
}

/// The state of a freshly constructed host context.
pub open spec fn fresh_ledger() -> Ledger {
    Ledger { admin: None, balances: Map::empty(), meter: 0 }
}

/// An account's balance; an account never credited holds zero.
pub open spec fn balance_in(b: Map<u64, u64>, id: u64) -> nat {
    if b.contains_key(id) {
        b[id] as nat
    } else {
        0
    }
}

/// The effect of the token contract's entry points on the ledger, before
/// metering.
pub open spec fn contract_step(l: Ledger, k: OpKind, args: Seq<u64>) -> Result<
    (Ledger, Option<u64>),
    InvocationError,
> {
    match k {
        OpKind::Initialize => if l.admin is Some {
            Err(InvocationError::Trap)
        } else {
            Ok((Ledger { admin: Some(args[0]), ..l }, None))
        },
        OpKind::Mint => {
            let to = args[0];
            let amount = args[1];
            if l.admin is None || balance_in(l.balances, to) + amount > u64::MAX {
                Err(InvocationError::Trap)
            } else {
                let nb = (balance_in(l.balances, to) + amount) as u64;
                Ok((Ledger { balances: l.balances.insert(to, nb), ..l }, None))
            }
        },
        OpKind::Transfer => {
            let from = args[0];
            let to = args[1];
            let amount = args[2];
            if l.admin is None || balance_in(l.balances, from) < amount {
                Err(InvocationError::Trap)
            } else if from == to {
                Ok((l, None))
            } else if balance_in(l.balances, to) + amount > u64::MAX {
                Err(InvocationError::Trap)
            } else {
                let nf = (balance_in(l.balances, from) - amount) as u64;
                let nt = (balance_in(l.balances, to) + amount) as u64;
                Ok((Ledger { balances: l.balances.insert(from, nf).insert(to, nt), ..l }, None))
            }
        },
        OpKind::Balance => if l.admin is None {
            Err(InvocationError::Trap)
        } else {
            Ok((l, Some(balance_in(l.balances, args[0]) as u64)))
        },
    }
}

/// One metered invocation: the argument shape is checked first, then the
/// meter's ceiling, then the contract runs. A failed invocation leaves the
/// ledger as it was.
pub open spec fn apply(l: Ledger, ceiling: nat, k: OpKind, args: Seq<u64>) -> Result<
    (Ledger, Outcome),
    InvocationError,
> {
    if args.len() != arity(k) {
        Err(InvocationError::InvalidArguments)
    } else if l.meter + cost(k) > ceiling {
        Err(InvocationError::ResourceExhausted)
    } else {
        match contract_step(l, k, args) {
            Ok((nl, v)) => Ok(
                (
                    Ledger { meter: l.meter + cost(k), ..nl },
                    Outcome { units: cost(k) as u64, value: v },
                ),
            ),
            Err(e) => Err(e),
        }
    }
}

/// An emulated sandbox that runs one token module against its own ledger.
pub struct HostContext {
    module: Vec<u8>,
    admin: Option<u64>,
    balances: HashMap<u64, u64>,
    meter: u64,
    ceiling: u64,
}

impl HostContext {
    /// The ledger state the module sees.
    pub closed spec fn ledger(&self) -> Ledger {
        Ledger { admin: self.admin, balances: self.balances@, meter: self.meter as nat }
    }

    /// The metering ceiling.
    pub closed spec fn ceiling(&self) -> nat {
        self.ceiling as nat
    }

    /// The module's bytes, as loaded.
    pub closed spec fn module(&self) -> Seq<u8> {
        self.module@
    }

    /// Prepares a module for execution against an empty ledger.
    pub fn construct(module: Vec<u8>, ceiling: u64) -> (r: Result<HostContext, LoadError>)
        ensures
            match r {
                Ok(h) => check_result(module@) == Ok::<(), LoadError>(()) && h.ledger()
                    == fresh_ledger() && h.ceiling() == ceiling as nat && h.module() == module@,
                Err(e) => check_result(module@) == Err::<(), LoadError>(e),
            },
    {
        match check_module(&module) {
            Err(e) => Err(e),
            Ok(()) => {
                let h = HostContext {
                    module,
                    admin: None,
                    balances: HashMap::new(),
                    meter: 0,
                    ceiling,
                };
                assert(h.ledger() == fresh_ledger());
                Ok(h)
            },
        }
    }

    fn balance_get(&self, id: u64) -> (r: u64)
        ensures
            r as nat == balance_in(self.balances@, id),
    {
        match self.balances.get(&id) {
            Some(v) => *v,
            None => 0,
        }
    }

    /// Runs one entry point against the current ledger.
    pub fn invoke(&mut self, kind: OpKind, args: &Vec<u64>) -> (r: Result<Outcome, InvocationError>)
        ensures
            final(self).ceiling() == old(self).ceiling(),
            final(self).module() == old(self).module(),
            match apply(old(self).ledger(), old(self).ceiling(), kind, args@) {
                Ok((l, o)) => r == Ok::<Outcome, InvocationError>(o) && final(self).ledger() == l,
                Err(e) => r == Err::<Outcome, InvocationError>(e) && final(self).ledger()
                    == old(self).ledger(),
            },
    {
        if args.len() != kind.arity() {
            return Err(InvocationError::InvalidArguments);
        }
        let c = cost_exec(kind);
        if self.meter > self.ceiling || c > self.ceiling - self.meter {
            return Err(InvocationError::ResourceExhausted);
        }
        let value: Option<u64> = match kind {
            OpKind::Initialize => {
                if self.admin.is_some() {
                    return Err(InvocationError::Trap);
                }
                self.admin = Some(args[0]);
                None
            },
            OpKind::Mint => {
                let to = args[0];
                let amount = args[1];
                if self.admin.is_none() {
                    return Err(InvocationError::Trap);
                }
                let b = self.balance_get(to);
                if amount > u64::MAX - b {
                    return Err(InvocationError::Trap);
                }
                self.balances.insert(to, b + amount);
                None
            },
            OpKind::Transfer => {
                let from = args[0];
                let to = args[1];
                let amount = args[2];
                if self.admin.is_none() {
                    return Err(InvocationError::Trap);
                }
                let bf = self.balance_get(from);
                if bf < amount {
                    return Err(InvocationError::Trap);
                }
                if from != to {
                    let bt = self.balance_get(to);
                    if amount > u64::MAX - bt {
                        return Err(InvocationError::Trap);
                    }
                    self.balances.insert(from, bf - amount);
                    self.balances.insert(to, bt + amount);
                }
                None
            },
            OpKind::Balance => {
                if self.admin.is_none() {
                    return Err(InvocationError::Trap);
                }
                Some(self.balance_get(args[0]))
            },
        };
        self.meter = self.meter + c;
        Ok(Outcome { units: c, value })
    }

    /// An account's current balance.
    pub fn balance(&self, id: u64) -> (r: u64)
        ensures
            r as nat == balance_in(self.ledger().balances, id),
    {
        self.balance_get(id)
    }

    /// Resource units metered so far.
    pub fn meter(&self) -> (r: u64)
        ensures
            r as nat == self.ledger().meter,
    {
        self.meter
    }
}

} // verus!

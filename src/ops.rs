use vstd::prelude::*;

verus! {

/// The entry points a token module exposes to the benchmark.
#[derive(Clone, Copy, Debug, PartialEq, Eq, Structural)]
pub enum OpKind {
    /// `initialize(admin)`
    Initialize,
    /// `mint(to, amount)`
    Mint,
    /// `transfer(from, to, amount)`
    Transfer,
    /// `balance(id)`
    Balance,
}

/// How many integer arguments each entry point takes.
pub open spec fn arity(k: OpKind) -> nat {
    match k {
        OpKind::Initialize => 1,
        OpKind::Mint => 2,
        OpKind::Transfer => 3,
        OpKind::Balance => 1,
    }
}

/// The exported name of each entry point, as bytes.
pub open spec fn entry_name(k: OpKind) -> Seq<u8> {
    match k {
        OpKind::Initialize => seq![105u8, 110, 105, 116, 105, 97, 108, 105, 122, 101],
        OpKind::Mint => seq![109u8, 105, 110, 116],
        OpKind::Transfer => seq![116u8, 114, 97, 110, 115, 102, 101, 114],
        OpKind::Balance => seq![98u8, 97, 108, 97, 110, 99, 101],
    }
}

impl OpKind {
    /// Number of arguments the entry point expects.
    pub fn arity(&self) -> (r: usize)
        ensures
            r == arity(*self),
    {
        match self {
            OpKind::Initialize => 1,
            OpKind::Mint => 2,
            OpKind::Transfer => 3,
            OpKind::Balance => 1,
        }
    }

    /// The entry point's exported name.
    pub fn entry_name(&self) -> (r: Vec<u8>)
        ensures
            r@ == entry_name(*self),
    {
        let r = match self {
            OpKind::Initialize => vec![105u8, 110, 105, 116, 105, 97, 108, 105, 122, 101],
            OpKind::Mint => vec![109u8, 105, 110, 116],
            OpKind::Transfer => vec![116u8, 114, 97, 110, 115, 102, 101, 114],
            OpKind::Balance => vec![98u8, 97, 108, 97, 110, 99, 101],
        };
        assert(r@ =~= entry_name(*self));
        r
    }
}

/// One step of a scenario: an entry point and its arguments.
#[derive(Clone, Debug)]
pub struct Step {
    pub kind: OpKind,
    pub args: Vec<u64>,
}

} // verus!

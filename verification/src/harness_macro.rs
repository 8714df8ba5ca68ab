//! Settings and error messages of the harness attribute.

use vstd::prelude::*;
use vstd::string::StringExecFns;
use crate::text::{append_decimal, decimal};

verus! {

/// Settings of the circuit that a harness builds.
pub struct CircuitCfg {
    mut_chip: bool,
}

impl CircuitCfg {
    pub closed spec fn spec_mut_chip(&self) -> bool {
        self.mut_chip
    }

    /// The chip is taken by shared reference.
    pub fn new() -> (r: Self)
        ensures
            !r.spec_mut_chip(),
    {
        Self { mut_chip: false }
    }

    /// The chip is taken by mutable reference.
    pub fn with_mut_chip(self) -> (r: Self)
        ensures
            r.spec_mut_chip(),
    {
        let mut s = self;
        s.mut_chip = true;
        s
    }

    pub fn mut_chip(&self) -> (r: bool)
        ensures
            r == self.spec_mut_chip(),
    {
        self.mut_chip
    }

    /// The names under which the generated circuit synthesizes: the circuit trait, its
    /// method, whether the chip is passed by `&mut`, and the tag of the circuit.
    pub fn synthesis_names(&self) -> (r: SynthesisNames)
        ensures
            self.spec_mut_chip() ==> r == (SynthesisNames {
                circuit_trait: "AbstractCircuitMut",
                method: "synthesize_mut",
                chip_by_mut: true,
                tag: "FunctionMut",
            }),
            !self.spec_mut_chip() ==> r == (SynthesisNames {
                circuit_trait: "AbstractCircuit",
                method: "synthesize",
                chip_by_mut: false,
                tag: "Function",
            }),
    {
        if self.mut_chip {
            SynthesisNames {
                circuit_trait: "AbstractCircuitMut",
                method: "synthesize_mut",
                chip_by_mut: true,
                tag: "FunctionMut",
            }
        } else {
            SynthesisNames { circuit_trait: "AbstractCircuit", method: "synthesize", chip_by_mut: false, tag: "Function" }
        }
    }
}

/// The names under which a generated circuit implements its synthesis.
#[derive(Clone, Copy, Debug, PartialEq, Eq)]
pub struct SynthesisNames {
    pub circuit_trait: &'static str,
    pub method: &'static str,
    pub chip_by_mut: bool,
    pub tag: &'static str,
}

/// Why the harness attribute refused a function.
#[derive(Debug)]
pub enum ErrorType {
    TypeNotReference,
    TypeNotMutReference,
    UnexpectedSelf,
    UnexpectedParams { from: usize, to: usize, lst: &'static str },
    FailedExtractLayouterParam(&'static str),
    IncorrectReturnType,
    ExpectedTypeInGeneric(usize),
}

/// The message of a refusal.
pub open spec fn spec_error_message(e: ErrorType) -> Seq<char> {
    match e {
        ErrorType::TypeNotReference => "parameter must be a &-reference"@,
        ErrorType::TypeNotMutReference => "parameter must be a &mut-reference"@,
        ErrorType::UnexpectedSelf => "unexpected self parameter; expected typed parameter"@,
        ErrorType::UnexpectedParams { from, to, lst } => "expected between "@ + decimal(from as nat)
            + " and "@ + decimal(to as nat) + " parameters: "@ + lst@,
        ErrorType::FailedExtractLayouterParam(msg) => "failed to extract F from &mut impl Layouter<F>: "@
            + msg@,
        ErrorType::IncorrectReturnType => "return type must be () or Result<Output, Error>"@,
        ErrorType::ExpectedTypeInGeneric(idx) => "expected a type for generic argument #"@ + decimal(
            idx as nat,
        ),
    }
}

impl ErrorType {
    /// The refusal in words.
    pub fn message(&self) -> (r: String)
        ensures
            r@ == spec_error_message(*self),
    {
        let r = match self {
            ErrorType::TypeNotReference => String::from_str("parameter must be a &-reference"),
            ErrorType::TypeNotMutReference => String::from_str("parameter must be a &mut-reference"),
            ErrorType::UnexpectedSelf => String::from_str(
                "unexpected self parameter; expected typed parameter",
            ),
            ErrorType::UnexpectedParams { from, to, lst } => {
                let mut out = String::from_str("expected between ");
                append_decimal(&mut out, *from);
                out.append(" and ");
                append_decimal(&mut out, *to);
                out.append(" parameters: ");
                out.append(lst);
                out
            },
            ErrorType::FailedExtractLayouterParam(msg) => {
                let mut out = String::from_str("failed to extract F from &mut impl Layouter<F>: ");
                out.append(msg);
                out
            },
            ErrorType::IncorrectReturnType => String::from_str(
                "return type must be () or Result<Output, Error>",
            ),
            ErrorType::ExpectedTypeInGeneric(idx) => {
                let mut out = String::from_str("expected a type for generic argument #");
                append_decimal(&mut out, *idx);
                out
            },
        };
        proof {
            assert(r@ =~= spec_error_message(*self));
        }
        r
    }
}

} // verus!

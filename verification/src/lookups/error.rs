//! Errors of the lookup handlers.

use vstd::prelude::*;
use vstd::string::StringExecFns;
use crate::expr::{Expr, FieldConst};
use crate::field::{append_expr_text, expr_text, fq_debug, spec_fq_debug};
use crate::text::{append_decimal, append_decimal_u64, decimal};

verus! {

/// Why a lookup handler refused a lookup.
#[derive(Debug)]
pub enum LookupError {
    /// The lookup has another number of inputs than the handler's mode expects.
    InputCount { expected: usize, got: usize },
    /// The tag of the lookup, this expression, does not fold to a constant.
    NotConstant(Expr),
    /// The tag of the lookup folds to another constant than the mode's.
    WrongTag { tag: u64, folded: FieldConst },
    /// A plain/spread pair handler got another number of lookups than two.
    LookupCount { got: usize, names: String },
    /// Some lookups matched no handler; their names, each preceded by `", "`.
    NoHandler(String),
    /// No handler is registered for the lookup of this name.
    MissingHandler(String),
}

impl LookupError {
    /// The refusal in words.
    pub fn message(&self) -> (r: Option<String>)
        ensures
            match *self {
                LookupError::InputCount { expected, got } => r matches Some(m) && m@
                    == "Lookup mode expects "@ + decimal(expected as nat) + " inputs but got "@
                    + decimal(got as nat),
                LookupError::LookupCount { got, names } => r matches Some(m) && m@
                    == "Unexpected input. Was expecting two lookups but got "@ + decimal(got as nat)
                    + ": "@ + names@,
                LookupError::NoHandler(names) => r matches Some(m) && m@ == "Lookups "@ + names@
                    + " did not match any handler!"@,
                LookupError::MissingHandler(name) => r matches Some(m) && m@
                    == "Missing handler for lookup '"@ + name@ + "'"@,
                LookupError::NotConstant(e) => r matches Some(m) && m@
                    == "Was expecting a constant expression but got "@ + expr_text(e),
                LookupError::WrongTag { tag, folded } => r matches Some(m) && m@
                    == "Was expecting tag to be equal to "@ + decimal(tag as nat) + " but got "@
                    + spec_fq_debug(folded),
            },
    {
        match self {
            LookupError::InputCount { expected, got } => {
                let mut out = String::from_str("Lookup mode expects ");
                append_decimal(&mut out, *expected);
                out.append(" inputs but got ");
                append_decimal(&mut out, *got);
                Some(out)
            },
            LookupError::LookupCount { got, names } => {
                let mut out = String::from_str("Unexpected input. Was expecting two lookups but got ");
                append_decimal(&mut out, *got);
                out.append(": ");
                out.append(names.as_str());
                Some(out)
            },
            LookupError::NoHandler(names) => {
                let mut out = String::from_str("Lookups ");
                out.append(names.as_str());
                out.append(" did not match any handler!");
                Some(out)
            },
            LookupError::MissingHandler(name) => {
                let mut out = String::from_str("Missing handler for lookup '");
                out.append(name.as_str());
                out.append("'");
                Some(out)
            },
            LookupError::NotConstant(e) => {
                let mut out = String::from_str("Was expecting a constant expression but got ");
                append_expr_text(&mut out, e);
                Some(out)
            },
            LookupError::WrongTag { tag, folded } => {
                let mut out = String::from_str("Was expecting tag to be equal to ");
                append_decimal_u64(&mut out, *tag);
                out.append(" but got ");
                let f = fq_debug(*folded);
                out.append(f.as_str());
                Some(out)
            },
        }
    }
}

} // verus!

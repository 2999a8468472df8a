//! The failures that parsing and evaluation report, and their model.
use vstd::prelude::*;

use crate::text::{concat, count_string, decimal};

verus! {

/// Failures of parsing and evaluation.
#[derive(Debug)]
pub enum SatukitanError {
    Parse(String),
    Eval(String),
    TypeMismatch { expected: String, found: String },
    UndefinedSymbol(String),
    ArityMismatch { name: String, expected: String, found: usize },
    Io(String),
}

/// The mathematical model of a failure.
pub enum Fault {
    Parse(Seq<char>),
    Eval(Seq<char>),
    TypeMismatch { expected: Seq<char>, found: Seq<char> },
    UndefinedSymbol(Seq<char>),
    ArityMismatch { name: Seq<char>, expected: Seq<char>, found: nat },
    Io(Seq<char>),
}

impl SatukitanError {
    pub open spec fn view(&self) -> Fault {
        match self {
            SatukitanError::Parse(m) => Fault::Parse(m@),
            SatukitanError::Eval(m) => Fault::Eval(m@),
            SatukitanError::TypeMismatch { expected, found } => Fault::TypeMismatch {
                expected: expected@,
                found: found@,
            },
            SatukitanError::UndefinedSymbol(n) => Fault::UndefinedSymbol(n@),
            SatukitanError::ArityMismatch { name, expected, found } => Fault::ArityMismatch {
                name: name@,
                expected: expected@,
                found: *found as nat,
            },
            SatukitanError::Io(m) => Fault::Io(m@),
        }
    }

    pub fn type_mismatch(expected: &str, found: &str) -> (r: Self)
        ensures
            r@ == (Fault::TypeMismatch { expected: expected@, found: found@ }),
    {
        SatukitanError::TypeMismatch {
            expected: String::from_str(expected),
            found: String::from_str(found),
        }
    }

    pub fn arity_exact(name: &str, expected: usize, found: usize) -> (r: Self)
        ensures
            r@ == arity_fault(name@, exact_descriptor(expected as nat), found as nat),
    {
        SatukitanError::ArityMismatch {
            name: String::from_str(name),
            expected: count_string(expected),
            found,
        }
    }

    pub fn arity_at_least(name: &str, expected: usize, found: usize) -> (r: Self)
        ensures
            r@ == arity_fault(name@, at_least_descriptor(expected as nat), found as nat),
    {
        let n = count_string(expected);
        proof {
            reveal_strlit(">= ");
        }
        SatukitanError::ArityMismatch {
            name: String::from_str(name),
            expected: concat(">= ", n.as_str()),
            found,
        }
    }
}

pub open spec fn arity_fault(name: Seq<char>, expected: Seq<char>, found: nat) -> Fault {
    Fault::ArityMismatch { name, expected, found }
}

/// How an exact arity is described in an arity failure.
pub open spec fn exact_descriptor(n: nat) -> Seq<char> {
    decimal(n as int)
}

/// How a minimum arity is described in an arity failure.
pub open spec fn at_least_descriptor(n: nat) -> Seq<char> {
    ">= "@ + decimal(n as int)
}

} // verus!

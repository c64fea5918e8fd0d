//! The abstract syntax of the contract algebra and of the expression
//! language layered over it.

use vstd::prelude::*;

verus! {

/// A financial contract, as a closed algebra of composable obligations.
#[derive(Debug, PartialEq, Eq)]
pub enum Contract {
    /// No obligation.
    Zero,
    /// A unit transfer from the holder to the counterparty.
    One,
    /// The same obligations with the two roles swapped.
    Give(Box<Contract>),
    /// Both sub-contracts.
    And(Box<Contract>, Box<Contract>),
    /// A choice between the two sub-contracts.
    Or(Box<Contract>, Box<Contract>),
    /// The sub-contract with every amount multiplied by the factor.
    Scale(Box<Expression>, Box<Contract>),
    /// The sub-contract with its activation deferred.
    Then(Box<Contract>),
    /// The sub-contract, waiting until it is exercised.
    Get(Box<Contract>),
    /// The sub-contract, exercisable at any time.
    Anytime(Box<Contract>),
}

/// An expression of the definition language: literals, variables,
/// functions, and embedded contracts.
#[derive(Debug, PartialEq, Eq)]
pub enum Expression {
    /// An unsigned integer literal.
    Literal(u64),
    /// A reference to a name bound by an enclosing abstraction.
    VariableRef(String),
    /// A function of one named parameter.
    Abstraction(String, Box<Expression>),
    /// An application of a function to an argument.
    Application(Box<Expression>, Box<Expression>),
    /// A contract embedded as an expression.
    ContractNode(Box<Contract>),
}

/// The coarse static classification of an expression, used to decide how a
/// definition is lowered.
#[derive(Debug, PartialEq, Eq, Clone, Copy)]
pub enum Kind {
    /// The expression produces persistent contract state.
    State,
    /// The expression is a plain value.
    Value,
}

impl Expression {
    /// The kind of this expression: an embedded contract produces state,
    /// everything else is a plain value.
    pub open spec fn spec_kind(&self) -> Kind {
        match self {
            Expression::ContractNode(_) => Kind::State,
            _ => Kind::Value,
        }
    }

    /// Classify this expression.
    pub fn kind(&self) -> (k: Kind)
        ensures
            k == self.spec_kind(),
    {
        match self {
            Expression::ContractNode(_) => Kind::State,
            _ => Kind::Value,
        }
    }
}

/// A named top-level binding of an expression.
#[derive(Debug, PartialEq, Eq)]
pub struct Definition {
    pub name: String,
    pub expression: Expression,
}

} // verus!

//! The data model of the generated program: identifiers, variables, the
//! semantic type tags of the target language, and the textual rendering of
//! each.
//!
//! Rendering is a pure projection: every `render` method returns exactly
//! the text that its specification function states, and re-derives nothing
//! that was not captured at construction time.

use vstd::prelude::*;

verus! {

/// The semantic type tag of a variable in the target language.
#[derive(Debug, PartialEq, Eq, Clone, Copy)]
pub enum Kind {
    /// An unsigned 64-bit integer.
    Unsigned,
    /// A boolean.
    Bool,
    /// A currency resource.
    Coin,
    /// A spawned execution context.
    Context,
}

/// The initializer a variable declaration is emitted with.
#[derive(Debug, PartialEq, Eq, Clone, Copy)]
pub enum DefaultValue {
    /// An empty currency resource.
    CoinZero,
    /// An unsigned integer literal.
    Unsigned(u64),
}

/// One of the two parties of a contract.
#[derive(Debug, PartialEq, Eq, Clone, Copy)]
pub enum Address {
    Holder,
    Counterparty,
}

/// The spec-level image of an [`Identifier`].
pub enum IdentifierV {
    Prefixed(Seq<char>),
    Generated(u64),
}

/// A name in the generated program. Names taken verbatim from source are
/// qualified with one fixed prefix when rendered; compiler-generated names
/// carry a counter value and a different prefix, so no rendered generated
/// name can collide with a rendered user name.
#[derive(Debug, PartialEq, Eq)]
pub enum Identifier {
    /// A user-supplied name, qualified when rendered.
    Prefixed(String),
    /// A compiler-generated name, unique by its counter value.
    Generated(u64),
}

impl View for Identifier {
    type V = IdentifierV;

    open spec fn view(&self) -> IdentifierV {
        match self {
            Identifier::Prefixed(s) => IdentifierV::Prefixed(s@),
            Identifier::Generated(n) => IdentifierV::Generated(*n),
        }
    }
}

impl Clone for Identifier {
    fn clone(&self) -> (r: Self)
        ensures
            r@ == self@,
    {
        match self {
            Identifier::Prefixed(s) => Identifier::Prefixed(s.clone()),
            Identifier::Generated(n) => Identifier::Generated(*n),
        }
    }
}

/// The spec-level image of a [`Variable`].
pub struct VariableV {
    pub identifier: IdentifierV,
    pub kind: Kind,
    pub default: Option<DefaultValue>,
}

/// A variable of the generated program: its name, its semantic type tag,
/// and the initializer its declaration is emitted with, if any. Variables
/// are pure values, shared by content between the action that introduces
/// them and every action that later reads them.
#[derive(Debug, PartialEq, Eq)]
pub struct Variable {
    pub identifier: Identifier,
    pub kind: Kind,
    pub default: Option<DefaultValue>,
}

impl View for Variable {
    type V = VariableV;

    open spec fn view(&self) -> VariableV {
        VariableV { identifier: self.identifier@, kind: self.kind, default: self.default }
    }
}

impl Clone for Variable {
    fn clone(&self) -> (r: Self)
        ensures
            r@ == self@,
    {
        Variable { identifier: self.identifier.clone(), kind: self.kind, default: self.default }
    }
}

impl Variable {
    /// A variable with no initializer.
    pub fn new(identifier: Identifier, kind: Kind) -> (r: Variable)
        ensures
            r@ == (VariableV { identifier: identifier@, kind, default: None }),
    {
        Variable { identifier, kind, default: None }
    }

    /// A variable declared with an initializer.
    pub fn with_default(identifier: Identifier, kind: Kind, default: DefaultValue) -> (r: Variable)
        ensures
            r@ == (VariableV { identifier: identifier@, kind, default: Some(default) }),
    {
        Variable { identifier, kind, default: Some(default) }
    }
}

/// The spec-level image of an [`Expression`].
pub enum ExpressionV {
    Unsigned(u64),
    Identifier(IdentifierV),
    Address(Address),
}

/// A small expression of the target language, used as a captured payload
/// inside an action.
#[derive(Debug)]
pub enum Expression {
    /// An unsigned integer literal.
    Unsigned(u64),
    /// A variable name.
    Identifier(Identifier),
    /// One of the two parties.
    Address(Address),
}

impl View for Expression {
    type V = ExpressionV;

    open spec fn view(&self) -> ExpressionV {
        match self {
            Expression::Unsigned(n) => ExpressionV::Unsigned(*n),
            Expression::Identifier(i) => ExpressionV::Identifier(i@),
            Expression::Address(a) => ExpressionV::Address(*a),
        }
    }
}

impl Clone for Expression {
    fn clone(&self) -> (r: Self)
        ensures
            r@ == self@,
    {
        match self {
            Expression::Unsigned(n) => Expression::Unsigned(*n),
            Expression::Identifier(i) => Expression::Identifier(i.clone()),
            Expression::Address(a) => Expression::Address(*a),
        }
    }
}

/// The decimal digit character of `d`.
pub open spec fn spec_digit(d: int) -> char {
    if d == 0 {
        '0'
    } else if d == 1 {
        '1'
    } else if d == 2 {
        '2'
    } else if d == 3 {
        '3'
    } else if d == 4 {
        '4'
    } else if d == 5 {
        '5'
    } else if d == 6 {
        '6'
    } else if d == 7 {
        '7'
    } else if d == 8 {
        '8'
    } else {
        '9'
    }
}

/// The decimal rendering of a non-negative integer, most significant
/// digit first.
pub open spec fn spec_dec(n: int) -> Seq<char>
    decreases n,
{
    if n < 10 {
        seq![spec_digit(n)]
    } else {
        spec_dec(n / 10) + seq![spec_digit(n % 10)]
    }
}

/// The one-character string of a decimal digit.
fn digit_string(d: u64) -> (r: String)
    requires
        d < 10,
    ensures
        r@ == seq![spec_digit(d as int)],
{
    let r: String;
    if d == 0 {
        r = String::from_str("0");
        proof {
            reveal_strlit("0");
            assert(r@ =~= seq![spec_digit(d as int)]);
        }
    } else if d == 1 {
        r = String::from_str("1");
        proof {
            reveal_strlit("1");
            assert(r@ =~= seq![spec_digit(d as int)]);
        }
    } else if d == 2 {
        r = String::from_str("2");
        proof {
            reveal_strlit("2");
            assert(r@ =~= seq![spec_digit(d as int)]);
        }
    } else if d == 3 {
        r = String::from_str("3");
        proof {
            reveal_strlit("3");
            assert(r@ =~= seq![spec_digit(d as int)]);
        }
    } else if d == 4 {
        r = String::from_str("4");
        proof {
            reveal_strlit("4");
            assert(r@ =~= seq![spec_digit(d as int)]);
        }
    } else if d == 5 {
        r = String::from_str("5");
        proof {
            reveal_strlit("5");
            assert(r@ =~= seq![spec_digit(d as int)]);
        }
    } else if d == 6 {
        r = String::from_str("6");
        proof {
            reveal_strlit("6");
            assert(r@ =~= seq![spec_digit(d as int)]);
        }
    } else if d == 7 {
        r = String::from_str("7");
        proof {
            reveal_strlit("7");
            assert(r@ =~= seq![spec_digit(d as int)]);
        }
    } else if d == 8 {
        r = String::from_str("8");
        proof {
            reveal_strlit("8");
            assert(r@ =~= seq![spec_digit(d as int)]);
        }
    } else {
        r = String::from_str("9");
        proof {
            reveal_strlit("9");
            assert(r@ =~= seq![spec_digit(d as int)]);
        }
    }
    r
}

/// Render an unsigned integer in decimal.
pub fn u64_string(n: u64) -> (r: String)
    ensures
        r@ == spec_dec(n as int),
    decreases n,
{
    if n < 10 {
        digit_string(n)
    } else {
        let mut r = u64_string(n / 10);
        let d = digit_string(n % 10);
        r.append(d.as_str());
        r
    }
}

/// The rendered text of an identifier.
pub open spec fn spec_render_identifier(id: IdentifierV) -> Seq<char> {
    match id {
        IdentifierV::Prefixed(s) => "u_"@ + s,
        IdentifierV::Generated(n) => "v_"@ + spec_dec(n as int),
    }
}

impl Identifier {
    /// Render this name as it appears in the generated text.
    pub fn render(&self) -> (r: String)
        ensures
            r@ == spec_render_identifier(self@),
    {
        match self {
            Identifier::Prefixed(s) => {
                let mut r = String::from_str("u_");
                r.append(s.as_str());
                r
            },
            Identifier::Generated(n) => {
                let mut r = String::from_str("v_");
                let d = u64_string(*n);
                r.append(d.as_str());
                r
            },
        }
    }
}

/// The rendered type of a kind.
pub open spec fn spec_type_text(k: Kind) -> Seq<char> {
    match k {
        Kind::Unsigned => "u64"@,
        Kind::Bool => "bool"@,
        Kind::Coin => "LibraCoin.T"@,
        Kind::Context => "Self.Context"@,
    }
}

impl Kind {
    /// The target-language type this tag renders to.
    pub fn type_text(&self) -> (r: &'static str)
        ensures
            r@ == spec_type_text(*self),
    {
        match self {
            Kind::Unsigned => "u64",
            Kind::Bool => "bool",
            Kind::Coin => "LibraCoin.T",
            Kind::Context => "Self.Context",
        }
    }
}

/// The rendered text of an initializer.
pub open spec fn spec_render_default(d: DefaultValue) -> Seq<char> {
    match d {
        DefaultValue::CoinZero => "LibraCoin.zero()"@,
        DefaultValue::Unsigned(n) => spec_dec(n as int),
    }
}

impl DefaultValue {
    /// Render this initializer.
    pub fn render(&self) -> (r: String)
        ensures
            r@ == spec_render_default(*self),
    {
        match self {
            DefaultValue::CoinZero => String::from_str("LibraCoin.zero()"),
            DefaultValue::Unsigned(n) => u64_string(*n),
        }
    }
}

/// The rendered text of a party.
pub open spec fn spec_render_address(a: Address) -> Seq<char> {
    match a {
        Address::Holder => "copy(holder)"@,
        Address::Counterparty => "copy(counterparty)"@,
    }
}

impl Address {
    /// Render this party as the generated text refers to it.
    pub fn render(&self) -> (r: String)
        ensures
            r@ == spec_render_address(*self),
    {
        match self {
            Address::Holder => String::from_str("copy(holder)"),
            Address::Counterparty => String::from_str("copy(counterparty)"),
        }
    }
}

/// The rendered text of a target-language expression.
pub open spec fn spec_render_expression(e: ExpressionV) -> Seq<char> {
    match e {
        ExpressionV::Unsigned(n) => spec_dec(n as int),
        ExpressionV::Identifier(i) => spec_render_identifier(i),
        ExpressionV::Address(a) => spec_render_address(a),
    }
}

impl Expression {
    /// Render this expression.
    pub fn render(&self) -> (r: String)
        ensures
            r@ == spec_render_expression(self@),
    {
        match self {
            Expression::Unsigned(n) => u64_string(*n),
            Expression::Identifier(i) => i.render(),
            Expression::Address(a) => a.render(),
        }
    }
}

} // verus!

//! The unit of generated imperative effect: one action renders to exactly
//! one target-language statement. Each action knows the external modules
//! it depends on, the variables it exposes as persistent contract fields,
//! and the local variables it introduces.

use vstd::prelude::*;

use crate::jog::{
    spec_render_address, spec_render_expression, spec_render_identifier, Address, Expression,
    ExpressionV, Variable, VariableV,
};

verus! {

/// The spec-level image of an [`Action`].
pub enum ActionV {
    Lock { amount: u64, locked: VariableV },
    Unlock { locked: VariableV },
    Spawn { context: VariableV, root: ExpressionV },
    PushContext { context: VariableV },
    Flip { coin: VariableV },
}

/// Escrow a fixed amount from the sender into a holding variable that
/// becomes a persistent contract field.
#[derive(Debug)]
pub struct Lock {
    pub amount: u64,
    pub locked: Variable,
}

/// Release a previously locked holding variable to the counterparty.
#[derive(Debug)]
pub struct Unlock {
    pub locked: Variable,
}

/// Create a nested execution context that captures the two parties, the
/// current scale, and a sub-state payload.
#[derive(Debug)]
pub struct Spawn {
    pub context: Variable,
    pub root: Expression,
}

/// Register a spawned context into the pending-contexts collection for
/// later continuation.
#[derive(Debug)]
pub struct PushContext {
    pub context: Variable,
}

/// Introduce a nondeterministic branch selector.
#[derive(Debug)]
pub struct Flip {
    pub coin: Variable,
}

impl View for Lock {
    type V = ActionV;

    open spec fn view(&self) -> ActionV {
        ActionV::Lock { amount: self.amount, locked: self.locked@ }
    }
}

impl View for Unlock {
    type V = ActionV;

    open spec fn view(&self) -> ActionV {
        ActionV::Unlock { locked: self.locked@ }
    }
}

impl View for Spawn {
    type V = ActionV;

    open spec fn view(&self) -> ActionV {
        ActionV::Spawn { context: self.context@, root: self.root@ }
    }
}

impl View for PushContext {
    type V = ActionV;

    open spec fn view(&self) -> ActionV {
        ActionV::PushContext { context: self.context@ }
    }
}

impl View for Flip {
    type V = ActionV;

    open spec fn view(&self) -> ActionV {
        ActionV::Flip { coin: self.coin@ }
    }
}

impl Lock {
    /// Escrow `amount` into the given holding variable. The caller hands
    /// in a freshly generated variable, so no two live variables share a
    /// name.
    pub fn new(amount: u64, locked: Variable) -> (r: Lock)
        ensures
            r@ == (ActionV::Lock { amount, locked: locked@ }),
    {
        Lock { amount, locked }
    }

    /// The escrowed amount.
    pub fn amount(&self) -> (r: u64)
        ensures
            r == self@->Lock_amount,
    {
        self.amount
    }

    /// The holding variable.
    pub fn locked(&self) -> (r: &Variable)
        ensures
            r@ == self@->Lock_locked,
    {
        &self.locked
    }
}

impl Unlock {
    /// Release the holding variable of the given escrow action.
    pub fn new(action: &Lock) -> (r: Unlock)
        ensures
            r@ == (ActionV::Unlock { locked: action@->Lock_locked }),
    {
        Unlock { locked: action.locked.clone() }
    }

    /// The holding variable this action releases.
    pub fn locked(&self) -> (r: &Variable)
        ensures
            r@ == self@->Unlock_locked,
    {
        &self.locked
    }
}

impl Spawn {
    /// Capture a sub-state payload into a fresh context variable.
    pub fn new(context: Variable, root: Expression) -> (r: Spawn)
        ensures
            r@ == (ActionV::Spawn { context: context@, root: root@ }),
    {
        Spawn { context, root }
    }

    /// The context variable this action defines.
    pub fn context(&self) -> (r: &Variable)
        ensures
            r@ == self@->Spawn_context,
    {
        &self.context
    }
}

impl PushContext {
    /// Register the given context variable for later continuation.
    pub fn new(context: Variable) -> (r: PushContext)
        ensures
            r@ == (ActionV::PushContext { context: context@ }),
    {
        PushContext { context }
    }

    /// The context variable this action registers.
    pub fn context(&self) -> (r: &Variable)
        ensures
            r@ == self@->PushContext_context,
    {
        &self.context
    }
}

impl Flip {
    /// Draw a nondeterministic branch selector into the given variable.
    pub fn new(coin: Variable) -> (r: Flip)
        ensures
            r@ == (ActionV::Flip { coin: coin@ }),
    {
        Flip { coin }
    }
}

/// The closed set of action variants, matched exhaustively at render
/// time.
#[derive(Debug)]
pub enum Action {
    Lock(Lock),
    Unlock(Unlock),
    Spawn(Spawn),
    PushContext(PushContext),
    Flip(Flip),
}

impl View for Action {
    type V = ActionV;

    open spec fn view(&self) -> ActionV {
        match self {
            Action::Lock(a) => a@,
            Action::Unlock(a) => a@,
            Action::Spawn(a) => a@,
            Action::PushContext(a) => a@,
            Action::Flip(a) => a@,
        }
    }
}

/// The external modules an action depends on.
pub open spec fn spec_dependencies(a: ActionV) -> Seq<Seq<char>> {
    match a {
        ActionV::Lock { .. } => seq!["0x0.LibraAccount"@, "0x0.LibraCoin"@],
        ActionV::Unlock { .. } => seq!["0x0.LibraAccount"@, "0x0.LibraCoin"@],
        _ => Seq::empty(),
    }
}

/// The variables an action exposes as persistent contract fields.
pub open spec fn spec_properties(a: ActionV) -> Seq<VariableV> {
    match a {
        ActionV::Lock { locked, .. } => seq![locked],
        _ => Seq::empty(),
    }
}

/// The local variables an action introduces into the method holding it.
pub open spec fn spec_definitions(a: ActionV) -> Seq<VariableV> {
    match a {
        ActionV::Spawn { context, .. } => seq![context],
        ActionV::Flip { coin } => seq![coin],
        _ => Seq::empty(),
    }
}

/// The one statement an action renders to.
pub open spec fn spec_render_action(a: ActionV) -> Seq<char> {
    match a {
        ActionV::Lock { amount, locked } => "LibraCoin.deposit(&mut move(contract_ref)."@
            + spec_render_identifier(locked.identifier)
            + ", LibraAccount.withdraw_from_sender("@ + crate::jog::spec_dec(amount as int)
            + "));"@,
        ActionV::Unlock { locked } => "LibraAccount.deposit(copy(counterparty), move("@
            + spec_render_identifier(locked.identifier) + "));"@,
        ActionV::Spawn { context, root } => spec_render_identifier(context.identifier)
            + " = Context { state: "@ + spec_render_expression(root) + ", holder: "@
            + spec_render_address(Address::Holder) + ", counterparty: "@
            + spec_render_address(Address::Counterparty)
            + ", scale: *(&copy(context_ref).scale) };"@,
        ActionV::PushContext { context } => "Vector.push_back<Self.Context>(copy(contexts), move("@
            + spec_render_identifier(context.identifier) + "));"@,
        ActionV::Flip { coin } => spec_render_identifier(coin.identifier) + " = Self.flip();"@,
    }
}

impl Action {
    /// The external modules this action depends on.
    pub fn dependencies(&self) -> (r: Vec<&'static str>)
        ensures
            r.deep_view() == spec_dependencies(self@),
    {
        match self {
            Action::Lock(_) | Action::Unlock(_) => {
                let r = vec!["0x0.LibraAccount", "0x0.LibraCoin"];
                proof {
                    assert(r.deep_view() =~= spec_dependencies(self@));
                }
                r
            },
            _ => {
                let r = Vec::new();
                proof {
                    assert(r.deep_view() =~= spec_dependencies(self@));
                }
                r
            },
        }
    }

    /// The variables this action exposes as persistent contract fields.
    pub fn properties(&self) -> (r: Vec<Variable>)
        ensures
            r@.len() == spec_properties(self@).len(),
            forall|i: int| 0 <= i < r@.len() ==> r@[i]@ == spec_properties(self@)[i],
    {
        match self {
            Action::Lock(a) => {
                let mut r = Vec::new();
                r.push(a.locked.clone());
                r
            },
            _ => Vec::new(),
        }
    }

    /// The local variables this action introduces.
    pub fn definitions(&self) -> (r: Vec<Variable>)
        ensures
            r@.len() == spec_definitions(self@).len(),
            forall|i: int| 0 <= i < r@.len() ==> r@[i]@ == spec_definitions(self@)[i],
    {
        match self {
            Action::Spawn(a) => {
                let mut r = Vec::new();
                r.push(a.context.clone());
                r
            },
            Action::Flip(a) => {
                let mut r = Vec::new();
                r.push(a.coin.clone());
                r
            },
            _ => Vec::new(),
        }
    }

    /// Render this action as its one target-language statement.
    pub fn render(&self) -> (r: String)
        ensures
            r@ == spec_render_action(self@),
    {
        match self {
            Action::Lock(a) => {
                let mut r = String::from_str("LibraCoin.deposit(&mut move(contract_ref).");
                let id = a.locked.identifier.render();
                r.append(id.as_str());
                r.append(", LibraAccount.withdraw_from_sender(");
                let amt = crate::jog::u64_string(a.amount);
                r.append(amt.as_str());
                r.append("));");
                r
            },
            Action::Unlock(a) => {
                let mut r = String::from_str("LibraAccount.deposit(copy(counterparty), move(");
                let id = a.locked.identifier.render();
                r.append(id.as_str());
                r.append("));");
                r
            },
            Action::Spawn(a) => {
                let mut r = a.context.identifier.render();
                r.append(" = Context { state: ");
                let root = a.root.render();
                r.append(root.as_str());
                r.append(", holder: ");
                let h = Address::Holder.render();
                r.append(h.as_str());
                r.append(", counterparty: ");
                let c = Address::Counterparty.render();
                r.append(c.as_str());
                r.append(", scale: *(&copy(context_ref).scale) };");
                r
            },
            Action::PushContext(a) => {
                let mut r = String::from_str("Vector.push_back<Self.Context>(copy(contexts), move(");
                let id = a.context.identifier.render();
                r.append(id.as_str());
                r.append("));");
                r
            },
            Action::Flip(a) => {
                let mut r = a.coin.identifier.render();
                r.append(" = Self.flip();");
                r
            },
        }
    }
}

} // verus!

//! The lowering pass: walks named definitions over the contract-algebra
//! AST, threads a compilation context through the walk, and populates the
//! output program with methods and ordered action lists.
//!
//! The whole pass is mirrored by specification functions over the view
//! types; every executable function returns exactly what its
//! specification function says, so compilation is a pure function of the
//! definition list.

use vstd::prelude::*;

use crate::action::{Action, ActionV, Flip, Lock, PushContext, Spawn, Unlock};
use crate::ast;
use crate::contract::{Contract, ContractV, Method, MethodV};
use crate::jog;
use crate::jog::{DefaultValue, Identifier, IdentifierV, Variable, VariableV};

verus! {

/// Why a definition could not be lowered.
#[derive(Debug, PartialEq, Eq, Clone, Copy)]
pub enum CompileError {
    /// An expression references a name bound by no enclosing abstraction.
    UnresolvedIdentifier,
    /// The definition's shape matches no recognized lowering rule.
    MalformedDefinition,
    /// A scaled amount does not fit in an unsigned 64-bit integer.
    AmountOverflow,
    /// The fresh-name counter is exhausted.
    TooManyIdentifiers,
}

/// A lowering failure, with the name of the offending definition.
#[derive(Debug, PartialEq, Eq)]
pub struct VisitError {
    pub definition: String,
    pub reason: CompileError,
}

impl CompileError {
    /// A human-readable account of the failure.
    pub fn message(&self) -> (r: &'static str)
        ensures
            r@ == match *self {
                CompileError::UnresolvedIdentifier => "unresolved identifier"@,
                CompileError::MalformedDefinition => "definition shape matches no lowering rule"@,
                CompileError::AmountOverflow => "scaled amount does not fit in 64 bits"@,
                CompileError::TooManyIdentifiers => "fresh-name counter exhausted"@,
            },
    {
        match self {
            CompileError::UnresolvedIdentifier => "unresolved identifier",
            CompileError::MalformedDefinition => "definition shape matches no lowering rule",
            CompileError::AmountOverflow => "scaled amount does not fit in 64 bits",
            CompileError::TooManyIdentifiers => "fresh-name counter exhausted",
        }
    }
}

/// The spec-level image of a [`Binding`].
#[verifier::ext_equal]
pub struct BindingV {
    pub name: Seq<char>,
    pub var: VariableV,
}

/// One argument binding: a parameter name and the variable it stands for.
#[derive(Debug)]
pub struct Binding {
    pub name: String,
    pub var: Variable,
}

impl View for Binding {
    type V = BindingV;

    open spec fn view(&self) -> BindingV {
        BindingV { name: self.name@, var: self.var@ }
    }
}

/// The spec-level image of a [`Context`].
#[verifier::ext_equal]
pub struct CtxV {
    pub scale: u64,
    pub fresh: u64,
    pub args: Seq<BindingV>,
    pub actions: Seq<ActionV>,
    pub methods: Seq<MethodV>,
    pub main_args: Seq<VariableV>,
}

/// The mutable state threaded through one compilation run: the current
/// scale multiplier, the fresh-name counter, the current argument
/// bindings, the action accumulator of the method under construction, the
/// completed methods, and the arguments of the entry state.
#[derive(Debug)]
pub struct Context {
    pub scale: u64,
    pub fresh: u64,
    pub args: Vec<Binding>,
    pub actions: Vec<Action>,
    pub methods: Vec<Method>,
    pub main_args: Vec<Variable>,
}

impl View for Context {
    type V = CtxV;

    open spec fn view(&self) -> CtxV {
        CtxV {
            scale: self.scale,
            fresh: self.fresh,
            args: self.args@.map_values(|b: Binding| b@),
            actions: self.actions@.map_values(|a: Action| a@),
            methods: self.methods@.map_values(|m: Method| m@),
            main_args: self.main_args@.map_values(|v: Variable| v@),
        }
    }
}

/// The context every compilation run starts from.
pub open spec fn initial_ctx() -> CtxV {
    CtxV {
        scale: 1,
        fresh: 0,
        args: Seq::empty(),
        actions: Seq::empty(),
        methods: Seq::empty(),
        main_args: Seq::empty(),
    }
}

/// Draw a fresh generated-name counter value.
pub open spec fn spec_fresh(ctx: CtxV) -> Result<(CtxV, u64), CompileError> {
    if ctx.fresh == u64::MAX {
        Err(CompileError::TooManyIdentifiers)
    } else {
        Ok((CtxV { fresh: (ctx.fresh + 1) as u64, ..ctx }, ctx.fresh))
    }
}

/// The variable bound to `name`, under the most recent binding first.
pub open spec fn spec_find_binding(args: Seq<BindingV>, name: Seq<char>) -> Option<VariableV>
    decreases args.len(),
{
    if args.len() == 0 {
        None
    } else if args.last().name == name {
        Some(args.last().var)
    } else {
        spec_find_binding(args.drop_last(), name)
    }
}

/// The binding a peeled parameter name introduces: a prefixed user
/// identifier of unsigned kind.
pub open spec fn param_binding(name: Seq<char>) -> BindingV {
    BindingV {
        name,
        var: VariableV { identifier: IdentifierV::Prefixed(name), kind: jog::Kind::Unsigned, default: None },
    }
}

/// The bindings of a peeled parameter list.
pub open spec fn params_to_bindings(params: Seq<Seq<char>>) -> Seq<BindingV> {
    params.map_values(|p: Seq<char>| param_binding(p))
}

/// The variables of an argument binding list, in order.
pub open spec fn args_vars(args: Seq<BindingV>) -> Seq<VariableV> {
    args.map_values(|b: BindingV| b.var)
}

/// The parameter names of the leading abstractions of an expression,
/// outermost first.
pub open spec fn spec_peel_params(e: ast::Expression) -> Seq<Seq<char>>
    decreases e,
{
    match e {
        ast::Expression::Abstraction(p, body) => seq![p@] + spec_peel_params(*body),
        _ => Seq::empty(),
    }
}

/// The body that remains under the leading abstractions of an expression.
pub open spec fn spec_peel_body(e: ast::Expression) -> ast::Expression
    decreases e,
{
    match e {
        ast::Expression::Abstraction(p, body) => spec_peel_body(*body),
        _ => e,
    }
}

/// Lower a contract node under the given context. Returns the new
/// context and the variable holding the node's value, if it has one.
///
/// Two deliberate rules of this lowering:
/// - A scale factor must be an integer literal: the escrow statement a
///   lock emits carries a constant amount, so a factor that is not a
///   constant has no lowering and is a malformed definition.
/// - A branching node (a choice, or a deferred or exercisable
///   sub-contract) yields a spawned context, and a choice yields no
///   value at all; giving a choice away therefore discharges nothing,
///   since there is no holding variable to release until a spawned
///   branch runs.
pub open spec fn spec_lower_contract(ctx: CtxV, c: ast::Contract) -> Result<
    (CtxV, Option<VariableV>),
    CompileError,
>
    decreases c, 0int,
{
    match c {
        ast::Contract::Zero => Ok((ctx, None)),
        ast::Contract::One => match spec_fresh(ctx) {
            Ok((ctx1, k)) => {
                let locked = VariableV {
                    identifier: IdentifierV::Generated(k),
                    kind: jog::Kind::Coin,
                    default: Some(DefaultValue::CoinZero),
                };
                let a = ActionV::Lock { amount: ctx1.scale, locked };
                Ok((CtxV { actions: ctx1.actions.push(a), ..ctx1 }, Some(locked)))
            },
            Err(e) => Err(e),
        },
        ast::Contract::Give(inner) => match spec_lower_contract(ctx, *inner) {
            Ok((ctx1, Some(h))) => Ok(
                (CtxV { actions: ctx1.actions.push(ActionV::Unlock { locked: h }), ..ctx1 }, None),
            ),
            Ok((ctx1, None)) => Ok((ctx1, None)),
            Err(e) => Err(e),
        },
        ast::Contract::And(a, b) => match spec_lower_contract(ctx, *a) {
            Ok((ctx1, _)) => match spec_lower_contract(ctx1, *b) {
                Ok((ctx2, _)) => Ok((ctx2, None)),
                Err(e) => Err(e),
            },
            Err(e) => Err(e),
        },
        ast::Contract::Or(a, b) => match spec_fresh(ctx) {
            Ok((ctx1, k)) => {
                let coin = VariableV {
                    identifier: IdentifierV::Generated(k),
                    kind: jog::Kind::Bool,
                    default: None,
                };
                let ctx2 = CtxV { actions: ctx1.actions.push(ActionV::Flip { coin }), ..ctx1 };
                match spec_spawn(ctx2, *a) {
                    Ok((ctx3, _)) => match spec_spawn(ctx3, *b) {
                        Ok((ctx4, _)) => Ok((ctx4, None)),
                        Err(e) => Err(e),
                    },
                    Err(e) => Err(e),
                }
            },
            Err(e) => Err(e),
        },
        ast::Contract::Scale(factor, inner) => match *factor {
            ast::Expression::Literal(n) => if ctx.scale * n > u64::MAX {
                Err(CompileError::AmountOverflow)
            } else {
                match spec_lower_contract(CtxV { scale: (ctx.scale * n) as u64, ..ctx }, *inner) {
                    Ok((ctx1, v)) => Ok((CtxV { scale: ctx.scale, ..ctx1 }, v)),
                    Err(e) => Err(e),
                }
            },
            _ => Err(CompileError::MalformedDefinition),
        },
        ast::Contract::Then(inner) => match spec_spawn(ctx, *inner) {
            Ok((ctx1, v)) => Ok((ctx1, Some(v))),
            Err(e) => Err(e),
        },
        ast::Contract::Get(inner) => match spec_spawn(ctx, *inner) {
            Ok((ctx1, v)) => Ok((ctx1, Some(v))),
            Err(e) => Err(e),
        },
        ast::Contract::Anytime(inner) => match spec_spawn(ctx, *inner) {
            Ok((ctx1, v)) => Ok((ctx1, Some(v))),
            Err(e) => Err(e),
        },
    }
}

/// Defer a sub-contract: lower it into a private method of its own, then
/// spawn a context variable carrying its state and push that context, in
/// that order, into the current action list.
pub open spec fn spec_spawn(ctx: CtxV, sub: ast::Contract) -> Result<(CtxV, VariableV), CompileError>
    decreases sub, 1int,
{
    match spec_fresh(ctx) {
        Ok((ctx1, n)) => {
            let saved = ctx1.actions;
            match spec_lower_contract(CtxV { actions: Seq::empty(), ..ctx1 }, sub) {
                Ok((ctx2, rv)) => {
                    let method = MethodV {
                        name: IdentifierV::Generated(n),
                        public: false,
                        arguments: Seq::empty(),
                        result: rv,
                        actions: ctx2.actions,
                    };
                    let ctx3 = CtxV { actions: saved, methods: ctx2.methods.push(method), ..ctx2 };
                    match spec_fresh(ctx3) {
                        Ok((ctx4, m)) => {
                            let v = VariableV {
                                identifier: IdentifierV::Generated(m),
                                kind: jog::Kind::Context,
                                default: None,
                            };
                            let spawned = ActionV::Spawn {
                                context: v,
                                root: jog::ExpressionV::Unsigned(n),
                            };
                            let pushed = ActionV::PushContext { context: v };
                            Ok(
                                (
                                    CtxV {
                                        actions: ctx4.actions.push(spawned).push(pushed),
                                        ..ctx4
                                    },
                                    v,
                                ),
                            )
                        },
                        Err(e) => Err(e),
                    }
                },
                Err(e) => Err(e),
            }
        },
        Err(e) => Err(e),
    }
}

/// Lower an expression under the given context.
pub open spec fn spec_lower_expression(ctx: CtxV, e: ast::Expression) -> Result<
    (CtxV, Option<VariableV>),
    CompileError,
>
    decreases e, 0int,
{
    match e {
        ast::Expression::Literal(n) => match spec_fresh(ctx) {
            Ok((ctx1, k)) => Ok(
                (
                    ctx1,
                    Some(
                        VariableV {
                            identifier: IdentifierV::Generated(k),
                            kind: jog::Kind::Unsigned,
                            default: Some(DefaultValue::Unsigned(n)),
                        },
                    ),
                ),
            ),
            Err(er) => Err(er),
        },
        ast::Expression::VariableRef(x) => match spec_find_binding(ctx.args, x@) {
            Some(v) => Ok((ctx, Some(v))),
            None => Err(CompileError::UnresolvedIdentifier),
        },
        ast::Expression::Abstraction(p, body) => {
            let ctx1 = CtxV { args: ctx.args.push(param_binding(p@)), ..ctx };
            spec_lower_expression(ctx1, *body)
        },
        ast::Expression::Application(f, a) => match spec_lower_expression(ctx, *a) {
            Ok((ctx1, Some(va))) => match *f {
                ast::Expression::Abstraction(p, body) => {
                    let ctx2 = CtxV { args: ctx1.args.push(BindingV { name: p@, var: va }), ..ctx1 };
                    spec_lower_expression(ctx2, *body)
                },
                _ => Err(CompileError::MalformedDefinition),
            },
            Ok((_, None)) => Err(CompileError::MalformedDefinition),
            Err(er) => Err(er),
        },
        ast::Expression::ContractNode(c) => spec_lower_contract(ctx, *c),
    }
}

/// Lower one definition. The entry state and state-kind definitions feed
/// the top-level action accumulator; every other definition becomes a
/// private method of its own.
pub open spec fn spec_visit_def(ctx: CtxV, def: ast::Definition) -> Result<CtxV, CompileError> {
    if def.name@ == "main"@ {
        let ctx1 = CtxV { args: Seq::empty(), ..ctx };
        match spec_lower_expression(ctx1, def.expression) {
            Ok((ctx2, _)) => Ok(CtxV { main_args: args_vars(ctx2.args), ..ctx2 }),
            Err(e) => Err(e),
        }
    } else {
        let inner = spec_peel_body(def.expression);
        let bindings = params_to_bindings(spec_peel_params(def.expression));
        if inner.spec_kind() == ast::Kind::State {
            let ctx1 = CtxV { args: bindings, ..ctx };
            match spec_lower_expression(ctx1, inner) {
                Ok((ctx2, _)) => Ok(CtxV { main_args: args_vars(ctx2.args), ..ctx2 }),
                Err(e) => Err(e),
            }
        } else {
            let ctx1 = CtxV { args: bindings, actions: Seq::empty(), ..ctx };
            match spec_lower_expression(ctx1, inner) {
                Ok((ctx2, rv)) => {
                    let method = MethodV {
                        name: IdentifierV::Prefixed(def.name@),
                        public: false,
                        arguments: args_vars(bindings),
                        result: rv,
                        actions: ctx2.actions,
                    };
                    Ok(CtxV { actions: ctx.actions, methods: ctx2.methods.push(method), ..ctx2 })
                },
                Err(e) => Err(e),
            }
        }
    }
}

/// Lower the definitions from index `i` on, in order.
pub open spec fn spec_visit_defs(ctx: CtxV, defs: Seq<ast::Definition>, i: int) -> Result<
    CtxV,
    (Seq<char>, CompileError),
>
    decreases defs.len() - i,
{
    if i < 0 || i >= defs.len() {
        Ok(ctx)
    } else {
        match spec_visit_def(ctx, defs[i]) {
            Ok(ctx1) => spec_visit_defs(ctx1, defs, i + 1),
            Err(e) => Err((defs[i].name@, e)),
        }
    }
}

/// Compile a definition list into a program: every non-state definition
/// becomes a private method, and the accumulated entry-state actions
/// become one public method named after the entry definition, appended
/// last.
pub open spec fn spec_visit(defs: Seq<ast::Definition>) -> Result<
    ContractV,
    (Seq<char>, CompileError),
> {
    match spec_visit_defs(initial_ctx(), defs, 0) {
        Ok(ctx) => {
            let main = MethodV {
                name: IdentifierV::Prefixed("main"@),
                public: true,
                arguments: ctx.main_args,
                result: None,
                actions: ctx.actions,
            };
            Ok(ContractV { methods: ctx.methods.push(main) })
        },
        Err(e) => Err(e),
    }
}

/// The view of an optional variable.
pub open spec fn opt_var_view(v: Option<Variable>) -> Option<VariableV> {
    match v {
        Some(x) => Some(x@),
        None => None,
    }
}

impl Context {
    /// The context a compilation run starts from.
    pub fn new() -> (r: Context)
        ensures
            r@ == initial_ctx(),
    {
        let r = Context {
            scale: 1,
            fresh: 0,
            args: Vec::new(),
            actions: Vec::new(),
            methods: Vec::new(),
            main_args: Vec::new(),
        };
        proof {
            assert(r@ =~= initial_ctx());
        }
        r
    }

    /// Draw a fresh counter value for a generated name.
    fn fresh_id(&mut self) -> (r: Result<u64, CompileError>)
        ensures
            match r {
                Ok(k) => spec_fresh(old(self)@) == Ok::<(CtxV, u64), CompileError>(
                    (final(self)@, k),
                ),
                Err(e) => spec_fresh(old(self)@) == Err::<(CtxV, u64), CompileError>(e),
            },
    {
        if self.fresh == u64::MAX {
            Err(CompileError::TooManyIdentifiers)
        } else {
            let k = self.fresh;
            self.fresh = self.fresh + 1;
            proof {
                assert(self@ =~= (CtxV { fresh: (old(self)@.fresh + 1) as u64, ..old(self)@ }));
            }
            Ok(k)
        }
    }

    /// Install the argument bindings of the definition under work.
    pub fn set_arguments(&mut self, args: Vec<Binding>)
        ensures
            final(self)@ == (CtxV { args: args@.map_values(|b: Binding| b@), ..old(self)@ }),
    {
        self.args = args;
        proof {
            assert(self@ =~= (CtxV { args: self.args@.map_values(|b: Binding| b@), ..old(self)@ }));
        }
    }

    /// Clear the argument bindings.
    pub fn unset_arguments(&mut self)
        ensures
            final(self)@ == (CtxV { args: Seq::empty(), ..old(self)@ }),
    {
        self.args = Vec::new();
        proof {
            assert(self@ =~= (CtxV { args: Seq::empty(), ..old(self)@ }));
        }
    }
}

/// Look up the most recent binding of `name`.
fn find_binding(args: &Vec<Binding>, name: &String) -> (r: Option<Variable>)
    ensures
        opt_var_view(r) == spec_find_binding(args@.map_values(|b: Binding| b@), name@),
{
    let n = args.len();
    proof {
        assert(args@.map_values(|b: Binding| b@).take(n as int) =~= args@.map_values(
            |b: Binding| b@,
        ));
    }
    let mut i: usize = n;
    while i > 0
        invariant
            n == args.len(),
            i <= n,
            spec_find_binding(args@.map_values(|b: Binding| b@), name@) == spec_find_binding(
                args@.map_values(|b: Binding| b@).take(i as int),
                name@,
            ),
        decreases i,
    {
        i = i - 1;
        if args[i].name.eq(name) {
            proof {
                let ghost mapped = args@.map_values(|b: Binding| b@);
                assert(mapped.take(i + 1).last() == mapped[i as int]);
            }
            return Some(args[i].var.clone());
        }
        proof {
            let ghost mapped = args@.map_values(|b: Binding| b@);
            assert(mapped.take(i + 1).last() == mapped[i as int]);
            assert(mapped.take(i + 1).drop_last() =~= mapped.take(i as int));
        }
    }
    proof {
        let ghost mapped = args@.map_values(|b: Binding| b@);
        assert(mapped.take(0) =~= Seq::<BindingV>::empty());
    }
    None
}

/// Lower a contract node, appending its actions to the context.
pub fn lower_contract(ctx: &mut Context, c: &ast::Contract) -> (r: Result<
    Option<Variable>,
    CompileError,
>)
    ensures
        match r {
            Ok(v) => spec_lower_contract(old(ctx)@, *c) == Ok::<(CtxV, Option<VariableV>), CompileError>(
                (final(ctx)@, opt_var_view(v)),
            ),
            Err(e) => spec_lower_contract(old(ctx)@, *c) == Err::<(CtxV, Option<VariableV>), CompileError>(e),
        },
    decreases *c, 0int,
{
    match c {
        ast::Contract::Zero => Ok(None),
        ast::Contract::One => {
            let k = match ctx.fresh_id() {
                Ok(k) => k,
                Err(e) => {
                    return Err(e);
                },
            };
            let locked = Variable::with_default(
                Identifier::Generated(k),
                jog::Kind::Coin,
                DefaultValue::CoinZero,
            );
            let amount = ctx.scale;
            let ghost mid = ctx@;
            ctx.actions.push(Action::Lock(Lock::new(amount, locked.clone())));
            proof {
                assert(ctx@ =~= (CtxV {
                    actions: mid.actions.push(ActionV::Lock { amount, locked: locked@ }),
                    ..mid
                }));
            }
            Ok(Some(locked))
        },
        ast::Contract::Give(inner) => {
            let h = match lower_contract(ctx, inner) {
                Ok(h) => h,
                Err(e) => {
                    return Err(e);
                },
            };
            match h {
                Some(h) => {
                    let ghost mid = ctx@;
                    ctx.actions.push(Action::Unlock(Unlock { locked: h }));
                    proof {
                        assert(ctx@ =~= (CtxV {
                            actions: mid.actions.push(ActionV::Unlock { locked: h@ }),
                            ..mid
                        }));
                    }
                    Ok(None)
                },
                None => Ok(None),
            }
        },
        ast::Contract::And(a, b) => {
            match lower_contract(ctx, a) {
                Ok(_) => {},
                Err(e) => {
                    return Err(e);
                },
            }
            match lower_contract(ctx, b) {
                Ok(_) => {},
                Err(e) => {
                    return Err(e);
                },
            }
            Ok(None)
        },
        ast::Contract::Or(a, b) => {
            let k = match ctx.fresh_id() {
                Ok(k) => k,
                Err(e) => {
                    return Err(e);
                },
            };
            let coin = Variable::new(Identifier::Generated(k), jog::Kind::Bool);
            let ghost mid = ctx@;
            ctx.actions.push(Action::Flip(Flip::new(coin)));
            proof {
                assert(ctx@ =~= (CtxV {
                    actions: mid.actions.push(ActionV::Flip {
                        coin: VariableV {
                            identifier: IdentifierV::Generated(k),
                            kind: jog::Kind::Bool,
                            default: None,
                        },
                    }),
                    ..mid
                }));
            }
            match spawn_sub(ctx, a) {
                Ok(_) => {},
                Err(e) => {
                    return Err(e);
                },
            }
            match spawn_sub(ctx, b) {
                Ok(_) => {},
                Err(e) => {
                    return Err(e);
                },
            }
            Ok(None)
        },
        ast::Contract::Scale(factor, inner) => match &**factor {
            ast::Expression::Literal(n) => {
                let old_scale = ctx.scale;
                match old_scale.checked_mul(*n) {
                    Some(product) => {
                        ctx.scale = product;
                        proof {
                            assert(ctx@ =~= (CtxV { scale: product, ..old(ctx)@ }));
                        }
                        let v = match lower_contract(ctx, inner) {
                            Ok(v) => v,
                            Err(e) => {
                                return Err(e);
                            },
                        };
                        let ghost mid = ctx@;
                        ctx.scale = old_scale;
                        proof {
                            assert(ctx@ =~= (CtxV { scale: old_scale, ..mid }));
                        }
                        Ok(v)
                    },
                    None => Err(CompileError::AmountOverflow),
                }
            },
            _ => Err(CompileError::MalformedDefinition),
        },
        ast::Contract::Then(inner) => match spawn_sub(ctx, inner) {
            Ok(v) => Ok(Some(v)),
            Err(e) => Err(e),
        },
        ast::Contract::Get(inner) => match spawn_sub(ctx, inner) {
            Ok(v) => Ok(Some(v)),
            Err(e) => Err(e),
        },
        ast::Contract::Anytime(inner) => match spawn_sub(ctx, inner) {
            Ok(v) => Ok(Some(v)),
            Err(e) => Err(e),
        },
    }
}

/// Defer a sub-contract: lower it into a private method of its own, then
/// spawn and push a context variable carrying its state.
fn spawn_sub(ctx: &mut Context, sub: &ast::Contract) -> (r: Result<Variable, CompileError>)
    ensures
        match r {
            Ok(v) => spec_spawn(old(ctx)@, *sub) == Ok::<(CtxV, VariableV), CompileError>(
                (final(ctx)@, v@),
            ),
            Err(e) => spec_spawn(old(ctx)@, *sub) == Err::<(CtxV, VariableV), CompileError>(e),
        },
    decreases *sub, 1int,
{
    let n = match ctx.fresh_id() {
        Ok(n) => n,
        Err(e) => {
            return Err(e);
        },
    };
    let ghost after_fresh = ctx@;
    let mut saved: Vec<Action> = Vec::new();
    core::mem::swap(&mut saved, &mut ctx.actions);
    proof {
        assert(ctx@ =~= (CtxV { actions: Seq::empty(), ..after_fresh }));
        assert(saved@.map_values(|a: Action| a@) =~= after_fresh.actions);
    }
    let rv = match lower_contract(ctx, sub) {
        Ok(rv) => rv,
        Err(e) => {
            return Err(e);
        },
    };
    let mut body: Vec<Action> = saved;
    core::mem::swap(&mut body, &mut ctx.actions);
    let ghost lowered = ctx@;
    let method = Method {
        name: Identifier::Generated(n),
        public: false,
        arguments: Vec::new(),
        result: rv,
        actions: body,
    };
    let ghost methodv = method@;
    ctx.methods.push(method);
    proof {
        assert(methodv.arguments =~= Seq::<VariableV>::empty());
        assert(ctx@ =~= (CtxV {
            actions: after_fresh.actions,
            methods: lowered.methods.push(methodv),
            ..lowered
        }));
    }
    let m = match ctx.fresh_id() {
        Ok(m) => m,
        Err(e) => {
            return Err(e);
        },
    };
    let v = Variable::new(Identifier::Generated(m), jog::Kind::Context);
    let ghost before_spawn = ctx@;
    ctx.actions.push(
        Action::Spawn(Spawn::new(v.clone(), jog::Expression::Unsigned(n))),
    );
    ctx.actions.push(Action::PushContext(PushContext::new(v.clone())));
    proof {
        assert(ctx@ =~= (CtxV {
            actions: before_spawn.actions.push(
                ActionV::Spawn { context: v@, root: jog::ExpressionV::Unsigned(n) },
            ).push(ActionV::PushContext { context: v@ }),
            ..before_spawn
        }));
    }
    Ok(v)
}

/// Lower an expression, appending its actions to the context.
pub fn lower_expression(ctx: &mut Context, e: &ast::Expression) -> (r: Result<
    Option<Variable>,
    CompileError,
>)
    ensures
        match r {
            Ok(v) => spec_lower_expression(old(ctx)@, *e) == Ok::<(CtxV, Option<VariableV>), CompileError>(
                (final(ctx)@, opt_var_view(v)),
            ),
            Err(er) => spec_lower_expression(old(ctx)@, *e) == Err::<(CtxV, Option<VariableV>), CompileError>(er),
        },
    decreases *e, 0int,
{
    match e {
        ast::Expression::Literal(n) => {
            let k = match ctx.fresh_id() {
                Ok(k) => k,
                Err(er) => {
                    return Err(er);
                },
            };
            let v = Variable::with_default(
                Identifier::Generated(k),
                jog::Kind::Unsigned,
                DefaultValue::Unsigned(*n),
            );
            Ok(Some(v))
        },
        ast::Expression::VariableRef(x) => match find_binding(&ctx.args, x) {
            Some(v) => Ok(Some(v)),
            None => Err(CompileError::UnresolvedIdentifier),
        },
        ast::Expression::Abstraction(p, body) => {
            let var = Variable::new(Identifier::Prefixed(p.clone()), jog::Kind::Unsigned);
            let binding = Binding { name: p.clone(), var };
            let ghost before = ctx@;
            ctx.args.push(binding);
            proof {
                assert(ctx@ =~= (CtxV { args: before.args.push(param_binding(p@)), ..before }));
            }
            lower_expression(ctx, body)
        },
        ast::Expression::Application(f, a) => {
            let va = match lower_expression(ctx, a) {
                Ok(va) => va,
                Err(er) => {
                    return Err(er);
                },
            };
            match va {
                Some(va) => match &**f {
                    ast::Expression::Abstraction(p, body) => {
                        let ghost before = ctx@;
                        let ghost vav = va@;
                        let binding = Binding { name: p.clone(), var: va };
                        ctx.args.push(binding);
                        proof {
                            assert(ctx@ =~= (CtxV {
                                args: before.args.push(BindingV { name: p@, var: vav }),
                                ..before
                            }));
                        }
                        lower_expression(ctx, body)
                    },
                    _ => Err(CompileError::MalformedDefinition),
                },
                None => Err(CompileError::MalformedDefinition),
            }
        },
        ast::Expression::ContractNode(c) => lower_contract(ctx, c),
    }
}

/// Peel the leading abstractions off an expression into argument
/// bindings, outermost first.
fn peel_arguments<'a>(e: &'a ast::Expression) -> (r: (Vec<Binding>, &'a ast::Expression))
    ensures
        r.0@.map_values(|b: Binding| b@) == params_to_bindings(spec_peel_params(*e)),
        *r.1 == spec_peel_body(*e),
    decreases *e,
{
    match e {
        ast::Expression::Abstraction(p, body) => {
            let (rest, inner) = peel_arguments(body);
            let var = Variable::new(Identifier::Prefixed(p.clone()), jog::Kind::Unsigned);
            let first = Binding { name: p.clone(), var };
            let ghost firstv = first@;
            let mut v: Vec<Binding> = Vec::new();
            v.push(first);
            let ghost prefix = v@;
            let mut rest = rest;
            let ghost restv = rest@;
            v.append(&mut rest);
            proof {
                let ghost mapped = v@.map_values(|b: Binding| b@);
                let ghost target = params_to_bindings(spec_peel_params(*e));
                let ghost inner_params = spec_peel_params(**body);
                assert(spec_peel_params(*e) == seq![p@] + inner_params);
                assert(v@ == prefix + restv);
                assert(prefix.len() == 1);
                assert(firstv == param_binding(p@));
                assert(target.len() == 1 + inner_params.len());
                assert(mapped.len() == 1 + restv.len());
                assert(restv.map_values(|b: Binding| b@).len() == inner_params.len());
                assert forall|j: int| 0 <= j < mapped.len() implies mapped[j] == target[j] by {
                    assert(mapped[j] == v@[j]@);
                    assert(target[j] == param_binding(spec_peel_params(*e)[j]));
                    assert(spec_peel_params(*e)[j] == (seq![p@] + inner_params)[j]);
                    if j == 0 {
                        assert(v@[0] == prefix[0]);
                        assert(prefix[0]@ == firstv);
                    } else {
                        assert(v@[j] == restv[j - 1]);
                        assert(restv.map_values(|b: Binding| b@)[j - 1] == restv[j - 1]@);
                        assert(restv.map_values(|b: Binding| b@)[j - 1] == params_to_bindings(
                            inner_params,
                        )[j - 1]);
                        assert((seq![p@] + inner_params)[j] == inner_params[j - 1]);
                    }
                }
                assert(mapped =~= target);
            }
            (v, inner)
        },
        _ => {
            let v: Vec<Binding> = Vec::new();
            proof {
                assert(v@.map_values(|b: Binding| b@) =~= params_to_bindings(spec_peel_params(*e)));
            }
            (v, e)
        },
    }
}

/// Collect the variables of the current argument bindings.
fn collect_arg_vars(args: &Vec<Binding>) -> (r: Vec<Variable>)
    ensures
        r@.map_values(|v: Variable| v@) == args_vars(args@.map_values(|b: Binding| b@)),
{
    let n = args.len();
    let mut r: Vec<Variable> = Vec::new();
    let mut i: usize = 0;
    while i < n
        invariant
            n == args.len(),
            i <= n,
            r@.len() == i,
            r@.map_values(|v: Variable| v@) =~= args_vars(
                args@.map_values(|b: Binding| b@),
            ).take(i as int),
        decreases n - i,
    {
        let ghost before = r@;
        let cloned = args[i].var.clone();
        let ghost clonedv = cloned@;
        r.push(cloned);
        proof {
            let ghost mapped = args@.map_values(|b: Binding| b@);
            assert(r@.len() == i + 1);
            assert(clonedv == args@[i as int].var@);
            assert(args_vars(mapped)[i as int] == mapped[i as int].var);
            assert(mapped[i as int] == args@[i as int]@);
            let ghost rmapped = r@.map_values(|v: Variable| v@);
            assert forall|j: int| 0 <= j < i + 1 implies #[trigger] rmapped[j] == args_vars(
                mapped,
            ).take(i + 1)[j] by {
                assert(rmapped[j] == r@[j]@);
                if j < i {
                    assert(r@[j] == before[j]);
                    assert(before.map_values(|v: Variable| v@)[j] == before[j]@);
                    assert(before.map_values(|v: Variable| v@)[j] == args_vars(mapped).take(
                        i as int,
                    )[j]);
                } else {
                    assert(r@[j] == cloned);
                }
            }
            assert(r@.map_values(|v: Variable| v@) =~= args_vars(mapped).take(i + 1));
        }
        i += 1;
    }
    proof {
        assert(args_vars(args@.map_values(|b: Binding| b@)).take(n as int) =~= args_vars(
            args@.map_values(|b: Binding| b@),
        ));
    }
    r
}

/// Lower one definition into the context.
fn visit_definition(ctx: &mut Context, def: &ast::Definition) -> (r: Result<(), CompileError>)
    ensures
        match r {
            Ok(_) => spec_visit_def(old(ctx)@, *def) == Ok::<CtxV, CompileError>(final(ctx)@),
            Err(e) => spec_visit_def(old(ctx)@, *def) == Err::<CtxV, CompileError>(e),
        },
{
    let main_name = String::from_str("main");
    if def.name.eq(&main_name) {
        ctx.unset_arguments();
        match lower_expression(ctx, &def.expression) {
            Ok(_) => {},
            Err(e) => {
                return Err(e);
            },
        }
        let vars = collect_arg_vars(&ctx.args);
        let ghost mid = ctx@;
        ctx.main_args = vars;
        proof {
            assert(ctx@ =~= (CtxV { main_args: args_vars(mid.args), ..mid }));
        }
        Ok(())
    } else {
        let (bindings, inner) = peel_arguments(&def.expression);
        let kind = inner.kind();
        if matches!(kind, ast::Kind::State) {
            ctx.set_arguments(bindings);
            match lower_expression(ctx, inner) {
                Ok(_) => {},
                Err(e) => {
                    return Err(e);
                },
            }
            let vars = collect_arg_vars(&ctx.args);
            let ghost mid = ctx@;
            ctx.main_args = vars;
            proof {
                assert(ctx@ =~= (CtxV { main_args: args_vars(mid.args), ..mid }));
            }
            Ok(())
        } else {
            let arg_vars = collect_arg_vars(&bindings);
            ctx.set_arguments(bindings);
            let ghost after_args = ctx@;
            let mut saved: Vec<Action> = Vec::new();
            core::mem::swap(&mut saved, &mut ctx.actions);
            proof {
                assert(ctx@ =~= (CtxV {
                    args: after_args.args,
                    actions: Seq::empty(),
                    ..old(ctx)@
                }));
                assert(saved@.map_values(|a: Action| a@) =~= old(ctx)@.actions);
            }
            let rv = match lower_expression(ctx, inner) {
                Ok(rv) => rv,
                Err(e) => {
                    return Err(e);
                },
            };
            let mut body: Vec<Action> = saved;
            core::mem::swap(&mut body, &mut ctx.actions);
            let ghost lowered = ctx@;
            let method = Method {
                name: Identifier::Prefixed(def.name.clone()),
                public: false,
                arguments: arg_vars,
                result: rv,
                actions: body,
            };
            let ghost methodv = method@;
            ctx.methods.push(method);
            proof {
                assert(ctx@ =~= (CtxV {
                    actions: old(ctx)@.actions,
                    methods: lowered.methods.push(methodv),
                    ..lowered
                }));
            }
            Ok(())
        }
    }
}

/// Compile a definition list into a program. Every non-state definition
/// becomes a private method; the entry state's actions become one public
/// method named after the entry definition, appended last. Compilation
/// is a pure function of the definition list: identical input yields
/// identical output.
pub fn visit(definitions: &Vec<ast::Definition>) -> (r: Result<Contract, VisitError>)
    ensures
        match r {
            Ok(c) => spec_visit(definitions@) == Ok::<ContractV, (Seq<char>, CompileError)>(c@),
            Err(e) => spec_visit(definitions@) == Err::<ContractV, (Seq<char>, CompileError)>(
                (e.definition@, e.reason),
            ),
        },
{
    let mut ctx = Context::new();
    let n = definitions.len();
    let mut i: usize = 0;
    while i < n
        invariant
            n == definitions.len(),
            i <= n,
            spec_visit_defs(initial_ctx(), definitions@, 0) == spec_visit_defs(
                ctx@,
                definitions@,
                i as int,
            ),
        decreases n - i,
    {
        match visit_definition(&mut ctx, &definitions[i]) {
            Ok(_) => {},
            Err(e) => {
                return Err(VisitError { definition: definitions[i].name.clone(), reason: e });
            },
        }
        i += 1;
    }
    let main_method = Method {
        name: Identifier::Prefixed(String::from_str("main")),
        public: true,
        arguments: ctx.main_args,
        result: None,
        actions: ctx.actions,
    };
    let ghost mainv = main_method@;
    let mut methods = ctx.methods;
    methods.push(main_method);
    let result = Contract { methods };
    proof {
        assert(result@.methods =~= spec_visit_defs(
            initial_ctx(),
            definitions@,
            0,
        )->Ok_0.methods.push(mainv));
    }
    Ok(result)
}

} // verus!

//! Laws of the lowering pass: escrow statements pair a release with the
//! lock that precedes it, a pushed context is always defined by an
//! earlier spawn, generated names never collide with user names, and
//! compilation is deterministic.

use vstd::prelude::*;

use crate::action::ActionV;
use crate::ast;
use crate::contract::MethodV;
use crate::jog::{spec_render_identifier, DefaultValue, IdentifierV, VariableV};
use crate::visitor::{
    initial_ctx, spec_fresh, spec_lower_contract, spec_lower_expression, spec_spawn, spec_visit,
    spec_visit_def, spec_visit_defs, CompileError, CtxV,
};

verus! {

/// The action is a spawn that defines the context variable `v`.
pub open spec fn spawn_defines(a: ActionV, v: VariableV) -> bool {
    match a {
        ActionV::Spawn { context, .. } => context == v,
        _ => false,
    }
}

/// Every pushed context variable is defined by a spawn strictly earlier
/// in the action list.
pub open spec fn push_safe(actions: Seq<ActionV>) -> bool {
    forall|i: int|
        0 <= i < actions.len() ==> match #[trigger] actions[i] {
            ActionV::PushContext { context } => exists|j: int|
                0 <= j < i && spawn_defines(#[trigger] actions[j], context),
            _ => true,
        }
}

/// Every method body is push-safe.
pub open spec fn methods_push_safe(methods: Seq<MethodV>) -> bool {
    forall|k: int| 0 <= k < methods.len() ==> push_safe(#[trigger] methods[k].actions)
}

/// The lowering invariant: the action accumulator and every completed
/// method are push-safe.
pub open spec fn ctx_push_safe(ctx: CtxV) -> bool {
    push_safe(ctx.actions) && methods_push_safe(ctx.methods)
}

/// Appending any action that is not a push preserves push-safety.
proof fn lemma_push_safe_append_plain(actions: Seq<ActionV>, a: ActionV)
    requires
        push_safe(actions),
        !(a matches ActionV::PushContext { .. }),
    ensures
        push_safe(actions.push(a)),
{
    let t = actions.push(a);
    assert forall|i: int| 0 <= i < t.len() implies match #[trigger] t[i] {
        ActionV::PushContext { context } => exists|j: int|
            0 <= j < i && spawn_defines(#[trigger] t[j], context),
        _ => true,
    } by {
        if i < actions.len() {
            assert(t[i] == actions[i]);
            match actions[i] {
                ActionV::PushContext { context } => {
                    let j = choose|j: int| 0 <= j < i && spawn_defines(#[trigger] actions[j], context);
                    assert(t[j] == actions[j]);
                    assert(spawn_defines(t[j], context));
                },
                _ => {},
            }
        } else {
            assert(t[i] == a);
        }
    }
}

/// Appending a spawn directly followed by the push of the very context
/// it defines preserves push-safety.
proof fn lemma_push_safe_append_spawn_push(
    actions: Seq<ActionV>,
    spawned: ActionV,
    v: VariableV,
)
    requires
        push_safe(actions),
        spawn_defines(spawned, v),
    ensures
        push_safe(actions.push(spawned).push(ActionV::PushContext { context: v })),
{
    lemma_push_safe_append_plain(actions, spawned);
    let mid = actions.push(spawned);
    let t = mid.push(ActionV::PushContext { context: v });
    assert forall|i: int| 0 <= i < t.len() implies match #[trigger] t[i] {
        ActionV::PushContext { context } => exists|j: int|
            0 <= j < i && spawn_defines(#[trigger] t[j], context),
        _ => true,
    } by {
        if i < mid.len() {
            assert(t[i] == mid[i]);
            match mid[i] {
                ActionV::PushContext { context } => {
                    let j = choose|j: int| 0 <= j < i && spawn_defines(#[trigger] mid[j], context);
                    assert(t[j] == mid[j]);
                    assert(spawn_defines(t[j], context));
                },
                _ => {},
            }
        } else {
            assert(t[i] == ActionV::PushContext { context: v });
            let j = mid.len() - 1;
            assert(t[j] == mid[j]);
            assert(mid[j] == spawned);
            assert(spawn_defines(t[j], v));
        }
    }
}

/// Lowering a contract node preserves the push-safety invariant.
proof fn lemma_lower_contract_push_safe(ctx: CtxV, c: ast::Contract)
    requires
        ctx_push_safe(ctx),
    ensures
        match spec_lower_contract(ctx, c) {
            Ok((ctx1, _)) => ctx_push_safe(ctx1),
            Err(_) => true,
        },
    decreases c, 0int,
{
    match c {
        ast::Contract::Zero => {},
        ast::Contract::One => {
            match spec_fresh(ctx) {
                Ok((ctx1, k)) => {
                    let locked = VariableV {
                        identifier: IdentifierV::Generated(k),
                        kind: crate::jog::Kind::Coin,
                        default: Some(DefaultValue::CoinZero),
                    };
                    lemma_push_safe_append_plain(
                        ctx1.actions,
                        ActionV::Lock { amount: ctx1.scale, locked },
                    );
                },
                Err(_) => {},
            }
        },
        ast::Contract::Give(inner) => {
            lemma_lower_contract_push_safe(ctx, *inner);
            match spec_lower_contract(ctx, *inner) {
                Ok((ctx1, Some(h))) => {
                    lemma_push_safe_append_plain(ctx1.actions, ActionV::Unlock { locked: h });
                },
                _ => {},
            }
        },
        ast::Contract::And(a, b) => {
            lemma_lower_contract_push_safe(ctx, *a);
            match spec_lower_contract(ctx, *a) {
                Ok((ctx1, _)) => {
                    lemma_lower_contract_push_safe(ctx1, *b);
                },
                Err(_) => {},
            }
        },
        ast::Contract::Or(a, b) => {
            match spec_fresh(ctx) {
                Ok((ctx1, k)) => {
                    let coin = VariableV {
                        identifier: IdentifierV::Generated(k),
                        kind: crate::jog::Kind::Bool,
                        default: None,
                    };
                    lemma_push_safe_append_plain(ctx1.actions, ActionV::Flip { coin });
                    let ctx2 = CtxV { actions: ctx1.actions.push(ActionV::Flip { coin }), ..ctx1 };
                    lemma_spawn_push_safe(ctx2, *a);
                    match spec_spawn(ctx2, *a) {
                        Ok((ctx3, _)) => {
                            lemma_spawn_push_safe(ctx3, *b);
                        },
                        Err(_) => {},
                    }
                },
                Err(_) => {},
            }
        },
        ast::Contract::Scale(factor, inner) => {
            match *factor {
                ast::Expression::Literal(n) => {
                    if ctx.scale * n <= u64::MAX {
                        lemma_lower_contract_push_safe(
                            CtxV { scale: (ctx.scale * n) as u64, ..ctx },
                            *inner,
                        );
                    }
                },
                _ => {},
            }
        },
        ast::Contract::Then(inner) => {
            lemma_spawn_push_safe(ctx, *inner);
        },
        ast::Contract::Get(inner) => {
            lemma_spawn_push_safe(ctx, *inner);
        },
        ast::Contract::Anytime(inner) => {
            lemma_spawn_push_safe(ctx, *inner);
        },
    }
}

/// Deferring a sub-contract preserves the push-safety invariant: the
/// spawned method body is push-safe, and the spawn statement precedes
/// the push that consumes its context variable.
proof fn lemma_spawn_push_safe(ctx: CtxV, sub: ast::Contract)
    requires
        ctx_push_safe(ctx),
    ensures
        match spec_spawn(ctx, sub) {
            Ok((ctx1, _)) => ctx_push_safe(ctx1),
            Err(_) => true,
        },
    decreases sub, 1int,
{
    match spec_fresh(ctx) {
        Ok((ctx1, n)) => {
            let entered = CtxV { actions: Seq::empty(), ..ctx1 };
            assert(push_safe(Seq::<ActionV>::empty()));
            lemma_lower_contract_push_safe(entered, sub);
            match spec_lower_contract(entered, sub) {
                Ok((ctx2, rv)) => {
                    let method = MethodV {
                        name: IdentifierV::Generated(n),
                        public: false,
                        arguments: Seq::empty(),
                        result: rv,
                        actions: ctx2.actions,
                    };
                    let pushed = ctx2.methods.push(method);
                    assert(methods_push_safe(pushed)) by {
                        assert forall|k: int| 0 <= k < pushed.len() implies push_safe(
                            #[trigger] pushed[k].actions,
                        ) by {
                            if k < ctx2.methods.len() {
                                assert(pushed[k] == ctx2.methods[k]);
                            } else {
                                assert(pushed[k] == method);
                            }
                        }
                    }
                    let ctx3 = CtxV { actions: ctx1.actions, methods: pushed, ..ctx2 };
                    match spec_fresh(ctx3) {
                        Ok((ctx4, m)) => {
                            let v = VariableV {
                                identifier: IdentifierV::Generated(m),
                                kind: crate::jog::Kind::Context,
                                default: None,
                            };
                            lemma_push_safe_append_spawn_push(
                                ctx4.actions,
                                ActionV::Spawn {
                                    context: v,
                                    root: crate::jog::ExpressionV::Unsigned(n),
                                },
                                v,
                            );
                        },
                        Err(_) => {},
                    }
                },
                Err(_) => {},
            }
        },
        Err(_) => {},
    }
}

/// Lowering an expression preserves the push-safety invariant.
proof fn lemma_lower_expression_push_safe(ctx: CtxV, e: ast::Expression)
    requires
        ctx_push_safe(ctx),
    ensures
        match spec_lower_expression(ctx, e) {
            Ok((ctx1, _)) => ctx_push_safe(ctx1),
            Err(_) => true,
        },
    decreases e, 0int,
{
    match e {
        ast::Expression::Literal(_) => {},
        ast::Expression::VariableRef(_) => {},
        ast::Expression::Abstraction(p, body) => {
            let ctx1 = CtxV { args: ctx.args.push(crate::visitor::param_binding(p@)), ..ctx };
            lemma_lower_expression_push_safe(ctx1, *body);
        },
        ast::Expression::Application(f, a) => {
            lemma_lower_expression_push_safe(ctx, *a);
            match spec_lower_expression(ctx, *a) {
                Ok((ctx1, Some(va))) => {
                    match *f {
                        ast::Expression::Abstraction(p, body) => {
                            let ctx2 = CtxV {
                                args: ctx1.args.push(
                                    crate::visitor::BindingV { name: p@, var: va },
                                ),
                                ..ctx1
                            };
                            lemma_lower_expression_push_safe(ctx2, *body);
                        },
                        _ => {},
                    }
                },
                _ => {},
            }
        },
        ast::Expression::ContractNode(c) => {
            lemma_lower_contract_push_safe(ctx, *c);
        },
    }
}

/// Lowering one definition preserves the push-safety invariant.
proof fn lemma_visit_def_push_safe(ctx: CtxV, def: ast::Definition)
    requires
        ctx_push_safe(ctx),
    ensures
        match spec_visit_def(ctx, def) {
            Ok(ctx1) => ctx_push_safe(ctx1),
            Err(_) => true,
        },
{
    if def.name@ == "main"@ {
        let ctx1 = CtxV { args: Seq::empty(), ..ctx };
        lemma_lower_expression_push_safe(ctx1, def.expression);
    } else {
        let inner = crate::visitor::spec_peel_body(def.expression);
        let bindings = crate::visitor::params_to_bindings(
            crate::visitor::spec_peel_params(def.expression),
        );
        if inner.spec_kind() == ast::Kind::State {
            let ctx1 = CtxV { args: bindings, ..ctx };
            lemma_lower_expression_push_safe(ctx1, inner);
        } else {
            let ctx1 = CtxV { args: bindings, actions: Seq::empty(), ..ctx };
            assert(push_safe(Seq::<ActionV>::empty()));
            lemma_lower_expression_push_safe(ctx1, inner);
            match spec_lower_expression(ctx1, inner) {
                Ok((ctx2, rv)) => {
                    let method = MethodV {
                        name: IdentifierV::Prefixed(def.name@),
                        public: false,
                        arguments: crate::visitor::args_vars(bindings),
                        result: rv,
                        actions: ctx2.actions,
                    };
                    let pushed = ctx2.methods.push(method);
                    assert(methods_push_safe(pushed)) by {
                        assert forall|k: int| 0 <= k < pushed.len() implies push_safe(
                            #[trigger] pushed[k].actions,
                        ) by {
                            if k < ctx2.methods.len() {
                                assert(pushed[k] == ctx2.methods[k]);
                            } else {
                                assert(pushed[k] == method);
                            }
                        }
                    }
                },
                Err(_) => {},
            }
        }
    }
}

/// Lowering a suffix of the definition list preserves the invariant.
proof fn lemma_visit_defs_push_safe(ctx: CtxV, defs: Seq<ast::Definition>, i: int)
    requires
        ctx_push_safe(ctx),
    ensures
        match spec_visit_defs(ctx, defs, i) {
            Ok(ctx1) => ctx_push_safe(ctx1),
            Err(_) => true,
        },
    decreases defs.len() - i,
{
    if 0 <= i < defs.len() {
        lemma_visit_def_push_safe(ctx, defs[i]);
        match spec_visit_def(ctx, defs[i]) {
            Ok(ctx1) => {
                lemma_visit_defs_push_safe(ctx1, defs, i + 1);
            },
            Err(_) => {},
        }
    }
}

/// Law: in every method of a compiled program, each push statement
/// consumes a context variable that a spawn statement defined strictly
/// earlier in the same action list.
pub proof fn lemma_spawn_before_push(defs: Seq<ast::Definition>)
    ensures
        match spec_visit(defs) {
            Ok(c) => forall|k: int|
                0 <= k < c.methods.len() ==> push_safe(#[trigger] c.methods[k].actions),
            Err(_) => true,
        },
{
    let ctx0 = crate::visitor::initial_ctx();
    assert(push_safe(ctx0.actions));
    assert(methods_push_safe(ctx0.methods));
    lemma_visit_defs_push_safe(ctx0, defs, 0);
    match spec_visit_defs(ctx0, defs, 0) {
        Ok(ctx) => {
            let main = MethodV {
                name: IdentifierV::Prefixed("main"@),
                public: true,
                arguments: ctx.main_args,
                result: None,
                actions: ctx.actions,
            };
            let pushed = ctx.methods.push(main);
            assert forall|k: int| 0 <= k < pushed.len() implies push_safe(
                #[trigger] pushed[k].actions,
            ) by {
                if k < ctx.methods.len() {
                    assert(pushed[k] == ctx.methods[k]);
                } else {
                    assert(pushed[k] == main);
                }
            }
        },
        Err(_) => {},
    }
}

/// Law: for a unit transfer scaled by `n` and then given away, lowering
/// emits exactly one lock of amount `n` strictly before exactly one
/// unlock, and both name the same holding variable.
pub proof fn lemma_lock_unlock_pairing(ctx: CtxV, n: u64)
    requires
        ctx.scale == 1,
        ctx.fresh < u64::MAX,
    ensures
        ({
            let c = ast::Contract::Give(
                Box::new(
                    ast::Contract::Scale(
                        Box::new(ast::Expression::Literal(n)),
                        Box::new(ast::Contract::One),
                    ),
                ),
            );
            let locked = VariableV {
                identifier: IdentifierV::Generated(ctx.fresh),
                kind: crate::jog::Kind::Coin,
                default: Some(DefaultValue::CoinZero),
            };
            spec_lower_contract(ctx, c) == Ok::<(CtxV, Option<VariableV>), CompileError>(
                (
                    CtxV {
                        fresh: (ctx.fresh + 1) as u64,
                        actions: ctx.actions.push(ActionV::Lock { amount: n, locked }).push(
                            ActionV::Unlock { locked },
                        ),
                        ..ctx
                    },
                    None,
                ),
            )
        }),
{
    reveal_with_fuel(spec_lower_contract, 4);
    let c = ast::Contract::Give(
        Box::new(
            ast::Contract::Scale(
                Box::new(ast::Expression::Literal(n)),
                Box::new(ast::Contract::One),
            ),
        ),
    );
    let locked = VariableV {
        identifier: IdentifierV::Generated(ctx.fresh),
        kind: crate::jog::Kind::Coin,
        default: Some(DefaultValue::CoinZero),
    };
    match spec_lower_contract(ctx, c) {
        Ok((ctx1, r)) => {
            assert(ctx1 =~= (CtxV {
                fresh: (ctx.fresh + 1) as u64,
                actions: ctx.actions.push(ActionV::Lock { amount: n, locked }).push(
                    ActionV::Unlock { locked },
                ),
                ..ctx
            }));
        },
        Err(_) => {
            assert(false);
        },
    }
}

/// Law: a compiler-generated name can never collide with a user name:
/// the two render with different leading prefixes.
pub proof fn lemma_generated_never_collides(n: u64, user: Seq<char>)
    ensures
        spec_render_identifier(IdentifierV::Generated(n)) != spec_render_identifier(
            IdentifierV::Prefixed(user),
        ),
{
    reveal_strlit("v_");
    reveal_strlit("u_");
    let g = spec_render_identifier(IdentifierV::Generated(n));
    let u = spec_render_identifier(IdentifierV::Prefixed(user));
    assert(g[0] == 'v');
    assert(u[0] == 'u');
}

/// Law: compilation is deterministic. It is a pure function of the
/// definition list, so identical input yields identical output, and with
/// it byte-identical rendered text.
pub proof fn lemma_compile_deterministic(d1: Seq<ast::Definition>, d2: Seq<ast::Definition>)
    requires
        d1 == d2,
    ensures
        spec_visit(d1) == spec_visit(d2),
        (spec_visit(d1) matches Ok(c1) && spec_visit(d2) matches Ok(c2)) ==> (
        crate::contract::spec_render_contract(spec_visit(d1)->Ok_0)
            == crate::contract::spec_render_contract(spec_visit(d2)->Ok_0)),
{
}


/// The context in which the body of a two-party entry definition is
/// lowered: the initial context with the two party names bound.
pub open spec fn two_party_ctx(holder: Seq<char>, counterparty: Seq<char>) -> CtxV {
    CtxV {
        scale: 1,
        fresh: 0,
        args: seq![
            crate::visitor::param_binding(holder),
            crate::visitor::param_binding(counterparty),
        ],
        actions: Seq::empty(),
        methods: Seq::empty(),
        main_args: Seq::empty(),
    }
}

/// A definition list of one entry definition that abstracts the two
/// parties over the embedded contract `c`, with the given parameter
/// names.
pub open spec fn two_party_main(
    defs: Seq<ast::Definition>,
    holder: Seq<char>,
    counterparty: Seq<char>,
    c: ast::Contract,
) -> bool {
    &&& defs.len() == 1
    &&& defs[0].name@ == "main"@
    &&& (defs[0].expression matches ast::Expression::Abstraction(h, b1) && h@ == holder
        && (*b1 matches ast::Expression::Abstraction(p, b2) && p@ == counterparty
        && (*b2 matches ast::Expression::ContractNode(cb) && *cb == c)))
}

/// Compiling a two-party entry definition is exactly lowering its
/// embedded contract under the two bound parties, the accumulated
/// actions becoming the body of the one public entry method.
proof fn lemma_visit_two_party_main(
    defs: Seq<ast::Definition>,
    holder: Seq<char>,
    counterparty: Seq<char>,
    c: ast::Contract,
)
    requires
        two_party_main(defs, holder, counterparty, c),
    ensures
        match spec_lower_contract(two_party_ctx(holder, counterparty), c) {
            Ok((ctx1, _)) => spec_visit(defs) == Ok::<
                crate::contract::ContractV,
                (Seq<char>, CompileError),
            >(
                crate::contract::ContractV {
                    methods: ctx1.methods.push(
                        MethodV {
                            name: IdentifierV::Prefixed("main"@),
                            public: true,
                            arguments: crate::visitor::args_vars(ctx1.args),
                            result: None,
                            actions: ctx1.actions,
                        },
                    ),
                },
            ),
            Err(e) => spec_visit(defs) == Err::<
                crate::contract::ContractV,
                (Seq<char>, CompileError),
            >(("main"@, e)),
        },
{
    reveal_with_fuel(spec_visit_defs, 2);
    reveal_with_fuel(spec_lower_expression, 3);
    let ctx0 = initial_ctx();
    let entry = CtxV { args: Seq::empty(), ..ctx0 };
    assert(entry =~= ctx0);
    match defs[0].expression {
        ast::Expression::Abstraction(h, b1) => {
            let ctx_h = CtxV {
                args: entry.args.push(crate::visitor::param_binding(h@)),
                ..entry
            };
            match *b1 {
                ast::Expression::Abstraction(p, b2) => {
                    let ctx_hp = CtxV {
                        args: ctx_h.args.push(crate::visitor::param_binding(p@)),
                        ..ctx_h
                    };
                    assert(ctx_hp =~= two_party_ctx(holder, counterparty));
                    match *b2 {
                        ast::Expression::ContractNode(cb) => {
                            assert(spec_lower_expression(entry, defs[0].expression)
                                == spec_lower_contract(two_party_ctx(holder, counterparty), c));
                        },
                        _ => {
                            assert(false);
                        },
                    }
                },
                _ => {
                    assert(false);
                },
            }
        },
        _ => {
            assert(false);
        },
    }
}

/// The holding variable of the very first escrow a compilation emits.
pub open spec fn first_locked() -> VariableV {
    VariableV {
        identifier: IdentifierV::Generated(0),
        kind: crate::jog::Kind::Coin,
        default: Some(DefaultValue::CoinZero),
    }
}

/// Law, through the whole compiler: a two-party entry definition over
/// give(scale(n, one)) compiles to a single public entry method whose
/// body is exactly one lock of amount `n` strictly before exactly one
/// unlock of the same holding variable.
pub proof fn lemma_lock_unlock_pairing_compiled(
    defs: Seq<ast::Definition>,
    holder: Seq<char>,
    counterparty: Seq<char>,
    n: u64,
)
    requires
        two_party_main(
            defs,
            holder,
            counterparty,
            ast::Contract::Give(
                Box::new(
                    ast::Contract::Scale(
                        Box::new(ast::Expression::Literal(n)),
                        Box::new(ast::Contract::One),
                    ),
                ),
            ),
        ),
    ensures
        spec_visit(defs) matches Ok(out) && out.methods.len() == 1 && out.methods[0].actions
            =~= seq![
            ActionV::Lock { amount: n, locked: first_locked() },
            ActionV::Unlock { locked: first_locked() },
        ],
{
    let c = ast::Contract::Give(
        Box::new(
            ast::Contract::Scale(
                Box::new(ast::Expression::Literal(n)),
                Box::new(ast::Contract::One),
            ),
        ),
    );
    let ctx = two_party_ctx(holder, counterparty);
    lemma_visit_two_party_main(defs, holder, counterparty, c);
    lemma_lock_unlock_pairing(ctx, n);
    match spec_lower_contract(ctx, c) {
        Ok((ctx1, _)) => {
            assert(ctx1.methods.len() == 0);
            assert(ctx1.actions =~= seq![
                ActionV::Lock { amount: n, locked: first_locked() },
                ActionV::Unlock { locked: first_locked() },
            ]);
        },
        Err(_) => {
            assert(false);
        },
    }
}

/// Law, through the whole compiler: a two-party entry definition over
/// one scaled by ten compiles to a single public entry method whose body
/// is exactly one lock escrowing ten, and no unlock.
pub proof fn lemma_end_to_end_example(
    defs: Seq<ast::Definition>,
    holder: Seq<char>,
    counterparty: Seq<char>,
)
    requires
        two_party_main(
            defs,
            holder,
            counterparty,
            ast::Contract::Scale(
                Box::new(ast::Expression::Literal(10)),
                Box::new(ast::Contract::One),
            ),
        ),
    ensures
        spec_visit(defs) matches Ok(out) && out.methods.len() == 1 && out.methods[0].public
            && out.methods[0].actions =~= seq![
            ActionV::Lock { amount: 10u64, locked: first_locked() },
        ] && (forall|i: int|
            0 <= i < spec_visit(defs)->Ok_0.methods[0].actions.len() ==> !(
            #[trigger] spec_visit(defs)->Ok_0.methods[0].actions[i] matches ActionV::Unlock {
                ..
            })),
{
    reveal_with_fuel(spec_lower_contract, 3);
    let c = ast::Contract::Scale(
        Box::new(ast::Expression::Literal(10)),
        Box::new(ast::Contract::One),
    );
    let ctx = two_party_ctx(holder, counterparty);
    lemma_visit_two_party_main(defs, holder, counterparty, c);
    match spec_lower_contract(ctx, c) {
        Ok((ctx1, _)) => {
            assert(ctx1.methods.len() == 0);
            assert(ctx1.actions =~= seq![ActionV::Lock { amount: 10u64, locked: first_locked() }]);
        },
        Err(_) => {
            assert(false);
        },
    }
}

} // verus!

//! The identifier-freshness law: the counter-generated names a
//! compilation introduces are pairwise distinct across the whole output,
//! and none of them can collide with a user-declared name.

use vstd::prelude::*;
use vstd::multiset::Multiset;

use crate::action::ActionV;
use crate::ast;
use crate::contract::MethodV;
use crate::jog::IdentifierV;
use crate::visitor::{
    initial_ctx, spec_fresh, spec_lower_contract, spec_lower_expression, spec_spawn, spec_visit,
    spec_visit_def, spec_visit_defs, CtxV,
};

verus! {

/// The counter values of one identifier: one value for a generated
/// name, none for a user name.
pub open spec fn id_counters(id: IdentifierV) -> Multiset<u64> {
    match id {
        IdentifierV::Generated(k) => Multiset::empty().insert(k),
        IdentifierV::Prefixed(_) => Multiset::empty(),
    }
}

/// The counter values of the variables an action introduces. A release
/// or a push only references variables, so it introduces none.
pub open spec fn action_counters(a: ActionV) -> Multiset<u64> {
    match a {
        ActionV::Lock { locked, .. } => id_counters(locked.identifier),
        ActionV::Spawn { context, .. } => id_counters(context.identifier),
        ActionV::Flip { coin } => id_counters(coin.identifier),
        _ => Multiset::empty(),
    }
}

/// The counter values introduced across an action list.
pub open spec fn actions_counters(actions: Seq<ActionV>) -> Multiset<u64>
    decreases actions.len(),
{
    if actions.len() == 0 {
        Multiset::empty()
    } else {
        actions_counters(actions.drop_last()).add(action_counters(actions.last()))
    }
}

/// The counter values of a method: its own name and everything its body
/// introduces.
pub open spec fn method_counters(m: MethodV) -> Multiset<u64> {
    id_counters(m.name).add(actions_counters(m.actions))
}

/// The counter values across a method list.
pub open spec fn methods_counters(methods: Seq<MethodV>) -> Multiset<u64>
    decreases methods.len(),
{
    if methods.len() == 0 {
        Multiset::empty()
    } else {
        methods_counters(methods.drop_last()).add(method_counters(methods.last()))
    }
}

/// Every counter value a context has introduced so far.
pub open spec fn ctx_counters(ctx: CtxV) -> Multiset<u64> {
    methods_counters(ctx.methods).add(actions_counters(ctx.actions))
}

/// No counter value is introduced twice.
pub open spec fn unique_counters(m: Multiset<u64>) -> bool {
    forall|k: u64| #[trigger] m.count(k) <= 1
}

/// A lowering step behaves well on counters: the fresh counter never
/// moves back, counter values outside the step's fresh range keep their
/// multiplicity, and each value inside it is introduced at most once.
pub open spec fn counters_step(before: CtxV, after: CtxV) -> bool {
    &&& before.fresh <= after.fresh
    &&& forall|k: u64|
        k < before.fresh || k >= after.fresh ==> #[trigger] ctx_counters(after).count(k)
            == ctx_counters(before).count(k)
    &&& forall|k: u64|
        before.fresh <= k < after.fresh ==> #[trigger] ctx_counters(after).count(k)
            <= ctx_counters(before).count(k) + 1
}

/// Well-behaved steps compose.
proof fn lemma_step_trans(a: CtxV, b: CtxV, c: CtxV)
    requires
        counters_step(a, b),
        counters_step(b, c),
    ensures
        counters_step(a, c),
{
    assert forall|k: u64| a.fresh <= k < c.fresh implies #[trigger] ctx_counters(c).count(k)
        <= ctx_counters(a).count(k) + 1 by {
        if k < b.fresh {
            assert(ctx_counters(b).count(k) <= ctx_counters(a).count(k) + 1);
            assert(ctx_counters(c).count(k) == ctx_counters(b).count(k));
        } else {
            assert(ctx_counters(b).count(k) == ctx_counters(a).count(k));
            assert(ctx_counters(c).count(k) <= ctx_counters(b).count(k) + 1);
        }
    }
}

/// Appending one action adds exactly its own counters.
proof fn lemma_actions_counters_push(actions: Seq<ActionV>, a: ActionV)
    ensures
        actions_counters(actions.push(a)) == actions_counters(actions).add(action_counters(a)),
{
    assert(actions.push(a).drop_last() =~= actions);
    assert(actions.push(a).last() == a);
}

/// Appending one method adds exactly its own counters.
proof fn lemma_methods_counters_push(methods: Seq<MethodV>, m: MethodV)
    ensures
        methods_counters(methods.push(m)) == methods_counters(methods).add(method_counters(m)),
{
    assert(methods.push(m).drop_last() =~= methods);
    assert(methods.push(m).last() == m);
}

/// Drawing a fresh value is a well-behaved step that returns a value in
/// its own fresh range.
proof fn lemma_fresh_step(ctx: CtxV)
    ensures
        match spec_fresh(ctx) {
            Ok((ctx1, k)) => counters_step(ctx, ctx1) && k == ctx.fresh && ctx1.fresh == ctx.fresh
                + 1 && ctx_counters(ctx1) == ctx_counters(ctx),
            Err(_) => true,
        },
{
}

/// Lowering a contract node is a well-behaved counter step.
proof fn lemma_lower_contract_counters(ctx: CtxV, c: ast::Contract)
    ensures
        match spec_lower_contract(ctx, c) {
            Ok((ctx1, _)) => counters_step(ctx, ctx1),
            Err(_) => true,
        },
    decreases c, 0int,
{
    match c {
        ast::Contract::Zero => {},
        ast::Contract::One => {
            match spec_fresh(ctx) {
                Ok((ctx1, k)) => {
                    lemma_fresh_step(ctx);
                    let locked = crate::jog::VariableV {
                        identifier: IdentifierV::Generated(k),
                        kind: crate::jog::Kind::Coin,
                        default: Some(crate::jog::DefaultValue::CoinZero),
                    };
                    let a = ActionV::Lock { amount: ctx1.scale, locked };
                    lemma_actions_counters_push(ctx1.actions, a);
                    let ctx2 = CtxV { actions: ctx1.actions.push(a), ..ctx1 };
                    assert(ctx_counters(ctx2) =~= ctx_counters(ctx1).insert(k));
                    assert(counters_step(ctx, ctx2)) by {
                        assert(forall|j: u64|
                            j != k ==> #[trigger] ctx_counters(ctx2).count(j) == ctx_counters(
                                ctx,
                            ).count(j));
                        assert(ctx_counters(ctx2).count(k) == ctx_counters(ctx).count(k) + 1);
                    }
                },
                Err(_) => {},
            }
        },
        ast::Contract::Give(inner) => {
            lemma_lower_contract_counters(ctx, *inner);
            match spec_lower_contract(ctx, *inner) {
                Ok((ctx1, Some(h))) => {
                    let a = ActionV::Unlock { locked: h };
                    lemma_actions_counters_push(ctx1.actions, a);
                    let ctx2 = CtxV { actions: ctx1.actions.push(a), ..ctx1 };
                    assert(ctx_counters(ctx2) =~= ctx_counters(ctx1));
                },
                _ => {},
            }
        },
        ast::Contract::And(a, b) => {
            lemma_lower_contract_counters(ctx, *a);
            match spec_lower_contract(ctx, *a) {
                Ok((ctx1, _)) => {
                    lemma_lower_contract_counters(ctx1, *b);
                    match spec_lower_contract(ctx1, *b) {
                        Ok((ctx2, _)) => {
                            lemma_step_trans(ctx, ctx1, ctx2);
                        },
                        Err(_) => {},
                    }
                },
                Err(_) => {},
            }
        },
        ast::Contract::Or(a, b) => {
            match spec_fresh(ctx) {
                Ok((ctx1, k)) => {
                    lemma_fresh_step(ctx);
                    let coin = crate::jog::VariableV {
                        identifier: IdentifierV::Generated(k),
                        kind: crate::jog::Kind::Bool,
                        default: None,
                    };
                    let f = ActionV::Flip { coin };
                    lemma_actions_counters_push(ctx1.actions, f);
                    let ctx2 = CtxV { actions: ctx1.actions.push(f), ..ctx1 };
                    assert(ctx_counters(ctx2) =~= ctx_counters(ctx1).insert(k));
                    assert(counters_step(ctx, ctx2)) by {
                        assert(forall|j: u64|
                            j != k ==> #[trigger] ctx_counters(ctx2).count(j) == ctx_counters(
                                ctx,
                            ).count(j));
                        assert(ctx_counters(ctx2).count(k) == ctx_counters(ctx).count(k) + 1);
                    }
                    lemma_spawn_counters(ctx2, *a);
                    match spec_spawn(ctx2, *a) {
                        Ok((ctx3, _)) => {
                            lemma_step_trans(ctx, ctx2, ctx3);
                            lemma_spawn_counters(ctx3, *b);
                            match spec_spawn(ctx3, *b) {
                                Ok((ctx4, _)) => {
                                    lemma_step_trans(ctx, ctx3, ctx4);
                                },
                                Err(_) => {},
                            }
                        },
                        Err(_) => {},
                    }
                },
                Err(_) => {},
            }
        },
        ast::Contract::Scale(factor, inner) => {
            match *factor {
                ast::Expression::Literal(n) => {
                    if ctx.scale * n <= u64::MAX {
                        let entered = CtxV { scale: (ctx.scale * n) as u64, ..ctx };
                        lemma_lower_contract_counters(entered, *inner);
                        match spec_lower_contract(entered, *inner) {
                            Ok((ctx1, _)) => {
                                let restored = CtxV { scale: ctx.scale, ..ctx1 };
                                assert(ctx_counters(entered) == ctx_counters(ctx));
                                assert(ctx_counters(restored) == ctx_counters(ctx1));
                            },
                            Err(_) => {},
                        }
                    }
                },
                _ => {},
            }
        },
        ast::Contract::Then(inner) => {
            lemma_spawn_counters(ctx, *inner);
        },
        ast::Contract::Get(inner) => {
            lemma_spawn_counters(ctx, *inner);
        },
        ast::Contract::Anytime(inner) => {
            lemma_spawn_counters(ctx, *inner);
        },
    }
}

/// Deferring a sub-contract is a well-behaved counter step: the state
/// method's name and context variable take one fresh value each, and
/// the sub-lowering's values keep their multiplicity when the body moves
/// into the method.
proof fn lemma_spawn_counters(ctx: CtxV, sub: ast::Contract)
    ensures
        match spec_spawn(ctx, sub) {
            Ok((ctx1, _)) => counters_step(ctx, ctx1),
            Err(_) => true,
        },
    decreases sub, 1int,
{
    match spec_fresh(ctx) {
        Ok((ctx1, n)) => {
            lemma_fresh_step(ctx);
            let entered = CtxV { actions: Seq::empty(), ..ctx1 };
            assert(ctx_counters(entered) == methods_counters(ctx1.methods).add(
                actions_counters(Seq::empty()),
            ));
            lemma_lower_contract_counters(entered, sub);
            match spec_lower_contract(entered, sub) {
                Ok((ctx2, rv)) => {
                    let method = MethodV {
                        name: IdentifierV::Generated(n),
                        public: false,
                        arguments: Seq::empty(),
                        result: rv,
                        actions: ctx2.actions,
                    };
                    lemma_methods_counters_push(ctx2.methods, method);
                    let ctx3 = CtxV {
                        actions: ctx1.actions,
                        methods: ctx2.methods.push(method),
                        ..ctx2
                    };
                    assert(ctx_counters(ctx3) =~= ctx_counters(ctx2).add(
                        actions_counters(ctx1.actions),
                    ).insert(n));
                    assert(counters_step(entered, ctx2));
                    // Every count in the outer view moves in step with the
                    // inner view, shifted by the saved actions and the new
                    // method name.
                    assert(counters_step(ctx, ctx3)) by {
                        assert forall|k: u64| k < ctx.fresh || k >= ctx3.fresh implies
                            #[trigger] ctx_counters(ctx3).count(k) == ctx_counters(ctx).count(
                            k,
                        ) by {
                            assert(ctx_counters(ctx2).count(k) == ctx_counters(entered).count(k));
                            assert(ctx_counters(ctx).count(k) == methods_counters(
                                ctx1.methods,
                            ).count(k) + actions_counters(ctx1.actions).count(k));
                        }
                        assert forall|k: u64| ctx.fresh <= k < ctx3.fresh implies
                            #[trigger] ctx_counters(ctx3).count(k) <= ctx_counters(ctx).count(k)
                            + 1 by {
                            if k == n {
                                assert(ctx_counters(ctx2).count(k) == ctx_counters(entered).count(
                                    k,
                                ));
                            } else {
                                assert(ctx_counters(ctx2).count(k) <= ctx_counters(entered).count(
                                    k,
                                ) + 1);
                            }
                            assert(ctx_counters(ctx).count(k) == methods_counters(
                                ctx1.methods,
                            ).count(k) + actions_counters(ctx1.actions).count(k));
                        }
                    }
                    match spec_fresh(ctx3) {
                        Ok((ctx4, m)) => {
                            lemma_fresh_step(ctx3);
                            let v = crate::jog::VariableV {
                                identifier: IdentifierV::Generated(m),
                                kind: crate::jog::Kind::Context,
                                default: None,
                            };
                            let spawned = ActionV::Spawn {
                                context: v,
                                root: crate::jog::ExpressionV::Unsigned(n),
                            };
                            let pushed = ActionV::PushContext { context: v };
                            lemma_actions_counters_push(ctx4.actions, spawned);
                            lemma_actions_counters_push(ctx4.actions.push(spawned), pushed);
                            let ctx5 = CtxV {
                                actions: ctx4.actions.push(spawned).push(pushed),
                                ..ctx4
                            };
                            assert(ctx_counters(ctx5) =~= ctx_counters(ctx4).insert(m));
                            assert(counters_step(ctx3, ctx5)) by {
                                assert(forall|j: u64|
                                    j != m ==> #[trigger] ctx_counters(ctx5).count(j)
                                        == ctx_counters(ctx3).count(j));
                                assert(ctx_counters(ctx5).count(m) == ctx_counters(ctx3).count(m)
                                    + 1);
                            }
                            lemma_step_trans(ctx, ctx3, ctx5);
                        },
                        Err(_) => {},
                    }
                },
                Err(_) => {},
            }
        },
        Err(_) => {},
    }
}

/// Lowering an expression is a well-behaved counter step.
proof fn lemma_lower_expression_counters(ctx: CtxV, e: ast::Expression)
    ensures
        match spec_lower_expression(ctx, e) {
            Ok((ctx1, _)) => counters_step(ctx, ctx1),
            Err(_) => true,
        },
    decreases e, 0int,
{
    match e {
        ast::Expression::Literal(_) => {
            lemma_fresh_step(ctx);
            match spec_fresh(ctx) {
                Ok((ctx1, _)) => {
                    assert(ctx_counters(ctx1) == ctx_counters(ctx));
                },
                Err(_) => {},
            }
        },
        ast::Expression::VariableRef(_) => {},
        ast::Expression::Abstraction(p, body) => {
            let ctx1 = CtxV { args: ctx.args.push(crate::visitor::param_binding(p@)), ..ctx };
            assert(ctx_counters(ctx1) == ctx_counters(ctx));
            lemma_lower_expression_counters(ctx1, *body);
        },
        ast::Expression::Application(f, a) => {
            lemma_lower_expression_counters(ctx, *a);
            match spec_lower_expression(ctx, *a) {
                Ok((ctx1, Some(va))) => {
                    match *f {
                        ast::Expression::Abstraction(p, body) => {
                            let ctx2 = CtxV {
                                args: ctx1.args.push(
                                    crate::visitor::BindingV { name: p@, var: va },
                                ),
                                ..ctx1
                            };
                            assert(ctx_counters(ctx2) == ctx_counters(ctx1));
                            lemma_lower_expression_counters(ctx2, *body);
                            match spec_lower_expression(ctx2, *body) {
                                Ok((ctx3, _)) => {
                                    lemma_step_trans(ctx, ctx2, ctx3);
                                },
                                Err(_) => {},
                            }
                        },
                        _ => {},
                    }
                },
                _ => {},
            }
        },
        ast::Expression::ContractNode(c) => {
            lemma_lower_contract_counters(ctx, *c);
        },
    }
}

/// Lowering one definition is a well-behaved counter step.
proof fn lemma_visit_def_counters(ctx: CtxV, def: ast::Definition)
    ensures
        match spec_visit_def(ctx, def) {
            Ok(ctx1) => counters_step(ctx, ctx1),
            Err(_) => true,
        },
{
    if def.name@ == "main"@ {
        let ctx1 = CtxV { args: Seq::empty(), ..ctx };
        assert(ctx_counters(ctx1) == ctx_counters(ctx));
        lemma_lower_expression_counters(ctx1, def.expression);
        match spec_lower_expression(ctx1, def.expression) {
            Ok((ctx2, _)) => {
                let ctx3 = CtxV { main_args: crate::visitor::args_vars(ctx2.args), ..ctx2 };
                assert(ctx_counters(ctx3) == ctx_counters(ctx2));
            },
            Err(_) => {},
        }
    } else {
        let inner = crate::visitor::spec_peel_body(def.expression);
        let bindings = crate::visitor::params_to_bindings(
            crate::visitor::spec_peel_params(def.expression),
        );
        if inner.spec_kind() == ast::Kind::State {
            let ctx1 = CtxV { args: bindings, ..ctx };
            assert(ctx_counters(ctx1) == ctx_counters(ctx));
            lemma_lower_expression_counters(ctx1, inner);
            match spec_lower_expression(ctx1, inner) {
                Ok((ctx2, _)) => {
                    let ctx3 = CtxV { main_args: crate::visitor::args_vars(ctx2.args), ..ctx2 };
                    assert(ctx_counters(ctx3) == ctx_counters(ctx2));
                },
                Err(_) => {},
            }
        } else {
            let ctx1 = CtxV { args: bindings, actions: Seq::empty(), ..ctx };
            lemma_lower_expression_counters(ctx1, inner);
            match spec_lower_expression(ctx1, inner) {
                Ok((ctx2, rv)) => {
                    let method = MethodV {
                        name: IdentifierV::Prefixed(def.name@),
                        public: false,
                        arguments: crate::visitor::args_vars(bindings),
                        result: rv,
                        actions: ctx2.actions,
                    };
                    lemma_methods_counters_push(ctx2.methods, method);
                    let ctx3 = CtxV {
                        actions: ctx.actions,
                        methods: ctx2.methods.push(method),
                        ..ctx2
                    };
                    assert(id_counters(method.name) == Multiset::<u64>::empty());
                    assert(ctx_counters(ctx3) =~= ctx_counters(ctx2).add(
                        actions_counters(ctx.actions),
                    ));
                    assert(counters_step(ctx1, ctx2));
                    assert(counters_step(ctx, ctx3)) by {
                        assert forall|k: u64| k < ctx.fresh || k >= ctx3.fresh implies
                            #[trigger] ctx_counters(ctx3).count(k) == ctx_counters(ctx).count(
                            k,
                        ) by {
                            assert(ctx_counters(ctx2).count(k) == ctx_counters(ctx1).count(k));
                            assert(ctx_counters(ctx1).count(k) == methods_counters(
                                ctx.methods,
                            ).count(k));
                            assert(ctx_counters(ctx).count(k) == methods_counters(
                                ctx.methods,
                            ).count(k) + actions_counters(ctx.actions).count(k));
                        }
                        assert forall|k: u64| ctx.fresh <= k < ctx3.fresh implies
                            #[trigger] ctx_counters(ctx3).count(k) <= ctx_counters(ctx).count(k)
                            + 1 by {
                            assert(ctx_counters(ctx2).count(k) <= ctx_counters(ctx1).count(k) + 1);
                            assert(ctx_counters(ctx1).count(k) == methods_counters(
                                ctx.methods,
                            ).count(k));
                            assert(ctx_counters(ctx).count(k) == methods_counters(
                                ctx.methods,
                            ).count(k) + actions_counters(ctx.actions).count(k));
                        }
                    }
                },
                Err(_) => {},
            }
        }
    }
}

/// Lowering a suffix of the definition list is a well-behaved step.
proof fn lemma_visit_defs_counters(ctx: CtxV, defs: Seq<ast::Definition>, i: int)
    ensures
        match spec_visit_defs(ctx, defs, i) {
            Ok(ctx1) => counters_step(ctx, ctx1),
            Err(_) => true,
        },
    decreases defs.len() - i,
{
    if 0 <= i < defs.len() {
        lemma_visit_def_counters(ctx, defs[i]);
        match spec_visit_def(ctx, defs[i]) {
            Ok(ctx1) => {
                lemma_visit_defs_counters(ctx1, defs, i + 1);
                match spec_visit_defs(ctx1, defs, i + 1) {
                    Ok(ctx2) => {
                        lemma_step_trans(ctx, ctx1, ctx2);
                    },
                    Err(_) => {},
                }
            },
            Err(_) => {},
        }
    }
}

/// Law: in a compiled program no generated name is introduced twice:
/// across every method, the counter values of the method names and of
/// the variables their actions introduce are pairwise distinct. A
/// generated name can never equal a user name either, the two being
/// different identifier forms.
pub proof fn lemma_identifier_collision_freedom(defs: Seq<ast::Definition>)
    ensures
        match spec_visit(defs) {
            Ok(c) => unique_counters(methods_counters(c.methods)),
            Err(_) => true,
        },
{
    let ctx0 = initial_ctx();
    assert(ctx_counters(ctx0) =~= Multiset::<u64>::empty());
    lemma_visit_defs_counters(ctx0, defs, 0);
    match spec_visit_defs(ctx0, defs, 0) {
        Ok(ctx) => {
            assert(unique_counters(ctx_counters(ctx))) by {
                assert forall|k: u64| #[trigger] ctx_counters(ctx).count(k) <= 1 by {
                    if k < ctx0.fresh || k >= ctx.fresh {
                        assert(ctx_counters(ctx).count(k) == ctx_counters(ctx0).count(k));
                    } else {
                        assert(ctx_counters(ctx).count(k) <= ctx_counters(ctx0).count(k) + 1);
                    }
                    assert(ctx_counters(ctx0).count(k) == 0);
                }
            }
            let main = MethodV {
                name: IdentifierV::Prefixed("main"@),
                public: true,
                arguments: ctx.main_args,
                result: None,
                actions: ctx.actions,
            };
            lemma_methods_counters_push(ctx.methods, main);
            assert(id_counters(main.name) == Multiset::<u64>::empty());
            assert(methods_counters(ctx.methods.push(main)) =~= ctx_counters(ctx));
        },
        Err(_) => {},
    }
}

} // verus!

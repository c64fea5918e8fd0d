use sprint::action::Action;
use sprint::ast::{Contract, Definition, Expression};
use sprint::jog::Identifier;
use sprint::visitor::{visit, CompileError};

fn scaled_one(n: u64) -> Contract {
    Contract::Scale(Box::new(Expression::Literal(n)), Box::new(Contract::One))
}

fn main_definition(body: Expression) -> Vec<Definition> {
    vec![Definition {
        name: String::from("main"),
        expression: Expression::Abstraction(
            String::from("holder"),
            Box::new(Expression::Abstraction(
                String::from("counterparty"),
                Box::new(body),
            )),
        ),
    }]
}

#[test]
fn compile_scaled_transfer() {
    // The entry definition abstracts the two parties over a unit
    // transfer scaled by ten.
    let defs = main_definition(Expression::ContractNode(Box::new(scaled_one(10))));
    let program = visit(&defs).expect("compilation should succeed");
    assert_eq!(program.methods.len(), 1);
    let main = &program.methods[0];
    assert!(main.public);
    assert_eq!(main.name, Identifier::Prefixed(String::from("main")));
    assert_eq!(main.arguments.len(), 2);
    let locks: Vec<_> = main
        .actions
        .iter()
        .filter_map(|a| match a {
            Action::Lock(l) => Some(l),
            _ => None,
        })
        .collect();
    let unlocks = main
        .actions
        .iter()
        .filter(|a| matches!(a, Action::Unlock(_)))
        .count();
    assert_eq!(locks.len(), 1);
    assert_eq!(locks[0].amount, 10);
    assert_eq!(unlocks, 0);
}

#[test]
fn lock_then_unlock_for_give() {
    // Giving a scaled transfer away escrows the amount and then
    // releases the same holding variable, in that order.
    let defs = main_definition(Expression::ContractNode(Box::new(Contract::Give(Box::new(
        scaled_one(7),
    )))));
    let program = visit(&defs).expect("compilation should succeed");
    let main = &program.methods[0];
    assert_eq!(main.actions.len(), 2);
    match (&main.actions[0], &main.actions[1]) {
        (Action::Lock(l), Action::Unlock(u)) => {
            assert_eq!(l.amount, 7);
            assert_eq!(l.locked.identifier, u.locked.identifier);
        }
        other => panic!("expected a lock then an unlock, got {:?}", other),
    }
}

#[test]
fn spawn_precedes_push_for_branching() {
    // A choice lowers to a branch selector and one spawned, pushed
    // context per alternative; each push names the context its spawn
    // defined.
    let defs = main_definition(Expression::ContractNode(Box::new(Contract::Or(
        Box::new(Contract::Zero),
        Box::new(Contract::One),
    ))));
    let program = visit(&defs).expect("compilation should succeed");
    let main = program
        .methods
        .iter()
        .find(|m| m.public)
        .expect("an entry method");
    assert!(matches!(main.actions[0], Action::Flip(_)));
    let mut spawned: Vec<&Identifier> = Vec::new();
    for action in &main.actions {
        match action {
            Action::Spawn(s) => spawned.push(&s.context.identifier),
            Action::PushContext(p) => {
                let last = spawned.last().expect("a spawn must precede a push");
                assert_eq!(*last, &p.context.identifier);
            }
            _ => {}
        }
    }
    assert_eq!(spawned.len(), 2);
    assert_ne!(spawned[0], spawned[1]);
    // Each alternative became a private continuation method of its own.
    assert_eq!(program.methods.len(), 3);
}

#[test]
fn compilation_is_deterministic() {
    // One definition list renders to byte-identical text on every run.
    let mk = || {
        main_definition(Expression::ContractNode(Box::new(Contract::And(
            Box::new(Contract::Give(Box::new(scaled_one(3)))),
            Box::new(Contract::Anytime(Box::new(Contract::One))),
        ))))
    };
    let first = visit(&mk()).expect("compilation should succeed").render();
    let second = visit(&mk()).expect("compilation should succeed").render();
    assert_eq!(first, second);
}

#[test]
fn render_scaled_transfer() {
    let defs = main_definition(Expression::ContractNode(Box::new(scaled_one(10))));
    let program = visit(&defs).expect("compilation should succeed");
    assert_eq!(
        program.render(),
        "import 0x0.LibraAccount;\nimport 0x0.LibraCoin;\n\
         public u_main(u_holder: u64, u_counterparty: u64) {\n    \
         LibraCoin.deposit(&mut move(contract_ref).v_0, LibraAccount.withdraw_from_sender(10));\n}\n"
    );
}

#[test]
fn unresolved_identifier_is_reported() {
    let defs = vec![Definition {
        name: String::from("main"),
        expression: Expression::VariableRef(String::from("nobody")),
    }];
    let err = visit(&defs).expect_err("compilation should fail");
    assert_eq!(err.definition, "main");
    assert_eq!(err.reason, CompileError::UnresolvedIdentifier);
    assert_eq!(err.reason.message(), "unresolved identifier");
}

#[test]
fn non_literal_scale_factor_is_malformed() {
    let defs = main_definition(Expression::ContractNode(Box::new(Contract::Scale(
        Box::new(Expression::VariableRef(String::from("holder"))),
        Box::new(Contract::One),
    ))));
    let err = visit(&defs).expect_err("compilation should fail");
    assert_eq!(err.reason, CompileError::MalformedDefinition);
}

#[test]
fn scale_overflow_is_reported() {
    let defs = main_definition(Expression::ContractNode(Box::new(Contract::Scale(
        Box::new(Expression::Literal(u64::MAX)),
        Box::new(scaled_one(2)),
    ))));
    let err = visit(&defs).expect_err("compilation should fail");
    assert_eq!(err.reason, CompileError::AmountOverflow);
}

#[test]
fn helper_definition_becomes_private_method() {
    // A non-state definition is peeled into arguments and becomes a
    // private method whose result is its body's value.
    let defs = vec![Definition {
        name: String::from("ten"),
        expression: Expression::Abstraction(
            String::from("x"),
            Box::new(Expression::Literal(10)),
        ),
    }];
    let program = visit(&defs).expect("compilation should succeed");
    assert_eq!(program.methods.len(), 2);
    let helper = &program.methods[0];
    assert!(!helper.public);
    assert_eq!(helper.name, Identifier::Prefixed(String::from("ten")));
    assert_eq!(helper.arguments.len(), 1);
    assert!(helper.result.is_some());
    // The signature line carries the result type; the body returns the
    // result variable.
    assert_eq!(
        program.render(),
        "u_ten(u_x: u64): u64 {\n    return move(v_0);\n}\npublic u_main() {\n}\n"
    );
}

#[test]
fn application_binds_argument() {
    // Applying an abstraction binds its parameter to the argument's
    // value for the body.
    let defs = main_definition(Expression::Application(
        Box::new(Expression::Abstraction(
            String::from("amount"),
            Box::new(Expression::VariableRef(String::from("amount"))),
        )),
        Box::new(Expression::Literal(42)),
    ));
    assert!(visit(&defs).is_ok());
}

use sprint::action::{Action, Lock, PushContext, Spawn, Unlock};
use sprint::jog::{DefaultValue, Expression, Identifier, Kind, Variable};

fn holding(n: u64) -> Variable {
    Variable::with_default(Identifier::Generated(n), Kind::Coin, DefaultValue::CoinZero)
}

#[test]
fn unlock_releases_the_locked_variable() {
    let lock = Lock::new(25, holding(4));
    let unlock = Unlock::new(&lock);
    assert_eq!(lock.locked().identifier, unlock.locked().identifier);
    assert_eq!(lock.amount(), 25);
}

#[test]
fn lock_renders_deposit_statement() {
    let action = Action::Lock(Lock::new(25, holding(4)));
    assert_eq!(
        action.render(),
        "LibraCoin.deposit(&mut move(contract_ref).v_4, LibraAccount.withdraw_from_sender(25));"
    );
}

#[test]
fn unlock_renders_release_statement() {
    let lock = Lock::new(25, holding(4));
    let action = Action::Unlock(Unlock::new(&lock));
    assert_eq!(
        action.render(),
        "LibraAccount.deposit(copy(counterparty), move(v_4));"
    );
}

#[test]
fn spawn_and_push_render_context_statements() {
    let context = Variable::new(Identifier::Generated(9), Kind::Context);
    let spawn = Action::Spawn(Spawn::new(context.clone(), Expression::Unsigned(3)));
    assert_eq!(
        spawn.render(),
        "v_9 = Context { state: 3, holder: copy(holder), counterparty: copy(counterparty), \
         scale: *(&copy(context_ref).scale) };"
    );
    let push = Action::PushContext(PushContext::new(context));
    assert_eq!(
        push.render(),
        "Vector.push_back<Self.Context>(copy(contexts), move(v_9));"
    );
}

#[test]
fn escrow_actions_depend_on_ledger_modules() {
    let lock = Action::Lock(Lock::new(1, holding(0)));
    assert_eq!(
        lock.dependencies(),
        vec!["0x0.LibraAccount", "0x0.LibraCoin"]
    );
    let context = Variable::new(Identifier::Generated(1), Kind::Context);
    let push = Action::PushContext(PushContext::new(context));
    assert_eq!(push.dependencies(), Vec::<&'static str>::new());
}

#[test]
fn lock_exposes_holding_as_property() {
    let lock = Action::Lock(Lock::new(1, holding(2)));
    let properties = lock.properties();
    assert_eq!(properties.len(), 1);
    assert_eq!(properties[0].identifier, Identifier::Generated(2));
    assert!(lock.definitions().is_empty());
}

#[test]
fn spawn_defines_its_context() {
    let context = Variable::new(Identifier::Generated(7), Kind::Context);
    let spawn = Action::Spawn(Spawn::new(context.clone(), Expression::Unsigned(1)));
    let defined = spawn.definitions();
    assert_eq!(defined.len(), 1);
    assert_eq!(defined[0].identifier, Identifier::Generated(7));
    // The push that consumes the context introduces nothing of its own.
    let push = Action::PushContext(PushContext::new(context));
    assert!(push.definitions().is_empty());
}

#[test]
fn identifiers_render_with_disjoint_prefixes() {
    assert_eq!(Identifier::Generated(12).render(), "v_12");
    assert_eq!(Identifier::Prefixed(String::from("holder")).render(), "u_holder");
}

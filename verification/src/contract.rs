//! The in-memory representation of the generated program: an ordered
//! collection of methods, each holding an ordered action list, and the
//! code generation that linearizes them into target-language text.

use vstd::prelude::*;

use crate::action::{spec_render_action, Action, ActionV};
use crate::jog::{
    spec_render_identifier, spec_type_text, Identifier, IdentifierV, Variable, VariableV,
};

verus! {

/// The spec-level image of a [`Method`].
#[verifier::ext_equal]
pub struct MethodV {
    pub name: IdentifierV,
    pub public: bool,
    pub arguments: Seq<VariableV>,
    pub result: Option<VariableV>,
    pub actions: Seq<ActionV>,
}

/// One method of the generated program: its name, visibility, ordered
/// argument list, optional result variable, and ordered action list.
#[derive(Debug)]
pub struct Method {
    pub name: Identifier,
    pub public: bool,
    pub arguments: Vec<Variable>,
    pub result: Option<Variable>,
    pub actions: Vec<Action>,
}

impl View for Method {
    type V = MethodV;

    open spec fn view(&self) -> MethodV {
        MethodV {
            name: self.name@,
            public: self.public,
            arguments: self.arguments@.map_values(|v: Variable| v@),
            result: match &self.result {
                Some(v) => Some(v@),
                None => None,
            },
            actions: self.actions@.map_values(|a: Action| a@),
        }
    }
}

impl Method {
    /// A private method with no arguments, result or actions yet.
    pub fn private(name: Identifier) -> (r: Method)
        ensures
            r@ == (MethodV {
                name: name@,
                public: false,
                arguments: Seq::empty(),
                result: None,
                actions: Seq::empty(),
            }),
    {
        let r = Method { name, public: false, arguments: Vec::new(), result: None, actions: Vec::new() };
        proof {
            assert(r@.arguments =~= Seq::<VariableV>::empty());
            assert(r@.actions =~= Seq::<ActionV>::empty());
        }
        r
    }

    /// Replace the argument list.
    pub fn set_arguments(&mut self, arguments: Vec<Variable>)
        ensures
            final(self)@ == (MethodV {
                arguments: arguments@.map_values(|v: Variable| v@),
                ..old(self)@
            }),
    {
        self.arguments = arguments;
    }

    /// Attach the result variable.
    pub fn set_result(&mut self, result: Option<Variable>)
        ensures
            final(self)@ == (MethodV {
                result: match result {
                    Some(v) => Some(v@),
                    None => None,
                },
                ..old(self)@
            }),
    {
        self.result = result;
    }
}

/// The spec-level image of a [`Contract`].
#[verifier::ext_equal]
pub struct ContractV {
    pub methods: Seq<MethodV>,
}

/// The generated program: its methods, in insertion order. Insertion
/// order is declaration order and is significant, since later methods are
/// not guaranteed forward-visible in the target language.
#[derive(Debug)]
pub struct Contract {
    pub methods: Vec<Method>,
}

impl View for Contract {
    type V = ContractV;

    open spec fn view(&self) -> ContractV {
        ContractV { methods: self.methods@.map_values(|m: Method| m@) }
    }
}

impl Contract {
    /// An empty program.
    pub fn new() -> (r: Contract)
        ensures
            r@.methods == Seq::<MethodV>::empty(),
    {
        let r = Contract { methods: Vec::new() };
        proof {
            assert(r@.methods =~= Seq::<MethodV>::empty());
        }
        r
    }

    /// Append a completed method.
    pub fn add_method(&mut self, method: Method)
        ensures
            final(self)@.methods == old(self)@.methods.push(method@),
    {
        let ghost m = method@;
        self.methods.push(method);
        proof {
            assert(self@.methods =~= old(self)@.methods.push(m));
        }
    }
}

/// The action uses the currency and account modules of the ledger.
pub open spec fn is_libra_action(a: ActionV) -> bool {
    match a {
        ActionV::Lock { .. } => true,
        ActionV::Unlock { .. } => true,
        _ => false,
    }
}

/// Some action of the program needs the ledger's currency and account
/// modules imported.
pub open spec fn spec_needs_libra(c: ContractV) -> bool {
    exists|i: int, j: int|
        0 <= i < c.methods.len() && 0 <= j < c.methods[i].actions.len() && is_libra_action(
            c.methods[i].actions[j],
        )
}

/// The deduplicated import section, in lexicographic order. Every action
/// that has dependencies at all has exactly this sorted pair.
pub open spec fn spec_render_imports(c: ContractV) -> Seq<char> {
    if spec_needs_libra(c) {
        "import 0x0.LibraAccount;\nimport 0x0.LibraCoin;\n"@
    } else {
        Seq::empty()
    }
}

/// The declaration text of one variable: its name and its type.
pub open spec fn spec_render_variable(v: VariableV) -> Seq<char> {
    spec_render_identifier(v.identifier) + ": "@ + spec_type_text(v.kind)
}

/// The argument list of a method from index `i` on, comma-separated.
pub open spec fn spec_render_args_from(args: Seq<VariableV>, i: int) -> Seq<char>
    decreases args.len() - i,
{
    if i < 0 || i >= args.len() {
        Seq::empty()
    } else if i == args.len() - 1 {
        spec_render_variable(args[i])
    } else {
        spec_render_variable(args[i]) + ", "@ + spec_render_args_from(args, i + 1)
    }
}

/// The statements of a method from index `i` on, one indented line each.
pub open spec fn spec_render_actions_from(actions: Seq<ActionV>, i: int) -> Seq<char>
    decreases actions.len() - i,
{
    if i < 0 || i >= actions.len() {
        Seq::empty()
    } else {
        "    "@ + spec_render_action(actions[i]) + "\n"@ + spec_render_actions_from(actions, i + 1)
    }
}

/// The result type of a method's signature, present exactly when it
/// has a result.
pub open spec fn spec_render_result_type(result: Option<VariableV>) -> Seq<char> {
    match result {
        Some(v) => ": "@ + spec_type_text(v.kind),
        None => Seq::empty(),
    }
}

/// The return line of a method, present exactly when it has a result.
pub open spec fn spec_render_result(result: Option<VariableV>) -> Seq<char> {
    match result {
        Some(v) => "    return move("@ + spec_render_identifier(v.identifier) + ");\n"@,
        None => Seq::empty(),
    }
}

/// The full text of one method: signature, statements in the order they
/// were appended during lowering, the return line, and a closing line.
pub open spec fn spec_render_method(m: MethodV) -> Seq<char> {
    (if m.public {
        "public "@
    } else {
        ""@
    }) + spec_render_identifier(m.name) + "("@ + spec_render_args_from(m.arguments, 0) + ")"@
        + spec_render_result_type(m.result) + " {\n"@ + spec_render_actions_from(m.actions, 0)
        + spec_render_result(m.result) + "}\n"@
}

/// The methods of the program from index `i` on, in insertion order.
pub open spec fn spec_render_methods_from(methods: Seq<MethodV>, i: int) -> Seq<char>
    decreases methods.len() - i,
{
    if i < 0 || i >= methods.len() {
        Seq::empty()
    } else {
        spec_render_method(methods[i]) + spec_render_methods_from(methods, i + 1)
    }
}

/// The full rendered program: the import section, then each method.
pub open spec fn spec_render_contract(c: ContractV) -> Seq<char> {
    spec_render_imports(c) + spec_render_methods_from(c.methods, 0)
}

impl Method {
    /// Render this method.
    pub fn render(&self) -> (r: String)
        ensures
            r@ == spec_render_method(self@),
    {
        let mut r: String;
        if self.public {
            r = String::from_str("public ");
        } else {
            r = String::from_str("");
        }
        let name = self.name.render();
        r.append(name.as_str());
        r.append("(");
        let n = self.arguments.len();
        let mut i: usize = 0;
        while i < n
            invariant
                n == self.arguments.len(),
                i <= n,
                r@ + spec_render_args_from(self@.arguments, i as int) == (if self@.public {
                    "public "@
                } else {
                    ""@
                }) + spec_render_identifier(self@.name) + "("@ + spec_render_args_from(
                    self@.arguments,
                    0,
                ),
            decreases n - i,
        {
            let v = &self.arguments[i];
            let id = v.identifier.render();
            r.append(id.as_str());
            r.append(": ");
            let t = v.kind.type_text();
            r.append(t);
            if i < n - 1 {
                r.append(", ");
            }
            proof {
                assert(self@.arguments[i as int] == self.arguments@[i as int]@);
            }
            i += 1;
        }
        r.append(")");
        match &self.result {
            Some(v) => {
                r.append(": ");
                let t = v.kind.type_text();
                r.append(t);
            },
            None => {},
        }
        r.append(" {\n");
        let m = self.actions.len();
        let mut j: usize = 0;
        let ghost before_actions = r@;
        while j < m
            invariant
                m == self.actions.len(),
                j <= m,
                r@ + spec_render_actions_from(self@.actions, j as int) == before_actions
                    + spec_render_actions_from(self@.actions, 0),
            decreases m - j,
        {
            r.append("    ");
            let a = self.actions[j].render();
            r.append(a.as_str());
            r.append("\n");
            proof {
                assert(self@.actions[j as int] == self.actions@[j as int]@);
            }
            j += 1;
        }
        match &self.result {
            Some(v) => {
                r.append("    return move(");
                let id = v.identifier.render();
                r.append(id.as_str());
                r.append(");\n");
            },
            None => {},
        }
        r.append("}\n");
        r
    }
}

impl Contract {
    /// Does some action of this program need the ledger modules?
    fn needs_libra(&self) -> (r: bool)
        ensures
            r == spec_needs_libra(self@),
    {
        let n = self.methods.len();
        let mut i: usize = 0;
        while i < n
            invariant
                n == self.methods.len(),
                i <= n,
                forall|a: int, b: int|
                    0 <= a < i && 0 <= b < self@.methods[a].actions.len() ==> !is_libra_action(
                        self@.methods[a].actions[b],
                    ),
            decreases n - i,
        {
            let m = self.methods[i].actions.len();
            let mut j: usize = 0;
            while j < m
                invariant
                    i < n,
                    n == self.methods.len(),
                    m == self.methods[i as int].actions.len(),
                    j <= m,
                    forall|b: int|
                        0 <= b < j ==> !is_libra_action(self@.methods[i as int].actions[b]),
                decreases m - j,
            {
                let found = match &self.methods[i].actions[j] {
                    Action::Lock(_) => true,
                    Action::Unlock(_) => true,
                    _ => false,
                };
                if found {
                    proof {
                        assert(self@.methods[i as int].actions[j as int] == self.methods@[
                            i as int
                        ].actions@[j as int]@);
                        assert(is_libra_action(self@.methods[i as int].actions[j as int]));
                    }
                    return true;
                }
                proof {
                    assert(self@.methods[i as int].actions[j as int] == self.methods@[
                        i as int
                    ].actions@[j as int]@);
                }
                j += 1;
            }
            i += 1;
        }
        false
    }

    /// Render the whole program: the deduplicated, ordered import section,
    /// then every method in insertion order.
    pub fn render(&self) -> (r: String)
        ensures
            r@ == spec_render_contract(self@),
    {
        let mut r: String;
        if self.needs_libra() {
            r = String::from_str("import 0x0.LibraAccount;\nimport 0x0.LibraCoin;\n");
        } else {
            r = String::from_str("");
            proof {
                reveal_strlit("");
                assert(r@ =~= Seq::<char>::empty());
            }
        }
        let n = self.methods.len();
        let mut i: usize = 0;
        while i < n
            invariant
                n == self.methods.len(),
                i <= n,
                r@ + spec_render_methods_from(self@.methods, i as int) == spec_render_imports(self@)
                    + spec_render_methods_from(self@.methods, 0),
            decreases n - i,
        {
            let t = self.methods[i].render();
            r.append(t.as_str());
            proof {
                assert(self@.methods[i as int] == self.methods@[i as int]@);
            }
            i += 1;
        }
        r
    }
}

} // verus!

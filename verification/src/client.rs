//! The decision logic of the account commands: alias dispatch, parameter
//! validation, and the exact text of the messages they print. Reading
//! the console and talking to the ledger stay outside the library; the
//! callers hand in plain values and print the returned text.

use vstd::prelude::*;

use crate::jog::spec_dec;

verus! {

/// What a dispatch over a subcommand table decides: run the command at
/// an index, or print the help text.
#[derive(Debug, PartialEq, Eq, Clone, Copy)]
pub enum Dispatch {
    Help,
    Run(usize),
}

/// The word is one of the aliases of command `i`.
pub open spec fn alias_matches(aliases: Seq<Seq<Seq<char>>>, i: int, word: Seq<char>) -> bool {
    exists|j: int| 0 <= j < aliases[i].len() && aliases[i][j] == word
}

/// No alias belongs to two entries of the table.
pub open spec fn aliases_distinct(aliases: Seq<Seq<Seq<char>>>) -> bool {
    forall|i1: int, j1: int, i2: int, j2: int|
        0 <= i1 < aliases.len() && 0 <= j1 < aliases[i1].len() && 0 <= i2 < aliases.len() && 0
            <= j2 < aliases[i2].len() && (i1 != i2 || j1 != j2) ==> #[trigger] aliases[i1][j1]
            != #[trigger] aliases[i2][j2]
}

/// Decide which subcommand the parameters select. With no parameters,
/// or a first parameter that is no alias of any command, the decision is
/// the help text; otherwise it is the one command owning that alias.
/// Duplicate aliases are a programming error in the command table and
/// are excluded up front.
pub fn subcommand_execute(commands: &Vec<Vec<String>>, params: &Vec<String>) -> (r: Dispatch)
    requires
        aliases_distinct(commands.deep_view()),
    ensures
        params@.len() == 0 ==> r == Dispatch::Help,
        params@.len() > 0 ==> match r {
            Dispatch::Run(i) => i < commands@.len() && alias_matches(
                commands.deep_view(),
                i as int,
                params@[0]@,
            ),
            Dispatch::Help => forall|i: int|
                0 <= i < commands@.len() ==> !alias_matches(
                    commands.deep_view(),
                    i,
                    params@[0]@,
                ),
        },
{
    if params.len() == 0 {
        return Dispatch::Help;
    }
    let word = &params[0];
    let n = commands.len();
    let mut i: usize = 0;
    while i < n
        invariant
            n == commands@.len(),
            i <= n,
            params@.len() > 0,
            word == &params[0],
            forall|k: int| 0 <= k < i ==> !alias_matches(commands.deep_view(), k, params@[0]@),
        decreases n - i,
    {
        let m = commands[i].len();
        let mut j: usize = 0;
        while j < m
            invariant
                i < n,
                n == commands@.len(),
                m == commands@[i as int]@.len(),
                j <= m,
                params@.len() > 0,
                word == &params[0],
                forall|l: int|
                    0 <= l < j ==> commands.deep_view()[i as int][l] != params@[0]@,
            decreases m - j,
        {
            if commands[i][j].eq(word) {
                proof {
                    assert(commands.deep_view()[i as int][j as int] == commands@[i as int]@[
                        j as int
                    ]@);
                    assert(alias_matches(commands.deep_view(), i as int, params@[0]@));
                }
                return Dispatch::Run(i);
            }
            proof {
                assert(commands.deep_view()[i as int][j as int] == commands@[i as int]@[j as int]@);
            }
            j += 1;
        }
        proof {
            assert forall|l: int| 0 <= l < commands.deep_view()[i as int].len() implies commands
                .deep_view()[i as int][l] != params@[0]@ by {}
        }
        i += 1;
    }
    Dispatch::Help
}

/// The lowercase hexadecimal digit of a value below sixteen.
pub open spec fn spec_hex_digit(d: int) -> char {
    if d == 0 {
        '0'
    } else if d == 1 {
        '1'
    } else if d == 2 {
        '2'
    } else if d == 3 {
        '3'
    } else if d == 4 {
        '4'
    } else if d == 5 {
        '5'
    } else if d == 6 {
        '6'
    } else if d == 7 {
        '7'
    } else if d == 8 {
        '8'
    } else if d == 9 {
        '9'
    } else if d == 10 {
        'a'
    } else if d == 11 {
        'b'
    } else if d == 12 {
        'c'
    } else if d == 13 {
        'd'
    } else if d == 14 {
        'e'
    } else {
        'f'
    }
}

/// The lowercase hexadecimal rendering of a byte string: two digits per
/// byte, high-order digit first.
pub open spec fn spec_hex(bytes: Seq<u8>) -> Seq<char> {
    Seq::new(
        bytes.len() * 2,
        |i: int|
            if i % 2 == 0 {
                spec_hex_digit(bytes[i / 2] as int / 16)
            } else {
                spec_hex_digit(bytes[i / 2] as int % 16)
            },
    )
}

/// Relies on hex::encode: two lowercase hexadecimal digits per byte,
/// high-order digit first.
#[verifier::external_body]
fn encode_hex(bytes: &Vec<u8>) -> (r: String)
    ensures
        r@ == spec_hex(bytes@),
{
    hex::encode(bytes)
}

/// The message reporting a created or retrieved account: its wallet
/// index and its address in lowercase hexadecimal.
pub fn created_account_message(index: u64, address: &Vec<u8>) -> (r: String)
    ensures
        r@ == "Created/retrieved account #"@ + spec_dec(index as int) + " address "@ + spec_hex(
            address@,
        ),
{
    let mut r = String::from_str("Created/retrieved account #");
    let idx = crate::jog::u64_string(index);
    r.append(idx.as_str());
    r.append(" address ");
    let addr = encode_hex(address);
    r.append(addr.as_str());
    r
}

/// The help entry of one subcommand: its aliases, its parameter hint,
/// and its description.
#[derive(Debug)]
pub struct CommandHelp {
    pub aliases: Vec<String>,
    pub params_help: String,
    pub description: String,
}

/// The spec-level image of a [`CommandHelp`].
pub struct CommandHelpV {
    pub aliases: Seq<Seq<char>>,
    pub params_help: Seq<char>,
    pub description: Seq<char>,
}

impl View for CommandHelp {
    type V = CommandHelpV;

    open spec fn view(&self) -> CommandHelpV {
        CommandHelpV {
            aliases: self.aliases@.map_values(|a: String| a@),
            params_help: self.params_help@,
            description: self.description@,
        }
    }
}

/// The aliases from index `i` on, separated by vertical bars.
pub open spec fn spec_join_aliases(aliases: Seq<Seq<char>>, i: int) -> Seq<char>
    decreases aliases.len() - i,
{
    if i < 0 || i >= aliases.len() {
        Seq::empty()
    } else if i == aliases.len() - 1 {
        aliases[i]
    } else {
        aliases[i] + " | "@ + spec_join_aliases(aliases, i + 1)
    }
}

/// The help line of one subcommand.
pub open spec fn spec_help_line(c: CommandHelpV) -> Seq<char> {
    spec_join_aliases(c.aliases, 0) + " "@ + c.params_help + "\n\t"@ + c.description + "\n"@
}

/// The help lines of the subcommands from index `i` on.
pub open spec fn spec_help_lines(commands: Seq<CommandHelpV>, i: int) -> Seq<char>
    decreases commands.len() - i,
{
    if i < 0 || i >= commands.len() {
        Seq::empty()
    } else {
        spec_help_line(commands[i]) + spec_help_lines(commands, i + 1)
    }
}

/// The whole help text of a command with subcommands.
pub open spec fn spec_help_message(parent: Seq<char>, commands: Seq<CommandHelpV>) -> Seq<char> {
    "usage: "@ + parent + " <arg>\n\nUse the following args for this command:\n\n"@
        + spec_help_lines(commands, 0) + "\n\n"@
}

/// The help text printed when a command is called without a valid
/// subcommand: the usage line, then one line per subcommand with its
/// aliases, parameters and description.
pub fn print_subcommand_help(parent_command: &str, commands: &Vec<CommandHelp>) -> (r: String)
    ensures
        r@ == spec_help_message(parent_command@, commands@.map_values(|c: CommandHelp| c@)),
{
    let mut r = String::from_str("usage: ");
    r.append(parent_command);
    r.append(" <arg>\n\nUse the following args for this command:\n\n");
    let ghost mapped = commands@.map_values(|c: CommandHelp| c@);
    let ghost head = r@;
    let n = commands.len();
    let mut i: usize = 0;
    while i < n
        invariant
            n == commands@.len(),
            i <= n,
            r@ + spec_help_lines(mapped, i as int) == head + spec_help_lines(mapped, 0),
            mapped == commands@.map_values(|c: CommandHelp| c@),
        decreases n - i,
    {
        let c = &commands[i];
        let m = c.aliases.len();
        let ghost before_line = r@;
        let mut j: usize = 0;
        while j < m
            invariant
                i < n,
                n == commands@.len(),
                c == &commands[i as int],
                m == c.aliases@.len(),
                j <= m,
                r@ + spec_join_aliases(c@.aliases, j as int) == before_line + spec_join_aliases(
                    c@.aliases,
                    0,
                ),
            decreases m - j,
        {
            r.append(c.aliases[j].as_str());
            if j < m - 1 {
                r.append(" | ");
            }
            proof {
                assert(c@.aliases[j as int] == c.aliases@[j as int]@);
            }
            j += 1;
        }
        r.append(" ");
        r.append(c.params_help.as_str());
        r.append("\n\t");
        r.append(c.description.as_str());
        r.append("\n");
        proof {
            assert(mapped[i as int] == commands@[i as int]@);
        }
        i += 1;
    }
    r.append("\n\n");
    r
}

/// The message printed when a mint call is given the wrong number of
/// parameters.
pub fn invalid_mint_params_message() -> (r: &'static str)
    ensures
        r@ == "Invalid number of arguments for mint"@,
{
    "Invalid number of arguments for mint"
}

/// The message printed when a balance query is given the wrong number of
/// parameters.
pub fn invalid_balance_params_message() -> (r: &'static str)
    ensures
        r@ == "Invalid number of arguments for balance query"@,
{
    "Invalid number of arguments for balance query"
}

/// Account operations as a whole.
#[derive(Debug)]
pub struct AccountCommand {}

/// Create an account in the wallet.
#[derive(Debug)]
pub struct AccountCommandCreate {}

/// List every account that was created or loaded.
#[derive(Debug)]
pub struct AccountCommandListAccounts {}

/// Mint coins to an account.
#[derive(Debug)]
pub struct AccountCommandMint {}

/// Query the balance of an account.
#[derive(Debug)]
pub struct AccountCommandGetBalance {}

impl AccountCommand {
    /// The words that select this command.
    pub fn get_aliases(&self) -> (r: Vec<&'static str>)
        ensures
            r@.len() == 2,
            r@[0]@ == "account"@,
            r@[1]@ == "a"@,
    {
        let r = vec!["account", "a"];
        r
    }

    /// What this command does.
    pub fn get_description(&self) -> (r: &'static str)
        ensures
            r@ == "Account operations"@,
    {
        "Account operations"
    }
}

impl AccountCommandCreate {
    /// The words that select this subcommand.
    pub fn get_aliases(&self) -> (r: Vec<&'static str>)
        ensures
            r@.len() == 2,
            r@[0]@ == "create"@,
            r@[1]@ == "c"@,
    {
        let r = vec!["create", "c"];
        r
    }

    /// What this subcommand does.
    pub fn get_description(&self) -> (r: &'static str)
        ensures
            r@ == "Create an account. Returns reference ID to use in other operations"@,
    {
        "Create an account. Returns reference ID to use in other operations"
    }
}

impl AccountCommandListAccounts {
    /// The words that select this subcommand.
    pub fn get_aliases(&self) -> (r: Vec<&'static str>)
        ensures
            r@.len() == 2,
            r@[0]@ == "list"@,
            r@[1]@ == "ls"@,
    {
        let r = vec!["list", "ls"];
        r
    }

    /// What this subcommand does.
    pub fn get_description(&self) -> (r: &'static str)
        ensures
            r@ == "Print all accounts that were created or loaded"@,
    {
        "Print all accounts that were created or loaded"
    }
}

impl AccountCommandMint {
    /// The words that select this subcommand.
    pub fn get_aliases(&self) -> (r: Vec<&'static str>)
        ensures
            r@.len() == 2,
            r@[0]@ == "mint"@,
            r@[1]@ == "m"@,
    {
        let r = vec!["mint", "m"];
        r
    }

    /// The parameters this subcommand takes.
    pub fn get_params_help(&self) -> (r: &'static str)
        ensures
            r@ == "<receiver_account_ref_id>|<receiver_account_address> <number_of_coins>"@,
    {
        "<receiver_account_ref_id>|<receiver_account_address> <number_of_coins>"
    }

    /// What this subcommand does.
    pub fn get_description(&self) -> (r: &'static str)
        ensures
            r@ == "Mint coins to the account. Suffix 'b' is for blocking"@,
    {
        "Mint coins to the account. Suffix 'b' is for blocking"
    }

    /// A mint call takes the subcommand word, the receiver and the
    /// amount.
    pub fn params_valid(&self, params: &Vec<String>) -> (r: bool)
        ensures
            r == (params@.len() == 3),
    {
        params.len() == 3
    }
}

impl AccountCommandGetBalance {
    /// The words that select this subcommand.
    pub fn get_aliases(&self) -> (r: Vec<&'static str>)
        ensures
            r@.len() == 2,
            r@[0]@ == "balance"@,
            r@[1]@ == "b"@,
    {
        let r = vec!["balance", "b"];
        r
    }

    /// The parameters this subcommand takes.
    pub fn get_params_help(&self) -> (r: &'static str)
        ensures
            r@ == "<account_ref_id>|<account_address>"@,
    {
        "<account_ref_id>|<account_address>"
    }

    /// What this subcommand does.
    pub fn get_description(&self) -> (r: &'static str)
        ensures
            r@ == "Get the current balance of an account"@,
    {
        "Get the current balance of an account"
    }

    /// A balance query takes the subcommand word and the account.
    pub fn params_valid(&self, params: &Vec<String>) -> (r: bool)
        ensures
            r == (params@.len() == 2),
    {
        params.len() == 2
    }
}

} // verus!

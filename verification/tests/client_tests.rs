use sprint::client::{
    created_account_message, print_subcommand_help, subcommand_execute, AccountCommand,
    AccountCommandCreate, AccountCommandGetBalance, AccountCommandListAccounts,
    AccountCommandMint, CommandHelp, Dispatch,
};

fn account_subcommand_aliases() -> Vec<Vec<String>> {
    let tables = vec![
        AccountCommandCreate {}.get_aliases(),
        AccountCommandListAccounts {}.get_aliases(),
        AccountCommandGetBalance {}.get_aliases(),
        AccountCommandMint {}.get_aliases(),
    ];
    tables
        .into_iter()
        .map(|t| t.into_iter().map(String::from).collect())
        .collect()
}

fn params(words: &[&str]) -> Vec<String> {
    words.iter().map(|w| String::from(*w)).collect()
}

#[test]
fn dispatch_finds_the_aliased_subcommand() {
    let commands = account_subcommand_aliases();
    assert_eq!(
        subcommand_execute(&commands, &params(&["mint", "0", "100"])),
        Dispatch::Run(3)
    );
    assert_eq!(subcommand_execute(&commands, &params(&["m"])), Dispatch::Run(3));
    assert_eq!(subcommand_execute(&commands, &params(&["create"])), Dispatch::Run(0));
    assert_eq!(subcommand_execute(&commands, &params(&["ls"])), Dispatch::Run(1));
    assert_eq!(subcommand_execute(&commands, &params(&["b", "0"])), Dispatch::Run(2));
}

#[test]
fn dispatch_falls_back_to_help() {
    let commands = account_subcommand_aliases();
    assert_eq!(subcommand_execute(&commands, &params(&[])), Dispatch::Help);
    assert_eq!(subcommand_execute(&commands, &params(&["bogus"])), Dispatch::Help);
}

#[test]
fn account_command_aliases() {
    assert_eq!(AccountCommand {}.get_aliases(), vec!["account", "a"]);
    assert_eq!(AccountCommand {}.get_description(), "Account operations");
}

#[test]
fn parameter_counts_are_checked() {
    let mint = AccountCommandMint {};
    assert!(mint.params_valid(&params(&["mint", "0", "100"])));
    assert!(!mint.params_valid(&params(&["mint", "0"])));
    let balance = AccountCommandGetBalance {};
    assert!(balance.params_valid(&params(&["balance", "0"])));
    assert!(!balance.params_valid(&params(&["balance"])));
}

#[test]
fn created_account_message_encodes_address() {
    // Two lowercase hexadecimal digits per byte, high-order digit first.
    let message = created_account_message(3, &vec![0xab, 0x0f, 0x00]);
    assert_eq!(message, "Created/retrieved account #3 address ab0f00");
}

#[test]
fn help_message_lists_every_subcommand() {
    let commands = vec![
        CommandHelp {
            aliases: vec![String::from("create"), String::from("c")],
            params_help: String::new(),
            description: String::from("Create an account. Returns reference ID to use in other operations"),
        },
        CommandHelp {
            aliases: vec![String::from("mint"), String::from("m")],
            params_help: String::from(
                "<receiver_account_ref_id>|<receiver_account_address> <number_of_coins>",
            ),
            description: String::from("Mint coins to the account. Suffix 'b' is for blocking"),
        },
    ];
    let text = print_subcommand_help("account", &commands);
    assert_eq!(
        text,
        "usage: account <arg>\n\nUse the following args for this command:\n\n\
         create | c \n\tCreate an account. Returns reference ID to use in other operations\n\
         mint | m <receiver_account_ref_id>|<receiver_account_address> <number_of_coins>\n\t\
         Mint coins to the account. Suffix 'b' is for blocking\n\n\n"
    );
}

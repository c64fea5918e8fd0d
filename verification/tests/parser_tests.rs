use sprint::ast::Contract;
use sprint::parser::{contract, one, parse, zero, Expected, ParseError};

fn parse_contract_ok(input: &str, expected: (&str, Contract)) {
    let (c, pos) = contract(input, 0).expect("input should parse");
    let rest: String = input.chars().skip(pos).collect();
    assert_eq!(rest.as_str(), expected.0);
    assert_eq!(c, expected.1);
}

fn parse_contract_err(input: &str) {
    assert!(contract(input, 0).is_err());
}

#[test]
fn parse_contract_with_padding_and_brackets() {
    parse_contract_ok(" (zero) ", ("", Contract::Zero));
    parse_contract_ok("( zero )", ("", Contract::Zero));
    parse_contract_ok(" ( zero ) ", ("", Contract::Zero));
    parse_contract_ok(" ( (zero) ) ", ("", Contract::Zero));
    parse_contract_ok(" ( (zero))", ("", Contract::Zero));
}

#[test]
fn parse_zero() {
    parse_contract_ok("zero", ("", Contract::Zero));
}

#[test]
fn parse_one() {
    parse_contract_ok("one", ("", Contract::One));
}

#[test]
fn parse_two() {
    parse_contract_err("two");
}

#[test]
fn parse_give() {
    assert_eq!(
        contract("give(zero)", 0),
        Ok((Contract::Give(Box::new(Contract::Zero)), 10))
    );
    assert_eq!(
        contract("give zero", 0),
        Ok((Contract::Give(Box::new(Contract::Zero)), 9))
    );
    assert_eq!(
        contract("give(one)", 0),
        Ok((Contract::Give(Box::new(Contract::One)), 9))
    );
    assert_eq!(
        contract("give one", 0),
        Ok((Contract::Give(Box::new(Contract::One)), 8))
    );
    assert_eq!(
        contract("give(give(one))", 0),
        Ok((
            Contract::Give(Box::new(Contract::Give(Box::new(Contract::One)))),
            15
        ))
    );
    assert_eq!(
        contract("give(give(zero))", 0),
        Ok((
            Contract::Give(Box::new(Contract::Give(Box::new(Contract::Zero)))),
            16
        ))
    );
}

#[test]
fn parse_reports_offset_and_expectation() {
    // An unknown keyword fails where it begins, after the padding.
    assert_eq!(
        parse("  two"),
        Err(ParseError {
            offset: 2,
            expected: Expected::Contract,
        })
    );
    // An unmatched bracket fails at the end, expecting the closing bracket.
    assert_eq!(
        parse("(zero"),
        Err(ParseError {
            offset: 5,
            expected: Expected::CloseBracket,
        })
    );
    // Empty input fails at offset zero.
    assert_eq!(
        parse(""),
        Err(ParseError {
            offset: 0,
            expected: Expected::Contract,
        })
    );
}

#[test]
fn parse_leaves_remaining_input() {
    // The parser consumes one contract and reports where the rest begins.
    let (c, pos) = parse("one two").expect("input should parse");
    assert_eq!(c, Contract::One);
    assert_eq!(pos, 4);
}

#[test]
fn productions_consume_exactly_their_keyword() {
    // The standalone productions leave trailing padding to the contract
    // combinator.
    assert_eq!(zero("zero ", 0), Ok((Contract::Zero, 4)));
    assert_eq!(one("one ", 0), Ok((Contract::One, 3)));
    // The combinator itself consumes the padding.
    assert_eq!(contract("zero ", 0), Ok((Contract::Zero, 5)));
    assert_eq!(contract("one ", 0), Ok((Contract::One, 4)));
}

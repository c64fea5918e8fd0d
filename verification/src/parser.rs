//! A recursive-descent parser for the contract algebra.
//!
//! The grammar accepts arbitrary padding between any two tokens and
//! optional brackets around any sub-contract:
//!
//! ```text
//! contract := '(' contract ')' | "zero" | "one" | "give" contract
//! ```
//!
//! The whole grammar is stated by the specification functions
//! [`spec_contract`], [`spec_zero`], [`spec_one`] and [`spec_give`]; every
//! executable parser returns exactly what the corresponding specification
//! function says, including the failure offset and the production expected
//! there.

use vstd::prelude::*;

use crate::ast::Contract;

verus! {

/// The production a failed parse was expecting at its offset.
#[derive(Debug, PartialEq, Eq, Clone, Copy)]
pub enum Expected {
    /// One of the contract productions.
    Contract,
    /// The closing bracket of a bracketed group.
    CloseBracket,
}

/// A structured parse failure: the character offset at which the input
/// stopped matching, and the production expected there.
#[derive(Debug, PartialEq, Eq, Clone, Copy)]
pub struct ParseError {
    pub offset: usize,
    pub expected: Expected,
}

/// The padding characters accepted between any two grammar tokens.
pub open spec fn is_space_char(c: char) -> bool {
    c == ' ' || c == '\t' || c == '\n' || c == '\r'
}

/// Every character of `w` is padding.
pub open spec fn ws_only(w: Seq<char>) -> bool {
    forall|i: int| 0 <= i < w.len() ==> is_space_char(w[i])
}

/// The first position at or after `pos` that holds no padding character.
pub open spec fn spec_skip_ws(s: Seq<char>, pos: int) -> int
    decreases s.len() - pos,
{
    if 0 <= pos < s.len() && is_space_char(s[pos]) {
        spec_skip_ws(s, pos + 1)
    } else {
        pos
    }
}

/// The keyword of the zero contract stands at `pos`.
pub open spec fn matches_zero(s: Seq<char>, pos: int) -> bool {
    &&& 0 <= pos
    &&& pos + 4 <= s.len()
    &&& s[pos] == 'z'
    &&& s[pos + 1] == 'e'
    &&& s[pos + 2] == 'r'
    &&& s[pos + 3] == 'o'
}

/// The keyword of the one contract stands at `pos`.
pub open spec fn matches_one(s: Seq<char>, pos: int) -> bool {
    &&& 0 <= pos
    &&& pos + 3 <= s.len()
    &&& s[pos] == 'o'
    &&& s[pos + 1] == 'n'
    &&& s[pos + 2] == 'e'
}

/// The keyword of the give contract stands at `pos`.
pub open spec fn matches_give(s: Seq<char>, pos: int) -> bool {
    &&& 0 <= pos
    &&& pos + 4 <= s.len()
    &&& s[pos] == 'g'
    &&& s[pos + 1] == 'i'
    &&& s[pos + 2] == 'v'
    &&& s[pos + 3] == 'e'
}

/// What the zero parser returns at `pos`: the zero contract and the
/// position directly after its keyword, or a failure at `pos` itself.
/// The production consumes exactly its keyword; padding around it is
/// the contract combinator's business.
pub open spec fn spec_zero(s: Seq<char>, pos: int) -> Result<(Contract, int), (int, Expected)> {
    if matches_zero(s, pos) {
        Ok((Contract::Zero, pos + 4))
    } else {
        Err((pos, Expected::Contract))
    }
}

/// What the one parser returns at `pos`. Like the zero production, it
/// consumes exactly its keyword.
pub open spec fn spec_one(s: Seq<char>, pos: int) -> Result<(Contract, int), (int, Expected)> {
    if matches_one(s, pos) {
        Ok((Contract::One, pos + 3))
    } else {
        Err((pos, Expected::Contract))
    }
}

/// What the give parser returns at `pos`: its keyword followed by a
/// sub-contract, with or without brackets around it.
pub open spec fn spec_give(s: Seq<char>, pos: int) -> Result<(Contract, int), (int, Expected)>
    decreases s.len() - pos, 0int,
{
    if matches_give(s, pos) {
        match spec_contract(s, pos + 4) {
            Ok((c, q)) => Ok((Contract::Give(Box::new(c)), q)),
            Err(e) => Err(e),
        }
    } else {
        Err((pos, Expected::Contract))
    }
}

/// What the contract parser returns at `pos`: leading padding is skipped,
/// then the alternatives are tried in declared order — a bracketed group,
/// then each keyword, whose leading characters are pairwise disjoint.
pub open spec fn spec_contract(s: Seq<char>, pos: int) -> Result<(Contract, int), (int, Expected)>
    decreases s.len() - pos, 1int,
{
    if pos < 0 || pos >= s.len() {
        Err((pos, Expected::Contract))
    } else if is_space_char(s[pos]) {
        spec_contract(s, pos + 1)
    } else if s[pos] == '(' {
        match spec_contract(s, pos + 1) {
            Ok((c, q)) => {
                let r = spec_skip_ws(s, q);
                if 0 <= r < s.len() && s[r] == ')' {
                    Ok((c, spec_skip_ws(s, r + 1)))
                } else {
                    Err((r, Expected::CloseBracket))
                }
            },
            Err(e) => Err(e),
        }
    } else if matches_zero(s, pos) {
        match spec_zero(s, pos) {
            Ok((c, q)) => Ok((c, spec_skip_ws(s, q))),
            Err(e) => Err(e),
        }
    } else if matches_one(s, pos) {
        match spec_one(s, pos) {
            Ok((c, q)) => Ok((c, spec_skip_ws(s, q))),
            Err(e) => Err(e),
        }
    } else if matches_give(s, pos) {
        spec_give(s, pos)
    } else {
        Err((pos, Expected::Contract))
    }
}

/// The executable result `r` is exactly the specified result `s`.
pub open spec fn res_agrees(
    r: Result<(Contract, usize), ParseError>,
    s: Result<(Contract, int), (int, Expected)>,
) -> bool {
    match (r, s) {
        (Ok((c, q)), Ok((sc, sq))) => c == sc && q as int == sq,
        (Err(e), Err((off, exp))) => e.offset as int == off && e.expected == exp,
        _ => false,
    }
}

/// Is `c` a padding character?
fn is_space(c: char) -> (r: bool)
    ensures
        r == is_space_char(c),
{
    c == ' ' || c == '\t' || c == '\n' || c == '\r'
}

/// Skip padding characters, returning the first offset that holds none.
fn skip_ws(input: &str, pos: usize) -> (r: usize)
    requires
        pos <= input@.len(),
    ensures
        r as int == spec_skip_ws(input@, pos as int),
        pos <= r <= input@.len(),
    decreases input@.len() - pos,
{
    let n = input.unicode_len();
    if pos < n {
        let c = input.get_char(pos);
        if is_space(c) {
            return skip_ws(input, pos + 1);
        }
    }
    pos
}

/// Does the keyword of the zero contract stand at `pos`?
fn check_zero(input: &str, pos: usize) -> (r: bool)
    requires
        pos <= input@.len(),
    ensures
        r == matches_zero(input@, pos as int),
        input@.len() <= usize::MAX,
{
    let n = input.unicode_len();
    n - pos >= 4 && input.get_char(pos) == 'z' && input.get_char(pos + 1) == 'e'
        && input.get_char(pos + 2) == 'r' && input.get_char(pos + 3) == 'o'
}

/// Does the keyword of the one contract stand at `pos`?
fn check_one(input: &str, pos: usize) -> (r: bool)
    requires
        pos <= input@.len(),
    ensures
        r == matches_one(input@, pos as int),
        input@.len() <= usize::MAX,
{
    let n = input.unicode_len();
    n - pos >= 3 && input.get_char(pos) == 'o' && input.get_char(pos + 1) == 'n'
        && input.get_char(pos + 2) == 'e'
}

/// Does the keyword of the give contract stand at `pos`?
fn check_give(input: &str, pos: usize) -> (r: bool)
    requires
        pos <= input@.len(),
    ensures
        r == matches_give(input@, pos as int),
        input@.len() <= usize::MAX,
{
    let n = input.unicode_len();
    n - pos >= 4 && input.get_char(pos) == 'g' && input.get_char(pos + 1) == 'i'
        && input.get_char(pos + 2) == 'v' && input.get_char(pos + 3) == 'e'
}

/// Parse the zero contract at `pos`: exactly its keyword.
pub fn zero(input: &str, pos: usize) -> (r: Result<(Contract, usize), ParseError>)
    requires
        pos <= input@.len(),
    ensures
        res_agrees(r, spec_zero(input@, pos as int)),
        r matches Ok((c, q)) ==> q <= input@.len(),
{
    if check_zero(input, pos) {
        Ok((Contract::Zero, pos + 4))
    } else {
        Err(ParseError { offset: pos, expected: Expected::Contract })
    }
}

/// Parse the one contract at `pos`: exactly its keyword.
pub fn one(input: &str, pos: usize) -> (r: Result<(Contract, usize), ParseError>)
    requires
        pos <= input@.len(),
    ensures
        res_agrees(r, spec_one(input@, pos as int)),
        r matches Ok((c, q)) ==> q <= input@.len(),
{
    if check_one(input, pos) {
        Ok((Contract::One, pos + 3))
    } else {
        Err(ParseError { offset: pos, expected: Expected::Contract })
    }
}

/// Parse the give contract at `pos`: its keyword, then a sub-contract,
/// with or without brackets around it.
pub fn give(input: &str, pos: usize) -> (r: Result<(Contract, usize), ParseError>)
    requires
        pos <= input@.len(),
    ensures
        res_agrees(r, spec_give(input@, pos as int)),
        r matches Ok((c, q)) ==> q <= input@.len(),
    decreases input@.len() - pos, 0int,
{
    if check_give(input, pos) {
        match contract(input, pos + 4) {
            Ok((c, q)) => Ok((Contract::Give(Box::new(c)), q)),
            Err(e) => Err(e),
        }
    } else {
        Err(ParseError { offset: pos, expected: Expected::Contract })
    }
}

/// Parse a contract at `pos`: skip leading padding, then try a bracketed
/// group, then each keyword, in declared order.
pub fn contract(input: &str, pos: usize) -> (r: Result<(Contract, usize), ParseError>)
    requires
        pos <= input@.len(),
    ensures
        res_agrees(r, spec_contract(input@, pos as int)),
        r matches Ok((c, q)) ==> q <= input@.len(),
    decreases input@.len() - pos, 1int,
{
    let n = input.unicode_len();
    if pos >= n {
        return Err(ParseError { offset: pos, expected: Expected::Contract });
    }
    let c0 = input.get_char(pos);
    if is_space(c0) {
        contract(input, pos + 1)
    } else if c0 == '(' {
        match contract(input, pos + 1) {
            Ok((c, q)) => {
                let r2 = skip_ws(input, q);
                if r2 < n && input.get_char(r2) == ')' {
                    let q2 = skip_ws(input, r2 + 1);
                    Ok((c, q2))
                } else {
                    Err(ParseError { offset: r2, expected: Expected::CloseBracket })
                }
            },
            Err(e) => Err(e),
        }
    } else if check_zero(input, pos) {
        match zero(input, pos) {
            Ok((c, q)) => Ok((c, skip_ws(input, q))),
            Err(e) => Err(e),
        }
    } else if check_one(input, pos) {
        match one(input, pos) {
            Ok((c, q)) => Ok((c, skip_ws(input, q))),
            Err(e) => Err(e),
        }
    } else if check_give(input, pos) {
        give(input, pos)
    } else {
        Err(ParseError { offset: pos, expected: Expected::Contract })
    }
}

/// Parse a whole source text from its beginning. On success the returned
/// offset is where the unconsumed remainder of the input begins.
pub fn parse(input: &str) -> (r: Result<(Contract, usize), ParseError>)
    ensures
        res_agrees(r, spec_contract(input@, 0)),
        r matches Ok((c, q)) ==> q <= input@.len(),
{
    contract(input, 0)
}

} // verus!

//! Laws of the contract-algebra grammar: canonical texts parse back to
//! the contract they render, and padding or matching brackets around a
//! fully-parsed text never change the result.

use vstd::prelude::*;

use crate::ast::Contract;
use crate::parser::{
    spec_give,
    is_space_char, matches_give, matches_one, matches_zero, spec_contract, spec_skip_ws, ws_only,
    Expected,
};

verus! {

/// The contract can be written in the implemented grammar.
pub open spec fn in_grammar(c: Contract) -> bool
    decreases c,
{
    match c {
        Contract::Zero => true,
        Contract::One => true,
        Contract::Give(b) => in_grammar(*b),
        _ => false,
    }
}

/// The canonical text of a representable contract.
pub open spec fn canonical(c: Contract) -> Seq<char>
    decreases c,
{
    match c {
        Contract::Zero => seq!['z', 'e', 'r', 'o'],
        Contract::One => seq!['o', 'n', 'e'],
        Contract::Give(b) => seq!['g', 'i', 'v', 'e', '('] + canonical(*b) + seq![')'],
        _ => Seq::empty(),
    }
}

/// Position `q`, pushed past the appended padding when it sat at the end
/// of the original input.
pub open spec fn ext_end(s: Seq<char>, w: Seq<char>, q: int) -> int {
    if q == s.len() {
        s.len() + w.len() as int
    } else {
        q
    }
}

/// Padding skipping stays within the input.
pub proof fn lemma_skip_ws_bounds(s: Seq<char>, pos: int)
    requires
        0 <= pos <= s.len(),
    ensures
        pos <= spec_skip_ws(s, pos) <= s.len(),
    decreases s.len() - pos,
{
    if pos < s.len() && is_space_char(s[pos]) {
        lemma_skip_ws_bounds(s, pos + 1);
    }
}

/// A parse stays within the input: a success ends at or after its start,
/// and a failure offset lies within the input.
pub proof fn lemma_contract_bounds(s: Seq<char>, pos: int)
    requires
        0 <= pos <= s.len(),
    ensures
        match spec_contract(s, pos) {
            Ok((_, q)) => pos <= q <= s.len(),
            Err((e, _)) => 0 <= e <= s.len(),
        },
    decreases s.len() - pos,
{
    reveal_with_fuel(spec_contract, 2);
    reveal_with_fuel(spec_give, 2);
    let outcome = spec_contract(s, pos);
    if pos >= s.len() {
        assert(outcome == Err::<(Contract, int), (int, Expected)>((pos, Expected::Contract)));
    } else if is_space_char(s[pos]) {
        lemma_contract_bounds(s, pos + 1);
        assert(outcome == spec_contract(s, pos + 1));
    } else if s[pos] == '(' {
        lemma_contract_bounds(s, pos + 1);
        match spec_contract(s, pos + 1) {
            Ok((c, q)) => {
                lemma_skip_ws_bounds(s, q);
                let r = spec_skip_ws(s, q);
                if r < s.len() && s[r] == ')' {
                    lemma_skip_ws_bounds(s, r + 1);
                    assert(outcome == Ok::<(Contract, int), (int, Expected)>(
                        (c, spec_skip_ws(s, r + 1)),
                    ));
                } else {
                    assert(outcome == Err::<(Contract, int), (int, Expected)>(
                        (r, Expected::CloseBracket),
                    ));
                }
            },
            Err(e) => {
                assert(outcome == Err::<(Contract, int), (int, Expected)>(e));
            },
        }
    } else if matches_zero(s, pos) {
        lemma_skip_ws_bounds(s, pos + 4);
        assert(outcome == Ok::<(Contract, int), (int, Expected)>(
            (Contract::Zero, spec_skip_ws(s, pos + 4)),
        ));
    } else if matches_one(s, pos) {
        lemma_skip_ws_bounds(s, pos + 3);
        assert(outcome == Ok::<(Contract, int), (int, Expected)>(
            (Contract::One, spec_skip_ws(s, pos + 3)),
        ));
    } else if matches_give(s, pos) {
        lemma_contract_bounds(s, pos + 4);
        assert(match outcome {
            Ok((_, q)) => pos <= q <= s.len(),
            Err((e, _)) => 0 <= e <= s.len(),
        });
    } else {
        assert(outcome == Err::<(Contract, int), (int, Expected)>((pos, Expected::Contract)));
    }
}

/// The two inputs agree from the given positions to their ends.
pub open spec fn agree_from(s1: Seq<char>, p1: int, s2: Seq<char>, p2: int) -> bool {
    &&& 0 <= p1 <= s1.len()
    &&& 0 <= p2 <= s2.len()
    &&& s1.len() - p1 == s2.len() - p2
    &&& forall|i: int| 0 <= i < s1.len() - p1 ==> #[trigger] s1[p1 + i] == s2[p2 + i]
}

/// Agreement from a position carries to every later position.
pub proof fn lemma_agree_advance(s1: Seq<char>, p1: int, s2: Seq<char>, p2: int, q1: int)
    requires
        agree_from(s1, p1, s2, p2),
        p1 <= q1 <= s1.len(),
    ensures
        agree_from(s1, q1, s2, q1 - p1 + p2),
{
    let q2 = q1 - p1 + p2;
    assert forall|i: int| 0 <= i < s1.len() - q1 implies #[trigger] s1[q1 + i] == s2[q2 + i] by {
        assert(s1[p1 + (q1 - p1 + i)] == s2[p2 + (q1 - p1 + i)]);
    }
}

/// Padding skipping is the same on two inputs that agree from the given
/// positions on.
pub proof fn lemma_skip_ws_shift(s1: Seq<char>, p1: int, s2: Seq<char>, p2: int)
    requires
        agree_from(s1, p1, s2, p2),
    ensures
        spec_skip_ws(s1, p1) - p1 == spec_skip_ws(s2, p2) - p2,
    decreases s1.len() - p1,
{
    if p1 < s1.len() {
        assert(s1[p1 + 0] == s2[p2 + 0]);
    }
    if p1 < s1.len() && is_space_char(s1[p1]) {
        lemma_agree_advance(s1, p1, s2, p2, p1 + 1);
        lemma_skip_ws_shift(s1, p1 + 1, s2, p2 + 1);
    }
}

/// The keyword guards are the same on two inputs that agree from the
/// given positions on.
proof fn lemma_matches_shift(s1: Seq<char>, p1: int, s2: Seq<char>, p2: int)
    requires
        agree_from(s1, p1, s2, p2),
    ensures
        matches_zero(s1, p1) == matches_zero(s2, p2),
        matches_one(s1, p1) == matches_one(s2, p2),
        matches_give(s1, p1) == matches_give(s2, p2),
{
    if p1 + 4 <= s1.len() {
        assert(s1[p1 + 0] == s2[p2 + 0]);
        assert(s1[p1 + 1] == s2[p2 + 1]);
        assert(s1[p1 + 2] == s2[p2 + 2]);
        assert(s1[p1 + 3] == s2[p2 + 3]);
    } else if p1 + 3 <= s1.len() {
        assert(s1[p1 + 0] == s2[p2 + 0]);
        assert(s1[p1 + 1] == s2[p2 + 1]);
        assert(s1[p1 + 2] == s2[p2 + 2]);
    }
}

/// A parse is the same on two inputs that agree from the given positions
/// on, with every offset shifted by the difference of the positions.
pub proof fn lemma_contract_shift(s1: Seq<char>, p1: int, s2: Seq<char>, p2: int)
    requires
        agree_from(s1, p1, s2, p2),
    ensures
        match (spec_contract(s1, p1), spec_contract(s2, p2)) {
            (Ok((c1, q1)), Ok((c2, q2))) => c1 == c2 && q1 - p1 == q2 - p2,
            (Err((e1, x1)), Err((e2, x2))) => e1 - p1 == e2 - p2 && x1 == x2,
            _ => false,
        },
    decreases s1.len() - p1,
{
    reveal_with_fuel(spec_contract, 2);
    reveal_with_fuel(spec_give, 2);
    lemma_matches_shift(s1, p1, s2, p2);
    if p1 >= s1.len() {
        assert(p2 >= s2.len());
    } else {
        assert(s1[p1 + 0] == s2[p2 + 0]);
        if is_space_char(s1[p1]) {
            lemma_agree_advance(s1, p1, s2, p2, p1 + 1);
            lemma_contract_shift(s1, p1 + 1, s2, p2 + 1);
        } else if s1[p1] == '(' {
            lemma_agree_advance(s1, p1, s2, p2, p1 + 1);
            lemma_contract_shift(s1, p1 + 1, s2, p2 + 1);
            lemma_contract_bounds(s1, p1 + 1);
            match (spec_contract(s1, p1 + 1), spec_contract(s2, p2 + 1)) {
                (Ok((c1, q1)), Ok((c2, q2))) => {
                    lemma_agree_advance(s1, p1, s2, p2, q1);
                    lemma_skip_ws_shift(s1, q1, s2, q2);
                    lemma_skip_ws_bounds(s1, q1);
                    let r1 = spec_skip_ws(s1, q1);
                    let r2 = spec_skip_ws(s2, q2);
                    lemma_agree_advance(s1, p1, s2, p2, r1);
                    if r1 < s1.len() {
                        assert(s1[r1 + 0] == s2[r2 + 0]);
                    }
                    if r1 < s1.len() && s1[r1] == ')' {
                        lemma_agree_advance(s1, p1, s2, p2, r1 + 1);
                        lemma_skip_ws_shift(s1, r1 + 1, s2, r2 + 1);
                    }
                },
                (Err(_), Err(_)) => {},
                _ => {},
            }
        } else if matches_zero(s1, p1) {
            lemma_agree_advance(s1, p1, s2, p2, p1 + 4);
            lemma_skip_ws_shift(s1, p1 + 4, s2, p2 + 4);
        } else if matches_one(s1, p1) {
            lemma_agree_advance(s1, p1, s2, p2, p1 + 3);
            lemma_skip_ws_shift(s1, p1 + 3, s2, p2 + 3);
        } else if matches_give(s1, p1) {
            lemma_agree_advance(s1, p1, s2, p2, p1 + 4);
            lemma_contract_shift(s1, p1 + 4, s2, p2 + 4);
        }
    }
}

/// All characters from `pos` on are padding, so skipping runs to the end.
proof fn lemma_skip_ws_all(t: Seq<char>, pos: int)
    requires
        0 <= pos <= t.len(),
        forall|i: int| pos <= i < t.len() ==> is_space_char(t[i]),
    ensures
        spec_skip_ws(t, pos) == t.len(),
    decreases t.len() - pos,
{
    if pos < t.len() {
        lemma_skip_ws_all(t, pos + 1);
    }
}

/// Appending padding to the input moves a skip that ended at the old end
/// to the new end, and leaves every other skip unchanged.
proof fn lemma_skip_ws_append_ws(s: Seq<char>, w: Seq<char>, pos: int)
    requires
        0 <= pos <= s.len(),
        ws_only(w),
    ensures
        spec_skip_ws(s + w, pos) == ext_end(s, w, spec_skip_ws(s, pos)),
    decreases s.len() - pos,
{
    if pos < s.len() {
        assert((s + w)[pos] == s[pos]);
        if is_space_char(s[pos]) {
            lemma_skip_ws_append_ws(s, w, pos + 1);
        }
    } else {
        assert forall|i: int| pos <= i < (s + w).len() implies is_space_char((s + w)[i]) by {
            assert((s + w)[i] == w[i - s.len()]);
        }
        lemma_skip_ws_all(s + w, pos);
    }
}

/// Appending text that starts with no padding character leaves every
/// skip unchanged.
proof fn lemma_skip_ws_append_nonws(s: Seq<char>, t: Seq<char>, pos: int)
    requires
        0 <= pos <= s.len(),
        t.len() > 0,
        !is_space_char(t[0]),
    ensures
        spec_skip_ws(s + t, pos) == spec_skip_ws(s, pos),
    decreases s.len() - pos,
{
    if pos < s.len() {
        assert((s + t)[pos] == s[pos]);
        if is_space_char(s[pos]) {
            lemma_skip_ws_append_nonws(s, t, pos + 1);
        }
    } else {
        assert((s + t)[pos] == t[0]);
    }
}

/// Appending padding to a successfully parsed input succeeds with the
/// same contract; the end position moves to the new end exactly when it
/// sat at the old end.
pub proof fn lemma_contract_append_ws(s: Seq<char>, w: Seq<char>, pos: int)
    requires
        0 <= pos <= s.len(),
        ws_only(w),
        spec_contract(s, pos) matches Ok(_),
    ensures
        match spec_contract(s, pos) {
            Ok((c, q)) => spec_contract(s + w, pos) == Ok::<(Contract, int), (int, Expected)>(
                (c, ext_end(s, w, q)),
            ),
            Err(_) => false,
        },
    decreases s.len() - pos,
{
    reveal_with_fuel(spec_contract, 2);
    reveal_with_fuel(spec_give, 2);
    lemma_contract_bounds(s, pos);
    assert(pos < s.len());
    assert((s + w)[pos] == s[pos]);
    if is_space_char(s[pos]) {
        lemma_contract_append_ws(s, w, pos + 1);
    } else if s[pos] == '(' {
        match spec_contract(s, pos + 1) {
            Ok((c, q)) => {
                lemma_contract_bounds(s, pos + 1);
                lemma_contract_append_ws(s, w, pos + 1);
                lemma_skip_ws_bounds(s, q);
                let r = spec_skip_ws(s, q);
                assert(r < s.len() && s[r] == ')');
                assert(q < s.len()) by {
                    if q == s.len() {
                        assert(r == s.len());
                    }
                }
                lemma_skip_ws_append_ws(s, w, q);
                assert(spec_skip_ws(s + w, q) == r);
                assert((s + w)[r] == s[r]);
                lemma_skip_ws_append_ws(s, w, r + 1);
            },
            Err(_) => {},
        }
    } else if matches_zero(s, pos) {
        assert(matches_zero(s + w, pos)) by {
            assert((s + w)[pos + 1] == s[pos + 1]);
            assert((s + w)[pos + 2] == s[pos + 2]);
            assert((s + w)[pos + 3] == s[pos + 3]);
        }
        lemma_skip_ws_append_ws(s, w, pos + 4);
    } else if matches_one(s, pos) {
        assert(matches_one(s + w, pos)) by {
            assert((s + w)[pos + 1] == s[pos + 1]);
            assert((s + w)[pos + 2] == s[pos + 2]);
        }
        assert(!matches_zero(s + w, pos));
        lemma_skip_ws_append_ws(s, w, pos + 3);
    } else if matches_give(s, pos) {
        assert(matches_give(s + w, pos)) by {
            assert((s + w)[pos + 1] == s[pos + 1]);
            assert((s + w)[pos + 2] == s[pos + 2]);
            assert((s + w)[pos + 3] == s[pos + 3]);
        }
        assert(!matches_zero(s + w, pos));
        assert(!matches_one(s + w, pos));
        lemma_contract_append_ws(s, w, pos + 4);
    }
}

/// Appending text that starts with no padding character to a
/// successfully parsed input succeeds with the same contract and the
/// same end position.
pub proof fn lemma_contract_append_nonws(s: Seq<char>, t: Seq<char>, pos: int)
    requires
        0 <= pos <= s.len(),
        t.len() > 0,
        !is_space_char(t[0]),
        spec_contract(s, pos) matches Ok(_),
    ensures
        match spec_contract(s, pos) {
            Ok((c, q)) => spec_contract(s + t, pos) == Ok::<(Contract, int), (int, Expected)>(
                (c, q),
            ),
            Err(_) => false,
        },
    decreases s.len() - pos,
{
    reveal_with_fuel(spec_contract, 2);
    reveal_with_fuel(spec_give, 2);
    lemma_contract_bounds(s, pos);
    assert(pos < s.len());
    assert((s + t)[pos] == s[pos]);
    if is_space_char(s[pos]) {
        lemma_contract_append_nonws(s, t, pos + 1);
    } else if s[pos] == '(' {
        match spec_contract(s, pos + 1) {
            Ok((c, q)) => {
                lemma_contract_bounds(s, pos + 1);
                lemma_contract_append_nonws(s, t, pos + 1);
                lemma_skip_ws_bounds(s, q);
                let r = spec_skip_ws(s, q);
                assert(r < s.len() && s[r] == ')');
                lemma_skip_ws_append_nonws(s, t, q);
                assert((s + t)[r] == s[r]);
                lemma_skip_ws_append_nonws(s, t, r + 1);
            },
            Err(_) => {},
        }
    } else if matches_zero(s, pos) {
        assert(matches_zero(s + t, pos)) by {
            assert((s + t)[pos + 1] == s[pos + 1]);
            assert((s + t)[pos + 2] == s[pos + 2]);
            assert((s + t)[pos + 3] == s[pos + 3]);
        }
        lemma_skip_ws_append_nonws(s, t, pos + 4);
    } else if matches_one(s, pos) {
        assert(matches_one(s + t, pos)) by {
            assert((s + t)[pos + 1] == s[pos + 1]);
            assert((s + t)[pos + 2] == s[pos + 2]);
        }
        assert(!matches_zero(s + t, pos));
        lemma_skip_ws_append_nonws(s, t, pos + 3);
    } else if matches_give(s, pos) {
        assert(matches_give(s + t, pos)) by {
            assert((s + t)[pos + 1] == s[pos + 1]);
            assert((s + t)[pos + 2] == s[pos + 2]);
            assert((s + t)[pos + 3] == s[pos + 3]);
        }
        assert(!matches_zero(s + t, pos));
        assert(!matches_one(s + t, pos));
        lemma_contract_append_nonws(s, t, pos + 4);
    }
}

/// A parse below a leading padding region equals the parse at its end.
proof fn lemma_ws_prefix(t: Seq<char>, pos: int, k: int)
    requires
        0 <= pos <= k <= t.len(),
        forall|i: int| 0 <= i < k ==> is_space_char(t[i]),
    ensures
        spec_contract(t, pos) == spec_contract(t, k),
    decreases k - pos,
{
    if pos < k {
        assert(is_space_char(t[pos]));
        lemma_ws_prefix(t, pos + 1, k);
    }
}

/// Law: wrapping a fully-parsed contract text in any padding leaves the
/// parse result unchanged, still consuming the whole input.
pub proof fn lemma_padding_invariance(w1: Seq<char>, s: Seq<char>, w2: Seq<char>, c: Contract)
    requires
        ws_only(w1),
        ws_only(w2),
        spec_contract(s, 0) == Ok::<(Contract, int), (int, Expected)>((c, s.len() as int)),
    ensures
        spec_contract(w1 + s + w2, 0) == Ok::<(Contract, int), (int, Expected)>(
            (c, (w1 + s + w2).len() as int),
        ),
{
    lemma_contract_append_ws(s, w2, 0);
    assert(spec_contract(s + w2, 0) == Ok::<(Contract, int), (int, Expected)>(
        (c, (s + w2).len() as int),
    ));
    let t = w1 + s + w2;
    assert(t =~= w1 + (s + w2));
    assert forall|i: int| 0 <= i < w1.len() implies is_space_char(t[i]) by {
        assert(t[i] == w1[i]);
    }
    lemma_ws_prefix(t, 0, w1.len() as int);
    let u = s + w2;
    assert(agree_from(t, w1.len() as int, u, 0)) by {
        assert forall|i: int| 0 <= i < t.len() - w1.len() implies #[trigger] t[w1.len() + i]
            == u[0 + i] by {
            assert(t == w1 + u);
            assert(t[w1.len() + i] == u[i]);
        }
    }
    lemma_contract_shift(t, w1.len() as int, u, 0);
}

/// Law: wrapping a fully-parsed contract text in one pair of matching
/// brackets leaves the parse result unchanged, still consuming the whole
/// input.
pub proof fn lemma_bracket_invariance(s: Seq<char>, c: Contract)
    requires
        spec_contract(s, 0) == Ok::<(Contract, int), (int, Expected)>((c, s.len() as int)),
    ensures
        spec_contract(seq!['('] + s + seq![')'], 0) == Ok::<(Contract, int), (int, Expected)>(
            (c, s.len() + 2int),
        ),
{
    let t = seq!['('] + s + seq![')'];
    assert(t.len() == s.len() + 2);
    assert(t[0] == '(');
    assert(!is_space_char('('));
    lemma_contract_append_nonws(s, seq![')'], 0);
    assert(spec_contract(s + seq![')'], 0) == Ok::<(Contract, int), (int, Expected)>(
        (c, s.len() as int),
    ));
    let u = s + seq![')'];
    assert(agree_from(t, 1, u, 0)) by {
        assert forall|i: int| 0 <= i < t.len() - 1 implies #[trigger] t[1 + i] == u[0 + i] by {
            assert(t == seq!['('] + u);
            assert(t[1 + i] == u[i]);
        }
    }
    lemma_contract_shift(t, 1, u, 0);
    assert(spec_contract(t, 1) == Ok::<(Contract, int), (int, Expected)>((c, s.len() + 1int)));
    assert(t[s.len() as int + 1] == ')');
    assert(spec_skip_ws(t, s.len() + 1int) == s.len() + 1int);
    assert(spec_skip_ws(t, s.len() + 2int) == s.len() + 2int);
}

/// Law: parsing the canonical text of any representable contract yields
/// exactly that contract, consuming the whole text.
pub proof fn lemma_parse_canonical(c: Contract)
    requires
        in_grammar(c),
    ensures
        spec_contract(canonical(c), 0) == Ok::<(Contract, int), (int, Expected)>(
            (c, canonical(c).len() as int),
        ),
    decreases c,
{
    reveal_with_fuel(spec_contract, 2);
    reveal_with_fuel(spec_give, 2);
    match c {
        Contract::Zero => {
            let s = canonical(c);
            assert(s.len() == 4);
            assert(s[0] == 'z' && s[1] == 'e' && s[2] == 'r' && s[3] == 'o');
            assert(matches_zero(s, 0));
            assert(!is_space_char('z'));
            assert(spec_skip_ws(s, 4) == 4);
        },
        Contract::One => {
            let s = canonical(c);
            assert(s.len() == 3);
            assert(s[0] == 'o' && s[1] == 'n' && s[2] == 'e');
            assert(matches_one(s, 0));
            assert(!matches_zero(s, 0));
            assert(!is_space_char('o'));
            assert(spec_skip_ws(s, 3) == 3);
        },
        Contract::Give(b) => {
            lemma_parse_canonical(*b);
            let cb = canonical(*b);
            let s = canonical(c);
            assert(s =~= seq!['g', 'i', 'v', 'e', '('] + cb + seq![')']);
            assert(s.len() == cb.len() + 6);
            assert(s[0] == 'g' && s[1] == 'i' && s[2] == 'v' && s[3] == 'e' && s[4] == '(');
            assert(matches_give(s, 0));
            assert(!matches_zero(s, 0) && !matches_one(s, 0));
            assert(!is_space_char('g') && 'g' != '(');
            lemma_contract_append_nonws(cb, seq![')'], 0);
            assert(spec_contract(cb + seq![')'], 0) == Ok::<(Contract, int), (int, Expected)>(
                (*b, cb.len() as int),
            ));
            let u = cb + seq![')'];
            assert(agree_from(s, 5, u, 0)) by {
                assert forall|i: int| 0 <= i < s.len() - 5 implies #[trigger] s[5 + i] == u[
                    0 + i
                ] by {
                    assert(s == seq!['g', 'i', 'v', 'e', '('] + u);
                    assert(s[5 + i] == u[i]);
                }
            }
            lemma_contract_shift(s, 5, u, 0);
            assert(spec_contract(s, 5) == Ok::<(Contract, int), (int, Expected)>(
                (*b, cb.len() + 5int),
            ));
            assert(s[4] == '(');
            assert(s[cb.len() as int + 5] == ')');
            assert(!is_space_char(')'));
            assert(spec_skip_ws(s, cb.len() + 5int) == cb.len() + 5int);
            assert(spec_skip_ws(s, cb.len() + 6int) == cb.len() + 6int);
            assert(spec_contract(s, 4) == Ok::<(Contract, int), (int, Expected)>(
                (*b, s.len() as int),
            ));
        },
        _ => {},
    }
}



/// One layer of redundant wrapping: padding on both sides, or one pair
/// of matching brackets.
pub enum Wrapping {
    Padding(Seq<char>, Seq<char>),
    Brackets,
}

/// The wrapping adds only padding characters or a matching pair.
pub open spec fn wrapping_ok(w: Wrapping) -> bool {
    match w {
        Wrapping::Padding(a, b) => ws_only(a) && ws_only(b),
        Wrapping::Brackets => true,
    }
}

/// The text with one wrapping layer around it.
pub open spec fn apply_wrapping(s: Seq<char>, w: Wrapping) -> Seq<char> {
    match w {
        Wrapping::Padding(a, b) => a + s + b,
        Wrapping::Brackets => seq!['('] + s + seq![')'],
    }
}

/// The text with a whole stack of wrapping layers around it, innermost
/// first.
pub open spec fn apply_wrappings(s: Seq<char>, ws: Seq<Wrapping>) -> Seq<char>
    decreases ws.len(),
{
    if ws.len() == 0 {
        s
    } else {
        apply_wrappings(apply_wrapping(s, ws[0]), ws.drop_first())
    }
}

/// Law: any combination of redundant padding and matching brackets
/// around a fully-parsed contract text leaves the parse result
/// unchanged, still consuming the whole input.
pub proof fn lemma_wrapping_invariance(s: Seq<char>, ws: Seq<Wrapping>, c: Contract)
    requires
        forall|i: int| 0 <= i < ws.len() ==> wrapping_ok(#[trigger] ws[i]),
        spec_contract(s, 0) == Ok::<(Contract, int), (int, Expected)>((c, s.len() as int)),
    ensures
        spec_contract(apply_wrappings(s, ws), 0) == Ok::<(Contract, int), (int, Expected)>(
            (c, apply_wrappings(s, ws).len() as int),
        ),
    decreases ws.len(),
{
    if ws.len() > 0 {
        let s1 = apply_wrapping(s, ws[0]);
        match ws[0] {
            Wrapping::Padding(a, b) => {
                lemma_padding_invariance(a, s, b, c);
            },
            Wrapping::Brackets => {
                lemma_bracket_invariance(s, c);
            },
        }
        assert(spec_contract(s1, 0) == Ok::<(Contract, int), (int, Expected)>(
            (c, s1.len() as int),
        ));
        assert forall|i: int| 0 <= i < ws.drop_first().len() implies wrapping_ok(
            #[trigger] ws.drop_first()[i],
        ) by {
            assert(ws.drop_first()[i] == ws[i + 1]);
        }
        lemma_wrapping_invariance(s1, ws.drop_first(), c);
    }
}

} // verus!

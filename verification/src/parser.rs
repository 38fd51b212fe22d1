//! The packrat parser: recursive descent over a token sequence with
//! position-keyed memoization, and Warth-style seed growing for the
//! left-recursive rules (`Expression`, `Term`, and the quantity chain). An
//! in-progress sentinel is written into the memo before a left-recursive
//! rule first evaluates its body, so the body's self-reference reads the
//! memo instead of recursing; the seed is then re-grown while its end
//! position strictly advances.
//!
//! Every rule is proved sound against the declarative grammar: a returned
//! tree derives exactly the consumed token range. A bounded completeness
//! fact is proved as well: a rule never fails on a position that starts
//! with a literal or unit token, so a one-token input of that shape always
//! parses. The memo table is local to one top-level parse and discarded
//! afterwards.

use vstd::prelude::*;

use crate::grammar::{
    derives_atom, derives_expression, derives_exponent, derives_quantity, derives_term,
    lemma_quantity_span, leaf,
};
use crate::node::{node_wf, Node, OpCode};
use crate::number::{collapse, num_wf, Number};
use crate::token::{token_number, token_unit, tokens_wf, Token};
use crate::unit::{common_type, unit_wf, Unit};

verus! {

/// A rule's outcome at one position: a parsed tree and the position just
/// past what it consumed, or failure.
pub enum Match<T> {
    Fail,
    Done(T, usize),
}

/// One memo slot: a rule at a position is unvisited (`None`), being
/// evaluated (the left-recursion sentinel), known to fail, or known to
/// succeed with a tree and an end position.
enum MemoState<T> {
    InProgress,
    Failed,
    Done(T, usize),
}

/// The memo table: one slot per (rule, token position).
struct MemoTable {
    expression: Vec<Option<MemoState<Node>>>,
    term: Vec<Option<MemoState<Node>>>,
    exponent: Vec<Option<MemoState<Node>>>,
    atom: Vec<Option<MemoState<Node>>>,
    num_unit: Vec<Option<MemoState<(Node, Unit)>>>,
}

/// A position that starts with a literal or a unit token. No rule fails on
/// such a position.
pub open spec fn value_token_at(t: Seq<Token>, p: int) -> bool {
    token_number(t[p]) is Some || token_unit(t[p]) is Some
}

/// A position that starts a "number unit" pair.
pub open spec fn pair_at(t: Seq<Token>, p: int) -> bool {
    p + 1 < t.len() && token_number(t[p]) is Some && token_unit(t[p + 1]) is Some
}

/// A "number unit" pair that is the whole rest of the input.
pub open spec fn lone_pair_at(t: Seq<Token>, p: int) -> bool {
    pair_at(t, p) && t.len() == p + 2
}

/// The rule outcome a lone trailing pair forces: a success that consumes
/// everything.
pub open spec fn consumes_rest(t: Seq<Token>, m: Match<Node>) -> bool {
    match m {
        Match::Done(_, end) => end == t.len(),
        Match::Fail => false,
    }
}

/// Soundness of one rule outcome at `pos`: a success consumed at least one
/// token, stayed within the input, and derives the grammar rule.
spec fn match_ok_expression(t: Seq<Token>, pos: int, m: Match<Node>) -> bool {
    match m {
        Match::Fail => true,
        Match::Done(n, end) => pos < end <= t.len() && derives_expression(t, pos, end as int, n)
            && node_wf(n),
    }
}

spec fn match_ok_term(t: Seq<Token>, pos: int, m: Match<Node>) -> bool {
    match m {
        Match::Fail => true,
        Match::Done(n, end) => pos < end <= t.len() && derives_term(t, pos, end as int, n)
            && node_wf(n),
    }
}

spec fn match_ok_exponent(t: Seq<Token>, pos: int, m: Match<Node>) -> bool {
    match m {
        Match::Fail => true,
        Match::Done(n, end) => pos < end <= t.len() && derives_exponent(t, pos, end as int, n)
            && node_wf(n),
    }
}

spec fn match_ok_atom(t: Seq<Token>, pos: int, m: Match<Node>) -> bool {
    match m {
        Match::Fail => true,
        Match::Done(n, end) => pos < end <= t.len() && derives_atom(t, pos, end as int, n)
            && node_wf(n),
    }
}

spec fn match_ok_num_unit(t: Seq<Token>, pos: int, m: Match<(Node, Unit)>) -> bool {
    match m {
        Match::Fail => true,
        Match::Done(p, end) => pos < end <= t.len() && derives_quantity(t, pos, end as int, p.0, p.1)
            && node_wf(p.0) && unit_wf(p.1),
    }
}

/// A memo entry is sound for its position: a recorded success derives the
/// rule, and a recorded failure can only sit on a position where the rule
/// (through its terminal alternatives) indeed cannot match.
spec fn entry_ok_expression(t: Seq<Token>, pos: int, e: Option<MemoState<Node>>) -> bool {
    match e {
        None => true,
        Some(MemoState::InProgress) => true,
        Some(MemoState::Failed) => !value_token_at(t, pos),
        Some(MemoState::Done(n, end)) => pos < end <= t.len() && derives_expression(
            t,
            pos,
            end as int,
            n,
        ) && node_wf(n) && (lone_pair_at(t, pos) ==> end == t.len()),
    }
}

spec fn entry_ok_term(t: Seq<Token>, pos: int, e: Option<MemoState<Node>>) -> bool {
    match e {
        None => true,
        Some(MemoState::InProgress) => true,
        Some(MemoState::Failed) => !value_token_at(t, pos),
        Some(MemoState::Done(n, end)) => pos < end <= t.len() && derives_term(t, pos, end as int, n)
            && node_wf(n) && (lone_pair_at(t, pos) ==> end == t.len()),
    }
}

spec fn entry_ok_exponent(t: Seq<Token>, pos: int, e: Option<MemoState<Node>>) -> bool {
    match e {
        None => true,
        Some(MemoState::InProgress) => true,
        Some(MemoState::Failed) => !value_token_at(t, pos),
        Some(MemoState::Done(n, end)) => pos < end <= t.len() && derives_exponent(
            t,
            pos,
            end as int,
            n,
        ) && node_wf(n) && (lone_pair_at(t, pos) ==> end == t.len()),
    }
}

spec fn entry_ok_atom(t: Seq<Token>, pos: int, e: Option<MemoState<Node>>) -> bool {
    match e {
        None => true,
        Some(MemoState::InProgress) => true,
        Some(MemoState::Failed) => !value_token_at(t, pos),
        Some(MemoState::Done(n, end)) => pos < end <= t.len() && derives_atom(t, pos, end as int, n)
            && node_wf(n) && (lone_pair_at(t, pos) ==> end == t.len()),
    }
}

spec fn entry_ok_num_unit(t: Seq<Token>, pos: int, e: Option<MemoState<(Node, Unit)>>) -> bool {
    match e {
        None => true,
        Some(MemoState::InProgress) => true,
        Some(MemoState::Failed) => !pair_at(t, pos),
        Some(MemoState::Done(p, end)) => pos < end <= t.len() && derives_quantity(
            t,
            pos,
            end as int,
            p.0,
            p.1,
        ) && node_wf(p.0) && unit_wf(p.1),
    }
}

/// Every memo slot is sound for its position.
spec fn memo_wf(m: MemoTable, t: Seq<Token>) -> bool {
    &&& m.expression@.len() == t.len()
    &&& m.term@.len() == t.len()
    &&& m.exponent@.len() == t.len()
    &&& m.atom@.len() == t.len()
    &&& m.num_unit@.len() == t.len()
    &&& forall|p: int|
        0 <= p < t.len() ==> entry_ok_expression(t, p, #[trigger] m.expression@[p])
    &&& forall|p: int| 0 <= p < t.len() ==> entry_ok_term(t, p, #[trigger] m.term@[p])
    &&& forall|p: int| 0 <= p < t.len() ==> entry_ok_exponent(t, p, #[trigger] m.exponent@[p])
    &&& forall|p: int| 0 <= p < t.len() ==> entry_ok_atom(t, p, #[trigger] m.atom@[p])
    &&& forall|p: int| 0 <= p < t.len() ==> entry_ok_num_unit(t, p, #[trigger] m.num_unit@[p])
}

/// No in-progress sentinel at or after `lo`.
spec fn free_node(v: Seq<Option<MemoState<Node>>>, lo: int) -> bool {
    forall|p: int| lo <= p < v.len() ==> !((#[trigger] v[p]) matches Some(MemoState::InProgress))
}

/// No in-progress sentinel at or after `lo`.
spec fn free_num_unit(v: Seq<Option<MemoState<(Node, Unit)>>>, lo: int) -> bool {
    forall|p: int| lo <= p < v.len() ==> !((#[trigger] v[p]) matches Some(MemoState::InProgress))
}

/// The same slots hold in-progress sentinels.
spec fn sent_same_node(a: Seq<Option<MemoState<Node>>>, b: Seq<Option<MemoState<Node>>>) -> bool {
    a.len() == b.len() && forall|p: int|
        0 <= p < a.len() ==> ((#[trigger] b[p]) matches Some(MemoState::InProgress) <==> a[p] matches Some(
            MemoState::InProgress,
        ))
}

/// The same slots hold in-progress sentinels.
spec fn sent_same_num_unit(
    a: Seq<Option<MemoState<(Node, Unit)>>>,
    b: Seq<Option<MemoState<(Node, Unit)>>>,
) -> bool {
    a.len() == b.len() && forall|p: int|
        0 <= p < a.len() ==> ((#[trigger] b[p]) matches Some(MemoState::InProgress) <==> a[p] matches Some(
            MemoState::InProgress,
        ))
}

/// Rule evaluation leaves the set of in-progress sentinels as it found it.
spec fn sentinels_same(a: MemoTable, b: MemoTable) -> bool {
    &&& sent_same_node(a.expression@, b.expression@)
    &&& sent_same_node(a.term@, b.term@)
    &&& sent_same_node(a.exponent@, b.exponent@)
    &&& sent_same_node(a.atom@, b.atom@)
    &&& sent_same_num_unit(a.num_unit@, b.num_unit@)
}

fn vec_none_node(len: usize) -> (v: Vec<Option<MemoState<Node>>>)
    ensures
        v@.len() == len,
        forall|p: int| 0 <= p < len ==> (#[trigger] v@[p]) is None,
{
    let mut v: Vec<Option<MemoState<Node>>> = Vec::new();
    let mut i: usize = 0;
    while i < len
        invariant
            i <= len,
            v@.len() == i,
            forall|p: int| 0 <= p < i ==> (#[trigger] v@[p]) is None,
        decreases len - i,
    {
        v.push(None);
        i = i + 1;
    }
    v
}

fn vec_none_num_unit(len: usize) -> (v: Vec<Option<MemoState<(Node, Unit)>>>)
    ensures
        v@.len() == len,
        forall|p: int| 0 <= p < len ==> (#[trigger] v@[p]) is None,
{
    let mut v: Vec<Option<MemoState<(Node, Unit)>>> = Vec::new();
    let mut i: usize = 0;
    while i < len
        invariant
            i <= len,
            v@.len() == i,
            forall|p: int| 0 <= p < i ==> (#[trigger] v@[p]) is None,
        decreases len - i,
    {
        v.push(None);
        i = i + 1;
    }
    v
}

impl MemoTable {
    /// A fresh, empty table for an input of `len` tokens.
    fn new(len: usize) -> (m: MemoTable)
        ensures
            forall|t: Seq<Token>| t.len() == len ==> memo_wf(m, t),
            free_node(m.expression@, 0),
            free_node(m.term@, 0),
            free_node(m.exponent@, 0),
            free_node(m.atom@, 0),
            free_num_unit(m.num_unit@, 0),
    {
        MemoTable {
            expression: vec_none_node(len),
            term: vec_none_node(len),
            exponent: vec_none_node(len),
            atom: vec_none_node(len),
            num_unit: vec_none_num_unit(len),
        }
    }
}

/// One token of lookahead: the position past `pos` when the token there is
/// exactly `tok`.
fn expect(tokens: &Vec<Token>, pos: usize, tok: Token) -> (r: Option<usize>)
    ensures
        match r {
            Some(next) => pos < tokens@.len() && tokens@[pos as int] == tok && next == pos + 1,
            None => !(pos < tokens@.len() && tokens@[pos as int] == tok),
        },
{
    if pos < tokens.len() && tokens[pos] == tok {
        Some(pos + 1)
    } else {
        None
    }
}

/// The number a literal token at `pos` stands for.
fn expect_number(tokens: &Vec<Token>, pos: usize) -> (r: Option<Number>)
    requires
        tokens_wf(tokens@),
        pos < tokens@.len(),
    ensures
        r == token_number(tokens@[pos as int]),
        r matches Some(n) ==> num_wf(n),
{
    match tokens[pos] {
        Token::LitInt(v) => Some(Number::Int(v)),
        Token::LitRat(rat) => Some(collapse(rat)),
        _ => None,
    }
}

/// The unit a token at `pos` stands for.
fn expect_unit(tokens: &Vec<Token>, pos: usize) -> (r: Option<Unit>)
    requires
        pos < tokens@.len(),
    ensures
        r == token_unit(tokens@[pos as int]),
        r matches Some(u) ==> unit_wf(u),
{
    match tokens[pos] {
        Token::Curr(i) => if i < crate::unit::CURRENCY_COUNT {
            Some(Unit::Curr(i))
        } else {
            None
        },
        Token::LenM => Some(Unit::LenM),
        Token::LenKm => Some(Unit::LenKm),
        Token::LenCm => Some(Unit::LenCm),
        Token::LenMm => Some(Unit::LenMm),
        Token::LenInch => Some(Unit::LenInch),
        Token::LenFeet => Some(Unit::LenFeet),
        Token::LenYard => Some(Unit::LenYard),
        Token::LenMile => Some(Unit::LenMile),
        Token::AreaM => Some(Unit::AreaM),
        Token::AreaKm => Some(Unit::AreaKm),
        Token::AreaCm => Some(Unit::AreaCm),
        Token::AreaMm => Some(Unit::AreaMm),
        Token::AreaInch => Some(Unit::AreaInch),
        Token::AreaFeet => Some(Unit::AreaFeet),
        Token::AreaYard => Some(Unit::AreaYard),
        Token::AreaMile => Some(Unit::AreaMile),
        Token::VolLiter => Some(Unit::VolLiter),
        Token::VolM => Some(Unit::VolM),
        Token::VolCm => Some(Unit::VolCm),
        Token::VolMm => Some(Unit::VolMm),
        Token::VolInch => Some(Unit::VolInch),
        Token::VolFeet => Some(Unit::VolFeet),
        Token::VolYard => Some(Unit::VolYard),
        Token::VolMilliLiter => Some(Unit::VolMilliLiter),
        Token::VolPint => Some(Unit::VolPint),
        Token::VolGallon => Some(Unit::VolGallon),
        Token::MassG => Some(Unit::MassG),
        Token::MassKg => Some(Unit::MassKg),
        Token::MassOunce => Some(Unit::MassOunce),
        Token::MassPound => Some(Unit::MassPound),
        Token::TempC => Some(Unit::TempC),
        Token::TempF => Some(Unit::TempF),
        Token::TimeSec => Some(Unit::TimeSec),
        Token::TimeMin => Some(Unit::TimeMin),
        Token::TimeHour => Some(Unit::TimeHour),
        _ => None,
    }
}

/// A "number unit" pair starting at `pos`.
fn expect_single_num_unit(tokens: &Vec<Token>, pos: usize) -> (r: Option<(Number, Unit, usize)>)
    requires
        tokens_wf(tokens@),
        tokens@.len() <= usize::MAX,
        pos <= tokens@.len(),
    ensures
        match r {
            Some(p) => p.2 == pos + 2 && p.2 <= tokens@.len() && token_number(
                tokens@[pos as int],
            ) == Some(p.0) && token_unit(tokens@[pos as int + 1]) == Some(p.1) && num_wf(p.0)
                && unit_wf(p.1),
            None => !pair_at(tokens@, pos as int),
        },
{
    if pos >= tokens.len() {
        return None;
    }
    if pos + 1 >= tokens.len() {
        return None;
    }
    match expect_number(tokens, pos) {
        Some(num) => match expect_unit(tokens, pos + 1) {
            Some(u) => Some((num, u, pos + 2)),
            None => None,
        },
        None => None,
    }
}

/// The quantity-chain rule, left-recursive: seed-grown through the memo.
fn num_unit(tokens: &Vec<Token>, memo: &mut MemoTable, pos: usize) -> (m: Match<(Node, Unit)>)
    requires
        tokens_wf(tokens@),
        tokens@.len() <= usize::MAX,
        memo_wf(*old(memo), tokens@),
        pos <= tokens@.len(),
        free_node(old(memo).expression@, pos as int + 1),
        free_node(old(memo).term@, pos as int + 1),
        free_node(old(memo).exponent@, pos as int),
        free_node(old(memo).atom@, pos as int),
        free_num_unit(old(memo).num_unit@, pos as int),
    ensures
        memo_wf(*final(memo), tokens@),
        sentinels_same(*old(memo), *final(memo)),
        match_ok_num_unit(tokens@, pos as int, m),
        pair_at(tokens@, pos as int) ==> m is Done,
    decreases tokens@.len() - pos, 1int,
{
    let ghost t = tokens@;
    if pos >= tokens.len() {
        return Match::Fail;
    }
    match &memo.num_unit[pos] {
        Some(MemoState::Done(p, end)) => {
            return Match::Done((p.0.clone(), p.1), *end);
        },
        Some(MemoState::Failed) => {
            return Match::Fail;
        },
        Some(MemoState::InProgress) => {
            proof {
                assert(false);
            }
            return Match::Fail;
        },
        None => {},
    }
    memo.num_unit[pos] = Some(MemoState::InProgress);
    let mut last: Match<(Node, Unit)> = Match::Fail;
    let mut done = false;
    while !done
        invariant
            tokens_wf(t),
            t.len() <= usize::MAX,
            t == tokens@,
            pos < t.len(),
            memo_wf(*memo, t),
            sent_same_node(old(memo).expression@, memo.expression@),
            sent_same_node(old(memo).term@, memo.term@),
            sent_same_node(old(memo).exponent@, memo.exponent@),
            sent_same_node(old(memo).atom@, memo.atom@),
            memo.num_unit@.len() == t.len(),
            old(memo).num_unit@[pos as int] is None,
            forall|p: int|
                0 <= p < t.len() && p != pos ==> ((#[trigger] memo.num_unit@[p]) matches Some(
                    MemoState::InProgress,
                ) <==> old(memo).num_unit@[p] matches Some(MemoState::InProgress)),
            free_node(memo.expression@, pos as int + 1),
            free_node(memo.term@, pos as int + 1),
            free_node(memo.exponent@, pos as int),
            free_node(memo.atom@, pos as int),
            free_num_unit(memo.num_unit@, pos as int + 1),
            match_ok_num_unit(t, pos as int, last),
            last is Fail ==> memo.num_unit@[pos as int] matches Some(MemoState::InProgress),
            last is Done ==> !(memo.num_unit@[pos as int] matches Some(MemoState::InProgress)),
            done ==> (pair_at(t, pos as int) ==> last is Done),
        decreases
                (if done {
                    0int
                } else {
                    1int
                }),
                (match last {
                    Match::Fail => t.len() - pos + 1,
                    Match::Done(_, e) => t.len() - e,
                }),
    {
        let r = num_unit_inner(tokens, memo, pos);
        match r {
            Match::Done(_, end) => {
                let improved = match &last {
                    Match::Fail => true,
                    Match::Done(_, prev) => end > *prev,
                };
                if improved {
                    let saved = match &r {
                        Match::Done(p, e) => Some(MemoState::Done((p.0.clone(), p.1), *e)),
                        Match::Fail => None,
                    };
                    memo.num_unit[pos] = saved;
                    last = r;
                } else {
                    done = true;
                }
            },
            Match::Fail => {
                done = true;
            },
        }
    }
    if let Match::Fail = &last {
        memo.num_unit[pos] = Some(MemoState::Failed);
    }
    last
}

/// One evaluation of the quantity-chain rule body. The left-recursive
/// self-reference reads the memo seed instead of recursing.
fn num_unit_inner(tokens: &Vec<Token>, memo: &mut MemoTable, pos: usize) -> (m: Match<
    (Node, Unit),
>)
    requires
        tokens_wf(tokens@),
        tokens@.len() <= usize::MAX,
        memo_wf(*old(memo), tokens@),
        pos < tokens@.len(),
        free_node(old(memo).expression@, pos as int + 1),
        free_node(old(memo).term@, pos as int + 1),
        free_node(old(memo).exponent@, pos as int),
        free_node(old(memo).atom@, pos as int),
        free_num_unit(old(memo).num_unit@, pos as int + 1),
    ensures
        memo_wf(*final(memo), tokens@),
        sentinels_same(*old(memo), *final(memo)),
        match_ok_num_unit(tokens@, pos as int, m),
        pair_at(tokens@, pos as int) ==> m is Done,
    decreases tokens@.len() - pos, 0int,
{
    let ghost t = tokens@;
    let seed: Match<(Node, Unit)> = match &memo.num_unit[pos] {
        Some(MemoState::Done(p, end)) => Match::Done((p.0.clone(), p.1), *end),
        _ => Match::Fail,
    };
    match seed {
        Match::Done(pair, mid) => {
            let (lhs_node, lhs_unit) = pair;
            match expect_single_num_unit(tokens, mid) {
                Some(triple) => {
                    let (num, rhs_unit, end) = triple;
                    match common_type(&lhs_unit, &rhs_unit) {
                        Some(_) => {
                            let ghost glhs = lhs_node;
                            let node = Node::BinaryExpr {
                                op: OpCode::Add,
                                lhs: Box::new(lhs_node),
                                rhs: Box::new(Node::value(num, Some(rhs_unit))),
                            };
                            proof {
                                assert(match node {
                                    Node::BinaryExpr { lhs: bl, rhs: br, .. } => *bl == glhs && *br
                                        == leaf(num, Some(rhs_unit)),
                                    _ => false,
                                });
                                assert(derives_quantity(t, pos as int, mid as int, glhs, lhs_unit));
                                assert(match node {
                                    Node::BinaryExpr { lhs: bl, .. } => derives_quantity(
                                        t,
                                        pos as int,
                                        mid as int,
                                        *bl,
                                        lhs_unit,
                                    ),
                                    _ => false,
                                });
                                assert(derives_quantity(t, pos as int, end as int, node, lhs_unit));
                                assert(node_wf(leaf(num, Some(rhs_unit))));
                                assert(match node {
                                    Node::BinaryExpr { lhs: bl, rhs: br, .. } => node_wf(*bl)
                                        && node_wf(*br),
                                    _ => false,
                                });
                                assert(node_wf(node));
                            }
                            return Match::Done((node, lhs_unit), end);
                        },
                        None => {},
                    }
                },
                None => {},
            }
        },
        Match::Fail => {},
    }
    match expect_single_num_unit(tokens, pos) {
        Some(triple) => {
            let (num, u, end) = triple;
            proof {
                assert(derives_quantity(t, pos as int, end as int, leaf(num, Some(u)), u));
            }
            Match::Done((Node::value(num, Some(u)), u), end)
        },
        None => Match::Fail,
    }
}

/// The `Atom` rule, memoized by plain recursive descent.
fn atom(tokens: &Vec<Token>, memo: &mut MemoTable, pos: usize) -> (m: Match<Node>)
    requires
        tokens_wf(tokens@),
        tokens@.len() <= usize::MAX,
        memo_wf(*old(memo), tokens@),
        pos <= tokens@.len(),
        free_node(old(memo).expression@, pos as int + 1),
        free_node(old(memo).term@, pos as int + 1),
        free_node(old(memo).exponent@, pos as int),
        free_node(old(memo).atom@, pos as int),
        free_num_unit(old(memo).num_unit@, pos as int),
    ensures
        memo_wf(*final(memo), tokens@),
        sentinels_same(*old(memo), *final(memo)),
        match_ok_atom(tokens@, pos as int, m),
        pos < tokens@.len() && value_token_at(tokens@, pos as int) ==> m is Done,
        pos < tokens@.len() && lone_pair_at(tokens@, pos as int) ==> consumes_rest(tokens@, m),
    decreases tokens@.len() - pos, 3int,
{
    if pos >= tokens.len() {
        return Match::Fail;
    }
    match &memo.atom[pos] {
        Some(MemoState::Done(n, end)) => {
            return Match::Done(n.clone(), *end);
        },
        Some(MemoState::Failed) => {
            return Match::Fail;
        },
        Some(MemoState::InProgress) => {
            proof {
                assert(false);
            }
            return Match::Fail;
        },
        None => {},
    }
    let r = atom_inner(tokens, memo, pos);
    match &r {
        Match::Done(n, end) => {
            memo.atom[pos] = Some(MemoState::Done(n.clone(), *end));
        },
        Match::Fail => {
            memo.atom[pos] = Some(MemoState::Failed);
        },
    }
    r
}

fn atom_inner(tokens: &Vec<Token>, memo: &mut MemoTable, pos: usize) -> (m: Match<Node>)
    requires
        tokens_wf(tokens@),
        tokens@.len() <= usize::MAX,
        memo_wf(*old(memo), tokens@),
        pos < tokens@.len(),
        free_node(old(memo).expression@, pos as int + 1),
        free_node(old(memo).term@, pos as int + 1),
        free_node(old(memo).exponent@, pos as int),
        free_node(old(memo).atom@, pos as int),
        free_num_unit(old(memo).num_unit@, pos as int),
    ensures
        memo_wf(*final(memo), tokens@),
        sentinels_same(*old(memo), *final(memo)),
        match_ok_atom(tokens@, pos as int, m),
        value_token_at(tokens@, pos as int) ==> m is Done,
        lone_pair_at(tokens@, pos as int) ==> consumes_rest(tokens@, m),
    decreases tokens@.len() - pos, 2int,
{
    let ghost t = tokens@;
    if tokens[pos] == Token::ParBegin {
        match expression(tokens, memo, pos + 1) {
            Match::Done(val, next) => match expect(tokens, next, Token::ParEnd) {
                Some(end) => {
                    proof {
                        assert(derives_atom(t, pos as int, end as int, val));
                    }
                    return Match::Done(val, end);
                },
                None => {},
            },
            Match::Fail => {},
        }
    }
    match num_unit(tokens, memo, pos) {
        Match::Done(pair, end) => {
            proof {
                assert(derives_quantity(t, pos as int, end as int, pair.0, pair.1));
                assert(derives_atom(t, pos as int, end as int, pair.0));
                lemma_quantity_span(t, pos as int, end as int, pair.0, pair.1);
            }
            return Match::Done(pair.0, end);
        },
        Match::Fail => {},
    }
    match expect_number(tokens, pos) {
        Some(num) => {
            return Match::Done(Node::value(num, None), pos + 1);
        },
        None => {},
    }
    match expect_unit(tokens, pos) {
        Some(u) => Match::Done(Node::value(Number::Int(1), Some(u)), pos + 1),
        None => Match::Fail,
    }
}

/// The `Exponent` rule, memoized by plain recursive descent; the power
/// operator is right-associative.
fn exponent(tokens: &Vec<Token>, memo: &mut MemoTable, pos: usize) -> (m: Match<Node>)
    requires
        tokens_wf(tokens@),
        tokens@.len() <= usize::MAX,
        memo_wf(*old(memo), tokens@),
        pos <= tokens@.len(),
        free_node(old(memo).expression@, pos as int + 1),
        free_node(old(memo).term@, pos as int + 1),
        free_node(old(memo).exponent@, pos as int),
        free_node(old(memo).atom@, pos as int),
        free_num_unit(old(memo).num_unit@, pos as int),
    ensures
        memo_wf(*final(memo), tokens@),
        sentinels_same(*old(memo), *final(memo)),
        match_ok_exponent(tokens@, pos as int, m),
        pos < tokens@.len() && value_token_at(tokens@, pos as int) ==> m is Done,
        pos < tokens@.len() && lone_pair_at(tokens@, pos as int) ==> consumes_rest(tokens@, m),
    decreases tokens@.len() - pos, 5int,
{
    if pos >= tokens.len() {
        return Match::Fail;
    }
    match &memo.exponent[pos] {
        Some(MemoState::Done(n, end)) => {
            return Match::Done(n.clone(), *end);
        },
        Some(MemoState::Failed) => {
            return Match::Fail;
        },
        Some(MemoState::InProgress) => {
            proof {
                assert(false);
            }
            return Match::Fail;
        },
        None => {},
    }
    let r = exponent_inner(tokens, memo, pos);
    match &r {
        Match::Done(n, end) => {
            memo.exponent[pos] = Some(MemoState::Done(n.clone(), *end));
        },
        Match::Fail => {
            memo.exponent[pos] = Some(MemoState::Failed);
        },
    }
    r
}

fn exponent_inner(tokens: &Vec<Token>, memo: &mut MemoTable, pos: usize) -> (m: Match<Node>)
    requires
        tokens_wf(tokens@),
        tokens@.len() <= usize::MAX,
        memo_wf(*old(memo), tokens@),
        pos < tokens@.len(),
        free_node(old(memo).expression@, pos as int + 1),
        free_node(old(memo).term@, pos as int + 1),
        free_node(old(memo).exponent@, pos as int),
        free_node(old(memo).atom@, pos as int),
        free_num_unit(old(memo).num_unit@, pos as int),
    ensures
        memo_wf(*final(memo), tokens@),
        sentinels_same(*old(memo), *final(memo)),
        match_ok_exponent(tokens@, pos as int, m),
        value_token_at(tokens@, pos as int) ==> m is Done,
        lone_pair_at(tokens@, pos as int) ==> consumes_rest(tokens@, m),
    decreases tokens@.len() - pos, 4int,
{
    let ghost t = tokens@;
    let base = atom(tokens, memo, pos);
    match &base {
        Match::Done(lhs, mid) => {
            let mid = *mid;
            match expect(tokens, mid, Token::Exp) {
                Some(next) => match exponent(tokens, memo, next) {
                    Match::Done(rhs, end) => {
                        let ghost glhs = *lhs;
                        let ghost grhs = rhs;
                        let node = Node::BinaryExpr {
                            op: OpCode::Power,
                            lhs: Box::new(lhs.clone()),
                            rhs: Box::new(rhs),
                        };
                        proof {
                            assert(match node {
                                Node::BinaryExpr { lhs: bl, rhs: br, .. } => *bl == glhs && *br
                                    == grhs,
                                _ => false,
                            });
                            assert(derives_atom(t, pos as int, mid as int, glhs));
                            assert(derives_exponent(t, mid as int + 1, end as int, grhs));
                            assert(match node {
                                Node::BinaryExpr { lhs: bl, rhs: br, .. } => derives_atom(
                                    t,
                                    pos as int,
                                    mid as int,
                                    *bl,
                                ) && derives_exponent(t, mid as int + 1, end as int, *br),
                                _ => false,
                            });
                            assert(derives_exponent(t, pos as int, end as int, node));
                        }
                        return Match::Done(node, end);
                    },
                    Match::Fail => {},
                },
                None => {},
            }
        },
        Match::Fail => {},
    }
    base
}

/// The `Term` rule, left-recursive: seed-grown through the memo.
fn term(tokens: &Vec<Token>, memo: &mut MemoTable, pos: usize) -> (m: Match<Node>)
    requires
        tokens_wf(tokens@),
        tokens@.len() <= usize::MAX,
        memo_wf(*old(memo), tokens@),
        pos <= tokens@.len(),
        free_node(old(memo).expression@, pos as int + 1),
        free_node(old(memo).term@, pos as int),
        free_node(old(memo).exponent@, pos as int),
        free_node(old(memo).atom@, pos as int),
        free_num_unit(old(memo).num_unit@, pos as int),
    ensures
        memo_wf(*final(memo), tokens@),
        sentinels_same(*old(memo), *final(memo)),
        match_ok_term(tokens@, pos as int, m),
        pos < tokens@.len() && value_token_at(tokens@, pos as int) ==> m is Done,
        pos < tokens@.len() && lone_pair_at(tokens@, pos as int) ==> consumes_rest(tokens@, m),
    decreases tokens@.len() - pos, 7int,
{
    let ghost t = tokens@;
    if pos >= tokens.len() {
        return Match::Fail;
    }
    match &memo.term[pos] {
        Some(MemoState::Done(n, end)) => {
            return Match::Done(n.clone(), *end);
        },
        Some(MemoState::Failed) => {
            return Match::Fail;
        },
        Some(MemoState::InProgress) => {
            proof {
                assert(false);
            }
            return Match::Fail;
        },
        None => {},
    }
    memo.term[pos] = Some(MemoState::InProgress);
    let mut last: Match<Node> = Match::Fail;
    let mut done = false;
    while !done
        invariant
            tokens_wf(t),
            t.len() <= usize::MAX,
            t == tokens@,
            pos < t.len(),
            memo_wf(*memo, t),
            sent_same_node(old(memo).expression@, memo.expression@),
            sent_same_node(old(memo).exponent@, memo.exponent@),
            sent_same_node(old(memo).atom@, memo.atom@),
            sent_same_num_unit(old(memo).num_unit@, memo.num_unit@),
            memo.term@.len() == t.len(),
            old(memo).term@[pos as int] is None,
            forall|p: int|
                0 <= p < t.len() && p != pos ==> ((#[trigger] memo.term@[p]) matches Some(
                    MemoState::InProgress,
                ) <==> old(memo).term@[p] matches Some(MemoState::InProgress)),
            free_node(memo.expression@, pos as int + 1),
            free_node(memo.term@, pos as int + 1),
            free_node(memo.exponent@, pos as int),
            free_node(memo.atom@, pos as int),
            free_num_unit(memo.num_unit@, pos as int),
            match_ok_term(t, pos as int, last),
            last is Fail ==> memo.term@[pos as int] matches Some(MemoState::InProgress),
            last is Done ==> !(memo.term@[pos as int] matches Some(MemoState::InProgress)),
            done ==> (value_token_at(t, pos as int) ==> last is Done),
            done ==> (lone_pair_at(t, pos as int) ==> consumes_rest(t, last)),
            lone_pair_at(t, pos as int) && last is Done ==> consumes_rest(t, last),
        decreases
                (if done {
                    0int
                } else {
                    1int
                }),
                (match last {
                    Match::Fail => t.len() - pos + 1,
                    Match::Done(_, e) => t.len() - e,
                }),
    {
        let r = term_inner(tokens, memo, pos);
        match r {
            Match::Done(_, end) => {
                let improved = match &last {
                    Match::Fail => true,
                    Match::Done(_, prev) => end > *prev,
                };
                if improved {
                    let saved = match &r {
                        Match::Done(n, e) => Some(MemoState::Done(n.clone(), *e)),
                        Match::Fail => None,
                    };
                    memo.term[pos] = saved;
                    last = r;
                } else {
                    done = true;
                }
            },
            Match::Fail => {
                done = true;
            },
        }
    }
    if let Match::Fail = &last {
        memo.term[pos] = Some(MemoState::Failed);
    }
    last
}

/// One evaluation of the `Term` rule body: the left-recursive alternatives
/// read the memo seed; ordered choice then falls through to `Exponent`.
fn term_inner(tokens: &Vec<Token>, memo: &mut MemoTable, pos: usize) -> (m: Match<Node>)
    requires
        tokens_wf(tokens@),
        tokens@.len() <= usize::MAX,
        memo_wf(*old(memo), tokens@),
        pos < tokens@.len(),
        free_node(old(memo).expression@, pos as int + 1),
        free_node(old(memo).term@, pos as int + 1),
        free_node(old(memo).exponent@, pos as int),
        free_node(old(memo).atom@, pos as int),
        free_num_unit(old(memo).num_unit@, pos as int),
    ensures
        memo_wf(*final(memo), tokens@),
        sentinels_same(*old(memo), *final(memo)),
        match_ok_term(tokens@, pos as int, m),
        value_token_at(tokens@, pos as int) ==> m is Done,
        lone_pair_at(tokens@, pos as int) ==> consumes_rest(tokens@, m),
    decreases tokens@.len() - pos, 6int,
{
    let ghost t = tokens@;
    let seed: Match<Node> = match &memo.term[pos] {
        Some(MemoState::Done(n, end)) => Match::Done(n.clone(), *end),
        _ => Match::Fail,
    };
    match seed {
        Match::Done(lhs, mid) => {
            if let Some(next) = expect(tokens, mid, Token::Mul) {
                match exponent(tokens, memo, next) {
                    Match::Done(rhs, end) => {
                        let ghost glhs = lhs;
                        let ghost grhs = rhs;
                        let node = Node::BinaryExpr {
                            op: OpCode::Multiply,
                            lhs: Box::new(lhs),
                            rhs: Box::new(rhs),
                        };
                        proof {
                            assert(match node {
                                Node::BinaryExpr { lhs: bl, rhs: br, .. } => *bl == glhs && *br
                                    == grhs,
                                _ => false,
                            });
                            assert(derives_term(t, pos as int, mid as int, glhs));
                            assert(derives_exponent(t, mid as int + 1, end as int, grhs));
                            assert(match node {
                                Node::BinaryExpr { lhs: bl, rhs: br, .. } => derives_term(
                                    t,
                                    pos as int,
                                    mid as int,
                                    *bl,
                                ) && derives_exponent(t, mid as int + 1, end as int, *br),
                                _ => false,
                            });
                            assert(derives_term(t, pos as int, end as int, node));
                        }
                        return Match::Done(node, end);
                    },
                    Match::Fail => {},
                }
            } else if let Some(next) = expect(tokens, mid, Token::Div) {
                match exponent(tokens, memo, next) {
                    Match::Done(rhs, end) => {
                        let ghost glhs = lhs;
                        let ghost grhs = rhs;
                        let node = Node::BinaryExpr {
                            op: OpCode::Divide,
                            lhs: Box::new(lhs),
                            rhs: Box::new(rhs),
                        };
                        proof {
                            assert(match node {
                                Node::BinaryExpr { lhs: bl, rhs: br, .. } => *bl == glhs && *br
                                    == grhs,
                                _ => false,
                            });
                            assert(derives_term(t, pos as int, mid as int, glhs));
                            assert(derives_exponent(t, mid as int + 1, end as int, grhs));
                            assert(match node {
                                Node::BinaryExpr { lhs: bl, rhs: br, .. } => derives_term(
                                    t,
                                    pos as int,
                                    mid as int,
                                    *bl,
                                ) && derives_exponent(t, mid as int + 1, end as int, *br),
                                _ => false,
                            });
                            assert(derives_term(t, pos as int, end as int, node));
                        }
                        return Match::Done(node, end);
                    },
                    Match::Fail => {},
                }
            } else if let Some(next) = expect(tokens, mid, Token::KwTo) {
                if next < tokens.len() {
                    match expect_unit(tokens, next) {
                        Some(u) => {
                            let ghost glhs = lhs;
                            let node = Node::BinaryExpr {
                                op: OpCode::ConvertTo,
                                lhs: Box::new(lhs),
                                rhs: Box::new(Node::value(Number::Int(1), Some(u))),
                            };
                            proof {
                                assert(match node {
                                    Node::BinaryExpr { lhs: bl, rhs: br, .. } => *bl == glhs && *br
                                        == leaf(Number::Int(1), Some(u)),
                                    _ => false,
                                });
                                assert(derives_term(t, pos as int, mid as int, glhs));
                                assert(match node {
                                    Node::BinaryExpr { lhs: bl, .. } => derives_term(
                                        t,
                                        pos as int,
                                        mid as int,
                                        *bl,
                                    ),
                                    _ => false,
                                });
                                assert(derives_term(t, pos as int, next as int + 1, node));
                                assert(node_wf(leaf(Number::Int(1), Some(u))));
                                assert(match node {
                                    Node::BinaryExpr { lhs: bl, rhs: br, .. } => node_wf(*bl)
                                        && node_wf(*br),
                                    _ => false,
                                });
                                assert(node_wf(node));
                            }
                            return Match::Done(node, next + 1);
                        },
                        None => {},
                    }
                }
            }
        },
        Match::Fail => {},
    }
    exponent(tokens, memo, pos)
}

/// The `Expression` rule, left-recursive: seed-grown through the memo.
fn expression(tokens: &Vec<Token>, memo: &mut MemoTable, pos: usize) -> (m: Match<Node>)
    requires
        tokens_wf(tokens@),
        tokens@.len() <= usize::MAX,
        memo_wf(*old(memo), tokens@),
        pos <= tokens@.len(),
        free_node(old(memo).expression@, pos as int),
        free_node(old(memo).term@, pos as int),
        free_node(old(memo).exponent@, pos as int),
        free_node(old(memo).atom@, pos as int),
        free_num_unit(old(memo).num_unit@, pos as int),
    ensures
        memo_wf(*final(memo), tokens@),
        sentinels_same(*old(memo), *final(memo)),
        match_ok_expression(tokens@, pos as int, m),
        pos >= tokens@.len() ==> m is Fail,
        pos < tokens@.len() && value_token_at(tokens@, pos as int) ==> m is Done,
        pos < tokens@.len() && lone_pair_at(tokens@, pos as int) ==> consumes_rest(tokens@, m),
    decreases tokens@.len() - pos, 9int,
{
    let ghost t = tokens@;
    if pos >= tokens.len() {
        return Match::Fail;
    }
    match &memo.expression[pos] {
        Some(MemoState::Done(n, end)) => {
            return Match::Done(n.clone(), *end);
        },
        Some(MemoState::Failed) => {
            return Match::Fail;
        },
        Some(MemoState::InProgress) => {
            proof {
                assert(false);
            }
            return Match::Fail;
        },
        None => {},
    }
    memo.expression[pos] = Some(MemoState::InProgress);
    let mut last: Match<Node> = Match::Fail;
    let mut done = false;
    while !done
        invariant
            tokens_wf(t),
            t.len() <= usize::MAX,
            t == tokens@,
            pos < t.len(),
            memo_wf(*memo, t),
            sent_same_node(old(memo).term@, memo.term@),
            sent_same_node(old(memo).exponent@, memo.exponent@),
            sent_same_node(old(memo).atom@, memo.atom@),
            sent_same_num_unit(old(memo).num_unit@, memo.num_unit@),
            memo.expression@.len() == t.len(),
            old(memo).expression@[pos as int] is None,
            forall|p: int|
                0 <= p < t.len() && p != pos ==> ((#[trigger] memo.expression@[p]) matches Some(
                    MemoState::InProgress,
                ) <==> old(memo).expression@[p] matches Some(MemoState::InProgress)),
            free_node(memo.expression@, pos as int + 1),
            free_node(memo.term@, pos as int),
            free_node(memo.exponent@, pos as int),
            free_node(memo.atom@, pos as int),
            free_num_unit(memo.num_unit@, pos as int),
            match_ok_expression(t, pos as int, last),
            last is Fail ==> memo.expression@[pos as int] matches Some(MemoState::InProgress),
            last is Done ==> !(memo.expression@[pos as int] matches Some(MemoState::InProgress)),
            done ==> (value_token_at(t, pos as int) ==> last is Done),
            done ==> (lone_pair_at(t, pos as int) ==> consumes_rest(t, last)),
            lone_pair_at(t, pos as int) && last is Done ==> consumes_rest(t, last),
        decreases
                (if done {
                    0int
                } else {
                    1int
                }),
                (match last {
                    Match::Fail => t.len() - pos + 1,
                    Match::Done(_, e) => t.len() - e,
                }),
    {
        let r = expression_inner(tokens, memo, pos);
        match r {
            Match::Done(_, end) => {
                let improved = match &last {
                    Match::Fail => true,
                    Match::Done(_, prev) => end > *prev,
                };
                if improved {
                    let saved = match &r {
                        Match::Done(n, e) => Some(MemoState::Done(n.clone(), *e)),
                        Match::Fail => None,
                    };
                    memo.expression[pos] = saved;
                    last = r;
                } else {
                    done = true;
                }
            },
            Match::Fail => {
                done = true;
            },
        }
    }
    if let Match::Fail = &last {
        memo.expression[pos] = Some(MemoState::Failed);
    }
    last
}

/// One evaluation of the `Expression` rule body: the left-recursive
/// alternatives read the memo seed, then unary minus, then `Term`.
fn expression_inner(tokens: &Vec<Token>, memo: &mut MemoTable, pos: usize) -> (m: Match<Node>)
    requires
        tokens_wf(tokens@),
        tokens@.len() <= usize::MAX,
        memo_wf(*old(memo), tokens@),
        pos < tokens@.len(),
        free_node(old(memo).expression@, pos as int + 1),
        free_node(old(memo).term@, pos as int),
        free_node(old(memo).exponent@, pos as int),
        free_node(old(memo).atom@, pos as int),
        free_num_unit(old(memo).num_unit@, pos as int),
    ensures
        memo_wf(*final(memo), tokens@),
        sentinels_same(*old(memo), *final(memo)),
        match_ok_expression(tokens@, pos as int, m),
        value_token_at(tokens@, pos as int) ==> m is Done,
        lone_pair_at(tokens@, pos as int) ==> consumes_rest(tokens@, m),
    decreases tokens@.len() - pos, 8int,
{
    let ghost t = tokens@;
    let seed: Match<Node> = match &memo.expression[pos] {
        Some(MemoState::Done(n, end)) => Match::Done(n.clone(), *end),
        _ => Match::Fail,
    };
    match seed {
        Match::Done(lhs, mid) => {
            if let Some(next) = expect(tokens, mid, Token::Add) {
                match term(tokens, memo, next) {
                    Match::Done(rhs, end) => {
                        let ghost glhs = lhs;
                        let ghost grhs = rhs;
                        let node = Node::BinaryExpr {
                            op: OpCode::Add,
                            lhs: Box::new(lhs),
                            rhs: Box::new(rhs),
                        };
                        proof {
                            assert(match node {
                                Node::BinaryExpr { lhs: bl, rhs: br, .. } => *bl == glhs && *br
                                    == grhs,
                                _ => false,
                            });
                            assert(derives_expression(t, pos as int, mid as int, glhs));
                            assert(derives_term(t, mid as int + 1, end as int, grhs));
                            assert(match node {
                                Node::BinaryExpr { lhs: bl, rhs: br, .. } => derives_expression(
                                    t,
                                    pos as int,
                                    mid as int,
                                    *bl,
                                ) && derives_term(t, mid as int + 1, end as int, *br),
                                _ => false,
                            });
                            assert(derives_expression(t, pos as int, end as int, node));
                        }
                        return Match::Done(node, end);
                    },
                    Match::Fail => {},
                }
            } else if let Some(next) = expect(tokens, mid, Token::Sub) {
                match term(tokens, memo, next) {
                    Match::Done(rhs, end) => {
                        let ghost glhs = lhs;
                        let ghost grhs = rhs;
                        let node = Node::BinaryExpr {
                            op: OpCode::Subtract,
                            lhs: Box::new(lhs),
                            rhs: Box::new(rhs),
                        };
                        proof {
                            assert(match node {
                                Node::BinaryExpr { lhs: bl, rhs: br, .. } => *bl == glhs && *br
                                    == grhs,
                                _ => false,
                            });
                            assert(derives_expression(t, pos as int, mid as int, glhs));
                            assert(derives_term(t, mid as int + 1, end as int, grhs));
                            assert(match node {
                                Node::BinaryExpr { lhs: bl, rhs: br, .. } => derives_expression(
                                    t,
                                    pos as int,
                                    mid as int,
                                    *bl,
                                ) && derives_term(t, mid as int + 1, end as int, *br),
                                _ => false,
                            });
                            assert(derives_expression(t, pos as int, end as int, node));
                        }
                        return Match::Done(node, end);
                    },
                    Match::Fail => {},
                }
            }
        },
        Match::Fail => {},
    }
    if let Some(next) = expect(tokens, pos, Token::Sub) {
        match term(tokens, memo, next) {
            Match::Done(rhs, end) => {
                let node = Node::UnaryExpr { op: OpCode::Negate, val: Box::new(rhs) };
                proof {
                    assert(derives_expression(t, pos as int, end as int, node));
                }
                return Match::Done(node, end);
            },
            Match::Fail => {},
        }
    }
    term(tokens, memo, pos)
}

/// The parser: owns the token buffer; the memo table lives only for the
/// duration of one top-level parse.
pub struct Parser {
    pub tokens: Vec<Token>,
}

/// The parser's token buffer holds only well-formed tokens.
pub open spec fn parser_wf(p: &Parser) -> bool {
    tokens_wf(p.tokens@)
}

impl Parser {
    pub fn new() -> (p: Parser)
        ensures
            p.tokens@.len() == 0,
            parser_wf(&p),
    {
        Parser { tokens: Vec::new() }
    }

    pub fn is_empty(&self) -> (r: bool)
        ensures
            r <==> self.tokens@.len() == 0,
    {
        self.tokens.len() == 0
    }

    /// Append freshly lexed tokens to the buffer.
    pub fn extend(&mut self, tokens: Vec<Token>)
        requires
            parser_wf(old(self)),
            tokens_wf(tokens@),
        ensures
            final(self).tokens@ == old(self).tokens@ + tokens@,
            parser_wf(final(self)),
    {
        let mut other = tokens;
        self.tokens.append(&mut other);
    }

    /// Drop the buffered tokens.
    pub fn reset(&mut self)
        ensures
            final(self).tokens@.len() == 0,
            parser_wf(final(self)),
    {
        self.tokens.clear();
    }

    /// Parse the whole buffer: a tree whose derivation consumes every
    /// token starting at position 0, or `None`. A one-token buffer holding
    /// a literal or a unit always parses; an empty buffer never does. The
    /// memo table is created fresh and discarded; the buffer is kept.
    pub fn parse(&mut self) -> (r: Option<Node>)
        requires
            parser_wf(old(self)),
        ensures
            final(self).tokens@ == old(self).tokens@,
            match r {
                Some(n) => node_wf(n) && old(self).tokens@.len() > 0 && derives_expression(
                    old(self).tokens@,
                    0,
                    old(self).tokens@.len() as int,
                    n,
                ),
                None => true,
            },
            old(self).tokens@.len() == 0 ==> r is None,
            old(self).tokens@.len() == 1 && value_token_at(old(self).tokens@, 0) ==> r is Some,
            old(self).tokens@.len() == 2 && pair_at(old(self).tokens@, 0) ==> r is Some,
    {
        let len = self.tokens.len();
        let mut memo = MemoTable::new(len);
        match expression(&self.tokens, &mut memo, 0) {
            Match::Done(node, end) => {
                if end == len {
                    Some(node)
                } else {
                    None
                }
            },
            Match::Fail => None,
        }
    }
}

} // verus!

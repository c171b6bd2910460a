//! Properties of the parser stated over its grammar, proved once for all
//! inputs of the shape they describe.
use vstd::prelude::*;
use crate::ast::{BinOp, ExprModel, InfixKind, PlaceModel, StmtModel};
use crate::error::{ParseError, SyntaxError};
use crate::grammar::{
    atom_of, drive, expr_rule, infix_of, infix_rule, parse_rule, prefix_rule, stmt_rule, Fault, Step,
    NOT_ASSIGNABLE,
};
use crate::token::Token;

verus! {

/// The token sequence `a t1 b t2 c`.
pub open spec fn seq5<'src>(a: Token<'src>, t1: Token<'src>, b: Token<'src>, t2: Token<'src>, c: Token<'src>) -> Seq<Token<'src>> {
    seq![a, t1, b, t2, c]
}

pub open spec fn binary(op: BinOp, lhs: ExprModel, rhs: ExprModel) -> ExprModel {
    ExprModel::Binary { op, lhs: Box::new(lhs), rhs: Box::new(rhs) }
}

/// A single operand parses to the operand it stands for, whatever follows
/// from the end of input.
proof fn lemma_atom_at_end<'src>(toks: Seq<Token<'src>>, i: int, min: u8)
    requires
        0 <= i,
        i + 1 == toks.len(),
        atom_of(toks[i]) is Some,
    ensures
        expr_rule(toks, i, min) == Ok::<(ExprModel, nat), Fault<'src>>((atom_of(toks[i])->Some_0, 1nat)),
{
    assert(prefix_rule(toks, i) == Ok::<(ExprModel, nat), Fault<'src>>((atom_of(toks[i])->Some_0, 1nat)));
    assert(infix_rule(toks, atom_of(toks[i])->Some_0, i + 1, min) == Ok::<(ExprModel, nat), Fault<'src>>(
        (atom_of(toks[i])->Some_0, 0nat),
    ));
}

/// Precedence: in `a op1 b op2 c`, where `op2` binds strictly tighter than
/// `op1`, the right operand of `op1` is `b op2 c`.
pub proof fn lemma_tighter_operator_groups_first<'src>(
    a: Token<'src>,
    t1: Token<'src>,
    b: Token<'src>,
    t2: Token<'src>,
    c: Token<'src>,
    bp1: u8,
    op1: BinOp,
    bp2: u8,
    op2: BinOp,
)
    requires
        atom_of(a) is Some,
        atom_of(b) is Some,
        atom_of(c) is Some,
        infix_of(t1) == Some((bp1, InfixKind::Binary(op1))),
        infix_of(t2) == Some((bp2, InfixKind::Binary(op2))),
        bp1 < bp2,
    ensures
        expr_rule(seq5(a, t1, b, t2, c), 0, 0) == Ok::<(ExprModel, nat), Fault<'src>>(
            (
                binary(op1, atom_of(a)->Some_0, binary(op2, atom_of(b)->Some_0, atom_of(c)->Some_0)),
                5nat,
            ),
        ),
{
    let toks = seq5(a, t1, b, t2, c);
    let (ea, eb, ec) = (atom_of(a)->Some_0, atom_of(b)->Some_0, atom_of(c)->Some_0);
    let q1 = crate::grammar::rhs_power(bp1, InfixKind::Binary(op1));
    let q2 = crate::grammar::rhs_power(bp2, InfixKind::Binary(op2));
    let bc = binary(op2, eb, ec);
    lemma_atom_at_end(toks, 4, q2);
    assert(infix_rule(toks, bc, 5, q1) == Ok::<(ExprModel, nat), Fault<'src>>((bc, 0nat)));
    assert(prefix_rule(toks, 2) == Ok::<(ExprModel, nat), Fault<'src>>((eb, 1nat)));
    assert(infix_rule(toks, eb, 3, q1) == Ok::<(ExprModel, nat), Fault<'src>>((bc, 2nat)));
    assert(expr_rule(toks, 2, q1) == Ok::<(ExprModel, nat), Fault<'src>>((bc, 3nat)));
    let whole = binary(op1, ea, bc);
    assert(infix_rule(toks, whole, 5, 0) == Ok::<(ExprModel, nat), Fault<'src>>((whole, 0nat)));
    assert(prefix_rule(toks, 0) == Ok::<(ExprModel, nat), Fault<'src>>((ea, 1nat)));
    assert(infix_rule(toks, ea, 1, 0) == Ok::<(ExprModel, nat), Fault<'src>>((whole, 4nat)));
}

/// Left associativity: in `a op1 b op2 c`, where both operators bind
/// equally and group to the left, `a op1 b` is the left operand of `op2`.
pub proof fn lemma_equal_operators_group_left<'src>(
    a: Token<'src>,
    t1: Token<'src>,
    b: Token<'src>,
    t2: Token<'src>,
    c: Token<'src>,
    bp: u8,
    op1: BinOp,
    op2: BinOp,
)
    requires
        atom_of(a) is Some,
        atom_of(b) is Some,
        atom_of(c) is Some,
        infix_of(t1) == Some((bp, InfixKind::Binary(op1))),
        infix_of(t2) == Some((bp, InfixKind::Binary(op2))),
        !crate::grammar::right_assoc(InfixKind::Binary(op1)),
    ensures
        expr_rule(seq5(a, t1, b, t2, c), 0, 0) == Ok::<(ExprModel, nat), Fault<'src>>(
            (
                binary(op2, binary(op1, atom_of(a)->Some_0, atom_of(b)->Some_0), atom_of(c)->Some_0),
                5nat,
            ),
        ),
{
    let toks = seq5(a, t1, b, t2, c);
    let (ea, eb, ec) = (atom_of(a)->Some_0, atom_of(b)->Some_0, atom_of(c)->Some_0);
    let q1 = crate::grammar::rhs_power(bp, InfixKind::Binary(op1));
    let q2 = crate::grammar::rhs_power(bp, InfixKind::Binary(op2));
    assert(q1 == bp + 1);
    assert(prefix_rule(toks, 2) == Ok::<(ExprModel, nat), Fault<'src>>((eb, 1nat)));
    assert(infix_rule(toks, eb, 3, q1) == Ok::<(ExprModel, nat), Fault<'src>>((eb, 0nat)));
    assert(expr_rule(toks, 2, q1) == Ok::<(ExprModel, nat), Fault<'src>>((eb, 1nat)));
    let ab = binary(op1, ea, eb);
    let whole = binary(op2, ab, ec);
    lemma_atom_at_end(toks, 4, q2);
    assert(infix_rule(toks, whole, 5, 0) == Ok::<(ExprModel, nat), Fault<'src>>((whole, 0nat)));
    assert(infix_rule(toks, ab, 3, 0) == Ok::<(ExprModel, nat), Fault<'src>>((whole, 2nat)));
    assert(prefix_rule(toks, 0) == Ok::<(ExprModel, nat), Fault<'src>>((ea, 1nat)));
    assert(infix_rule(toks, ea, 1, 0) == Ok::<(ExprModel, nat), Fault<'src>>((whole, 4nat)));
}

/// Assignment groups to the right: `a = b = c`, with any assignment
/// operators, assigns `b = c` to `a`.
pub proof fn lemma_assignment_groups_right<'src>(
    a: &'src str,
    t1: Token<'src>,
    b: &'src str,
    t2: Token<'src>,
    c: Token<'src>,
    op1: crate::ast::AssignOp,
    op2: crate::ast::AssignOp,
)
    requires
        infix_of(t1) == Some((0u8, InfixKind::Assign(op1))),
        infix_of(t2) == Some((0u8, InfixKind::Assign(op2))),
        atom_of(c) is Some,
    ensures
        expr_rule(seq5(Token::Identifier(a), t1, Token::Identifier(b), t2, c), 0, 0) == Ok::<
            (ExprModel, nat),
            Fault<'src>,
        >(
            (
                ExprModel::Assign {
                    op: op1,
                    lhs: PlaceModel::Var(a@),
                    rhs: Box::new(
                        ExprModel::Assign {
                            op: op2,
                            lhs: PlaceModel::Var(b@),
                            rhs: Box::new(atom_of(c)->Some_0),
                        },
                    ),
                },
                5nat,
            ),
        ),
{
    let toks = seq5(Token::Identifier(a), t1, Token::Identifier(b), t2, c);
    let ec = atom_of(c)->Some_0;
    let ea = ExprModel::Ident(a@);
    let eb = ExprModel::Ident(b@);
    let bc = ExprModel::Assign { op: op2, lhs: PlaceModel::Var(b@), rhs: Box::new(ec) };
    let whole = ExprModel::Assign { op: op1, lhs: PlaceModel::Var(a@), rhs: Box::new(bc) };
    lemma_atom_at_end(toks, 4, 0);
    assert(infix_rule(toks, bc, 5, 0) == Ok::<(ExprModel, nat), Fault<'src>>((bc, 0nat)));
    assert(prefix_rule(toks, 2) == Ok::<(ExprModel, nat), Fault<'src>>((eb, 1nat)));
    assert(infix_rule(toks, eb, 3, 0) == Ok::<(ExprModel, nat), Fault<'src>>((bc, 2nat)));
    assert(expr_rule(toks, 2, 0) == Ok::<(ExprModel, nat), Fault<'src>>((bc, 3nat)));
    assert(infix_rule(toks, whole, 5, 0) == Ok::<(ExprModel, nat), Fault<'src>>((whole, 0nat)));
    assert(prefix_rule(toks, 0) == Ok::<(ExprModel, nat), Fault<'src>>((ea, 1nat)));
    assert(infix_rule(toks, ea, 1, 0) == Ok::<(ExprModel, nat), Fault<'src>>((whole, 4nat)));
}

/// Assigning to a literal is a diagnostic at the assignment operator, never
/// an assignment: `lit op rest` fails for every assignment operator and
/// every continuation.
pub proof fn lemma_literal_is_not_assignable<'src>(lit: Token<'src>, t: Token<'src>, rest: Seq<Token<'src>>, op: crate::ast::AssignOp)
    requires
        atom_of(lit) is Some,
        !(lit is Identifier),
        infix_of(t) == Some((0u8, InfixKind::Assign(op))),
    ensures
        expr_rule(seq![lit, t] + rest, 0, 0) == Err::<(ExprModel, nat), Fault<'src>>(
            Fault { at: 1, err: SyntaxError::Parse(ParseError::InvalidTarget(NOT_ASSIGNABLE)) },
        ),
{
    let toks = seq![lit, t] + rest;
    assert(toks[0] == lit);
    assert(toks[1] == t);
    let e = atom_of(lit)->Some_0;
    assert(prefix_rule(toks, 0) == Ok::<(ExprModel, nat), Fault<'src>>((e, 1nat)));
    assert(crate::grammar::place_of(e) is None);
    assert(infix_rule(toks, e, 1, 0) == Err::<(ExprModel, nat), Fault<'src>>(
        Fault { at: 0, err: SyntaxError::Parse(ParseError::InvalidTarget(NOT_ASSIGNABLE)) },
    ));
}

/// With earlier faults already found, the accumulating pass fails, and its
/// first diagnostic is the first of those.
proof fn lemma_accumulated_fault_stays_first<'src>(
    toks: Seq<Token<'src>>,
    pos: nat,
    done: Seq<StmtModel>,
    faults: Seq<Fault<'src>>,
)
    requires
        faults.len() > 0,
    ensures
        drive(toks, pos, false, done, faults) is Err,
        drive(toks, pos, false, done, faults)->Err_0.len() > 0,
        drive(toks, pos, false, done, faults)->Err_0[0] == faults[0],
    decreases crate::grammar::remaining(toks, pos as int),
{
    if pos < toks.len() {
        let (step, k) = stmt_rule(toks, pos as int);
        let next = pos + 1 + k;
        match step {
            Step::Skipped => lemma_accumulated_fault_stays_first(toks, next, done, faults),
            Step::Parsed(s) => lemma_accumulated_fault_stays_first(toks, next, done.push(s), faults),
            Step::Failed(f) => {
                let g = crate::grammar::later(f, pos);
                lemma_accumulated_fault_stays_first(toks, next, done, faults.push(g));
            },
        }
    }
}

proof fn lemma_fastfail_drive<'src>(toks: Seq<Token<'src>>, pos: nat, done: Seq<StmtModel>)
    ensures
        drive(toks, pos, true, done, Seq::empty()) == match drive(toks, pos, false, done, Seq::empty()) {
            Ok(s) => Ok(s),
            Err(fs) => Err(seq![fs[0]]),
        },
    decreases crate::grammar::remaining(toks, pos as int),
{
    if pos < toks.len() {
        let (step, k) = stmt_rule(toks, pos as int);
        let next = pos + 1 + k;
        match step {
            Step::Skipped => lemma_fastfail_drive(toks, next, done),
            Step::Parsed(s) => lemma_fastfail_drive(toks, next, done.push(s)),
            Step::Failed(f) => {
                let g = crate::grammar::later(f, pos);
                lemma_accumulated_fault_stays_first(toks, next, done, Seq::<Fault<'src>>::empty().push(g));
            },
        }
    }
}

/// Fast-fail stops at the first diagnostic: it succeeds exactly when the
/// accumulating pass does, with the same statements, and otherwise reports
/// only the first diagnostic that pass reports.
pub proof fn lemma_fastfail_reports_first_fault<'src>(toks: Seq<Token<'src>>, pos: nat)
    ensures
        parse_rule(toks, pos, true) == match parse_rule(toks, pos, false) {
            Ok(s) => Ok(s),
            Err(fs) => Err(seq![fs[0]]),
        },
{
    lemma_fastfail_drive(toks, pos, Seq::empty());
}

/// The accumulating pass with statements `done` and faults `faults` already
/// found, in terms of a fresh pass over the same tokens.
pub open spec fn resumed<'src>(
    done: Seq<StmtModel>,
    faults: Seq<Fault<'src>>,
    fresh: Result<Seq<StmtModel>, Seq<Fault<'src>>>,
) -> Result<Seq<StmtModel>, Seq<Fault<'src>>> {
    match fresh {
        Ok(s) => if faults.len() == 0 {
            Ok(done + s)
        } else {
            Err(faults)
        },
        Err(fs) => Err(faults + fs),
    }
}

proof fn lemma_accumulate_from_scratch<'src>(
    toks: Seq<Token<'src>>,
    pos: nat,
    done: Seq<StmtModel>,
    faults: Seq<Fault<'src>>,
)
    ensures
        drive(toks, pos, false, done, faults) == resumed(done, faults, drive(toks, pos, false, Seq::empty(), Seq::empty())),
    decreases crate::grammar::remaining(toks, pos as int),
{
    if pos >= toks.len() {
        assert(done + Seq::<StmtModel>::empty() =~= done);
    } else {
        let (step, k) = stmt_rule(toks, pos as int);
        let next = pos + 1 + k;
        let empty_s = Seq::<StmtModel>::empty();
        let empty_f = Seq::<Fault<'src>>::empty();
        match step {
            Step::Skipped => {
                lemma_accumulate_from_scratch(toks, next, done, faults);
                lemma_accumulate_from_scratch(toks, next, empty_s, empty_f);
                assert(empty_s + empty_s =~= empty_s);
                assert(done + empty_s =~= done);
                assert(empty_f + empty_f =~= empty_f);
                match drive(toks, next, false, empty_s, empty_f) {
                    Ok(s) => assert(empty_s + s =~= s),
                    Err(fs) => assert(empty_f + fs =~= fs),
                }
            },
            Step::Parsed(s) => {
                lemma_accumulate_from_scratch(toks, next, done.push(s), faults);
                lemma_accumulate_from_scratch(toks, next, empty_s.push(s), empty_f);
                lemma_accumulate_from_scratch(toks, next, empty_s, empty_f);
                match drive(toks, next, false, empty_s, empty_f) {
                    Ok(rest) => {
                        assert(empty_s.push(s) + rest =~= seq![s] + rest);
                        assert(done.push(s) + rest =~= done + (seq![s] + rest));
                    },
                    Err(fs) => assert(empty_f + fs =~= fs),
                }
            },
            Step::Failed(f) => {
                let g = crate::grammar::later(f, pos);
                lemma_accumulate_from_scratch(toks, next, done, faults.push(g));
                lemma_accumulate_from_scratch(toks, next, empty_s, empty_f.push(g));
                lemma_accumulate_from_scratch(toks, next, empty_s, empty_f);
                match drive(toks, next, false, empty_s, empty_f) {
                    Ok(rest) => assert(faults + empty_f.push(g) =~= faults.push(g)),
                    Err(fs) => {
                        assert(empty_f.push(g) + fs =~= seq![g] + fs);
                        assert(faults.push(g) + fs =~= faults + (seq![g] + fs));
                    },
                }
            },
        }
    }
}

/// The diagnostics of a pass: none when it succeeds.
pub open spec fn faults_of<'src>(r: Result<Seq<StmtModel>, Seq<Fault<'src>>>) -> Seq<Fault<'src>> {
    match r {
        Ok(_) => Seq::empty(),
        Err(fs) => fs,
    }
}

/// The diagnostic a statement at `pos` adds: one if it is malformed.
pub open spec fn own_faults<'src>(step: Step<'src>, pos: nat) -> Seq<Fault<'src>> {
    match step {
        Step::Failed(f) => seq![crate::grammar::later(f, pos)],
        _ => Seq::empty(),
    }
}

/// What a statement at `pos` contributes to an accumulating pass, put in
/// front of `rest`, the pass over the tokens after it.
pub open spec fn after_step<'src>(
    step: Step<'src>,
    pos: nat,
    rest: Result<Seq<StmtModel>, Seq<Fault<'src>>>,
) -> Result<Seq<StmtModel>, Seq<Fault<'src>>> {
    match step {
        Step::Skipped => rest,
        Step::Parsed(s) => resumed(seq![s], Seq::empty(), rest),
        Step::Failed(f) => resumed(Seq::empty(), seq![crate::grammar::later(f, pos)], rest),
    }
}

/// Without fast-fail, no statement ends the pass: whether it is well formed,
/// passed over or malformed, each statement adds its own part and the pass
/// goes on over the tokens after it. In particular the diagnostics are those
/// of each malformed statement, one apiece, in source order.
pub proof fn lemma_pass_goes_on_after_every_statement<'src>(toks: Seq<Token<'src>>, pos: nat)
    requires
        pos < toks.len(),
    ensures
        parse_rule(toks, pos, false) == after_step(
            stmt_rule(toks, pos as int).0,
            pos,
            parse_rule(toks, pos + 1 + stmt_rule(toks, pos as int).1, false),
        ),
        faults_of(parse_rule(toks, pos, false)) == own_faults(stmt_rule(toks, pos as int).0, pos) + faults_of(
            parse_rule(toks, pos + 1 + stmt_rule(toks, pos as int).1, false),
        ),
{
    let (step, k) = stmt_rule(toks, pos as int);
    let next = pos + 1 + k;
    let empty_s = Seq::<StmtModel>::empty();
    let empty_f = Seq::<Fault<'src>>::empty();
    let rest = parse_rule(toks, next, false);
    match step {
        Step::Skipped => {},
        Step::Parsed(s) => {
            assert(empty_s.push(s) =~= seq![s]);
            lemma_accumulate_from_scratch(toks, next, empty_s.push(s), empty_f);
        },
        Step::Failed(f) => {
            let g = crate::grammar::later(f, pos);
            assert(empty_f.push(g) =~= seq![g]);
            lemma_accumulate_from_scratch(toks, next, empty_s, empty_f.push(g));
        },
    }
    match rest {
        Ok(_) => assert(own_faults(step, pos) + empty_f =~= own_faults(step, pos)),
        Err(fs) => assert(empty_f + fs =~= fs),
    }
}

} // verus!

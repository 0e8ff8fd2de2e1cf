//! Traversal laws.  A complete traversal is modelled as a well-nested tree
//! of hook invocations: each paired construct runs its before hook, its
//! children, and its after hook; leaf hooks and `else` arms stand alone.
//! Over this model the position-stack discipline is proved: the stack
//! returns to its starting depth after every complete construct, branch
//! indices run 0, 1, 2, ... within one construct, and the `else` hook is
//! inert while a conditional expression is open.

use vstd::prelude::*;
use crate::position::{
    AssignDeclarationType, AssignPositionType, AssignStatementBranchItemType, Token, pop_frame,
};
use crate::check_assignment::{
    HandlerPoint, TrackerState, branch_total, case_item_step, case_statement_step,
    declaration_step, decl_branch_frame, decl_branch_item_frame, decl_frame, else_step,
    if_expression_step, if_reset_statement_step, if_statement_step, module_if_declaration_step,
    stmt_branch_frame, stmt_branch_item_frame,
};
use crate::position::AssignStatementBranchType;

verus! {

/// A paired construct: its before hook runs on entry, its after hook on
/// exit, with its children traversed in between.
pub ghost enum ConstructEvent {
    IfExpression,
    IfStatement(Token, usize, bool),
    IfResetStatement(Token, usize, bool, bool),
    CaseStatement(Token, usize, bool),
    CaseItem(Token),
    Declaration(Token, AssignDeclarationType),
    ModuleIfDeclaration(Token, usize, bool),
}

/// One well-nested traversal fragment.
pub ghost enum Walk {
    /// A hook that leaves the position stack as it found it (a binding or
    /// assignment hook, or an unrelated node).
    Leaf,
    /// An `else` arm marker.
    Else(Token),
    /// A paired construct with its children.
    Construct { event: ConstructEvent, children: Box<WalkList> },
}

pub ghost enum WalkList {
    Nil,
    Cons(Box<Walk>, Box<WalkList>),
}

/// The state after one hook invocation at the given point.
pub open spec fn construct_step(
    s: TrackerState,
    e: ConstructEvent,
    point: HandlerPoint,
) -> TrackerState {
    let s = TrackerState { point, ..s };
    match e {
        ConstructEvent::IfExpression => if_expression_step(s),
        ConstructEvent::IfStatement(t, n, h) => if_statement_step(s, t, n, h),
        ConstructEvent::IfResetStatement(t, n, h, a) => if_reset_statement_step(s, t, n, h, a),
        ConstructEvent::CaseStatement(t, b, h) => case_statement_step(s, t, b, h),
        ConstructEvent::CaseItem(t) => case_item_step(s, t),
        ConstructEvent::Declaration(t, d) => declaration_step(s, t, d),
        ConstructEvent::ModuleIfDeclaration(t, n, h) => module_if_declaration_step(s, t, n, h),
    }
}

/// The state after running one traversal fragment.
pub open spec fn run_walk(s: TrackerState, w: Walk) -> TrackerState
    decreases w,
{
    match w {
        Walk::Leaf => s,
        Walk::Else(t) => else_step(TrackerState { point: HandlerPoint::Before, ..s }, t),
        Walk::Construct { event, children } => {
            let entered = construct_step(s, event, HandlerPoint::Before);
            let walked = run_walk_list(entered, *children);
            construct_step(walked, event, HandlerPoint::After)
        },
    }
}

pub open spec fn run_walk_list(s: TrackerState, l: WalkList) -> TrackerState
    decreases l,
{
    match l {
        WalkList::Nil => s,
        WalkList::Cons(w, rest) => run_walk_list(run_walk(s, *w), *rest),
    }
}

proof fn lemma_push_drop_last<A>(s: Seq<A>, x: A)
    ensures
        s.push(x).drop_last() == s,
{
    assert(s.push(x).drop_last() =~= s);
}

/// The push/pop pairing, proved by mutual induction: every fragment
/// preserves the stack depth and everything below the innermost frame, a
/// leaf or complete construct restores the stack exactly, the nesting
/// counter is always restored, and under an open conditional expression
/// the stack is untouched altogether.
pub proof fn lemma_walk_balance(s: TrackerState, w: Walk)
    ensures
        run_walk(s, w).frames.len() == s.frames.len(),
        s.frames.len() > 0 ==> run_walk(s, w).frames.drop_last() == s.frames.drop_last(),
        s.frames.len() == 0 ==> run_walk(s, w).frames == s.frames,
        !(w is Else) ==> run_walk(s, w).frames == s.frames,
        run_walk(s, w).in_if_expression == s.in_if_expression,
        s.in_if_expression >= 1 ==> run_walk(s, w).frames == s.frames,
    decreases w,
{
    match w {
        Walk::Leaf => {},
        Walk::Else(t) => {
            let s1 = TrackerState { point: HandlerPoint::Before, ..s };
            if s1.in_if_expression == 0 && s1.frames.len() > 0 {
                let stepped = else_step(s1, t);
                assert(stepped.frames.len() == s.frames.len());
                assert(stepped.frames.drop_last() =~= s.frames.drop_last());
            }
        },
        Walk::Construct { event, children } => {
            let entered = construct_step(s, event, HandlerPoint::Before);
            let walked = run_walk_list(entered, *children);
            lemma_walk_list_balance(entered, *children);
            match event {
                ConstructEvent::IfExpression => {
                    assert(entered.frames == s.frames);
                    assert(walked.frames == entered.frames);
                },
                ConstructEvent::IfStatement(t, n, h) => {
                    let f1 = stmt_branch_frame(
                        t,
                        branch_total(n, h),
                        h,
                        false,
                        AssignStatementBranchType::If,
                    );
                    let f2 = stmt_branch_item_frame(t, 0, AssignStatementBranchItemType::If);
                    lemma_pop_two(s.frames, f1, f2, walked.frames);
                },
                ConstructEvent::IfResetStatement(t, n, h, a) => {
                    let f1 = stmt_branch_frame(
                        t,
                        branch_total(n, h),
                        h,
                        a,
                        AssignStatementBranchType::IfReset,
                    );
                    let f2 = stmt_branch_item_frame(t, 0, AssignStatementBranchItemType::IfReset);
                    lemma_pop_two(s.frames, f1, f2, walked.frames);
                },
                ConstructEvent::CaseStatement(t, b, h) => {
                    let f1 = stmt_branch_frame(t, b, h, false, AssignStatementBranchType::Case);
                    lemma_pop_one(s.frames, f1, walked.frames);
                },
                ConstructEvent::CaseItem(t) => {
                    let f1 = stmt_branch_item_frame(
                        t,
                        (s.branch_index as usize),
                        AssignStatementBranchItemType::Case,
                    );
                    lemma_pop_one(s.frames, f1, walked.frames);
                },
                ConstructEvent::Declaration(t, d) => {
                    let f1 = decl_frame(t, d);
                    lemma_pop_one(s.frames, f1, walked.frames);
                },
                ConstructEvent::ModuleIfDeclaration(t, n, h) => {
                    let f1 = decl_branch_frame(t, branch_total(n, h));
                    let f2 = decl_branch_item_frame(t, 0);
                    lemma_pop_two(s.frames, f1, f2, walked.frames);
                },
            }
        },
    }
}

pub proof fn lemma_walk_list_balance(s: TrackerState, l: WalkList)
    ensures
        run_walk_list(s, l).frames.len() == s.frames.len(),
        s.frames.len() > 0 ==> run_walk_list(s, l).frames.drop_last() == s.frames.drop_last(),
        s.frames.len() == 0 ==> run_walk_list(s, l).frames == s.frames,
        run_walk_list(s, l).in_if_expression == s.in_if_expression,
        s.in_if_expression >= 1 ==> run_walk_list(s, l).frames == s.frames,
    decreases l,
{
    match l {
        WalkList::Nil => {},
        WalkList::Cons(w, rest) => {
            lemma_walk_balance(s, *w);
            lemma_walk_list_balance(run_walk(s, *w), *rest);
        },
    }
}

/// A construct pushed one frame; its children kept the depth and all of
/// the stack below the innermost frame; one pop restores the base stack.
proof fn lemma_pop_one(
    base: Seq<AssignPositionType>,
    f1: AssignPositionType,
    walked: Seq<AssignPositionType>,
)
    requires
        walked.len() == base.len() + 1,
        walked.drop_last() == base.push(f1).drop_last(),
    ensures
        pop_frame(walked) == base,
{
    lemma_push_drop_last(base, f1);
}

/// As above, for a construct that pushed two frames.
proof fn lemma_pop_two(
    base: Seq<AssignPositionType>,
    f1: AssignPositionType,
    f2: AssignPositionType,
    walked: Seq<AssignPositionType>,
)
    requires
        walked.len() == base.len() + 2,
        walked.drop_last() == base.push(f1).push(f2).drop_last(),
    ensures
        pop_frame(pop_frame(walked)) == base,
{
    lemma_push_drop_last(base.push(f1), f2);
    assert(pop_frame(walked) == base.push(f1));
    lemma_push_drop_last(base, f1);
}

/// Position-stack balance: the stack depth after a complete traversal
/// fragment equals its depth before, and a complete construct — such as a
/// whole top-level declaration — restores the stack exactly, diagnostics
/// or not.
pub proof fn lemma_position_stack_balance(s: TrackerState, w: Walk)
    ensures
        run_walk(s, w).frames.len() == s.frames.len(),
        !(w is Else) ==> run_walk(s, w).frames == s.frames,
{
    lemma_walk_balance(s, w);
}

/// Else-disambiguation: while a value-level conditional expression is
/// open, the `else` hook alters neither the position stack nor the branch
/// index nor anything else of the walker's state.
pub proof fn lemma_else_inert_in_if_expression(s: TrackerState, token: Token)
    requires
        s.in_if_expression > 0,
    ensures
        else_step(s, token) == s,
{
}

/// Running the arms of one `case` construct, each arm a complete
/// before/after pair with nothing between the pairs that touches the
/// running branch index.
pub open spec fn run_case_arms(s: TrackerState, tokens: Seq<Token>) -> TrackerState
    decreases tokens.len(),
{
    if tokens.len() == 0 {
        s
    } else {
        let pushed = case_item_step((TrackerState { point: HandlerPoint::Before, ..s }), tokens[0]);
        let after_first = case_item_step(
            (TrackerState { point: HandlerPoint::After, ..pushed }),
            tokens[0],
        );
        run_case_arms(after_first, tokens.drop_first())
    }
}

/// The walker state just before the j-th arm of the construct.
pub open spec fn arm_state(s: TrackerState, tokens: Seq<Token>, j: int) -> TrackerState {
    run_case_arms(s, tokens.take(j))
}

/// Branch indices are 0-based, strictly increasing in source order, and
/// start afresh at each construct: after entering a `case` statement, the
/// j-th arm finds the running index at exactly j and is pushed with index
/// j.  (The arms' own bodies must not open another branch construct, which
/// would reset the shared running index.)
pub proof fn lemma_case_branch_indices(
    s: TrackerState,
    token: Token,
    branches: usize,
    has_default: bool,
    tokens: Seq<Token>,
    j: int,
)
    requires
        s.point is Before,
        0 <= j < tokens.len(),
    ensures
        arm_state(case_statement_step(s, token, branches, has_default), tokens, j).branch_index
            == j,
        case_item_step(
            (TrackerState {
                point: HandlerPoint::Before,
                ..arm_state(case_statement_step(s, token, branches, has_default), tokens, j)
            }),
            tokens[j],
        ).frames.last() == stmt_branch_item_frame(
            tokens[j],
            (j as usize),
            AssignStatementBranchItemType::Case,
        ),
{
    let entered = case_statement_step(s, token, branches, has_default);
    lemma_case_arm_index(entered, tokens, j);
}

/// After j complete arms, the running branch index has advanced by j.
proof fn lemma_case_arm_index(s: TrackerState, tokens: Seq<Token>, j: int)
    requires
        0 <= j <= tokens.len(),
    ensures
        arm_state(s, tokens, j).branch_index == s.branch_index + j,
    decreases j,
{
    if j == 0 {
        assert(tokens.take(0).len() == 0);
    } else {
        lemma_case_arm_index(s, tokens, j - 1);
        lemma_run_case_arms_snoc(s, tokens.take(j));
        assert(tokens.take(j).drop_last() =~= tokens.take(j - 1));
    }
}

/// Running a chain of `else` arms, each converting the innermost branch
/// item and advancing the running index.
pub open spec fn run_else_arms(s: TrackerState, tokens: Seq<Token>) -> TrackerState
    decreases tokens.len(),
{
    if tokens.len() == 0 {
        s
    } else {
        run_else_arms(
            else_step((TrackerState { point: HandlerPoint::Before, ..s }), tokens[0]),
            tokens.drop_first(),
        )
    }
}

/// The walker state after the first j `else` arms.
pub open spec fn else_state(s: TrackerState, tokens: Seq<Token>, j: int) -> TrackerState {
    run_else_arms(s, tokens.take(j))
}

/// Within an `if` (or generate-`if`) construct, whose entry pushed the
/// first arm with index 0 and set the running index to 1, the j-th `else`
/// arm converts the innermost frame to an else item carrying index j: the
/// arm indices run 0, 1, 2, ... in source order.
pub proof fn lemma_if_else_indices(
    s: TrackerState,
    token: Token,
    n_else_if: usize,
    has_else: bool,
    tokens: Seq<Token>,
    j: int,
)
    requires
        s.point is Before,
        s.in_if_expression == 0,
        1 <= j <= tokens.len(),
    ensures
        if_statement_step(s, token, n_else_if, has_else).frames.last()
            == stmt_branch_item_frame(token, 0, AssignStatementBranchItemType::If),
        else_state(if_statement_step(s, token, n_else_if, has_else), tokens, j).frames.last()
            == stmt_branch_item_frame(tokens[j - 1], (j as usize), AssignStatementBranchItemType::Else),
        else_state(if_statement_step(s, token, n_else_if, has_else), tokens, j).branch_index
            == j + 1,
{
    let entered = if_statement_step(s, token, n_else_if, has_else);
    lemma_else_chain(entered, tokens, j);
}

/// A chain of j `else` arms advances the running index by j, and the last
/// of them leaves an else item carrying the index it was converted with.
proof fn lemma_else_chain(s: TrackerState, tokens: Seq<Token>, j: int)
    requires
        0 <= j <= tokens.len(),
        s.frames.len() > 0,
        s.frames.last() is StatementBranchItem,
        s.in_if_expression == 0,
    ensures
        else_state(s, tokens, j).branch_index == s.branch_index + j,
        else_state(s, tokens, j).frames.len() == s.frames.len(),
        else_state(s, tokens, j).frames.last() is StatementBranchItem,
        else_state(s, tokens, j).in_if_expression == 0,
        j > 0 ==> else_state(s, tokens, j).frames.last() == stmt_branch_item_frame(
            tokens[j - 1],
            ((s.branch_index + j - 1) as usize),
            AssignStatementBranchItemType::Else,
        ),
    decreases j,
{
    if j == 0 {
        assert(tokens.take(0).len() == 0);
    } else {
        let s1 = else_step((TrackerState { point: HandlerPoint::Before, ..s }), tokens[0]);
        assert(s1.frames.last() == stmt_branch_item_frame(
            tokens[0],
            (s.branch_index as usize),
            AssignStatementBranchItemType::Else,
        ));
        assert(s1.frames.len() == s.frames.len());
        lemma_else_chain(s1, tokens.drop_first(), j - 1);
        assert(tokens.take(j).len() == j);
        assert(tokens.take(j)[0] == tokens[0]);
        assert(else_state(s, tokens, j) == run_else_arms(s1, tokens.take(j).drop_first()));
        assert(tokens.take(j).drop_first() =~= tokens.drop_first().take(j - 1));
        if j > 1 {
            assert(tokens.drop_first()[j - 2] == tokens[j - 1]);
        }
    }
}

/// Appending one arm to an arm sequence advances the index once more.
proof fn lemma_run_case_arms_snoc(s: TrackerState, tokens: Seq<Token>)
    requires
        tokens.len() > 0,
    ensures
        run_case_arms(s, tokens).branch_index == run_case_arms(s, tokens.drop_last()).branch_index
            + 1,
    decreases tokens.len(),
{
    if tokens.len() == 1 {
        let pushed = case_item_step((TrackerState { point: HandlerPoint::Before, ..s }), tokens[0]);
        let after_first = case_item_step(
            (TrackerState { point: HandlerPoint::After, ..pushed }),
            tokens[0],
        );
        assert(run_case_arms(s, tokens) == run_case_arms(after_first, tokens.drop_first()));
        assert(tokens.drop_first().len() == 0);
        assert(run_case_arms(after_first, tokens.drop_first()) == after_first);
        assert(tokens.drop_last().len() == 0);
        assert(run_case_arms(s, tokens.drop_last()) == s);
        assert(after_first.branch_index == s.branch_index + 1);
    } else {
        let pushed = case_item_step((TrackerState { point: HandlerPoint::Before, ..s }), tokens[0]);
        let s1 = case_item_step((TrackerState { point: HandlerPoint::After, ..pushed }), tokens[0]);
        assert(run_case_arms(s, tokens) == run_case_arms(s1, tokens.drop_first()));
        assert(tokens.drop_last().len() > 0);
        assert(tokens.drop_last()[0] == tokens[0]);
        assert(run_case_arms(s, tokens.drop_last()) == run_case_arms(
            s1,
            tokens.drop_last().drop_first(),
        ));
        lemma_run_case_arms_snoc(s1, tokens.drop_first());
        assert(tokens.drop_first().drop_last() =~= tokens.drop_last().drop_first());
    }
}

} // verus!

//! Position frames: the typed stack describing where in the control and
//! declaration structure the traversal currently stands.  A snapshot of this
//! stack is attached to every recorded assignment fact.

use vstd::prelude::*;

verus! {

/// A source anchor: the token a frame or diagnostic points back to.
#[derive(Clone, Copy, PartialEq, Eq, Structural, Debug)]
pub struct Token {
    pub id: usize,
}

/// The kind of a branching statement construct.
#[derive(Clone, Copy, PartialEq, Eq, Structural, Debug)]
pub enum AssignStatementBranchType {
    If,
    IfReset,
    Case,
}

/// The kind of one arm of a branching statement.
#[derive(Clone, Copy, PartialEq, Eq, Structural, Debug)]
pub enum AssignStatementBranchItemType {
    If,
    IfReset,
    Case,
    Else,
}

/// The kind of a declaration-level assignment context.
#[derive(Clone, Copy, PartialEq, Eq, Structural, Debug)]
pub enum AssignDeclarationType {
    Let,
    AlwaysFf,
    AlwaysComb,
    Assign,
    Inst,
    Function,
}

/// One frame of the position stack.
#[derive(Clone, Copy, PartialEq, Eq, Structural, Debug)]
pub enum AssignPositionType {
    /// A plain assignment-bearing statement; lives only around one recording.
    Statement { token: Token, resettable: bool },
    /// An enclosing branching statement (`if`, `if_reset`, `case`).
    StatementBranch {
        token: Token,
        branches: usize,
        has_default: bool,
        allow_missing_reset_statement: bool,
        branch_type: AssignStatementBranchType,
    },
    /// One arm of a branching statement, with its 0-based index.
    StatementBranchItem {
        token: Token,
        index: usize,
        item_type: AssignStatementBranchItemType,
    },
    /// A declaration-level context (`let`, `always_ff`, ...).
    Declaration { token: Token, decl_type: AssignDeclarationType },
    /// A generate-`if` style declaration branch.
    DeclarationBranch { token: Token, branches: usize },
    /// One arm of a declaration branch, with its 0-based index.
    DeclarationBranchItem { token: Token, index: usize },
}

/// The position stack: frames from outermost to innermost.
pub struct AssignPosition {
    pub frames: Vec<AssignPositionType>,
}

impl View for AssignPosition {
    type V = Seq<AssignPositionType>;

    open spec fn view(&self) -> Seq<AssignPositionType> {
        self.frames@
    }
}

/// Removing the innermost frame, leaving an empty stack unchanged.
pub open spec fn pop_frame(s: Seq<AssignPositionType>) -> Seq<AssignPositionType> {
    if s.len() == 0 {
        s
    } else {
        s.drop_last()
    }
}

impl AssignPosition {
    pub fn new() -> (r: AssignPosition)
        ensures
            r@ == Seq::<AssignPositionType>::empty(),
    {
        AssignPosition { frames: Vec::new() }
    }

    pub fn len(&self) -> (n: usize)
        ensures
            n == self@.len(),
    {
        self.frames.len()
    }

    pub fn push(&mut self, f: AssignPositionType)
        ensures
            final(self)@ == old(self)@.push(f),
    {
        self.frames.push(f);
    }

    pub fn pop(&mut self) -> (r: Option<AssignPositionType>)
        ensures
            final(self)@ == pop_frame(old(self)@),
            old(self)@.len() == 0 ==> r is None,
            old(self)@.len() > 0 ==> r == Some(old(self)@.last()),
    {
        self.frames.pop()
    }

    /// Replaces the innermost frame.
    pub fn set_last(&mut self, f: AssignPositionType)
        requires
            old(self)@.len() > 0,
        ensures
            final(self)@ == old(self)@.drop_last().push(f),
    {
        let ghost pre = self.frames@;
        let n = self.frames.len();
        self.frames.set(n - 1, f);
        proof {
            assert(self.frames@ =~= pre.drop_last().push(f));
        }
    }

    pub fn last(&self) -> (r: Option<AssignPositionType>)
        ensures
            self@.len() == 0 ==> r is None,
            self@.len() > 0 ==> r == Some(self@.last()),
    {
        if self.frames.len() == 0 {
            None
        } else {
            Some(self.frames[self.frames.len() - 1])
        }
    }

    /// A copy of the current stack, to be stored with a recorded fact.  The
    /// copy must not be affected by later mutation of the live stack.
    pub fn snapshot(&self) -> (v: Vec<AssignPositionType>)
        ensures
            v@ == self@,
    {
        let mut v: Vec<AssignPositionType> = Vec::new();
        let mut i: usize = 0;
        while i < self.frames.len()
            invariant
                i <= self.frames@.len(),
                v@ == self.frames@.subrange(0, i as int),
            decreases self.frames@.len() - i,
        {
            v.push(self.frames[i]);
            proof {
                assert(v@ =~= self.frames@.subrange(0, i + 1 as int));
            }
            i = i + 1;
        }
        proof {
            assert(v@ =~= self.frames@);
        }
        v
    }
}

} // verus!

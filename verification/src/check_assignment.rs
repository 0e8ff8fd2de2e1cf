//! The assignment-position tracker and legality checker: before/after hooks
//! per node kind, driven by a depth-first traversal of the parsed tree.  The
//! walker owns the position stack, the conditional-expression nesting
//! counter, and the running branch index; it records position-tagged
//! assignment facts into the symbol store and collects diagnostics for
//! illegal assignment targets.

use vstd::prelude::*;
use crate::position::{
    AssignDeclarationType, AssignPosition, AssignPositionType, AssignStatementBranchItemType,
    AssignStatementBranchType, Token, pop_frame,
};
use crate::symbol::{
    Connect, Direction, FactModel, PortDecl, Resolution, SymbolId, SymbolKind, SymbolKindName,
    SymbolStore, can_assign, can_assign_spec, copy_vec, facts_model, found_path, kind_name,
    kind_name_spec, lemma_found_wf, resolution_wf, resolve_in, store_wf,
};

verus! {

/// Whether a hook is invoked on traversal entry or exit.
#[derive(Clone, Copy, PartialEq, Eq, Structural, Debug)]
pub enum HandlerPoint {
    Before,
    After,
}

/// One "invalid assignment" diagnostic: the offending symbol's kind, the
/// literal target text, and the source token of the target.
#[derive(PartialEq, Eq, Debug)]
pub struct AnalyzerError {
    pub kind: SymbolKindName,
    pub target: String,
    pub token: Token,
}

/// The project-level diagnostic suppression table, as far as this check
/// consults it: only the "missing reset statement" entry is ever read, for
/// the reset-conditional branch's allow-missing-reset flag.
#[derive(Clone, Copy, PartialEq, Eq, Structural, Debug)]
pub struct AllowTable {
    pub missing_reset_statement: bool,
}

/// A member or index selector trailing the root identifier of a target.
#[derive(Clone, Copy, PartialEq, Eq, Structural, Debug)]
pub enum Select {
    MemberSelect,
    IndexSelect,
}

/// An assignment target expression: the reference to resolve, the root
/// identifier's token and literal text, and the selectors beyond the root.
#[derive(Debug)]
pub struct TargetExpr {
    pub reference: usize,
    pub token: Token,
    pub text: String,
    pub selects: Vec<Select>,
}

/// What follows the identifier in an identifier statement.
#[derive(Clone, Copy, PartialEq, Eq, Structural, Debug)]
pub enum IdentifierStatementGroup {
    Assignment { token: Token },
    FunctionCall,
}

/// An identifier statement node, as far as this check reads it.
#[derive(Debug)]
pub struct IdentifierStatementNode {
    pub target: TargetExpr,
    pub group: IdentifierStatementGroup,
}

/// A continuous-assignment declaration node.
#[derive(Debug)]
pub struct AssignDeclarationNode {
    pub token: Token,
    pub target: TargetExpr,
}

/// One arm of a `case` statement: an expression arm or the default arm.
#[derive(Clone, Copy, PartialEq, Eq, Structural, Debug)]
pub enum CaseItemGroup {
    Expression,
    Defaul,
}

/// The mathematical state of the walker: the position stack, the running
/// branch index, the conditional-expression nesting depth, and the point.
pub ghost struct TrackerState {
    pub frames: Seq<AssignPositionType>,
    pub branch_index: nat,
    pub in_if_expression: nat,
    pub point: HandlerPoint,
}

// Frame constructors shared by the contracts and the state-machine steps.

pub open spec fn stmt_frame(token: Token, resettable: bool) -> AssignPositionType {
    AssignPositionType::Statement { token, resettable }
}

pub open spec fn stmt_branch_frame(
    token: Token,
    branches: usize,
    has_default: bool,
    allow_missing_reset_statement: bool,
    branch_type: AssignStatementBranchType,
) -> AssignPositionType {
    AssignPositionType::StatementBranch {
        token,
        branches,
        has_default,
        allow_missing_reset_statement,
        branch_type,
    }
}

pub open spec fn stmt_branch_item_frame(
    token: Token,
    index: usize,
    item_type: AssignStatementBranchItemType,
) -> AssignPositionType {
    AssignPositionType::StatementBranchItem { token, index, item_type }
}

pub open spec fn decl_frame(token: Token, decl_type: AssignDeclarationType) -> AssignPositionType {
    AssignPositionType::Declaration { token, decl_type }
}

pub open spec fn decl_branch_frame(token: Token, branches: usize) -> AssignPositionType {
    AssignPositionType::DeclarationBranch { token, branches }
}

pub open spec fn decl_branch_item_frame(token: Token, index: usize) -> AssignPositionType {
    AssignPositionType::DeclarationBranchItem { token, index }
}

/// Total arm count of a branching construct: the leading arm, the else-if
/// arms, and the trailing else arm if present.
pub open spec fn branch_total(n_else_if: usize, has_else: bool) -> usize {
    if has_else {
        ((n_else_if + 2) as usize)
    } else {
        ((n_else_if + 1) as usize)
    }
}

pub open spec fn case_has_default(items: Seq<CaseItemGroup>) -> bool {
    exists|i: int| 0 <= i < items.len() && (#[trigger] items[i]) is Defaul
}

// The state-machine steps.  Each hook's contract states that the walker's
// state evolves exactly by the corresponding step; the traversal laws are
// proved over these functions.

/// The `else` hook: gated by the conditional-expression depth, it converts
/// the innermost branch-item frame into an else-tagged item carrying the
/// running branch index, and advances the index.
pub open spec fn else_step(s: TrackerState, token: Token) -> TrackerState {
    if !(s.point is Before) || s.in_if_expression > 0 || s.frames.len() == 0 {
        s
    } else {
        let item = if s.frames.last() is StatementBranchItem {
            stmt_branch_item_frame(
                token,
                (s.branch_index as usize),
                AssignStatementBranchItemType::Else,
            )
        } else {
            decl_branch_item_frame(token, (s.branch_index as usize))
        };
        TrackerState { frames: s.frames.drop_last().push(item), branch_index: s.branch_index + 1, ..s }
    }
}

/// Entering or leaving a value-level conditional expression only moves the
/// nesting counter; the position stack is untouched.
pub open spec fn if_expression_step(s: TrackerState) -> TrackerState {
    if s.point is Before {
        TrackerState { in_if_expression: s.in_if_expression + 1, ..s }
    } else if s.in_if_expression > 0 {
        TrackerState { in_if_expression: (s.in_if_expression - 1) as nat, ..s }
    } else {
        s
    }
}

pub open spec fn if_statement_step(
    s: TrackerState,
    token: Token,
    n_else_if: usize,
    has_else: bool,
) -> TrackerState {
    if s.point is Before {
        TrackerState {
            frames: s.frames.push(
                stmt_branch_frame(
                    token,
                    branch_total(n_else_if, has_else),
                    has_else,
                    false,
                    AssignStatementBranchType::If,
                ),
            ).push(stmt_branch_item_frame(token, 0, AssignStatementBranchItemType::If)),
            branch_index: 1,
            ..s
        }
    } else {
        TrackerState { frames: pop_frame(pop_frame(s.frames)), ..s }
    }
}

pub open spec fn if_reset_statement_step(
    s: TrackerState,
    token: Token,
    n_else_if: usize,
    has_else: bool,
    allow_missing_reset_statement: bool,
) -> TrackerState {
    if s.point is Before {
        TrackerState {
            frames: s.frames.push(
                stmt_branch_frame(
                    token,
                    branch_total(n_else_if, has_else),
                    has_else,
                    allow_missing_reset_statement,
                    AssignStatementBranchType::IfReset,
                ),
            ).push(stmt_branch_item_frame(token, 0, AssignStatementBranchItemType::IfReset)),
            branch_index: 1,
            ..s
        }
    } else {
        TrackerState { frames: pop_frame(pop_frame(s.frames)), ..s }
    }
}

pub open spec fn case_statement_step(
    s: TrackerState,
    token: Token,
    branches: usize,
    has_default: bool,
) -> TrackerState {
    if s.point is Before {
        TrackerState {
            frames: s.frames.push(
                stmt_branch_frame(token, branches, has_default, false, AssignStatementBranchType::Case),
            ),
            branch_index: 0,
            ..s
        }
    } else {
        TrackerState { frames: pop_frame(s.frames), ..s }
    }
}

pub open spec fn case_item_step(s: TrackerState, token: Token) -> TrackerState {
    if s.point is Before {
        TrackerState {
            frames: s.frames.push(
                stmt_branch_item_frame(
                    token,
                    (s.branch_index as usize),
                    AssignStatementBranchItemType::Case,
                ),
            ),
            branch_index: s.branch_index + 1,
            ..s
        }
    } else {
        TrackerState { frames: pop_frame(s.frames), ..s }
    }
}

/// A declaration-level context (`always_ff`, `always_comb`, `function`):
/// one frame around the nested statements.
pub open spec fn declaration_step(
    s: TrackerState,
    token: Token,
    decl_type: AssignDeclarationType,
) -> TrackerState {
    if s.point is Before {
        TrackerState { frames: s.frames.push(decl_frame(token, decl_type)), ..s }
    } else {
        TrackerState { frames: pop_frame(s.frames), ..s }
    }
}

pub open spec fn module_if_declaration_step(
    s: TrackerState,
    token: Token,
    n_else_if: usize,
    has_else: bool,
) -> TrackerState {
    if s.point is Before {
        TrackerState {
            frames: s.frames.push(decl_branch_frame(token, branch_total(n_else_if, has_else)))
                .push(decl_branch_item_frame(token, 0)),
            branch_index: 1,
            ..s
        }
    } else {
        TrackerState { frames: pop_frame(pop_frame(s.frames)), ..s }
    }
}

// Outcomes of checking an assignment target.

/// What checking one resolved target must do: nothing for an unresolved or
/// external reference, record a fact for a legal target, raise a diagnostic
/// for an illegal one.
pub ghost enum TargetCheck {
    Skip,
    Record { path: Seq<SymbolId>, partial: bool },
    Reject { kind: SymbolKindName },
}

/// The kind name reported for an illegal target: the leaf symbol's kind.
pub open spec fn reject_kind(kinds: Seq<SymbolKind>, path: Seq<SymbolId>) -> SymbolKindName {
    if path.len() > 0 && path.last() < kinds.len() {
        kind_name_spec(&kinds[path.last() as int])
    } else {
        SymbolKindName::Variable
    }
}

pub open spec fn check_target_spec(store: &SymbolStore, t: TargetExpr) -> TargetCheck {
    match resolve_in(store.resolutions@, t.reference) {
        Resolution::Found { full_path } => {
            if can_assign_spec(store.symbols@, full_path@) {
                TargetCheck::Record { path: full_path@, partial: t.selects@.len() > 0 }
            } else {
                TargetCheck::Reject { kind: reject_kind(store.symbols@, full_path@) }
            }
        },
        _ => TargetCheck::Skip,
    }
}

/// A binding-style write (`let`, `for` induction variable): no legality
/// check; when the reference resolves to a concrete symbol, exactly one
/// non-partial fact is recorded under the given single-statement frame.
pub open spec fn binding_fact_recorded(
    old_store: &SymbolStore,
    new_store: &SymbolStore,
    s: TrackerState,
    identifier: usize,
    frame: AssignPositionType,
) -> bool {
    let res = resolve_in(old_store.resolutions@, identifier);
    if s.point is Before && res is Found {
        facts_model(new_store.facts@) == facts_model(old_store.facts@).push(
            (FactModel { full_path: found_path(res), position: s.frames.push(frame), partial: false }),
        )
    } else {
        new_store.facts@ == old_store.facts@
    }
}

/// The assignment-position tracker.  One instance walks one source unit.
pub struct CheckAssignment {
    pub errors: Vec<AnalyzerError>,
    pub point: HandlerPoint,
    pub assign_position: AssignPosition,
    pub in_if_expression: usize,
    pub branch_index: usize,
}

impl CheckAssignment {
    pub open spec fn state(&self) -> TrackerState {
        TrackerState {
            frames: self.assign_position@,
            branch_index: self.branch_index as nat,
            in_if_expression: self.in_if_expression as nat,
            point: self.point,
        }
    }

    pub fn new() -> (r: CheckAssignment)
        ensures
            r.state().frames == Seq::<AssignPositionType>::empty(),
            r.state().branch_index == 0,
            r.state().in_if_expression == 0,
            r.state().point is Before,
            r.errors@ == Seq::<AnalyzerError>::empty(),
    {
        CheckAssignment {
            errors: Vec::new(),
            point: HandlerPoint::Before,
            assign_position: AssignPosition::new(),
            in_if_expression: 0,
            branch_index: 0,
        }
    }

    pub fn set_point(&mut self, p: HandlerPoint)
        ensures
            final(self).state() == (TrackerState { point: p, ..old(self).state() }),
            final(self).errors@ == old(self).errors@,
    {
        self.point = p;
    }

    /// Current depth of the position stack.
    pub fn depth(&self) -> (n: usize)
        ensures
            n == self.state().frames.len(),
    {
        self.assign_position.len()
    }

    /// The `else` hook.  The branch-tracking update applies only when no
    /// value-level conditional expression is open: the else then belongs to
    /// the nearest enclosing conditional statement.
    pub fn else_arm(&mut self, token: Token)
        requires
            old(self).state().point is Before && old(self).state().in_if_expression == 0 ==> {
                &&& old(self).state().frames.len() > 0
                &&& old(self).state().branch_index < usize::MAX
            },
        ensures
            final(self).state() == else_step(old(self).state(), token),
            final(self).errors@ == old(self).errors@,
    {
        if matches!(self.point, HandlerPoint::Before) {
            if self.in_if_expression == 0 {
                let last = self.assign_position.last();
                let new_frame = match last {
                    Some(AssignPositionType::StatementBranchItem { .. }) => {
                        AssignPositionType::StatementBranchItem {
                            token,
                            index: self.branch_index,
                            item_type: AssignStatementBranchItemType::Else,
                        }
                    },
                    _ => {
                        AssignPositionType::DeclarationBranchItem {
                            token,
                            index: self.branch_index,
                        }
                    },
                };
                self.assign_position.set_last(new_frame);
                self.branch_index = self.branch_index + 1;
            }
        }
    }

    /// Entry and exit of a value-level conditional expression.
    pub fn if_expression(&mut self)
        requires
            old(self).state().point is Before ==> old(self).state().in_if_expression < usize::MAX,
        ensures
            final(self).state() == if_expression_step(old(self).state()),
            final(self).errors@ == old(self).errors@,
    {
        match self.point {
            HandlerPoint::Before => {
                self.in_if_expression = self.in_if_expression + 1;
            },
            HandlerPoint::After => {
                if self.in_if_expression > 0 {
                    self.in_if_expression = self.in_if_expression - 1;
                }
            },
        }
    }

    /// A `let` binding statement: always legal by construction.
    pub fn let_statement(&mut self, store: &mut SymbolStore, identifier: usize, equ_token: Token)
        ensures
            final(self).state() == old(self).state(),
            final(self).errors@ == old(self).errors@,
            final(store).symbols@ == old(store).symbols@,
            final(store).resolutions@ == old(store).resolutions@,
            binding_fact_recorded(
                old(store),
                final(store),
                old(self).state(),
                identifier,
                stmt_frame(equ_token, false),
            ),
    {
        if matches!(self.point, HandlerPoint::Before) {
            self.record_binding(
                store,
                identifier,
                AssignPositionType::Statement { token: equ_token, resettable: false },
            );
        }
    }

    /// A `for` loop's induction-variable write.
    pub fn for_statement(&mut self, store: &mut SymbolStore, identifier: usize, for_token: Token)
        ensures
            final(self).state() == old(self).state(),
            final(self).errors@ == old(self).errors@,
            final(store).symbols@ == old(store).symbols@,
            final(store).resolutions@ == old(store).resolutions@,
            binding_fact_recorded(
                old(store),
                final(store),
                old(self).state(),
                identifier,
                stmt_frame(for_token, false),
            ),
    {
        if matches!(self.point, HandlerPoint::Before) {
            self.record_binding(
                store,
                identifier,
                AssignPositionType::Statement { token: for_token, resettable: false },
            );
        }
    }

    /// A generate-`for` declaration's induction-variable write.
    pub fn module_for_declaration(
        &mut self,
        store: &mut SymbolStore,
        identifier: usize,
        for_token: Token,
    )
        ensures
            final(self).state() == old(self).state(),
            final(self).errors@ == old(self).errors@,
            final(store).symbols@ == old(store).symbols@,
            final(store).resolutions@ == old(store).resolutions@,
            binding_fact_recorded(
                old(store),
                final(store),
                old(self).state(),
                identifier,
                stmt_frame(for_token, false),
            ),
    {
        if matches!(self.point, HandlerPoint::Before) {
            self.record_binding(
                store,
                identifier,
                AssignPositionType::Statement { token: for_token, resettable: false },
            );
        }
    }

    /// A `let` declaration: a declaration-level binding write.
    pub fn let_declaration(&mut self, store: &mut SymbolStore, identifier: usize, let_token: Token)
        ensures
            final(self).state() == old(self).state(),
            final(self).errors@ == old(self).errors@,
            final(store).symbols@ == old(store).symbols@,
            final(store).resolutions@ == old(store).resolutions@,
            binding_fact_recorded(
                old(store),
                final(store),
                old(self).state(),
                identifier,
                decl_frame(let_token, AssignDeclarationType::Let),
            ),
    {
        if matches!(self.point, HandlerPoint::Before) {
            self.record_binding(
                store,
                identifier,
                AssignPositionType::Declaration {
                    token: let_token,
                    decl_type: AssignDeclarationType::Let,
                },
            );
        }
    }

    /// Pushes the given frame, records one non-partial fact for a resolved
    /// concrete reference, and pops the frame again.
    fn record_binding(&mut self, store: &mut SymbolStore, identifier: usize, frame: AssignPositionType)
        requires
            old(self).state().point is Before,
        ensures
            final(self).state() == old(self).state(),
            final(self).errors@ == old(self).errors@,
            final(store).symbols@ == old(store).symbols@,
            final(store).resolutions@ == old(store).resolutions@,
            binding_fact_recorded(old(store), final(store), old(self).state(), identifier, frame),
    {
        let ghost pre = self.assign_position@;
        if let Some(path) = store.resolve_found(identifier) {
            self.assign_position.push(frame);
            store.add_assign(path, &self.assign_position, false);
            self.assign_position.pop();
            proof {
                assert(self.assign_position@ =~= pre);
            }
        }
    }

    /// An identifier-target assignment statement: the target's legality is
    /// checked; a legal target yields a resettable statement fact whose
    /// partiality reflects trailing selectors, an illegal one a diagnostic.
    pub fn identifier_statement(&mut self, store: &mut SymbolStore, arg: IdentifierStatementNode)
        requires
            store_wf(old(store)),
        ensures
            final(self).state() == old(self).state(),
            final(store).symbols@ == old(store).symbols@,
            final(store).resolutions@ == old(store).resolutions@,
            ({
                if old(self).state().point is Before && arg.group is Assignment {
                    checked_target_outcome(
                        old(store),
                        final(store),
                        old(self).errors@,
                        final(self).errors@,
                        old(self).state(),
                        arg.target,
                        stmt_frame(assignment_token(arg.group), true),
                    )
                } else {
                    final(store).facts@ == old(store).facts@ && final(self).errors@ == old(
                        self,
                    ).errors@
                }
            }),
    {
        if !matches!(self.point, HandlerPoint::Before) {
            return;
        }
        let token = match &arg.group {
            IdentifierStatementGroup::Assignment { token } => *token,
            IdentifierStatementGroup::FunctionCall => {
                return;
            },
        };
        self.check_and_record(
            store,
            arg.target,
            AssignPositionType::Statement { token, resettable: true },
        );
    }

    /// A declaration-level continuous assignment: same legality check, with
    /// a declaration-kind fact on success.
    pub fn assign_declaration(&mut self, store: &mut SymbolStore, arg: AssignDeclarationNode)
        requires
            store_wf(old(store)),
        ensures
            final(self).state() == old(self).state(),
            final(store).symbols@ == old(store).symbols@,
            final(store).resolutions@ == old(store).resolutions@,
            ({
                if old(self).state().point is Before {
                    checked_target_outcome(
                        old(store),
                        final(store),
                        old(self).errors@,
                        final(self).errors@,
                        old(self).state(),
                        arg.target,
                        decl_frame(arg.token, AssignDeclarationType::Assign),
                    )
                } else {
                    final(store).facts@ == old(store).facts@ && final(self).errors@ == old(
                        self,
                    ).errors@
                }
            }),
    {
        if !matches!(self.point, HandlerPoint::Before) {
            return;
        }
        self.check_and_record(
            store,
            arg.target,
            AssignPositionType::Declaration {
                token: arg.token,
                decl_type: AssignDeclarationType::Assign,
            },
        );
    }

    /// Resolves the target, applies the legality rule, and either records a
    /// fact under the given frame or raises an "invalid assignment"
    /// diagnostic.  Unresolved and external targets are skipped by design.
    fn check_and_record(&mut self, store: &mut SymbolStore, target: TargetExpr, frame: AssignPositionType)
        requires
            store_wf(old(store)),
            old(self).state().point is Before,
        ensures
            final(self).state() == old(self).state(),
            final(store).symbols@ == old(store).symbols@,
            final(store).resolutions@ == old(store).resolutions@,
            checked_target_outcome(
                old(store),
                final(store),
                old(self).errors@,
                final(self).errors@,
                old(self).state(),
                target,
                frame,
            ),
    {
        let ghost pre = self.assign_position@;
        let resolved = store.resolve_found(target.reference);
        match resolved {
            Some(path) => {
                proof {
                    let res = resolve_in(store.resolutions@, target.reference);
                    assert(res is Found);
                    assert(target.reference < store.resolutions@.len());
                    assert(resolution_wf(store, store.resolutions@[target.reference as int]));
                    assert(found_path(res).len() > 0);
                    assert(forall|i: int|
                        0 <= i < found_path(res).len() ==> #[trigger] found_path(res)[i]
                            < store.symbols@.len());
                    assert(path@ == found_path(res));
                }
                if can_assign(store, &path) {
                    let partial = target.selects.len() > 0;
                    self.assign_position.push(frame);
                    store.add_assign(path, &self.assign_position, partial);
                    self.assign_position.pop();
                    proof {
                        assert(self.assign_position@ =~= pre);
                    }
                } else {
                    let leaf = path[path.len() - 1];
                    let kname = kind_name(&store.symbols[leaf]);
                    self.errors.push(AnalyzerError {
                        kind: kname,
                        target: target.text,
                        token: target.token,
                    });
                }
            },
            None => {},
        }
    }

    /// An `if` statement: a statement branch with its first arm.
    pub fn if_statement(&mut self, token: Token, n_else_if: usize, has_else: bool)
        requires
            n_else_if <= usize::MAX - 2,
        ensures
            final(self).state() == if_statement_step(old(self).state(), token, n_else_if, has_else),
            final(self).errors@ == old(self).errors@,
    {
        match self.point {
            HandlerPoint::Before => {
                self.branch_index = 0;
                let extra: usize = if has_else {
                    1
                } else {
                    0
                };
                let branches = 1 + n_else_if + extra;
                self.assign_position.push(AssignPositionType::StatementBranch {
                    token,
                    branches,
                    has_default: has_else,
                    allow_missing_reset_statement: false,
                    branch_type: AssignStatementBranchType::If,
                });
                self.assign_position.push(AssignPositionType::StatementBranchItem {
                    token,
                    index: self.branch_index,
                    item_type: AssignStatementBranchItemType::If,
                });
                self.branch_index = self.branch_index + 1;
            },
            HandlerPoint::After => {
                self.assign_position.pop();
                self.assign_position.pop();
            },
        }
    }

    /// A reset-conditional `if` statement; the allow-missing-reset flag is
    /// read from the suppression table.
    pub fn if_reset_statement(
        &mut self,
        allow: &AllowTable,
        token: Token,
        n_else_if: usize,
        has_else: bool,
    )
        requires
            n_else_if <= usize::MAX - 2,
        ensures
            final(self).state() == if_reset_statement_step(
                old(self).state(),
                token,
                n_else_if,
                has_else,
                allow.missing_reset_statement,
            ),
            final(self).errors@ == old(self).errors@,
    {
        match self.point {
            HandlerPoint::Before => {
                self.branch_index = 0;
                let extra: usize = if has_else {
                    1
                } else {
                    0
                };
                let branches = 1 + n_else_if + extra;
                self.assign_position.push(AssignPositionType::StatementBranch {
                    token,
                    branches,
                    has_default: has_else,
                    allow_missing_reset_statement: allow.missing_reset_statement,
                    branch_type: AssignStatementBranchType::IfReset,
                });
                self.assign_position.push(AssignPositionType::StatementBranchItem {
                    token,
                    index: self.branch_index,
                    item_type: AssignStatementBranchItemType::IfReset,
                });
                self.branch_index = self.branch_index + 1;
            },
            HandlerPoint::After => {
                self.assign_position.pop();
                self.assign_position.pop();
            },
        }
    }

    /// A `case` statement: arm count and default presence are taken from
    /// the arms in source order.
    pub fn case_statement(&mut self, token: Token, items: &Vec<CaseItemGroup>)
        ensures
            final(self).state() == case_statement_step(
                old(self).state(),
                token,
                (items@.len() as usize),
                case_has_default(items@),
            ),
            final(self).errors@ == old(self).errors@,
    {
        match self.point {
            HandlerPoint::Before => {
                self.branch_index = 0;
                let branches = items.len();
                let has_default = contains_default(items);
                self.assign_position.push(AssignPositionType::StatementBranch {
                    token,
                    branches,
                    has_default,
                    allow_missing_reset_statement: false,
                    branch_type: AssignStatementBranchType::Case,
                });
            },
            HandlerPoint::After => {
                self.assign_position.pop();
            },
        }
    }

    /// One arm of a `case` statement, indexed in source order.
    pub fn case_item(&mut self, token: Token)
        requires
            old(self).state().point is Before ==> old(self).state().branch_index < usize::MAX,
        ensures
            final(self).state() == case_item_step(old(self).state(), token),
            final(self).errors@ == old(self).errors@,
    {
        match self.point {
            HandlerPoint::Before => {
                self.assign_position.push(AssignPositionType::StatementBranchItem {
                    token,
                    index: self.branch_index,
                    item_type: AssignStatementBranchItemType::Case,
                });
                self.branch_index = self.branch_index + 1;
            },
            HandlerPoint::After => {
                self.assign_position.pop();
            },
        }
    }

    pub fn always_ff_declaration(&mut self, token: Token)
        ensures
            final(self).state() == declaration_step(
                old(self).state(),
                token,
                AssignDeclarationType::AlwaysFf,
            ),
            final(self).errors@ == old(self).errors@,
    {
        self.declaration_frame(token, AssignDeclarationType::AlwaysFf);
    }

    pub fn always_comb_declaration(&mut self, token: Token)
        ensures
            final(self).state() == declaration_step(
                old(self).state(),
                token,
                AssignDeclarationType::AlwaysComb,
            ),
            final(self).errors@ == old(self).errors@,
    {
        self.declaration_frame(token, AssignDeclarationType::AlwaysComb);
    }

    pub fn function_declaration(&mut self, token: Token)
        ensures
            final(self).state() == declaration_step(
                old(self).state(),
                token,
                AssignDeclarationType::Function,
            ),
            final(self).errors@ == old(self).errors@,
    {
        self.declaration_frame(token, AssignDeclarationType::Function);
    }

    fn declaration_frame(&mut self, token: Token, decl_type: AssignDeclarationType)
        ensures
            final(self).state() == declaration_step(old(self).state(), token, decl_type),
            final(self).errors@ == old(self).errors@,
    {
        match self.point {
            HandlerPoint::Before => {
                self.assign_position.push(AssignPositionType::Declaration { token, decl_type });
            },
            HandlerPoint::After => {
                self.assign_position.pop();
            },
        }
    }

    /// A generate-`if` declaration: a declaration branch with its first arm.
    pub fn module_if_declaration(&mut self, token: Token, n_else_if: usize, has_else: bool)
        requires
            n_else_if <= usize::MAX - 2,
        ensures
            final(self).state() == module_if_declaration_step(
                old(self).state(),
                token,
                n_else_if,
                has_else,
            ),
            final(self).errors@ == old(self).errors@,
    {
        match self.point {
            HandlerPoint::Before => {
                self.branch_index = 0;
                let extra: usize = if has_else {
                    1
                } else {
                    0
                };
                let branches = 1 + n_else_if + extra;
                self.assign_position.push(AssignPositionType::DeclarationBranch { token, branches });
                self.assign_position.push(AssignPositionType::DeclarationBranchItem {
                    token,
                    index: self.branch_index,
                });
                self.branch_index = self.branch_index + 1;
            },
            HandlerPoint::After => {
                self.assign_position.pop();
                self.assign_position.pop();
            },
        }
    }
}

// Instance connections.

/// The declared direction of a named port: the last declaration wins, as a
/// later entry overwrites an earlier one of the same name.
pub open spec fn port_direction(ports: Seq<PortDecl>, name: usize) -> Option<Direction>
    decreases ports.len(),
{
    if ports.len() == 0 {
        None
    } else if ports.last().name == name {
        Some(ports.last().direction)
    } else {
        port_direction(ports.drop_last(), name)
    }
}

/// Whether a looked-up direction makes the connection a write to the target.
pub open spec fn dir_is_output(d: Option<Direction>) -> bool {
    matches!(d, Some(Direction::Output) | Some(Direction::Ref) | Some(Direction::Inout))
}

/// The target paths recorded for one named connection: the resolved path of
/// a non-empty connection whose port direction is output-like, or whose
/// direction is unknown (conservative); nothing otherwise.
pub open spec fn connect_targets(
    resolutions: Seq<Resolution>,
    c: Connect,
    ports: Seq<PortDecl>,
    dir_unknown: bool,
) -> Seq<Seq<SymbolId>> {
    match c.target {
        Option::None => Seq::<Seq<SymbolId>>::empty(),
        Option::Some(t) => {
            if dir_is_output(port_direction(ports, c.name)) || dir_unknown {
                match resolve_in(resolutions, t) {
                    Resolution::Found { full_path } => seq![full_path@],
                    _ => Seq::<Seq<SymbolId>>::empty(),
                }
            } else {
                Seq::<Seq<SymbolId>>::empty()
            }
        },
    }
}

/// The target paths recorded for a connection list, in source order.
pub open spec fn inst_targets(
    resolutions: Seq<Resolution>,
    connects: Seq<Connect>,
    ports: Seq<PortDecl>,
    dir_unknown: bool,
) -> Seq<Seq<SymbolId>>
    decreases connects.len(),
{
    if connects.len() == 0 {
        Seq::<Seq<SymbolId>>::empty()
    } else {
        connect_targets(resolutions, connects[0], ports, dir_unknown) + inst_targets(
            resolutions,
            connects.drop_first(),
            ports,
            dir_unknown,
        )
    }
}

/// The declared ports of the instantiated type, when it resolves to a known
/// module; empty otherwise.
pub open spec fn module_ports_of(
    resolutions: Seq<Resolution>,
    symbols: Seq<SymbolKind>,
    type_ref: usize,
) -> Seq<PortDecl> {
    let res = resolve_in(resolutions, type_ref);
    if res is Found && found_path(res).len() > 0 && found_path(res).last() < symbols.len() {
        match symbols[found_path(res).last() as int] {
            SymbolKind::Module { ports } => ports@,
            _ => Seq::<PortDecl>::empty(),
        }
    } else {
        Seq::<PortDecl>::empty()
    }
}

/// Whether the instantiated type resolves to an opaque external module, so
/// that every connection direction is unknown.
pub open spec fn dir_unknown_of(
    resolutions: Seq<Resolution>,
    symbols: Seq<SymbolKind>,
    type_ref: usize,
) -> bool {
    let res = resolve_in(resolutions, type_ref);
    res is Found && found_path(res).len() > 0 && found_path(res).last() < symbols.len()
        && symbols[found_path(res).last() as int] is SystemVerilog
}

/// All target paths an instance declaration records, in source order.
pub open spec fn inst_recorded_paths(store: &SymbolStore, identifier: usize) -> Seq<Seq<SymbolId>> {
    let res = resolve_in(store.resolutions@, identifier);
    if res is Found && found_path(res).len() > 0 && found_path(res).last() < store.symbols@.len() {
        match store.symbols@[found_path(res).last() as int] {
            SymbolKind::Instance { type_ref, connects } => inst_targets(
                store.resolutions@,
                connects@,
                module_ports_of(store.resolutions@, store.symbols@, type_ref),
                dir_unknown_of(store.resolutions@, store.symbols@, type_ref),
            ),
            _ => Seq::<Seq<SymbolId>>::empty(),
        }
    } else {
        Seq::<Seq<SymbolId>>::empty()
    }
}

/// The fact models produced by recording the given paths under one position
/// snapshot, none of them partial.
pub open spec fn inst_fact_models(
    paths: Seq<Seq<SymbolId>>,
    position: Seq<AssignPositionType>,
) -> Seq<FactModel> {
    paths.map_values(|p: Seq<SymbolId>| FactModel { full_path: p, position, partial: false })
}

pub proof fn lemma_port_direction_push(ports: Seq<PortDecl>, p: PortDecl, name: usize)
    ensures
        port_direction(ports.push(p), name) == (if p.name == name {
            Some(p.direction)
        } else {
            port_direction(ports, name)
        }),
{
    assert(ports.push(p).last() == p);
    assert(ports.push(p).drop_last() =~= ports);
}

pub proof fn lemma_inst_targets_push(
    resolutions: Seq<Resolution>,
    connects: Seq<Connect>,
    c: Connect,
    ports: Seq<PortDecl>,
    dir_unknown: bool,
)
    ensures
        inst_targets(resolutions, connects.push(c), ports, dir_unknown) == inst_targets(
            resolutions,
            connects,
            ports,
            dir_unknown,
        ) + connect_targets(resolutions, c, ports, dir_unknown),
    decreases connects.len(),
{
    if connects.len() == 0 {
        let step = connect_targets(resolutions, c, ports, dir_unknown);
        let rest = connects.push(c).drop_first();
        assert(connects.push(c).len() == 1);
        assert(connects.push(c)[0] == c);
        assert(rest.len() == 0);
        assert(inst_targets(resolutions, rest, ports, dir_unknown)
            == Seq::<Seq<SymbolId>>::empty());
        assert(inst_targets(resolutions, connects.push(c), ports, dir_unknown) == step
            + Seq::<Seq<SymbolId>>::empty());
        assert(inst_targets(resolutions, connects, ports, dir_unknown)
            == Seq::<Seq<SymbolId>>::empty());
        assert(step + Seq::<Seq<SymbolId>>::empty() =~= Seq::<Seq<SymbolId>>::empty() + step);
    } else {
        let head = connect_targets(resolutions, connects[0], ports, dir_unknown);
        let tail = inst_targets(resolutions, connects.drop_first(), ports, dir_unknown);
        let step = connect_targets(resolutions, c, ports, dir_unknown);
        assert(connects.push(c)[0] == connects[0]);
        assert(connects.push(c).drop_first() =~= connects.drop_first().push(c));
        lemma_inst_targets_push(resolutions, connects.drop_first(), c, ports, dir_unknown);
        assert(inst_targets(resolutions, connects.drop_first().push(c), ports, dir_unknown)
            == tail + step);
        assert(inst_targets(resolutions, connects.push(c), ports, dir_unknown) == head + (tail
            + step));
        assert(inst_targets(resolutions, connects, ports, dir_unknown) == head + tail);
        assert(head + (tail + step) =~= (head + tail) + step);
    }
}

fn port_lookup(ports: &Vec<PortDecl>, name: usize) -> (r: Option<Direction>)
    ensures
        r == port_direction(ports@, name),
{
    let mut r: Option<Direction> = None;
    let mut i: usize = 0;
    while i < ports.len()
        invariant
            i <= ports@.len(),
            r == port_direction(ports@.subrange(0, i as int), name),
        decreases ports@.len() - i,
    {
        if ports[i].name == name {
            r = Some(ports[i].direction);
        }
        proof {
            lemma_port_direction_push(ports@.subrange(0, i as int), ports@[i as int], name);
            assert(ports@.subrange(0, i + 1 as int) =~= ports@.subrange(0, i as int).push(
                ports@[i as int],
            ));
        }
        i = i + 1;
    }
    proof {
        assert(ports@.subrange(0, ports@.len() as int) =~= ports@);
    }
    r
}

impl CheckAssignment {
    /// An instance declaration: when the instantiated type is a known
    /// module, each non-empty connection to an output-like port is treated
    /// as a write to the connected target; when the type is opaque, every
    /// non-empty connection is (conservatively).  No legality diagnostic is
    /// raised for instance connections.
    pub fn inst_declaration(&mut self, store: &mut SymbolStore, identifier: usize, inst_token: Token)
        requires
            store_wf(old(store)),
        ensures
            final(self).state() == old(self).state(),
            final(self).errors@ == old(self).errors@,
            final(store).symbols@ == old(store).symbols@,
            final(store).resolutions@ == old(store).resolutions@,
            ({
                if old(self).state().point is Before {
                    facts_model(final(store).facts@) == facts_model(old(store).facts@)
                        + inst_fact_models(
                        inst_recorded_paths(old(store), identifier),
                        old(self).state().frames.push(
                            decl_frame(inst_token, AssignDeclarationType::Inst),
                        ),
                    )
                } else {
                    final(store).facts@ == old(store).facts@
                }
            }),
    {
        if !matches!(self.point, HandlerPoint::Before) {
            return;
        }
        let ghost pre_frames = self.assign_position@;
        let ghost res0 = store.resolutions@;
        let ghost sym0 = store.symbols@;
        let ghost facts0 = store.facts@;
        let ghost pos = pre_frames.push(decl_frame(inst_token, AssignDeclarationType::Inst));

        let resolved = store.resolve_found(identifier);
        let path = match resolved {
            Some(p) => p,
            None => {
                proof {
                    lemma_empty_inst_facts(facts0, pos);
                }
                return;
            },
        };
        proof {
            lemma_found_wf(store, identifier);
        }
        let leaf = path[path.len() - 1];
        let info: Option<(usize, Vec<Connect>)> = match &store.symbols[leaf] {
            SymbolKind::Instance { type_ref, connects } => Some((*type_ref, copy_vec(connects))),
            _ => None,
        };
        let (type_ref, connects) = match info {
            Some(x) => x,
            None => {
                proof {
                    lemma_empty_inst_facts(facts0, pos);
                }
                return;
            },
        };

        let mut ports: Vec<PortDecl> = Vec::new();
        let mut dir_unknown = false;
        let tres = store.resolve_found(type_ref);
        match tres {
            Some(tpath) => {
                proof {
                    lemma_found_wf(store, type_ref);
                }
                let tleaf = tpath[tpath.len() - 1];
                match &store.symbols[tleaf] {
                    SymbolKind::Module { ports: declared } => {
                        ports = copy_vec(declared);
                    },
                    SymbolKind::SystemVerilog => {
                        dir_unknown = true;
                    },
                    _ => {},
                }
            },
            None => {},
        }
        proof {
            assert(ports@ == module_ports_of(res0, sym0, type_ref));
            assert(dir_unknown == dir_unknown_of(res0, sym0, type_ref));
        }

        self.assign_position.push(AssignPositionType::Declaration {
            token: inst_token,
            decl_type: AssignDeclarationType::Inst,
        });
        let mut i: usize = 0;
        while i < connects.len()
            invariant
                i <= connects@.len(),
                store.resolutions@ == res0,
                store.symbols@ == sym0,
                self.assign_position@ == pos,
                facts_model(store.facts@) == facts_model(facts0) + inst_fact_models(
                    inst_targets(res0, connects@.subrange(0, i as int), ports@, dir_unknown),
                    pos,
                ),
            decreases connects@.len() - i,
        {
            let ghost facts_before = store.facts@;
            let c = connects[i];
            if let Some(t) = c.target {
                let dir = port_lookup(&ports, c.name);
                let dir_output = matches!(
                    dir,
                    Some(Direction::Output) | Some(Direction::Ref) | Some(Direction::Inout),
                );
                if dir_output || dir_unknown {
                    match store.resolve_found(t) {
                        Some(p3) => {
                            store.add_assign(p3, &self.assign_position, false);
                        },
                        None => {},
                    }
                }
            }
            proof {
                lemma_inst_targets_push(
                    res0,
                    connects@.subrange(0, i as int),
                    connects@[i as int],
                    ports@,
                    dir_unknown,
                );
                assert(connects@.subrange(0, i + 1 as int) =~= connects@.subrange(0, i as int)
                    .push(connects@[i as int]));
                lemma_step_facts(
                    facts0,
                    facts_before,
                    store.facts@,
                    inst_targets(res0, connects@.subrange(0, i as int), ports@, dir_unknown),
                    connect_targets(res0, connects@[i as int], ports@, dir_unknown),
                    pos,
                );
            }
            i = i + 1;
        }
        self.assign_position.pop();
        proof {
            assert(self.assign_position@ =~= pre_frames);
            assert(connects@.subrange(0, connects@.len() as int) =~= connects@);
        }
    }
}

/// Concatenating the fact models of a path list distributes over appending
/// one connection's targets (zero or one paths).
proof fn lemma_step_facts(
    facts0: Seq<crate::symbol::AssignmentFact>,
    facts_before: Seq<crate::symbol::AssignmentFact>,
    facts_after: Seq<crate::symbol::AssignmentFact>,
    done: Seq<Seq<SymbolId>>,
    step: Seq<Seq<SymbolId>>,
    pos: Seq<AssignPositionType>,
)
    requires
        facts_model(facts_before) == facts_model(facts0) + inst_fact_models(done, pos),
        step.len() == 0 ==> facts_after == facts_before,
        step.len() == 1 ==> facts_model(facts_after) == facts_model(facts_before).push(
            (FactModel { full_path: step[0], position: pos, partial: false }),
        ),
        step.len() <= 1,
    ensures
        facts_model(facts_after) == facts_model(facts0) + inst_fact_models(done + step, pos),
{
    if step.len() == 0 {
        assert(inst_fact_models(done + step, pos) =~= inst_fact_models(done, pos));
    } else {
        assert(inst_fact_models(done + step, pos) =~= inst_fact_models(done, pos).push(
            (FactModel { full_path: step[0], position: pos, partial: false }),
        ));
        assert(facts_model(facts0) + inst_fact_models(done + step, pos) =~= (facts_model(facts0)
            + inst_fact_models(done, pos)).push(
            (FactModel { full_path: step[0], position: pos, partial: false }),
        ));
    }
}

/// Recording nothing matches an empty recorded-path list.
proof fn lemma_empty_inst_facts(facts: Seq<crate::symbol::AssignmentFact>, pos: Seq<AssignPositionType>)
    ensures
        facts_model(facts) == facts_model(facts) + inst_fact_models(
            Seq::<Seq<SymbolId>>::empty(),
            pos,
        ),
{
    assert(inst_fact_models(Seq::<Seq<SymbolId>>::empty(), pos) =~= Seq::<FactModel>::empty());
    assert(facts_model(facts) + Seq::<FactModel>::empty() =~= facts_model(facts));
}

/// The outcome relation shared by the two checked-assignment hooks.
pub open spec fn checked_target_outcome(
    old_store: &SymbolStore,
    new_store: &SymbolStore,
    old_errors: Seq<AnalyzerError>,
    new_errors: Seq<AnalyzerError>,
    s: TrackerState,
    target: TargetExpr,
    frame: AssignPositionType,
) -> bool {
    match check_target_spec(old_store, target) {
        TargetCheck::Skip => new_store.facts@ == old_store.facts@ && new_errors == old_errors,
        TargetCheck::Record { path, partial } => {
            &&& facts_model(new_store.facts@) == facts_model(old_store.facts@).push(
                (FactModel { full_path: path, position: s.frames.push(frame), partial }),
            )
            &&& new_errors == old_errors
        },
        TargetCheck::Reject { kind } => {
            &&& new_store.facts@ == old_store.facts@
            &&& new_errors == old_errors.push(
                (AnalyzerError { kind, target: target.text, token: target.token }),
            )
        },
    }
}

/// The partiality flag: a write to the bare root identifier is recorded
/// as not-partial; one with any trailing member or index selector beyond
/// the root is recorded as partial.
pub proof fn lemma_partiality_flag(store: &SymbolStore, t: TargetExpr)
    ensures
        check_target_spec(store, t) matches TargetCheck::Record { path, partial } ==> partial == (
        t.selects@.len() > 0),
{
}

pub open spec fn assignment_token(g: IdentifierStatementGroup) -> Token {
    match g {
        IdentifierStatementGroup::Assignment { token } => token,
        IdentifierStatementGroup::FunctionCall => Token { id: 0 },
    }
}

fn contains_default(items: &Vec<CaseItemGroup>) -> (r: bool)
    ensures
        r == case_has_default(items@),
{
    let mut i: usize = 0;
    let mut found = false;
    while i < items.len()
        invariant
            i <= items@.len(),
            found == (exists|j: int| 0 <= j < i && (#[trigger] items@[j]) is Defaul),
        decreases items@.len() - i,
    {
        if matches!(items[i], CaseItemGroup::Defaul) {
            found = true;
            proof {
                assert(items@[i as int] is Defaul);
            }
        }
        i = i + 1;
    }
    found
}

} // verus!

//! The symbol store: declared identifiers with their kinds, the resolution
//! table for identifier references, and the per-traversal assignment-fact
//! history, together with the pure assignability rule.

use vstd::prelude::*;
use crate::position::{AssignPosition, AssignPositionType};

verus! {

/// Handle to a declared entity, an index into the store's symbol table.
pub type SymbolId = usize;

/// Declared data-flow role of a port or modport member.
#[derive(Clone, Copy, PartialEq, Eq, Structural, Debug)]
pub enum Direction {
    Input,
    Output,
    Inout,
    Ref,
}

/// A declared port of a module: its name and direction.
#[derive(Clone, Copy, PartialEq, Eq, Structural, Debug)]
pub struct PortDecl {
    pub name: usize,
    pub direction: Direction,
}

/// A named port connection of an instance: the port's name and the reference
/// to the connected target expression, `None` when the connection is empty.
#[derive(Clone, Copy, PartialEq, Eq, Structural, Debug)]
pub struct Connect {
    pub name: usize,
    pub target: Option<usize>,
}

/// The kind of a declared symbol, as far as the assignment check reads it.
#[derive(Debug)]
pub enum SymbolKind {
    Variable,
    Port { direction: Direction },
    StructMember,
    UnionMember,
    ModportMember { direction: Direction },
    /// A module instantiation: the reference resolving its type, and its
    /// named port connections in source order.
    Instance { type_ref: usize, connects: Vec<Connect> },
    /// A known module with its declared ports.
    Module { ports: Vec<PortDecl> },
    /// An externally defined module whose port directions cannot be inspected.
    SystemVerilog,
}

/// The payload-free name of a symbol kind, as diagnostics report it.
#[derive(Clone, Copy, PartialEq, Eq, Structural, Debug)]
pub enum SymbolKindName {
    Variable,
    Port,
    StructMember,
    UnionMember,
    ModportMember,
    Instance,
    Module,
    SystemVerilog,
}

pub open spec fn kind_name_spec(k: &SymbolKind) -> SymbolKindName {
    match k {
        SymbolKind::Variable => SymbolKindName::Variable,
        SymbolKind::Port { .. } => SymbolKindName::Port,
        SymbolKind::StructMember => SymbolKindName::StructMember,
        SymbolKind::UnionMember => SymbolKindName::UnionMember,
        SymbolKind::ModportMember { .. } => SymbolKindName::ModportMember,
        SymbolKind::Instance { .. } => SymbolKindName::Instance,
        SymbolKind::Module { .. } => SymbolKindName::Module,
        SymbolKind::SystemVerilog => SymbolKindName::SystemVerilog,
    }
}

pub fn kind_name(k: &SymbolKind) -> (r: SymbolKindName)
    ensures
        r == kind_name_spec(k),
{
    match k {
        SymbolKind::Variable => SymbolKindName::Variable,
        SymbolKind::Port { .. } => SymbolKindName::Port,
        SymbolKind::StructMember => SymbolKindName::StructMember,
        SymbolKind::UnionMember => SymbolKindName::UnionMember,
        SymbolKind::ModportMember { .. } => SymbolKindName::ModportMember,
        SymbolKind::Instance { .. } => SymbolKindName::Instance,
        SymbolKind::Module { .. } => SymbolKindName::Module,
        SymbolKind::SystemVerilog => SymbolKindName::SystemVerilog,
    }
}

/// Result of resolving an identifier reference.
#[derive(Debug)]
pub enum Resolution {
    /// The name is undeclared; nothing is checked or recorded.
    Unresolved,
    /// The reference points into a foreign unit; never checked.
    External,
    /// A concrete symbol: the full path from aggregate root to leaf member.
    Found { full_path: Vec<SymbolId> },
}

/// One recorded assignment fact: the written path, the snapshot of the
/// position stack at recording time, and whether the write covers only a
/// strict sub-part of the target.
#[derive(Debug)]
pub struct AssignmentFact {
    pub full_path: Vec<SymbolId>,
    pub position: Vec<AssignPositionType>,
    pub partial: bool,
}

/// The mathematical value of a recorded fact.
pub ghost struct FactModel {
    pub full_path: Seq<SymbolId>,
    pub position: Seq<AssignPositionType>,
    pub partial: bool,
}

pub open spec fn fact_model(f: AssignmentFact) -> FactModel {
    FactModel { full_path: f.full_path@, position: f.position@, partial: f.partial }
}

pub open spec fn facts_model(fs: Seq<AssignmentFact>) -> Seq<FactModel> {
    fs.map_values(|f: AssignmentFact| fact_model(f))
}

/// The symbol store: symbol kinds indexed by `SymbolId`, resolutions of
/// identifier references indexed by reference id, and the chronological
/// assignment-fact history.
pub struct SymbolStore {
    pub symbols: Vec<SymbolKind>,
    pub resolutions: Vec<Resolution>,
    pub facts: Vec<AssignmentFact>,
}

/// Well-formedness: every resolved path is non-empty and stays inside the
/// symbol table, and every instance's type reference is a known reference.
pub open spec fn store_wf(s: &SymbolStore) -> bool {
    forall|r: int|
        0 <= r < s.resolutions@.len() ==> resolution_wf(s, #[trigger] s.resolutions@[r])
}

pub open spec fn resolution_wf(s: &SymbolStore, r: Resolution) -> bool {
    match r {
        Resolution::Found { full_path } => {
            full_path@.len() > 0 && forall|i: int|
                0 <= i < full_path@.len() ==> #[trigger] full_path@[i] < s.symbols@.len()
        },
        _ => true,
    }
}

/// Whether a root symbol of this kind may be written through, directly or
/// through one of its members.
pub open spec fn is_writable_root(k: &SymbolKind) -> bool {
    match k {
        SymbolKind::Variable => true,
        SymbolKind::Port { direction } => matches!(
            direction,
            Direction::Output | Direction::Ref | Direction::Inout,
        ),
        SymbolKind::ModportMember { direction } => matches!(
            direction,
            Direction::Output | Direction::Ref | Direction::Inout,
        ),
        _ => false,
    }
}

/// The assignability rule over a resolved full path: a plain variable is
/// always writable; an aggregate member inherits writability from the root
/// symbol of the path; a port or modport member is writable for the
/// `Output`, `Ref` and `Inout` directions; everything else is not.
pub open spec fn can_assign_spec(kinds: Seq<SymbolKind>, path: Seq<SymbolId>) -> bool {
    if path.len() == 0 {
        false
    } else if path.last() >= kinds.len() {
        false
    } else {
        match kinds[path.last() as int] {
            SymbolKind::StructMember | SymbolKind::UnionMember => {
                path[0] < kinds.len() && is_writable_root(&kinds[path[0] as int])
            },
            _ => is_writable_root(&kinds[path.last() as int]),
        }
    }
}

fn is_writable_root_exec(k: &SymbolKind) -> (r: bool)
    ensures
        r == is_writable_root(k),
{
    match k {
        SymbolKind::Variable => true,
        SymbolKind::Port { direction } => matches!(
            direction,
            Direction::Output | Direction::Ref | Direction::Inout,
        ),
        SymbolKind::ModportMember { direction } => matches!(
            direction,
            Direction::Output | Direction::Ref | Direction::Inout,
        ),
        _ => false,
    }
}

/// The legality rule: whether the storage named by `full_path` may legally
/// be the target of an assignment.  Pure; raises no diagnostic itself.
pub fn can_assign(store: &SymbolStore, full_path: &Vec<SymbolId>) -> (r: bool)
    ensures
        r == can_assign_spec(store.symbols@, full_path@),
{
    if full_path.len() == 0 {
        return false;
    }
    let leaf = full_path[full_path.len() - 1];
    if leaf >= store.symbols.len() {
        return false;
    }
    match &store.symbols[leaf] {
        SymbolKind::StructMember | SymbolKind::UnionMember => {
            let root = full_path[0];
            if root >= store.symbols.len() {
                false
            } else {
                is_writable_root_exec(&store.symbols[root])
            }
        },
        k => is_writable_root_exec(k),
    }
}

impl SymbolStore {
    pub fn new() -> (r: SymbolStore)
        ensures
            r.symbols@ == Seq::<SymbolKind>::empty(),
            r.resolutions@ == Seq::<Resolution>::empty(),
            r.facts@ == Seq::<AssignmentFact>::empty(),
            store_wf(&r),
    {
        SymbolStore { symbols: Vec::new(), resolutions: Vec::new(), facts: Vec::new() }
    }

    /// Declares a symbol and returns its id.
    pub fn add_symbol(&mut self, kind: SymbolKind) -> (id: SymbolId)
        ensures
            final(self).symbols@ == old(self).symbols@.push(kind),
            id == old(self).symbols@.len(),
            final(self).resolutions@ == old(self).resolutions@,
            final(self).facts@ == old(self).facts@,
            store_wf(old(self)) ==> store_wf(final(self)),
    {
        let id = self.symbols.len();
        self.symbols.push(kind);
        id
    }

    /// Registers the resolution of one identifier reference and returns the
    /// reference id under which the walker will look it up.
    pub fn add_resolution(&mut self, r: Resolution) -> (id: usize)
        requires
            resolution_wf(old(self), r),
        ensures
            final(self).resolutions@ == old(self).resolutions@.push(r),
            id == old(self).resolutions@.len(),
            final(self).symbols@ == old(self).symbols@,
            final(self).facts@ == old(self).facts@,
            store_wf(old(self)) ==> store_wf(final(self)),
    {
        let id = self.resolutions.len();
        self.resolutions.push(r);
        id
    }

    /// Looks a reference up; an unknown reference id counts as unresolved.
    pub fn resolve(&self, reference: usize) -> (r: Option<&Resolution>)
        ensures
            reference < self.resolutions@.len() ==> r == Some(&self.resolutions@[reference as int]),
            reference >= self.resolutions@.len() ==> r is None,
    {
        if reference < self.resolutions.len() {
            Some(&self.resolutions[reference])
        } else {
            None
        }
    }

    /// Resolves a reference to a concrete symbol: the copied full path when
    /// the reference resolves to a found symbol, `None` for an unresolved or
    /// external reference.  The copy leaves the store free for mutation.
    pub fn resolve_found(&self, reference: usize) -> (r: Option<Vec<SymbolId>>)
        ensures
            (r is Some) == (resolve_spec(self, reference) is Found),
            r is Some ==> r.unwrap()@ == found_path(resolve_spec(self, reference)),
    {
        let n = self.resolutions.len();
        if reference >= n {
            return None;
        }
        match &self.resolutions[reference] {
            Resolution::Found { full_path } => Some(copy_vec(full_path)),
            _ => None,
        }
    }

    /// Appends one fact to the assignment history, with a snapshot of the
    /// given position stack.  Call order is preserved.
    pub fn add_assign(&mut self, full_path: Vec<SymbolId>, position: &AssignPosition, partial: bool)
        ensures
            facts_model(final(self).facts@) == facts_model(old(self).facts@).push(
                FactModel { full_path: full_path@, position: position@, partial },
            ),
            final(self).symbols@ == old(self).symbols@,
            final(self).resolutions@ == old(self).resolutions@,
    {
        let ghost pre = self.facts@;
        let ghost fp = full_path@;
        let snap = position.snapshot();
        let fact = AssignmentFact { full_path, position: snap, partial };
        self.facts.push(fact);
        proof {
            assert(facts_model(self.facts@) =~= facts_model(pre).push(
                FactModel { full_path: fp, position: position@, partial },
            ));
        }
    }
}

/// Resolution over the bare resolution table.
pub open spec fn resolve_in(resolutions: Seq<Resolution>, reference: usize) -> Resolution {
    if reference < resolutions.len() {
        resolutions[reference as int]
    } else {
        Resolution::Unresolved
    }
}

pub open spec fn resolve_spec(s: &SymbolStore, reference: usize) -> Resolution {
    resolve_in(s.resolutions@, reference)
}

/// The full path of a found resolution; the empty path otherwise.
pub open spec fn found_path(r: Resolution) -> Seq<SymbolId> {
    match r {
        Resolution::Found { full_path } => full_path@,
        _ => Seq::<SymbolId>::empty(),
    }
}

pub open spec fn is_input_port(k: &SymbolKind) -> bool {
    match k {
        SymbolKind::Port { direction } => direction is Input,
        _ => false,
    }
}

pub open spec fn is_input_modport(k: &SymbolKind) -> bool {
    match k {
        SymbolKind::ModportMember { direction } => direction is Input,
        _ => false,
    }
}

/// The legality decisions: a plain variable is always a legal assignment
/// target; an input-direction port or modport member never is; an
/// aggregate member is legal exactly when the root symbol of its path is
/// writable — so a member rooted at an output port is legal, one rooted
/// at an input port is not.
pub proof fn lemma_legality_decisions(kinds: Seq<SymbolKind>, path: Seq<SymbolId>)
    requires
        path.len() > 0,
        path.last() < kinds.len(),
        path[0] < kinds.len(),
    ensures
        kinds[path.last() as int] is Variable ==> can_assign_spec(kinds, path),
        is_input_port(&kinds[path.last() as int]) ==> !can_assign_spec(kinds, path),
        is_input_modport(&kinds[path.last() as int]) ==> !can_assign_spec(kinds, path),
        kinds[path.last() as int] is StructMember || kinds[path.last() as int] is UnionMember
            ==> can_assign_spec(kinds, path) == is_writable_root(&kinds[path[0] as int]),
{
}

/// In a well-formed store, a found resolution's path is non-empty and all
/// of its symbol ids are in bounds.
pub proof fn lemma_found_wf(s: &SymbolStore, reference: usize)
    requires
        store_wf(s),
        resolve_in(s.resolutions@, reference) is Found,
    ensures
        found_path(resolve_in(s.resolutions@, reference)).len() > 0,
        forall|i: int|
            0 <= i < found_path(resolve_in(s.resolutions@, reference)).len()
                ==> #[trigger] found_path(resolve_in(s.resolutions@, reference))[i]
                < s.symbols@.len(),
{
    assert(reference < s.resolutions@.len());
    assert(resolution_wf(s, s.resolutions@[reference as int]));
}

/// Copies a vector of plain values into an owned vector.
pub fn copy_vec<T: Copy>(p: &Vec<T>) -> (r: Vec<T>)
    ensures
        r@ == p@,
{
    let mut r: Vec<T> = Vec::new();
    let mut i: usize = 0;
    while i < p.len()
        invariant
            i <= p@.len(),
            r@ == p@.subrange(0, i as int),
        decreases p@.len() - i,
    {
        r.push(p[i]);
        proof {
            assert(r@ =~= p@.subrange(0, i + 1 as int));
        }
        i = i + 1;
    }
    proof {
        assert(r@ =~= p@);
    }
    r
}

} // verus!

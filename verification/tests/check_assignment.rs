use veryl::check_assignment::{
    AllowTable, AnalyzerError, AssignDeclarationNode, CaseItemGroup, CheckAssignment,
    HandlerPoint, IdentifierStatementGroup, IdentifierStatementNode, Select, TargetExpr,
};
use veryl::position::{
    AssignDeclarationType, AssignPositionType, AssignStatementBranchItemType,
    AssignStatementBranchType, Token,
};
use veryl::symbol::{
    can_assign, Connect, Direction, PortDecl, Resolution, SymbolKind, SymbolKindName, SymbolStore,
};

fn tok(id: usize) -> Token {
    Token { id }
}

fn assignment_node(reference: usize, text: &str, selects: Vec<Select>, op: usize) -> IdentifierStatementNode {
    IdentifierStatementNode {
        target: TargetExpr {
            reference,
            token: tok(100 + reference),
            text: text.to_string(),
            selects,
        },
        group: IdentifierStatementGroup::Assignment { token: tok(op) },
    }
}

#[test]
fn legality_rule_cases() {
    let mut store = SymbolStore::new();
    let variable = store.add_symbol(SymbolKind::Variable); // 0
    let in_port = store.add_symbol(SymbolKind::Port { direction: Direction::Input }); // 1
    let out_port = store.add_symbol(SymbolKind::Port { direction: Direction::Output }); // 2
    let member = store.add_symbol(SymbolKind::StructMember); // 3
    let in_modport = store.add_symbol(SymbolKind::ModportMember { direction: Direction::Input }); // 4
    let out_modport = store.add_symbol(SymbolKind::ModportMember { direction: Direction::Output }); // 5
    let inout_port = store.add_symbol(SymbolKind::Port { direction: Direction::Inout }); // 6
    let ref_port = store.add_symbol(SymbolKind::Port { direction: Direction::Ref }); // 7

    assert!(can_assign(&store, &vec![variable]));
    assert!(!can_assign(&store, &vec![in_port]));
    assert!(can_assign(&store, &vec![out_port]));
    assert!(can_assign(&store, &vec![inout_port]));
    assert!(can_assign(&store, &vec![ref_port]));
    assert!(!can_assign(&store, &vec![in_modport]));
    assert!(can_assign(&store, &vec![out_modport]));
    // Aggregate members inherit writability from the path's root symbol.
    assert!(can_assign(&store, &vec![variable, member]));
    assert!(can_assign(&store, &vec![out_port, member]));
    assert!(!can_assign(&store, &vec![in_port, member]));
    assert!(!can_assign(&store, &vec![in_modport, member]));
    // The defensive case: an empty path is never writable.
    assert!(!can_assign(&store, &vec![]));
}

#[test]
fn store_resolution_lookup() {
    let mut store = SymbolStore::new();
    let v = store.add_symbol(SymbolKind::Variable);
    let r = store.add_resolution(Resolution::Found { full_path: vec![v] });
    match store.resolve(r) {
        Some(Resolution::Found { full_path }) => assert_eq!(full_path, &vec![v]),
        other => panic!("expected a found resolution, got {:?}", other),
    }
    assert!(store.resolve(r + 100).is_none());
}

#[test]
fn if_else_scenario_two_facts() {
    // `if (c) a = 1; else a = 2;` with `a` a Variable.
    let mut store = SymbolStore::new();
    let a = store.add_symbol(SymbolKind::Variable);
    let a_ref = store.add_resolution(Resolution::Found { full_path: vec![a] });

    let mut c = CheckAssignment::new();
    c.set_point(HandlerPoint::Before);
    c.if_statement(tok(1), 0, true);
    c.identifier_statement(&mut store, assignment_node(a_ref, "a", vec![], 2));
    c.else_arm(tok(3));
    c.identifier_statement(&mut store, assignment_node(a_ref, "a", vec![], 4));
    c.set_point(HandlerPoint::After);
    c.if_statement(tok(1), 0, true);

    assert_eq!(c.errors.len(), 0);
    assert_eq!(store.facts.len(), 2);
    assert_eq!(c.assign_position.frames.len(), 0);

    let branch = AssignPositionType::StatementBranch {
        token: tok(1),
        branches: 2,
        has_default: true,
        allow_missing_reset_statement: false,
        branch_type: AssignStatementBranchType::If,
    };
    assert_eq!(
        store.facts[0].position,
        vec![
            branch,
            AssignPositionType::StatementBranchItem {
                token: tok(1),
                index: 0,
                item_type: AssignStatementBranchItemType::If,
            },
            AssignPositionType::Statement { token: tok(2), resettable: true },
        ],
    );
    assert_eq!(
        store.facts[1].position,
        vec![
            branch,
            AssignPositionType::StatementBranchItem {
                token: tok(3),
                index: 1,
                item_type: AssignStatementBranchItemType::Else,
            },
            AssignPositionType::Statement { token: tok(4), resettable: true },
        ],
    );
    assert!(!store.facts[0].partial);
    assert!(!store.facts[1].partial);
}

#[test]
fn input_port_direct_assignment_rejected() {
    // Assigning to an Input-direction port `p`: zero facts, one diagnostic.
    let mut store = SymbolStore::new();
    let p = store.add_symbol(SymbolKind::Port { direction: Direction::Input });
    let p_ref = store.add_resolution(Resolution::Found { full_path: vec![p] });

    let mut c = CheckAssignment::new();
    c.set_point(HandlerPoint::Before);
    c.identifier_statement(&mut store, assignment_node(p_ref, "p", vec![], 9));

    assert_eq!(store.facts.len(), 0);
    assert_eq!(c.errors.len(), 1);
    assert_eq!(
        c.errors[0],
        AnalyzerError {
            kind: SymbolKindName::Port,
            target: "p".to_string(),
            token: tok(100 + p_ref),
        },
    );
}

#[test]
fn case_three_arms_no_default() {
    let mut store = SymbolStore::new();
    let a = store.add_symbol(SymbolKind::Variable);
    let a_ref = store.add_resolution(Resolution::Found { full_path: vec![a] });

    let items = vec![
        CaseItemGroup::Expression,
        CaseItemGroup::Expression,
        CaseItemGroup::Expression,
    ];
    let mut c = CheckAssignment::new();
    c.set_point(HandlerPoint::Before);
    c.case_statement(tok(1), &items);
    for arm in 0..3usize {
        c.set_point(HandlerPoint::Before);
        c.case_item(tok(10 + arm));
        c.identifier_statement(&mut store, assignment_node(a_ref, "a", vec![], 20 + arm));
        c.set_point(HandlerPoint::After);
        c.case_item(tok(10 + arm));
    }
    c.set_point(HandlerPoint::After);
    c.case_statement(tok(1), &items);

    assert_eq!(store.facts.len(), 3);
    assert_eq!(c.assign_position.frames.len(), 0);
    for arm in 0..3usize {
        let position = &store.facts[arm].position;
        assert_eq!(
            position[0],
            AssignPositionType::StatementBranch {
                token: tok(1),
                branches: 3,
                has_default: false,
                allow_missing_reset_statement: false,
                branch_type: AssignStatementBranchType::Case,
            },
        );
        assert_eq!(
            position[1],
            AssignPositionType::StatementBranchItem {
                token: tok(10 + arm),
                index: arm,
                item_type: AssignStatementBranchItemType::Case,
            },
        );
    }
}

#[test]
fn case_with_default_arm() {
    let items = vec![CaseItemGroup::Expression, CaseItemGroup::Defaul];
    let mut c = CheckAssignment::new();
    c.set_point(HandlerPoint::Before);
    c.case_statement(tok(1), &items);
    match c.assign_position.frames[0] {
        AssignPositionType::StatementBranch { branches, has_default, .. } => {
            assert_eq!(branches, 2);
            assert!(has_default);
        },
        _ => panic!("expected a statement branch frame"),
    }
}

#[test]
fn opaque_instance_records_all_connections() {
    // The instantiated type is an opaque external module: every non-empty
    // named connection records a fact, whatever its direction would be.
    let mut store = SymbolStore::new();
    let opaque = store.add_symbol(SymbolKind::SystemVerilog);
    let type_ref = store.add_resolution(Resolution::Found { full_path: vec![opaque] });
    let a = store.add_symbol(SymbolKind::Variable);
    let b = store.add_symbol(SymbolKind::Variable);
    let a_ref = store.add_resolution(Resolution::Found { full_path: vec![a] });
    let b_ref = store.add_resolution(Resolution::Found { full_path: vec![b] });
    let inst = store.add_symbol(SymbolKind::Instance {
        type_ref,
        connects: vec![
            Connect { name: 1, target: Some(a_ref) },
            Connect { name: 2, target: Some(b_ref) },
            Connect { name: 3, target: None },
        ],
    });
    let inst_ref = store.add_resolution(Resolution::Found { full_path: vec![inst] });

    let mut c = CheckAssignment::new();
    c.set_point(HandlerPoint::Before);
    c.inst_declaration(&mut store, inst_ref, tok(7));

    assert_eq!(store.facts.len(), 2);
    assert_eq!(store.facts[0].full_path, vec![a]);
    assert_eq!(store.facts[1].full_path, vec![b]);
    for fact in &store.facts {
        assert!(!fact.partial);
        assert_eq!(
            fact.position,
            vec![AssignPositionType::Declaration {
                token: tok(7),
                decl_type: AssignDeclarationType::Inst,
            }],
        );
    }
    assert_eq!(c.assign_position.frames.len(), 0);
    assert_eq!(c.errors.len(), 0);
}

#[test]
fn known_module_instance_records_output_connections_only() {
    let mut store = SymbolStore::new();
    let module = store.add_symbol(SymbolKind::Module {
        ports: vec![
            PortDecl { name: 1, direction: Direction::Output },
            PortDecl { name: 2, direction: Direction::Input },
        ],
    });
    let type_ref = store.add_resolution(Resolution::Found { full_path: vec![module] });
    let a = store.add_symbol(SymbolKind::Variable);
    let b = store.add_symbol(SymbolKind::Variable);
    let a_ref = store.add_resolution(Resolution::Found { full_path: vec![a] });
    let b_ref = store.add_resolution(Resolution::Found { full_path: vec![b] });
    let inst = store.add_symbol(SymbolKind::Instance {
        type_ref,
        connects: vec![
            Connect { name: 1, target: Some(a_ref) },
            Connect { name: 2, target: Some(b_ref) },
        ],
    });
    let inst_ref = store.add_resolution(Resolution::Found { full_path: vec![inst] });

    let mut c = CheckAssignment::new();
    c.set_point(HandlerPoint::Before);
    c.inst_declaration(&mut store, inst_ref, tok(7));

    // Only the Output-direction connection is a write.
    assert_eq!(store.facts.len(), 1);
    assert_eq!(store.facts[0].full_path, vec![a]);
}

#[test]
fn else_of_if_expression_does_not_touch_branch_tracking() {
    // An else that belongs to a value-level conditional expression must not
    // advance the enclosing statement's branch tracking.
    let mut c = CheckAssignment::new();
    c.set_point(HandlerPoint::Before);
    c.if_statement(tok(1), 0, true);
    assert_eq!(c.branch_index, 1);

    c.if_expression();
    c.else_arm(tok(2));
    assert_eq!(c.branch_index, 1);
    assert_eq!(
        c.assign_position.frames[1],
        AssignPositionType::StatementBranchItem {
            token: tok(1),
            index: 0,
            item_type: AssignStatementBranchItemType::If,
        },
    );
    c.set_point(HandlerPoint::After);
    c.if_expression();

    // Outside the expression the same else converts the arm and advances.
    c.set_point(HandlerPoint::Before);
    c.else_arm(tok(3));
    assert_eq!(c.branch_index, 2);
    assert_eq!(
        c.assign_position.frames[1],
        AssignPositionType::StatementBranchItem {
            token: tok(3),
            index: 1,
            item_type: AssignStatementBranchItemType::Else,
        },
    );
}

#[test]
fn partiality_of_member_and_index_targets() {
    let mut store = SymbolStore::new();
    let a = store.add_symbol(SymbolKind::Variable);
    let b = store.add_symbol(SymbolKind::StructMember);
    let a_ref = store.add_resolution(Resolution::Found { full_path: vec![a] });
    let ab_ref = store.add_resolution(Resolution::Found { full_path: vec![a, b] });
    let idx_ref = store.add_resolution(Resolution::Found { full_path: vec![a] });

    let mut c = CheckAssignment::new();
    c.set_point(HandlerPoint::Before);
    // `a = ...`
    c.identifier_statement(&mut store, assignment_node(a_ref, "a", vec![], 1));
    // `a.b = ...`
    c.identifier_statement(
        &mut store,
        assignment_node(ab_ref, "a", vec![Select::MemberSelect], 2),
    );
    // `a[0] = ...`
    c.identifier_statement(
        &mut store,
        assignment_node(idx_ref, "a", vec![Select::IndexSelect], 3),
    );

    assert_eq!(store.facts.len(), 3);
    assert!(!store.facts[0].partial);
    assert!(store.facts[1].partial);
    assert!(store.facts[2].partial);
}

#[test]
fn stack_balance_through_nested_traversal() {
    let mut store = SymbolStore::new();
    let p = store.add_symbol(SymbolKind::Port { direction: Direction::Input });
    let p_ref = store.add_resolution(Resolution::Found { full_path: vec![p] });
    let v = store.add_symbol(SymbolKind::Variable);
    let v_ref = store.add_resolution(Resolution::Found { full_path: vec![v] });

    let mut c = CheckAssignment::new();
    assert_eq!(c.depth(), 0);
    c.set_point(HandlerPoint::Before);
    c.always_comb_declaration(tok(1));
    c.if_statement(tok(2), 1, false);
    // A diagnostic raised mid-traversal must not unbalance the stack.
    c.identifier_statement(&mut store, assignment_node(p_ref, "p", vec![], 3));
    c.else_arm(tok(4));
    c.identifier_statement(&mut store, assignment_node(v_ref, "v", vec![], 5));
    c.set_point(HandlerPoint::After);
    c.if_statement(tok(2), 1, false);
    c.always_comb_declaration(tok(1));

    assert_eq!(c.depth(), 0);
    assert_eq!(c.errors.len(), 1);
    assert_eq!(store.facts.len(), 1);
}

#[test]
fn if_reset_reads_suppression_table() {
    let allow = AllowTable { missing_reset_statement: true };
    let mut c = CheckAssignment::new();
    c.set_point(HandlerPoint::Before);
    c.if_reset_statement(&allow, tok(1), 0, false);
    assert_eq!(
        c.assign_position.frames[0],
        AssignPositionType::StatementBranch {
            token: tok(1),
            branches: 1,
            has_default: false,
            allow_missing_reset_statement: true,
            branch_type: AssignStatementBranchType::IfReset,
        },
    );
    assert_eq!(
        c.assign_position.frames[1],
        AssignPositionType::StatementBranchItem {
            token: tok(1),
            index: 0,
            item_type: AssignStatementBranchItemType::IfReset,
        },
    );
    c.set_point(HandlerPoint::After);
    c.if_reset_statement(&allow, tok(1), 0, false);
    assert_eq!(c.depth(), 0);
}

#[test]
fn binding_writes_record_non_resettable_facts() {
    let mut store = SymbolStore::new();
    let v = store.add_symbol(SymbolKind::Variable);
    let v_ref = store.add_resolution(Resolution::Found { full_path: vec![v] });
    let missing_ref = store.add_resolution(Resolution::Unresolved);
    let external_ref = store.add_resolution(Resolution::External);

    let mut c = CheckAssignment::new();
    c.set_point(HandlerPoint::Before);
    c.let_statement(&mut store, v_ref, tok(1));
    c.for_statement(&mut store, v_ref, tok(2));
    c.let_declaration(&mut store, v_ref, tok(3));
    c.module_for_declaration(&mut store, v_ref, tok(4));
    // Resolution misses are skipped silently, by design.
    c.let_statement(&mut store, missing_ref, tok(5));
    c.let_statement(&mut store, external_ref, tok(6));

    assert_eq!(store.facts.len(), 4);
    assert_eq!(
        store.facts[0].position,
        vec![AssignPositionType::Statement { token: tok(1), resettable: false }],
    );
    assert_eq!(
        store.facts[2].position,
        vec![AssignPositionType::Declaration {
            token: tok(3),
            decl_type: AssignDeclarationType::Let,
        }],
    );
    assert_eq!(c.errors.len(), 0);
}

#[test]
fn module_if_declaration_branch_frames() {
    let mut c = CheckAssignment::new();
    c.set_point(HandlerPoint::Before);
    c.module_if_declaration(tok(1), 0, true);
    assert_eq!(
        c.assign_position.frames[0],
        AssignPositionType::DeclarationBranch { token: tok(1), branches: 2 },
    );
    assert_eq!(
        c.assign_position.frames[1],
        AssignPositionType::DeclarationBranchItem { token: tok(1), index: 0 },
    );
    c.else_arm(tok(2));
    assert_eq!(
        c.assign_position.frames[1],
        AssignPositionType::DeclarationBranchItem { token: tok(2), index: 1 },
    );
    c.set_point(HandlerPoint::After);
    c.module_if_declaration(tok(1), 0, true);
    assert_eq!(c.depth(), 0);
}

#[test]
fn assign_declaration_checks_and_records() {
    let mut store = SymbolStore::new();
    let v = store.add_symbol(SymbolKind::Variable);
    let v_ref = store.add_resolution(Resolution::Found { full_path: vec![v] });
    let p = store.add_symbol(SymbolKind::Port { direction: Direction::Input });
    let p_ref = store.add_resolution(Resolution::Found { full_path: vec![p] });

    let mut c = CheckAssignment::new();
    c.set_point(HandlerPoint::Before);
    c.assign_declaration(&mut store, AssignDeclarationNode {
        token: tok(1),
        target: TargetExpr {
            reference: v_ref,
            token: tok(101),
            text: "v".to_string(),
            selects: vec![Select::IndexSelect],
        },
    });
    c.assign_declaration(&mut store, AssignDeclarationNode {
        token: tok(2),
        target: TargetExpr {
            reference: p_ref,
            token: tok(102),
            text: "p".to_string(),
            selects: vec![],
        },
    });

    assert_eq!(store.facts.len(), 1);
    assert!(store.facts[0].partial);
    assert_eq!(
        store.facts[0].position,
        vec![AssignPositionType::Declaration {
            token: tok(1),
            decl_type: AssignDeclarationType::Assign,
        }],
    );
    assert_eq!(c.errors.len(), 1);
    assert_eq!(c.errors[0].kind, SymbolKindName::Port);
    assert_eq!(c.errors[0].target, "p");
    assert_eq!(c.depth(), 0);
}

#[test]
fn function_declaration_frames_nested_statements() {
    let mut store = SymbolStore::new();
    let v = store.add_symbol(SymbolKind::Variable);
    let v_ref = store.add_resolution(Resolution::Found { full_path: vec![v] });

    let mut c = CheckAssignment::new();
    c.set_point(HandlerPoint::Before);
    c.function_declaration(tok(1));
    c.identifier_statement(&mut store, assignment_node(v_ref, "v", vec![], 2));
    c.set_point(HandlerPoint::After);
    c.function_declaration(tok(1));

    assert_eq!(store.facts.len(), 1);
    assert_eq!(
        store.facts[0].position[0],
        AssignPositionType::Declaration {
            token: tok(1),
            decl_type: AssignDeclarationType::Function,
        },
    );
    assert_eq!(c.depth(), 0);
}

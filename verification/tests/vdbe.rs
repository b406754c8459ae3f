use query_plan::error::PlanError;
use query_plan::schema::{BTreeTable, Column};
use query_plan::util::normalize_ident;
use query_plan::vdbe::{BranchOffset, Insn, ProgramBuilder};

#[test]
fn registers_are_numbered_from_zero() {
    let mut program = ProgramBuilder::new();
    assert_eq!(program.register_count(), 0);
    assert_eq!(program.alloc_register().unwrap(), 0);
    assert_eq!(program.alloc_register().unwrap(), 1);
    assert_eq!(program.alloc_register().unwrap(), 2);
    assert_eq!(program.register_count(), 3);
}

#[test]
fn labels_are_fresh_and_unresolved() {
    let mut program = ProgramBuilder::new();
    let a = program.allocate_label();
    let b = program.allocate_label();
    assert_eq!(a, BranchOffset::Label(0));
    assert_eq!(b, BranchOffset::Label(1));
    assert_ne!(a, b);
    assert_eq!(program.label_count(), 2);
    assert_eq!(program.resolved_offset(a), None);
    assert_eq!(program.resolved_offset(b), None);
    assert_eq!(program.resolved_offset(BranchOffset::Label(2)), None);
    assert_eq!(program.resolved_offset(BranchOffset::Offset(0)), None);
}

#[test]
fn offset_is_the_index_of_the_next_instruction() {
    let mut program = ProgramBuilder::new();
    assert_eq!(program.offset(), BranchOffset::Offset(0));
    program.emit_insn(Insn::Integer { value: 1, dest: 0 });
    assert_eq!(program.offset(), BranchOffset::Offset(1));
    let label = program.allocate_label();
    program.emit_insn_with_label_dependency(Insn::Goto { target_pc: label }, label);
    assert_eq!(program.offset(), BranchOffset::Offset(2));
    assert_eq!(program.insn_count(), 2);
}

#[test]
fn a_label_is_resolved_to_the_given_offset() {
    let mut program = ProgramBuilder::new();
    let a = program.allocate_label();
    let b = program.allocate_label();
    program.emit_insn_with_label_dependency(Insn::Goto { target_pc: b }, b);
    program.emit_insn(Insn::Integer { value: 1, dest: 0 });
    let here = program.offset();
    program.resolve_label(b, here);
    assert_eq!(program.resolved_offset(b), Some(2));
    assert_eq!(program.resolved_offset(a), None);
    program.resolve_label(a, BranchOffset::Offset(0));
    assert_eq!(program.resolved_offset(a), Some(0));
    assert_eq!(program.resolved_offset(b), Some(2));
}

#[test]
fn instructions_are_kept_in_program_order() {
    let mut program = ProgramBuilder::new();
    let label = program.allocate_label();
    program.emit_insn(Insn::Integer { value: 5, dest: 1 });
    program.emit_insn_with_label_dependency(
        Insn::If { reg: 1, target_pc: label, null_reg: 1 },
        label,
    );
    program.emit_insn(Insn::String8 { value: "x".to_string(), dest: 2 });
    assert!(matches!(program.insn(0), Insn::Integer { value: 5, dest: 1 }));
    assert!(matches!(program.insn(1), Insn::If { reg: 1, null_reg: 1, .. }));
    assert!(matches!(program.insn(2), Insn::String8 { dest: 2, .. }));
    assert_eq!(program.label_dependency(0), None);
    assert_eq!(program.label_dependency(1), Some(label));
    assert_eq!(program.label_dependency(2), None);
}

#[test]
fn the_last_instruction_is_marked_constant() {
    let mut program = ProgramBuilder::new();
    let label = program.allocate_label();
    program.emit_insn(Insn::Integer { value: 5, dest: 1 });
    program.emit_insn_with_label_dependency(Insn::Goto { target_pc: label }, label);
    assert!(!program.is_constant(0));
    assert!(!program.is_constant(1));
    program.mark_last_insn_constant();
    assert!(!program.is_constant(0));
    assert!(program.is_constant(1));
    assert_eq!(program.label_dependency(1), Some(label));
    assert!(matches!(program.insn(1), Insn::Goto { .. }));
    program.emit_insn(Insn::Integer { value: 6, dest: 2 });
    assert!(!program.is_constant(2));
    assert_eq!(program.insn_count(), 3);
}

#[test]
fn identifiers_are_normalized() {
    assert_eq!(normalize_ident("Foo"), "foo");
    assert_eq!(normalize_ident("FOO_bar9"), "foo_bar9");
    assert_eq!(normalize_ident("\"Foo\""), "foo");
    assert_eq!(normalize_ident("\"\""), "");
    assert_eq!(normalize_ident("\""), "\"");
    assert_eq!(normalize_ident("\"Foo"), "\"foo");
    assert_eq!(normalize_ident("Foo\""), "foo\"");
    assert_eq!(normalize_ident(""), "");
    assert_eq!(normalize_ident("ÀB"), "Àb");
    assert_eq!(normalize_ident("\"ÄÖ\""), "ÄÖ");
    assert_eq!(normalize_ident("[Z]"), "[z]");
}

#[test]
fn columns_are_found_by_name() {
    let table = BTreeTable {
        root_page: 2,
        name: "t".to_string(),
        columns: vec![
            Column { name: "a".to_string() },
            Column { name: "b".to_string() },
            Column { name: "a".to_string() },
        ],
    };
    assert_eq!(table.get_column("a"), Some(0));
    assert_eq!(table.get_column("b"), Some(1));
    assert_eq!(table.get_column("c"), None);
    assert_eq!(table.get_column("A"), None);
    assert_eq!(table.get_column(""), None);
}

#[test]
fn error_messages_name_the_identifier() {
    assert_eq!(
        PlanError::AmbiguousColumn("x".to_string()).message(),
        "ambiguous column name x"
    );
    assert_eq!(PlanError::ColumnNotFound("y".to_string()).message(), "column not found: y");
    assert_eq!(
        PlanError::QualifiedColumnNotFound("t".to_string(), "c".to_string()).message(),
        "column with qualified name t.c not found"
    );
    assert_eq!(PlanError::TableNotFound("t".to_string()).message(), "table not found: t");
    assert_eq!(
        PlanError::CursorNotFound("t".to_string()).message(),
        "could not find cursor for table t"
    );
}

#[test]
fn labels_of_the_builder_are_recognised() {
    let mut program = ProgramBuilder::new();
    assert!(!program.has_label(BranchOffset::Label(0)));
    let label = program.allocate_label();
    assert!(program.has_label(label));
    assert!(!program.has_label(BranchOffset::Label(1)));
    assert!(!program.has_label(BranchOffset::Offset(0)));
    program.resolve_label(label, BranchOffset::Offset(0));
    assert!(program.has_label(label));
}

#[test]
fn a_program_is_closed_once_every_label_in_use_is_bound() {
    let mut program = ProgramBuilder::new();
    assert!(program.is_closed());
    let used = program.allocate_label();
    let unused = program.allocate_label();
    program.emit_insn(Insn::Integer { value: 1, dest: 0 });
    assert!(program.is_closed());
    program.emit_insn_with_label_dependency(
        Insn::IfNot { reg: 0, target_pc: used, null_reg: 0 },
        used,
    );
    assert!(!program.is_closed());
    program.emit_insn(Insn::Integer { value: 2, dest: 1 });
    let here = program.offset();
    program.resolve_label(used, here);
    assert!(program.is_closed());
    assert_eq!(program.resolved_offset(unused), None);
}

#[test]
fn the_finished_program_branches_to_offsets() {
    let mut program = ProgramBuilder::new();
    let skip = program.allocate_label();
    let end = program.allocate_label();
    program.emit_insn(Insn::String8 { value: "x".to_string(), dest: 0 });
    program.mark_last_insn_constant();
    program.emit_insn_with_label_dependency(Insn::Eq { lhs: 0, rhs: 1, target_pc: skip }, skip);
    program.emit_insn_with_label_dependency(Insn::Goto { target_pc: end }, end);
    let here = program.offset();
    program.resolve_label(skip, here);
    program.emit_insn(Insn::Column { cursor_id: 0, column: 1, dest: 2 });
    program.emit_insn_with_label_dependency(
        Insn::If { reg: 2, target_pc: skip, null_reg: 2 },
        skip,
    );
    let here = program.offset();
    program.resolve_label(end, here);
    assert_eq!(
        program.build(),
        vec![
            Insn::String8 { value: "x".to_string(), dest: 0 },
            Insn::Eq { lhs: 0, rhs: 1, target_pc: BranchOffset::Offset(3) },
            Insn::Goto { target_pc: BranchOffset::Offset(5) },
            Insn::Column { cursor_id: 0, column: 1, dest: 2 },
            Insn::If { reg: 2, target_pc: BranchOffset::Offset(3), null_reg: 2 },
        ]
    );
    assert_eq!(program.insn_count(), 5);
    assert!(matches!(program.insn(1), Insn::Eq { target_pc: BranchOffset::Label(0), .. }));
}

#[test]
fn every_kind_of_branch_is_patched() {
    let mut program = ProgramBuilder::new();
    let label = program.allocate_label();
    let branches = vec![
        Insn::Eq { lhs: 1, rhs: 2, target_pc: label },
        Insn::Ne { lhs: 1, rhs: 2, target_pc: label },
        Insn::Lt { lhs: 1, rhs: 2, target_pc: label },
        Insn::Le { lhs: 1, rhs: 2, target_pc: label },
        Insn::Gt { lhs: 1, rhs: 2, target_pc: label },
        Insn::Ge { lhs: 1, rhs: 2, target_pc: label },
        Insn::If { reg: 3, target_pc: label, null_reg: 4 },
        Insn::IfNot { reg: 3, target_pc: label, null_reg: 4 },
        Insn::Goto { target_pc: label },
    ];
    for insn in branches {
        program.emit_insn_with_label_dependency(insn, label);
    }
    program.emit_insn(Insn::Integer { value: 7, dest: 5 });
    program.resolve_label(label, BranchOffset::Offset(9));
    let to = BranchOffset::Offset(9);
    assert_eq!(
        program.build(),
        vec![
            Insn::Eq { lhs: 1, rhs: 2, target_pc: to },
            Insn::Ne { lhs: 1, rhs: 2, target_pc: to },
            Insn::Lt { lhs: 1, rhs: 2, target_pc: to },
            Insn::Le { lhs: 1, rhs: 2, target_pc: to },
            Insn::Gt { lhs: 1, rhs: 2, target_pc: to },
            Insn::Ge { lhs: 1, rhs: 2, target_pc: to },
            Insn::If { reg: 3, target_pc: to, null_reg: 4 },
            Insn::IfNot { reg: 3, target_pc: to, null_reg: 4 },
            Insn::Goto { target_pc: to },
            Insn::Integer { value: 7, dest: 5 },
        ]
    );
}

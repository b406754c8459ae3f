use query_plan::ast::{BinaryOperator, Expression, LikeOperator, Literal, UnaryOperator};
use query_plan::condition::{translate_condition_expr, ConditionMetadata};
use query_plan::error::{PlanError, Unsupported};
use query_plan::expr::translate_expr;
use query_plan::schema::{BTreeTable, Column};
use query_plan::select::{LoopInfo, Select, SrcTable};
use query_plan::vdbe::{BranchOffset, Insn, ProgramBuilder, ScalarFunc};
use query_plan::where_clause::{
    process_where, translate_processed_where, translate_where, ProcessedWhereClause, WhereTerm,
};
use std::rc::Rc;

fn table(root_page: usize, name: &str, columns: &[&str]) -> Rc<BTreeTable> {
    Rc::new(BTreeTable {
        root_page,
        name: name.to_string(),
        columns: columns.iter().map(|c| Column { name: c.to_string() }).collect(),
    })
}

fn id(name: &str) -> Expression {
    Expression::Id(name.to_string())
}

fn number(text: &str) -> Expression {
    Expression::Literal(Literal::Numeric(text.to_string()))
}

fn string(text: &str) -> Expression {
    Expression::Literal(Literal::String(text.to_string()))
}

fn binary(lhs: Expression, op: BinaryOperator, rhs: Expression) -> Expression {
    Expression::Binary(Box::new(lhs), op, Box::new(rhs))
}

/// `FROM t1` with the columns id, a, b; t1 is open at cursor 0.
fn one_table(where_clause: Option<Expression>) -> Select {
    Select {
        where_clause,
        src_tables: vec![SrcTable {
            table: table(2, "t1", &["id", "a", "b"]),
            identifier: "t1".to_string(),
            join_info: None,
        }],
        loops: vec![LoopInfo {
            identifier: "t1".to_string(),
            open_cursor: 0,
            next_row_label: BranchOffset::Label(0),
        }],
    }
}

fn show(program: &ProgramBuilder) -> Vec<String> {
    (0..program.insn_count())
        .map(|i| {
            format!(
                "{:?} {:?}{}",
                program.insn(i),
                program.label_dependency(i),
                if program.is_constant(i) { " constant" } else { "" }
            )
        })
        .collect()
}

/// Compiles a condition under fresh labels 0 (false) and 1 (true).
fn compile(e: &Expression, jump_if_condition_is_true: bool) -> Result<ProgramBuilder, PlanError> {
    let select = one_table(None);
    let mut program = ProgramBuilder::new();
    let jump_target_when_false = program.allocate_label();
    let jump_target_when_true = program.allocate_label();
    translate_condition_expr(
        &mut program,
        &select,
        e,
        None,
        ConditionMetadata { jump_if_condition_is_true, jump_target_when_true, jump_target_when_false },
    )?;
    Ok(program)
}

const FALSE: BranchOffset = BranchOffset::Label(0);
const TRUE: BranchOffset = BranchOffset::Label(1);

#[test]
fn where_with_or_uses_a_local_false_label() {
    let clause = binary(
        binary(id("a"), BinaryOperator::Equals, number("1")),
        BinaryOperator::Or,
        binary(id("b"), BinaryOperator::Equals, number("2")),
    );
    let select = one_table(Some(clause));
    let mut program = ProgramBuilder::new();
    let when_false = translate_where(&select, &mut program).unwrap();
    assert_eq!(when_false, Some(BranchOffset::Label(0)));
    assert_eq!(
        show(&program),
        vec![
            "Column { cursor_id: 0, column: 1, dest: 0 } None",
            "Integer { value: 1, dest: 1 } None constant",
            "Eq { lhs: 0, rhs: 1, target_pc: Label(1) } Some(Label(1))",
            "Column { cursor_id: 0, column: 2, dest: 2 } None",
            "Integer { value: 2, dest: 3 } None constant",
            "Ne { lhs: 2, rhs: 3, target_pc: Label(0) } Some(Label(0))",
        ]
    );
    // The true target lies past the second comparison; the local false
    // label lies between the two comparisons; the false target is left to
    // the caller.
    assert_eq!(program.label_count(), 3);
    assert_eq!(program.resolved_offset(BranchOffset::Label(1)), Some(6));
    assert_eq!(program.resolved_offset(BranchOffset::Label(2)), Some(3));
    assert_eq!(program.resolved_offset(BranchOffset::Label(0)), None);
    assert_eq!(program.register_count(), 4);
}

#[test]
fn where_in_empty_list_branches_to_the_false_target() {
    let clause = Expression::InList { lhs: Box::new(id("id")), not: false, rhs: None };
    let select = one_table(Some(clause));
    let mut program = ProgramBuilder::new();
    let when_false = translate_where(&select, &mut program).unwrap();
    assert_eq!(when_false, Some(BranchOffset::Label(0)));
    assert_eq!(
        show(&program),
        vec![
            "Column { cursor_id: 0, column: 0, dest: 0 } None",
            "Goto { target_pc: Label(0) } Some(Label(0))",
        ]
    );
    assert_eq!(program.resolved_offset(BranchOffset::Label(1)), Some(2));
}

#[test]
fn where_absent_emits_nothing() {
    let select = one_table(None);
    let mut program = ProgramBuilder::new();
    assert_eq!(translate_where(&select, &mut program).unwrap(), None);
    assert_eq!(program.insn_count(), 0);
    assert_eq!(program.label_count(), 0);
    assert_eq!(program.register_count(), 0);
}

#[test]
fn where_leaves_only_its_false_target_unresolved() {
    let clause = binary(
        binary(
            binary(id("a"), BinaryOperator::Equals, number("1")),
            BinaryOperator::Or,
            Expression::InList {
                lhs: Box::new(id("b")),
                not: false,
                rhs: Some(vec![number("1"), number("2"), number("3")]),
            },
        ),
        BinaryOperator::And,
        binary(
            binary(id("a"), BinaryOperator::Less, number("5")),
            BinaryOperator::Or,
            binary(id("b"), BinaryOperator::Greater, id("a")),
        ),
    );
    let select = one_table(Some(clause));
    let mut program = ProgramBuilder::new();
    program.allocate_label();
    program.emit_insn(Insn::Integer { value: 0, dest: 0 });
    let when_false = translate_where(&select, &mut program).unwrap().unwrap();
    assert_eq!(when_false, BranchOffset::Label(1));
    assert!(program.label_count() > 3);
    for n in 2..program.label_count() {
        assert!(program.resolved_offset(BranchOffset::Label(n)).is_some());
    }
    assert_eq!(program.resolved_offset(when_false), None);
    let mut branches = 0;
    for i in 1..program.insn_count() {
        if let Some(label) = program.label_dependency(i) {
            branches += 1;
            assert!(label == when_false || program.resolved_offset(label).is_some());
            let offset = program.resolved_offset(label);
            assert!(offset.is_none() || offset.unwrap() <= program.insn_count());
        }
    }
    assert!(branches >= 6);
    assert!(matches!(program.insn(0), Insn::Integer { value: 0, dest: 0 }));
    assert_eq!(program.resolved_offset(BranchOffset::Label(0)), None);
}

#[test]
fn and_compiles_both_sides_on_falsity() {
    let e = binary(
        binary(id("a"), BinaryOperator::Greater, number("1")),
        BinaryOperator::And,
        binary(id("b"), BinaryOperator::Less, number("2")),
    );
    let program = compile(&e, false).unwrap();
    assert_eq!(
        show(&program),
        vec![
            "Column { cursor_id: 0, column: 1, dest: 0 } None",
            "Integer { value: 1, dest: 1 } None constant",
            "Le { lhs: 0, rhs: 1, target_pc: Label(0) } Some(Label(0))",
            "Column { cursor_id: 0, column: 2, dest: 2 } None",
            "Integer { value: 2, dest: 3 } None constant",
            "Ge { lhs: 2, rhs: 3, target_pc: Label(0) } Some(Label(0))",
        ]
    );
    assert_eq!(program.label_count(), 2);
}

#[test]
fn and_on_truth_branches_on_truth_for_the_right_side_only() {
    let e = binary(
        binary(id("a"), BinaryOperator::Greater, number("1")),
        BinaryOperator::And,
        binary(id("b"), BinaryOperator::Less, number("2")),
    );
    let program = compile(&e, true).unwrap();
    let code = show(&program);
    assert_eq!(code[2], "Le { lhs: 0, rhs: 1, target_pc: Label(0) } Some(Label(0))");
    assert_eq!(code[5], "Lt { lhs: 2, rhs: 3, target_pc: Label(1) } Some(Label(1))");
}

fn branch_of(op: BinaryOperator, jump_if_condition_is_true: bool) -> String {
    let e = binary(id("a"), op, id("b"));
    let program = compile(&e, jump_if_condition_is_true).unwrap();
    assert_eq!(program.insn_count(), 3);
    assert!(!program.is_constant(0));
    assert!(!program.is_constant(1));
    format!("{:?}", program.insn(2))
}

#[test]
fn comparisons_on_truth_are_emitted_as_they_are() {
    assert_eq!(branch_of(BinaryOperator::Greater, true), "Gt { lhs: 0, rhs: 1, target_pc: Label(1) }");
    assert_eq!(branch_of(BinaryOperator::GreaterEquals, true), "Ge { lhs: 0, rhs: 1, target_pc: Label(1) }");
    assert_eq!(branch_of(BinaryOperator::Less, true), "Lt { lhs: 0, rhs: 1, target_pc: Label(1) }");
    assert_eq!(branch_of(BinaryOperator::LessEquals, true), "Le { lhs: 0, rhs: 1, target_pc: Label(1) }");
    assert_eq!(branch_of(BinaryOperator::Equals, true), "Eq { lhs: 0, rhs: 1, target_pc: Label(1) }");
    assert_eq!(branch_of(BinaryOperator::NotEquals, true), "Ne { lhs: 0, rhs: 1, target_pc: Label(1) }");
}

#[test]
fn comparisons_on_falsity_are_negated() {
    assert_eq!(branch_of(BinaryOperator::Greater, false), "Le { lhs: 0, rhs: 1, target_pc: Label(0) }");
    assert_eq!(branch_of(BinaryOperator::GreaterEquals, false), "Lt { lhs: 0, rhs: 1, target_pc: Label(0) }");
    assert_eq!(branch_of(BinaryOperator::Less, false), "Ge { lhs: 0, rhs: 1, target_pc: Label(0) }");
    assert_eq!(branch_of(BinaryOperator::LessEquals, false), "Gt { lhs: 0, rhs: 1, target_pc: Label(0) }");
    assert_eq!(branch_of(BinaryOperator::Equals, false), "Ne { lhs: 0, rhs: 1, target_pc: Label(0) }");
    assert_eq!(branch_of(BinaryOperator::NotEquals, false), "Eq { lhs: 0, rhs: 1, target_pc: Label(0) }");
}

#[test]
fn literal_operands_are_marked_constant() {
    let e = binary(number("1"), BinaryOperator::Equals, string("'x'"));
    let program = compile(&e, false).unwrap();
    assert_eq!(
        show(&program),
        vec![
            "Integer { value: 1, dest: 0 } None constant",
            "String8 { value: \"'x'\", dest: 1 } None constant",
            "Ne { lhs: 0, rhs: 1, target_pc: Label(0) } Some(Label(0))",
        ]
    );
}

#[test]
fn numeric_literal_as_a_condition() {
    let program = compile(&number("1"), false).unwrap();
    assert_eq!(
        show(&program),
        vec![
            "Integer { value: 1, dest: 0 } None",
            "IfNot { reg: 0, target_pc: Label(0), null_reg: 0 } Some(Label(0))",
        ]
    );
    let program = compile(&number("-42"), true).unwrap();
    assert_eq!(
        show(&program),
        vec![
            "Integer { value: -42, dest: 0 } None",
            "If { reg: 0, target_pc: Label(1), null_reg: 0 } Some(Label(1))",
        ]
    );
}

#[test]
fn numeric_literals_are_read_as_64_bit_integers() {
    let value = |text: &str| {
        compile(&number(text), false).map(|program| format!("{:?}", program.insn(0)))
    };
    assert_eq!(value("0").unwrap(), "Integer { value: 0, dest: 0 }");
    assert_eq!(value("+7").unwrap(), "Integer { value: 7, dest: 0 }");
    assert_eq!(value("007").unwrap(), "Integer { value: 7, dest: 0 }");
    assert_eq!(value("-0").unwrap(), "Integer { value: 0, dest: 0 }");
    assert_eq!(
        value("9223372036854775807").unwrap(),
        "Integer { value: 9223372036854775807, dest: 0 }"
    );
    assert_eq!(
        value("-9223372036854775808").unwrap(),
        "Integer { value: -9223372036854775808, dest: 0 }"
    );
    for text in ["9223372036854775808", "-9223372036854775809", "1.5", "", "+", "-", "1e3", " 1", "1 ", "0x10", "1_000"] {
        match value(text) {
            Err(e) => {
                assert!(matches!(e, PlanError::UnsupportedLiteral));
                assert_eq!(e.message(), "unsupported literal type in condition");
            }
            other => panic!("unexpected {:?} for {:?}", other, text),
        }
    }
}

#[test]
fn string_literal_as_a_condition() {
    let program = compile(&string("'abc'"), false).unwrap();
    assert_eq!(
        show(&program),
        vec![
            "String8 { value: \"'abc'\", dest: 0 } None",
            "IfNot { reg: 0, target_pc: Label(0), null_reg: 0 } Some(Label(0))",
        ]
    );
    let program = compile(&string("'abc'"), true).unwrap();
    assert_eq!(
        show(&program)[1],
        "If { reg: 0, target_pc: Label(1), null_reg: 0 } Some(Label(1))"
    );
}

#[test]
fn in_list_on_falsity_uses_a_local_label() {
    let e = Expression::InList {
        lhs: Box::new(id("a")),
        not: false,
        rhs: Some(vec![number("1"), number("2"), number("3")]),
    };
    let program = compile(&e, false).unwrap();
    assert_eq!(
        show(&program),
        vec![
            "Column { cursor_id: 0, column: 1, dest: 0 } None",
            "Integer { value: 1, dest: 1 } None",
            "Eq { lhs: 0, rhs: 1, target_pc: Label(2) } Some(Label(2))",
            "Integer { value: 2, dest: 2 } None",
            "Eq { lhs: 0, rhs: 2, target_pc: Label(2) } Some(Label(2))",
            "Integer { value: 3, dest: 3 } None",
            "Ne { lhs: 0, rhs: 3, target_pc: Label(0) } Some(Label(0))",
        ]
    );
    assert_eq!(program.resolved_offset(BranchOffset::Label(2)), Some(7));
    assert_eq!(program.resolved_offset(FALSE), None);
    assert_eq!(program.resolved_offset(TRUE), None);
}

#[test]
fn in_list_on_truth_branches_to_the_true_target() {
    let e = Expression::InList {
        lhs: Box::new(id("a")),
        not: false,
        rhs: Some(vec![number("1"), number("2")]),
    };
    let program = compile(&e, true).unwrap();
    assert_eq!(
        show(&program),
        vec![
            "Column { cursor_id: 0, column: 1, dest: 0 } None",
            "Integer { value: 1, dest: 1 } None",
            "Eq { lhs: 0, rhs: 1, target_pc: Label(1) } Some(Label(1))",
            "Integer { value: 2, dest: 2 } None",
            "Ne { lhs: 0, rhs: 2, target_pc: Label(0) } Some(Label(0))",
            "Goto { target_pc: Label(1) } Some(Label(1))",
        ]
    );
    assert_eq!(program.label_count(), 2);
}

#[test]
fn not_in_list_branches_to_the_false_target_on_every_match() {
    let e = Expression::InList {
        lhs: Box::new(id("a")),
        not: true,
        rhs: Some(vec![number("1"), number("2")]),
    };
    let program = compile(&e, false).unwrap();
    assert_eq!(
        show(&program),
        vec![
            "Column { cursor_id: 0, column: 1, dest: 0 } None",
            "Integer { value: 1, dest: 1 } None",
            "Eq { lhs: 0, rhs: 1, target_pc: Label(0) } Some(Label(0))",
            "Integer { value: 2, dest: 2 } None",
            "Eq { lhs: 0, rhs: 2, target_pc: Label(0) } Some(Label(0))",
        ]
    );
    assert_eq!(program.label_count(), 3);
    assert_eq!(program.resolved_offset(BranchOffset::Label(2)), Some(5));
    let program = compile(&e, true).unwrap();
    let code = show(&program);
    assert_eq!(code.len(), 6);
    assert_eq!(code[5], "Goto { target_pc: Label(1) } Some(Label(1))");
    assert_eq!(program.label_count(), 2);
}

#[test]
fn in_without_a_list() {
    let e = |not: bool| Expression::InList { lhs: Box::new(id("a")), not, rhs: None };
    let column = "Column { cursor_id: 0, column: 1, dest: 0 } None";
    let goto_false = "Goto { target_pc: Label(0) } Some(Label(0))";
    let goto_true = "Goto { target_pc: Label(1) } Some(Label(1))";
    assert_eq!(show(&compile(&e(false), false).unwrap()), vec![column, goto_false]);
    assert_eq!(show(&compile(&e(false), true).unwrap()), vec![column]);
    assert_eq!(show(&compile(&e(true), false).unwrap()), vec![column]);
    assert_eq!(show(&compile(&e(true), true).unwrap()), vec![column, goto_true]);
}

#[test]
fn in_with_a_list_of_no_items() {
    let e = Expression::InList { lhs: Box::new(id("a")), not: false, rhs: Some(vec![]) };
    let program = compile(&e, false).unwrap();
    assert_eq!(show(&program), vec!["Column { cursor_id: 0, column: 1, dest: 0 } None"]);
    assert_eq!(program.resolved_offset(BranchOffset::Label(2)), Some(1));
}

fn like(not: bool, op: LikeOperator, rhs: Expression) -> Expression {
    Expression::Like { lhs: Box::new(id("a")), not, op, rhs: Box::new(rhs), escape: None }
}

#[test]
fn like_evaluates_the_pattern_first() {
    let program = compile(&like(false, LikeOperator::Like, string("'x%'")), false).unwrap();
    assert_eq!(
        show(&program),
        vec![
            "String8 { value: \"'x%'\", dest: 1 } None constant",
            "Column { cursor_id: 0, column: 1, dest: 2 } None",
            "Function { func: Like, start_reg: 1, dest: 0 } None",
            "IfNot { reg: 0, target_pc: Label(0), null_reg: 0 } Some(Label(0))",
        ]
    );
    assert!(matches!(
        program.insn(2),
        Insn::Function { func: ScalarFunc::Like, start_reg: 1, dest: 0 }
    ));
    assert_eq!(program.register_count(), 3);
}

#[test]
fn like_polarity() {
    let last = |not: bool, jump: bool| {
        let program = compile(&like(not, LikeOperator::Like, string("'x'")), jump).unwrap();
        format!("{:?}", program.insn(3))
    };
    assert_eq!(last(false, true), "If { reg: 0, target_pc: Label(1), null_reg: 0 }");
    assert_eq!(last(false, false), "IfNot { reg: 0, target_pc: Label(0), null_reg: 0 }");
    assert_eq!(last(true, true), "IfNot { reg: 0, target_pc: Label(1), null_reg: 0 }");
    assert_eq!(last(true, false), "If { reg: 0, target_pc: Label(0), null_reg: 0 }");
}

fn unsupported(e: &Expression) -> Unsupported {
    match compile(e, false) {
        Err(PlanError::NotImplemented(what)) => what,
        other => panic!("unexpected {:?}", other.map(|p| show(&p))),
    }
}

#[test]
fn unsupported_shapes_are_reported() {
    let between = Expression::Between {
        lhs: Box::new(id("a")),
        not: false,
        start: Box::new(number("1")),
        end: Box::new(number("2")),
    };
    assert_eq!(unsupported(&between), Unsupported::Between);
    assert_eq!(unsupported(&binary(id("a"), BinaryOperator::Is, id("b"))), Unsupported::Is);
    assert_eq!(unsupported(&binary(id("a"), BinaryOperator::IsNot, id("b"))), Unsupported::IsNot);
    assert_eq!(
        unsupported(&binary(id("a"), BinaryOperator::Add, id("b"))),
        Unsupported::BinaryOperator
    );
    assert_eq!(unsupported(&like(false, LikeOperator::Glob, string("'x'"))), Unsupported::Glob);
    assert_eq!(unsupported(&like(false, LikeOperator::Match, string("'x'"))), Unsupported::Match);
    assert_eq!(unsupported(&like(true, LikeOperator::Regexp, string("'x'"))), Unsupported::Regexp);
    assert_eq!(unsupported(&like(false, LikeOperator::Like, id("b"))), Unsupported::LikePattern);
    assert_eq!(unsupported(&Expression::Literal(Literal::Null)), Unsupported::Literal);
    assert_eq!(
        unsupported(&Expression::Literal(Literal::Blob("00".to_string()))),
        Unsupported::Literal
    );
    assert_eq!(unsupported(&id("a")), Unsupported::Condition);
    assert_eq!(
        unsupported(&Expression::Unary(UnaryOperator::Not, Box::new(id("a")))),
        Unsupported::Condition
    );
    assert_eq!(unsupported(&Expression::IsNull(Box::new(id("a")))), Unsupported::Condition);
    assert_eq!(
        unsupported(&binary(
            binary(id("a"), BinaryOperator::Add, number("1")),
            BinaryOperator::Equals,
            number("2")
        )),
        Unsupported::Operand
    );
}

#[test]
fn unsupported_messages() {
    assert_eq!(
        PlanError::NotImplemented(Unsupported::Between).message(),
        "not implemented: BETWEEN"
    );
    assert_eq!(PlanError::NotImplemented(Unsupported::Is).message(), "not implemented: IS");
    assert_eq!(PlanError::NotImplemented(Unsupported::IsNot).message(), "not implemented: IS NOT");
    assert_eq!(PlanError::NotImplemented(Unsupported::Glob).message(), "not implemented: GLOB");
    assert_eq!(PlanError::NotImplemented(Unsupported::Match).message(), "not implemented: MATCH");
    assert_eq!(PlanError::NotImplemented(Unsupported::Regexp).message(), "not implemented: REGEXP");
    assert_eq!(Unsupported::Operand.name(), "expression as an operand");
    assert_eq!(PlanError::OutOfRegisters.message(), "out of registers");
}

#[test]
fn errors_of_either_side_are_propagated() {
    let bad = binary(id("nope"), BinaryOperator::Equals, number("1"));
    let good = binary(id("a"), BinaryOperator::Equals, number("1"));
    for op in [BinaryOperator::And, BinaryOperator::Or] {
        assert!(matches!(
            compile(&binary(bad.clone(), op, good.clone()), false),
            Err(PlanError::ColumnNotFound(_))
        ));
        assert!(matches!(
            compile(&binary(good.clone(), op, bad.clone()), false),
            Err(PlanError::ColumnNotFound(_))
        ));
    }
    let e = binary(number("1"), BinaryOperator::Equals, id("nope"));
    assert!(matches!(compile(&e, false), Err(PlanError::ColumnNotFound(_))));
    let e = Expression::InList {
        lhs: Box::new(id("a")),
        not: false,
        rhs: Some(vec![number("1"), id("nope")]),
    };
    assert!(matches!(compile(&e, false), Err(PlanError::ColumnNotFound(_))));
}

#[test]
fn operands() {
    let select = one_table(None);
    let mut program = ProgramBuilder::new();
    assert_eq!(translate_expr(&mut program, &select, &id("B"), 7, None).unwrap(), 7);
    assert_eq!(
        translate_expr(
            &mut program,
            &select,
            &Expression::Qualified("T1".to_string(), "a".to_string()),
            8,
            Some(3)
        )
        .unwrap(),
        8
    );
    assert_eq!(translate_expr(&mut program, &select, &number("5"), 9, None).unwrap(), 9);
    assert_eq!(translate_expr(&mut program, &select, &string("'s'"), 10, None).unwrap(), 10);
    assert!(matches!(
        translate_expr(&mut program, &select, &number("1.5"), 11, None),
        Err(PlanError::UnsupportedLiteral)
    ));
    assert!(matches!(
        translate_expr(&mut program, &select, &Expression::Literal(Literal::Null), 11, None),
        Err(PlanError::NotImplemented(Unsupported::Operand))
    ));
    assert_eq!(
        show(&program),
        vec![
            "Column { cursor_id: 0, column: 2, dest: 7 } None",
            "Column { cursor_id: 3, column: 1, dest: 8 } None",
            "Integer { value: 5, dest: 9 } None",
            "String8 { value: \"'s'\", dest: 10 } None",
        ]
    );
    assert_eq!(program.register_count(), 0);
}

fn term(expr: Expression, evaluate_at_cursor: usize) -> WhereTerm {
    WhereTerm { expr, evaluate_at_cursor }
}

#[test]
fn processed_where_emits_the_terms_of_the_loop_in_order() {
    let select = one_table(None);
    let processed = ProcessedWhereClause {
        terms: vec![
            term(binary(id("a"), BinaryOperator::Greater, number("1")), 0),
            term(binary(id("b"), BinaryOperator::Greater, number("2")), 1),
            term(binary(id("b"), BinaryOperator::Less, number("3")), 0),
        ],
    };
    let mut program = ProgramBuilder::new();
    let next_row = program.allocate_label();
    let current_loop = LoopInfo {
        identifier: "t1".to_string(),
        open_cursor: 0,
        next_row_label: next_row,
    };
    translate_processed_where(&mut program, &select, &current_loop, &processed, None).unwrap();
    assert_eq!(
        show(&program),
        vec![
            "Column { cursor_id: 0, column: 1, dest: 0 } None",
            "Integer { value: 1, dest: 1 } None constant",
            "Le { lhs: 0, rhs: 1, target_pc: Label(0) } Some(Label(0))",
            "Column { cursor_id: 0, column: 2, dest: 2 } None",
            "Integer { value: 3, dest: 3 } None constant",
            "Ge { lhs: 2, rhs: 3, target_pc: Label(0) } Some(Label(0))",
        ]
    );
    assert_eq!(program.label_count(), 3);
    assert_eq!(program.resolved_offset(BranchOffset::Label(1)), Some(3));
    assert_eq!(program.resolved_offset(BranchOffset::Label(2)), Some(6));
    assert_eq!(program.resolved_offset(next_row), None);
}

#[test]
fn processed_where_of_another_loop_emits_nothing() {
    let select = one_table(None);
    let processed = ProcessedWhereClause {
        terms: vec![term(binary(id("a"), BinaryOperator::Greater, number("1")), 0)],
    };
    let mut program = ProgramBuilder::new();
    let next_row = program.allocate_label();
    let current_loop = LoopInfo {
        identifier: "t2".to_string(),
        open_cursor: 1,
        next_row_label: next_row,
    };
    translate_processed_where(&mut program, &select, &current_loop, &processed, None).unwrap();
    assert_eq!(program.insn_count(), 0);
    assert_eq!(program.label_count(), 1);
}

#[test]
fn processed_where_uses_the_cursor_hint() {
    let select = one_table(None);
    let processed = ProcessedWhereClause {
        terms: vec![term(binary(id("a"), BinaryOperator::Equals, id("b")), 0)],
    };
    let mut program = ProgramBuilder::new();
    let next_row = program.allocate_label();
    let current_loop = LoopInfo {
        identifier: "t1".to_string(),
        open_cursor: 0,
        next_row_label: next_row,
    };
    translate_processed_where(&mut program, &select, &current_loop, &processed, Some(4)).unwrap();
    assert_eq!(
        show(&program),
        vec![
            "Column { cursor_id: 4, column: 1, dest: 0 } None",
            "Column { cursor_id: 4, column: 2, dest: 1 } None",
            "Ne { lhs: 0, rhs: 1, target_pc: Label(0) } Some(Label(0))",
        ]
    );
}

#[test]
fn processed_where_reports_errors() {
    let select = one_table(None);
    let processed = ProcessedWhereClause {
        terms: vec![term(
            Expression::Between {
                lhs: Box::new(id("a")),
                not: false,
                start: Box::new(number("1")),
                end: Box::new(number("2")),
            },
            0,
        )],
    };
    let mut program = ProgramBuilder::new();
    let next_row = program.allocate_label();
    let current_loop = LoopInfo {
        identifier: "t1".to_string(),
        open_cursor: 0,
        next_row_label: next_row,
    };
    assert!(matches!(
        translate_processed_where(&mut program, &select, &current_loop, &processed, None),
        Err(PlanError::NotImplemented(Unsupported::Between))
    ));
}

#[test]
fn split_then_compile_a_where_clause() {
    let clause = binary(
        binary(id("a"), BinaryOperator::Greater, number("10")),
        BinaryOperator::And,
        Expression::InList { lhs: Box::new(id("id")), not: false, rhs: None },
    );
    let select = one_table(Some(clause));
    let mut program = ProgramBuilder::new();
    let next_row = program.allocate_label();
    let processed = process_where(&mut program, &select).unwrap();
    assert_eq!(processed.terms.len(), 2);
    let current_loop = LoopInfo {
        identifier: "t1".to_string(),
        open_cursor: 0,
        next_row_label: next_row,
    };
    translate_processed_where(&mut program, &select, &current_loop, &processed, None).unwrap();
    assert_eq!(
        show(&program),
        vec![
            "Column { cursor_id: 0, column: 1, dest: 0 } None",
            "Integer { value: 10, dest: 1 } None constant",
            "Le { lhs: 0, rhs: 1, target_pc: Label(0) } Some(Label(0))",
            "Column { cursor_id: 0, column: 0, dest: 2 } None",
            "Goto { target_pc: Label(0) } Some(Label(0))",
        ]
    );
}

#[test]
fn a_compiled_where_clause_can_be_finished_once_its_false_target_is_bound() {
    let clause = binary(
        binary(id("a"), BinaryOperator::Equals, number("1")),
        BinaryOperator::Or,
        binary(id("b"), BinaryOperator::Equals, number("2")),
    );
    let select = one_table(Some(clause));
    let mut program = ProgramBuilder::new();
    let when_false = translate_where(&select, &mut program).unwrap().unwrap();
    assert!(!program.is_closed());
    program.emit_insn(Insn::Integer { value: 0, dest: 9 });
    let here = program.offset();
    program.resolve_label(when_false, here);
    assert!(program.is_closed());
    assert_eq!(
        program.build(),
        vec![
            Insn::Column { cursor_id: 0, column: 1, dest: 0 },
            Insn::Integer { value: 1, dest: 1 },
            Insn::Eq { lhs: 0, rhs: 1, target_pc: BranchOffset::Offset(6) },
            Insn::Column { cursor_id: 0, column: 2, dest: 2 },
            Insn::Integer { value: 2, dest: 3 },
            Insn::Ne { lhs: 2, rhs: 3, target_pc: BranchOffset::Offset(7) },
            Insn::Integer { value: 0, dest: 9 },
        ]
    );
}

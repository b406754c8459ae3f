use query_plan::ast::{BinaryOperator, Expression, LikeOperator, Literal};
use query_plan::error::PlanError;
use query_plan::schema::{BTreeTable, Column};
use query_plan::select::{JoinConstraint, JoinInfo, LoopInfo, Select, SrcTable};
use query_plan::vdbe::{BranchOffset, ProgramBuilder};
use query_plan::where_clause::{
    introspect_expression_for_cursors, process_where, split_constraint_to_terms,
    ProcessedWhereClause,
};
use std::rc::Rc;

fn table(root_page: usize, name: &str, columns: &[&str]) -> Rc<BTreeTable> {
    Rc::new(BTreeTable {
        root_page,
        name: name.to_string(),
        columns: columns.iter().map(|c| Column { name: c.to_string() }).collect(),
    })
}

fn id(name: &str) -> Expression {
    Expression::Id(name.to_string())
}

fn qualified(table: &str, name: &str) -> Expression {
    Expression::Qualified(table.to_string(), name.to_string())
}

fn number(text: &str) -> Expression {
    Expression::Literal(Literal::Numeric(text.to_string()))
}

fn binary(lhs: Expression, op: BinaryOperator, rhs: Expression) -> Expression {
    Expression::Binary(Box::new(lhs), op, Box::new(rhs))
}

fn and(lhs: Expression, rhs: Expression) -> Expression {
    binary(lhs, BinaryOperator::And, rhs)
}

fn gt(lhs: Expression, rhs: Expression) -> Expression {
    binary(lhs, BinaryOperator::Greater, rhs)
}

fn src(table: Rc<BTreeTable>, alias: &str, join_info: Option<JoinInfo>) -> SrcTable {
    SrcTable { table, identifier: alias.to_string(), join_info }
}

fn open_loop(alias: &str, cursor: usize, label: usize) -> LoopInfo {
    LoopInfo {
        identifier: alias.to_string(),
        open_cursor: cursor,
        next_row_label: BranchOffset::Label(label),
    }
}

/// `FROM t1, t2` with t1 open at cursor 0 and t2 at cursor 1.
fn two_tables(where_clause: Option<Expression>, join: Option<JoinInfo>) -> Select {
    Select {
        where_clause,
        src_tables: vec![
            src(table(2, "t1", &["a", "x"]), "t1", None),
            src(table(3, "t2", &["b", "x"]), "t2", join),
        ],
        loops: vec![open_loop("t1", 0, 0), open_loop("t2", 1, 1)],
    }
}

fn text(e: &Expression) -> String {
    format!("{:?}", e)
}

fn split(select: &Select, clause: &Expression, outer: Option<&String>) -> Result<Vec<(String, usize)>, PlanError> {
    let mut program = ProgramBuilder::new();
    let mut processed = ProcessedWhereClause { terms: Vec::new() };
    split_constraint_to_terms(&mut program, select, &mut processed, clause, outer)?;
    assert_eq!(program.insn_count(), 0);
    Ok(processed.terms.iter().map(|t| (text(&t.expr), t.evaluate_at_cursor)).collect())
}

#[test]
fn where_terms_are_placed_at_the_innermost_cursor_they_name() {
    let select = two_tables(None, None);
    let first = gt(qualified("t1", "a"), number("10"));
    let second = gt(qualified("t2", "b"), number("20"));
    let clause = and(first.clone(), second.clone());
    let terms = split(&select, &clause, None).unwrap();
    assert_eq!(terms, vec![(text(&first), 0), (text(&second), 1)]);
}

#[test]
fn a_term_that_names_two_tables_is_placed_at_the_inner_one() {
    let select = two_tables(None, None);
    let clause = gt(id("b"), id("a"));
    assert_eq!(split(&select, &clause, None).unwrap(), vec![(text(&clause), 1)]);
    let clause = gt(id("a"), id("b"));
    assert_eq!(split(&select, &clause, None).unwrap(), vec![(text(&clause), 1)]);
}

#[test]
fn on_terms_of_an_outer_join_are_placed_at_the_nullable_table() {
    let select = two_tables(None, None);
    let clause = gt(qualified("t1", "a"), number("10"));
    let outer = "t2".to_string();
    assert_eq!(split(&select, &clause, Some(&outer)).unwrap(), vec![(text(&clause), 1)]);
    assert_eq!(split(&select, &clause, None).unwrap(), vec![(text(&clause), 0)]);
}

#[test]
fn outer_join_terms_are_not_resolved() {
    let select = two_tables(None, None);
    let clause = gt(id("no_such_column"), number("10"));
    let outer = "t1".to_string();
    assert_eq!(split(&select, &clause, Some(&outer)).unwrap(), vec![(text(&clause), 0)]);
}

#[test]
fn a_constant_term_is_placed_at_the_outermost_open_cursor() {
    let mut select = two_tables(None, None);
    let clause = Expression::Literal(Literal::Keyword("false".to_string()));
    assert_eq!(split(&select, &clause, None).unwrap(), vec![(text(&clause), 0)]);
    select.loops = vec![open_loop("t1", 7, 0), open_loop("t2", 3, 1), open_loop("t3", 5, 2)];
    assert_eq!(split(&select, &clause, None).unwrap(), vec![(text(&clause), 3)]);
}

#[test]
fn the_greatest_cursor_decides_whatever_the_order_of_the_loops() {
    let mut select = two_tables(None, None);
    select.loops = vec![open_loop("t1", 9, 0), open_loop("t2", 4, 1)];
    let clause = gt(id("b"), id("a"));
    assert_eq!(split(&select, &clause, None).unwrap(), vec![(text(&clause), 9)]);
}

#[test]
fn or_is_not_split() {
    let select = two_tables(None, None);
    let clause = binary(
        gt(qualified("t1", "a"), number("10")),
        BinaryOperator::Or,
        and(gt(qualified("t2", "b"), number("20")), gt(id("a"), number("1"))),
    );
    assert_eq!(split(&select, &clause, None).unwrap(), vec![(text(&clause), 1)]);
}

#[test]
fn there_is_one_term_for_each_leaf_of_the_ands() {
    let select = two_tables(None, None);
    let leaf = |n: usize| gt(id("a"), number(&n.to_string()));
    let clause = and(and(leaf(1), and(leaf(2), leaf(3))), and(and(leaf(4), leaf(5)), leaf(6)));
    let terms = split(&select, &clause, None).unwrap();
    let expected: Vec<(String, usize)> = (1..=6).map(|n| (text(&leaf(n)), 0)).collect();
    assert_eq!(terms, expected);
}

#[test]
fn terms_are_appended_behind_those_that_are_there() {
    let select = two_tables(None, None);
    let mut program = ProgramBuilder::new();
    let mut processed = ProcessedWhereClause { terms: Vec::new() };
    let first = gt(id("a"), number("1"));
    let second = gt(id("b"), number("2"));
    split_constraint_to_terms(&mut program, &select, &mut processed, &first, None).unwrap();
    split_constraint_to_terms(&mut program, &select, &mut processed, &second, None).unwrap();
    let cursors: Vec<usize> = processed.terms.iter().map(|t| t.evaluate_at_cursor).collect();
    assert_eq!(cursors, vec![0, 1]);
    assert_eq!(text(&processed.terms[0].expr), text(&first));
    assert_eq!(text(&processed.terms[1].expr), text(&second));
}

#[test]
fn split_reports_errors() {
    let select = two_tables(None, None);
    assert!(matches!(
        split(&select, &gt(id("nope"), number("1")), None),
        Err(PlanError::ColumnNotFound(_))
    ));
    assert!(matches!(
        split(&select, &gt(id("x"), number("1")), None),
        Err(PlanError::AmbiguousColumn(_))
    ));
    assert!(matches!(
        split(&select, &gt(qualified("t9", "a"), number("1")), None),
        Err(PlanError::TableNotFound(_))
    ));
    assert!(matches!(
        split(&select, &gt(qualified("t1", "b"), number("1")), None),
        Err(PlanError::QualifiedColumnNotFound(_, _))
    ));
    let outer = "t9".to_string();
    match split(&select, &gt(id("a"), number("1")), Some(&outer)) {
        Err(PlanError::CursorNotFound(name)) => assert_eq!(name, "t9"),
        other => panic!("unexpected {:?}", other),
    }
}

#[test]
fn a_failed_split_appends_no_term() {
    let select = two_tables(None, None);
    let mut program = ProgramBuilder::new();
    let mut processed = ProcessedWhereClause { terms: Vec::new() };
    let kept = gt(id("a"), number("1"));
    split_constraint_to_terms(&mut program, &select, &mut processed, &kept, None).unwrap();
    let before = processed.clone();
    let outer = "t9".to_string();
    let clause = and(gt(id("a"), number("2")), gt(id("b"), number("3")));
    assert!(matches!(
        split_constraint_to_terms(&mut program, &select, &mut processed, &clause, Some(&outer)),
        Err(PlanError::CursorNotFound(_))
    ));
    assert_eq!(processed, before);
    let clause = and(gt(id("a"), number("2")), gt(id("nope"), number("3")));
    assert!(matches!(
        split_constraint_to_terms(&mut program, &select, &mut processed, &clause, None),
        Err(PlanError::ColumnNotFound(_))
    ));
    assert_eq!(processed, before);
    assert_eq!(processed.terms.len(), 1);
}

#[test]
fn split_without_open_loops_fails() {
    let mut select = two_tables(None, None);
    select.loops = vec![];
    let clause = Expression::Literal(Literal::Numeric("1".to_string()));
    match split(&select, &clause, None) {
        Err(e) => {
            assert!(matches!(e, PlanError::NoOpenCursors));
            assert_eq!(e.message(), "no open cursors found in any of the loops");
        }
        other => panic!("unexpected {:?}", other),
    }
}

#[test]
fn a_column_without_a_loop_has_no_cursor() {
    let mut select = two_tables(None, None);
    select.loops = vec![open_loop("t1", 0, 0)];
    match split(&select, &gt(id("b"), number("1")), None) {
        Err(e) => assert_eq!(e.message(), "could not find cursor for table t2"),
        other => panic!("unexpected {:?}", other),
    }
}

#[test]
fn cursors_of_an_expression_from_left_to_right() {
    let select = two_tables(None, None);
    let e = binary(
        gt(id("b"), id("a")),
        BinaryOperator::Or,
        Expression::FunctionCall { distinctness: None, order_by: None,
            name: "f".to_string(),
            args: Some(vec![id("a"), number("1"), qualified("t2", "x")]),
        },
    );
    assert_eq!(introspect_expression_for_cursors(&select, &e, None).unwrap(), vec![1, 0, 0, 1]);
    let e = Expression::InList {
        lhs: Box::new(id("b")),
        not: false,
        rhs: Some(vec![id("a"), id("b")]),
    };
    assert_eq!(introspect_expression_for_cursors(&select, &e, None).unwrap(), vec![1, 0, 1]);
    let e = Expression::Like {
        lhs: Box::new(id("a")),
        not: false,
        op: LikeOperator::Like,
        rhs: Box::new(id("b")),
        escape: None,
    };
    assert_eq!(introspect_expression_for_cursors(&select, &e, None).unwrap(), vec![0, 1]);
    let e = Expression::IsNull(Box::new(id("a")));
    assert_eq!(introspect_expression_for_cursors(&select, &e, None).unwrap(), Vec::<usize>::new());
}

#[test]
fn a_cursor_hint_replaces_the_cursor_of_the_loop() {
    let select = two_tables(None, None);
    let e = gt(id("b"), id("a"));
    assert_eq!(introspect_expression_for_cursors(&select, &e, Some(5)).unwrap(), vec![5, 5]);
}

#[test]
fn process_where_takes_where_and_on_clauses() {
    let where_clause = and(gt(id("a"), number("1")), gt(id("b"), number("2")));
    let on = and(gt(qualified("t1", "a"), number("3")), gt(qualified("t2", "b"), number("4")));
    let inner = two_tables(
        Some(where_clause.clone()),
        Some(JoinInfo { outer: false, constraint: Some(JoinConstraint::On(on.clone())) }),
    );
    let mut program = ProgramBuilder::new();
    let processed = process_where(&mut program, &inner).unwrap();
    let cursors: Vec<usize> = processed.terms.iter().map(|t| t.evaluate_at_cursor).collect();
    assert_eq!(cursors, vec![0, 1, 0, 1]);
    assert_eq!(text(&processed.terms[2].expr), text(&gt(qualified("t1", "a"), number("3"))));
    assert_eq!(program.insn_count(), 0);
    assert_eq!(program.label_count(), 0);

    let outer = two_tables(
        Some(where_clause),
        Some(JoinInfo { outer: true, constraint: Some(JoinConstraint::On(on)) }),
    );
    let processed = process_where(&mut program, &outer).unwrap();
    let cursors: Vec<usize> = processed.terms.iter().map(|t| t.evaluate_at_cursor).collect();
    assert_eq!(cursors, vec![0, 1, 1, 1]);
}

#[test]
fn process_where_left_join_on_the_left_table() {
    let on = gt(qualified("t1", "a"), number("10"));
    let select = two_tables(
        None,
        Some(JoinInfo { outer: true, constraint: Some(JoinConstraint::On(on.clone())) }),
    );
    let mut program = ProgramBuilder::new();
    let processed = process_where(&mut program, &select).unwrap();
    assert_eq!(processed.terms.len(), 1);
    assert_eq!(processed.terms[0].evaluate_at_cursor, 1);
    assert_eq!(text(&processed.terms[0].expr), text(&on));
}

#[test]
fn process_where_join_on_a_constant() {
    let on = Expression::Literal(Literal::Keyword("false".to_string()));
    let select = two_tables(
        None,
        Some(JoinInfo { outer: false, constraint: Some(JoinConstraint::On(on)) }),
    );
    let mut program = ProgramBuilder::new();
    let processed = process_where(&mut program, &select).unwrap();
    assert_eq!(processed.terms.len(), 1);
    assert_eq!(processed.terms[0].evaluate_at_cursor, 0);
}

#[test]
fn process_where_without_clauses_has_no_terms() {
    let select = two_tables(None, Some(JoinInfo { outer: true, constraint: None }));
    let mut program = ProgramBuilder::new();
    assert_eq!(process_where(&mut program, &select).unwrap().terms.len(), 0);
    let select = two_tables(
        None,
        Some(JoinInfo {
            outer: false,
            constraint: Some(JoinConstraint::Using(vec!["x".to_string()])),
        }),
    );
    assert_eq!(process_where(&mut program, &select).unwrap().terms.len(), 0);
}

#[test]
fn process_where_reports_the_first_error() {
    let select = two_tables(
        Some(gt(id("nope"), number("1"))),
        Some(JoinInfo {
            outer: false,
            constraint: Some(JoinConstraint::On(gt(id("x"), number("1")))),
        }),
    );
    let mut program = ProgramBuilder::new();
    assert!(matches!(process_where(&mut program, &select), Err(PlanError::ColumnNotFound(_))));
}

#[test]
fn is_outer_join() {
    let t = table(2, "t", &[]);
    assert!(!src(t.clone(), "t", None).is_outer_join());
    assert!(!src(t.clone(), "t", Some(JoinInfo { outer: false, constraint: None })).is_outer_join());
    assert!(src(t, "t", Some(JoinInfo { outer: true, constraint: None })).is_outer_join());
}

use query_plan::ast::{
    BinaryOperator, Expression, LikeOperator, Literal, OrderingTerm, TypeName, UnaryOperator,
};
use query_plan::error::PlanError;
use query_plan::plan::{Operator, PlanExpr};
use query_plan::schema::{BTreeTable, Column};
use query_plan::table_mask::{
    get_table_ref_bitmask_for_ast_expr, get_table_ref_bitmask_for_query_plan_node, tables_known,
    MAX_TABLES,
};
use std::rc::Rc;

fn table(root_page: usize, name: &str, columns: &[&str]) -> Rc<BTreeTable> {
    Rc::new(BTreeTable {
        root_page,
        name: name.to_string(),
        columns: columns.iter().map(|c| Column { name: c.to_string() }).collect(),
    })
}

fn tables() -> Vec<(Rc<BTreeTable>, String)> {
    vec![
        (table(2, "t1", &["a", "shared"]), "t1".to_string()),
        (table(3, "t2", &["b", "shared"]), "t2".to_string()),
        (table(4, "t3", &["c"]), "x".to_string()),
    ]
}

fn id(name: &str) -> Expression {
    Expression::Id(name.to_string())
}

fn qualified(table: &str, name: &str) -> Expression {
    Expression::Qualified(table.to_string(), name.to_string())
}

fn number(text: &str) -> Expression {
    Expression::Literal(Literal::Numeric(text.to_string()))
}

fn binary(lhs: Expression, op: BinaryOperator, rhs: Expression) -> Expression {
    Expression::Binary(Box::new(lhs), op, Box::new(rhs))
}

fn mask(e: &Expression) -> Result<u64, PlanError> {
    get_table_ref_bitmask_for_ast_expr(&tables(), e)
}

#[test]
fn mask_of_a_literal_is_empty() {
    assert_eq!(mask(&number("10")).unwrap(), 0);
    assert_eq!(mask(&Expression::Literal(Literal::Null)).unwrap(), 0);
}

#[test]
fn mask_of_a_bare_identifier_is_one_bit() {
    assert_eq!(mask(&id("a")).unwrap(), 0b001);
    assert_eq!(mask(&id("b")).unwrap(), 0b010);
    assert_eq!(mask(&id("c")).unwrap(), 0b100);
}

#[test]
fn mask_of_a_qualified_identifier_is_one_bit() {
    assert_eq!(mask(&qualified("t1", "shared")).unwrap(), 0b001);
    assert_eq!(mask(&qualified("t2", "shared")).unwrap(), 0b010);
    assert_eq!(mask(&qualified("x", "c")).unwrap(), 0b100);
}

#[test]
fn identifiers_are_compared_in_normal_form() {
    assert_eq!(mask(&id("A")).unwrap(), 0b001);
    assert_eq!(mask(&id("\"b\"")).unwrap(), 0b010);
    assert_eq!(mask(&qualified("T2", "SHARED")).unwrap(), 0b010);
    assert_eq!(mask(&qualified("\"X\"", "\"C\"")).unwrap(), 0b100);
}

#[test]
fn ambiguous_column_is_reported() {
    match mask(&id("shared")) {
        Err(PlanError::AmbiguousColumn(name)) => assert_eq!(name, "shared"),
        other => panic!("unexpected {:?}", other),
    }
    match mask(&id("Shared")) {
        Err(e) => assert_eq!(e.message(), "ambiguous column name shared"),
        other => panic!("unexpected {:?}", other),
    }
}

#[test]
fn unknown_column_is_reported() {
    match mask(&id("nope")) {
        Err(PlanError::ColumnNotFound(name)) => assert_eq!(name, "nope"),
        other => panic!("unexpected {:?}", other),
    }
    match mask(&id("NOPE")) {
        Err(e) => assert_eq!(e.message(), "column not found: nope"),
        other => panic!("unexpected {:?}", other),
    }
}

#[test]
fn unknown_table_is_reported() {
    match mask(&qualified("t3", "c")) {
        Err(PlanError::TableNotFound(name)) => assert_eq!(name, "t3"),
        other => panic!("unexpected {:?}", other),
    }
    match mask(&qualified("T9", "c")) {
        Err(e) => assert_eq!(e.message(), "table not found: t9"),
        other => panic!("unexpected {:?}", other),
    }
}

#[test]
fn unknown_qualified_column_is_reported() {
    match mask(&qualified("t1", "b")) {
        Err(PlanError::QualifiedColumnNotFound(table, name)) => {
            assert_eq!(table, "t1");
            assert_eq!(name, "b");
        }
        other => panic!("unexpected {:?}", other),
    }
    match mask(&qualified("t1", "b")) {
        Err(e) => assert_eq!(e.message(), "column with qualified name t1.b not found"),
        other => panic!("unexpected {:?}", other),
    }
}

#[test]
fn mask_of_a_binary_expression_unites_both_sides() {
    let e = binary(id("a"), BinaryOperator::Greater, id("c"));
    assert_eq!(mask(&e).unwrap(), 0b101);
    let e = binary(
        binary(id("a"), BinaryOperator::Equals, number("1")),
        BinaryOperator::Or,
        binary(qualified("t2", "b"), BinaryOperator::Equals, id("a")),
    );
    assert_eq!(mask(&e).unwrap(), 0b011);
}

#[test]
fn mask_of_like_unites_both_sides() {
    let e = Expression::Like {
        lhs: Box::new(id("b")),
        not: false,
        op: LikeOperator::Like,
        rhs: Box::new(id("c")),
        escape: None,
    };
    assert_eq!(mask(&e).unwrap(), 0b110);
}

#[test]
fn mask_of_a_function_call_unites_its_arguments() {
    let e = Expression::FunctionCall { distinctness: None, order_by: None,
        name: "max".to_string(),
        args: Some(vec![id("a"), number("1"), id("b"), id("a")]),
    };
    assert_eq!(mask(&e).unwrap(), 0b011);
    let e = Expression::FunctionCall { distinctness: None, order_by: None, name: "random".to_string(), args: None };
    assert_eq!(mask(&e).unwrap(), 0);
    let e = Expression::FunctionCall { distinctness: None, order_by: None, name: "random".to_string(), args: Some(vec![]) };
    assert_eq!(mask(&e).unwrap(), 0);
}

#[test]
fn mask_of_an_in_list_unites_left_side_and_items() {
    let e = Expression::InList {
        lhs: Box::new(id("a")),
        not: false,
        rhs: Some(vec![id("c"), number("3")]),
    };
    assert_eq!(mask(&e).unwrap(), 0b101);
    let e = Expression::InList { lhs: Box::new(id("b")), not: true, rhs: None };
    assert_eq!(mask(&e).unwrap(), 0b010);
}

#[test]
fn first_error_from_the_left_is_reported() {
    let e = binary(id("nope"), BinaryOperator::Equals, id("shared"));
    assert!(matches!(mask(&e), Err(PlanError::ColumnNotFound(_))));
    let e = binary(id("shared"), BinaryOperator::Equals, id("nope"));
    assert!(matches!(mask(&e), Err(PlanError::AmbiguousColumn(_))));
    let e = Expression::FunctionCall { distinctness: None, order_by: None,
        name: "f".to_string(),
        args: Some(vec![id("a"), qualified("zz", "a"), id("nope")]),
    };
    assert!(matches!(mask(&e), Err(PlanError::TableNotFound(_))));
}

#[test]
fn other_shapes_count_as_referring_to_no_table() {
    let e = Expression::Unary(UnaryOperator::Not, Box::new(id("a")));
    assert_eq!(mask(&e).unwrap(), 0);
    let e = Expression::Unary(UnaryOperator::Negative, Box::new(id("nope")));
    assert_eq!(mask(&e).unwrap(), 0);
    let e = Expression::Parenthesized(vec![id("a")]);
    assert_eq!(mask(&e).unwrap(), 0);
    let e = Expression::IsNull(Box::new(id("b")));
    assert_eq!(mask(&e).unwrap(), 0);
    let e = Expression::NotNull(Box::new(id("b")));
    assert_eq!(mask(&e).unwrap(), 0);
    let e = Expression::Between {
        lhs: Box::new(id("a")),
        not: false,
        start: Box::new(id("b")),
        end: Box::new(id("c")),
    };
    assert_eq!(mask(&e).unwrap(), 0);
}

#[test]
fn escape_of_like_is_not_analysed() {
    let e = Expression::Like {
        lhs: Box::new(id("a")),
        not: false,
        op: LikeOperator::Like,
        rhs: Box::new(number("1")),
        escape: Some(Box::new(id("c"))),
    };
    assert_eq!(mask(&e).unwrap(), 0b001);
}

#[test]
fn mask_of_a_table_at_a_high_position() {
    let mut tables = Vec::new();
    for i in 0..63 {
        let column = format!("c{}", i);
        tables.push((table(i + 2, "t", &[column.as_str()]), format!("t{}", i)));
    }
    assert_eq!(get_table_ref_bitmask_for_ast_expr(&tables, &id("c62")).unwrap(), 1u64 << 62);
    assert_eq!(get_table_ref_bitmask_for_ast_expr(&tables, &id("c0")).unwrap(), 1);
    let e = binary(id("c62"), BinaryOperator::Equals, qualified("t31", "c31"));
    assert_eq!(
        get_table_ref_bitmask_for_ast_expr(&tables, &e).unwrap(),
        (1u64 << 62) | (1u64 << 31)
    );
}

fn scan(id: usize, table: &Rc<BTreeTable>, alias: &str) -> Operator {
    Operator::Scan {
        id,
        table: table.clone(),
        table_identifier: alias.to_string(),
        predicates: None,
    }
}

#[test]
fn mask_of_scan_and_seek_is_the_bit_of_the_table() {
    let tables = tables();
    let node = scan(1, &tables[1].0, "t2");
    assert_eq!(get_table_ref_bitmask_for_query_plan_node(&tables, &node).unwrap(), 0b010);
    let node = Operator::SeekRowid {
        id: 1,
        table: tables[2].0.clone(),
        table_identifier: "x".to_string(),
        rowid_predicate: PlanExpr::new(number("1")),
        predicates: None,
    };
    assert_eq!(get_table_ref_bitmask_for_query_plan_node(&tables, &node).unwrap(), 0b100);
}

#[test]
fn mask_of_a_join_unites_its_children_and_ignores_its_predicates() {
    let tables = tables();
    let node = Operator::Join {
        id: 3,
        left: Box::new(scan(1, &tables[0].0, "t1")),
        right: Box::new(scan(2, &tables[2].0, "x")),
        predicates: Some(vec![PlanExpr::new(binary(
            qualified("t2", "b"),
            BinaryOperator::Equals,
            number("1"),
        ))]),
        outer: false,
    };
    assert_eq!(get_table_ref_bitmask_for_query_plan_node(&tables, &node).unwrap(), 0b101);
}

#[test]
fn other_operators_have_the_mask_of_their_source() {
    let tables = tables();
    let node = Operator::Limit {
        id: 6,
        limit: 1,
        source: Box::new(Operator::Order {
            id: 5,
            key: vec![],
            source: Box::new(Operator::Projection {
                id: 4,
                expressions: vec![],
                source: Box::new(Operator::Aggregate {
                    id: 3,
                    aggregates: vec![],
                    source: Box::new(Operator::Filter {
                        id: 2,
                        predicates: vec![PlanExpr::new(binary(
                            qualified("t2", "b"),
                            BinaryOperator::Equals,
                            id("nope"),
                        ))],
                        source: Box::new(scan(1, &tables[0].0, "t1")),
                    }),
                }),
            }),
        }),
    };
    assert_eq!(get_table_ref_bitmask_for_query_plan_node(&tables, &node).unwrap(), 0b001);
    assert_eq!(
        get_table_ref_bitmask_for_query_plan_node(&tables, &Operator::Nothing).unwrap(),
        0
    );
}

#[test]
fn an_entry_is_found_by_its_table_and_its_alias() {
    let tables = tables();
    let same_table_again = table(3, "renamed", &[]);
    let node = scan(1, &same_table_again, "t2");
    assert!(tables_known(&tables, &node));
    assert_eq!(get_table_ref_bitmask_for_query_plan_node(&tables, &node).unwrap(), 0b010);
    assert!(!tables_known(&tables, &scan(1, &same_table_again, "whatever")));
    assert!(!tables_known(&tables, &scan(1, &same_table_again, "T2")));
    assert!(!tables_known(&tables, &scan(1, &tables[0].0, "t2")));
}

#[test]
fn a_table_joined_with_itself_sets_one_bit_for_each_alias() {
    let t = table(2, "t", &["c"]);
    let tables = vec![(t.clone(), "a".to_string()), (t.clone(), "b".to_string())];
    let join = Operator::Join {
        id: 3,
        left: Box::new(scan(1, &t, "a")),
        right: Box::new(scan(2, &t, "b")),
        predicates: None,
        outer: false,
    };
    assert!(tables_known(&tables, &join));
    assert_eq!(get_table_ref_bitmask_for_query_plan_node(&tables, &join).unwrap(), 0b11);
    assert_eq!(
        get_table_ref_bitmask_for_query_plan_node(&tables, &scan(1, &t, "a")).unwrap(),
        0b01
    );
    assert_eq!(
        get_table_ref_bitmask_for_query_plan_node(&tables, &scan(1, &t, "b")).unwrap(),
        0b10
    );
    let seek = Operator::SeekRowid {
        id: 1,
        table: t.clone(),
        table_identifier: "b".to_string(),
        rowid_predicate: PlanExpr::new(number("1")),
        predicates: None,
    };
    assert_eq!(get_table_ref_bitmask_for_query_plan_node(&tables, &seek).unwrap(), 0b10);
}

#[test]
fn tables_of_a_subtree_are_known_or_not() {
    let tables = tables();
    let stranger = table(99, "t9", &["z"]);
    assert!(tables_known(&tables, &Operator::Nothing));
    assert!(tables_known(&tables, &scan(1, &tables[2].0, "x")));
    assert!(!tables_known(&tables, &scan(1, &stranger, "t9")));
    let join = |right: &Rc<BTreeTable>, alias: &str| Operator::Limit {
        id: 4,
        limit: 1,
        source: Box::new(Operator::Join {
            id: 3,
            left: Box::new(scan(1, &tables[0].0, "t1")),
            right: Box::new(scan(2, right, alias)),
            predicates: None,
            outer: false,
        }),
    };
    assert!(tables_known(&tables, &join(&tables[1].0, "t2")));
    assert!(!tables_known(&tables, &join(&tables[1].0, "r")));
    assert!(!tables_known(&tables, &join(&stranger, "t2")));
    assert!(!tables_known(&Vec::new(), &scan(1, &tables[0].0, "t1")));
    assert_eq!(MAX_TABLES, 63);
}

#[test]
fn shapes_that_are_not_analysed_have_an_empty_mask() {
    let e = Expression::Case {
        base: Some(Box::new(id("a"))),
        when_then_pairs: vec![(id("b"), id("c"))],
        else_expr: Some(Box::new(id("nope"))),
    };
    assert_eq!(mask(&e).unwrap(), 0);
    let e = Expression::Collate(Box::new(id("a")), "nocase".to_string());
    assert_eq!(mask(&e).unwrap(), 0);
    let e = Expression::DoublyQualified("main".to_string(), "t1".to_string(), "a".to_string());
    assert_eq!(mask(&e).unwrap(), 0);
    let e = Expression::FunctionCallStar { name: "count".to_string() };
    assert_eq!(mask(&e).unwrap(), 0);
    assert_eq!(mask(&Expression::Name("a".to_string())).unwrap(), 0);
    assert_eq!(mask(&Expression::Variable("a".to_string())).unwrap(), 0);
}

#[test]
fn casts_and_the_order_of_a_call_are_not_analysed() {
    let e = Expression::Cast {
        expr: Box::new(id("a")),
        target_type: Some(TypeName { name: "INTEGER".to_string(), size: None }),
    };
    assert_eq!(mask(&e).unwrap(), 0);
    let e = Expression::FunctionCall {
        name: "group_concat".to_string(),
        distinctness: None,
        args: Some(vec![id("a")]),
        order_by: Some(vec![OrderingTerm { expr: id("c"), order: None, nulls: None }]),
    };
    assert_eq!(mask(&e).unwrap(), 0b001);
}

//! The SQL text of an expression, as the SQL parser writes it.
//!
//! The planner keeps expressions in a tree of its own. To show one, the
//! tree is rebuilt node by node as a tree of the parser, whose formatter
//! then writes the text. The parser's tree is opaque to the proofs. Of the
//! text it is claimed that the parser wrote it and that it depends on
//! nothing but the expression: [`sql_text_of`] is its name.

use crate::ast::{
    BinaryOperator, Distinctness, ExprView, Expression, LikeOperator, Literal, NullsOrder,
    OrderingTerm, SortOrder, TypeName, TypeSize, UnaryOperator,
};
use vstd::prelude::*;

verus! {

/// The expression tree of `sqlite3_parser`.
#[verifier::external_type_specification]
#[verifier::external_body]
pub struct ExSqlExpr(sqlite3_parser::ast::Expr);

/// The type name of `sqlite3_parser`.
#[verifier::external_type_specification]
#[verifier::external_body]
pub struct ExSqlType(sqlite3_parser::ast::Type);

/// The sort column of `sqlite3_parser`.
#[verifier::external_type_specification]
#[verifier::external_body]
pub struct ExSqlSortedColumn(sqlite3_parser::ast::SortedColumn);

/// `sqlite3_parser::ast::Expr::Id`: the node of a bare identifier.
#[verifier::external_body]
fn sql_id(name: &str) -> sqlite3_parser::ast::Expr {
    sqlite3_parser::ast::Expr::Id(sqlite3_parser::ast::Id(name.to_owned()))
}

/// `sqlite3_parser::ast::Expr::Qualified`: the node of `table.column`.
#[verifier::external_body]
fn sql_qualified(table: &str, name: &str) -> sqlite3_parser::ast::Expr {
    sqlite3_parser::ast::Expr::Qualified(
        sqlite3_parser::ast::Name(table.to_owned()),
        sqlite3_parser::ast::Name(name.to_owned()),
    )
}

/// `sqlite3_parser::ast::Expr::Literal`: the node of a literal, with the
/// literal's text as it is.
#[verifier::external_body]
fn sql_literal(literal: &Literal) -> sqlite3_parser::ast::Expr {
    sqlite3_parser::ast::Expr::Literal(
        match literal {
            Literal::Numeric(text) => sqlite3_parser::ast::Literal::Numeric(text.clone()),
            Literal::String(text) => sqlite3_parser::ast::Literal::String(text.clone()),
            Literal::Blob(text) => sqlite3_parser::ast::Literal::Blob(text.clone()),
            Literal::Keyword(text) => sqlite3_parser::ast::Literal::Keyword(text.clone()),
            Literal::Null => sqlite3_parser::ast::Literal::Null,
            Literal::CurrentDate => sqlite3_parser::ast::Literal::CurrentDate,
            Literal::CurrentTime => sqlite3_parser::ast::Literal::CurrentTime,
            Literal::CurrentTimestamp => sqlite3_parser::ast::Literal::CurrentTimestamp,
        },
    )
}

/// `sqlite3_parser::ast::Expr::between`: the node of
/// `lhs [NOT] BETWEEN start AND end`.
#[verifier::external_body]
fn sql_between(
    lhs: sqlite3_parser::ast::Expr,
    not: bool,
    start: sqlite3_parser::ast::Expr,
    end: sqlite3_parser::ast::Expr,
) -> sqlite3_parser::ast::Expr {
    sqlite3_parser::ast::Expr::between(lhs, not, start, end)
}

/// `sqlite3_parser::ast::Type`: a type name without size limits.
#[verifier::external_body]
fn sql_type(name: &str) -> sqlite3_parser::ast::Type {
    sqlite3_parser::ast::Type { name: name.to_owned(), size: None }
}

/// `sqlite3_parser::ast::Type` with `TypeSize::MaxSize`: a type name with
/// one size limit.
#[verifier::external_body]
fn sql_type_max(name: &str, size: sqlite3_parser::ast::Expr) -> sqlite3_parser::ast::Type {
    sqlite3_parser::ast::Type {
        name: name.to_owned(),
        size: Some(sqlite3_parser::ast::TypeSize::MaxSize(Box::new(size))),
    }
}

/// `sqlite3_parser::ast::Type` with `TypeSize::TypeSize`: a type name
/// with two size limits.
#[verifier::external_body]
fn sql_type_sized(
    name: &str,
    first: sqlite3_parser::ast::Expr,
    second: sqlite3_parser::ast::Expr,
) -> sqlite3_parser::ast::Type {
    sqlite3_parser::ast::Type {
        name: name.to_owned(),
        size: Some(sqlite3_parser::ast::TypeSize::TypeSize(Box::new(first), Box::new(second))),
    }
}

/// `sqlite3_parser::ast::Expr::cast`: the node of
/// `CAST(expr AS target_type)`.
#[verifier::external_body]
fn sql_cast(
    expr: sqlite3_parser::ast::Expr,
    target_type: Option<sqlite3_parser::ast::Type>,
) -> sqlite3_parser::ast::Expr {
    sqlite3_parser::ast::Expr::cast(expr, target_type)
}

/// `sqlite3_parser::ast::SortedColumn`: a term of an `ORDER BY`.
#[verifier::external_body]
fn sql_sorted_column(
    expr: sqlite3_parser::ast::Expr,
    order: Option<SortOrder>,
    nulls: Option<NullsOrder>,
) -> sqlite3_parser::ast::SortedColumn {
    let order = match order {
        Some(SortOrder::Asc) => Some(sqlite3_parser::ast::SortOrder::Asc),
        Some(SortOrder::Desc) => Some(sqlite3_parser::ast::SortOrder::Desc),
        None => None,
    };
    let nulls = match nulls {
        Some(NullsOrder::First) => Some(sqlite3_parser::ast::NullsOrder::First),
        Some(NullsOrder::Last) => Some(sqlite3_parser::ast::NullsOrder::Last),
        None => None,
    };
    sqlite3_parser::ast::SortedColumn { expr, order, nulls }
}

/// `sqlite3_parser::ast::Expr::Case`: the node of
/// `CASE [base] WHEN condition THEN result ... [ELSE else_expr] END`.
#[verifier::external_body]
fn sql_case(
    base: Option<sqlite3_parser::ast::Expr>,
    when_then_pairs: Vec<(sqlite3_parser::ast::Expr, sqlite3_parser::ast::Expr)>,
    else_expr: Option<sqlite3_parser::ast::Expr>,
) -> sqlite3_parser::ast::Expr {
    sqlite3_parser::ast::Expr::Case {
        base: base.map(Box::new),
        when_then_pairs,
        else_expr: else_expr.map(Box::new),
    }
}

/// `sqlite3_parser::ast::Expr::Collate`: the node of
/// `expr COLLATE collation`.
#[verifier::external_body]
fn sql_collate(expr: sqlite3_parser::ast::Expr, collation: &str) -> sqlite3_parser::ast::Expr {
    sqlite3_parser::ast::Expr::Collate(Box::new(expr), collation.to_owned())
}

/// `sqlite3_parser::ast::Expr::DoublyQualified`: the node of
/// `schema.table.column`.
#[verifier::external_body]
fn sql_doubly_qualified(schema: &str, table: &str, name: &str) -> sqlite3_parser::ast::Expr {
    sqlite3_parser::ast::Expr::DoublyQualified(
        sqlite3_parser::ast::Name(schema.to_owned()),
        sqlite3_parser::ast::Name(table.to_owned()),
        sqlite3_parser::ast::Name(name.to_owned()),
    )
}

/// `sqlite3_parser::ast::Expr::FunctionCallStar`: the node of `name(*)`,
/// without `FILTER`.
#[verifier::external_body]
fn sql_function_call_star(name: &str) -> sqlite3_parser::ast::Expr {
    sqlite3_parser::ast::Expr::FunctionCallStar {
        name: sqlite3_parser::ast::Id(name.to_owned()),
        filter_over: None,
    }
}

/// `sqlite3_parser::ast::Expr::Name`: the node of a name.
#[verifier::external_body]
fn sql_name(name: &str) -> sqlite3_parser::ast::Expr {
    sqlite3_parser::ast::Expr::Name(sqlite3_parser::ast::Name(name.to_owned()))
}

/// `sqlite3_parser::ast::Expr::Variable`: the node of a parameter.
#[verifier::external_body]
fn sql_variable(name: &str) -> sqlite3_parser::ast::Expr {
    sqlite3_parser::ast::Expr::Variable(name.to_owned())
}

/// The binary operators that compare or connect truth values.
#[derive(Clone, Copy, PartialEq, Eq, Structural)]
enum Relation {
    And,
    Or,
    Equals,
    NotEquals,
    Less,
    LessEquals,
    Greater,
    GreaterEquals,
    Is,
    IsNot,
}

/// The binary operators that compute a value.
#[derive(Clone, Copy, PartialEq, Eq, Structural)]
enum Operation {
    Add,
    ArrowRight,
    ArrowRightShift,
    BitwiseAnd,
    BitwiseOr,
    Concat,
    Divide,
    LeftShift,
    Modulus,
    Multiply,
    RightShift,
    Substract,
}

/// A binary operator, by its group.
#[derive(Clone, Copy, PartialEq, Eq, Structural)]
enum Grouped {
    Relation(Relation),
    Operation(Operation),
}

/// The group of a binary operator, and the operator within its group.
spec fn grouped(op: BinaryOperator) -> Grouped {
    match op {
        BinaryOperator::And => Grouped::Relation(Relation::And),
        BinaryOperator::Or => Grouped::Relation(Relation::Or),
        BinaryOperator::Equals => Grouped::Relation(Relation::Equals),
        BinaryOperator::NotEquals => Grouped::Relation(Relation::NotEquals),
        BinaryOperator::Less => Grouped::Relation(Relation::Less),
        BinaryOperator::LessEquals => Grouped::Relation(Relation::LessEquals),
        BinaryOperator::Greater => Grouped::Relation(Relation::Greater),
        BinaryOperator::GreaterEquals => Grouped::Relation(Relation::GreaterEquals),
        BinaryOperator::Is => Grouped::Relation(Relation::Is),
        BinaryOperator::IsNot => Grouped::Relation(Relation::IsNot),
        BinaryOperator::Add => Grouped::Operation(Operation::Add),
        BinaryOperator::ArrowRight => Grouped::Operation(Operation::ArrowRight),
        BinaryOperator::ArrowRightShift => Grouped::Operation(Operation::ArrowRightShift),
        BinaryOperator::BitwiseAnd => Grouped::Operation(Operation::BitwiseAnd),
        BinaryOperator::BitwiseOr => Grouped::Operation(Operation::BitwiseOr),
        BinaryOperator::Concat => Grouped::Operation(Operation::Concat),
        BinaryOperator::Divide => Grouped::Operation(Operation::Divide),
        BinaryOperator::LeftShift => Grouped::Operation(Operation::LeftShift),
        BinaryOperator::Modulus => Grouped::Operation(Operation::Modulus),
        BinaryOperator::Multiply => Grouped::Operation(Operation::Multiply),
        BinaryOperator::RightShift => Grouped::Operation(Operation::RightShift),
        BinaryOperator::Substract => Grouped::Operation(Operation::Substract),
    }
}

/// `sqlite3_parser::ast::Expr::Binary`: the node of `lhs op rhs` for an
/// operator that compares or connects truth values.
#[verifier::external_body]
fn sql_relation(
    lhs: sqlite3_parser::ast::Expr,
    op: Relation,
    rhs: sqlite3_parser::ast::Expr,
) -> sqlite3_parser::ast::Expr {
    let op = match op {
        Relation::And => sqlite3_parser::ast::Operator::And,
        Relation::Or => sqlite3_parser::ast::Operator::Or,
        Relation::Equals => sqlite3_parser::ast::Operator::Equals,
        Relation::NotEquals => sqlite3_parser::ast::Operator::NotEquals,
        Relation::Less => sqlite3_parser::ast::Operator::Less,
        Relation::LessEquals => sqlite3_parser::ast::Operator::LessEquals,
        Relation::Greater => sqlite3_parser::ast::Operator::Greater,
        Relation::GreaterEquals => sqlite3_parser::ast::Operator::GreaterEquals,
        Relation::Is => sqlite3_parser::ast::Operator::Is,
        Relation::IsNot => sqlite3_parser::ast::Operator::IsNot,
    };
    sqlite3_parser::ast::Expr::Binary(Box::new(lhs), op, Box::new(rhs))
}

/// `sqlite3_parser::ast::Expr::Binary`: the node of `lhs op rhs` for an
/// operator that computes a value.
#[verifier::external_body]
fn sql_operation(
    lhs: sqlite3_parser::ast::Expr,
    op: Operation,
    rhs: sqlite3_parser::ast::Expr,
) -> sqlite3_parser::ast::Expr {
    let op = match op {
        Operation::Add => sqlite3_parser::ast::Operator::Add,
        Operation::ArrowRight => sqlite3_parser::ast::Operator::ArrowRight,
        Operation::ArrowRightShift => sqlite3_parser::ast::Operator::ArrowRightShift,
        Operation::BitwiseAnd => sqlite3_parser::ast::Operator::BitwiseAnd,
        Operation::BitwiseOr => sqlite3_parser::ast::Operator::BitwiseOr,
        Operation::Concat => sqlite3_parser::ast::Operator::Concat,
        Operation::Divide => sqlite3_parser::ast::Operator::Divide,
        Operation::LeftShift => sqlite3_parser::ast::Operator::LeftShift,
        Operation::Modulus => sqlite3_parser::ast::Operator::Modulus,
        Operation::Multiply => sqlite3_parser::ast::Operator::Multiply,
        Operation::RightShift => sqlite3_parser::ast::Operator::RightShift,
        Operation::Substract => sqlite3_parser::ast::Operator::Substract,
    };
    sqlite3_parser::ast::Expr::Binary(Box::new(lhs), op, Box::new(rhs))
}

/// `sqlite3_parser::ast::Expr::FunctionCall`: the node of
/// `name([DISTINCT] args [ORDER BY order_by])`, without `FILTER` or `OVER`.
#[verifier::external_body]
fn sql_function_call(
    name: &str,
    distinctness: Option<Distinctness>,
    args: Option<Vec<sqlite3_parser::ast::Expr>>,
    order_by: Option<Vec<sqlite3_parser::ast::SortedColumn>>,
) -> sqlite3_parser::ast::Expr {
    let distinctness = match distinctness {
        Some(Distinctness::Distinct) => Some(sqlite3_parser::ast::Distinctness::Distinct),
        Some(Distinctness::All) => Some(sqlite3_parser::ast::Distinctness::All),
        None => None,
    };
    let name = sqlite3_parser::ast::Id(name.to_owned());
    sqlite3_parser::ast::Expr::FunctionCall { name, distinctness, args, order_by, filter_over: None }
}

/// `sqlite3_parser::ast::Expr::in_list`: the node of `lhs [NOT] IN (rhs)`.
#[verifier::external_body]
fn sql_in_list(
    lhs: sqlite3_parser::ast::Expr,
    not: bool,
    rhs: Option<Vec<sqlite3_parser::ast::Expr>>,
) -> sqlite3_parser::ast::Expr {
    sqlite3_parser::ast::Expr::in_list(lhs, not, rhs)
}

/// `sqlite3_parser::ast::Expr::IsNull`: the node of `expr ISNULL`.
#[verifier::external_body]
fn sql_is_null(expr: sqlite3_parser::ast::Expr) -> sqlite3_parser::ast::Expr {
    sqlite3_parser::ast::Expr::IsNull(Box::new(expr))
}

/// `sqlite3_parser::ast::Expr::NotNull`: the node of `expr NOTNULL`.
#[verifier::external_body]
fn sql_not_null(expr: sqlite3_parser::ast::Expr) -> sqlite3_parser::ast::Expr {
    sqlite3_parser::ast::Expr::NotNull(Box::new(expr))
}

/// `sqlite3_parser::ast::Expr::like`: the node of
/// `lhs [NOT] op rhs [ESCAPE escape]`.
#[verifier::external_body]
fn sql_like(
    lhs: sqlite3_parser::ast::Expr,
    not: bool,
    op: LikeOperator,
    rhs: sqlite3_parser::ast::Expr,
    escape: Option<sqlite3_parser::ast::Expr>,
) -> sqlite3_parser::ast::Expr {
    let op = match op {
        LikeOperator::Glob => sqlite3_parser::ast::LikeOperator::Glob,
        LikeOperator::Like => sqlite3_parser::ast::LikeOperator::Like,
        LikeOperator::Match => sqlite3_parser::ast::LikeOperator::Match,
        LikeOperator::Regexp => sqlite3_parser::ast::LikeOperator::Regexp,
    };
    sqlite3_parser::ast::Expr::like(lhs, not, op, rhs, escape)
}

/// `sqlite3_parser::ast::Expr::Parenthesized`: the node of `(expr, ...)`.
#[verifier::external_body]
fn sql_parenthesized(list: Vec<sqlite3_parser::ast::Expr>) -> sqlite3_parser::ast::Expr {
    sqlite3_parser::ast::Expr::Parenthesized(list)
}

/// `sqlite3_parser::ast::Expr::unary`: the node of `op expr`.
#[verifier::external_body]
fn sql_unary(op: UnaryOperator, expr: sqlite3_parser::ast::Expr) -> sqlite3_parser::ast::Expr {
    let op = match op {
        UnaryOperator::BitwiseNot => sqlite3_parser::ast::UnaryOperator::BitwiseNot,
        UnaryOperator::Negative => sqlite3_parser::ast::UnaryOperator::Negative,
        UnaryOperator::Not => sqlite3_parser::ast::UnaryOperator::Not,
        UnaryOperator::Positive => sqlite3_parser::ast::UnaryOperator::Positive,
    };
    sqlite3_parser::ast::Expr::unary(op, expr)
}


/// The group of a binary operator, and the operator within its group.
fn group(op: BinaryOperator) -> (group: Grouped)
    ensures
        group == grouped(op),
{
    match op {
        BinaryOperator::And => Grouped::Relation(Relation::And),
        BinaryOperator::Or => Grouped::Relation(Relation::Or),
        BinaryOperator::Equals => Grouped::Relation(Relation::Equals),
        BinaryOperator::NotEquals => Grouped::Relation(Relation::NotEquals),
        BinaryOperator::Less => Grouped::Relation(Relation::Less),
        BinaryOperator::LessEquals => Grouped::Relation(Relation::LessEquals),
        BinaryOperator::Greater => Grouped::Relation(Relation::Greater),
        BinaryOperator::GreaterEquals => Grouped::Relation(Relation::GreaterEquals),
        BinaryOperator::Is => Grouped::Relation(Relation::Is),
        BinaryOperator::IsNot => Grouped::Relation(Relation::IsNot),
        BinaryOperator::Add => Grouped::Operation(Operation::Add),
        BinaryOperator::ArrowRight => Grouped::Operation(Operation::ArrowRight),
        BinaryOperator::ArrowRightShift => Grouped::Operation(Operation::ArrowRightShift),
        BinaryOperator::BitwiseAnd => Grouped::Operation(Operation::BitwiseAnd),
        BinaryOperator::BitwiseOr => Grouped::Operation(Operation::BitwiseOr),
        BinaryOperator::Concat => Grouped::Operation(Operation::Concat),
        BinaryOperator::Divide => Grouped::Operation(Operation::Divide),
        BinaryOperator::LeftShift => Grouped::Operation(Operation::LeftShift),
        BinaryOperator::Modulus => Grouped::Operation(Operation::Modulus),
        BinaryOperator::Multiply => Grouped::Operation(Operation::Multiply),
        BinaryOperator::RightShift => Grouped::Operation(Operation::RightShift),
        BinaryOperator::Substract => Grouped::Operation(Operation::Substract),
    }
}

/// The nodes of the parser for a list of pairs of expressions: one pair
/// of nodes for each pair of the list, in the order of the list.
#[verifier::loop_isolation(false)]
fn sql_pairs(list: &Vec<(Expression, Expression)>) -> (nodes: Vec<
    (sqlite3_parser::ast::Expr, sqlite3_parser::ast::Expr),
>)
    ensures
        nodes@.len() == list@.len(),
    decreases list, 0nat,
{
    let mut nodes: Vec<(sqlite3_parser::ast::Expr, sqlite3_parser::ast::Expr)> = Vec::new();
    let mut i: usize = 0;
    while i < list.len()
        invariant
            i <= list.len(),
            nodes@.len() == i,
        decreases list.len() - i,
    {
        nodes.push((sql_node(&list[i].0), sql_node(&list[i].1)));
        i = i + 1;
    }
    nodes
}

/// The sort columns of the parser for a list of ordering terms: one for
/// each term of the list, in the order of the list.
#[verifier::loop_isolation(false)]
fn sql_terms(list: &Vec<OrderingTerm>) -> (nodes: Vec<sqlite3_parser::ast::SortedColumn>)
    ensures
        nodes@.len() == list@.len(),
    decreases list, 0nat,
{
    let mut nodes: Vec<sqlite3_parser::ast::SortedColumn> = Vec::new();
    let mut i: usize = 0;
    while i < list.len()
        invariant
            i <= list.len(),
            nodes@.len() == i,
        decreases list.len() - i,
    {
        nodes.push(sql_sorted_column(sql_node(&list[i].expr), list[i].order, list[i].nulls));
        i = i + 1;
    }
    nodes
}

/// The type name of the parser for a type name.
fn sql_type_name(target_type: &TypeName) -> (node: sqlite3_parser::ast::Type)
    decreases target_type, 0nat,
{
    match &target_type.size {
        Some(TypeSize::MaxSize(size)) => sql_type_max(target_type.name.as_str(), sql_node(size)),
        Some(TypeSize::TypeSize(first, second)) => sql_type_sized(
            target_type.name.as_str(),
            sql_node(first),
            sql_node(second),
        ),
        None => sql_type(target_type.name.as_str()),
    }
}

/// The nodes of the parser for a list of expressions: one node for each
/// expression of the list, in the order of the list.
#[verifier::loop_isolation(false)]
fn sql_nodes(list: &Vec<Expression>) -> (nodes: Vec<sqlite3_parser::ast::Expr>)
    ensures
        nodes@.len() == list@.len(),
    decreases list, 0nat,
{
    let mut nodes: Vec<sqlite3_parser::ast::Expr> = Vec::new();
    let mut i: usize = 0;
    while i < list.len()
        invariant
            i <= list.len(),
            nodes@.len() == i,
        decreases list.len() - i,
    {
        nodes.push(sql_node(&list[i]));
        i = i + 1;
    }
    nodes
}

/// The node of the parser for an expression.
fn sql_node(expr: &Expression) -> (node: sqlite3_parser::ast::Expr)
    decreases expr, 1nat,
{
    match expr {
        Expression::Between { lhs, not, start, end } => sql_between(
            sql_node(lhs),
            *not,
            sql_node(start),
            sql_node(end),
        ),
        Expression::Binary(lhs, op, rhs) => match group(*op) {
            Grouped::Relation(op) => sql_relation(sql_node(lhs), op, sql_node(rhs)),
            Grouped::Operation(op) => sql_operation(sql_node(lhs), op, sql_node(rhs)),
        },
        Expression::Case { base, when_then_pairs, else_expr } => sql_case(
            match base {
                Some(inner) => Some(sql_node(inner)),
                None => None,
            },
            sql_pairs(when_then_pairs),
            match else_expr {
                Some(inner) => Some(sql_node(inner)),
                None => None,
            },
        ),
        Expression::Cast { expr, target_type } => sql_cast(
            sql_node(expr),
            match target_type {
                Some(target_type) => Some(sql_type_name(target_type)),
                None => None,
            },
        ),
        Expression::Collate(inner, collation) => sql_collate(sql_node(inner), collation.as_str()),
        Expression::DoublyQualified(schema, table, name) => sql_doubly_qualified(
            schema.as_str(),
            table.as_str(),
            name.as_str(),
        ),
        Expression::FunctionCall { name, distinctness, args, order_by } => sql_function_call(
            name.as_str(),
            *distinctness,
            match args {
                Some(list) => Some(sql_nodes(list)),
                None => None,
            },
            match order_by {
                Some(list) => Some(sql_terms(list)),
                None => None,
            },
        ),
        Expression::FunctionCallStar { name } => sql_function_call_star(name.as_str()),
        Expression::Id(name) => sql_id(name.as_str()),
        Expression::InList { lhs, not, rhs } => sql_in_list(
            sql_node(lhs),
            *not,
            match rhs {
                Some(list) => Some(sql_nodes(list)),
                None => None,
            },
        ),
        Expression::IsNull(inner) => sql_is_null(sql_node(inner)),
        Expression::Like { lhs, not, op, rhs, escape } => sql_like(
            sql_node(lhs),
            *not,
            *op,
            sql_node(rhs),
            match escape {
                Some(inner) => Some(sql_node(inner)),
                None => None,
            },
        ),
        Expression::Literal(literal) => sql_literal(literal),
        Expression::Name(name) => sql_name(name.as_str()),
        Expression::NotNull(inner) => sql_not_null(sql_node(inner)),
        Expression::Parenthesized(list) => sql_parenthesized(sql_nodes(list)),
        Expression::Qualified(table, name) => sql_qualified(table.as_str(), name.as_str()),
        Expression::Unary(op, inner) => sql_unary(*op, sql_node(inner)),
        Expression::Variable(name) => sql_variable(name.as_str()),
    }
}

/// The SQL text that the formatter of `sqlite3_parser` writes for the
/// parser's node of an expression.
pub uninterp spec fn sql_text_of(e: ExprView) -> Seq<char>;

/// `<sqlite3_parser::ast::Expr as Display>::fmt`, through `to_string`, on
/// the parser's node of the expression. The formatter reads nothing but
/// its node, and the node is built from nothing but the expression, so
/// that the text is a function of the expression alone. The formatter
/// writes into a string and does not fail.
#[verifier::external_body]
fn sql_format(expr: &Expression) -> (text: String)
    ensures
        text@ == sql_text_of(expr@),
{
    sql_node(expr).to_string()
}

/// The SQL text of an expression, as the parser's formatter writes it.
pub(crate) fn sql_text(expr: &Expression) -> (text: String)
    ensures
        text@ == sql_text_of(expr@),
{
    sql_format(expr)
}

} // verus!

//! The logical plan of a query: a tree of relational operators.

use crate::ast::{ExprView, Expression};
use crate::schema::BTreeTable;
use crate::sql::{sql_text, sql_text_of};
use crate::util::{decimal_digits, decimal_string};
use std::rc::Rc;
use vstd::prelude::*;
use vstd::string::*;

verus! {

/// An expression of the plan together with its SQL text.
///
/// The text is the one that the SQL parser writes for the expression. It is
/// computed once, when the pair is made, and cannot be set otherwise.
#[derive(Debug, PartialEq, Eq)]
pub struct PlanExpr {
    expr: Expression,
    text: String,
}

impl View for PlanExpr {
    type V = ExprView;

    closed spec fn view(&self) -> ExprView {
        self.expr@
    }
}

impl Clone for PlanExpr {
    fn clone(&self) -> (copy: Self)
        ensures
            copy@ == self@,
    {
        proof {
            use_type_invariant(self);
        }
        PlanExpr { expr: self.expr.clone(), text: self.text.clone() }
    }
}

impl PlanExpr {
    /// The text is the SQL text of the expression.
    #[verifier::type_invariant]
    spec fn well_formed(self) -> bool {
        self.text@ == sql_text_of(self.expr@)
    }

    /// The text under which the expression is shown: the SQL text that the
    /// parser writes for it.
    pub open spec fn sql(self) -> Seq<char> {
        sql_text_of(self@)
    }

    /// Pairs an expression with the SQL text that the parser's formatter
    /// writes for it.
    pub fn new(expr: Expression) -> (paired: PlanExpr)
        ensures
            paired@ == expr@,
    {
        let text = sql_text(&expr);
        PlanExpr { expr, text }
    }

    /// The expression.
    pub fn expr(&self) -> (expr: &Expression)
        ensures
            expr@ == self@,
    {
        &self.expr
    }

    /// The text under which the expression is shown.
    pub fn text(&self) -> (text: &String)
        ensures
            text@ == self.sql(),
    {
        proof {
            use_type_invariant(self);
        }
        &self.text
    }
}

/// The direction of a sort key.
#[derive(Clone, Copy, Debug, PartialEq, Eq, Structural)]
pub enum Direction {
    Ascending,
    Descending,
}

/// The aggregate functions.
#[derive(Clone, Copy, Debug, PartialEq, Eq, Structural)]
pub enum AggFunc {
    Avg,
    Count,
    GroupConcat,
    Max,
    Min,
    StringAgg,
    Sum,
    Total,
}

/// An aggregate of the plan: a function and its arguments.
#[derive(Clone, Debug, PartialEq, Eq)]
pub struct Aggregate {
    /// The function.
    pub func: AggFunc,
    /// The arguments.
    pub args: Vec<PlanExpr>,
}

/// One entry of a projection.
#[derive(Clone, Debug)]
pub enum ProjectionColumn {
    /// An expression.
    Column(PlanExpr),
    /// `*`: every column of every table of the query.
    Star,
    /// `alias.*`: every column of one table.
    TableStar(Rc<BTreeTable>, String),
}

/// A node of the query plan. Operators form a tree; a query such as
/// `SELECT t1.foo FROM t1 ORDER BY t1.foo LIMIT 1` is planned as a limit
/// over an order over a projection over a scan.
#[derive(Debug)]
#[allow(inconsistent_fields)]
pub enum Operator {
    /// Computes aggregates over the rows of its source.
    Aggregate { id: usize, source: Box<Operator>, aggregates: Vec<Aggregate> },
    /// Keeps the rows of its source that satisfy every predicate.
    Filter { id: usize, source: Box<Operator>, predicates: Vec<PlanExpr> },
    /// Reads the one row of a table whose rowid satisfies `rowid_predicate`.
    SeekRowid {
        id: usize,
        table: Rc<BTreeTable>,
        table_identifier: String,
        rowid_predicate: PlanExpr,
        predicates: Option<Vec<PlanExpr>>,
    },
    /// Keeps the first `limit` rows of its source.
    Limit { id: usize, source: Box<Operator>, limit: usize },
    /// Joins the rows of its two children.
    Join {
        id: usize,
        left: Box<Operator>,
        right: Box<Operator>,
        predicates: Option<Vec<PlanExpr>>,
        outer: bool,
    },
    /// Sorts the rows of its source.
    Order { id: usize, source: Box<Operator>, key: Vec<(PlanExpr, Direction)> },
    /// Computes the result columns from the rows of its source.
    Projection { id: usize, source: Box<Operator>, expressions: Vec<ProjectionColumn> },
    /// Reads every row of a table.
    Scan {
        id: usize,
        table: Rc<BTreeTable>,
        table_identifier: String,
        predicates: Option<Vec<PlanExpr>>,
    },
    /// Yields no row.
    Nothing,
}

/// A query plan: the root of the operator tree, and the tables of the
/// `FROM` clause with their aliases. The position of an entry in
/// `referenced_tables` is the position of its bit in a table mask.
#[derive(Debug)]
pub struct Plan {
    pub root_node: Operator,
    pub referenced_tables: Vec<(Rc<BTreeTable>, String)>,
}

/// How many columns the tables from the position `from` on have together.
pub open spec fn total_columns(tables: Seq<(Rc<BTreeTable>, String)>, from: int) -> nat
    decreases tables.len() - from,
{
    if from < 0 || from >= tables.len() {
        0
    } else {
        tables[from].0.columns@.len() + total_columns(tables, from + 1)
    }
}

/// How many result columns the projection entries from the position `from`
/// on yield together.
pub open spec fn projected_columns(
    expressions: Seq<ProjectionColumn>,
    tables: Seq<(Rc<BTreeTable>, String)>,
    from: int,
) -> nat
    decreases expressions.len() - from,
{
    if from < 0 || from >= expressions.len() {
        0
    } else {
        expressions[from].columns(tables) + projected_columns(expressions, tables, from + 1)
    }
}

impl ProjectionColumn {
    /// How many result columns the entry yields: one for an expression, the
    /// columns of every table for `*`, the columns of its table for
    /// `alias.*`.
    pub open spec fn columns(self, tables: Seq<(Rc<BTreeTable>, String)>) -> nat {
        match self {
            ProjectionColumn::Column(_) => 1,
            ProjectionColumn::Star => total_columns(tables, 0),
            ProjectionColumn::TableStar(table, _) => table.columns@.len(),
        }
    }

    /// How many result columns the entry yields; none where the number
    /// exceeds the machine word.
    #[verifier::loop_isolation(false)]
    pub fn checked_column_count(&self, referenced_tables: &[(Rc<BTreeTable>, String)]) -> (count:
        Option<usize>)
        ensures
            match count {
                Some(count) => count == self.columns(referenced_tables@),
                None => self.columns(referenced_tables@) > usize::MAX,
            },
    {
        match self {
            ProjectionColumn::Column(_) => Some(1),
            ProjectionColumn::Star => {
                let ghost tables = referenced_tables@;
                let mut count: usize = 0;
                let mut i: usize = 0;
                while i < referenced_tables.len()
                    invariant
                        i <= referenced_tables.len(),
                        tables == referenced_tables@,
                        count + total_columns(tables, i as int) == total_columns(tables, 0),
                    decreases referenced_tables.len() - i,
                {
                    match count.checked_add(referenced_tables[i].0.columns.len()) {
                        Some(sum) => {
                            count = sum;
                        },
                        None => {
                            return None;
                        },
                    }
                    i = i + 1;
                }
                Some(count)
            },
            ProjectionColumn::TableStar(table, _) => Some(table.columns.len()),
        }
    }

    /// How many result columns the entry yields.
    pub fn column_count(&self, referenced_tables: &[(Rc<BTreeTable>, String)]) -> (count: usize)
        requires
            self.columns(referenced_tables@) <= usize::MAX,
        ensures
            count == self.columns(referenced_tables@),
    {
        match self.checked_column_count(referenced_tables) {
            Some(count) => count,
            None => unreached(),
        }
    }
}

impl Operator {
    /// How many columns the rows of the operator have.
    ///
    /// A scan and a seek have the columns of their table, a join those of
    /// its two children together, a projection those of its entries, and an
    /// aggregation one for each aggregate. A filter, an order and a limit
    /// have the columns of their source.
    pub open spec fn columns(self, tables: Seq<(Rc<BTreeTable>, String)>) -> nat
        decreases self,
    {
        match self {
            Operator::Aggregate { aggregates, .. } => aggregates@.len(),
            Operator::Filter { source, .. } => source.columns(tables),
            Operator::SeekRowid { table, .. } => table.columns@.len(),
            Operator::Limit { source, .. } => source.columns(tables),
            Operator::Join { left, right, .. } => left.columns(tables) + right.columns(tables),
            Operator::Order { source, .. } => source.columns(tables),
            Operator::Projection { expressions, .. } => projected_columns(expressions@, tables, 0),
            Operator::Scan { table, .. } => table.columns@.len(),
            Operator::Nothing => 0,
        }
    }

    /// How many columns the rows of the operator have; none where the
    /// number exceeds the machine word.
    #[verifier::loop_isolation(false)]
    pub fn checked_column_count(&self, referenced_tables: &[(Rc<BTreeTable>, String)]) -> (count:
        Option<usize>)
        ensures
            match count {
                Some(count) => count == self.columns(referenced_tables@),
                None => self.columns(referenced_tables@) > usize::MAX,
            },
        decreases self,
    {
        match self {
            Operator::Aggregate { aggregates, .. } => Some(aggregates.len()),
            Operator::Filter { source, .. } => source.checked_column_count(referenced_tables),
            Operator::SeekRowid { table, .. } => Some(table.columns.len()),
            Operator::Limit { source, .. } => source.checked_column_count(referenced_tables),
            Operator::Join { left, right, .. } => {
                match left.checked_column_count(referenced_tables) {
                    Some(of_left) => match right.checked_column_count(referenced_tables) {
                        Some(of_right) => of_left.checked_add(of_right),
                        None => None,
                    },
                    None => None,
                }
            },
            Operator::Order { source, .. } => source.checked_column_count(referenced_tables),
            Operator::Projection { expressions, .. } => {
                let ghost tables = referenced_tables@;
                let ghost all = expressions@;
                let mut count: usize = 0;
                let mut i: usize = 0;
                while i < expressions.len()
                    invariant
                        i <= expressions.len(),
                        tables == referenced_tables@,
                        all == expressions@,
                        count + projected_columns(all, tables, i as int) == projected_columns(
                            all,
                            tables,
                            0,
                        ),
                    decreases expressions.len() - i,
                {
                    match expressions[i].checked_column_count(referenced_tables) {
                        Some(of_entry) => match count.checked_add(of_entry) {
                            Some(sum) => {
                                count = sum;
                            },
                            None => {
                                return None;
                            },
                        },
                        None => {
                            return None;
                        },
                    }
                    i = i + 1;
                }
                Some(count)
            },
            Operator::Scan { table, .. } => Some(table.columns.len()),
            Operator::Nothing => Some(0),
        }
    }

    /// How many columns the rows of the operator have.
    pub fn column_count(&self, referenced_tables: &[(Rc<BTreeTable>, String)]) -> (count: usize)
        requires
            self.columns(referenced_tables@) <= usize::MAX,
        ensures
            count == self.columns(referenced_tables@),
    {
        match self.checked_column_count(referenced_tables) {
            Some(count) => count,
            None => unreached(),
        }
    }

    /// The number of the operator. A plan numbers its operators with
    /// distinct positive numbers; `Nothing` has none.
    pub open spec fn number(self) -> usize {
        match self {
            Operator::Aggregate { id, .. } => id,
            Operator::Filter { id, .. } => id,
            Operator::SeekRowid { id, .. } => id,
            Operator::Limit { id, .. } => id,
            Operator::Join { id, .. } => id,
            Operator::Order { id, .. } => id,
            Operator::Projection { id, .. } => id,
            Operator::Scan { id, .. } => id,
            Operator::Nothing => 0,
        }
    }

    /// The number of the operator, which must not be `Nothing`.
    pub fn id(&self) -> (id: usize)
        requires
            !(self is Nothing),
        ensures
            id == self.number(),
    {
        match self {
            Operator::Aggregate { id, .. } => *id,
            Operator::Filter { id, .. } => *id,
            Operator::SeekRowid { id, .. } => *id,
            Operator::Limit { id, .. } => *id,
            Operator::Join { id, .. } => *id,
            Operator::Order { id, .. } => *id,
            Operator::Projection { id, .. } => *id,
            Operator::Scan { id, .. } => *id,
            Operator::Nothing => unreached(),
        }
    }
}

/// Column-count additivity: a join has as many columns as its two children
/// together.
pub proof fn lemma_join_columns(join: Operator, tables: Seq<(Rc<BTreeTable>, String)>)
    requires
        join is Join,
    ensures
        join.columns(tables) == join->left.columns(tables) + join->right.columns(tables),
{
}

/// The texts of a list of strings.
pub open spec fn texts(list: Seq<String>) -> Seq<Seq<char>> {
    Seq::new(list.len(), |i: int| list[i]@)
}

/// The name of a result column that an expression computes: the identifier
/// itself, `table.column` for a qualified identifier, and `expr` for any
/// other expression.
pub open spec fn expression_name(e: ExprView) -> Seq<char> {
    match e {
        ExprView::Id(name) => name,
        ExprView::Qualified(table, name) => table + "."@ + name,
        _ => "expr"@,
    }
}

impl ProjectionColumn {
    /// The name of the result column that heads the entry: the name of the
    /// expression, `*`, or `alias.*`.
    pub open spec fn name(self) -> Seq<char> {
        match self {
            ProjectionColumn::Column(column) => expression_name(column@),
            ProjectionColumn::Star => "*"@,
            ProjectionColumn::TableStar(_, alias) => alias@ + "."@ + "*"@,
        }
    }

    /// The name of the result column that heads the entry.
    pub fn column_name(&self) -> (name: String)
        ensures
            name@ == self.name(),
    {
        match self {
            ProjectionColumn::Column(column) => match column.expr() {
                Expression::Id(ident) => ident.clone(),
                Expression::Qualified(table, ident) => {
                    let mut name = table.clone();
                    name.append(".");
                    name.append(ident.as_str());
                    name
                },
                _ => String::from_str("expr"),
            },
            ProjectionColumn::Star => String::from_str("*"),
            ProjectionColumn::TableStar(_, alias) => {
                let mut name = alias.clone();
                name.append(".");
                name.append("*");
                name
            },
        }
    }
}

/// The names of the columns of a table.
fn table_column_names(table: &BTreeTable) -> (names: Vec<String>)
    ensures
        texts(names@) == table.names(),
{
    let mut names: Vec<String> = Vec::new();
    let mut i: usize = 0;
    while i < table.columns.len()
        invariant
            i <= table.columns.len(),
            names.len() == i,
            forall|j: int| 0 <= j < i ==> names@[j]@ == table.columns@[j].name@,
        decreases table.columns.len() - i,
    {
        names.push(table.columns[i].name.clone());
        i = i + 1;
    }
    assert(texts(names@) =~= table.names());
    names
}

impl Operator {
    /// Whether the operator has names for its columns. The columns of an
    /// aggregation have none, nor have those of an operator that takes its
    /// columns from one.
    pub open spec fn has_names(self) -> bool
        decreases self,
    {
        match self {
            Operator::Aggregate { .. } => false,
            Operator::Filter { source, .. } => source.has_names(),
            Operator::Limit { source, .. } => source.has_names(),
            Operator::Join { left, right, .. } => left.has_names() && right.has_names(),
            Operator::Order { source, .. } => source.has_names(),
            _ => true,
        }
    }

    /// The names of the columns of the operator, as they head a result.
    pub open spec fn names(self) -> Seq<Seq<char>>
        decreases self,
    {
        match self {
            Operator::Aggregate { .. } => Seq::empty(),
            Operator::Filter { source, .. } => source.names(),
            Operator::SeekRowid { table, .. } => table.names(),
            Operator::Limit { source, .. } => source.names(),
            Operator::Join { left, right, .. } => left.names() + right.names(),
            Operator::Order { source, .. } => source.names(),
            Operator::Projection { expressions, .. } => Seq::new(
                expressions@.len(),
                |i: int| expressions@[i].name(),
            ),
            Operator::Scan { table, .. } => table.names(),
            Operator::Nothing => Seq::empty(),
        }
    }

    /// Whether the operator has names for its columns.
    pub fn names_defined(&self) -> (defined: bool)
        ensures
            defined == self.has_names(),
        decreases self,
    {
        match self {
            Operator::Aggregate { .. } => false,
            Operator::Filter { source, .. } => source.names_defined(),
            Operator::Limit { source, .. } => source.names_defined(),
            Operator::Join { left, right, .. } => left.names_defined() && right.names_defined(),
            Operator::Order { source, .. } => source.names_defined(),
            _ => true,
        }
    }

    /// The names of the columns of the operator, derived without running
    /// the query.
    pub fn column_names(&self) -> (names: Vec<String>)
        requires
            self.has_names(),
        ensures
            texts(names@) == self.names(),
            names@.len() == self.names().len(),
        decreases self,
    {
        match self {
            Operator::Aggregate { .. } => unreached(),
            Operator::Filter { source, .. } => source.column_names(),
            Operator::SeekRowid { table, .. } => table_column_names(table),
            Operator::Limit { source, .. } => source.column_names(),
            Operator::Join { left, right, .. } => {
                let mut names = left.column_names();
                let mut more = right.column_names();
                let ghost first = names@;
                let ghost second = more@;
                names.append(&mut more);
                assert(texts(names@) =~= texts(first) + texts(second));
                names
            },
            Operator::Order { source, .. } => source.column_names(),
            Operator::Projection { expressions, .. } => {
                let mut names: Vec<String> = Vec::new();
                let mut i: usize = 0;
                while i < expressions.len()
                    invariant
                        i <= expressions.len(),
                        names.len() == i,
                        forall|j: int| 0 <= j < i ==> names@[j]@ == expressions@[j].name(),
                    decreases expressions.len() - i,
                {
                    names.push(expressions[i].column_name());
                    i = i + 1;
                }
                assert(texts(names@) =~= self.names());
                names
            },
            Operator::Scan { table, .. } => table_column_names(table),
            Operator::Nothing => {
                let names: Vec<String> = Vec::new();
                assert(texts(names@) =~= self.names());
                names
            },
        }
    }
}

/// Cardinality of the names of a projection.
///
/// A projection whose entries are expressions has as many column names as
/// columns. (An entry `*` or `alias.*` has one name but stands for as many
/// columns as its tables have.)
pub proof fn lemma_projection_names(projection: Operator, tables: Seq<(Rc<BTreeTable>, String)>)
    requires
        projection is Projection,
        forall|i: int|
            0 <= i < projection->expressions@.len() ==> (
            #[trigger] projection->expressions@[i]) is Column,
    ensures
        projection.names().len() == projection.columns(tables),
{
    lemma_projected_expressions(projection->expressions@, tables, 0);
}

/// Entries that are expressions yield one column each.
proof fn lemma_projected_expressions(
    expressions: Seq<ProjectionColumn>,
    tables: Seq<(Rc<BTreeTable>, String)>,
    from: int,
)
    requires
        0 <= from <= expressions.len(),
        forall|i: int| 0 <= i < expressions.len() ==> (#[trigger] expressions[i]) is Column,
    ensures
        projected_columns(expressions, tables, from) == expressions.len() - from,
    decreases expressions.len() - from,
{
    if from < expressions.len() {
        lemma_projected_expressions(expressions, tables, from + 1);
    }
}

/// The parts of a list with a separator between each two of them.
pub open spec fn joined(parts: Seq<Seq<char>>, separator: Seq<char>) -> Seq<char>
    decreases parts.len(),
{
    if parts.len() == 0 {
        Seq::empty()
    } else if parts.len() == 1 {
        parts[0]
    } else {
        joined(parts.drop_last(), separator) + separator + parts.last()
    }
}

/// Joins the parts of a list with a separator between each two of them.
fn join(parts: &Vec<String>, separator: &str) -> (text: String)
    ensures
        text@ == joined(texts(parts@), separator@),
{
    let ghost all = texts(parts@);
    let mut text = String::new();
    let mut i: usize = 0;
    while i < parts.len()
        invariant
            i <= parts.len(),
            all == texts(parts@),
            text@ == joined(all.take(i as int), separator@),
        decreases parts.len() - i,
    {
        assert(all.take(i + 1).drop_last() =~= all.take(i as int));
        assert(all.take(i + 1).last() == parts@[i as int]@);
        if i > 0 {
            text.append(separator);
        }
        text.append(parts[i].as_str());
        proof {
            if i == 0 {
                assert(text@ =~= parts@[0]@);
            }
        }
        i = i + 1;
    }
    assert(all.take(parts.len() as int) =~= all);
    text
}

/// The texts of a list of expressions.
pub open spec fn expression_texts(list: Seq<PlanExpr>) -> Seq<Seq<char>> {
    Seq::new(list.len(), |i: int| list[i].sql())
}

/// A list of predicates as one conjunction: their texts with ` AND `
/// between them.
pub open spec fn conjunction(predicates: Seq<PlanExpr>) -> Seq<char> {
    joined(expression_texts(predicates), " AND "@)
}

/// The texts of a list of expressions, joined by a separator.
fn join_expressions(list: &Vec<PlanExpr>, separator: &str) -> (text: String)
    ensures
        text@ == joined(expression_texts(list@), separator@),
{
    let mut parts: Vec<String> = Vec::new();
    let mut i: usize = 0;
    while i < list.len()
        invariant
            i <= list.len(),
            parts.len() == i,
            forall|j: int| 0 <= j < i ==> parts@[j]@ == list@[j].sql(),
        decreases list.len() - i,
    {
        parts.push(list[i].text().clone());
        i = i + 1;
    }
    assert(texts(parts@) =~= expression_texts(list@));
    join(&parts, separator)
}

impl Direction {
    /// The keyword of the direction.
    pub open spec fn text(self) -> Seq<char> {
        match self {
            Direction::Ascending => "ASC"@,
            Direction::Descending => "DESC"@,
        }
    }

    /// The keyword of the direction: `ASC` or `DESC`.
    pub fn to_string(&self) -> (text: String)
        ensures
            text@ == self.text(),
    {
        match self {
            Direction::Ascending => String::from_str("ASC"),
            Direction::Descending => String::from_str("DESC"),
        }
    }
}

impl AggFunc {
    /// The name under which the function is shown.
    pub open spec fn text(self) -> Seq<char> {
        match self {
            AggFunc::Avg => "Avg"@,
            AggFunc::Count => "Count"@,
            AggFunc::GroupConcat => "GroupConcat"@,
            AggFunc::Max => "Max"@,
            AggFunc::Min => "Min"@,
            AggFunc::StringAgg => "StringAgg"@,
            AggFunc::Sum => "Sum"@,
            AggFunc::Total => "Total"@,
        }
    }

    /// The name under which the function is shown.
    pub fn to_string(&self) -> (text: String)
        ensures
            text@ == self.text(),
    {
        match self {
            AggFunc::Avg => String::from_str("Avg"),
            AggFunc::Count => String::from_str("Count"),
            AggFunc::GroupConcat => String::from_str("GroupConcat"),
            AggFunc::Max => String::from_str("Max"),
            AggFunc::Min => String::from_str("Min"),
            AggFunc::StringAgg => String::from_str("StringAgg"),
            AggFunc::Sum => String::from_str("Sum"),
            AggFunc::Total => String::from_str("Total"),
        }
    }
}

impl Aggregate {
    /// The text of the aggregate: the function, and in parentheses the
    /// arguments with `, ` between them.
    pub open spec fn text(self) -> Seq<char> {
        self.func.text() + "("@ + joined(expression_texts(self.args@), ", "@) + ")"@
    }

    /// The text of the aggregate.
    pub fn to_string(&self) -> (text: String)
        ensures
            text@ == self.text(),
    {
        let mut text = self.func.to_string();
        text.append("(");
        text.append(join_expressions(&self.args, ", ").as_str());
        text.append(")");
        text
    }
}

impl ProjectionColumn {
    /// The text of the entry: that of its expression, `*`, or `alias.*`.
    pub open spec fn text(self) -> Seq<char> {
        match self {
            ProjectionColumn::Column(column) => column.sql(),
            ProjectionColumn::Star => "*"@,
            ProjectionColumn::TableStar(_, alias) => alias@ + "."@ + "*"@,
        }
    }

    /// The text of the entry.
    pub fn to_string(&self) -> (text: String)
        ensures
            text@ == self.text(),
    {
        match self {
            ProjectionColumn::Column(column) => column.text().clone(),
            ProjectionColumn::Star => String::from_str("*"),
            ProjectionColumn::TableStar(_, alias) => {
                let mut text = alias.clone();
                text.append(".");
                text.append("*");
                text
            },
        }
    }
}

/// The texts of a list of aggregates.
pub open spec fn aggregate_texts(list: Seq<Aggregate>) -> Seq<Seq<char>> {
    Seq::new(list.len(), |i: int| list[i].text())
}

/// The texts of a list of sort keys: each expression, a space, and the
/// direction.
pub open spec fn key_texts(list: Seq<(PlanExpr, Direction)>) -> Seq<Seq<char>> {
    Seq::new(list.len(), |i: int| list[i].0.sql() + " "@ + list[i].1.text())
}

/// The texts of a list of projection entries.
pub open spec fn projection_texts(list: Seq<ProjectionColumn>) -> Seq<Seq<char>> {
    Seq::new(list.len(), |i: int| list[i].text())
}

/// What an optional list of predicates adds to a line: nothing where the
/// list is absent, else the keyword and the conjunction.
pub open spec fn filter_suffix(predicates: Option<Vec<PlanExpr>>) -> Seq<char> {
    match predicates {
        Some(list) => " FILTER "@ + conjunction(list@),
        None => Seq::empty(),
    }
}

/// The indentation of one level of the plan: four spaces.
pub open spec fn indent_step() -> Seq<char> {
    "    "@
}

impl Operator {
    /// The line that shows the operator itself, without indentation.
    pub open spec fn line(self) -> Seq<char> {
        match self {
            Operator::Aggregate { aggregates, .. } => "AGGREGATE "@ + joined(
                aggregate_texts(aggregates@),
                ", "@,
            ),
            Operator::Filter { predicates, .. } => "FILTER "@ + conjunction(predicates@),
            Operator::SeekRowid { table, rowid_predicate, predicates, .. } => "SEEK "@
                + table.name@ + ".rowid ON rowid="@ + rowid_predicate.sql() + filter_suffix(
                predicates,
            ),
            Operator::Limit { limit, .. } => "TAKE "@ + decimal_digits(limit as nat),
            Operator::Join { predicates, outer, .. } => (if outer {
                "OUTER JOIN"@
            } else {
                "JOIN"@
            }) + (match predicates {
                Some(list) => if list@.len() > 0 {
                    " ON "@ + conjunction(list@)
                } else {
                    Seq::empty()
                },
                None => Seq::empty(),
            }),
            Operator::Order { key, .. } => "SORT "@ + joined(key_texts(key@), ", "@),
            Operator::Projection { expressions, .. } => "PROJECT "@ + joined(
                projection_texts(expressions@),
                ", "@,
            ),
            Operator::Scan { table, table_identifier, predicates, .. } => "SCAN "@ + table.name@
                + " AS "@ + table_identifier@ + filter_suffix(predicates),
            Operator::Nothing => Seq::empty(),
        }
    }

    /// The text that explains the plan below the operator.
    ///
    /// Each operator is shown on a line of its own, behind the indentation
    /// `indent`; its children follow, indented by four spaces more. A join
    /// shows its left child before its right child. `Nothing` is not shown.
    pub open spec fn text(self, indent: Seq<char>) -> Seq<char>
        decreases self,
    {
        match self {
            Operator::Nothing => Seq::empty(),
            Operator::Aggregate { source, .. } => indent + self.line() + "\n"@ + source.text(
                indent + indent_step(),
            ),
            Operator::Filter { source, .. } => indent + self.line() + "\n"@ + source.text(
                indent + indent_step(),
            ),
            Operator::Limit { source, .. } => indent + self.line() + "\n"@ + source.text(
                indent + indent_step(),
            ),
            Operator::Order { source, .. } => indent + self.line() + "\n"@ + source.text(
                indent + indent_step(),
            ),
            Operator::Projection { source, .. } => indent + self.line() + "\n"@ + source.text(
                indent + indent_step(),
            ),
            Operator::Join { left, right, .. } => indent + self.line() + "\n"@ + left.text(
                indent + indent_step(),
            ) + right.text(indent + indent_step()),
            Operator::SeekRowid { .. } => indent + self.line() + "\n"@,
            Operator::Scan { .. } => indent + self.line() + "\n"@,
        }
    }

    /// What an optional list of predicates adds to a line.
    fn filter_text(predicates: &Option<Vec<PlanExpr>>) -> (text: String)
        ensures
            text@ == filter_suffix(*predicates),
    {
        match predicates {
            Some(list) => String::from_str(" FILTER ").concat(
                join_expressions(list, " AND ").as_str(),
            ),
            None => String::new(),
        }
    }

    /// The line that shows the operator itself, without indentation.
    fn head(&self) -> (text: String)
        ensures
            text@ == self.line(),
    {
        match self {
            Operator::Aggregate { aggregates, .. } => {
                let mut parts: Vec<String> = Vec::new();
                let mut i: usize = 0;
                while i < aggregates.len()
                    invariant
                        i <= aggregates.len(),
                        parts.len() == i,
                        forall|j: int| 0 <= j < i ==> parts@[j]@ == aggregates@[j].text(),
                    decreases aggregates.len() - i,
                {
                    parts.push(aggregates[i].to_string());
                    i = i + 1;
                }
                assert(texts(parts@) =~= aggregate_texts(aggregates@));
                String::from_str("AGGREGATE ").concat(join(&parts, ", ").as_str())
            },
            Operator::Filter { predicates, .. } => String::from_str("FILTER ").concat(
                join_expressions(predicates, " AND ").as_str(),
            ),
            Operator::SeekRowid { table, rowid_predicate, predicates, .. } => {
                let mut text = String::from_str("SEEK ");
                text.append(table.name.as_str());
                text.append(".rowid ON rowid=");
                text.append(rowid_predicate.text().as_str());
                text.append(Self::filter_text(predicates).as_str());
                text
            },
            Operator::Limit { limit, .. } => String::from_str("TAKE ").concat(
                decimal_string(*limit).as_str(),
            ),
            Operator::Join { predicates, outer, .. } => {
                let mut text = if *outer {
                    String::from_str("OUTER JOIN")
                } else {
                    String::from_str("JOIN")
                };
                match predicates {
                    Some(list) => {
                        if list.len() > 0 {
                            text.append(" ON ");
                            text.append(join_expressions(list, " AND ").as_str());
                            assert(text@ =~= self.line());
                        } else {
                            assert(text@ =~= self.line());
                        }
                    },
                    None => {
                        assert(text@ =~= self.line());
                    },
                }
                text
            },
            Operator::Order { key, .. } => {
                let mut parts: Vec<String> = Vec::new();
                let mut i: usize = 0;
                while i < key.len()
                    invariant
                        i <= key.len(),
                        parts.len() == i,
                        forall|j: int|
                            0 <= j < i ==> parts@[j]@ == key@[j].0.sql() + " "@ + key@[j].1.text(),
                    decreases key.len() - i,
                {
                    let mut part = key[i].0.text().clone();
                    part.append(" ");
                    part.append(key[i].1.to_string().as_str());
                    parts.push(part);
                    i = i + 1;
                }
                assert(texts(parts@) =~= key_texts(key@));
                String::from_str("SORT ").concat(join(&parts, ", ").as_str())
            },
            Operator::Projection { expressions, .. } => {
                let mut parts: Vec<String> = Vec::new();
                let mut i: usize = 0;
                while i < expressions.len()
                    invariant
                        i <= expressions.len(),
                        parts.len() == i,
                        forall|j: int| 0 <= j < i ==> parts@[j]@ == expressions@[j].text(),
                    decreases expressions.len() - i,
                {
                    parts.push(expressions[i].to_string());
                    i = i + 1;
                }
                assert(texts(parts@) =~= projection_texts(expressions@));
                String::from_str("PROJECT ").concat(join(&parts, ", ").as_str())
            },
            Operator::Scan { table, table_identifier, predicates, .. } => {
                let mut text = String::from_str("SCAN ");
                text.append(table.name.as_str());
                text.append(" AS ");
                text.append(table_identifier.as_str());
                text.append(Self::filter_text(predicates).as_str());
                text
            },
            Operator::Nothing => String::new(),
        }
    }

    /// Appends to `out` the text that explains the plan below the operator.
    fn write_text(&self, indent: &str, out: &mut String)
        ensures
            final(out)@ == old(out)@ + self.text(indent@),
        decreases self,
    {
        match self {
            Operator::Nothing => {
                assert(out@ + self.text(indent@) =~= out@);
            },
            _ => {
                out.append(indent);
                out.append(self.head().as_str());
                out.append("\n");
                let deeper = String::from_str(indent).concat("    ");
                let ghost own = indent@ + self.line() + "\n"@;
                assert(out@ =~= old(out)@ + own);
                match self {
                    Operator::Aggregate { source, .. } => {
                        source.write_text(deeper.as_str(), out);
                        assert(out@ =~= old(out)@ + (own + source.text(deeper@)));
                    },
                    Operator::Filter { source, .. } => {
                        source.write_text(deeper.as_str(), out);
                        assert(out@ =~= old(out)@ + (own + source.text(deeper@)));
                    },
                    Operator::Limit { source, .. } => {
                        source.write_text(deeper.as_str(), out);
                        assert(out@ =~= old(out)@ + (own + source.text(deeper@)));
                    },
                    Operator::Order { source, .. } => {
                        source.write_text(deeper.as_str(), out);
                        assert(out@ =~= old(out)@ + (own + source.text(deeper@)));
                    },
                    Operator::Projection { source, .. } => {
                        source.write_text(deeper.as_str(), out);
                        assert(out@ =~= old(out)@ + (own + source.text(deeper@)));
                    },
                    Operator::Join { left, right, .. } => {
                        left.write_text(deeper.as_str(), out);
                        right.write_text(deeper.as_str(), out);
                        assert(out@ =~= old(out)@ + (own + left.text(deeper@) + right.text(
                            deeper@,
                        )));
                    },
                    _ => {},
                }
            },
        }
    }

    /// The text that explains the plan below the operator, one operator a
    /// line, children indented below their parent.
    pub fn to_string(&self) -> (text: String)
        ensures
            text@ == self.text(Seq::empty()),
    {
        let mut text = String::new();
        self.write_text("", &mut text);
        proof {
            reveal_strlit("");
            assert(""@ =~= Seq::<char>::empty());
            assert(text@ =~= self.text(Seq::empty()));
        }
        text
    }
}

impl Plan {
    /// The text that explains the plan.
    pub open spec fn text(self) -> Seq<char> {
        self.root_node.text(Seq::empty())
    }

    /// The text that explains the plan.
    pub fn to_string(&self) -> (text: String)
        ensures
            text@ == self.text(),
    {
        self.root_node.to_string()
    }
}

impl Operator {
    /// Whether two operators are the same but for the numbers of their
    /// nodes.
    pub open spec fn same_but_for_ids(self, other: Operator) -> bool
        decreases self,
    {
        match (self, other) {
            (
                Operator::Aggregate { source: s1, aggregates: a1, .. },
                Operator::Aggregate { source: s2, aggregates: a2, .. },
            ) => a1 == a2 && s1.same_but_for_ids(*s2),
            (
                Operator::Filter { source: s1, predicates: p1, .. },
                Operator::Filter { source: s2, predicates: p2, .. },
            ) => p1 == p2 && s1.same_but_for_ids(*s2),
            (
                Operator::SeekRowid {
                    table: t1,
                    table_identifier: i1,
                    rowid_predicate: r1,
                    predicates: p1,
                    ..
                },
                Operator::SeekRowid {
                    table: t2,
                    table_identifier: i2,
                    rowid_predicate: r2,
                    predicates: p2,
                    ..
                },
            ) => t1 == t2 && i1 == i2 && r1 == r2 && p1 == p2,
            (
                Operator::Limit { source: s1, limit: l1, .. },
                Operator::Limit { source: s2, limit: l2, .. },
            ) => l1 == l2 && s1.same_but_for_ids(*s2),
            (
                Operator::Join { left: l1, right: r1, predicates: p1, outer: o1, .. },
                Operator::Join { left: l2, right: r2, predicates: p2, outer: o2, .. },
            ) => p1 == p2 && o1 == o2 && l1.same_but_for_ids(*l2) && r1.same_but_for_ids(*r2),
            (
                Operator::Order { source: s1, key: k1, .. },
                Operator::Order { source: s2, key: k2, .. },
            ) => k1 == k2 && s1.same_but_for_ids(*s2),
            (
                Operator::Projection { source: s1, expressions: e1, .. },
                Operator::Projection { source: s2, expressions: e2, .. },
            ) => e1 == e2 && s1.same_but_for_ids(*s2),
            (
                Operator::Scan { table: t1, table_identifier: i1, predicates: p1, .. },
                Operator::Scan { table: t2, table_identifier: i2, predicates: p2, .. },
            ) => t1 == t2 && i1 == i2 && p1 == p2,
            (Operator::Nothing, Operator::Nothing) => true,
            _ => false,
        }
    }
}

/// The explanation of a tree of operators is a function of the tree, and
/// does not read the numbers of its nodes: two trees that are the same but
/// for those numbers are explained by the same text.
pub proof fn lemma_explain_deterministic(a: Operator, b: Operator, indent: Seq<char>)
    requires
        a.same_but_for_ids(b),
    ensures
        a.text(indent) == b.text(indent),
    decreases a,
{
    match (a, b) {
        (Operator::Aggregate { source: s1, .. }, Operator::Aggregate { source: s2, .. }) => {
            lemma_explain_deterministic(*s1, *s2, indent + indent_step());
        },
        (Operator::Filter { source: s1, .. }, Operator::Filter { source: s2, .. }) => {
            lemma_explain_deterministic(*s1, *s2, indent + indent_step());
        },
        (Operator::Limit { source: s1, .. }, Operator::Limit { source: s2, .. }) => {
            lemma_explain_deterministic(*s1, *s2, indent + indent_step());
        },
        (Operator::Order { source: s1, .. }, Operator::Order { source: s2, .. }) => {
            lemma_explain_deterministic(*s1, *s2, indent + indent_step());
        },
        (Operator::Projection { source: s1, .. }, Operator::Projection { source: s2, .. }) => {
            lemma_explain_deterministic(*s1, *s2, indent + indent_step());
        },
        (
            Operator::Join { left: l1, right: r1, .. },
            Operator::Join { left: l2, right: r2, .. },
        ) => {
            lemma_explain_deterministic(*l1, *l2, indent + indent_step());
            lemma_explain_deterministic(*r1, *r2, indent + indent_step());
        },
        _ => {},
    }
}

/// Two plans whose trees are the same but for the numbers of their nodes
/// are explained by the same text.
pub proof fn lemma_plan_explain_deterministic(a: Plan, b: Plan)
    requires
        a.root_node.same_but_for_ids(b.root_node),
    ensures
        a.text() == b.text(),
{
    lemma_explain_deterministic(a.root_node, b.root_node, Seq::empty());
}

} // verus!

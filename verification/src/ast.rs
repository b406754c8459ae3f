//! The expression tree that the planner and the WHERE compiler read.
//!
//! Each executable type has a mathematical view in which strings are
//! sequences of characters and vectors are sequences; the contracts of the
//! crate speak of those views.

use vstd::prelude::*;

verus! {

/// Binary operators of SQL.
#[derive(Clone, Copy, Debug, PartialEq, Eq, Structural)]
pub enum BinaryOperator {
    /// `+`
    Add,
    /// `AND`
    And,
    /// `->`
    ArrowRight,
    /// `->>`
    ArrowRightShift,
    /// `&`
    BitwiseAnd,
    /// `|`
    BitwiseOr,
    /// `||`
    Concat,
    /// `=` or `==`
    Equals,
    /// `/`
    Divide,
    /// `>`
    Greater,
    /// `>=`
    GreaterEquals,
    /// `IS`
    Is,
    /// `IS NOT`
    IsNot,
    /// `<<`
    LeftShift,
    /// `<`
    Less,
    /// `<=`
    LessEquals,
    /// `%`
    Modulus,
    /// `*`
    Multiply,
    /// `!=` or `<>`
    NotEquals,
    /// `OR`
    Or,
    /// `>>`
    RightShift,
    /// `-`
    Substract,
}

/// Textual comparison operators.
#[derive(Clone, Copy, Debug, PartialEq, Eq, Structural)]
pub enum LikeOperator {
    /// `GLOB`
    Glob,
    /// `LIKE`
    Like,
    /// `MATCH`
    Match,
    /// `REGEXP`
    Regexp,
}

/// Unary operators.
#[derive(Clone, Copy, Debug, PartialEq, Eq, Structural)]
pub enum UnaryOperator {
    /// `~`
    BitwiseNot,
    /// `-`
    Negative,
    /// `NOT`
    Not,
    /// `+`
    Positive,
}

/// Whether a function reads each value or each distinct value.
#[derive(Clone, Copy, Debug, PartialEq, Eq, Structural)]
pub enum Distinctness {
    /// `DISTINCT`
    Distinct,
    /// `ALL`
    All,
}

/// The order of a sort.
#[derive(Clone, Copy, Debug, PartialEq, Eq, Structural)]
pub enum SortOrder {
    /// `ASC`
    Asc,
    /// `DESC`
    Desc,
}

/// Where a sort puts the null values.
#[derive(Clone, Copy, Debug, PartialEq, Eq, Structural)]
pub enum NullsOrder {
    /// `NULLS FIRST`
    First,
    /// `NULLS LAST`
    Last,
}

/// A literal, held as the text that stood in the statement.
#[derive(Debug, PartialEq, Eq)]
pub enum Literal {
    /// A number.
    Numeric(String),
    /// A string, quotes included.
    String(String),
    /// A blob, as hexadecimal digits.
    Blob(String),
    /// A keyword used as a value.
    Keyword(String),
    /// `NULL`
    Null,
    /// `CURRENT_DATE`
    CurrentDate,
    /// `CURRENT_TIME`
    CurrentTime,
    /// `CURRENT_TIMESTAMP`
    CurrentTimestamp,
}

/// The mathematical value of a [`Literal`].
pub enum LiteralView {
    Numeric(Seq<char>),
    String(Seq<char>),
    Blob(Seq<char>),
    Keyword(Seq<char>),
    Null,
    CurrentDate,
    CurrentTime,
    CurrentTimestamp,
}

impl View for Literal {
    type V = LiteralView;

    open spec fn view(&self) -> LiteralView {
        match self {
            Literal::Numeric(text) => LiteralView::Numeric(text@),
            Literal::String(text) => LiteralView::String(text@),
            Literal::Blob(text) => LiteralView::Blob(text@),
            Literal::Keyword(text) => LiteralView::Keyword(text@),
            Literal::Null => LiteralView::Null,
            Literal::CurrentDate => LiteralView::CurrentDate,
            Literal::CurrentTime => LiteralView::CurrentTime,
            Literal::CurrentTimestamp => LiteralView::CurrentTimestamp,
        }
    }
}

impl Clone for Literal {
    fn clone(&self) -> (copy: Self)
        ensures
            copy@ == self@,
    {
        match self {
            Literal::Numeric(text) => Literal::Numeric(text.clone()),
            Literal::String(text) => Literal::String(text.clone()),
            Literal::Blob(text) => Literal::Blob(text.clone()),
            Literal::Keyword(text) => Literal::Keyword(text.clone()),
            Literal::Null => Literal::Null,
            Literal::CurrentDate => Literal::CurrentDate,
            Literal::CurrentTime => Literal::CurrentTime,
            Literal::CurrentTimestamp => Literal::CurrentTimestamp,
        }
    }
}

/// The size limits of a type name.
#[derive(Debug, PartialEq, Eq)]
pub enum TypeSize {
    /// `(size)`
    MaxSize(Box<Expression>),
    /// `(size, size)`
    TypeSize(Box<Expression>, Box<Expression>),
}

/// The name of a type, as `CAST` gives it.
#[derive(Debug, PartialEq, Eq)]
pub struct TypeName {
    /// The name.
    pub name: String,
    /// The size limits, if any.
    pub size: Option<TypeSize>,
}

/// A term of the `ORDER BY` of a function call.
#[derive(Debug, PartialEq, Eq)]
pub struct OrderingTerm {
    /// The expression to sort by.
    pub expr: Expression,
    /// `ASC` or `DESC`, if written.
    pub order: Option<SortOrder>,
    /// `NULLS FIRST` or `NULLS LAST`, if written.
    pub nulls: Option<NullsOrder>,
}

/// The mathematical value of a [`TypeSize`].
pub enum TypeSizeView {
    MaxSize(Box<ExprView>),
    TypeSize(Box<ExprView>, Box<ExprView>),
}

/// The mathematical value of a [`TypeName`].
pub struct TypeNameView {
    pub name: Seq<char>,
    pub size: Option<TypeSizeView>,
}

/// The mathematical value of an [`OrderingTerm`].
pub struct OrderingTermView {
    pub expr: ExprView,
    pub order: Option<SortOrder>,
    pub nulls: Option<NullsOrder>,
}

/// An expression of SQL.
#[derive(Debug, PartialEq, Eq)]
#[allow(inconsistent_fields)]
pub enum Expression {
    /// `lhs [NOT] BETWEEN start AND end`
    Between { lhs: Box<Expression>, not: bool, start: Box<Expression>, end: Box<Expression> },
    /// `lhs op rhs`
    Binary(Box<Expression>, BinaryOperator, Box<Expression>),
    /// `CASE [base] WHEN condition THEN result ... [ELSE else_expr] END`
    Case {
        base: Option<Box<Expression>>,
        when_then_pairs: Vec<(Expression, Expression)>,
        else_expr: Option<Box<Expression>>,
    },
    /// `CAST(expr AS target_type)`
    Cast { expr: Box<Expression>, target_type: Option<TypeName> },
    /// `expr COLLATE collation`
    Collate(Box<Expression>, String),
    /// `schema.table.column`
    DoublyQualified(String, String, String),
    /// `name([DISTINCT] args [ORDER BY order_by])`
    FunctionCall {
        name: String,
        distinctness: Option<Distinctness>,
        args: Option<Vec<Expression>>,
        order_by: Option<Vec<OrderingTerm>>,
    },
    /// `name(*)`
    FunctionCallStar { name: String },
    /// A bare identifier.
    Id(String),
    /// `lhs [NOT] IN (rhs)`; an absent list is the empty list `()`.
    InList { lhs: Box<Expression>, not: bool, rhs: Option<Vec<Expression>> },
    /// `expr ISNULL`
    IsNull(Box<Expression>),
    /// `lhs [NOT] op rhs [ESCAPE escape]`
    Like {
        lhs: Box<Expression>,
        not: bool,
        op: LikeOperator,
        rhs: Box<Expression>,
        escape: Option<Box<Expression>>,
    },
    /// A literal.
    Literal(Literal),
    /// A name that is no column: a string in the place of an identifier.
    Name(String),
    /// `expr NOTNULL`
    NotNull(Box<Expression>),
    /// `(expr, ...)`
    Parenthesized(Vec<Expression>),
    /// `table.column`
    Qualified(String, String),
    /// `op expr`
    Unary(UnaryOperator, Box<Expression>),
    /// A parameter of a prepared statement.
    Variable(String),
}

/// The mathematical value of an [`Expression`].
#[allow(inconsistent_fields)]
pub enum ExprView {
    Between { lhs: Box<ExprView>, not: bool, start: Box<ExprView>, end: Box<ExprView> },
    Binary(Box<ExprView>, BinaryOperator, Box<ExprView>),
    Case {
        base: Option<Box<ExprView>>,
        when_then_pairs: Seq<(ExprView, ExprView)>,
        else_expr: Option<Box<ExprView>>,
    },
    Cast { expr: Box<ExprView>, target_type: Option<TypeNameView> },
    Collate(Box<ExprView>, Seq<char>),
    DoublyQualified(Seq<char>, Seq<char>, Seq<char>),
    FunctionCall {
        name: Seq<char>,
        distinctness: Option<Distinctness>,
        args: Option<Seq<ExprView>>,
        order_by: Option<Seq<OrderingTermView>>,
    },
    FunctionCallStar { name: Seq<char> },
    Id(Seq<char>),
    InList { lhs: Box<ExprView>, not: bool, rhs: Option<Seq<ExprView>> },
    IsNull(Box<ExprView>),
    Like {
        lhs: Box<ExprView>,
        not: bool,
        op: LikeOperator,
        rhs: Box<ExprView>,
        escape: Option<Box<ExprView>>,
    },
    Literal(LiteralView),
    Name(Seq<char>),
    NotNull(Box<ExprView>),
    Parenthesized(Seq<ExprView>),
    Qualified(Seq<char>, Seq<char>),
    Unary(UnaryOperator, Box<ExprView>),
    Variable(Seq<char>),
}

impl Expression {
    /// The tree with each string and vector replaced by its sequence.
    pub open spec fn model(self) -> ExprView
        decreases self,
    {
        match self {
            Expression::Between { lhs, not, start, end } => ExprView::Between {
                lhs: Box::new(lhs.model()),
                not,
                start: Box::new(start.model()),
                end: Box::new(end.model()),
            },
            Expression::Binary(lhs, op, rhs) => ExprView::Binary(
                Box::new(lhs.model()),
                op,
                Box::new(rhs.model()),
            ),
            Expression::Case { base, when_then_pairs, else_expr } => ExprView::Case {
                base: match base {
                    Some(expr) => Some(Box::new(expr.model())),
                    None => None,
                },
                when_then_pairs: Self::pair_models(when_then_pairs@),
                else_expr: match else_expr {
                    Some(expr) => Some(Box::new(expr.model())),
                    None => None,
                },
            },
            Expression::Cast { expr, target_type } => ExprView::Cast {
                expr: Box::new(expr.model()),
                target_type: match target_type {
                    Some(target_type) => Some(
                        TypeNameView {
                            name: target_type.name@,
                            size: match target_type.size {
                                Some(TypeSize::MaxSize(size)) => Some(
                                    TypeSizeView::MaxSize(Box::new(size.model())),
                                ),
                                Some(TypeSize::TypeSize(first, second)) => Some(
                                    TypeSizeView::TypeSize(
                                        Box::new(first.model()),
                                        Box::new(second.model()),
                                    ),
                                ),
                                None => None,
                            },
                        },
                    ),
                    None => None,
                },
            },
            Expression::Collate(expr, collation) => ExprView::Collate(
                Box::new(expr.model()),
                collation@,
            ),
            Expression::DoublyQualified(schema, table, name) => ExprView::DoublyQualified(
                schema@,
                table@,
                name@,
            ),
            Expression::FunctionCall { name, distinctness, args, order_by } => ExprView::FunctionCall {
                name: name@,
                distinctness,
                args: match args {
                    Some(list) => Some(Self::models(list@)),
                    None => None,
                },
                order_by: match order_by {
                    Some(list) => Some(Self::term_models(list@)),
                    None => None,
                },
            },
            Expression::FunctionCallStar { name } => ExprView::FunctionCallStar { name: name@ },
            Expression::Id(name) => ExprView::Id(name@),
            Expression::InList { lhs, not, rhs } => ExprView::InList {
                lhs: Box::new(lhs.model()),
                not,
                rhs: match rhs {
                    Some(list) => Some(Self::models(list@)),
                    None => None,
                },
            },
            Expression::IsNull(expr) => ExprView::IsNull(Box::new(expr.model())),
            Expression::Like { lhs, not, op, rhs, escape } => ExprView::Like {
                lhs: Box::new(lhs.model()),
                not,
                op,
                rhs: Box::new(rhs.model()),
                escape: match escape {
                    Some(expr) => Some(Box::new(expr.model())),
                    None => None,
                },
            },
            Expression::Literal(literal) => ExprView::Literal(literal@),
            Expression::Name(name) => ExprView::Name(name@),
            Expression::NotNull(expr) => ExprView::NotNull(Box::new(expr.model())),
            Expression::Parenthesized(list) => ExprView::Parenthesized(Self::models(list@)),
            Expression::Qualified(table, name) => ExprView::Qualified(table@, name@),
            Expression::Unary(op, expr) => ExprView::Unary(op, Box::new(expr.model())),
            Expression::Variable(name) => ExprView::Variable(name@),
        }
    }

    /// The models of a sequence of pairs of expressions, pair by pair.
    pub open spec fn pair_models(list: Seq<(Expression, Expression)>) -> Seq<(ExprView, ExprView)>
        decreases list,
    {
        Seq::new(
            list.len(),
            |i: int|
                if 0 <= i < list.len() {
                    (list[i].0.model(), list[i].1.model())
                } else {
                    arbitrary()
                },
        )
    }

    /// The models of a sequence of ordering terms, term by term.
    pub open spec fn term_models(list: Seq<OrderingTerm>) -> Seq<OrderingTermView>
        decreases list,
    {
        Seq::new(
            list.len(),
            |i: int|
                if 0 <= i < list.len() {
                    OrderingTermView {
                        expr: list[i].expr.model(),
                        order: list[i].order,
                        nulls: list[i].nulls,
                    }
                } else {
                    arbitrary()
                },
        )
    }

    /// The models of a sequence of expressions, item by item.
    pub open spec fn models(list: Seq<Expression>) -> Seq<ExprView>
        decreases list,
    {
        Seq::new(
            list.len(),
            |i: int|
                if 0 <= i < list.len() {
                    list[i].model()
                } else {
                    arbitrary()
                },
        )
    }

    /// A deep copy of a list of pairs of expressions.
    #[verifier::loop_isolation(false)]
    fn clone_pairs(list: &Vec<(Expression, Expression)>) -> (copy: Vec<(Expression, Expression)>)
        ensures
            Self::pair_models(copy@) == Self::pair_models(list@),
        decreases list,
    {
        let mut copy: Vec<(Expression, Expression)> = Vec::new();
        let mut i: usize = 0;
        while i < list.len()
            invariant
                i <= list.len(),
                copy.len() == i,
                forall|j: int|
                    0 <= j < i ==> copy@[j].0@ == list@[j].0@ && copy@[j].1@ == list@[j].1@,
            decreases list.len() - i,
        {
            copy.push((list[i].0.clone(), list[i].1.clone()));
            i = i + 1;
        }
        assert(Self::pair_models(copy@) =~= Self::pair_models(list@));
        copy
    }

    /// A deep copy of a list of ordering terms.
    #[verifier::loop_isolation(false)]
    fn clone_terms(list: &Vec<OrderingTerm>) -> (copy: Vec<OrderingTerm>)
        ensures
            Self::term_models(copy@) == Self::term_models(list@),
        decreases list,
    {
        let mut copy: Vec<OrderingTerm> = Vec::new();
        let mut i: usize = 0;
        while i < list.len()
            invariant
                i <= list.len(),
                copy.len() == i,
                forall|j: int|
                    0 <= j < i ==> copy@[j].expr@ == list@[j].expr@ && copy@[j].order
                        == list@[j].order && copy@[j].nulls == list@[j].nulls,
            decreases list.len() - i,
        {
            copy.push(
                OrderingTerm {
                    expr: list[i].expr.clone(),
                    order: list[i].order,
                    nulls: list[i].nulls,
                },
            );
            i = i + 1;
        }
        assert(Self::term_models(copy@) =~= Self::term_models(list@));
        copy
    }

    /// A deep copy of a list of expressions.
    #[verifier::loop_isolation(false)]
    fn clone_list(list: &Vec<Expression>) -> (copy: Vec<Expression>)
        ensures
            Self::models(copy@) == Self::models(list@),
        decreases list,
    {
        let mut copy: Vec<Expression> = Vec::new();
        let mut i: usize = 0;
        while i < list.len()
            invariant
                i <= list.len(),
                copy.len() == i,
                forall|j: int| 0 <= j < i ==> copy@[j]@ == list@[j]@,
            decreases list.len() - i,
        {
            copy.push(list[i].clone());
            i = i + 1;
        }
        assert(Self::models(copy@) =~= Self::models(list@));
        copy
    }
}

impl View for Expression {
    type V = ExprView;

    open spec fn view(&self) -> ExprView {
        self.model()
    }
}

impl Clone for Expression {
    fn clone(&self) -> (copy: Self)
        ensures
            copy@ == self@,
        decreases self,
    {
        match self {
            Expression::Between { lhs, not, start, end } => Expression::Between {
                lhs: Box::new((**lhs).clone()),
                not: *not,
                start: Box::new((**start).clone()),
                end: Box::new((**end).clone()),
            },
            Expression::Binary(lhs, op, rhs) => Expression::Binary(
                Box::new((**lhs).clone()),
                *op,
                Box::new((**rhs).clone()),
            ),
            Expression::Case { base, when_then_pairs, else_expr } => Expression::Case {
                base: match base {
                    Some(expr) => Some(Box::new((**expr).clone())),
                    None => None,
                },
                when_then_pairs: Expression::clone_pairs(when_then_pairs),
                else_expr: match else_expr {
                    Some(expr) => Some(Box::new((**expr).clone())),
                    None => None,
                },
            },
            Expression::Cast { expr, target_type } => Expression::Cast {
                expr: Box::new((**expr).clone()),
                target_type: match target_type {
                    Some(target_type) => Some(
                        TypeName {
                            name: target_type.name.clone(),
                            size: match &target_type.size {
                                Some(TypeSize::MaxSize(size)) => Some(
                                    TypeSize::MaxSize(Box::new((**size).clone())),
                                ),
                                Some(TypeSize::TypeSize(first, second)) => Some(
                                    TypeSize::TypeSize(
                                        Box::new((**first).clone()),
                                        Box::new((**second).clone()),
                                    ),
                                ),
                                None => None,
                            },
                        },
                    ),
                    None => None,
                },
            },
            Expression::Collate(expr, collation) => Expression::Collate(
                Box::new((**expr).clone()),
                collation.clone(),
            ),
            Expression::DoublyQualified(schema, table, name) => Expression::DoublyQualified(
                schema.clone(),
                table.clone(),
                name.clone(),
            ),
            Expression::FunctionCall { name, distinctness, args, order_by } => Expression::FunctionCall {
                name: name.clone(),
                distinctness: *distinctness,
                args: match args {
                    Some(list) => Some(Expression::clone_list(list)),
                    None => None,
                },
                order_by: match order_by {
                    Some(list) => Some(Expression::clone_terms(list)),
                    None => None,
                },
            },
            Expression::FunctionCallStar { name } => Expression::FunctionCallStar {
                name: name.clone(),
            },
            Expression::Id(name) => Expression::Id(name.clone()),
            Expression::InList { lhs, not, rhs } => Expression::InList {
                lhs: Box::new((**lhs).clone()),
                not: *not,
                rhs: match rhs {
                    Some(list) => Some(Expression::clone_list(list)),
                    None => None,
                },
            },
            Expression::IsNull(expr) => Expression::IsNull(Box::new((**expr).clone())),
            Expression::Like { lhs, not, op, rhs, escape } => Expression::Like {
                lhs: Box::new((**lhs).clone()),
                not: *not,
                op: *op,
                rhs: Box::new((**rhs).clone()),
                escape: match escape {
                    Some(expr) => Some(Box::new((**expr).clone())),
                    None => None,
                },
            },
            Expression::Literal(literal) => Expression::Literal(literal.clone()),
            Expression::Name(name) => Expression::Name(name.clone()),
            Expression::NotNull(expr) => Expression::NotNull(Box::new((**expr).clone())),
            Expression::Parenthesized(list) => Expression::Parenthesized(
                Expression::clone_list(list),
            ),
            Expression::Qualified(table, name) => Expression::Qualified(
                table.clone(),
                name.clone(),
            ),
            Expression::Unary(op, expr) => Expression::Unary(*op, Box::new((**expr).clone())),
            Expression::Variable(name) => Expression::Variable(name.clone()),
        }
    }
}

} // verus!

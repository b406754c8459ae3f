//! Errors raised while planning a query or compiling its predicates.

use vstd::prelude::*;
use vstd::string::*;

verus! {

/// A feature of SQL that the compiler recognises but does not compile.
#[derive(Clone, Copy, Debug, PartialEq, Eq, Structural)]
pub enum Unsupported {
    /// `x BETWEEN a AND b`
    Between,
    /// `x IS y`
    Is,
    /// `x IS NOT y`
    IsNot,
    /// A binary operator other than a comparison, `AND` or `OR`, used as a condition.
    BinaryOperator,
    /// `x GLOB pattern`
    Glob,
    /// `x MATCH pattern`
    Match,
    /// `x REGEXP pattern`
    Regexp,
    /// A `LIKE` whose pattern is not a literal.
    LikePattern,
    /// A literal other than a number or a string, used as a condition.
    Literal,
    /// Any other expression shape used as a condition.
    Condition,
    /// An expression shape that cannot be evaluated into a register.
    Operand,
}

/// Why planning or compilation failed.
#[derive(Clone, Debug, PartialEq, Eq)]
pub enum PlanError {
    /// A bare column name is owned by more than one table of the query.
    AmbiguousColumn(String),
    /// A bare column name is owned by no table of the query.
    ColumnNotFound(String),
    /// The table of a qualified name exists but has no such column.
    QualifiedColumnNotFound(String, String),
    /// The qualifier of a qualified name is no alias of the query.
    TableNotFound(String),
    /// No open loop iterates over the table with this alias.
    CursorNotFound(String),
    /// A predicate has to be placed but no loop is open.
    NoOpenCursors,
    /// A numeric literal that is no 64-bit integer.
    UnsupportedLiteral,
    /// A recognised feature that is not compiled.
    NotImplemented(Unsupported),
    /// The register numbers of the machine word are used up.
    OutOfRegisters,
}

/// The mathematical value of a [`PlanError`].
pub enum ErrorView {
    AmbiguousColumn(Seq<char>),
    ColumnNotFound(Seq<char>),
    QualifiedColumnNotFound(Seq<char>, Seq<char>),
    TableNotFound(Seq<char>),
    CursorNotFound(Seq<char>),
    NoOpenCursors,
    UnsupportedLiteral,
    NotImplemented(Unsupported),
    OutOfRegisters,
}

impl View for PlanError {
    type V = ErrorView;

    open spec fn view(&self) -> ErrorView {
        match self {
            PlanError::AmbiguousColumn(name) => ErrorView::AmbiguousColumn(name@),
            PlanError::ColumnNotFound(name) => ErrorView::ColumnNotFound(name@),
            PlanError::QualifiedColumnNotFound(table, name) => ErrorView::QualifiedColumnNotFound(
                table@,
                name@,
            ),
            PlanError::TableNotFound(table) => ErrorView::TableNotFound(table@),
            PlanError::CursorNotFound(table) => ErrorView::CursorNotFound(table@),
            PlanError::NoOpenCursors => ErrorView::NoOpenCursors,
            PlanError::UnsupportedLiteral => ErrorView::UnsupportedLiteral,
            PlanError::NotImplemented(what) => ErrorView::NotImplemented(*what),
            PlanError::OutOfRegisters => ErrorView::OutOfRegisters,
        }
    }
}

/// The name under which an unsupported feature is reported.
pub open spec fn unsupported_name(what: Unsupported) -> Seq<char> {
    match what {
        Unsupported::Between => "BETWEEN"@,
        Unsupported::Is => "IS"@,
        Unsupported::IsNot => "IS NOT"@,
        Unsupported::BinaryOperator => "binary operator as a condition"@,
        Unsupported::Glob => "GLOB"@,
        Unsupported::Match => "MATCH"@,
        Unsupported::Regexp => "REGEXP"@,
        Unsupported::LikePattern => "LIKE with a pattern that is no literal"@,
        Unsupported::Literal => "literal as a condition"@,
        Unsupported::Condition => "expression as a condition"@,
        Unsupported::Operand => "expression as an operand"@,
    }
}

/// The human-readable text of an error; it names the offending identifier.
pub open spec fn message_text(e: ErrorView) -> Seq<char> {
    match e {
        ErrorView::AmbiguousColumn(name) => "ambiguous column name "@ + name,
        ErrorView::ColumnNotFound(name) => "column not found: "@ + name,
        ErrorView::QualifiedColumnNotFound(table, name) => "column with qualified name "@ + table
            + "."@ + name + " not found"@,
        ErrorView::TableNotFound(table) => "table not found: "@ + table,
        ErrorView::CursorNotFound(table) => "could not find cursor for table "@ + table,
        ErrorView::NoOpenCursors => "no open cursors found in any of the loops"@,
        ErrorView::UnsupportedLiteral => "unsupported literal type in condition"@,
        ErrorView::NotImplemented(what) => "not implemented: "@ + unsupported_name(what),
        ErrorView::OutOfRegisters => "out of registers"@,
    }
}

impl Unsupported {
    /// The name under which the feature is reported.
    pub fn name(&self) -> (s: &'static str)
        ensures
            s@ == unsupported_name(*self),
    {
        match self {
            Unsupported::Between => "BETWEEN",
            Unsupported::Is => "IS",
            Unsupported::IsNot => "IS NOT",
            Unsupported::BinaryOperator => "binary operator as a condition",
            Unsupported::Glob => "GLOB",
            Unsupported::Match => "MATCH",
            Unsupported::Regexp => "REGEXP",
            Unsupported::LikePattern => "LIKE with a pattern that is no literal",
            Unsupported::Literal => "literal as a condition",
            Unsupported::Condition => "expression as a condition",
            Unsupported::Operand => "expression as an operand",
        }
    }
}

impl ErrorView {
    /// Whether the error reports a name that could not be resolved: a column
    /// that is ambiguous or not found, or a table that is not found.
    pub open spec fn is_resolve_error(self) -> bool {
        self is AmbiguousColumn || self is ColumnNotFound || self is QualifiedColumnNotFound
            || self is TableNotFound
    }
}

impl PlanError {
    /// The human-readable text of the error.
    pub fn message(&self) -> (s: String)
        ensures
            s@ == message_text(self@),
    {
        match self {
            PlanError::AmbiguousColumn(name) => {
                String::from_str("ambiguous column name ").concat(name.as_str())
            },
            PlanError::ColumnNotFound(name) => {
                String::from_str("column not found: ").concat(name.as_str())
            },
            PlanError::QualifiedColumnNotFound(table, name) => {
                let mut s = String::from_str("column with qualified name ");
                s.append(table.as_str());
                s.append(".");
                s.append(name.as_str());
                s.append(" not found");
                s
            },
            PlanError::TableNotFound(table) => {
                String::from_str("table not found: ").concat(table.as_str())
            },
            PlanError::CursorNotFound(table) => {
                String::from_str("could not find cursor for table ").concat(table.as_str())
            },
            PlanError::NoOpenCursors => String::from_str("no open cursors found in any of the loops"),
            PlanError::UnsupportedLiteral => String::from_str("unsupported literal type in condition"),
            PlanError::NotImplemented(what) => {
                String::from_str("not implemented: ").concat(what.name())
            },
            PlanError::OutOfRegisters => String::from_str("out of registers"),
        }
    }
}

/// The view of a result whose error is a [`PlanError`].
pub open spec fn result_view<T>(r: Result<T, PlanError>) -> Result<T, ErrorView> {
    match r {
        Ok(value) => Ok(value),
        Err(e) => Err(e@),
    }
}

} // verus!

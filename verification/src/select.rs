//! The statement under compilation: its tables, joins and open loops, and
//! the resolution of column names against them.

use crate::ast::Expression;
use crate::error::{result_view, ErrorView, PlanError};
use crate::schema::{position_of, BTreeTable};
use crate::util::{normalize_ident, normalized};
use crate::vdbe::BranchOffset;
use std::rc::Rc;
use vstd::prelude::*;

verus! {

/// A loop over the rows of one table, open while its body is compiled.
#[derive(Debug)]
pub struct LoopInfo {
    /// The alias of the table that the loop iterates over.
    pub identifier: String,
    /// The cursor that the loop reads.
    pub open_cursor: usize,
    /// Where to branch for the next row of the loop.
    pub next_row_label: BranchOffset,
}

/// The constraint of a join.
#[derive(Debug)]
pub enum JoinConstraint {
    /// `ON expr`
    On(Expression),
    /// `USING (columns)`
    Using(Vec<String>),
}

/// How a table of the `FROM` clause is joined to the tables before it.
#[derive(Debug)]
pub struct JoinInfo {
    /// Whether the join is an outer join, with this table on the nullable side.
    pub outer: bool,
    /// The constraint, if the join has one.
    pub constraint: Option<JoinConstraint>,
}

/// One entry of the `FROM` clause.
#[derive(Debug)]
pub struct SrcTable {
    /// The table.
    pub table: Rc<BTreeTable>,
    /// The alias under which the statement refers to it, in normal form.
    pub identifier: String,
    /// The join that brings the table in; none for the first table.
    pub join_info: Option<JoinInfo>,
}

/// A `SELECT` statement during code generation.
#[derive(Debug)]
pub struct Select {
    /// The `WHERE` clause.
    pub where_clause: Option<Expression>,
    /// The entries of the `FROM` clause, in order.
    pub src_tables: Vec<SrcTable>,
    /// The loops that are open, outermost first.
    pub loops: Vec<LoopInfo>,
}

/// What name resolution reads of one entry of the `FROM` clause.
pub struct TableRef {
    /// The names of the table's columns.
    pub columns: Seq<Seq<char>>,
    /// The alias of the entry.
    pub alias: Seq<char>,
}

/// The first position at or after `from` whose table has a column `name`, or
/// the number of tables where there is none.
pub open spec fn owner_from(tables: Seq<TableRef>, name: Seq<char>, from: int) -> int
    decreases tables.len() - from,
{
    if from < 0 || from >= tables.len() {
        tables.len() as int
    } else if position_of(tables[from].columns, name) is Some {
        from
    } else {
        owner_from(tables, name, from + 1)
    }
}

/// The first position at or after `from` whose alias is `alias`, or the
/// number of tables where there is none.
pub open spec fn alias_from(tables: Seq<TableRef>, alias: Seq<char>, from: int) -> int
    decreases tables.len() - from,
{
    if from < 0 || from >= tables.len() {
        tables.len() as int
    } else if tables[from].alias == alias {
        from
    } else {
        alias_from(tables, alias, from + 1)
    }
}

/// The position of the one table that owns the column `name`; an error if
/// none or more than one does. `name` is in normal form.
pub open spec fn resolve_bare(tables: Seq<TableRef>, name: Seq<char>) -> Result<int, ErrorView> {
    let first = owner_from(tables, name, 0);
    if first >= tables.len() {
        Err(ErrorView::ColumnNotFound(name))
    } else if owner_from(tables, name, first + 1) < tables.len() {
        Err(ErrorView::AmbiguousColumn(name))
    } else {
        Ok(first)
    }
}

/// The position of the first table with the alias `table`, which must have
/// a column `name`. Both names are in normal form.
pub open spec fn resolve_qualified(tables: Seq<TableRef>, table: Seq<char>, name: Seq<char>)
    -> Result<int, ErrorView> {
    let at = alias_from(tables, table, 0);
    if at >= tables.len() {
        Err(ErrorView::TableNotFound(table))
    } else if position_of(tables[at].columns, name) is None {
        Err(ErrorView::QualifiedColumnNotFound(table, name))
    } else {
        Ok(at)
    }
}

/// What `owner_from` finds is the first owner at or after `from`.
pub proof fn lemma_owner_from(tables: Seq<TableRef>, name: Seq<char>, from: int)
    requires
        0 <= from <= tables.len(),
    ensures
        from <= owner_from(tables, name, from) <= tables.len(),
        owner_from(tables, name, from) < tables.len() ==> position_of(
            tables[owner_from(tables, name, from)].columns,
            name,
        ) is Some,
        forall|i: int|
            from <= i < owner_from(tables, name, from) ==> position_of(
                (#[trigger] tables[i]).columns,
                name,
            ) is None,
    decreases tables.len() - from,
{
    if from < tables.len() && position_of(tables[from].columns, name) is None {
        lemma_owner_from(tables, name, from + 1);
    }
}

/// What `alias_from` finds is the first entry of that alias at or after `from`.
pub proof fn lemma_alias_from(tables: Seq<TableRef>, alias: Seq<char>, from: int)
    requires
        0 <= from <= tables.len(),
    ensures
        from <= alias_from(tables, alias, from) <= tables.len(),
        alias_from(tables, alias, from) < tables.len() ==> tables[alias_from(
            tables,
            alias,
            from,
        )].alias == alias,
        forall|i: int|
            from <= i < alias_from(tables, alias, from) ==> (#[trigger] tables[i]).alias != alias,
    decreases tables.len() - from,
{
    if from < tables.len() && tables[from].alias != alias {
        lemma_alias_from(tables, alias, from + 1);
    }
}

/// A bare name resolves to a position exactly if one table, and only one,
/// owns a column of that name.
pub proof fn lemma_resolve_bare(tables: Seq<TableRef>, name: Seq<char>)
    ensures
        match resolve_bare(tables, name) {
            Ok(at) => 0 <= at < tables.len() && position_of(tables[at].columns, name) is Some
                && forall|i: int|
                0 <= i < tables.len() && i != at ==> position_of(
                    (#[trigger] tables[i]).columns,
                    name,
                ) is None,
            Err(ErrorView::ColumnNotFound(n)) => n == name && forall|i: int|
                0 <= i < tables.len() ==> position_of((#[trigger] tables[i]).columns, name) is None,
            Err(ErrorView::AmbiguousColumn(n)) => n == name && exists|i: int, j: int|
                0 <= i < j < tables.len() && position_of((#[trigger] tables[i]).columns, name) is Some
                    && position_of((#[trigger] tables[j]).columns, name) is Some,
            Err(_) => false,
        },
{
    lemma_owner_from(tables, name, 0);
    let first = owner_from(tables, name, 0);
    if first < tables.len() {
        lemma_owner_from(tables, name, first + 1);
        let second = owner_from(tables, name, first + 1);
        if second < tables.len() {
            assert(position_of(tables[first].columns, name) is Some);
            assert(position_of(tables[second].columns, name) is Some);
        }
    }
}

/// A qualified name resolves to the first table of that alias, provided
/// that the table owns a column of that name.
pub proof fn lemma_resolve_qualified(tables: Seq<TableRef>, table: Seq<char>, name: Seq<char>)
    ensures
        match resolve_qualified(tables, table, name) {
            Ok(at) => 0 <= at < tables.len() && tables[at].alias == table && position_of(
                tables[at].columns,
                name,
            ) is Some && forall|i: int| 0 <= i < at ==> (#[trigger] tables[i]).alias != table,
            Err(ErrorView::TableNotFound(t)) => t == table && forall|i: int|
                0 <= i < tables.len() ==> (#[trigger] tables[i]).alias != table,
            Err(ErrorView::QualifiedColumnNotFound(t, n)) => t == table && n == name && exists|
                at: int,
            |
                0 <= at < tables.len() && (#[trigger] tables[at]).alias == table && position_of(
                    tables[at].columns,
                    name,
                ) is None,
            Err(_) => false,
        },
{
    lemma_alias_from(tables, table, 0);
    let at = alias_from(tables, table, 0);
    if at < tables.len() {
        assert(tables[at].alias == table);
    }
}

/// The entries of a list of tables with their aliases, as name resolution
/// reads them.
pub open spec fn table_refs(tables: Seq<(Rc<BTreeTable>, String)>) -> Seq<TableRef> {
    Seq::new(
        tables.len(),
        |i: int| TableRef { columns: tables[i].0.names(), alias: tables[i].1@ },
    )
}

/// The first position at or after `from` of a loop over the table with the
/// alias `alias`, or the number of loops where there is none.
pub open spec fn loop_from(loops: Seq<LoopInfo>, alias: Seq<char>, from: int) -> int
    decreases loops.len() - from,
{
    if from < 0 || from >= loops.len() {
        loops.len() as int
    } else if loops[from].identifier@ == alias {
        from
    } else {
        loop_from(loops, alias, from + 1)
    }
}

/// What `loop_from` finds is the first loop over that table at or after
/// `from`.
pub proof fn lemma_loop_from(loops: Seq<LoopInfo>, alias: Seq<char>, from: int)
    requires
        0 <= from <= loops.len(),
    ensures
        from <= loop_from(loops, alias, from) <= loops.len(),
        loop_from(loops, alias, from) < loops.len() ==> loops[loop_from(
            loops,
            alias,
            from,
        )].identifier@ == alias,
        forall|i: int|
            from <= i < loop_from(loops, alias, from) ==> (#[trigger] loops[i]).identifier@
                != alias,
    decreases loops.len() - from,
{
    if from < loops.len() && loops[from].identifier@ != alias {
        lemma_loop_from(loops, alias, from + 1);
    }
}

/// The cursor of the first loop over the table with the alias `alias`.
pub open spec fn loop_cursor(loops: Seq<LoopInfo>, alias: Seq<char>) -> Result<usize, ErrorView> {
    let at = loop_from(loops, alias, 0);
    if at < loops.len() {
        Ok(loops[at].open_cursor)
    } else {
        Err(ErrorView::CursorNotFound(alias))
    }
}

/// A column of the statement: its position in its table and the cursor
/// through which it is read.
#[derive(Clone, Copy, Debug, PartialEq, Eq, Structural)]
pub struct ResolvedColumn {
    /// The position of the column in its table.
    pub column: usize,
    /// The cursor that reads the table.
    pub cursor_id: usize,
}

impl SrcTable {
    /// What name resolution reads of the entry.
    pub open spec fn table_ref(self) -> TableRef {
        TableRef { columns: self.table.names(), alias: self.identifier@ }
    }

    /// Whether the entry is the nullable side of an outer join.
    pub open spec fn outer(self) -> bool {
        self.join_info matches Some(join) && join.outer
    }

    /// Whether the entry is the nullable side of an outer join.
    pub fn is_outer_join(&self) -> (outer: bool)
        ensures
            outer == self.outer(),
    {
        match &self.join_info {
            Some(join) => join.outer,
            None => false,
        }
    }
}

impl Select {
    /// The entries of the `FROM` clause as name resolution reads them.
    pub open spec fn table_refs(self) -> Seq<TableRef> {
        Seq::new(self.src_tables@.len(), |i: int| self.src_tables@[i].table_ref())
    }

    /// The cursor through which the table at a position of the `FROM` clause
    /// is read: the hint where one is given, else the cursor of the loop
    /// over that table.
    pub open spec fn cursor_of(self, at: int, cursor_hint: Option<usize>) -> Result<
        usize,
        ErrorView,
    > {
        match cursor_hint {
            Some(cursor) => Ok(cursor),
            None => loop_cursor(self.loops@, self.src_tables@[at].identifier@),
        }
    }

    /// The column that the table at a position owns under `name`.
    pub open spec fn column_at(self, at: int, name: Seq<char>, cursor_hint: Option<usize>)
        -> Result<ResolvedColumn, ErrorView> {
        match self.cursor_of(at, cursor_hint) {
            Ok(cursor_id) => Ok(
                ResolvedColumn {
                    column: position_of(self.table_refs()[at].columns, name).unwrap() as usize,
                    cursor_id,
                },
            ),
            Err(e) => Err(e),
        }
    }

    /// The column that a bare identifier names.
    pub open spec fn bare_column(self, ident: Seq<char>, cursor_hint: Option<usize>) -> Result<
        ResolvedColumn,
        ErrorView,
    > {
        match resolve_bare(self.table_refs(), normalized(ident)) {
            Ok(at) => self.column_at(at, normalized(ident), cursor_hint),
            Err(e) => Err(e),
        }
    }

    /// The column that a qualified identifier names.
    pub open spec fn qualified_column(
        self,
        table: Seq<char>,
        ident: Seq<char>,
        cursor_hint: Option<usize>,
    ) -> Result<ResolvedColumn, ErrorView> {
        match resolve_qualified(self.table_refs(), normalized(table), normalized(ident)) {
            Ok(at) => self.column_at(at, normalized(ident), cursor_hint),
            Err(e) => Err(e),
        }
    }

    /// The cursor of the first open loop over the table with this alias.
    pub fn loop_cursor(&self, alias: &str) -> (cursor: Result<usize, PlanError>)
        ensures
            result_view(cursor) == loop_cursor(self.loops@, alias@),
    {
        let wanted = alias.to_owned();
        let mut i: usize = 0;
        while i < self.loops.len()
            invariant
                i <= self.loops.len(),
                wanted@ == alias@,
                loop_from(self.loops@, alias@, 0) == loop_from(self.loops@, alias@, i as int),
            decreases self.loops.len() - i,
        {
            if self.loops[i].identifier == wanted {
                return Ok(self.loops[i].open_cursor);
            }
            i = i + 1;
        }
        Err(PlanError::CursorNotFound(wanted))
    }

    /// The cursor through which the table at a position of the `FROM` clause
    /// is read.
    fn cursor_at(&self, at: usize, cursor_hint: Option<usize>) -> (cursor: Result<usize, PlanError>)
        requires
            at < self.src_tables@.len(),
        ensures
            result_view(cursor) == self.cursor_of(at as int, cursor_hint),
    {
        match cursor_hint {
            Some(cursor) => Ok(cursor),
            None => self.loop_cursor(self.src_tables[at].identifier.as_str()),
        }
    }

    /// Resolves a bare identifier to the one table of the statement that
    /// owns a column of that name.
    pub fn resolve_ident_table(&self, ident: &str, cursor_hint: Option<usize>) -> (column: Result<
        ResolvedColumn,
        PlanError,
    >)
        ensures
            result_view(column) == self.bare_column(ident@, cursor_hint),
    {
        let name = normalize_ident(ident);
        let ghost tables = self.table_refs();
        let mut found: Option<(usize, usize)> = None;
        let mut i: usize = 0;
        while i < self.src_tables.len()
            invariant
                i <= self.src_tables.len(),
                tables == self.table_refs(),
                name@ == normalized(ident@),
                found is None ==> owner_from(tables, name@, 0) == owner_from(tables, name@, i as int),
                found matches Some((first, column)) ==> first < i && owner_from(tables, name@, 0)
                    == first && position_of(tables[first as int].columns, name@) == Some(
                    column as int,
                ) && owner_from(tables, name@, first + 1) == owner_from(tables, name@, i as int),
            decreases self.src_tables.len() - i,
        {
            assert(tables[i as int] == self.src_tables@[i as int].table_ref());
            match self.src_tables[i].table.get_column(name.as_str()) {
                Some(column) => {
                    if found.is_some() {
                        return Err(PlanError::AmbiguousColumn(name));
                    }
                    found = Some((i, column));
                },
                None => {},
            }
            i = i + 1;
        }
        match found {
            Some((at, column)) => {
                let cursor_id = self.cursor_at(at, cursor_hint)?;
                Ok(ResolvedColumn { column, cursor_id })
            },
            None => Err(PlanError::ColumnNotFound(name)),
        }
    }

    /// Resolves a qualified identifier to the first table with that alias,
    /// which must own a column of that name.
    pub fn resolve_ident_qualified(&self, table: &str, ident: &str, cursor_hint: Option<usize>)
        -> (column: Result<ResolvedColumn, PlanError>)
        ensures
            result_view(column) == self.qualified_column(table@, ident@, cursor_hint),
    {
        let alias = normalize_ident(table);
        let name = normalize_ident(ident);
        let ghost tables = self.table_refs();
        let mut i: usize = 0;
        while i < self.src_tables.len()
            invariant
                i <= self.src_tables.len(),
                tables == self.table_refs(),
                alias@ == normalized(table@),
                name@ == normalized(ident@),
                alias_from(tables, alias@, 0) == alias_from(tables, alias@, i as int),
            decreases self.src_tables.len() - i,
        {
            assert(tables[i as int] == self.src_tables@[i as int].table_ref());
            if self.src_tables[i].identifier == alias {
                return match self.src_tables[i].table.get_column(name.as_str()) {
                    Some(column) => {
                        let cursor_id = self.cursor_at(i, cursor_hint)?;
                        Ok(ResolvedColumn { column, cursor_id })
                    },
                    None => Err(PlanError::QualifiedColumnNotFound(alias, name)),
                };
            }
            i = i + 1;
        }
        Err(PlanError::TableNotFound(alias))
    }
}

} // verus!

//! Which tables an expression or a subtree of the plan refers to.
//!
//! The answer is a mask of 64 bits: bit `i` stands for the table at the
//! position `i` of the query's list of tables. A query has at most 63
//! tables.

use crate::ast::{ExprView, Expression, OrderingTermView, TypeSizeView};
use crate::error::{ErrorView, PlanError};
use crate::plan::Operator;
use crate::schema::BTreeTable;
use crate::select::{
    alias_from, lemma_resolve_bare, lemma_resolve_qualified, owner_from, resolve_bare,
    resolve_qualified, table_refs, TableRef,
};
use crate::util::{normalize_ident, normalized};
use std::rc::Rc;
use vstd::prelude::*;

verus! {

/// The greatest number of tables that a query may refer to.
pub const MAX_TABLES: usize = 63;

/// The mask of the table at a position.
pub open spec fn bit(position: int) -> u64 {
    1u64 << (position as u64)
}

/// Whether a mask holds the bit of the table at a position.
pub open spec fn has_bit(mask: u64, position: int) -> bool {
    mask & bit(position) != 0
}

/// The masks of two parts of an expression, united; the error of the first
/// part that has one.
pub open spec fn both_masks(first: Result<u64, ErrorView>, second: Result<u64, ErrorView>)
    -> Result<u64, ErrorView> {
    match first {
        Err(e) => Err(e),
        Ok(a) => match second {
            Err(e) => Err(e),
            Ok(b) => Ok(a | b),
        },
    }
}

/// The mask of a position that name resolution found.
pub open spec fn resolved_mask(found: Result<int, ErrorView>) -> Result<u64, ErrorView> {
    match found {
        Ok(position) => Ok(bit(position)),
        Err(e) => Err(e),
    }
}

/// The mask of the tables that an expression refers to.
///
/// A binary expression and a textual comparison unite the masks of their
/// two sides, a function call those of its arguments, an `IN` list those
/// of its left side and of its items. An identifier has the bit of the
/// table that it resolves to, a literal none. Every other shape counts as
/// referring to no table.
pub open spec fn expr_mask(tables: Seq<TableRef>, e: ExprView) -> Result<u64, ErrorView>
    decreases e,
{
    match e {
        ExprView::Binary(lhs, _, rhs) => both_masks(expr_mask(tables, *lhs), expr_mask(tables, *rhs)),
        ExprView::Id(name) => resolved_mask(resolve_bare(tables, normalized(name))),
        ExprView::Qualified(table, name) => resolved_mask(
            resolve_qualified(tables, normalized(table), normalized(name)),
        ),
        ExprView::Like { lhs, not, op, rhs, escape } => both_masks(
            expr_mask(tables, *lhs),
            expr_mask(tables, *rhs),
        ),
        ExprView::FunctionCall { args, .. } => match args {
            Some(list) => list_mask(tables, list, 0),
            None => Ok(0),
        },
        ExprView::InList { lhs, not, rhs } => match rhs {
            Some(list) => both_masks(expr_mask(tables, *lhs), list_mask(tables, list, 0)),
            None => expr_mask(tables, *lhs),
        },
        _ => Ok(0),
    }
}

/// The mask of the tables that the expressions of a list refer to, from
/// the position `from` on.
pub open spec fn list_mask(tables: Seq<TableRef>, list: Seq<ExprView>, from: int) -> Result<
    u64,
    ErrorView,
>
    decreases list, list.len() - from,
{
    if from < 0 || from >= list.len() {
        Ok(0)
    } else {
        both_masks(expr_mask(tables, list[from]), list_mask(tables, list, from + 1))
    }
}

/// The position of the one table that owns a column of this name, which is
/// in normal form.
fn position_of_column(tables: &Vec<(Rc<BTreeTable>, String)>, name: String) -> (position: Result<
    usize,
    PlanError,
>)
    ensures
        match resolve_bare(table_refs(tables@), name@) {
            Ok(at) => position matches Ok(found) && found == at && at < tables@.len(),
            Err(e) => position matches Err(err) && err@ == e,
        },
{
    let ghost refs = table_refs(tables@);
    let mut found: Option<usize> = None;
    let mut i: usize = 0;
    while i < tables.len()
        invariant
            i <= tables.len(),
            refs == table_refs(tables@),
            found is None ==> owner_from(refs, name@, 0) == owner_from(refs, name@, i as int),
            found matches Some(first) ==> first < i && owner_from(refs, name@, 0) == first
                && owner_from(refs, name@, first + 1) == owner_from(refs, name@, i as int),
        decreases tables.len() - i,
    {
        assert(refs[i as int].columns == tables@[i as int].0.names());
        if tables[i].0.get_column(name.as_str()).is_some() {
            if found.is_some() {
                return Err(PlanError::AmbiguousColumn(name));
            }
            found = Some(i);
        }
        i = i + 1;
    }
    match found {
        Some(at) => Ok(at),
        None => Err(PlanError::ColumnNotFound(name)),
    }
}

/// The position of the first table with this alias, which must own a
/// column of this name; both are in normal form.
fn position_of_qualified(tables: &Vec<(Rc<BTreeTable>, String)>, alias: String, name: String) -> (position:
    Result<usize, PlanError>)
    ensures
        match resolve_qualified(table_refs(tables@), alias@, name@) {
            Ok(at) => position matches Ok(found) && found == at && at < tables@.len(),
            Err(e) => position matches Err(err) && err@ == e,
        },
{
    let ghost refs = table_refs(tables@);
    let mut i: usize = 0;
    while i < tables.len()
        invariant
            i <= tables.len(),
            refs == table_refs(tables@),
            alias_from(refs, alias@, 0) == alias_from(refs, alias@, i as int),
        decreases tables.len() - i,
    {
        assert(refs[i as int].columns == tables@[i as int].0.names());
        assert(refs[i as int].alias == tables@[i as int].1@);
        if tables[i].1 == alias {
            if tables[i].0.get_column(name.as_str()).is_none() {
                return Err(PlanError::QualifiedColumnNotFound(alias, name));
            }
            return Ok(i);
        }
        i = i + 1;
    }
    Err(PlanError::TableNotFound(alias))
}

/// Uniting a mask with the empty mask changes nothing.
proof fn lemma_or_zero(mask: u64)
    by (bit_vector)
    ensures
        0 | mask == mask,
        mask | 0 == mask,
{
}

/// Uniting masks does not depend on the grouping.
proof fn lemma_or_associative(a: u64, b: u64, c: u64)
    by (bit_vector)
    ensures
        (a | b) | c == a | (b | c),
{
}

/// The mask of the table at a position.
fn mask_of(position: usize) -> (mask: u64)
    requires
        position < 64,
    ensures
        mask == bit(position as int),
{
    1u64 << (position as u64)
}

/// The mask of the tables that the expressions of a list refer to.
#[verifier::loop_isolation(false)]
fn mask_of_list(tables: &Vec<(Rc<BTreeTable>, String)>, list: &Vec<Expression>) -> (mask: Result<
    u64,
    PlanError,
>)
    requires
        tables@.len() <= MAX_TABLES,
    ensures
        match list_mask(table_refs(tables@), Expression::models(list@), 0) {
            Ok(bits) => mask == Ok::<u64, PlanError>(bits),
            Err(e) => mask matches Err(err) && err@ == e,
        },
    decreases list, 0nat,
{
    let ghost refs = table_refs(tables@);
    let ghost items = Expression::models(list@);
    let mut mask: u64 = 0;
    let mut i: usize = 0;
    proof {
        if let Ok(all) = list_mask(refs, items, 0) {
            lemma_or_zero(all);
        }
    }
    while i < list.len()
        invariant
            i <= list.len(),
            list_mask(refs, items, 0) == both_masks(Ok(mask), list_mask(refs, items, i as int)),
        decreases list.len() - i,
    {
        assert(items[i as int] == list@[i as int]@);
        let ghost before = mask;
        let here = get_table_ref_bitmask_for_ast_expr(tables, &list[i])?;
        mask = mask | here;
        proof {
            if let Ok(rest) = list_mask(refs, items, i + 1) {
                lemma_or_associative(before, here, rest);
            }
        }
        i = i + 1;
    }
    proof {
        lemma_or_zero(mask);
    }
    Ok(mask)
}

/// Computes the mask of the tables that an expression refers to.
///
/// `tables` is the query's list of tables with their aliases; it holds at
/// most [`MAX_TABLES`] entries. A bare identifier has to be a column of
/// exactly one table, a qualified identifier a column of the first table
/// with that alias; else the analysis fails with the error that names the
/// identifier.
pub fn get_table_ref_bitmask_for_ast_expr(
    tables: &Vec<(Rc<BTreeTable>, String)>,
    predicate: &Expression,
) -> (mask: Result<u64, PlanError>)
    requires
        tables@.len() <= MAX_TABLES,
    ensures
        match expr_mask(table_refs(tables@), predicate@) {
            Ok(bits) => mask == Ok::<u64, PlanError>(bits),
            Err(e) => mask matches Err(err) && err@ == e,
        },
    decreases predicate, 1nat,
{
    match predicate {
        Expression::Binary(lhs, _, rhs) => {
            let left = get_table_ref_bitmask_for_ast_expr(tables, lhs)?;
            let right = get_table_ref_bitmask_for_ast_expr(tables, rhs)?;
            Ok(left | right)
        },
        Expression::Id(ident) => {
            let position = position_of_column(tables, normalize_ident(ident.as_str()))?;
            Ok(mask_of(position))
        },
        Expression::Qualified(table, ident) => {
            let position = position_of_qualified(
                tables,
                normalize_ident(table.as_str()),
                normalize_ident(ident.as_str()),
            )?;
            Ok(mask_of(position))
        },
        Expression::Like { lhs, not: _, op: _, rhs, escape: _ } => {
            let left = get_table_ref_bitmask_for_ast_expr(tables, lhs)?;
            let right = get_table_ref_bitmask_for_ast_expr(tables, rhs)?;
            Ok(left | right)
        },
        Expression::FunctionCall { args, .. } => match args {
            Some(list) => mask_of_list(tables, list),
            None => Ok(0),
        },
        Expression::InList { lhs, not: _, rhs } => {
            let left = get_table_ref_bitmask_for_ast_expr(tables, lhs)?;
            match rhs {
                Some(list) => {
                    let right = mask_of_list(tables, list)?;
                    Ok(left | right)
                },
                None => Ok(left),
            }
        },
        _ => Ok(0),
    }
}

/// The first position at or after `from` of the entry that lists the table
/// rooted at `root_page` under the alias `alias`, or the number of entries
/// where there is none. A table that is listed under two aliases has two
/// positions, one for each alias.
pub open spec fn table_from(
    tables: Seq<(Rc<BTreeTable>, String)>,
    root_page: usize,
    alias: Seq<char>,
    from: int,
) -> int
    decreases tables.len() - from,
{
    if from < 0 || from >= tables.len() {
        tables.len() as int
    } else if tables[from].0.root_page == root_page && tables[from].1@ == alias {
        from
    } else {
        table_from(tables, root_page, alias, from + 1)
    }
}

/// Whether every table that a subtree of the plan reads stands in the
/// query's list of tables, under the alias by which the subtree reads it.
pub open spec fn knows_tables(tables: Seq<(Rc<BTreeTable>, String)>, node: Operator) -> bool
    decreases node,
{
    match node {
        Operator::Aggregate { source, .. } => knows_tables(tables, *source),
        Operator::Filter { source, .. } => knows_tables(tables, *source),
        Operator::SeekRowid { table, table_identifier, .. } => table_from(
            tables,
            table.root_page,
            table_identifier@,
            0,
        ) < tables.len(),
        Operator::Limit { source, .. } => knows_tables(tables, *source),
        Operator::Join { left, right, .. } => knows_tables(tables, *left) && knows_tables(
            tables,
            *right,
        ),
        Operator::Order { source, .. } => knows_tables(tables, *source),
        Operator::Projection { source, .. } => knows_tables(tables, *source),
        Operator::Scan { table, table_identifier, .. } => table_from(
            tables,
            table.root_page,
            table_identifier@,
            0,
        ) < tables.len(),
        Operator::Nothing => true,
    }
}

/// The mask of the tables that a subtree of the plan reads.
///
/// A scan and a seek have the bit of the entry that lists their table
/// under their alias. A join unites the masks
/// of its two children; its own predicates do not count, because the mask
/// tells which sources are consumed, not which are mentioned. Every other
/// operator has the mask of its source.
pub open spec fn node_mask(tables: Seq<(Rc<BTreeTable>, String)>, node: Operator) -> u64
    decreases node,
{
    match node {
        Operator::Aggregate { source, .. } => node_mask(tables, *source),
        Operator::Filter { source, .. } => node_mask(tables, *source),
        Operator::SeekRowid { table, table_identifier, .. } => bit(
            table_from(tables, table.root_page, table_identifier@, 0),
        ),
        Operator::Limit { source, .. } => node_mask(tables, *source),
        Operator::Join { left, right, .. } => node_mask(tables, *left) | node_mask(tables, *right),
        Operator::Order { source, .. } => node_mask(tables, *source),
        Operator::Projection { source, .. } => node_mask(tables, *source),
        Operator::Scan { table, table_identifier, .. } => bit(
            table_from(tables, table.root_page, table_identifier@, 0),
        ),
        Operator::Nothing => 0,
    }
}

/// The position of the entry that lists a table under an alias, or the
/// length of the list where there is no such entry.
fn position_of_table(tables: &Vec<(Rc<BTreeTable>, String)>, table: &BTreeTable, alias: &String) -> (position:
    usize)
    ensures
        position == table_from(tables@, table.root_page, alias@, 0),
{
    let mut i: usize = 0;
    while i < tables.len()
        invariant
            i <= tables.len(),
            table_from(tables@, table.root_page, alias@, 0) == table_from(
                tables@,
                table.root_page,
                alias@,
                i as int,
            ),
        decreases tables.len() - i,
    {
        if tables[i].0.root_page == table.root_page && tables[i].1 == *alias {
            return i;
        }
        i = i + 1;
    }
    i
}

/// Whether every table that a subtree of the plan reads stands in the
/// query's list of tables, under the alias by which the subtree reads it.
pub fn tables_known(tables: &Vec<(Rc<BTreeTable>, String)>, node: &Operator) -> (known: bool)
    ensures
        known == knows_tables(tables@, *node),
    decreases node,
{
    match node {
        Operator::Aggregate { source, .. } => tables_known(tables, source),
        Operator::Filter { source, .. } => tables_known(tables, source),
        Operator::SeekRowid { table, table_identifier, .. } => position_of_table(
            tables,
            table,
            table_identifier,
        ) < tables.len(),
        Operator::Limit { source, .. } => tables_known(tables, source),
        Operator::Join { left, right, .. } => tables_known(tables, left) && tables_known(
            tables,
            right,
        ),
        Operator::Order { source, .. } => tables_known(tables, source),
        Operator::Projection { source, .. } => tables_known(tables, source),
        Operator::Scan { table, table_identifier, .. } => position_of_table(
            tables,
            table,
            table_identifier,
        ) < tables.len(),
        Operator::Nothing => true,
    }
}

/// Computes the mask of the tables that a subtree of the plan reads.
///
/// `tables` is the query's list of tables; it holds at most
/// [`MAX_TABLES`] entries, among them every table that the subtree reads,
/// under the alias by which the subtree reads it. An entry is found by
/// the identity of its table and by its alias, so that a table joined with
/// itself sets one bit for each of its aliases. The analysis always
/// succeeds.
pub fn get_table_ref_bitmask_for_query_plan_node(
    tables: &Vec<(Rc<BTreeTable>, String)>,
    node: &Operator,
) -> (mask: Result<u64, PlanError>)
    requires
        tables@.len() <= MAX_TABLES,
        knows_tables(tables@, *node),
    ensures
        mask == Ok::<u64, PlanError>(node_mask(tables@, *node)),
    decreases node,
{
    match node {
        Operator::Aggregate { source, .. } => get_table_ref_bitmask_for_query_plan_node(
            tables,
            source,
        ),
        Operator::Filter { source, .. } => get_table_ref_bitmask_for_query_plan_node(tables, source),
        Operator::SeekRowid { table, table_identifier, .. } => Ok(
            mask_of(position_of_table(tables, table, table_identifier)),
        ),
        Operator::Limit { source, .. } => get_table_ref_bitmask_for_query_plan_node(tables, source),
        Operator::Join { left, right, .. } => {
            let left = get_table_ref_bitmask_for_query_plan_node(tables, left)?;
            let right = get_table_ref_bitmask_for_query_plan_node(tables, right)?;
            Ok(left | right)
        },
        Operator::Order { source, .. } => get_table_ref_bitmask_for_query_plan_node(tables, source),
        Operator::Projection { source, .. } => get_table_ref_bitmask_for_query_plan_node(
            tables,
            source,
        ),
        Operator::Scan { table, table_identifier, .. } => Ok(
            mask_of(position_of_table(tables, table, table_identifier)),
        ),
        Operator::Nothing => Ok(0),
    }
}

/// Whether an expression holds, anywhere in it, an identifier that
/// resolves to the table at a position.
pub open spec fn names_table(tables: Seq<TableRef>, e: ExprView, position: int) -> bool
    decreases e,
{
    match e {
        ExprView::Between { lhs, not, start, end } => names_table(tables, *lhs, position)
            || names_table(tables, *start, position) || names_table(tables, *end, position),
        ExprView::Binary(lhs, _, rhs) => names_table(tables, *lhs, position) || names_table(
            tables,
            *rhs,
            position,
        ),
        ExprView::Case { base, when_then_pairs, else_expr } => (match base {
            Some(expr) => names_table(tables, *expr, position),
            None => false,
        }) || pairs_name_table(tables, when_then_pairs, 0, position) || (match else_expr {
            Some(expr) => names_table(tables, *expr, position),
            None => false,
        }),
        ExprView::Cast { expr, target_type } => names_table(tables, *expr, position) || match target_type {
            Some(target_type) => match target_type.size {
                Some(TypeSizeView::MaxSize(size)) => names_table(tables, *size, position),
                Some(TypeSizeView::TypeSize(first, second)) => names_table(
                    tables,
                    *first,
                    position,
                ) || names_table(tables, *second, position),
                None => false,
            },
            None => false,
        },
        ExprView::Collate(expr, _) => names_table(tables, *expr, position),
        ExprView::DoublyQualified(_, _, _) => false,
        ExprView::FunctionCall { args, order_by, .. } => (match args {
            Some(list) => list_names_table(tables, list, 0, position),
            None => false,
        }) || (match order_by {
            Some(terms) => terms_name_table(tables, terms, 0, position),
            None => false,
        }),
        ExprView::FunctionCallStar { .. } => false,
        ExprView::Id(name) => resolve_bare(tables, normalized(name)) == Ok::<int, ErrorView>(
            position,
        ),
        ExprView::InList { lhs, not, rhs } => names_table(tables, *lhs, position) || match rhs {
            Some(list) => list_names_table(tables, list, 0, position),
            None => false,
        },
        ExprView::IsNull(expr) => names_table(tables, *expr, position),
        ExprView::Like { lhs, not, op, rhs, escape } => names_table(tables, *lhs, position)
            || names_table(tables, *rhs, position) || match escape {
            Some(expr) => names_table(tables, *expr, position),
            None => false,
        },
        ExprView::Literal(_) => false,
        ExprView::Name(_) => false,
        ExprView::NotNull(expr) => names_table(tables, *expr, position),
        ExprView::Parenthesized(list) => list_names_table(tables, list, 0, position),
        ExprView::Qualified(table, name) => resolve_qualified(
            tables,
            normalized(table),
            normalized(name),
        ) == Ok::<int, ErrorView>(position),
        ExprView::Unary(_, expr) => names_table(tables, *expr, position),
        ExprView::Variable(_) => false,
    }
}

/// Whether an ordering term of a list, from the position `from` on, holds
/// an identifier that resolves to the table at a position.
pub open spec fn terms_name_table(
    tables: Seq<TableRef>,
    list: Seq<OrderingTermView>,
    from: int,
    position: int,
) -> bool
    decreases list, list.len() - from,
{
    if from < 0 || from >= list.len() {
        false
    } else {
        names_table(tables, list[from].expr, position) || terms_name_table(
            tables,
            list,
            from + 1,
            position,
        )
    }
}

/// Whether an expression of a list of pairs, from the position `from` on,
/// holds an identifier that resolves to the table at a position.
pub open spec fn pairs_name_table(
    tables: Seq<TableRef>,
    list: Seq<(ExprView, ExprView)>,
    from: int,
    position: int,
) -> bool
    decreases list, list.len() - from,
{
    if from < 0 || from >= list.len() {
        false
    } else {
        names_table(tables, list[from].0, position) || names_table(
            tables,
            list[from].1,
            position,
        ) || pairs_name_table(tables, list, from + 1, position)
    }
}

/// Whether an expression of a list, from the position `from` on, holds an
/// identifier that resolves to the table at a position.
pub open spec fn list_names_table(
    tables: Seq<TableRef>,
    list: Seq<ExprView>,
    from: int,
    position: int,
) -> bool
    decreases list, list.len() - from,
{
    if from < 0 || from >= list.len() {
        false
    } else {
        names_table(tables, list[from], position) || list_names_table(
            tables,
            list,
            from + 1,
            position,
        )
    }
}

/// Whether the analysis looks at every part of an expression: the
/// expression is made of binary operators, textual comparisons without an
/// escape, function calls without an `ORDER BY`, `IN` lists, identifiers
/// and literals only.
pub open spec fn fully_analysed(e: ExprView) -> bool
    decreases e,
{
    match e {
        ExprView::Binary(lhs, _, rhs) => fully_analysed(*lhs) && fully_analysed(*rhs),
        ExprView::FunctionCall { args, order_by, .. } => order_by is None && match args {
            Some(list) => list_fully_analysed(list, 0),
            None => true,
        },
        ExprView::Id(_) => true,
        ExprView::InList { lhs, not, rhs } => fully_analysed(*lhs) && match rhs {
            Some(list) => list_fully_analysed(list, 0),
            None => true,
        },
        ExprView::Like { lhs, not, op, rhs, escape } => fully_analysed(*lhs) && fully_analysed(*rhs)
            && escape is None,
        ExprView::Literal(_) => true,
        ExprView::Qualified(_, _) => true,
        _ => false,
    }
}

/// Whether the analysis looks at every part of the expressions of a list,
/// from the position `from` on.
pub open spec fn list_fully_analysed(list: Seq<ExprView>, from: int) -> bool
    decreases list, list.len() - from,
{
    if from < 0 || from >= list.len() {
        true
    } else {
        fully_analysed(list[from]) && list_fully_analysed(list, from + 1)
    }
}

/// A united mask holds a bit exactly if one of its parts does.
proof fn lemma_or_bit(a: u64, b: u64, position: u64)
    by (bit_vector)
    requires
        position < 64,
    ensures
        ((a | b) & (1u64 << position) != 0) == ((a & (1u64 << position) != 0) || (b & (1u64
            << position) != 0)),
{
}

/// The mask of a position holds the bit of that position and no other.
proof fn lemma_single_bit(at: u64, position: u64)
    by (bit_vector)
    requires
        at < 64,
        position < 64,
    ensures
        ((1u64 << at) & (1u64 << position) != 0) == (at == position),
        0u64 & (1u64 << position) == 0,
{
}

/// Soundness of the mask of an expression.
///
/// Where a bit of the mask is set, the expression holds an identifier that
/// resolves to the table at that position. Where the analysis looks at
/// every part of the expression, the converse holds as well: a bit that is
/// not set means that no identifier of the expression resolves to that
/// table.
pub proof fn lemma_mask_sound(tables: Seq<TableRef>, e: ExprView, position: int)
    requires
        tables.len() <= 64,
        0 <= position < 64,
    ensures
        expr_mask(tables, e) matches Ok(mask) ==> (has_bit(mask, position) ==> names_table(
            tables,
            e,
            position,
        )) && (fully_analysed(e) && names_table(tables, e, position) ==> has_bit(mask, position)),
    decreases e, 1nat,
{
    if let Ok(mask) = expr_mask(tables, e) {
        match e {
            ExprView::Binary(lhs, _, rhs) => {
                lemma_mask_sound(tables, *lhs, position);
                lemma_mask_sound(tables, *rhs, position);
                lemma_or_bit(
                    expr_mask(tables, *lhs)->Ok_0,
                    expr_mask(tables, *rhs)->Ok_0,
                    position as u64,
                );
            },
            ExprView::Id(name) => {
                let found = resolve_bare(tables, normalized(name));
                lemma_resolve_bare(tables, normalized(name));
                lemma_single_bit(found->Ok_0 as u64, position as u64);
            },
            ExprView::Qualified(table, name) => {
                let found = resolve_qualified(tables, normalized(table), normalized(name));
                lemma_resolve_qualified(tables, normalized(table), normalized(name));
                lemma_single_bit(found->Ok_0 as u64, position as u64);
            },
            ExprView::Like { lhs, not, op, rhs, escape } => {
                lemma_mask_sound(tables, *lhs, position);
                lemma_mask_sound(tables, *rhs, position);
                lemma_or_bit(
                    expr_mask(tables, *lhs)->Ok_0,
                    expr_mask(tables, *rhs)->Ok_0,
                    position as u64,
                );
            },
            ExprView::FunctionCall { args, .. } => match args {
                Some(list) => {
                    lemma_list_mask_sound(tables, list, 0, position);
                },
                None => {
                    lemma_single_bit(0, position as u64);
                },
            },
            ExprView::InList { lhs, not, rhs } => {
                lemma_mask_sound(tables, *lhs, position);
                match rhs {
                    Some(list) => {
                        lemma_list_mask_sound(tables, list, 0, position);
                        lemma_or_bit(
                            expr_mask(tables, *lhs)->Ok_0,
                            list_mask(tables, list, 0)->Ok_0,
                            position as u64,
                        );
                    },
                    None => {},
                }
            },
            _ => {
                lemma_single_bit(0, position as u64);
            },
        }
    }
}

/// Soundness of the mask of a list of expressions.
pub proof fn lemma_list_mask_sound(
    tables: Seq<TableRef>,
    list: Seq<ExprView>,
    from: int,
    position: int,
)
    requires
        tables.len() <= 64,
        0 <= position < 64,
    ensures
        list_mask(tables, list, from) matches Ok(mask) ==> (has_bit(mask, position)
            ==> list_names_table(tables, list, from, position)) && (list_fully_analysed(list, from)
            && list_names_table(tables, list, from, position) ==> has_bit(mask, position)),
    decreases list, list.len() - from,
{
    if let Ok(mask) = list_mask(tables, list, from) {
        if 0 <= from < list.len() {
            lemma_mask_sound(tables, list[from], position);
            lemma_list_mask_sound(tables, list, from + 1, position);
            lemma_or_bit(
                expr_mask(tables, list[from])->Ok_0,
                list_mask(tables, list, from + 1)->Ok_0,
                position as u64,
            );
        } else {
            lemma_single_bit(0, position as u64);
        }
    }
}

/// No identifier is passed over in silence: the mask of an identifier has
/// exactly the bit of one table of the list, or the analysis fails because
/// the name is ambiguous or not found.
pub proof fn lemma_identifier_mask(tables: Seq<TableRef>, e: ExprView)
    requires
        e is Id || e is Qualified,
    ensures
        match expr_mask(tables, e) {
            Ok(mask) => exists|at: int| 0 <= at < tables.len() && mask == bit(at),
            Err(error) => error.is_resolve_error(),
        },
{
    match e {
        ExprView::Id(name) => {
            lemma_resolve_bare(tables, normalized(name));
            if let Ok(at) = resolve_bare(tables, normalized(name)) {
                assert(expr_mask(tables, e) == Ok::<u64, ErrorView>(bit(at)));
            }
        },
        ExprView::Qualified(table, name) => {
            lemma_resolve_qualified(tables, normalized(table), normalized(name));
            if let Ok(at) = resolve_qualified(tables, normalized(table), normalized(name)) {
                assert(expr_mask(tables, e) == Ok::<u64, ErrorView>(bit(at)));
            }
        },
        _ => {},
    }
}

} // verus!

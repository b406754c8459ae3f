//! The `WHERE` clause and the `ON` clauses of a statement: their split into
//! conjuncts, the placement of each conjunct at a cursor, and their code.

use crate::ast::{BinaryOperator, ExprView, Expression};
use crate::condition::{
    binds_new_labels, condition_code, continues, encloses, lemma_condition_code,
    translate_condition_expr, ConditionMetadata,
};
use crate::error::{result_view, ErrorView, PlanError};
use crate::select::{loop_cursor, JoinConstraint, LoopInfo, Select, SrcTable};
use crate::vdbe::{BranchOffset, ProgramBuilder, ProgramState};
use vstd::prelude::*;

verus! {

/// A conjunct of the `WHERE` clause or of an `ON` clause, with the cursor
/// at which it has to be evaluated.
#[derive(Clone, Debug, PartialEq, Eq)]
pub struct WhereTerm {
    /// The conjunct.
    pub expr: Expression,
    /// The cursor of the loop in which the conjunct is evaluated.
    pub evaluate_at_cursor: usize,
}

/// The mathematical value of a [`WhereTerm`].
pub struct TermView {
    pub expr: ExprView,
    pub evaluate_at_cursor: usize,
}

impl View for WhereTerm {
    type V = TermView;

    open spec fn view(&self) -> TermView {
        TermView { expr: self.expr@, evaluate_at_cursor: self.evaluate_at_cursor }
    }
}

/// The conjuncts of a statement, in the order in which they are evaluated.
#[derive(Clone, Debug, PartialEq, Eq)]
pub struct ProcessedWhereClause {
    /// The conjuncts.
    pub terms: Vec<WhereTerm>,
}

impl View for ProcessedWhereClause {
    type V = Seq<TermView>;

    open spec fn view(&self) -> Seq<TermView> {
        Seq::new(self.terms@.len(), |i: int| self.terms@[i]@)
    }
}

/// The conjuncts of an expression, from left to right: an `AND` has the
/// conjuncts of its two sides, any other expression is its own conjunct.
/// An `OR` is not taken apart.
pub open spec fn conjuncts(e: ExprView) -> Seq<ExprView>
    decreases e,
{
    match e {
        ExprView::Binary(lhs, BinaryOperator::And, rhs) => conjuncts(*lhs) + conjuncts(*rhs),
        _ => seq![e],
    }
}

/// The cursors of the columns that an expression names, from left to right.
///
/// Identifiers are looked for below binary operators, in the two sides of a
/// textual comparison, in the arguments of a function call and in the two
/// parts of an `IN` list. Any other shape counts as naming no column.
pub open spec fn referenced_cursors(select: Select, e: ExprView, cursor_hint: Option<usize>)
    -> Result<Seq<usize>, ErrorView>
    decreases e,
{
    match e {
        ExprView::Binary(lhs, _, rhs) => both_cursors(
            referenced_cursors(select, *lhs, cursor_hint),
            referenced_cursors(select, *rhs, cursor_hint),
        ),
        ExprView::Id(name) => match select.bare_column(name, cursor_hint) {
            Ok(found) => Ok(seq![found.cursor_id]),
            Err(e) => Err(e),
        },
        ExprView::Qualified(table, name) => match select.qualified_column(
            table,
            name,
            cursor_hint,
        ) {
            Ok(found) => Ok(seq![found.cursor_id]),
            Err(e) => Err(e),
        },
        ExprView::Like { lhs, not, op, rhs, escape } => both_cursors(
            referenced_cursors(select, *lhs, cursor_hint),
            referenced_cursors(select, *rhs, cursor_hint),
        ),
        ExprView::FunctionCall { args, .. } => match args {
            Some(list) => list_cursors(select, list, 0, cursor_hint),
            None => Ok(Seq::empty()),
        },
        ExprView::InList { lhs, not, rhs } => match rhs {
            Some(list) => both_cursors(
                referenced_cursors(select, *lhs, cursor_hint),
                list_cursors(select, list, 0, cursor_hint),
            ),
            None => referenced_cursors(select, *lhs, cursor_hint),
        },
        _ => Ok(Seq::empty()),
    }
}

/// The cursors of the columns that the expressions of a list name, from
/// the position `from` on.
pub open spec fn list_cursors(
    select: Select,
    list: Seq<ExprView>,
    from: int,
    cursor_hint: Option<usize>,
) -> Result<Seq<usize>, ErrorView>
    decreases list, list.len() - from,
{
    if from < 0 || from >= list.len() {
        Ok(Seq::empty())
    } else {
        both_cursors(
            referenced_cursors(select, list[from], cursor_hint),
            list_cursors(select, list, from + 1, cursor_hint),
        )
    }
}

/// The cursors of two parts of an expression, one behind the other; the
/// error of the first part that has one.
pub open spec fn both_cursors(
    first: Result<Seq<usize>, ErrorView>,
    second: Result<Seq<usize>, ErrorView>,
) -> Result<Seq<usize>, ErrorView> {
    match first {
        Err(e) => Err(e),
        Ok(a) => match second {
            Err(e) => Err(e),
            Ok(b) => Ok(a + b),
        },
    }
}

/// The greatest of a sequence of cursors; zero for the empty sequence.
pub open spec fn max_cursor(cursors: Seq<usize>) -> usize
    decreases cursors.len(),
{
    if cursors.len() == 0 {
        0
    } else if cursors.last() > max_cursor(cursors.drop_last()) {
        cursors.last()
    } else {
        max_cursor(cursors.drop_last())
    }
}

/// The open cursors of a sequence of loops.
pub open spec fn open_cursors(loops: Seq<LoopInfo>) -> Seq<usize> {
    Seq::new(loops.len(), |i: int| loops[i].open_cursor)
}

/// The least of a sequence of cursors; the greatest number for the empty
/// sequence.
pub open spec fn min_cursor(cursors: Seq<usize>) -> usize
    decreases cursors.len(),
{
    if cursors.len() == 0 {
        usize::MAX
    } else if cursors.last() < min_cursor(cursors.drop_last()) {
        cursors.last()
    } else {
        min_cursor(cursors.drop_last())
    }
}

/// The cursor at which a conjunct is evaluated.
///
/// A conjunct of the `ON` clause of an outer join is evaluated in the loop
/// over the nullable table `outer`, whatever it refers to. Any other
/// conjunct is evaluated at the innermost cursor that it refers to, and one
/// that refers to no cursor at the outermost open cursor.
pub open spec fn term_cursor(select: Select, e: ExprView, outer: Option<Seq<char>>) -> Result<
    usize,
    ErrorView,
> {
    match outer {
        Some(table) => loop_cursor(select.loops@, table),
        None => match referenced_cursors(select, e, None) {
            Err(e) => Err(e),
            Ok(cursors) => if select.loops@.len() == 0 {
                Err(ErrorView::NoOpenCursors)
            } else if cursors.len() == 0 {
                Ok(min_cursor(open_cursors(select.loops@)))
            } else {
                Ok(max_cursor(cursors))
            },
        },
    }
}

/// The terms of two parts of a clause, one behind the other; the error of
/// the first part that has one.
pub open spec fn both_terms(
    first: Result<Seq<TermView>, ErrorView>,
    second: Result<Seq<TermView>, ErrorView>,
) -> Result<Seq<TermView>, ErrorView> {
    match first {
        Err(e) => Err(e),
        Ok(a) => match second {
            Err(e) => Err(e),
            Ok(b) => Ok(a + b),
        },
    }
}

/// A conjunct with its cursor.
pub open spec fn placed(select: Select, e: ExprView, outer: Option<Seq<char>>) -> Result<
    Seq<TermView>,
    ErrorView,
> {
    match term_cursor(select, e, outer) {
        Ok(cursor) => Ok(seq![TermView { expr: e, evaluate_at_cursor: cursor }]),
        Err(e) => Err(e),
    }
}

/// The conjuncts of a list, each with its cursor.
pub open spec fn placed_all(select: Select, list: Seq<ExprView>, outer: Option<Seq<char>>)
    -> Result<Seq<TermView>, ErrorView>
    decreases list.len(),
{
    if list.len() == 0 {
        Ok(Seq::empty())
    } else {
        both_terms(
            placed_all(select, list.drop_last(), outer),
            placed(select, list.last(), outer),
        )
    }
}

/// The terms of a clause: its conjuncts from left to right, each with the
/// cursor at which it is evaluated.
pub open spec fn split_terms(select: Select, e: ExprView, outer: Option<Seq<char>>) -> Result<
    Seq<TermView>,
    ErrorView,
> {
    placed_all(select, conjuncts(e), outer)
}

/// Placing the conjuncts of two lists one behind the other is placing the
/// conjuncts of their concatenation.
pub proof fn lemma_placed_all_concat(
    select: Select,
    a: Seq<ExprView>,
    b: Seq<ExprView>,
    outer: Option<Seq<char>>,
)
    ensures
        placed_all(select, a + b, outer) == both_terms(
            placed_all(select, a, outer),
            placed_all(select, b, outer),
        ),
    decreases b.len(),
{
    if b.len() == 0 {
        assert(a + b =~= a);
        if let Ok(x) = placed_all(select, a, outer) {
            assert(x + Seq::<TermView>::empty() =~= x);
        }
    } else {
        assert((a + b).drop_last() =~= a + b.drop_last());
        assert((a + b).last() == b.last());
        lemma_placed_all_concat(select, a, b.drop_last(), outer);
        if let Ok(x) = placed_all(select, a, outer) {
            if let Ok(y) = placed_all(select, b.drop_last(), outer) {
                if let Ok(z) = placed(select, b.last(), outer) {
                    assert((x + y) + z =~= x + (y + z));
                }
            }
        }
    }
}

/// A clause that is no `AND` is one term.
pub proof fn lemma_split_single(select: Select, e: ExprView, outer: Option<Seq<char>>)
    requires
        !(e matches ExprView::Binary(_, BinaryOperator::And, _)),
    ensures
        split_terms(select, e, outer) == placed(select, e, outer),
{
    let list = seq![e];
    assert(conjuncts(e) == list);
    assert(list.drop_last() =~= Seq::<ExprView>::empty());
    assert(list.last() == e);
    assert(placed_all(select, list.drop_last(), outer) == Ok::<Seq<TermView>, ErrorView>(
        Seq::empty(),
    ));
    if let Ok(z) = placed(select, e, outer) {
        assert(Seq::<TermView>::empty() + z =~= z);
    }
}

/// Appends to `cursors` the cursors of the columns that the expressions of
/// a list name.
#[verifier::loop_isolation(false)]
fn collect_list_cursors(
    select: &Select,
    list: &Vec<Expression>,
    cursor_hint: Option<usize>,
    cursors: &mut Vec<usize>,
) -> (outcome: Result<(), PlanError>)
    ensures
        match list_cursors(*select, Expression::models(list@), 0, cursor_hint) {
            Ok(found) => outcome is Ok && final(cursors)@ == old(cursors)@ + found,
            Err(e) => result_view(outcome) == Err::<(), ErrorView>(e),
        },
    decreases list, 0nat,
{
    let ghost items = Expression::models(list@);
    let ghost total = list_cursors(*select, items, 0, cursor_hint);
    let ghost mut found: Seq<usize> = Seq::empty();
    let mut i: usize = 0;
    assert(cursors@ + found =~= cursors@);
    while i < list.len()
        invariant
            i <= list.len(),
            cursors@ == old(cursors)@ + found,
            total == both_cursors(Ok(found), list_cursors(*select, items, i as int, cursor_hint)),
        decreases list.len() - i,
    {
        assert(items[i as int] == list@[i as int]@);
        let ghost before = cursors@;
        collect_cursors(select, &list[i], cursor_hint, cursors)?;
        proof {
            let here = referenced_cursors(*select, items[i as int], cursor_hint)->Ok_0;
            let rest = list_cursors(*select, items, i + 1, cursor_hint);
            if let Ok(more) = rest {
                assert(found + (here + more) =~= (found + here) + more);
            }
            assert(old(cursors)@ + (found + here) =~= before + here);
            found = found + here;
        }
        i = i + 1;
    }
    assert(found + Seq::<usize>::empty() =~= found);
    Ok(())
}

/// Appends to `cursors` the cursors of the columns that an expression names.
fn collect_cursors(
    select: &Select,
    expr: &Expression,
    cursor_hint: Option<usize>,
    cursors: &mut Vec<usize>,
) -> (outcome: Result<(), PlanError>)
    ensures
        match referenced_cursors(*select, expr@, cursor_hint) {
            Ok(found) => outcome is Ok && final(cursors)@ == old(cursors)@ + found,
            Err(e) => result_view(outcome) == Err::<(), ErrorView>(e),
        },
    decreases expr, 1nat,
{
    match expr {
        Expression::Binary(lhs, _, rhs) => {
            collect_cursors(select, lhs, cursor_hint, cursors)?;
            collect_cursors(select, rhs, cursor_hint, cursors)?;
            proof {
                let a = referenced_cursors(*select, lhs@, cursor_hint)->Ok_0;
                let b = referenced_cursors(*select, rhs@, cursor_hint)->Ok_0;
                assert((old(cursors)@ + a) + b =~= old(cursors)@ + (a + b));
            }
            Ok(())
        },
        Expression::Id(name) => {
            let found = select.resolve_ident_table(name.as_str(), cursor_hint)?;
            cursors.push(found.cursor_id);
            assert(cursors@ =~= old(cursors)@ + seq![found.cursor_id]);
            Ok(())
        },
        Expression::Qualified(table, name) => {
            let found = select.resolve_ident_qualified(table.as_str(), name.as_str(), cursor_hint)?;
            cursors.push(found.cursor_id);
            assert(cursors@ =~= old(cursors)@ + seq![found.cursor_id]);
            Ok(())
        },
        Expression::Like { lhs, not: _, op: _, rhs, escape: _ } => {
            collect_cursors(select, lhs, cursor_hint, cursors)?;
            collect_cursors(select, rhs, cursor_hint, cursors)?;
            proof {
                let a = referenced_cursors(*select, lhs@, cursor_hint)->Ok_0;
                let b = referenced_cursors(*select, rhs@, cursor_hint)->Ok_0;
                assert((old(cursors)@ + a) + b =~= old(cursors)@ + (a + b));
            }
            Ok(())
        },
        Expression::FunctionCall { args, .. } => match args {
            Some(list) => collect_list_cursors(select, list, cursor_hint, cursors),
            None => {
                assert(cursors@ + Seq::<usize>::empty() =~= cursors@);
                Ok(())
            },
        },
        Expression::InList { lhs, not: _, rhs } => {
            collect_cursors(select, lhs, cursor_hint, cursors)?;
            match rhs {
                Some(list) => {
                    collect_list_cursors(select, list, cursor_hint, cursors)?;
                    proof {
                        let a = referenced_cursors(*select, lhs@, cursor_hint)->Ok_0;
                        let b = list_cursors(
                            *select,
                            Expression::models(list@),
                            0,
                            cursor_hint,
                        )->Ok_0;
                        assert((old(cursors)@ + a) + b =~= old(cursors)@ + (a + b));
                    }
                    Ok(())
                },
                None => Ok(()),
            }
        },
        _ => {
            assert(cursors@ + Seq::<usize>::empty() =~= cursors@);
            Ok(())
        },
    }
}

/// The cursors of the columns that an expression names, from left to right.
pub fn introspect_expression_for_cursors(
    select: &Select,
    where_expr: &Expression,
    cursor_hint: Option<usize>,
) -> (cursors: Result<Vec<usize>, PlanError>)
    ensures
        match referenced_cursors(*select, where_expr@, cursor_hint) {
            Ok(found) => cursors matches Ok(list) && list@ == found,
            Err(e) => cursors matches Err(err) && err@ == e,
        },
{
    let mut cursors: Vec<usize> = Vec::new();
    match collect_cursors(select, where_expr, cursor_hint, &mut cursors) {
        Ok(()) => {
            proof {
                let found = referenced_cursors(*select, where_expr@, cursor_hint)->Ok_0;
                assert(Seq::<usize>::empty() + found =~= found);
            }
            Ok(cursors)
        },
        Err(e) => Err(e),
    }
}

/// The greatest of a list of cursors.
fn greatest_cursor(cursors: &Vec<usize>) -> (greatest: usize)
    ensures
        greatest == max_cursor(cursors@),
{
    let mut greatest: usize = 0;
    let mut i: usize = 0;
    while i < cursors.len()
        invariant
            i <= cursors.len(),
            greatest == max_cursor(cursors@.take(i as int)),
        decreases cursors.len() - i,
    {
        assert(cursors@.take(i + 1).drop_last() =~= cursors@.take(i as int));
        if cursors[i] > greatest {
            greatest = cursors[i];
        }
        i = i + 1;
    }
    assert(cursors@.take(cursors.len() as int) =~= cursors@);
    greatest
}

/// The least open cursor of a list of loops.
fn outermost_cursor(loops: &Vec<LoopInfo>) -> (least: usize)
    ensures
        least == min_cursor(open_cursors(loops@)),
{
    let ghost all = open_cursors(loops@);
    let mut least: usize = usize::MAX;
    let mut i: usize = 0;
    while i < loops.len()
        invariant
            i <= loops.len(),
            all == open_cursors(loops@),
            least == min_cursor(all.take(i as int)),
        decreases loops.len() - i,
    {
        assert(all.take(i + 1).drop_last() =~= all.take(i as int));
        assert(all.take(i + 1).last() == loops@[i as int].open_cursor);
        if loops[i].open_cursor < least {
            least = loops[i].open_cursor;
        }
        i = i + 1;
    }
    assert(all.take(loops.len() as int) =~= all);
    least
}

/// The view of an optional name.
pub open spec fn name_view(name: Option<&String>) -> Option<Seq<char>> {
    match name {
        Some(text) => Some(text@),
        None => None,
    }
}

/// The cursor at which a conjunct is evaluated.
fn cursor_of_term(select: &Select, expr: &Expression, outer_join_table_name: Option<&String>) -> (cursor:
    Result<usize, PlanError>)
    ensures
        result_view(cursor) == term_cursor(*select, expr@, name_view(outer_join_table_name)),
{
    match outer_join_table_name {
        Some(table) => select.loop_cursor(table.as_str()),
        None => {
            let cursors = introspect_expression_for_cursors(select, expr, None)?;
            if select.loops.len() == 0 {
                Err(PlanError::NoOpenCursors)
            } else if cursors.len() == 0 {
                Ok(outermost_cursor(&select.loops))
            } else {
                Ok(greatest_cursor(&cursors))
            }
        },
    }
}

/// Appends the terms of a clause to `terms`.
fn split_into(
    select: &Select,
    terms: &mut Vec<WhereTerm>,
    expr: &Expression,
    outer_join_table_name: Option<&String>,
) -> (outcome: Result<(), PlanError>)
    ensures
        match split_terms(*select, expr@, name_view(outer_join_table_name)) {
            Ok(found) => outcome is Ok && Seq::new(final(terms)@.len(), |i: int| final(terms)@[i]@)
                == Seq::new(old(terms)@.len(), |i: int| old(terms)@[i]@) + found,
            Err(e) => result_view(outcome) == Err::<(), ErrorView>(e),
        },
    decreases expr,
{
    let ghost outer = name_view(outer_join_table_name);
    let ghost before = Seq::new(terms@.len(), |i: int| terms@[i]@);
    match expr {
        Expression::Binary(lhs, BinaryOperator::And, rhs) => {
            proof {
                lemma_placed_all_concat(*select, conjuncts(lhs@), conjuncts(rhs@), outer);
            }
            split_into(select, terms, lhs, outer_join_table_name)?;
            split_into(select, terms, rhs, outer_join_table_name)?;
            proof {
                let a = split_terms(*select, lhs@, outer)->Ok_0;
                let b = split_terms(*select, rhs@, outer)->Ok_0;
                assert((before + a) + b =~= before + (a + b));
            }
            Ok(())
        },
        _ => {
            proof {
                lemma_split_single(*select, expr@, outer);
            }
            let cursor = cursor_of_term(select, expr, outer_join_table_name)?;
            terms.push(WhereTerm { expr: expr.clone(), evaluate_at_cursor: cursor });
            assert(Seq::new(terms@.len(), |i: int| terms@[i]@) =~= before + seq![
                TermView { expr: expr@, evaluate_at_cursor: cursor },
            ]);
            Ok(())
        },
    }
}

/// Splits a clause into its conjuncts and appends them, each with the
/// cursor at which it is evaluated, to `processed_where_clause`.
///
/// The clause is taken apart at `AND` only. The terms are appended from
/// left to right. `outer_join_table_name` is the alias of the nullable
/// table where the clause is the `ON` clause of an outer join, and absent
/// otherwise. Where a term cannot be placed, no term is appended at all.
/// The program is not touched.
pub fn split_constraint_to_terms(
    program: &mut ProgramBuilder,
    select: &Select,
    processed_where_clause: &mut ProcessedWhereClause,
    where_clause_or_join_constraint: &Expression,
    outer_join_table_name: Option<&String>,
) -> (outcome: Result<(), PlanError>)
    ensures
        final(program)@ == old(program)@,
        match split_terms(
            *select,
            where_clause_or_join_constraint@,
            name_view(outer_join_table_name),
        ) {
            Ok(found) => outcome is Ok && final(processed_where_clause)@ == old(
                processed_where_clause,
            )@ + found,
            Err(e) => result_view(outcome) == Err::<(), ErrorView>(e) && final(processed_where_clause)@
                == old(processed_where_clause)@,
        },
{
    let mut found: Vec<WhereTerm> = Vec::new();
    split_into(select, &mut found, where_clause_or_join_constraint, outer_join_table_name)?;
    let ghost terms = Seq::new(found@.len(), |i: int| found@[i]@);
    assert(Seq::<TermView>::empty() + terms =~= terms);
    processed_where_clause.terms.append(&mut found);
    assert(processed_where_clause@ =~= old(processed_where_clause)@ + terms);
    Ok(())
}

/// The terms of the `ON` clause of one entry of the `FROM` clause.
///
/// An entry without a join, a join without a constraint and a `USING`
/// constraint have no terms. The terms of an outer join are placed at the
/// entry's own table.
pub open spec fn entry_terms(select: Select, entry: SrcTable) -> Result<Seq<TermView>, ErrorView> {
    match entry.join_info {
        Some(join) => match join.constraint {
            Some(JoinConstraint::On(expr)) => split_terms(
                select,
                expr@,
                if entry.outer() {
                    Some(entry.identifier@)
                } else {
                    None
                },
            ),
            _ => Ok(Seq::empty()),
        },
        None => Ok(Seq::empty()),
    }
}

/// The terms of the `ON` clauses of the entries of the `FROM` clause from
/// the position `from` on.
pub open spec fn join_terms(select: Select, from: int) -> Result<Seq<TermView>, ErrorView>
    decreases select.src_tables@.len() - from,
{
    if from < 0 || from >= select.src_tables@.len() {
        Ok(Seq::empty())
    } else {
        both_terms(entry_terms(select, select.src_tables@[from]), join_terms(select, from + 1))
    }
}

/// The terms of a statement: those of the `WHERE` clause, then those of the
/// `ON` clauses in the order of the `FROM` clause.
pub open spec fn processed_terms(select: Select) -> Result<Seq<TermView>, ErrorView> {
    both_terms(
        match select.where_clause {
            Some(clause) => split_terms(select, clause@, None),
            None => Ok(Seq::empty()),
        },
        join_terms(select, 0),
    )
}

/// Splits the `WHERE` clause and the `ON` clauses of a statement into terms
/// that can each be evaluated at its cursor. The program is not touched.
#[verifier::loop_isolation(false)]
pub fn process_where(program: &mut ProgramBuilder, select: &Select) -> (processed: Result<
    ProcessedWhereClause,
    PlanError,
>)
    ensures
        final(program)@ == old(program)@,
        match processed_terms(*select) {
            Ok(terms) => processed matches Ok(clause) && clause@ == terms,
            Err(e) => processed matches Err(err) && err@ == e,
        },
{
    let mut wc = ProcessedWhereClause { terms: Vec::new() };
    assert(wc@ =~= Seq::<TermView>::empty());
    match &select.where_clause {
        Some(clause) => {
            split_constraint_to_terms(program, select, &mut wc, clause, None)?;
        },
        None => {},
    }
    let ghost of_where = wc@;
    assert(Seq::<TermView>::empty() + of_where =~= of_where);
    let ghost mut of_joins: Seq<TermView> = Seq::empty();
    assert(of_where + of_joins =~= of_where);
    let mut i: usize = 0;
    while i < select.src_tables.len()
        invariant
            i <= select.src_tables.len(),
            program@ == old(program)@,
            wc@ == of_where + of_joins,
            join_terms(*select, 0) == both_terms(Ok(of_joins), join_terms(*select, i as int)),
        decreases select.src_tables.len() - i,
    {
        let table = &select.src_tables[i];
        let ghost here = entry_terms(*select, *table);
        let ghost before = wc@;
        match &table.join_info {
            Some(join) => match &join.constraint {
                Some(JoinConstraint::On(expr)) => {
                    if table.is_outer_join() {
                        split_constraint_to_terms(
                            program,
                            select,
                            &mut wc,
                            expr,
                            Some(&table.identifier),
                        )?;
                    } else {
                        split_constraint_to_terms(program, select, &mut wc, expr, None)?;
                    }
                },
                _ => {},
            },
            None => {},
        }
        proof {
            let found = here->Ok_0;
            assert(wc@ =~= before + found);
            if let Ok(more) = join_terms(*select, i + 1) {
                assert(of_joins + (found + more) =~= (of_joins + found) + more);
            }
            assert(of_where + (of_joins + found) =~= (of_where + of_joins) + found);
            of_joins = of_joins + found;
        }
        i = i + 1;
    }
    assert(of_joins + Seq::<TermView>::empty() =~= of_joins);
    Ok(wc)
}

/// The program after the code of the `WHERE` clause has been appended, and
/// the label to which that code branches where the clause fails.
///
/// Two labels are handed out, for the false and for the true target. The
/// code branches on falsity; the true target is bound just behind it, so
/// that a row that passes falls through. The false target is left for the
/// caller to bind. Without a `WHERE` clause nothing is emitted.
pub open spec fn where_code(p: ProgramState, select: Select) -> Result<
    (ProgramState, Option<BranchOffset>),
    ErrorView,
> {
    match select.where_clause {
        None => Ok((p, None)),
        Some(clause) => {
            let when_false = p.next_label();
            let when_true = p.with_label().next_label();
            match condition_code(
                p.with_label().with_label(),
                select,
                clause@,
                None,
                ConditionMetadata {
                    jump_if_condition_is_true: false,
                    jump_target_when_true: when_true,
                    jump_target_when_false: when_false,
                },
            ) {
                Ok(q) => Ok((q.resolve(when_true, q.offset()), Some(when_false))),
                Err(e) => Err(e),
            }
        },
    }
}

/// Emits the code of the `WHERE` clause and gives back the label to which
/// it branches where the clause fails; nothing where there is no clause.
///
/// The program that results is the one that [`where_code`] describes. It
/// continues the program before the call, and every label that the new
/// instructions refer to is bound, but for the label that is given back,
/// which is left unbound for the caller.
pub fn translate_where(select: &Select, program: &mut ProgramBuilder) -> (target: Result<
    Option<BranchOffset>,
    PlanError,
>)
    ensures
        match where_code(old(program)@, *select) {
            Ok((q, when_false)) => target == Ok::<Option<BranchOffset>, PlanError>(when_false)
                && final(program)@ == q,
            Err(e) => target matches Err(err) && err@ == e,
        },
        target matches Ok(when_false) ==> continues(old(program)@, final(program)@) && (
        when_false matches Some(label) ==> final(program)@.is_unresolved(label)) && final(program)@
            .closed_from(
            old(program)@.code.len() as int,
            match when_false {
                Some(label) => set![label],
                None => Set::empty(),
            },
        ),
{
    proof {
        program.lemma_bounded();
        lemma_where_code(program@, *select);
    }
    let target = translate_where_clause(select, program);
    proof {
        program.lemma_bounded();
    }
    target
}

/// Emits the code of the `WHERE` clause as [`where_code`] describes it.
fn translate_where_clause(select: &Select, program: &mut ProgramBuilder) -> (target: Result<
    Option<BranchOffset>,
    PlanError,
>)
    ensures
        match where_code(old(program)@, *select) {
            Ok((q, when_false)) => target == Ok::<Option<BranchOffset>, PlanError>(when_false)
                && final(program)@ == q,
            Err(e) => target matches Err(err) && err@ == e,
        },
{
    match &select.where_clause {
        Some(clause) => {
            proof {
                program.lemma_bounded();
            }
            let jump_target_when_false = program.allocate_label();
            proof {
                program.lemma_bounded();
            }
            let jump_target_when_true = program.allocate_label();
            let meta = ConditionMetadata {
                jump_if_condition_is_true: false,
                jump_target_when_true,
                jump_target_when_false,
            };
            let ghost before = program@;
            translate_condition_expr(program, select, clause, None, meta)?;
            proof {
                program.lemma_bounded();
                lemma_condition_code(before, *select, clause@, None, meta);
                assert(program@.labels[jump_target_when_true->Label_0 as int] == before.labels[
                    jump_target_when_true->Label_0 as int
                ]);
            }
            let here = program.offset();
            program.resolve_label(jump_target_when_true, here);
            Ok(Some(jump_target_when_false))
        },
        None => Ok(None),
    }
}

/// The program after the code of the terms from the position `from` on that
/// are evaluated at the cursor `cursor` has been appended.
///
/// Each such term gets a fresh true target, bound just behind its code, so
/// that a row that passes falls through to the next term; where the term
/// fails, its code branches to `next_row`.
pub open spec fn terms_code(
    p: ProgramState,
    select: Select,
    terms: Seq<TermView>,
    from: int,
    cursor: usize,
    next_row: BranchOffset,
    cursor_hint: Option<usize>,
) -> Result<ProgramState, ErrorView>
    decreases terms.len() - from,
{
    if from < 0 || from >= terms.len() {
        Ok(p)
    } else if terms[from].evaluate_at_cursor != cursor {
        terms_code(p, select, terms, from + 1, cursor, next_row, cursor_hint)
    } else {
        match condition_code(
            p.with_label(),
            select,
            terms[from].expr,
            cursor_hint,
            ConditionMetadata {
                jump_if_condition_is_true: false,
                jump_target_when_true: p.next_label(),
                jump_target_when_false: next_row,
            },
        ) {
            Ok(q) => terms_code(
                q.resolve(p.next_label(), q.offset()),
                select,
                terms,
                from + 1,
                cursor,
                next_row,
                cursor_hint,
            ),
            Err(e) => Err(e),
        }
    }
}

/// Emits, inside the loop `current_loop`, the code of the terms that are
/// evaluated at the cursor of that loop, in the order of the terms. A term
/// that fails branches to the next row of the loop, whose label has to be
/// a label of the program.
///
/// The program that results is the one that [`terms_code`] describes. It
/// continues the program before the call; every label handed out for the
/// terms is bound, and every label that the new instructions refer to is
/// bound, but for the label of the next row.
pub fn translate_processed_where(
    program: &mut ProgramBuilder,
    select: &Select,
    current_loop: &LoopInfo,
    where_c: &ProcessedWhereClause,
    cursor_hint: Option<usize>,
) -> (outcome: Result<(), PlanError>)
    requires
        old(program)@.is_label(current_loop.next_row_label),
    ensures
        match terms_code(
            old(program)@,
            *select,
            where_c@,
            0,
            current_loop.open_cursor,
            current_loop.next_row_label,
            cursor_hint,
        ) {
            Ok(q) => outcome is Ok && final(program)@ == q,
            Err(e) => result_view(outcome) == Err::<(), ErrorView>(e),
        },
        outcome is Ok ==> continues(old(program)@, final(program)@) && binds_new_labels(
            old(program)@,
            final(program)@,
        ) && final(program)@.closed_from(
            old(program)@.code.len() as int,
            set![current_loop.next_row_label],
        ),
{
    proof {
        lemma_terms_code(
            program@,
            *select,
            where_c@,
            0,
            current_loop.open_cursor,
            current_loop.next_row_label,
            cursor_hint,
        );
    }
    let outcome = translate_terms(program, select, current_loop, where_c, cursor_hint);
    proof {
        program.lemma_bounded();
    }
    outcome
}

/// Emits the code of the terms of a loop as [`terms_code`] describes it.
#[verifier::loop_isolation(false)]
fn translate_terms(
    program: &mut ProgramBuilder,
    select: &Select,
    current_loop: &LoopInfo,
    where_c: &ProcessedWhereClause,
    cursor_hint: Option<usize>,
) -> (outcome: Result<(), PlanError>)
    requires
        old(program)@.is_label(current_loop.next_row_label),
    ensures
        match terms_code(
            old(program)@,
            *select,
            where_c@,
            0,
            current_loop.open_cursor,
            current_loop.next_row_label,
            cursor_hint,
        ) {
            Ok(q) => outcome is Ok && final(program)@ == q,
            Err(e) => result_view(outcome) == Err::<(), ErrorView>(e),
        },
{
    let ghost terms = where_c@;
    let ghost total = terms_code(
        program@,
        *select,
        terms,
        0,
        current_loop.open_cursor,
        current_loop.next_row_label,
        cursor_hint,
    );
    let mut i: usize = 0;
    while i < where_c.terms.len()
        invariant
            i <= where_c.terms.len(),
            program@.is_label(current_loop.next_row_label),
            total == terms_code(
                program@,
                *select,
                terms,
                i as int,
                current_loop.open_cursor,
                current_loop.next_row_label,
                cursor_hint,
            ),
        decreases where_c.terms.len() - i,
    {
        let term = &where_c.terms[i];
        assert(terms[i as int] == term@);
        if term.evaluate_at_cursor == current_loop.open_cursor {
            proof {
                program.lemma_bounded();
            }
            let jump_target_when_false = current_loop.next_row_label;
            let jump_target_when_true = program.allocate_label();
            let meta = ConditionMetadata {
                jump_if_condition_is_true: false,
                jump_target_when_true,
                jump_target_when_false,
            };
            let ghost before = program@;
            translate_condition_expr(program, select, &term.expr, cursor_hint, meta)?;
            proof {
                program.lemma_bounded();
                lemma_condition_code(before, *select, term.expr@, cursor_hint, meta);
                assert(program@.labels[jump_target_when_true->Label_0 as int] == before.labels[
                    jump_target_when_true->Label_0 as int
                ]);
            }
            let here = program.offset();
            program.resolve_label(jump_target_when_true, here);
        }
        i = i + 1;
    }
    Ok(())
}

/// How many conjuncts an expression has: the leaves of its tree of `AND`s.
pub open spec fn and_leaves(e: ExprView) -> nat
    decreases e,
{
    match e {
        ExprView::Binary(lhs, BinaryOperator::And, rhs) => and_leaves(*lhs) + and_leaves(*rhs),
        _ => 1,
    }
}

/// Splitting yields one conjunct for each leaf of the tree of `AND`s.
pub proof fn lemma_conjunct_count(e: ExprView)
    ensures
        conjuncts(e).len() == and_leaves(e),
        and_leaves(e) >= 1,
    decreases e,
{
    match e {
        ExprView::Binary(lhs, BinaryOperator::And, rhs) => {
            lemma_conjunct_count(*lhs);
            lemma_conjunct_count(*rhs);
        },
        _ => {},
    }
}

/// Whether a valuation of expressions reads `AND` as conjunction.
pub open spec fn respects_and(truth: spec_fn(ExprView) -> bool) -> bool {
    forall|lhs: ExprView, rhs: ExprView| #[trigger]
        truth(ExprView::Binary(Box::new(lhs), BinaryOperator::And, Box::new(rhs))) == (truth(lhs)
            && truth(rhs))
}

/// Under every valuation that reads `AND` as conjunction, an expression
/// holds exactly if all of its conjuncts hold.
pub proof fn lemma_conjuncts_complete(e: ExprView, truth: spec_fn(ExprView) -> bool)
    requires
        respects_and(truth),
    ensures
        truth(e) <==> forall|i: int| 0 <= i < conjuncts(e).len() ==> truth(#[trigger] conjuncts(e)[i]),
    decreases e,
{
    match e {
        ExprView::Binary(lhs, BinaryOperator::And, rhs) => {
            lemma_conjuncts_complete(*lhs, truth);
            lemma_conjuncts_complete(*rhs, truth);
            let a = conjuncts(*lhs);
            let b = conjuncts(*rhs);
            let all = conjuncts(e);
            assert(all == a + b);
            assert(e == ExprView::Binary(Box::new(*lhs), BinaryOperator::And, Box::new(*rhs)));
            assert(truth(e) == (truth(*lhs) && truth(*rhs)));
            if truth(e) {
                assert forall|i: int| 0 <= i < all.len() implies truth(#[trigger] all[i]) by {
                    if i < a.len() {
                        assert(all[i] == a[i]);
                    } else {
                        assert(all[i] == b[i - a.len()]);
                    }
                }
            }
            if forall|i: int| 0 <= i < all.len() ==> truth(#[trigger] all[i]) {
                assert forall|i: int| 0 <= i < a.len() implies truth(#[trigger] a[i]) by {
                    assert(all[i] == a[i]);
                }
                assert forall|i: int| 0 <= i < b.len() implies truth(#[trigger] b[i]) by {
                    assert(all[i + a.len()] == b[i]);
                }
            }
        },
        _ => {
            assert(conjuncts(e)[0] == e);
        },
    }
}

/// Placement keeps the conjuncts: the terms of a list are its expressions,
/// in order, each with the cursor that [`term_cursor`] gives it.
pub proof fn lemma_placed_all(select: Select, list: Seq<ExprView>, outer: Option<Seq<char>>)
    ensures
        placed_all(select, list, outer) matches Ok(terms) ==> terms.len() == list.len()
            && forall|i: int|
            0 <= i < list.len() ==> (#[trigger] terms[i]).expr == list[i] && term_cursor(
                select,
                list[i],
                outer,
            ) == Ok::<usize, ErrorView>(terms[i].evaluate_at_cursor),
    decreases list.len(),
{
    if list.len() > 0 {
        lemma_placed_all(select, list.drop_last(), outer);
        if let Ok(terms) = placed_all(select, list, outer) {
            let front = placed_all(select, list.drop_last(), outer)->Ok_0;
            assert forall|i: int| 0 <= i < list.len() implies (#[trigger] terms[i]).expr == list[i]
                && term_cursor(select, list[i], outer) == Ok::<usize, ErrorView>(
                terms[i].evaluate_at_cursor,
            ) by {
                if i < list.len() - 1 {
                    assert(terms[i] == front[i]);
                    assert(list.drop_last()[i] == list[i]);
                }
            }
        }
    }
}

/// Completeness of the split.
///
/// Where a clause splits into terms, the clause holds exactly if all of its
/// terms hold, under every valuation that reads `AND` as conjunction. There
/// is one term for each leaf of the clause's tree of `AND`s.
pub proof fn lemma_split_complete(
    select: Select,
    e: ExprView,
    outer: Option<Seq<char>>,
    truth: spec_fn(ExprView) -> bool,
)
    requires
        respects_and(truth),
    ensures
        split_terms(select, e, outer) matches Ok(terms) ==> terms.len() == and_leaves(e) && (
        truth(e) <==> forall|i: int| 0 <= i < terms.len() ==> truth((#[trigger] terms[i]).expr)),
{
    lemma_conjunct_count(e);
    lemma_conjuncts_complete(e, truth);
    lemma_placed_all(select, conjuncts(e), outer);
    if let Ok(terms) = split_terms(select, e, outer) {
        let list = conjuncts(e);
        if truth(e) {
            assert forall|i: int| 0 <= i < terms.len() implies truth((#[trigger] terms[i]).expr) by {
                assert(terms[i].expr == list[i]);
            }
        }
        if forall|i: int| 0 <= i < terms.len() ==> truth((#[trigger] terms[i]).expr) {
            assert forall|i: int| 0 <= i < list.len() implies truth(#[trigger] list[i]) by {
                assert(terms[i].expr == list[i]);
            }
        }
    }
}

/// The greatest of a sequence of cursors is one of them and no less than
/// any of them.
pub proof fn lemma_max_cursor(cursors: Seq<usize>)
    requires
        cursors.len() > 0,
    ensures
        cursors.contains(max_cursor(cursors)),
        forall|i: int| 0 <= i < cursors.len() ==> cursors[i] <= max_cursor(cursors),
    decreases cursors.len(),
{
    let front = cursors.drop_last();
    if front.len() > 0 {
        lemma_max_cursor(front);
        let at = choose|i: int| 0 <= i < front.len() && front[i] == max_cursor(front);
        assert(cursors[at] == front[at]);
        assert forall|i: int| 0 <= i < cursors.len() implies cursors[i] <= max_cursor(cursors) by {
            if i < front.len() {
                assert(cursors[i] == front[i]);
            }
        }
    }
    if max_cursor(cursors) == cursors.last() {
        assert(cursors[cursors.len() - 1] == max_cursor(cursors));
    } else {
        let at = choose|i: int| 0 <= i < front.len() && front[i] == max_cursor(front);
        assert(cursors[at] == max_cursor(cursors));
    }
}

/// The least of a sequence of cursors is one of them and no greater than
/// any of them.
pub proof fn lemma_min_cursor(cursors: Seq<usize>)
    requires
        cursors.len() > 0,
    ensures
        cursors.contains(min_cursor(cursors)),
        forall|i: int| 0 <= i < cursors.len() ==> min_cursor(cursors) <= cursors[i],
    decreases cursors.len(),
{
    let front = cursors.drop_last();
    if front.len() > 0 {
        lemma_min_cursor(front);
        let at = choose|i: int| 0 <= i < front.len() && front[i] == min_cursor(front);
        assert(cursors[at] == front[at]);
        assert forall|i: int| 0 <= i < cursors.len() implies min_cursor(cursors) <= cursors[i] by {
            if i < front.len() {
                assert(cursors[i] == front[i]);
            }
        }
    }
    if min_cursor(cursors) == cursors.last() {
        assert(cursors[cursors.len() - 1] == min_cursor(cursors));
    } else {
        let at = choose|i: int| 0 <= i < front.len() && front[i] == min_cursor(front);
        assert(cursors[at] == min_cursor(cursors));
    }
}

/// Placement of a term of the `WHERE` clause or of an inner join.
///
/// The term is evaluated at the greatest cursor among those of the columns
/// that it names. Where it names no column, it is evaluated at the least
/// open cursor.
pub proof fn lemma_inner_placement(select: Select, e: ExprView)
    ensures
        term_cursor(select, e, None) matches Ok(cursor) ==> referenced_cursors(select, e, None)
            matches Ok(cursors) && if cursors.len() > 0 {
            cursors.contains(cursor) && forall|i: int|
                0 <= i < cursors.len() ==> cursors[i] <= cursor
        } else {
            open_cursors(select.loops@).contains(cursor) && forall|i: int|
                0 <= i < select.loops@.len() ==> cursor <= (#[trigger] select.loops@[i]).open_cursor
        },
{
    if let Ok(cursor) = term_cursor(select, e, None) {
        let cursors = referenced_cursors(select, e, None)->Ok_0;
        if cursors.len() > 0 {
            lemma_max_cursor(cursors);
        } else {
            let open = open_cursors(select.loops@);
            lemma_min_cursor(open);
            assert forall|i: int| 0 <= i < select.loops@.len() implies cursor <= (
            #[trigger] select.loops@[i]).open_cursor by {
                assert(open[i] == select.loops@[i].open_cursor);
            }
        }
    }
}

/// Placement of a term of the `ON` clause of an outer join.
///
/// The term is evaluated at the cursor of the first open loop over the
/// nullable table, whatever the term refers to.
pub proof fn lemma_outer_placement(select: Select, e: ExprView, other: ExprView, table: Seq<char>)
    ensures
        term_cursor(select, e, Some(table)) == term_cursor(select, other, Some(table)),
        term_cursor(select, e, Some(table)) matches Ok(cursor) ==> exists|i: int|
            0 <= i < select.loops@.len() && (#[trigger] select.loops@[i]).identifier@ == table
                && select.loops@[i].open_cursor == cursor,
        term_cursor(select, e, Some(table)) matches Err(error) ==> error
            == ErrorView::CursorNotFound(table) && forall|i: int|
            0 <= i < select.loops@.len() ==> (#[trigger] select.loops@[i]).identifier@ != table,
{
    crate::select::lemma_loop_from(select.loops@, table, 0);
}

/// Label closure of the `WHERE` clause.
///
/// After the code of the `WHERE` clause the program before it is still
/// there unchanged, and every instruction of that code that refers to a
/// label refers to a bound label or to the false target that is given
/// back. Of the labels handed out for the clause every one but the false
/// target is bound.
pub proof fn lemma_where_code(p: ProgramState, select: Select)
    requires
        p.labels.len() <= usize::MAX,
    ensures
        where_code(p, select) matches Ok((q, target)) ==> (q.labels.len() <= usize::MAX ==> {
            &&& continues(p, q)
            &&& (target matches Some(label) ==> label == p.next_label() && q.is_unresolved(label))
            &&& (target is None ==> q == p)
            &&& forall|n: int|
                p.labels.len() < n < q.labels.len() ==> (#[trigger] q.labels[n]) is Some
            &&& q.closed_from(
                p.code.len() as int,
                match target {
                    Some(label) => set![label],
                    None => Set::empty(),
                },
            )
        }),
{
    if let Ok((q, target)) = where_code(p, select) {
        if q.labels.len() <= usize::MAX {
            match select.where_clause {
                None => {},
                Some(clause) => {
                    let when_false = p.next_label();
                    let when_true = p.with_label().next_label();
                    let meta = ConditionMetadata {
                        jump_if_condition_is_true: false,
                        jump_target_when_true: when_true,
                        jump_target_when_false: when_false,
                    };
                    let s2 = p.with_label().with_label();
                    lemma_condition_code(s2, select, clause@, None, meta);
                    let q1 = condition_code(s2, select, clause@, None, meta)->Ok_0;
                    assert(encloses(s2, q1, meta));
                    assert forall|i: int| 0 <= i < p.code.len() implies #[trigger] q.code[i]
                        == p.code[i] by {
                        assert(q1.code[i] == s2.code[i]);
                    }
                    assert forall|n: int| 0 <= n < p.labels.len() implies #[trigger] q.labels[n]
                        == p.labels[n] by {
                        assert(q1.labels[n] == s2.labels[n]);
                    }
                    assert(q1.labels[p.labels.len() as int] == s2.labels[p.labels.len() as int]);
                    assert forall|n: int| p.labels.len() < n < q.labels.len() implies (
                    #[trigger] q.labels[n]) is Some by {
                        if n > p.labels.len() + 1 {
                            assert(q1.labels[n] is Some);
                        }
                    }
                    assert forall|i: int| p.code.len() <= i < q.code.len() implies ((
                    #[trigger] q.code[i]).label matches Some(label) ==> set![when_false].contains(
                        label,
                    ) || q.is_resolved(label)) by {
                        assert(q.code[i] == q1.code[i]);
                        if let Some(label) = q1.code[i].label {
                            if label != when_false {
                                let n = label->Label_0;
                                assert(q.labels[n as int] is Some);
                            }
                        }
                    }
                },
            }
        }
    }
}

/// Label closure of the terms of one loop.
///
/// After the code of the terms the program before it is still there
/// unchanged, every label handed out for the terms is bound, and every
/// instruction of that code that refers to a label refers to a bound label
/// or to the label of the loop's next row.
pub proof fn lemma_terms_code(
    p: ProgramState,
    select: Select,
    terms: Seq<TermView>,
    from: int,
    cursor: usize,
    next_row: BranchOffset,
    cursor_hint: Option<usize>,
)
    ensures
        terms_code(p, select, terms, from, cursor, next_row, cursor_hint) matches Ok(q) ==> (
        q.labels.len() <= usize::MAX ==> continues(p, q) && binds_new_labels(p, q) && q.closed_from(
            p.code.len() as int,
            set![next_row],
        )),
    decreases terms.len() - from,
{
    if let Ok(q) = terms_code(p, select, terms, from, cursor, next_row, cursor_hint) {
        if q.labels.len() <= usize::MAX && 0 <= from < terms.len() {
            if terms[from].evaluate_at_cursor != cursor {
                lemma_terms_code(p, select, terms, from + 1, cursor, next_row, cursor_hint);
            } else {
                let when_true = p.next_label();
                let meta = ConditionMetadata {
                    jump_if_condition_is_true: false,
                    jump_target_when_true: when_true,
                    jump_target_when_false: next_row,
                };
                let s0 = p.with_label();
                let q1 = condition_code(s0, select, terms[from].expr, cursor_hint, meta)->Ok_0;
                let q2 = q1.resolve(when_true, q1.offset());
                lemma_terms_code(q2, select, terms, from + 1, cursor, next_row, cursor_hint);
                lemma_condition_code(s0, select, terms[from].expr, cursor_hint, meta);
                assert(encloses(s0, q1, meta));
                assert forall|i: int| 0 <= i < p.code.len() implies #[trigger] q.code[i]
                    == p.code[i] by {
                    assert(q1.code[i] == s0.code[i]);
                    assert(q.code[i] == q2.code[i]);
                }
                assert forall|n: int| 0 <= n < p.labels.len() implies #[trigger] q.labels[n]
                    == p.labels[n] by {
                    assert(q1.labels[n] == s0.labels[n]);
                    assert(q.labels[n] == q2.labels[n]);
                }
                assert forall|n: int| p.labels.len() <= n < q.labels.len() implies (
                #[trigger] q.labels[n]) is Some by {
                    if n < q2.labels.len() {
                        assert(q.labels[n] == q2.labels[n]);
                        if n > p.labels.len() {
                            assert(q1.labels[n] is Some);
                        }
                    }
                }
                assert forall|i: int| p.code.len() <= i < q.code.len() implies ((
                #[trigger] q.code[i]).label matches Some(label) ==> set![next_row].contains(label)
                    || q.is_resolved(label)) by {
                    if i < q2.code.len() {
                        assert(q.code[i] == q2.code[i]);
                        assert(q2.code[i] == q1.code[i]);
                        if let Some(label) = q1.code[i].label {
                            if label != next_row {
                                let n = label->Label_0;
                                assert(q.labels[n as int] is Some);
                            }
                        }
                    }
                }
            }
        }
    }
}

} // verus!

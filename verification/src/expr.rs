//! Code that evaluates an operand of a condition into a register.

use crate::ast::{ExprView, Expression, Literal, LiteralView};
use crate::error::{result_view, ErrorView, PlanError, Unsupported};
use crate::select::Select;
use crate::util::{parse_i64, parsed_i64};
use crate::vdbe::{Insn, InsnView, ProgramBuilder, ProgramState};
use vstd::prelude::*;

verus! {

/// The program after the code that evaluates an operand into the register
/// `dest` has been appended.
///
/// An integer literal and a string literal are materialised; an identifier
/// is read as a column through the cursor of its table. Any other shape is
/// not compiled.
pub open spec fn operand_code(
    p: ProgramState,
    select: Select,
    e: ExprView,
    dest: usize,
    cursor_hint: Option<usize>,
) -> Result<ProgramState, ErrorView> {
    match e {
        ExprView::Literal(LiteralView::Numeric(text)) => match parsed_i64(text) {
            Some(value) => Ok(p.emit(InsnView::Integer { value, dest })),
            None => Err(ErrorView::UnsupportedLiteral),
        },
        ExprView::Literal(LiteralView::String(text)) => Ok(
            p.emit(InsnView::String8 { value: text, dest }),
        ),
        ExprView::Id(name) => match select.bare_column(name, cursor_hint) {
            Ok(found) => Ok(
                p.emit(
                    InsnView::Column { cursor_id: found.cursor_id, column: found.column, dest },
                ),
            ),
            Err(e) => Err(e),
        },
        ExprView::Qualified(table, name) => match select.qualified_column(
            table,
            name,
            cursor_hint,
        ) {
            Ok(found) => Ok(
                p.emit(
                    InsnView::Column { cursor_id: found.cursor_id, column: found.column, dest },
                ),
            ),
            Err(e) => Err(e),
        },
        _ => Err(ErrorView::NotImplemented(Unsupported::Operand)),
    }
}

/// The code of an operand is one instruction, without a label, appended to
/// the program; nothing else of the program changes.
pub proof fn lemma_operand_code(
    p: ProgramState,
    select: Select,
    e: ExprView,
    dest: usize,
    cursor_hint: Option<usize>,
)
    ensures
        operand_code(p, select, e, dest, cursor_hint) matches Ok(q) ==> q.registers == p.registers
            && q.labels == p.labels && q.code.len() == p.code.len() + 1 && q.code.drop_last()
            == p.code && q.code.last().label is None && !q.code.last().constant,
{
    if let Ok(q) = operand_code(p, select, e, dest, cursor_hint) {
        assert(q.code.drop_last() =~= p.code);
    }
}

/// Emits the code that evaluates `expr` into `target_register`, and gives
/// that register back. Where the operand cannot be compiled the program
/// is left as it was.
pub fn translate_expr(
    program: &mut ProgramBuilder,
    select: &Select,
    expr: &Expression,
    target_register: usize,
    cursor_hint: Option<usize>,
) -> (register: Result<usize, PlanError>)
    ensures
        match operand_code(old(program)@, *select, expr@, target_register, cursor_hint) {
            Ok(q) => register == Ok::<usize, PlanError>(target_register) && final(program)@ == q,
            Err(e) => result_view(register) == Err::<usize, ErrorView>(e) && final(program)@ == old(
                program,
            )@,
        },
{
    match expr {
        Expression::Literal(Literal::Numeric(text)) => match parse_i64(text.as_str()) {
            Some(value) => {
                program.emit_insn(Insn::Integer { value, dest: target_register });
                Ok(target_register)
            },
            None => Err(PlanError::UnsupportedLiteral),
        },
        Expression::Literal(Literal::String(text)) => {
            program.emit_insn(Insn::String8 { value: text.clone(), dest: target_register });
            Ok(target_register)
        },
        Expression::Id(name) => {
            let found = select.resolve_ident_table(name.as_str(), cursor_hint)?;
            program.emit_insn(
                Insn::Column {
                    cursor_id: found.cursor_id,
                    column: found.column,
                    dest: target_register,
                },
            );
            Ok(target_register)
        },
        Expression::Qualified(table, name) => {
            let found = select.resolve_ident_qualified(
                table.as_str(),
                name.as_str(),
                cursor_hint,
            )?;
            program.emit_insn(
                Insn::Column {
                    cursor_id: found.cursor_id,
                    column: found.column,
                    dest: target_register,
                },
            );
            Ok(target_register)
        },
        _ => Err(PlanError::NotImplemented(Unsupported::Operand)),
    }
}

} // verus!

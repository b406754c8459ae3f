//! Short-circuit branch code for a condition.
//!
//! A condition is compiled under a [`ConditionMetadata`]: a flag and two
//! labels. With the flag set, the code branches to the true target when the
//! condition holds and falls through otherwise; with the flag clear, it
//! branches to the false target when the condition fails and falls through
//! when it holds. The `spec` functions of this module say, for each
//! shape of expression, which program results; the executable functions are
//! proved to build exactly that program.

use crate::ast::{BinaryOperator, ExprView, Expression, LikeOperator, Literal, LiteralView};
use crate::error::{result_view, ErrorView, PlanError, Unsupported};
use crate::expr::{lemma_operand_code, operand_code, translate_expr};
use crate::select::Select;
use crate::util::{parse_i64, parsed_i64};
use crate::vdbe::{
    BranchOffset, Insn, InsnView, ProgramBuilder, ProgramState, ScalarFunc,
};
use vstd::prelude::*;

verus! {

/// How the code of a condition reports its outcome.
#[derive(Clone, Copy, Debug, PartialEq, Eq, Structural)]
pub struct ConditionMetadata {
    /// Branch when the condition holds (and fall through when it fails), or
    /// the other way round.
    pub jump_if_condition_is_true: bool,
    /// Where to branch when the condition holds.
    pub jump_target_when_true: BranchOffset,
    /// Where to branch when the condition fails.
    pub jump_target_when_false: BranchOffset,
}

impl ConditionMetadata {
    /// The label that the code branches to: the true target with the flag
    /// set, the false target with the flag clear.
    pub open spec fn target(self) -> BranchOffset {
        if self.jump_if_condition_is_true {
            self.jump_target_when_true
        } else {
            self.jump_target_when_false
        }
    }

    /// Whether both targets are labels of the program.
    pub open spec fn valid_in(self, p: ProgramState) -> bool {
        p.is_label(self.jump_target_when_true) && p.is_label(self.jump_target_when_false)
    }

    /// The label that the code branches to.
    pub fn branch_target(&self) -> (target: BranchOffset)
        ensures
            target == self.target(),
    {
        if self.jump_if_condition_is_true {
            self.jump_target_when_true
        } else {
            self.jump_target_when_false
        }
    }
}

/// The comparison that holds exactly when `op` does not: `>` and `<=`,
/// `>=` and `<`, `=` and `!=` are each other's negation. An operator that
/// is no comparison is its own result.
pub open spec fn negated(op: BinaryOperator) -> BinaryOperator {
    match op {
        BinaryOperator::Greater => BinaryOperator::LessEquals,
        BinaryOperator::GreaterEquals => BinaryOperator::Less,
        BinaryOperator::Less => BinaryOperator::GreaterEquals,
        BinaryOperator::LessEquals => BinaryOperator::Greater,
        BinaryOperator::Equals => BinaryOperator::NotEquals,
        BinaryOperator::NotEquals => BinaryOperator::Equals,
        other => other,
    }
}

/// The instruction that branches to `target_pc` when `lhs op rhs` holds;
/// none where `op` is no comparison.
pub open spec fn comparison(op: BinaryOperator, lhs: usize, rhs: usize, target_pc: BranchOffset)
    -> Option<InsnView> {
    match op {
        BinaryOperator::Equals => Some(InsnView::Eq { lhs, rhs, target_pc }),
        BinaryOperator::NotEquals => Some(InsnView::Ne { lhs, rhs, target_pc }),
        BinaryOperator::Less => Some(InsnView::Lt { lhs, rhs, target_pc }),
        BinaryOperator::LessEquals => Some(InsnView::Le { lhs, rhs, target_pc }),
        BinaryOperator::Greater => Some(InsnView::Gt { lhs, rhs, target_pc }),
        BinaryOperator::GreaterEquals => Some(InsnView::Ge { lhs, rhs, target_pc }),
        _ => None,
    }
}

/// The instruction with which the comparison `lhs op rhs` reports its
/// outcome: the comparison itself where the code branches on truth, its
/// negation where the code branches on falsity.
pub open spec fn comparison_branch(op: BinaryOperator, lhs: usize, rhs: usize, meta: ConditionMetadata)
    -> Option<InsnView> {
    if meta.jump_if_condition_is_true {
        comparison(op, lhs, rhs, meta.jump_target_when_true)
    } else {
        comparison(negated(op), lhs, rhs, meta.jump_target_when_false)
    }
}

/// Under which name a binary operator that is not compiled is reported.
pub open spec fn unsupported_operator(op: BinaryOperator) -> Unsupported {
    match op {
        BinaryOperator::Is => Unsupported::Is,
        BinaryOperator::IsNot => Unsupported::IsNot,
        _ => Unsupported::BinaryOperator,
    }
}

/// The instruction that reports the truth of a register: `If` to the true
/// target, or `IfNot` to the false target.
pub open spec fn truth_branch(reg: usize, meta: ConditionMetadata) -> InsnView {
    if meta.jump_if_condition_is_true {
        InsnView::If { reg, target_pc: meta.jump_target_when_true, null_reg: reg }
    } else {
        InsnView::IfNot { reg, target_pc: meta.jump_target_when_false, null_reg: reg }
    }
}

/// The instruction that reports the falsity of a register as the truth of
/// the condition: `IfNot` to the true target, or `If` to the false target.
pub open spec fn falsity_branch(reg: usize, meta: ConditionMetadata) -> InsnView {
    if meta.jump_if_condition_is_true {
        InsnView::IfNot { reg, target_pc: meta.jump_target_when_true, null_reg: reg }
    } else {
        InsnView::If { reg, target_pc: meta.jump_target_when_false, null_reg: reg }
    }
}

/// The program after the next register has been taken, with that register.
pub open spec fn allocated(p: ProgramState) -> Result<(ProgramState, usize), ErrorView> {
    if p.has_register() {
        Ok((p.with_register(), p.registers as usize))
    } else {
        Err(ErrorView::OutOfRegisters)
    }
}

/// The program after an operand has been evaluated into `dest`; a literal
/// operand is marked as a constant.
pub open spec fn constant_operand_code(
    p: ProgramState,
    select: Select,
    e: ExprView,
    dest: usize,
    cursor_hint: Option<usize>,
) -> Result<ProgramState, ErrorView> {
    match operand_code(p, select, e, dest, cursor_hint) {
        Ok(q) => Ok(
            if e is Literal {
                q.mark_last_constant()
            } else {
                q
            },
        ),
        Err(e) => Err(e),
    }
}

/// The code of a comparison `lhs op rhs`: two fresh registers, the code of
/// the left operand, the code of the right operand, then one
/// compare-and-branch instruction.
pub open spec fn comparison_code(
    p: ProgramState,
    select: Select,
    lhs: ExprView,
    op: BinaryOperator,
    rhs: ExprView,
    cursor_hint: Option<usize>,
    meta: ConditionMetadata,
) -> Result<ProgramState, ErrorView> {
    match allocated(p) {
        Err(e) => Err(e),
        Ok((s1, lhs_reg)) => match allocated(s1) {
            Err(e) => Err(e),
            Ok((s2, rhs_reg)) => match constant_operand_code(s2, select, lhs, lhs_reg, cursor_hint) {
                Err(e) => Err(e),
                Ok(s3) => match constant_operand_code(s3, select, rhs, rhs_reg, cursor_hint) {
                    Err(e) => Err(e),
                    Ok(s4) => match comparison_branch(op, lhs_reg, rhs_reg, meta) {
                        Some(insn) => Ok(s4.emit_with_label(insn, meta.target())),
                        None => Err(ErrorView::NotImplemented(unsupported_operator(op))),
                    },
                },
            },
        },
    }
}

/// The code of a literal used as a condition: the literal is materialised
/// in a fresh register, whose truth is then reported.
pub open spec fn literal_code(p: ProgramState, literal: LiteralView, meta: ConditionMetadata)
    -> Result<ProgramState, ErrorView> {
    match literal {
        LiteralView::Numeric(text) => match parsed_i64(text) {
            None => Err(ErrorView::UnsupportedLiteral),
            Some(value) => match allocated(p) {
                Err(e) => Err(e),
                Ok((s1, reg)) => Ok(
                    s1.emit(InsnView::Integer { value, dest: reg }).emit_with_label(
                        truth_branch(reg, meta),
                        meta.target(),
                    ),
                ),
            },
        },
        LiteralView::String(text) => match allocated(p) {
            Err(e) => Err(e),
            Ok((s1, reg)) => Ok(
                s1.emit(InsnView::String8 { value: text, dest: reg }).emit_with_label(
                    truth_branch(reg, meta),
                    meta.target(),
                ),
            ),
        },
        _ => Err(ErrorView::NotImplemented(Unsupported::Literal)),
    }
}

/// Under which name a textual comparison that is not compiled is
/// reported; none for `LIKE`, which is compiled.
pub open spec fn unsupported_like(op: LikeOperator) -> Option<Unsupported> {
    match op {
        LikeOperator::Like => None,
        LikeOperator::Glob => Some(Unsupported::Glob),
        LikeOperator::Match => Some(Unsupported::Match),
        LikeOperator::Regexp => Some(Unsupported::Regexp),
    }
}

/// The code of `lhs [NOT] LIKE rhs`: a register for the outcome, then two
/// adjacent registers for the pattern and the subject. The pattern is
/// evaluated first and marked as a constant, then the subject; the function
/// is called, and the truth of its outcome is reported, or its falsity
/// under `NOT`.
pub open spec fn like_code(
    p: ProgramState,
    select: Select,
    lhs: ExprView,
    not: bool,
    op: LikeOperator,
    rhs: ExprView,
    cursor_hint: Option<usize>,
    meta: ConditionMetadata,
) -> Result<ProgramState, ErrorView> {
    match allocated(p) {
        Err(e) => Err(e),
        Ok((s1, cur_reg)) => if !(rhs is Literal) {
            Err(ErrorView::NotImplemented(Unsupported::LikePattern))
        } else if let Some(what) = unsupported_like(op) {
            Err(ErrorView::NotImplemented(what))
        } else {
            match allocated(s1) {
                Err(e) => Err(e),
                Ok((s2, pattern_reg)) => match allocated(s2) {
                    Err(e) => Err(e),
                    Ok((s3, column_reg)) => match constant_operand_code(
                        s3,
                        select,
                        rhs,
                        pattern_reg,
                        cursor_hint,
                    ) {
                        Err(e) => Err(e),
                        Ok(s4) => match operand_code(s4, select, lhs, column_reg, cursor_hint) {
                            Err(e) => Err(e),
                            Ok(s5) => Ok(
                                s5.emit(
                                    InsnView::Function {
                                        func: ScalarFunc::Like,
                                        start_reg: pattern_reg,
                                        dest: cur_reg,
                                    },
                                ).emit_with_label(
                                    if not {
                                        falsity_branch(cur_reg, meta)
                                    } else {
                                        truth_branch(cur_reg, meta)
                                    },
                                    meta.target(),
                                ),
                            ),
                        },
                    },
                },
            }
        },
    }
}

/// The code that compares the register `lhs_reg` with the items of an `IN`
/// list from position `from` on. Each item but the last branches to `found`
/// on equality; the last branches to the false target on inequality, so
/// that falling off the list means a match.
pub open spec fn in_items_code(
    p: ProgramState,
    select: Select,
    items: Seq<ExprView>,
    from: int,
    lhs_reg: usize,
    found: BranchOffset,
    cursor_hint: Option<usize>,
    meta: ConditionMetadata,
) -> Result<ProgramState, ErrorView>
    decreases items.len() - from,
{
    if from < 0 || from >= items.len() {
        Ok(p)
    } else {
        match allocated(p) {
            Err(e) => Err(e),
            Ok((s1, rhs_reg)) => match operand_code(s1, select, items[from], rhs_reg, cursor_hint) {
                Err(e) => Err(e),
                Ok(s2) => in_items_code(
                    if from < items.len() - 1 {
                        s2.emit_with_label(
                            InsnView::Eq { lhs: lhs_reg, rhs: rhs_reg, target_pc: found },
                            found,
                        )
                    } else {
                        s2.emit_with_label(
                            InsnView::Ne {
                                lhs: lhs_reg,
                                rhs: rhs_reg,
                                target_pc: meta.jump_target_when_false,
                            },
                            meta.jump_target_when_false,
                        )
                    },
                    select,
                    items,
                    from + 1,
                    lhs_reg,
                    found,
                    cursor_hint,
                    meta,
                ),
            },
        }
    }
}

/// The code that compares the register `lhs_reg` with the items of a
/// `NOT IN` list from position `from` on: each item branches to the false
/// target on equality.
pub open spec fn not_in_items_code(
    p: ProgramState,
    select: Select,
    items: Seq<ExprView>,
    from: int,
    lhs_reg: usize,
    cursor_hint: Option<usize>,
    meta: ConditionMetadata,
) -> Result<ProgramState, ErrorView>
    decreases items.len() - from,
{
    if from < 0 || from >= items.len() {
        Ok(p)
    } else {
        match allocated(p) {
            Err(e) => Err(e),
            Ok((s1, rhs_reg)) => match operand_code(s1, select, items[from], rhs_reg, cursor_hint) {
                Err(e) => Err(e),
                Ok(s2) => not_in_items_code(
                    s2.emit_with_label(
                        InsnView::Eq {
                            lhs: lhs_reg,
                            rhs: rhs_reg,
                            target_pc: meta.jump_target_when_false,
                        },
                        meta.jump_target_when_false,
                    ),
                    select,
                    items,
                    from + 1,
                    lhs_reg,
                    cursor_hint,
                    meta,
                ),
            },
        }
    }
}

/// The program after a branch to the true target, where the code branches
/// on truth; the program itself where it branches on falsity.
pub open spec fn goto_when_true(p: ProgramState, meta: ConditionMetadata) -> ProgramState {
    if meta.jump_if_condition_is_true {
        p.emit_with_label(
            InsnView::Goto { target_pc: meta.jump_target_when_true },
            meta.jump_target_when_true,
        )
    } else {
        p
    }
}

/// The program after a branch to the false target, where the code branches
/// on falsity; the program itself where it branches on truth.
pub open spec fn goto_when_false(p: ProgramState, meta: ConditionMetadata) -> ProgramState {
    if meta.jump_if_condition_is_true {
        p
    } else {
        p.emit_with_label(
            InsnView::Goto { target_pc: meta.jump_target_when_false },
            meta.jump_target_when_false,
        )
    }
}

/// The code of `lhs [NOT] IN (rhs)` once `lhs` is in the register `lhs_reg`
/// and the list is present.
///
/// Where the code branches on falsity, a match inside the list has to skip
/// the remaining comparisons only: it branches to a label of its own, bound
/// just behind the list. Where the code branches on truth, a match branches
/// to the true target directly.
pub open spec fn in_list_items_code(
    p: ProgramState,
    select: Select,
    not: bool,
    items: Seq<ExprView>,
    lhs_reg: usize,
    cursor_hint: Option<usize>,
    meta: ConditionMetadata,
) -> Result<ProgramState, ErrorView> {
    let found = if meta.jump_if_condition_is_true {
        meta.jump_target_when_true
    } else {
        p.next_label()
    };
    let s1 = if meta.jump_if_condition_is_true {
        p
    } else {
        p.with_label()
    };
    let compared = if not {
        not_in_items_code(s1, select, items, 0, lhs_reg, cursor_hint, meta)
    } else {
        in_items_code(s1, select, items, 0, lhs_reg, found, cursor_hint, meta)
    };
    match compared {
        Err(e) => Err(e),
        Ok(s2) => {
            let s3 = goto_when_true(s2, meta);
            Ok(
                if meta.jump_if_condition_is_true {
                    s3
                } else {
                    s3.resolve(found, s3.offset())
                },
            )
        },
    }
}

/// The code of `lhs [NOT] IN (rhs)`.
///
/// Without a list, `IN ()` never holds: where the code branches on
/// falsity it branches to the false target unconditionally, and otherwise
/// it falls through. `NOT IN ()` always holds: where the code branches on
/// truth it branches to the true target unconditionally, and otherwise it
/// falls through.
pub open spec fn in_list_code(
    p: ProgramState,
    select: Select,
    lhs: ExprView,
    not: bool,
    rhs: Option<Seq<ExprView>>,
    cursor_hint: Option<usize>,
    meta: ConditionMetadata,
) -> Result<ProgramState, ErrorView> {
    match allocated(p) {
        Err(e) => Err(e),
        Ok((s1, lhs_reg)) => match operand_code(s1, select, lhs, lhs_reg, cursor_hint) {
            Err(e) => Err(e),
            Ok(s2) => match rhs {
                None => Ok(
                    if not {
                        goto_when_true(s2, meta)
                    } else {
                        goto_when_false(s2, meta)
                    },
                ),
                Some(items) => in_list_items_code(s2, select, not, items, lhs_reg, cursor_hint, meta),
            },
        },
    }
}

/// The metadata under which the left side of an `AND` is compiled: it never
/// branches on truth, because the right side has to hold as well.
pub open spec fn and_left(meta: ConditionMetadata) -> ConditionMetadata {
    ConditionMetadata {
        jump_if_condition_is_true: false,
        jump_target_when_true: meta.jump_target_when_true,
        jump_target_when_false: meta.jump_target_when_false,
    }
}

/// The metadata under which the left side of an `OR` is compiled: it
/// branches on truth, and its falsity falls through to `local_false`, where
/// the right side begins.
pub open spec fn or_left(meta: ConditionMetadata, local_false: BranchOffset) -> ConditionMetadata {
    ConditionMetadata {
        jump_if_condition_is_true: true,
        jump_target_when_true: meta.jump_target_when_true,
        jump_target_when_false: local_false,
    }
}

/// The program after the code of the condition `e` has been appended to `p`.
pub open spec fn condition_code(
    p: ProgramState,
    select: Select,
    e: ExprView,
    cursor_hint: Option<usize>,
    meta: ConditionMetadata,
) -> Result<ProgramState, ErrorView>
    decreases e,
{
    match e {
        ExprView::Between { .. } => Err(ErrorView::NotImplemented(Unsupported::Between)),
        ExprView::Binary(lhs, op, rhs) => match op {
            BinaryOperator::And => match condition_code(
                p,
                select,
                *lhs,
                cursor_hint,
                and_left(meta),
            ) {
                Err(e) => Err(e),
                Ok(s1) => condition_code(s1, select, *rhs, cursor_hint, meta),
            },
            BinaryOperator::Or => match condition_code(
                p.with_label(),
                select,
                *lhs,
                cursor_hint,
                or_left(meta, p.next_label()),
            ) {
                Err(e) => Err(e),
                Ok(s1) => condition_code(
                    s1.resolve(p.next_label(), s1.offset()),
                    select,
                    *rhs,
                    cursor_hint,
                    meta,
                ),
            },
            _ => comparison_code(p, select, *lhs, op, *rhs, cursor_hint, meta),
        },
        ExprView::Literal(literal) => literal_code(p, literal, meta),
        ExprView::InList { lhs, not, rhs } => in_list_code(
            p,
            select,
            *lhs,
            not,
            rhs,
            cursor_hint,
            meta,
        ),
        ExprView::Like { lhs, not, op, rhs, escape } => like_code(
            p,
            select,
            *lhs,
            not,
            op,
            *rhs,
            cursor_hint,
            meta,
        ),
        _ => Err(ErrorView::NotImplemented(Unsupported::Condition)),
    }
}

/// Whether the program `q` continues the program `p`: the registers, the
/// instructions and the labels of `p` are still there, unchanged.
pub open spec fn continues(p: ProgramState, q: ProgramState) -> bool {
    &&& p.registers <= q.registers
    &&& p.code.len() <= q.code.len()
    &&& forall|i: int| 0 <= i < p.code.len() ==> #[trigger] q.code[i] == p.code[i]
    &&& p.labels.len() <= q.labels.len()
    &&& forall|n: int| 0 <= n < p.labels.len() ==> #[trigger] q.labels[n] == p.labels[n]
}

/// Whether every label handed out between `p` and `q` is bound in `q`.
pub open spec fn binds_new_labels(p: ProgramState, q: ProgramState) -> bool {
    forall|n: int| p.labels.len() <= n < q.labels.len() ==> (#[trigger] q.labels[n]) is Some
}

/// Whether every instruction emitted between `p` and `q` that refers to a
/// label refers to a target of `meta` or to a label handed out in between.
pub open spec fn refers_within(p: ProgramState, q: ProgramState, meta: ConditionMetadata) -> bool {
    forall|i: int|
        p.code.len() <= i < q.code.len() ==> ((#[trigger] q.code[i]).label matches Some(label)
            ==> label == meta.jump_target_when_true || label == meta.jump_target_when_false || (
        label matches BranchOffset::Label(n) && p.labels.len() <= n < q.labels.len()))
}

/// Whether `q` is `p` with the code of one condition appended: `q`
/// continues `p`, the labels handed out for the condition are all bound,
/// and the new instructions refer to those labels or to the targets of
/// `meta` only.
pub open spec fn encloses(p: ProgramState, q: ProgramState, meta: ConditionMetadata) -> bool {
    continues(p, q) && binds_new_labels(p, q) && refers_within(p, q, meta)
}

/// The comparisons of an `IN` list hand out no label, and refer to `found`
/// and to the false target only.
pub proof fn lemma_in_items_code(
    p: ProgramState,
    select: Select,
    items: Seq<ExprView>,
    from: int,
    lhs_reg: usize,
    found: BranchOffset,
    cursor_hint: Option<usize>,
    meta: ConditionMetadata,
)
    ensures
        in_items_code(p, select, items, from, lhs_reg, found, cursor_hint, meta) matches Ok(q)
            ==> continues(p, q) && q.labels == p.labels && forall|i: int|
            p.code.len() <= i < q.code.len() ==> ((#[trigger] q.code[i]).label matches Some(label)
                ==> label == found || label == meta.jump_target_when_false),
    decreases items.len() - from,
{
    if 0 <= from < items.len() {
        if let Ok((s1, rhs_reg)) = allocated(p) {
            lemma_operand_code(s1, select, items[from], rhs_reg, cursor_hint);
            if let Ok(s2) = operand_code(s1, select, items[from], rhs_reg, cursor_hint) {
                let s3 = if from < items.len() - 1 {
                    s2.emit_with_label(
                        InsnView::Eq { lhs: lhs_reg, rhs: rhs_reg, target_pc: found },
                        found,
                    )
                } else {
                    s2.emit_with_label(
                        InsnView::Ne {
                            lhs: lhs_reg,
                            rhs: rhs_reg,
                            target_pc: meta.jump_target_when_false,
                        },
                        meta.jump_target_when_false,
                    )
                };
                lemma_in_items_code(s3, select, items, from + 1, lhs_reg, found, cursor_hint, meta);
                if let Ok(q) = in_items_code(
                    s3,
                    select,
                    items,
                    from + 1,
                    lhs_reg,
                    found,
                    cursor_hint,
                    meta,
                ) {
                    assert forall|i: int| 0 <= i < p.code.len() implies #[trigger] q.code[i]
                        == p.code[i] by {
                        assert(q.code[i] == s3.code[i]);
                        assert(s2.code.drop_last()[i] == s1.code[i]);
                    }
                    assert forall|i: int| p.code.len() <= i < q.code.len() implies ((
                    #[trigger] q.code[i]).label matches Some(label) ==> label == found || label
                        == meta.jump_target_when_false) by {
                        if i < s3.code.len() {
                            assert(q.code[i] == s3.code[i]);
                            if i < s2.code.len() {
                                assert(s2.code.last() == s2.code[i]);
                            }
                        }
                    }
                }
            }
        }
    }
}

/// The comparisons of a `NOT IN` list hand out no label, and refer to the
/// false target only.
pub proof fn lemma_not_in_items_code(
    p: ProgramState,
    select: Select,
    items: Seq<ExprView>,
    from: int,
    lhs_reg: usize,
    cursor_hint: Option<usize>,
    meta: ConditionMetadata,
)
    ensures
        not_in_items_code(p, select, items, from, lhs_reg, cursor_hint, meta) matches Ok(q)
            ==> continues(p, q) && q.labels == p.labels && forall|i: int|
            p.code.len() <= i < q.code.len() ==> ((#[trigger] q.code[i]).label matches Some(label)
                ==> label == meta.jump_target_when_false),
    decreases items.len() - from,
{
    if 0 <= from < items.len() {
        if let Ok((s1, rhs_reg)) = allocated(p) {
            lemma_operand_code(s1, select, items[from], rhs_reg, cursor_hint);
            if let Ok(s2) = operand_code(s1, select, items[from], rhs_reg, cursor_hint) {
                let s3 = s2.emit_with_label(
                    InsnView::Eq {
                        lhs: lhs_reg,
                        rhs: rhs_reg,
                        target_pc: meta.jump_target_when_false,
                    },
                    meta.jump_target_when_false,
                );
                lemma_not_in_items_code(s3, select, items, from + 1, lhs_reg, cursor_hint, meta);
                if let Ok(q) = not_in_items_code(
                    s3,
                    select,
                    items,
                    from + 1,
                    lhs_reg,
                    cursor_hint,
                    meta,
                ) {
                    assert forall|i: int| 0 <= i < p.code.len() implies #[trigger] q.code[i]
                        == p.code[i] by {
                        assert(q.code[i] == s3.code[i]);
                        assert(s2.code.drop_last()[i] == s1.code[i]);
                    }
                    assert forall|i: int| p.code.len() <= i < q.code.len() implies ((
                    #[trigger] q.code[i]).label matches Some(label) ==> label
                        == meta.jump_target_when_false) by {
                        if i < s3.code.len() {
                            assert(q.code[i] == s3.code[i]);
                            if i < s2.code.len() {
                                assert(s2.code.last() == s2.code[i]);
                            }
                        }
                    }
                }
            }
        }
    }
}

/// Evaluating an operand, and marking it where it is a literal, appends one
/// instruction without a label and changes nothing else.
pub proof fn lemma_constant_operand_code(
    p: ProgramState,
    select: Select,
    e: ExprView,
    dest: usize,
    cursor_hint: Option<usize>,
)
    ensures
        constant_operand_code(p, select, e, dest, cursor_hint) matches Ok(q) ==> q.registers
            == p.registers && q.labels == p.labels && q.code.len() == p.code.len() + 1
            && q.code.drop_last() == p.code && q.code.last().label is None,
{
    lemma_operand_code(p, select, e, dest, cursor_hint);
    if let Ok(q) = constant_operand_code(p, select, e, dest, cursor_hint) {
        let r = operand_code(p, select, e, dest, cursor_hint)->Ok_0;
        assert(q.code.drop_last() =~= r.code.drop_last());
    }
}

/// The code of a comparison encloses no label of its own.
pub proof fn lemma_comparison_code(
    p: ProgramState,
    select: Select,
    lhs: ExprView,
    op: BinaryOperator,
    rhs: ExprView,
    cursor_hint: Option<usize>,
    meta: ConditionMetadata,
)
    ensures
        comparison_code(p, select, lhs, op, rhs, cursor_hint, meta) matches Ok(q) ==> encloses(
            p,
            q,
            meta,
        ) && q.labels == p.labels,
{
    if let Ok(q) = comparison_code(p, select, lhs, op, rhs, cursor_hint, meta) {
        let (s1, lhs_reg) = allocated(p)->Ok_0;
        let (s2, rhs_reg) = allocated(s1)->Ok_0;
        lemma_constant_operand_code(s2, select, lhs, lhs_reg, cursor_hint);
        let s3 = constant_operand_code(s2, select, lhs, lhs_reg, cursor_hint)->Ok_0;
        lemma_constant_operand_code(s3, select, rhs, rhs_reg, cursor_hint);
        let s4 = constant_operand_code(s3, select, rhs, rhs_reg, cursor_hint)->Ok_0;
        assert forall|i: int| 0 <= i < p.code.len() implies #[trigger] q.code[i] == p.code[i] by {
            assert(s4.code.drop_last()[i] == s3.code[i]);
            assert(s3.code.drop_last()[i] == s2.code[i]);
        }
        assert forall|i: int| p.code.len() <= i < q.code.len() implies ((
        #[trigger] q.code[i]).label matches Some(label) ==> label == meta.jump_target_when_true
            || label == meta.jump_target_when_false) by {
            if i == p.code.len() {
                assert(s4.code.drop_last()[i] == s3.code[i]);
                assert(s3.code.last() == s3.code[i]);
            } else if i == p.code.len() + 1 {
                assert(s4.code.last() == s4.code[i]);
            }
        }
    }
}

/// The code of a literal condition encloses no label of its own.
pub proof fn lemma_literal_code(p: ProgramState, literal: LiteralView, meta: ConditionMetadata)
    ensures
        literal_code(p, literal, meta) matches Ok(q) ==> encloses(p, q, meta) && q.labels
            == p.labels,
{
}

/// The code of a `LIKE` encloses no label of its own.
pub proof fn lemma_like_code(
    p: ProgramState,
    select: Select,
    lhs: ExprView,
    not: bool,
    op: LikeOperator,
    rhs: ExprView,
    cursor_hint: Option<usize>,
    meta: ConditionMetadata,
)
    ensures
        like_code(p, select, lhs, not, op, rhs, cursor_hint, meta) matches Ok(q) ==> encloses(
            p,
            q,
            meta,
        ) && q.labels == p.labels,
{
    if let Ok(q) = like_code(p, select, lhs, not, op, rhs, cursor_hint, meta) {
        let (s1, cur_reg) = allocated(p)->Ok_0;
        let (s2, pattern_reg) = allocated(s1)->Ok_0;
        let (s3, column_reg) = allocated(s2)->Ok_0;
        lemma_constant_operand_code(s3, select, rhs, pattern_reg, cursor_hint);
        let s4 = constant_operand_code(s3, select, rhs, pattern_reg, cursor_hint)->Ok_0;
        lemma_operand_code(s4, select, lhs, column_reg, cursor_hint);
        let s5 = operand_code(s4, select, lhs, column_reg, cursor_hint)->Ok_0;
        assert forall|i: int| 0 <= i < p.code.len() implies #[trigger] q.code[i] == p.code[i] by {
            assert(s5.code.drop_last()[i] == s4.code[i]);
            assert(s4.code.drop_last()[i] == s3.code[i]);
        }
        assert forall|i: int| p.code.len() <= i < q.code.len() implies ((
        #[trigger] q.code[i]).label matches Some(label) ==> label == meta.jump_target_when_true
            || label == meta.jump_target_when_false) by {
            if i == p.code.len() {
                assert(s5.code.drop_last()[i] == s4.code[i]);
                assert(s4.code.last() == s4.code[i]);
            } else if i == p.code.len() + 1 {
                assert(s5.code.last() == s5.code[i]);
            }
        }
    }
}

/// The code of a present `IN` list encloses at most one label of its own,
/// which it binds behind the list.
pub proof fn lemma_in_list_items_code(
    p: ProgramState,
    select: Select,
    not: bool,
    items: Seq<ExprView>,
    lhs_reg: usize,
    cursor_hint: Option<usize>,
    meta: ConditionMetadata,
)
    ensures
        in_list_items_code(p, select, not, items, lhs_reg, cursor_hint, meta) matches Ok(q) ==> (
        q.labels.len() <= usize::MAX ==> encloses(p, q, meta)),
{
    if let Ok(q) = in_list_items_code(p, select, not, items, lhs_reg, cursor_hint, meta) {
        if q.labels.len() <= usize::MAX {
            let found = if meta.jump_if_condition_is_true {
                meta.jump_target_when_true
            } else {
                p.next_label()
            };
            let s1 = if meta.jump_if_condition_is_true {
                p
            } else {
                p.with_label()
            };
            if not {
                lemma_not_in_items_code(s1, select, items, 0, lhs_reg, cursor_hint, meta);
            } else {
                lemma_in_items_code(s1, select, items, 0, lhs_reg, found, cursor_hint, meta);
            }
            let s2 = if not {
                not_in_items_code(s1, select, items, 0, lhs_reg, cursor_hint, meta)->Ok_0
            } else {
                in_items_code(s1, select, items, 0, lhs_reg, found, cursor_hint, meta)->Ok_0
            };
            let s3 = goto_when_true(s2, meta);
            assert(q.code == s3.code);
            assert forall|i: int| 0 <= i < p.code.len() implies #[trigger] q.code[i]
                == p.code[i] by {
                assert(s3.code[i] == s2.code[i]);
                assert(s2.code[i] == s1.code[i]);
            }
            assert forall|i: int| p.code.len() <= i < q.code.len() implies ((
            #[trigger] q.code[i]).label matches Some(label) ==> label
                == meta.jump_target_when_true || label == meta.jump_target_when_false || (
            label matches BranchOffset::Label(n) && p.labels.len() <= n < q.labels.len())) by {
                if i < s2.code.len() {
                    assert(s3.code[i] == s2.code[i]);
                }
            }
        }
    }
}

/// The code of an `IN` list encloses at most one label of its own, which
/// it binds behind the list.
pub proof fn lemma_in_list_code(
    p: ProgramState,
    select: Select,
    lhs: ExprView,
    not: bool,
    rhs: Option<Seq<ExprView>>,
    cursor_hint: Option<usize>,
    meta: ConditionMetadata,
)
    ensures
        in_list_code(p, select, lhs, not, rhs, cursor_hint, meta) matches Ok(q) ==> (
        q.labels.len() <= usize::MAX ==> encloses(p, q, meta)),
{
    if let Ok(q) = in_list_code(p, select, lhs, not, rhs, cursor_hint, meta) {
        if q.labels.len() <= usize::MAX {
            let (s1, lhs_reg) = allocated(p)->Ok_0;
            lemma_operand_code(s1, select, lhs, lhs_reg, cursor_hint);
            let s2 = operand_code(s1, select, lhs, lhs_reg, cursor_hint)->Ok_0;
            assert forall|i: int| 0 <= i < p.code.len() implies #[trigger] s2.code[i]
                == p.code[i] by {
                assert(s2.code.drop_last()[i] == s1.code[i]);
            }
            assert(s2.code.last() == s2.code[p.code.len() as int]);
            match rhs {
                None => {
                    assert forall|i: int| 0 <= i < p.code.len() implies #[trigger] q.code[i]
                        == p.code[i] by {
                        assert(q.code[i] == s2.code[i]);
                    }
                    assert forall|i: int| p.code.len() <= i < q.code.len() implies ((
                    #[trigger] q.code[i]).label matches Some(label) ==> label
                        == meta.jump_target_when_true || label == meta.jump_target_when_false)
                    by {
                        if i < s2.code.len() {
                            assert(q.code[i] == s2.code[i]);
                        }
                    }
                },
                Some(items) => {
                    lemma_in_list_items_code(s2, select, not, items, lhs_reg, cursor_hint, meta);
                    assert forall|i: int| 0 <= i < p.code.len() implies #[trigger] q.code[i]
                        == p.code[i] by {
                        assert(q.code[i] == s2.code[i]);
                    }
                    assert forall|i: int| p.code.len() <= i < q.code.len() implies ((
                    #[trigger] q.code[i]).label matches Some(label) ==> label
                        == meta.jump_target_when_true || label == meta.jump_target_when_false || (
                    label matches BranchOffset::Label(n) && p.labels.len() <= n < q.labels.len()))
                    by {
                        if i < s2.code.len() {
                            assert(q.code[i] == s2.code[i]);
                        }
                    }
                },
            }
        }
    }
}

/// Two conditions compiled one behind the other under the same targets
/// enclose what each of them encloses.
pub proof fn lemma_encloses_and(
    p: ProgramState,
    s1: ProgramState,
    q: ProgramState,
    meta: ConditionMetadata,
)
    requires
        encloses(p, s1, and_left(meta)),
        encloses(s1, q, meta),
    ensures
        encloses(p, q, meta),
{
    assert forall|i: int| 0 <= i < p.code.len() implies #[trigger] q.code[i] == p.code[i] by {
        assert(s1.code[i] == p.code[i]);
    }
    assert forall|n: int| 0 <= n < p.labels.len() implies #[trigger] q.labels[n]
        == p.labels[n] by {
        assert(s1.labels[n] == p.labels[n]);
    }
    assert forall|n: int| p.labels.len() <= n < q.labels.len() implies (
    #[trigger] q.labels[n]) is Some by {
        if n < s1.labels.len() {
            assert(s1.labels[n] is Some);
        }
    }
    assert forall|i: int| p.code.len() <= i < q.code.len() implies ((
    #[trigger] q.code[i]).label matches Some(label) ==> label == meta.jump_target_when_true
        || label == meta.jump_target_when_false || (label matches BranchOffset::Label(n)
        && p.labels.len() <= n < q.labels.len())) by {
        if i < s1.code.len() {
            assert(q.code[i] == s1.code[i]);
        }
    }
}

/// The two sides of an `OR`, with the label between them, enclose that
/// label and what each side encloses.
pub proof fn lemma_encloses_or(
    p: ProgramState,
    s1: ProgramState,
    q: ProgramState,
    meta: ConditionMetadata,
)
    requires
        q.labels.len() <= usize::MAX,
        encloses(p.with_label(), s1, or_left(meta, p.next_label())),
        encloses(s1.resolve(p.next_label(), s1.offset()), q, meta),
    ensures
        encloses(p, q, meta),
{
    let s0 = p.with_label();
    let s2 = s1.resolve(p.next_label(), s1.offset());
    assert forall|i: int| 0 <= i < p.code.len() implies #[trigger] q.code[i] == p.code[i] by {
        assert(s1.code[i] == s0.code[i]);
        assert(q.code[i] == s2.code[i]);
    }
    assert forall|n: int| 0 <= n < p.labels.len() implies #[trigger] q.labels[n]
        == p.labels[n] by {
        assert(s1.labels[n] == s0.labels[n]);
        assert(q.labels[n] == s2.labels[n]);
    }
    assert forall|n: int| p.labels.len() <= n < q.labels.len() implies (
    #[trigger] q.labels[n]) is Some by {
        if n < s2.labels.len() {
            assert(q.labels[n] == s2.labels[n]);
            if n > p.labels.len() {
                assert(s1.labels[n] is Some);
            }
        }
    }
    assert forall|i: int| p.code.len() <= i < q.code.len() implies ((
    #[trigger] q.code[i]).label matches Some(label) ==> label == meta.jump_target_when_true
        || label == meta.jump_target_when_false || (label matches BranchOffset::Label(n)
        && p.labels.len() <= n < q.labels.len())) by {
        if i < s2.code.len() {
            assert(q.code[i] == s2.code[i]);
            assert(s2.code[i] == s1.code[i]);
        }
    }
}

/// Label closure of one condition.
///
/// Where the code of a condition is built, the program before it is still
/// there unchanged; every label that was handed out for the condition is
/// bound to an offset; and every new instruction that refers to a label
/// refers to one of those or to a target of `meta`. A label is bound through
/// an update of an unbound entry only, so that a bound label was bound
/// exactly once.
pub proof fn lemma_condition_code(
    p: ProgramState,
    select: Select,
    e: ExprView,
    cursor_hint: Option<usize>,
    meta: ConditionMetadata,
)
    ensures
        condition_code(p, select, e, cursor_hint, meta) matches Ok(q) ==> (q.labels.len()
            <= usize::MAX ==> encloses(p, q, meta)),
    decreases e,
{
    if let Ok(q) = condition_code(p, select, e, cursor_hint, meta) {
        if q.labels.len() <= usize::MAX {
            match e {
                ExprView::Binary(lhs, op, rhs) => match op {
                    BinaryOperator::And => {
                        let s1 = condition_code(p, select, *lhs, cursor_hint, and_left(meta))->Ok_0;
                        lemma_condition_code(s1, select, *rhs, cursor_hint, meta);
                        lemma_condition_code(p, select, *lhs, cursor_hint, and_left(meta));
                        lemma_encloses_and(p, s1, q, meta);
                    },
                    BinaryOperator::Or => {
                        let local = p.next_label();
                        let first = or_left(meta, local);
                        let s1 = condition_code(p.with_label(), select, *lhs, cursor_hint, first)->Ok_0;
                        let s2 = s1.resolve(local, s1.offset());
                        lemma_condition_code(s2, select, *rhs, cursor_hint, meta);
                        lemma_condition_code(p.with_label(), select, *lhs, cursor_hint, first);
                        lemma_encloses_or(p, s1, q, meta);
                    },
                    _ => {
                        lemma_comparison_code(p, select, *lhs, op, *rhs, cursor_hint, meta);
                    },
                },
                ExprView::Literal(literal) => {
                    lemma_literal_code(p, literal, meta);
                },
                ExprView::InList { lhs, not, rhs } => {
                    lemma_in_list_code(p, select, *lhs, not, rhs, cursor_hint, meta);
                },
                ExprView::Like { lhs, not, op, rhs, escape } => {
                    lemma_like_code(p, select, *lhs, not, op, *rhs, cursor_hint, meta);
                },
                _ => {},
            }
        }
    }
}

/// Whether a compilation ended as described: with the described program,
/// or with the described error.
pub open spec fn compiled(
    described: Result<ProgramState, ErrorView>,
    outcome: Result<(), PlanError>,
    program: ProgramState,
) -> bool {
    match described {
        Ok(q) => outcome is Ok && program == q,
        Err(e) => result_view(outcome) == Err::<(), ErrorView>(e),
    }
}

/// The comparison that holds exactly when `op` does not.
fn negate(op: BinaryOperator) -> (negation: BinaryOperator)
    ensures
        negation == negated(op),
{
    match op {
        BinaryOperator::Greater => BinaryOperator::LessEquals,
        BinaryOperator::GreaterEquals => BinaryOperator::Less,
        BinaryOperator::Less => BinaryOperator::GreaterEquals,
        BinaryOperator::LessEquals => BinaryOperator::Greater,
        BinaryOperator::Equals => BinaryOperator::NotEquals,
        BinaryOperator::NotEquals => BinaryOperator::Equals,
        other => other,
    }
}

/// The instruction that branches to `target_pc` when `lhs op rhs` holds.
fn comparison_insn(op: BinaryOperator, lhs: usize, rhs: usize, target_pc: BranchOffset) -> (insn:
    Option<Insn>)
    ensures
        match insn {
            Some(insn) => comparison(op, lhs, rhs, target_pc) == Some(insn@),
            None => comparison(op, lhs, rhs, target_pc) is None,
        },
{
    match op {
        BinaryOperator::Equals => Some(Insn::Eq { lhs, rhs, target_pc }),
        BinaryOperator::NotEquals => Some(Insn::Ne { lhs, rhs, target_pc }),
        BinaryOperator::Less => Some(Insn::Lt { lhs, rhs, target_pc }),
        BinaryOperator::LessEquals => Some(Insn::Le { lhs, rhs, target_pc }),
        BinaryOperator::Greater => Some(Insn::Gt { lhs, rhs, target_pc }),
        BinaryOperator::GreaterEquals => Some(Insn::Ge { lhs, rhs, target_pc }),
        _ => None,
    }
}

/// Under which name a binary operator that is not compiled is reported.
fn unsupported_binary(op: BinaryOperator) -> (what: Unsupported)
    ensures
        what == unsupported_operator(op),
{
    match op {
        BinaryOperator::Is => Unsupported::Is,
        BinaryOperator::IsNot => Unsupported::IsNot,
        _ => Unsupported::BinaryOperator,
    }
}

/// The instruction that reports the truth of a register.
fn truth_insn(reg: usize, meta: ConditionMetadata) -> (insn: Insn)
    ensures
        insn@ == truth_branch(reg, meta),
{
    if meta.jump_if_condition_is_true {
        Insn::If { reg, target_pc: meta.jump_target_when_true, null_reg: reg }
    } else {
        Insn::IfNot { reg, target_pc: meta.jump_target_when_false, null_reg: reg }
    }
}

/// The instruction that reports the falsity of a register as the truth of
/// the condition.
fn falsity_insn(reg: usize, meta: ConditionMetadata) -> (insn: Insn)
    ensures
        insn@ == falsity_branch(reg, meta),
{
    if meta.jump_if_condition_is_true {
        Insn::IfNot { reg, target_pc: meta.jump_target_when_true, null_reg: reg }
    } else {
        Insn::If { reg, target_pc: meta.jump_target_when_false, null_reg: reg }
    }
}

/// Emits the code of an operand and marks it as a constant where the
/// operand is a literal.
fn translate_constant_operand(
    program: &mut ProgramBuilder,
    select: &Select,
    expr: &Expression,
    dest: usize,
    cursor_hint: Option<usize>,
) -> (outcome: Result<(), PlanError>)
    ensures
        compiled(
            constant_operand_code(old(program)@, *select, expr@, dest, cursor_hint),
            outcome,
            final(program)@,
        ),
{
    proof {
        lemma_operand_code(program@, *select, expr@, dest, cursor_hint);
    }
    translate_expr(program, select, expr, dest, cursor_hint)?;
    match expr {
        Expression::Literal(_) => {
            program.mark_last_insn_constant();
        },
        _ => {},
    }
    Ok(())
}

/// Emits a branch to the true target where the code branches on truth.
fn emit_goto_when_true(program: &mut ProgramBuilder, meta: ConditionMetadata)
    requires
        meta.valid_in(old(program)@),
    ensures
        final(program)@ == goto_when_true(old(program)@, meta),
{
    if meta.jump_if_condition_is_true {
        program.emit_insn_with_label_dependency(
            Insn::Goto { target_pc: meta.jump_target_when_true },
            meta.jump_target_when_true,
        );
    }
}

/// Emits a branch to the false target where the code branches on falsity.
fn emit_goto_when_false(program: &mut ProgramBuilder, meta: ConditionMetadata)
    requires
        meta.valid_in(old(program)@),
    ensures
        final(program)@ == goto_when_false(old(program)@, meta),
{
    if !meta.jump_if_condition_is_true {
        program.emit_insn_with_label_dependency(
            Insn::Goto { target_pc: meta.jump_target_when_false },
            meta.jump_target_when_false,
        );
    }
}

/// Emits the code of the comparison `lhs op rhs`.
fn translate_comparison(
    program: &mut ProgramBuilder,
    select: &Select,
    lhs: &Expression,
    op: BinaryOperator,
    rhs: &Expression,
    cursor_hint: Option<usize>,
    meta: ConditionMetadata,
) -> (outcome: Result<(), PlanError>)
    requires
        meta.valid_in(old(program)@),
    ensures
        compiled(
            comparison_code(old(program)@, *select, lhs@, op, rhs@, cursor_hint, meta),
            outcome,
            final(program)@,
        ),
{
    let lhs_reg = program.alloc_register()?;
    let rhs_reg = program.alloc_register()?;
    proof {
        lemma_constant_operand_code(program@, *select, lhs@, lhs_reg, cursor_hint);
    }
    translate_constant_operand(program, select, lhs, lhs_reg, cursor_hint)?;
    proof {
        lemma_constant_operand_code(program@, *select, rhs@, rhs_reg, cursor_hint);
    }
    translate_constant_operand(program, select, rhs, rhs_reg, cursor_hint)?;
    let insn = if meta.jump_if_condition_is_true {
        comparison_insn(op, lhs_reg, rhs_reg, meta.jump_target_when_true)
    } else {
        comparison_insn(negate(op), lhs_reg, rhs_reg, meta.jump_target_when_false)
    };
    match insn {
        Some(insn) => {
            program.emit_insn_with_label_dependency(insn, meta.branch_target());
            Ok(())
        },
        None => Err(PlanError::NotImplemented(unsupported_binary(op))),
    }
}

/// Emits the code of a literal used as a condition.
fn translate_literal(program: &mut ProgramBuilder, literal: &Literal, meta: ConditionMetadata) -> (outcome:
    Result<(), PlanError>)
    requires
        meta.valid_in(old(program)@),
    ensures
        compiled(literal_code(old(program)@, literal@, meta), outcome, final(program)@),
{
    match literal {
        Literal::Numeric(text) => match parse_i64(text.as_str()) {
            Some(value) => {
                let reg = program.alloc_register()?;
                program.emit_insn(Insn::Integer { value, dest: reg });
                program.emit_insn_with_label_dependency(truth_insn(reg, meta), meta.branch_target());
                Ok(())
            },
            None => Err(PlanError::UnsupportedLiteral),
        },
        Literal::String(text) => {
            let reg = program.alloc_register()?;
            program.emit_insn(Insn::String8 { value: text.clone(), dest: reg });
            program.emit_insn_with_label_dependency(truth_insn(reg, meta), meta.branch_target());
            Ok(())
        },
        _ => Err(PlanError::NotImplemented(Unsupported::Literal)),
    }
}

/// Emits the code of `lhs [NOT] op rhs` for a textual comparison.
fn translate_like(
    program: &mut ProgramBuilder,
    select: &Select,
    lhs: &Expression,
    not: bool,
    op: LikeOperator,
    rhs: &Expression,
    cursor_hint: Option<usize>,
    meta: ConditionMetadata,
) -> (outcome: Result<(), PlanError>)
    requires
        meta.valid_in(old(program)@),
    ensures
        compiled(
            like_code(old(program)@, *select, lhs@, not, op, rhs@, cursor_hint, meta),
            outcome,
            final(program)@,
        ),
{
    let cur_reg = program.alloc_register()?;
    match rhs {
        Expression::Literal(_) => {},
        _ => {
            return Err(PlanError::NotImplemented(Unsupported::LikePattern));
        },
    }
    match op {
        LikeOperator::Like => {},
        LikeOperator::Glob => {
            return Err(PlanError::NotImplemented(Unsupported::Glob));
        },
        LikeOperator::Match => {
            return Err(PlanError::NotImplemented(Unsupported::Match));
        },
        LikeOperator::Regexp => {
            return Err(PlanError::NotImplemented(Unsupported::Regexp));
        },
    }
    let pattern_reg = program.alloc_register()?;
    let column_reg = program.alloc_register()?;
    proof {
        lemma_constant_operand_code(program@, *select, rhs@, pattern_reg, cursor_hint);
    }
    translate_constant_operand(program, select, rhs, pattern_reg, cursor_hint)?;
    proof {
        lemma_operand_code(program@, *select, lhs@, column_reg, cursor_hint);
    }
    translate_expr(program, select, lhs, column_reg, cursor_hint)?;
    program.emit_insn(Insn::Function { func: ScalarFunc::Like, start_reg: pattern_reg, dest: cur_reg });
    let branch = if not {
        falsity_insn(cur_reg, meta)
    } else {
        truth_insn(cur_reg, meta)
    };
    program.emit_insn_with_label_dependency(branch, meta.branch_target());
    Ok(())
}

/// Emits the comparisons of a present `IN` list against the register
/// `lhs_reg`.
#[verifier::loop_isolation(false)]
fn translate_in_list_items(
    program: &mut ProgramBuilder,
    select: &Select,
    not: bool,
    list: &Vec<Expression>,
    lhs_reg: usize,
    cursor_hint: Option<usize>,
    meta: ConditionMetadata,
) -> (outcome: Result<(), PlanError>)
    requires
        meta.valid_in(old(program)@),
    ensures
        compiled(
            in_list_items_code(
                old(program)@,
                *select,
                not,
                Expression::models(list@),
                lhs_reg,
                cursor_hint,
                meta,
            ),
            outcome,
            final(program)@,
        ),
{
    let ghost items = Expression::models(list@);
    proof {
        program.lemma_bounded();
    }
    let found = if meta.jump_if_condition_is_true {
        meta.jump_target_when_true
    } else {
        program.allocate_label()
    };
    let ghost start = program@;
    let mut i: usize = 0;
    if not {
        while i < list.len()
            invariant
                i <= list.len(),
                program@.labels == start.labels,
                not_in_items_code(start, *select, items, 0, lhs_reg, cursor_hint, meta)
                    == not_in_items_code(program@, *select, items, i as int, lhs_reg, cursor_hint, meta),
            decreases list.len() - i,
        {
            assert(items[i as int] == list@[i as int]@);
            let rhs_reg = program.alloc_register()?;
            proof {
                lemma_operand_code(program@, *select, items[i as int], rhs_reg, cursor_hint);
            }
            translate_expr(program, select, &list[i], rhs_reg, cursor_hint)?;
            program.emit_insn_with_label_dependency(
                Insn::Eq { lhs: lhs_reg, rhs: rhs_reg, target_pc: meta.jump_target_when_false },
                meta.jump_target_when_false,
            );
            i = i + 1;
        }
    } else {
        while i < list.len()
            invariant
                i <= list.len(),
                program@.labels == start.labels,
                in_items_code(start, *select, items, 0, lhs_reg, found, cursor_hint, meta)
                    == in_items_code(program@, *select, items, i as int, lhs_reg, found, cursor_hint, meta),
            decreases list.len() - i,
        {
            assert(items[i as int] == list@[i as int]@);
            let rhs_reg = program.alloc_register()?;
            proof {
                lemma_operand_code(program@, *select, items[i as int], rhs_reg, cursor_hint);
            }
            translate_expr(program, select, &list[i], rhs_reg, cursor_hint)?;
            if i < list.len() - 1 {
                program.emit_insn_with_label_dependency(
                    Insn::Eq { lhs: lhs_reg, rhs: rhs_reg, target_pc: found },
                    found,
                );
            } else {
                program.emit_insn_with_label_dependency(
                    Insn::Ne { lhs: lhs_reg, rhs: rhs_reg, target_pc: meta.jump_target_when_false },
                    meta.jump_target_when_false,
                );
            }
            i = i + 1;
        }
    }
    emit_goto_when_true(program, meta);
    if !meta.jump_if_condition_is_true {
        let here = program.offset();
        program.resolve_label(found, here);
    }
    Ok(())
}

/// Emits the code of `lhs [NOT] IN (rhs)`.
fn translate_in_list(
    program: &mut ProgramBuilder,
    select: &Select,
    lhs: &Expression,
    not: bool,
    rhs: &Option<Vec<Expression>>,
    cursor_hint: Option<usize>,
    meta: ConditionMetadata,
) -> (outcome: Result<(), PlanError>)
    requires
        meta.valid_in(old(program)@),
    ensures
        compiled(
            in_list_code(
                old(program)@,
                *select,
                lhs@,
                not,
                match rhs {
                    Some(list) => Some(Expression::models(list@)),
                    None => None,
                },
                cursor_hint,
                meta,
            ),
            outcome,
            final(program)@,
        ),
{
    let lhs_reg = program.alloc_register()?;
    proof {
        lemma_operand_code(program@, *select, lhs@, lhs_reg, cursor_hint);
    }
    translate_expr(program, select, lhs, lhs_reg, cursor_hint)?;
    match rhs {
        None => {
            if not {
                emit_goto_when_true(program, meta);
            } else {
                emit_goto_when_false(program, meta);
            }
            Ok(())
        },
        Some(list) => translate_in_list_items(program, select, not, list, lhs_reg, cursor_hint, meta),
    }
}

/// Emits the short-circuit branch code of a condition.
///
/// The targets of `condition_metadata` have to be labels of the program.
/// The program that results is the one that [`condition_code`] describes.
/// It continues the program before the call; every label handed out for
/// the condition is bound; and the new instructions refer to those labels
/// and to the two targets only. A shape that is not compiled, an operand
/// that cannot be resolved and the exhaustion of registers end the
/// compilation with the error that [`condition_code`] describes; the
/// program is then of no use.
pub fn translate_condition_expr(
    program: &mut ProgramBuilder,
    select: &Select,
    expr: &Expression,
    cursor_hint: Option<usize>,
    condition_metadata: ConditionMetadata,
) -> (outcome: Result<(), PlanError>)
    requires
        condition_metadata.valid_in(old(program)@),
    ensures
        compiled(
            condition_code(old(program)@, *select, expr@, cursor_hint, condition_metadata),
            outcome,
            final(program)@,
        ),
        outcome is Ok ==> encloses(old(program)@, final(program)@, condition_metadata),
{
    proof {
        lemma_condition_code(program@, *select, expr@, cursor_hint, condition_metadata);
    }
    let outcome = translate_condition(program, select, expr, cursor_hint, condition_metadata);
    proof {
        program.lemma_bounded();
    }
    outcome
}

/// Emits the code of a condition as [`condition_code`] describes it.
fn translate_condition(
    program: &mut ProgramBuilder,
    select: &Select,
    expr: &Expression,
    cursor_hint: Option<usize>,
    condition_metadata: ConditionMetadata,
) -> (outcome: Result<(), PlanError>)
    requires
        condition_metadata.valid_in(old(program)@),
    ensures
        compiled(
            condition_code(old(program)@, *select, expr@, cursor_hint, condition_metadata),
            outcome,
            final(program)@,
        ),
    decreases expr,
{
    match expr {
        Expression::Between { .. } => Err(PlanError::NotImplemented(Unsupported::Between)),
        Expression::Binary(lhs, op, rhs) => match op {
            BinaryOperator::And => {
                // The left side never branches on truth: the right side has
                // to hold as well.
                let first = ConditionMetadata {
                    jump_if_condition_is_true: false,
                    jump_target_when_true: condition_metadata.jump_target_when_true,
                    jump_target_when_false: condition_metadata.jump_target_when_false,
                };
                let ghost before = program@;
                translate_condition(program, select, lhs, cursor_hint, first)?;
                proof {
                    program.lemma_bounded();
                    lemma_condition_code(before, *select, lhs@, cursor_hint, first);
                }
                translate_condition(program, select, rhs, cursor_hint, condition_metadata)
            },
            BinaryOperator::Or => {
                // Where the left side holds, the right side is skipped; where
                // it fails, control falls through to the right side.
                let local_false = program.allocate_label();
                let first = ConditionMetadata {
                    jump_if_condition_is_true: true,
                    jump_target_when_true: condition_metadata.jump_target_when_true,
                    jump_target_when_false: local_false,
                };
                let ghost before = program@;
                proof {
                    program.lemma_bounded();
                }
                translate_condition(program, select, lhs, cursor_hint, first)?;
                proof {
                    program.lemma_bounded();
                    lemma_condition_code(before, *select, lhs@, cursor_hint, first);
                    assert(program@.labels[local_false->Label_0 as int] == before.labels[
                        local_false->Label_0 as int
                    ]);
                }
                let here = program.offset();
                program.resolve_label(local_false, here);
                translate_condition(program, select, rhs, cursor_hint, condition_metadata)
            },
            _ => translate_comparison(program, select, lhs, *op, rhs, cursor_hint, condition_metadata),
        },
        Expression::Literal(literal) => translate_literal(program, literal, condition_metadata),
        Expression::InList { lhs, not, rhs } => translate_in_list(
            program,
            select,
            lhs,
            *not,
            rhs,
            cursor_hint,
            condition_metadata,
        ),
        Expression::Like { lhs, not, op, rhs, escape: _ } => translate_like(
            program,
            select,
            lhs,
            *not,
            *op,
            rhs,
            cursor_hint,
            condition_metadata,
        ),
        _ => Err(PlanError::NotImplemented(Unsupported::Condition)),
    }
}

} // verus!

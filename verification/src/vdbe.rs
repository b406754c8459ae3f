//! The instructions of the virtual machine and the builder that collects them.
//!
//! A program is built in two phases. Instructions are appended in program
//! order; a branch whose target is not yet known names a label, and the
//! builder records that dependency. A label is bound to an offset later, at
//! most once. The builder keeps the table of labels beside the instructions,
//! so that a branch can be patched once its label is bound.

use crate::error::{result_view, ErrorView, PlanError};
use vstd::prelude::*;

verus! {

/// Scalar functions that compiled conditions call.
#[derive(Clone, Copy, Debug, PartialEq, Eq, Structural)]
pub enum ScalarFunc {
    /// `like(pattern, subject)`
    Like,
}

/// The target of a branch: a label that stands for an offset not yet known,
/// or the offset of an instruction.
#[derive(Clone, Copy, Debug, PartialEq, Eq, Structural)]
pub enum BranchOffset {
    /// The label with this number.
    Label(usize),
    /// The instruction at this position.
    Offset(usize),
}

/// An instruction of the virtual machine.
#[derive(Clone, Debug, PartialEq, Eq)]
#[allow(inconsistent_fields)]
pub enum Insn {
    /// Write an integer into a register.
    Integer { value: i64, dest: usize },
    /// Write a string into a register.
    String8 { value: String, dest: usize },
    /// Read a column of the row under a cursor into a register.
    Column { cursor_id: usize, column: usize, dest: usize },
    /// Branch if `lhs == rhs`.
    Eq { lhs: usize, rhs: usize, target_pc: BranchOffset },
    /// Branch if `lhs != rhs`.
    Ne { lhs: usize, rhs: usize, target_pc: BranchOffset },
    /// Branch if `lhs < rhs`.
    Lt { lhs: usize, rhs: usize, target_pc: BranchOffset },
    /// Branch if `lhs <= rhs`.
    Le { lhs: usize, rhs: usize, target_pc: BranchOffset },
    /// Branch if `lhs > rhs`.
    Gt { lhs: usize, rhs: usize, target_pc: BranchOffset },
    /// Branch if `lhs >= rhs`.
    Ge { lhs: usize, rhs: usize, target_pc: BranchOffset },
    /// Branch if the register holds a true value.
    If { reg: usize, target_pc: BranchOffset, null_reg: usize },
    /// Branch if the register holds a false value.
    IfNot { reg: usize, target_pc: BranchOffset, null_reg: usize },
    /// Branch always.
    Goto { target_pc: BranchOffset },
    /// Call a scalar function on the registers from `start_reg` on.
    Function { func: ScalarFunc, start_reg: usize, dest: usize },
}

/// The mathematical value of an [`Insn`].
#[allow(inconsistent_fields)]
pub enum InsnView {
    Integer { value: i64, dest: usize },
    String8 { value: Seq<char>, dest: usize },
    Column { cursor_id: usize, column: usize, dest: usize },
    Eq { lhs: usize, rhs: usize, target_pc: BranchOffset },
    Ne { lhs: usize, rhs: usize, target_pc: BranchOffset },
    Lt { lhs: usize, rhs: usize, target_pc: BranchOffset },
    Le { lhs: usize, rhs: usize, target_pc: BranchOffset },
    Gt { lhs: usize, rhs: usize, target_pc: BranchOffset },
    Ge { lhs: usize, rhs: usize, target_pc: BranchOffset },
    If { reg: usize, target_pc: BranchOffset, null_reg: usize },
    IfNot { reg: usize, target_pc: BranchOffset, null_reg: usize },
    Goto { target_pc: BranchOffset },
    Function { func: ScalarFunc, start_reg: usize, dest: usize },
}

impl View for Insn {
    type V = InsnView;

    open spec fn view(&self) -> InsnView {
        match self {
            Insn::Integer { value, dest } => InsnView::Integer { value: *value, dest: *dest },
            Insn::String8 { value, dest } => InsnView::String8 { value: value@, dest: *dest },
            Insn::Column { cursor_id, column, dest } => InsnView::Column {
                cursor_id: *cursor_id,
                column: *column,
                dest: *dest,
            },
            Insn::Eq { lhs, rhs, target_pc } => InsnView::Eq {
                lhs: *lhs,
                rhs: *rhs,
                target_pc: *target_pc,
            },
            Insn::Ne { lhs, rhs, target_pc } => InsnView::Ne {
                lhs: *lhs,
                rhs: *rhs,
                target_pc: *target_pc,
            },
            Insn::Lt { lhs, rhs, target_pc } => InsnView::Lt {
                lhs: *lhs,
                rhs: *rhs,
                target_pc: *target_pc,
            },
            Insn::Le { lhs, rhs, target_pc } => InsnView::Le {
                lhs: *lhs,
                rhs: *rhs,
                target_pc: *target_pc,
            },
            Insn::Gt { lhs, rhs, target_pc } => InsnView::Gt {
                lhs: *lhs,
                rhs: *rhs,
                target_pc: *target_pc,
            },
            Insn::Ge { lhs, rhs, target_pc } => InsnView::Ge {
                lhs: *lhs,
                rhs: *rhs,
                target_pc: *target_pc,
            },
            Insn::If { reg, target_pc, null_reg } => InsnView::If {
                reg: *reg,
                target_pc: *target_pc,
                null_reg: *null_reg,
            },
            Insn::IfNot { reg, target_pc, null_reg } => InsnView::IfNot {
                reg: *reg,
                target_pc: *target_pc,
                null_reg: *null_reg,
            },
            Insn::Goto { target_pc } => InsnView::Goto { target_pc: *target_pc },
            Insn::Function { func, start_reg, dest } => InsnView::Function {
                func: *func,
                start_reg: *start_reg,
                dest: *dest,
            },
        }
    }
}

impl InsnView {
    /// The instruction with its branch target replaced by `target`; an
    /// instruction that does not branch is its own result.
    pub open spec fn with_target(self, target: BranchOffset) -> InsnView {
        match self {
            InsnView::Eq { lhs, rhs, .. } => InsnView::Eq { lhs, rhs, target_pc: target },
            InsnView::Ne { lhs, rhs, .. } => InsnView::Ne { lhs, rhs, target_pc: target },
            InsnView::Lt { lhs, rhs, .. } => InsnView::Lt { lhs, rhs, target_pc: target },
            InsnView::Le { lhs, rhs, .. } => InsnView::Le { lhs, rhs, target_pc: target },
            InsnView::Gt { lhs, rhs, .. } => InsnView::Gt { lhs, rhs, target_pc: target },
            InsnView::Ge { lhs, rhs, .. } => InsnView::Ge { lhs, rhs, target_pc: target },
            InsnView::If { reg, null_reg, .. } => InsnView::If { reg, target_pc: target, null_reg },
            InsnView::IfNot { reg, null_reg, .. } => InsnView::IfNot {
                reg,
                target_pc: target,
                null_reg,
            },
            InsnView::Goto { .. } => InsnView::Goto { target_pc: target },
            other => other,
        }
    }
}

impl Insn {
    /// A copy of the instruction with its branch target replaced by
    /// `target` where one is given.
    fn patched(&self, target: Option<BranchOffset>) -> (copy: Insn)
        ensures
            copy@ == match target {
                Some(target) => self@.with_target(target),
                None => self@,
            },
    {
        match self {
            Insn::Integer { value, dest } => Insn::Integer { value: *value, dest: *dest },
            Insn::String8 { value, dest } => Insn::String8 { value: value.clone(), dest: *dest },
            Insn::Column { cursor_id, column, dest } => Insn::Column {
                cursor_id: *cursor_id,
                column: *column,
                dest: *dest,
            },
            Insn::Eq { lhs, rhs, target_pc } => Insn::Eq {
                lhs: *lhs,
                rhs: *rhs,
                target_pc: target.unwrap_or(*target_pc),
            },
            Insn::Ne { lhs, rhs, target_pc } => Insn::Ne {
                lhs: *lhs,
                rhs: *rhs,
                target_pc: target.unwrap_or(*target_pc),
            },
            Insn::Lt { lhs, rhs, target_pc } => Insn::Lt {
                lhs: *lhs,
                rhs: *rhs,
                target_pc: target.unwrap_or(*target_pc),
            },
            Insn::Le { lhs, rhs, target_pc } => Insn::Le {
                lhs: *lhs,
                rhs: *rhs,
                target_pc: target.unwrap_or(*target_pc),
            },
            Insn::Gt { lhs, rhs, target_pc } => Insn::Gt {
                lhs: *lhs,
                rhs: *rhs,
                target_pc: target.unwrap_or(*target_pc),
            },
            Insn::Ge { lhs, rhs, target_pc } => Insn::Ge {
                lhs: *lhs,
                rhs: *rhs,
                target_pc: target.unwrap_or(*target_pc),
            },
            Insn::If { reg, target_pc, null_reg } => Insn::If {
                reg: *reg,
                target_pc: target.unwrap_or(*target_pc),
                null_reg: *null_reg,
            },
            Insn::IfNot { reg, target_pc, null_reg } => Insn::IfNot {
                reg: *reg,
                target_pc: target.unwrap_or(*target_pc),
                null_reg: *null_reg,
            },
            Insn::Goto { target_pc } => Insn::Goto { target_pc: target.unwrap_or(*target_pc) },
            Insn::Function { func, start_reg, dest } => Insn::Function {
                func: *func,
                start_reg: *start_reg,
                dest: *dest,
            },
        }
    }
}

/// An instruction in the program, with what the builder recorded about it.
pub struct Emitted {
    /// The instruction.
    pub insn: InsnView,
    /// The label that the instruction refers forward to, if any.
    pub label: Option<BranchOffset>,
    /// Whether the instruction computes a constant and may be hoisted.
    pub constant: bool,
}

/// The mathematical value of a [`ProgramBuilder`].
pub struct ProgramState {
    /// How many registers have been handed out; the next one has this number.
    pub registers: nat,
    /// The instructions emitted so far, in program order.
    pub code: Seq<Emitted>,
    /// For each label handed out, the offset that it is bound to, if it is.
    pub labels: Seq<Option<usize>>,
}

impl ProgramState {
    /// The state of a builder that has emitted nothing.
    pub open spec fn empty() -> ProgramState {
        ProgramState { registers: 0, code: Seq::empty(), labels: Seq::empty() }
    }

    /// Whether a register can still be handed out.
    pub open spec fn has_register(self) -> bool {
        self.registers < usize::MAX
    }

    /// The state after one more register has been handed out.
    pub open spec fn with_register(self) -> ProgramState {
        ProgramState { registers: self.registers + 1, ..self }
    }

    /// The label that is handed out next.
    pub open spec fn next_label(self) -> BranchOffset {
        BranchOffset::Label(self.labels.len() as usize)
    }

    /// The state after one more label has been handed out.
    pub open spec fn with_label(self) -> ProgramState {
        ProgramState { labels: self.labels.push(None), ..self }
    }

    /// Whether `target` is a label that this builder has handed out.
    pub open spec fn is_label(self, target: BranchOffset) -> bool {
        target matches BranchOffset::Label(n) && n < self.labels.len()
    }

    /// The offset that `target` is bound to, where it is a bound label of
    /// this builder.
    pub open spec fn binding(self, target: BranchOffset) -> Option<usize> {
        match target {
            BranchOffset::Label(n) => if n < self.labels.len() {
                self.labels[n as int]
            } else {
                None
            },
            BranchOffset::Offset(_) => None,
        }
    }

    /// Whether `target` is a label of this builder that is bound to an offset.
    pub open spec fn is_resolved(self, target: BranchOffset) -> bool {
        self.binding(target) is Some
    }

    /// Whether `target` is a label of this builder that is not yet bound.
    pub open spec fn is_unresolved(self, target: BranchOffset) -> bool {
        target matches BranchOffset::Label(n) && n < self.labels.len() && self.labels[n as int] is None
    }

    /// The offset of the instruction that is emitted next.
    pub open spec fn offset(self) -> BranchOffset {
        BranchOffset::Offset(self.code.len() as usize)
    }

    /// The state after `label` has been bound to `to`.
    pub open spec fn resolve(self, label: BranchOffset, to: BranchOffset) -> ProgramState {
        match (label, to) {
            (BranchOffset::Label(n), BranchOffset::Offset(at)) => ProgramState {
                labels: self.labels.update(n as int, Some(at)),
                ..self
            },
            _ => self,
        }
    }

    /// The state after an instruction without a label has been appended.
    pub open spec fn emit(self, insn: InsnView) -> ProgramState {
        ProgramState {
            code: self.code.push(Emitted { insn, label: None, constant: false }),
            ..self
        }
    }

    /// The state after an instruction that refers to `label` has been appended.
    pub open spec fn emit_with_label(self, insn: InsnView, label: BranchOffset) -> ProgramState {
        ProgramState {
            code: self.code.push(Emitted { insn, label: Some(label), constant: false }),
            ..self
        }
    }

    /// The state after the last instruction has been marked as a constant.
    pub open spec fn mark_last_constant(self) -> ProgramState {
        if self.code.len() > 0 {
            ProgramState {
                code: self.code.update(
                    self.code.len() - 1,
                    Emitted { constant: true, ..self.code.last() },
                ),
                ..self
            }
        } else {
            self
        }
    }

    /// The instruction at a position as it stands in the finished program:
    /// where it refers to a label, its target is the offset that the label
    /// is bound to.
    pub open spec fn finished(self, at: int) -> InsnView {
        match self.code[at].label {
            Some(label) => match self.binding(label) {
                Some(offset) => self.code[at].insn.with_target(BranchOffset::Offset(offset)),
                None => self.code[at].insn,
            },
            None => self.code[at].insn,
        }
    }

    /// Whether every label that an instruction from `from` on refers to is
    /// bound, but for the labels in `open`.
    pub open spec fn closed_from(self, from: int, open: Set<BranchOffset>) -> bool {
        forall|i: int|
            from <= i < self.code.len() ==> ((#[trigger] self.code[i]).label matches Some(label)
                ==> open.contains(label) || self.is_resolved(label))
    }
}

/// What a builder recorded for one instruction.
struct Slot {
    insn: Insn,
    label: Option<BranchOffset>,
    constant: bool,
}

impl View for Slot {
    type V = Emitted;

    closed spec fn view(&self) -> Emitted {
        Emitted { insn: self.insn@, label: self.label, constant: self.constant }
    }
}

/// Collects the instructions of a program, hands out registers and labels,
/// and keeps the table that binds labels to offsets.
pub struct ProgramBuilder {
    next_free_register: usize,
    insns: Vec<Slot>,
    labels: Vec<Option<usize>>,
}

impl View for ProgramBuilder {
    type V = ProgramState;

    closed spec fn view(&self) -> ProgramState {
        ProgramState {
            registers: self.next_free_register as nat,
            code: Seq::new(self.insns@.len(), |i: int| self.insns@[i]@),
            labels: self.labels@,
        }
    }
}

impl ProgramBuilder {
    /// A builder that has emitted nothing.
    pub fn new() -> (program: ProgramBuilder)
        ensures
            program@ == ProgramState::empty(),
    {
        let program = ProgramBuilder {
            next_free_register: 0,
            insns: Vec::new(),
            labels: Vec::new()
        };
        assert(program@.code =~= Seq::empty());
        program
    }

    /// Hands out the next register; registers are numbered from zero and
    /// never handed out twice. Fails only when the numbers are used up.
    pub fn alloc_register(&mut self) -> (register: Result<usize, PlanError>)
        ensures
            old(self)@.has_register() ==> register == Ok::<usize, PlanError>(
                old(self)@.registers as usize,
            ) && final(self)@ == old(self)@.with_register(),
            !old(self)@.has_register() ==> result_view(register) == Err::<usize, ErrorView>(
                ErrorView::OutOfRegisters,
            ) && final(self)@ == old(self)@,
    {
        if self.next_free_register < usize::MAX {
            let register = self.next_free_register;
            self.next_free_register = register + 1;
            Ok(register)
        } else {
            Err(PlanError::OutOfRegisters)
        }
    }

    /// Hands out a fresh label, not yet bound to an offset.
    pub fn allocate_label(&mut self) -> (label: BranchOffset)
        ensures
            label == old(self)@.next_label(),
            final(self)@ == old(self)@.with_label(),
    {
        let label = BranchOffset::Label(self.labels.len());
        self.labels.push(None);
        label
    }

    /// Binds a label to an offset. A label is bound at most once.
    pub fn resolve_label(&mut self, label: BranchOffset, to_offset: BranchOffset)
        requires
            old(self)@.is_unresolved(label),
            to_offset is Offset,
        ensures
            final(self)@ == old(self)@.resolve(label, to_offset),
    {
        match (label, to_offset) {
            (BranchOffset::Label(n), BranchOffset::Offset(at)) => {
                self.labels.set(n, Some(at));
            },
            _ => {},
        }
    }

    /// The offset of the instruction that is emitted next.
    pub fn offset(&self) -> (offset: BranchOffset)
        ensures
            offset == self@.offset(),
    {
        BranchOffset::Offset(self.insns.len())
    }

    /// Appends an instruction that refers to no label.
    pub fn emit_insn(&mut self, insn: Insn)
        ensures
            final(self)@ == old(self)@.emit(insn@),
    {
        self.insns.push(Slot { insn, label: None, constant: false });
        assert(self@.code =~= old(self)@.emit(insn@).code);
    }

    /// Appends an instruction and records that it refers forward to `label`.
    pub fn emit_insn_with_label_dependency(&mut self, insn: Insn, label: BranchOffset)
        requires
            old(self)@.is_label(label),
        ensures
            final(self)@ == old(self)@.emit_with_label(insn@, label),
    {
        self.insns.push(Slot { insn, label: Some(label), constant: false });
        assert(self@.code =~= old(self)@.emit_with_label(insn@, label).code);
    }

    /// Marks the instruction emitted last as one that computes a constant.
    pub fn mark_last_insn_constant(&mut self)
        requires
            old(self)@.code.len() > 0,
        ensures
            final(self)@ == old(self)@.mark_last_constant(),
    {
        let last = self.insns.len() - 1;
        let slot = self.insns.pop().unwrap();
        self.insns.push(Slot { insn: slot.insn, label: slot.label, constant: true });
        assert(self@.code =~= old(self)@.mark_last_constant().code);
    }

    /// Whether every label that an instruction refers to is bound, so that
    /// the program can be finished.
    pub fn is_closed(&self) -> (closed: bool)
        ensures
            closed == self@.closed_from(0, Set::empty()),
    {
        let mut i: usize = 0;
        while i < self.insns.len()
            invariant
                i <= self.insns.len(),
                forall|j: int|
                    0 <= j < i ==> ((#[trigger] self@.code[j]).label matches Some(label)
                        ==> self@.is_resolved(label)),
            decreases self.insns.len() - i,
        {
            assert(self@.code[i as int] == self.insns@[i as int]@);
            match self.insns[i].label {
                Some(label) => {
                    if self.resolved_offset(label).is_none() {
                        assert(!Set::<BranchOffset>::empty().contains(label));
                        return false;
                    }
                },
                None => {},
            }
            i = i + 1;
        }
        true
    }

    /// The finished program: the instructions in program order, each
    /// branch aimed at the offset that its label is bound to. Every label
    /// that an instruction refers to has to be bound.
    pub fn build(&self) -> (program: Vec<Insn>)
        requires
            self@.closed_from(0, Set::empty()),
        ensures
            program@.len() == self@.code.len(),
            forall|i: int| 0 <= i < program@.len() ==> (#[trigger] program@[i])@ == self@.finished(i),
    {
        let mut program: Vec<Insn> = Vec::new();
        let mut i: usize = 0;
        while i < self.insns.len()
            invariant
                i <= self.insns.len(),
                program@.len() == i,
                self@.closed_from(0, Set::empty()),
                forall|j: int| 0 <= j < i ==> (#[trigger] program@[j])@ == self@.finished(j),
            decreases self.insns.len() - i,
        {
            assert(self@.code[i as int] == self.insns@[i as int]@);
            let target = match self.insns[i].label {
                Some(label) => match self.resolved_offset(label) {
                    Some(offset) => Some(BranchOffset::Offset(offset)),
                    None => None,
                },
                None => None,
            };
            program.push(self.insns[i].insn.patched(target));
            i = i + 1;
        }
        program
    }

    /// The view of a builder holds no more labels, instructions or
    /// registers than a machine word counts.
    pub proof fn lemma_bounded(self)
        ensures
            self@.registers <= usize::MAX,
            self@.code.len() <= usize::MAX,
            self@.labels.len() <= usize::MAX,
    {
        assert(self.insns@.len() == self.insns.len());
        assert(self.labels@.len() == self.labels.len());
    }

    /// How many registers have been handed out.
    pub fn register_count(&self) -> (count: usize)
        ensures
            count == self@.registers,
    {
        self.next_free_register
    }

    /// How many labels have been handed out.
    pub fn label_count(&self) -> (count: usize)
        ensures
            count == self@.labels.len(),
    {
        self.labels.len()
    }

    /// How many instructions have been emitted.
    pub fn insn_count(&self) -> (count: usize)
        ensures
            count == self@.code.len(),
    {
        self.insns.len()
    }

    /// The instruction at a position of the program.
    pub fn insn(&self, at: usize) -> (insn: &Insn)
        requires
            at < self@.code.len(),
        ensures
            insn@ == self@.code[at as int].insn,
    {
        &self.insns[at].insn
    }

    /// The label that the instruction at a position refers forward to.
    pub fn label_dependency(&self, at: usize) -> (label: Option<BranchOffset>)
        requires
            at < self@.code.len(),
        ensures
            label == self@.code[at as int].label,
    {
        self.insns[at].label
    }

    /// Whether the instruction at a position is marked as a constant.
    pub fn is_constant(&self, at: usize) -> (constant: bool)
        requires
            at < self@.code.len(),
        ensures
            constant == self@.code[at as int].constant,
    {
        self.insns[at].constant
    }

    /// Whether a target is a label that this builder has handed out.
    pub fn has_label(&self, target: BranchOffset) -> (known: bool)
        ensures
            known == self@.is_label(target),
    {
        match target {
            BranchOffset::Label(n) => n < self.labels.len(),
            BranchOffset::Offset(_) => false,
        }
    }

    /// The offset that a label is bound to; none for an unbound label and for
    /// a target that is no label of this builder.
    pub fn resolved_offset(&self, label: BranchOffset) -> (offset: Option<usize>)
        ensures
            offset == self@.binding(label),
    {
        match label {
            BranchOffset::Label(n) => {
                if n < self.labels.len() {
                    self.labels[n]
                } else {
                    None
                }
            },
            BranchOffset::Offset(_) => None,
        }
    }
}

} // verus!

//! What the virtual machine does, as mathematics: the state of the machine
//! and the effect of one instruction on it.

use vstd::prelude::*;
use crate::codegen::operand16;
use crate::number::number_neg;
use crate::opcode::{opcode_of, operand_width, OpCode};
use crate::value::{falsey, orderable, value_greater, value_less, values_equal, ValueView};
use crate::vm::{InterpretResult, STACK_MAX};

verus! {

/// The state of the machine.
pub struct MachineView {
    pub code: Seq<u8>,
    pub constants: Seq<ValueView>,
    /// The offset of the next instruction.
    pub ip: int,
    pub stack: Seq<ValueView>,
    pub globals: Map<Seq<char>, ValueView>,
    /// The message of the last runtime error.
    pub message: Seq<char>,
}

/// What the machine hands to its host after an instruction.
pub enum StepView {
    /// Nothing; the run goes on.
    Continue,
    /// A value to print, followed by a line feed.
    Print(ValueView),
    /// An arithmetic instruction and its two operands, numbers both: the
    /// host computes the result and hands it back.
    Arithmetic(OpCode, u64, u64),
    /// The run has ended.
    Done(InterpretResult),
}

/// The report of a runtime error: its message, and the line of the script
/// at which it happened. The machine keeps no record of lines and reports
/// line 0.
pub open spec fn error_report(message: Seq<char>) -> Seq<char> {
    message + "\n[line 0] in script\n"@
}

/// The message of the runtime error for a global that was never defined.
pub open spec fn undefined_variable(name: Seq<char>) -> Seq<char> {
    "Undefined variable '"@ + name + "'."@
}

impl MachineView {
    /// A runtime error: the stack is unwound and the run ends.
    pub open spec fn fail(self, message: Seq<char>) -> (MachineView, StepView) {
        (
            MachineView { stack: Seq::empty(), message, ..self },
            StepView::Done(InterpretResult::InterpretRuntimeError),
        )
    }

    /// The one-byte operand of the instruction at `ip`.
    pub open spec fn operand(self) -> u8 {
        self.code[self.ip + 1]
    }

    /// The two-byte operand of the instruction at `ip`, high byte first.
    pub open spec fn distance(self) -> int {
        operand16(self.code[self.ip + 1], self.code[self.ip + 2])
    }

    /// The same state at the instruction `width` operand bytes further on.
    pub open spec fn next(self, width: int) -> MachineView {
        MachineView { ip: self.ip + 1 + width, ..self }
    }

    /// The value `d` places below the top of the stack.
    pub open spec fn peek(self, d: int) -> ValueView {
        self.stack[self.stack.len() - 1 - d]
    }

    /// The stack without its top `n` values.
    pub open spec fn drop(self, n: int) -> MachineView {
        MachineView { stack: self.stack.take(self.stack.len() - n), ..self }
    }

    /// Pushes a value and goes on to the next instruction; a runtime error
    /// where the stack is full.
    pub open spec fn push(self, v: ValueView, width: int) -> (MachineView, StepView) {
        if self.stack.len() >= STACK_MAX {
            self.fail("Stack overflow."@)
        } else {
            (MachineView { stack: self.stack.push(v), ..self }.next(width), StepView::Continue)
        }
    }

    /// The text of the constant that the operand names, if it is a text.
    pub open spec fn name(self) -> Option<Seq<char>> {
        if self.operand() < self.constants.len() {
            match self.constants[self.operand() as int] {
                ValueView::Text(s) => Some(s),
                _ => None,
            }
        } else {
            None
        }
    }

    pub open spec fn op_constant(self) -> (MachineView, StepView) {
        if self.operand() < self.constants.len() {
            self.push(self.constants[self.operand() as int], 1)
        } else {
            self.fail("Malformed bytecode."@)
        }
    }

    pub open spec fn op_pop(self) -> (MachineView, StepView) {
        if self.stack.len() < 1 {
            self.fail("Stack underflow."@)
        } else {
            (self.drop(1).next(0), StepView::Continue)
        }
    }

    pub open spec fn op_pop_n(self) -> (MachineView, StepView) {
        if self.stack.len() < self.operand() {
            self.fail("Stack underflow."@)
        } else {
            (self.drop(self.operand() as int).next(1), StepView::Continue)
        }
    }

    pub open spec fn op_get_local(self) -> (MachineView, StepView) {
        if self.operand() < self.stack.len() {
            self.push(self.stack[self.operand() as int], 1)
        } else {
            self.fail("Stack underflow."@)
        }
    }

    pub open spec fn op_set_local(self) -> (MachineView, StepView) {
        if self.operand() < self.stack.len() {
            (
                MachineView {
                    stack: self.stack.update(self.operand() as int, self.peek(0)),
                    ..self
                }.next(1),
                StepView::Continue,
            )
        } else {
            self.fail("Stack underflow."@)
        }
    }

    pub open spec fn op_get_global(self) -> (MachineView, StepView) {
        match self.name() {
            None => self.fail("Malformed bytecode."@),
            Some(name) => if self.globals.contains_key(name) {
                self.push(self.globals[name], 1)
            } else {
                self.fail(undefined_variable(name))
            },
        }
    }

    pub open spec fn op_define_global(self) -> (MachineView, StepView) {
        match self.name() {
            None => self.fail("Malformed bytecode."@),
            Some(name) => if self.stack.len() < 1 {
                self.fail("Stack underflow."@)
            } else {
                (
                    MachineView {
                        globals: self.globals.insert(name, self.peek(0)),
                        ..self
                    }.drop(1).next(1),
                    StepView::Continue,
                )
            },
        }
    }

    pub open spec fn op_set_global(self) -> (MachineView, StepView) {
        match self.name() {
            None => self.fail("Malformed bytecode."@),
            Some(name) => if self.stack.len() < 1 {
                self.fail("Stack underflow."@)
            } else if !self.globals.contains_key(name) {
                self.fail(undefined_variable(name))
            } else {
                (
                    MachineView {
                        globals: self.globals.insert(name, self.peek(0)),
                        ..self
                    }.next(1),
                    StepView::Continue,
                )
            },
        }
    }

    pub open spec fn op_equal(self) -> (MachineView, StepView) {
        if self.stack.len() < 2 {
            self.fail("Stack underflow."@)
        } else {
            self.drop(2).push(ValueView::Boolean(values_equal(self.peek(1), self.peek(0))), 0)
        }
    }

    /// `OP_LESS` where `greater` is false, `OP_GREATER` where it is true.
    pub open spec fn op_compare(self, greater: bool) -> (MachineView, StepView) {
        if self.stack.len() < 2 {
            self.fail("Stack underflow."@)
        } else if !orderable(self.peek(1), self.peek(0)) {
            self.fail("Operands must be two numbers or two strings"@)
        } else {
            self.drop(2).push(
                ValueView::Boolean(
                    if greater {
                        value_greater(self.peek(1), self.peek(0))
                    } else {
                        value_less(self.peek(1), self.peek(0))
                    },
                ),
                0,
            )
        }
    }

    pub open spec fn op_add(self) -> (MachineView, StepView) {
        if self.stack.len() < 2 {
            self.fail("Stack underflow."@)
        } else {
            match (self.peek(1), self.peek(0)) {
                (ValueView::Number(l), ValueView::Number(r)) => (
                    self.drop(2).next(0),
                    StepView::Arithmetic(OpCode::OpAdd, l, r),
                ),
                (ValueView::Text(l), ValueView::Text(r)) => self.drop(2).push(
                    ValueView::Text(l + r),
                    0,
                ),
                _ => self.fail("Operands must be two numbers or two strings"@),
            }
        }
    }

    /// `OP_SUBTRACT`, `OP_MULTIPLE` and `OP_DIVIDE`.
    pub open spec fn op_arithmetic(self, op: OpCode) -> (MachineView, StepView) {
        if self.stack.len() < 2 {
            self.fail("Stack underflow."@)
        } else {
            match (self.peek(1), self.peek(0)) {
                (ValueView::Number(l), ValueView::Number(r)) => (
                    self.drop(2).next(0),
                    StepView::Arithmetic(op, l, r),
                ),
                _ => self.fail("Operands must be numbers"@),
            }
        }
    }

    pub open spec fn op_not(self) -> (MachineView, StepView) {
        if self.stack.len() < 1 {
            self.fail("Stack underflow."@)
        } else {
            self.drop(1).push(ValueView::Boolean(falsey(self.peek(0))), 0)
        }
    }

    pub open spec fn op_negate(self) -> (MachineView, StepView) {
        if self.stack.len() < 1 {
            self.fail("Stack underflow."@)
        } else {
            match self.peek(0) {
                ValueView::Number(n) => self.drop(1).push(ValueView::Number(number_neg(n)), 0),
                _ => self.fail("Operand must be a number."@),
            }
        }
    }

    pub open spec fn op_print(self) -> (MachineView, StepView) {
        if self.stack.len() < 1 {
            self.fail("Stack underflow."@)
        } else {
            (self.drop(1).next(0), StepView::Print(self.peek(0)))
        }
    }

    /// `OP_JUMP`: the distance is added to the offset of the next
    /// instruction, wherever that leads; only an offset that the machine
    /// cannot hold is a runtime error. Where the jump leads out of the
    /// code, the next instruction cannot be fetched.
    pub open spec fn op_jump(self) -> (MachineView, StepView) {
        if self.ip + 3 + self.distance() > usize::MAX {
            self.fail("Malformed bytecode."@)
        } else {
            (MachineView { ip: self.ip + 3 + self.distance(), ..self }, StepView::Continue)
        }
    }

    pub open spec fn op_jump_if_false(self) -> (MachineView, StepView) {
        if self.stack.len() < 1 {
            self.fail("Stack underflow."@)
        } else if falsey(self.peek(0)) {
            self.op_jump()
        } else {
            (self.next(2), StepView::Continue)
        }
    }

    pub open spec fn op_loop(self) -> (MachineView, StepView) {
        if self.distance() > self.ip + 3 {
            self.fail("Malformed bytecode."@)
        } else {
            (MachineView { ip: self.ip + 3 - self.distance(), ..self }, StepView::Continue)
        }
    }

    /// The effect of the instruction `op` at `ip`, whose operands lie
    /// inside the code.
    pub open spec fn execute(self, op: OpCode) -> (MachineView, StepView) {
        match op {
            OpCode::OpReturn => (self.next(0), StepView::Done(InterpretResult::InterpretOk)),
            OpCode::OpConstant => self.op_constant(),
            OpCode::OpNegate => self.op_negate(),
            OpCode::OpAdd => self.op_add(),
            OpCode::OpSubtract => self.op_arithmetic(op),
            OpCode::OpMultiple => self.op_arithmetic(op),
            OpCode::OpDivide => self.op_arithmetic(op),
            OpCode::OpNil => self.push(ValueView::Nil, 0),
            OpCode::OpTrue => self.push(ValueView::Boolean(true), 0),
            OpCode::OpFalse => self.push(ValueView::Boolean(false), 0),
            OpCode::OpNot => self.op_not(),
            OpCode::OpEqual => self.op_equal(),
            OpCode::OpGreater => self.op_compare(true),
            OpCode::OpLess => self.op_compare(false),
            OpCode::OpPrint => self.op_print(),
            OpCode::OpPop => self.op_pop(),
            OpCode::OpDefineGlobal => self.op_define_global(),
            OpCode::OpGetGlobal => self.op_get_global(),
            OpCode::OpSetGlobal => self.op_set_global(),
            OpCode::OpJumpIfFalse => self.op_jump_if_false(),
            OpCode::OpPopN => self.op_pop_n(),
            OpCode::OpGetLocal => self.op_get_local(),
            OpCode::OpSetLocal => self.op_set_local(),
            OpCode::OpJump => self.op_jump(),
            OpCode::OpLoop => self.op_loop(),
            OpCode::OpUnKnown => self.fail("Malformed bytecode."@),
        }
    }

    /// Whether the instruction at `ip` lies inside the code, operands
    /// included.
    pub open spec fn can_fetch(self) -> bool {
        0 <= self.ip < self.code.len() && self.ip + 1 + operand_width(opcode_of(self.code[self.ip]))
            <= self.code.len()
    }

    /// One instruction: the state after it and what the machine hands to
    /// its host. A runtime error where no whole instruction is left.
    pub open spec fn step(self) -> (MachineView, StepView) {
        if self.can_fetch() {
            self.execute(opcode_of(self.code[self.ip]))
        } else {
            self.fail("Malformed bytecode."@)
        }
    }

    /// The host hands back the result of an arithmetic instruction: it is
    /// pushed as a number.
    pub open spec fn resume(self, bits: u64) -> (MachineView, StepView) {
        if self.stack.len() >= STACK_MAX {
            self.fail("Stack overflow."@)
        } else {
            (
                MachineView { stack: self.stack.push(ValueView::Number(bits)), ..self },
                StepView::Continue,
            )
        }
    }

    /// Up to `budget` instructions: the machine stops when it has something
    /// for its host.
    pub open spec fn run(self, budget: nat) -> (MachineView, StepView)
        decreases budget,
    {
        if budget == 0 {
            (self, StepView::Continue)
        } else {
            let (next, step) = self.step();
            if step == StepView::Continue {
                next.run((budget - 1) as nat)
            } else {
                (next, step)
            }
        }
    }

    /// The state in which a chunk is started: the stack is empty, and the
    /// globals are kept.
    pub open spec fn load(self, code: Seq<u8>, constants: Seq<ValueView>) -> MachineView {
        MachineView { code, constants, ip: 0, stack: Seq::empty(), ..self }
    }
}

/// Discarding no values does nothing but go on to the next instruction.
pub proof fn lemma_pop_none(m: MachineView)
    requires
        m.can_fetch(),
        opcode_of(m.code[m.ip]) == OpCode::OpPopN,
        m.operand() == 0,
    ensures
        m.step() == (m.next(1), StepView::Continue),
{
    assert(m.stack.take(m.stack.len() - 0) =~= m.stack);
}

/// Discarding `k` values and then none is discarding `k` values: the
/// second instruction only moves on.
pub proof fn lemma_pop_then_pop_none(m: MachineView)
    requires
        m.can_fetch(),
        opcode_of(m.code[m.ip]) == OpCode::OpPopN,
        m.ip + 4 <= m.code.len(),
        opcode_of(m.code[m.ip + 2]) == OpCode::OpPopN,
        m.code[m.ip + 3] == 0,
    ensures
        m.step().1 == StepView::Continue ==> m.step().0.step() == (
            m.step().0.next(1),
            StepView::Continue,
        ),
        m.step().1 == StepView::Continue ==> m.step().0.step().0.stack == m.step().0.stack,
        m.step().1 == StepView::Continue ==> m.step().0.step().0.globals == m.step().0.globals,
{
    if m.step().1 == StepView::Continue {
        lemma_pop_none(m.step().0);
    }
}

} // verus!

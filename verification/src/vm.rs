//! The virtual machine: a stack machine that runs a chunk.
//!
//! The machine does not print and does not round numbers. It hands a value
//! to print, or the operands of an arithmetic instruction, to its host and
//! stops; the host does its part and lets the machine run on. What each
//! instruction does is stated in [`crate::machine`].

use vstd::hash_map::StringHashMap;
use vstd::prelude::*;
use vstd::string::StringExecFns;
use crate::bytecodes::Bytecodes;
use crate::machine::{undefined_variable, MachineView, StepView};
use crate::number::negate_bits;
use crate::opcode::{opcode_of, OpCode};
use crate::value::{views, Value, ValueRepr, ValueView};

verus! {

/// The most values that the stack holds.
pub const STACK_MAX: usize = 256;

/// How a run ends.
#[derive(Clone, Copy, PartialEq, Eq, Structural, Debug)]
pub enum InterpretResult {
    InterpretOk,
    InterpretCompileError,
    InterpretRuntimeError,
}

/// What the machine hands to its host when it stops.
#[derive(Debug)]
pub enum Step {
    /// Nothing; the run goes on.
    Continue,
    /// A value to print, followed by a line feed.
    Print(Value),
    /// An arithmetic instruction (`OpAdd`, `OpSubtract`, `OpMultiple` or
    /// `OpDivide`) and its two operands, numbers both. The host computes
    /// the result in IEEE-754 binary64 and hands it to [`VM::resume`].
    Arithmetic(OpCode, u64, u64),
    /// The run has ended. After a runtime error, [`VM::message`] holds its
    /// message.
    Done(InterpretResult),
}

impl View for Step {
    type V = StepView;

    open spec fn view(&self) -> StepView {
        match self {
            Step::Continue => StepView::Continue,
            Step::Print(v) => StepView::Print(v@),
            Step::Arithmetic(op, l, r) => StepView::Arithmetic(*op, *l, *r),
            Step::Done(r) => StepView::Done(*r),
        }
    }
}

pub struct VM {
    pub code: Bytecodes,
    /// The offset of the next instruction.
    pub ip: usize,
    pub stack: Vec<Value>,
    /// The store of global variables.
    pub globals: StringHashMap<Value>,
    /// The message of the last runtime error.
    pub message: String,
}

/// The globals, each value by its view.
pub open spec fn globals_view(globals: Map<Seq<char>, Value>) -> Map<Seq<char>, ValueView> {
    globals.map_values(|v: Value| v@)
}

impl View for VM {
    type V = MachineView;

    open spec fn view(&self) -> MachineView {
        MachineView {
            code: self.code.code@,
            constants: self.code.constants(),
            ip: self.ip as int,
            stack: views(self.stack@),
            globals: globals_view(self.globals@),
            message: self.message@,
        }
    }
}

impl VM {
    /// A machine without a program, with an empty stack and no globals.
    pub fn new() -> (vm: VM)
        ensures
            vm@.code == Seq::<u8>::empty(),
            vm@.constants == Seq::<ValueView>::empty(),
            vm@.ip == 0,
            vm@.stack == Seq::<ValueView>::empty(),
            vm@.globals == Map::<Seq<char>, ValueView>::empty(),
    {
        let vm = Self {
            code: Bytecodes::new(),
            ip: 0,
            stack: Vec::new(),
            globals: StringHashMap::new(),
            message: String::new(),
        };
        assert(vm@.stack =~= Seq::<ValueView>::empty());
        assert(vm@.globals =~= Map::<Seq<char>, ValueView>::empty());
        vm
    }

    fn reset(&mut self)
        ensures
            final(self)@ == (MachineView { ip: 0, stack: Seq::empty(), ..old(self)@ }),
    {
        self.ip = 0;
        self.stack.clear();
        assert(self@.stack =~= Seq::<ValueView>::empty());
    }

    /// Loads a chunk: the run starts at its first instruction with an empty
    /// stack. The globals are kept.
    pub fn interpret(&mut self, code: Bytecodes)
        ensures
            final(self)@ == old(self)@.load(code.code@, code.constants()),
    {
        self.code = code;
        self.reset();
    }

    /// Runs up to `budget` instructions and stops early when the machine
    /// has something for its host.
    pub fn run(&mut self, budget: usize) -> (r: Step)
        ensures
            (final(self)@, r@) == old(self)@.run(budget as nat),
    {
        let mut left = budget;
        while left > 0
            invariant
                self@.run(left as nat) == old(self)@.run(budget as nat),
            decreases left,
        {
            let step = self.step();
            match step {
                Step::Continue => {},
                other => {
                    return other;
                },
            }
            left -= 1;
        }
        Step::Continue
    }

    /// Runs one instruction.
    pub fn step(&mut self) -> (r: Step)
        ensures
            (final(self)@, r@) == old(self)@.step(),
    {
        if self.is_end() {
            return self.fail("Malformed bytecode.");
        }
        let op: OpCode = self.read_opcode();
        if op.operands() > self.code.code.len() - self.ip - 1 {
            return self.fail("Malformed bytecode.");
        }
        self.process(&op)
    }

    /// The host hands back the result of an arithmetic instruction.
    pub fn resume(&mut self, bits: u64) -> (r: Step)
        ensures
            (final(self)@, r@) == old(self)@.resume(bits),
    {
        if self.stack.len() >= STACK_MAX {
            return self.fail("Stack overflow.");
        }
        self.push(Value(ValueRepr::Number(bits)));
        Step::Continue
    }

    /// A runtime error: the stack is unwound and the run ends.
    fn fail(&mut self, message: &str) -> (r: Step)
        ensures
            (final(self)@, r@) == old(self)@.fail(message@),
    {
        self.message = String::from_str(message);
        self.stack.clear();
        assert(self@.stack =~= Seq::<ValueView>::empty());
        Step::Done(InterpretResult::InterpretRuntimeError)
    }

    /// The runtime error for a global that was never defined.
    fn fail_undefined(&mut self, name: &String) -> (r: Step)
        ensures
            (final(self)@, r@) == old(self)@.fail(undefined_variable(name@)),
    {
        let mut message = String::from_str("Undefined variable '");
        message.append(name.as_str());
        message.append("'.");
        self.message = message;
        self.stack.clear();
        assert(self@.stack =~= Seq::<ValueView>::empty());
        Step::Done(InterpretResult::InterpretRuntimeError)
    }

    /// Pushes a value and goes on to the instruction `width` operand bytes
    /// further on; a runtime error where the stack is full.
    fn push_next(&mut self, value: Value, width: usize) -> (r: Step)
        requires
            old(self).ip + 1 + width <= old(self)@.code.len(),
        ensures
            (final(self)@, r@) == old(self)@.push(value@, width as int),
    {
        if self.stack.len() >= STACK_MAX {
            return self.fail("Stack overflow.");
        }
        self.push(value);
        self.skip(width);
        Step::Continue
    }

    /// Goes on to the instruction `width` operand bytes further on.
    fn skip(&mut self, width: usize)
        requires
            old(self).ip + 1 + width <= old(self)@.code.len(),
        ensures
            final(self)@ == old(self)@.next(width as int),
    {
        let len = self.code.code.len();
        self.ip = self.ip + 1 + width;
    }

    /// Runs the instruction `op`, which stands at the instruction pointer
    /// with its operands inside the code.
    pub fn process(&mut self, op: &OpCode) -> (r: Step)
        requires
            old(self)@.can_fetch(),
            *op == opcode_of(old(self)@.code[old(self)@.ip]),
        ensures
            (final(self)@, r@) == old(self)@.execute(*op),
    {
        match op {
            OpCode::OpSetLocal => self.op_set_local(),
            OpCode::OpGetLocal => self.op_get_local(),
            OpCode::OpPopN => self.op_pop_n(),
            OpCode::OpJump => self.op_jump(),
            OpCode::OpJumpIfFalse => self.op_jump_if_false(),
            OpCode::OpSetGlobal => self.op_set_global(),
            OpCode::OpGetGlobal => self.op_get_global(),
            OpCode::OpDefineGlobal => self.op_define_global(),
            OpCode::OpPop => self.op_pop(),
            OpCode::OpPrint => self.op_print(),
            OpCode::OpReturn => {
                self.skip(0);
                Step::Done(InterpretResult::InterpretOk)
            },
            OpCode::OpConstant => self.op_constant(),
            OpCode::OpNegate => self.op_negate(),
            OpCode::OpAdd => self.op_add(),
            OpCode::OpSubtract => self.op_arithmetic(OpCode::OpSubtract),
            OpCode::OpMultiple => self.op_arithmetic(OpCode::OpMultiple),
            OpCode::OpDivide => self.op_arithmetic(OpCode::OpDivide),
            OpCode::OpNil => self.push_next(Value(ValueRepr::Nil()), 0),
            OpCode::OpFalse => self.push_next(Value(ValueRepr::Boolean(false)), 0),
            OpCode::OpTrue => self.push_next(Value(ValueRepr::Boolean(true)), 0),
            OpCode::OpNot => self.op_not(),
            OpCode::OpEqual => self.op_equal(),
            OpCode::OpLess => self.op_compare(false),
            OpCode::OpGreater => self.op_compare(true),
            OpCode::OpLoop => self.op_loop(),
            OpCode::OpUnKnown => self.fail("Malformed bytecode."),
        }
    }

    fn op_constant(&mut self) -> (r: Step)
        requires
            old(self).ip + 2 <= old(self)@.code.len(),
        ensures
            (final(self)@, r@) == old(self)@.op_constant(),
    {
        match self.read_const() {
            Some(constant) => self.push_next(constant, 1),
            None => self.fail("Malformed bytecode."),
        }
    }

    fn op_pop(&mut self) -> (r: Step)
        requires
            old(self).ip + 1 <= old(self)@.code.len(),
        ensures
            (final(self)@, r@) == old(self)@.op_pop(),
    {
        if self.stack.len() < 1 {
            return self.fail("Stack underflow.");
        }
        self.pop();
        self.skip(0);
        Step::Continue
    }

    fn op_pop_n(&mut self) -> (r: Step)
        requires
            old(self).ip + 2 <= old(self)@.code.len(),
        ensures
            (final(self)@, r@) == old(self)@.op_pop_n(),
    {
        let n = self.peek_byte(1);
        if self.stack.len() < n as usize {
            return self.fail("Stack underflow.");
        }
        self.pop_n(n);
        self.skip(1);
        Step::Continue
    }

    fn op_get_local(&mut self) -> (r: Step)
        requires
            old(self).ip + 2 <= old(self)@.code.len(),
        ensures
            (final(self)@, r@) == old(self)@.op_get_local(),
    {
        let slot = self.peek_byte(1) as usize;
        if slot >= self.stack.len() {
            return self.fail("Stack underflow.");
        }
        let val = self.stack[slot].clone();
        self.push_next(val, 1)
    }

    fn op_set_local(&mut self) -> (r: Step)
        requires
            old(self).ip + 2 <= old(self)@.code.len(),
        ensures
            (final(self)@, r@) == old(self)@.op_set_local(),
    {
        let slot = self.peek_byte(1) as usize;
        if slot >= self.stack.len() {
            return self.fail("Stack underflow.");
        }
        let val = self.peek(0).clone();
        self.stack.set(slot, val);
        assert(self@.stack =~= old(self)@.stack.update(slot as int, old(self)@.peek(0)));
        self.skip(1);
        Step::Continue
    }

    fn op_get_global(&mut self) -> (r: Step)
        requires
            old(self).ip + 2 <= old(self)@.code.len(),
        ensures
            (final(self)@, r@) == old(self)@.op_get_global(),
    {
        let key = match self.read_const_str() {
            Some(key) => key,
            None => {
                return self.fail("Malformed bytecode.");
            },
        };
        let found = match self.globals.get(key.as_str()) {
            None => None,
            Some(v) => Some(v.clone()),
        };
        match found {
            None => self.fail_undefined(&key),
            Some(v) => self.push_next(v, 1),
        }
    }

    fn op_define_global(&mut self) -> (r: Step)
        requires
            old(self).ip + 2 <= old(self)@.code.len(),
        ensures
            (final(self)@, r@) == old(self)@.op_define_global(),
    {
        let key = match self.read_const_str() {
            Some(key) => key,
            None => {
                return self.fail("Malformed bytecode.");
            },
        };
        if self.stack.len() < 1 {
            return self.fail("Stack underflow.");
        }
        let val = self.pop();
        self.globals.insert(key, val);
        assert(self@.globals =~= old(self)@.globals.insert(key@, old(self)@.peek(0)));
        self.skip(1);
        Step::Continue
    }

    fn op_set_global(&mut self) -> (r: Step)
        requires
            old(self).ip + 2 <= old(self)@.code.len(),
        ensures
            (final(self)@, r@) == old(self)@.op_set_global(),
    {
        let key = match self.read_const_str() {
            Some(key) => key,
            None => {
                return self.fail("Malformed bytecode.");
            },
        };
        if self.stack.len() < 1 {
            return self.fail("Stack underflow.");
        }
        if !self.globals.contains_key(key.as_str()) {
            return self.fail_undefined(&key);
        }
        let val = self.peek(0).clone();
        self.globals.insert(key, val);
        assert(self@.globals =~= old(self)@.globals.insert(key@, old(self)@.peek(0)));
        self.skip(1);
        Step::Continue
    }

    fn op_equal(&mut self) -> (r: Step)
        requires
            old(self).ip + 1 <= old(self)@.code.len(),
        ensures
            (final(self)@, r@) == old(self)@.op_equal(),
    {
        if self.stack.len() < 2 {
            return self.fail("Stack underflow.");
        }
        let r = self.pop();
        let l = self.pop();
        assert(self@ == old(self)@.drop(2)) by {
            assert(self@.stack =~= old(self)@.drop(2).stack);
        }
        self.push_next(Value(ValueRepr::Boolean(l == r)), 0)
    }

    fn op_compare(&mut self, greater: bool) -> (r: Step)
        requires
            old(self).ip + 1 <= old(self)@.code.len(),
        ensures
            (final(self)@, r@) == old(self)@.op_compare(greater),
    {
        if self.stack.len() < 2 {
            return self.fail("Stack underflow.");
        }
        if !self.peek(1).orderable_with(self.peek(0)) {
            return self.fail("Operands must be two numbers or two strings");
        }
        let r = self.pop();
        let l = self.pop();
        assert(self@ == old(self)@.drop(2)) by {
            assert(self@.stack =~= old(self)@.drop(2).stack);
        }
        let result = if greater {
            l.greater(&r)
        } else {
            l.less(&r)
        };
        self.push_next(Value(ValueRepr::Boolean(result)), 0)
    }

    fn op_add(&mut self) -> (r: Step)
        requires
            old(self).ip + 1 <= old(self)@.code.len(),
        ensures
            (final(self)@, r@) == old(self)@.op_add(),
    {
        if self.stack.len() < 2 {
            return self.fail("Stack underflow.");
        }
        let both_numbers = match (&self.peek(1).0, &self.peek(0).0) {
            (ValueRepr::Number(_), ValueRepr::Number(_)) => true,
            _ => false,
        };
        let both_texts = match (&self.peek(1).0, &self.peek(0).0) {
            (ValueRepr::String(_), ValueRepr::String(_)) => true,
            _ => false,
        };
        if !both_numbers && !both_texts {
            return self.fail("Operands must be two numbers or two strings");
        }
        let r = self.pop();
        let l = self.pop();
        assert(self@ == old(self)@.drop(2)) by {
            assert(self@.stack =~= old(self)@.drop(2).stack);
        }
        match (l.0, r.0) {
            (ValueRepr::Number(l), ValueRepr::Number(r)) => {
                self.skip(0);
                Step::Arithmetic(OpCode::OpAdd, l, r)
            },
            (ValueRepr::String(l), ValueRepr::String(r)) => {
                let joined = l.concat(r.as_str());
                self.push_next(Value(ValueRepr::String(joined)), 0)
            },
            _ => self.fail("Operands must be two numbers or two strings"),
        }
    }

    fn op_arithmetic(&mut self, op: OpCode) -> (r: Step)
        requires
            old(self).ip + 1 <= old(self)@.code.len(),
        ensures
            (final(self)@, r@) == old(self)@.op_arithmetic(op),
    {
        if self.stack.len() < 2 {
            return self.fail("Stack underflow.");
        }
        let operands = match (&self.peek(1).0, &self.peek(0).0) {
            (ValueRepr::Number(l), ValueRepr::Number(r)) => Some((*l, *r)),
            _ => None,
        };
        match operands {
            None => self.fail("Operands must be numbers"),
            Some((l, r)) => {
                self.pop_n(2);
                self.skip(0);
                Step::Arithmetic(op, l, r)
            },
        }
    }

    fn op_not(&mut self) -> (r: Step)
        requires
            old(self).ip + 1 <= old(self)@.code.len(),
        ensures
            (final(self)@, r@) == old(self)@.op_not(),
    {
        if self.stack.len() < 1 {
            return self.fail("Stack underflow.");
        }
        let value = self.pop();
        let result = self.is_falsey(&value);
        self.push_next(Value(ValueRepr::Boolean(result)), 0)
    }

    fn op_negate(&mut self) -> (r: Step)
        requires
            old(self).ip + 1 <= old(self)@.code.len(),
        ensures
            (final(self)@, r@) == old(self)@.op_negate(),
    {
        if self.stack.len() < 1 {
            return self.fail("Stack underflow.");
        }
        let operand = match &self.peek(0).0 {
            ValueRepr::Number(n) => Some(*n),
            _ => None,
        };
        match operand {
            None => self.fail("Operand must be a number."),
            Some(n) => {
                self.pop();
                self.push_next(Value(ValueRepr::Number(negate_bits(n))), 0)
            },
        }
    }

    fn op_print(&mut self) -> (r: Step)
        requires
            old(self).ip + 1 <= old(self)@.code.len(),
        ensures
            (final(self)@, r@) == old(self)@.op_print(),
    {
        if self.stack.len() < 1 {
            return self.fail("Stack underflow.");
        }
        let value = self.pop();
        self.skip(0);
        Step::Print(value)
    }

    fn op_jump(&mut self) -> (r: Step)
        requires
            old(self).ip + 3 <= old(self)@.code.len(),
        ensures
            (final(self)@, r@) == old(self)@.op_jump(),
    {
        let offset = self.read_short() as usize;
        let len = self.code.code.len();
        if offset > usize::MAX - self.ip - 3 {
            return self.fail("Malformed bytecode.");
        }
        self.ip = self.ip + 3 + offset;
        Step::Continue
    }

    fn op_jump_if_false(&mut self) -> (r: Step)
        requires
            old(self).ip + 3 <= old(self)@.code.len(),
        ensures
            (final(self)@, r@) == old(self)@.op_jump_if_false(),
    {
        if self.stack.len() < 1 {
            return self.fail("Stack underflow.");
        }
        let jump = self.is_falsey(self.peek(0));
        if jump {
            self.op_jump()
        } else {
            self.skip(2);
            Step::Continue
        }
    }

    fn op_loop(&mut self) -> (r: Step)
        requires
            old(self).ip + 3 <= old(self)@.code.len(),
        ensures
            (final(self)@, r@) == old(self)@.op_loop(),
    {
        let offset = self.read_short() as usize;
        let len = self.code.code.len();
        if offset > self.ip + 3 {
            return self.fail("Malformed bytecode.");
        }
        self.ip = self.ip + 3 - offset;
        Step::Continue
    }

    fn push(&mut self, value: Value)
        ensures
            final(self)@ == (MachineView { stack: old(self)@.stack.push(value@), ..old(self)@ }),
    {
        self.stack.push(value);
        assert(self@.stack =~= old(self)@.stack.push(value@));
    }

    fn pop(&mut self) -> (v: Value)
        requires
            old(self)@.stack.len() > 0,
        ensures
            v@ == old(self)@.peek(0),
            final(self)@ == old(self)@.drop(1),
    {
        let v = self.stack.pop().unwrap();
        assert(self@.stack =~= old(self)@.drop(1).stack);
        v
    }

    fn pop_n(&mut self, idx: u8)
        requires
            idx <= old(self)@.stack.len(),
        ensures
            final(self)@ == old(self)@.drop(idx as int),
    {
        let keep = self.stack.len() - idx as usize;
        self.stack.truncate(keep);
        assert(self@.stack =~= old(self)@.drop(idx as int).stack);
    }

    fn peek(&self, distance: usize) -> (v: &Value)
        requires
            distance < self@.stack.len(),
        ensures
            v@ == self@.peek(distance as int),
    {
        &self.stack[self.stack.len() - 1 - distance]
    }

    /// The byte `pos` places after the instruction.
    fn peek_byte(&self, pos: usize) -> (b: u8)
        requires
            self.ip + pos < self@.code.len(),
        ensures
            b == self@.code[self.ip + pos],
    {
        let len = self.code.code.len();
        self.code.code[self.ip + pos]
    }

    /// The two-byte operand of the instruction, high byte first.
    fn read_short(&self) -> (short: u16)
        requires
            self.ip + 3 <= self@.code.len(),
        ensures
            short == self@.distance(),
    {
        let hi = self.peek_byte(1) as u16;
        let lo = self.peek_byte(2) as u16;
        hi * 256 + lo
    }

    fn read_opcode(&self) -> (op: OpCode)
        requires
            self.ip < self@.code.len(),
        ensures
            op == opcode_of(self@.code[self@.ip]),
    {
        OpCode::from(self.peek_byte(0))
    }

    /// The constant that the operand names.
    fn read_const(&self) -> (c: Option<Value>)
        requires
            self.ip + 2 <= self@.code.len(),
        ensures
            self@.operand() < self@.constants.len() ==> c is Some && c->0@ == self@.constants[self@.operand() as int],
            self@.operand() >= self@.constants.len() ==> c is None,
    {
        let idx = self.peek_byte(1) as usize;
        if idx < self.code.values.len() {
            Some(self.code.values[idx].clone())
        } else {
            None
        }
    }

    /// The text of the constant that the operand names, if it is a text.
    fn read_const_str(&self) -> (s: Option<String>)
        requires
            self.ip + 2 <= self@.code.len(),
        ensures
            match s {
                Some(text) => self@.name() == Some(text@),
                None => self@.name() is None,
            },
    {
        match self.read_const() {
            Some(Value(ValueRepr::String(v))) => Some(v),
            _ => None,
        }
    }

    /// The report of the last runtime error.
    pub fn error_report(&self) -> (r: String)
        ensures
            r@ == crate::machine::error_report(self@.message),
    {
        let mut text = self.message.clone();
        text.append("\n[line 0] in script\n");
        text
    }

    /// Gives up what the machine holds: the program, the stack and the
    /// globals.
    pub fn free(&mut self)
        ensures
            final(self)@.code == Seq::<u8>::empty(),
            final(self)@.constants == Seq::<ValueView>::empty(),
            final(self)@.ip == 0,
            final(self)@.stack == Seq::<ValueView>::empty(),
            final(self)@.globals == Map::<Seq<char>, ValueView>::empty(),
    {
        self.code.free();
        self.ip = 0;
        self.stack.clear();
        self.globals.clear();
        assert(self@.stack =~= Seq::<ValueView>::empty());
        assert(self@.globals =~= Map::<Seq<char>, ValueView>::empty());
    }

    /// Whether the value counts as false in a condition.
    pub fn is_falsey(&self, value: &Value) -> (r: bool)
        ensures
            r == crate::value::falsey(value@),
    {
        value.is_falsey()
    }

    /// Whether the run has reached the end of the code.
    pub fn is_end(&self) -> (r: bool)
        ensures
            r == (self@.ip >= self@.code.len()),
    {
        self.ip >= self.code.code.len()
    }
}

} // verus!

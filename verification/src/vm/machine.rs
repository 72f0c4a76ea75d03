use core::ops::{Add, Div, Mul, Not, Sub};
use crate::types::bytecode::ByteCode;
use crate::types::opcode::{
    ArithmeticOpcode, ComparisonOpcode, FlowOpcode, IOOpcode, LogicOpcode, MemoryOpcode, Opcode,
    OpcodeView,
};
use crate::types::value::{
    add_values, and_values, div_values, mul_values, not_value, or_values, result_view,
    sub_values, value_lt, value_text, xor_values, Value, ValueView,
};
use crate::vm::profile::Profile;
use std::collections::VecDeque;
use vstd::hash_map::StringHashMap;
use vstd::prelude::*;
use vstd::string::{StrSliceExecFns, StringExecFns};

verus! {

/// Why an instruction could not be carried out.
#[derive(Debug, Clone, Copy, PartialEq, Eq, Structural)]
pub enum VMError {
    /// The operand stack held too few values.
    StackUnderflow,
    /// `Return` found no return address.
    CallStackUnderflow,
    /// `Load` named a variable that was never stored.
    UndefinedVariable,
    /// An operand was of a variant the instruction is not defined on.
    TypeMismatch,
    /// The divisor was zero.
    DivideByZero,
    /// The result does not fit in 32 unsigned bits.
    ArithmeticOverflow,
    /// The program counter points past the last opcode.
    PCOutOfBounds,
    /// A profile counter has no room left for another instruction.
    Cancelled,
}

/// What one step of the machine came to.
#[derive(Debug, Clone, Copy, PartialEq, Eq, Structural)]
pub enum VMResult {
    /// The instruction was carried out; the machine can go on.
    Continue,
    /// The instruction failed.
    Error(VMError),
    /// `Halt` was executed.
    Halt,
}

/// The models of a sequence of values, in order.
pub open spec fn values_view(vs: Seq<Value>) -> Seq<ValueView> {
    Seq::new(vs.len(), |i: int| vs[i]@)
}

/// The models of the values of a variable store, under the same names.
pub open spec fn heap_view(m: Map<Seq<char>, Value>) -> Map<Seq<char>, ValueView> {
    m.map_values(|v: Value| v@)
}

/// The contents of a sequence of strings, in order.
pub open spec fn lines_view(ls: Seq<String>) -> Seq<Seq<char>> {
    Seq::new(ls.len(), |i: int| ls[i]@)
}

/// A line without its final newline, if it ends in one.
pub open spec fn strip_newline(line: Seq<char>) -> Seq<char> {
    if line.len() > 0 && line.last() == '\n' {
        line.drop_last()
    } else {
        line
    }
}

/// What an arithmetic opcode makes of a left and a right operand.
pub open spec fn arithmetic_result(op: ArithmeticOpcode, lhs: ValueView, rhs: ValueView) -> Result<
    ValueView,
    VMError,
> {
    match op {
        ArithmeticOpcode::Add => add_values(lhs, rhs),
        ArithmeticOpcode::Sub => sub_values(lhs, rhs),
        ArithmeticOpcode::Mul => mul_values(lhs, rhs),
        ArithmeticOpcode::Div => div_values(lhs, rhs),
    }
}

/// What a logic opcode with two operands makes of them. `Not` has one
/// operand and is not defined on two.
pub open spec fn logic_result(op: LogicOpcode, lhs: ValueView, rhs: ValueView) -> Result<
    ValueView,
    VMError,
> {
    match op {
        LogicOpcode::And => and_values(lhs, rhs),
        LogicOpcode::Or => or_values(lhs, rhs),
        LogicOpcode::Xor => xor_values(lhs, rhs),
        LogicOpcode::Not => Err(VMError::TypeMismatch),
    }
}

/// A boolean result as a value.
pub open spec fn bool_result(r: Result<bool, VMError>, negate: bool) -> Result<ValueView, VMError> {
    match r {
        Ok(b) => Ok(ValueView::Bool(b != negate)),
        Err(e) => Err(e),
    }
}

/// What a comparison makes of a left and a right operand. Equality is
/// defined on any two values; the order only within one variant.
pub open spec fn comparison_result(op: ComparisonOpcode, lhs: ValueView, rhs: ValueView) -> Result<
    ValueView,
    VMError,
> {
    match op {
        ComparisonOpcode::Eq => Ok(ValueView::Bool(lhs == rhs)),
        ComparisonOpcode::Ne => Ok(ValueView::Bool(lhs != rhs)),
        ComparisonOpcode::Lt => bool_result(value_lt(lhs, rhs), false),
        ComparisonOpcode::Ge => bool_result(value_lt(lhs, rhs), true),
        ComparisonOpcode::Gt => bool_result(value_lt(rhs, lhs), false),
        ComparisonOpcode::Le => bool_result(value_lt(rhs, lhs), true),
    }
}

/// The whole state of a machine, as contracts see it.
pub struct VmState {
    /// The program; execution never changes it.
    pub code: Seq<OpcodeView>,
    /// The operand stack; its last element is the top.
    pub stack: Seq<ValueView>,
    /// The variable store.
    pub heap: Map<Seq<char>, ValueView>,
    /// The index of the next opcode.
    pub pc: usize,
    /// The return addresses; the last one is the innermost call's.
    pub call_stack: Seq<usize>,
    /// A switch for the host; no instruction reads or changes it.
    pub debug: bool,
    pub profile: Profile,
    /// The lines that `Print` has written, oldest first.
    pub output: Seq<Seq<char>>,
    /// The lines that `Scan` has yet to read, next one first.
    pub input: Seq<Seq<char>>,
}

impl VmState {
    /// The state in which a machine starts on `code`.
    pub open spec fn initial(code: Seq<OpcodeView>) -> VmState {
        VmState {
            code,
            stack: Seq::empty(),
            heap: Map::empty(),
            pc: 0,
            call_stack: Seq::empty(),
            debug: false,
            profile: Profile {
                executed_instructions: 0,
                total_memory_reads: 0,
                total_memory_writes: 0,
                total_stack_pushes: 0,
                total_stack_pops: 0,
            },
            output: Seq::empty(),
            input: Seq::empty(),
        }
    }

    /// After the fetch of one opcode: the counter points to the next one and
    /// one more instruction counts as executed.
    pub open spec fn fetched(self) -> VmState {
        VmState {
            pc: (self.pc + 1) as usize,
            profile: Profile {
                executed_instructions: (self.profile.executed_instructions + 1) as usize,
                ..self.profile
            },
            ..self
        }
    }

    /// With `v` pushed on the stack, counted as one push.
    pub open spec fn push(self, v: ValueView) -> VmState {
        VmState {
            stack: self.stack.push(v),
            profile: Profile {
                total_stack_pushes: (self.profile.total_stack_pushes + 1) as usize,
                ..self.profile
            },
            ..self
        }
    }

    /// With the top of the stack removed, counted as one pop.
    pub open spec fn pop(self) -> VmState {
        VmState {
            stack: self.stack.drop_last(),
            profile: Profile {
                total_stack_pops: (self.profile.total_stack_pops + 1) as usize,
                ..self.profile
            },
            ..self
        }
    }

    /// With the counter set to `address`.
    pub open spec fn jump(self, address: u32) -> VmState {
        VmState { pc: address as usize, ..self }
    }

    /// With `key` bound to `v`, counted as one write.
    pub open spec fn store(self, key: Seq<char>, v: ValueView) -> VmState {
        VmState {
            heap: self.heap.insert(key, v),
            profile: Profile {
                total_memory_writes: (self.profile.total_memory_writes + 1) as usize,
                ..self.profile
            },
            ..self
        }
    }

    /// With one more read counted.
    pub open spec fn read(self) -> VmState {
        VmState {
            profile: Profile {
                total_memory_reads: (self.profile.total_memory_reads + 1) as usize,
                ..self.profile
            },
            ..self
        }
    }

    /// The line that `Scan` reads next: the first pending line without its
    /// final newline, or the empty line at the end of the input.
    pub open spec fn next_line(self) -> Seq<char> {
        if self.input.len() > 0 {
            strip_newline(self.input[0])
        } else {
            Seq::empty()
        }
    }

    /// With the first pending line of input, if any, taken away.
    pub open spec fn scanned(self) -> VmState {
        VmState {
            input: if self.input.len() > 0 {
                self.input.drop_first()
            } else {
                self.input
            },
            ..self
        }
    }

    /// Whether the machine stands before a `Scan` with no line of input
    /// pending.
    pub open spec fn awaits_input(self) -> bool {
        &&& self.pc < self.code.len()
        &&& self.code[self.pc as int] == OpcodeView::IO(IOOpcode::Scan)
        &&& self.input.len() == 0
    }
}

/// The machine goes on from `s`.
pub open spec fn go(s: VmState) -> (VmState, VMResult) {
    (s, VMResult::Continue)
}

/// The machine stops in `s` with the error `e`.
pub open spec fn fail(s: VmState, e: VMError) -> (VmState, VMResult) {
    (s, VMResult::Error(e))
}

/// What an opcode with two operands makes of them.
pub open spec fn binary_result(op: OpcodeView, lhs: ValueView, rhs: ValueView) -> Result<
    ValueView,
    VMError,
> {
    match op {
        OpcodeView::Arithmetic(o) => arithmetic_result(o, lhs, rhs),
        OpcodeView::Logic(o) => logic_result(o, lhs, rhs),
        OpcodeView::Comparison(o) => comparison_result(o, lhs, rhs),
        _ => Err(VMError::TypeMismatch),
    }
}

/// An opcode with two operands: the left operand is popped first, then the
/// right one, and the result is pushed. This is the order in which lowering
/// leaves them: the right operand is computed before the left one, so the
/// left one lies on top.
pub open spec fn binary_step(s: VmState, op: OpcodeView) -> (VmState, VMResult) {
    if s.stack.len() == 0 {
        fail(s, VMError::StackUnderflow)
    } else if s.stack.len() == 1 {
        fail(s.pop(), VMError::StackUnderflow)
    } else {
        let lhs = s.stack.last();
        let rhs = s.pop().stack.last();
        let t = s.pop().pop();
        match binary_result(op, lhs, rhs) {
            Ok(v) => go(t.push(v)),
            Err(e) => fail(t, e),
        }
    }
}

/// `Not`: the operand is popped and its negation pushed.
pub open spec fn not_step(s: VmState) -> (VmState, VMResult) {
    if s.stack.len() == 0 {
        fail(s, VMError::StackUnderflow)
    } else {
        match not_value(s.stack.last()) {
            Ok(v) => go(s.pop().push(v)),
            Err(e) => fail(s.pop(), e),
        }
    }
}

/// `Load`: the name is popped, and the value stored under it is pushed.
pub open spec fn load_step(s: VmState) -> (VmState, VMResult) {
    if s.stack.len() == 0 {
        fail(s, VMError::StackUnderflow)
    } else {
        match s.stack.last() {
            ValueView::String(key) => if s.heap.contains_key(key) {
                go(s.pop().read().push(s.heap[key]))
            } else {
                fail(s.pop(), VMError::UndefinedVariable)
            },
            _ => fail(s.pop(), VMError::TypeMismatch),
        }
    }
}

/// `Store`: the name is popped, then the value, and the value is stored
/// under the name.
pub open spec fn store_step(s: VmState) -> (VmState, VMResult) {
    if s.stack.len() == 0 {
        fail(s, VMError::StackUnderflow)
    } else {
        match s.stack.last() {
            ValueView::String(key) => if s.stack.len() == 1 {
                fail(s.pop(), VMError::StackUnderflow)
            } else {
                go(s.pop().pop().store(key, s.pop().stack.last()))
            },
            _ => fail(s.pop(), VMError::TypeMismatch),
        }
    }
}

/// `Print`: the value is popped and its text becomes the newest line of
/// output.
pub open spec fn print_step(s: VmState) -> (VmState, VMResult) {
    if s.stack.len() == 0 {
        fail(s, VMError::StackUnderflow)
    } else {
        go(VmState { output: s.output.push(value_text(s.stack.last())), ..s.pop() })
    }
}

/// `Scan`: the next line of input is pushed as a string.
pub open spec fn scan_step(s: VmState) -> (VmState, VMResult) {
    go(s.scanned().push(ValueView::String(s.next_line())))
}

/// A conditional jump: a boolean is popped, and the counter is set to
/// `address` if the boolean is `when`.
pub open spec fn branch_step(s: VmState, address: u32, when: bool) -> (VmState, VMResult) {
    if s.stack.len() == 0 {
        fail(s, VMError::StackUnderflow)
    } else {
        match s.stack.last() {
            ValueView::Bool(b) => if b == when {
                go(s.pop().jump(address))
            } else {
                go(s.pop())
            },
            _ => fail(s.pop(), VMError::TypeMismatch),
        }
    }
}

/// A flow opcode. `Call` remembers the index of the opcode after it;
/// `Return` goes back to the address remembered last.
pub open spec fn flow_step(s: VmState, op: FlowOpcode) -> (VmState, VMResult) {
    match op {
        FlowOpcode::Jump(a) => go(s.jump(a)),
        FlowOpcode::JumpIfTrue(a) => branch_step(s, a, true),
        FlowOpcode::JumpIfFalse(a) => branch_step(s, a, false),
        FlowOpcode::Call(a) => go(
            VmState { call_stack: s.call_stack.push(s.pc), pc: a as usize, ..s },
        ),
        FlowOpcode::Return => if s.call_stack.len() == 0 {
            fail(s, VMError::CallStackUnderflow)
        } else {
            go(VmState { call_stack: s.call_stack.drop_last(), pc: s.call_stack.last(), ..s })
        },
    }
}

/// `Dup`: a copy of the top is pushed.
pub open spec fn dup_step(s: VmState) -> (VmState, VMResult) {
    if s.stack.len() == 0 {
        fail(s, VMError::StackUnderflow)
    } else {
        go(s.push(s.stack.last()))
    }
}

/// `Pop`: the top is discarded.
pub open spec fn pop_step(s: VmState) -> (VmState, VMResult) {
    if s.stack.len() == 0 {
        fail(s, VMError::StackUnderflow)
    } else {
        go(s.pop())
    }
}

/// `Swap`: the two topmost values change places.
pub open spec fn swap_step(s: VmState) -> (VmState, VMResult) {
    if s.stack.len() == 0 {
        fail(s, VMError::StackUnderflow)
    } else if s.stack.len() == 1 {
        fail(s.pop(), VMError::StackUnderflow)
    } else {
        go(s.pop().pop().push(s.stack.last()).push(s.pop().stack.last()))
    }
}

/// What `op` does to a state in which it has just been fetched.
pub open spec fn dispatch(s: VmState, op: OpcodeView) -> (VmState, VMResult) {
    match op {
        OpcodeView::Halt => (s, VMResult::Halt),
        OpcodeView::Literal(v) => go(s.push(v)),
        OpcodeView::Arithmetic(_) => binary_step(s, op),
        OpcodeView::Logic(o) => if o == LogicOpcode::Not {
            not_step(s)
        } else {
            binary_step(s, op)
        },
        OpcodeView::Comparison(_) => binary_step(s, op),
        OpcodeView::Memory(o) => match o {
            MemoryOpcode::Load => load_step(s),
            MemoryOpcode::Store => store_step(s),
        },
        OpcodeView::IO(o) => match o {
            IOOpcode::Print => print_step(s),
            IOOpcode::Scan => scan_step(s),
        },
        OpcodeView::Flow(o) => flow_step(s, o),
        OpcodeView::Dup => dup_step(s),
        OpcodeView::Pop => pop_step(s),
        OpcodeView::Swap => swap_step(s),
    }
}

/// One step of the machine: the opcode under the counter is fetched and
/// carried out. A counter past the end of the program is `PCOutOfBounds`, and
/// a profile without headroom is `Cancelled`; neither changes the state.
pub open spec fn step_spec(s: VmState) -> (VmState, VMResult) {
    if s.pc >= s.code.len() {
        fail(s, VMError::PCOutOfBounds)
    } else if !s.profile.has_headroom() {
        fail(s, VMError::Cancelled)
    } else {
        dispatch(s.fetched(), s.code[s.pc as int])
    }
}

/// A step that lets the machine go on has executed exactly one instruction.
pub proof fn lemma_step_counts(s: VmState)
    ensures
        step_spec(s).1 == VMResult::Continue ==> step_spec(s).0.profile.executed_instructions
            == s.profile.executed_instructions + 1,
{
}

/// The run of a machine from `s`: steps are taken until one halts or fails.
/// The result is the state the machine stops in and, after `Halt`, its
/// profile.
pub open spec fn run_spec(s: VmState) -> (VmState, Result<Profile, VMError>)
    decreases usize::MAX - s.profile.executed_instructions,
{
    let (t, r) = step_spec(s);
    match r {
        VMResult::Continue => {
            proof {
                lemma_step_counts(s);
            }
            run_spec(t)
        },
        VMResult::Halt => (t, Ok(t.profile)),
        VMResult::Error(e) => (t, Err(e)),
    }
}

/// A stack machine on one bytecode. Lines for `Scan` are queued in `input`
/// by the host, raw; the lines that `Print` writes collect in `output`, for
/// the host to send on, each followed by a newline. After a failure every
/// field stays as the failing instruction left it, so the opcode that failed
/// is the one before `pc`; after `PCOutOfBounds` and `Cancelled`, which no
/// opcode causes, `pc` is where the next opcode was to be fetched. `debug` is
/// a switch for the host that no instruction reads.
pub struct VM {
    pub stack: Vec<Value>,
    pub heap: StringHashMap<Value>,
    pub pc: usize,
    pub call_stack: Vec<usize>,
    pub bytecode: ByteCode,
    pub debug: bool,
    pub profile: Profile,
    pub output: Vec<String>,
    pub input: VecDeque<String>,
}

impl View for VM {
    type V = VmState;

    open spec fn view(&self) -> VmState {
        VmState {
            code: self.bytecode@,
            stack: values_view(self.stack@),
            heap: heap_view(self.heap@),
            pc: self.pc,
            call_stack: self.call_stack@,
            debug: self.debug,
            profile: self.profile,
            output: lines_view(self.output@),
            input: lines_view(self.input@),
        }
    }
}

/// Takes the final newline off a line, if it ends in one.
fn strip_line(line: &str) -> (r: String)
    ensures
        r@ == strip_newline(line@),
{
    let n = line.unicode_len();
    if n > 0 && line.get_char(n - 1) == '\n' {
        String::from_str(line.substring_char(0, n - 1))
    } else {
        String::from_str(line)
    }
}

/// Applies an opcode with two operands to them.
fn eval_binary(op: &Opcode, lhs: Value, rhs: Value) -> (r: Result<Value, VMError>)
    ensures
        result_view(r) == binary_result(op@, lhs@, rhs@),
{
    match op {
        Opcode::Arithmetic(o) => match o {
            ArithmeticOpcode::Add => lhs.add(rhs),
            ArithmeticOpcode::Sub => lhs.sub(rhs),
            ArithmeticOpcode::Mul => lhs.mul(rhs),
            ArithmeticOpcode::Div => lhs.div(rhs),
        },
        Opcode::Logic(o) => match o {
            LogicOpcode::And => lhs.and(rhs),
            LogicOpcode::Or => lhs.or(rhs),
            LogicOpcode::Xor => lhs.xor(rhs),
            LogicOpcode::Not => Err(VMError::TypeMismatch),
        },
        Opcode::Comparison(o) => match o {
            ComparisonOpcode::Eq => Ok(Value::Bool(lhs == rhs)),
            ComparisonOpcode::Ne => Ok(Value::Bool(!(lhs == rhs))),
            ComparisonOpcode::Lt => match lhs.less_than(&rhs) {
                Ok(b) => Ok(Value::Bool(b)),
                Err(e) => Err(e),
            },
            ComparisonOpcode::Ge => match lhs.less_than(&rhs) {
                Ok(b) => Ok(Value::Bool(!b)),
                Err(e) => Err(e),
            },
            ComparisonOpcode::Gt => match rhs.less_than(&lhs) {
                Ok(b) => Ok(Value::Bool(b)),
                Err(e) => Err(e),
            },
            ComparisonOpcode::Le => match rhs.less_than(&lhs) {
                Ok(b) => Ok(Value::Bool(!b)),
                Err(e) => Err(e),
            },
        },
        _ => Err(VMError::TypeMismatch),
    }
}

impl VM {
    /// A machine at the start of `bytecode`: empty stacks, an empty store,
    /// no input or output, every counter at zero.
    pub fn new(bytecode: ByteCode) -> (r: Self)
        ensures
            r@ == VmState::initial(bytecode@),
    {
        let r = Self {
            bytecode,
            stack: Vec::new(),
            call_stack: Vec::new(),
            heap: StringHashMap::new(),
            pc: 0,
            debug: false,
            profile: Profile::new(),
            output: Vec::new(),
            input: VecDeque::new(),
        };
        assert(r@.stack =~= Seq::empty());
        assert(r@.heap =~= Map::empty());
        assert(r@.output =~= Seq::empty());
        assert(r@.input =~= Seq::empty());
        r
    }

    /// Whether the machine stands before a `Scan` with no line of input
    /// pending. A host that reads its input line by line asks this before
    /// each step.
    pub fn awaits_input(&self) -> (r: bool)
        ensures
            r == self@.awaits_input(),
    {
        if self.pc < self.bytecode.opcodes.len() && self.input.len() == 0 {
            match &self.bytecode.opcodes[self.pc] {
                Opcode::IO(IOOpcode::Scan) => true,
                _ => false,
            }
        } else {
            false
        }
    }

    /// Pushes a value on the operand stack and counts the push.
    fn push_operand(&mut self, v: Value)
        requires
            old(self).profile.total_stack_pushes < usize::MAX,
        ensures
            final(self)@ == old(self)@.push(v@),
    {
        self.stack.push(v);
        self.profile.total_stack_pushes += 1;
        assert(self@.stack =~= old(self)@.stack.push(v@));
    }

    /// Pops the top of the operand stack, if there is one, and counts the
    /// pop.
    fn pop_operand(&mut self) -> (r: Option<Value>)
        requires
            old(self).profile.total_stack_pops < usize::MAX,
        ensures
            match r {
                Some(v) => old(self)@.stack.len() > 0 && v@ == old(self)@.stack.last()
                    && final(self)@ == old(self)@.pop(),
                None => old(self)@.stack.len() == 0 && final(self)@ == old(self)@,
            },
    {
        match self.stack.pop() {
            Some(v) => {
                self.profile.total_stack_pops += 1;
                assert(self@.stack =~= old(self)@.stack.drop_last());
                Some(v)
            },
            None => None,
        }
    }

    /// Carries out an opcode with two operands.
    fn binary(&mut self, op: &Opcode) -> (r: VMResult)
        requires
            old(self).profile.total_stack_pops < usize::MAX - 1,
            old(self).profile.total_stack_pushes < usize::MAX,
        ensures
            (final(self)@, r) == binary_step(old(self)@, op@),
    {
        let lhs = match self.pop_operand() {
            Some(v) => v,
            None => {
                return VMResult::Error(VMError::StackUnderflow);
            },
        };
        let rhs = match self.pop_operand() {
            Some(v) => v,
            None => {
                return VMResult::Error(VMError::StackUnderflow);
            },
        };
        match eval_binary(op, lhs, rhs) {
            Ok(v) => {
                self.push_operand(v);
                VMResult::Continue
            },
            Err(e) => VMResult::Error(e),
        }
    }

    /// Carries out `Not`.
    fn negate(&mut self) -> (r: VMResult)
        requires
            old(self).profile.total_stack_pops < usize::MAX,
            old(self).profile.total_stack_pushes < usize::MAX,
        ensures
            (final(self)@, r) == not_step(old(self)@),
    {
        match self.pop_operand() {
            Some(v) => match v.not() {
                Ok(w) => {
                    self.push_operand(w);
                    VMResult::Continue
                },
                Err(e) => VMResult::Error(e),
            },
            None => VMResult::Error(VMError::StackUnderflow),
        }
    }

    /// Carries out `Load`.
    fn load(&mut self) -> (r: VMResult)
        requires
            old(self).profile.total_stack_pops < usize::MAX,
            old(self).profile.total_stack_pushes < usize::MAX,
            old(self).profile.total_memory_reads < usize::MAX,
        ensures
            (final(self)@, r) == load_step(old(self)@),
    {
        match self.pop_operand() {
            Some(Value::String(key)) => {
                let found = match self.heap.get(key.as_str()) {
                    Some(v) => Some(v.clone()),
                    None => None,
                };
                match found {
                    Some(v) => {
                        self.profile.total_memory_reads += 1;
                        self.push_operand(v);
                        VMResult::Continue
                    },
                    None => VMResult::Error(VMError::UndefinedVariable),
                }
            },
            Some(_) => VMResult::Error(VMError::TypeMismatch),
            None => VMResult::Error(VMError::StackUnderflow),
        }
    }

    /// Carries out `Store`.
    fn store(&mut self) -> (r: VMResult)
        requires
            old(self).profile.total_stack_pops < usize::MAX - 1,
            old(self).profile.total_memory_writes < usize::MAX,
        ensures
            (final(self)@, r) == store_step(old(self)@),
    {
        match self.pop_operand() {
            Some(Value::String(key)) => match self.pop_operand() {
                Some(v) => {
                    let ghost before = self@;
                    self.heap.insert(key, v);
                    self.profile.total_memory_writes += 1;
                    assert(self@.heap =~= before.heap.insert(key@, v@));
                    VMResult::Continue
                },
                None => VMResult::Error(VMError::StackUnderflow),
            },
            Some(_) => VMResult::Error(VMError::TypeMismatch),
            None => VMResult::Error(VMError::StackUnderflow),
        }
    }

    /// Carries out `Print`.
    fn print(&mut self) -> (r: VMResult)
        requires
            old(self).profile.total_stack_pops < usize::MAX,
        ensures
            (final(self)@, r) == print_step(old(self)@),
    {
        match self.pop_operand() {
            Some(v) => {
                let ghost before = self@;
                self.output.push(v.to_text());
                assert(self@.output =~= before.output.push(value_text(v@)));
                VMResult::Continue
            },
            None => VMResult::Error(VMError::StackUnderflow),
        }
    }

    /// Carries out `Scan`.
    fn scan(&mut self) -> (r: VMResult)
        requires
            old(self).profile.total_stack_pushes < usize::MAX,
        ensures
            (final(self)@, r) == scan_step(old(self)@),
    {
        let line = match self.input.pop_front() {
            Some(raw) => {
                assert(self@.input =~= old(self)@.input.drop_first());
                strip_line(raw.as_str())
            },
            None => String::new(),
        };
        self.push_operand(Value::String(line));
        VMResult::Continue
    }

    /// Carries out a conditional jump.
    fn branch(&mut self, address: u32, when: bool) -> (r: VMResult)
        requires
            old(self).profile.total_stack_pops < usize::MAX,
        ensures
            (final(self)@, r) == branch_step(old(self)@, address, when),
    {
        match self.pop_operand() {
            Some(Value::Bool(b)) => {
                if b == when {
                    self.pc = address as usize;
                }
                VMResult::Continue
            },
            Some(_) => VMResult::Error(VMError::TypeMismatch),
            None => VMResult::Error(VMError::StackUnderflow),
        }
    }

    /// Carries out a flow opcode.
    fn flow(&mut self, op: FlowOpcode) -> (r: VMResult)
        requires
            old(self).profile.total_stack_pops < usize::MAX,
        ensures
            (final(self)@, r) == flow_step(old(self)@, op),
    {
        match op {
            FlowOpcode::Jump(a) => {
                self.pc = a as usize;
                VMResult::Continue
            },
            FlowOpcode::JumpIfTrue(a) => self.branch(a, true),
            FlowOpcode::JumpIfFalse(a) => self.branch(a, false),
            FlowOpcode::Call(a) => {
                self.call_stack.push(self.pc);
                self.pc = a as usize;
                VMResult::Continue
            },
            FlowOpcode::Return => match self.call_stack.pop() {
                Some(a) => {
                    self.pc = a;
                    VMResult::Continue
                },
                None => VMResult::Error(VMError::CallStackUnderflow),
            },
        }
    }

    /// Carries out `Dup`.
    fn dup(&mut self) -> (r: VMResult)
        requires
            old(self).profile.total_stack_pushes < usize::MAX,
        ensures
            (final(self)@, r) == dup_step(old(self)@),
    {
        if self.stack.len() == 0 {
            VMResult::Error(VMError::StackUnderflow)
        } else {
            let top = self.stack[self.stack.len() - 1].clone();
            self.push_operand(top);
            VMResult::Continue
        }
    }

    /// Carries out `Swap`.
    fn swap(&mut self) -> (r: VMResult)
        requires
            old(self).profile.total_stack_pops < usize::MAX - 1,
            old(self).profile.total_stack_pushes < usize::MAX - 1,
        ensures
            (final(self)@, r) == swap_step(old(self)@),
    {
        let a = match self.pop_operand() {
            Some(v) => v,
            None => {
                return VMResult::Error(VMError::StackUnderflow);
            },
        };
        let b = match self.pop_operand() {
            Some(v) => v,
            None => {
                return VMResult::Error(VMError::StackUnderflow);
            },
        };
        self.push_operand(a);
        self.push_operand(b);
        VMResult::Continue
    }

    /// Fetches the opcode under the counter and carries it out. The result
    /// says whether the machine can go on, has halted or has failed.
    pub fn step(&mut self) -> (r: VMResult)
        ensures
            (final(self)@, r) == step_spec(old(self)@),
    {
        if self.pc >= self.bytecode.opcodes.len() {
            return VMResult::Error(VMError::PCOutOfBounds);
        }
        if !self.profile.check_headroom() {
            return VMResult::Error(VMError::Cancelled);
        }
        let opcode = self.bytecode.opcodes[self.pc].clone();
        self.pc += 1;
        self.profile.executed_instructions += 1;
        assert(self@ == old(self)@.fetched());
        assert(opcode@ == old(self)@.code[old(self).pc as int]);
        match opcode {
            Opcode::Halt => VMResult::Halt,
            Opcode::Literal(value) => {
                self.push_operand(value);
                VMResult::Continue
            },
            Opcode::Arithmetic(_) => self.binary(&opcode),
            Opcode::Logic(logic) => match logic {
                LogicOpcode::Not => self.negate(),
                _ => self.binary(&opcode),
            },
            Opcode::Comparison(_) => self.binary(&opcode),
            Opcode::Memory(memory) => match memory {
                MemoryOpcode::Load => self.load(),
                MemoryOpcode::Store => self.store(),
            },
            Opcode::IO(io) => match io {
                IOOpcode::Print => self.print(),
                IOOpcode::Scan => self.scan(),
            },
            Opcode::Flow(flow) => self.flow(flow),
            Opcode::Dup => self.dup(),
            Opcode::Pop => match self.pop_operand() {
                Some(_) => VMResult::Continue,
                None => VMResult::Error(VMError::StackUnderflow),
            },
            Opcode::Swap => self.swap(),
        }
    }

    /// Steps until the machine halts or fails. After `Halt` the result is
    /// the profile; after a failure, the error.
    pub fn run(&mut self) -> (r: Result<Profile, VMError>)
        ensures
            (final(self)@, r) == run_spec(old(self)@),
    {
        loop
            invariant
                run_spec(self@) == run_spec(old(self)@),
            decreases usize::MAX - self.profile.executed_instructions,
        {
            proof {
                lemma_step_counts(self@);
            }
            match self.step() {
                VMResult::Continue => {},
                VMResult::Error(e) => {
                    return Err(e);
                },
                VMResult::Halt => {
                    return Ok(self.profile);
                },
            }
        }
    }
}

} // verus!

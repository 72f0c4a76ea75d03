use crate::types::ast::Ast;
use crate::types::bytecode::ByteCode;
use crate::types::opcode::{
    ArithmeticOpcode, ComparisonOpcode, FlowOpcode, IOOpcode, LogicOpcode, MemoryOpcode, Opcode,
    OpcodeView,
};
use crate::types::value::{Value, ValueView};
use quickcheck::{Arbitrary, Gen};
use rand::seq::SliceRandom;
use rand::{thread_rng, Rng};
use vstd::pervasive::unreached;
use vstd::prelude::*;

verus! {

/// quickcheck's source of random values.
#[verifier::external_type_specification]
#[verifier::external_body]
pub struct ExGen(Gen);

/// The size that a generator was made with. Nothing changes it afterwards.
pub uninterp spec fn gen_size(g: Gen) -> usize;

/// Calls `Gen::size`, which returns the size that the generator was made
/// with.
#[verifier::external_body]
fn size_of(g: &Gen) -> (r: usize)
    ensures
        r == gen_size(*g),
{
    g.size()
}

/// Calls rand's `SliceRandom::choose` with the thread's generator: on an
/// empty slice it returns nothing, on any other one of the slice's elements.
#[verifier::external_body]
fn choose_number(options: &[u8]) -> (r: Option<u8>)
    ensures
        options@.len() == 0 ==> r is None,
        options@.len() > 0 ==> r is Some && options@.contains(r.unwrap()),
{
    options.choose(&mut thread_rng()).copied()
}

/// Calls rand's `Rng::gen_range` with the thread's generator, for the range
/// from 0 up to but without `limit`. The range must not be empty; the result
/// lies in it.
#[verifier::external_body]
fn random_below(limit: usize) -> (r: usize)
    requires
        limit > 0,
    ensures
        r < limit,
{
    thread_rng().gen_range(0..limit)
}

/// Calls `Gen::choose`: on an empty slice it returns nothing, on any other
/// one of the slice's elements.
#[verifier::external_body]
fn choose_from<T: Copy>(g: &mut Gen, options: &[T]) -> (r: Option<T>)
    ensures
        gen_size(*final(g)) == gen_size(*old(g)),
        options@.len() == 0 ==> r is None,
        options@.len() > 0 ==> r is Some && options@.contains(r.unwrap()),
{
    g.choose(options).copied()
}

/// Calls quickcheck's `arbitrary` for `u32`. Any number may come back.
#[verifier::external_body]
fn arbitrary_u32(g: &mut Gen) -> (r: u32)
    ensures
        gen_size(*final(g)) == gen_size(*old(g)),
{
    u32::arbitrary(g)
}

/// Calls quickcheck's `arbitrary` for `bool`.
#[verifier::external_body]
fn arbitrary_bool(g: &mut Gen) -> (r: bool)
    ensures
        gen_size(*final(g)) == gen_size(*old(g)),
{
    bool::arbitrary(g)
}

/// Calls quickcheck's `arbitrary` for `String`, which draws a length below
/// the generator's size and so needs a size above 0. Any string may come
/// back.
#[verifier::external_body]
fn arbitrary_string(g: &mut Gen) -> (r: String)
    requires
        gen_size(*old(g)) > 0,
    ensures
        gen_size(*final(g)) == gen_size(*old(g)),
{
    String::arbitrary(g)
}

/// The model of a value that may be missing.
pub open spec fn drawn_value_view(r: Option<Value>) -> Option<ValueView> {
    match r {
        Some(v) => Some(v@),
        None => None,
    }
}

/// The value that a drawn number picks among drawn payloads: 1 the boolean,
/// 2 the integer, 3 the string, 4 null. No other number picks a value.
pub open spec fn value_of_choice(choice: u8, flag: bool, number: u32, text: Seq<char>) -> Option<
    ValueView,
> {
    if choice == 1 {
        Some(ValueView::Bool(flag))
    } else if choice == 2 {
        Some(ValueView::UInt(number))
    } else if choice == 3 {
        Some(ValueView::String(text))
    } else if choice == 4 {
        Some(ValueView::Null)
    } else {
        None
    }
}

impl Value {
    /// The value that `choice` picks among the payloads that were drawn for
    /// it.
    pub fn from_choice(choice: u8, flag: bool, number: u32, text: String) -> (r: Option<Value>)
        ensures
            drawn_value_view(r) == value_of_choice(choice, flag, number, text@),
    {
        if choice == 1 {
            Some(Value::Bool(flag))
        } else if choice == 2 {
            Some(Value::UInt(number))
        } else if choice == 3 {
            Some(Value::String(text))
        } else if choice == 4 {
            Some(Value::Null)
        } else {
            None
        }
    }

    /// A random value: the thread's generator picks the variant among the
    /// numbers 1 to 4, `g` draws a payload of each kind, and `from_choice`
    /// says which value that makes.
    pub fn arbitrary(g: &mut Gen) -> (r: Value)
        requires
            gen_size(*old(g)) > 0,
        ensures
            gen_size(*final(g)) == gen_size(*old(g)),
    {
        let options: [u8; 4] = [1, 2, 3, 4];
        let choice = choose_number(options.as_slice());
        let flag = arbitrary_bool(g);
        let number = arbitrary_u32(g);
        let text = arbitrary_string(g);
        match choice {
            Some(c) => match Value::from_choice(c, flag, number, text) {
                Some(v) => v,
                None => unreached(),
            },
            None => unreached(),
        }
    }
}

impl ArithmeticOpcode {
    /// A random arithmetic operation.
    pub fn arbitrary(g: &mut Gen) -> (r: ArithmeticOpcode)
        ensures
            gen_size(*final(g)) == gen_size(*old(g)),
    {
        let options: [ArithmeticOpcode; 4] = [
            ArithmeticOpcode::Add,
            ArithmeticOpcode::Sub,
            ArithmeticOpcode::Mul,
            ArithmeticOpcode::Div,
        ];
        match choose_from(g, options.as_slice()) {
            Some(op) => op,
            None => unreached(),
        }
    }
}

impl LogicOpcode {
    /// A random logic operation.
    pub fn arbitrary(g: &mut Gen) -> (r: LogicOpcode)
        ensures
            gen_size(*final(g)) == gen_size(*old(g)),
    {
        let options: [LogicOpcode; 4] = [
            LogicOpcode::And,
            LogicOpcode::Xor,
            LogicOpcode::Or,
            LogicOpcode::Not,
        ];
        match choose_from(g, options.as_slice()) {
            Some(op) => op,
            None => unreached(),
        }
    }
}

impl ComparisonOpcode {
    /// A random comparison.
    pub fn arbitrary(g: &mut Gen) -> (r: ComparisonOpcode)
        ensures
            gen_size(*final(g)) == gen_size(*old(g)),
    {
        let options: [ComparisonOpcode; 6] = [
            ComparisonOpcode::Eq,
            ComparisonOpcode::Ne,
            ComparisonOpcode::Lt,
            ComparisonOpcode::Le,
            ComparisonOpcode::Gt,
            ComparisonOpcode::Ge,
        ];
        match choose_from(g, options.as_slice()) {
            Some(op) => op,
            None => unreached(),
        }
    }
}

impl MemoryOpcode {
    /// A random memory operation.
    pub fn arbitrary(g: &mut Gen) -> (r: MemoryOpcode)
        ensures
            gen_size(*final(g)) == gen_size(*old(g)),
    {
        let options: [MemoryOpcode; 2] = [MemoryOpcode::Load, MemoryOpcode::Store];
        match choose_from(g, options.as_slice()) {
            Some(op) => op,
            None => unreached(),
        }
    }
}

impl IOOpcode {
    /// A random input or output operation.
    pub fn arbitrary(g: &mut Gen) -> (r: IOOpcode)
        ensures
            gen_size(*final(g)) == gen_size(*old(g)),
    {
        let options: [IOOpcode; 2] = [IOOpcode::Print, IOOpcode::Scan];
        match choose_from(g, options.as_slice()) {
            Some(op) => op,
            None => unreached(),
        }
    }
}

/// The flow operation that a drawn number picks, with a drawn address
/// where it has one: 0 `JumpIfFalse`, 1 `JumpIfTrue`, 2 `Jump`, 3 `Call`,
/// 4 `Return`. No other number picks one.
pub open spec fn flow_of_choice(choice: u8, address: u32) -> Option<FlowOpcode> {
    if choice == 0 {
        Some(FlowOpcode::JumpIfFalse(address))
    } else if choice == 1 {
        Some(FlowOpcode::JumpIfTrue(address))
    } else if choice == 2 {
        Some(FlowOpcode::Jump(address))
    } else if choice == 3 {
        Some(FlowOpcode::Call(address))
    } else if choice == 4 {
        Some(FlowOpcode::Return)
    } else {
        None
    }
}

impl FlowOpcode {
    /// The flow operation that `choice` picks, with the address that was
    /// drawn for it.
    pub fn from_choice(choice: u8, address: u32) -> (r: Option<FlowOpcode>)
        ensures
            r == flow_of_choice(choice, address),
    {
        if choice == 0 {
            Some(FlowOpcode::JumpIfFalse(address))
        } else if choice == 1 {
            Some(FlowOpcode::JumpIfTrue(address))
        } else if choice == 2 {
            Some(FlowOpcode::Jump(address))
        } else if choice == 3 {
            Some(FlowOpcode::Call(address))
        } else if choice == 4 {
            Some(FlowOpcode::Return)
        } else {
            None
        }
    }

    /// A random flow operation: the thread's generator picks it among the
    /// numbers 0 to 4, `g` draws an address, and `from_choice` says which
    /// operation that makes.
    pub fn arbitrary(g: &mut Gen) -> (r: FlowOpcode)
        ensures
            gen_size(*final(g)) == gen_size(*old(g)),
    {
        let options: [u8; 5] = [0, 1, 2, 3, 4];
        let choice = choose_number(options.as_slice());
        let address = arbitrary_u32(g);
        match choice {
            Some(c) => match FlowOpcode::from_choice(c, address) {
                Some(op) => op,
                None => unreached(),
            },
            None => unreached(),
        }
    }
}

/// One drawn payload of each kind that an opcode can hold.
pub struct OpcodeDraw {
    pub value: Value,
    pub arithmetic: ArithmeticOpcode,
    pub logic: LogicOpcode,
    pub comparison: ComparisonOpcode,
    pub memory: MemoryOpcode,
    pub io: IOOpcode,
    pub flow: FlowOpcode,
}

/// The model of an opcode that may be missing.
pub open spec fn drawn_opcode_view(r: Option<Opcode>) -> Option<OpcodeView> {
    match r {
        Some(op) => Some(op@),
        None => None,
    }
}

/// The opcode that a drawn number picks among drawn payloads: 1 `Halt`, 2 a
/// literal, 3 to 8 an arithmetic, logic, comparison, memory, input or output,
/// or flow operation, 9 `Dup`, 10 `Pop`, 11 `Swap`. No other number picks one.
pub open spec fn opcode_of_choice(choice: u8, draw: OpcodeDraw) -> Option<OpcodeView> {
    if choice == 1 {
        Some(OpcodeView::Halt)
    } else if choice == 2 {
        Some(OpcodeView::Literal(draw.value@))
    } else if choice == 3 {
        Some(OpcodeView::Arithmetic(draw.arithmetic))
    } else if choice == 4 {
        Some(OpcodeView::Logic(draw.logic))
    } else if choice == 5 {
        Some(OpcodeView::Comparison(draw.comparison))
    } else if choice == 6 {
        Some(OpcodeView::Memory(draw.memory))
    } else if choice == 7 {
        Some(OpcodeView::IO(draw.io))
    } else if choice == 8 {
        Some(OpcodeView::Flow(draw.flow))
    } else if choice == 9 {
        Some(OpcodeView::Dup)
    } else if choice == 10 {
        Some(OpcodeView::Pop)
    } else if choice == 11 {
        Some(OpcodeView::Swap)
    } else {
        None
    }
}

impl Opcode {
    /// The opcode that `choice` picks among the payloads that were drawn for
    /// it.
    pub fn from_choice(choice: u8, draw: OpcodeDraw) -> (r: Option<Opcode>)
        ensures
            drawn_opcode_view(r) == opcode_of_choice(choice, draw),
    {
        if choice == 1 {
            Some(Opcode::Halt)
        } else if choice == 2 {
            Some(Opcode::Literal(draw.value))
        } else if choice == 3 {
            Some(Opcode::Arithmetic(draw.arithmetic))
        } else if choice == 4 {
            Some(Opcode::Logic(draw.logic))
        } else if choice == 5 {
            Some(Opcode::Comparison(draw.comparison))
        } else if choice == 6 {
            Some(Opcode::Memory(draw.memory))
        } else if choice == 7 {
            Some(Opcode::IO(draw.io))
        } else if choice == 8 {
            Some(Opcode::Flow(draw.flow))
        } else if choice == 9 {
            Some(Opcode::Dup)
        } else if choice == 10 {
            Some(Opcode::Pop)
        } else if choice == 11 {
            Some(Opcode::Swap)
        } else {
            None
        }
    }

    /// A random opcode: the thread's generator picks the category among the
    /// numbers 1 to 11, `g` draws a payload of each kind, and `from_choice`
    /// says which opcode that makes.
    pub fn arbitrary(g: &mut Gen) -> (r: Opcode)
        requires
            gen_size(*old(g)) > 0,
        ensures
            gen_size(*final(g)) == gen_size(*old(g)),
    {
        let options: [u8; 11] = [1, 2, 3, 4, 5, 6, 7, 8, 9, 10, 11];
        let choice = choose_number(options.as_slice());
        let draw = OpcodeDraw {
            value: Value::arbitrary(g),
            arithmetic: ArithmeticOpcode::arbitrary(g),
            logic: LogicOpcode::arbitrary(g),
            comparison: ComparisonOpcode::arbitrary(g),
            memory: MemoryOpcode::arbitrary(g),
            io: IOOpcode::arbitrary(g),
            flow: FlowOpcode::arbitrary(g),
        };
        match choice {
            Some(c) => match Opcode::from_choice(c, draw) {
                Some(op) => op,
                None => unreached(),
            },
            None => unreached(),
        }
    }
}

/// Up to 255 random opcodes, then `Halt`.
fn arbitrary_opcodes(g: &mut Gen) -> (r: Vec<Opcode>)
    requires
        gen_size(*old(g)) > 0,
    ensures
        gen_size(*final(g)) == gen_size(*old(g)),
        1 <= r.len() <= 256,
        r[r.len() - 1]@ == OpcodeView::Halt,
{
    let count = random_below(256);
    let mut opcodes: Vec<Opcode> = Vec::new();
    let mut i: usize = 0;
    while i < count
        invariant
            i <= count < 256,
            opcodes.len() == i,
            gen_size(*g) == gen_size(*old(g)),
            gen_size(*g) > 0,
        decreases count - i,
    {
        opcodes.push(Opcode::arbitrary(g));
        i += 1;
    }
    opcodes.push(Opcode::Halt);
    opcodes
}

impl ByteCode {
    /// A random bytecode of at most 256 opcodes, the last of which is
    /// `Halt`. The generator must have been made with a size above 0.
    pub fn arbitrary(g: &mut Gen) -> (r: ByteCode)
        requires
            gen_size(*old(g)) > 0,
        ensures
            gen_size(*final(g)) == gen_size(*old(g)),
            1 <= r@.len() <= 256,
            r@.last() == OpcodeView::Halt,
    {
        ByteCode { opcodes: arbitrary_opcodes(g) }
    }

    /// A random bytecode as `arbitrary` makes it, or nothing where the
    /// generator was made with size 0.
    pub fn try_arbitrary(g: &mut Gen) -> (r: Option<ByteCode>)
        ensures
            gen_size(*final(g)) == gen_size(*old(g)),
            r is Some <==> gen_size(*old(g)) > 0,
            r matches Some(b) ==> 1 <= b@.len() <= 256 && b@.last() == OpcodeView::Halt,
    {
        if size_of(g) > 0 {
            Some(ByteCode::arbitrary(g))
        } else {
            None
        }
    }
}

impl Ast {
    /// A random program of at most 256 opcodes, the last of which is `Halt`.
    /// The generator must have been made with a size above 0.
    pub fn arbitrary(g: &mut Gen) -> (r: Ast)
        requires
            gen_size(*old(g)) > 0,
        ensures
            gen_size(*final(g)) == gen_size(*old(g)),
            1 <= r@.len() <= 256,
            r@.last() == OpcodeView::Halt,
    {
        Ast { opcodes: arbitrary_opcodes(g) }
    }

    /// A random program as `arbitrary` makes it, or nothing where the
    /// generator was made with size 0.
    pub fn try_arbitrary(g: &mut Gen) -> (r: Option<Ast>)
        ensures
            gen_size(*final(g)) == gen_size(*old(g)),
            r is Some <==> gen_size(*old(g)) > 0,
            r matches Some(b) ==> 1 <= b@.len() <= 256 && b@.last() == OpcodeView::Halt,
    {
        if size_of(g) > 0 {
            Some(Ast::arbitrary(g))
        } else {
            None
        }
    }
}

} // verus!

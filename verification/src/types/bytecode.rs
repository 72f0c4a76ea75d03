use crate::types::opcode::{clone_opcodes, opcodes_eq, opcodes_view, Opcode, OpcodeView};
use vstd::prelude::*;

verus! {

/// An ordered sequence of opcodes: what is executed and what is persisted.
/// It grows by appending and holds no addresses of its own.
#[derive(Debug, Eq)]
pub struct ByteCode {
    pub opcodes: Vec<Opcode>,
}

impl View for ByteCode {
    type V = Seq<OpcodeView>;

    open spec fn view(&self) -> Seq<OpcodeView> {
        opcodes_view(self.opcodes@)
    }
}

impl ByteCode {
    /// The empty bytecode.
    pub fn new() -> (r: Self)
        ensures
            r@ == Seq::<OpcodeView>::empty(),
    {
        let r = Self { opcodes: Vec::new() };
        assert(r@ =~= Seq::<OpcodeView>::empty());
        r
    }

    /// Appends one opcode.
    pub fn add_opcode(&mut self, opcode: Opcode)
        ensures
            final(self)@ == old(self)@.push(opcode@),
    {
        self.opcodes.push(opcode);
        assert(self@ =~= old(self)@.push(opcode@));
    }

    /// The number of opcodes.
    pub fn len(&self) -> (r: usize)
        ensures
            r == self@.len(),
    {
        self.opcodes.len()
    }

    /// The opcode at `index`, if there is one.
    pub fn get(&self, index: usize) -> (r: Option<&Opcode>)
        ensures
            index < self@.len() ==> r is Some && r.unwrap()@ == self@[index as int],
            index >= self@.len() ==> r is None,
    {
        if index < self.opcodes.len() {
            Some(&self.opcodes[index])
        } else {
            None
        }
    }
}

impl PartialEq for ByteCode {
    fn eq(&self, other: &Self) -> (r: bool) {
        opcodes_eq(&self.opcodes, &other.opcodes)
    }
}

impl vstd::std_specs::cmp::PartialEqSpecImpl for ByteCode {
    open spec fn obeys_eq_spec() -> bool {
        true
    }

    /// Two sequences are equal when they hold equal opcodes in the same
    /// order.
    open spec fn eq_spec(&self, other: &Self) -> bool {
        self@ == other@
    }
}

impl Clone for ByteCode {
    fn clone(&self) -> (r: Self)
        ensures
            r@ == self@,
    {
        Self { opcodes: clone_opcodes(&self.opcodes) }
    }
}

impl From<Vec<Opcode>> for ByteCode {
    fn from(opcodes: Vec<Opcode>) -> (r: Self) {
        Self { opcodes }
    }
}

impl vstd::std_specs::convert::FromSpecImpl<Vec<Opcode>> for ByteCode {
    open spec fn obeys_from_spec() -> bool {
        true
    }

    /// The bytecode that holds exactly the given opcodes.
    open spec fn from_spec(opcodes: Vec<Opcode>) -> Self {
        ByteCode { opcodes }
    }
}

} // verus!

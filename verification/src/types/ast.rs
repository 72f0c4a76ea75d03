use crate::types::opcode::{clone_opcodes, opcodes_eq, opcodes_view, Opcode, OpcodeView};
use vstd::prelude::*;

verus! {

/// A program as a plain list of opcodes, under the name that hand-assembled
/// programs use for it.
#[derive(Debug, Eq)]
pub struct Ast {
    pub opcodes: Vec<Opcode>,
}

impl View for Ast {
    type V = Seq<OpcodeView>;

    open spec fn view(&self) -> Seq<OpcodeView> {
        opcodes_view(self.opcodes@)
    }
}

impl Ast {
    /// The empty program.
    pub fn new() -> (r: Self)
        ensures
            r@ == Seq::<OpcodeView>::empty(),
    {
        let r = Self { opcodes: Vec::new() };
        assert(r@ =~= Seq::<OpcodeView>::empty());
        r
    }

    /// Appends one opcode.
    pub fn add_opcode(&mut self, opcode: Opcode)
        ensures
            final(self)@ == old(self)@.push(opcode@),
    {
        self.opcodes.push(opcode);
        assert(self@ =~= old(self)@.push(opcode@));
    }
}

impl PartialEq for Ast {
    fn eq(&self, other: &Self) -> (r: bool) {
        opcodes_eq(&self.opcodes, &other.opcodes)
    }
}

impl vstd::std_specs::cmp::PartialEqSpecImpl for Ast {
    open spec fn obeys_eq_spec() -> bool {
        true
    }

    /// Two sequences are equal when they hold equal opcodes in the same
    /// order.
    open spec fn eq_spec(&self, other: &Self) -> bool {
        self@ == other@
    }
}

impl Clone for Ast {
    fn clone(&self) -> (r: Self)
        ensures
            r@ == self@,
    {
        Self { opcodes: clone_opcodes(&self.opcodes) }
    }
}

impl From<Vec<Opcode>> for Ast {
    fn from(opcodes: Vec<Opcode>) -> (r: Self) {
        Self { opcodes }
    }
}

impl vstd::std_specs::convert::FromSpecImpl<Vec<Opcode>> for Ast {
    open spec fn obeys_from_spec() -> bool {
        true
    }

    /// The program that holds exactly the given opcodes.
    open spec fn from_spec(opcodes: Vec<Opcode>) -> Self {
        Ast { opcodes }
    }
}

} // verus!

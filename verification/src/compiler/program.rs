use crate::compiler::error::CompileError;
use crate::compiler::ir::{instrs_view, IrInstruction, IrInstructionView};
use crate::types::text::str_eq;
use vstd::prelude::*;

verus! {

/// A basic block as contracts see it.
pub struct BasicBlockView {
    pub instructions: Seq<IrInstructionView>,
    pub next: Option<usize>,
    pub branch: Option<usize>,
}

/// A function of the intermediate representation as contracts see it.
pub struct IrFunctionView {
    pub name: Seq<char>,
    pub parameters: Seq<Seq<char>>,
    pub blocks: Seq<BasicBlockView>,
    pub entry_block: usize,
}

/// A program of the intermediate representation as contracts see it.
pub struct IrProgramView {
    pub functions: Seq<IrFunctionView>,
    pub current_function: Option<Seq<char>>,
    pub current_block: usize,
}

/// A straight run of instructions, with the block that follows it and the
/// block that a condition leads to, where they are known.
#[derive(Debug, Clone)]
pub struct BasicBlock {
    pub instructions: Vec<IrInstruction>,
    pub next: Option<usize>,
    pub branch: Option<usize>,
}

/// A named routine: its blocks, addressed by their index, and the block in
/// which it begins. The parameter names are kept for later use.
#[derive(Debug, Clone)]
pub struct IrFunction {
    pub name: String,
    pub parameters: Vec<String>,
    pub blocks: Vec<BasicBlock>,
    pub entry_block: usize,
}

/// A program under construction: its functions in the order in which they
/// were first added, and the cursor, which names the function and the block
/// that the next instruction goes to.
#[derive(Debug, Clone)]
pub struct IrProgram {
    pub functions: Vec<IrFunction>,
    pub current_function: Option<String>,
    pub current_block: usize,
}

impl View for BasicBlock {
    type V = BasicBlockView;

    open spec fn view(&self) -> BasicBlockView {
        BasicBlockView {
            instructions: instrs_view(self.instructions@),
            next: self.next,
            branch: self.branch,
        }
    }
}

/// The models of a sequence of blocks, in order.
pub open spec fn blocks_view(bs: Seq<BasicBlock>) -> Seq<BasicBlockView> {
    Seq::new(bs.len(), |i: int| bs[i]@)
}

/// The contents of a sequence of names, in order.
pub open spec fn names_view(ns: Seq<String>) -> Seq<Seq<char>> {
    Seq::new(ns.len(), |i: int| ns[i]@)
}

impl View for IrFunction {
    type V = IrFunctionView;

    open spec fn view(&self) -> IrFunctionView {
        IrFunctionView {
            name: self.name@,
            parameters: names_view(self.parameters@),
            blocks: blocks_view(self.blocks@),
            entry_block: self.entry_block,
        }
    }
}

/// The models of a sequence of functions, in order.
pub open spec fn functions_view(fs: Seq<IrFunction>) -> Seq<IrFunctionView> {
    Seq::new(fs.len(), |i: int| fs[i]@)
}

/// The model of an optional name.
pub open spec fn name_view(n: Option<String>) -> Option<Seq<char>> {
    match n {
        Some(s) => Some(s@),
        None => None,
    }
}

impl View for IrProgram {
    type V = IrProgramView;

    open spec fn view(&self) -> IrProgramView {
        IrProgramView {
            functions: functions_view(self.functions@),
            current_function: name_view(self.current_function),
            current_block: self.current_block,
        }
    }
}

/// The index of the first function from `start` on that is called `name`.
pub open spec fn find_function(fs: Seq<IrFunctionView>, name: Seq<char>, start: int) -> Option<int>
    decreases fs.len() - start,
{
    if start < 0 || start >= fs.len() {
        None
    } else if fs[start].name == name {
        Some(start)
    } else {
        find_function(fs, name, start + 1)
    }
}

/// A block without instructions or successors.
pub open spec fn empty_block() -> BasicBlockView {
    BasicBlockView { instructions: Seq::empty(), next: None, branch: None }
}

/// A function that consists of one empty block, in which it begins.
pub open spec fn fresh_function(name: Seq<char>, parameters: Seq<Seq<char>>) -> IrFunctionView {
    IrFunctionView { name, parameters, blocks: seq![empty_block()], entry_block: 0 }
}

impl IrProgramView {
    /// The program without functions or cursor.
    pub open spec fn empty() -> IrProgramView {
        IrProgramView { functions: Seq::empty(), current_function: None, current_block: 0 }
    }

    /// The index of the function that the cursor names, if there is one.
    pub open spec fn current_index(self) -> Option<int> {
        match self.current_function {
            Some(name) => find_function(self.functions, name, 0),
            None => None,
        }
    }

    /// Whether the cursor names a block that exists.
    pub open spec fn cursor_valid(self) -> bool {
        match self.current_index() {
            Some(i) => self.current_block < self.functions[i].blocks.len(),
            None => false,
        }
    }

    /// With a fresh function under `name`, in the place of the function of
    /// that name if there was one and after all others if not, and the cursor
    /// at its first block.
    pub open spec fn with_function(self, name: Seq<char>, parameters: Seq<Seq<char>>)
        -> IrProgramView {
        IrProgramView {
            functions: match find_function(self.functions, name, 0) {
                Some(i) => self.functions.update(i, fresh_function(name, parameters)),
                None => self.functions.push(fresh_function(name, parameters)),
            },
            current_function: Some(name),
            current_block: 0,
        }
    }

    /// With `instruction` at the end of the block under the cursor.
    pub open spec fn with_instruction(self, instruction: IrInstructionView) -> IrProgramView
        recommends
            self.cursor_valid(),
    {
        let i = self.current_index().unwrap();
        let f = self.functions[i];
        let b = f.blocks[self.current_block as int];
        IrProgramView {
            functions: self.functions.update(
                i,
                IrFunctionView {
                    blocks: f.blocks.update(
                        self.current_block as int,
                        BasicBlockView { instructions: b.instructions.push(instruction), ..b },
                    ),
                    ..f
                },
            ),
            ..self
        }
    }

    /// With every instruction of `code`, in order, at the end of the block
    /// under the cursor.
    pub open spec fn with_instructions(self, code: Seq<IrInstructionView>) -> IrProgramView
        recommends
            self.cursor_valid(),
        decreases code.len(),
    {
        if code.len() == 0 {
            self
        } else {
            self.with_instructions(code.drop_last()).with_instruction(code.last())
        }
    }

    /// With one more empty block at the end of the function under the
    /// cursor; unchanged where the cursor names no function.
    pub open spec fn with_block(self) -> IrProgramView {
        match self.current_index() {
            Some(i) => {
                let f = self.functions[i];
                IrProgramView {
                    functions: self.functions.update(
                        i,
                        IrFunctionView { blocks: f.blocks.push(empty_block()), ..f },
                    ),
                    ..self
                }
            },
            None => self,
        }
    }

    /// The index that `with_block` gives the new block; 0 where the cursor
    /// names no function.
    pub open spec fn next_block(self) -> usize {
        match self.current_index() {
            Some(i) => self.functions[i].blocks.len() as usize,
            None => 0,
        }
    }

    /// With block `to` as the successor of block `from` of the function under
    /// the cursor; unchanged where there is no such function or block.
    pub open spec fn linked(self, from: usize, to: usize) -> IrProgramView {
        match self.current_index() {
            Some(i) => {
                let f = self.functions[i];
                if from < f.blocks.len() {
                    IrProgramView {
                        functions: self.functions.update(
                            i,
                            IrFunctionView {
                                blocks: f.blocks.update(
                                    from as int,
                                    BasicBlockView { next: Some(to), ..f.blocks[from as int] },
                                ),
                                ..f
                            },
                        ),
                        ..self
                    }
                } else {
                    self
                }
            },
            None => self,
        }
    }

    /// With the cursor at block `block` of the function it names.
    pub open spec fn at_block(self, block: usize) -> IrProgramView {
        IrProgramView { current_block: block, ..self }
    }

    /// With the cursor at block `block` of the function called `name`.
    pub open spec fn at(self, name: Seq<char>, block: usize) -> IrProgramView {
        IrProgramView { current_function: Some(name), current_block: block, ..self }
    }
}

/// Whether a program is laid out as its operations leave it: no two
/// functions share a name, and every function has at least one block and
/// begins in its block 0.
pub open spec fn well_formed(ir: IrProgramView) -> bool {
    &&& forall|i: int, j: int|
        0 <= i < j < ir.functions.len() ==> ir.functions[i].name != ir.functions[j].name
    &&& forall|i: int|
        0 <= i < ir.functions.len() ==> (#[trigger] ir.functions[i]).entry_block == 0
            && ir.functions[i].blocks.len() >= 1
}

/// What `find_function` finds is the first function of that name, and it
/// finds none only where there is none.
pub proof fn lemma_find_function(fs: Seq<IrFunctionView>, name: Seq<char>, start: int)
    requires
        0 <= start,
    ensures
        match find_function(fs, name, start) {
            Some(i) => start <= i < fs.len() && fs[i].name == name && forall|j: int|
                start <= j < i ==> fs[j].name != name,
            None => forall|j: int| start <= j < fs.len() ==> fs[j].name != name,
        },
    decreases fs.len() - start,
{
    if start < fs.len() && fs[start].name != name {
        lemma_find_function(fs, name, start + 1);
    }
}

/// Every operation on a program keeps it well formed.
pub proof fn lemma_operations_keep_well_formed(
    ir: IrProgramView,
    name: Seq<char>,
    parameters: Seq<Seq<char>>,
    instruction: IrInstructionView,
    from: usize,
    to: usize,
)
    requires
        well_formed(ir),
    ensures
        well_formed(IrProgramView::empty()),
        well_formed(ir.with_function(name, parameters)),
        ir.cursor_valid() ==> well_formed(ir.with_instruction(instruction)),
        well_formed(ir.with_block()),
        well_formed(ir.linked(from, to)),
        well_formed(ir.at_block(to)),
        well_formed(ir.at(name, to)),
{
    lemma_find_function(ir.functions, name, 0);
    match ir.current_function {
        Some(n) => {
            lemma_find_function(ir.functions, n, 0);
        },
        None => {},
    }
}

/// The index of the first function called `name`.
pub fn find_index(functions: &Vec<IrFunction>, name: &str) -> (r: Option<usize>)
    ensures
        match r {
            Some(i) => find_function(functions_view(functions@), name@, 0) == Some(i as int) && i
                < functions.len(),
            None => find_function(functions_view(functions@), name@, 0) is None,
        },
{
    let mut i: usize = 0;
    while i < functions.len()
        invariant
            i <= functions.len(),
            find_function(functions_view(functions@), name@, 0) == find_function(
                functions_view(functions@),
                name@,
                i as int,
            ),
        decreases functions.len() - i,
    {
        if str_eq(functions[i].name.as_str(), name) {
            return Some(i);
        }
        i += 1;
    }
    None
}

impl IrProgram {
    /// The program without functions or cursor.
    pub fn new() -> (r: Self)
        ensures
            r@ == IrProgramView::empty(),
    {
        let r = IrProgram { functions: Vec::new(), current_function: None, current_block: 0 };
        assert(r@.functions =~= Seq::empty());
        r
    }

    /// The index of the function that the cursor names.
    pub fn current_index(&self) -> (r: Option<usize>)
        ensures
            match r {
                Some(i) => self@.current_index() == Some(i as int) && i < self.functions.len(),
                None => self@.current_index() is None,
            },
    {
        match &self.current_function {
            Some(name) => find_index(&self.functions, name.as_str()),
            None => None,
        }
    }

    /// Adds a function that consists of one empty block, and puts the cursor
    /// there. A function that already has this name is replaced.
    pub fn add_function(&mut self, name: String, parameters: Vec<String>)
        ensures
            final(self)@ == old(self)@.with_function(name@, names_view(parameters@)),
    {
        let entry_block = BasicBlock { instructions: Vec::new(), next: None, branch: None };
        assert(entry_block@.instructions =~= Seq::empty());
        let mut blocks: Vec<BasicBlock> = Vec::new();
        blocks.push(entry_block);
        let function = IrFunction { name: name.clone(), parameters, blocks, entry_block: 0 };
        assert(function@.blocks =~= seq![empty_block()]);
        assert(function@ == fresh_function(name@, names_view(parameters@)));
        match find_index(&self.functions, name.as_str()) {
            Some(i) => {
                self.functions[i] = function;
                assert(self@.functions =~= old(self)@.functions.update(i as int, function@));
            },
            None => {
                self.functions.push(function);
                assert(self@.functions =~= old(self)@.functions.push(function@));
            },
        }
        self.current_function = Some(name);
        self.current_block = 0;
    }

    /// Appends an instruction to the block under the cursor. Where the
    /// cursor names no block that exists, nothing changes and the result is
    /// `MalformedAst`.
    pub fn add_instruction(&mut self, instruction: IrInstruction) -> (r: Result<(), CompileError>)
        ensures
            old(self)@.cursor_valid() ==> r == Ok::<(), CompileError>(()) && final(self)@ == old(
                self,
            )@.with_instruction(instruction@),
            !old(self)@.cursor_valid() ==> r == Err::<(), CompileError>(CompileError::MalformedAst)
                && final(self)@ == old(self)@,
    {
        let i = match self.current_index() {
            Some(i) => i,
            None => {
                return Err(CompileError::MalformedAst);
            },
        };
        let j = self.current_block;
        if j >= self.functions[i].blocks.len() {
            return Err(CompileError::MalformedAst);
        }
        self.functions[i].blocks[j].instructions.push(instruction);
        proof {
            let before = old(self)@;
            let f = before.functions[i as int];
            let b = f.blocks[j as int];
            let b2 = BasicBlockView { instructions: b.instructions.push(instruction@), ..b };
            assert(self.functions[i as int].blocks[j as int]@.instructions
                =~= b.instructions.push(instruction@));
            assert(self.functions[i as int]@.blocks =~= f.blocks.update(j as int, b2));
            assert(self@.functions =~= before.functions.update(
                i as int,
                IrFunctionView { blocks: f.blocks.update(j as int, b2), ..f },
            ));
        }
        Ok(())
    }

    /// Adds an empty block to the function under the cursor and returns its
    /// index. Where the cursor names no function, nothing changes and the
    /// result is 0.
    pub fn add_block(&mut self) -> (r: usize)
        ensures
            final(self)@ == old(self)@.with_block(),
            r == old(self)@.next_block(),
    {
        match self.current_index() {
            Some(i) => {
                let new_block = BasicBlock { instructions: Vec::new(), next: None, branch: None };
                assert(new_block@.instructions =~= Seq::empty());
                let block_index = self.functions[i].blocks.len();
                self.functions[i].blocks.push(new_block);
                proof {
                    let before = old(self)@;
                    let f = before.functions[i as int];
                    assert(self.functions[i as int]@.blocks =~= f.blocks.push(empty_block()));
                    assert(self@.functions =~= before.functions.update(
                        i as int,
                        IrFunctionView { blocks: f.blocks.push(empty_block()), ..f },
                    ));
                }
                block_index
            },
            None => 0,
        }
    }

    /// Marks block `to` as the one that follows block `from` in the function
    /// under the cursor. Where there is no such function or no block `from`,
    /// nothing changes.
    pub fn link_blocks(&mut self, from: usize, to: usize)
        ensures
            final(self)@ == old(self)@.linked(from, to),
    {
        match self.current_index() {
            Some(i) => {
                if from < self.functions[i].blocks.len() {
                    self.functions[i].blocks[from].next = Some(to);
                    proof {
                        let before = old(self)@;
                        let f = before.functions[i as int];
                        let b2 = BasicBlockView { next: Some(to), ..f.blocks[from as int] };
                        assert(self.functions[i as int]@.blocks =~= f.blocks.update(
                            from as int,
                            b2,
                        ));
                        assert(self@.functions =~= before.functions.update(
                            i as int,
                            IrFunctionView { blocks: f.blocks.update(from as int, b2), ..f },
                        ));
                    }
                }
            },
            None => {},
        }
    }
}

} // verus!

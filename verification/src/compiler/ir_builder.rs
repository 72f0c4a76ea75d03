use crate::compiler::error::CompileError;
use crate::compiler::ir::{
    expression_to_ir, instrs_view, lower_expr, IrInstruction, IrInstructionView,
};
use crate::compiler::program::{
    lemma_operations_keep_well_formed, names_view, well_formed, IrProgram, IrProgramView,
};
use crate::compiler::types::{
    lemma_definition_view, lemma_while_view, stmts_view, AstExpression, AstStatement, ExprView,
    StmtView,
};
use vstd::prelude::*;
use vstd::string::StringExecFns;

verus! {

/// A builder in the middle of its work, as contracts see it: the program so
/// far, the name of the function being built, and the first error, if one has
/// occurred. After an error nothing changes any more.
pub struct Emitted {
    pub ir: IrProgramView,
    pub current_fn: Seq<char>,
    pub error: Option<CompileError>,
}

impl Emitted {
    /// A builder that has met no error.
    pub open spec fn start(ir: IrProgramView, current_fn: Seq<char>) -> Emitted {
        Emitted { ir, current_fn, error: None }
    }

    /// The result that the builder's methods report.
    pub open spec fn result(self) -> Result<(), CompileError> {
        match self.error {
            Some(e) => Err(e),
            None => Ok(()),
        }
    }

    /// After one instruction is appended to the block under the cursor;
    /// `MalformedAst` where the cursor names no block.
    pub open spec fn emit(self, instruction: IrInstructionView) -> Emitted {
        if self.error is Some {
            self
        } else if self.ir.cursor_valid() {
            Emitted { ir: self.ir.with_instruction(instruction), ..self }
        } else {
            Emitted { error: Some(CompileError::MalformedAst), ..self }
        }
    }

    /// After the instructions of `code` are appended, one by one.
    pub open spec fn emit_code(self, code: Seq<IrInstructionView>) -> Emitted
        decreases code.len(),
    {
        if code.len() == 0 {
            self
        } else {
            self.emit_code(code.drop_last()).emit(code.last())
        }
    }

    /// After an expression is lowered and its instructions are appended.
    pub open spec fn expr(self, e: ExprView) -> Emitted {
        if self.error is Some {
            self
        } else {
            match lower_expr(e) {
                Ok(code) => self.emit_code(code),
                Err(e) => Emitted { error: Some(e), ..self },
            }
        }
    }

    /// After one more block is added to the function under the cursor.
    pub open spec fn block(self) -> Emitted {
        if self.error is Some {
            self
        } else {
            Emitted { ir: self.ir.with_block(), ..self }
        }
    }

    /// After the cursor is moved to `block`.
    pub open spec fn at_block(self, block: usize) -> Emitted {
        if self.error is Some {
            self
        } else {
            Emitted { ir: self.ir.at_block(block), ..self }
        }
    }

    /// After a fresh function called `name` is added and made the one being
    /// built.
    pub open spec fn function(self, name: Seq<char>) -> Emitted {
        if self.error is Some {
            self
        } else {
            Emitted { ir: self.ir.with_function(name, Seq::empty()), current_fn: name, ..self }
        }
    }

    /// After the builder goes back to block `block` of the function `name`.
    pub open spec fn back_to(self, name: Seq<char>, block: usize) -> Emitted {
        if self.error is Some {
            self
        } else {
            Emitted { ir: self.ir.at(name, block), current_fn: name, ..self }
        }
    }
}

/// What a statement does to a builder.
///
/// An assignment computes its expression and stores the value. An expression
/// statement computes its expression and leaves the value on the stack. A
/// loop adds three blocks, for the condition, the body and what follows:
/// the current block jumps to the condition, the condition jumps to the body
/// or past it, the body jumps back to the condition, and the cursor ends in
/// the block that follows. A function definition adds a function of its name,
/// lowers the body into it, ends it with `Return`, and puts the cursor back
/// where it was.
pub open spec fn emit_stmt(s: Emitted, stmt: StmtView) -> Emitted
    decreases stmt,
{
    match stmt {
        StmtView::Assignment(name, e) => s.expr(e).emit(IrInstructionView::Store(name)),
        StmtView::Expression(e) => s.expr(e),
        StmtView::While(cond, body) => {
            let cond_block = s.ir.next_block();
            let body_block = s.block().ir.next_block();
            let after_block = s.block().block().ir.next_block();
            let entered = s.block().block().block().emit(IrInstructionView::Jump(cond_block))
                .at_block(cond_block).expr(cond).emit(
                IrInstructionView::JumpIf(body_block, after_block),
            ).at_block(body_block);
            emit_stmts(entered, body).emit(IrInstructionView::Jump(cond_block)).at_block(
                after_block,
            )
        },
        StmtView::FunctionDefinition(name, body) => emit_stmts(s.function(name), body).emit(
            IrInstructionView::Return,
        ).back_to(s.current_fn, s.ir.current_block),
    }
}

/// What a sequence of statements does to a builder, one after another.
pub open spec fn emit_stmts(s: Emitted, stmts: Seq<StmtView>) -> Emitted
    decreases stmts,
{
    if stmts.len() == 0 {
        s
    } else {
        emit_stmt(emit_stmts(s, stmts.drop_last()), stmts.last())
    }
}

/// After an error, appending instructions changes nothing.
pub proof fn lemma_emit_code_after_error(s: Emitted, code: Seq<IrInstructionView>)
    requires
        s.error is Some,
    ensures
        s.emit_code(code) == s,
    decreases code.len(),
{
    if code.len() > 0 {
        lemma_emit_code_after_error(s, code.drop_last());
    }
}

/// After an error, a statement changes nothing.
pub proof fn lemma_emit_stmt_after_error(s: Emitted, stmt: StmtView)
    requires
        s.error is Some,
    ensures
        emit_stmt(s, stmt) == s,
    decreases stmt, 1nat,
{
    match stmt {
        StmtView::While(_, body) => {
            lemma_emit_stmts_after_error(s, body);
        },
        StmtView::FunctionDefinition(_, body) => {
            lemma_emit_stmts_after_error(s, body);
        },
        _ => {},
    }
}

/// After an error, statements change nothing.
pub proof fn lemma_emit_stmts_after_error(s: Emitted, stmts: Seq<StmtView>)
    requires
        s.error is Some,
    ensures
        emit_stmts(s, stmts) == s,
    decreases stmts, 0nat,
{
    if stmts.len() > 0 {
        lemma_emit_stmts_after_error(s, stmts.drop_last());
        lemma_emit_stmt_after_error(s, stmts.last());
    }
}

/// Where the first `n` of some statements end in an error, all of them end
/// in the same state.
pub proof fn lemma_emit_stmts_prefix_error(s: Emitted, stmts: Seq<StmtView>, n: int)
    requires
        0 <= n <= stmts.len(),
        emit_stmts(s, stmts.take(n)).error is Some,
    ensures
        emit_stmts(s, stmts) == emit_stmts(s, stmts.take(n)),
    decreases stmts.len() - n,
{
    if n == stmts.len() {
        assert(stmts.take(n) =~= stmts);
    } else {
        assert(stmts.take(n + 1).drop_last() =~= stmts.take(n));
        lemma_emit_stmt_after_error(emit_stmts(s, stmts.take(n)), stmts[n]);
        lemma_emit_stmts_prefix_error(s, stmts, n + 1);
    }
}

/// Appending instructions keeps a program well formed.
pub proof fn lemma_emit_code_keeps_well_formed(s: Emitted, code: Seq<IrInstructionView>)
    requires
        well_formed(s.ir),
    ensures
        well_formed(s.emit_code(code).ir),
    decreases code.len(),
{
    if code.len() > 0 {
        lemma_emit_code_keeps_well_formed(s, code.drop_last());
        let t = s.emit_code(code.drop_last());
        lemma_operations_keep_well_formed(t.ir, t.current_fn, Seq::empty(), code.last(), 0, 0);
    }
}

/// The steps of a builder keep a program well formed.
pub proof fn lemma_steps_keep_well_formed(
    s: Emitted,
    e: ExprView,
    instruction: IrInstructionView,
    name: Seq<char>,
    block: usize,
)
    requires
        well_formed(s.ir),
    ensures
        well_formed(s.emit(instruction).ir),
        well_formed(s.expr(e).ir),
        well_formed(s.block().ir),
        well_formed(s.at_block(block).ir),
        well_formed(s.function(name).ir),
        well_formed(s.back_to(name, block).ir),
{
    lemma_operations_keep_well_formed(s.ir, name, Seq::empty(), instruction, 0, block);
    match lower_expr(e) {
        Ok(code) => {
            lemma_emit_code_keeps_well_formed(s, code);
        },
        Err(_) => {},
    }
}

/// A statement keeps a program well formed.
pub proof fn lemma_emit_stmt_keeps_well_formed(s: Emitted, stmt: StmtView)
    requires
        well_formed(s.ir),
    ensures
        well_formed(emit_stmt(s, stmt).ir),
    decreases stmt, 1nat,
{
    let i = IrInstructionView::Return;
    match stmt {
        StmtView::Assignment(name, e) => {
            lemma_steps_keep_well_formed(s, e, i, name, 0);
            lemma_steps_keep_well_formed(s.expr(e), e, IrInstructionView::Store(name), name, 0);
        },
        StmtView::Expression(e) => {
            lemma_steps_keep_well_formed(s, e, i, Seq::empty(), 0);
        },
        StmtView::While(cond, body) => {
            let c = s.ir.next_block();
            let b = s.block().ir.next_block();
            let a = s.block().block().ir.next_block();
            let n = Seq::<char>::empty();
            lemma_steps_keep_well_formed(s, cond, i, n, 0);
            lemma_steps_keep_well_formed(s.block(), cond, i, n, 0);
            lemma_steps_keep_well_formed(s.block().block(), cond, i, n, 0);
            let s3 = s.block().block().block();
            lemma_steps_keep_well_formed(s3, cond, IrInstructionView::Jump(c), n, 0);
            let s4 = s3.emit(IrInstructionView::Jump(c));
            lemma_steps_keep_well_formed(s4, cond, i, n, c);
            let s5 = s4.at_block(c);
            lemma_steps_keep_well_formed(s5, cond, i, n, 0);
            let s6 = s5.expr(cond);
            lemma_steps_keep_well_formed(s6, cond, IrInstructionView::JumpIf(b, a), n, 0);
            let s7 = s6.emit(IrInstructionView::JumpIf(b, a));
            lemma_steps_keep_well_formed(s7, cond, i, n, b);
            let s8 = s7.at_block(b);
            lemma_emit_stmts_keep_well_formed(s8, body);
            let s9 = emit_stmts(s8, body);
            lemma_steps_keep_well_formed(s9, cond, IrInstructionView::Jump(c), n, 0);
            let s10 = s9.emit(IrInstructionView::Jump(c));
            lemma_steps_keep_well_formed(s10, cond, i, n, a);
        },
        StmtView::FunctionDefinition(name, body) => {
            let e = ExprView::Variable(name);
            lemma_steps_keep_well_formed(s, e, i, name, 0);
            let s1 = s.function(name);
            lemma_emit_stmts_keep_well_formed(s1, body);
            let s2 = emit_stmts(s1, body);
            lemma_steps_keep_well_formed(s2, e, i, name, 0);
            let s3 = s2.emit(i);
            lemma_steps_keep_well_formed(s3, e, i, s.current_fn, s.ir.current_block);
        },
    }
}

/// Statements keep a program well formed.
pub proof fn lemma_emit_stmts_keep_well_formed(s: Emitted, stmts: Seq<StmtView>)
    requires
        well_formed(s.ir),
    ensures
        well_formed(emit_stmts(s, stmts).ir),
    decreases stmts, 0nat,
{
    if stmts.len() > 0 {
        lemma_emit_stmts_keep_well_formed(s, stmts.drop_last());
        lemma_emit_stmt_keeps_well_formed(emit_stmts(s, stmts.drop_last()), stmts.last());
    }
}

/// Lowers statements into a program, one function at a time.
pub struct IrBuilder<'a> {
    pub ir: &'a mut IrProgram,
    pub current_fn: String,
}

impl<'a> IrBuilder<'a> {
    /// The builder as contracts see it, before any error.
    pub open spec fn emitted(&self) -> Emitted {
        Emitted::start(self.ir@, self.current_fn@)
    }

    /// A builder on `ir` that begins with a fresh function called
    /// `function_name`.
    pub fn new(ir: &'a mut IrProgram, function_name: &str) -> (r: Self)
        ensures
            r.emitted() == Emitted::start(old(ir)@, function_name@).function(function_name@),
            *final(ir) == *final(r.ir),
    {
        let parameters: Vec<String> = Vec::new();
        assert(names_view(parameters@) =~= Seq::<Seq<char>>::empty());
        ir.add_function(String::from_str(function_name), parameters);
        Self { ir, current_fn: String::from_str(function_name) }
    }

    /// Whether the builder has come to `out` and `r` is what `out` reports.
    pub open spec fn reached(&self, r: Result<(), CompileError>, out: Emitted) -> bool {
        &&& self.ir@ == out.ir
        &&& self.current_fn@ == out.current_fn
        &&& r == out.result()
    }

    /// Appends one instruction to the block under the cursor.
    fn emit(&mut self, instruction: IrInstruction) -> (r: Result<(), CompileError>)
        ensures
            final(self).reached(r, old(self).emitted().emit(instruction@)),
            *final(final(self).ir) == *final(old(self).ir),
    {
        self.ir.add_instruction(instruction)
    }

    /// Lowers an expression and appends its instructions to the block under
    /// the cursor. The result is the first error, if there is one; what was
    /// appended before it stays.
    pub fn emit_expr(&mut self, expr: &AstExpression) -> (r: Result<(), CompileError>)
        ensures
            final(self).reached(r, old(self).emitted().expr(expr@)),
            *final(final(self).ir) == *final(old(self).ir),
    {
        let instructions = match expression_to_ir(expr) {
            Ok(is) => is,
            Err(e) => {
                return Err(e);
            },
        };
        let ghost start = self.emitted();
        let ghost code = instrs_view(instructions@);
        let mut i: usize = 0;
        while i < instructions.len()
            invariant
                i <= instructions.len(),
                code == instrs_view(instructions@),
                start == old(self).emitted(),
                lower_expr(expr@) == Ok::<Seq<IrInstructionView>, CompileError>(code),
                self.emitted() == start.emit_code(code.take(i as int)),
                *final(self.ir) == *final(old(self).ir),
            decreases instructions.len() - i,
        {
            proof {
                assert(code.take(i as int + 1).drop_last() =~= code.take(i as int));
                assert(code.take(i as int + 1).last() == instructions[i as int]@);
            }
            match self.emit(instructions[i].clone()) {
                Ok(()) => {},
                Err(e) => {
                    proof {
                        lemma_emit_code_prefix_error(start, code, i as int + 1);
                    }
                    return Err(e);
                },
            }
            i += 1;
        }
        assert(code.take(i as int) =~= code);
        Ok(())
    }

    /// Lowers the statements of a body, in order.
    pub fn emit_body(&mut self, body: &Vec<AstStatement>) -> (r: Result<(), CompileError>)
        ensures
            final(self).reached(r, emit_stmts(old(self).emitted(), stmts_view(body@))),
            *final(final(self).ir) == *final(old(self).ir),
        decreases body,
    {
        let ghost start = self.emitted();
        let ghost stmts = stmts_view(body@);
        let mut i: usize = 0;
        while i < body.len()
            invariant
                i <= body.len(),
                stmts == stmts_view(body@),
                start == old(self).emitted(),
                self.emitted() == emit_stmts(start, stmts.take(i as int)),
                *final(self.ir) == *final(old(self).ir),
            decreases body.len() - i,
        {
            proof {
                assert(stmts.take(i as int + 1).drop_last() =~= stmts.take(i as int));
                assert(stmts.take(i as int + 1).last() == body[i as int]@);
            }
            match self.emit_stmt(&body[i]) {
                Ok(()) => {},
                Err(e) => {
                    proof {
                        lemma_emit_stmts_prefix_error(start, stmts, i as int + 1);
                    }
                    return Err(e);
                },
            }
            i += 1;
        }
        assert(stmts.take(i as int) =~= stmts);
        Ok(())
    }

    /// Lowers one statement. The result is the first error, if there is one;
    /// what was built before it stays.
    pub fn emit_stmt(&mut self, stmt: &AstStatement) -> (r: Result<(), CompileError>)
        ensures
            final(self).reached(r, emit_stmt(old(self).emitted(), stmt@)),
            *final(final(self).ir) == *final(old(self).ir),
        decreases stmt,
    {
        match stmt {
            AstStatement::Assignment(name, expr) => {
                match self.emit_expr(expr) {
                    Ok(()) => {},
                    Err(e) => {
                        return Err(e);
                    },
                }
                self.emit(IrInstruction::Store(name.clone()))
            },
            AstStatement::Expression(expr) => self.emit_expr(expr),
            AstStatement::While(cond, body) => {
                proof {
                    lemma_while_view(*cond, *body);
                }
                let cond_block = self.ir.add_block();
                let body_block = self.ir.add_block();
                let after_block = self.ir.add_block();
                match self.emit(IrInstruction::Jump(cond_block)) {
                    Ok(()) => {},
                    Err(e) => {
                        proof {
                            lemma_while_after_error(
                                old(self).emitted(),
                                cond@,
                                stmts_view(body@),
                                1,
                            );
                        }
                        return Err(e);
                    },
                }
                self.ir.current_block = cond_block;
                match self.emit_expr(cond) {
                    Ok(()) => {},
                    Err(e) => {
                        proof {
                            lemma_while_after_error(
                                old(self).emitted(),
                                cond@,
                                stmts_view(body@),
                                2,
                            );
                        }
                        return Err(e);
                    },
                }
                match self.emit(IrInstruction::JumpIf(body_block, after_block)) {
                    Ok(()) => {},
                    Err(e) => {
                        proof {
                            lemma_while_after_error(
                                old(self).emitted(),
                                cond@,
                                stmts_view(body@),
                                3,
                            );
                        }
                        return Err(e);
                    },
                }
                self.ir.current_block = body_block;
                match self.emit_body(body) {
                    Ok(()) => {},
                    Err(e) => {
                        return Err(e);
                    },
                }
                match self.emit(IrInstruction::Jump(cond_block)) {
                    Ok(()) => {},
                    Err(e) => {
                        return Err(e);
                    },
                }
                self.ir.current_block = after_block;
                Ok(())
            },
            AstStatement::FunctionDefinition(name, body) => {
                proof {
                    lemma_definition_view(*name, *body);
                }
                let old_function = self.current_fn.clone();
                let old_block = self.ir.current_block;
                let parameters: Vec<String> = Vec::new();
                assert(names_view(parameters@) =~= Seq::<Seq<char>>::empty());
                self.ir.add_function(name.clone(), parameters);
                self.current_fn = name.clone();
                match self.emit_body(body) {
                    Ok(()) => {},
                    Err(e) => {
                        return Err(e);
                    },
                }
                match self.emit(IrInstruction::Return) {
                    Ok(()) => {},
                    Err(e) => {
                        return Err(e);
                    },
                }
                self.ir.current_function = Some(old_function.clone());
                self.current_fn = old_function;
                self.ir.current_block = old_block;
                Ok(())
            },
        }
    }
}

/// Where the first `n` of some instructions end in an error, all of them end
/// in the same state.
pub proof fn lemma_emit_code_prefix_error(s: Emitted, code: Seq<IrInstructionView>, n: int)
    requires
        0 <= n <= code.len(),
        s.emit_code(code.take(n)).error is Some,
    ensures
        s.emit_code(code) == s.emit_code(code.take(n)),
    decreases code.len() - n,
{
    if n == code.len() {
        assert(code.take(n) =~= code);
    } else {
        assert(code.take(n + 1).drop_last() =~= code.take(n));
        lemma_emit_code_prefix_error(s, code, n + 1);
    }
}

/// Where the head of a loop ends in an error, the loop ends in the same
/// state. `stage` counts how far the head came: to the jump to the condition
/// (1), to the condition (2) or to the jump out of it (3).
pub proof fn lemma_while_after_error(s: Emitted, cond: ExprView, body: Seq<StmtView>, stage: int)
    requires
        s.error is None,
        1 <= stage <= 3,
        ({
            let c = s.ir.next_block();
            let b = s.block().ir.next_block();
            let a = s.block().block().ir.next_block();
            let jumped = s.block().block().block().emit(IrInstructionView::Jump(c));
            let tested = jumped.at_block(c).expr(cond);
            let left = tested.emit(IrInstructionView::JumpIf(b, a));
            if stage == 1 {
                jumped.error is Some
            } else if stage == 2 {
                tested.error is Some
            } else {
                left.error is Some
            }
        }),
    ensures
        ({
            let c = s.ir.next_block();
            let b = s.block().ir.next_block();
            let a = s.block().block().ir.next_block();
            let jumped = s.block().block().block().emit(IrInstructionView::Jump(c));
            let tested = jumped.at_block(c).expr(cond);
            let left = tested.emit(IrInstructionView::JumpIf(b, a));
            emit_stmt(s, StmtView::While(cond, body)) == (if stage == 1 {
                jumped
            } else if stage == 2 {
                tested
            } else {
                left
            })
        }),
{
    let c = s.ir.next_block();
    let b = s.block().ir.next_block();
    let a = s.block().block().ir.next_block();
    let jumped = s.block().block().block().emit(IrInstructionView::Jump(c));
    let tested = jumped.at_block(c).expr(cond);
    let left = tested.emit(IrInstructionView::JumpIf(b, a));
    lemma_emit_stmts_after_error(left.at_block(b), body);
}

} // verus!

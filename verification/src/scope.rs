use vstd::prelude::*;
use crate::instruction::{Instruction, Op, op_of, ops_of, lemma_ops_of, duplicate_body};
use crate::tape::TAPE_LEN;

verus! {

/// The mathematical form of a scope: its cells and its function table.
pub struct ScopeView {
    pub memory: Seq<u8>,
    pub functions: Seq<Op>,
}

impl ScopeView {
    /// A scope as it is made: every cell 0, every slot `Default`.
    pub open spec fn fresh() -> ScopeView {
        ScopeView {
            memory: Seq::new(TAPE_LEN as nat, |i: int| 0u8),
            functions: Seq::new(TAPE_LEN as nat, |i: int| Op::Default),
        }
    }

    /// Both banks have the tape's length, and a slot holds a function or
    /// nothing.
    pub open spec fn wf(self) -> bool {
        &&& self.memory.len() == TAPE_LEN
        &&& self.functions.len() == TAPE_LEN
        &&& forall|i: int|
            0 <= i < TAPE_LEN ==> (#[trigger] self.functions[i] is Function
                || self.functions[i] is Default)
    }
}

/// One memory bank with its function table: a frame of the scope stack.
pub struct Scope {
    memory: Vec<u8>,
    function_memory: Vec<Instruction>,
}

impl View for Scope {
    type V = ScopeView;

    closed spec fn view(&self) -> ScopeView {
        ScopeView { memory: self.memory@, functions: ops_of(self.function_memory@) }
    }
}

impl Scope {
    /// A scope with every cell 0 and every slot empty.
    pub fn new() -> (s: Scope)
        ensures
            s@ == ScopeView::fresh(),
            s@.wf(),
    {
        let mut memory: Vec<u8> = Vec::new();
        let mut function_memory: Vec<Instruction> = Vec::new();
        let mut k: usize = 0;
        while k < TAPE_LEN
            invariant
                k <= TAPE_LEN,
                memory@.len() == k,
                function_memory@.len() == k,
                forall|i: int| 0 <= i < k ==> memory@[i] == 0u8,
                forall|i: int| 0 <= i < k ==> op_of(#[trigger] function_memory@[i]) == Op::Default,
            decreases TAPE_LEN - k,
        {
            memory.push(0);
            function_memory.push(Instruction::Default);
            k += 1;
        }
        let s = Scope { memory, function_memory };
        proof {
            lemma_ops_of(s.function_memory@);
            assert(s@.memory =~= ScopeView::fresh().memory);
            assert(s@.functions =~= ScopeView::fresh().functions);
        }
        s
    }

    /// The cell at `i`.
    pub fn cell(&self, i: usize) -> (c: u8)
        requires
            self@.wf(),
            i < TAPE_LEN,
        ensures
            c == self@.memory[i as int],
    {
        self.memory[i]
    }

    /// Stores `v` in the cell at `i`.
    pub fn set_cell(&mut self, i: usize, v: u8)
        requires
            old(self)@.wf(),
            i < TAPE_LEN,
        ensures
            final(self)@ == (ScopeView { memory: old(self)@.memory.update(i as int, v), ..old(self)@ }),
            final(self)@.wf(),
    {
        self.memory.set(i, v);
    }

    /// The body of the function stored at `i`, copied, or `None` where the
    /// slot holds none.
    pub fn function_body(&self, i: usize) -> (r: Option<Vec<Instruction>>)
        requires
            self@.wf(),
            i < TAPE_LEN,
        ensures
            match r {
                Some(body) => self@.functions[i as int] == Op::Function(ops_of(body@)),
                None => self@.functions[i as int] is Default,
            },
    {
        proof {
            lemma_ops_of(self.function_memory@);
        }
        match &self.function_memory[i] {
            Instruction::Function(body) => Some(duplicate_body(body)),
            _ => None,
        }
    }

    /// Stores a function with the given body in the slot at `i`.
    pub fn define_function(&mut self, i: usize, body: Vec<Instruction>)
        requires
            old(self)@.wf(),
            i < TAPE_LEN,
        ensures
            final(self)@ == (ScopeView {
                functions: old(self)@.functions.update(i as int, Op::Function(ops_of(body@))),
                ..old(self)@
            }),
            final(self)@.wf(),
    {
        proof {
            lemma_ops_of(self.function_memory@);
        }
        self.function_memory.set(i, Instruction::Function(body));
        proof {
            lemma_ops_of(self.function_memory@);
            assert(self@.functions =~= old(self)@.functions.update(
                i as int,
                Op::Function(ops_of(body@)),
            ));
        }
    }
}

} // verus!

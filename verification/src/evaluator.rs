use vstd::prelude::*;
use crate::instruction::{Instruction, Op, ops_of, lemma_ops_of, duplicate_body};
use crate::machine::{
    FrameKind, FrameView, Machine, Status, call_depth, is_space, trimmed, lemma_kinds_give_depth,
};
use crate::scope::Scope;
use crate::tape::{TAPE_LEN, increment, decrement, move_left, move_right};
use crate::random::random_cell;
use crate::text::string_from_utf8;
use vstd::utf8::{decode_utf8, valid_utf8};

verus! {

/// A frame of the control stack: the instructions that run and the place of
/// the next one.
pub struct Frame {
    body: Vec<Instruction>,
    pos: usize,
    kind: FrameKind,
}

impl View for Frame {
    type V = FrameView;

    closed spec fn view(&self) -> FrameView {
        FrameView { body: ops_of(self.body@), pos: self.pos as int, kind: self.kind }
    }
}

/// The interpreter: a control stack over the program, a stack of scopes, the
/// two pointers, the input queue and the output collected so far.
pub struct Evaluator {
    frames: Vec<Frame>,
    scopes: Vec<Scope>,
    scope_pointer: usize,
    memory_pointer: usize,
    input: Vec<u8>,
    output_buffer: Vec<u8>,
}

impl View for Evaluator {
    type V = Machine;

    closed spec fn view(&self) -> Machine {
        Machine {
            frames: Seq::new(self.frames@.len(), |i: int| self.frames@[i]@),
            scopes: Seq::new(self.scopes@.len(), |i: int| self.scopes@[i]@),
            scope_pointer: self.scope_pointer as int,
            memory_pointer: self.memory_pointer as int,
            input: self.input@,
            output: self.output_buffer@,
        }
    }
}

impl Evaluator {
    /// An interpreter for `instructions`, with one fresh scope and both
    /// pointers at 0.
    pub fn new(instructions: Vec<Instruction>) -> (e: Evaluator)
        ensures
            e@ == Machine::initial(ops_of(instructions@)),
            e@.wf(),
    {
        let mut frames: Vec<Frame> = Vec::new();
        frames.push(Frame { body: instructions, pos: 0, kind: FrameKind::Program });
        let mut scopes: Vec<Scope> = Vec::new();
        scopes.push(Scope::new());
        let e = Evaluator {
            frames,
            scopes,
            scope_pointer: 0,
            memory_pointer: 0,
            input: Vec::new(),
            output_buffer: Vec::new(),
        };
        proof {
            let m = Machine::initial(ops_of(instructions@));
            lemma_ops_of(instructions@);
            assert(e@.frames =~= m.frames);
            assert(e@.scopes =~= m.scopes);
            assert(e@.input =~= m.input);
            assert(e@.output =~= m.output);
            assert(m.frames.drop_last() =~= Seq::<FrameView>::empty());
            assert(call_depth(m.frames) == 0) by {
                reveal_with_fuel(call_depth, 2);
            }
        }
        e
    }

    /// Where the interpreter stands.
    pub fn status(&self) -> (s: Status)
        requires
            self@.wf(),
        ensures
            s == self@.status(),
    {
        let last = self.frames.len() - 1;
        let top = &self.frames[last];
        proof {
            lemma_ops_of(top.body@);
            assert(self@.frames[last as int] == top@);
        }
        if top.pos < top.body.len() {
            match &top.body[top.pos] {
                Instruction::Input => if self.input.len() == 0 {
                    Status::AwaitingInput
                } else {
                    Status::Running
                },
                _ => Status::Running,
            }
        } else {
            match top.kind {
                FrameKind::Program => Status::Finished,
                FrameKind::LoopBody => Status::Running,
                FrameKind::Call => if self.scope_pointer == 0 {
                    Status::ScopeUnderflow
                } else {
                    Status::Running
                },
            }
        }
    }

    /// The current cell.
    pub fn cell(&self) -> (c: u8)
        requires
            self@.wf(),
        ensures
            c == self@.cell(),
    {
        assert(self@.scopes[self.scope_pointer as int].wf());
        self.scopes[self.scope_pointer].cell(self.memory_pointer)
    }

    /// The cell at `index` of the scope at `scope`, where there is one.
    pub fn cell_at(&self, scope: usize, index: usize) -> (c: Option<u8>)
        requires
            self@.wf(),
        ensures
            c == if scope < self@.scopes.len() && index < TAPE_LEN {
                Some(self@.scopes[scope as int].memory[index as int])
            } else {
                None
            },
    {
        if scope < self.scopes.len() && index < TAPE_LEN {
            assert(self@.scopes[scope as int].wf());
            Some(self.scopes[scope].cell(index))
        } else {
            None
        }
    }

    /// The index of the current cell.
    pub fn memory_pointer(&self) -> (p: usize)
        ensures
            p == self@.memory_pointer,
    {
        self.memory_pointer
    }

    /// The index of the current scope.
    pub fn scope_pointer(&self) -> (p: usize)
        ensures
            p == self@.scope_pointer,
    {
        self.scope_pointer
    }

    /// The number of scopes on the stack.
    pub fn scope_count(&self) -> (n: usize)
        ensures
            n == self@.scopes.len(),
    {
        self.scopes.len()
    }

    /// The bytes put out so far, in order.
    pub fn output(&self) -> (out: &Vec<u8>)
        ensures
            out@ == self@.output,
    {
        &self.output_buffer
    }

    /// The output as text: what is printed once the program has run to its
    /// end. `None` where the bytes put out are no valid UTF-8.
    pub fn output_text(&self) -> (r: Option<String>)
        ensures
            match r {
                Some(text) => valid_utf8(self@.output) && text@ == decode_utf8(self@.output),
                None => !valid_utf8(self@.output),
            },
    {
        string_from_utf8(&self.output_buffer)
    }

    fn left_cell(&self) -> (c: u8)
        requires
            self@.wf(),
        ensures
            c == self@.left_cell(),
    {
        assert(self@.scopes[self.scope_pointer as int].wf());
        self.scopes[self.scope_pointer].cell(move_left(self.memory_pointer))
    }

    fn right_cell(&self) -> (c: u8)
        requires
            self@.wf(),
        ensures
            c == self@.right_cell(),
    {
        assert(self@.scopes[self.scope_pointer as int].wf());
        self.scopes[self.scope_pointer].cell(move_right(self.memory_pointer))
    }

    fn next_is_random(&self) -> (b: bool)
        requires
            self@.wf(),
        ensures
            b == (self@.has_next() && self@.next_op() is Random),
    {
        let last = self.frames.len() - 1;
        let top = &self.frames[last];
        proof {
            lemma_ops_of(top.body@);
            assert(self@.frames[last as int] == top@);
        }
        if top.pos < top.body.len() {
            match &top.body[top.pos] {
                Instruction::Random => true,
                _ => false,
            }
        } else {
            false
        }
    }

    fn set_pos(&mut self, pos: usize)
        requires
            old(self)@.wf(),
            pos <= old(self)@.top().body.len(),
        ensures
            final(self)@ == old(self)@.with_pos(pos as int),
            final(self)@.wf(),
    {
        let last = self.frames.len() - 1;
        self.frames[last].pos = pos;
        proof {
            let m = old(self)@.with_pos(pos as int);
            assert(self@.frames =~= m.frames);
            assert(self@.scopes =~= m.scopes);
            lemma_kinds_give_depth(old(self)@.frames, m.frames);
        }
    }

    fn set_cell(&mut self, v: u8)
        requires
            old(self)@.wf(),
        ensures
            final(self)@ == old(self)@.with_cell(v),
            final(self)@.wf(),
    {
        let sp = self.scope_pointer;
        assert(self@.scopes[sp as int].wf());
        self.scopes[sp].set_cell(self.memory_pointer, v);
        proof {
            let m = old(self)@.with_cell(v);
            assert(self@.frames =~= m.frames);
            assert(self@.scopes =~= m.scopes);
        }
    }

    fn define(&mut self, body: Vec<Instruction>)
        requires
            old(self)@.wf(),
        ensures
            final(self)@ == old(self)@.with_slot(Op::Function(ops_of(body@))),
            final(self)@.wf(),
    {
        let sp = self.scope_pointer;
        assert(self@.scopes[sp as int].wf());
        self.scopes[sp].define_function(self.memory_pointer, body);
        proof {
            let m = old(self)@.with_slot(Op::Function(ops_of(body@)));
            assert(self@.frames =~= m.frames);
            assert(self@.scopes =~= m.scopes);
        }
    }

    fn enter(&mut self, body: Vec<Instruction>)
        requires
            old(self)@.wf(),
        ensures
            final(self)@ == old(self)@.entered(ops_of(body@), FrameKind::LoopBody),
            final(self)@.wf(),
    {
        self.frames.push(Frame { body, pos: 0, kind: FrameKind::LoopBody });
        proof {
            let m = old(self)@.entered(ops_of(body@), FrameKind::LoopBody);
            assert(self@.frames =~= m.frames);
            assert(self@.scopes =~= m.scopes);
            assert(m.frames.drop_last() =~= old(self)@.frames);
        }
    }

    fn call(&mut self, body: Vec<Instruction>)
        requires
            old(self)@.wf(),
        ensures
            final(self)@ == old(self)@.with_new_scope().entered(ops_of(body@), FrameKind::Call),
            final(self)@.wf(),
    {
        self.scopes.push(Scope::new());
        self.scope_pointer = self.scopes.len() - 1;
        self.frames.push(Frame { body, pos: 0, kind: FrameKind::Call });
        proof {
            let m = old(self)@.with_new_scope().entered(ops_of(body@), FrameKind::Call);
            assert(self@.frames =~= m.frames);
            assert(self@.scopes =~= m.scopes);
            assert(m.frames.drop_last() =~= old(self)@.frames);
        }
    }

    fn leave(&mut self)
        requires
            old(self)@.wf(),
            !old(self)@.has_next(),
            old(self)@.status() == Status::Running,
        ensures
            final(self)@ == old(self)@.frame_ended(),
            final(self)@.wf(),
    {
        let last = self.frames.len() - 1;
        proof {
            assert(self@.frames[last as int] == self.frames@[last as int]@);
        }
        match self.frames[last].kind {
            FrameKind::Program => {},
            FrameKind::LoopBody => {
                if self.cell() != 0 {
                    self.set_pos(0);
                } else {
                    self.frames.pop();
                    proof {
                        let m = old(self)@.frame_ended();
                        assert(self@.frames =~= m.frames);
                        assert(self@.scopes =~= m.scopes);
                    }
                }
            },
            FrameKind::Call => {
                self.frames.pop();
                self.scopes.pop();
                self.scope_pointer = self.scope_pointer - 1;
                proof {
                    let m = old(self)@.frame_ended();
                    assert(self@.frames =~= m.frames);
                    assert(self@.scopes =~= m.scopes);
                }
            },
        }
    }

    fn advance(&mut self)
        requires
            old(self)@.wf(),
            old(self)@.has_next(),
        ensures
            final(self)@ == old(self)@.advanced(),
            final(self)@.wf(),
    {
        let last = self.frames.len() - 1;
        proof {
            lemma_ops_of(self.frames[last as int].body@);
            assert(self@.frames[last as int] == self.frames@[last as int]@);
        }
        let pos = self.frames[last].pos;
        assert(pos < self.frames@[last as int].body.len());
        self.set_pos(pos + 1);
    }

    /// One step with `draw` as the value that `Random` stores, should the
    /// next instruction be one. An interpreter that is not `Running` stays as
    /// it is.
    pub fn step_with(&mut self, draw: u8)
        requires
            old(self)@.wf(),
        ensures
            final(self)@ == old(self)@.next(draw),
            final(self)@.wf(),
    {
        if self.status() != Status::Running {
            return;
        }
        let last = self.frames.len() - 1;
        proof {
            lemma_ops_of(self.frames[last as int].body@);
            assert(self@.frames[last as int] == self.frames@[last as int]@);
        }
        let pos = self.frames[last].pos;
        if pos >= self.frames[last].body.len() {
            self.leave();
            return;
        }
        match &self.frames[last].body[pos] {
            Instruction::Increment => {
                self.advance();
                let c = self.cell();
                self.set_cell(increment(c));
            },
            Instruction::Decrement => {
                self.advance();
                let c = self.cell();
                self.set_cell(decrement(c));
            },
            Instruction::MoveLeft => {
                self.advance();
                self.memory_pointer = move_left(self.memory_pointer);
            },
            Instruction::MoveRight => {
                self.advance();
                self.memory_pointer = move_right(self.memory_pointer);
            },
            Instruction::Input => {
                self.advance();
                let b = self.input.remove(0);
                self.set_cell(b);
                proof {
                    assert(self@.input =~= old(self)@.input.drop_first());
                }
            },
            Instruction::Output => {
                self.advance();
                let c = self.cell();
                self.output_buffer.push(c);
            },
            Instruction::Loop(body) => {
                if self.cell() != 0 {
                    let copy = duplicate_body(body);
                    self.advance();
                    self.enter(copy);
                } else {
                    self.advance();
                }
            },
            Instruction::Function(body) => {
                let copy = duplicate_body(body);
                self.advance();
                self.define(copy);
            },
            Instruction::CallFunction => {
                self.advance();
                assert(self@.scopes[self.scope_pointer as int].wf());
                let stored = self.scopes[self.scope_pointer].function_body(self.memory_pointer);
                match stored {
                    Some(body) => {
                        self.call(body);
                    },
                    None => {},
                }
            },
            Instruction::MoveLeftScope => {
                self.advance();
                if self.scope_pointer != 0 {
                    self.scope_pointer = self.scope_pointer - 1;
                }
            },
            Instruction::MoveRightScope => {
                self.advance();
                if self.scope_pointer != self.scopes.len() - 1 {
                    self.scope_pointer = self.scope_pointer + 1;
                }
            },
            Instruction::Random => {
                self.advance();
                self.set_cell(draw);
            },
            Instruction::Default => {
                self.advance();
            },
        }
    }

    /// One step. Where the next instruction is `Random`, the value that it
    /// stores is drawn here and returned; else 0 is returned.
    pub fn step(&mut self) -> (draw: u8)
        requires
            old(self)@.wf(),
        ensures
            old(self)@.draw_allowed(draw),
            final(self)@ == old(self)@.next(draw),
            final(self)@.wf(),
    {
        let draw = if self.next_is_random() {
            random_cell(self.left_cell(), self.right_cell())
        } else {
            0
        };
        self.step_with(draw);
        draw
    }

    /// Runs until the interpreter can take no further step or `fuel` steps
    /// are done, whichever comes first, and says where it then stands:
    /// `Running` only where the fuel was used up.
    pub fn evaluate(&mut self, fuel: u64) -> (s: Status)
        requires
            old(self)@.wf(),
        ensures
            final(self)@.wf(),
            s == final(self)@.status(),
            exists|draws: Seq<u8>|
                {
                    &&& draws.len() <= fuel
                    &&& #[trigger] old(self)@.steps_ok(draws)
                    &&& final(self)@ == old(self)@.run(draws, draws.len())
                    &&& (s == Status::Running ==> draws.len() == fuel)
                },
    {
        let ghost start = self@;
        let ghost mut draws: Seq<u8> = Seq::empty();
        let mut n: u64 = 0;
        let mut s = self.status();
        while n < fuel && s == Status::Running
            invariant
                self@.wf(),
                s == self@.status(),
                n <= fuel,
                draws.len() == n,
                start.steps_ok(draws),
                self@ == start.run(draws, n as nat),
            decreases fuel - n,
        {
            let ghost before = self@;
            let d = self.step();
            proof {
                let longer = draws.push(d);
                lemma_run_prefix(start, draws, longer, n as nat);
                assert(start.run(longer, n as nat) == before);
                assert(start.run(longer, (n + 1) as nat) == before.next(d));
                assert forall|k: nat| k < longer.len() implies (#[trigger] start.run(
                    longer,
                    k,
                )).status() == Status::Running && start.run(longer, k).draw_allowed(
                    longer[k as int],
                ) by {
                    assert(start.run(longer, k) == start.run(draws, k));
                    if k < n {
                        assert(start.run(draws, k).status() == Status::Running);
                    }
                }
                draws = longer;
            }
            n += 1;
            s = self.status();
        }
        s
    }

    /// Hands a line that was read to a waiting `Input`, and says whether the
    /// interpreter was waiting for one. The line loses the whitespace at its
    /// end and becomes the input queue; an empty rest ends the `Input` with
    /// no byte read.
    pub fn provide_line(&mut self, line: &Vec<u8>) -> (taken: bool)
        requires
            old(self)@.wf(),
        ensures
            final(self)@ == old(self)@.supplied(line@),
            final(self)@.wf(),
            taken == (old(self)@.status() == Status::AwaitingInput),
    {
        if self.status() != Status::AwaitingInput {
            return false;
        }
        let rest = trim_end(line);
        if rest.len() == 0 {
            self.advance();
        } else {
            self.input = rest;
        }
        true
    }
}

/// Tells the bytes that count as whitespace at the end of a line.
pub fn byte_is_space(b: u8) -> (r: bool)
    ensures
        r == is_space(b),
{
    b == 32 || (9 <= b && b <= 13)
}

/// A copy of `line` without the whitespace at its end.
pub fn trim_end(line: &Vec<u8>) -> (rest: Vec<u8>)
    ensures
        rest@ == trimmed(line@),
{
    let mut end: usize = line.len();
    assert(line@.subrange(0, end as int) =~= line@);
    while end > 0 && byte_is_space(line[end - 1])
        invariant
            end <= line.len(),
            trimmed(line@) == trimmed(line@.subrange(0, end as int)),
        decreases end,
    {
        assert(line@.subrange(0, end as int).drop_last() =~= line@.subrange(0, end as int - 1));
        end -= 1;
    }
    let mut rest: Vec<u8> = Vec::new();
    let mut k: usize = 0;
    while k < end
        invariant
            k <= end <= line.len(),
            rest@ == line@.subrange(0, k as int),
        decreases end - k,
    {
        rest.push(line[k]);
        assert(rest@ =~= line@.subrange(0, k as int + 1));
        k += 1;
    }
    rest
}

/// The first `n` steps depend on the first `n` draws only.
pub proof fn lemma_run_prefix(m: Machine, a: Seq<u8>, b: Seq<u8>, n: nat)
    requires
        n <= a.len(),
        n <= b.len(),
        forall|i: int| 0 <= i < n ==> a[i] == b[i],
    ensures
        forall|k: nat| k <= n ==> #[trigger] m.run(a, k) == m.run(b, k),
    decreases n,
{
    if n > 0 {
        lemma_run_prefix(m, a, b, (n - 1) as nat);
        assert(m.run(a, (n - 1) as nat) == m.run(b, (n - 1) as nat));
        assert(m.run(a, n) == m.run(b, n));
    }
}

} // verus!

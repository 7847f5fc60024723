use vstd::prelude::*;
use crate::instruction::Op;
use crate::scope::ScopeView;
use crate::tape::{TAPE_LEN, incremented, decremented, left_of, right_of, random_allowed};

verus! {

/// What a frame of the control stack runs.
#[derive(Clone, Copy, Debug, PartialEq, Eq, Structural)]
pub enum FrameKind {
    /// The whole program: the bottom frame.
    Program,
    /// The body of a loop, run again while the current cell is not 0.
    LoopBody,
    /// The body of a called function, run once in a scope of its own.
    Call,
}

/// Where the machine stands.
#[derive(Clone, Copy, Debug, PartialEq, Eq, Structural)]
pub enum Status {
    /// A step can be taken.
    Running,
    /// The next instruction is `Input` and the queue is empty.
    AwaitingInput,
    /// The program has run to its end.
    Finished,
    /// A function ends while the scope pointer stands at the bottom scope,
    /// so that it cannot be moved down: the run is aborted.
    ScopeUnderflow,
}

/// A frame of the control stack: a sequence of instructions and the place
/// of the one that comes next.
pub struct FrameView {
    pub body: Seq<Op>,
    pub pos: int,
    pub kind: FrameKind,
}

/// The state of the interpreter as a mathematical value.
pub struct Machine {
    pub frames: Seq<FrameView>,
    pub scopes: Seq<ScopeView>,
    pub scope_pointer: int,
    pub memory_pointer: int,
    pub input: Seq<u8>,
    pub output: Seq<u8>,
}

/// The number of `Call` frames among `frames`.
pub open spec fn call_depth(frames: Seq<FrameView>) -> nat
    decreases frames.len(),
{
    if frames.len() == 0 {
        0
    } else {
        call_depth(frames.drop_last()) + if frames.last().kind == FrameKind::Call {
            1nat
        } else {
            0nat
        }
    }
}

/// Frames of the same kinds hold the same number of calls.
pub proof fn lemma_kinds_give_depth(a: Seq<FrameView>, b: Seq<FrameView>)
    requires
        a.len() == b.len(),
        forall|i: int| 0 <= i < a.len() ==> a[i].kind == b[i].kind,
    ensures
        call_depth(a) == call_depth(b),
    decreases a.len(),
{
    if a.len() > 0 {
        lemma_kinds_give_depth(a.drop_last(), b.drop_last());
    }
}

/// A line without the whitespace at its end (space, tab, line feed,
/// vertical tab, form feed, carriage return).
pub open spec fn trimmed(line: Seq<u8>) -> Seq<u8>
    decreases line.len(),
{
    if line.len() > 0 && is_space(line.last()) {
        trimmed(line.drop_last())
    } else {
        line
    }
}

/// The bytes that count as whitespace at the end of a line.
pub open spec fn is_space(b: u8) -> bool {
    b == 32 || (9 <= b <= 13)
}

impl Machine {
    /// The machine before the first step of `program`.
    pub open spec fn initial(program: Seq<Op>) -> Machine {
        Machine {
            frames: seq![FrameView { body: program, pos: 0, kind: FrameKind::Program }],
            scopes: seq![ScopeView::fresh()],
            scope_pointer: 0,
            memory_pointer: 0,
            input: Seq::empty(),
            output: Seq::empty(),
        }
    }

    /// What holds of every machine that a program can reach: the bottom
    /// frame, and no other, runs the program; every frame's place lies within
    /// its body or at its end; there is one scope for the program and one
    /// for every call that runs; both pointers name something.
    pub open spec fn wf(self) -> bool {
        &&& self.frames.len() >= 1
        &&& self.frames[0].kind == FrameKind::Program
        &&& forall|i: int|
            0 <= i < self.frames.len() ==> 0 <= (#[trigger] self.frames[i]).pos
                <= self.frames[i].body.len()
        &&& forall|i: int|
            1 <= i < self.frames.len() ==> (#[trigger] self.frames[i]).kind != FrameKind::Program
        &&& self.scopes.len() == 1 + call_depth(self.frames)
        &&& forall|i: int| 0 <= i < self.scopes.len() ==> (#[trigger] self.scopes[i]).wf()
        &&& 0 <= self.scope_pointer < self.scopes.len()
        &&& 0 <= self.memory_pointer < TAPE_LEN
    }

    /// The frame that runs.
    pub open spec fn top(self) -> FrameView {
        self.frames.last()
    }

    /// Whether the running frame has an instruction left.
    pub open spec fn has_next(self) -> bool {
        self.top().pos < self.top().body.len()
    }

    /// The instruction that comes next in the running frame.
    pub open spec fn next_op(self) -> Op {
        self.top().body[self.top().pos]
    }

    /// The current scope.
    pub open spec fn scope(self) -> ScopeView {
        self.scopes[self.scope_pointer]
    }

    /// The current cell.
    pub open spec fn cell(self) -> u8 {
        self.scope().memory[self.memory_pointer]
    }

    /// The cell left of the current one; the tape is circular here too.
    pub open spec fn left_cell(self) -> u8 {
        self.scope().memory[left_of(self.memory_pointer)]
    }

    /// The cell right of the current one; the tape is circular here too.
    pub open spec fn right_cell(self) -> u8 {
        self.scope().memory[right_of(self.memory_pointer)]
    }

    /// The slot of the function table at the current cell.
    pub open spec fn slot(self) -> Op {
        self.scope().functions[self.memory_pointer]
    }

    /// The machine with `v` in the current cell.
    pub open spec fn with_cell(self, v: u8) -> Machine {
        Machine {
            scopes: self.scopes.update(
                self.scope_pointer,
                ScopeView {
                    memory: self.scope().memory.update(self.memory_pointer, v),
                    ..self.scope()
                },
            ),
            ..self
        }
    }

    /// The machine with `f` in the slot at the current cell.
    pub open spec fn with_slot(self, f: Op) -> Machine {
        Machine {
            scopes: self.scopes.update(
                self.scope_pointer,
                ScopeView {
                    functions: self.scope().functions.update(self.memory_pointer, f),
                    ..self.scope()
                },
            ),
            ..self
        }
    }

    /// The machine with the running frame at `pos`.
    pub open spec fn with_pos(self, pos: int) -> Machine {
        Machine {
            frames: self.frames.update(self.frames.len() - 1, FrameView { pos, ..self.top() }),
            ..self
        }
    }

    /// The running frame moved past its next instruction.
    pub open spec fn advanced(self) -> Machine {
        self.with_pos(self.top().pos + 1)
    }

    /// A new frame on the control stack, at its first instruction.
    pub open spec fn entered(self, body: Seq<Op>, kind: FrameKind) -> Machine {
        Machine { frames: self.frames.push(FrameView { body, pos: 0, kind }), ..self }
    }

    /// A fresh scope on the scope stack, made the current one.
    pub open spec fn with_new_scope(self) -> Machine {
        Machine {
            scopes: self.scopes.push(ScopeView::fresh()),
            scope_pointer: self.scopes.len() as int,
            ..self
        }
    }

    /// Whether a step can be taken, and if not, why.
    pub open spec fn status(self) -> Status {
        if self.has_next() {
            if self.next_op() is Input && self.input.len() == 0 {
                Status::AwaitingInput
            } else {
                Status::Running
            }
        } else {
            match self.top().kind {
                FrameKind::Program => Status::Finished,
                FrameKind::LoopBody => Status::Running,
                FrameKind::Call => if self.scope_pointer == 0 {
                    Status::ScopeUnderflow
                } else {
                    Status::Running
                },
            }
        }
    }

    /// The effect of one instruction on a machine that has moved past it.
    /// `draw` is what `Random` stores; no other instruction reads it.
    pub open spec fn apply(self, op: Op, draw: u8) -> Machine {
        match op {
            Op::Increment => self.with_cell(incremented(self.cell())),
            Op::Decrement => self.with_cell(decremented(self.cell())),
            Op::MoveLeft => Machine { memory_pointer: left_of(self.memory_pointer), ..self },
            Op::MoveRight => Machine { memory_pointer: right_of(self.memory_pointer), ..self },
            Op::Input => if self.input.len() > 0 {
                Machine { input: self.input.drop_first(), ..self.with_cell(self.input[0]) }
            } else {
                self
            },
            Op::Output => Machine { output: self.output.push(self.cell()), ..self },
            Op::Loop(body) => if self.cell() != 0 {
                self.entered(body, FrameKind::LoopBody)
            } else {
                self
            },
            Op::Function(body) => self.with_slot(Op::Function(body)),
            Op::CallFunction => match self.slot() {
                Op::Function(body) => self.with_new_scope().entered(body, FrameKind::Call),
                _ => self,
            },
            Op::MoveLeftScope => if self.scope_pointer > 0 {
                Machine { scope_pointer: self.scope_pointer - 1, ..self }
            } else {
                self
            },
            Op::MoveRightScope => if self.scope_pointer + 1 < self.scopes.len() {
                Machine { scope_pointer: self.scope_pointer + 1, ..self }
            } else {
                self
            },
            Op::Random => self.with_cell(draw),
            Op::Default => self,
        }
    }

    /// What happens when the running frame has no instruction left: a loop
    /// body starts again while the current cell is not 0 and is left
    /// otherwise; a function returns, its scope is dropped from the top of
    /// the scope stack and the scope pointer moves down by one.
    pub open spec fn frame_ended(self) -> Machine {
        match self.top().kind {
            FrameKind::Program => self,
            FrameKind::LoopBody => if self.cell() != 0 {
                self.with_pos(0)
            } else {
                Machine { frames: self.frames.drop_last(), ..self }
            },
            FrameKind::Call => Machine {
                frames: self.frames.drop_last(),
                scopes: self.scopes.drop_last(),
                scope_pointer: self.scope_pointer - 1,
                ..self
            },
        }
    }

    /// One step. A machine that is not `Running` stays as it is.
    pub open spec fn next(self, draw: u8) -> Machine {
        if self.status() != Status::Running {
            self
        } else if self.has_next() {
            self.advanced().apply(self.next_op(), draw)
        } else {
            self.frame_ended()
        }
    }

    /// Whether `draw` is a value that the next step may be given: where the
    /// next instruction is `Random`, one that lies between the neighbours as
    /// `random_allowed` says; else 0, as no other step reads it.
    pub open spec fn draw_allowed(self, draw: u8) -> bool {
        if self.has_next() && self.next_op() is Random {
            random_allowed(self.left_cell(), self.right_cell(), draw)
        } else {
            draw == 0
        }
    }

    /// The machine after the first `n` of the steps that `draws` feeds.
    pub open spec fn run(self, draws: Seq<u8>, n: nat) -> Machine
        decreases n,
    {
        if n == 0 {
            self
        } else {
            self.run(draws, (n - 1) as nat).next(draws[n - 1])
        }
    }

    /// Every one of the steps that `draws` feeds starts from a `Running`
    /// machine and is given a draw that it may be given.
    pub open spec fn steps_ok(self, draws: Seq<u8>) -> bool {
        forall|k: nat|
            k < draws.len() ==> (#[trigger] self.run(draws, k)).status() == Status::Running
                && self.run(draws, k).draw_allowed(draws[k as int])
    }

    /// The machine after a line was read for a waiting `Input`. The line
    /// loses the whitespace at its end and becomes the queue. Where nothing
    /// is left of it, the `Input` is over with no byte read: the cell keeps
    /// its value and the next `Input` waits again. A machine that does not
    /// wait stays as it is.
    pub open spec fn supplied(self, line: Seq<u8>) -> Machine {
        if self.status() != Status::AwaitingInput {
            self
        } else if trimmed(line).len() == 0 {
            self.advanced()
        } else {
            Machine { input: trimmed(line), ..self }
        }
    }
}

} // verus!

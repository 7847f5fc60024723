use vstd::prelude::*;
use crate::instruction::Op;
use crate::machine::{
    FrameKind, FrameView, Machine, Status, is_space, trimmed, lemma_kinds_give_depth,
};
use crate::scope::ScopeView;
use crate::tape::TAPE_LEN;

verus! {

/// Only `Random` reads the draw: a step from any other place is the same
/// whatever the draw.
pub proof fn lemma_draw_read_by_random_only(m: Machine, first: u8, second: u8)
    requires
        !(m.has_next() && m.next_op() is Random),
    ensures
        m.next(first) == m.next(second),
{
}

/// A loop met on a cell that holds 0 does not run its body: the step only
/// moves past the loop, and scopes, pointers, input and output stay as they
/// are.
pub proof fn lemma_loop_on_zero(m: Machine, body: Seq<Op>, draw: u8)
    requires
        m.wf(),
        m.has_next(),
        m.next_op() == Op::Loop(body),
        m.cell() == 0,
    ensures
        m.next(draw) == m.advanced(),
        m.next(draw).frames.len() == m.frames.len(),
        m.next(draw).scopes == m.scopes,
        m.next(draw).scope_pointer == m.scope_pointer,
        m.next(draw).memory_pointer == m.memory_pointer,
        m.next(draw).input == m.input,
        m.next(draw).output == m.output,
{
}

/// A loop met on a cell that holds another value starts its body: the body
/// becomes the running frame, at its first instruction, and scopes,
/// pointers, input and output stay as they are.
pub proof fn lemma_loop_entered(m: Machine, body: Seq<Op>, draw: u8)
    requires
        m.wf(),
        m.has_next(),
        m.next_op() == Op::Loop(body),
        m.cell() != 0,
    ensures
        m.next(draw) == m.advanced().entered(body, FrameKind::LoopBody),
        m.next(draw).top() == (FrameView { body, pos: 0, kind: FrameKind::LoopBody }),
        m.next(draw).scopes == m.scopes,
        m.next(draw).scope_pointer == m.scope_pointer,
        m.next(draw).memory_pointer == m.memory_pointer,
        m.next(draw).input == m.input,
        m.next(draw).output == m.output,
{
}

/// At the end of a loop's body the current cell, as the body left pointer
/// and cell, decides: the body starts again where the cell is not 0, and
/// the loop is left where it is.
pub proof fn lemma_loop_body_ended(m: Machine, draw: u8)
    requires
        m.wf(),
        !m.has_next(),
        m.top().kind == FrameKind::LoopBody,
    ensures
        m.cell() != 0 ==> m.next(draw) == m.with_pos(0),
        m.cell() == 0 ==> m.next(draw).frames == m.frames.drop_last(),
        m.next(draw).scopes == m.scopes,
        m.next(draw).scope_pointer == m.scope_pointer,
        m.next(draw).memory_pointer == m.memory_pointer,
        m.next(draw).input == m.input,
        m.next(draw).output == m.output,
{
}

/// A line with something before the whitespace at its end, handed to a
/// waiting machine, is read from its first byte: the next step stores that
/// byte in the current cell and leaves the rest in the queue.
pub proof fn lemma_line_is_read(m: Machine, line: Seq<u8>, draw: u8)
    requires
        m.wf(),
        m.status() == Status::AwaitingInput,
        trimmed(line).len() > 0,
    ensures
        m.supplied(line).status() == Status::Running,
        m.supplied(line).next(draw).cell() == trimmed(line)[0],
        m.supplied(line).next(draw).input == trimmed(line).drop_first(),
{
}

/// A line of whitespace alone, handed to a waiting machine, ends the `Input`
/// with no byte read: the machine moves past it and nothing else changes.
pub proof fn lemma_blank_line_reads_nothing(m: Machine, line: Seq<u8>)
    requires
        m.wf(),
        m.status() == Status::AwaitingInput,
        trimmed(line).len() == 0,
    ensures
        m.supplied(line) == m.advanced(),
        m.supplied(line).scopes == m.scopes,
        m.supplied(line).input.len() == 0,
        m.supplied(line).output == m.output,
{
}

/// What `trimmed` leaves of a line is its start, and ends in no whitespace.
pub proof fn lemma_trimmed(line: Seq<u8>)
    ensures
        trimmed(line).is_prefix_of(line),
        trimmed(line).len() > 0 ==> !is_space(trimmed(line).last()),
        trimmed(trimmed(line)) == trimmed(line),
    decreases line.len(),
{
    if line.len() > 0 && is_space(line.last()) {
        lemma_trimmed(line.drop_last());
    }
}

/// A call on a cell whose slot holds no function does nothing: the step only
/// moves past the call.
pub proof fn lemma_call_of_empty_slot(m: Machine, draw: u8)
    requires
        m.wf(),
        m.has_next(),
        m.next_op() is CallFunction,
        m.slot() is Default,
    ensures
        m.next(draw) == m.advanced(),
        m.next(draw).frames.len() == m.frames.len(),
        m.next(draw).scopes == m.scopes,
        m.next(draw).scope_pointer == m.scope_pointer,
        m.next(draw).memory_pointer == m.memory_pointer,
        m.next(draw).input == m.input,
        m.next(draw).output == m.output,
{
}

/// A function defined at a cell and called there at once runs its body from
/// the start, in a scope of its own at the top of the stack, which is fresh
/// whatever the caller's memory holds: every cell 0, every slot empty. The
/// scopes below keep their cells.
pub proof fn lemma_define_then_call(m: Machine, body: Seq<Op>, first: u8, second: u8)
    requires
        m.wf(),
        m.has_next(),
        m.next_op() == Op::Function(body),
        m.top().pos + 1 < m.top().body.len(),
        m.top().body[m.top().pos + 1] is CallFunction,
    ensures
        ({
            let r = m.next(first).next(second);
            &&& r.top() == (FrameView { body, pos: 0, kind: FrameKind::Call })
            &&& r.frames.len() == m.frames.len() + 1
            &&& r.scopes.len() == m.scopes.len() + 1
            &&& r.scope_pointer == m.scopes.len()
            &&& r.scope() == ScopeView::fresh()
            &&& forall|i: int| 0 <= i < TAPE_LEN ==> r.scope().memory[i] == 0
            &&& forall|j: int|
                0 <= j < m.scopes.len() ==> (#[trigger] r.scopes[j]).memory == m.scopes[j].memory
            &&& r.memory_pointer == m.memory_pointer
            &&& r.input == m.input
            &&& r.output == m.output
        }),
{
    let a = m.next(first);
    assert(a == m.advanced().with_slot(Op::Function(body)));
    assert(a.has_next());
    assert(a.next_op() is CallFunction);
    assert(a.status() == Status::Running);
    assert(a.slot() == Op::Function(body));
    let r = a.next(second);
    assert(r == a.advanced().with_new_scope().entered(body, FrameKind::Call));
}

/// What `Random` stores between a left neighbour that is less than the right
/// one lies between the two, ends included; otherwise it lies at or above the
/// left one or at or below the right one.
pub proof fn lemma_random_step(m: Machine, draw: u8)
    requires
        m.wf(),
        m.has_next(),
        m.next_op() is Random,
        m.draw_allowed(draw),
    ensures
        m.next(draw).cell() == draw,
        m.right_cell() > m.left_cell() ==> m.left_cell() <= draw <= m.right_cell(),
        m.right_cell() <= m.left_cell() ==> draw >= m.left_cell() || draw <= m.right_cell(),
{
}

/// A step keeps a well-formed machine well-formed: the scope pointer names a
/// scope, the memory pointer a cell, and there is one scope for the program
/// and one for every call that runs.
pub proof fn lemma_next_wf(m: Machine, draw: u8)
    requires
        m.wf(),
    ensures
        m.next(draw).wf(),
{
    let r = m.next(draw);
    if m.status() == Status::Running {
        if m.has_next() {
            let a = m.advanced();
            lemma_kinds_give_depth(m.frames, a.frames);
            assert(a.wf());
            match m.next_op() {
                Op::Loop(body) => {
                    assert(a.entered(body, FrameKind::LoopBody).frames.drop_last() =~= a.frames);
                },
                Op::CallFunction => {
                    match a.slot() {
                        Op::Function(body) => {
                            let e = a.with_new_scope().entered(body, FrameKind::Call);
                            assert(e.frames.drop_last() =~= a.frames);
                            assert(ScopeView::fresh().wf());
                        },
                        _ => {},
                    }
                },
                _ => {},
            }
        } else {
            match m.top().kind {
                FrameKind::LoopBody => {
                    lemma_kinds_give_depth(m.frames, m.with_pos(0).frames);
                },
                _ => {},
            }
        }
    }
}

/// The scopes form a stack that only calls move: a step pushes one fresh
/// scope exactly where it enters a function, drops the top one exactly where
/// a function returns, and otherwise keeps their number. Below the top, a
/// step changes at most the current scope.
pub proof fn lemma_scope_stack(m: Machine, draw: u8)
    requires
        m.wf(),
    ensures
        ({
            let r = m.next(draw);
            let enters = m.status() == Status::Running && m.has_next() && m.next_op() is CallFunction
                && m.slot() is Function;
            let leaves = m.status() == Status::Running && !m.has_next() && m.top().kind
                == FrameKind::Call;
            &&& enters ==> r.scopes == m.scopes.push(ScopeView::fresh()) && r.frames.len()
                == m.frames.len() + 1
            &&& leaves ==> r.scopes == m.scopes.drop_last() && r.frames.len() + 1
                == m.frames.len() && r.scope_pointer == m.scope_pointer - 1
            &&& !enters && !leaves ==> r.scopes.len() == m.scopes.len()
            &&& forall|j: int|
                0 <= j < m.scopes.len() && j < r.scopes.len() && j != m.scope_pointer
                    ==> #[trigger] r.scopes[j] == m.scopes[j]
        }),
{
}

/// Every machine that a well-formed one reaches is well-formed.
pub proof fn lemma_run_wf(m: Machine, draws: Seq<u8>, n: nat)
    requires
        m.wf(),
        n <= draws.len(),
    ensures
        m.run(draws, n).wf(),
    decreases n,
{
    if n > 0 {
        lemma_run_wf(m, draws, (n - 1) as nat);
        lemma_next_wf(m.run(draws, (n - 1) as nat), draws[n - 1]);
    }
}

/// The output only grows: what was put out stays, in its place, and a step
/// adds at most one byte behind it.
pub proof fn lemma_output_grows(m: Machine, draw: u8)
    ensures
        m.output.is_prefix_of(m.next(draw).output),
        m.next(draw).output.len() <= m.output.len() + 1,
{
}

/// What was put out before a run stands at the start of what is put out
/// after it.
pub proof fn lemma_run_keeps_output(m: Machine, draws: Seq<u8>, n: nat)
    ensures
        m.output.is_prefix_of(m.run(draws, n).output),
    decreases n,
{
    if n > 0 {
        lemma_run_keeps_output(m, draws, (n - 1) as nat);
        lemma_output_grows(m.run(draws, (n - 1) as nat), draws[n - 1]);
    }
}

/// A machine that cannot take a step stays as it is, however long it is run.
pub proof fn lemma_halted_stays(m: Machine, draws: Seq<u8>, n: nat)
    requires
        m.status() != Status::Running,
    ensures
        m.run(draws, n) == m,
    decreases n,
{
    if n > 0 {
        lemma_halted_stays(m, draws, (n - 1) as nat);
    }
}

} // verus!

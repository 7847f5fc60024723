//! The written form of a program. One byte stands for one instruction:
//! `+` `-` increment and decrement, `<` `>` move the memory pointer, `,` `.`
//! input and output, `[` .. `]` a loop, `(` .. `)` a function, `!` a call,
//! `{` `}` move the scope pointer, `?` a random draw. Every other byte is a
//! comment.

use vstd::prelude::*;
use crate::instruction::{Instruction, Op, ops_of, lemma_ops_of_push};

verus! {

/// The instruction that a byte stands for by itself, if any.
pub open spec fn simple_op(b: u8) -> Option<Op> {
    if b == 43 {
        Some(Op::Increment)
    } else if b == 45 {
        Some(Op::Decrement)
    } else if b == 60 {
        Some(Op::MoveLeft)
    } else if b == 62 {
        Some(Op::MoveRight)
    } else if b == 44 {
        Some(Op::Input)
    } else if b == 46 {
        Some(Op::Output)
    } else if b == 33 {
        Some(Op::CallFunction)
    } else if b == 123 {
        Some(Op::MoveLeftScope)
    } else if b == 125 {
        Some(Op::MoveRightScope)
    } else if b == 63 {
        Some(Op::Random)
    } else {
        None
    }
}

/// `[` and `(` open a body.
pub open spec fn opens(b: u8) -> bool {
    b == 91 || b == 40
}

/// `]` and `)` close a body.
pub open spec fn closes(b: u8) -> bool {
    b == 93 || b == 41
}

/// The byte that closes what `open` opens.
pub open spec fn closer_of(open: u8) -> u8 {
    if open == 91 {
        93
    } else {
        41
    }
}

/// The instruction that owns `body`: a loop behind `[`, else a function.
pub open spec fn block(open: u8, body: Seq<Op>) -> Op {
    if open == 91 {
        Op::Loop(body)
    } else {
        Op::Function(body)
    }
}

/// What reading a sequence of instructions gave: the instructions, the place
/// where the reading stopped (the end of the text or a closing byte), and
/// whether every body that was opened on the way was closed by its own
/// closing byte.
pub struct Parsed {
    pub ops: Seq<Op>,
    pub next: int,
    pub ok: bool,
}

/// The sequence of instructions written in `src` from `i` up to the end of
/// the text or the first closing byte that belongs to no body opened in
/// between.
pub open spec fn parse_seq(src: Seq<u8>, i: int) -> Parsed
    decreases src.len() - i,
{
    if i < 0 || i >= src.len() {
        Parsed { ops: Seq::empty(), next: src.len() as int, ok: true }
    } else if closes(src[i]) {
        Parsed { ops: Seq::empty(), next: i, ok: true }
    } else if opens(src[i]) {
        let inner = parse_seq(src, i + 1);
        if inner.ok && i < inner.next < src.len() && src[inner.next] == closer_of(src[i]) {
            let rest = parse_seq(src, inner.next + 1);
            Parsed { ops: seq![block(src[i], inner.ops)] + rest.ops, next: rest.next, ok: rest.ok }
        } else {
            Parsed { ops: Seq::empty(), next: i, ok: false }
        }
    } else {
        let rest = parse_seq(src, i + 1);
        match simple_op(src[i]) {
            Some(op) => Parsed { ops: seq![op] + rest.ops, next: rest.next, ok: rest.ok },
            None => rest,
        }
    }
}

/// The program written in `src`, or `None` where a body is left open, is
/// closed by the wrong byte, or a closing byte closes nothing.
pub open spec fn program_of(src: Seq<u8>) -> Option<Seq<Op>> {
    let p = parse_seq(src, 0);
    if p.ok && p.next == src.len() {
        Some(p.ops)
    } else {
        None
    }
}

/// Reading stops within the text and behind where it began, and where it
/// went well and stopped before the end, it stopped at a closing byte.
pub proof fn lemma_parse_seq_stops(src: Seq<u8>, i: int)
    requires
        0 <= i <= src.len(),
    ensures
        i <= parse_seq(src, i).next <= src.len(),
        parse_seq(src, i).ok && parse_seq(src, i).next < src.len() ==> closes(
            src[parse_seq(src, i).next],
        ),
    decreases src.len() - i,
{
    if i < src.len() && !closes(src[i]) {
        lemma_parse_seq_stops(src, i + 1);
        if opens(src[i]) {
            let inner = parse_seq(src, i + 1);
            if inner.ok && i < inner.next < src.len() && src[inner.next] == closer_of(src[i]) {
                lemma_parse_seq_stops(src, inner.next + 1);
            }
        }
    }
}

/// A text without a byte that opens or closes a body is a program.
pub proof fn lemma_flat_text_is_a_program(src: Seq<u8>)
    requires
        forall|k: int| 0 <= k < src.len() ==> !opens(src[k]) && !closes(src[k]),
    ensures
        program_of(src) is Some,
{
    lemma_flat_from(src, 0);
}

proof fn lemma_flat_from(src: Seq<u8>, i: int)
    requires
        0 <= i <= src.len(),
        forall|k: int| 0 <= k < src.len() ==> !opens(src[k]) && !closes(src[k]),
    ensures
        parse_seq(src, i).ok,
        parse_seq(src, i).next == src.len(),
    decreases src.len() - i,
{
    if i < src.len() {
        lemma_flat_from(src, i + 1);
    }
}

fn simple(b: u8) -> (r: Option<Instruction>)
    ensures
        match r {
            Some(i) => simple_op(b) == Some(i@),
            None => simple_op(b) is None,
        },
{
    if b == 43 {
        Some(Instruction::Increment)
    } else if b == 45 {
        Some(Instruction::Decrement)
    } else if b == 60 {
        Some(Instruction::MoveLeft)
    } else if b == 62 {
        Some(Instruction::MoveRight)
    } else if b == 44 {
        Some(Instruction::Input)
    } else if b == 46 {
        Some(Instruction::Output)
    } else if b == 33 {
        Some(Instruction::CallFunction)
    } else if b == 123 {
        Some(Instruction::MoveLeftScope)
    } else if b == 125 {
        Some(Instruction::MoveRightScope)
    } else if b == 63 {
        Some(Instruction::Random)
    } else {
        None
    }
}

fn byte_closes(b: u8) -> (r: bool)
    ensures
        r == closes(b),
{
    b == 93 || b == 41
}

/// Reads the sequence that starts at `start`: the instructions, the place
/// where the reading stopped, and whether it went well.
fn parse_from(src: &Vec<u8>, start: usize) -> (r: (Vec<Instruction>, usize, bool))
    requires
        start <= src.len(),
    ensures
        r.2 == parse_seq(src@, start as int).ok,
        r.2 ==> ops_of(r.0@) == parse_seq(src@, start as int).ops,
        r.2 ==> r.1 == parse_seq(src@, start as int).next,
        start <= r.1 <= src.len(),
    decreases src.len() - start,
{
    let mut out: Vec<Instruction> = Vec::new();
    let mut i: usize = start;
    assert(ops_of(out@) + parse_seq(src@, i as int).ops =~= parse_seq(src@, i as int).ops);
    while i < src.len() && !byte_closes(src[i])
        invariant
            start <= i <= src.len(),
            parse_seq(src@, start as int).ok == parse_seq(src@, i as int).ok,
            parse_seq(src@, i as int).ok ==> parse_seq(src@, start as int).ops == ops_of(out@)
                + parse_seq(src@, i as int).ops,
            parse_seq(src@, i as int).ok ==> parse_seq(src@, start as int).next == parse_seq(
                src@,
                i as int,
            ).next,
        decreases src.len() - i,
    {
        let b = src[i];
        let ghost here = parse_seq(src@, i as int);
        let ghost before = ops_of(out@);
        if b == 91 || b == 40 {
            let (body, end, ok) = parse_from(src, i + 1);
            if !ok || end >= src.len() {
                return (out, i, false);
            }
            let closing: u8 = if b == 91 {
                93
            } else {
                41
            };
            if src[end] != closing {
                return (out, i, false);
            }
            let instruction = if b == 91 {
                Instruction::Loop(body)
            } else {
                Instruction::Function(body)
            };
            proof {
                lemma_ops_of_push(out@, instruction);
                let rest = parse_seq(src@, end as int + 1);
                assert(here.ops == seq![instruction@] + rest.ops);
                assert(before.push(instruction@) + rest.ops =~= before + here.ops);
            }
            out.push(instruction);
            i = end + 1;
        } else {
            let found = simple(b);
            match found {
                Some(instruction) => {
                    proof {
                        lemma_ops_of_push(out@, instruction);
                        let rest = parse_seq(src@, i as int + 1);
                        assert(here.ops == seq![instruction@] + rest.ops);
                        assert(before.push(instruction@) + rest.ops =~= before + here.ops);
                    }
                    out.push(instruction);
                },
                None => {},
            }
            i += 1;
        }
    }
    proof {
        assert(ops_of(out@) + Seq::<Op>::empty() =~= ops_of(out@));
    }
    (out, i, true)
}

/// Reads a program from its written form. `None` where a body is left open,
/// is closed by the wrong byte, or a closing byte closes nothing.
pub fn parse(src: &Vec<u8>) -> (r: Option<Vec<Instruction>>)
    ensures
        match r {
            Some(program) => program_of(src@) == Some(ops_of(program@)),
            None => program_of(src@) is None,
        },
{
    let (program, end, ok) = parse_from(src, 0);
    if ok && end == src.len() {
        Some(program)
    } else {
        None
    }
}

} // verus!

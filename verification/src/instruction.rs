use vstd::prelude::*;

verus! {

/// The mathematical form of an instruction: the same tree, with sequences in
/// place of vectors.
pub enum Op {
    Increment,
    Decrement,
    MoveLeft,
    MoveRight,
    Input,
    Output,
    Loop(Seq<Op>),
    Function(Seq<Op>),
    CallFunction,
    MoveLeftScope,
    MoveRightScope,
    Random,
    Default,
}

/// One operation of a program. `Loop` and `Function` own their bodies.
#[derive(Debug, PartialEq, Eq)]
pub enum Instruction {
    Increment,
    Decrement,
    MoveLeft,
    MoveRight,
    Input,
    Output,
    Loop(Vec<Instruction>),
    Function(Vec<Instruction>),
    CallFunction,
    MoveLeftScope,
    MoveRightScope,
    Random,
    Default,
}

/// The mathematical form of one instruction.
pub open spec fn op_of(i: Instruction) -> Op
    decreases i,
{
    match i {
        Instruction::Increment => Op::Increment,
        Instruction::Decrement => Op::Decrement,
        Instruction::MoveLeft => Op::MoveLeft,
        Instruction::MoveRight => Op::MoveRight,
        Instruction::Input => Op::Input,
        Instruction::Output => Op::Output,
        Instruction::Loop(body) => Op::Loop(ops_of(body@)),
        Instruction::Function(body) => Op::Function(ops_of(body@)),
        Instruction::CallFunction => Op::CallFunction,
        Instruction::MoveLeftScope => Op::MoveLeftScope,
        Instruction::MoveRightScope => Op::MoveRightScope,
        Instruction::Random => Op::Random,
        Instruction::Default => Op::Default,
    }
}

/// The mathematical form of a sequence of instructions, element by element.
pub open spec fn ops_of(s: Seq<Instruction>) -> Seq<Op>
    decreases s,
{
    if s.len() == 0 {
        Seq::empty()
    } else {
        ops_of(s.drop_last()).push(op_of(s.last()))
    }
}

/// `ops_of` keeps the length and maps each element by `op_of`.
pub proof fn lemma_ops_of(s: Seq<Instruction>)
    ensures
        ops_of(s).len() == s.len(),
        forall|k: int| 0 <= k < s.len() ==> #[trigger] ops_of(s)[k] == op_of(s[k]),
    decreases s.len(),
{
    if s.len() > 0 {
        lemma_ops_of(s.drop_last());
    }
}

/// `ops_of` of a sequence extended by one element.
pub proof fn lemma_ops_of_push(s: Seq<Instruction>, i: Instruction)
    ensures
        ops_of(s.push(i)) == ops_of(s).push(op_of(i)),
{
    assert(s.push(i).drop_last() =~= s);
}

impl View for Instruction {
    type V = Op;

    open spec fn view(&self) -> Op {
        op_of(*self)
    }
}

impl Instruction {
    /// A deep copy: the same tree.
    pub fn duplicate(&self) -> (r: Instruction)
        ensures
            r@ == self@,
        decreases self,
    {
        match self {
            Instruction::Increment => Instruction::Increment,
            Instruction::Decrement => Instruction::Decrement,
            Instruction::MoveLeft => Instruction::MoveLeft,
            Instruction::MoveRight => Instruction::MoveRight,
            Instruction::Input => Instruction::Input,
            Instruction::Output => Instruction::Output,
            Instruction::Loop(body) => Instruction::Loop(duplicate_body(body)),
            Instruction::Function(body) => Instruction::Function(duplicate_body(body)),
            Instruction::CallFunction => Instruction::CallFunction,
            Instruction::MoveLeftScope => Instruction::MoveLeftScope,
            Instruction::MoveRightScope => Instruction::MoveRightScope,
            Instruction::Random => Instruction::Random,
            Instruction::Default => Instruction::Default,
        }
    }
}

/// A deep copy of a sequence of instructions.
pub fn duplicate_body(body: &Vec<Instruction>) -> (r: Vec<Instruction>)
    ensures
        ops_of(r@) == ops_of(body@),
    decreases body,
{
    let mut out: Vec<Instruction> = Vec::new();
    let mut k: usize = 0;
    while k < body.len()
        invariant
            k <= body.len(),
            out@.len() == k,
            ops_of(out@) == ops_of(body@.subrange(0, k as int)),
        decreases body.len() - k,
    {
        proof {
            assert(decreases_to!(body => body@));
            assert(decreases_to!(body@ => body@[k as int]));
        }
        let copy = body[k].duplicate();
        proof {
            lemma_ops_of_push(out@, copy);
            lemma_ops_of_push(body@.subrange(0, k as int), body@[k as int]);
            assert(body@.subrange(0, k as int).push(body@[k as int]) =~= body@.subrange(
                0,
                k as int + 1,
            ));
        }
        out.push(copy);
        k += 1;
    }
    proof {
        assert(body@.subrange(0, k as int) =~= body@);
    }
    out
}

} // verus!

use vstd::prelude::*;

verus! {

/// The eight instructions of the machine. They carry no payload.
#[derive(Clone, Copy, Debug, PartialEq, Eq, Structural)]
pub enum Instruction {
    /// Add one to the current cell, wrapping from 255 to 0.
    Add,
    /// Subtract one from the current cell, wrapping from 0 to 255.
    Subtract,
    /// Move the data pointer one cell to the right.
    Next,
    /// Move the data pointer one cell to the left.
    Previous,
    /// Write the current cell to the output and remember it as the last output.
    Output,
    /// Set the current cell to the last byte written out.
    GetInput,
    /// Enter a loop if the current cell is nonzero, else skip to its matching end.
    BeginLoop,
    /// Jump back to the start of the loop if the current cell is nonzero, else leave it.
    ///
    /// With no loop open this is an error whatever the cell holds: a stray loop
    /// end is never silently passed over.
    EndLoop,
}

/// The instruction a program symbol stands for, if any.
pub open spec fn symbol_instruction(c: char) -> Option<Instruction> {
    if c == '+' {
        Some(Instruction::Add)
    } else if c == '-' {
        Some(Instruction::Subtract)
    } else if c == '>' {
        Some(Instruction::Next)
    } else if c == '<' {
        Some(Instruction::Previous)
    } else if c == '.' {
        Some(Instruction::Output)
    } else if c == ',' {
        Some(Instruction::GetInput)
    } else if c == '[' {
        Some(Instruction::BeginLoop)
    } else if c == ']' {
        Some(Instruction::EndLoop)
    } else {
        None
    }
}

/// The program that a text denotes: its symbols in order, every other character dropped.
pub open spec fn parse_spec(s: Seq<char>) -> Seq<Instruction>
    decreases s.len(),
{
    if s.len() == 0 {
        Seq::empty()
    } else {
        let rest = parse_spec(s.drop_last());
        match symbol_instruction(s.last()) {
            Some(i) => rest.push(i),
            None => rest,
        }
    }
}

/// The instruction for one character, if it is a program symbol.
pub fn instruction_of(c: char) -> (r: Option<Instruction>)
    ensures
        r == symbol_instruction(c),
{
    match c {
        '+' => Some(Instruction::Add),
        '-' => Some(Instruction::Subtract),
        '>' => Some(Instruction::Next),
        '<' => Some(Instruction::Previous),
        '.' => Some(Instruction::Output),
        ',' => Some(Instruction::GetInput),
        '[' => Some(Instruction::BeginLoop),
        ']' => Some(Instruction::EndLoop),
        _ => None,
    }
}

/// Turns program text into its instructions, in order, dropping every other character.
pub fn parse(symbols: &String) -> (r: Vec<Instruction>)
    ensures
        r@ == parse_spec(symbols@),
{
    broadcast use vstd::string::axiom_spec_iter;

    let mut out: Vec<Instruction> = Vec::new();
    for c in it: symbols.as_str().chars()
        invariant
            it.seq() == symbols@,
            out@ == parse_spec(symbols@.take(it.index() as int)),
    {
        proof {
            let k = it.index() as int;
            assert(symbols@.take(k + 1).drop_last() == symbols@.take(k));
        }
        match instruction_of(c) {
            Some(i) => out.push(i),
            None => {},
        }
    }
    proof {
        assert(symbols@.take(symbols@.len() as int) == symbols@);
    }
    out
}

} // verus!

use vstd::prelude::*;
use crate::instruction::Instruction;

verus! {

/// Number of cells on the tape.
pub const TAPE_LEN: usize = 60000;

/// Cell that the data pointer starts on.
pub const START_CELL: usize = 30000;

/// Why a run stopped before reaching the end of the program.
#[derive(Clone, Copy, Debug, PartialEq, Eq, Structural)]
pub enum RunError {
    /// The data pointer would have left the tape.
    OutOfBounds,
    /// A loop start with a zero guard has no matching loop end after it.
    UnmatchedBracket,
    /// A loop end was reached while no loop was open.
    UnbalancedBrackets,
}

/// The machine state as mathematical values.
pub struct MachineState {
    /// Index of the next instruction to execute.
    pub ip: int,
    /// Index of the current cell.
    pub dp: int,
    /// The cells.
    pub tape: Seq<u8>,
    /// Positions of the loop starts of the loops currently open, innermost last.
    pub stack: Seq<int>,
    /// The byte most recently written out.
    pub last: u8,
}

/// The state of a fresh machine: a zeroed tape, the pointer mid-tape, no open loop.
pub open spec fn initial_state() -> MachineState {
    MachineState {
        ip: 0,
        dp: START_CELL as int,
        tape: Seq::new(TAPE_LEN as nat, |i: int| 0u8),
        stack: Seq::empty(),
        last: 0,
    }
}

/// A state that a machine running a program of `n` instructions can be in.
pub open spec fn valid_state(s: MachineState, n: int) -> bool {
    &&& s.tape.len() == TAPE_LEN
    &&& 0 <= s.dp < TAPE_LEN
    &&& 0 <= s.ip <= n
    &&& forall|k: int| 0 <= k < s.stack.len() ==> 0 <= #[trigger] s.stack[k] < n
}

/// How a loop bracket changes the nesting counter.
pub open spec fn bracket_delta(i: Instruction) -> int {
    match i {
        Instruction::BeginLoop => 1,
        Instruction::EndLoop => -1,
        _ => 0,
    }
}

/// The nesting counter of a scan that starts after the loop start at `start`,
/// once it has taken in every instruction up to and including `j`.
pub open spec fn scan_depth(prog: Seq<Instruction>, start: int, j: int) -> int
    decreases j - start,
{
    if j <= start {
        1
    } else {
        scan_depth(prog, start, j - 1) + bracket_delta(prog[j])
    }
}

/// The first position from `j` on at which the scan from `start` comes to zero.
pub open spec fn first_zero_from(prog: Seq<Instruction>, start: int, j: int) -> Option<int>
    decreases prog.len() - j,
{
    if j >= prog.len() {
        None
    } else if scan_depth(prog, start, j) == 0 {
        Some(j)
    } else {
        first_zero_from(prog, start, j + 1)
    }
}

/// The position of the loop end that matches the loop start at `start`, if any.
pub open spec fn matching_end(prog: Seq<Instruction>, start: int) -> Option<int> {
    first_zero_from(prog, start, start + 1)
}

/// The current cell plus one, modulo 256.
pub open spec fn incremented(c: u8) -> u8 {
    ((c as int + 1) % 256) as u8
}

/// The current cell minus one, modulo 256.
pub open spec fn decremented(c: u8) -> u8 {
    ((c as int + 255) % 256) as u8
}

/// What executing the instruction at `s.ip` does: the next state and the byte
/// written out, if any, or the error that stops the run.
pub open spec fn step_spec(prog: Seq<Instruction>, s: MachineState) -> Result<
    (MachineState, Option<u8>),
    RunError,
> {
    let cur = s.tape[s.dp];
    match prog[s.ip] {
        Instruction::Add => Ok(
            (MachineState { ip: s.ip + 1, tape: s.tape.update(s.dp, incremented(cur)), ..s }, None),
        ),
        Instruction::Subtract => Ok(
            (MachineState { ip: s.ip + 1, tape: s.tape.update(s.dp, decremented(cur)), ..s }, None),
        ),
        Instruction::Next => if s.dp + 1 < TAPE_LEN {
            Ok((MachineState { ip: s.ip + 1, dp: s.dp + 1, ..s }, None))
        } else {
            Err(RunError::OutOfBounds)
        },
        Instruction::Previous => if s.dp >= 1 {
            Ok((MachineState { ip: s.ip + 1, dp: s.dp - 1, ..s }, None))
        } else {
            Err(RunError::OutOfBounds)
        },
        Instruction::Output => Ok((MachineState { ip: s.ip + 1, last: cur, ..s }, Some(cur))),
        Instruction::GetInput => Ok(
            (MachineState { ip: s.ip + 1, tape: s.tape.update(s.dp, s.last), ..s }, None),
        ),
        Instruction::BeginLoop => if cur != 0 {
            Ok((MachineState { ip: s.ip + 1, stack: s.stack.push(s.ip), ..s }, None))
        } else {
            match matching_end(prog, s.ip) {
                Some(j) => Ok((MachineState { ip: j + 1, ..s }, None)),
                None => Err(RunError::UnmatchedBracket),
            }
        },
        Instruction::EndLoop => if s.stack.len() == 0 {
            Err(RunError::UnbalancedBrackets)
        } else if cur == 0 {
            Ok((MachineState { ip: s.ip + 1, stack: s.stack.drop_last(), ..s }, None))
        } else {
            Ok((MachineState { ip: s.stack.last() + 1, ..s }, None))
        },
    }
}

/// Finds the loop end that matches the loop start at `start`, scanning forward
/// with a nesting counter.
pub fn find_matching_end(prog: &Vec<Instruction>, start: usize) -> (r: Option<usize>)
    requires
        start < prog.len(),
    ensures
        match r {
            Some(j) => start < j < prog.len() && matching_end(prog@, start as int) == Some(
                j as int,
            ),
            None => matching_end(prog@, start as int) is None,
        },
{
    let mut depth: usize = 1;
    let mut j: usize = start + 1;
    while j < prog.len()
        invariant
            start < j <= prog.len(),
            1 <= depth <= j - start,
            depth as int == scan_depth(prog@, start as int, j - 1),
            matching_end(prog@, start as int) == first_zero_from(prog@, start as int, j as int),
        decreases prog.len() - j,
    {
        match prog[j] {
            Instruction::BeginLoop => {
                depth = depth + 1;
            },
            Instruction::EndLoop => {
                depth = depth - 1;
            },
            _ => {},
        }
        if depth == 0 {
            return Some(j);
        }
        j = j + 1;
    }
    None
}

/// How a bounded run ended.
#[derive(Clone, Copy, Debug, PartialEq, Eq, Structural)]
pub enum Outcome {
    /// The instruction pointer ran past the last instruction.
    Halted,
    /// The step budget was used up first.
    OutOfFuel,
    /// An instruction failed; the machine was left as it was before it.
    Failed(RunError),
}

/// The bytes written out by one step, as a sequence.
pub open spec fn emitted(o: Option<u8>) -> Seq<u8> {
    match o {
        Some(b) => seq![b],
        None => Seq::empty(),
    }
}

/// Runs at most `fuel` steps from `s`: the state reached, the bytes written out
/// in order, and how the run ended.
pub open spec fn exec_spec(prog: Seq<Instruction>, s: MachineState, fuel: nat) -> (
    MachineState,
    Seq<u8>,
    Outcome,
)
    decreases fuel,
{
    if s.ip >= prog.len() {
        (s, Seq::empty(), Outcome::Halted)
    } else if fuel == 0 {
        (s, Seq::empty(), Outcome::OutOfFuel)
    } else {
        match step_spec(prog, s) {
            Err(e) => (s, Seq::empty(), Outcome::Failed(e)),
            Ok((s2, o)) => {
                let t = exec_spec(prog, s2, (fuel - 1) as nat);
                (t.0, emitted(o) + t.1, t.2)
            },
        }
    }
}

/// The bytes written out and how the run ends, for a fresh machine given
/// at most `fuel` steps.
pub open spec fn run_spec(prog: Seq<Instruction>, fuel: nat) -> (Seq<u8>, Outcome) {
    let t = exec_spec(prog, initial_state(), fuel);
    (t.1, t.2)
}

/// The bytes written out by a run and how it ended.
pub struct RunReport {
    pub output: Vec<u8>,
    pub outcome: Outcome,
}

/// A running machine: tape, data pointer, instruction pointer, open loops and
/// the last byte written out.
pub struct Engine {
    ip: usize,
    dp: usize,
    tape: Vec<u8>,
    stack: Vec<usize>,
    last: u8,
}

impl View for Engine {
    type V = MachineState;

    closed spec fn view(&self) -> MachineState {
        MachineState {
            ip: self.ip as int,
            dp: self.dp as int,
            tape: self.tape@,
            stack: self.stack@.map_values(|p: usize| p as int),
            last: self.last,
        }
    }
}

impl Engine {
    /// A fresh machine: every cell zero, the data pointer on the middle cell,
    /// the first instruction next, no open loop, last output zero.
    pub fn new() -> (r: Engine)
        ensures
            r@ == initial_state(),
    {
        let mut tape: Vec<u8> = Vec::new();
        let mut i: usize = 0;
        while i < TAPE_LEN
            invariant
                i <= TAPE_LEN,
                tape@ == Seq::new(i as nat, |k: int| 0u8),
            decreases TAPE_LEN - i,
        {
            tape.push(0u8);
            i = i + 1;
            assert(tape@ =~= Seq::new(i as nat, |k: int| 0u8));
        }
        let r = Engine { ip: 0, dp: START_CELL, tape, stack: Vec::new(), last: 0 };
        assert(r@.stack =~= Seq::<int>::empty());
        r
    }

    /// Whether the instruction pointer has run past the end of the program.
    pub fn is_halted(&self, prog: &Vec<Instruction>) -> (r: bool)
        ensures
            r == (self@.ip >= prog.len()),
    {
        self.ip >= prog.len()
    }

    /// Executes the instruction at the instruction pointer. On success returns
    /// the byte written out, if any; on an error the machine is left unchanged.
    pub fn step(&mut self, prog: &Vec<Instruction>) -> (r: Result<Option<u8>, RunError>)
        requires
            valid_state(old(self)@, prog.len() as int),
            old(self)@.ip < prog.len(),
        ensures
            valid_state(final(self)@, prog.len() as int),
            match step_spec(prog@, old(self)@) {
                Ok((s, o)) => r == Ok::<Option<u8>, RunError>(o) && final(self)@ == s,
                Err(e) => r == Err::<Option<u8>, RunError>(e) && final(self)@ == old(self)@,
            },
    {
        let ghost s0 = self@;
        let cur = self.tape[self.dp];
        match prog[self.ip] {
            Instruction::Add => {
                self.tape.set(self.dp, cur.wrapping_add(1));
                self.ip = self.ip + 1;
                Ok(None)
            },
            Instruction::Subtract => {
                self.tape.set(self.dp, cur.wrapping_sub(1));
                self.ip = self.ip + 1;
                Ok(None)
            },
            Instruction::Next => {
                if self.dp + 1 < TAPE_LEN {
                    self.dp = self.dp + 1;
                    self.ip = self.ip + 1;
                    Ok(None)
                } else {
                    Err(RunError::OutOfBounds)
                }
            },
            Instruction::Previous => {
                if self.dp >= 1 {
                    self.dp = self.dp - 1;
                    self.ip = self.ip + 1;
                    Ok(None)
                } else {
                    Err(RunError::OutOfBounds)
                }
            },
            Instruction::Output => {
                self.last = cur;
                self.ip = self.ip + 1;
                Ok(Some(cur))
            },
            Instruction::GetInput => {
                let v = self.last;
                self.tape.set(self.dp, v);
                self.ip = self.ip + 1;
                Ok(None)
            },
            Instruction::BeginLoop => {
                if cur != 0 {
                    let ip = self.ip;
                    self.stack.push(ip);
                    self.ip = ip + 1;
                    assert(self@.stack =~= s0.stack.push(ip as int));
                    Ok(None)
                } else {
                    match find_matching_end(prog, self.ip) {
                        Some(j) => {
                            self.ip = j + 1;
                            Ok(None)
                        },
                        None => Err(RunError::UnmatchedBracket),
                    }
                }
            },
            Instruction::EndLoop => {
                let n = self.stack.len();
                if n == 0 {
                    Err(RunError::UnbalancedBrackets)
                } else if cur == 0 {
                    self.stack.pop();
                    self.ip = self.ip + 1;
                    assert(self@.stack =~= s0.stack.drop_last());
                    Ok(None)
                } else {
                    let top = self.stack[n - 1];
                    self.ip = top + 1;
                    Ok(None)
                }
            },
        }
    }

    /// Executes instructions until the program ends, an instruction fails, or
    /// `fuel` steps have been taken, collecting the bytes written out.
    pub fn run(&mut self, prog: &Vec<Instruction>, fuel: u64) -> (r: RunReport)
        requires
            valid_state(old(self)@, prog.len() as int),
        ensures
            valid_state(final(self)@, prog.len() as int),
            (final(self)@, r.output@, r.outcome) == exec_spec(prog@, old(self)@, fuel as nat),
    {
        let ghost s0 = self@;
        let mut output: Vec<u8> = Vec::new();
        let mut left: u64 = fuel;
        loop
            invariant
                s0 == old(self)@,
                valid_state(self@, prog.len() as int),
                left <= fuel,
                ({
                    let t = exec_spec(prog@, self@, left as nat);
                    exec_spec(prog@, s0, fuel as nat) == (t.0, output@ + t.1, t.2)
                }),
            decreases left,
        {
            if self.is_halted(prog) {
                assert(output@ + Seq::<u8>::empty() =~= output@);
                return RunReport { output, outcome: Outcome::Halted };
            }
            if left == 0 {
                assert(output@ + Seq::<u8>::empty() =~= output@);
                return RunReport { output, outcome: Outcome::OutOfFuel };
            }
            let ghost out_before = output@;
            match self.step(prog) {
                Err(e) => {
                    assert(output@ + Seq::<u8>::empty() =~= output@);
                    return RunReport { output, outcome: Outcome::Failed(e) };
                },
                Ok(o) => {
                    match o {
                        Some(b) => output.push(b),
                        None => {},
                    }
                    left = left - 1;
                    proof {
                        let t = exec_spec(prog@, self@, left as nat);
                        assert(output@ =~= out_before + emitted(o));
                        assert(out_before + (emitted(o) + t.1) =~= output@ + t.1);
                    }
                },
            }
        }
    }

    /// The value of cell `i`.
    pub fn cell(&self, i: usize) -> (r: u8)
        requires
            self@.tape.len() == TAPE_LEN,
            i < TAPE_LEN,
        ensures
            r == self@.tape[i as int],
    {
        self.tape[i]
    }

    /// The index of the current cell.
    pub fn data_pointer(&self) -> (r: usize)
        ensures
            r == self@.dp,
    {
        self.dp
    }

    /// The index of the next instruction to execute.
    pub fn instruction_pointer(&self) -> (r: usize)
        ensures
            r == self@.ip,
    {
        self.ip
    }

    /// The byte most recently written out, zero before any.
    pub fn last_output(&self) -> (r: u8)
        ensures
            r == self@.last,
    {
        self.last
    }

    /// How many loops are open.
    pub fn loop_depth(&self) -> (r: usize)
        ensures
            r == self@.stack.len(),
    {
        self.stack.len()
    }
}

/// Runs `instructions` on a fresh machine for at most `fuel` steps and reports
/// the bytes written out, in order, and how the run ended.
pub fn fck(instructions: &Vec<Instruction>, fuel: u64) -> (r: RunReport)
    ensures
        (r.output@, r.outcome) == run_spec(instructions@, fuel as nat),
{
    let mut engine = Engine::new();
    engine.run(instructions, fuel)
}

} // verus!

use vstd::prelude::*;
use vstd::arithmetic::div_mod::{lemma_add_mod_noop_right, lemma_mod_add_multiples_vanish};
use crate::instruction::Instruction;
use crate::engine::{
    MachineState,
    Outcome,
    bracket_delta,
    RunError,
    RunReport,
    START_CELL,
    exec_spec,
    initial_state,
    matching_end,
    run_spec,
    scan_depth,
    first_zero_from,
    step_spec,
    valid_state,
};

verus! {

/// How an instruction changes the current cell's count: one up for `Add`,
/// one down for `Subtract`, none for the rest.
pub open spec fn count_delta(i: Instruction) -> int {
    match i {
        Instruction::Add => 1,
        Instruction::Subtract => -1,
        _ => 0,
    }
}

/// The number of `Add`s minus the number of `Subtract`s from position `k` on.
pub open spec fn net_count_from(prog: Seq<Instruction>, k: int) -> int
    decreases prog.len() - k,
{
    if k >= prog.len() || k < 0 {
        0
    } else {
        count_delta(prog[k]) + net_count_from(prog, k + 1)
    }
}

/// The number of `Add`s minus the number of `Subtract`s in a program.
pub open spec fn net_count(prog: Seq<Instruction>) -> int {
    net_count_from(prog, 0)
}

/// A program made only of `Add` and `Subtract`.
pub open spec fn only_cell_arithmetic(prog: Seq<Instruction>) -> bool {
    forall|k: int| 0 <= k < prog.len() ==> #[trigger] prog[k] == Instruction::Add || prog[k]
        == Instruction::Subtract
}

/// A program made only of `Previous`.
pub open spec fn only_moves_left(prog: Seq<Instruction>) -> bool {
    forall|k: int| 0 <= k < prog.len() ==> #[trigger] prog[k] == Instruction::Previous
}

proof fn lemma_arithmetic_from(prog: Seq<Instruction>, s: MachineState, fuel: nat)
    requires
        valid_state(s, prog.len() as int),
        only_cell_arithmetic(prog),
        fuel >= prog.len() - s.ip,
    ensures
        ({
            let t = exec_spec(prog, s, fuel);
            &&& t.2 == Outcome::Halted
            &&& t.1 == Seq::<u8>::empty()
            &&& t.0.dp == s.dp
            &&& t.0.tape == s.tape.update(
                s.dp,
                ((s.tape[s.dp] + net_count_from(prog, s.ip)) % 256) as u8,
            )
        }),
    decreases prog.len() - s.ip,
{
    let c = s.tape[s.dp] as int;
    if s.ip >= prog.len() {
        assert(s.tape.update(s.dp, ((c + 0) % 256) as u8) =~= s.tape);
    } else {
        let i = prog[s.ip];
        let d: int = if i == Instruction::Add { 1 } else { 255 };
        let s2 = MachineState { ip: s.ip + 1, tape: s.tape.update(s.dp, ((c + d) % 256) as u8), ..s };
        assert(step_spec(prog, s) == Ok::<(MachineState, Option<u8>), RunError>((s2, None)));
        lemma_arithmetic_from(prog, s2, (fuel - 1) as nat);
        let n = net_count_from(prog, s.ip + 1);
        lemma_add_mod_noop_right(n, c + d, 256);
        if i == Instruction::Subtract {
            lemma_mod_add_multiples_vanish(c - 1 + n, 256);
        }
        assert(s2.tape.update(s.dp, ((s2.tape[s.dp] + n) % 256) as u8) =~= s.tape.update(
            s.dp,
            ((c + net_count_from(prog, s.ip)) % 256) as u8,
        ));
    }
}

/// Cell arithmetic wraps: a program of `Add`s and `Subtract`s, run to its end,
/// leaves the current cell equal to its old value plus the net count of `Add`s
/// over `Subtract`s, modulo 256, and every other cell as it was.
pub proof fn law_cell_arithmetic_wraps(prog: Seq<Instruction>, s: MachineState, fuel: nat)
    requires
        valid_state(s, prog.len() as int),
        s.ip == 0,
        only_cell_arithmetic(prog),
        fuel >= prog.len(),
    ensures
        ({
            let t = exec_spec(prog, s, fuel);
            &&& t.2 == Outcome::Halted
            &&& t.0.dp == s.dp
            &&& t.0.tape == s.tape.update(s.dp, ((s.tape[s.dp] + net_count(prog)) % 256) as u8)
        }),
{
    lemma_arithmetic_from(prog, s, fuel);
}

proof fn lemma_moves_left_from(prog: Seq<Instruction>, s: MachineState, fuel: nat)
    requires
        valid_state(s, prog.len() as int),
        only_moves_left(prog),
        fuel >= prog.len() - s.ip,
    ensures
        ({
            let t = exec_spec(prog, s, fuel);
            let rest = prog.len() - s.ip;
            &&& t.1 == Seq::<u8>::empty()
            &&& rest <= s.dp ==> t.2 == Outcome::Halted && t.0.dp == s.dp - rest
            &&& rest > s.dp ==> t.2 == Outcome::Failed(RunError::OutOfBounds) && t.0.ip == s.ip
                + s.dp && t.0.dp == 0
        }),
    decreases prog.len() - s.ip,
{
    if s.ip < prog.len() && s.dp >= 1 {
        let s2 = MachineState { ip: s.ip + 1, dp: s.dp - 1, ..s };
        assert(step_spec(prog, s) == Ok::<(MachineState, Option<u8>), RunError>((s2, None)));
        lemma_moves_left_from(prog, s2, (fuel - 1) as nat);
        assert(Seq::<u8>::empty() + Seq::<u8>::empty() =~= Seq::<u8>::empty());
    }
}

/// The left edge of the tape: from a fresh machine, a program of `n` moves to the
/// left runs to its end for `n` up to the starting cell's index, and otherwise
/// fails out of bounds on the move after that many, having written nothing.
pub proof fn law_left_edge(prog: Seq<Instruction>, fuel: nat)
    requires
        only_moves_left(prog),
        fuel >= prog.len(),
    ensures
        ({
            let t = exec_spec(prog, initial_state(), fuel);
            &&& t.1 == Seq::<u8>::empty()
            &&& prog.len() <= START_CELL ==> t.2 == Outcome::Halted && t.0.dp == START_CELL
                - prog.len()
            &&& prog.len() > START_CELL ==> t.2 == Outcome::Failed(RunError::OutOfBounds)
                && t.0.ip == START_CELL
        }),
{
    lemma_moves_left_from(prog, initial_state(), fuel);
}

/// Two reports of runs of one program with one step budget on fresh machines
/// hold the same bytes and the same outcome.
pub proof fn law_fresh_runs_agree(
    prog: Seq<Instruction>,
    fuel: nat,
    first: RunReport,
    second: RunReport,
)
    requires
        (first.output@, first.outcome) == run_spec(prog, fuel),
        (second.output@, second.outcome) == run_spec(prog, fuel),
    ensures
        first.output@ == second.output@,
        first.outcome == second.outcome,
{
}

/// Every open loop recorded on the stack is a loop start of the program.
pub open spec fn open_loops_at_starts(prog: Seq<Instruction>, s: MachineState) -> bool {
    forall|k: int|
        0 <= k < s.stack.len() ==> 0 <= #[trigger] s.stack[k] < prog.len() && prog[s.stack[k]]
            == Instruction::BeginLoop
}

proof fn lemma_first_zero_is_loop_end(prog: Seq<Instruction>, start: int, j0: int)
    requires
        0 <= start < j0,
        forall|k: int| start < k < j0 ==> #[trigger] scan_depth(prog, start, k) >= 1,
        first_zero_from(prog, start, j0) is Some,
    ensures
        ({
            let j = first_zero_from(prog, start, j0)->0;
            &&& j0 <= j < prog.len()
            &&& prog[j] == Instruction::EndLoop
            &&& forall|k: int| start < k < j ==> #[trigger] scan_depth(prog, start, k) >= 1
        }),
    decreases prog.len() - j0,
{
    assert(scan_depth(prog, start, j0) == scan_depth(prog, start, j0 - 1) + bracket_delta(
        prog[j0],
    ));
    if scan_depth(prog, start, j0) != 0 {
        lemma_first_zero_is_loop_end(prog, start, j0 + 1);
    }
}

/// A loop start whose guard is zero skips its loop: the matching position is a
/// loop end, the nesting counter stays positive over the body, and execution
/// resumes right after that loop end with nothing else changed and nothing
/// written, so no instruction of the body runs.
pub proof fn law_zero_guard_skips_loop(prog: Seq<Instruction>, s: MachineState, fuel: nat)
    requires
        valid_state(s, prog.len() as int),
        s.ip < prog.len(),
        prog[s.ip] == Instruction::BeginLoop,
        s.tape[s.dp] == 0,
        matching_end(prog, s.ip) is Some,
    ensures
        ({
            let j = matching_end(prog, s.ip)->0;
            let resumed = MachineState { ip: j + 1, ..s };
            &&& s.ip < j < prog.len()
            &&& prog[j] == Instruction::EndLoop
            &&& forall|k: int| s.ip < k < j ==> #[trigger] scan_depth(prog, s.ip, k) >= 1
            &&& step_spec(prog, s) == Ok::<(MachineState, Option<u8>), RunError>((resumed, None))
            &&& exec_spec(prog, s, fuel + 1) == exec_spec(prog, resumed, fuel)
        }),
{
    lemma_first_zero_is_loop_end(prog, s.ip, s.ip + 1);
    let j = matching_end(prog, s.ip)->0;
    let resumed = MachineState { ip: j + 1, ..s };
    let t = exec_spec(prog, resumed, fuel);
    assert(Seq::<u8>::empty() + t.1 =~= t.1);
}

/// Steps keep every recorded open loop pointing at a loop start.
pub proof fn law_open_loops_stay_at_starts(prog: Seq<Instruction>, s: MachineState)
    requires
        valid_state(s, prog.len() as int),
        s.ip < prog.len(),
        open_loops_at_starts(prog, s),
    ensures
        step_spec(prog, s) matches Ok((s2, o)) ==> open_loops_at_starts(prog, s2),
{
}

/// A loop end whose guard is nonzero goes back into the loop: execution
/// resumes at the first instruction of the body of the innermost open loop,
/// whose start is a loop start, with nothing else changed and nothing written.
pub proof fn law_nonzero_guard_repeats_loop(prog: Seq<Instruction>, s: MachineState, fuel: nat)
    requires
        valid_state(s, prog.len() as int),
        s.ip < prog.len(),
        prog[s.ip] == Instruction::EndLoop,
        s.tape[s.dp] != 0,
        s.stack.len() > 0,
        open_loops_at_starts(prog, s),
    ensures
        ({
            let p = s.stack.last();
            let resumed = MachineState { ip: p + 1, ..s };
            &&& prog[p] == Instruction::BeginLoop
            &&& step_spec(prog, s) == Ok::<(MachineState, Option<u8>), RunError>((resumed, None))
            &&& exec_spec(prog, s, fuel + 1) == exec_spec(prog, resumed, fuel)
        }),
{
    let p = s.stack.last();
    let resumed = MachineState { ip: p + 1, ..s };
    let t = exec_spec(prog, resumed, fuel);
    assert(Seq::<u8>::empty() + t.1 =~= t.1);
}

} // verus!

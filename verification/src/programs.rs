//! What some small programs do, proved of every tape and every input.

use vstd::prelude::*;
use crate::machine::run_of;
use crate::machine::scan;
use crate::machine::start;
use crate::machine::step_of;
use crate::machine::valid;
use crate::machine::Action;
use crate::machine::Event;
use crate::machine::Run;
use crate::machine::State;
use crate::machine::CLOSE;
use crate::machine::INPUT;
use crate::machine::MINUS;
use crate::machine::OPEN;
use crate::machine::OUTPUT;
use crate::machine::PLUS;
use crate::tape::lemma_increment_decrement;
use crate::tape::lemma_write_twice;
use crate::tape::Tape;

verus! {

/// The program that is a single `]`, run from its start on a tape whose
/// current cell is not zero, fails at once with the syntax error for
/// position zero. Nothing is read, and what was written before stays as it
/// is. (On a cell that holds zero the `]` is passed: see `lemma_failure`.)
pub proof fn lemma_lone_close(tape: Tape, input: Seq<u8>, output: Seq<u8>, fuel: nat)
    requires
        tape.current() != 0,
        fuel >= 1,
    ensures
        run_of(seq![CLOSE], start(tape), input, 0, output, fuel) == (Run {
            state: State { pc: 0, tape: tape.touch(), jumps: Seq::empty() },
            consumed: 0,
            output,
            reply: Err(0),
        }),
{
}

/// The program that is a single `[` runs to its end on any tape: a `[` that
/// nothing closes is no error. Nothing is read or written and no cell
/// changes its value.
pub proof fn lemma_lone_open(tape: Tape, input: Seq<u8>, output: Seq<u8>, fuel: nat, at: int)
    requires
        tape.wf(),
        fuel >= 1,
    ensures
        run_of(seq![OPEN], start(tape), input, 0, output, fuel).reply == Ok::<Action, nat>(
            Action::Done,
        ),
        run_of(seq![OPEN], start(tape), input, 0, output, fuel).output == output,
        run_of(seq![OPEN], start(tape), input, 0, output, fuel).consumed == 0,
        run_of(seq![OPEN], start(tape), input, 0, output, fuel).state.pc == 1,
        run_of(seq![OPEN], start(tape), input, 0, output, fuel).state.tape == tape.touch(),
        tape.touch().cell(at) == tape.cell(at),
{
    let program = seq![OPEN];
    let s = start(tape);
    let next = step_of(program, s, Event::Resume).0;
    assert(run_of(program, next, input, 0, output, (fuel - 1) as nat).reply == Ok::<Action, nat>(
        Action::Done,
    ));
}

/// The program `[+]`, run from its start on a tape whose current cell holds
/// zero, skips the loop in one step and ends. The `+` is never executed: no
/// cell changes its value, the current cell still holds zero, no loop is
/// left open, and nothing is read or written.
pub proof fn lemma_skipped_loop(tape: Tape, input: Seq<u8>, output: Seq<u8>, fuel: nat, at: int)
    requires
        tape.wf(),
        tape.current() == 0,
        fuel >= 1,
    ensures
        run_of(seq![OPEN, PLUS, CLOSE], start(tape), input, 0, output, fuel) == (Run {
            state: State { pc: 3, tape: tape.touch(), jumps: Seq::empty() },
            consumed: 0,
            output,
            reply: Ok(Action::Done),
        }),
        tape.touch().current() == 0,
        tape.touch().cell(at) == tape.cell(at),
{
    let program = seq![OPEN, PLUS, CLOSE];
    let s = start(tape);
    assert(scan(program, 1, 1) == 2) by {
        assert(scan(program, 2, 1) == 2);
    }
    let next = step_of(program, s, Event::Resume).0;
    assert(run_of(program, next, input, 0, output, (fuel - 1) as nat).reply == Ok::<Action, nat>(
        Action::Done,
    ));
}

/// The program `,.` copies the first byte of the input to the output, on
/// any tape: it reads that one byte, stores it in the current cell, writes
/// it, and ends.
pub proof fn lemma_echo(tape: Tape, input: Seq<u8>, output: Seq<u8>, fuel: nat)
    requires
        tape.wf(),
        input.len() >= 1,
        fuel >= 2,
    ensures
        run_of(seq![INPUT, OUTPUT], start(tape), input, 0, output, fuel) == (Run {
            state: State { pc: 2, tape: tape.write(input[0]), jumps: Seq::empty() },
            consumed: 1,
            output: output.push(input[0]),
            reply: Ok(Action::Done),
        }),
{
    let program = seq![INPUT, OUTPUT];
    let s = start(tape);
    let byte = input[0];
    let s1 = State { pc: 1, tape: tape.write(byte), jumps: Seq::<nat>::empty() };
    let s2 = State { pc: 2, tape: tape.write(byte), jumps: Seq::<nat>::empty() };
    assert(run_of(program, s1, input, 1, output, (fuel - 1) as nat) == run_of(
        program,
        s2,
        input,
        1,
        output.push(byte),
        (fuel - 2) as nat,
    ));
}

/// The program `,` on an input without a byte stops at once and asks for
/// one: the end of the input is never taken for a zero byte.
pub proof fn lemma_starved(tape: Tape, output: Seq<u8>, fuel: nat)
    requires
        fuel >= 1,
    ensures
        run_of(seq![INPUT], start(tape), Seq::empty(), 0, output, fuel) == (Run {
            state: start(tape),
            consumed: 0,
            output,
            reply: Ok(Action::Read),
        }),
{
}

/// `count` times `+`, followed by `.`.
pub open spec fn pluses_then_output(count: nat) -> Seq<u8> {
    Seq::new(count, |i: int| PLUS).push(OUTPUT)
}

/// A run of `pluses_then_output(count)` that stands at position `s.pc` goes
/// on to the end of the program and writes one byte: what the current cell
/// holds plus the number of `+` that are still to come, modulo 256.
pub proof fn lemma_pluses_from(
    count: nat,
    s: State,
    input: Seq<u8>,
    consumed: nat,
    output: Seq<u8>,
    fuel: nat,
)
    requires
        s.tape.wf(),
        s.pc <= count,
        fuel >= count - s.pc + 1,
    ensures
        ({
            let run = run_of(pluses_then_output(count), s, input, consumed, output, fuel);
            &&& run.reply == Ok::<Action, nat>(Action::Done)
            &&& run.consumed == consumed
            &&& run.output == output.push(((s.tape.current() + count - s.pc) % 256) as u8)
            &&& run.state.pc == count + 1
            &&& run.state.jumps == s.jumps
        }),
    decreases count - s.pc,
{
    let program = pluses_then_output(count);
    if s.pc < count {
        let next = State { pc: s.pc + 1, tape: s.tape.increment(), ..s };
        lemma_increment_decrement(s.tape);
        lemma_pluses_from(count, next, input, consumed, output, (fuel - 1) as nat);
    } else {
        let next = State { pc: s.pc + 1, tape: s.tape.touch(), ..s };
        assert(run_of(
            program,
            next,
            input,
            consumed,
            output.push(s.tape.current()),
            (fuel - 1) as nat,
        ).reply == Ok::<Action, nat>(Action::Done));
    }
}

/// `count` times `+` followed by `.`, run from its start, writes one byte:
/// what the current cell held plus `count`, modulo 256. On a cell that holds
/// zero, three `+` write 3 and 256 `+` write 0.
pub proof fn lemma_pluses(count: nat, tape: Tape, input: Seq<u8>, output: Seq<u8>, fuel: nat)
    requires
        tape.wf(),
        fuel >= count + 1,
    ensures
        run_of(pluses_then_output(count), start(tape), input, 0, output, fuel).reply == Ok::<
            Action,
            nat,
        >(Action::Done),
        run_of(pluses_then_output(count), start(tape), input, 0, output, fuel).consumed == 0,
        run_of(pluses_then_output(count), start(tape), input, 0, output, fuel).output
            == output.push(((tape.current() + count) % 256) as u8),
        tape.current() == 0 && count == 3 ==> run_of(
            pluses_then_output(count),
            start(tape),
            input,
            0,
            output,
            fuel,
        ).output == output.push(3),
        tape.current() == 0 && count == 256 ==> run_of(
            pluses_then_output(count),
            start(tape),
            input,
            0,
            output,
            fuel,
        ).output == output.push(0),
{
    lemma_pluses_from(count, start(tape), input, 0, output, fuel);
}

/// How many steps the loop `[-]` takes on a cell that holds `value`: one to
/// skip it if the cell holds zero, else three for each round.
pub open spec fn clear_steps(value: u8) -> nat {
    if value == 0 {
        1
    } else {
        (3 * value) as nat
    }
}

/// The state in which the loop `[-]` that starts at `s.pc` is left: behind
/// its `]`, with the current cell at zero. If the loop was entered, its `[`
/// stays on the stack of open loops.
pub open spec fn cleared(s: State) -> State {
    State {
        pc: s.pc + 3,
        tape: s.tape.write(0),
        jumps: if s.tape.current() != 0 {
            s.jumps.push(s.pc)
        } else {
            s.jumps
        },
    }
}

/// The loop `[-]` sets the current cell to zero, whatever it held. It takes
/// `clear_steps` steps, at each round looks at the cell again, reads and
/// writes nothing, and changes no other cell; the run then goes on behind
/// the loop.
pub proof fn lemma_clear_loop(
    program: Seq<u8>,
    s: State,
    input: Seq<u8>,
    consumed: nat,
    output: Seq<u8>,
    fuel: nat,
)
    requires
        valid(program, s),
        s.pc + 2 < program.len(),
        program[s.pc as int] == OPEN,
        program[s.pc as int + 1] == MINUS,
        program[s.pc as int + 2] == CLOSE,
        fuel >= clear_steps(s.tape.current()),
    ensures
        run_of(program, s, input, consumed, output, fuel) == run_of(
            program,
            cleared(s),
            input,
            consumed,
            output,
            (fuel - clear_steps(s.tape.current())) as nat,
        ),
        cleared(s).tape.current() == 0,
        valid(program, cleared(s)),
    decreases s.tape.current(),
{
    let value = s.tape.current();
    let t = s.tape;
    lemma_write_twice(t, 0, 0);
    if value == 0 {
        assert(scan(program, s.pc as int + 1, 1) == s.pc + 2) by {
            assert(scan(program, s.pc as int + 2, 1) == s.pc + 2);
        }
    } else {
        let entered = s.jumps.push(s.pc);
        let s1 = State { pc: s.pc + 1, tape: t.touch(), jumps: entered };
        let less = ((value - 1) % 256) as u8;
        lemma_write_twice(t, less, 0);
        let s2 = State { pc: s.pc + 2, tape: t.write(less), jumps: entered };
        assert(run_of(program, s1, input, consumed, output, (fuel - 1) as nat) == run_of(
            program,
            s2,
            input,
            consumed,
            output,
            (fuel - 2) as nat,
        ));
        if less != 0 {
            assert(entered.drop_last() == s.jumps);
            let s3 = State { pc: s.pc, tape: t.write(less), jumps: s.jumps };
            lemma_clear_loop(program, s3, input, consumed, output, (fuel - 3) as nat);
        }
    }
}

/// The program `+++[-].` writes one byte, and that byte is zero, whatever
/// the current cell held at the start: the loop takes one from the cell
/// until it holds zero. Nothing is read, and the run ends at the end of the
/// program.
pub proof fn lemma_count_down(tape: Tape, input: Seq<u8>, output: Seq<u8>, fuel: nat)
    requires
        tape.wf(),
        fuel >= 3 + 3 * 255 + 1,
    ensures
        run_of(
            seq![PLUS, PLUS, PLUS, OPEN, MINUS, CLOSE, OUTPUT],
            start(tape),
            input,
            0,
            output,
            fuel,
        ).output == output.push(0),
        run_of(
            seq![PLUS, PLUS, PLUS, OPEN, MINUS, CLOSE, OUTPUT],
            start(tape),
            input,
            0,
            output,
            fuel,
        ).reply == Ok::<Action, nat>(Action::Done),
        run_of(
            seq![PLUS, PLUS, PLUS, OPEN, MINUS, CLOSE, OUTPUT],
            start(tape),
            input,
            0,
            output,
            fuel,
        ).consumed == 0,
{
    let program = seq![PLUS, PLUS, PLUS, OPEN, MINUS, CLOSE, OUTPUT];
    let s0 = start(tape);
    let s1 = State { pc: 1, tape: tape.increment(), ..s0 };
    let s2 = State { pc: 2, tape: s1.tape.increment(), ..s0 };
    let s3 = State { pc: 3, tape: s2.tape.increment(), ..s0 };
    assert(run_of(program, s1, input, 0, output, (fuel - 1) as nat) == run_of(
        program,
        s2,
        input,
        0,
        output,
        (fuel - 2) as nat,
    ));
    lemma_clear_loop(program, s3, input, 0, output, (fuel - 3) as nat);
    let s6 = cleared(s3);
    let left = (fuel - 3 - clear_steps(s3.tape.current())) as nat;
    let s7 = State { pc: 7, tape: s6.tape.touch(), ..s6 };
    assert(run_of(program, s6, input, 0, output, left) == run_of(
        program,
        s7,
        input,
        0,
        output.push(0),
        (left - 1) as nat,
    ));
}

} // verus!

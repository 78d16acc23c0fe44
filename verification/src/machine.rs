//! What the machine does, as mathematics.
//!
//! The state of the machine is its position in the program, its tape and the
//! positions of its open loops. [`step_of`] says what one step does to a
//! state, and [`run_of`] what a run of many steps does, given the input. The
//! engine in [`crate::engine`] is proved to do exactly that, and the laws
//! below are proved of the two functions.

use vstd::prelude::*;
use crate::memory::can_advance;
use crate::memory::can_retreat;
use crate::tape::Tape;

verus! {

/// `>`: move the cursor forward.
pub const FORWARD: u8 = 62;

/// `<`: move the cursor backward.
pub const BACKWARD: u8 = 60;

/// `+`: add one to the current cell.
pub const PLUS: u8 = 43;

/// `-`: take one from the current cell.
pub const MINUS: u8 = 45;

/// `.`: write the current cell to the output.
pub const OUTPUT: u8 = 46;

/// `,`: read one byte of input into the current cell.
pub const INPUT: u8 = 44;

/// `[`: enter the loop if the current cell is not zero, else skip it.
pub const OPEN: u8 = 91;

/// `]`: go back to the open `[` if the current cell is not zero.
pub const CLOSE: u8 = 93;

/// What the caller hands to a step.
#[derive(Debug, Clone, Copy, PartialEq, Eq, Structural)]
pub enum Event {
    /// Nothing: the machine just goes on.
    Resume,
    /// The byte that was read after the machine asked for one.
    Byte(u8),
}

/// What a step asks of the caller.
#[derive(Debug, Clone, Copy, PartialEq, Eq, Structural)]
pub enum Action {
    /// Nothing: call again with `Event::Resume`.
    Next,
    /// Read one byte and call again with it in `Event::Byte`.
    Read,
    /// Write this byte, then call again with `Event::Resume`.
    Write(u8),
    /// The program has ended.
    Done,
}

/// The state of the machine between two steps.
pub struct State {
    /// The position in the program of the symbol to execute next.
    pub pc: nat,
    /// The tape.
    pub tape: Tape,
    /// The positions of the `[` that were entered and not yet returned to,
    /// innermost last.
    pub jumps: Seq<nat>,
}

/// Whether `symbol` is one of the eight that have a meaning.
pub open spec fn is_command(symbol: u8) -> bool {
    symbol == FORWARD || symbol == BACKWARD || symbol == PLUS || symbol == MINUS || symbol
        == OUTPUT || symbol == INPUT || symbol == OPEN || symbol == CLOSE
}

/// The forward scan that skips a loop. It starts at position `at` with
/// `depth` loops open, counts one up at each `[` and one down at each `]`,
/// and stops on the `]` that closes the last open loop. The result is the
/// position of that `]`, or the length of the program if there is none.
pub open spec fn scan(program: Seq<u8>, at: int, depth: nat) -> int
    decreases program.len() - at,
{
    if at < 0 || at >= program.len() {
        program.len() as int
    } else if program[at] == OPEN {
        scan(program, at + 1, depth + 1)
    } else if program[at] == CLOSE {
        if depth <= 1 {
            at
        } else {
            scan(program, at + 1, (depth - 1) as nat)
        }
    } else {
        scan(program, at + 1, depth)
    }
}

/// Where a run goes on after the `[` at position `open` was not entered:
/// behind the `]` that matches it, or at the end of the program if nothing
/// matches it.
pub open spec fn after_loop(program: Seq<u8>, open: int) -> nat {
    let close = scan(program, open + 1, 1);
    if close < program.len() {
        (close + 1) as nat
    } else {
        program.len()
    }
}

/// The initial state on `tape`: at the start of the program, no loop open.
pub open spec fn start(tape: Tape) -> State {
    State { pc: 0, tape, jumps: Seq::empty() }
}

/// Whether the run has ended: the position is behind the last symbol.
pub open spec fn ended(program: Seq<u8>, s: State) -> bool {
    s.pc >= program.len()
}

/// One step of the machine: the state after it, and what it asks of the
/// caller or, for a `]` that has no open `[` to go back to, the position of
/// that `]`.
///
/// * `>` and `<` move the cursor, `+` and `-` change the current cell.
/// * `.` hands out the current cell to be written.
/// * `,` stores the byte handed in; with none handed in it asks for one and
///   stays where it is.
/// * `[` on a cell that is not zero puts its position on the stack of open
///   loops and goes on with the next symbol; on zero it goes on behind the
///   matching `]` and leaves the stack alone.
/// * `]` on a cell that is not zero takes the last position from the stack
///   and goes on there, so that the `[` looks at the cell again; on zero it
///   goes on with the next symbol and leaves the stack alone.
/// * Any other symbol only moves the position on.
///
/// Every symbol that looks at the current cell materialises it. A byte
/// handed to a symbol other than `,` is ignored, and a step at the end of
/// the program changes nothing.
pub open spec fn step_of(program: Seq<u8>, s: State, event: Event) -> (State, Result<Action, nat>) {
    if s.pc >= program.len() {
        (s, Ok(Action::Done))
    } else {
        let symbol = program[s.pc as int];
        let next = s.pc + 1;
        if symbol == FORWARD {
            (State { pc: next, tape: s.tape.advance(), ..s }, Ok(Action::Next))
        } else if symbol == BACKWARD {
            (State { pc: next, tape: s.tape.retreat(), ..s }, Ok(Action::Next))
        } else if symbol == PLUS {
            (State { pc: next, tape: s.tape.increment(), ..s }, Ok(Action::Next))
        } else if symbol == MINUS {
            (State { pc: next, tape: s.tape.decrement(), ..s }, Ok(Action::Next))
        } else if symbol == OUTPUT {
            (State { pc: next, tape: s.tape.touch(), ..s }, Ok(Action::Write(s.tape.current())))
        } else if symbol == INPUT {
            match event {
                Event::Byte(byte) => (
                    State { pc: next, tape: s.tape.write(byte), ..s },
                    Ok(Action::Next),
                ),
                Event::Resume => (s, Ok(Action::Read)),
            }
        } else if symbol == OPEN {
            if s.tape.current() != 0 {
                (
                    State { pc: next, tape: s.tape.touch(), jumps: s.jumps.push(s.pc) },
                    Ok(Action::Next),
                )
            } else {
                (
                    State { pc: after_loop(program, s.pc as int), tape: s.tape.touch(), ..s },
                    Ok(Action::Next),
                )
            }
        } else if symbol == CLOSE {
            if s.tape.current() == 0 {
                (State { pc: next, tape: s.tape.touch(), ..s }, Ok(Action::Next))
            } else if s.jumps.len() == 0 {
                (State { tape: s.tape.touch(), ..s }, Err(s.pc))
            } else {
                (
                    State { pc: s.jumps.last(), tape: s.tape.touch(), jumps: s.jumps.drop_last() },
                    Ok(Action::Next),
                )
            }
        } else {
            (State { pc: next, ..s }, Ok(Action::Next))
        }
    }
}

/// Whether the next step stays inside what a `usize` can index: a move on an
/// unbounded tape must not take the cursor further from offset zero than
/// that. Every other step always can be taken.
pub open spec fn can_step(program: Seq<u8>, s: State) -> bool {
    s.pc < program.len() ==> {
        &&& program[s.pc as int] == FORWARD ==> can_advance(s.tape)
        &&& program[s.pc as int] == BACKWARD ==> can_retreat(s.tape)
    }
}

/// The scan ends behind where it starts and inside the program or at its
/// end; where it ends inside, it ends on a `]`.
pub proof fn lemma_scan_result(program: Seq<u8>, at: int, depth: nat)
    requires
        0 <= at <= program.len(),
    ensures
        at <= scan(program, at, depth) <= program.len(),
        scan(program, at, depth) < program.len() ==> program[scan(program, at, depth)] == CLOSE,
    decreases program.len() - at,
{
    if at < program.len() {
        if program[at] == OPEN {
            lemma_scan_result(program, at + 1, depth + 1);
        } else if program[at] == CLOSE {
            if depth > 1 {
                lemma_scan_result(program, at + 1, (depth - 1) as nat);
            }
        } else {
            lemma_scan_result(program, at + 1, depth);
        }
    }
}

/// By how much `symbol` changes the number of open loops.
pub open spec fn nesting(symbol: u8) -> int {
    if symbol == OPEN {
        1
    } else if symbol == CLOSE {
        -1
    } else {
        0
    }
}

/// The number of `[` less the number of `]` among the symbols from position
/// `from` up to but without position `to`.
pub open spec fn balance(program: Seq<u8>, from: int, to: int) -> int
    decreases to - from,
{
    if from >= to {
        0
    } else {
        nesting(program[from]) + balance(program, from + 1, to)
    }
}

/// The scan stops on the matching `]`: the first `]` before which the
/// symbols scanned have closed all but one of the `depth` loops that were
/// open at the start. At every `]` that it passes, more than one loop is
/// still open. For a scan that starts behind a `[` with one loop open, this
/// is the first `]` with as many `[` as `]` between the two.
pub proof fn lemma_scan_matches(program: Seq<u8>, at: int, depth: nat)
    requires
        0 <= at <= program.len(),
        depth >= 1,
    ensures
        scan(program, at, depth) < program.len() ==> program[scan(program, at, depth)] == CLOSE,
        scan(program, at, depth) < program.len() ==> depth + balance(
            program,
            at,
            scan(program, at, depth),
        ) == 1,
        forall|k: int|
            at <= k < scan(program, at, depth) && program[k] == CLOSE ==> depth + #[trigger] balance(
                program,
                at,
                k,
            ) > 1,
    decreases program.len() - at,
{
    if at < program.len() {
        let inner = (depth + nesting(program[at])) as nat;
        if !(program[at] == CLOSE && depth == 1) {
            lemma_scan_matches(program, at + 1, inner);
            lemma_scan_result(program, at + 1, inner);
            assert forall|k: int|
                at <= k < scan(program, at, depth) && program[k] == CLOSE implies depth
                + #[trigger] balance(program, at, k) > 1 by {
                if k > at {
                    assert(inner + balance(program, at + 1, k) > 1);
                }
            }
        }
    }
}

/// What holds of the state between any two steps: the tape is well formed,
/// the position is inside the program or at its end, and every open loop
/// position is that of a `[`.
pub open spec fn valid(program: Seq<u8>, s: State) -> bool {
    &&& s.tape.wf()
    &&& s.pc <= program.len()
    &&& forall|i: int|
        0 <= i < s.jumps.len() ==> #[trigger] s.jumps[i] < program.len() && program[s.jumps[i] as int]
            == OPEN
}

/// How a run on a given input stands when it stops.
pub struct Run {
    /// The state of the machine.
    pub state: State,
    /// How many bytes of the input have been read.
    pub consumed: nat,
    /// Every byte written so far, oldest first.
    pub output: Seq<u8>,
    /// Why the run stopped: `Ok(Action::Done)` at the end of the program,
    /// `Ok(Action::Read)` at a `,` for which the input has no byte left,
    /// `Ok(Action::Next)` when the steps allowed are used up, and `Err` with
    /// the position of a `]` that has no open `[` to go back to.
    pub reply: Result<Action, nat>,
}

/// What a run hands to the step in state `s`: the next unread byte of the
/// input where the symbol is `,` and there is such a byte, else nothing.
pub open spec fn event_of(program: Seq<u8>, s: State, input: Seq<u8>, consumed: nat) -> Event {
    if s.pc < program.len() && program[s.pc as int] == INPUT && consumed < input.len() {
        Event::Byte(input[consumed as int])
    } else {
        Event::Resume
    }
}

/// A run of at most `fuel` steps from state `s`, with `consumed` bytes of
/// `input` read and `output` written before it. It takes one step after
/// another, feeds each `,` the next byte of the input and appends the byte
/// of each `.` to the output, and stops as `Run::reply` says.
pub open spec fn run_of(
    program: Seq<u8>,
    s: State,
    input: Seq<u8>,
    consumed: nat,
    output: Seq<u8>,
    fuel: nat,
) -> Run
    decreases fuel,
{
    if ended(program, s) {
        Run { state: s, consumed, output, reply: Ok(Action::Done) }
    } else if fuel == 0 {
        Run { state: s, consumed, output, reply: Ok(Action::Next) }
    } else {
        let event = event_of(program, s, input, consumed);
        let (next, reply) = step_of(program, s, event);
        match reply {
            Ok(Action::Next) => run_of(
                program,
                next,
                input,
                if event is Byte {
                    consumed + 1
                } else {
                    consumed
                },
                output,
                (fuel - 1) as nat,
            ),
            Ok(Action::Write(byte)) => run_of(
                program,
                next,
                input,
                consumed,
                output.push(byte),
                (fuel - 1) as nat,
            ),
            _ => Run { state: next, consumed, output, reply },
        }
    }
}

/// How far the cursor of `t` is from offset zero.
pub open spec fn reach(t: Tape) -> int {
    if t.cursor < 0 {
        -t.cursor
    } else {
        t.cursor
    }
}

/// Whether a run of `fuel` steps from tape `t` stays inside what a `usize`
/// can index: always on a bounded tape, and on an unbounded one where even
/// `fuel` moves away from offset zero would.
pub open spec fn can_run(t: Tape, fuel: nat) -> bool {
    t.bounded || reach(t) + fuel < usize::MAX
}

/// A step keeps a valid state valid and the kind of the tape as it is, and
/// moves the cursor of an unbounded tape by one cell at most.
pub proof fn lemma_step_keeps_valid(program: Seq<u8>, s: State, event: Event)
    requires
        valid(program, s),
    ensures
        valid(program, step_of(program, s, event).0),
        step_of(program, s, event).0.tape.bounded == s.tape.bounded,
        !s.tape.bounded ==> reach(step_of(program, s, event).0.tape) <= reach(s.tape) + 1,
{
    if s.pc < program.len() {
        lemma_scan_result(program, s.pc as int + 1, 1);
    }
}

/// A symbol that is none of the eight commands only moves the position on:
/// the tape and the open loops stay as they are, and nothing is read or
/// written.
pub proof fn lemma_comment_step(program: Seq<u8>, s: State, event: Event)
    requires
        s.pc < program.len(),
        !is_command(program[s.pc as int]),
    ensures
        step_of(program, s, event) == (State { pc: s.pc + 1, ..s }, Ok::<Action, nat>(Action::Next)),
{
}

/// The symbols `[`, `]` and `.` change the value of no cell and leave the
/// cursor where it is: all they do to the tape is to materialise the cell
/// under the cursor.
pub proof fn lemma_loops_keep_cells(program: Seq<u8>, s: State, event: Event, at: int)
    requires
        valid(program, s),
        s.pc < program.len(),
        program[s.pc as int] == OPEN || program[s.pc as int] == CLOSE || program[s.pc as int]
            == OUTPUT,
    ensures
        step_of(program, s, event).0.tape == s.tape.touch(),
        step_of(program, s, event).0.tape.cursor == s.tape.cursor,
        step_of(program, s, event).0.tape.cell(at) == s.tape.cell(at),
{
}

/// A `[` on a cell that holds zero skips its loop: the run goes on behind the
/// matching `]`, or ends if there is none. No loop is opened, no cell
/// changes, and nothing is read or written.
pub proof fn lemma_skip(program: Seq<u8>, s: State, event: Event, at: int)
    requires
        valid(program, s),
        s.pc < program.len(),
        program[s.pc as int] == OPEN,
        s.tape.current() == 0,
    ensures
        step_of(program, s, event).1 == Ok::<Action, nat>(Action::Next),
        step_of(program, s, event).0.jumps == s.jumps,
        step_of(program, s, event).0.tape.cell(at) == s.tape.cell(at),
        step_of(program, s, event).0.tape.current() == 0,
        s.pc < step_of(program, s, event).0.pc <= program.len(),
        step_of(program, s, event).0.pc < program.len() ==> program[step_of(
            program,
            s,
            event,
        ).0.pc - 1] == CLOSE,
        scan(program, s.pc as int + 1, 1) == program.len() ==> ended(
            program,
            step_of(program, s, event).0,
        ),
{
    lemma_scan_result(program, s.pc as int + 1, 1);
}

/// A `]` on a cell that is not zero fails if and only if no loop is open. The
/// error names the position of that `]`. A `]` on a cell that holds zero
/// never fails, and no other symbol does.
pub proof fn lemma_failure(program: Seq<u8>, s: State, event: Event)
    ensures
        step_of(program, s, event).1 is Err <==> s.pc < program.len() && program[s.pc as int]
            == CLOSE && s.tape.current() != 0 && s.jumps.len() == 0,
        step_of(program, s, event).1 is Err ==> step_of(program, s, event).1 == Err::<Action, nat>(
            s.pc,
        ),
{
}

/// A run of a program in which no symbol from the current position on is a
/// command ends at the end of the program, provided that it may take as many
/// steps as there are symbols left. It reads nothing, writes nothing, and
/// leaves the tape and the open loops as they were.
pub proof fn lemma_comments_run(
    program: Seq<u8>,
    s: State,
    input: Seq<u8>,
    consumed: nat,
    output: Seq<u8>,
    fuel: nat,
)
    requires
        s.pc <= program.len(),
        forall|i: int| s.pc <= i < program.len() ==> !is_command(#[trigger] program[i]),
        fuel >= program.len() - s.pc,
    ensures
        run_of(program, s, input, consumed, output, fuel) == (Run {
            state: State { pc: program.len(), ..s },
            consumed,
            output,
            reply: Ok(Action::Done),
        }),
    decreases program.len() - s.pc,
{
    if s.pc < program.len() {
        let event = event_of(program, s, input, consumed);
        lemma_comments_run(
            program,
            State { pc: s.pc + 1, ..s },
            input,
            consumed,
            output,
            (fuel - 1) as nat,
        );
    }
}

/// A program that holds no command at all runs from its start to its end on
/// any tape and any input, in as many steps as it has symbols. It writes
/// nothing, reads nothing and leaves the tape as it was.
pub proof fn lemma_comment_program(program: Seq<u8>, tape: Tape, input: Seq<u8>, fuel: nat)
    requires
        forall|i: int| 0 <= i < program.len() ==> !is_command(#[trigger] program[i]),
        fuel >= program.len(),
    ensures
        run_of(program, start(tape), input, 0, Seq::empty(), fuel) == (Run {
            state: State { pc: program.len(), tape, jumps: Seq::empty() },
            consumed: 0,
            output: Seq::empty(),
            reply: Ok(Action::Done),
        }),
{
    lemma_comments_run(program, start(tape), input, 0, Seq::empty(), fuel);
}

/// More steps never change a run that has stopped for another reason than
/// the want of steps; and a run that has used up its steps goes on, given
/// more, from where it stopped.
pub proof fn lemma_run_resumes(
    program: Seq<u8>,
    s: State,
    input: Seq<u8>,
    consumed: nat,
    output: Seq<u8>,
    fuel: nat,
    more: nat,
)
    ensures
        ({
            let first = run_of(program, s, input, consumed, output, fuel);
            run_of(program, s, input, consumed, output, fuel + more) == (if first.reply == Ok::<
                Action,
                nat,
            >(Action::Next) {
                run_of(program, first.state, input, first.consumed, first.output, more)
            } else {
                first
            })
        }),
    decreases fuel,
{
    if !ended(program, s) && fuel > 0 {
        let event = event_of(program, s, input, consumed);
        let (next, reply) = step_of(program, s, event);
        match reply {
            Ok(Action::Next) => {
                let read = if event is Byte {
                    consumed + 1
                } else {
                    consumed
                };
                lemma_run_resumes(program, next, input, read, output, (fuel - 1) as nat, more);
            },
            Ok(Action::Write(byte)) => {
                lemma_run_resumes(
                    program,
                    next,
                    input,
                    consumed,
                    output.push(byte),
                    (fuel - 1) as nat,
                    more,
                );
            },
            _ => {},
        }
    }
}

/// A run keeps a valid state valid and the kind of the tape as it is, and
/// takes the cursor of an unbounded tape no further from offset zero than
/// one cell for each step.
pub proof fn lemma_run_keeps_valid(
    program: Seq<u8>,
    s: State,
    input: Seq<u8>,
    consumed: nat,
    output: Seq<u8>,
    fuel: nat,
)
    requires
        valid(program, s),
    ensures
        valid(program, run_of(program, s, input, consumed, output, fuel).state),
        run_of(program, s, input, consumed, output, fuel).state.tape.bounded == s.tape.bounded,
        !s.tape.bounded ==> reach(run_of(program, s, input, consumed, output, fuel).state.tape)
            <= reach(s.tape) + fuel,
    decreases fuel,
{
    if !ended(program, s) && fuel > 0 {
        let event = event_of(program, s, input, consumed);
        let (next, reply) = step_of(program, s, event);
        lemma_step_keeps_valid(program, s, event);
        match reply {
            Ok(Action::Next) => {
                let read = if event is Byte {
                    consumed + 1
                } else {
                    consumed
                };
                lemma_run_keeps_valid(program, next, input, read, output, (fuel - 1) as nat);
            },
            Ok(Action::Write(byte)) => {
                lemma_run_keeps_valid(
                    program,
                    next,
                    input,
                    consumed,
                    output.push(byte),
                    (fuel - 1) as nat,
                );
            },
            _ => {},
        }
    }
}

/// A run keeps what was written before it and only appends to it, and it
/// reads the input in order: it never un-reads a byte nor reads past the
/// end.
pub proof fn lemma_run_extends(
    program: Seq<u8>,
    s: State,
    input: Seq<u8>,
    consumed: nat,
    output: Seq<u8>,
    fuel: nat,
)
    requires
        consumed <= input.len(),
    ensures
        output.is_prefix_of(run_of(program, s, input, consumed, output, fuel).output),
        consumed <= run_of(program, s, input, consumed, output, fuel).consumed <= input.len(),
    decreases fuel,
{
    if !ended(program, s) && fuel > 0 {
        let event = event_of(program, s, input, consumed);
        let (next, reply) = step_of(program, s, event);
        match reply {
            Ok(Action::Next) => {
                let read = if event is Byte {
                    consumed + 1
                } else {
                    consumed
                };
                lemma_run_extends(program, next, input, read, output, (fuel - 1) as nat);
            },
            Ok(Action::Write(byte)) => {
                lemma_run_extends(
                    program,
                    next,
                    input,
                    consumed,
                    output.push(byte),
                    (fuel - 1) as nat,
                );
            },
            _ => {},
        }
    }
}

} // verus!

//! The execution engine.
//!
//! The engine walks the program one symbol per step. It never touches a
//! stream: a step that needs a byte from the input says so and waits for its
//! caller to hand the byte in, and a step that produces a byte hands it out.
//! What a step does to the machine is [`step_of`]; what a run of many steps
//! does is [`run_of`].

use vstd::prelude::*;
use crate::error::end_of_stream;
use crate::error::Error;
use crate::machine::can_run;
use crate::machine::can_step;
use crate::machine::ended;
use crate::machine::run_of;
use crate::machine::scan;
use crate::machine::start;
use crate::machine::step_of;
use crate::machine::valid;
use crate::machine::Action;
use crate::machine::Event;
use crate::machine::State;
use crate::machine::BACKWARD;
use crate::machine::CLOSE;
use crate::machine::FORWARD;
use crate::machine::INPUT;
use crate::machine::MINUS;
use crate::machine::OPEN;
use crate::machine::OUTPUT;
use crate::machine::PLUS;
use crate::memory::Memory;
use crate::memory::DEFAULT_CAPACITY;
use crate::tape::Tape;

verus! {

/// Finds the end of the loop whose body starts at `from`: the position of the
/// `]` that brings the count of open loops from one to zero, or the length of
/// the program if no `]` does.
pub fn find_close(program: &Vec<u8>, from: usize) -> (close: usize)
    requires
        from <= program.len(),
    ensures
        close == scan(program@, from as int, 1),
        from <= close <= program.len(),
{
    let mut at: usize = from;
    // The loops that were opened during the scan and are still open: one
    // less than the depth, which counts the loop that is being skipped too.
    let mut inner: usize = 0;
    while at < program.len()
        invariant
            from <= at <= program.len(),
            inner <= at - from,
            scan(program@, at as int, (inner + 1) as nat) == scan(program@, from as int, 1),
        decreases program.len() - at,
    {
        let symbol = program[at];
        if symbol == OPEN {
            inner = inner + 1;
        } else if symbol == CLOSE {
            if inner == 0 {
                return at;
            }
            inner = inner - 1;
        }
        at = at + 1;
    }
    at
}

/// The machine: a program, the position in it, the memory and the stack of
/// open loops.
#[derive(Debug)]
pub struct Interpreter {
    program: Vec<u8>,
    ptr: usize,
    memory: Memory,
    jumps: Vec<usize>,
}

impl View for Interpreter {
    type V = State;

    closed spec fn view(&self) -> State {
        State {
            pc: self.ptr as nat,
            tape: self.memory@,
            jumps: self.jumps@.map_values(|open: usize| open as nat),
        }
    }
}

impl Interpreter {
    /// The program that this machine runs.
    pub closed spec fn program(&self) -> Seq<u8> {
        self.program@
    }

    /// The invariant of the machine. `new` establishes it and `step` keeps
    /// it.
    pub closed spec fn wf(&self) -> bool {
        &&& self.memory.wf()
        &&& valid(self.program@, self@)
    }

    /// A well-formed machine is in a valid state.
    pub proof fn lemma_wf(&self)
        requires
            self.wf(),
        ensures
            valid(self.program(), self@),
    {
    }

    /// A machine at the start of `program`, on `memory`, with no loop open.
    pub fn new(program: Vec<u8>, memory: Memory) -> (m: Self)
        requires
            memory.wf(),
        ensures
            m.wf(),
            m.program() == program@,
            m@ == start(memory@),
    {
        proof {
            memory.lemma_wf();
        }
        let m = Interpreter { program, ptr: 0, memory, jumps: Vec::new() };
        assert(m@.jumps =~= Seq::<nat>::empty());
        m
    }

    /// Executes the symbol at the current position.
    ///
    /// The caller hands in `Event::Resume`, or `Event::Byte` with the byte it
    /// read after the step before returned `Action::Read`. The result says
    /// what the caller has to do before the next step. An error is final:
    /// it is the syntax error for the `]` at the current position, which was
    /// met on a cell that is not zero while no loop was open.
    pub fn step(&mut self, event: Event) -> (r: Result<Action, Error>)
        requires
            old(self).wf(),
            can_step(old(self).program(), old(self)@),
        ensures
            final(self).wf(),
            final(self).program() == old(self).program(),
            final(self)@ == step_of(old(self).program(), old(self)@, event).0,
            (match step_of(old(self).program(), old(self)@, event).1 {
                Ok(action) => r == Ok::<Action, Error>(action),
                Err(at) => r is Err && r->Err_0.is_unmatched_at(at),
            }),
    {
        let ghost before = self@;
        if self.ptr >= self.program.len() {
            return Ok(Action::Done);
        }
        let symbol = self.program[self.ptr];
        if symbol == FORWARD {
            self.memory.inc();
            self.ptr = self.ptr + 1;
            Ok(Action::Next)
        } else if symbol == BACKWARD {
            self.memory.dec();
            self.ptr = self.ptr + 1;
            Ok(Action::Next)
        } else if symbol == PLUS {
            self.memory.plus();
            self.ptr = self.ptr + 1;
            Ok(Action::Next)
        } else if symbol == MINUS {
            self.memory.minus();
            self.ptr = self.ptr + 1;
            Ok(Action::Next)
        } else if symbol == OUTPUT {
            let byte = self.memory.load();
            self.ptr = self.ptr + 1;
            Ok(Action::Write(byte))
        } else if symbol == INPUT {
            match event {
                Event::Byte(byte) => {
                    self.memory.store(byte);
                    self.ptr = self.ptr + 1;
                    Ok(Action::Next)
                },
                Event::Resume => Ok(Action::Read),
            }
        } else if symbol == OPEN {
            if self.memory.load() != 0 {
                self.jumps.push(self.ptr);
                assert(self@.jumps =~= before.jumps.push(before.pc));
                self.ptr = self.ptr + 1;
            } else {
                let close = find_close(&self.program, self.ptr + 1);
                if close < self.program.len() {
                    self.ptr = close + 1;
                } else {
                    self.ptr = self.program.len();
                }
            }
            Ok(Action::Next)
        } else if symbol == CLOSE {
            if self.memory.load() != 0 {
                match self.jumps.pop() {
                    Some(open) => {
                        assert(self@.jumps =~= before.jumps.drop_last());
                        self.ptr = open;
                    },
                    None => {
                        return Err(Error::at_byte(self.ptr));
                    },
                }
            } else {
                self.ptr = self.ptr + 1;
            }
            Ok(Action::Next)
        } else {
            self.ptr = self.ptr + 1;
            Ok(Action::Next)
        }
    }

    /// Runs the machine for at most `budget` steps, reading from `input` and
    /// appending to `output`. Returns how many bytes of `input` were read,
    /// and why the run stopped: see `Run::reply`.
    pub fn run(&mut self, input: &Vec<u8>, output: &mut Vec<u8>, budget: usize) -> (r: (
        usize,
        Result<Action, Error>,
    ))
        requires
            old(self).wf(),
            can_run(old(self)@.tape, budget as nat),
        ensures
            final(self).wf(),
            final(self).program() == old(self).program(),
            ({
                let run = run_of(
                    old(self).program(),
                    old(self)@,
                    input@,
                    0,
                    old(output)@,
                    budget as nat,
                );
                &&& final(self)@ == run.state
                &&& r.0 == run.consumed
                &&& final(output)@ == run.output
                &&& match run.reply {
                    Ok(action) => r.1 == Ok::<Action, Error>(action),
                    Err(at) => r.1 is Err && r.1->Err_0.is_unmatched_at(at),
                }
            }),
    {
        let ghost whole = run_of(
            self.program(),
            self@,
            input@,
            0,
            output@,
            budget as nat,
        );
        let mut consumed: usize = 0;
        let mut left: usize = budget;
        loop
            invariant
                self.wf(),
                self.program() == old(self).program(),
                consumed <= input.len(),
                can_run(self@.tape, left as nat),
                whole == run_of(
                    old(self).program(),
                    old(self)@,
                    input@,
                    0,
                    old(output)@,
                    budget as nat,
                ),
                whole == run_of(
                    self.program(),
                    self@,
                    input@,
                    consumed as nat,
                    output@,
                    left as nat,
                ),
            decreases left,
        {
            if self.ptr >= self.program.len() {
                return (consumed, Ok(Action::Done));
            }
            if left == 0 {
                return (consumed, Ok(Action::Next));
            }
            let fed = self.program[self.ptr] == INPUT && consumed < input.len();
            let event = if fed {
                Event::Byte(input[consumed])
            } else {
                Event::Resume
            };
            match self.step(event) {
                Ok(Action::Next) => {
                    if fed {
                        consumed = consumed + 1;
                    }
                },
                Ok(Action::Write(byte)) => {
                    output.push(byte);
                },
                Ok(action) => {
                    return (consumed, Ok(action));
                },
                Err(e) => {
                    return (consumed, Err(e));
                },
            }
            left = left - 1;
        }
    }

    /// Whether `step` can be called: it cannot where the next symbol moves
    /// the cursor of an unbounded memory further than a `usize` reaches.
    pub fn is_ready(&self) -> (b: bool)
        requires
            self.wf(),
        ensures
            b == can_step(self.program(), self@),
    {
        if self.ptr >= self.program.len() {
            true
        } else {
            let symbol = self.program[self.ptr];
            if symbol == FORWARD {
                self.memory.can_inc()
            } else if symbol == BACKWARD {
                self.memory.can_dec()
            } else {
                true
            }
        }
    }

    /// Whether the run has ended.
    pub fn is_done(&self) -> (b: bool)
        ensures
            b == ended(self.program(), self@),
    {
        self.ptr >= self.program.len()
    }

    /// The position of the symbol to execute next.
    pub fn position(&self) -> (at: usize)
        ensures
            at == self@.pc,
    {
        self.ptr
    }

    /// The number of loops that are open.
    pub fn open_loops(&self) -> (n: usize)
        ensures
            n == self@.jumps.len(),
    {
        self.jumps.len()
    }

    /// The memory of the machine.
    pub fn memory(&self) -> (m: &Memory)
        ensures
            m@ == self@.tape,
            self.wf() ==> m.wf(),
    {
        &self.memory
    }
}

/// Runs `bytes` from its start for at most `budget` steps, on the default
/// memory with every cell zero, reading from `input` and appending to
/// `output`.
///
/// Returns `Ok(true)` if the program ran to its end and `Ok(false)` if the
/// steps were used up before that. A `,` for which `input` has no byte left
/// is an I/O error, and a `]` on a cell that is not zero with no loop open is
/// a syntax error. What was written before an error stays in `output`.
pub fn interpret(bytes: Vec<u8>, input: &Vec<u8>, output: &mut Vec<u8>, budget: usize) -> (r:
    Result<bool, Error>)
    ensures
        ({
            let run = run_of(
                bytes@,
                start(Tape::ring(DEFAULT_CAPACITY as nat)),
                input@,
                0,
                old(output)@,
                budget as nat,
            );
            &&& final(output)@ == run.output
            &&& match run.reply {
                Ok(Action::Done) => r == Ok::<bool, Error>(true),
                Ok(Action::Read) => r is Err && r->Err_0 is Io,
                Ok(_) => r == Ok::<bool, Error>(false),
                Err(at) => r is Err && r->Err_0.is_unmatched_at(at),
            }
        }),
{
    let mut machine = Interpreter::new(bytes, Memory::default());
    match machine.run(input, output, budget).1 {
        Ok(Action::Done) => Ok(true),
        Ok(Action::Read) => Err(Error::Io(end_of_stream())),
        Ok(_) => Ok(false),
        Err(e) => Err(e),
    }
}

} // verus!

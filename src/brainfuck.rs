//! A Brainfuck parser and interpreter.
//!
//! Cells are bytes that wrap round. A run fails when it reads past its input, when
//! the tape pointer leaves the tape, or when it jumps back after `STEP_LIMIT`
//! executed instructions, which is taken for an infinite loop.
use vstd::prelude::*;
use crate::text::push_char;

verus! {

/// Executed instructions after which a backward jump counts as an infinite loop.
pub const STEP_LIMIT: usize = 10000;

/// Why a text is not a program.
#[derive(Debug, Eq, PartialEq)]
pub enum ParseError {
    UnknownInstruction { location: usize, instruction: char },
    UnmatchedLoop { location: usize },
}

/// Why a run stopped before the end of the program.
#[derive(Debug, Eq, PartialEq)]
pub enum ExecuteError {
    NoInputLeft,
    InfiniteLoop,
    OutOfTape,
}

/// One instruction. `LoopEnd` holds where its loop begins.
#[derive(Debug, Eq, PartialEq)]
pub enum Instruction {
    Left,
    Right,
    Add,
    Sub,
    Print,
    Save,
    LoopBegin,
    LoopEnd(usize),
    Noop,
    End,
}

/// A parsed program, ending with `End`.
#[derive(Debug, Eq, PartialEq)]
pub struct Program {
    instructions: Vec<Instruction>,
}

/// The instruction for character `c`, at position `i`, when it is not a
/// bracket; `None` when `c` is no instruction.
pub open spec fn simple_instruction(c: char) -> Option<Instruction> {
    if c == '>' {
        Some(Instruction::Right)
    } else if c == '<' {
        Some(Instruction::Left)
    } else if c == '+' {
        Some(Instruction::Add)
    } else if c == '-' {
        Some(Instruction::Sub)
    } else if c == '.' {
        Some(Instruction::Print)
    } else if c == ',' {
        Some(Instruction::Save)
    } else if c == ' ' || c == '\n' || c == '\r' {
        Some(Instruction::Noop)
    } else {
        None
    }
}

/// The result of parsing `s` from position `i` on, with `done` parsed so far and
/// the starts of the loops still open on `open`.
pub open spec fn parse_from(s: Seq<char>, i: int, done: Seq<Instruction>, open: Seq<usize>) -> Result<
    Seq<Instruction>,
    ParseError,
>
    decreases s.len() - i,
{
    if i < 0 || i >= s.len() {
        if open.len() > 0 {
            Err(ParseError::UnmatchedLoop { location: open.last() })
        } else {
            Ok(done.push(Instruction::End))
        }
    } else {
        let c = s[i];
        if c == '[' {
            parse_from(s, i + 1, done.push(Instruction::LoopBegin), open.push(i as usize))
        } else if c == ']' {
            if open.len() == 0 {
                Err(ParseError::UnmatchedLoop { location: i as usize })
            } else {
                parse_from(s, i + 1, done.push(Instruction::LoopEnd(open.last())), open.drop_last())
            }
        } else {
            match simple_instruction(c) {
                Some(ins) => parse_from(s, i + 1, done.push(ins), open),
                None => Err(ParseError::UnknownInstruction { location: i as usize, instruction: c }),
            }
        }
    }
}

/// The program that `s` spells, or why it spells none.
pub open spec fn parse_spec(s: Seq<char>) -> Result<Seq<Instruction>, ParseError> {
    parse_from(s, 0, Seq::empty(), Seq::empty())
}

/// Whether `p` can be run: it ends with `End`, and every `LoopEnd` jumps back.
pub open spec fn well_formed(p: Seq<Instruction>) -> bool {
    &&& p.len() > 0
    &&& p.last() == Instruction::End
    &&& forall|i: int, j: usize| 0 <= i < p.len() && p[i] == Instruction::LoopEnd(j) ==> j < i
}

/// The state of a run.
pub ghost struct Machine {
    pub ip: int,
    pub ptr: int,
    pub steps: int,
    pub read: int,
    pub tape: Seq<u8>,
    pub out: Seq<char>,
}

/// What one instruction does to a run.
pub ghost enum Step {
    Next(Machine),
    Finished(Seq<char>),
    Failed(ExecuteError),
}

/// The effect of the instruction at `m.ip`.
pub open spec fn step(p: Seq<Instruction>, input: Seq<u8>, m: Machine) -> Step {
    let on_tape = 0 <= m.ptr < m.tape.len();
    let next = Machine { ip: m.ip + 1, steps: m.steps + 1, ..m };
    match p[m.ip] {
        Instruction::Left => if m.ptr == 0 {
            Step::Failed(ExecuteError::OutOfTape)
        } else {
            Step::Next(Machine { ptr: m.ptr - 1, ..next })
        },
        Instruction::Right => if m.ptr >= m.tape.len() {
            Step::Failed(ExecuteError::OutOfTape)
        } else {
            Step::Next(Machine { ptr: m.ptr + 1, ..next })
        },
        Instruction::Add => if !on_tape {
            Step::Failed(ExecuteError::OutOfTape)
        } else {
            Step::Next(
                Machine {
                    tape: m.tape.update(m.ptr, (if m.tape[m.ptr] == 255 { 0 } else { m.tape[m.ptr] + 1 }) as u8),
                    ..next
                },
            )
        },
        Instruction::Sub => if !on_tape {
            Step::Failed(ExecuteError::OutOfTape)
        } else {
            Step::Next(
                Machine {
                    tape: m.tape.update(m.ptr, (if m.tape[m.ptr] == 0 { 255 } else { m.tape[m.ptr] - 1 }) as u8),
                    ..next
                },
            )
        },
        Instruction::Print => if !on_tape {
            Step::Failed(ExecuteError::OutOfTape)
        } else {
            Step::Next(Machine { out: m.out.push(m.tape[m.ptr] as char), ..next })
        },
        Instruction::Save => if !on_tape {
            Step::Failed(ExecuteError::OutOfTape)
        } else if m.read >= input.len() {
            Step::Failed(ExecuteError::NoInputLeft)
        } else {
            Step::Next(Machine { tape: m.tape.update(m.ptr, input[m.read]), read: m.read + 1, ..next })
        },
        Instruction::LoopEnd(target) => if !on_tape {
            Step::Failed(ExecuteError::OutOfTape)
        } else if m.tape[m.ptr] == 0 {
            Step::Next(next)
        } else if m.steps >= STEP_LIMIT {
            Step::Failed(ExecuteError::InfiniteLoop)
        } else {
            Step::Next(Machine { ip: target as int, ..next })
        },
        Instruction::LoopBegin | Instruction::Noop => Step::Next(next),
        Instruction::End => Step::Finished(m.out),
    }
}

/// The result of running at most `fuel` more instructions from `m`.
pub open spec fn run(p: Seq<Instruction>, input: Seq<u8>, m: Machine, fuel: nat) -> Result<
    Seq<char>,
    ExecuteError,
>
    decreases fuel,
{
    if fuel == 0 {
        Err(ExecuteError::InfiniteLoop)
    } else {
        match step(p, input, m) {
            Step::Next(n) => run(p, input, n, (fuel - 1) as nat),
            Step::Finished(out) => Ok(out),
            Step::Failed(e) => Err(e),
        }
    }
}

/// The result of running `p` on `input` with `tape`, from the start.
pub open spec fn execute_spec(p: Seq<Instruction>, input: Seq<u8>, tape: Seq<u8>) -> Result<
    Seq<char>,
    ExecuteError,
> {
    run(
        p,
        input,
        Machine { ip: 0, ptr: 0, steps: 0, read: 0, tape, out: Seq::empty() },
        (STEP_LIMIT + p.len() + 1) as nat,
    )
}

/// Whether `done` is a well-formed start of a program with the loops on `open`
/// still unclosed.
pub open spec fn partial_ok(done: Seq<Instruction>, open: Seq<usize>) -> bool {
    &&& forall|k: int, j: usize| 0 <= k < done.len() && done[k] == Instruction::LoopEnd(j) ==> j < k
    &&& forall|k: int| 0 <= k < open.len() ==> open[k] < done.len()
}

proof fn lemma_parse_well_formed(s: Seq<char>, i: int, done: Seq<Instruction>, open: Seq<usize>)
    requires
        0 <= i <= s.len() <= usize::MAX,
        done.len() == i,
        partial_ok(done, open),
    ensures
        parse_from(s, i, done, open) is Ok ==> well_formed(parse_from(s, i, done, open)->Ok_0),
    decreases s.len() - i,
{
    if i < s.len() {
        let c = s[i];
        if c == '[' {
            lemma_parse_well_formed(s, i + 1, done.push(Instruction::LoopBegin), open.push(i as usize));
        } else if c == ']' {
            if open.len() > 0 {
                let d = done.push(Instruction::LoopEnd(open.last()));
                assert(partial_ok(d, open.drop_last()));
                lemma_parse_well_formed(s, i + 1, d, open.drop_last());
            }
        } else {
            match simple_instruction(c) {
                Some(ins) => {
                    assert(partial_ok(done.push(ins), open));
                    lemma_parse_well_formed(s, i + 1, done.push(ins), open);
                },
                None => {},
            }
        }
    } else {
        let p = done.push(Instruction::End);
        assert(forall|k: int, j: usize| 0 <= k < p.len() && p[k] == Instruction::LoopEnd(j) ==> (k < done.len() && done[k] == Instruction::LoopEnd(j)));
    }
}

impl Program {
    /// The instructions, ending with `End`.
    pub closed spec fn view_instructions(&self) -> Seq<Instruction> {
        self.instructions@
    }

    pub closed spec fn wf(&self) -> bool {
        well_formed(self.instructions@)
    }

    /// Runs the program on `input`, with `tape` as the initial memory, and
    /// returns what it printed.
    pub fn execute(&self, input: Vec<u8>, tape: Vec<u8>) -> (r: Result<String, ExecuteError>)
        requires
            self.wf(),
            self.view_instructions().len() + STEP_LIMIT < usize::MAX,
        ensures
            match execute_spec(self.view_instructions(), input@, tape@) {
                Ok(out) => r is Ok && r->Ok_0@ == out,
                Err(e) => r == Err::<String, ExecuteError>(e),
            },
    {
        let ghost p = self.instructions@;
        let n = self.instructions.len();
        let ghost fuel: int = STEP_LIMIT + n + 1;
        let mut cells = tape;
        let mut output = String::new();
        let mut ptr: usize = 0;
        let mut ip: usize = 0;
        let mut steps: usize = 0;
        let mut read: usize = 0;
        loop
            invariant
                p == self.instructions@,
                n == p.len(),
                well_formed(p),
                n + STEP_LIMIT < usize::MAX,
                ip < n,
                steps <= STEP_LIMIT + ip,
                fuel == STEP_LIMIT + n + 1,
                run(
                    p,
                    input@,
                    Machine { ip: ip as int, ptr: ptr as int, steps: steps as int, read: read as int, tape: cells@, out: output@ },
                    (fuel - steps) as nat,
                ) == execute_spec(p, input@, tape@),
            decreases fuel - steps,
        {
            let ghost m = Machine { ip: ip as int, ptr: ptr as int, steps: steps as int, read: read as int, tape: cells@, out: output@ };
            let on_tape = ptr < cells.len();
            assert(p[ip as int] != Instruction::End ==> ip + 1 < n);
            match &self.instructions[ip] {
                Instruction::Left => {
                    if ptr == 0 {
                        return Err(ExecuteError::OutOfTape);
                    }
                    ptr = ptr - 1;
                },
                Instruction::Right => {
                    if ptr >= cells.len() {
                        return Err(ExecuteError::OutOfTape);
                    }
                    ptr = ptr + 1;
                },
                Instruction::Add => {
                    if !on_tape {
                        return Err(ExecuteError::OutOfTape);
                    }
                    let v = cells[ptr];
                    cells.set(ptr, if v == 255 { 0 } else { v + 1 });
                },
                Instruction::Sub => {
                    if !on_tape {
                        return Err(ExecuteError::OutOfTape);
                    }
                    let v = cells[ptr];
                    cells.set(ptr, if v == 0 { 255 } else { v - 1 });
                },
                Instruction::Print => {
                    if !on_tape {
                        return Err(ExecuteError::OutOfTape);
                    }
                    push_char(&mut output, cells[ptr] as char);
                },
                Instruction::Save => {
                    if !on_tape {
                        return Err(ExecuteError::OutOfTape);
                    }
                    if read >= input.len() {
                        return Err(ExecuteError::NoInputLeft);
                    }
                    cells.set(ptr, input[read]);
                    read = read + 1;
                },
                Instruction::LoopEnd(target) => {
                    if !on_tape {
                        return Err(ExecuteError::OutOfTape);
                    }
                    if cells[ptr] != 0 {
                        if steps >= STEP_LIMIT {
                            return Err(ExecuteError::InfiniteLoop);
                        }
                        ip = *target;
                        steps = steps + 1;
                        continue;
                    }
                },
                Instruction::LoopBegin | Instruction::Noop => {},
                Instruction::End => {
                    return Ok(output);
                },
            }
            ip = ip + 1;
            steps = steps + 1;
        }
    }
}

/// Parses `text` into a program: one instruction per character, then `End`.
pub fn parse_program(text: &str) -> (r: Result<Program, ParseError>)
    ensures
        match parse_spec(text@) {
            Ok(p) => r is Ok && r->Ok_0.view_instructions() == p && r->Ok_0.wf(),
            Err(e) => r == Err::<Program, ParseError>(e),
        },
{
    let chars = crate::text::chars_of(text);
    let n = chars.len();
    let mut instructions: Vec<Instruction> = Vec::new();
    let mut loop_starts: Vec<usize> = Vec::new();
    let mut i: usize = 0;
    proof {
        lemma_parse_well_formed(text@, 0, Seq::empty(), Seq::empty());
    }
    while i < n
        invariant
            chars@ == text@,
            n == chars.len(),
            i <= n,
            instructions.len() == i,
            partial_ok(instructions@, loop_starts@),
            parse_from(text@, i as int, instructions@, loop_starts@) == parse_spec(text@),
        decreases n - i,
    {
        let c = chars[i];
        if c == '[' {
            instructions.push(Instruction::LoopBegin);
            loop_starts.push(i);
        } else if c == ']' {
            match loop_starts.pop() {
                Some(start) => instructions.push(Instruction::LoopEnd(start)),
                None => {
                    return Err(ParseError::UnmatchedLoop { location: i });
                },
            }
        } else {
            let ins = if c == '>' {
                Instruction::Right
            } else if c == '<' {
                Instruction::Left
            } else if c == '+' {
                Instruction::Add
            } else if c == '-' {
                Instruction::Sub
            } else if c == '.' {
                Instruction::Print
            } else if c == ',' {
                Instruction::Save
            } else if c == ' ' || c == '\n' || c == '\r' {
                Instruction::Noop
            } else {
                return Err(ParseError::UnknownInstruction { location: i, instruction: c });
            };
            instructions.push(ins);
        }
        i = i + 1;
    }
    instructions.push(Instruction::End);
    match loop_starts.pop() {
        Some(start) => Err(ParseError::UnmatchedLoop { location: start }),
        None => {
            proof {
                lemma_parse_well_formed(text@, n as int, instructions@.drop_last(), loop_starts@);
            }
            Ok(Program { instructions })
        },
    }
}

} // verus!

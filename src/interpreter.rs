use vstd::prelude::*;
use crate::brackets::{
    backward_match,
    backward_target,
    forward_match,
    forward_target,
    lemma_backward_match_unique,
    lemma_forward_match_unique,
    lemma_nesting_front,
    nesting,
    nesting_delta,
};
use crate::tape::{cell_at, grown_to, written};
use crate::token::BrainfuckToken;
use crate::values::{cell_char, char_of_cell};

verus! {

/// The most instructions that one call of `execute` runs before it hands
/// control back; calling again resumes where it stopped.
pub const STEPS_PER_CALL: u64 = 1_000_000_000;

/// Why a run cannot go on.
#[derive(PartialEq, Eq, Structural, Debug, Clone, Copy)]
pub enum Fault {
    /// The data pointer was moved left of the first cell.
    PointerUnderflow,
    /// The data pointer would pass the last index that a tape can address.
    PointerOverflow,
}

/// What executing one instruction leaves for the caller to do.
#[derive(PartialEq, Eq, Structural, Debug, Clone, Copy)]
pub enum Effect {
    /// Nothing: the instruction is done.
    Nothing,
    /// The character to emit.
    Output(char),
    /// A value is to be read and stored with `store_input`.
    Input,
    /// The instruction cannot be executed; nothing changed.
    Fault(Fault),
}

/// Why `execute` handed control back.
#[derive(PartialEq, Eq, Structural, Debug, Clone, Copy)]
pub enum Outcome {
    /// The instruction pointer is past the last instruction.
    Finished,
    /// `STEPS_PER_CALL` instructions ran; call again to go on.
    Paused,
    /// An output instruction ran: the character is to be emitted.
    Output(char),
    /// An input instruction ran: a value is to be stored with `store_input`
    /// before the run goes on.
    NeedsInput,
    /// The instruction at the instruction pointer cannot be executed.
    Fault(Fault),
}

/// The tape, the data pointer and the instruction pointer of one run.
pub struct BrainfuckInterpreter {
    pub memory: Vec<i32>,
    pub memory_index: usize,
    pub token_index: usize,
}

/// The state of a run as mathematical values.
pub struct Machine {
    /// The stored cells; all further cells read zero.
    pub cells: Seq<i32>,
    /// The data pointer.
    pub data: int,
    /// The instruction pointer.
    pub ip: int,
}

impl View for BrainfuckInterpreter {
    type V = Machine;

    open spec fn view(&self) -> Machine {
        Machine { cells: self.memory@, data: self.memory_index as int, ip: self.token_index as int }
    }
}

/// The state before a run: an empty tape and both pointers at zero.
pub open spec fn initial_machine() -> Machine {
    Machine { cells: Seq::empty(), data: 0, ip: 0 }
}

/// The state and effect after executing the instruction at `m.ip` (which
/// must be within `prog`), before the instruction pointer moves on.
pub open spec fn step(m: Machine, prog: Seq<BrainfuckToken>) -> (Machine, Effect) {
    let current = cell_at(m.cells, m.data);
    match prog[m.ip] {
        BrainfuckToken::IncrementPointer => if m.data < usize::MAX {
            (Machine { data: m.data + 1, ..m }, Effect::Nothing)
        } else {
            (m, Effect::Fault(Fault::PointerOverflow))
        },
        BrainfuckToken::DecrementPointer => if m.data > 0 {
            (Machine { data: m.data - 1, ..m }, Effect::Nothing)
        } else {
            (m, Effect::Fault(Fault::PointerUnderflow))
        },
        BrainfuckToken::IncrementValue => if m.data < usize::MAX {
            (
                Machine { cells: written(m.cells, m.data, current.wrapping_add(1)), ..m },
                Effect::Nothing,
            )
        } else {
            (m, Effect::Fault(Fault::PointerOverflow))
        },
        BrainfuckToken::DecrementValue => if m.data < usize::MAX {
            (
                Machine { cells: written(m.cells, m.data, current.wrapping_sub(1)), ..m },
                Effect::Nothing,
            )
        } else {
            (m, Effect::Fault(Fault::PointerOverflow))
        },
        BrainfuckToken::PrintPointer => (m, Effect::Output(char_of_cell(current))),
        BrainfuckToken::GetCharacterInput => if m.data < usize::MAX {
            (m, Effect::Input)
        } else {
            (m, Effect::Fault(Fault::PointerOverflow))
        },
        BrainfuckToken::StartLoop => if current <= 0 {
            (Machine { ip: forward_target(prog, m.ip), ..m }, Effect::Nothing)
        } else {
            (m, Effect::Nothing)
        },
        BrainfuckToken::EndLoop => if current > 0 {
            (Machine { ip: backward_target(prog, m.ip), ..m }, Effect::Nothing)
        } else {
            (m, Effect::Nothing)
        },
        BrainfuckToken::Comment => (m, Effect::Nothing),
    }
}

/// The state and outcome after running `prog` from `m` for at most `fuel`
/// instructions: each instruction is executed and the instruction pointer
/// then moves one on, until the program ends, an instruction needs outside
/// work (which stops the run after it) or faults (which stops the run
/// before it), or the fuel runs out.
pub open spec fn run(m: Machine, prog: Seq<BrainfuckToken>, fuel: nat) -> (Machine, Outcome)
    decreases fuel,
{
    if m.ip >= prog.len() {
        (m, Outcome::Finished)
    } else if fuel == 0 {
        (m, Outcome::Paused)
    } else {
        let (next, effect) = step(m, prog);
        let advanced = Machine { ip: next.ip + 1, ..next };
        match effect {
            Effect::Nothing => run(advanced, prog, (fuel - 1) as nat),
            Effect::Output(c) => (advanced, Outcome::Output(c)),
            Effect::Input => (advanced, Outcome::NeedsInput),
            Effect::Fault(f) => (next, Outcome::Fault(f)),
        }
    }
}

impl Default for BrainfuckInterpreter {
    /// A fresh run: empty tape, both pointers at zero.
    fn default() -> (r: BrainfuckInterpreter)
        ensures
            r@ == initial_machine(),
    {
        BrainfuckInterpreter { memory: Vec::with_capacity(1000), memory_index: 0, token_index: 0 }
    }
}

impl BrainfuckInterpreter {
    /// The value of the current cell; zero when it is not stored.
    fn current_cell(&self) -> (v: i32)
        ensures
            v == cell_at(self.memory@, self.memory_index as int),
    {
        if self.memory_index < self.memory.len() {
            self.memory[self.memory_index]
        } else {
            0
        }
    }

    /// The character that the current cell prints as.
    pub fn output_character(&self) -> (c: char)
        ensures
            c == char_of_cell(cell_at(self.memory@, self.memory_index as int)),
    {
        cell_char(self.current_cell())
    }

    /// Makes the current cell addressable, padding the tape with zeros.
    pub fn increase_memory_as_needed(&mut self)
        requires
            old(self).memory_index < usize::MAX,
        ensures
            final(self).memory@ == grown_to(old(self).memory@, old(self).memory_index as int),
            final(self).memory_index == old(self).memory_index,
            final(self).token_index == old(self).token_index,
    {
        if self.memory.len() <= self.memory_index {
            self.memory.resize(self.memory_index + 1, 0);
            assert(self.memory@ =~= grown_to(old(self).memory@, old(self).memory_index as int));
        }
    }

    /// Writes `v` to the current cell, growing the tape as needed.
    fn write_current(&mut self, v: i32)
        requires
            old(self).memory_index < usize::MAX,
        ensures
            final(self).memory@ == written(old(self).memory@, old(self).memory_index as int, v),
            final(self).memory_index == old(self).memory_index,
            final(self).token_index == old(self).token_index,
    {
        self.increase_memory_as_needed();
        self.memory.set(self.memory_index, v);
    }

    /// Adds one to the current cell, wrapping around, growing the tape as
    /// needed.
    pub fn increment_memory_at_index(&mut self)
        requires
            old(self).memory_index < usize::MAX,
        ensures
            final(self).memory@ == written(
                old(self).memory@,
                old(self).memory_index as int,
                cell_at(old(self).memory@, old(self).memory_index as int).wrapping_add(1),
            ),
            final(self).memory_index == old(self).memory_index,
            final(self).token_index == old(self).token_index,
    {
        let v = self.current_cell();
        self.write_current(v.wrapping_add(1));
    }

    /// Subtracts one from the current cell, wrapping around, growing the
    /// tape as needed.
    pub fn decrement_memory_at_index(&mut self)
        requires
            old(self).memory_index < usize::MAX,
        ensures
            final(self).memory@ == written(
                old(self).memory@,
                old(self).memory_index as int,
                cell_at(old(self).memory@, old(self).memory_index as int).wrapping_sub(1),
            ),
            final(self).memory_index == old(self).memory_index,
            final(self).token_index == old(self).token_index,
    {
        let v = self.current_cell();
        self.write_current(v.wrapping_sub(1));
    }

    /// Stores a value that was read for an input instruction into the
    /// current cell, growing the tape as needed.
    pub fn store_input(&mut self, value: i32)
        requires
            old(self).memory_index < usize::MAX,
        ensures
            final(self).memory@ == written(old(self).memory@, old(self).memory_index as int, value),
            final(self).memory_index == old(self).memory_index,
            final(self).token_index == old(self).token_index,
    {
        self.write_current(value);
    }
    /// Jumps forward from the loop start at the instruction pointer to its
    /// matching loop end: scanning from the instruction pointer itself, the
    /// first position at which the nesting counted from there returns to
    /// zero. Without one the instruction pointer stays.
    pub fn break_loop(&mut self, message: &[BrainfuckToken])
        requires
            old(self).token_index <= message@.len(),
        ensures
            final(self).token_index == forward_target(message@, old(self).token_index as int),
            final(self).memory@ == old(self).memory@,
            final(self).memory_index == old(self).memory_index,
    {
        let ghost s = message@;
        let ghost from = self.token_index as int;
        let mut loop_counter: i128 = 0;
        let mut k: usize = self.token_index;
        while k < message.len()
            invariant
                s == message@,
                from == self.token_index as int,
                self.token_index == old(self).token_index,
                from <= k <= s.len(),
                loop_counter == nesting(s, from, k as int),
                -(k - from) <= loop_counter <= k - from,
                forall|j: int| from <= j < k ==> #[trigger] nesting(s, from, j + 1) != 0,
                self.memory@ == old(self).memory@,
                self.memory_index == old(self).memory_index,
            decreases s.len() - k,
        {
            match message[k] {
                BrainfuckToken::StartLoop => loop_counter += 1,
                BrainfuckToken::EndLoop => loop_counter -= 1,
                _ => (),
            }
            assert(nesting(s, from, k + 1) == nesting(s, from, k as int) + nesting_delta(s[k as int]));
            if loop_counter == 0 {
                assert(forward_match(s, from, k as int));
                let ghost t = choose|t: int| forward_match(s, from, t);
                proof {
                    lemma_forward_match_unique(s, from, k as int, t);
                }
                self.token_index = k;
                return;
            }
            k += 1;
        }
        assert(!exists|t: int| forward_match(s, from, t)) by {
            if exists|t: int| forward_match(s, from, t) {
                let t = choose|t: int| forward_match(s, from, t);
                assert(nesting(s, from, t + 1) != 0);
            }
        }
    }

    /// Jumps back from the loop end at the instruction pointer to its
    /// matching loop start: scanning the positions before it from the
    /// nearest down, with a counter that starts at one for the loop end
    /// itself, the first position at which the counter reaches zero. Without
    /// one the instruction pointer stays.
    pub fn rewind_loop(&mut self, message: &[BrainfuckToken])
        requires
            old(self).token_index <= message@.len(),
        ensures
            final(self).token_index == backward_target(message@, old(self).token_index as int),
            final(self).memory@ == old(self).memory@,
            final(self).memory_index == old(self).memory_index,
    {
        let ghost s = message@;
        let ghost from = self.token_index as int;
        let mut loop_counter: i128 = 1;
        let mut p: usize = self.token_index;
        while p > 0
            invariant
                s == message@,
                from == self.token_index as int,
                self.token_index == old(self).token_index,
                from <= s.len(),
                0 <= p <= from,
                loop_counter == 1 - nesting(s, p as int, from),
                -(from - p) <= loop_counter - 1 <= from - p,
                forall|j: int| p <= j < from ==> #[trigger] nesting(s, j, from) != 1,
                self.memory@ == old(self).memory@,
                self.memory_index == old(self).memory_index,
            decreases p,
        {
            p -= 1;
            match message[p] {
                BrainfuckToken::EndLoop => loop_counter += 1,
                BrainfuckToken::StartLoop => loop_counter -= 1,
                _ => (),
            }
            proof {
                lemma_nesting_front(s, p as int, from);
            }
            if loop_counter == 0 {
                assert(backward_match(s, from, p as int));
                let ghost t = choose|t: int| backward_match(s, from, t);
                proof {
                    lemma_backward_match_unique(s, from, p as int, t);
                }
                self.token_index = p;
                return;
            }
        }
        assert(!exists|t: int| backward_match(s, from, t)) by {
            if exists|t: int| backward_match(s, from, t) {
                let t = choose|t: int| backward_match(s, from, t);
                assert(nesting(s, t, from) != 1);
            }
        }
    }

    /// A loop start: when the current cell is not positive the loop body is
    /// skipped by jumping to the matching loop end.
    fn begin_while(&mut self, message: &[BrainfuckToken])
        requires
            old(self).token_index <= message@.len(),
        ensures
            final(self).token_index == if cell_at(old(self).memory@, old(self).memory_index as int) <= 0 {
                forward_target(message@, old(self).token_index as int)
            } else {
                old(self).token_index as int
            },
            final(self).memory@ == old(self).memory@,
            final(self).memory_index == old(self).memory_index,
    {
        if self.current_cell() <= 0 {
            self.break_loop(message);
        }
    }

    /// A loop end: when the current cell is positive the loop is entered
    /// again by jumping back to the matching loop start.
    fn end_while(&mut self, message: &[BrainfuckToken])
        requires
            old(self).token_index <= message@.len(),
        ensures
            final(self).token_index == if cell_at(old(self).memory@, old(self).memory_index as int) > 0 {
                backward_target(message@, old(self).token_index as int)
            } else {
                old(self).token_index as int
            },
            final(self).memory@ == old(self).memory@,
            final(self).memory_index == old(self).memory_index,
    {
        if self.current_cell() > 0 {
            self.rewind_loop(message);
        }
    }

    /// Executes the instruction at the instruction pointer, leaving the
    /// pointer on it (or on the target of a jump).
    pub fn parse(&mut self, message: &[BrainfuckToken]) -> (e: Effect)
        requires
            old(self).token_index < message@.len(),
        ensures
            (final(self)@, e) == step(old(self)@, message@),
    {
        match message[self.token_index] {
            BrainfuckToken::IncrementPointer => {
                if self.memory_index < usize::MAX {
                    self.memory_index += 1;
                    Effect::Nothing
                } else {
                    Effect::Fault(Fault::PointerOverflow)
                }
            },
            BrainfuckToken::DecrementPointer => {
                if self.memory_index > 0 {
                    self.memory_index -= 1;
                    Effect::Nothing
                } else {
                    Effect::Fault(Fault::PointerUnderflow)
                }
            },
            BrainfuckToken::IncrementValue => {
                if self.memory_index < usize::MAX {
                    self.increment_memory_at_index();
                    Effect::Nothing
                } else {
                    Effect::Fault(Fault::PointerOverflow)
                }
            },
            BrainfuckToken::DecrementValue => {
                if self.memory_index < usize::MAX {
                    self.decrement_memory_at_index();
                    Effect::Nothing
                } else {
                    Effect::Fault(Fault::PointerOverflow)
                }
            },
            BrainfuckToken::PrintPointer => Effect::Output(self.output_character()),
            BrainfuckToken::GetCharacterInput => {
                if self.memory_index < usize::MAX {
                    Effect::Input
                } else {
                    Effect::Fault(Fault::PointerOverflow)
                }
            },
            BrainfuckToken::StartLoop => {
                self.begin_while(message);
                Effect::Nothing
            },
            BrainfuckToken::EndLoop => {
                self.end_while(message);
                Effect::Nothing
            },
            BrainfuckToken::Comment => Effect::Nothing,
        }
    }

    /// Runs the program from the current state for at most `STEPS_PER_CALL`
    /// instructions, and says why it stopped: the program ended, the steps
    /// ran out, an output or input instruction ran and its outside work is
    /// due, or an instruction faulted.
    pub fn execute(&mut self, message: &[BrainfuckToken]) -> (r: Outcome)
        ensures
            (final(self)@, r) == run(old(self)@, message@, STEPS_PER_CALL as nat),
    {
        let mut fuel: u64 = STEPS_PER_CALL;
        while self.token_index < message.len()
            invariant
                run(old(self)@, message@, STEPS_PER_CALL as nat) == run(self@, message@, fuel as nat),
            decreases fuel,
        {
            if fuel == 0 {
                return Outcome::Paused;
            }
            let ghost before = self@;
            let effect = self.parse(message);
            proof {
                lemma_step_bounds(before, message@);
            }
            match effect {
                Effect::Nothing => {
                    self.token_index += 1;
                },
                Effect::Output(c) => {
                    self.token_index += 1;
                    return Outcome::Output(c);
                },
                Effect::Input => {
                    self.token_index += 1;
                    return Outcome::NeedsInput;
                },
                Effect::Fault(f) => {
                    return Outcome::Fault(f);
                },
            }
            fuel -= 1;
        }
        Outcome::Finished
    }
}

/// A step leaves the instruction pointer within the program.
proof fn lemma_step_bounds(m: Machine, prog: Seq<BrainfuckToken>)
    requires
        0 <= m.ip < prog.len(),
    ensures
        0 <= step(m, prog).0.ip < prog.len(),
{
    let from = m.ip;
    if exists|t: int| forward_match(prog, from, t) {
        let t = choose|t: int| forward_match(prog, from, t);
    }
    if exists|t: int| backward_match(prog, from, t) {
        let t = choose|t: int| backward_match(prog, from, t);
    }
}

/// Comments do nothing: running a program made only of comments, with fuel
/// for every remaining instruction, leaves the tape and the data pointer as
/// they were and the instruction pointer at the end of the program.
pub proof fn lemma_comments_only(m: Machine, prog: Seq<BrainfuckToken>, fuel: nat)
    requires
        forall|i: int| 0 <= i < prog.len() ==> prog[i] == BrainfuckToken::Comment,
        0 <= m.ip <= prog.len(),
        prog.len() - m.ip <= fuel,
    ensures
        run(m, prog, fuel) == (Machine { ip: prog.len() as int, ..m }, Outcome::Finished),
    decreases prog.len() - m.ip,
{
    if m.ip < prog.len() {
        lemma_comments_only(Machine { ip: m.ip + 1, ..m }, prog, (fuel - 1) as nat);
    }
}

} // verus!

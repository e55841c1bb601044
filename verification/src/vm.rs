//! The virtual machine: the executor that applies one decoded instruction
//! per tick, and the step scheduler that drives bounded or unbounded runs.
//!
//! The machine is a pure state transformer over a mathematical model
//! ([`VmModel`]): output characters accumulate in a buffer the caller
//! drains, and buffered standard input is handed in up front, so every
//! instruction's effect is stated exactly. The one source of
//! nondeterminism is the random-direction instruction; every contract
//! quantifies over the directions the generator may have drawn.
//!
//! Documented policies for the cases the language leaves undefined:
//! division and modulo by zero push 0 (guarded, see [`crate::ops`]); a
//! direct grid write outside the grid is ignored (see [`crate::space`]);
//! reading input when none is buffered pushes 0; and arithmetic wraps
//! around the machine word.

use vstd::prelude::*;

use rand::Rng;

use crate::code;
use crate::code::Instruction;
use crate::ops::BinOp;
use crate::space::{cell_at, delta_of, grid_cell, grid_height, grid_width, Direction, Location, Space};
use crate::stack;
use crate::stack::Stack;

verus! {

#[verifier::external_type_specification]
#[verifier::external_body]
pub struct ExThreadRng(rand::rngs::ThreadRng);

/// Relies on rand::thread_rng: a handle to the thread-local pseudo-random
/// generator. Nothing is promised of it.
#[verifier::external_body]
fn fresh_rng() -> rand::rngs::ThreadRng {
    rand::thread_rng()
}

/// Relies on rand::Rng::gen_range: a draw from the half-open range 0..4
/// is one of 0, 1, 2 or 3. No particular value is promised of any draw.
#[verifier::external_body]
fn draw_quarter(rng: &mut rand::rngs::ThreadRng) -> (r: u8)
    ensures
        r < 4,
{
    rng.gen_range(0..4)
}

/// The mathematical model of the machine: grid contents, stack contents,
/// pointer coordinates, direction, the two mode flags, and the buffered
/// input and accumulated output.
#[verifier::ext_equal]
pub struct VmModel {
    pub grid: Seq<Seq<usize>>,
    pub stack: Seq<usize>,
    pub x: int,
    pub y: int,
    pub delta: Direction,
    pub string_mode: bool,
    pub stopped: bool,
    pub input: Seq<char>,
    pub output: Seq<char>,
}

impl VmModel {
    /// The grid's width.
    pub open spec fn width(self) -> int {
        self.grid[0].len() as int
    }

    /// The grid's height.
    pub open spec fn height(self) -> int {
        self.grid.len() as int
    }

    /// A well-formed machine: a nonempty rectangular grid whose dimensions
    /// signed 64-bit coordinates can be reduced into, and a pointer inside
    /// the grid.
    pub open spec fn wf(self) -> bool {
        &&& 1 <= self.height() <= i64::MAX
        &&& 1 <= self.width() <= i64::MAX
        &&& forall|y: int| 0 <= y < self.grid.len() ==> #[trigger] self.grid[y].len() == self.width()
        &&& 0 <= self.x < self.width()
        &&& 0 <= self.y < self.height()
    }
}

/// The decimal text of a value, most significant digit first.
pub open spec fn decimal_digits(v: nat) -> Seq<char>
    decreases v,
{
    if v < 10 {
        seq![digit_char(v)]
    } else {
        decimal_digits(v / 10).push(digit_char(v % 10))
    }
}

/// The character of one decimal digit.
pub open spec fn digit_char(d: nat) -> char {
    if d == 0 {
        '0'
    } else if d == 1 {
        '1'
    } else if d == 2 {
        '2'
    } else if d == 3 {
        '3'
    } else if d == 4 {
        '4'
    } else if d == 5 {
        '5'
    } else if d == 6 {
        '6'
    } else if d == 7 {
        '7'
    } else if d == 8 {
        '8'
    } else {
        '9'
    }
}

/// The digit a read-input instruction pushes: the last buffered
/// character's distance from '0', clamped into [0, 9]; 0 when no input is
/// buffered (the guarded policy for an empty buffer).
pub open spec fn input_digit(input: Seq<char>) -> usize {
    if input.len() == 0 {
        0usize
    } else {
        let v = input.last() as u32 as int - 48;
        if v > 9 {
            9usize
        } else if v < 0 {
            0usize
        } else {
            v as usize
        }
    }
}

/// The machine after the pointer moves one step in its direction, with
/// toroidal normalization.
pub open spec fn moved(m: VmModel) -> VmModel {
    let d = delta_of(m.delta);
    VmModel { x: (m.x + d.0) % m.width(), y: (m.y + d.1) % m.height(), ..m }
}

/// The machine after a put instruction: y, x and the value are popped in
/// that order; a target outside the grid is ignored (the guarded policy:
/// this write does not normalize).
pub open spec fn put_step(m: VmModel) -> VmModel {
    let y = stack::top_or_zero(m.stack);
    let x = stack::top_or_zero(stack::popped(m.stack));
    let v = stack::top_or_zero(stack::popped(stack::popped(m.stack)));
    let rest = stack::popped(stack::popped(stack::popped(m.stack)));
    let xi = x as i64 as int;
    let yi = y as i64 as int;
    if 0 <= xi < m.width() && 0 <= yi < m.height() {
        VmModel { stack: rest, grid: m.grid.update(yi, m.grid[yi].update(xi, v)), ..m }
    } else {
        VmModel { stack: rest, ..m }
    }
}

/// The machine after a get instruction: y then x are popped and the cell
/// at toroidally normalized (x, y) is pushed.
pub open spec fn get_step(m: VmModel) -> VmModel {
    let y = stack::top_or_zero(m.stack);
    let x = stack::top_or_zero(stack::popped(m.stack));
    let rest = stack::popped(stack::popped(m.stack));
    VmModel { stack: rest.push(cell_at(m.grid, x as i64 as int, y as i64 as int)), ..m }
}

/// The machine after executing one instruction. `rnd` is the direction
/// the generator drew; only the random-movement instruction reads it.
pub open spec fn consume_step(m: VmModel, inst: Instruction, rnd: Direction) -> VmModel {
    match inst {
        Instruction::NoOp => m,
        Instruction::Stop => VmModel { stopped: true, ..m },
        Instruction::Skip => moved(m),
        Instruction::StringMode => VmModel { string_mode: !m.string_mode, ..m },
        Instruction::Move(d) => VmModel { delta: d, ..m },
        Instruction::MoveEastOrWest => VmModel {
            stack: stack::popped(m.stack),
            delta: if stack::top_or_zero(m.stack) == 0 {
                Direction::East
            } else {
                Direction::West
            },
            ..m
        },
        Instruction::MoveNorthOrSouth => VmModel {
            stack: stack::popped(m.stack),
            delta: if stack::top_or_zero(m.stack) == 0 {
                Direction::North
            } else {
                Direction::South
            },
            ..m
        },
        Instruction::MoveRandom => VmModel { delta: rnd, ..m },
        Instruction::Duplicate => VmModel { stack: stack::duped(m.stack), ..m },
        Instruction::Swap => VmModel { stack: stack::swapped(m.stack), ..m },
        Instruction::Pop => VmModel { stack: stack::popped(m.stack), ..m },
        Instruction::Add => VmModel { stack: stack::stack_after_bin(m.stack, BinOp::Add), ..m },
        Instruction::Sub => VmModel { stack: stack::stack_after_bin(m.stack, BinOp::Sub), ..m },
        Instruction::Mul => VmModel { stack: stack::stack_after_bin(m.stack, BinOp::Mul), ..m },
        Instruction::Div => VmModel { stack: stack::stack_after_bin(m.stack, BinOp::Div), ..m },
        Instruction::Mod => VmModel { stack: stack::stack_after_bin(m.stack, BinOp::Mod), ..m },
        Instruction::GreaterThan => VmModel {
            stack: stack::stack_after_bin(m.stack, BinOp::Gt),
            ..m
        },
        Instruction::Not => VmModel { stack: stack::stack_after_not(m.stack), ..m },
        Instruction::PrintInt => VmModel {
            stack: stack::popped(m.stack),
            output: m.output + decimal_digits(stack::top_or_zero(m.stack) as nat),
            ..m
        },
        Instruction::PrintChr => VmModel {
            stack: stack::popped(m.stack),
            output: m.output.push(stack::top_or_zero(m.stack) as u8 as char),
            ..m
        },
        Instruction::ReadInt => VmModel {
            stack: m.stack.push(input_digit(m.input)),
            input: Seq::empty(),
            ..m
        },
        Instruction::ReadChr => m,
        Instruction::Put => put_step(m),
        Instruction::Get => get_step(m),
        Instruction::ReadAndPush(v) => VmModel { stack: m.stack.push(v), ..m },
    }
}

/// The instruction the cell under the pointer decodes to.
pub open spec fn decode_here(m: VmModel) -> Instruction {
    code::decode(cell_at(m.grid, m.x, m.y), m.string_mode)
}

/// One full tick: decode the cell under the pointer, execute it, and, if
/// the machine did not halt, advance the pointer toroidally. A stopped
/// machine is inert: its step is the identity.
pub open spec fn step(m: VmModel, rnd: Direction) -> VmModel {
    if m.stopped {
        m
    } else {
        let m2 = consume_step(m, decode_here(m), rnd);
        if m2.stopped {
            m2
        } else {
            moved(m2)
        }
    }
}

/// The machine after a sequence of ticks, one drawn direction per tick.
pub open spec fn run_steps(m: VmModel, rnds: Seq<Direction>) -> VmModel
    decreases rnds.len(),
{
    if rnds.len() == 0 {
        m
    } else {
        run_steps(step(m, rnds[0]), rnds.skip(1))
    }
}

/// Appending one more tick to a run steps the run's final state once.
pub proof fn lemma_run_steps_push(m: VmModel, rnds: Seq<Direction>, r: Direction)
    ensures
        run_steps(m, rnds.push(r)) == step(run_steps(m, rnds), r),
    decreases rnds.len(),
{
    reveal_with_fuel(run_steps, 2);
    if rnds.len() == 0 {
        assert(rnds.push(r)[0] == r);
        assert(rnds.push(r).skip(1) =~= Seq::<Direction>::empty());
    } else {
        assert(rnds.push(r)[0] == rnds[0]);
        assert(rnds.push(r).skip(1) =~= rnds.skip(1).push(r));
        lemma_run_steps_push(step(m, rnds[0]), rnds.skip(1), r);
    }
}

/// Stopped is terminal: once a machine has stopped it is permanently
/// inert, and no sequence of further ticks changes it in any way.
pub proof fn lemma_stopped_inert(m: VmModel, rnds: Seq<Direction>)
    requires
        m.stopped,
    ensures
        run_steps(m, rnds) == m,
    decreases rnds.len(),
{
    if rnds.len() > 0 {
        lemma_stopped_inert(m, rnds.skip(1));
    }
}

/// The tick cap a run works under: a limit of 0 asks for an unbounded
/// run, which counts (and can run) up to the machine-word limit — an
/// explicit, documented policy so that counting ticks is total.
pub open spec fn effective_limit(tick_limit: usize) -> int {
    if tick_limit == 0 {
        usize::MAX as int
    } else {
        tick_limit as int
    }
}

/// How many ticks of a run are counted: the tick that transitions to
/// stopped is executed but not counted.
pub open spec fn counted_ticks(pre: VmModel, rnds: Seq<Direction>) -> int {
    if run_steps(pre, rnds).stopped {
        rnds.len() - 1
    } else {
        rnds.len() as int
    }
}

/// What a bounded or unbounded run guarantees: the machine took exactly
/// the ticks `rnds` draws for, no tick before the last had stopped it,
/// the run went on until it stopped or exhausted the cap, and the result
/// reports the counted ticks — or the empty-run condition when none was
/// counted (the machine halted on the very first tick, or was already
/// stopped).
pub open spec fn run_for_post(
    pre: VmModel,
    post: VmModel,
    rnds: Seq<Direction>,
    tick_limit: usize,
    r: Result<usize, ()>,
) -> bool {
    let counted = counted_ticks(pre, rnds);
    &&& rnds.len() >= 1
    &&& post == run_steps(pre, rnds)
    &&& forall|j: int| 1 <= j < rnds.len() ==> !(run_steps(pre, #[trigger] rnds.take(j))).stopped
    &&& post.stopped || counted == effective_limit(tick_limit)
    &&& counted <= effective_limit(tick_limit)
    &&& match r {
        Ok(n) => n as int == counted && counted >= 1,
        Err(_) => counted == 0,
    }
}

/// An observer that ignores every snapshot; a run without one.
struct SilentObserver;

impl Observer for SilentObserver {
    fn on_tick(&mut self, _state: &VmState) {
    }
}

/// The virtual machine. Created from source text, mutated one tick at a
/// time; once stopped it is permanently inert.
pub struct Vm {
    pub space: Space,
    pub stack: Stack,
    pub location: Location,
    delta: Direction,
    string_mode: bool,
    stopped: bool,
    input: Vec<char>,
    output: Vec<char>,
    rng: rand::rngs::ThreadRng,
}

impl View for Vm {
    type V = VmModel;

    closed spec fn view(&self) -> VmModel {
        VmModel {
            grid: self.space@,
            stack: self.stack@,
            x: self.location.0 as int,
            y: self.location.1 as int,
            delta: self.delta,
            string_mode: self.string_mode,
            stopped: self.stopped,
            input: self.input@,
            output: self.output@,
        }
    }
}

/// An immutable snapshot of the machine, handed to observers after each
/// counted tick.
pub struct VmState {
    pub space: Space,
    pub stack: Stack,
    pub location: Location,
    pub delta: Direction,
}

/// An observer of a run: receives a snapshot after every counted tick.
pub trait Observer {
    /// Called after each counted (non-halting) tick of a bounded or
    /// unbounded run.
    fn on_tick(&mut self, state: &VmState);
}

/// The character of one decimal digit.
fn digit_char_exec(d: usize) -> (c: char)
    requires
        d < 10,
    ensures
        c == digit_char(d as nat),
{
    match d {
        0 => '0',
        1 => '1',
        2 => '2',
        3 => '3',
        4 => '4',
        5 => '5',
        6 => '6',
        7 => '7',
        8 => '8',
        _ => '9',
    }
}

/// The decimal text of a value, most significant digit first.
fn to_decimal(v: usize) -> (r: Vec<char>)
    ensures
        r@ == decimal_digits(v as nat),
    decreases v,
{
    if v < 10 {
        let mut r: Vec<char> = Vec::new();
        r.push(digit_char_exec(v));
        proof {
            assert(r@ =~= decimal_digits(v as nat));
        }
        r
    } else {
        let mut r = to_decimal(v / 10);
        r.push(digit_char_exec(v % 10));
        r
    }
}

/// An element-wise copy of a buffer of characters.
fn copy_chars(v: &Vec<char>) -> (r: Vec<char>)
    ensures
        r@ == v@,
{
    let mut r: Vec<char> = Vec::new();
    let mut i: usize = 0;
    while i < v.len()
        invariant
            i <= v.len(),
            r@ == v@.take(i as int),
        decreases v.len() - i,
    {
        r.push(v[i]);
        i += 1;
        proof {
            assert(r@ =~= v@.take(i as int));
        }
    }
    proof {
        assert(r@ =~= v@);
    }
    r
}

/// Append every character of `src` to `dst`.
fn append_chars(dst: &mut Vec<char>, src: &Vec<char>)
    ensures
        final(dst)@ == old(dst)@ + src@,
{
    let mut i: usize = 0;
    while i < src.len()
        invariant
            i <= src.len(),
            dst@ == old(dst)@ + src@.take(i as int),
        decreases src.len() - i,
    {
        dst.push(src[i]);
        i += 1;
        proof {
            assert(dst@ =~= old(dst)@ + src@.take(i as int));
        }
    }
    proof {
        assert(final(dst)@ =~= old(dst)@ + src@);
    }
}

/// The digit the read-input instruction pushes for this buffered input.
fn input_digit_exec(input: &Vec<char>) -> (r: usize)
    ensures
        r == input_digit(input@),
{
    if input.len() == 0 {
        0
    } else {
        let c = input[input.len() - 1];
        proof {
            assert(c == input@.last());
        }
        let ci = c as u32;
        if ci < 48 {
            0
        } else if ci > 57 {
            9
        } else {
            (ci - 48) as usize
        }
    }
}

impl Vm {
    /// A fresh machine for the given source text: grid built from the
    /// text, empty stack, pointer at the origin heading East, both flags
    /// off, no buffered input, no output yet.
    pub fn new(code: String) -> (vm: Vm)
        requires
            code@.len() < i64::MAX,
        ensures
            vm@.wf(),
            vm@.height() == grid_height(code@),
            vm@.width() == grid_width(code@),
            forall|x: int, y: int|
                0 <= x < vm@.width() && 0 <= y < vm@.height() ==> vm@.grid[y][x] == grid_cell(
                    code@,
                    x,
                    y,
                ),
            vm@.stack == Seq::<usize>::empty(),
            vm@.x == 0 && vm@.y == 0,
            vm@.delta == Direction::East,
            !vm@.string_mode,
            !vm@.stopped,
            vm@.input == Seq::<char>::empty(),
            vm@.output == Seq::<char>::empty(),
    {
        Vm {
            space: Space::new(code.as_str()),
            stack: Stack::new(),
            location: Location(0, 0),
            delta: Direction::East,
            string_mode: false,
            stopped: false,
            input: Vec::new(),
            output: Vec::new(),
            rng: fresh_rng(),
        }
    }

    /// Hand the machine the buffered standard input that read instructions
    /// will consume.
    pub fn set_input(&mut self, input: Vec<char>)
        ensures
            final(self)@ == (VmModel { input: input@, ..old(self)@ }),
    {
        self.input = input;
    }

    /// The output accumulated so far, in the order it was written.
    pub fn get_output(&self) -> (r: Vec<char>)
        ensures
            r@ == self@.output,
    {
        copy_chars(&self.output)
    }

    /// A copy of the stack.
    pub fn get_stack(&self) -> (r: Stack)
        ensures
            r@ == self@.stack,
    {
        self.stack.clone()
    }

    /// A copy of the program space.
    pub fn get_space(&self) -> (r: Space)
        ensures
            r@ == self@.grid,
    {
        self.space.clone()
    }

    /// The pointer's current location.
    pub fn get_location(&self) -> (r: Location)
        ensures
            r.0 as int == self@.x,
            r.1 as int == self@.y,
    {
        Location(self.location.0, self.location.1)
    }

    /// An immutable snapshot of the machine for an observer.
    pub fn get_state(&self) -> (r: VmState)
        ensures
            r.space@ == self@.grid,
            r.stack@ == self@.stack,
            r.location.0 as int == self@.x,
            r.location.1 as int == self@.y,
            r.delta == self@.delta,
    {
        VmState {
            space: self.get_space(),
            stack: self.get_stack(),
            location: self.get_location(),
            delta: self.delta,
        }
    }

    /// Execute exactly one decoded instruction, mutating stack, space,
    /// pointer, flags and buffers as [`consume_step`] states. Only the
    /// random-movement instruction depends on the drawn direction.
    #[verifier::rlimit(60)]
    pub fn consume(&mut self, instruction: Instruction)
        requires
            old(self)@.wf(),
        ensures
            final(self)@.wf(),
            exists|rnd: Direction| final(self)@ == consume_step(old(self)@, instruction, rnd),
            !(instruction is MoveRandom) ==> final(self)@ == consume_step(
                old(self)@,
                instruction,
                Direction::North,
            ),
    {
        match instruction {
            Instruction::NoOp => {
                proof {
                    assert(self@ =~~= consume_step(old(self)@, instruction, Direction::North));
                }
            },
            Instruction::Stop => {
                self.stopped = true;
                proof {
                    assert(self@ =~~= consume_step(old(self)@, instruction, Direction::North));
                }
            },
            Instruction::Skip => {
                let (w, h) = self.space.dims();
                self.location.go(&self.delta);
                self.location.constrain(w, h);
                proof {
                    assert(self@ =~~= consume_step(old(self)@, instruction, Direction::North));
                }
            },
            Instruction::StringMode => {
                self.string_mode = !self.string_mode;
                proof {
                    assert(self@ =~~= consume_step(old(self)@, instruction, Direction::North));
                }
            },
            Instruction::Move(dir) => {
                self.delta = dir;
                proof {
                    assert(self@ =~~= consume_step(old(self)@, instruction, Direction::North));
                }
            },
            Instruction::MoveEastOrWest => {
                self.delta = match self.stack.pop() {
                    0 => Direction::East,
                    _ => Direction::West,
                };
                proof {
                    assert(self@ =~~= consume_step(old(self)@, instruction, Direction::North));
                }
            },
            Instruction::MoveNorthOrSouth => {
                self.delta = match self.stack.pop() {
                    0 => Direction::North,
                    _ => Direction::South,
                };
                proof {
                    assert(self@ =~~= consume_step(old(self)@, instruction, Direction::North));
                }
            },
            Instruction::MoveRandom => {
                let i = draw_quarter(&mut self.rng);
                self.delta = if i == 0 {
                    Direction::North
                } else if i == 1 {
                    Direction::East
                } else if i == 2 {
                    Direction::South
                } else {
                    Direction::West
                };
                proof {
                    assert(self@ =~~= consume_step(old(self)@, instruction, self.delta));
                }
            },
            Instruction::Duplicate => {
                self.stack.dupe();
                proof {
                    assert(self@ =~~= consume_step(old(self)@, instruction, Direction::North));
                }
            },
            Instruction::Swap => {
                self.stack.swap();
                proof {
                    assert(self@ =~~= consume_step(old(self)@, instruction, Direction::North));
                }
            },
            Instruction::Pop => {
                let _ = self.stack.pop();
                proof {
                    assert(self@ =~~= consume_step(old(self)@, instruction, Direction::North));
                }
            },
            Instruction::Add => {
                self.stack.apply(BinOp::Add);
                proof {
                    assert(self@ =~~= consume_step(old(self)@, instruction, Direction::North));
                }
            },
            Instruction::Sub => {
                self.stack.apply(BinOp::Sub);
                proof {
                    assert(self@ =~~= consume_step(old(self)@, instruction, Direction::North));
                }
            },
            Instruction::Mul => {
                self.stack.apply(BinOp::Mul);
                proof {
                    assert(self@ =~~= consume_step(old(self)@, instruction, Direction::North));
                }
            },
            Instruction::Div => {
                self.stack.apply(BinOp::Div);
                proof {
                    assert(self@ =~~= consume_step(old(self)@, instruction, Direction::North));
                }
            },
            Instruction::Mod => {
                self.stack.apply(BinOp::Mod);
                proof {
                    assert(self@ =~~= consume_step(old(self)@, instruction, Direction::North));
                }
            },
            Instruction::GreaterThan => {
                self.stack.apply(BinOp::Gt);
                proof {
                    assert(self@ =~~= consume_step(old(self)@, instruction, Direction::North));
                }
            },
            Instruction::Not => {
                self.stack.apply_not();
                proof {
                    assert(self@ =~~= consume_step(old(self)@, instruction, Direction::North));
                }
            },
            Instruction::PrintInt => {
                let v = self.stack.pop();
                let digits = to_decimal(v);
                append_chars(&mut self.output, &digits);
                proof {
                    assert(self@ =~~= consume_step(old(self)@, instruction, Direction::North));
                }
            },
            Instruction::PrintChr => {
                let v = self.stack.pop();
                let b = #[verifier::truncate] (v as u8);
                self.output.push(b as char);
                proof {
                    assert(self@ =~~= consume_step(old(self)@, instruction, Direction::North));
                }
            },
            Instruction::ReadInt => {
                let digit = input_digit_exec(&self.input);
                self.input = Vec::new();
                self.stack.push(digit);
                proof {
                    assert(self@ =~~= consume_step(old(self)@, instruction, Direction::North));
                }
            },
            Instruction::ReadChr => {
                proof {
                    assert(self@ =~~= consume_step(old(self)@, instruction, Direction::North));
                }
            },
            Instruction::Put => {
                let y = self.stack.pop();
                let x = self.stack.pop();
                let v = self.stack.pop();
                let xi = #[verifier::truncate] (x as i64);
                let yi = #[verifier::truncate] (y as i64);
                self.space.set(v, Location(xi, yi));
                proof {
                    assert(self@ =~~= consume_step(old(self)@, instruction, Direction::North));
                }
            },
            Instruction::Get => {
                let y = self.stack.pop();
                let x = self.stack.pop();
                let xi = #[verifier::truncate] (x as i64);
                let yi = #[verifier::truncate] (y as i64);
                let v = self.space.get(&Location(xi, yi));
                self.stack.push(v);
                proof {
                    assert(self@ =~~= consume_step(old(self)@, instruction, Direction::North));
                }
            },
            Instruction::ReadAndPush(v) => {
                self.stack.push(v);
                proof {
                    assert(self@ =~~= consume_step(old(self)@, instruction, Direction::North));
                }
            },
        }
    }

    /// Advance the pointer one step in its direction, wrapping toroidally.
    pub fn next_location(&mut self)
        requires
            old(self)@.wf(),
        ensures
            final(self)@ == moved(old(self)@),
            final(self)@.wf(),
    {
        let (w, h) = self.space.dims();
        self.location.go(&self.delta);
        self.location.constrain(w, h);
        proof {
            assert(final(self)@ =~~= moved(old(self)@));
        }
    }

    /// Execute exactly one tick: decode the cell under the pointer, apply
    /// it, and advance the pointer unless the machine halted. Returns
    /// whether the machine is now stopped. A stopped machine stays inert:
    /// nothing executes and true comes straight back.
    pub fn tick(&mut self) -> (r: bool)
        requires
            old(self)@.wf(),
        ensures
            final(self)@.wf(),
            exists|rnd: Direction| final(self)@ == #[trigger] step(old(self)@, rnd),
            old(self)@.stopped || decode_here(old(self)@) != Instruction::MoveRandom
                ==> final(self)@ == step(old(self)@, Direction::North),
            r == final(self)@.stopped,
    {
        if self.stopped {
            proof {
                assert(final(self)@ == step(old(self)@, Direction::North));
            }
            return true;
        }
        let raw = self.space.get(&self.location);
        let instruction = Instruction::from_raw(raw, &self.string_mode);
        proof {
            assert(instruction == decode_here(old(self)@));
        }
        self.consume(instruction);
        let ghost mid = self@;
        if !self.stopped {
            self.next_location();
        }
        proof {
            let pre = old(self)@;
            let rnd = choose|rnd: Direction| mid == consume_step(pre, instruction, rnd);
            assert(mid == consume_step(pre, instruction, rnd));
            assert(self@ == step(pre, rnd));
            if instruction != Instruction::MoveRandom {
                assert(mid == consume_step(pre, instruction, Direction::North));
                assert(self@ == step(pre, Direction::North));
            }
        }
        self.stopped
    }

    /// Run ticks under the cap (0 = unbounded, up to the machine-word
    /// limit), handing the observer a snapshot after every counted tick.
    /// The tick that stops the machine is executed but neither counted
    /// nor observed. Returns the counted ticks, or the empty-run
    /// condition when none was counted.
    pub fn run_for_with<O: Observer>(&mut self, tick_limit: usize, observer: &mut O) -> (r: Result<
        usize,
        (),
    >)
        requires
            old(self)@.wf(),
        ensures
            final(self)@.wf(),
            exists|rnds: Seq<Direction>|
                #[trigger] run_for_post(old(self)@, final(self)@, rnds, tick_limit, r),
    {
        let ghost pre = self@;
        let limit: usize = if tick_limit == 0 {
            usize::MAX
        } else {
            tick_limit
        };
        let mut ticks: usize = 0;
        let ghost mut rnds: Seq<Direction> = Seq::empty();
        loop
            invariant_except_break
                self@.wf(),
                limit as int == effective_limit(tick_limit),
                self@ == run_steps(pre, rnds),
                ticks as int == rnds.len(),
                forall|j: int|
                    1 <= j <= rnds.len() ==> !(run_steps(pre, #[trigger] rnds.take(j))).stopped,
                ticks < limit,
            ensures
                self@.wf(),
                rnds.len() >= 1,
                self@ == run_steps(pre, rnds),
                ticks as int == counted_ticks(pre, rnds),
                forall|j: int|
                    1 <= j < rnds.len() ==> !(run_steps(pre, #[trigger] rnds.take(j))).stopped,
                self@.stopped || ticks as int == effective_limit(tick_limit),
                ticks as int <= effective_limit(tick_limit),
            decreases limit - ticks,
        {
            let ghost prev = self@;
            let ghost old_rnds = rnds;
            let stopped_now = self.tick();
            proof {
                let rnd = choose|rnd: Direction| self@ == step(prev, rnd);
                assert(self@ == step(prev, rnd));
                lemma_run_steps_push(pre, rnds, rnd);
                rnds = rnds.push(rnd);
                assert forall|j: int| 1 <= j <= old_rnds.len() implies rnds.take(j)
                    == old_rnds.take(j) by {
                    assert(rnds.take(j) =~= old_rnds.take(j));
                }
                assert(rnds.take(rnds.len() as int) =~= rnds);
            }
            if stopped_now {
                break ;
            }
            ticks = ticks + 1;
            let state = self.get_state();
            observer.on_tick(&state);
            if ticks >= limit {
                break ;
            }
        }
        if ticks == 0 {
            proof {
                assert(run_for_post(pre, self@, rnds, tick_limit, Result::<usize, ()>::Err(())));
            }
            Err(())
        } else {
            proof {
                assert(run_for_post(pre, self@, rnds, tick_limit, Result::<usize, ()>::Ok(ticks)));
            }
            Ok(ticks)
        }
    }

    /// Run ticks under the cap (0 = unbounded, up to the machine-word
    /// limit) without observing them; otherwise exactly `run_for_with`.
    pub fn run_for(&mut self, tick_limit: usize) -> (r: Result<usize, ()>)
        requires
            old(self)@.wf(),
        ensures
            final(self)@.wf(),
            exists|rnds: Seq<Direction>|
                #[trigger] run_for_post(old(self)@, final(self)@, rnds, tick_limit, r),
    {
        let mut observer = SilentObserver;
        self.run_for_with(tick_limit, &mut observer)
    }
}

} // verus!

use funge::code::Instruction;
use funge::space::{Direction, Location};
use funge::stack::Stack;
use funge::vm::{Observer, Vm, VmState};

fn run_program(src: &str, limit: usize) -> (Vm, Result<usize, ()>) {
    let mut vm = Vm::new(src.to_string());
    let r = vm.run_for(limit);
    (vm, r)
}

fn output_string(vm: &Vm) -> String {
    vm.get_output().into_iter().collect()
}

#[test]
fn grid_from_source() {
    let vm = Vm::new("AB\nC".to_string());
    let space = vm.get_space();
    assert_eq!(space.dims(), (2, 2));
    assert_eq!(space.get(&Location(0, 0)), 'A' as usize);
    assert_eq!(space.get(&Location(1, 0)), 'B' as usize);
    assert_eq!(space.get(&Location(0, 1)), 'C' as usize);
    assert_eq!(space.get(&Location(1, 1)), 32);
}

#[test]
fn toroidal_addressing() {
    let vm = Vm::new("abc".to_string());
    let space = vm.get_space();
    assert_eq!(space.dims(), (3, 1));
    assert_eq!(space.get(&Location(-1, 0)), space.get(&Location(2, 0)));
    assert_eq!(space.get(&Location(-1, 0)), 'c' as usize);
    assert_eq!(space.get(&Location(3, 5)), 'a' as usize);
}

#[test]
fn empty_source_is_one_blank_cell() {
    let vm = Vm::new(String::new());
    let space = vm.get_space();
    assert_eq!(space.dims(), (1, 1));
    assert_eq!(space.get(&Location(0, 0)), 32);
}

#[test]
fn stack_push_pop_and_underflow() {
    let mut stack = Stack::new();
    stack.push(5);
    stack.push(3);
    assert_eq!(stack.pop(), 3);
    assert_eq!(stack.pop(), 5);
    assert_eq!(stack.pop(), 0);
}

#[test]
fn stack_duplicate() {
    let mut stack = Stack::new();
    stack.push(7);
    stack.dupe();
    assert_eq!(stack.values(), vec![7, 7]);
}

#[test]
fn stack_duplicate_empty() {
    let mut stack = Stack::new();
    stack.dupe();
    assert_eq!(stack.values(), vec![0, 0]);
}

#[test]
fn stack_swap_exchanges_top_two() {
    let mut stack = Stack::new();
    stack.push(1);
    stack.push(2);
    stack.swap();
    assert_eq!(stack.pop(), 1);
    assert_eq!(stack.pop(), 2);
}

#[test]
fn stack_swap_single_value() {
    let mut stack = Stack::new();
    stack.push(5);
    stack.swap();
    assert_eq!(stack.values(), vec![5, 0]);
}

#[test]
fn operand_order_subtraction() {
    // The value popped second is the left-hand operand: 9 - 4, not 4 - 9.
    let mut vm = Vm::new("94-.@".to_string());
    let r = vm.run_for(0);
    assert_eq!(r, Ok(4));
    assert_eq!(output_string(&vm), "5");
}

#[test]
fn operand_order_division_and_modulo() {
    let (vm, _) = run_program("94/.@", 0);
    assert_eq!(output_string(&vm), "2");
    let (vm, _) = run_program("94%.@", 0);
    assert_eq!(output_string(&vm), "1");
}

#[test]
fn division_by_zero_is_guarded_to_zero() {
    let (vm, _) = run_program("40/.@", 0);
    assert_eq!(output_string(&vm), "0");
    let (vm, _) = run_program("40%.@", 0);
    assert_eq!(output_string(&vm), "0");
}

#[test]
fn greater_than_and_not() {
    let (vm, _) = run_program("94`.@", 0);
    assert_eq!(output_string(&vm), "1");
    let (vm, _) = run_program("49`.@", 0);
    assert_eq!(output_string(&vm), "0");
    let (vm, _) = run_program("0!.@", 0);
    assert_eq!(output_string(&vm), "1");
    let (vm, _) = run_program("5!.@", 0);
    assert_eq!(output_string(&vm), "0");
}

#[test]
fn wrapping_addition() {
    let mut stack = Stack::new();
    stack.push(usize::MAX);
    stack.push(1);
    stack.apply(funge::ops::BinOp::Add);
    assert_eq!(stack.values(), vec![0]);
}

#[test]
fn wrapping_subtraction() {
    let mut stack = Stack::new();
    stack.push(3);
    stack.push(5);
    stack.apply(funge::ops::BinOp::Sub);
    assert_eq!(stack.values(), vec![usize::MAX - 1]);
}

#[test]
fn program_pushes_adds_prints_halts() {
    let mut vm = Vm::new("94+.@".to_string());
    let r = vm.run_for(0);
    assert_eq!(r, Ok(4));
    assert_eq!(output_string(&vm), "13");
}

#[test]
fn halt_on_first_tick_is_empty_run() {
    let mut vm = Vm::new("@".to_string());
    let r = vm.run_for(0);
    assert_eq!(r, Err(()));
}

#[test]
fn stopped_machine_is_inert() {
    let mut vm = Vm::new("@".to_string());
    assert!(vm.tick());
    assert!(vm.tick());
    let l = vm.get_location();
    assert_eq!((l.0, l.1), (0, 0));
    assert_eq!(vm.run_for(0), Err(()));
}

#[test]
fn decode_is_deterministic() {
    let first = Instruction::from_raw('?' as usize, &false);
    let second = Instruction::from_raw('?' as usize, &false);
    assert_eq!(first, second);
    assert_eq!(first, Instruction::MoveRandom);
}

#[test]
fn decode_digits_fallback_and_string_mode() {
    assert_eq!(Instruction::from_raw('7' as usize, &false), Instruction::ReadAndPush(7));
    assert_eq!(Instruction::from_raw(200, &false), Instruction::ReadAndPush(200));
    assert_eq!(Instruction::from_raw('A' as usize, &true), Instruction::ReadAndPush(65));
    assert_eq!(Instruction::from_raw('"' as usize, &true), Instruction::StringMode);
    assert_eq!(Instruction::from_raw('"' as usize, &false), Instruction::StringMode);
}

#[test]
fn bridge_skips_next_cell() {
    let mut vm = Vm::new("#@1.@".to_string());
    let r = vm.run_for(0);
    assert_eq!(r, Ok(3));
    assert_eq!(output_string(&vm), "1");
}

#[test]
fn string_mode_pushes_literally() {
    let mut vm = Vm::new("\"AB\",,@".to_string());
    let r = vm.run_for(0);
    assert_eq!(r, Ok(6));
    assert_eq!(output_string(&vm), "BA");
}

#[test]
fn print_character_uses_low_eight_bits() {
    let mut vm = Vm::new(" ".to_string());
    vm.stack.push(321);
    vm.consume(Instruction::PrintChr);
    assert_eq!(output_string(&vm), "A");
}

#[test]
fn print_integer_zero_and_many_digits() {
    let mut vm = Vm::new(" ".to_string());
    vm.stack.push(0);
    vm.consume(Instruction::PrintInt);
    vm.stack.push(12345);
    vm.consume(Instruction::PrintInt);
    assert_eq!(output_string(&vm), "012345");
}

#[test]
fn conditional_moves() {
    let mut vm = Vm::new(" ".to_string());
    vm.stack.push(0);
    vm.consume(Instruction::MoveEastOrWest);
    assert_eq!(vm.get_state().delta, Direction::East);
    vm.stack.push(7);
    vm.consume(Instruction::MoveEastOrWest);
    assert_eq!(vm.get_state().delta, Direction::West);
    vm.stack.push(0);
    vm.consume(Instruction::MoveNorthOrSouth);
    assert_eq!(vm.get_state().delta, Direction::North);
    vm.stack.push(1);
    vm.consume(Instruction::MoveNorthOrSouth);
    assert_eq!(vm.get_state().delta, Direction::South);
}

#[test]
fn random_move_picks_one_of_four() {
    let mut vm = Vm::new(" ".to_string());
    vm.consume(Instruction::MoveRandom);
    let d = vm.get_state().delta;
    assert!(matches!(
        d,
        Direction::North | Direction::South | Direction::East | Direction::West
    ));
}

#[test]
fn put_writes_in_bounds() {
    let mut vm = Vm::new("ab\ncd".to_string());
    vm.stack.push(120);
    vm.stack.push(1);
    vm.stack.push(0);
    vm.consume(Instruction::Put);
    assert_eq!(vm.get_space().get(&Location(1, 0)), 120);
}

#[test]
fn put_out_of_bounds_is_ignored() {
    let mut vm = Vm::new("ab\ncd".to_string());
    vm.stack.push(120);
    vm.stack.push(9);
    vm.stack.push(9);
    vm.consume(Instruction::Put);
    let space = vm.get_space();
    assert_eq!(space.get(&Location(0, 0)), 'a' as usize);
    assert_eq!(space.get(&Location(1, 0)), 'b' as usize);
    assert_eq!(space.get(&Location(0, 1)), 'c' as usize);
    assert_eq!(space.get(&Location(1, 1)), 'd' as usize);
    assert_eq!(vm.get_stack().values(), Vec::<usize>::new());
}

#[test]
fn get_instruction_reads_normalized() {
    let mut vm = Vm::new("11g.@".to_string());
    let r = vm.run_for(0);
    assert_eq!(r, Ok(4));
    assert_eq!(output_string(&vm), "49");
}

#[test]
fn read_input_takes_last_character_clamped() {
    let mut vm = Vm::new("&.@".to_string());
    vm.set_input(vec!['5', '7']);
    vm.run_for(0).unwrap();
    assert_eq!(output_string(&vm), "7");

    let mut vm = Vm::new("&.@".to_string());
    vm.set_input(vec!['z']);
    vm.run_for(0).unwrap();
    assert_eq!(output_string(&vm), "9");

    let mut vm = Vm::new("&.@".to_string());
    vm.set_input(vec![' ']);
    vm.run_for(0).unwrap();
    assert_eq!(output_string(&vm), "0");

    let mut vm = Vm::new("&.@".to_string());
    vm.run_for(0).unwrap();
    assert_eq!(output_string(&vm), "0");
}

#[test]
fn read_character_is_a_no_op() {
    let mut vm = Vm::new("~1.@".to_string());
    let r = vm.run_for(0);
    assert_eq!(r, Ok(3));
    assert_eq!(output_string(&vm), "1");
}

#[test]
fn bounded_run_counts_limit_ticks() {
    let mut vm = Vm::new(">v\n^<".to_string());
    let r = vm.run_for(4);
    assert_eq!(r, Ok(4));
    let l = vm.get_location();
    assert_eq!((l.0, l.1), (0, 0));
}

#[test]
fn bounded_run_stops_counting_at_limit() {
    let mut vm = Vm::new(" ".to_string());
    let r = vm.run_for(7);
    assert_eq!(r, Ok(7));
}

struct CountingObserver {
    ticks: usize,
    last_stack: Vec<usize>,
}

impl Observer for CountingObserver {
    fn on_tick(&mut self, state: &VmState) {
        self.ticks += 1;
        self.last_stack = state.stack.values();
    }
}

#[test]
fn observer_sees_each_counted_tick() {
    let mut vm = Vm::new("94+.@".to_string());
    let mut observer = CountingObserver { ticks: 0, last_stack: Vec::new() };
    let r = vm.run_for_with(0, &mut observer);
    assert_eq!(r, Ok(4));
    assert_eq!(observer.ticks, 4);
    // After the final counted tick the printed value has been popped.
    assert_eq!(observer.last_stack, Vec::<usize>::new());
}

#[test]
fn snapshot_reflects_machine() {
    let mut vm = Vm::new("12@".to_string());
    vm.run_for(0).ok();
    let state = vm.get_state();
    assert_eq!(state.stack.values(), vec![1, 2]);
    assert_eq!(state.space.dims(), (3, 1));
    assert_eq!((state.location.0, state.location.1), (2, 0));
    assert_eq!(state.delta, Direction::East);
}

#[test]
fn shorter_lines_are_padded() {
    let vm = Vm::new("abcd\nx".to_string());
    let space = vm.get_space();
    assert_eq!(space.dims(), (4, 2));
    assert_eq!(space.get(&Location(1, 1)), 32);
    assert_eq!(space.get(&Location(3, 1)), 32);
}

use rusty_chip8::debug::Backtrace;
use rusty_chip8::errors::Chip8Error;
use rusty_chip8::input::Keypad;
use rusty_chip8::isa::Instruction;
use rusty_chip8::mem::Memory16Bit;
use rusty_chip8::systems::{
    Chip8, Chip8State, KeyWait, Phase, Progress, System, CHIP8_BACKTRACE_LEN, CHIP8_DISP_BUF_ADDR,
    CHIP8_DISP_BUF_LEN, CHIP8_DISP_HEIGHT, CHIP8_DISP_WIDTH, CHIP8_FONT, CHIP8_FONT_HEIGHT,
    CHIP8_FONT_START, CHIP8_MAX_PROG_SIZE, CHIP8_PC_START, CHIP8_STACK_BASE_ADDR,
};
use rusty_chip8::timing::{TimingGate, CHIP8_TICK_NANOS};

fn machine(program: &[u8]) -> Chip8 {
    let mut chip8 = Chip8::with_seed(7);
    chip8.load_program(program).unwrap();
    chip8
}

fn run(chip8: &mut Chip8, steps: usize) {
    let keys = Keypad::idle();
    for _ in 0..steps {
        assert_eq!(chip8.exec_instruction_with(0, &keys, 0), Ok(Progress::Retired));
    }
}

fn after(program: &[u8], steps: usize) -> Chip8State {
    let mut chip8 = machine(program);
    run(&mut chip8, steps);
    chip8.get_state()
}

#[test]
fn constants_of_the_machine() {
    assert_eq!(CHIP8_PC_START, 0x200);
    assert_eq!(CHIP8_STACK_BASE_ADDR, 0xEA0);
    assert_eq!(CHIP8_DISP_BUF_ADDR, 0xF00);
    assert_eq!(CHIP8_DISP_BUF_LEN, 0x100);
    assert_eq!(CHIP8_DISP_WIDTH, 64);
    assert_eq!(CHIP8_DISP_HEIGHT, 32);
    assert_eq!(CHIP8_MAX_PROG_SIZE, 3232);
    assert_eq!(CHIP8_FONT_START, 0x50);
    assert_eq!(CHIP8_FONT_HEIGHT, 5);
    assert_eq!(CHIP8_BACKTRACE_LEN, 100);
    assert_eq!(CHIP8_FONT.len(), 80);
}

#[test]
fn machine_that_was_switched_on() {
    for chip8 in [Chip8::init(), Chip8::with_seed(0)] {
        let state = chip8.get_state();
        assert_eq!(state.i, 0);
        assert_eq!(state.sp, 0xEA0);
        assert_eq!(state.pc, 0x200);
        assert_eq!(state.v, [0; 16]);
        assert_eq!(state.delay, 0);
        assert_eq!(state.sound, 0);
        assert!(state.ram.dump().iter().all(|b| *b == 0));
        assert_eq!(chip8.get_key_wait(), None);
        assert_eq!(chip8.get_gate(), TimingGate { last_tick: 0, draw_open: true });
        assert_eq!(chip8.get_backtrace().len(), 0);
        assert_eq!(chip8.get_backtrace().size(), 100);
    }
}

#[test]
fn snapshot_is_a_copy_of_the_state() {
    let mut chip8 = machine(&[0x61, 0x2A]);
    let before = Chip8State::from(&chip8);
    run(&mut chip8, 1);
    let now = Chip8State::from(&chip8);
    assert_eq!(before.v[1], 0);
    assert_eq!(before.pc, 0x200);
    assert_eq!(now.v[1], 0x2A);
    assert_eq!(now.pc, 0x202);
    assert_eq!(chip8.get_state().v, now.v);
    assert_eq!(chip8.get_mem().dump(), now.ram.dump());
}

#[test]
fn loading_puts_font_and_program_in_place() {
    let program: Vec<u8> = (0..300u32).map(|n| (n % 251) as u8 + 1).collect();
    let chip8 = machine(&program);
    let ram = chip8.get_mem().dump();
    assert!(ram[..0x50].iter().all(|b| *b == 0));
    assert_eq!(&ram[0x50..0xA0], &CHIP8_FONT[..]);
    assert!(ram[0xA0..0x200].iter().all(|b| *b == 0));
    assert_eq!(&ram[0x200..0x200 + 300], &program[..]);
    assert!(ram[0x200 + 300..].iter().all(|b| *b == 0));
    assert_eq!(&ram[0x50..0x55], &[0xF0, 0x90, 0x90, 0x90, 0xF0]);
    assert_eq!(&ram[0x9B..0xA0], &[0xF0, 0x80, 0xF0, 0x80, 0x80]);
    assert_eq!(chip8.get_state().pc, 0x200);
}

#[test]
fn longest_program_fits() {
    let program = vec![0xAB; 3232];
    let chip8 = machine(&program);
    let ram = chip8.get_mem().dump();
    assert_eq!(ram[0x200], 0xAB);
    assert_eq!(ram[0xE9F], 0xAB);
    assert_eq!(ram[0xEA0], 0x00);
    let empty = machine(&[]);
    assert_eq!(&empty.get_mem().dump()[0x50..0xA0], &CHIP8_FONT[..]);
    assert!(empty.get_mem().dump()[0x200..].iter().all(|b| *b == 0));
}

#[test]
fn program_that_is_too_long_is_refused() {
    let mut chip8 = Chip8::with_seed(1);
    let err = chip8.load_program(&vec![0xFF; 3233]).unwrap_err();
    assert!(matches!(err, Chip8Error::ProgramTooLarge(_)));
    assert_eq!(err.message(), "ProgramLoadingError : Program too long, 3233B > 3232B");
    assert!(chip8.get_mem().dump().iter().all(|b| *b == 0));
    assert_eq!(chip8.get_state().pc, 0x200);
    let mut chip8 = machine(&[1, 2, 3, 4]);
    let before = chip8.get_mem().dump().to_vec();
    let err = chip8.load_program(&vec![0xFF; 5000]).unwrap_err();
    assert_eq!(err.message(), "ProgramLoadingError : Program too long, 5000B > 3232B");
    assert_eq!(chip8.get_mem().dump(), &before[..]);
}

#[test]
fn add_with_carry_and_subtract_with_borrow() {
    let state = after(&[0x61, 0xFF, 0x62, 0x01, 0x81, 0x24], 3);
    assert_eq!(state.v[1], 0x00);
    assert_eq!(state.v[0xF], 1);
    let state = after(&[0x61, 0x01, 0x62, 0x02, 0x81, 0x25], 3);
    assert_eq!(state.v[1], 0xFF);
    assert_eq!(state.v[0xF], 0);
    assert_eq!(state.v[2], 0x02);
    assert_eq!(state.pc, 0x206);
}

#[test]
fn add_without_carry_and_subtract_without_borrow() {
    let state = after(&[0x61, 0x10, 0x62, 0x22, 0x81, 0x24], 3);
    assert_eq!(state.v[1], 0x32);
    assert_eq!(state.v[0xF], 0);
    let state = after(&[0x61, 0x22, 0x62, 0x22, 0x81, 0x25], 3);
    assert_eq!(state.v[1], 0x00);
    assert_eq!(state.v[0xF], 1);
    let state = after(&[0x61, 0x05, 0x62, 0x22, 0x81, 0x27], 3);
    assert_eq!(state.v[1], 0x1D);
    assert_eq!(state.v[0xF], 1);
    let state = after(&[0x61, 0x23, 0x62, 0x22, 0x81, 0x27], 3);
    assert_eq!(state.v[1], 0xFF);
    assert_eq!(state.v[0xF], 0);
}

#[test]
fn flag_register_as_destination_keeps_the_flag() {
    let state = after(&[0x6F, 0xFF, 0x62, 0x02, 0x8F, 0x24], 3);
    assert_eq!(state.v[0xF], 1);
    let state = after(&[0x6F, 0x05, 0x62, 0x02, 0x8F, 0x24], 3);
    assert_eq!(state.v[0xF], 0);
    let state = after(&[0x6F, 0x05, 0x62, 0x03, 0x8F, 0x21], 3);
    assert_eq!(state.v[0xF], 0);
}

#[test]
fn immediate_add_wraps_and_keeps_the_flag() {
    let state = after(&[0x6F, 0x01, 0x63, 0xF0, 0x73, 0x20], 3);
    assert_eq!(state.v[3], 0x10);
    assert_eq!(state.v[0xF], 1);
}

#[test]
fn logic_operations_reset_the_flag() {
    let state = after(&[0x6F, 0x01, 0x61, 0xF0, 0x62, 0x3C, 0x81, 0x21], 4);
    assert_eq!(state.v[1], 0xFC);
    assert_eq!(state.v[0xF], 0);
    let state = after(&[0x6F, 0x01, 0x61, 0xF0, 0x62, 0x3C, 0x81, 0x22], 4);
    assert_eq!(state.v[1], 0x30);
    assert_eq!(state.v[0xF], 0);
    let state = after(&[0x6F, 0x01, 0x61, 0xF0, 0x62, 0x3C, 0x81, 0x23], 4);
    assert_eq!(state.v[1], 0xCC);
    assert_eq!(state.v[0xF], 0);
    let state = after(&[0x6F, 0x01, 0x61, 0xF0, 0x62, 0x3C, 0x81, 0x20], 4);
    assert_eq!(state.v[1], 0x3C);
    assert_eq!(state.v[0xF], 1);
}

#[test]
fn shifts_take_their_source_from_the_second_register() {
    let state = after(&[0x61, 0xFF, 0x62, 0x05, 0x81, 0x26], 3);
    assert_eq!(state.v[1], 0x02);
    assert_eq!(state.v[2], 0x05);
    assert_eq!(state.v[0xF], 1);
    let state = after(&[0x61, 0xFF, 0x62, 0x04, 0x81, 0x26], 3);
    assert_eq!(state.v[1], 0x02);
    assert_eq!(state.v[0xF], 0);
    let state = after(&[0x61, 0x00, 0x62, 0xC1, 0x81, 0x2E], 3);
    assert_eq!(state.v[1], 0x82);
    assert_eq!(state.v[2], 0xC1);
    assert_eq!(state.v[0xF], 1);
    let state = after(&[0x61, 0x00, 0x62, 0x41, 0x81, 0x2E], 3);
    assert_eq!(state.v[1], 0x82);
    assert_eq!(state.v[0xF], 0);
}

#[test]
fn skips_on_equal_and_unequal() {
    assert_eq!(after(&[0x61, 0x07, 0x31, 0x07], 2).pc, 0x206);
    assert_eq!(after(&[0x61, 0x07, 0x31, 0x08], 2).pc, 0x204);
    assert_eq!(after(&[0x61, 0x07, 0x41, 0x07], 2).pc, 0x204);
    assert_eq!(after(&[0x61, 0x07, 0x41, 0x08], 2).pc, 0x206);
    assert_eq!(after(&[0x61, 0x07, 0x62, 0x07, 0x51, 0x20], 3).pc, 0x208);
    assert_eq!(after(&[0x61, 0x07, 0x62, 0x08, 0x51, 0x20], 3).pc, 0x206);
    assert_eq!(after(&[0x61, 0x07, 0x62, 0x07, 0x91, 0x20], 3).pc, 0x206);
    assert_eq!(after(&[0x61, 0x07, 0x62, 0x08, 0x91, 0x20], 3).pc, 0x208);
}

#[test]
fn jumps_set_the_program_counter() {
    assert_eq!(after(&[0x1A, 0xBC], 1).pc, 0xABC);
    assert_eq!(after(&[0x60, 0x10, 0xB3, 0x00], 2).pc, 0x310);
    assert_eq!(after(&[0x60, 0xFF, 0xBF, 0xFF], 2).pc, 0x0FE);
}

#[test]
fn program_counter_wraps_at_the_end_of_memory() {
    let mut chip8 = machine(&[0x1F, 0xFE]);
    chip8.exec_instruction_with(0, &Keypad::idle(), 0).unwrap();
    assert_eq!(chip8.get_state().pc, 0xFFE);
    let err = chip8.exec_instruction_with(0, &Keypad::idle(), 0).unwrap_err();
    assert!(matches!(err, Chip8Error::InvalidInstruction(_)));
    assert_eq!(chip8.get_state().pc, 0xFFE);
}

#[test]
fn instruction_that_lies_across_the_end_cannot_be_read() {
    let mut chip8 = machine(&[0x1F, 0xFF]);
    chip8.exec_instruction_with(0, &Keypad::idle(), 0).unwrap();
    assert_eq!(chip8.get_state().pc, 0xFFF);
    let err = chip8.exec_instruction_with(0, &Keypad::idle(), 0).unwrap_err();
    assert!(matches!(err, Chip8Error::OutOfRange(_)));
    assert_eq!(err.message(), "InvalidAccessError : Address 0xFFF unreachable");
    assert_eq!(chip8.get_state().pc, 0xFFF);
}

#[test]
fn skip_at_the_end_of_memory_wraps() {
    let mut program = vec![0u8; 3232];
    program[0] = 0x1E;
    program[1] = 0x9E;
    program[0xE9E - 0x200] = 0x1F;
    program[0xE9F - 0x200] = 0xFC;
    let mut chip8 = machine(&program);
    run(&mut chip8, 2);
    assert_eq!(chip8.get_state().pc, 0xFFC);
}

#[test]
fn call_then_return_goes_on_after_the_call() {
    let mut chip8 = machine(&[0x22, 0x06, 0x00, 0x00, 0x00, 0x00, 0x00, 0xEE]);
    run(&mut chip8, 1);
    let inside = chip8.get_state();
    assert_eq!(inside.pc, 0x206);
    assert_eq!(inside.sp, 0xEA2);
    assert_eq!(inside.ram.get(0xEA0, 2).unwrap(), &[0x02, 0x00]);
    run(&mut chip8, 1);
    let back = chip8.get_state();
    assert_eq!(back.pc, 0x202);
    assert_eq!(back.sp, 0xEA0);
}

#[test]
fn nested_calls_return_in_turn() {
    let program = [
        0x22, 0x04, 0x12, 0x02, 0x22, 0x08, 0x00, 0xEE, 0x22, 0x0C, 0x00, 0xEE, 0x00, 0xEE,
    ];
    let mut chip8 = machine(&program);
    let mut seen = Vec::new();
    for _ in 0..7 {
        run(&mut chip8, 1);
        seen.push((chip8.get_state().pc, chip8.get_state().sp));
    }
    assert_eq!(
        seen,
        vec![
            (0x204, 0xEA2),
            (0x208, 0xEA4),
            (0x20C, 0xEA6),
            (0x20A, 0xEA4),
            (0x206, 0xEA2),
            (0x202, 0xEA0),
            (0x202, 0xEA0),
        ]
    );
}

#[test]
fn stack_holds_forty_eight_calls_and_no_more() {
    let mut chip8 = machine(&[0x22, 0x00]);
    for depth in 1..=48u16 {
        assert_eq!(
            chip8.exec_instruction_with(0, &Keypad::idle(), 0),
            Ok(Progress::Retired)
        );
        assert_eq!(chip8.get_state().sp, 0xEA0 + 2 * depth);
    }
    assert_eq!(chip8.get_state().sp, 0xF00);
    let before = chip8.get_state();
    let err = chip8.exec_instruction_with(0, &Keypad::idle(), 0).unwrap_err();
    assert!(matches!(err, Chip8Error::StackOverflow(_)));
    assert_eq!(err.message(), "InvalidInstructionError : exceeded stack frame limit");
    let state = chip8.get_state();
    assert_eq!(state.sp, 0xF00);
    assert_eq!(state.pc, 0x200);
    assert_eq!(state.ram.dump(), before.ram.dump());
    assert!(state.ram.dump()[0xF00..].iter().all(|b| *b == 0));
}

#[test]
fn forty_eight_calls_unwind_again() {
    let mut program = vec![0u8; 0x200];
    program[0] = 0x22;
    program[1] = 0x00;
    let mut chip8 = machine(&program);
    run(&mut chip8, 48);
    let mut stuck = chip8.get_state();
    assert_eq!(stuck.sp, 0xF00);
    stuck.ram.set(0x200, &[0x00, 0xEE]).unwrap();
    let keys = Keypad::idle();
    for depth in (0..48u16).rev() {
        let instr = rusty_chip8::isa::decode(0x00EE).unwrap();
        stuck.execute(instr, &keys, 0).unwrap();
        assert_eq!(stuck.sp, 0xEA0 + 2 * depth);
        assert_eq!(stuck.pc, 0x202);
        stuck.pc = 0x200;
    }
    let instr = rusty_chip8::isa::decode(0x00EE).unwrap();
    assert!(matches!(
        stuck.execute(instr, &keys, 0),
        Err(Chip8Error::StackUnderflow(_))
    ));
}

#[test]
fn return_with_an_empty_stack_fails() {
    let mut chip8 = machine(&[0x00, 0xEE]);
    let err = chip8.exec_instruction_with(0, &Keypad::idle(), 0).unwrap_err();
    assert!(matches!(err, Chip8Error::StackUnderflow(_)));
    assert_eq!(
        err.message(),
        "InvalidInstructionError : tried to return from main subroutine (SP decreased below EA0)"
    );
    let state = chip8.get_state();
    assert_eq!(state.sp, 0xEA0);
    assert_eq!(state.pc, 0x200);
    assert_eq!(chip8.get_backtrace().len(), 0);
}

#[test]
fn invalid_instruction_stops_the_machine_in_place() {
    let mut chip8 = machine(&[0x61, 0x01, 0x81, 0x2A]);
    run(&mut chip8, 1);
    let before = chip8.get_state();
    let err = chip8.exec_instruction_with(0, &Keypad::idle(), 0).unwrap_err();
    assert!(matches!(err, Chip8Error::InvalidInstruction(_)));
    assert_eq!(
        err.message(),
        "InvalidInstructionError : wrong operation 0xA for opcode 0x8 (should be 0x0 -> 0x7 or 0xE)"
    );
    let state = chip8.get_state();
    assert_eq!(state.pc, 0x202);
    assert_eq!(state.v, before.v);
    assert_eq!(chip8.get_backtrace().len(), 1);
    let err = chip8.exec_instruction(0, &Keypad::idle()).unwrap_err();
    assert!(matches!(err, Chip8Error::InvalidInstruction(_)));
}

#[test]
fn index_register_operations() {
    assert_eq!(after(&[0xAF, 0xFF], 1).i, 0xFFF);
    assert_eq!(after(&[0xA1, 0x00, 0x61, 0x23, 0xF1, 0x1E], 3).i, 0x123);
    assert_eq!(after(&[0xAF, 0xFF, 0x61, 0x02, 0xF1, 0x1E], 3).i, 0x001);
    assert_eq!(after(&[0x61, 0x00, 0xF1, 0x29], 2).i, 0x50);
    assert_eq!(after(&[0x61, 0x0A, 0xF1, 0x29], 2).i, 0x50 + 50);
    assert_eq!(after(&[0x61, 0xFF, 0xF1, 0x29], 2).i, 0x50 + 75);
    assert_eq!(after(&[0x61, 0x31, 0xF1, 0x29], 2).i, 0x55);
}

#[test]
fn decimal_digits_go_to_memory() {
    let state = after(&[0xA3, 0x00, 0x61, 0xFE, 0xF1, 0x33], 3);
    assert_eq!(state.ram.get(0x2FF, 5).unwrap(), &[0, 2, 5, 4, 0]);
    assert_eq!(state.i, 0x300);
    let state = after(&[0xA3, 0x00, 0x61, 0x07, 0xF1, 0x33], 3);
    assert_eq!(state.ram.get(0x300, 3).unwrap(), &[0, 0, 7]);
    let state = after(&[0xAF, 0xFD, 0x61, 0x81, 0xF1, 0x33], 3);
    assert_eq!(state.ram.get(0xFFD, 3).unwrap(), &[1, 2, 9]);
}

#[test]
fn decimal_digits_past_the_end_fail_and_write_nothing() {
    let mut chip8 = machine(&[0xAF, 0xFE, 0x61, 0xFF, 0xF1, 0x33]);
    run(&mut chip8, 2);
    let before = chip8.get_state();
    let err = chip8.exec_instruction_with(0, &Keypad::idle(), 0).unwrap_err();
    assert!(matches!(err, Chip8Error::OutOfRange(_)));
    assert_eq!(
        err.message(),
        "InvalidAccessError : Cannot set a bytes starting from 0x1000, too big for emulated memory !"
    );
    assert_eq!(chip8.get_state().ram.dump(), before.ram.dump());
    assert_eq!(chip8.get_state().pc, 0x204);
}

#[test]
fn registers_are_stored_and_loaded() {
    let program = [
        0x60, 0x11, 0x61, 0x22, 0x62, 0x33, 0x63, 0x44, 0xA4, 0x00, 0xF2, 0x55, 0x60, 0x00, 0x61,
        0x00, 0x62, 0x00, 0xA4, 0x01, 0xF1, 0x65,
    ];
    let mut chip8 = machine(&program);
    run(&mut chip8, 6);
    let stored = chip8.get_state();
    assert_eq!(stored.ram.get(0x3FF, 5).unwrap(), &[0, 0x11, 0x22, 0x33, 0]);
    assert_eq!(stored.i, 0x403);
    run(&mut chip8, 5);
    let loaded = chip8.get_state();
    assert_eq!(&loaded.v[..5], &[0x22, 0x33, 0x00, 0x44, 0x00]);
    assert_eq!(loaded.i, 0x403);
    assert_eq!(loaded.pc, 0x216);
}

#[test]
fn all_registers_are_stored_and_loaded() {
    let mut program = Vec::new();
    for x in 0..16u8 {
        program.extend_from_slice(&[0x60 + x, 0xA0 + x]);
    }
    program.extend_from_slice(&[0xA5, 0x00, 0xFF, 0x55]);
    for x in 0..16u8 {
        program.extend_from_slice(&[0x60 + x, 0x00]);
    }
    program.extend_from_slice(&[0xA5, 0x00, 0xFF, 0x65]);
    let mut chip8 = machine(&program);
    run(&mut chip8, 18);
    let expected: Vec<u8> = (0..16u8).map(|x| 0xA0 + x).collect();
    assert_eq!(chip8.get_state().ram.get(0x500, 16).unwrap(), &expected[..]);
    assert_eq!(chip8.get_state().i, 0x510);
    run(&mut chip8, 18);
    assert_eq!(&chip8.get_state().v[..], &expected[..]);
    assert_eq!(chip8.get_state().i, 0x510);
}

#[test]
fn store_up_to_the_last_byte_wraps_the_index() {
    let state = after(&[0x60, 0x77, 0x61, 0x88, 0xAF, 0xFE, 0xF1, 0x55], 4);
    assert_eq!(state.ram.get(0xFFE, 2).unwrap(), &[0x77, 0x88]);
    assert_eq!(state.i, 0x000);
}

#[test]
fn store_and_load_past_the_end_fail() {
    let mut chip8 = machine(&[0xAF, 0xFF, 0xF1, 0x55]);
    run(&mut chip8, 1);
    let before = chip8.get_state();
    let err = chip8.exec_instruction_with(0, &Keypad::idle(), 0).unwrap_err();
    assert!(matches!(err, Chip8Error::OutOfRange(_)));
    assert_eq!(
        err.message(),
        "InvalidAccessError : Cannot STORE 1 bytes of data at 0xFFF"
    );
    assert_eq!(chip8.get_state().ram.dump(), before.ram.dump());
    assert_eq!(chip8.get_state().i, 0xFFF);
    let mut chip8 = machine(&[0xAF, 0xF1, 0xFF, 0x65]);
    run(&mut chip8, 1);
    let err = chip8.exec_instruction_with(0, &Keypad::idle(), 0).unwrap_err();
    assert_eq!(
        err.message(),
        "InvalidAccessError : Cannot LOAD F bytes of data from 0xFF1"
    );
    assert_eq!(chip8.get_state().v, [0; 16]);
    assert_eq!(chip8.get_state().pc, 0x202);
}

#[test]
fn random_byte_is_masked() {
    let mut chip8 = machine(&[0xC1, 0x0F, 0xC2, 0xFF, 0xC3, 0x00]);
    let keys = Keypad::idle();
    chip8.exec_instruction_with(0, &keys, 0xA7).unwrap();
    chip8.exec_instruction_with(0, &keys, 0xA7).unwrap();
    chip8.exec_instruction_with(0, &keys, 0xA7).unwrap();
    let state = chip8.get_state();
    assert_eq!(state.v[1], 0x07);
    assert_eq!(state.v[2], 0xA7);
    assert_eq!(state.v[3], 0x00);
    assert_eq!(state.pc, 0x206);
}

#[test]
fn chance_of_the_machine_respects_the_mask() {
    let mut program = Vec::new();
    for _ in 0..64 {
        program.extend_from_slice(&[0xC1, 0x3C, 0x12, 0x00]);
    }
    for mut chip8 in [Chip8::init(), Chip8::with_seed(99)] {
        chip8.load_program(&program).unwrap();
        let keys = Keypad::idle();
        for _ in 0..200 {
            assert_eq!(chip8.exec_instruction(0, &keys), Ok(Progress::Retired));
            assert_eq!(chip8.get_state().v[1] & !0x3C, 0);
        }
    }
}

#[test]
fn same_seed_gives_the_same_chance() {
    let program = [0xC1, 0xFF, 0xC2, 0xFF, 0xC3, 0xFF, 0xC4, 0xFF];
    let mut first = Chip8::with_seed(1234);
    let mut second = Chip8::with_seed(1234);
    first.load_program(&program).unwrap();
    second.load_program(&program).unwrap();
    let keys = Keypad::idle();
    for _ in 0..4 {
        first.exec_instruction(0, &keys).unwrap();
        second.exec_instruction(0, &keys).unwrap();
    }
    assert_eq!(first.get_state().v, second.get_state().v);
}

#[test]
fn clear_puts_out_the_display_only() {
    let program = [0xA2, 0x08, 0xD0, 0x02, 0x00, 0xE0, 0x12, 0x06, 0xFF, 0xFF];
    let mut chip8 = machine(&program);
    run(&mut chip8, 2);
    assert_eq!(chip8.get_mem().get(0xF00, 1).unwrap(), &[0xFF]);
    let before = chip8.get_mem().dump()[..0xF00].to_vec();
    run(&mut chip8, 1);
    assert!(chip8.get_mem().dump()[0xF00..].iter().all(|b| *b == 0));
    assert_eq!(&chip8.get_mem().dump()[..0xF00], &before[..]);
    assert_eq!(chip8.get_state().pc, 0x206);
}

#[test]
fn drawing_sets_the_flag_on_collision() {
    let program = [0xA2, 0x0A, 0x61, 0x04, 0x62, 0x03, 0xD1, 0x21, 0x12, 0x08, 0xF0];
    let mut chip8 = machine(&program);
    run(&mut chip8, 4);
    let state = chip8.get_state();
    assert_eq!(state.v[0xF], 0);
    assert_eq!(state.ram.get(0xF00 + 3 * 8, 2).unwrap(), &[0x0F, 0x00]);
    assert_eq!(state.pc, 0x208);
    assert!(!chip8.get_gate().draw_open);
}

#[test]
fn sprite_past_the_end_of_memory_cannot_be_drawn() {
    let mut chip8 = machine(&[0xAF, 0xFE, 0xD0, 0x03]);
    run(&mut chip8, 1);
    let before = chip8.get_state();
    let err = chip8.exec_instruction_with(0, &Keypad::idle(), 0).unwrap_err();
    assert!(matches!(err, Chip8Error::OutOfRange(_)));
    assert_eq!(err.message(), "InvalidAccessError : Address 0xFFE unreachable");
    assert_eq!(chip8.get_state().ram.dump(), before.ram.dump());
    assert_eq!(chip8.get_state().pc, 0x202);
    assert!(chip8.get_gate().draw_open);
}

#[test]
fn second_drawing_waits_for_a_tick() {
    let program = [0xA2, 0x0A, 0xD0, 0x01, 0xD0, 0x01, 0x12, 0x06, 0x00, 0x00, 0xFF];
    let mut chip8 = machine(&program);
    let keys = Keypad::idle();
    assert_eq!(chip8.exec_instruction(0, &keys), Ok(Progress::Retired));
    assert_eq!(chip8.exec_instruction(0, &keys), Ok(Progress::Retired));
    assert_eq!(chip8.get_mem().get(0xF00, 1).unwrap(), &[0xFF]);
    assert_eq!(chip8.get_state().pc, 0x204);
    assert_eq!(chip8.get_state().v[0xF], 0);
    let drawn = chip8.get_mem().dump().to_vec();
    for now in [0, 0, 1, 16_666_665] {
        assert_eq!(chip8.exec_instruction(now, &keys), Ok(Progress::Stalled));
        assert_eq!(chip8.get_state().pc, 0x204);
        assert_eq!(chip8.get_mem().dump(), &drawn[..]);
        assert_eq!(chip8.get_backtrace().len(), 2);
    }
    assert_eq!(chip8.exec_instruction(16_666_666, &keys), Ok(Progress::Retired));
    assert_eq!(chip8.get_state().pc, 0x206);
    assert_eq!(chip8.get_mem().get(0xF00, 1).unwrap(), &[0x00]);
    assert_eq!(chip8.get_state().v[0xF], 1);
    assert_eq!(chip8.get_backtrace().len(), 3);
}

#[test]
fn other_instructions_do_not_wait_for_a_tick() {
    let program = [0xA2, 0x08, 0xD0, 0x01, 0x61, 0x05, 0x71, 0x01, 0xFF];
    let mut chip8 = machine(&program);
    run(&mut chip8, 4);
    assert_eq!(chip8.get_state().v[1], 6);
    assert!(!chip8.get_gate().draw_open);
}

#[test]
fn timers_count_down_once_a_tick() {
    let program = [0x61, 0x03, 0xF1, 0x15, 0x62, 0x02, 0xF2, 0x18, 0x12, 0x08];
    let mut chip8 = machine(&program);
    let keys = Keypad::idle();
    assert_eq!(chip8.exec_instruction(0, &keys), Ok(Progress::Retired));
    assert_eq!(chip8.exec_instruction(0, &keys), Ok(Progress::Retired));
    assert_eq!(chip8.exec_instruction(0, &keys), Ok(Progress::Retired));
    assert_eq!(chip8.exec_instruction(0, &keys), Ok(Progress::RetiredWithTone(2)));
    assert_eq!((chip8.get_state().delay, chip8.get_state().sound), (3, 2));
    chip8.exec_instruction(CHIP8_TICK_NANOS - 1, &keys).unwrap();
    assert_eq!((chip8.get_state().delay, chip8.get_state().sound), (3, 2));
    chip8.exec_instruction(CHIP8_TICK_NANOS, &keys).unwrap();
    assert_eq!((chip8.get_state().delay, chip8.get_state().sound), (2, 1));
    assert_eq!(chip8.get_gate().last_tick, CHIP8_TICK_NANOS);
    chip8.exec_instruction(CHIP8_TICK_NANOS + 5, &keys).unwrap();
    assert_eq!((chip8.get_state().delay, chip8.get_state().sound), (2, 1));
    chip8.exec_instruction(10 * CHIP8_TICK_NANOS, &keys).unwrap();
    assert_eq!((chip8.get_state().delay, chip8.get_state().sound), (1, 0));
    chip8.exec_instruction(11 * CHIP8_TICK_NANOS, &keys).unwrap();
    assert_eq!((chip8.get_state().delay, chip8.get_state().sound), (0, 0));
    chip8.exec_instruction(12 * CHIP8_TICK_NANOS, &keys).unwrap();
    assert_eq!((chip8.get_state().delay, chip8.get_state().sound), (0, 0));
    assert_eq!(chip8.get_state().pc, 0x208);
}

#[test]
fn delay_timer_can_be_read() {
    let program = [0x61, 0x09, 0xF1, 0x15, 0xF2, 0x07];
    let mut chip8 = machine(&program);
    let keys = Keypad::idle();
    chip8.exec_instruction(0, &keys).unwrap();
    chip8.exec_instruction(0, &keys).unwrap();
    chip8.exec_instruction(CHIP8_TICK_NANOS, &keys).unwrap();
    assert_eq!(chip8.get_state().v[2], 8);
}

#[test]
fn tone_is_asked_for_when_the_sound_timer_is_set() {
    let mut chip8 = machine(&[0x61, 0x3C, 0xF1, 0x18, 0x62, 0x00, 0xF2, 0x18]);
    let keys = Keypad::idle();
    assert_eq!(chip8.exec_instruction(0, &keys), Ok(Progress::Retired));
    assert_eq!(chip8.exec_instruction(0, &keys), Ok(Progress::RetiredWithTone(60)));
    assert_eq!(chip8.get_state().sound, 60);
    assert_eq!(chip8.exec_instruction(0, &keys), Ok(Progress::Retired));
    assert_eq!(chip8.exec_instruction(0, &keys), Ok(Progress::RetiredWithTone(0)));
}

#[test]
fn skips_on_keys() {
    let mut keys = Keypad::idle();
    keys.held[0xA] = true;
    let mut chip8 = machine(&[0x61, 0x0A, 0xE1, 0x9E]);
    chip8.exec_instruction(0, &keys).unwrap();
    chip8.exec_instruction(0, &keys).unwrap();
    assert_eq!(chip8.get_state().pc, 0x206);
    let mut chip8 = machine(&[0x61, 0x0B, 0xE1, 0x9E]);
    chip8.exec_instruction(0, &keys).unwrap();
    chip8.exec_instruction(0, &keys).unwrap();
    assert_eq!(chip8.get_state().pc, 0x204);
    let mut chip8 = machine(&[0x61, 0x0A, 0xE1, 0xA1]);
    chip8.exec_instruction(0, &keys).unwrap();
    chip8.exec_instruction(0, &keys).unwrap();
    assert_eq!(chip8.get_state().pc, 0x204);
    let mut chip8 = machine(&[0x61, 0x0B, 0xE1, 0xA1]);
    chip8.exec_instruction(0, &keys).unwrap();
    chip8.exec_instruction(0, &keys).unwrap();
    assert_eq!(chip8.get_state().pc, 0x206);
}

#[test]
fn register_that_names_no_key_never_skips_as_held() {
    let keys = Keypad { held: [true; 16], pressed: [false; 16], released: [false; 16] };
    let mut chip8 = machine(&[0x61, 0x1A, 0xE1, 0x9E, 0xE1, 0xA1]);
    chip8.exec_instruction(0, &keys).unwrap();
    chip8.exec_instruction(0, &keys).unwrap();
    assert_eq!(chip8.get_state().pc, 0x204);
    chip8.exec_instruction(0, &keys).unwrap();
    assert_eq!(chip8.get_state().pc, 0x208);
}

#[test]
fn wait_for_a_key_ends_when_the_key_is_up_again() {
    let mut chip8 = machine(&[0xF3, 0x0A, 0x64, 0x55]);
    let idle = Keypad::idle();
    for now in 0..5u64 {
        assert_eq!(chip8.exec_instruction(now, &idle), Ok(Progress::Stalled));
        assert_eq!(chip8.get_state().pc, 0x200);
        assert_eq!(chip8.get_key_wait(), None);
        assert_eq!(chip8.get_backtrace().len(), 0);
    }
    let mut down = Keypad::idle();
    down.pressed[7] = true;
    down.held[7] = true;
    assert_eq!(chip8.exec_instruction(5, &down), Ok(Progress::Stalled));
    assert_eq!(chip8.get_state().pc, 0x200);
    assert_eq!(chip8.get_state().v[3], 0);
    assert_eq!(chip8.get_key_wait(), Some(KeyWait { key: 7, reg: 3 }));
    let mut held = Keypad::idle();
    held.held[7] = true;
    held.released[2] = true;
    for now in 6..10u64 {
        assert_eq!(chip8.exec_instruction(now, &held), Ok(Progress::Stalled));
        assert_eq!(chip8.get_state().pc, 0x200);
        assert_eq!(chip8.get_state().v[3], 0);
        assert_eq!(chip8.get_key_wait(), Some(KeyWait { key: 7, reg: 3 }));
    }
    let mut up = Keypad::idle();
    up.released[7] = true;
    assert_eq!(chip8.exec_instruction(10, &up), Ok(Progress::Retired));
    assert_eq!(chip8.get_state().pc, 0x202);
    assert_eq!(chip8.get_state().v[3], 7);
    assert_eq!(chip8.get_state().v[4], 0);
    assert_eq!(chip8.get_key_wait(), None);
    assert_eq!(chip8.get_backtrace().len(), 1);
    assert_eq!(chip8.get_backtrace().get(0).unwrap().pc, 0x200);
    assert_eq!(chip8.get_backtrace().get(0).unwrap().text, "WAITKEY v3");
    assert_eq!(chip8.exec_instruction(11, &up), Ok(Progress::Retired));
    assert_eq!(chip8.get_state().pc, 0x204);
    assert_eq!(chip8.get_state().v[4], 0x55);
}

#[test]
fn key_pressed_later_does_not_replace_the_pending_one() {
    let mut chip8 = machine(&[0xF0, 0x0A]);
    let mut down = Keypad::idle();
    down.pressed[2] = true;
    down.pressed[9] = true;
    assert_eq!(chip8.exec_instruction(0, &down), Ok(Progress::Stalled));
    assert_eq!(chip8.get_key_wait(), Some(KeyWait { key: 9, reg: 0 }));
    let mut other = Keypad::idle();
    other.pressed[0xC] = true;
    other.released[2] = true;
    assert_eq!(chip8.exec_instruction(0, &other), Ok(Progress::Stalled));
    assert_eq!(chip8.get_key_wait(), Some(KeyWait { key: 9, reg: 0 }));
    other.released[9] = true;
    assert_eq!(chip8.exec_instruction(0, &other), Ok(Progress::Retired));
    assert_eq!(chip8.get_state().v[0], 9);
}

#[test]
fn timers_run_while_the_machine_waits_for_a_key() {
    let mut chip8 = machine(&[0x61, 0x05, 0xF1, 0x15, 0xF2, 0x0A]);
    let idle = Keypad::idle();
    chip8.exec_instruction(0, &idle).unwrap();
    chip8.exec_instruction(0, &idle).unwrap();
    assert_eq!(chip8.exec_instruction(CHIP8_TICK_NANOS, &idle), Ok(Progress::Stalled));
    assert_eq!(chip8.get_state().delay, 4);
    let mut down = Keypad::idle();
    down.pressed[1] = true;
    assert_eq!(chip8.exec_instruction(2 * CHIP8_TICK_NANOS, &down), Ok(Progress::Stalled));
    assert_eq!(chip8.get_state().delay, 3);
    assert_eq!(chip8.exec_instruction(3 * CHIP8_TICK_NANOS, &idle), Ok(Progress::Stalled));
    assert_eq!(chip8.get_state().delay, 2);
    let mut up = Keypad::idle();
    up.released[1] = true;
    assert_eq!(chip8.exec_instruction(4 * CHIP8_TICK_NANOS, &up), Ok(Progress::Retired));
    assert_eq!(chip8.get_state().delay, 1);
    assert_eq!(chip8.get_state().v[2], 1);
    assert_eq!(chip8.get_state().pc, 0x206);
}

#[test]
fn retired_instructions_are_remembered() {
    let mut chip8 = machine(&[0x61, 0xFF, 0x62, 0x01, 0x81, 0x24, 0x12, 0x06]);
    run(&mut chip8, 5);
    let log = chip8.get_backtrace();
    assert_eq!(log.len(), 5);
    let pcs: Vec<u16> = (0..5).map(|k| log.get(k).unwrap().pc).collect();
    assert_eq!(pcs, vec![0x200, 0x202, 0x204, 0x206, 0x206]);
    assert_eq!(log.get(0).unwrap().text, "SET v1, ff");
    assert_eq!(log.get(1).unwrap().text, "SET v2, 1");
    assert_eq!(log.get(2).unwrap().text, "ADD v1, v2 → 0, vF = true");
    assert_eq!(log.get(3).unwrap().text, "JMP 206");
    assert_eq!(log.get(0).unwrap().state.v[1], 0xFF);
    assert_eq!(log.get(0).unwrap().state.pc, 0x202);
    assert_eq!(log.get(2).unwrap().state.v[1], 0x00);
    assert_eq!(log.get(2).unwrap().state.v[0xF], 1);
    assert_eq!(log.get(2).unwrap().state.pc, 0x206);
    assert!(log.get(5).is_none());
    assert_eq!(log.to_text(), "PC Backtrace: 200, 202, 204, 206, 206");
}

#[test]
fn only_the_last_hundred_instructions_are_remembered() {
    let mut program = Vec::new();
    for _ in 0..120 {
        program.extend_from_slice(&[0x71, 0x01]);
    }
    let mut chip8 = machine(&program);
    run(&mut chip8, 99);
    assert_eq!(chip8.get_backtrace().len(), 99);
    run(&mut chip8, 1);
    assert_eq!(chip8.get_backtrace().len(), 100);
    assert_eq!(chip8.get_backtrace().get(0).unwrap().pc, 0x200);
    run(&mut chip8, 15);
    let log = chip8.get_backtrace();
    assert_eq!(log.len(), 100);
    for k in 0..100usize {
        let entry = log.get(k).unwrap();
        assert_eq!(entry.pc as usize, 0x200 + 2 * (15 + k));
        assert_eq!(entry.state.v[1] as usize, 16 + k);
        assert_eq!(entry.text, "ADD v1, 1");
    }
}

#[test]
fn log_keeps_the_last_values() {
    let mut log: Backtrace<u16> = Backtrace::new(3);
    assert_eq!(log.size(), 3);
    assert_eq!(log.len(), 0);
    assert!(log.get(0).is_none());
    let mut expected: Vec<u16> = Vec::new();
    for value in 10..20u16 {
        log.refresh(value);
        expected.push(value);
        if expected.len() > 3 {
            expected.remove(0);
        }
        let kept: Vec<u16> = (0..log.len()).map(|k| *log.get(k).unwrap()).collect();
        assert_eq!(kept, expected);
        assert!(log.get(log.len()).is_none());
    }
    assert_eq!(log.size(), 3);
}

#[test]
fn log_without_room_keeps_nothing() {
    let mut log: Backtrace<u8> = Backtrace::new(0);
    log.refresh(1);
    log.refresh(2);
    assert_eq!(log.len(), 0);
    assert!(log.get(0).is_none());
    let mut one: Backtrace<u8> = Backtrace::new(1);
    one.refresh(1);
    one.refresh(2);
    assert_eq!(one.len(), 1);
    assert_eq!(one.get(0), Some(&2));
}

#[test]
fn display_is_painted_into_a_frame() {
    let program = [0xA2, 0x04, 0xD0, 0x01, 0xA5];
    let mut chip8 = machine(&program);
    run(&mut chip8, 2);
    let mut frame = vec![0x77u8; 64 * 32 * 4 + 3];
    chip8.set_pixels_frame(&mut frame);
    let fg = [0xFF, 0x99, 0x00, 0xFF];
    let bg = [0x22, 0x11, 0x10, 0xFF];
    let lit = [true, false, true, false, false, true, false, true];
    for pixel in 0..2048usize {
        let expected = if pixel < 8 && lit[pixel] { fg } else { bg };
        assert_eq!(&frame[4 * pixel..4 * pixel + 4], &expected[..]);
    }
    assert_eq!(&frame[8192..], &[0x77, 0x77, 0x77]);
}

#[test]
fn state_in_words() {
    let chip8 = machine(&[0x6A, 0xBC]);
    let fresh = "\x1b[1mCurrent state : \x1b[0m\n\
                 I : 0x000  SP : 0xea0  PC : 0x200 -> 0x6abc (next instruction)\n\
                 V0 : 0x00  V1 : 0x00  V2 : 0x00  V3 : 0x00\n\
                 V4 : 0x00  V5 : 0x00  V6 : 0x00  V7 : 0x00\n\
                 V8 : 0x00  V9 : 0x00  VA : 0x00  VB : 0x00\n\
                 VC : 0x00  VD : 0x00  VE : 0x00  VF : 0x00\n\
                 delay : 0x00  sound : 0x00\n";
    assert_eq!(chip8.to_text(), fresh);
    let mut state = chip8.get_state();
    state.i = 0x12;
    state.pc = 0xFFF;
    state.v[0xA] = 0xBC;
    state.v[0xF] = 0x01;
    state.delay = 0xFF;
    state.sound = 0x0A;
    let text = "\x1b[1mCurrent state : \x1b[0m\n\
                I : 0x012  SP : 0xea0  PC : 0xfff\n\
                V0 : 0x00  V1 : 0x00  V2 : 0x00  V3 : 0x00\n\
                V4 : 0x00  V5 : 0x00  V6 : 0x00  V7 : 0x00\n\
                V8 : 0x00  V9 : 0x00  VA : 0xbc  VB : 0x00\n\
                VC : 0x00  VD : 0x00  VE : 0x00  VF : 0x01\n\
                delay : 0xff  sound : 0x0a\n";
    assert_eq!(state.to_text(), text);
}

#[test]
fn step_in_two_parts() {
    let mut chip8 = machine(&[0xC1, 0xF0, 0xF2, 0x0A, 0x00, 0x00]);
    let keys = Keypad::idle();
    let phase = chip8.begin(0, &keys).unwrap();
    assert_eq!(phase, Phase::Run(0xC1F0, Instruction::Random { x: 1, kk: 0xF0 }));
    assert_eq!(chip8.get_state().pc, 0x200);
    assert_eq!(
        chip8.finish(0xC1F0, Instruction::Random { x: 1, kk: 0xF0 }, &keys, 0x3C),
        Ok(Progress::Retired)
    );
    assert_eq!(chip8.get_state().v[1], 0x30);
    assert_eq!(chip8.get_state().pc, 0x202);
    let phase = chip8.begin(0, &keys).unwrap();
    assert_eq!(phase, Phase::Run(0xF20A, Instruction::WaitKey { x: 2 }));
    let mut down = Keypad::idle();
    down.pressed[0xE] = true;
    assert_eq!(
        chip8.finish(0xF20A, Instruction::WaitKey { x: 2 }, &down, 0),
        Ok(Progress::Stalled)
    );
    assert_eq!(chip8.get_key_wait(), Some(KeyWait { key: 0xE, reg: 2 }));
    assert_eq!(chip8.begin(0, &keys), Ok(Phase::Done(Progress::Stalled)));
    let mut up = Keypad::idle();
    up.released[0xE] = true;
    assert_eq!(chip8.begin(0, &up), Ok(Phase::Done(Progress::Retired)));
    assert_eq!(chip8.get_state().v[2], 0xE);
    assert!(matches!(chip8.begin(0, &up), Err(Chip8Error::InvalidInstruction(_))));
}

#[test]
fn drawing_that_may_not_be_drawn_ends_the_first_part() {
    let mut chip8 = machine(&[0xD0, 0x01, 0xD0, 0x01]);
    let keys = Keypad::idle();
    assert_eq!(chip8.exec_instruction(0, &keys), Ok(Progress::Retired));
    assert_eq!(chip8.begin(0, &keys), Ok(Phase::Done(Progress::Stalled)));
    assert!(matches!(chip8.begin(CHIP8_TICK_NANOS, &keys), Ok(Phase::Run(0xD001, _))));
    assert!(chip8.get_gate().draw_open);
}

#[test]
fn loading_a_program_forgets_a_pending_key() {
    let mut chip8 = machine(&[0xF3, 0x0A]);
    let mut down = Keypad::idle();
    down.pressed[7] = true;
    assert_eq!(chip8.exec_instruction(0, &down), Ok(Progress::Stalled));
    assert_eq!(chip8.get_key_wait(), Some(KeyWait { key: 7, reg: 3 }));
    chip8.load_program(&[0x63, 0x11, 0x64, 0x22]).unwrap();
    assert_eq!(chip8.get_key_wait(), None);
    let mut up = Keypad::idle();
    up.released[7] = true;
    assert_eq!(chip8.exec_instruction(0, &up), Ok(Progress::Retired));
    let state = chip8.get_state();
    assert_eq!(state.v[3], 0x11);
    assert_eq!(state.pc, 0x202);
    assert_eq!(chip8.get_backtrace().get(0).unwrap().text, "SET v3, 11");
}

#[test]
fn program_that_is_too_long_leaves_a_pending_key() {
    let mut chip8 = machine(&[0xF3, 0x0A]);
    let mut down = Keypad::idle();
    down.pressed[7] = true;
    assert_eq!(chip8.exec_instruction(0, &down), Ok(Progress::Stalled));
    assert!(chip8.load_program(&vec![0; 3233]).is_err());
    assert_eq!(chip8.get_key_wait(), Some(KeyWait { key: 7, reg: 3 }));
    let mut up = Keypad::idle();
    up.released[7] = true;
    assert_eq!(chip8.exec_instruction(0, &up), Ok(Progress::Retired));
    assert_eq!(chip8.get_state().v[3], 7);
    assert_eq!(chip8.get_state().pc, 0x202);
}

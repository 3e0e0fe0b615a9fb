use chip8_rust::cpu::{qwerty_key, Chip8, Chip8IO, StepResult, FONT, PROGRAM_START};
use chip8_rust::error::Chip8Error;
use chip8_rust::instruction::Instruction;
use chip8_rust::register::Registers;
use chip8_rust::timing::sleep_nanos;

fn machine(rom: &[u8]) -> (Chip8, Chip8IO) {
    (Chip8::new(rom, false), Chip8IO::new())
}

#[test]
fn new_machine_is_reset() {
    let (cpu, io) = machine(&[0x12, 0x34]);
    assert_eq!(cpu.pc, 0x200);
    assert!(cpu.stack.is_empty());
    assert_eq!(cpu.reg.v, [0u8; 16]);
    assert_eq!(cpu.memory[..80], FONT[..]);
    assert_eq!(cpu.memory[0x200], 0x12);
    assert_eq!(cpu.memory[0x201], 0x34);
    assert_eq!(cpu.memory[0x202], 0);
    assert!(io.keystate.iter().all(|k| !k));
    assert!(io.display.iter().all(|row| row.iter().all(|p| !p)));
    let regs = Registers::new();
    assert_eq!(regs.i, 0);
    assert_eq!(regs.sp, 0);
}

#[test]
fn load_reset_then_step_loads_register() {
    let (mut cpu, mut io) = machine(&[]);
    cpu.reg.v[3] = 9;
    io.keystate[2] = true;
    io.display[1][1] = true;
    cpu.reset(&mut io);
    assert!(!io.keystate[2]);
    assert!(!io.display[1][1]);
    cpu.load_rom(&[0x63, 0x42]);
    assert_eq!(cpu.step(&mut io), Ok(StepResult::Continue(false)));
    assert_eq!(cpu.reg.v[3], 0x42);
    assert_eq!(cpu.pc, PROGRAM_START + 2);
}

#[test]
fn reset_drops_the_program() {
    let (mut cpu, mut io) = machine(&[0x63, 0x42]);
    cpu.reset(&mut io);
    assert_eq!(cpu.memory[0x200], 0);
    assert_eq!(cpu.memory[..80], FONT[..]);
}

#[test]
fn add_registers_sets_carry() {
    let (mut cpu, mut io) = machine(&[]);
    cpu.reg.v[1] = 0xFF;
    cpu.reg.v[2] = 0x01;
    assert_eq!(cpu.execute(&mut io, Instruction::Addr(1, 2), 0), Ok(StepResult::Continue(false)));
    assert_eq!(cpu.reg.v[1], 0x00);
    assert_eq!(cpu.reg.v[0xF], 1);
    cpu.reg.v[1] = 0x01;
    cpu.reg.v[2] = 0x01;
    cpu.execute(&mut io, Instruction::Addr(1, 2), 0).unwrap();
    assert_eq!(cpu.reg.v[1], 0x02);
    assert_eq!(cpu.reg.v[0xF], 0);
    assert_eq!(cpu.pc, 0x204);
}

#[test]
fn subtract_wraps_without_flag() {
    let (mut cpu, mut io) = machine(&[]);
    cpu.reg.v[1] = 0x01;
    cpu.reg.v[2] = 0x02;
    cpu.reg.v[0xF] = 7;
    cpu.execute(&mut io, Instruction::Sub(1, 2), 0).unwrap();
    assert_eq!(cpu.reg.v[1], 0xFF);
    assert_eq!(cpu.reg.v[0xF], 7);
}

#[test]
fn shifts_use_two_registers() {
    let (mut cpu, mut io) = machine(&[]);
    cpu.reg.v[1] = 0b1000_0110;
    cpu.reg.v[2] = 0b0000_0011;
    cpu.execute(&mut io, Instruction::Shr(1, 2), 0).unwrap();
    assert_eq!(cpu.reg.v[0xF], 1);
    assert_eq!(cpu.reg.v[2], 0b0100_0011);
    assert_eq!(cpu.reg.v[1], 0b1000_0110);
    cpu.reg.v[2] = 0b1000_0000;
    cpu.execute(&mut io, Instruction::Shl(1, 2), 0).unwrap();
    assert_eq!(cpu.reg.v[0xF], 1);
    assert_eq!(cpu.reg.v[2], 0b0000_1100);
    cpu.reg.v[2] = 0b0111_1111;
    cpu.execute(&mut io, Instruction::Shl(1, 2), 0).unwrap();
    assert_eq!(cpu.reg.v[0xF], 0);
}

#[test]
fn logic_and_immediates() {
    let (mut cpu, mut io) = machine(&[]);
    cpu.execute(&mut io, Instruction::Load(4, 0b1100), 0).unwrap();
    cpu.execute(&mut io, Instruction::Load(5, 0b1010), 0).unwrap();
    cpu.execute(&mut io, Instruction::Or(4, 5), 0).unwrap();
    assert_eq!(cpu.reg.v[4], 0b1110);
    cpu.execute(&mut io, Instruction::And(4, 5), 0).unwrap();
    assert_eq!(cpu.reg.v[4], 0b1010);
    cpu.execute(&mut io, Instruction::Xor(4, 5), 0).unwrap();
    assert_eq!(cpu.reg.v[4], 0);
    cpu.execute(&mut io, Instruction::Move(4, 5), 0).unwrap();
    assert_eq!(cpu.reg.v[4], 0b1010);
    cpu.execute(&mut io, Instruction::Add(4, 0xFF), 0).unwrap();
    assert_eq!(cpu.reg.v[4], 0b1001);
    assert_eq!(cpu.pc, 0x200 + 14);
}

#[test]
fn call_to_itself_is_a_loop() {
    let (mut cpu, mut io) = machine(&[0x22, 0x00]);
    assert_eq!(cpu.step(&mut io), Ok(StepResult::Loop));
    assert!(cpu.stack.is_empty());
    assert_eq!(cpu.pc, 0x200);
}

#[test]
fn call_and_return() {
    let (mut cpu, mut io) = machine(&[0x22, 0x04, 0x00, 0x00, 0x00, 0xEE]);
    cpu.step(&mut io).unwrap();
    assert_eq!(cpu.pc, 0x204);
    assert_eq!(cpu.stack, vec![0x200]);
    cpu.step(&mut io).unwrap();
    assert_eq!(cpu.pc, 0x202);
    assert!(cpu.stack.is_empty());
    assert_eq!(cpu.step(&mut io), Ok(StepResult::End));
}

#[test]
fn return_from_empty_stack_is_an_error() {
    let (mut cpu, mut io) = machine(&[0x00, 0xEE]);
    assert_eq!(cpu.step(&mut io), Err(Chip8Error::EmptyStack));
    assert_eq!(cpu.pc, 0x200);
}

#[test]
fn jumps_and_self_jumps() {
    let (mut cpu, mut io) = machine(&[0x12, 0x00]);
    assert_eq!(cpu.step(&mut io), Ok(StepResult::Loop));
    cpu.execute(&mut io, Instruction::Jump(0x300), 0).unwrap();
    assert_eq!(cpu.pc, 0x300);
    cpu.reg.v[0] = 0x10;
    assert_eq!(cpu.execute(&mut io, Instruction::JumpI(0x2F0), 0), Ok(StepResult::Loop));
    cpu.execute(&mut io, Instruction::JumpI(0x400), 0).unwrap();
    assert_eq!(cpu.pc, 0x410);
}

#[test]
fn skips() {
    let (mut cpu, mut io) = machine(&[]);
    cpu.reg.v[1] = 5;
    cpu.reg.v[2] = 5;
    cpu.execute(&mut io, Instruction::Ske(1, 5), 0).unwrap();
    assert_eq!(cpu.pc, 0x204);
    cpu.execute(&mut io, Instruction::Skne(1, 5), 0).unwrap();
    assert_eq!(cpu.pc, 0x206);
    cpu.execute(&mut io, Instruction::Skre(1, 2), 0).unwrap();
    assert_eq!(cpu.pc, 0x20A);
    cpu.execute(&mut io, Instruction::Skrne(1, 2), 0).unwrap();
    assert_eq!(cpu.pc, 0x20C);
    cpu.reg.v[2] = 6;
    cpu.execute(&mut io, Instruction::Skrne(1, 2), 0).unwrap();
    assert_eq!(cpu.pc, 0x210);
}

#[test]
fn key_skips() {
    let (mut cpu, mut io) = machine(&[]);
    cpu.reg.v[1] = 7;
    io.keystate[7] = true;
    cpu.execute(&mut io, Instruction::Skpr(1), 0).unwrap();
    assert_eq!(cpu.pc, 0x204);
    cpu.execute(&mut io, Instruction::Skup(1), 0).unwrap();
    assert_eq!(cpu.pc, 0x206);
    cpu.reg.v[1] = 200;
    cpu.execute(&mut io, Instruction::Skup(1), 0).unwrap();
    assert_eq!(cpu.pc, 0x20A);
}

#[test]
fn clear_blanks_the_screen() {
    let (mut cpu, mut io) = machine(&[0x00, 0xE0]);
    io.display[0][0] = true;
    io.display[31][63] = true;
    assert_eq!(cpu.step(&mut io), Ok(StepResult::Continue(false)));
    assert!(io.display.iter().all(|row| row.iter().all(|p| !p)));
}

#[test]
fn draw_twice_restores_and_collides() {
    let (mut cpu, mut io) = machine(&[]);
    cpu.reg.i = 0; // glyph 0
    cpu.reg.v[1] = 62;
    cpu.reg.v[2] = 30;
    assert_eq!(cpu.execute(&mut io, Instruction::Draw(1, 2, 5), 0), Ok(StepResult::Continue(true)));
    assert_eq!(cpu.reg.v[0xF], 0);
    // 0xF0 on the first row, wrapped around the right edge
    assert!(io.display[30][62] && io.display[30][63] && io.display[30][0] && io.display[30][1]);
    assert!(!io.display[30][2]);
    // third row wraps to the top
    assert!(io.display[0][62] && !io.display[0][63]);
    assert_eq!(cpu.execute(&mut io, Instruction::Draw(1, 2, 5), 0), Ok(StepResult::Continue(true)));
    assert_eq!(cpu.reg.v[0xF], 1);
    assert!(io.display.iter().all(|row| row.iter().all(|p| !p)));
}

#[test]
fn draw_on_lit_pixels_reports_collision_first() {
    let (mut cpu, mut io) = machine(&[]);
    io.display[0][0] = true;
    cpu.reg.i = 0;
    cpu.execute(&mut io, Instruction::Draw(1, 2, 1), 0).unwrap();
    assert_eq!(cpu.reg.v[0xF], 1);
    assert!(!io.display[0][0] && io.display[0][1]);
}

#[test]
fn wait_for_key() {
    let (mut cpu, mut io) = machine(&[0xF4, 0x0A]);
    for _ in 0..3 {
        assert_eq!(cpu.step(&mut io), Ok(StepResult::Continue(false)));
        assert_eq!(cpu.pc, 0x200);
    }
    io.keystate[9] = true;
    io.keystate[5] = true;
    cpu.step(&mut io).unwrap();
    assert_eq!(cpu.pc, 0x202);
    assert_eq!(cpu.reg.v[4], 5);
}

#[test]
fn delay_ticks_once_per_period() {
    // LOAD v0, 0 ; JUMP 0x200
    let (mut cpu, mut io) = machine(&[0x60, 0x00, 0x12, 0x00]);
    cpu.delay = 10;
    cpu.tick = 0;
    cpu.step_at(&mut io, 100, 0).unwrap();
    assert_eq!(cpu.delay, 9);
    assert_eq!(cpu.tick, 100);
    for k in 0..1000u64 {
        cpu.step_at(&mut io, 100 + k % 16, 0).unwrap();
    }
    assert_eq!(cpu.delay, 9);
    assert_eq!(cpu.tick, 100);
    cpu.step_at(&mut io, 116, 0).unwrap();
    assert_eq!(cpu.delay, 8);
    assert_eq!(cpu.tick, 116);
    cpu.delay = 0;
    cpu.step_at(&mut io, 200, 0).unwrap();
    assert_eq!(cpu.delay, 0);
}

#[test]
fn delay_register_moves() {
    let (mut cpu, mut io) = machine(&[]);
    cpu.reg.v[3] = 42;
    cpu.execute(&mut io, Instruction::LoadD(3), 0).unwrap();
    assert_eq!(cpu.delay, 42);
    cpu.execute(&mut io, Instruction::Moved(6), 0).unwrap();
    assert_eq!(cpu.reg.v[6], 42);
    cpu.execute(&mut io, Instruction::LoadS(3), 0).unwrap();
    assert_eq!(cpu.pc, 0x206);
}

#[test]
fn paused_machine_does_nothing() {
    let mut cpu = Chip8::new(&[0x63, 0x42], true);
    let mut io = Chip8IO::new();
    assert_eq!(cpu.step(&mut io), Ok(StepResult::Continue(false)));
    assert_eq!(cpu.pc, 0x200);
    assert_eq!(cpu.reg.v[3], 0);
}

#[test]
fn store_read_and_bcd() {
    let (mut cpu, mut io) = machine(&[]);
    cpu.reg.v[0] = 1;
    cpu.reg.v[1] = 2;
    cpu.reg.v[2] = 3;
    cpu.execute(&mut io, Instruction::LoadI(0x300), 0).unwrap();
    cpu.execute(&mut io, Instruction::Stor(2), 0).unwrap();
    assert_eq!(cpu.memory[0x300..0x304], [1, 2, 3, 0]);
    assert_eq!(cpu.reg.i, 0x303);
    cpu.reg.v[7] = 254;
    cpu.execute(&mut io, Instruction::Bcd(7), 0).unwrap();
    assert_eq!(cpu.memory[0x303..0x306], [2, 5, 4]);
    cpu.reg.i = 0x300;
    cpu.execute(&mut io, Instruction::Read(1), 0).unwrap();
    assert_eq!(cpu.reg.v[0..3], [1, 2, 3]);
    assert_eq!(cpu.reg.i, 0x302);
}

#[test]
fn memory_bounds_are_errors() {
    let (mut cpu, mut io) = machine(&[]);
    cpu.reg.i = 0xFFE;
    assert_eq!(cpu.execute(&mut io, Instruction::Bcd(0), 0), Err(Chip8Error::MemoryOutOfRange(0xFFE)));
    assert_eq!(cpu.execute(&mut io, Instruction::Stor(2), 0), Err(Chip8Error::MemoryOutOfRange(0xFFE)));
    assert_eq!(cpu.execute(&mut io, Instruction::Read(2), 0), Err(Chip8Error::MemoryOutOfRange(0xFFE)));
    assert_eq!(cpu.execute(&mut io, Instruction::Draw(0, 0, 3), 0), Err(Chip8Error::MemoryOutOfRange(0xFFE)));
    assert_eq!(cpu.pc, 0x200);
    cpu.pc = 0xFFF;
    assert_eq!(cpu.step(&mut io), Err(Chip8Error::MemoryOutOfRange(0xFFF)));
}

#[test]
fn sprite_pointer_bounds() {
    let (mut cpu, mut io) = machine(&[]);
    cpu.reg.v[2] = 0xA;
    cpu.execute(&mut io, Instruction::Ldspr(2), 0).unwrap();
    assert_eq!(cpu.reg.i, 50);
    cpu.reg.v[2] = 16;
    assert_eq!(cpu.execute(&mut io, Instruction::Ldspr(2), 0), Err(Chip8Error::SpriteOutOfRange(16)));
    cpu.reg.v[2] = 0xFF;
    cpu.reg.i = 0xFFF0;
    cpu.execute(&mut io, Instruction::AddI(2), 0).unwrap();
    assert_eq!(cpu.reg.i, 0x00EF);
}

#[test]
fn sys_calls() {
    let (mut cpu, mut io) = machine(&[0x00, 0x00, 0x01, 0x23]);
    assert_eq!(cpu.step(&mut io), Ok(StepResult::End));
    cpu.pc = 0x202;
    assert_eq!(cpu.step(&mut io), Err(Chip8Error::UnimplementedSys(0x123)));
}

#[test]
fn invalid_word_is_an_error() {
    let (mut cpu, mut io) = machine(&[0x51, 0x21]);
    assert_eq!(cpu.step(&mut io), Err(Chip8Error::InvalidInstruction(0x5121)));
    assert_eq!(cpu.current_instruction(), Err(Chip8Error::InvalidInstruction(0x5121)));
}

#[test]
fn random_values_stay_below_bound() {
    // RAND v1, 3 ; JUMP 0x200
    let (mut cpu, mut io) = machine(&[0xC1, 0x03, 0x12, 0x00]);
    for _ in 0..200 {
        cpu.step(&mut io).unwrap();
        assert!(cpu.reg.v[1] < 3);
        cpu.step(&mut io).unwrap();
    }
    // RAND v1, 0 stores zero
    let (mut cpu, mut io) = machine(&[0xC1, 0x00]);
    cpu.reg.v[1] = 9;
    cpu.step(&mut io).unwrap();
    assert_eq!(cpu.reg.v[1], 0);
    cpu.execute(&mut io, Instruction::Rand(2, 10), 7).unwrap();
    assert_eq!(cpu.reg.v[2], 7);
}

#[test]
fn sleep_fills_the_period() {
    assert_eq!(sleep_nanos(1000, 0), 1_000_000);
    assert_eq!(sleep_nanos(1000, 400_000), 600_000);
    assert_eq!(sleep_nanos(1000, 1_000_000), 0);
    assert_eq!(sleep_nanos(1000, 5_000_000), 0);
    assert_eq!(sleep_nanos(3, 0), 333_333_333);
}

#[test]
fn io_text_shows_keys_and_pixels() {
    let mut io = Chip8IO::new();
    io.keystate[0xC] = true;
    io.keystate[0x0] = true;
    io.display[0][0] = true;
    io.display[31][63] = true;
    let text = io.to_text();
    let lines: Vec<&str> = text.split('\n').collect();
    assert_eq!(lines[0], "███C");
    assert_eq!(lines[1], "████");
    assert_eq!(lines[3], "█0██");
    assert_eq!(lines[4], "");
    assert_eq!(lines[5], format!("┌{}┐", "─".repeat(64)));
    assert_eq!(lines[6], format!("│█{}│", "·".repeat(63)));
    assert_eq!(lines[37], format!("│{}█│", "·".repeat(63)));
    assert_eq!(lines[38], format!("└{}┘", "─".repeat(64)));
    assert_eq!(lines.len(), 40);
    assert_eq!(lines[39], "");
}

#[test]
fn error_messages() {
    assert_eq!(Chip8Error::InvalidInstruction(0x5121).message(), "Invalid Instruction: 0x5121");
    assert_eq!(Chip8Error::EmptyStack.message(), "Return from empty stack");
    assert_eq!(Chip8Error::SpriteOutOfRange(200).message(), "LDSPR for 200 > 15");
    assert_eq!(Chip8Error::UnimplementedSys(5).message(), "SYS");
    assert_eq!(Chip8Error::MemoryOutOfRange(0xFFF).message(), "Memory access out of range at 0xfff");
}

#[test]
fn machine_text_line() {
    let (mut cpu, _io) = machine(&[0x63, 0x42]);
    assert_eq!(
        cpu.to_text(),
        "CHIP8 | pc: 0x200 | LOAD  v3, 0x42       | idx:   0 | reg: Registers { v: [0, 0, 0, 0, 0, 0, 0, 0, 0, 0, 0, 0, 0, 0, 0, 0], i: 0, sp: 0 } | stack: 0"
    );
    cpu.reg.v[1] = 17;
    cpu.reg.i = 0x2AB;
    assert_eq!(
        cpu.to_text(),
        "CHIP8 | pc: 0x200 | LOAD  v3, 0x42       | idx: 2AB | reg: Registers { v: [0, 17, 0, 0, 0, 0, 0, 0, 0, 0, 0, 0, 0, 0, 0, 0], i: 683, sp: 0 } | stack: 0"
    );
    cpu.reg.i = 0x1F;
    assert!(cpu.to_text().contains("| idx:  1F |"));
    cpu.reg.i = 0xFFFF;
    assert!(cpu.to_text().contains("| idx: FFFF |"));
    cpu.pc = 0xFFF;
    assert!(cpu.to_text().contains("| Memory access out of range at 0xfff |"));
    cpu.pc = 0x202;
    assert!(cpu.to_text().contains("| SYS   0x0            |"));
}

#[test]
fn qwerty_keys_map_to_the_pad() {
    assert_eq!(qwerty_key('1'), Some(0x1));
    assert_eq!(qwerty_key('4'), Some(0xC));
    assert_eq!(qwerty_key('q'), Some(0x4));
    assert_eq!(qwerty_key('R'), Some(0xD));
    assert_eq!(qwerty_key('x'), Some(0x0));
    assert_eq!(qwerty_key('V'), Some(0xF));
    assert_eq!(qwerty_key('5'), None);
    assert_eq!(qwerty_key(' '), None);
}

#[test]
fn held_keys_replace_the_pad() {
    let mut io = Chip8IO::new();
    io.keystate[3] = true;
    io.display[2][2] = true;
    io.hold_keys(&vec!['q', 'X', 'q', '?']);
    let pressed: Vec<usize> = (0..16).filter(|&k| io.keystate[k]).collect();
    assert_eq!(pressed, vec![0x0, 0x4]);
    assert!(io.display[2][2]);
    io.hold_keys(&vec![]);
    assert!(io.keystate.iter().all(|k| !k));
}

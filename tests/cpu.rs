use chip8::cpu::{rand, Cpu, Instruction};
use chip8::error::EmuError;
use chip8::machine::Op;
use chip8::memory::{FONT_BASE, RESERVED};

fn with_rom(rom: &[u8]) -> Cpu {
    let mut cpu = Cpu::new();
    cpu.memory.load_rom(rom).unwrap();
    cpu
}

#[test]
fn load_then_add_wraps_without_flag() {
    let mut cpu = with_rom(&[0x63, 0xF0, 0x73, 0x20]);
    cpu.register.v[0xF] = 0x7;
    cpu.cycle().unwrap();
    cpu.cycle().unwrap();
    assert_eq!(cpu.register.v[3], 0x10);
    assert_eq!(cpu.register.v[0xF], 0x7);
    assert_eq!(cpu.register.pc, 0x204);
}

#[test]
fn add_registers_sets_carry() {
    let mut cpu = Cpu::new();
    cpu.register.v[1] = 0xFF;
    cpu.register.v[2] = 0x01;
    cpu.execute(Op::AddReg { x: 1, y: 2 }).unwrap();
    assert_eq!(cpu.register.v[1], 0x00);
    assert_eq!(cpu.register.v[0xF], 1);

    let mut cpu = Cpu::new();
    cpu.register.v[1] = 0x01;
    cpu.register.v[2] = 0x01;
    cpu.execute(Op::AddReg { x: 1, y: 2 }).unwrap();
    assert_eq!(cpu.register.v[1], 0x02);
    assert_eq!(cpu.register.v[0xF], 0);
}

#[test]
fn sub_registers_sets_no_borrow() {
    let mut cpu = Cpu::new();
    cpu.register.v[1] = 0x05;
    cpu.register.v[2] = 0x03;
    cpu.execute(Op::Sub { x: 1, y: 2 }).unwrap();
    assert_eq!(cpu.register.v[1], 0x02);
    assert_eq!(cpu.register.v[0xF], 1);

    let mut cpu = Cpu::new();
    cpu.register.v[1] = 0x03;
    cpu.register.v[2] = 0x05;
    cpu.execute(Op::Sub { x: 1, y: 2 }).unwrap();
    assert_eq!(cpu.register.v[1], 0xFE);
    assert_eq!(cpu.register.v[0xF], 0);
}

#[test]
fn subn_registers() {
    let mut cpu = Cpu::new();
    cpu.register.v[1] = 0x03;
    cpu.register.v[2] = 0x05;
    cpu.execute(Op::Subn { x: 1, y: 2 }).unwrap();
    assert_eq!(cpu.register.v[1], 0x02);
    assert_eq!(cpu.register.v[0xF], 1);

    let mut cpu = Cpu::new();
    cpu.register.v[1] = 0x05;
    cpu.register.v[2] = 0x03;
    cpu.execute(Op::Subn { x: 1, y: 2 }).unwrap();
    assert_eq!(cpu.register.v[1], 0xFE);
    assert_eq!(cpu.register.v[0xF], 0);
}

#[test]
fn shifts_set_flag_to_bit_shifted_out() {
    let mut cpu = Cpu::new();
    cpu.register.v[4] = 0x81;
    cpu.execute(Op::Shr { x: 4 }).unwrap();
    assert_eq!(cpu.register.v[4], 0x40);
    assert_eq!(cpu.register.v[0xF], 1);

    let mut cpu = Cpu::new();
    cpu.register.v[4] = 0x81;
    cpu.execute(Op::Shl { x: 4 }).unwrap();
    assert_eq!(cpu.register.v[4], 0x02);
    assert_eq!(cpu.register.v[0xF], 1);

    let mut cpu = Cpu::new();
    cpu.register.v[4] = 0x7E;
    cpu.execute(Op::Shl { x: 4 }).unwrap();
    assert_eq!(cpu.register.v[4], 0xFC);
    assert_eq!(cpu.register.v[0xF], 0);

    let mut cpu = Cpu::new();
    cpu.register.v[0xF] = 0x03;
    cpu.execute(Op::Shr { x: 0xF }).unwrap();
    assert_eq!(cpu.register.v[0xF], 1);
}

#[test]
fn logic_operations() {
    let mut cpu = Cpu::new();
    cpu.register.v[0] = 0b1100;
    cpu.register.v[1] = 0b1010;
    cpu.execute(Op::Or { x: 0, y: 1 }).unwrap();
    assert_eq!(cpu.register.v[0], 0b1110);
    cpu.register.v[0] = 0b1100;
    cpu.execute(Op::And { x: 0, y: 1 }).unwrap();
    assert_eq!(cpu.register.v[0], 0b1000);
    cpu.register.v[0] = 0b1100;
    cpu.execute(Op::Xor { x: 0, y: 1 }).unwrap();
    assert_eq!(cpu.register.v[0], 0b0110);
    cpu.execute(Op::LdReg { x: 2, y: 1 }).unwrap();
    assert_eq!(cpu.register.v[2], 0b1010);
    assert_eq!(cpu.register.pc, 0x208);
}

#[test]
fn cls_darkens_every_pixel() {
    let mut cpu = with_rom(&[0xA0, 0x50, 0xD0, 0x05, 0x00, 0xE0]);
    cpu.cycle().unwrap();
    cpu.cycle().unwrap();
    assert_eq!(cpu.display.get_pos(0, 0), 1);
    cpu.cycle().unwrap();
    for y in 0..32u8 {
        for x in 0..64u8 {
            assert_eq!(cpu.display.get_pos(y, x), 0);
        }
    }
}

#[test]
fn drawing_twice_restores_and_collides() {
    // I points at the glyph of 0; draw it twice at (10, 3).
    let mut cpu = with_rom(&[0x60, 0x0A, 0x61, 0x03, 0xA0, 0x50, 0xD0, 0x15, 0xD0, 0x15]);
    for _ in 0..4 {
        cpu.cycle().unwrap();
    }
    assert_eq!(cpu.register.v[0xF], 0);
    assert_eq!(cpu.display.get_pos(3, 10), 1);
    assert_eq!(cpu.display.get_pos(3, 13), 1);
    assert_eq!(cpu.display.get_pos(3, 14), 0);
    assert_eq!(cpu.display.get_pos(4, 11), 0);
    cpu.cycle().unwrap();
    assert_eq!(cpu.register.v[0xF], 1);
    assert!(cpu.display.grid.iter().all(|&p| p == 0));
}

#[test]
fn sprite_wraps_around_edges() {
    let mut cpu = Cpu::new();
    cpu.register.v[0] = 62;
    cpu.register.v[1] = 31;
    cpu.register.i = FONT_BASE as u16;
    cpu.execute(Op::Drw { x: 0, y: 1, n: 2 }).unwrap();
    // Row 0xF0 at row 31, columns 62, 63, 0, 1.
    assert_eq!(cpu.display.get_pos(31, 62), 1);
    assert_eq!(cpu.display.get_pos(31, 63), 1);
    assert_eq!(cpu.display.get_pos(31, 0), 1);
    assert_eq!(cpu.display.get_pos(31, 1), 1);
    assert_eq!(cpu.display.get_pos(31, 2), 0);
    // Row 0x90 wraps to row 0: columns 62 and 1.
    assert_eq!(cpu.display.get_pos(0, 62), 1);
    assert_eq!(cpu.display.get_pos(0, 63), 0);
    assert_eq!(cpu.display.get_pos(0, 0), 0);
    assert_eq!(cpu.display.get_pos(0, 1), 1);
    assert_eq!(cpu.register.v[0xF], 0);
}

#[test]
fn call_then_return_resumes_after_call() {
    let mut cpu = with_rom(&[0x22, 0x06, 0x00, 0x00, 0x00, 0x00, 0x00, 0xEE]);
    cpu.cycle().unwrap();
    assert_eq!(cpu.register.pc, 0x206);
    assert_eq!(cpu.register.sp, 1);
    assert_eq!(cpu.register.stack[0], 0x200);
    cpu.cycle().unwrap();
    assert_eq!(cpu.register.pc, 0x202);
    assert_eq!(cpu.register.sp, 0);
}

#[test]
fn seventeenth_call_overflows() {
    let mut cpu = with_rom(&[0x22, 0x00]);
    for _ in 0..16 {
        cpu.cycle().unwrap();
    }
    assert_eq!(cpu.register.sp, 16);
    assert_eq!(cpu.cycle(), Err(EmuError::StackOverflow));
    assert_eq!(cpu.register.sp, 16);
    assert_eq!(cpu.register.pc, 0x200);
}

#[test]
fn return_on_empty_stack_underflows() {
    let mut cpu = with_rom(&[0x00, 0xEE]);
    assert_eq!(cpu.cycle(), Err(EmuError::StackUnderflow));
    assert_eq!(cpu.register.pc, 0x200);
}

#[test]
fn bcd_of_156() {
    let mut cpu = Cpu::new();
    cpu.register.v[7] = 156;
    cpu.register.i = 0x300;
    cpu.execute(Op::LdBcd { x: 7 }).unwrap();
    assert_eq!(cpu.memory.ram[0x300], 1);
    assert_eq!(cpu.memory.ram[0x301], 5);
    assert_eq!(cpu.memory.ram[0x302], 6);
}

#[test]
fn bcd_past_end_of_memory_fails() {
    let mut cpu = Cpu::new();
    cpu.register.i = 0xFFE;
    assert_eq!(cpu.execute(Op::LdBcd { x: 0 }), Err(EmuError::OutOfBounds));
    assert_eq!(cpu.register.pc, 0x200);
}

#[test]
fn store_then_load_round_trip() {
    let mut cpu = Cpu::new();
    for k in 0..16 {
        cpu.register.v[k] = (k as u8) * 11 + 1;
    }
    let saved = cpu.register.v.clone();
    cpu.register.i = 0x400;
    cpu.execute(Op::StoreRegs { x: 5 }).unwrap();
    assert_eq!(cpu.memory.ram[0x405], 56);
    assert_eq!(cpu.memory.ram[0x406], 0);
    for k in 0..6 {
        cpu.register.v[k] = 0;
    }
    cpu.execute(Op::LoadRegs { x: 5 }).unwrap();
    assert_eq!(cpu.register.v, saved);
    assert_eq!(cpu.register.i, 0x400);
}

#[test]
fn illegal_opcode_is_signalled() {
    assert_eq!(Instruction::decode(0x5001).op(), Err(EmuError::IllegalOpcode));
    assert_eq!(Instruction::decode(0x8008).op(), Err(EmuError::IllegalOpcode));
    assert_eq!(Instruction::decode(0x0123).op(), Err(EmuError::IllegalOpcode));
    let mut cpu = with_rom(&[0x50, 0x01]);
    assert_eq!(cpu.cycle(), Err(EmuError::IllegalOpcode));
    assert_eq!(cpu.register.pc, 0x200);
}

#[test]
fn decode_splits_fields() {
    let ins = Instruction::decode(0xD12A);
    assert_eq!(ins.x, 1);
    assert_eq!(ins.y, 2);
    assert_eq!(ins.n, 0xA);
    assert_eq!(ins.nn, 0x2A);
    assert_eq!(ins.nnn, 0x12A);
    assert_eq!(ins.op(), Ok(Op::Drw { x: 1, y: 2, n: 0xA }));
    assert_eq!(Instruction::decode(0xF355).op(), Ok(Op::StoreRegs { x: 3 }));
}

#[test]
fn end_to_end_loop() {
    let mut cpu = with_rom(&[0x60, 0x05, 0x70, 0x03, 0x12, 0x00]);
    for _ in 0..3 {
        cpu.cycle().unwrap();
    }
    assert_eq!(cpu.register.v[0], 8);
    assert_eq!(cpu.register.pc, 0x200);
    for _ in 0..3 {
        cpu.cycle().unwrap();
    }
    assert_eq!(cpu.register.v[0], 8);
    assert_eq!(cpu.register.pc, 0x200);
}

#[test]
fn skips_advance_by_four() {
    let mut cpu = Cpu::new();
    cpu.register.v[2] = 9;
    cpu.execute(Op::SeByte { x: 2, nn: 9 }).unwrap();
    assert_eq!(cpu.register.pc, 0x204);
    cpu.execute(Op::SneByte { x: 2, nn: 9 }).unwrap();
    assert_eq!(cpu.register.pc, 0x206);
    cpu.register.v[3] = 9;
    cpu.execute(Op::SeReg { x: 2, y: 3 }).unwrap();
    assert_eq!(cpu.register.pc, 0x20A);
    cpu.execute(Op::SneReg { x: 2, y: 3 }).unwrap();
    assert_eq!(cpu.register.pc, 0x20C);
}

#[test]
fn jumps() {
    let mut cpu = Cpu::new();
    cpu.execute(Op::Jp { addr: 0x345 }).unwrap();
    assert_eq!(cpu.register.pc, 0x345);
    cpu.register.v[0] = 0x10;
    cpu.execute(Op::JpV0 { addr: 0x300 }).unwrap();
    assert_eq!(cpu.register.pc, 0x310);
}

#[test]
fn keys_drive_skips_and_wait() {
    let mut cpu = with_rom(&[0xF5, 0x0A]);
    cpu.cycle().unwrap();
    assert_eq!(cpu.register.pc, 0x200);
    cpu.keyboard.set_keypress(0xB);
    cpu.cycle().unwrap();
    assert_eq!(cpu.register.pc, 0x202);
    assert_eq!(cpu.register.v[5], 0xB);
    cpu.execute(Op::Skp { x: 5 }).unwrap();
    assert_eq!(cpu.register.pc, 0x206);
    cpu.execute(Op::Sknp { x: 5 }).unwrap();
    assert_eq!(cpu.register.pc, 0x208);
}

#[test]
fn timers_count_down_once_per_cycle() {
    let mut cpu = with_rom(&[0x60, 0x02, 0xF0, 0x15, 0xF0, 0x18, 0xF1, 0x07]);
    cpu.cycle().unwrap();
    cpu.cycle().unwrap();
    assert_eq!(cpu.register.dt, 2);
    cpu.cycle().unwrap();
    assert_eq!(cpu.register.dt, 1);
    assert_eq!(cpu.register.st, 2);
    cpu.cycle().unwrap();
    assert_eq!(cpu.register.v[1], 0);
    assert_eq!(cpu.register.dt, 0);
    assert_eq!(cpu.register.st, 1);
}

#[test]
fn step_without_tick_keeps_timers() {
    let mut cpu = with_rom(&[0x60, 0x01]);
    cpu.register.dt = 5;
    cpu.step(false).unwrap();
    assert_eq!(cpu.register.dt, 5);
    assert_eq!(cpu.register.v[0], 1);
}

#[test]
fn index_register_operations() {
    let mut cpu = Cpu::new();
    cpu.execute(Op::LdI { addr: 0xFFF }).unwrap();
    assert_eq!(cpu.register.i, 0xFFF);
    cpu.register.v[1] = 0x20;
    cpu.execute(Op::AddIVx { x: 1 }).unwrap();
    assert_eq!(cpu.register.i, 0x101F);
    cpu.register.i = 0xFFFF;
    cpu.execute(Op::AddIVx { x: 1 }).unwrap();
    assert_eq!(cpu.register.i, 0x1F);
    cpu.register.v[2] = 0xA;
    cpu.execute(Op::LdFont { x: 2 }).unwrap();
    assert_eq!(cpu.register.i as usize, FONT_BASE + 50);
    assert_eq!(cpu.memory.ram[FONT_BASE + 50], 0xF0);
    assert_eq!(cpu.memory.ram[FONT_BASE + 51], 0x90);
}

#[test]
fn random_byte_follows_generator() {
    assert_eq!(rand(0), 12345);
    assert_eq!(rand(1), 1103527590);
    let mut cpu = Cpu::new();
    cpu.seed = 0;
    cpu.execute(Op::Rnd { x: 3, nn: 0xFF }).unwrap();
    assert_eq!(cpu.register.v[3], 0x39);
    assert_eq!(cpu.seed, 12345);
    cpu.execute(Op::Rnd { x: 3, nn: 0x0F }).unwrap();
    assert_eq!(cpu.register.v[3], (rand(12345) & 0x0F) as u8);
}

#[test]
fn fetch_past_end_of_memory_fails() {
    let mut cpu = Cpu::new();
    cpu.register.pc = 0xFFF;
    assert_eq!(cpu.cycle(), Err(EmuError::OutOfBounds));
    cpu.register.pc = 0xFFE;
    assert_eq!(cpu.get_opcode(), Ok(0x0000));
}

#[test]
fn draw_past_end_of_memory_fails() {
    let mut cpu = Cpu::new();
    cpu.register.i = 0xFFC;
    assert_eq!(cpu.execute(Op::Drw { x: 0, y: 0, n: 5 }), Err(EmuError::OutOfBounds));
    assert!(cpu.display.grid.iter().all(|&p| p == 0));
    assert_eq!(cpu.execute(Op::Drw { x: 0, y: 0, n: 4 }), Ok(()));
}

#[test]
fn new_cpu_state() {
    let cpu = Cpu::new();
    assert_eq!(cpu.register.pc, RESERVED);
    assert_eq!(cpu.register.sp, 0);
    assert_eq!(cpu.memory.ram[FONT_BASE], 0xF0);
    assert_eq!(cpu.memory.ram[FONT_BASE + 79], 0x80);
    assert_eq!(cpu.memory.ram[RESERVED], 0);
    assert!(!cpu.keyboard.is_pressed());
}

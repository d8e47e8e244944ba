use gameboy::bus::{Bus, ConsoleEvent};
use gameboy::cartridge::Cartridge;
use gameboy::cpu::Cpu;

const SAMPLE_RATE: u32 = 44_100;

/// A processor in front of a ROM with `code` at the entry point.
fn cpu_with(code: &[u8]) -> Cpu {
    let mut rom = vec![0u8; 0x8000];
    for (i, byte) in code.iter().enumerate() {
        rom[0x0100 + i] = *byte;
    }
    Cpu::new(Bus::new(Cartridge::load(rom), SAMPLE_RATE))
}

/// Runs `code`, and then an endless loop behind it.
fn run(code: &[u8]) -> Cpu {
    let mut program = code.to_vec();
    program.push(0x18);
    program.push(0xFE);
    let mut cpu = cpu_with(&program);
    for _ in 0..100 {
        cpu.step();
    }
    cpu
}

fn byte(cpu: &Cpu, address: u16) -> u8 {
    cpu.bus().read_byte(address)
}

/// A and F after `code`, which must not move the stack pointer.
fn af_after(code: &[u8]) -> (u8, u8) {
    let mut program = vec![0x31, 0x00, 0xD0];
    program.extend_from_slice(code);
    program.push(0xF5);
    let cpu = run(&program);
    (byte(&cpu, 0xCFFF), byte(&cpu, 0xCFFE))
}

/// A and F after `LD A,a`, a clear or set carry, and `code`.
fn alu(a: u8, carry: bool, code: &[u8]) -> (u8, u8) {
    let mut program = vec![0x3E, a, 0x37];
    if !carry {
        program.push(0x3F);
    }
    program.extend_from_slice(code);
    af_after(&program)
}

// ---- Timing ----

#[test]
fn every_opcode_takes_its_time() {
    // At power-on the flags Z and C are set, so the conditions Z and C hold.
    let cycles: [u32; 256] = [
        4, 12, 8, 8, 4, 4, 8, 4, 20, 8, 8, 8, 4, 4, 8, 4, //
        4, 12, 8, 8, 4, 4, 8, 4, 12, 8, 8, 8, 4, 4, 8, 4, //
        8, 12, 8, 8, 4, 4, 8, 4, 12, 8, 8, 8, 4, 4, 8, 4, //
        8, 12, 8, 8, 12, 12, 12, 4, 12, 8, 8, 8, 4, 4, 8, 4, //
        4, 4, 4, 4, 4, 4, 8, 4, 4, 4, 4, 4, 4, 4, 8, 4, //
        4, 4, 4, 4, 4, 4, 8, 4, 4, 4, 4, 4, 4, 4, 8, 4, //
        4, 4, 4, 4, 4, 4, 8, 4, 4, 4, 4, 4, 4, 4, 8, 4, //
        8, 8, 8, 8, 8, 8, 4, 8, 4, 4, 4, 4, 4, 4, 8, 4, //
        4, 4, 4, 4, 4, 4, 8, 4, 4, 4, 4, 4, 4, 4, 8, 4, //
        4, 4, 4, 4, 4, 4, 8, 4, 4, 4, 4, 4, 4, 4, 8, 4, //
        4, 4, 4, 4, 4, 4, 8, 4, 4, 4, 4, 4, 4, 4, 8, 4, //
        4, 4, 4, 4, 4, 4, 8, 4, 4, 4, 4, 4, 4, 4, 8, 4, //
        8, 12, 12, 16, 12, 16, 8, 16, 20, 16, 16, 8, 24, 24, 8, 16, //
        8, 12, 12, 4, 12, 16, 8, 16, 20, 16, 16, 4, 24, 4, 8, 16, //
        12, 12, 8, 4, 4, 16, 8, 16, 16, 4, 16, 4, 4, 4, 8, 16, //
        12, 12, 8, 4, 4, 16, 8, 16, 12, 8, 16, 4, 4, 4, 8, 16,
    ];
    for opcode in 0..256usize {
        let mut cpu = cpu_with(&[opcode as u8, 0x00, 0x00]);
        assert_eq!(cpu.step(), cycles[opcode], "opcode {:02X}", opcode);
    }
}

#[test]
fn branches_not_taken_are_shorter() {
    // XOR A sets Z and clears C; OR with 1 clears both.
    for (opcode, taken, not_taken) in [
        (0x28u8, 12u32, 8u32),
        (0xCA, 16, 12),
        (0xCC, 24, 12),
        (0xC8, 20, 8),
    ] {
        let mut cpu = cpu_with(&[0xAF, opcode, 0x00, 0x00]);
        cpu.step();
        assert_eq!(cpu.step(), taken);
        let mut cpu = cpu_with(&[0xF6, 0x01, opcode, 0x00, 0x00]);
        cpu.step();
        assert_eq!(cpu.step(), not_taken);
    }
    for (opcode, taken, not_taken) in [
        (0x30u8, 12u32, 8u32),
        (0xD2, 16, 12),
        (0xD4, 24, 12),
        (0xD0, 20, 8),
    ] {
        let mut cpu = cpu_with(&[0xAF, opcode, 0x00, 0x00]);
        cpu.step();
        assert_eq!(cpu.step(), taken);
        let mut cpu = cpu_with(&[0x37, opcode, 0x00, 0x00]);
        cpu.step();
        assert_eq!(cpu.step(), not_taken);
    }
}

#[test]
fn prefixed_opcodes_take_their_time() {
    for opcode in 0..256u32 {
        let mut cpu = cpu_with(&[0xCB, opcode as u8]);
        let expected = if opcode % 8 != 6 {
            8
        } else if (0x40..0x80).contains(&opcode) {
            12
        } else {
            16
        };
        assert_eq!(cpu.step(), expected, "opcode CB {:02X}", opcode);
    }
}

#[test]
fn prefixed_opcodes_change_their_operand() {
    // SET 2,B; RES 7,B; SWAP B with B at 0 from power-on, then LD A,B.
    let mut cpu = cpu_with(&[0x78, 0xEA, 0x00, 0xC0]);
    assert_eq!(cpu.execute_cb(0xD0), 8);
    assert_eq!(cpu.execute_cb(0xB8), 8);
    assert_eq!(cpu.execute_cb(0x30), 8);
    cpu.step();
    cpu.step();
    assert_eq!(byte(&cpu, 0xC000), 0x40);
}

#[test]
fn time_of_a_step_passes_on_the_bus() {
    // 64 NOPs are 256 T-cycles, one increment of DIV.
    let mut cpu = cpu_with(&[]);
    for _ in 0..63 {
        cpu.step();
    }
    assert_eq!(byte(&cpu, 0xFF04), 0);
    cpu.step();
    assert_eq!(byte(&cpu, 0xFF04), 1);
    assert_eq!(cpu.bus_mut().take_audio_samples().len(), 256);
}

#[test]
fn writing_div_counts_from_zero() {
    // 60 NOPs, then LDH (0x04),A, then NOPs.
    let mut code = vec![0x00u8; 60];
    code.push(0xE0);
    code.push(0x04);
    let mut cpu = cpu_with(&code);
    for _ in 0..61 {
        assert_eq!(cpu.step() % 4, 0);
    }
    // The write itself takes twelve T-cycles, so 61 more NOPs end the period.
    for _ in 0..60 {
        cpu.step();
    }
    assert_eq!(byte(&cpu, 0xFF04), 0);
    cpu.step();
    assert_eq!(byte(&cpu, 0xFF04), 1);
}

// ---- Arithmetic ----

#[test]
fn registers_at_power_on() {
    let cpu = run(&[
        0xF5, 0xC5, 0xD5, 0xE5, 0x08, 0x00, 0xC0,
    ]);
    // The stack starts at 0xFFFE, in high RAM.
    assert_eq!(byte(&cpu, 0xFFFD), 0x01);
    assert_eq!(byte(&cpu, 0xFFFC), 0xB0);
    assert_eq!(byte(&cpu, 0xFFFB), 0x00);
    assert_eq!(byte(&cpu, 0xFFFA), 0x13);
    assert_eq!(byte(&cpu, 0xFFF9), 0x00);
    assert_eq!(byte(&cpu, 0xFFF8), 0xD8);
    assert_eq!(byte(&cpu, 0xFFF7), 0x01);
    assert_eq!(byte(&cpu, 0xFFF6), 0x4D);
    assert_eq!(byte(&cpu, 0xC000), 0xF6);
    assert_eq!(byte(&cpu, 0xC001), 0xFF);
}

#[test]
fn additions() {
    assert_eq!(alu(0x12, true, &[0xC6, 0x34]), (0x46, 0x00));
    assert_eq!(alu(0x0F, false, &[0xC6, 0x01]), (0x10, 0x20));
    assert_eq!(alu(0xFF, false, &[0xC6, 0x01]), (0x00, 0xB0));
    assert_eq!(alu(0xF0, false, &[0xC6, 0x20]), (0x10, 0x10));
    assert_eq!(alu(0x0E, true, &[0xCE, 0x01]), (0x10, 0x20));
    assert_eq!(alu(0xFE, true, &[0xCE, 0x01]), (0x00, 0xB0));
    assert_eq!(alu(0xFE, false, &[0xCE, 0x01]), (0xFF, 0x00));
}

#[test]
fn subtractions() {
    assert_eq!(alu(0x46, false, &[0xD6, 0x34]), (0x12, 0x40));
    assert_eq!(alu(0x10, false, &[0xD6, 0x01]), (0x0F, 0x60));
    assert_eq!(alu(0x00, false, &[0xD6, 0x01]), (0xFF, 0x70));
    assert_eq!(alu(0x34, false, &[0xD6, 0x34]), (0x00, 0xC0));
    assert_eq!(alu(0x10, true, &[0xDE, 0x0F]), (0x00, 0xE0));
    assert_eq!(alu(0x00, true, &[0xDE, 0x00]), (0xFF, 0x70));
}

#[test]
fn subtracting_what_was_added() {
    for a in [0x00u8, 0x7F, 0x80, 0xFF] {
        assert_eq!(alu(a, false, &[0xC6, 0x9C, 0xD6, 0x9C]).0, a);
    }
}

#[test]
fn comparison_keeps_a() {
    assert_eq!(alu(0x20, false, &[0xFE, 0x20]), (0x20, 0xC0));
    assert_eq!(alu(0x20, false, &[0xFE, 0x30]), (0x20, 0x50));
    assert_eq!(alu(0x20, false, &[0xFE, 0x0F]), (0x20, 0x60));
}

#[test]
fn logic() {
    assert_eq!(alu(0xF3, true, &[0xE6, 0x31]), (0x31, 0x20));
    assert_eq!(alu(0xF0, true, &[0xE6, 0x0F]), (0x00, 0xA0));
    assert_eq!(alu(0xF3, true, &[0xEE, 0x31]), (0xC2, 0x00));
    assert_eq!(alu(0x5A, true, &[0xAF]), (0x00, 0x80));
    assert_eq!(alu(0xF0, true, &[0xF6, 0x05]), (0xF5, 0x00));
    assert_eq!(alu(0x00, true, &[0xF6, 0x00]), (0x00, 0x80));
}

#[test]
fn register_operands_of_the_arithmetic_block() {
    // LD B,1 to LD L,6, and LD A,0x10; ADD A,B to ADD A,L.
    let code = [
        0x06, 1, 0x0E, 2, 0x16, 3, 0x1E, 4, 0x26, 5, 0x2E, 6, 0x3E, 0x10, 0x80, 0x81, 0x82, 0x83,
        0x84, 0x85,
    ];
    assert_eq!(af_after(&code), (0x25, 0x20));
    // SUB A
    assert_eq!(alu(0x33, false, &[0x97]), (0x00, 0xC0));
    // LD HL,0xC080; LD (HL),0x0F; AND (HL)
    assert_eq!(
        alu(0x3C, false, &[0x21, 0x80, 0xC0, 0x36, 0x0F, 0xA6]),
        (0x0C, 0x20)
    );
}

#[test]
fn increments_and_decrements() {
    assert_eq!(alu(0x0F, true, &[0x3C]), (0x10, 0x30));
    assert_eq!(alu(0xFF, false, &[0x3C]), (0x00, 0xA0));
    assert_eq!(alu(0x10, true, &[0x3D]), (0x0F, 0x70));
    assert_eq!(alu(0x01, false, &[0x3D]), (0x00, 0xC0));
    assert_eq!(alu(0x00, false, &[0x3D]), (0xFF, 0x60));
    assert_eq!(alu(0x00, false, &[0x3D, 0x3C]).0, 0x00);
    // INC (HL) and DEC (HL)
    let cpu = run(&[0x21, 0x00, 0xC0, 0x36, 0x41, 0x34, 0x34, 0x35]);
    assert_eq!(byte(&cpu, 0xC000), 0x42);
}

#[test]
fn word_arithmetic() {
    // LD HL,0x0FFF; LD BC,1; ADD HL,BC; LD A,H. The zero flag stays set.
    assert_eq!(
        alu(0, false, &[0x21, 0xFF, 0x0F, 0x01, 0x01, 0x00, 0x09, 0x7C]),
        (0x10, 0xA0)
    );
    // OR A clears the zero flag; 0xFFFF + 1 carries and leaves it clear.
    assert_eq!(
        alu(1, false, &[0xB7, 0x21, 0xFF, 0xFF, 0x11, 0x01, 0x00, 0x19, 0x7C]),
        (0x00, 0x30)
    );
    // INC DE past the end, DEC DE back
    let cpu = run(&[
        0x31, 0x00, 0xD0, 0x11, 0xFF, 0xFF, 0x13, 0xD5, 0x1B, 0xD5,
    ]);
    assert_eq!((byte(&cpu, 0xCFFF), byte(&cpu, 0xCFFE)), (0x00, 0x00));
    assert_eq!((byte(&cpu, 0xCFFD), byte(&cpu, 0xCFFC)), (0xFF, 0xFF));
}

#[test]
fn decimal_addition() {
    assert_eq!(alu(0x15, false, &[0xC6, 0x27, 0x27]), (0x42, 0x00));
    assert_eq!(alu(0x99, false, &[0xC6, 0x01, 0x27]), (0x00, 0x90));
    assert_eq!(alu(0x88, true, &[0xCE, 0x88, 0x27]), (0x77, 0x10));
    for a in 0..100u32 {
        for b in [0u32, 9, 37, 50, 99] {
            let bcd = |n: u32| ((n / 10) * 16 + n % 10) as u8;
            let (sum, flags) = alu(bcd(a), false, &[0xC6, bcd(b), 0x27]);
            assert_eq!(sum, bcd((a + b) % 100));
            assert_eq!(flags & 0x10 != 0, a + b >= 100);
        }
    }
}

#[test]
fn decimal_subtraction() {
    assert_eq!(alu(0x42, false, &[0xD6, 0x15, 0x27]), (0x27, 0x40));
    assert_eq!(alu(0x00, false, &[0xD6, 0x01, 0x27]), (0x99, 0x50));
    for a in 0..100u32 {
        for b in [0u32, 9, 37, 50, 99] {
            let bcd = |n: u32| ((n / 10) * 16 + n % 10) as u8;
            let (difference, flags) = alu(bcd(a), true, &[0xDE, bcd(b), 0x27]);
            assert_eq!(difference, bcd((a + 199 - b) % 100));
            assert_eq!(flags & 0x10 != 0, a < b + 1);
        }
    }
}

#[test]
fn complements_and_carry() {
    assert_eq!(alu(0x35, true, &[0x2F]).0, 0xCA);
    assert_eq!(alu(0x35, true, &[0x2F]).1 & 0x70, 0x70);
    assert_eq!(alu(0x35, true, &[0x2F, 0x2F]).0, 0x35);
    assert_eq!(alu(0x35, false, &[0x37]).1 & 0x70, 0x10);
    assert_eq!(alu(0x35, true, &[0x3F]).1 & 0x70, 0x00);
    assert_eq!(alu(0x35, true, &[0x3F, 0x3F]).1 & 0x70, 0x10);
}

#[test]
fn rotates_of_the_accumulator_clear_zero() {
    assert_eq!(alu(0x85, false, &[0x07]), (0x0B, 0x10));
    assert_eq!(alu(0x01, false, &[0x0F]), (0x80, 0x10));
    assert_eq!(alu(0x80, false, &[0x17]), (0x00, 0x10));
    assert_eq!(alu(0x80, true, &[0x17]), (0x01, 0x10));
    assert_eq!(alu(0x01, false, &[0x1F]), (0x00, 0x10));
    assert_eq!(alu(0x01, true, &[0x1F]), (0x80, 0x10));
}

#[test]
fn prefixed_rotates_and_shifts() {
    assert_eq!(alu(0x85, false, &[0xCB, 0x07]), (0x0B, 0x10));
    assert_eq!(alu(0x00, true, &[0xCB, 0x07]), (0x00, 0x80));
    assert_eq!(alu(0x01, false, &[0xCB, 0x0F]), (0x80, 0x10));
    assert_eq!(alu(0x80, false, &[0xCB, 0x17]), (0x00, 0x90));
    assert_eq!(alu(0x01, true, &[0xCB, 0x1F]), (0x80, 0x10));
    assert_eq!(alu(0xC1, true, &[0xCB, 0x27]), (0x82, 0x10));
    assert_eq!(alu(0x81, false, &[0xCB, 0x2F]), (0xC0, 0x10));
    assert_eq!(alu(0xA5, true, &[0xCB, 0x37]), (0x5A, 0x00));
    assert_eq!(alu(0x00, true, &[0xCB, 0x37]), (0x00, 0x80));
    assert_eq!(alu(0x81, false, &[0xCB, 0x3F]), (0x40, 0x10));
}

#[test]
fn rotating_back_and_swapping_twice() {
    for a in [0x00u8, 0x01, 0x80, 0xB4, 0xFF] {
        assert_eq!(alu(a, false, &[0xCB, 0x07, 0xCB, 0x0F]).0, a);
        assert_eq!(alu(a, true, &[0xCB, 0x17, 0xCB, 0x1F]).0, a);
        assert_eq!(alu(a, false, &[0xCB, 0x37, 0xCB, 0x37]).0, a);
    }
}

#[test]
fn single_bits() {
    // BIT 7,A and BIT 0,A keep the carry.
    assert_eq!(alu(0x80, true, &[0xCB, 0x7F]), (0x80, 0x30));
    assert_eq!(alu(0x80, true, &[0xCB, 0x47]), (0x80, 0xB0));
    // RES 7,A and SET 0,A
    assert_eq!(alu(0xFF, false, &[0xCB, 0xBF]).0, 0x7F);
    assert_eq!(alu(0x00, false, &[0xCB, 0xC7]).0, 0x01);
    // SET 3,(HL)
    let cpu = run(&[0x21, 0x10, 0xC0, 0xCB, 0xDE]);
    assert_eq!(byte(&cpu, 0xC010), 0x08);
}

// ---- Loads and the stack ----

#[test]
fn loads_through_pairs() {
    // LD HL,0xC000; LD A,0x11; LD (HL+),A; INC A; LD (HL-),A; LD A,(HL+);
    // LD (0xC010),A; LD A,(HL); LD (0xC011),A
    let cpu = run(&[
        0x21, 0x00, 0xC0, 0x3E, 0x11, 0x22, 0x3C, 0x32, 0x2A, 0xEA, 0x10, 0xC0, 0x7E, 0xEA, 0x11,
        0xC0,
    ]);
    assert_eq!(byte(&cpu, 0xC000), 0x11);
    assert_eq!(byte(&cpu, 0xC001), 0x12);
    assert_eq!(byte(&cpu, 0xC010), 0x11);
    assert_eq!(byte(&cpu, 0xC011), 0x12);
}

#[test]
fn loads_through_the_io_page() {
    // LD A,0x77; LDH (0x80),A; LD C,0x81; LD A,0x78; LD (C),A; LDH A,(0x80);
    // LD (0xC000),A; LD A,(C); LD (0xC001),A
    let cpu = run(&[
        0x3E, 0x77, 0xE0, 0x80, 0x0E, 0x81, 0x3E, 0x78, 0xE2, 0xF0, 0x80, 0xEA, 0x00, 0xC0, 0xF2,
        0xEA, 0x01, 0xC0,
    ]);
    assert_eq!(byte(&cpu, 0xFF80), 0x77);
    assert_eq!(byte(&cpu, 0xFF81), 0x78);
    assert_eq!(byte(&cpu, 0xC000), 0x77);
    assert_eq!(byte(&cpu, 0xC001), 0x78);
}

#[test]
fn loads_between_registers() {
    // LD B,0x5C; LD C,B; LD D,C; LD E,D; LD H,E; LD L,H; LD A,L
    assert_eq!(
        alu(0, false, &[0x06, 0x5C, 0x48, 0x51, 0x5A, 0x63, 0x6C, 0x7D]).0,
        0x5C
    );
}

#[test]
fn push_and_pop() {
    // LD SP,0xD000; LD BC,0x1234; PUSH BC; POP DE; PUSH DE
    let cpu = run(&[
        0x31, 0x00, 0xD0, 0x01, 0x34, 0x12, 0xC5, 0xD1, 0xD5,
    ]);
    assert_eq!((byte(&cpu, 0xCFFF), byte(&cpu, 0xCFFE)), (0x12, 0x34));
    // POP AF drops the low nibble of F: LD BC,0x12FF; PUSH BC; POP AF
    assert_eq!(
        af_after(&[0x01, 0xFF, 0x12, 0xC5, 0xF1]),
        (0x12, 0xF0)
    );
}

#[test]
fn call_and_return() {
    // 0x0100 LD SP,0xD000; 0x0103 CALL 0x010B; 0x0106 LD (0xC000),A; JR -2
    // 0x010B LD A,0x99; RET
    let mut cpu = cpu_with(&[
        0x31, 0x00, 0xD0, 0xCD, 0x0B, 0x01, 0xEA, 0x00, 0xC0, 0x18, 0xFE, 0x3E, 0x99, 0xC9,
    ]);
    for _ in 0..20 {
        cpu.step();
    }
    assert_eq!(byte(&cpu, 0xC000), 0x99);
    assert_eq!((byte(&cpu, 0xCFFF), byte(&cpu, 0xCFFE)), (0x01, 0x06));
}

#[test]
fn restart_goes_to_its_vector() {
    let mut rom = vec![0u8; 0x8000];
    rom[0x0100..0x0104].copy_from_slice(&[0x31, 0x00, 0xD0, 0xEF]);
    // 0x0028: LD A,0x28; LD (0xC000),A; JR -2
    rom[0x0028..0x002F].copy_from_slice(&[0x3E, 0x28, 0xEA, 0x00, 0xC0, 0x18, 0xFE]);
    let mut cpu = Cpu::new(Bus::new(Cartridge::load(rom), SAMPLE_RATE));
    for _ in 0..10 {
        cpu.step();
    }
    assert_eq!(byte(&cpu, 0xC000), 0x28);
    assert_eq!((byte(&cpu, 0xCFFF), byte(&cpu, 0xCFFE)), (0x01, 0x04));
}

#[test]
fn stack_pointer_offsets() {
    // LD SP,0xD0FF; LD HL,SP+1; LD A,H
    assert_eq!(
        af_after(&[0x31, 0xFF, 0xD0, 0xF8, 0x01, 0x7C, 0x31, 0x00, 0xD0]),
        (0xD1, 0x30)
    );
    // LD SP,0xD000; LD HL,SP-1; LD A,L
    assert_eq!(
        af_after(&[0xF8, 0xFF, 0x7D]),
        (0xFF, 0x00)
    );
    // ADD SP,-8 from 0xD008
    let cpu = run(&[0x31, 0x08, 0xD0, 0xE8, 0xF8, 0x08, 0x00, 0xC0]);
    assert_eq!((byte(&cpu, 0xC001), byte(&cpu, 0xC000)), (0xD0, 0x00));
}

// ---- Jumps ----

#[test]
fn relative_jumps_go_both_ways() {
    // 0x0100 JR +2; 0x0102 LD A,0x42; 0x0104 INC A ... skips the load.
    assert_eq!(af_after(&[0x3E, 0x01, 0x18, 0x02, 0x3E, 0x42, 0x3C]).0, 0x02);
    // LD B,5; loop: INC A; DEC B; JR NZ,loop
    assert_eq!(
        af_after(&[0x3E, 0x00, 0x06, 0x05, 0x3C, 0x05, 0x20, 0xFC]).0,
        0x05
    );
}

#[test]
fn jumps_through_memory_and_hl() {
    // 0x0100 LD HL,0x0109; JP (HL); 0x0104 LD A,0x13; JP 0x010C
    // 0x0109 JP 0x0104; 0x010C LD (0xC000),A; JR -2
    let mut cpu = cpu_with(&[
        0x21, 0x09, 0x01, 0xE9, 0x3E, 0x13, 0xC3, 0x0C, 0x01, 0xC3, 0x04, 0x01, 0xEA, 0x00, 0xC0,
        0x18, 0xFE,
    ]);
    for _ in 0..20 {
        cpu.step();
    }
    assert_eq!(byte(&cpu, 0xC000), 0x13);
}

#[test]
fn stop_skips_its_padding_byte() {
    // STOP with a padding byte that would increment A.
    assert_eq!(alu(0x01, false, &[0x10, 0x3C]).0, 0x01);
}

#[test]
fn unknown_opcodes_are_reported_and_skipped() {
    let mut cpu = cpu_with(&[0x3E, 0x05, 0xD3, 0xFD, 0xEA, 0x00, 0xC0, 0x18, 0xFE]);
    for _ in 0..5 {
        cpu.step();
    }
    assert_eq!(byte(&cpu, 0xC000), 0x05);
    assert_eq!(
        cpu.bus_mut().take_console(),
        vec![
            ConsoleEvent::UnknownOpcode(0xD3),
            ConsoleEvent::UnknownOpcode(0xFD)
        ]
    );
    assert!(cpu.bus_mut().take_console().is_empty());
}

// ---- Interrupts ----

/// A ROM whose handlers at 0x40 to 0x60 store their number in 0xC000 and
/// return with RETI.
fn cpu_with_handlers(code: &[u8]) -> Cpu {
    let mut rom = vec![0u8; 0x8000];
    for n in 0..5usize {
        let at = 0x40 + 8 * n;
        rom[at..at + 6].copy_from_slice(&[0x3E, n as u8 + 1, 0xEA, 0x00, 0xC0, 0xD9]);
    }
    for (i, value) in code.iter().enumerate() {
        rom[0x0100 + i] = *value;
    }
    Cpu::new(Bus::new(Cartridge::load(rom), SAMPLE_RATE))
}

#[test]
fn interrupts_go_by_priority() {
    // EI; NOP; NOP; ...
    let mut cpu = cpu_with_handlers(&[0xFB]);
    cpu.bus_mut().interrupt_enable = 0x1F;
    cpu.bus_mut().interrupt_flag = 0x14;
    cpu.step();
    cpu.step();
    assert_eq!(cpu.step(), 20);
    assert_eq!(cpu.bus().interrupt_flag, 0x10);
    cpu.step();
    cpu.step();
    assert_eq!(byte(&cpu, 0xC000), 3);
    // RETI switches the interrupts on at once, and the next one is taken.
    cpu.step();
    assert_eq!(cpu.step(), 20);
    assert_eq!(cpu.bus().interrupt_flag, 0x00);
    cpu.step();
    cpu.step();
    assert_eq!(byte(&cpu, 0xC000), 5);
}

#[test]
fn ei_takes_effect_after_the_next_instruction() {
    let mut cpu = cpu_with_handlers(&[0xFB, 0x3C, 0x3C]);
    cpu.bus_mut().interrupt_enable = 0x01;
    cpu.bus_mut().interrupt_flag = 0x01;
    assert_eq!(cpu.step(), 4);
    assert_eq!(cpu.step(), 4);
    assert_eq!(cpu.step(), 20);
    // The return address is behind the instruction that followed EI.
    assert_eq!((byte(&cpu, 0xFFFD), byte(&cpu, 0xFFFC)), (0x01, 0x02));
}

#[test]
fn a_second_ei_does_not_put_off_the_first() {
    let mut cpu = cpu_with_handlers(&[0xFB, 0xFB]);
    cpu.bus_mut().interrupt_enable = 0x01;
    cpu.bus_mut().interrupt_flag = 0x01;
    assert_eq!(cpu.step(), 4);
    assert_eq!(cpu.step(), 4);
    assert_eq!(cpu.step(), 20);
    assert_eq!((byte(&cpu, 0xFFFD), byte(&cpu, 0xFFFC)), (0x01, 0x02));
    // The handler of VBlank runs.
    cpu.step();
    cpu.step();
    assert_eq!(byte(&cpu, 0xC000), 1);
}

#[test]
fn di_takes_back_a_pending_ei() {
    let mut cpu = cpu_with_handlers(&[0xFB, 0xF3]);
    cpu.bus_mut().interrupt_enable = 0x01;
    cpu.bus_mut().interrupt_flag = 0x01;
    for _ in 0..10 {
        assert_eq!(cpu.step(), 4);
    }
    assert_eq!(cpu.bus().interrupt_flag, 0x01);
}

#[test]
fn disabled_interrupts_stay_pending() {
    let mut cpu = cpu_with_handlers(&[0xFB]);
    cpu.bus_mut().interrupt_enable = 0x02;
    cpu.bus_mut().interrupt_flag = 0x1D;
    for _ in 0..10 {
        assert_eq!(cpu.step(), 4);
    }
    assert_eq!(cpu.bus().interrupt_flag, 0x1D);
}

#[test]
fn halt_waits_for_an_interrupt() {
    // HALT; INC A; LD (0xC000),A
    let mut cpu = cpu_with_handlers(&[0x76, 0x3C, 0xEA, 0x00, 0xC0, 0x18, 0xFE]);
    cpu.bus_mut().interrupt_enable = 0x04;
    for _ in 0..50 {
        assert_eq!(cpu.step(), 4);
    }
    assert_eq!(byte(&cpu, 0xC000), 0x00);
    // With the master enable off the interrupt only ends the wait.
    cpu.bus_mut().request_interrupt(2);
    for _ in 0..5 {
        cpu.step();
    }
    assert_eq!(byte(&cpu, 0xC000), 0x02);
    assert_eq!(cpu.bus().interrupt_flag, 0x04);
}

#[test]
fn halt_ends_in_the_handler() {
    // EI; HALT; LD B,A; JR -2
    let mut cpu = cpu_with_handlers(&[0xFB, 0x76, 0x18, 0xFE]);
    cpu.bus_mut().interrupt_enable = 0x10;
    for _ in 0..20 {
        assert_eq!(cpu.step(), 4);
    }
    cpu.bus_mut().request_interrupt(4);
    assert_eq!(cpu.step(), 20);
    cpu.step();
    cpu.step();
    assert_eq!(byte(&cpu, 0xC000), 5);
    // RETI goes on behind HALT.
    assert_eq!(cpu.step(), 16);
    assert_eq!(cpu.step(), 12);
}

#[test]
fn the_timer_wakes_a_halted_processor() {
    // LD A,5; LDH (0x07),A; LD A,0xF0; LDH (0x05),A; EI; HALT
    let mut cpu = cpu_with_handlers(&[
        0x3E, 0x05, 0xE0, 0x07, 0x3E, 0xF0, 0xE0, 0x05, 0xFB, 0x76, 0x18, 0xFE,
    ]);
    cpu.bus_mut().interrupt_enable = 0x04;
    for _ in 0..200 {
        cpu.step();
    }
    assert_eq!(byte(&cpu, 0xC000), 3);
}

#[test]
fn the_rom_stays_as_it_was_loaded() {
    // LD HL,0x0000; LD (HL),0x55; LD (HL+),A; ...
    let cpu = run(&[0x21, 0x00, 0x00, 0x36, 0x55, 0x22, 0x22]);
    for address in 0..4u16 {
        assert_eq!(byte(&cpu, address), 0x00);
    }
}

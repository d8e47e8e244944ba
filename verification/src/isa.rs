//! The instruction set: what every opcode does to the registers and to memory,
//! and how many T-cycles it takes.
//!
//! An opcode is read as octal digits: the block in bits 6 and 7, `y` in bits 3
//! to 5 and `z` in bits 0 to 2.

use vstd::prelude::*;

use crate::bits::{bit, high_byte, low_byte, signed, word};
use crate::bus::{bus_read, bus_write, BusState, ConsoleEvent};

verus! {

/// The state of the processor and of the bus it is connected to.
pub struct CpuState {
    pub a: u8,
    pub f: u8,
    pub b: u8,
    pub c: u8,
    pub d: u8,
    pub e: u8,
    pub h: u8,
    pub l: u8,
    pub pc: u16,
    pub sp: u16,
    pub halted: bool,
    /// The interrupt master enable.
    pub ime: bool,
    /// Steps until a pending EI takes effect; 0 where none is pending.
    pub ime_delay: u8,
    pub bus: BusState,
}

impl CpuState {
    /// The lower four bits of F are always 0.
    pub open spec fn wf(self) -> bool {
        &&& self.f % 16 == 0
        &&& self.ime_delay <= 2
        &&& self.bus.wf()
    }
}

// ---- Flags ----

pub open spec fn flag_z(f: u8) -> bool {
    bit(f, 7)
}

pub open spec fn flag_n(f: u8) -> bool {
    bit(f, 6)
}

pub open spec fn flag_h(f: u8) -> bool {
    bit(f, 5)
}

pub open spec fn flag_c(f: u8) -> bool {
    bit(f, 4)
}

/// The flag register with the given zero, subtract, half-carry and carry
/// flags.
pub open spec fn pack_flags(z: bool, n: bool, h: bool, c: bool) -> u8 {
    (if z {
        0x80u8
    } else {
        0u8
    }) | (if n {
        0x40u8
    } else {
        0u8
    }) | (if h {
        0x20u8
    } else {
        0u8
    }) | (if c {
        0x10u8
    } else {
        0u8
    })
}

/// The carry flag as a number.
pub open spec fn carry(f: u8) -> int {
    if flag_c(f) {
        1
    } else {
        0
    }
}

// ---- Registers ----

/// A word moved by a distance of at most 65536 in either direction, wrapping
/// around at both ends.
pub open spec fn moved(w: u16, distance: int) -> u16 {
    if w + distance < 0 {
        (w + distance + 0x10000) as u16
    } else if w + distance >= 0x10000 {
        (w + distance - 0x10000) as u16
    } else {
        (w + distance) as u16
    }
}

pub open spec fn bc(s: CpuState) -> u16 {
    word(s.b, s.c)
}

pub open spec fn de(s: CpuState) -> u16 {
    word(s.d, s.e)
}

pub open spec fn hl(s: CpuState) -> u16 {
    word(s.h, s.l)
}

pub open spec fn af(s: CpuState) -> u16 {
    word(s.a, s.f)
}

pub open spec fn with_bc(s: CpuState, w: u16) -> CpuState {
    CpuState { b: high_byte(w), c: low_byte(w), ..s }
}

pub open spec fn with_de(s: CpuState, w: u16) -> CpuState {
    CpuState { d: high_byte(w), e: low_byte(w), ..s }
}

pub open spec fn with_hl(s: CpuState, w: u16) -> CpuState {
    CpuState { h: high_byte(w), l: low_byte(w), ..s }
}

/// POP AF drops the lower four bits of F.
pub open spec fn with_af(s: CpuState, w: u16) -> CpuState {
    CpuState { a: high_byte(w), f: (low_byte(w) - low_byte(w) % 16) as u8, ..s }
}

/// The register pairs in the order of their opcode field: BC, DE, HL, SP.
pub open spec fn pair(s: CpuState, p: int) -> u16 {
    if p == 0 {
        bc(s)
    } else if p == 1 {
        de(s)
    } else if p == 2 {
        hl(s)
    } else {
        s.sp
    }
}

pub open spec fn with_pair(s: CpuState, p: int, w: u16) -> CpuState {
    if p == 0 {
        with_bc(s, w)
    } else if p == 1 {
        with_de(s, w)
    } else if p == 2 {
        with_hl(s, w)
    } else {
        CpuState { sp: w, ..s }
    }
}

/// The operands in the order of their opcode field: B, C, D, E, H, L, (HL), A.
pub open spec fn operand(s: CpuState, i: int) -> u8 {
    if i == 0 {
        s.b
    } else if i == 1 {
        s.c
    } else if i == 2 {
        s.d
    } else if i == 3 {
        s.e
    } else if i == 4 {
        s.h
    } else if i == 5 {
        s.l
    } else if i == 6 {
        load(s, hl(s))
    } else {
        s.a
    }
}

pub open spec fn with_operand(s: CpuState, i: int, v: u8) -> CpuState {
    if i == 0 {
        CpuState { b: v, ..s }
    } else if i == 1 {
        CpuState { c: v, ..s }
    } else if i == 2 {
        CpuState { d: v, ..s }
    } else if i == 3 {
        CpuState { e: v, ..s }
    } else if i == 4 {
        CpuState { h: v, ..s }
    } else if i == 5 {
        CpuState { l: v, ..s }
    } else if i == 6 {
        store(s, hl(s), v)
    } else {
        CpuState { a: v, ..s }
    }
}

// ---- Memory ----

/// What the bus gives for an address, as [`bus_read`] defines it.
#[verifier::opaque]
pub open spec fn memory_read(bus: BusState, address: u16) -> u8 {
    bus_read(bus, address)
}

/// The bus after a write, as [`bus_write`] defines it.
#[verifier::opaque]
pub open spec fn memory_write(bus: BusState, address: u16, v: u8) -> BusState {
    bus_write(bus, address, v)
}

pub open spec fn load(s: CpuState, address: u16) -> u8 {
    memory_read(s.bus, address)
}

pub open spec fn store(s: CpuState, address: u16, v: u8) -> CpuState {
    CpuState { bus: memory_write(s.bus, address, v), ..s }
}

/// The byte at PC.
pub open spec fn imm8(s: CpuState) -> u8 {
    load(s, s.pc)
}

/// The word at PC, low byte first.
pub open spec fn imm16(s: CpuState) -> u16 {
    word(load(s, moved(s.pc, 1)), load(s, s.pc))
}

/// PC moved past `n` bytes.
pub open spec fn skip(s: CpuState, n: int) -> CpuState {
    CpuState { pc: moved(s.pc, n), ..s }
}

/// The word `w` pushed on the stack, high byte first.
pub open spec fn push(s: CpuState, w: u16) -> CpuState {
    let s1 = store(CpuState { sp: moved(s.sp, -1), ..s }, moved(s.sp, -1), high_byte(w));
    store(CpuState { sp: moved(s.sp, -2), ..s1 }, moved(s.sp, -2), low_byte(w))
}

/// The word on top of the stack.
pub open spec fn top(s: CpuState) -> u16 {
    word(load(s, moved(s.sp, 1)), load(s, s.sp))
}

/// The word on top of the stack dropped.
pub open spec fn drop_top(s: CpuState) -> CpuState {
    CpuState { sp: moved(s.sp, 2), ..s }
}

// ---- Arithmetic ----

/// A plus `v` plus a carry.
pub open spec fn add_a(s: CpuState, v: u8, carry_in: int) -> CpuState {
    let sum = s.a + v + carry_in;
    let result = (sum % 256) as u8;
    CpuState {
        a: result,
        f: pack_flags(result == 0, false, s.a % 16 + v % 16 + carry_in > 15, sum > 255),
        ..s
    }
}

/// A minus `v` minus a borrow.
pub open spec fn sub_a(s: CpuState, v: u8, carry_in: int) -> CpuState {
    let difference = s.a - v - carry_in;
    let result = (difference % 256) as u8;
    CpuState {
        a: result,
        f: pack_flags(result == 0, true, s.a % 16 < v % 16 + carry_in, difference < 0),
        ..s
    }
}

/// A replaced by a bitwise result.
pub open spec fn logic_a(s: CpuState, result: u8, half_carry: bool) -> CpuState {
    CpuState { a: result, f: pack_flags(result == 0, false, half_carry, false), ..s }
}

/// The eight operations on A: ADD, ADC, SUB, SBC, AND, XOR, OR, CP.
pub open spec fn alu(s: CpuState, operation: int, v: u8) -> CpuState {
    if operation == 0 {
        add_a(s, v, 0)
    } else if operation == 1 {
        add_a(s, v, carry(s.f))
    } else if operation == 2 {
        sub_a(s, v, 0)
    } else if operation == 3 {
        sub_a(s, v, carry(s.f))
    } else if operation == 4 {
        logic_a(s, s.a & v, true)
    } else if operation == 5 {
        logic_a(s, s.a ^ v, false)
    } else if operation == 6 {
        logic_a(s, s.a | v, false)
    } else {
        CpuState { a: s.a, ..sub_a(s, v, 0) }
    }
}

pub open spec fn inc_value(v: u8) -> u8 {
    ((v + 1) % 256) as u8
}

pub open spec fn dec_value(v: u8) -> u8 {
    ((v - 1) % 256) as u8
}

/// The flags after incrementing `v`.
pub open spec fn inc_flags(f: u8, v: u8) -> u8 {
    pack_flags(inc_value(v) == 0, false, v % 16 == 15, flag_c(f))
}

/// The flags after decrementing `v`.
pub open spec fn dec_flags(f: u8, v: u8) -> u8 {
    pack_flags(dec_value(v) == 0, true, v % 16 == 0, flag_c(f))
}

/// HL plus `v`. The zero flag stays.
pub open spec fn add_hl(s: CpuState, v: u16) -> CpuState {
    with_hl(
        CpuState {
            f: pack_flags(
                flag_z(s.f),
                false,
                hl(s) % 0x1000 + v % 0x1000 > 0xFFF,
                hl(s) + v > 0xFFFF,
            ),
            ..s
        },
        moved(hl(s), v as int),
    )
}

/// The flags of SP plus a signed byte: those of adding the byte, read as
/// unsigned, to the low byte of SP.
pub open spec fn sp_offset_flags(sp: u16, offset: u8) -> u8 {
    pack_flags(false, false, sp % 16 + offset % 16 > 15, sp % 256 + offset > 255)
}

/// The correction that makes A a decimal number after an addition or a
/// subtraction, and whether it carries.
pub open spec fn daa_correction(a: u8, f: u8) -> (int, bool) {
    let low: int = if flag_h(f) || (!flag_n(f) && a % 16 > 9) {
        0x06
    } else {
        0
    };
    let carries = flag_c(f) || (!flag_n(f) && a > 0x99);
    (low + (if carries {
        0x60int
    } else {
        0int
    }), carries)
}

/// A adjusted to a decimal number.
pub open spec fn daa(s: CpuState) -> CpuState {
    let (correction, carries) = daa_correction(s.a, s.f);
    let result = ((if flag_n(s.f) {
        s.a - correction
    } else {
        s.a + correction
    }) % 256) as u8;
    CpuState { a: result, f: pack_flags(result == 0, flag_n(s.f), false, carries), ..s }
}

/// The eight rotates and shifts, RLC, RRC, RL, RR, SLA, SRA, SWAP and SRL: the
/// result and the carry.
pub open spec fn rotate(operation: int, v: u8, carry_in: int) -> (u8, bool) {
    if operation == 0 {
        (((v * 2) % 256 + v / 128) as u8, v >= 128)
    } else if operation == 1 {
        ((v / 2 + (v % 2) * 128) as u8, v % 2 == 1)
    } else if operation == 2 {
        (((v * 2) % 256 + carry_in) as u8, v >= 128)
    } else if operation == 3 {
        ((v / 2 + carry_in * 128) as u8, v % 2 == 1)
    } else if operation == 4 {
        (((v * 2) % 256) as u8, v >= 128)
    } else if operation == 5 {
        ((v / 2 + (v / 128) * 128) as u8, v % 2 == 1)
    } else if operation == 6 {
        (((v % 16) * 16 + v / 16) as u8, false)
    } else {
        ((v / 2) as u8, v % 2 == 1)
    }
}

/// The flags after a rotate or shift.
pub open spec fn rotate_flags(operation: int, v: u8, carry_in: int) -> u8 {
    let (result, carry_out) = rotate(operation, v, carry_in);
    pack_flags(result == 0, false, false, carry_out)
}

// ---- Control flow ----

/// The conditions NZ, Z, NC and C.
pub open spec fn condition(s: CpuState, i: int) -> bool {
    if i == 0 {
        !flag_z(s.f)
    } else if i == 1 {
        flag_z(s.f)
    } else if i == 2 {
        !flag_c(s.f)
    } else {
        flag_c(s.f)
    }
}

/// A jump relative to the next instruction; the signed distance is the byte at
/// PC.
pub open spec fn jump_relative(s: CpuState) -> CpuState {
    let next = skip(s, 1);
    CpuState { pc: moved(next.pc, signed(imm8(s))), ..next }
}

/// A call: PC pushed, and execution goes on at `address`.
pub open spec fn call(s: CpuState, address: u16) -> CpuState {
    CpuState { pc: address, ..push(s, s.pc) }
}

/// A return to the address on top of the stack.
pub open spec fn ret(s: CpuState) -> CpuState {
    CpuState { pc: top(s), ..drop_top(s) }
}

/// An opcode that does not exist does nothing but be reported.
pub open spec fn unknown(s: CpuState, opcode: u8) -> CpuState {
    CpuState {
        bus: BusState {
            console: s.bus.console.push(ConsoleEvent::UnknownOpcode(opcode)),
            ..s.bus
        },
        ..s
    }
}

// ---- Opcodes ----

/// The accesses through BC, DE, HL with increment and HL with decrement: the
/// address, and the state with HL moved.
pub open spec fn indirect_address(s: CpuState, p: int) -> u16 {
    if p == 0 {
        bc(s)
    } else if p == 1 {
        de(s)
    } else {
        hl(s)
    }
}

pub open spec fn after_indirect(s: CpuState, p: int) -> CpuState {
    if p == 2 {
        with_hl(s, moved(hl(s), 1))
    } else if p == 3 {
        with_hl(s, moved(hl(s), -1))
    } else {
        s
    }
}

/// Operations on A and the flags: the four rotates of A, which always clear
/// the zero flag, DAA, CPL, SCF and CCF.
pub open spec fn accumulator_operation(s: CpuState, y: int) -> CpuState {
    if y < 4 {
        let (result, carry_out) = rotate(y, s.a, carry(s.f));
        CpuState { a: result, f: pack_flags(false, false, false, carry_out), ..s }
    } else if y == 4 {
        daa(s)
    } else if y == 5 {
        CpuState { a: (255 - s.a) as u8, f: pack_flags(flag_z(s.f), true, true, flag_c(s.f)), ..s }
    } else if y == 6 {
        CpuState { f: pack_flags(flag_z(s.f), false, false, true), ..s }
    } else {
        CpuState { f: pack_flags(flag_z(s.f), false, false, !flag_c(s.f)), ..s }
    }
}

/// NOP, LD (nn),SP, STOP and the relative jumps: the opcodes of block 0 with
/// `z` 0. PC stands behind the opcode, here and in what follows.
#[verifier::opaque]
pub open spec fn relative_jumps(s: CpuState, y: int) -> (CpuState, int) {
    if y == 0 {
        // NOP
        (s, 4)
    } else if y == 1 {
        // LD (nn),SP
        let stored = store(
            store(s, imm16(s), low_byte(s.sp)),
            moved(imm16(s), 1),
            high_byte(s.sp),
        );
        (skip(stored, 2), 20)
    } else if y == 2 {
        // STOP, with its padding byte
        (skip(s, 1), 4)
    } else if y == 3 || condition(s, y - 4) {
        // JR e and JR cc,e
        (jump_relative(s), 12)
    } else {
        (skip(s, 1), 8)
    }
}

/// LD rr,nn and ADD HL,rr: `z` is 1.
#[verifier::opaque]
pub open spec fn pair_loads(s: CpuState, y: int) -> (CpuState, int) {
    if y % 2 == 0 {
        (with_pair(skip(s, 2), y / 2, imm16(s)), 12)
    } else {
        (add_hl(s, pair(s, y / 2)), 8)
    }
}

/// LD (rr),A and LD A,(rr): `z` is 2.
#[verifier::opaque]
pub open spec fn indirect_loads(s: CpuState, y: int) -> (CpuState, int) {
    let p = y / 2;
    if y % 2 == 0 {
        (after_indirect(store(s, indirect_address(s, p), s.a), p), 8)
    } else {
        (after_indirect(CpuState { a: load(s, indirect_address(s, p)), ..s }, p), 8)
    }
}

/// INC rr and DEC rr: `z` is 3.
#[verifier::opaque]
pub open spec fn pair_steps(s: CpuState, y: int) -> (CpuState, int) {
    let p = y / 2;
    if y % 2 == 0 {
        (with_pair(s, p, moved(pair(s, p), 1)), 8)
    } else {
        (with_pair(s, p, moved(pair(s, p), -1)), 8)
    }
}

/// T-cycles of an instruction that takes `on_memory` with the operand (HL) and
/// `otherwise` with a register.
pub open spec fn operand_cycles(i: int, on_memory: int, otherwise: int) -> int {
    if i == 6 {
        on_memory
    } else {
        otherwise
    }
}

/// The opcodes 0x00 to 0x3F.
#[verifier::opaque]
pub open spec fn block0(s: CpuState, opcode: u8) -> (CpuState, int) {
    let y = opcode as int / 8;
    let z = opcode as int % 8;
    if z == 0 {
        relative_jumps(s, y)
    } else if z == 1 {
        pair_loads(s, y)
    } else if z == 2 {
        indirect_loads(s, y)
    } else if z == 3 {
        pair_steps(s, y)
    } else if z == 4 {
        // INC r
        let v = operand(s, y);
        (
            with_operand(CpuState { f: inc_flags(s.f, v), ..s }, y, inc_value(v)),
            operand_cycles(y, 12, 4),
        )
    } else if z == 5 {
        // DEC r
        let v = operand(s, y);
        (
            with_operand(CpuState { f: dec_flags(s.f, v), ..s }, y, dec_value(v)),
            operand_cycles(y, 12, 4),
        )
    } else if z == 6 {
        // LD r,n
        (with_operand(skip(s, 1), y, imm8(s)), operand_cycles(y, 12, 8))
    } else {
        (accumulator_operation(s, y), 4)
    }
}

/// The opcodes 0x40 to 0x7F: LD r,r' and HALT.
#[verifier::opaque]
pub open spec fn block1(s: CpuState, opcode: u8) -> (CpuState, int) {
    let y = (opcode as int / 8) % 8;
    let z = opcode as int % 8;
    if y == 6 && z == 6 {
        (CpuState { halted: true, ..s }, 4)
    } else {
        (with_operand(s, y, operand(s, z)), operand_cycles(y, 8, operand_cycles(z, 8, 4)))
    }
}

/// The opcodes 0x80 to 0xBF: operations on A with an operand.
#[verifier::opaque]
pub open spec fn block2(s: CpuState, opcode: u8) -> (CpuState, int) {
    let y = (opcode as int / 8) % 8;
    let z = opcode as int % 8;
    (alu(s, y, operand(s, z)), operand_cycles(z, 8, 4))
}

/// RET cc, the accesses to the I/O page and SP plus an offset: the opcodes of
/// block 3 with `z` 0.
#[verifier::opaque]
pub open spec fn returns_and_offsets(s: CpuState, y: int) -> (CpuState, int) {
    if y < 4 {
        // RET cc
        if condition(s, y) {
            (ret(s), 20)
        } else {
            (s, 8)
        }
    } else if y == 4 {
        // LDH (n),A
        (skip(store(s, (0xFF00 + imm8(s)) as u16, s.a), 1), 12)
    } else if y == 5 {
        // ADD SP,e
        (
            CpuState {
                sp: moved(s.sp, signed(imm8(s))),
                f: sp_offset_flags(s.sp, imm8(s)),
                ..skip(s, 1)
            },
            16,
        )
    } else if y == 6 {
        // LDH A,(n)
        (CpuState { a: load(s, (0xFF00 + imm8(s)) as u16), ..skip(s, 1) }, 12)
    } else {
        // LD HL,SP+e
        (
            with_hl(
                CpuState { f: sp_offset_flags(s.sp, imm8(s)), ..skip(s, 1) },
                moved(s.sp, signed(imm8(s))),
            ),
            12,
        )
    }
}

/// POP rr, RET, RETI, JP (HL) and LD SP,HL: `z` is 1.
#[verifier::opaque]
pub open spec fn pops(s: CpuState, y: int) -> (CpuState, int) {
    if y == 6 {
        // POP AF
        (with_af(drop_top(s), top(s)), 12)
    } else if y % 2 == 0 {
        // POP rr
        (with_pair(drop_top(s), y / 2, top(s)), 12)
    } else if y == 1 {
        // RET
        (ret(s), 16)
    } else if y == 3 {
        // RETI
        (CpuState { ime: true, ime_delay: 0, ..ret(s) }, 16)
    } else if y == 5 {
        // JP (HL)
        (CpuState { pc: hl(s), ..s }, 4)
    } else {
        // LD SP,HL
        (CpuState { sp: hl(s), ..s }, 8)
    }
}

/// JP cc,nn and the accesses through C and through an absolute address: `z` is
/// 2.
#[verifier::opaque]
pub open spec fn conditional_jumps(s: CpuState, y: int) -> (CpuState, int) {
    if y < 4 {
        // JP cc,nn
        if condition(s, y) {
            (CpuState { pc: imm16(s), ..s }, 16)
        } else {
            (skip(s, 2), 12)
        }
    } else if y == 4 {
        // LD (C),A
        (store(s, (0xFF00 + s.c) as u16, s.a), 8)
    } else if y == 5 {
        // LD (nn),A
        (skip(store(s, imm16(s), s.a), 2), 16)
    } else if y == 6 {
        // LD A,(C)
        (CpuState { a: load(s, (0xFF00 + s.c) as u16), ..s }, 8)
    } else {
        // LD A,(nn)
        (CpuState { a: load(s, imm16(s)), ..skip(s, 2) }, 16)
    }
}

/// JP nn, the prefix of the second table, DI and EI: `z` is 3.
#[verifier::opaque]
pub open spec fn jump_and_enable(s: CpuState, y: int) -> (CpuState, int) {
    if y == 0 {
        // JP nn
        (CpuState { pc: imm16(s), ..s }, 16)
    } else if y == 1 {
        prefixed(skip(s, 1), imm8(s))
    } else if y == 6 {
        // DI
        (CpuState { ime: false, ime_delay: 0, ..s }, 4)
    } else if y == 7 {
        // EI: one that is pending already keeps its time
        (
            CpuState {
                ime_delay: if s.ime_delay == 0 {
                    2
                } else {
                    s.ime_delay
                },
                ..s
            },
            4,
        )
    } else {
        (unknown(s, (0xC3 + 8 * y) as u8), 4)
    }
}

/// CALL cc,nn: `z` is 4.
#[verifier::opaque]
pub open spec fn conditional_calls(s: CpuState, y: int) -> (CpuState, int) {
    if y >= 4 {
        (unknown(s, (0xC4 + 8 * y) as u8), 4)
    } else if condition(s, y) {
        (call(skip(s, 2), imm16(s)), 24)
    } else {
        (skip(s, 2), 12)
    }
}

/// PUSH rr and CALL nn: `z` is 5.
#[verifier::opaque]
pub open spec fn pushes(s: CpuState, y: int) -> (CpuState, int) {
    if y == 6 {
        // PUSH AF
        (push(s, af(s)), 16)
    } else if y % 2 == 0 {
        // PUSH rr
        (push(s, pair(s, y / 2)), 16)
    } else if y == 1 {
        // CALL nn
        (call(skip(s, 2), imm16(s)), 24)
    } else {
        (unknown(s, (0xC5 + 8 * y) as u8), 4)
    }
}

/// The opcodes 0xC0 to 0xFF.
#[verifier::opaque]
pub open spec fn block3(s: CpuState, opcode: u8) -> (CpuState, int) {
    let y = (opcode as int / 8) % 8;
    let z = opcode as int % 8;
    if z == 0 {
        returns_and_offsets(s, y)
    } else if z == 1 {
        pops(s, y)
    } else if z == 2 {
        conditional_jumps(s, y)
    } else if z == 3 {
        jump_and_enable(s, y)
    } else if z == 4 {
        conditional_calls(s, y)
    } else if z == 5 {
        pushes(s, y)
    } else if z == 6 {
        // Operations on A with the next byte
        (alu(skip(s, 1), y, imm8(s)), 8)
    } else {
        // RST
        (call(s, (y * 8) as u16), 16)
    }
}

/// The opcodes behind the prefix 0xCB: rotates and shifts, BIT, RES and SET.
#[verifier::opaque]
pub open spec fn prefixed(s: CpuState, opcode: u8) -> (CpuState, int) {
    let y = (opcode as int / 8) % 8;
    let z = opcode as int % 8;
    let v = operand(s, z);
    if opcode < 0x40 {
        (
            with_operand(
                CpuState { f: rotate_flags(y, v, carry(s.f)), ..s },
                z,
                rotate(y, v, carry(s.f)).0,
            ),
            operand_cycles(z, 16, 8),
        )
    } else if opcode < 0x80 {
        (
            CpuState { f: pack_flags(!bit(v, y as u8), false, true, flag_c(s.f)), ..s },
            operand_cycles(z, 12, 8),
        )
    } else if opcode < 0xC0 {
        (with_operand(s, z, v & !(1u8 << (y as u8))), operand_cycles(z, 16, 8))
    } else {
        (with_operand(s, z, v | (1u8 << (y as u8))), operand_cycles(z, 16, 8))
    }
}

/// What an opcode does, and the T-cycles it takes.
pub open spec fn execute(s: CpuState, opcode: u8) -> (CpuState, int) {
    if opcode < 0x40 {
        block0(s, opcode)
    } else if opcode < 0x80 {
        block1(s, opcode)
    } else if opcode < 0xC0 {
        block2(s, opcode)
    } else {
        block3(s, opcode)
    }
}

} // verus!

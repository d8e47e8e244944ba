//! Laws of the instruction set: what each instruction does to the registers, to
//! the flags and to memory, written with the opcodes and addresses themselves.
//!
//! An address is a number modulo 65536, and the flags are digits of F: zero has
//! the weight 128, subtract 64, half-carry 32 and carry 16.

use vstd::prelude::*;

use crate::bits::{bit, law_bits, lemma_single_bit, signed, word};
use crate::bus::{bus_cycles, bus_read, bus_write, is_plain_ram, BusState, ConsoleEvent};
use crate::cpu::{cpu_step, lemma_pack_flags, lemma_some_pending};
use crate::cpu_laws::{law_push_pop, stack_in_ram};
use crate::isa::{
    add_hl, alu, block0, block1, block2, block3, call, carry, condition, conditional_calls,
    conditional_jumps, daa, dec_flags, dec_value, drop_top, execute, flag_c, flag_h, flag_n, flag_z,
    imm16, imm8, inc_flags, inc_value, indirect_loads, jump_and_enable, memory_read, memory_write,
    moved, operand, pack_flags, pair, pair_loads, pair_steps, pops, prefixed, push, pushes,
    relative_jumps, returns_and_offsets, rotate, skip, sp_offset_flags, top, unknown, with_operand,
    with_pair, CpuState,
};

verus! {

// ---- Vocabulary ----

/// An address, counted around the end of the address space.
pub open spec fn at(address: int) -> u16 {
    (address % 0x10000) as u16
}

/// The number 1 for true and 0 for false.
pub open spec fn one_if(b: bool) -> int {
    if b {
        1
    } else {
        0
    }
}

/// F with the given zero, subtract, half-carry and carry flags.
pub open spec fn flags(z: bool, n: bool, h: bool, c: bool) -> int {
    128 * one_if(z) + 64 * one_if(n) + 32 * one_if(h) + 16 * one_if(c)
}

/// Whether the flag of a weight is set in F.
pub open spec fn is_set(f: u8, weight: int) -> bool {
    (f as int / weight) % 2 == 1
}

// ---- Steps ----

/// A step that dispatches no interrupt, of a processor that is not halted or that
/// a pending interrupt wakes: it reads the opcode at PC, executes it with PC
/// behind it, and lets the bus run for the time it takes. A pending EI comes one
/// step closer first, and with its last step the master enable is on.
pub proof fn law_step_executes(s: CpuState)
    requires
        ({
            let pending = (s.bus.interrupt_flag & s.bus.interrupt_enable) & 0x1F;
            &&& !s.halted || pending != 0
            &&& pending == 0 || !s.ime && s.ime_delay != 1
        }),
    ensures
        ({
            let fetched = CpuState {
                pc: at(s.pc + 1),
                halted: false,
                ime: s.ime || s.ime_delay == 1,
                ime_delay: if s.ime_delay == 0 {
                    0
                } else {
                    (s.ime_delay - 1) as u8
                },
                ..s
            };
            let (done, cycles) = execute(fetched, memory_read(s.bus, s.pc));
            cpu_step(s) == (CpuState { bus: bus_cycles(done.bus, cycles as nat), ..done }, cycles)
        }),
{
    lemma_moved(s.pc, 1);
}

/// A halted processor without a pending interrupt waits: four T-cycles pass, and
/// but for a pending EI that counts on, nothing else changes.
pub proof fn law_halted_step(s: CpuState)
    requires
        s.halted,
        (s.bus.interrupt_flag & s.bus.interrupt_enable) & 0x1F == 0,
    ensures
        cpu_step(s) == (
            CpuState {
                ime: s.ime || s.ime_delay == 1,
                ime_delay: if s.ime_delay == 0 {
                    0
                } else {
                    (s.ime_delay - 1) as u8
                },
                bus: bus_cycles(s.bus, 4),
                ..s
            },
            4int,
        ),
{
}

/// Moving a word is arithmetic modulo 65536.
pub proof fn lemma_moved(w: u16, distance: int)
    requires
        -0x10000 <= distance <= 0x10000,
    ensures
        moved(w, distance) == at(w + distance),
{
}

/// Instructions read and write memory through the bus.
pub proof fn law_memory(bus: BusState, address: u16, v: u8)
    ensures
        memory_read(bus, address) == bus_read(bus, address),
        memory_write(bus, address, v) == bus_write(bus, address, v),
{
    reveal(memory_read);
    reveal(memory_write);
}

// ---- Flags, operands and immediates ----

/// The flags are digits of F.
pub proof fn law_flags(z: bool, n: bool, h: bool, c: bool, f: u8)
    ensures
        pack_flags(z, n, h, c) == flags(z, n, h, c),
        flag_z(f) == is_set(f, 128),
        flag_n(f) == is_set(f, 64),
        flag_h(f) == is_set(f, 32),
        flag_c(f) == is_set(f, 16),
        carry(f) == one_if(is_set(f, 16)),
{
    broadcast use lemma_pack_flags;

    law_bits(pack_flags(z, n, h, c));
    law_bits(f);
}

/// The operands of an opcode are B, C, D, E, H, L, the byte at HL and A.
pub proof fn law_operands(s: CpuState, v: u8)
    ensures
        operand(s, 0) == s.b,
        operand(s, 1) == s.c,
        operand(s, 2) == s.d,
        operand(s, 3) == s.e,
        operand(s, 4) == s.h,
        operand(s, 5) == s.l,
        operand(s, 6) == memory_read(s.bus, at(256 * s.h + s.l)),
        operand(s, 7) == s.a,
        with_operand(s, 0, v) == (CpuState { b: v, ..s }),
        with_operand(s, 1, v) == (CpuState { c: v, ..s }),
        with_operand(s, 2, v) == (CpuState { d: v, ..s }),
        with_operand(s, 3, v) == (CpuState { e: v, ..s }),
        with_operand(s, 4, v) == (CpuState { h: v, ..s }),
        with_operand(s, 5, v) == (CpuState { l: v, ..s }),
        with_operand(s, 6, v) == (CpuState {
            bus: memory_write(s.bus, at(256 * s.h + s.l), v),
            ..s
        }),
        with_operand(s, 7, v) == (CpuState { a: v, ..s }),
{
}

/// The register pairs of an opcode are BC, DE, HL and SP, with the first
/// register of a pair as its high byte.
pub proof fn law_pairs(s: CpuState, w: u16)
    ensures
        pair(s, 0) == 256 * s.b + s.c,
        pair(s, 1) == 256 * s.d + s.e,
        pair(s, 2) == 256 * s.h + s.l,
        pair(s, 3) == s.sp,
        with_pair(s, 0, w) == (CpuState { b: (w / 256) as u8, c: (w % 256) as u8, ..s }),
        with_pair(s, 1, w) == (CpuState { d: (w / 256) as u8, e: (w % 256) as u8, ..s }),
        with_pair(s, 2, w) == (CpuState { h: (w / 256) as u8, l: (w % 256) as u8, ..s }),
        with_pair(s, 3, w) == (CpuState { sp: w, ..s }),
{
}

/// The byte behind the opcode is the one at PC; a word there has its low byte
/// first.
pub proof fn law_immediates(s: CpuState, n: int)
    requires
        0 <= n <= 3,
    ensures
        imm8(s) == memory_read(s.bus, s.pc),
        imm16(s) == memory_read(s.bus, s.pc) + 256 * memory_read(s.bus, at(s.pc + 1)),
        skip(s, n) == (CpuState { pc: at(s.pc + n), ..s }),
{
    lemma_moved(s.pc, 1);
    lemma_moved(s.pc, n);
}

/// The conditions are zero clear, zero set, carry clear and carry set.
pub proof fn law_conditions(s: CpuState)
    ensures
        condition(s, 0) == !is_set(s.f, 128),
        condition(s, 1) == is_set(s.f, 128),
        condition(s, 2) == !is_set(s.f, 16),
        condition(s, 3) == is_set(s.f, 16),
{
    law_bits(s.f);
}

/// A push moves SP down by two and writes the high byte to the upper address
/// and the low byte to the lower one. A pop reads them there and moves SP up by
/// two.
pub proof fn law_stack(s: CpuState, w: u16)
    ensures
        push(s, w) == (CpuState {
            sp: at(s.sp - 2),
            bus: memory_write(
                memory_write(s.bus, at(s.sp - 1), (w / 256) as u8),
                at(s.sp - 2),
                (w % 256) as u8,
            ),
            ..s
        }),
        top(s) == memory_read(s.bus, s.sp) + 256 * memory_read(s.bus, at(s.sp + 1)),
        drop_top(s) == (CpuState { sp: at(s.sp + 2), ..s }),
{
    lemma_moved(s.sp, -1);
    lemma_moved(s.sp, -2);
    lemma_moved(s.sp, 1);
    lemma_moved(s.sp, 2);
}

// ---- Arithmetic ----

/// ADD and ADC: the result and the carry are the sum of A, the operand and, for
/// ADC, the carry. Half-carry is the carry out of the low nibbles.
pub proof fn law_add(s: CpuState, v: u8, with_carry: bool)
    ensures
        ({
            let t = alu(s, one_if(with_carry), v);
            let carry_in = if with_carry {
                one_if(is_set(s.f, 16))
            } else {
                0
            };
            let sum = s.a + v + carry_in;
            &&& t.a + 256 * one_if(sum >= 256) == sum
            &&& t.f == flags(t.a == 0, false, s.a % 16 + v % 16 + carry_in >= 16, sum >= 256)
            &&& t == (CpuState { a: t.a, f: t.f, ..s })
        }),
{
    law_bits(s.f);
    let t = alu(s, one_if(with_carry), v);
    let carry_in = if with_carry {
        one_if(is_set(s.f, 16))
    } else {
        0
    };
    law_flags(
        t.a == 0,
        false,
        s.a % 16 + v % 16 + carry_in >= 16,
        s.a + v + carry_in >= 256,
        s.f,
    );
}

/// SUB and SBC: the result less the borrow is A less the operand and, for SBC,
/// the carry. Half-carry is the borrow of the low nibbles. CP sets the flags of
/// SUB and keeps A.
#[verifier::rlimit(30)]
pub proof fn law_sub(s: CpuState, v: u8, with_carry: bool)
    ensures
        ({
            let t = alu(s, 2 + one_if(with_carry), v);
            let carry_in = if with_carry {
                one_if(is_set(s.f, 16))
            } else {
                0
            };
            let difference = s.a - v - carry_in;
            &&& t.a - 256 * one_if(difference < 0) == difference
            &&& t.f == flags(t.a == 0, true, s.a % 16 - v % 16 - carry_in < 0, difference < 0)
            &&& t == (CpuState { a: t.a, f: t.f, ..s })
        }),
        alu(s, 7, v) == (CpuState {
            f: flags(s.a == v, true, s.a % 16 < v % 16, s.a < v) as u8,
            ..s
        }),
{
    law_bits(s.f);
    let t = alu(s, 2 + one_if(with_carry), v);
    let carry_in = if with_carry {
        one_if(is_set(s.f, 16))
    } else {
        0
    };
    law_flags(
        t.a == 0,
        true,
        s.a % 16 - v % 16 - carry_in < 0,
        s.a - v - carry_in < 0,
        s.f,
    );
    law_flags(s.a == v, true, s.a % 16 < v % 16, s.a < v, s.f);
}

/// AND, XOR and OR combine the bits of A and of the operand one by one. Carry
/// and subtract are cleared, and half-carry is set by AND alone.
pub proof fn law_logic(s: CpuState, v: u8, n: u8)
    requires
        n < 8,
    ensures
        bit(alu(s, 4, v).a, n) == (bit(s.a, n) && bit(v, n)),
        bit(alu(s, 5, v).a, n) == (bit(s.a, n) != bit(v, n)),
        bit(alu(s, 6, v).a, n) == (bit(s.a, n) || bit(v, n)),
        alu(s, 4, v).f == flags(alu(s, 4, v).a == 0, false, true, false),
        alu(s, 5, v).f == flags(alu(s, 5, v).a == 0, false, false, false),
        alu(s, 6, v).f == flags(alu(s, 6, v).a == 0, false, false, false),
        forall|operation: int|
            4 <= operation <= 6 ==> #[trigger] alu(s, operation, v) == (CpuState {
                a: alu(s, operation, v).a,
                f: alu(s, operation, v).f,
                ..s
            }),
{
    let a = s.a;
    assert(bit(a & v, n) == (bit(a, n) && bit(v, n)) && bit(a ^ v, n) == (bit(a, n) != bit(v, n))
        && bit(a | v, n) == (bit(a, n) || bit(v, n))) by (bit_vector)
        requires
            n < 8,
    ;
    law_flags(alu(s, 4, v).a == 0, false, true, false, s.f);
    law_flags(alu(s, 5, v).a == 0, false, false, false, s.f);
    law_flags(alu(s, 6, v).a == 0, false, false, false, s.f);
}

/// ADD HL,rr: HL and the carry are the sum of HL and the pair. Half-carry is the
/// carry out of the low twelve bits, and zero stays.
pub proof fn law_add_hl(s: CpuState, w: u16)
    ensures
        ({
            let t = add_hl(s, w);
            let old_hl = 256 * s.h + s.l;
            &&& 256 * t.h + t.l + 0x10000 * one_if(old_hl + w >= 0x10000) == old_hl + w
            &&& t.f == flags(
                is_set(s.f, 128),
                false,
                old_hl % 0x1000 + w % 0x1000 >= 0x1000,
                old_hl + w >= 0x10000,
            )
            &&& t == (CpuState { h: t.h, l: t.l, f: t.f, ..s })
        }),
{
    let old_hl = 256 * s.h + s.l;
    law_flags(
        is_set(s.f, 128),
        false,
        old_hl % 0x1000 + w % 0x1000 >= 0x1000,
        old_hl + w >= 0x10000,
        s.f,
    );
    lemma_moved(word(s.h, s.l), w as int);
}

/// The rotates and shifts as equations between the operand, the result and the
/// carry before and after. RLC and RRC turn the eight bits, RL and RR the eight
/// bits and the carry. SLA and SRL shift a zero in, SRA repeats the sign, and
/// SWAP exchanges the nibbles.
pub proof fn law_rotates(v: u8, c: bool)
    ensures
        ({
            let (r, out) = rotate(0, v, one_if(c));
            2 * v == r + 255 * one_if(out)
        }),
        ({
            let (r, out) = rotate(1, v, one_if(c));
            2 * r == v + 255 * one_if(out)
        }),
        ({
            let (r, out) = rotate(2, v, one_if(c));
            2 * v + one_if(c) == r + 256 * one_if(out)
        }),
        ({
            let (r, out) = rotate(3, v, one_if(c));
            2 * r + one_if(out) == v + 256 * one_if(c)
        }),
        ({
            let (r, out) = rotate(4, v, one_if(c));
            2 * v == r + 256 * one_if(out)
        }),
        ({
            let (r, out) = rotate(5, v, one_if(c));
            2 * r + one_if(out) == v + 256 * one_if(v >= 128)
        }),
        ({
            let (r, out) = rotate(6, v, one_if(c));
            r / 16 == v % 16 && r % 16 == v / 16 && !out
        }),
        ({
            let (r, out) = rotate(7, v, one_if(c));
            2 * r + one_if(out) == v
        }),
        rotate(0, v, one_if(c)).1 == (v >= 128),
        rotate(1, v, one_if(c)).1 == (v % 2 == 1),
{
    if v < 128 {
        assert((v * 2) % 256 == v * 2);
    } else {
        assert((v * 2) % 256 == v * 2 - 256);
    }
}

/// DAA moves A by 6 for the low digit and by 0x60 for the high digit: down after
/// a subtraction and up otherwise. A digit is corrected where it carried, and
/// after an addition also where it exceeds nine. The carry stays or is set with
/// the correction of the high digit.
pub proof fn law_daa(s: CpuState)
    ensures
        ({
            let t = daa(s);
            let after_sub = is_set(s.f, 64);
            let low = is_set(s.f, 32) || (!after_sub && s.a % 16 >= 10);
            let high = is_set(s.f, 16) || (!after_sub && s.a >= 0x9A);
            let distance = 6 * one_if(low) + 0x60 * one_if(high);
            &&& t.a == (if after_sub {
                s.a - distance
            } else {
                s.a + distance
            }) % 256
            &&& t.f == flags(t.a == 0, after_sub, false, high)
            &&& t == (CpuState { a: t.a, f: t.f, ..s })
        }),
{
    law_bits(s.f);
    let after_sub = is_set(s.f, 64);
    let high = is_set(s.f, 16) || (!after_sub && s.a >= 0x9A);
    law_flags(daa(s).a == 0, after_sub, false, high, s.f);
}

/// SP plus a signed byte takes its half-carry and carry from adding the byte,
/// read as unsigned, to the low byte of SP. Zero and subtract are cleared.
pub proof fn law_sp_offset_flags(sp: u16, offset: u8)
    ensures
        sp_offset_flags(sp, offset) == flags(
            false,
            false,
            sp % 16 + offset % 16 >= 16,
            sp % 256 + offset >= 256,
        ),
{
    law_flags(false, false, sp % 16 + offset % 16 >= 16, sp % 256 + offset >= 256, 0);
}

// ---- The tables of opcodes ----

/// The opcodes 0x00 to 0x3F by their octal digits.
proof fn lemma_low_opcode(s: CpuState, y: int, z: int)
    requires
        0 <= y < 8,
        0 <= z < 8,
    ensures
        execute(s, (8 * y + z) as u8) == block0(s, (8 * y + z) as u8),
        (8 * y + z) / 8 == y,
        (8 * y + z) % 8 == z,
{
}

/// The opcodes 0xC0 to 0xFF by their octal digits.
proof fn lemma_high_opcode(s: CpuState, y: int, z: int)
    requires
        0 <= y < 8,
        0 <= z < 8,
    ensures
        execute(s, (0xC0 + 8 * y + z) as u8) == block3(s, (0xC0 + 8 * y + z) as u8),
        ((0xC0 + 8 * y + z) / 8) % 8 == y,
        (0xC0 + 8 * y + z) % 8 == z,
{
    assert((0xC0 + 8 * y + z) / 8 == 24 + y);
}

/// The groups of the opcodes 0x00 to 0x3F.
proof fn lemma_low_table(s: CpuState, y: int, z: int)
    requires
        0 <= y < 8,
        0 <= z < 4,
    ensures
        z == 0 ==> execute(s, (8 * y + z) as u8) == relative_jumps(s, y),
        z == 1 ==> execute(s, (8 * y + z) as u8) == pair_loads(s, y),
        z == 2 ==> execute(s, (8 * y + z) as u8) == indirect_loads(s, y),
        z == 3 ==> execute(s, (8 * y + z) as u8) == pair_steps(s, y),
{
    reveal(block0);
    lemma_low_opcode(s, y, z);
}

/// The groups of the opcodes 0xC0 to 0xFF.
proof fn lemma_high_table(s: CpuState, y: int, z: int)
    requires
        0 <= y < 8,
        0 <= z < 8,
    ensures
        z == 0 ==> execute(s, (0xC0 + 8 * y + z) as u8) == returns_and_offsets(s, y),
        z == 1 ==> execute(s, (0xC0 + 8 * y + z) as u8) == pops(s, y),
        z == 2 ==> execute(s, (0xC0 + 8 * y + z) as u8) == conditional_jumps(s, y),
        z == 3 ==> execute(s, (0xC0 + 8 * y + z) as u8) == jump_and_enable(s, y),
        z == 4 ==> execute(s, (0xC0 + 8 * y + z) as u8) == conditional_calls(s, y),
        z == 5 ==> execute(s, (0xC0 + 8 * y + z) as u8) == pushes(s, y),
        z == 6 ==> execute(s, (0xC0 + 8 * y + z) as u8) == (alu(skip(s, 1), y, imm8(s)), 8int),
        z == 7 ==> execute(s, (0xC0 + 8 * y + z) as u8) == (call(s, (8 * y) as u16), 16int),
{
    reveal(block3);
    lemma_high_opcode(s, y, z);
}

/// LD r,r' copies an operand to another and takes four T-cycles, or eight where
/// one of them is the byte at HL. LD r,n copies the byte behind the opcode in
/// eight T-cycles, or twelve to memory.
pub proof fn law_load_opcodes(s: CpuState, d: int, r: int)
    requires
        0 <= d < 8,
        0 <= r < 8,
    ensures
        d != 6 || r != 6 ==> execute(s, (0x40 + 8 * d + r) as u8) == (
            with_operand(s, d, operand(s, r)),
            if d == 6 || r == 6 {
                8int
            } else {
                4int
            },
        ),
        execute(s, (0x06 + 8 * d) as u8) == (
            with_operand(
                CpuState { pc: at(s.pc + 1), ..s },
                d,
                memory_read(s.bus, s.pc),
            ),
            if d == 6 {
                12int
            } else {
                8int
            },
        ),
{
    reveal(block0);
    reveal(block1);
    lemma_low_opcode(s, d, 6);
    assert((0x40 + 8 * d + r) / 8 == 8 + d);
    law_immediates(s, 1);
}

/// LD rr,nn loads the word behind the opcode. INC rr and DEC rr step a pair
/// around 65536 and leave the flags alone. ADD HL,rr adds a pair to HL.
pub proof fn law_pair_opcodes(s: CpuState, p: int)
    requires
        0 <= p < 4,
    ensures
        execute(s, (0x01 + 16 * p) as u8) == (
            with_pair(
                CpuState { pc: at(s.pc + 2), ..s },
                p,
                (memory_read(s.bus, s.pc) + 256 * memory_read(s.bus, at(s.pc + 1))) as u16,
            ),
            12int,
        ),
        execute(s, (0x03 + 16 * p) as u8) == (with_pair(s, p, at(pair(s, p) + 1)), 8int),
        execute(s, (0x0B + 16 * p) as u8) == (with_pair(s, p, at(pair(s, p) - 1)), 8int),
        execute(s, (0x09 + 16 * p) as u8) == (add_hl(s, pair(s, p)), 8int),
{
    lemma_low_table(s, 2 * p, 1);
    lemma_low_table(s, 2 * p, 3);
    lemma_low_table(s, 2 * p + 1, 3);
    lemma_low_table(s, 2 * p + 1, 1);
    law_immediates(s, 2);
    lemma_moved(pair(s, p), 1);
    lemma_moved(pair(s, p), -1);
    reveal(pair_loads);
    reveal(pair_steps);
}

/// INC r and DEC r change an operand by one around 256. Zero tells a result of
/// 0, half-carry a low nibble that wrapped, and carry stays. They take four
/// T-cycles, or twelve on the byte at HL.
pub proof fn law_step_opcodes(s: CpuState, r: int)
    requires
        0 <= r < 8,
    ensures
        ({
            let v = operand(s, r);
            let up = (v + 1) % 256;
            let down = (v - 1) % 256;
            let cycles = if r == 6 {
                12int
            } else {
                4int
            };
            let up_flags = flags(up == 0, false, up % 16 == 0, is_set(s.f, 16));
            let down_flags = flags(down == 0, true, down % 16 == 15, is_set(s.f, 16));
            &&& execute(s, (0x04 + 8 * r) as u8) == (
                with_operand(CpuState { f: up_flags as u8, ..s }, r, up as u8),
                cycles,
            )
            &&& execute(s, (0x05 + 8 * r) as u8) == (
                with_operand(CpuState { f: down_flags as u8, ..s }, r, down as u8),
                cycles,
            )
        }),
{
    let v = operand(s, r);
    lemma_byte_steps(v);
    let up = (v + 1) % 256;
    let down = (v - 1) % 256;
    law_flags(up == 0, false, up % 16 == 0, is_set(s.f, 16), s.f);
    law_flags(down == 0, true, down % 16 == 15, is_set(s.f, 16), s.f);
    assert(inc_flags(s.f, v) == flags(up == 0, false, up % 16 == 0, is_set(s.f, 16)));
    assert(dec_flags(s.f, v) == flags(down == 0, true, down % 16 == 15, is_set(s.f, 16)));
    lemma_step_opcodes(s, r);
}

/// Stepping a byte wraps its low nibble where a nibble is full or empty.
proof fn lemma_byte_steps(v: u8)
    ensures
        ((v + 1) % 256) % 16 == 0 <==> v % 16 == 15,
        ((v - 1) % 256) % 16 == 15 <==> v % 16 == 0,
{
    if v == 0 {
        assert((v - 1) % 256 == 255);
    } else {
        assert((v - 1) % 256 == v - 1);
    }
}

/// What the opcodes INC r and DEC r do.
proof fn lemma_step_opcodes(s: CpuState, r: int)
    requires
        0 <= r < 8,
    ensures
        ({
            let v = operand(s, r);
            let cycles = if r == 6 {
                12int
            } else {
                4int
            };
            &&& execute(s, (0x04 + 8 * r) as u8) == (
                with_operand(CpuState { f: inc_flags(s.f, v), ..s }, r, inc_value(v)),
                cycles,
            )
            &&& execute(s, (0x05 + 8 * r) as u8) == (
                with_operand(CpuState { f: dec_flags(s.f, v), ..s }, r, dec_value(v)),
                cycles,
            )
        }),
{
    lemma_low_opcode(s, r, 4);
    lemma_low_opcode(s, r, 5);
    reveal(block0);
}

/// LD (BC),A, LD (DE),A, LD (HL+),A and LD (HL-),A write A, and the four reverse
/// loads read it, each in eight T-cycles. The last two pairs then step HL.
#[verifier::rlimit(30)]
pub proof fn law_indirect_opcodes(s: CpuState)
    ensures
        ({
            let bc_at = at(256 * s.b + s.c);
            let de_at = at(256 * s.d + s.e);
            let hl_at = at(256 * s.h + s.l);
            let up = at(hl_at + 1);
            let down = at(hl_at - 1);
            let read = CpuState { a: memory_read(s.bus, hl_at), ..s };
            let written = CpuState { bus: memory_write(s.bus, hl_at, s.a), ..s };
            &&& execute(s, 0x02) == (
                CpuState { bus: memory_write(s.bus, bc_at, s.a), ..s },
                8int,
            )
            &&& execute(s, 0x12) == (
                CpuState { bus: memory_write(s.bus, de_at, s.a), ..s },
                8int,
            )
            &&& execute(s, 0x22) == (
                CpuState { h: (up / 256) as u8, l: (up % 256) as u8, ..written },
                8int,
            )
            &&& execute(s, 0x32) == (
                CpuState { h: (down / 256) as u8, l: (down % 256) as u8, ..written },
                8int,
            )
            &&& execute(s, 0x0A) == (CpuState { a: memory_read(s.bus, bc_at), ..s }, 8int)
            &&& execute(s, 0x1A) == (CpuState { a: memory_read(s.bus, de_at), ..s }, 8int)
            &&& execute(s, 0x2A) == (
                CpuState { h: (up / 256) as u8, l: (up % 256) as u8, ..read },
                8int,
            )
            &&& execute(s, 0x3A) == (
                CpuState { h: (down / 256) as u8, l: (down % 256) as u8, ..read },
                8int,
            )
        }),
{
    lemma_low_table(s, 0, 2);
    lemma_low_table(s, 1, 2);
    lemma_low_table(s, 2, 2);
    lemma_low_table(s, 3, 2);
    lemma_low_table(s, 4, 2);
    lemma_low_table(s, 5, 2);
    lemma_low_table(s, 6, 2);
    lemma_low_table(s, 7, 2);
    reveal(indirect_loads);
    lemma_moved(word(s.h, s.l), 1);
    lemma_moved(word(s.h, s.l), -1);
}

/// The loads through the I/O page, with the byte behind the opcode or C as the
/// low byte of the address, and those through the word behind the opcode. LD
/// (nn),SP writes the low byte of SP first.
pub proof fn law_direct_opcodes(s: CpuState)
    ensures
        ({
            let n = memory_read(s.bus, s.pc);
            let nn = (n + 256 * memory_read(s.bus, at(s.pc + 1))) as u16;
            let page = at(0xFF00 + n);
            let port = at(0xFF00 + s.c);
            let two = CpuState { pc: at(s.pc + 1), ..s };
            let three = CpuState { pc: at(s.pc + 2), ..s };
            let low_written = memory_write(s.bus, nn, (s.sp % 256) as u8);
            &&& execute(s, 0xE0) == (CpuState { bus: memory_write(s.bus, page, s.a), ..two }, 12int)
            &&& execute(s, 0xF0) == (CpuState { a: memory_read(s.bus, page), ..two }, 12int)
            &&& execute(s, 0xE2) == (CpuState { bus: memory_write(s.bus, port, s.a), ..s }, 8int)
            &&& execute(s, 0xF2) == (CpuState { a: memory_read(s.bus, port), ..s }, 8int)
            &&& execute(s, 0xEA) == (CpuState { bus: memory_write(s.bus, nn, s.a), ..three }, 16int)
            &&& execute(s, 0xFA) == (CpuState { a: memory_read(s.bus, nn), ..three }, 16int)
            &&& execute(s, 0x08) == (
                CpuState {
                    bus: memory_write(low_written, at(nn + 1), (s.sp / 256) as u8),
                    ..three
                },
                20int,
            )
        }),
{
    law_immediates(s, 1);
    law_immediates(s, 2);
    lemma_moved(imm16(s), 1);
    lemma_high_table(s, 4, 0);
    lemma_high_table(s, 6, 0);
    lemma_high_table(s, 4, 2);
    lemma_high_table(s, 5, 2);
    lemma_high_table(s, 6, 2);
    lemma_high_table(s, 7, 2);
    lemma_low_table(s, 1, 0);
    reveal(relative_jumps);
    reveal(returns_and_offsets);
    reveal(conditional_jumps);
}

/// ADD SP,e and LD HL,SP+e add the signed byte behind the opcode to SP, around
/// 65536, with the same flags. LD SP,HL copies HL, and leaves the flags alone.
pub proof fn law_stack_pointer_opcodes(s: CpuState)
    ensures
        ({
            let e = memory_read(s.bus, s.pc);
            let sum = at(s.sp + signed(e));
            let f = sp_offset_flags(s.sp, e);
            let next = CpuState { pc: at(s.pc + 1), f, ..s };
            &&& execute(s, 0xE8) == (CpuState { sp: sum, ..next }, 16int)
            &&& execute(s, 0xF8) == (
                CpuState { h: (sum / 256) as u8, l: (sum % 256) as u8, ..next },
                12int,
            )
            &&& execute(s, 0xF9) == (CpuState { sp: at(256 * s.h + s.l), ..s }, 8int)
        }),
{
    law_immediates(s, 1);
    lemma_moved(s.sp, signed(imm8(s)));
    lemma_high_table(s, 5, 0);
    lemma_high_table(s, 7, 0);
    lemma_high_table(s, 7, 1);
    reveal(returns_and_offsets);
    reveal(pops);
}

/// RLCA, RRCA, RLA and RRA rotate A as their prefixed forms do, but always clear
/// zero. DAA adjusts A. CPL turns every bit of A over and sets subtract and
/// half-carry. SCF sets the carry and CCF turns it over; both clear subtract and
/// half-carry. All take four T-cycles.
pub proof fn law_accumulator_opcodes(s: CpuState)
    ensures
        forall|k: int|
            0 <= k < 4 ==> #[trigger] execute(s, (0x07 + 8 * k) as u8) == (
                CpuState {
                    a: rotate(k, s.a, one_if(is_set(s.f, 16))).0,
                    f: flags(
                        false,
                        false,
                        false,
                        rotate(k, s.a, one_if(is_set(s.f, 16))).1,
                    ) as u8,
                    ..s
                },
                4int,
            ),
        execute(s, 0x27) == (daa(s), 4int),
        execute(s, 0x2F) == (
            CpuState {
                a: (255 - s.a) as u8,
                f: flags(is_set(s.f, 128), true, true, is_set(s.f, 16)) as u8,
                ..s
            },
            4int,
        ),
        execute(s, 0x37) == (
            CpuState { f: flags(is_set(s.f, 128), false, false, true) as u8, ..s },
            4int,
        ),
        execute(s, 0x3F) == (
            CpuState {
                f: flags(is_set(s.f, 128), false, false, !is_set(s.f, 16)) as u8,
                ..s
            },
            4int,
        ),
{
    reveal(block0);
    law_flags(is_set(s.f, 128), true, true, is_set(s.f, 16), s.f);
    law_flags(is_set(s.f, 128), false, false, true, s.f);
    law_flags(is_set(s.f, 128), false, false, !is_set(s.f, 16), s.f);
    assert forall|k: int| 0 <= k < 4 implies #[trigger] execute(s, (0x07 + 8 * k) as u8) == (
        CpuState {
            a: rotate(k, s.a, one_if(is_set(s.f, 16))).0,
            f: flags(false, false, false, rotate(k, s.a, one_if(is_set(s.f, 16))).1) as u8,
            ..s
        },
        4int,
    ) by {
        lemma_low_opcode(s, k, 7);
        law_flags(false, false, false, rotate(k, s.a, one_if(is_set(s.f, 16))).1, s.f);
    }
}

/// The eight operations on A take an operand, in four T-cycles or eight with the
/// byte at HL, or the byte behind the opcode, in eight.
pub proof fn law_alu_opcodes(s: CpuState, operation: int, r: int)
    requires
        0 <= operation < 8,
        0 <= r < 8,
    ensures
        execute(s, (0x80 + 8 * operation + r) as u8) == (
            alu(s, operation, operand(s, r)),
            if r == 6 {
                8int
            } else {
                4int
            },
        ),
        execute(s, (0xC6 + 8 * operation) as u8) == (
            alu(CpuState { pc: at(s.pc + 1), ..s }, operation, memory_read(s.bus, s.pc)),
            8int,
        ),
{
    lemma_high_table(s, operation, 6);
    law_immediates(s, 1);
    lemma_digits(2, operation, r);
    reveal(block2);
}

// ---- Control flow ----

/// JP nn goes to the word behind the opcode, and JP (HL) to HL. JR e goes to the
/// byte behind the instruction plus the signed byte behind the opcode.
pub proof fn law_jumps(s: CpuState)
    ensures
        ({
            let e = memory_read(s.bus, s.pc);
            let nn = (e + 256 * memory_read(s.bus, at(s.pc + 1))) as u16;
            &&& execute(s, 0xC3) == (CpuState { pc: nn, ..s }, 16int)
            &&& execute(s, 0xE9) == (CpuState { pc: at(256 * s.h + s.l), ..s }, 4int)
            &&& execute(s, 0x18) == (CpuState { pc: at(s.pc + 1 + signed(e)), ..s }, 12int)
        }),
{
    law_immediates(s, 1);
    lemma_moved(at(s.pc + 1), signed(imm8(s)));
    lemma_at_twice(s.pc + 1, signed(imm8(s)));
    lemma_low_table(s, 3, 0);
    lemma_high_table(s, 0, 3);
    lemma_high_table(s, 5, 1);
    reveal(relative_jumps);
    reveal(jump_and_enable);
    reveal(pops);
}

/// Moving an address twice is moving it by the sum.
proof fn lemma_at_twice(address: int, distance: int)
    requires
        0 <= address <= 0x20000,
        -0x10000 <= distance <= 0x10000,
    ensures
        at(at(address) + distance) == at(address + distance),
{
}

/// Where its condition holds, a conditional jump, call or return does what the
/// unconditional one does. Where it does not, the instruction is passed over:
/// PC goes on behind it and nothing else changes.
pub proof fn law_conditional_flow(s: CpuState, cc: int)
    requires
        0 <= cc < 4,
    ensures
        ({
            let holds = if cc == 0 {
                !is_set(s.f, 128)
            } else if cc == 1 {
                is_set(s.f, 128)
            } else if cc == 2 {
                !is_set(s.f, 16)
            } else {
                is_set(s.f, 16)
            };
            let jr = execute(s, (0x20 + 8 * cc) as u8);
            let jp = execute(s, (0xC2 + 8 * cc) as u8);
            let call_cc = execute(s, (0xC4 + 8 * cc) as u8);
            let ret_cc = execute(s, (0xC0 + 8 * cc) as u8);
            &&& holds ==> {
                &&& jr == (execute(s, 0x18).0, 12int)
                &&& jp == (execute(s, 0xC3).0, 16int)
                &&& call_cc == (execute(s, 0xCD).0, 24int)
                &&& ret_cc == (execute(s, 0xC9).0, 20int)
            }
            &&& !holds ==> {
                &&& jr == (CpuState { pc: at(s.pc + 1), ..s }, 8int)
                &&& jp == (CpuState { pc: at(s.pc + 2), ..s }, 12int)
                &&& call_cc == (CpuState { pc: at(s.pc + 2), ..s }, 12int)
                &&& ret_cc == (s, 8int)
            }
        }),
{
    law_conditions(s);
    law_immediates(s, 1);
    law_immediates(s, 2);
    lemma_low_table(s, 4 + cc, 0);
    lemma_low_table(s, 3, 0);
    lemma_high_table(s, cc, 2);
    lemma_high_table(s, 0, 3);
    lemma_high_table(s, cc, 4);
    lemma_high_table(s, 1, 5);
    lemma_high_table(s, cc, 0);
    lemma_high_table(s, 1, 1);
    reveal(relative_jumps);
    reveal(conditional_jumps);
    reveal(conditional_calls);
    reveal(returns_and_offsets);
    reveal(jump_and_enable);
    reveal(pushes);
    reveal(pops);
}

/// CALL nn goes to the word behind the opcode and RST to a multiple of eight.
/// Both push the address of the byte behind the instruction, high byte first.
/// RET goes to the word on top of the stack and drops it, and RETI also switches
/// the master enable on.
pub proof fn law_calls_and_returns(s: CpuState, k: int)
    requires
        0 <= k < 8,
    ensures
        ({
            let nn = (memory_read(s.bus, s.pc) + 256 * memory_read(s.bus, at(s.pc + 1))) as u16;
            let behind = at(s.pc + 2);
            let on_top = memory_read(s.bus, s.sp) + 256 * memory_read(s.bus, at(s.sp + 1));
            let returned = CpuState { pc: on_top as u16, sp: at(s.sp + 2), ..s };
            &&& execute(s, 0xCD) == (CpuState { pc: nn, ..push(s, behind) }, 24int)
            &&& execute(s, (0xC7 + 8 * k) as u8) == (
                CpuState { pc: (8 * k) as u16, ..push(s, s.pc) },
                16int,
            )
            &&& execute(s, 0xC9) == (returned, 16int)
            &&& execute(s, 0xD9) == (CpuState { ime: true, ime_delay: 0, ..returned }, 16int)
        }),
{
    law_immediates(s, 2);
    law_stack(s, s.pc);
    lemma_high_table(s, 1, 5);
    lemma_high_table(s, k, 7);
    lemma_high_table(s, 1, 1);
    lemma_high_table(s, 3, 1);
    reveal(pushes);
    reveal(pops);
}

/// PUSH rr pushes BC, DE, HL or AF and POP rr pops it, the first register as the
/// high byte. POP AF drops the low four bits of the byte that goes to F.
pub proof fn law_stack_opcodes(s: CpuState, p: int)
    requires
        0 <= p < 3,
    ensures
        ({
            let on_top = (memory_read(s.bus, s.sp) + 256 * memory_read(s.bus, at(s.sp + 1))) as u16;
            let dropped = CpuState { sp: at(s.sp + 2), ..s };
            &&& execute(s, (0xC5 + 16 * p) as u8) == (push(s, pair(s, p)), 16int)
            &&& execute(s, 0xF5) == (push(s, (256 * s.a + s.f) as u16), 16int)
            &&& execute(s, (0xC1 + 16 * p) as u8) == (with_pair(dropped, p, on_top), 12int)
            &&& execute(s, 0xF1) == (
                CpuState {
                    a: memory_read(s.bus, at(s.sp + 1)),
                    f: (16 * (memory_read(s.bus, s.sp) / 16)) as u8,
                    ..dropped
                },
                12int,
            )
        }),
{
    law_stack(s, s.pc);
    lemma_high_table(s, 2 * p, 5);
    lemma_high_table(s, 2 * p, 1);
    lemma_high_table(s, 6, 5);
    lemma_high_table(s, 6, 1);
    reveal(pushes);
    reveal(pops);
}

/// NOP does nothing, STOP passes over its second byte, HALT stops the processor,
/// DI switches the master enable off, and EI asks for it to be switched on. The
/// eleven opcodes that do not exist only report themselves.
pub proof fn law_control_opcodes(s: CpuState, opcode: u8)
    ensures
        execute(s, 0x00) == (s, 4int),
        execute(s, 0x10) == (CpuState { pc: at(s.pc + 1), ..s }, 4int),
        execute(s, 0x76) == (CpuState { halted: true, ..s }, 4int),
        execute(s, 0xF3) == (CpuState { ime: false, ime_delay: 0, ..s }, 4int),
        s.ime_delay == 0 ==> execute(s, 0xFB) == (CpuState { ime_delay: 2, ..s }, 4int),
        s.ime_delay != 0 ==> execute(s, 0xFB) == (s, 4int),
        opcode == 0xD3 || opcode == 0xDB || opcode == 0xDD || opcode == 0xE3 || opcode == 0xE4
            || opcode == 0xEB || opcode == 0xEC || opcode == 0xED || opcode == 0xF4 || opcode
            == 0xFC || opcode == 0xFD ==> execute(s, opcode) == (
            CpuState {
                bus: BusState {
                    console: s.bus.console.push(ConsoleEvent::UnknownOpcode(opcode)),
                    ..s.bus
                },
                ..s
            },
            4int,
        ),
{
    law_immediates(s, 1);
    lemma_low_table(s, 0, 0);
    lemma_low_table(s, 2, 0);
    assert(execute(s, 0x76) == (CpuState { halted: true, ..s }, 4int)) by {
        reveal(block1);
    }
    lemma_high_table(s, 6, 3);
    lemma_high_table(s, 7, 3);
    lemma_missing_opcodes(s);
    reveal(relative_jumps);
    reveal(jump_and_enable);
}

/// The opcodes that do not exist.
proof fn lemma_missing_opcodes(s: CpuState)
    ensures
        execute(s, 0xD3) == (unknown(s, 0xD3), 4int),
        execute(s, 0xDB) == (unknown(s, 0xDB), 4int),
        execute(s, 0xE3) == (unknown(s, 0xE3), 4int),
        execute(s, 0xEB) == (unknown(s, 0xEB), 4int),
        execute(s, 0xE4) == (unknown(s, 0xE4), 4int),
        execute(s, 0xEC) == (unknown(s, 0xEC), 4int),
        execute(s, 0xF4) == (unknown(s, 0xF4), 4int),
        execute(s, 0xFC) == (unknown(s, 0xFC), 4int),
        execute(s, 0xDD) == (unknown(s, 0xDD), 4int),
        execute(s, 0xED) == (unknown(s, 0xED), 4int),
        execute(s, 0xFD) == (unknown(s, 0xFD), 4int),
{
    lemma_high_table(s, 2, 3);
    lemma_high_table(s, 3, 3);
    lemma_high_table(s, 4, 3);
    lemma_high_table(s, 5, 3);
    reveal(jump_and_enable);
    lemma_high_table(s, 4, 4);
    lemma_high_table(s, 5, 4);
    lemma_high_table(s, 6, 4);
    lemma_high_table(s, 7, 4);
    reveal(conditional_calls);
    lemma_high_table(s, 3, 5);
    lemma_high_table(s, 5, 5);
    lemma_high_table(s, 7, 5);
    reveal(pushes);
}

/// The prefix 0xCB takes the byte behind it as the opcode of the second table:
/// eight rotates and shifts, with zero for a result of 0 and the carry that the
/// rotate gives; BIT, which reports a clear bit as zero and keeps the carry; RES
/// and SET, which leave the flags alone. A register takes eight T-cycles, the
/// byte at HL sixteen, or twelve for BIT.
pub proof fn law_prefixed_opcodes(s: CpuState, y: u8, r: int)
    requires
        y < 8,
        0 <= r < 8,
    ensures
        execute(s, 0xCB) == prefixed(CpuState { pc: at(s.pc + 1), ..s }, memory_read(s.bus, s.pc)),
        ({
            let v = operand(s, r);
            let (turned, out) = rotate(y as int, v, one_if(is_set(s.f, 16)));
            let cycles = if r == 6 {
                16int
            } else {
                8int
            };
            &&& prefixed(s, (8 * y + r) as u8) == (
                with_operand(
                    CpuState { f: flags(turned == 0, false, false, out) as u8, ..s },
                    r,
                    turned,
                ),
                cycles,
            )
            &&& prefixed(s, (0x40 + 8 * y + r) as u8) == (
                CpuState { f: flags(!bit(v, y), false, true, is_set(s.f, 16)) as u8, ..s },
                if r == 6 {
                    12int
                } else {
                    8int
                },
            )
            &&& prefixed(s, (0x80 + 8 * y + r) as u8) == (
                with_operand(s, r, v & !(1u8 << y)),
                cycles,
            )
            &&& prefixed(s, (0xC0 + 8 * y + r) as u8) == (
                with_operand(s, r, v | (1u8 << y)),
                cycles,
            )
        }),
{
    law_immediates(s, 1);
    let v = operand(s, r);
    let (turned, out) = rotate(y as int, v, one_if(is_set(s.f, 16)));
    law_flags(turned == 0, false, false, out, s.f);
    law_flags(!bit(v, y), false, true, is_set(s.f, 16), s.f);
    lemma_high_table(s, 1, 3);
    reveal(jump_and_enable);
    lemma_digits(0, y as int, r);
    lemma_digits(1, y as int, r);
    lemma_digits(2, y as int, r);
    lemma_digits(3, y as int, r);
    reveal(prefixed);
}

/// The octal digits of an opcode.
proof fn lemma_digits(x: int, y: int, z: int)
    requires
        0 <= x < 4,
        0 <= y < 8,
        0 <= z < 8,
    ensures
        ((64 * x + 8 * y + z) / 8) % 8 == y,
        (64 * x + 8 * y + z) % 8 == z,
{
    assert((64 * x + 8 * y + z) / 8 == 8 * x + y);
}

// ---- Calls, returns and interrupts ----

/// With the stack in RAM, a call goes to the word behind its opcode, and a RET
/// right after it continues three bytes past the address of the opcode, with SP
/// as it was. This holds of CALL nn, and of CALL cc,nn for every condition that
/// holds. RST goes to a multiple of eight, and its RET continues one byte past
/// the opcode. `s` stands at the opcode.
pub proof fn law_call_returns(s: CpuState, cc: int, k: int)
    requires
        s.wf(),
        is_plain_ram(at(s.sp - 1)),
        is_plain_ram(at(s.sp - 2)),
        0 <= cc < 4,
        0 <= k < 8,
    ensures
        ({
            let fetched = CpuState { pc: at(s.pc + 1), ..s };
            let nn = memory_read(s.bus, at(s.pc + 1)) + 256 * memory_read(s.bus, at(s.pc + 2));
            let holds = if cc == 0 {
                !is_set(s.f, 128)
            } else if cc == 1 {
                is_set(s.f, 128)
            } else if cc == 2 {
                !is_set(s.f, 16)
            } else {
                is_set(s.f, 16)
            };
            let called = execute(fetched, 0xCD).0;
            let called_cc = execute(fetched, (0xC4 + 8 * cc) as u8).0;
            let restarted = execute(fetched, (0xC7 + 8 * k) as u8).0;
            &&& called.pc == nn
            &&& called.sp == at(s.sp - 2)
            &&& execute(called, 0xC9).0.pc == at(s.pc + 3)
            &&& execute(called, 0xC9).0.sp == s.sp
            &&& holds ==> {
                &&& called_cc.pc == nn
                &&& called_cc.sp == at(s.sp - 2)
                &&& execute(called_cc, 0xC9).0.pc == at(s.pc + 3)
                &&& execute(called_cc, 0xC9).0.sp == s.sp
            }
            &&& !holds ==> called_cc == (CpuState { pc: at(s.pc + 3), ..s })
            &&& restarted.pc == 8 * k
            &&& execute(restarted, 0xC9).0.pc == at(s.pc + 1)
            &&& execute(restarted, 0xC9).0.sp == s.sp
        }),
{
    let fetched = CpuState { pc: at(s.pc + 1), ..s };
    lemma_at_twice(s.pc + 1, 1);
    lemma_at_twice(s.pc + 1, 2);
    law_conditional_flow(fetched, cc);
    law_calls_and_returns(fetched, k);
    lemma_moved(s.sp, -1);
    lemma_moved(s.sp, -2);
    lemma_return(fetched, at(fetched.pc + 2), execute(fetched, 0xCD).0);
    lemma_return(fetched, fetched.pc, execute(fetched, (0xC7 + 8 * k) as u8).0);
}

/// A RET after a push of `w`, wherever execution went in between.
proof fn lemma_return(s: CpuState, w: u16, t: CpuState)
    requires
        s.wf(),
        stack_in_ram(s),
        t == (CpuState { pc: t.pc, ..push(s, w) }),
    ensures
        t.sp == at(s.sp - 2),
        execute(t, 0xC9).0.pc == w,
        execute(t, 0xC9).0.sp == s.sp,
{
    law_push_pop(s, w);
    law_stack(s, w);
    law_stack(t, w);
    law_stack(push(s, w), w);
    law_calls_and_returns(t, 0);
}

/// With the master enable on, or with an EI that takes effect in this step, the
/// pending interrupt of the lowest bit is dispatched, in twenty T-cycles: VBlank
/// to 0x40, STAT to 0x48, the timer to 0x50, serial to 0x58 and the joypad to
/// 0x60. PC is pushed, and a HALT and the master enable end.
pub proof fn law_interrupt_vectors(s: CpuState)
    requires
        s.ime || s.ime_delay == 1,
        (s.bus.interrupt_flag & s.bus.interrupt_enable) & 0x1F != 0,
    ensures
        ({
            let p = (s.bus.interrupt_flag & s.bus.interrupt_enable) & 0x1F;
            let (t, cycles) = cpu_step(s);
            &&& p % 2 == 1 ==> t.pc == 0x40
            &&& p % 4 == 2 ==> t.pc == 0x48
            &&& p % 8 == 4 ==> t.pc == 0x50
            &&& p % 16 == 8 ==> t.pc == 0x58
            &&& p % 16 == 0 ==> t.pc == 0x60
            &&& t.sp == at(s.sp - 2)
            &&& !t.halted
            &&& !t.ime
            &&& cycles == 20
            &&& t == (CpuState {
                pc: t.pc,
                sp: t.sp,
                halted: t.halted,
                ime: t.ime,
                ime_delay: if s.ime_delay == 0 {
                    0
                } else {
                    (s.ime_delay - 1) as u8
                },
                bus: t.bus,
                ..s
            })
        }),
{
    let p = (s.bus.interrupt_flag & s.bus.interrupt_enable) & 0x1F;
    lemma_some_pending(p, s.bus.interrupt_flag & s.bus.interrupt_enable);
    law_bits(p);
    lemma_moved(s.sp, -2);
}

/// What a dispatch leaves on the bus: the pending bit of its own interrupt is
/// cleared and no other, PC is on the stack, and twenty T-cycles have passed.
pub proof fn law_interrupt_acknowledge(s: CpuState, n: u8, m: u8)
    requires
        s.ime || s.ime_delay == 1,
        (s.bus.interrupt_flag & s.bus.interrupt_enable) & 0x1F != 0,
        n < 5,
        m < 8,
        cpu_step(s).0.pc == 0x40 + 8 * n,
    ensures
        ({
            let cleared = (s.bus.interrupt_flag & !(1u8 << n)) as u8;
            let bus = BusState { interrupt_flag: cleared, ..s.bus };
            &&& bit(cleared, m) == (m != n && bit(s.bus.interrupt_flag, m))
            &&& cpu_step(s).0.bus == bus_cycles(push(CpuState { bus, ..s }, s.pc).bus, 20)
        }),
{
    let p = (s.bus.interrupt_flag & s.bus.interrupt_enable) & 0x1F;
    lemma_some_pending(p, s.bus.interrupt_flag & s.bus.interrupt_enable);
    law_bits(p);
    lemma_single_bit(s.bus.interrupt_flag, n, m);
}

} // verus!

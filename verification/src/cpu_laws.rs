//! Laws of the processor: what holds of its instructions and of its steps in
//! every state.

use vstd::prelude::*;

use crate::bits::{bit, high_byte, lemma_bytes_word, lemma_single_bit, lemma_word_bytes, low_byte};
use crate::bus::{
    acknowledged, is_plain_ram, law_div_counts, law_ram_read_back, law_ram_write_is_local,
    law_rom_is_constant, lemma_bus_cycles_wf, lemma_bus_write_wf, lemma_timer_cycles_frame,
    pending_interrupts, BusState, ConsoleEvent,
};
use crate::cpu::{
    count_down_ei, cpu_step, dispatch, elapse, highest_priority, interrupt_vector, interrupts,
    lemma_pack_flags, lemma_some_pending,
};
use crate::isa::{
    accumulator_operation, add_a, af, alu, block0, block1, block2, block3, call, carry, condition,
    conditional_calls, conditional_jumps, daa, dec_value, drop_top, execute, flag_c, flag_z, hl,
    imm16, imm8, inc_value, indirect_address, indirect_loads, jump_and_enable, memory_read,
    memory_write, moved, operand, pack_flags, pair, pair_loads, pair_steps, pops, prefixed, push,
    pushes, relative_jumps, ret, returns_and_offsets, rotate, rotate_flags, skip, sub_a, top,
    unknown, with_operand, with_pair, CpuState,
};

verus! {

// ---- The stack ----

/// Whether the two bytes below the stack pointer are plain RAM.
pub open spec fn stack_in_ram(s: CpuState) -> bool {
    is_plain_ram(moved(s.sp, -1)) && is_plain_ram(moved(s.sp, -2))
}

/// With the stack in RAM, popping gives back what was pushed and leaves the
/// registers as they were before.
pub proof fn law_push_pop(s: CpuState, w: u16)
    requires
        s.wf(),
        stack_in_ram(s),
    ensures
        top(push(s, w)) == w,
        drop_top(push(s, w)) == (CpuState { bus: push(s, w).bus, ..s }),
{
    reveal(memory_read);
    reveal(memory_write);
    let high_at = moved(s.sp, -1);
    let low_at = moved(s.sp, -2);
    let b1 = memory_write(s.bus, high_at, high_byte(w));
    lemma_bus_write_wf(s.bus, high_at, high_byte(w));
    law_ram_read_back(s.bus, high_at, high_at, high_byte(w));
    law_ram_write_is_local(b1, low_at, high_at, low_byte(w));
    law_ram_read_back(b1, low_at, low_at, low_byte(w));
    assert(push(s, w).sp == low_at);
    assert(moved(low_at, 1) == high_at);
    lemma_bytes_word(w);
}

/// With the stack in RAM, a return comes back to where the call was made, with
/// the stack pointer of before.
pub proof fn law_call_ret(s: CpuState, address: u16)
    requires
        s.wf(),
        stack_in_ram(s),
    ensures
        call(s, address).pc == address,
        ret(call(s, address)) == (CpuState { bus: push(s, s.pc).bus, ..s }),
{
    law_push_pop(s, s.pc);
    assert(memory_same(call(s, address), push(s, s.pc)));
}

spec fn memory_same(s: CpuState, t: CpuState) -> bool {
    s.bus == t.bus && s.sp == t.sp && top(s) == top(t)
}

/// With the stack in RAM, POP AF gives back the A and the flags that PUSH AF
/// saved.
pub proof fn law_push_pop_af(s: CpuState)
    requires
        s.wf(),
        stack_in_ram(s),
    ensures
        ({
            let pushed = pushes(s, 6).0;
            pops(pushed, 6).0 == (CpuState { bus: pushed.bus, ..s })
        }),
{
    reveal(pushes);
    reveal(pops);
    law_push_pop(s, af(s));
    lemma_word_bytes(s.a, s.f);
}

// ---- Interrupts ----

/// The interrupt dispatched first is pending, and none below it is.
pub proof fn law_interrupt_priority(bus: BusState, m: u8)
    requires
        pending_interrupts(bus) != 0,
    ensures
        highest_priority(pending_interrupts(bus)) < 5,
        bit(pending_interrupts(bus), highest_priority(pending_interrupts(bus))),
        m < highest_priority(pending_interrupts(bus)) ==> !bit(pending_interrupts(bus), m),
{
    let f = bus.interrupt_flag & bus.interrupt_enable;
    let p = f & 0x1F;
    assert(p == pending_interrupts(bus));
    lemma_some_pending(p, f);
}

/// An interrupt is dispatched exactly where the master enable is on and an
/// enabled interrupt is pending. The dispatch ends a HALT, switches the master
/// enable off, and goes to the handler of the interrupt.
pub proof fn law_dispatch(s: CpuState)
    ensures
        interrupts(s).1 <==> s.ime && pending_interrupts(s.bus) != 0,
        interrupts(s).1 ==> {
            &&& !interrupts(s).0.halted
            &&& !interrupts(s).0.ime
            &&& interrupts(s).0.pc == interrupt_vector(
                highest_priority(pending_interrupts(s.bus)),
            )
            &&& interrupts(s).0.sp == moved(s.sp, -2)
        },
{
}

/// With the stack in RAM, a dispatch clears its own pending bit and saves the
/// program counter: the handler's RETI continues where the program was
/// interrupted, with the master enable on.
pub proof fn law_interrupt_return(s: CpuState, n: u8)
    requires
        s.wf(),
        stack_in_ram(s),
    ensures
        dispatch(s, n).bus.interrupt_flag == s.bus.interrupt_flag & !(1u8 << n),
        ({
            let back = pops(dispatch(s, n), 3).0;
            &&& back.pc == s.pc
            &&& back.sp == s.sp
            &&& back.ime
        }),
{
    reveal(pops);
    let quiet = CpuState {
        halted: false,
        ime: false,
        bus: acknowledged(s.bus, n),
        ..s
    };
    law_call_ret(quiet, interrupt_vector(n));
    reveal(memory_write);
}

/// A halted processor without a pending interrupt only lets time pass: four
/// T-cycles, all registers unchanged. An EI that is pending counts on.
pub proof fn law_halt_waits(s: CpuState)
    requires
        s.halted,
        pending_interrupts(s.bus) == 0,
    ensures
        cpu_step(s) == (elapse(count_down_ei(s), 4), 4int),
        s.ime_delay == 0 ==> cpu_step(s) == (elapse(s, 4), 4int),
{
}

/// A pending interrupt ends a HALT even with the master enable off: the
/// processor executes the next instruction.
pub proof fn law_halt_wakes(s: CpuState)
    requires
        s.halted,
        !count_down_ei(s).ime,
        pending_interrupts(s.bus) != 0,
    ensures
        ({
            let awake = CpuState { halted: false, ..count_down_ei(s) };
            &&& interrupts(count_down_ei(s)) == (awake, false)
            &&& cpu_step(s).0 == elapse(
                execute(skip(awake, 1), imm8(awake)).0,
                execute(skip(awake, 1), imm8(awake)).1,
            )
        }),
{
}

/// EI takes effect after the instruction that follows it: the step after EI
/// dispatches no interrupt, and in the step after that one the master enable
/// is on, so that a pending interrupt is dispatched. This holds whatever the
/// instruction between is, another EI as well; DI alone takes the EI back.
pub proof fn law_ei_delay(s: CpuState)
    requires
        !s.ime,
        s.ime_delay == 0,
        !s.halted,
        imm8(s) == 0xFB,
    ensures
        ({
            let after_ei = cpu_step(s).0;
            let after_next = cpu_step(after_ei).0;
            &&& cpu_step(s).1 == 4
            &&& !after_ei.ime
            &&& !interrupts(count_down_ei(after_ei)).1
            &&& imm8(after_ei) != 0xF3 ==> {
                &&& count_down_ei(after_next).ime
                &&& pending_interrupts(after_next.bus) != 0 ==> cpu_step(after_next) == (
                    elapse(
                        dispatch(
                            count_down_ei(after_next),
                            highest_priority(pending_interrupts(after_next.bus)),
                        ),
                        20,
                    ),
                    20int,
                )
            }
            &&& imm8(after_ei) == 0xF3 ==> !count_down_ei(after_next).ime
        }),
{
    lemma_step_of_ei(s);
    let after_ei = cpu_step(s).0;
    let ready = interrupts(count_down_ei(after_ei)).0;
    let opcode = imm8(ready);
    assert(opcode == imm8(after_ei));
    lemma_enable_opcodes(skip(ready, 1));
    if opcode != 0xFB && opcode != 0xF3 && opcode != 0xD9 {
        lemma_enable_kept(skip(ready, 1), opcode);
    }
}

/// The step that executes an EI.
proof fn lemma_step_of_ei(s: CpuState)
    requires
        !s.ime,
        s.ime_delay == 0,
        !s.halted,
        imm8(s) == 0xFB,
    ensures
        cpu_step(s).1 == 4,
        !cpu_step(s).0.ime,
        cpu_step(s).0.ime_delay == 2,
        !cpu_step(s).0.halted,
{
    lemma_enable_opcodes(skip(s, 1));
}

/// EI followed by EI: the second one does not put off the first. After both,
/// a pending interrupt is dispatched in the next step.
pub proof fn law_ei_after_ei(s: CpuState)
    requires
        !s.ime,
        s.ime_delay == 0,
        !s.halted,
        imm8(s) == 0xFB,
        imm8(cpu_step(s).0) == 0xFB,
        pending_interrupts(cpu_step(cpu_step(s).0).0.bus) != 0,
    ensures
        ({
            let first = cpu_step(s);
            let second = cpu_step(first.0);
            let third = cpu_step(second.0);
            &&& first.1 == 4
            &&& second.1 == 4
            &&& third.1 == 20
            &&& third.0.pc == interrupt_vector(
                highest_priority(pending_interrupts(second.0.bus)),
            )
        }),
{
    law_ei_delay(s);
    let after_ei = cpu_step(s).0;
    let ready = interrupts(count_down_ei(after_ei)).0;
    lemma_step_of_ei(s);
    lemma_enable_opcodes(skip(ready, 1));
}

/// DI takes effect at once and takes back an EI that is still pending. RETI
/// switches the master enable on at once.
pub proof fn law_di_and_reti(s: CpuState)
    ensures
        !count_down_ei(jump_and_enable(s, 6).0).ime,
        pops(s, 3).0.ime,
        pops(s, 3).0.ime_delay == 0,
{
    reveal(jump_and_enable);
    reveal(pops);
}

// ---- Registers ----

/// A register pair reads back what was written to it.
pub proof fn law_pair_read_back(s: CpuState, p: int, w: u16)
    requires
        0 <= p < 4,
    ensures
        pair(with_pair(s, p, w), p) == w,
{
    lemma_bytes_word(w);
}

/// A register reads back what was written to it, and no other register
/// changes.
pub proof fn law_register_read_back(s: CpuState, i: int, j: int, v: u8)
    requires
        0 <= i < 8,
        0 <= j < 8,
        i != 6,
        j != 6,
    ensures
        operand(with_operand(s, i, v), i) == v,
        i != j ==> operand(with_operand(s, i, v), j) == operand(s, j),
{
}

/// Where HL points to RAM, the operand (HL) reads back what was written to it.
pub proof fn law_memory_operand_read_back(s: CpuState, v: u8)
    requires
        s.wf(),
        is_plain_ram(hl(s)),
    ensures
        operand(with_operand(s, 6, v), 6) == v,
{
    reveal(memory_read);
    reveal(memory_write);
    law_ram_read_back(s.bus, hl(s), hl(s), v);
}

/// Of the conditions NZ and Z exactly one holds, and of NC and C.
pub proof fn law_conditions_exclude(s: CpuState)
    ensures
        condition(s, 0) == !condition(s, 1),
        condition(s, 2) == !condition(s, 3),
{
}

/// HALT changes nothing but the halt itself, and an opcode that does not exist
/// changes nothing but the console.
pub proof fn law_halt_and_unknown(s: CpuState, opcode: u8)
    ensures
        block1(s, 0x76).0 == (CpuState { halted: true, ..s }),
        unknown(s, opcode).bus.console == s.bus.console.push(ConsoleEvent::UnknownOpcode(opcode)),
        unknown(s, opcode) == (CpuState {
            bus: BusState { console: unknown(s, opcode).bus.console, ..s.bus },
            ..s
        }),
{
    reveal(block1);
}

// ---- Arithmetic ----

/// Subtracting what was added gives A back.
pub proof fn law_add_sub(s: CpuState, v: u8)
    ensures
        sub_a(add_a(s, v, 0), v, 0).a == s.a,
        add_a(sub_a(s, v, 0), v, 0).a == s.a,
{
    lemma_byte_wrap(s.a + v);
    lemma_byte_wrap((s.a + v) % 256 - v);
    lemma_byte_wrap(s.a - v);
    lemma_byte_wrap((s.a - v) % 256 + v);
}

/// The remainder modulo 256 of a number less than one turn away from a byte.
proof fn lemma_byte_wrap(x: int)
    requires
        -256 <= x < 512,
    ensures
        x % 256 == (if x < 0 {
            x + 256
        } else if x < 256 {
            x
        } else {
            x - 256
        }),
{
}

/// The carry of an addition and the borrow of a subtraction tell the exact
/// result.
pub proof fn law_carry_is_exact(s: CpuState, v: u8, carry_in: int)
    requires
        0 <= carry_in <= 1,
    ensures
        add_a(s, v, carry_in).a + 256 * carry(add_a(s, v, carry_in).f) == s.a + v + carry_in,
        sub_a(s, v, carry_in).a - 256 * carry(sub_a(s, v, carry_in).f) == s.a - v - carry_in,
{
    broadcast use lemma_pack_flags;

}

/// CP compares: A stays, zero means equal and carry means less.
pub proof fn law_compare(s: CpuState, v: u8)
    ensures
        alu(s, 7, v).a == s.a,
        flag_z(alu(s, 7, v).f) <==> s.a == v,
        flag_c(alu(s, 7, v).f) <==> s.a < v,
{
    broadcast use lemma_pack_flags;

}

/// XOR of A with itself clears A and sets the zero flag.
pub proof fn law_xor_clears(s: CpuState)
    ensures
        alu(s, 5, s.a).a == 0,
        alu(s, 5, s.a).f == pack_flags(true, false, false, false),
{
    let a = s.a;
    assert(a ^ a == 0) by (bit_vector);
}

/// Incrementing and decrementing undo each other.
pub proof fn law_inc_dec(v: u8)
    ensures
        dec_value(inc_value(v)) == v,
        inc_value(dec_value(v)) == v,
{
}

/// RLC and RRC undo each other, SWAP undoes itself, and RR with the carry that
/// RL left undoes RL.
pub proof fn law_rotates_undo(v: u8, carry_in: int)
    requires
        0 <= carry_in <= 1,
    ensures
        rotate(1, rotate(0, v, carry_in).0, carry_in).0 == v,
        rotate(0, rotate(1, v, carry_in).0, carry_in).0 == v,
        rotate(6, rotate(6, v, carry_in).0, carry_in).0 == v,
        ({
            let (r, c) = rotate(2, v, carry_in);
            let (back, out) = rotate(3, r, if c {
                1
            } else {
                0
            });
            back == v && out == (carry_in == 1)
        }),
{
    lemma_rotate_left(v as int, carry_in);
    lemma_rotate_left(v as int, v as int / 128);
    lemma_rotate_right(v as int);
    lemma_swap(v as int);
}

/// Shifting a bit in on the right and out again on the right.
proof fn lemma_rotate_left(v: int, c: int)
    requires
        0 <= v < 256,
        0 <= c <= 1,
    ensures
        0 <= (v * 2) % 256 + c < 256,
        ((v * 2) % 256 + c) / 2 + (v / 128) * 128 == v,
        ((v * 2) % 256 + c) % 2 == c,
{
    if v < 128 {
        assert((v * 2) % 256 == v * 2);
    } else {
        assert((v * 2) % 256 == v * 2 - 256);
    }
}

/// Rotating to the right and back to the left.
proof fn lemma_rotate_right(v: int)
    requires
        0 <= v < 256,
    ensures
        ({
            let r = v / 2 + (v % 2) * 128;
            0 <= r < 256 && (r * 2) % 256 + r / 128 == v
        }),
{
    if v % 2 == 0 {
        assert(v / 2 + (v % 2) * 128 == v / 2);
    } else {
        assert(v / 2 + (v % 2) * 128 == v / 2 + 128);
    }
}

/// Swapping the nibbles twice.
proof fn lemma_swap(v: int)
    requires
        0 <= v < 256,
    ensures
        ({
            let r = (v % 16) * 16 + v / 16;
            0 <= r < 256 && (r % 16) * 16 + r / 16 == v
        }),
{
}

/// CPL undoes itself, and so does CCF to the carry.
pub proof fn law_complements_undo(s: CpuState)
    ensures
        accumulator_operation(accumulator_operation(s, 5), 5).a == s.a,
        flag_c(accumulator_operation(accumulator_operation(s, 7), 7).f) == flag_c(s.f),
        flag_c(accumulator_operation(s, 6).f),
{
    broadcast use lemma_pack_flags;

}

/// SET and RES change the one bit they name.
pub proof fn law_set_res(v: u8, n: u8, m: u8)
    requires
        n < 8,
        m < 8,
    ensures
        bit(v | (1u8 << n), m) == (m == n || bit(v, m)),
        bit(v & !(1u8 << n), m) == (m != n && bit(v, m)),
{
    lemma_single_bit(v, n, m);
}

/// Whether an operand is a register, or (HL) with HL pointing to RAM.
pub open spec fn operand_is_plain(s: CpuState, r: int) -> bool {
    &&& 0 <= r < 8
    &&& r == 6 ==> s.wf() && is_plain_ram(hl(s))
}

/// An operand that is not (HL), or lies in RAM, reads back what was written.
proof fn lemma_operand_read_back(s: CpuState, r: int, v: u8)
    requires
        operand_is_plain(s, r),
    ensures
        operand(with_operand(s, r, v), r) == v,
        operand_is_plain(with_operand(s, r, v), r),
{
    if r == 6 {
        law_memory_operand_read_back(s, v);
        reveal(memory_write);
        lemma_bus_write_wf(s.bus, hl(s), v);
    }
}

/// SET b,r and RES b,r set and clear bit b of the operand and change nothing
/// else. BIT b,r then reports it in the zero flag, clears the subtract flag,
/// sets the half-carry flag and changes nothing else.
pub proof fn law_set_res_bit(s: CpuState, b: u8, r: u8)
    requires
        b < 8,
        operand_is_plain(s, r as int),
    ensures
        ({
            let set = prefixed(s, 0xC0u8 | (b << 3) | r).0;
            let tested = prefixed(set, 0x40u8 | (b << 3) | r).0;
            &&& set == with_operand(s, r as int, operand(s, r as int) | (1u8 << b))
            &&& operand(set, r as int) == operand(s, r as int) | (1u8 << b)
            &&& tested == (CpuState { f: pack_flags(false, false, true, flag_c(s.f)), ..set })
        }),
        ({
            let cleared = prefixed(s, 0x80u8 | (b << 3) | r).0;
            let tested = prefixed(cleared, 0x40u8 | (b << 3) | r).0;
            &&& cleared == with_operand(s, r as int, operand(s, r as int) & !(1u8 << b))
            &&& operand(cleared, r as int) == operand(s, r as int) & !(1u8 << b)
            &&& tested == (CpuState { f: pack_flags(true, false, true, flag_c(s.f)), ..cleared })
        }),
{
    let i = r as int;
    let v = operand(s, i);
    let set = with_operand(s, i, v | (1u8 << b));
    let cleared = with_operand(s, i, v & !(1u8 << b));
    lemma_single_bit(v, b, b);
    lemma_operand_read_back(s, i, v | (1u8 << b));
    lemma_operand_read_back(s, i, v & !(1u8 << b));
    lemma_opcode_bits(b, r);
    lemma_bit_opcodes(s, b, i);
    lemma_bit_opcodes(set, b, i);
    lemma_bit_opcodes(cleared, b, i);
    assert(set.f == s.f && cleared.f == s.f);
}

/// The opcodes of the second table put together from their fields.
proof fn lemma_opcode_bits(b: u8, r: u8)
    by (bit_vector)
    requires
        b < 8,
        r < 8,
    ensures
        0x40u8 | (b << 3) | r == 0x40 + 8 * b + r,
        0x80u8 | (b << 3) | r == 0x80 + 8 * b + r,
        0xC0u8 | (b << 3) | r == 0xC0 + 8 * b + r,
        0x08u8 | r == 0x08 + r,
        0x10u8 | r == 0x10 + r,
        0x18u8 | r == 0x18 + r,
        0x30u8 | r == 0x30 + r,
{
}

/// What the opcodes BIT b,r, RES b,r and SET b,r do.
proof fn lemma_bit_opcodes(s: CpuState, b: u8, r: int)
    requires
        b < 8,
        0 <= r < 8,
    ensures
        prefixed(s, (0x40 + 8 * b + r) as u8).0 == (CpuState {
            f: pack_flags(!bit(operand(s, r), b), false, true, flag_c(s.f)),
            ..s
        }),
        prefixed(s, (0x80 + 8 * b + r) as u8).0 == with_operand(
            s,
            r,
            operand(s, r) & !(1u8 << b),
        ),
        prefixed(s, (0xC0 + 8 * b + r) as u8).0 == with_operand(s, r, operand(s, r) | (1u8 << b)),
{
    reveal(prefixed);
    lemma_octal_fields(1, b as int, r);
    lemma_octal_fields(2, b as int, r);
    lemma_octal_fields(3, b as int, r);
}

/// What the opcode of a rotate or shift does.
proof fn lemma_rotate_opcode(s: CpuState, operation: int, r: int)
    requires
        0 <= operation < 8,
        0 <= r < 8,
    ensures
        prefixed(s, (8 * operation + r) as u8).0 == with_operand(
            CpuState { f: rotate_flags(operation, operand(s, r), carry(s.f)), ..s },
            r,
            rotate(operation, operand(s, r), carry(s.f)).0,
        ),
{
    reveal(prefixed);
    lemma_octal_fields(0, operation, r);
}

/// The octal digits of an opcode.
proof fn lemma_octal_fields(x: int, y: int, z: int)
    requires
        0 <= x < 4,
        0 <= y < 8,
        0 <= z < 8,
    ensures
        ((64 * x + 8 * y + z) / 8) % 8 == y,
        (64 * x + 8 * y + z) % 8 == z,
        0 <= 64 * x + 8 * y + z < 256,
{
    assert((64 * x + 8 * y + z) / 8 == 8 * x + y);
}

/// RL r and then RR r, RLC r and then RRC r, and SWAP r twice give the operand
/// back and leave every other register but F as it was. RL and RR also give the
/// carry back, and SWAP clears it.
pub proof fn law_prefixed_rotates_undo(s: CpuState, r: u8)
    requires
        operand_is_plain(s, r as int),
    ensures
        ({
            let t = prefixed(prefixed(s, 0x10u8 | r).0, 0x18u8 | r).0;
            restores_operand(s, t, r as int) && flag_c(t.f) == flag_c(s.f)
        }),
        ({
            let t = prefixed(prefixed(s, r).0, 0x08u8 | r).0;
            restores_operand(s, t, r as int)
        }),
        ({
            let t = prefixed(prefixed(s, 0x30u8 | r).0, 0x30u8 | r).0;
            restores_operand(s, t, r as int) && !flag_c(t.f)
        }),
{
    broadcast use lemma_pack_flags;

    let v = operand(s, r as int);
    lemma_opcode_bits(0, r);
    law_rotates_undo(v, carry(s.f));
    lemma_prefixed_pair(s, r as int, 2, 3);
    lemma_prefixed_pair(s, r as int, 0, 1);
    lemma_prefixed_pair(s, r as int, 6, 6);
}

/// Whether `t` is `s` with the same operand and registers, whatever is in F. A
/// register operand leaves the bus alone too.
pub open spec fn restores_operand(s: CpuState, t: CpuState, r: int) -> bool {
    &&& operand(t, r) == operand(s, r)
    &&& t == (CpuState { f: t.f, bus: t.bus, ..s })
    &&& r != 6 ==> t.bus == s.bus
}

/// Two rotates of the same operand, one after the other.
#[verifier::rlimit(30)]
proof fn lemma_prefixed_pair(s: CpuState, r: int, first: int, second: int)
    requires
        operand_is_plain(s, r),
        0 <= first < 8,
        0 <= second < 8,
    ensures
        ({
            let t = prefixed(s, (8 * first + r) as u8).0;
            let u = prefixed(t, (8 * second + r) as u8).0;
            let v1 = rotate(first, operand(s, r), carry(s.f));
            let f1 = pack_flags(v1.0 == 0, false, false, v1.1);
            let v2 = rotate(second, v1.0, carry(f1));
            &&& operand(u, r) == v2.0
            &&& u.f == pack_flags(v2.0 == 0, false, false, v2.1)
            &&& u == (CpuState { f: u.f, bus: u.bus, ..s }) || v2.0 != operand(s, r)
            &&& r != 6 ==> u.bus == s.bus
        }),
{
    let v1 = rotate(first, operand(s, r), carry(s.f));
    let f1 = pack_flags(v1.0 == 0, false, false, v1.1);
    let s1 = CpuState { f: f1, ..s };
    let v2 = rotate(second, v1.0, carry(f1));
    let f2 = pack_flags(v2.0 == 0, false, false, v2.1);
    lemma_flags_fit(v1.0 == 0, v1.1);
    lemma_flags_fit(v2.0 == 0, v2.1);
    lemma_operand_read_back(s1, r, v1.0);
    let t = with_operand(s1, r, v1.0);
    lemma_rotate_opcode(s, first, r);
    let t2 = CpuState { f: f2, ..t };
    lemma_operand_read_back(t2, r, v2.0);
    assert(operand(t, r) == v1.0);
    lemma_rotate_opcode(t, second, r);
    assert(prefixed(t, (8 * second + r) as u8).0 == with_operand(t2, r, v2.0));
}

/// Packed flags leave the low four bits clear.
proof fn lemma_flags_fit(z: bool, c: bool)
    ensures
        pack_flags(z, false, false, c) % 16 == 0,
{
    broadcast use lemma_pack_flags;

}

// ---- Decimal arithmetic ----

/// Whether both nibbles of a byte are decimal digits.
pub open spec fn is_decimal(v: u8) -> bool {
    v % 16 <= 9 && v / 16 <= 9
}

/// The number that two decimal digits stand for.
pub open spec fn decimal(v: u8) -> int {
    (v / 16) * 10 + v % 16
}

/// DAA after an addition of decimal numbers, with or without carry, gives
/// their decimal sum, and the carry where it exceeds 99.
pub proof fn law_daa_after_addition(s: CpuState, v: u8, carry_in: int)
    requires
        is_decimal(s.a),
        is_decimal(v),
        0 <= carry_in <= 1,
    ensures
        ({
            let result = daa(add_a(s, v, carry_in));
            let sum = decimal(s.a) + decimal(v) + carry_in;
            &&& is_decimal(result.a)
            &&& decimal(result.a) == sum % 100
            &&& flag_c(result.f) == (sum >= 100)
        }),
{
    broadcast use lemma_pack_flags;

    let ah = s.a as int / 16;
    let al = s.a as int % 16;
    let vh = v as int / 16;
    let vl = v as int % 16;
    let added = add_a(s, v, carry_in);
    lemma_digits_after_addition(ah, al, vh, vl, carry_in);
}

/// DAA after a subtraction of decimal numbers, with or without borrow, gives
/// their decimal difference modulo 100, and the borrow where it is negative.
pub proof fn law_daa_after_subtraction(s: CpuState, v: u8, carry_in: int)
    requires
        is_decimal(s.a),
        is_decimal(v),
        0 <= carry_in <= 1,
    ensures
        ({
            let result = daa(sub_a(s, v, carry_in));
            let difference = decimal(s.a) - decimal(v) - carry_in;
            &&& is_decimal(result.a)
            &&& decimal(result.a) == difference % 100
            &&& flag_c(result.f) == (difference < 0)
        }),
{
    broadcast use lemma_pack_flags;

    let ah = s.a as int / 16;
    let al = s.a as int % 16;
    let vh = v as int / 16;
    let vl = v as int % 16;
    lemma_digits_after_subtraction(ah, al, vh, vl, carry_in);
}

/// The digits of a corrected sum.
proof fn lemma_digits_after_addition(ah: int, al: int, vh: int, vl: int, c: int)
    requires
        0 <= ah <= 9,
        0 <= al <= 9,
        0 <= vh <= 9,
        0 <= vl <= 9,
        0 <= c <= 1,
    ensures
        ({
            let sum = (16 * ah + al) + (16 * vh + vl) + c;
            let a = sum % 256;
            let low: int = if al + vl + c > 15 || a % 16 > 9 {
                6
            } else {
                0
            };
            let carries = sum > 255 || a > 0x99;
            let r = (a + low + (if carries {
                0x60int
            } else {
                0int
            })) % 256;
            let expected = (10 * ah + al) + (10 * vh + vl) + c;
            &&& r % 16 <= 9
            &&& r / 16 <= 9
            &&& (r / 16) * 10 + r % 16 == expected % 100
            &&& carries == (expected >= 100)
        }),
{
    let low_sum = al + vl + c;
    let sum = 16 * (ah + vh) + low_sum;
    let excess: int = if low_sum > 9 {
        1
    } else {
        0
    };
    let digit = low_sum - 10 * excess;
    let tens = ah + vh + excess;
    lemma_nibbles(ah + vh, low_sum);
    let a = sum % 256;
    lemma_byte_wrap(sum);
    assert(sum + 6 * excess == 16 * tens + digit);
    assert((low_sum > 15 || a % 16 > 9) == (excess == 1));
    assert((sum > 255 || a > 0x99) == (tens >= 10));
    if tens >= 10 {
        lemma_digit_pair(tens - 10, digit);
    } else {
        lemma_digit_pair(tens, digit);
    }
}

/// The low nibble of a sum of nibbles.
proof fn lemma_nibbles(high: int, low: int)
    requires
        0 <= high <= 18,
        0 <= low < 32,
    ensures
        ((16 * high + low) % 256) % 16 == (if low < 16 {
            low
        } else {
            low - 16
        }),
{
    if low < 16 {
        lemma_nibble_of(high, low);
    } else {
        lemma_nibble_of(high + 1, low - 16);
    }
}

proof fn lemma_nibble_of(high: int, low: int)
    requires
        0 <= high < 32,
        0 <= low < 16,
    ensures
        ((16 * high + low) % 256) % 16 == low,
{
    if high < 16 {
        assert((16 * high + low) % 256 == 16 * high + low);
    } else {
        assert((16 * high + low) % 256 == 16 * (high - 16) + low);
    }
}

/// A byte made of two decimal digits, and the same digits one turn further.
proof fn lemma_digit_pair(tens: int, digit: int)
    requires
        0 <= tens <= 9,
        0 <= digit <= 9,
    ensures
        (16 * tens + digit) % 256 == 16 * tens + digit,
        (16 * tens + digit + 256) % 256 == 16 * tens + digit,
        (16 * tens + digit) % 16 == digit,
        (16 * tens + digit) / 16 == tens,
        (10 * tens + digit) % 100 == 10 * tens + digit,
        (10 * tens + digit + 100) % 100 == 10 * tens + digit,
        (10 * tens + digit - 100) % 100 == 10 * tens + digit,
{
}

/// The digits of a corrected difference.
proof fn lemma_digits_after_subtraction(ah: int, al: int, vh: int, vl: int, c: int)
    requires
        0 <= ah <= 9,
        0 <= al <= 9,
        0 <= vh <= 9,
        0 <= vl <= 9,
        0 <= c <= 1,
    ensures
        ({
            let difference = (16 * ah + al) - (16 * vh + vl) - c;
            let a = difference % 256;
            let low: int = if al < vl + c {
                6
            } else {
                0
            };
            let carries = difference < 0;
            let r = (a - low - (if carries {
                0x60int
            } else {
                0int
            })) % 256;
            let expected = (10 * ah + al) - (10 * vh + vl) - c;
            &&& r % 16 <= 9
            &&& r / 16 <= 9
            &&& (r / 16) * 10 + r % 16 == expected % 100
            &&& carries == (expected < 0)
        }),
{
    let low_difference = al - vl - c;
    let borrow: int = if low_difference < 0 {
        1
    } else {
        0
    };
    let digit = low_difference + 10 * borrow;
    let tens = ah - vh - borrow;
    let difference = 16 * (ah - vh) + low_difference;
    assert(difference - 6 * borrow == 16 * tens + digit);
    lemma_byte_wrap(difference);
    if tens < 0 {
        lemma_digit_pair(tens + 10, digit);
    } else {
        lemma_digit_pair(tens, digit);
    }
}

// ---- Steps ----

/// Whether `t` is a well-formed state on the same cartridge as `s`.
pub open spec fn follows(s: CpuState, t: CpuState) -> bool {
    &&& t.wf()
    &&& t.bus.cartridge.rom == s.bus.cartridge.rom
    &&& t.bus.cartridge.mbc_type == s.bus.cartridge.mbc_type
}

/// A step takes 4 to 24 T-cycles, a multiple of 4, keeps the state well-formed, and changes
/// neither the ROM nor the type of the cartridge.
pub proof fn law_step(s: CpuState)
    requires
        s.wf(),
    ensures
        4 <= cpu_step(s).1 <= 24,
        cpu_step(s).1 % 4 == 0,
        follows(s, cpu_step(s).0),
{
    let counted = count_down_ei(s);
    let (ready, dispatched) = interrupts(counted);
    assert(follows(s, ready)) by {
        broadcast use lemma_memory_write_follows;

    }
    if dispatched {
        lemma_elapse_follows(ready, 20);
    } else if ready.halted {
        lemma_elapse_follows(ready, 4);
    } else {
        let opcode = imm8(ready);
        let next = skip(ready, 1);
        if opcode < 0x40 {
            lemma_block0_follows(next, opcode);
        }
        lemma_block1_follows(next, opcode);
        lemma_block2_follows(next, opcode);
        lemma_block3_follows(next, opcode);
        let (done, cycles) = execute(next, opcode);
        lemma_elapse_follows(done, cycles);
    }
}

/// What holds of a state and of the result of an instruction on it.
spec fn instruction_follows(s: CpuState, result: (CpuState, int)) -> bool {
    4 <= result.1 <= 24 && result.1 % 4 == 0 && follows(s, result.0)
}

broadcast proof fn lemma_memory_write_follows(bus: BusState, address: u16, v: u8)
    requires
        bus.wf(),
    ensures
        #![trigger memory_write(bus, address, v)]
        memory_write(bus, address, v).wf(),
        memory_write(bus, address, v).cartridge.rom == bus.cartridge.rom,
        memory_write(bus, address, v).cartridge.mbc_type == bus.cartridge.mbc_type,
{
    reveal(memory_write);
    lemma_bus_write_wf(bus, address, v);
    law_rom_is_constant(bus, address, v);
}

proof fn lemma_elapse_follows(s: CpuState, n: int)
    requires
        s.wf(),
        n >= 0,
    ensures
        follows(s, elapse(s, n)),
{
    lemma_bus_cycles_wf(s.bus, n as nat);
    lemma_timer_cycles_frame(s.bus, n as nat);
}

#[verifier::rlimit(30)]
proof fn lemma_block0_follows(s: CpuState, opcode: u8)
    requires
        s.wf(),
        opcode < 0x40,
    ensures
        instruction_follows(s, block0(s, opcode)),
{
    broadcast use {lemma_memory_write_follows, lemma_pack_flags};

    reveal(block0);
    reveal(relative_jumps);
    reveal(pair_loads);
    reveal(indirect_loads);
    reveal(pair_steps);
}

proof fn lemma_block1_follows(s: CpuState, opcode: u8)
    requires
        s.wf(),
    ensures
        instruction_follows(s, block1(s, opcode)),
{
    broadcast use lemma_memory_write_follows;

    reveal(block1);
}

proof fn lemma_block2_follows(s: CpuState, opcode: u8)
    requires
        s.wf(),
    ensures
        instruction_follows(s, block2(s, opcode)),
{
    broadcast use lemma_pack_flags;

    reveal(block2);
}

proof fn lemma_block3_follows(s: CpuState, opcode: u8)
    requires
        s.wf(),
    ensures
        instruction_follows(s, block3(s, opcode)),
{
    broadcast use {lemma_memory_write_follows, lemma_pack_flags};

    let y = (opcode as int / 8) % 8;
    lemma_loads_follow(s, y);
    lemma_jumps_follow(s, y);
    lemma_calls_follow(s, y);
    reveal(block3);
}

proof fn lemma_loads_follow(s: CpuState, y: int)
    requires
        s.wf(),
    ensures
        instruction_follows(s, returns_and_offsets(s, y)),
        instruction_follows(s, pops(s, y)),
{
    broadcast use {lemma_memory_write_follows, lemma_pack_flags};

    reveal(returns_and_offsets);
    reveal(pops);
    lemma_word_bytes(high_byte(top(s)), low_byte(top(s)));
}

proof fn lemma_jumps_follow(s: CpuState, y: int)
    requires
        s.wf(),
    ensures
        instruction_follows(s, conditional_jumps(s, y)),
        instruction_follows(s, jump_and_enable(s, y)),
{
    broadcast use lemma_memory_write_follows;

    reveal(conditional_jumps);
    reveal(jump_and_enable);
    lemma_prefixed_follows(skip(s, 1), imm8(s));
}

proof fn lemma_calls_follow(s: CpuState, y: int)
    requires
        s.wf(),
    ensures
        instruction_follows(s, conditional_calls(s, y)),
        instruction_follows(s, pushes(s, y)),
{
    broadcast use lemma_memory_write_follows;

    reveal(conditional_calls);
    reveal(pushes);
}

proof fn lemma_prefixed_follows(s: CpuState, opcode: u8)
    requires
        s.wf(),
    ensures
        instruction_follows(s, prefixed(s, opcode)),
{
    broadcast use {lemma_memory_write_follows, lemma_pack_flags};

    reveal(prefixed);
}

// ---- Instructions and the master enable ----

/// What EI, DI and RETI do to the master enable.
proof fn lemma_enable_opcodes(s: CpuState)
    ensures
        execute(s, 0xFB) == (
            CpuState {
                ime_delay: if s.ime_delay == 0 {
                    2
                } else {
                    s.ime_delay
                },
                ..s
            },
            4int,
        ),
        execute(s, 0xF3) == (CpuState { ime: false, ime_delay: 0, ..s }, 4int),
        execute(s, 0xD9).0.ime,
{
    reveal(block3);
    reveal(jump_and_enable);
    reveal(pops);
}

/// Whether the master enable and a pending EI are the same.
spec fn same_enable(s: CpuState, t: CpuState) -> bool {
    t.ime == s.ime && t.ime_delay == s.ime_delay
}

/// Every other instruction leaves the master enable alone.
proof fn lemma_enable_kept(s: CpuState, opcode: u8)
    requires
        opcode != 0xFB,
        opcode != 0xF3,
        opcode != 0xD9,
    ensures
        same_enable(s, execute(s, opcode).0),
{
    if opcode < 0x40 {
        lemma_block0_keeps_enable(s, opcode);
    } else if opcode < 0xC0 {
        reveal(block1);
        reveal(block2);
    } else {
        let y = (opcode as int / 8) % 8;
        lemma_block3_keeps_enable(s, y);
        reveal(block3);
    }
}

proof fn lemma_block0_keeps_enable(s: CpuState, opcode: u8)
    ensures
        same_enable(s, block0(s, opcode).0),
{
    reveal(block0);
    reveal(relative_jumps);
    reveal(pair_loads);
    reveal(indirect_loads);
    reveal(pair_steps);
}

proof fn lemma_block3_keeps_enable(s: CpuState, y: int)
    ensures
        same_enable(s, returns_and_offsets(s, y).0),
        y != 3 ==> same_enable(s, pops(s, y).0),
        same_enable(s, conditional_jumps(s, y).0),
        y != 6 && y != 7 ==> same_enable(s, jump_and_enable(s, y).0),
        same_enable(s, conditional_calls(s, y).0),
        same_enable(s, pushes(s, y).0),
{
    assert(same_enable(s, returns_and_offsets(s, y).0)) by {
        reveal(returns_and_offsets);
    }
    assert(y != 3 ==> same_enable(s, pops(s, y).0)) by {
        reveal(pops);
    }
    assert(same_enable(s, conditional_jumps(s, y).0)) by {
        reveal(conditional_jumps);
    }
    assert(y != 6 && y != 7 ==> same_enable(s, jump_and_enable(s, y).0)) by {
        reveal(jump_and_enable);
        reveal(prefixed);
    }
    assert(same_enable(s, conditional_calls(s, y).0)) by {
        reveal(conditional_calls);
    }
    assert(same_enable(s, pushes(s, y).0)) by {
        reveal(pushes);
    }
}

// ---- The addresses that a step writes ----

/// The two bytes that a push writes.
pub open spec fn pushed_at(s: CpuState, address: u16) -> bool {
    address == moved(s.sp, -1) || address == moved(s.sp, -2)
}

/// Whether an opcode from 0x00 to 0x3F writes an address.
pub open spec fn block0_writes(s: CpuState, opcode: u8, address: u16) -> bool {
    let y = opcode as int / 8;
    let z = opcode as int % 8;
    if z == 0 {
        y == 1 && (address == imm16(s) || address == moved(imm16(s), 1))
    } else if z == 2 {
        y % 2 == 0 && address == indirect_address(s, y / 2)
    } else {
        4 <= z <= 6 && y == 6 && address == hl(s)
    }
}

/// Whether an opcode from 0x40 to 0x7F writes an address.
pub open spec fn block1_writes(s: CpuState, opcode: u8, address: u16) -> bool {
    (opcode as int / 8) % 8 == 6 && opcode % 8 != 6 && address == hl(s)
}

/// Whether an opcode behind the prefix 0xCB writes an address: all but BIT do
/// where the operand is (HL).
pub open spec fn prefixed_writes(s: CpuState, opcode: u8, address: u16) -> bool {
    opcode % 8 == 6 && !(0x40 <= opcode < 0x80) && address == hl(s)
}

/// Whether an opcode from 0xC0 to 0xFF writes an address.
pub open spec fn block3_writes(s: CpuState, opcode: u8, address: u16) -> bool {
    let y = (opcode as int / 8) % 8;
    let z = opcode as int % 8;
    if z == 0 {
        y == 4 && address == 0xFF00 + imm8(s)
    } else if z == 2 {
        y == 4 && address == 0xFF00 + s.c || y == 5 && address == imm16(s)
    } else if z == 3 {
        y == 1 && prefixed_writes(skip(s, 1), imm8(s), address)
    } else if z == 4 {
        y < 4 && condition(s, y) && pushed_at(s, address)
    } else if z == 5 {
        (y % 2 == 0 || y == 1) && pushed_at(s, address)
    } else {
        z == 7 && pushed_at(s, address)
    }
}

/// Whether an instruction writes an address. PC stands behind the opcode.
pub open spec fn instruction_writes(s: CpuState, opcode: u8, address: u16) -> bool {
    if opcode < 0x40 {
        block0_writes(s, opcode, address)
    } else if opcode < 0x80 {
        block1_writes(s, opcode, address)
    } else if opcode < 0xC0 {
        false
    } else {
        block3_writes(s, opcode, address)
    }
}

/// Whether a step writes an address.
pub open spec fn step_writes(s: CpuState, address: u16) -> bool {
    let (ready, dispatched) = interrupts(count_down_ei(s));
    if dispatched {
        pushed_at(s, address)
    } else {
        !ready.halted && instruction_writes(skip(ready, 1), imm8(ready), address)
    }
}

/// The counter of DIV moves on by the T-cycles of the step: from where it was,
/// or from 0 where the step writes DIV.
pub proof fn law_step_advances_div(s: CpuState)
    requires
        s.wf(),
    ensures
        cpu_step(s).0.bus.div_counter == ((if step_writes(s, 0xFF04) {
            0
        } else {
            s.bus.div_counter as int
        }) + cpu_step(s).1) % 0x10000,
{
    law_step(s);
    let (ready, dispatched) = interrupts(count_down_ei(s));
    if dispatched {
        assert(ready.bus.div_counter == div_after(s, pushed_at(s, 0xFF04))) by {
            broadcast use lemma_memory_write_div;

        }
        law_div_counts(ready.bus, 20);
    } else if ready.halted {
        law_div_counts(ready.bus, 4);
    } else {
        let opcode = imm8(ready);
        let next = skip(ready, 1);
        lemma_instruction_div(next, opcode);
        let (done, cycles) = execute(next, opcode);
        law_div_counts(done.bus, cycles as nat);
    }
}

/// The counter of DIV after an instruction that writes DIV or does not.
spec fn div_after(s: CpuState, written: bool) -> u16 {
    if written {
        0
    } else {
        s.bus.div_counter
    }
}

broadcast proof fn lemma_memory_write_div(bus: BusState, address: u16, v: u8)
    ensures
        (#[trigger] memory_write(bus, address, v)).div_counter == (if address == 0xFF04 {
            0
        } else {
            bus.div_counter
        }),
{
    reveal(memory_write);
}

proof fn lemma_instruction_div(s: CpuState, opcode: u8)
    ensures
        execute(s, opcode).0.bus.div_counter == div_after(
            s,
            instruction_writes(s, opcode, 0xFF04),
        ),
{
    broadcast use lemma_memory_write_div;

    if opcode < 0x40 {
        lemma_block0_div(s, opcode);
    } else if opcode < 0xC0 {
        reveal(block1);
        reveal(block2);
    } else {
        lemma_block3_div(s, opcode);
    }
}

proof fn lemma_block0_div(s: CpuState, opcode: u8)
    requires
        opcode < 0x40,
    ensures
        block0(s, opcode).0.bus.div_counter == div_after(s, block0_writes(s, opcode, 0xFF04)),
{
    broadcast use lemma_memory_write_div;

    reveal(block0);
    reveal(relative_jumps);
    reveal(pair_loads);
    reveal(indirect_loads);
    reveal(pair_steps);
}

proof fn lemma_block3_div(s: CpuState, opcode: u8)
    ensures
        block3(s, opcode).0.bus.div_counter == div_after(s, block3_writes(s, opcode, 0xFF04)),
{
    broadcast use lemma_memory_write_div;

    lemma_prefixed_div(skip(s, 1), imm8(s));
    reveal(block3);
    reveal(returns_and_offsets);
    reveal(pops);
    reveal(conditional_jumps);
    reveal(jump_and_enable);
    reveal(conditional_calls);
    reveal(pushes);
}

proof fn lemma_prefixed_div(s: CpuState, opcode: u8)
    ensures
        prefixed(s, opcode).0.bus.div_counter == div_after(s, prefixed_writes(s, opcode, 0xFF04)),
{
    broadcast use lemma_memory_write_div;

    reveal(prefixed);
}

} // verus!

//! The processor: instruction execution, interrupt dispatch and the low-power
//! wait.

use vstd::prelude::*;
use vstd::std_specs::bits::u8_trailing_zeros;

use crate::bits::{
    bit, lemma_join_word, lemma_low_nibble, lemma_low_parts, lemma_masks, lemma_signed,
    lemma_split_word, lemma_three_bits, lemma_wrapping_byte, signed, word,
};
use crate::bus::{acknowledged, bus_cycles, pending_interrupts, Bus, BusState};
use crate::isa::{
    accumulator_operation, add_a, alu, bc, block0, block1, block2, block3, call, carry, condition,
    conditional_calls, conditional_jumps, daa, daa_correction, de, dec_flags, dec_value, drop_top,
    execute, flag_c, flag_h, flag_n, flag_z, hl, imm16, imm8, inc_flags, inc_value, indirect_loads,
    jump_and_enable, jump_relative, load, logic_a, memory_read, memory_write, moved, operand,
    pack_flags, pair, pair_loads, pair_steps, pops, prefixed, push, pushes, relative_jumps, ret,
    returns_and_offsets, rotate, rotate_flags, skip, sp_offset_flags, store, sub_a, top, with_af,
    with_bc, with_de, with_hl, with_operand, with_pair, CpuState,
};

verus! {

// ---- One step ----

/// The state at power-on, as the boot code leaves it.
pub open spec fn cpu_reset(bus: BusState) -> CpuState {
    CpuState {
        a: 0x01,
        f: 0xB0,
        b: 0x00,
        c: 0x13,
        d: 0x00,
        e: 0xD8,
        h: 0x01,
        l: 0x4D,
        pc: 0x0100,
        sp: 0xFFFE,
        halted: false,
        ime: false,
        ime_delay: 0,
        bus,
    }
}

/// A pending EI one step closer to its effect.
pub open spec fn count_down_ei(s: CpuState) -> CpuState {
    if s.ime_delay == 0 {
        s
    } else {
        CpuState { ime_delay: (s.ime_delay - 1) as u8, ime: s.ime || s.ime_delay == 1, ..s }
    }
}

/// The interrupt of highest priority among those of a pending mask: the lowest
/// bit.
pub open spec fn highest_priority(pending: u8) -> u8 {
    if bit(pending, 0) {
        0
    } else if bit(pending, 1) {
        1
    } else if bit(pending, 2) {
        2
    } else if bit(pending, 3) {
        3
    } else {
        4
    }
}

/// The handler of an interrupt.
pub open spec fn interrupt_vector(n: u8) -> u16 {
    (0x40 + 8 * n) as u16
}

/// Interrupt `n` dispatched: its pending bit and the master enable are
/// cleared, and its handler is called.
pub open spec fn dispatch(s: CpuState, n: u8) -> CpuState {
    call(
        CpuState { halted: false, ime: false, bus: acknowledged(s.bus, n), ..s },
        interrupt_vector(n),
    )
}

/// The effect of pending interrupts before an instruction, and whether one was
/// dispatched. With the master enable off, a pending interrupt still ends a
/// HALT.
pub open spec fn interrupts(s: CpuState) -> (CpuState, bool) {
    let pending = pending_interrupts(s.bus);
    if pending == 0 {
        (s, false)
    } else if s.ime {
        (dispatch(s, highest_priority(pending)), true)
    } else {
        (CpuState { halted: false, ..s }, false)
    }
}

/// The bus moved on by `n` T-cycles.
pub open spec fn elapse(s: CpuState, n: int) -> CpuState {
    CpuState { bus: bus_cycles(s.bus, n as nat), ..s }
}

/// One step and the T-cycles it takes: an interrupt dispatch, an idle wait in
/// HALT, or an instruction. The bus moves on by the same time.
pub open spec fn cpu_step(s: CpuState) -> (CpuState, int) {
    let (ready, dispatched) = interrupts(count_down_ei(s));
    if dispatched {
        (elapse(ready, 20), 20)
    } else if ready.halted {
        (elapse(ready, 4), 4)
    } else {
        let (done, cycles) = execute(skip(ready, 1), imm8(ready));
        (elapse(done, cycles), cycles)
    }
}

// ---- The processor ----

pub struct Cpu {
    a: u8,
    f: u8,
    b: u8,
    c: u8,
    d: u8,
    e: u8,
    h: u8,
    l: u8,
    pc: u16,
    sp: u16,
    halted: bool,
    ime: bool,
    ime_delay: u8,
    bus: Bus,
}

impl View for Cpu {
    type V = CpuState;

    closed spec fn view(&self) -> CpuState {
        CpuState {
            a: self.a,
            f: self.f,
            b: self.b,
            c: self.c,
            d: self.d,
            e: self.e,
            h: self.h,
            l: self.l,
            pc: self.pc,
            sp: self.sp,
            halted: self.halted,
            ime: self.ime,
            ime_delay: self.ime_delay,
            bus: self.bus@,
        }
    }
}

impl Cpu {
    /// The bus, to be changed.
    pub fn bus_mut(&mut self) -> (r: &mut Bus)
        ensures
            r@ == old(self)@.bus,
            final(self)@ == (CpuState { bus: final(r)@, ..old(self)@ }),
    {
        &mut self.bus
    }

    /// Connects the processor to a bus.
    pub fn new(bus: Bus) -> (r: Self)
        requires
            bus@.wf(),
        ensures
            r@ == cpu_reset(bus@),
            r@.wf(),
    {
        Cpu {
            a: 0x01,
            f: 0xB0,
            b: 0x00,
            c: 0x13,
            d: 0x00,
            e: 0xD8,
            h: 0x01,
            l: 0x4D,
            pc: 0x0100,
            sp: 0xFFFE,
            halted: false,
            ime: false,
            ime_delay: 0,
            bus,
        }
    }

    /// The bus.
    pub fn bus(&self) -> (r: &Bus)
        ensures
            r@ == self@.bus,
    {
        &self.bus
    }

    // ---- Memory ----

    fn read(&self, address: u16) -> (r: u8)
        requires
            self@.wf(),
        ensures
            r == load(self@, address),
    {
        proof {
            reveal(memory_read);
        }
        self.bus.read_byte(address)
    }

    fn write(&mut self, address: u16, value: u8)
        requires
            old(self)@.wf(),
        ensures
            final(self)@ == store(old(self)@, address, value),
            final(self)@.wf(),
    {
        proof {
            reveal(memory_write);
        }
        self.bus.write_byte(address, value);
    }

    fn fetch_byte(&mut self) -> (r: u8)
        requires
            old(self)@.wf(),
        ensures
            r == imm8(old(self)@),
            final(self)@ == skip(old(self)@, 1),
            final(self)@.wf(),
    {
        let byte: u8 = self.read(self.pc);
        self.pc = self.pc.wrapping_add(1);
        byte
    }

    fn fetch_word(&mut self) -> (r: u16)
        requires
            old(self)@.wf(),
        ensures
            r == imm16(old(self)@),
            final(self)@ == skip(old(self)@, 2),
            final(self)@.wf(),
    {
        let low: u8 = self.fetch_byte();
        let high: u8 = self.fetch_byte();
        proof {
            lemma_join_word(high, low);
        }
        ((high as u16) << 8) | low as u16
    }

    fn fetch_signed_byte(&mut self) -> (r: i8)
        requires
            old(self)@.wf(),
        ensures
            r == signed(imm8(old(self)@)),
            final(self)@ == skip(old(self)@, 1),
            final(self)@.wf(),
    {
        let byte: u8 = self.fetch_byte();
        proof {
            lemma_signed(byte);
        }
        byte as i8
    }

    // ---- Registers ----

    fn get_r8(&self, idx: u8) -> (r: u8)
        requires
            self@.wf(),
            idx < 8,
        ensures
            r == operand(self@, idx as int),
    {
        match idx {
            0 => self.b,
            1 => self.c,
            2 => self.d,
            3 => self.e,
            4 => self.h,
            5 => self.l,
            6 => self.read(self.get_hl()),
            _ => self.a,
        }
    }

    fn set_r8(&mut self, idx: u8, value: u8)
        requires
            old(self)@.wf(),
            idx < 8,
        ensures
            final(self)@ == with_operand(old(self)@, idx as int, value),
            final(self)@.wf(),
    {
        match idx {
            0 => self.b = value,
            1 => self.c = value,
            2 => self.d = value,
            3 => self.e = value,
            4 => self.h = value,
            5 => self.l = value,
            6 => self.write(self.get_hl(), value),
            _ => self.a = value,
        }
    }

    fn get_bc(&self) -> (r: u16)
        ensures
            r == bc(self@),
    {
        proof {
            lemma_join_word(self.b, self.c);
        }
        ((self.b as u16) << 8) | self.c as u16
    }

    fn set_bc(&mut self, value: u16)
        ensures
            final(self)@ == with_bc(old(self)@, value),
    {
        proof {
            lemma_split_word(value);
        }
        self.b = (value >> 8) as u8;
        self.c = value as u8;
    }

    fn get_de(&self) -> (r: u16)
        ensures
            r == de(self@),
    {
        proof {
            lemma_join_word(self.d, self.e);
        }
        ((self.d as u16) << 8) | self.e as u16
    }

    fn set_de(&mut self, value: u16)
        ensures
            final(self)@ == with_de(old(self)@, value),
    {
        proof {
            lemma_split_word(value);
        }
        self.d = (value >> 8) as u8;
        self.e = value as u8;
    }

    fn get_hl(&self) -> (r: u16)
        ensures
            r == hl(self@),
    {
        proof {
            lemma_join_word(self.h, self.l);
        }
        ((self.h as u16) << 8) | self.l as u16
    }

    fn set_hl(&mut self, value: u16)
        ensures
            final(self)@ == with_hl(old(self)@, value),
    {
        proof {
            lemma_split_word(value);
        }
        self.h = (value >> 8) as u8;
        self.l = value as u8;
    }

    fn get_sp(&self) -> (r: u16)
        ensures
            r == self@.sp,
    {
        self.sp
    }

    /// A register pair by its opcode field.
    fn get_pair(&self, p: u8) -> (r: u16)
        requires
            p < 4,
        ensures
            r == pair(self@, p as int),
    {
        match p {
            0 => self.get_bc(),
            1 => self.get_de(),
            2 => self.get_hl(),
            _ => self.get_sp(),
        }
    }

    fn set_pair(&mut self, p: u8, value: u16)
        requires
            p < 4,
        ensures
            final(self)@ == with_pair(old(self)@, p as int, value),
    {
        match p {
            0 => self.set_bc(value),
            1 => self.set_de(value),
            2 => self.set_hl(value),
            _ => self.sp = value,
        }
    }

    // ---- Flags ----

    fn set_zero_flag(&mut self, value: bool)
        requires
            old(self)@.f % 16 == 0,
        ensures
            final(self)@ == (CpuState {
                f: pack_flags(
                    value,
                    flag_n(old(self)@.f),
                    flag_h(old(self)@.f),
                    flag_c(old(self)@.f),
                ),
                ..old(self)@
            }),
    {
        proof {
            lemma_set_flags(self.f);
        }
        if value {
            self.f = self.f | 0x80;
        } else {
            self.f = self.f & !0x80;
        }
    }

    fn set_subtract_flag(&mut self, value: bool)
        requires
            old(self)@.f % 16 == 0,
        ensures
            final(self)@ == (CpuState {
                f: pack_flags(
                    flag_z(old(self)@.f),
                    value,
                    flag_h(old(self)@.f),
                    flag_c(old(self)@.f),
                ),
                ..old(self)@
            }),
    {
        proof {
            lemma_set_flags(self.f);
        }
        if value {
            self.f = self.f | 0x40;
        } else {
            self.f = self.f & !0x40;
        }
    }

    fn set_half_carry_flag(&mut self, value: bool)
        requires
            old(self)@.f % 16 == 0,
        ensures
            final(self)@ == (CpuState {
                f: pack_flags(
                    flag_z(old(self)@.f),
                    flag_n(old(self)@.f),
                    value,
                    flag_c(old(self)@.f),
                ),
                ..old(self)@
            }),
    {
        proof {
            lemma_set_flags(self.f);
        }
        if value {
            self.f = self.f | 0x20;
        } else {
            self.f = self.f & !0x20;
        }
    }

    fn set_carry_flag(&mut self, value: bool)
        requires
            old(self)@.f % 16 == 0,
        ensures
            final(self)@ == (CpuState {
                f: pack_flags(
                    flag_z(old(self)@.f),
                    flag_n(old(self)@.f),
                    flag_h(old(self)@.f),
                    value,
                ),
                ..old(self)@
            }),
    {
        proof {
            lemma_set_flags(self.f);
        }
        if value {
            self.f = self.f | 0x10;
        } else {
            self.f = self.f & !0x10;
        }
    }

    fn set_flags(&mut self, z: bool, n: bool, h: bool, c: bool)
        requires
            old(self)@.f % 16 == 0,
        ensures
            final(self)@ == (CpuState { f: pack_flags(z, n, h, c), ..old(self)@ }),
            final(self)@.f % 16 == 0,
    {
        broadcast use lemma_pack_flags;

        self.set_zero_flag(z);
        self.set_subtract_flag(n);
        self.set_half_carry_flag(h);
        self.set_carry_flag(c);
    }

    fn get_carry_flag(&self) -> (r: bool)
        ensures
            r == flag_c(self@.f),
    {
        proof {
            lemma_masks(self.f);
        }
        (self.f & 0x10) != 0
    }

    fn get_zero_flag(&self) -> (r: bool)
        ensures
            r == flag_z(self@.f),
    {
        proof {
            lemma_masks(self.f);
        }
        (self.f & 0x80) != 0
    }

    fn get_subtract_flag(&self) -> (r: bool)
        ensures
            r == flag_n(self@.f),
    {
        proof {
            lemma_masks(self.f);
        }
        (self.f & 0x40) != 0
    }

    fn get_half_carry_flag(&self) -> (r: bool)
        ensures
            r == flag_h(self@.f),
    {
        proof {
            lemma_masks(self.f);
        }
        (self.f & 0x20) != 0
    }

    /// A condition by its opcode field.
    fn check_condition(&self, i: u8) -> (r: bool)
        requires
            i < 4,
        ensures
            r == condition(self@, i as int),
    {
        match i {
            0 => !self.get_zero_flag(),
            1 => self.get_zero_flag(),
            2 => !self.get_carry_flag(),
            _ => self.get_carry_flag(),
        }
    }

    // ---- Arithmetic ----

    fn inc(&mut self, value: u8) -> (r: u8)
        requires
            old(self)@.wf(),
        ensures
            r == inc_value(value),
            final(self)@ == (CpuState { f: inc_flags(old(self)@.f, value), ..old(self)@ }),
            final(self)@.wf(),
    {
        broadcast use lemma_pack_flags;

        proof {
            lemma_low_nibble(value);
        }
        let result: u8 = value.wrapping_add(1);
        self.set_zero_flag(result == 0);
        self.set_subtract_flag(false);
        self.set_half_carry_flag((value & 0x0F) + 1 > 0x0F);
        result
    }

    fn dec(&mut self, value: u8) -> (r: u8)
        requires
            old(self)@.wf(),
        ensures
            r == dec_value(value),
            final(self)@ == (CpuState { f: dec_flags(old(self)@.f, value), ..old(self)@ }),
            final(self)@.wf(),
    {
        broadcast use lemma_pack_flags;

        proof {
            lemma_low_nibble(value);
        }
        let result: u8 = value.wrapping_sub(1);
        self.set_zero_flag(result == 0);
        self.set_subtract_flag(true);
        self.set_half_carry_flag((value & 0x0F) == 0);
        result
    }

    fn add(&mut self, value: u8)
        requires
            old(self)@.wf(),
        ensures
            final(self)@ == add_a(old(self)@, value, 0),
            final(self)@.wf(),
    {
        let a: u8 = self.a;
        proof {
            lemma_low_nibble(a);
            lemma_low_nibble(value);
        }
        let result: u8 = a.wrapping_add(value);
        self.set_flags(
            result == 0,
            false,
            (a & 0x0F) + (value & 0x0F) > 0x0F,
            (a as u16 + value as u16) > 0xFF,
        );
        self.a = result;
    }

    fn adc(&mut self, value: u8)
        requires
            old(self)@.wf(),
        ensures
            final(self)@ == add_a(old(self)@, value, carry(old(self)@.f)),
            final(self)@.wf(),
    {
        let carry_in: u8 = if self.get_carry_flag() {
            1
        } else {
            0
        };
        let a: u8 = self.a;
        proof {
            lemma_low_nibble(a);
            lemma_low_nibble(value);
        }
        let result: u8 = a.wrapping_add(value).wrapping_add(carry_in);
        self.set_flags(
            result == 0,
            false,
            (a & 0x0F) + (value & 0x0F) + carry_in > 0x0F,
            (a as u16 + value as u16 + carry_in as u16) > 0xFF,
        );
        self.a = result;
    }

    fn sub(&mut self, value: u8)
        requires
            old(self)@.wf(),
        ensures
            final(self)@ == sub_a(old(self)@, value, 0),
            final(self)@.wf(),
    {
        let a: u8 = self.a;
        proof {
            lemma_low_nibble(a);
            lemma_low_nibble(value);
        }
        let result: u8 = a.wrapping_sub(value);
        self.set_flags(result == 0, true, (a & 0x0F) < (value & 0x0F), a < value);
        self.a = result;
    }

    fn sbc(&mut self, value: u8)
        requires
            old(self)@.wf(),
        ensures
            final(self)@ == sub_a(old(self)@, value, carry(old(self)@.f)),
            final(self)@.wf(),
    {
        let carry_in: u8 = if self.get_carry_flag() {
            1
        } else {
            0
        };
        let a: u8 = self.a;
        proof {
            lemma_low_nibble(a);
            lemma_low_nibble(value);
        }
        let result: u8 = a.wrapping_sub(value).wrapping_sub(carry_in);
        self.set_flags(
            result == 0,
            true,
            (a & 0x0F) < ((value & 0x0F) + carry_in),
            (a as u16) < (value as u16 + carry_in as u16),
        );
        self.a = result;
    }

    fn and(&mut self, value: u8)
        requires
            old(self)@.wf(),
        ensures
            final(self)@ == logic_a(old(self)@, old(self)@.a & value, true),
            final(self)@.wf(),
    {
        self.a = self.a & value;
        self.set_flags(self.a == 0, false, true, false);
    }

    fn or(&mut self, value: u8)
        requires
            old(self)@.wf(),
        ensures
            final(self)@ == logic_a(old(self)@, old(self)@.a | value, false),
            final(self)@.wf(),
    {
        self.a = self.a | value;
        self.set_flags(self.a == 0, false, false, false);
    }

    fn xor(&mut self, value: u8)
        requires
            old(self)@.wf(),
        ensures
            final(self)@ == logic_a(old(self)@, old(self)@.a ^ value, false),
            final(self)@.wf(),
    {
        self.a = self.a ^ value;
        self.set_flags(self.a == 0, false, false, false);
    }

    fn cp(&mut self, value: u8)
        requires
            old(self)@.wf(),
        ensures
            final(self)@ == (CpuState { a: old(self)@.a, ..sub_a(old(self)@, value, 0) }),
            final(self)@.wf(),
    {
        let a: u8 = self.a;
        proof {
            lemma_low_nibble(a);
            lemma_low_nibble(value);
        }
        let result: u8 = a.wrapping_sub(value);
        self.set_flags(result == 0, true, (a & 0x0F) < (value & 0x0F), a < value);
    }

    fn add_hl(&mut self, value: u16)
        requires
            old(self)@.wf(),
        ensures
            final(self)@ == crate::isa::add_hl(old(self)@, value),
            final(self)@.wf(),
    {
        broadcast use lemma_pack_flags;

        let hl: u16 = self.get_hl();
        assert(hl & 0x0FFF == hl % 0x1000 && value & 0x0FFF == value % 0x1000) by (bit_vector);
        let result: u16 = hl.wrapping_add(value);
        self.set_subtract_flag(false);
        self.set_half_carry_flag((hl & 0x0FFF) + (value & 0x0FFF) > 0x0FFF);
        self.set_carry_flag((hl as u32) + (value as u32) > 0xFFFF);
        self.set_hl(result);
    }

    /// SP plus a signed byte, with the flags that the addition sets.
    fn sp_plus_signed(&mut self, offset: i8, Ghost(byte): Ghost<u8>) -> (r: u16)
        requires
            old(self)@.wf(),
            offset == signed(byte),
        ensures
            r == moved(old(self)@.sp, offset as int),
            final(self)@ == (CpuState {
                f: sp_offset_flags(old(self)@.sp, byte),
                ..old(self)@
            }),
            final(self)@.wf(),
    {
        let sp: u16 = self.sp;
        let result: u16 = sp.wrapping_add_signed(offset as i16);
        let sp_low: u8 = sp as u8;
        let offset_bits: u8 = offset as u8;
        proof {
            lemma_low_parts(sp);
            lemma_offset_bits(offset, byte);
            lemma_low_nibble(offset_bits);
        }
        self.set_flags(
            false,
            false,
            (sp_low & 0x0F) + (offset_bits & 0x0F) > 0x0F,
            (sp_low as u16) + (offset_bits as u16) > 0xFF,
        );
        result
    }

    #[verifier::rlimit(30)]
    fn daa(&mut self)
        requires
            old(self)@.wf(),
        ensures
            final(self)@ == daa(old(self)@),
            final(self)@.wf(),
    {
        broadcast use lemma_pack_flags;

        let mut a: u8 = self.a;
        let mut adjust: u8 = 0;
        let mut carry_out = false;
        proof {
            lemma_low_nibble(a);
            assert(0u8 | 0x06 == 0x06 && 0u8 | 0x60 == 0x60 && 0x06u8 | 0x60 == 0x66)
                by (bit_vector);
        }
        if self.get_half_carry_flag() || (!self.get_subtract_flag() && (a & 0x0F) > 9) {
            adjust = adjust | 0x06;
        }
        if self.get_carry_flag() || (!self.get_subtract_flag() && a > 0x99) {
            adjust = adjust | 0x60;
            carry_out = true;
        }
        proof {
            assert(adjust == daa_correction(self.a, self.f).0);
            lemma_wrapping_byte(a, adjust);
        }
        a = if self.get_subtract_flag() {
            a.wrapping_sub(adjust)
        } else {
            a.wrapping_add(adjust)
        };
        self.set_zero_flag(a == 0);
        self.set_half_carry_flag(false);
        self.set_carry_flag(carry_out);
        self.a = a;
    }

    /// Tests a bit. The carry flag stays.
    fn bit(&mut self, n: u8, value: u8)
        requires
            old(self)@.wf(),
            n < 8,
        ensures
            final(self)@ == (CpuState {
                f: pack_flags(!bit(value, n), false, true, flag_c(old(self)@.f)),
                ..old(self)@
            }),
            final(self)@.wf(),
    {
        broadcast use lemma_pack_flags;

        assert((value & (1u8 << n) == 0) == !bit(value, n)) by (bit_vector)
            requires
                n < 8,
        ;
        self.set_zero_flag((value & (1u8 << n)) == 0);
        self.set_subtract_flag(false);
        self.set_half_carry_flag(true);
    }

    // ---- Rotates and shifts ----

    fn rlc(&mut self, value: u8) -> (r: u8)
        requires
            old(self)@.wf(),
        ensures
            r == rotate(0, value, carry(old(self)@.f)).0,
            final(self)@ == (CpuState {
                f: rotate_flags(0, value, carry(old(self)@.f)),
                ..old(self)@
            }),
            final(self)@.wf(),
    {
        proof {
            lemma_shifts(value);
        }
        let carry_out = (value & 0x80) != 0;
        let result: u8 = (value << 1) | (if carry_out {
            1
        } else {
            0
        });
        self.set_flags(result == 0, false, false, carry_out);
        result
    }

    fn rrc(&mut self, value: u8) -> (r: u8)
        requires
            old(self)@.wf(),
        ensures
            r == rotate(1, value, carry(old(self)@.f)).0,
            final(self)@ == (CpuState {
                f: rotate_flags(1, value, carry(old(self)@.f)),
                ..old(self)@
            }),
            final(self)@.wf(),
    {
        proof {
            lemma_shifts(value);
        }
        let carry_out = (value & 0x01) != 0;
        let result: u8 = (value >> 1) | (if carry_out {
            0x80
        } else {
            0
        });
        self.set_flags(result == 0, false, false, carry_out);
        result
    }

    fn rl(&mut self, value: u8) -> (r: u8)
        requires
            old(self)@.wf(),
        ensures
            r == rotate(2, value, carry(old(self)@.f)).0,
            final(self)@ == (CpuState {
                f: rotate_flags(2, value, carry(old(self)@.f)),
                ..old(self)@
            }),
            final(self)@.wf(),
    {
        proof {
            lemma_shifts(value);
        }
        let carry_in: u8 = if self.get_carry_flag() {
            1
        } else {
            0
        };
        let carry_out = (value & 0x80) != 0;
        let result: u8 = (value << 1) | carry_in;
        self.set_flags(result == 0, false, false, carry_out);
        result
    }

    fn rr(&mut self, value: u8) -> (r: u8)
        requires
            old(self)@.wf(),
        ensures
            r == rotate(3, value, carry(old(self)@.f)).0,
            final(self)@ == (CpuState {
                f: rotate_flags(3, value, carry(old(self)@.f)),
                ..old(self)@
            }),
            final(self)@.wf(),
    {
        proof {
            lemma_shifts(value);
        }
        let carry_in: u8 = if self.get_carry_flag() {
            0x80
        } else {
            0
        };
        let carry_out = (value & 1) != 0;
        let result: u8 = (value >> 1) | carry_in;
        self.set_flags(result == 0, false, false, carry_out);
        result
    }

    fn sla(&mut self, value: u8) -> (r: u8)
        requires
            old(self)@.wf(),
        ensures
            r == rotate(4, value, carry(old(self)@.f)).0,
            final(self)@ == (CpuState {
                f: rotate_flags(4, value, carry(old(self)@.f)),
                ..old(self)@
            }),
            final(self)@.wf(),
    {
        proof {
            lemma_shifts(value);
        }
        let carry_out = (value & 0x80) != 0;
        let result: u8 = value << 1;
        self.set_flags(result == 0, false, false, carry_out);
        result
    }

    fn sra(&mut self, value: u8) -> (r: u8)
        requires
            old(self)@.wf(),
        ensures
            r == rotate(5, value, carry(old(self)@.f)).0,
            final(self)@ == (CpuState {
                f: rotate_flags(5, value, carry(old(self)@.f)),
                ..old(self)@
            }),
            final(self)@.wf(),
    {
        proof {
            lemma_shifts(value);
        }
        let carry_out = (value & 1) != 0;
        let result: u8 = (value >> 1) | (value & 0x80);
        self.set_flags(result == 0, false, false, carry_out);
        result
    }

    fn swap(&mut self, value: u8) -> (r: u8)
        requires
            old(self)@.wf(),
        ensures
            r == rotate(6, value, carry(old(self)@.f)).0,
            final(self)@ == (CpuState {
                f: rotate_flags(6, value, carry(old(self)@.f)),
                ..old(self)@
            }),
            final(self)@.wf(),
    {
        proof {
            lemma_shifts(value);
        }
        let result: u8 = (value << 4) | (value >> 4);
        self.set_flags(result == 0, false, false, false);
        result
    }

    fn srl(&mut self, value: u8) -> (r: u8)
        requires
            old(self)@.wf(),
        ensures
            r == rotate(7, value, carry(old(self)@.f)).0,
            final(self)@ == (CpuState {
                f: rotate_flags(7, value, carry(old(self)@.f)),
                ..old(self)@
            }),
            final(self)@.wf(),
    {
        proof {
            lemma_shifts(value);
        }
        let carry_out = (value & 1) != 0;
        let result: u8 = value >> 1;
        self.set_flags(result == 0, false, false, carry_out);
        result
    }

    // ---- Control flow ----

    fn jump(&mut self, address: u16)
        ensures
            final(self)@ == (CpuState { pc: address, ..old(self)@ }),
    {
        self.pc = address;
    }

    fn jump_relative(&mut self, offset: i8)
        ensures
            final(self)@ == (CpuState { pc: moved(old(self)@.pc, offset as int), ..old(self)@ }),
    {
        self.pc = self.pc.wrapping_add_signed(offset as i16);
    }

    fn push_byte(&mut self, value: u8)
        requires
            old(self)@.wf(),
        ensures
            final(self)@ == store(
                CpuState { sp: moved(old(self)@.sp, -1), ..old(self)@ },
                moved(old(self)@.sp, -1),
                value,
            ),
            final(self)@.wf(),
    {
        self.sp = self.sp.wrapping_sub(1);
        self.write(self.sp, value);
    }

    fn pop_byte(&mut self) -> (r: u8)
        requires
            old(self)@.wf(),
        ensures
            r == load(old(self)@, old(self)@.sp),
            final(self)@ == (CpuState { sp: moved(old(self)@.sp, 1), ..old(self)@ }),
            final(self)@.wf(),
    {
        let value: u8 = self.read(self.sp);
        self.sp = self.sp.wrapping_add(1);
        value
    }

    fn push_word(&mut self, value: u16)
        requires
            old(self)@.wf(),
        ensures
            final(self)@ == push(old(self)@, value),
            final(self)@.wf(),
    {
        proof {
            lemma_split_word(value);
        }
        let high: u8 = (value >> 8) as u8;
        let low: u8 = value as u8;
        self.push_byte(high);
        self.push_byte(low);
    }

    fn pop_word(&mut self) -> (r: u16)
        requires
            old(self)@.wf(),
        ensures
            r == top(old(self)@),
            final(self)@ == drop_top(old(self)@),
            final(self)@.wf(),
    {
        let low: u8 = self.pop_byte();
        let high: u8 = self.pop_byte();
        proof {
            lemma_join_word(high, low);
        }
        ((high as u16) << 8) | low as u16
    }

    fn call(&mut self, address: u16)
        requires
            old(self)@.wf(),
        ensures
            final(self)@ == call(old(self)@, address),
            final(self)@.wf(),
    {
        self.push_word(self.pc);
        self.pc = address;
    }

    fn ret(&mut self)
        requires
            old(self)@.wf(),
        ensures
            final(self)@ == ret(old(self)@),
            final(self)@.wf(),
    {
        self.pc = self.pop_word();
    }

    fn rst(&mut self, address: u16)
        requires
            old(self)@.wf(),
        ensures
            final(self)@ == call(old(self)@, address),
            final(self)@.wf(),
    {
        self.push_word(self.pc);
        self.pc = address;
    }

    // ---- Execution ----

    /// Runs one step: dispatches an interrupt, waits in HALT or executes an
    /// instruction. The result is the number of T-cycles it took.
    #[verifier::rlimit(30)]
    pub fn step(&mut self) -> (r: u32)
        requires
            old(self)@.wf(),
        ensures
            final(self)@ == cpu_step(old(self)@).0,
            r == cpu_step(old(self)@).1,
            4 <= r <= 24,
            final(self)@.wf(),
    {
        if self.ime_delay > 0 {
            self.ime_delay -= 1;
            if self.ime_delay == 0 {
                self.ime = true;
            }
        }
        if self.handle_interrupts() {
            self.bus.tick(20);
            return 20;
        }
        if self.halted {
            self.bus.tick(4);
            return 4;
        }
        let opcode: u8 = self.fetch_byte();
        let cycles: u8 = self.execute(opcode);
        self.bus.tick(cycles as u32);
        cycles as u32
    }

    /// Dispatches the pending interrupt of highest priority where the master
    /// enable allows it. The result tells whether it did.
    fn handle_interrupts(&mut self) -> (r: bool)
        requires
            old(self)@.wf(),
        ensures
            (final(self)@, r) == interrupts(old(self)@),
            final(self)@.wf(),
    {
        let pending: u8 = self.bus.pending();
        if !self.ime {
            if self.halted && pending != 0 {
                self.halted = false;
            }
            return false;
        }
        if pending == 0 {
            return false;
        }
        self.halted = false;
        self.ime = false;
        proof {
            lemma_trailing_zeros(pending, self.bus@.interrupt_flag & self.bus@.interrupt_enable);
        }
        let n: u8 = pending.trailing_zeros() as u8;
        self.bus.acknowledge(n);
        let vector: u16 = match n {
            0 => 0x40,
            1 => 0x48,
            2 => 0x50,
            3 => 0x58,
            _ => 0x60,
        };
        self.push_word(self.pc);
        self.pc = vector;
        true
    }

    /// Executes an instruction whose opcode has been fetched. The result is
    /// the number of T-cycles it takes.
    fn execute(&mut self, opcode: u8) -> (r: u8)
        requires
            old(self)@.wf(),
        ensures
            final(self)@ == execute(old(self)@, opcode).0,
            r == execute(old(self)@, opcode).1,
            4 <= r <= 24,
            final(self)@.wf(),
    {
        if opcode < 0x40 {
            self.execute_block0(opcode)
        } else if opcode < 0x80 {
            self.execute_block1(opcode)
        } else if opcode < 0xC0 {
            self.execute_block2(opcode)
        } else {
            self.execute_block3(opcode)
        }
    }

    /// Opcodes 0x00 to 0x3F.
    fn execute_block0(&mut self, opcode: u8) -> (r: u8)
        requires
            old(self)@.wf(),
            opcode < 0x40,
        ensures
            final(self)@ == block0(old(self)@, opcode).0,
            r == block0(old(self)@, opcode).1,
            4 <= r <= 24,
            final(self)@.wf(),
    {
        proof {
            reveal(block0);
        }
        let y: u8 = opcode / 8;
        match opcode % 8 {
            0 => self.execute_relative_jumps(y),
            1 => self.execute_pair_loads(y),
            2 => self.execute_indirect_loads(y),
            3 => self.execute_pair_steps(y),
            // INC r
            4 => self.increment_operand(y),
            // DEC r
            5 => self.decrement_operand(y),
            // LD r,n
            6 => {
                let value: u8 = self.fetch_byte();
                self.set_r8(y, value);
                if y == 6 {
                    12
                } else {
                    8
                }
            },
            _ => {
                self.execute_accumulator(opcode);
                4
            },
        }
    }

    /// NOP, LD (nn),SP, STOP and the relative jumps.
    fn execute_relative_jumps(&mut self, y: u8) -> (r: u8)
        requires
            old(self)@.wf(),
            y < 8,
        ensures
            final(self)@ == relative_jumps(old(self)@, y as int).0,
            r == relative_jumps(old(self)@, y as int).1,
            4 <= r <= 24,
            final(self)@.wf(),
    {
        proof {
            reveal(relative_jumps);
        }
        match y {
            // NOP
            0 => 4,
            // LD (nn),SP
            1 => {
                let address: u16 = self.fetch_word();
                let sp: u16 = self.sp;
                proof {
                    lemma_split_word(sp);
                    lemma_word_steps(address);
                }
                self.write(address, sp as u8);
                self.write(address.wrapping_add(1), (sp >> 8) as u8);
                20
            },
            // STOP, a no-operation with a padding byte
            2 => {
                self.fetch_byte();
                4
            },
            // JR e
            3 => self.branch_relative(true),
            // JR cc,e
            _ => {
                let taken = self.check_condition(y - 4);
                self.branch_relative(taken)
            },
        }
    }

    /// LD rr,nn and ADD HL,rr.
    fn execute_pair_loads(&mut self, y: u8) -> (r: u8)
        requires
            old(self)@.wf(),
            y < 8,
        ensures
            final(self)@ == pair_loads(old(self)@, y as int).0,
            r == pair_loads(old(self)@, y as int).1,
            4 <= r <= 24,
            final(self)@.wf(),
    {
        proof {
            reveal(pair_loads);
        }
        if y % 2 == 0 {
            let value: u16 = self.fetch_word();
            self.set_pair(y / 2, value);
            12
        } else {
            let value: u16 = self.get_pair(y / 2);
            self.add_hl(value);
            8
        }
    }

    /// LD (rr),A and LD A,(rr), through BC, DE, HL with increment and HL with
    /// decrement.
    fn execute_indirect_loads(&mut self, y: u8) -> (r: u8)
        requires
            old(self)@.wf(),
            y < 8,
        ensures
            final(self)@ == indirect_loads(old(self)@, y as int).0,
            r == indirect_loads(old(self)@, y as int).1,
            4 <= r <= 24,
            final(self)@.wf(),
    {
        proof {
            reveal(indirect_loads);
        }
        let address: u16 = match y / 2 {
            0 => self.get_bc(),
            1 => self.get_de(),
            _ => self.get_hl(),
        };
        if y % 2 == 0 {
            self.write(address, self.a);
        } else {
            self.a = self.read(address);
        }
        proof {
            lemma_word_steps(address);
        }
        match y / 2 {
            2 => self.set_hl(address.wrapping_add(1)),
            3 => self.set_hl(address.wrapping_sub(1)),
            _ => {},
        }
        8
    }

    /// INC rr and DEC rr.
    fn execute_pair_steps(&mut self, y: u8) -> (r: u8)
        requires
            old(self)@.wf(),
            y < 8,
        ensures
            final(self)@ == pair_steps(old(self)@, y as int).0,
            r == pair_steps(old(self)@, y as int).1,
            4 <= r <= 24,
            final(self)@.wf(),
    {
        proof {
            reveal(pair_steps);
        }
        let value: u16 = self.get_pair(y / 2);
        proof {
            lemma_word_steps(value);
        }
        if y % 2 == 0 {
            self.set_pair(y / 2, value.wrapping_add(1));
        } else {
            self.set_pair(y / 2, value.wrapping_sub(1));
        }
        8
    }

    /// The second half of JR cc,e.
    fn branch_relative(&mut self, taken: bool) -> (r: u8)
        requires
            old(self)@.wf(),
        ensures
            final(self)@ == (if taken {
                jump_relative(old(self)@)
            } else {
                skip(old(self)@, 1)
            }),
            r == (if taken {
                12u8
            } else {
                8u8
            }),
            final(self)@.wf(),
    {
        let offset: i8 = self.fetch_signed_byte();
        if taken {
            self.jump_relative(offset);
            12
        } else {
            8
        }
    }

    /// INC r.
    fn increment_operand(&mut self, idx: u8) -> (r: u8)
        requires
            old(self)@.wf(),
            idx < 8,
        ensures
            final(self)@ == with_operand(
                CpuState {
                    f: inc_flags(old(self)@.f, operand(old(self)@, idx as int)),
                    ..old(self)@
                },
                idx as int,
                inc_value(operand(old(self)@, idx as int)),
            ),
            r == (if idx == 6 {
                12u8
            } else {
                4u8
            }),
            final(self)@.wf(),
    {
        let value: u8 = self.get_r8(idx);
        let result: u8 = self.inc(value);
        self.set_r8(idx, result);
        if idx == 6 {
            12
        } else {
            4
        }
    }

    /// DEC r.
    fn decrement_operand(&mut self, idx: u8) -> (r: u8)
        requires
            old(self)@.wf(),
            idx < 8,
        ensures
            final(self)@ == with_operand(
                CpuState {
                    f: dec_flags(old(self)@.f, operand(old(self)@, idx as int)),
                    ..old(self)@
                },
                idx as int,
                dec_value(operand(old(self)@, idx as int)),
            ),
            r == (if idx == 6 {
                12u8
            } else {
                4u8
            }),
            final(self)@.wf(),
    {
        let value: u8 = self.get_r8(idx);
        let result: u8 = self.dec(value);
        self.set_r8(idx, result);
        if idx == 6 {
            12
        } else {
            4
        }
    }

    /// The rotates of A, DAA, CPL, SCF and CCF.
    #[verifier::rlimit(30)]
    fn execute_accumulator(&mut self, opcode: u8)
        requires
            old(self)@.wf(),
            opcode < 0x40,
            opcode % 8 == 7,
        ensures
            final(self)@ == accumulator_operation(old(self)@, opcode as int / 8),
            final(self)@.wf(),
    {
        broadcast use lemma_pack_flags;

        match opcode {
            0x07 => {
                let a: u8 = self.a;
                self.a = self.rlc(a);
                self.set_zero_flag(false);
            },
            0x0F => {
                let a: u8 = self.a;
                self.a = self.rrc(a);
                self.set_zero_flag(false);
            },
            0x17 => {
                let a: u8 = self.a;
                self.a = self.rl(a);
                self.set_zero_flag(false);
            },
            0x1F => {
                let a: u8 = self.a;
                self.a = self.rr(a);
                self.set_zero_flag(false);
            },
            0x27 => self.daa(),
            0x2F => {
                let a: u8 = self.a;
                assert(!a == 255 - a) by (bit_vector);
                self.a = !self.a;
                self.set_subtract_flag(true);
                self.set_half_carry_flag(true);
            },
            0x37 => {
                self.set_carry_flag(true);
                self.set_subtract_flag(false);
                self.set_half_carry_flag(false);
            },
            _ => {
                let carry_in = self.get_carry_flag();
                self.set_carry_flag(!carry_in);
                self.set_subtract_flag(false);
                self.set_half_carry_flag(false);
            },
        }
    }

    /// Opcodes 0x40 to 0x7F.
    fn execute_block1(&mut self, opcode: u8) -> (r: u8)
        requires
            old(self)@.wf(),
            0x40 <= opcode < 0x80,
        ensures
            final(self)@ == block1(old(self)@, opcode).0,
            r == block1(old(self)@, opcode).1,
            4 <= r <= 24,
            final(self)@.wf(),
    {
        proof {
            reveal(block1);
        }
        if opcode == 0x76 {
            self.halted = true;
            return 4;
        }
        proof {
            lemma_three_bits(opcode);
        }
        let dest: u8 = (opcode >> 3) & 0x07;
        let src: u8 = opcode & 0x07;
        let value: u8 = self.get_r8(src);
        self.set_r8(dest, value);
        if dest == 6 || src == 6 {
            8
        } else {
            4
        }
    }

    /// Opcodes 0x80 to 0xBF.
    fn execute_block2(&mut self, opcode: u8) -> (r: u8)
        requires
            old(self)@.wf(),
            0x80 <= opcode < 0xC0,
        ensures
            final(self)@ == block2(old(self)@, opcode).0,
            r == block2(old(self)@, opcode).1,
            4 <= r <= 24,
            final(self)@.wf(),
    {
        proof {
            reveal(block2);
            lemma_three_bits(opcode);
        }
        let src: u8 = opcode & 0x07;
        let value: u8 = self.get_r8(src);
        self.apply_alu((opcode >> 3) & 0x07, value);
        if src == 6 {
            8
        } else {
            4
        }
    }

    /// One of the eight operations on A.
    fn apply_alu(&mut self, operation: u8, value: u8)
        requires
            old(self)@.wf(),
            operation < 8,
        ensures
            final(self)@ == alu(old(self)@, operation as int, value),
            final(self)@.wf(),
    {
        match operation {
            0 => self.add(value),
            1 => self.adc(value),
            2 => self.sub(value),
            3 => self.sbc(value),
            4 => self.and(value),
            5 => self.xor(value),
            6 => self.or(value),
            _ => self.cp(value),
        }
    }

    /// Opcodes 0xC0 to 0xFF.
    fn execute_block3(&mut self, opcode: u8) -> (r: u8)
        requires
            old(self)@.wf(),
            0xC0 <= opcode,
        ensures
            final(self)@ == block3(old(self)@, opcode).0,
            r == block3(old(self)@, opcode).1,
            4 <= r <= 24,
            final(self)@.wf(),
    {
        proof {
            reveal(block3);
        }
        let y: u8 = (opcode / 8) % 8;
        match opcode % 8 {
            0 => self.execute_returns_and_offsets(y),
            1 => self.execute_pops(y),
            2 => self.execute_conditional_jumps(y),
            3 => self.execute_jump_and_enable(y),
            4 => self.execute_conditional_calls(y),
            5 => self.execute_pushes(y),
            // Operations on A with the next byte
            6 => {
                let value: u8 = self.fetch_byte();
                self.apply_alu(y, value);
                8
            },
            // RST
            _ => {
                self.rst(y as u16 * 8);
                16
            },
        }
    }

    /// RET cc, the accesses to the I/O page and SP plus an offset.
    fn execute_returns_and_offsets(&mut self, y: u8) -> (r: u8)
        requires
            old(self)@.wf(),
            y < 8,
        ensures
            final(self)@ == returns_and_offsets(old(self)@, y as int).0,
            r == returns_and_offsets(old(self)@, y as int).1,
            4 <= r <= 24,
            final(self)@.wf(),
    {
        proof {
            reveal(returns_and_offsets);
        }
        match y {
            // RET cc
            0..=3 => {
                let taken = self.check_condition(y);
                if taken {
                    self.ret();
                    20
                } else {
                    8
                }
            },
            // LDH (n),A
            4 => {
                let n: u8 = self.fetch_byte();
                self.write(0xFF00 + n as u16, self.a);
                12
            },
            // ADD SP,e
            5 => {
                self.sp = self.fetch_sp_offset();
                16
            },
            // LDH A,(n)
            6 => {
                let n: u8 = self.fetch_byte();
                self.a = self.read(0xFF00 + n as u16);
                12
            },
            // LD HL,SP+e
            _ => {
                let result: u16 = self.fetch_sp_offset();
                self.set_hl(result);
                12
            },
        }
    }

    /// POP rr, RET, RETI, JP (HL) and LD SP,HL.
    fn execute_pops(&mut self, y: u8) -> (r: u8)
        requires
            old(self)@.wf(),
            y < 8,
        ensures
            final(self)@ == pops(old(self)@, y as int).0,
            r == pops(old(self)@, y as int).1,
            4 <= r <= 24,
            final(self)@.wf(),
    {
        proof {
            reveal(pops);
        }
        match y {
            // POP rr
            0 | 2 | 4 => {
                let value: u16 = self.pop_word();
                self.set_pair(y / 2, value);
                12
            },
            // POP AF
            6 => {
                let value: u16 = self.pop_word();
                self.set_af(value);
                12
            },
            // RET
            1 => {
                self.ret();
                16
            },
            // RETI
            3 => {
                self.ret();
                self.ime = true;
                self.ime_delay = 0;
                16
            },
            // JP (HL)
            5 => {
                self.jump(self.get_hl());
                4
            },
            // LD SP,HL
            _ => {
                self.sp = self.get_hl();
                8
            },
        }
    }

    /// JP cc,nn and the accesses through C and through an absolute address.
    fn execute_conditional_jumps(&mut self, y: u8) -> (r: u8)
        requires
            old(self)@.wf(),
            y < 8,
        ensures
            final(self)@ == conditional_jumps(old(self)@, y as int).0,
            r == conditional_jumps(old(self)@, y as int).1,
            4 <= r <= 24,
            final(self)@.wf(),
    {
        proof {
            reveal(conditional_jumps);
        }
        match y {
            // JP cc,nn
            0..=3 => {
                let taken = self.check_condition(y);
                let address: u16 = self.fetch_word();
                if taken {
                    self.jump(address);
                    16
                } else {
                    12
                }
            },
            // LD (C),A
            4 => {
                self.write(0xFF00 + self.c as u16, self.a);
                8
            },
            // LD (nn),A
            5 => {
                let address: u16 = self.fetch_word();
                self.write(address, self.a);
                16
            },
            // LD A,(C)
            6 => {
                self.a = self.read(0xFF00 + self.c as u16);
                8
            },
            // LD A,(nn)
            _ => {
                let address: u16 = self.fetch_word();
                self.a = self.read(address);
                16
            },
        }
    }

    /// JP nn, the prefix of the second table, DI and EI.
    fn execute_jump_and_enable(&mut self, y: u8) -> (r: u8)
        requires
            old(self)@.wf(),
            y < 8,
        ensures
            final(self)@ == jump_and_enable(old(self)@, y as int).0,
            r == jump_and_enable(old(self)@, y as int).1,
            4 <= r <= 24,
            final(self)@.wf(),
    {
        proof {
            reveal(jump_and_enable);
        }
        match y {
            // JP nn
            0 => {
                let address: u16 = self.fetch_word();
                self.jump(address);
                16
            },
            // The prefix of the second table
            1 => {
                let cb_opcode: u8 = self.fetch_byte();
                self.execute_cb(cb_opcode)
            },
            // DI
            6 => {
                self.ime = false;
                self.ime_delay = 0;
                4
            },
            // EI
            7 => {
                if self.ime_delay == 0 {
                    self.ime_delay = 2;
                }
                4
            },
            // Opcodes that do not exist
            _ => {
                self.bus.report_unknown_opcode(0xC3 + 8 * y);
                4
            },
        }
    }

    /// CALL cc,nn.
    fn execute_conditional_calls(&mut self, y: u8) -> (r: u8)
        requires
            old(self)@.wf(),
            y < 8,
        ensures
            final(self)@ == conditional_calls(old(self)@, y as int).0,
            r == conditional_calls(old(self)@, y as int).1,
            4 <= r <= 24,
            final(self)@.wf(),
    {
        proof {
            reveal(conditional_calls);
        }
        match y {
            0..=3 => {
                let taken = self.check_condition(y);
                let address: u16 = self.fetch_word();
                if taken {
                    self.call(address);
                    24
                } else {
                    12
                }
            },
            // Opcodes that do not exist
            _ => {
                self.bus.report_unknown_opcode(0xC4 + 8 * y);
                4
            },
        }
    }

    /// PUSH rr and CALL nn.
    fn execute_pushes(&mut self, y: u8) -> (r: u8)
        requires
            old(self)@.wf(),
            y < 8,
        ensures
            final(self)@ == pushes(old(self)@, y as int).0,
            r == pushes(old(self)@, y as int).1,
            4 <= r <= 24,
            final(self)@.wf(),
    {
        proof {
            reveal(pushes);
        }
        match y {
            // PUSH rr
            0 | 2 | 4 => {
                let value: u16 = self.get_pair(y / 2);
                self.push_word(value);
                16
            },
            // PUSH AF
            6 => {
                proof {
                    lemma_join_word(self.a, self.f);
                }
                let value: u16 = ((self.a as u16) << 8) | self.f as u16;
                self.push_word(value);
                16
            },
            // CALL nn
            1 => {
                let address: u16 = self.fetch_word();
                self.call(address);
                24
            },
            // Opcodes that do not exist
            _ => {
                self.bus.report_unknown_opcode(0xC5 + 8 * y);
                4
            },
        }
    }

    /// SP plus the signed byte at PC, with the flags that the addition sets.
    fn fetch_sp_offset(&mut self) -> (r: u16)
        requires
            old(self)@.wf(),
        ensures
            r == moved(old(self)@.sp, signed(imm8(old(self)@))),
            final(self)@ == (CpuState {
                f: sp_offset_flags(old(self)@.sp, imm8(old(self)@)),
                ..skip(old(self)@, 1)
            }),
            final(self)@.wf(),
    {
        let ghost byte = imm8(self@);
        let offset: i8 = self.fetch_signed_byte();
        self.sp_plus_signed(offset, Ghost(byte))
    }

    /// POP AF: the lower four bits of F stay 0.
    fn set_af(&mut self, value: u16)
        requires
            old(self)@.wf(),
        ensures
            final(self)@ == with_af(old(self)@, value),
            final(self)@.wf(),
    {
        proof {
            lemma_split_word(value);
            lemma_high_nibble(value as u8);
        }
        self.a = (value >> 8) as u8;
        self.f = (value as u8) & 0xF0;
    }

    /// Executes an instruction of the second table, whose opcode behind the
    /// prefix 0xCB has been fetched. The result is the number of T-cycles it
    /// takes.
    pub fn execute_cb(&mut self, opcode: u8) -> (r: u8)
        requires
            old(self)@.wf(),
        ensures
            final(self)@ == prefixed(old(self)@, opcode).0,
            r == prefixed(old(self)@, opcode).1,
            4 <= r <= 24,
            final(self)@.wf(),
    {
        proof {
            reveal(prefixed);
            lemma_three_bits(opcode);
        }
        let reg_idx: u8 = opcode & 0x07;
        let bit_idx: u8 = (opcode >> 3) & 0x07;
        let is_hl = reg_idx == 6;
        let value: u8 = self.get_r8(reg_idx);
        match opcode {
            0x00..=0x3F => {
                let result: u8 = self.apply_rotate(bit_idx, value);
                self.set_r8(reg_idx, result);
                if is_hl {
                    16
                } else {
                    8
                }
            },
            0x40..=0x7F => {
                self.bit(bit_idx, value);
                if is_hl {
                    12
                } else {
                    8
                }
            },
            0x80..=0xBF => {
                self.set_r8(reg_idx, value & !(1u8 << bit_idx));
                if is_hl {
                    16
                } else {
                    8
                }
            },
            0xC0..=0xFF => {
                self.set_r8(reg_idx, value | (1u8 << bit_idx));
                if is_hl {
                    16
                } else {
                    8
                }
            },
        }
    }

    /// One of the eight rotates and shifts.
    fn apply_rotate(&mut self, operation: u8, value: u8) -> (r: u8)
        requires
            old(self)@.wf(),
            operation < 8,
        ensures
            r == rotate(operation as int, value, carry(old(self)@.f)).0,
            final(self)@ == (CpuState {
                f: rotate_flags(operation as int, value, carry(old(self)@.f)),
                ..old(self)@
            }),
            final(self)@.wf(),
    {
        match operation {
            0 => self.rlc(value),
            1 => self.rrc(value),
            2 => self.rl(value),
            3 => self.rr(value),
            4 => self.sla(value),
            5 => self.sra(value),
            6 => self.swap(value),
            _ => self.srl(value),
        }
    }
}

// ---- Bit arithmetic ----

/// Stepping a word up or down wraps around.
proof fn lemma_word_steps(w: u16)
    ensures
        w.wrapping_add(1) == moved(w, 1),
        w.wrapping_sub(1) == moved(w, -1),
{
}

/// Masking the low nibble away.
proof fn lemma_high_nibble(v: u8)
    by (bit_vector)
    ensures
        v & 0xF0 == v - v % 16,
        (v & 0xF0) % 16 == 0,
{
}

/// A pending mask that is not zero has one of the bits 0 to 4.
pub proof fn lemma_some_pending(pending: u8, flags: u8)
    by (bit_vector)
    requires
        pending == flags & 0x1F,
        pending != 0,
    ensures
        bit(pending, 0) || bit(pending, 1) || bit(pending, 2) || bit(pending, 3) || bit(pending, 4),
{
}

/// The lowest bit of a pending mask is the interrupt of highest priority.
proof fn lemma_trailing_zeros(pending: u8, flags: u8)
    requires
        pending == flags & 0x1F,
        pending != 0,
    ensures
        u8_trailing_zeros(pending) == highest_priority(pending),
        u8_trailing_zeros(pending) < 5,
{
    broadcast use vstd::std_specs::bits::axiom_u8_trailing_zeros;

    let n = u8_trailing_zeros(pending) as u8;
    lemma_some_pending(pending, flags);
    assert((pending >> n) & 1u8 == 1u8);
    if n > 0 {
        assert((pending >> 0u8) & 1u8 == 0u8);
    }
    if n > 1 {
        assert((pending >> 1u8) & 1u8 == 0u8);
    }
    if n > 2 {
        assert((pending >> 2u8) & 1u8 == 0u8);
    }
    if n > 3 {
        assert((pending >> 3u8) & 1u8 == 0u8);
    }
    if n > 4 {
        assert((pending >> 4u8) & 1u8 == 0u8);
    }
}

/// The flags that were packed are those that are read.
pub broadcast proof fn lemma_pack_flags(z: bool, n: bool, h: bool, c: bool)
    ensures
        #![trigger pack_flags(z, n, h, c)]
        flag_z(pack_flags(z, n, h, c)) == z,
        flag_n(pack_flags(z, n, h, c)) == n,
        flag_h(pack_flags(z, n, h, c)) == h,
        flag_c(pack_flags(z, n, h, c)) == c,
        pack_flags(z, n, h, c) % 16 == 0,
{
    let f = pack_flags(z, n, h, c);
    assert(bit(f, 7) == z && bit(f, 6) == n && bit(f, 5) == h && bit(f, 4) == c && f % 16 == 0)
        by (bit_vector)
        requires
            f == pack_flags(z, n, h, c),
    ;
}

/// Setting and clearing a single flag of the register.
proof fn lemma_set_flags(f: u8)
    requires
        f % 16 == 0,
    ensures
        f | 0x80 == pack_flags(true, flag_n(f), flag_h(f), flag_c(f)),
        f & !0x80u8 == pack_flags(false, flag_n(f), flag_h(f), flag_c(f)),
        f | 0x40 == pack_flags(flag_z(f), true, flag_h(f), flag_c(f)),
        f & !0x40u8 == pack_flags(flag_z(f), false, flag_h(f), flag_c(f)),
        f | 0x20 == pack_flags(flag_z(f), flag_n(f), true, flag_c(f)),
        f & !0x20u8 == pack_flags(flag_z(f), flag_n(f), false, flag_c(f)),
        f | 0x10 == pack_flags(flag_z(f), flag_n(f), flag_h(f), true),
        f & !0x10u8 == pack_flags(flag_z(f), flag_n(f), flag_h(f), false),
        f == pack_flags(flag_z(f), flag_n(f), flag_h(f), flag_c(f)),
{
    assert(f | 0x80 == pack_flags(true, flag_n(f), flag_h(f), flag_c(f)) && f & !0x80u8
        == pack_flags(false, flag_n(f), flag_h(f), flag_c(f)) && f | 0x40 == pack_flags(
        flag_z(f),
        true,
        flag_h(f),
        flag_c(f),
    ) && f & !0x40u8 == pack_flags(flag_z(f), false, flag_h(f), flag_c(f)) && f | 0x20
        == pack_flags(flag_z(f), flag_n(f), true, flag_c(f)) && f & !0x20u8 == pack_flags(
        flag_z(f),
        flag_n(f),
        false,
        flag_c(f),
    ) && f | 0x10 == pack_flags(flag_z(f), flag_n(f), flag_h(f), true) && f & !0x10u8
        == pack_flags(flag_z(f), flag_n(f), flag_h(f), false) && f == pack_flags(
        flag_z(f),
        flag_n(f),
        flag_h(f),
        flag_c(f),
    )) by (bit_vector)
        requires
            f % 16 == 0,
    ;
}

/// A signed byte cast to an unsigned one gives its bits back.
proof fn lemma_offset_bits(offset: i8, byte: u8)
    requires
        signed(byte) == offset,
    ensures
        offset as u8 == byte,
{
    assert((offset >= 0 ==> offset as u8 == offset) && (offset < 0 ==> offset as u8 == offset
        + 0x100)) by (bit_vector);
}

/// The shifts of a byte as arithmetic.
proof fn lemma_shifts(v: u8)
    ensures
        (v & 0x80 != 0) == (v >= 128),
        (v & 0x01 != 0) == (v % 2 == 1),
        (v << 1) == (v * 2) % 256,
        (v << 1) | 1u8 == (v * 2) % 256 + 1,
        (v << 1) | 0u8 == (v * 2) % 256,
        v >> 1 == v / 2,
        (v >> 1) | 0x80 == v / 2 + 128,
        (v >> 1) | 0u8 == v / 2,
        (v >> 1) | (v & 0x80) == v / 2 + (v / 128) * 128,
        (v << 4) | (v >> 4) == (v % 16) * 16 + v / 16,
{
    assert((v & 0x80 != 0) == (v >= 128) && (v & 0x01 != 0) == (v % 2 == 1) && (v << 1) == (v * 2)
        % 256 && (v << 1) | 1u8 == (v * 2) % 256 + 1 && (v << 1) | 0u8 == (v * 2) % 256 && v >> 1
        == v / 2 && (v >> 1) | 0x80 == v / 2 + 128 && (v >> 1) | 0u8 == v / 2 && (v >> 1) | (v
        & 0x80) == v / 2 + (v / 128) * 128 && (v << 4) | (v >> 4) == (v % 16) * 16 + v / 16)
        by (bit_vector);
}

} // verus!

//! The controller and its register at 0xFF00.
//!
//! Bits 4 and 5 of the register select a group of buttons when they are
//! clear: bit 4 the directions, bit 5 the four others. Bits 0 to 3 report the
//! selected buttons and are active low: 0 is pressed.

use vstd::prelude::*;

use crate::bits::{bit, lemma_masks};

verus! {

#[derive(Clone, Copy, PartialEq, Eq, Debug, Structural)]
pub enum Button {
    Right,
    Left,
    Up,
    Down,
    A,
    B,
    Select,
    Start,
}

impl Button {
    /// The position of the button among the eight.
    pub open spec fn index_spec(self) -> usize {
        match self {
            Button::Right => 0,
            Button::Left => 1,
            Button::Up => 2,
            Button::Down => 3,
            Button::A => 4,
            Button::B => 5,
            Button::Select => 6,
            Button::Start => 7,
        }
    }

    /// The position of the button among the eight.
    pub fn index(self) -> (r: usize)
        ensures
            r == self.index_spec(),
            r < 8,
    {
        match self {
            Button::Right => 0,
            Button::Left => 1,
            Button::Up => 2,
            Button::Down => 3,
            Button::A => 4,
            Button::B => 5,
            Button::Select => 6,
            Button::Start => 7,
        }
    }
}

/// The state of the controller: which buttons are held, and the select bits.
pub struct JoypadState {
    pub held: Seq<bool>,
    pub select: u8,
}

impl JoypadState {
    /// There are eight buttons, and only bits 4 and 5 are kept of the select
    /// value.
    pub open spec fn wf(self) -> bool {
        &&& self.held.len() == 8
        &&& self.select & 0x30 == self.select
    }
}

/// No button held, no group selected.
pub open spec fn joypad_reset() -> JoypadState {
    JoypadState { held: Seq::new(8, |i: int| false), select: 0x30 }
}

pub open spec fn is_held(s: JoypadState, button: Button) -> bool {
    s.held[button.index_spec() as int]
}

pub open spec fn joypad_press(s: JoypadState, button: Button) -> JoypadState {
    JoypadState { held: s.held.update(button.index_spec() as int, true), ..s }
}

pub open spec fn joypad_release(s: JoypadState, button: Button) -> JoypadState {
    JoypadState { held: s.held.update(button.index_spec() as int, false), ..s }
}

/// Whether line `n` of the register is pulled low: a selected button on it is
/// held.
pub open spec fn line_low(s: JoypadState, n: int) -> bool {
    ||| !bit(s.select, 4) && s.held[n]
    ||| !bit(s.select, 5) && s.held[4 + n]
}

/// The register as the CPU reads it.
pub open spec fn joypad_value(s: JoypadState) -> u8 {
    (0xC0u8 | s.select | (if line_low(s, 0) {
        0u8
    } else {
        1u8
    }) | (if line_low(s, 1) {
        0u8
    } else {
        2u8
    }) | (if line_low(s, 2) {
        0u8
    } else {
        4u8
    }) | (if line_low(s, 3) {
        0u8
    } else {
        8u8
    }))
}

pub open spec fn joypad_write(s: JoypadState, value: u8) -> JoypadState {
    JoypadState { select: value & 0x30, ..s }
}

pub struct Joypad {
    buttons: [bool; 8],
    select: u8,
}

impl View for Joypad {
    type V = JoypadState;

    closed spec fn view(&self) -> JoypadState {
        JoypadState { held: self.buttons@, select: self.select }
    }
}

impl Joypad {
    pub fn new() -> (r: Self)
        ensures
            r@ == joypad_reset(),
            r@.wf(),
    {
        let r = Joypad { buttons: [false; 8], select: 0x30 };
        proof {
            assert(r@.held =~= joypad_reset().held);
            lemma_select_bits(0x30);
        }
        r
    }

    /// Presses a button. The result is true on the edge from released to
    /// pressed and false while the button stays held.
    pub fn press(&mut self, button: Button) -> (edge: bool)
        requires
            old(self)@.wf(),
        ensures
            final(self)@ == joypad_press(old(self)@, button),
            final(self)@.wf(),
            edge == !is_held(old(self)@, button),
    {
        let i: usize = button.index();
        let was_pressed = self.buttons[i];
        self.buttons[i] = true;
        !was_pressed
    }

    pub fn release(&mut self, button: Button)
        requires
            old(self)@.wf(),
        ensures
            final(self)@ == joypad_release(old(self)@, button),
            final(self)@.wf(),
    {
        let i: usize = button.index();
        self.buttons[i] = false;
    }

    /// The register at 0xFF00 as the CPU reads it.
    pub fn read(&self) -> (r: u8)
        requires
            self@.wf(),
        ensures
            r == joypad_value(self@),
    {
        let mut result: u8 = self.select | 0xC0 | 0x0F;

        if self.select & 0x10 == 0 {
            if self.buttons[0] {
                result &= !0x01;
            }
            if self.buttons[1] {
                result &= !0x02;
            }
            if self.buttons[2] {
                result &= !0x04;
            }
            if self.buttons[3] {
                result &= !0x08;
            }
        }
        if self.select & 0x20 == 0 {
            if self.buttons[4] {
                result &= !0x01;
            }
            if self.buttons[5] {
                result &= !0x02;
            }
            if self.buttons[6] {
                result &= !0x04;
            }
            if self.buttons[7] {
                result &= !0x08;
            }
        }
        proof {
            lemma_masks(self.select);
            lemma_read_value(
                self.select,
                self.buttons@[0],
                self.buttons@[1],
                self.buttons@[2],
                self.buttons@[3],
                self.buttons@[4],
                self.buttons@[5],
                self.buttons@[6],
                self.buttons@[7],
            );
        }
        result
    }

    /// A CPU write to 0xFF00: bits 4 and 5 select the groups.
    pub fn write(&mut self, value: u8)
        requires
            old(self)@.wf(),
        ensures
            final(self)@ == joypad_write(old(self)@, value),
            final(self)@.wf(),
    {
        self.select = value & 0x30;
        proof {
            lemma_select_bits(value);
        }
    }

    pub fn is_pressed(&self, button: Button) -> (r: bool)
        requires
            self@.wf(),
        ensures
            r == is_held(self@, button),
    {
        self.buttons[button.index()]
    }
}

/// Clears the bits of `mask` in `v` where `on`.
spec fn masked(v: u8, on: bool, mask: u8) -> u8 {
    if on {
        v & !mask
    } else {
        v
    }
}

/// Clearing the lines of the held buttons one after the other gives the
/// register value.
proof fn lemma_read_value(
    select: u8,
    b0: bool,
    b1: bool,
    b2: bool,
    b3: bool,
    b4: bool,
    b5: bool,
    b6: bool,
    b7: bool,
)
    by (bit_vector)
    requires
        select & 0x30 == select,
    ensures
        ({
            let d = (select & 0x10 == 0);
            let a = (select & 0x20 == 0);
            let v = select | 0xC0u8 | 0x0Fu8;
            let v = masked(v, d && b0, 0x01);
            let v = masked(v, d && b1, 0x02);
            let v = masked(v, d && b2, 0x04);
            let v = masked(v, d && b3, 0x08);
            let v = masked(v, a && b4, 0x01);
            let v = masked(v, a && b5, 0x02);
            let v = masked(v, a && b6, 0x04);
            let v = masked(v, a && b7, 0x08);
            v
        }) == 0xC0u8 | select | (if d_or(select, b0, b4) {
            0u8
        } else {
            1u8
        }) | (if d_or(select, b1, b5) {
            0u8
        } else {
            2u8
        }) | (if d_or(select, b2, b6) {
            0u8
        } else {
            4u8
        }) | (if d_or(select, b3, b7) {
            0u8
        } else {
            8u8
        }),
{
}

spec fn d_or(select: u8, direction: bool, action: bool) -> bool {
    (select & 0x10 == 0 && direction) || (select & 0x20 == 0 && action)
}

// ---- Laws ----

/// Bits 0 to 3 are active low, bits 4 and 5 read back the selection, and bits
/// 6 and 7 are always set.
pub proof fn law_register_bits(s: JoypadState)
    requires
        s.wf(),
    ensures
        bit(joypad_value(s), 0) == !line_low(s, 0),
        bit(joypad_value(s), 1) == !line_low(s, 1),
        bit(joypad_value(s), 2) == !line_low(s, 2),
        bit(joypad_value(s), 3) == !line_low(s, 3),
        bit(joypad_value(s), 4) == bit(s.select, 4),
        bit(joypad_value(s), 5) == bit(s.select, 5),
        bit(joypad_value(s), 6) && bit(joypad_value(s), 7),
{
    lemma_register_bits(
        s.select,
        line_low(s, 0),
        line_low(s, 1),
        line_low(s, 2),
        line_low(s, 3),
    );
}

proof fn lemma_register_bits(select: u8, l0: bool, l1: bool, l2: bool, l3: bool)
    by (bit_vector)
    requires
        select & 0x30 == select,
    ensures
        ({
            let v = 0xC0u8 | select | (if l0 {
                0u8
            } else {
                1u8
            }) | (if l1 {
                0u8
            } else {
                2u8
            }) | (if l2 {
                0u8
            } else {
                4u8
            }) | (if l3 {
                0u8
            } else {
                8u8
            });
            &&& bit(v, 0) == !l0
            &&& bit(v, 1) == !l1
            &&& bit(v, 2) == !l2
            &&& bit(v, 3) == !l3
            &&& bit(v, 4) == bit(select, 4)
            &&& bit(v, 5) == bit(select, 5)
            &&& bit(v, 6) && bit(v, 7)
        }),
{
}

/// With no group selected, no button shows.
pub proof fn law_nothing_selected(s: JoypadState)
    requires
        s.wf(),
        bit(s.select, 4),
        bit(s.select, 5),
    ensures
        bit(joypad_value(s), 0),
        bit(joypad_value(s), 1),
        bit(joypad_value(s), 2),
        bit(joypad_value(s), 3),
{
    law_register_bits(s);
}

/// Pressing and releasing change one button and not the selection; releasing
/// undoes a press.
pub proof fn law_press_release(s: JoypadState, button: Button, other: Button)
    requires
        s.wf(),
    ensures
        is_held(joypad_press(s, button), button),
        !is_held(joypad_release(s, button), button),
        other != button ==> {
            &&& is_held(joypad_press(s, button), other) == is_held(s, other)
            &&& is_held(joypad_release(s, button), other) == is_held(s, other)
        },
        !is_held(s, button) ==> joypad_release(joypad_press(s, button), button) == s,
{
    assert(!is_held(s, button) ==> joypad_release(joypad_press(s, button), button).held
        =~= s.held);
}

/// A write selects groups and leaves the buttons alone.
pub proof fn law_write_selects(s: JoypadState, value: u8)
    ensures
        bit(joypad_write(s, value).select, 4) == bit(value, 4),
        bit(joypad_write(s, value).select, 5) == bit(value, 5),
        joypad_write(s, value).held == s.held,
        joypad_write(s, value).select & 0x30 == joypad_write(s, value).select,
{
    lemma_select_bits(value);
}

/// What the select mask keeps of a value.
pub proof fn lemma_select_bits(value: u8)
    by (bit_vector)
    ensures
        (value & 0x30) & 0x30 == value & 0x30,
        bit(value & 0x30, 4) == bit(value, 4),
        bit(value & 0x30, 5) == bit(value, 5),
        0x30u8 & 0x30 == 0x30,
{
}

} // verus!

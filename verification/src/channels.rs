//! The four sound channels: two square waves, one of them with a frequency
//! sweep, a wave read from memory and a noise generator.
//!
//! The sweep makes one overflow check per step, and writing an envelope
//! register in the middle of a note does not disturb the running envelope.

use vstd::prelude::*;

use crate::bits::{bit, lemma_fields, lemma_masks};

verus! {

/// The highest frequency value a channel can hold.
pub const MAX_FREQUENCY: u16 = 2047;

// ---- Volume envelope ----

/// The volume envelope of channels 1, 2 and 4.
#[derive(PartialEq, Eq, Clone, Copy, Debug, Structural)]
pub struct Envelope {
    pub initial_volume: u8,
    pub direction_increase: bool,
    pub period: u8,
    pub current_volume: u8,
    pub timer: u8,
}

impl Envelope {
    /// Volumes have four bits, the period has three.
    pub open spec fn wf(self) -> bool {
        &&& self.initial_volume < 16
        &&& self.current_volume < 16
        &&& self.period < 8
    }
}

pub open spec fn envelope_reset() -> Envelope {
    Envelope {
        initial_volume: 0,
        direction_increase: false,
        period: 0,
        current_volume: 0,
        timer: 0,
    }
}

/// The envelope with the settings of an NRx2 write.
pub open spec fn envelope_configure(e: Envelope, value: u8) -> Envelope {
    Envelope {
        initial_volume: value / 16,
        direction_increase: bit(value, 3),
        period: value % 8,
        ..e
    }
}

/// The settings as NRx2 reads.
pub open spec fn envelope_value(e: Envelope) -> u8 {
    (e.initial_volume * 16 + (if e.direction_increase {
        8int
    } else {
        0int
    }) + e.period) as u8
}

pub open spec fn envelope_trigger(e: Envelope) -> Envelope {
    Envelope { current_volume: e.initial_volume, timer: e.period, ..e }
}

/// The volume after one step in the direction of the envelope: it stops at 0
/// and at 15.
pub open spec fn volume_step(e: Envelope) -> u8 {
    if e.direction_increase && e.current_volume < 15 {
        (e.current_volume + 1) as u8
    } else if !e.direction_increase && e.current_volume > 0 {
        (e.current_volume - 1) as u8
    } else {
        e.current_volume
    }
}

/// One clock of the envelope: every `period` clocks the volume takes a step.
/// A period of 0 leaves it alone.
pub open spec fn envelope_clock(e: Envelope) -> Envelope {
    if e.period == 0 {
        e
    } else if e.timer > 1 {
        Envelope { timer: (e.timer - 1) as u8, ..e }
    } else {
        Envelope { timer: e.period, current_volume: volume_step(e), ..e }
    }
}

impl Envelope {
    pub fn silent() -> (r: Self)
        ensures
            r == envelope_reset(),
            r.wf(),
    {
        Envelope {
            initial_volume: 0,
            direction_increase: false,
            period: 0,
            current_volume: 0,
            timer: 0,
        }
    }

    pub fn configure(&mut self, value: u8)
        requires
            old(self).wf(),
        ensures
            *final(self) == envelope_configure(*old(self), value),
            final(self).wf(),
    {
        proof {
            lemma_fields(value);
            lemma_masks(value);
        }
        self.initial_volume = value >> 4;
        self.direction_increase = value & 0x08 != 0;
        self.period = value & 0x07;
    }

    /// The settings as NRx2 reads.
    pub fn value(&self) -> (r: u8)
        requires
            self.wf(),
        ensures
            r == envelope_value(*self),
    {
        proof {
            lemma_pack_fields(self.initial_volume, self.direction_increase, self.period);
        }
        (self.initial_volume << 4) | flag(self.direction_increase, 3) | self.period
    }

    pub fn trigger(&mut self)
        requires
            old(self).wf(),
        ensures
            *final(self) == envelope_trigger(*old(self)),
            final(self).wf(),
    {
        self.current_volume = self.initial_volume;
        self.timer = self.period;
    }

    /// Clocked at 64 Hz.
    pub fn tick(&mut self)
        requires
            old(self).wf(),
        ensures
            *final(self) == envelope_clock(*old(self)),
            final(self).wf(),
    {
        if self.period == 0 {
            return ;
        }
        if self.timer > 0 {
            self.timer -= 1;
        }
        if self.timer == 0 {
            self.timer = self.period;
            if self.direction_increase && self.current_volume < 15 {
                self.current_volume += 1;
            } else if !self.direction_increase && self.current_volume > 0 {
                self.current_volume -= 1;
            }
        }
    }
}

// ---- Frequency sweep ----

/// What a clock of the sweep asks of channel 1.
#[derive(PartialEq, Eq, Clone, Copy, Debug, Structural)]
pub enum SweepResult {
    NoChange,
    UpdateFrequency(u16),
    Disable,
}

/// The frequency sweep of channel 1.
#[derive(PartialEq, Eq, Clone, Copy, Debug, Structural)]
pub struct Sweep {
    pub period: u8,
    pub negate: bool,
    pub shift: u8,
    pub timer: u8,
    pub enabled: bool,
    pub shadow_frequency: u16,
}

impl Sweep {
    pub open spec fn wf(self) -> bool {
        &&& self.period < 8
        &&& self.shift < 8
        &&& self.shadow_frequency <= MAX_FREQUENCY
    }
}

pub open spec fn sweep_reset() -> Sweep {
    Sweep {
        period: 0,
        negate: false,
        shift: 0,
        timer: 0,
        enabled: false,
        shadow_frequency: 0,
    }
}

/// The sweep with the settings of an NR10 write.
pub open spec fn sweep_configure(s: Sweep, value: u8) -> Sweep {
    Sweep { period: (value / 16) % 8, negate: bit(value, 3), shift: value % 8, ..s }
}

/// The settings as NR10 reads.
pub open spec fn sweep_value(s: Sweep) -> u8 {
    (0x80 + s.period * 16 + (if s.negate {
        8int
    } else {
        0int
    }) + s.shift) as u8
}

/// The frequency that the next sweep step aims at.
pub open spec fn sweep_target(s: Sweep) -> int {
    let delta = (s.shadow_frequency >> s.shift) as int;
    if s.negate {
        s.shadow_frequency - delta
    } else {
        s.shadow_frequency + delta
    }
}

/// The sweep after a trigger at `frequency`, and whether channel 1 stays on:
/// it does not where the first step would overflow.
pub open spec fn sweep_trigger(s: Sweep, frequency: u16) -> (Sweep, bool) {
    let next = Sweep {
        shadow_frequency: frequency,
        timer: if s.period == 0 {
            8
        } else {
            s.period
        },
        enabled: s.period != 0 || s.shift != 0,
        ..s
    };
    (next, s.shift == 0 || sweep_target(next) <= MAX_FREQUENCY)
}

/// One clock of the sweep. Every `period` clocks the frequency moves to the
/// target, or the channel is switched off where the target overflows.
pub open spec fn sweep_clock(s: Sweep) -> (Sweep, SweepResult) {
    if !s.enabled || s.period == 0 {
        (s, SweepResult::NoChange)
    } else if s.timer > 1 {
        (Sweep { timer: (s.timer - 1) as u8, ..s }, SweepResult::NoChange)
    } else if sweep_target(s) > MAX_FREQUENCY {
        (Sweep { timer: s.period, ..s }, SweepResult::Disable)
    } else {
        (
            Sweep { timer: s.period, shadow_frequency: sweep_target(s) as u16, ..s },
            if s.shift != 0 {
                SweepResult::UpdateFrequency(sweep_target(s) as u16)
            } else {
                SweepResult::NoChange
            },
        )
    }
}

impl Sweep {
    pub fn silent() -> (r: Self)
        ensures
            r == sweep_reset(),
            r.wf(),
    {
        Sweep {
            period: 0,
            negate: false,
            shift: 0,
            timer: 0,
            enabled: false,
            shadow_frequency: 0,
        }
    }

    pub fn configure(&mut self, value: u8)
        requires
            old(self).wf(),
        ensures
            *final(self) == sweep_configure(*old(self), value),
            final(self).wf(),
    {
        proof {
            lemma_fields(value);
            lemma_fields(value >> 4);
            lemma_masks(value);
        }
        self.period = (value >> 4) & 0x07;
        self.negate = value & 0x08 != 0;
        self.shift = value & 0x07;
    }

    /// The settings as NR10 reads.
    pub fn value(&self) -> (r: u8)
        requires
            self.wf(),
        ensures
            r == sweep_value(*self),
    {
        proof {
            lemma_pack_sweep(self.period, self.negate, self.shift);
        }
        0x80 | (self.period << 4) | flag(self.negate, 3) | self.shift
    }

    /// Restarts the sweep. The result is false where the channel has to be
    /// switched off at once.
    pub fn trigger(&mut self, frequency: u16) -> (r: bool)
        requires
            old(self).wf(),
            frequency <= MAX_FREQUENCY,
        ensures
            (*final(self), r) == sweep_trigger(*old(self), frequency),
            final(self).wf(),
    {
        self.shadow_frequency = frequency;
        self.timer = if self.period == 0 {
            8
        } else {
            self.period
        };
        self.enabled = self.period != 0 || self.shift != 0;
        if self.shift != 0 {
            self.calculate() <= 2047
        } else {
            true
        }
    }

    fn calculate(&self) -> (r: u16)
        requires
            self.wf(),
        ensures
            r == sweep_target(*self),
    {
        let delta: u16 = self.shadow_frequency >> self.shift;
        proof {
            lemma_shift_right_bound(self.shadow_frequency, self.shift);
        }
        if self.negate {
            self.shadow_frequency.wrapping_sub(delta)
        } else {
            self.shadow_frequency.wrapping_add(delta)
        }
    }

    /// Clocked at 128 Hz.
    pub fn tick(&mut self) -> (r: SweepResult)
        requires
            old(self).wf(),
        ensures
            (*final(self), r) == sweep_clock(*old(self)),
            final(self).wf(),
            r matches SweepResult::UpdateFrequency(f) ==> f <= MAX_FREQUENCY,
    {
        if !self.enabled || self.period == 0 {
            return SweepResult::NoChange;
        }
        if self.timer > 0 {
            self.timer -= 1;
        }
        if self.timer != 0 {
            return SweepResult::NoChange;
        }
        self.timer = self.period;
        let new_freq: u16 = self.calculate();
        if new_freq > 2047 {
            return SweepResult::Disable;
        }
        self.shadow_frequency = new_freq;
        if self.shift != 0 {
            SweepResult::UpdateFrequency(new_freq)
        } else {
            SweepResult::NoChange
        }
    }
}

// ---- Frequency registers ----

/// A frequency with its low eight bits replaced.
pub open spec fn with_frequency_low(frequency: u16, value: u8) -> u16 {
    (frequency - frequency % 256 + value) as u16
}

/// A frequency with its high three bits replaced by those of `value`.
pub open spec fn with_frequency_high(frequency: u16, value: u8) -> u16 {
    (frequency % 256 + (value % 8) * 256) as u16
}

fn replace_frequency_low(frequency: u16, value: u8) -> (r: u16)
    requires
        frequency <= MAX_FREQUENCY,
    ensures
        r == with_frequency_low(frequency, value),
        r <= MAX_FREQUENCY,
{
    proof {
        lemma_frequency_low(frequency, value);
    }
    (frequency & 0x0700) | value as u16
}

fn replace_frequency_high(frequency: u16, value: u8) -> (r: u16)
    ensures
        r == with_frequency_high(frequency, value),
        r <= MAX_FREQUENCY,
{
    proof {
        lemma_frequency_high(frequency, value);
    }
    (frequency & 0x00FF) | (((value & 0x07) as u16) << 8)
}

// ---- Square wave ----

/// The waveform of a duty setting at one of its eight positions.
pub open spec fn duty_wave(duty: u8, position: u8) -> bool {
    match duty {
        0 => position == 7,
        1 => position == 0 || position == 7,
        2 => position == 0 || position >= 5,
        _ => 1 <= position <= 6,
    }
}

/// The square wave of channels 1 and 2.
#[derive(PartialEq, Eq, Clone, Copy, Debug, Structural)]
pub struct SquareChannel {
    pub enabled: bool,
    pub dac_enabled: bool,
    pub duty: u8,
    pub duty_position: u8,
    pub length_counter: u16,
    pub length_enabled: bool,
    pub frequency: u16,
    pub frequency_timer: u32,
    pub envelope: Envelope,
}

impl SquareChannel {
    /// Every field keeps to its width, and the channel is on only with its
    /// converter.
    pub open spec fn wf(self) -> bool {
        &&& self.duty < 4
        &&& self.duty_position < 8
        &&& self.frequency <= MAX_FREQUENCY
        &&& self.length_counter <= 64
        &&& self.envelope.wf()
        &&& self.enabled ==> self.dac_enabled
    }
}

pub open spec fn square_reset() -> SquareChannel {
    SquareChannel {
        enabled: false,
        dac_enabled: false,
        duty: 0,
        duty_position: 0,
        length_counter: 0,
        length_enabled: false,
        frequency: 0,
        frequency_timer: 0,
        envelope: envelope_reset(),
    }
}

/// T-cycles between two positions of the waveform.
pub open spec fn square_period(c: SquareChannel) -> u32 {
    ((2048 - c.frequency) * 4) as u32
}

/// An NRx1 write: duty and length.
pub open spec fn square_duty_length(c: SquareChannel, value: u8) -> SquareChannel {
    SquareChannel { duty: value / 64, length_counter: (64 - value % 64) as u16, ..c }
}

/// An NRx2 write: the envelope. The channel goes off with its converter, which
/// is on unless the upper five bits are all 0.
pub open spec fn square_envelope(c: SquareChannel, value: u8) -> SquareChannel {
    SquareChannel {
        envelope: envelope_configure(c.envelope, value),
        dac_enabled: value >= 8,
        enabled: c.enabled && value >= 8,
        ..c
    }
}

/// An NRx3 write: the low bits of the frequency.
pub open spec fn square_frequency_low(c: SquareChannel, value: u8) -> SquareChannel {
    SquareChannel { frequency: with_frequency_low(c.frequency, value), ..c }
}

/// What an NRx4 write sets before it triggers: the high bits of the frequency
/// and the length enable.
pub open spec fn square_control(c: SquareChannel, value: u8) -> SquareChannel {
    SquareChannel {
        frequency: with_frequency_high(c.frequency, value),
        length_enabled: bit(value, 6),
        ..c
    }
}

pub open spec fn square_trigger(c: SquareChannel) -> SquareChannel {
    SquareChannel {
        enabled: c.dac_enabled,
        length_counter: if c.length_counter == 0 {
            64
        } else {
            c.length_counter
        },
        frequency_timer: square_period(c),
        envelope: envelope_trigger(c.envelope),
        ..c
    }
}

/// One T-cycle of the waveform.
pub open spec fn square_cycle(c: SquareChannel) -> SquareChannel {
    if !c.enabled {
        c
    } else if c.frequency_timer > 1 {
        SquareChannel { frequency_timer: (c.frequency_timer - 1) as u32, ..c }
    } else {
        SquareChannel {
            frequency_timer: square_period(c),
            duty_position: ((c.duty_position + 1) % 8) as u8,
            ..c
        }
    }
}

/// One clock of the length counter: the channel goes off when it runs out.
pub open spec fn square_length_clock(c: SquareChannel) -> SquareChannel {
    if c.length_enabled && c.length_counter > 0 {
        SquareChannel {
            length_counter: (c.length_counter - 1) as u16,
            enabled: c.enabled && c.length_counter > 1,
            ..c
        }
    } else {
        c
    }
}

/// The output level, 0 to 15.
pub open spec fn square_amplitude(c: SquareChannel) -> u8 {
    if c.enabled && duty_wave(c.duty, c.duty_position) {
        c.envelope.current_volume
    } else {
        0
    }
}

/// The entry of the duty table: 1 where the wave is high.
fn duty_level(duty: u8, position: u8) -> (r: u8)
    requires
        duty < 4,
        position < 8,
    ensures
        r == (if duty_wave(duty, position) {
            1u8
        } else {
            0u8
        }),
{
    let row: [u8; 8] = match duty {
        0 => [0, 0, 0, 0, 0, 0, 0, 1],
        1 => [1, 0, 0, 0, 0, 0, 0, 1],
        2 => [1, 0, 0, 0, 0, 1, 1, 1],
        _ => [0, 1, 1, 1, 1, 1, 1, 0],
    };
    row[position as usize]
}

impl SquareChannel {
    pub fn silent() -> (r: Self)
        ensures
            r == square_reset(),
            r.wf(),
    {
        SquareChannel {
            enabled: false,
            dac_enabled: false,
            duty: 0,
            duty_position: 0,
            length_counter: 0,
            length_enabled: false,
            frequency: 0,
            frequency_timer: 0,
            envelope: Envelope::silent(),
        }
    }

    pub fn set_duty_length(&mut self, value: u8)
        requires
            old(self).wf(),
        ensures
            *final(self) == square_duty_length(*old(self), value),
            final(self).wf(),
    {
        proof {
            lemma_fields(value);
        }
        self.duty = value >> 6;
        self.length_counter = 64 - (value & 0x3F) as u16;
    }

    pub fn set_envelope(&mut self, value: u8)
        requires
            old(self).wf(),
        ensures
            *final(self) == square_envelope(*old(self), value),
            final(self).wf(),
    {
        proof {
            lemma_dac_mask(value);
        }
        self.envelope.configure(value);
        self.dac_enabled = value & 0xF8 != 0;
        if !self.dac_enabled {
            self.enabled = false;
        }
    }

    pub fn set_frequency_low(&mut self, value: u8)
        requires
            old(self).wf(),
        ensures
            *final(self) == square_frequency_low(*old(self), value),
            final(self).wf(),
    {
        self.frequency = replace_frequency_low(self.frequency, value);
    }

    pub fn set_control(&mut self, value: u8)
        requires
            old(self).wf(),
        ensures
            *final(self) == square_control(*old(self), value),
            final(self).wf(),
    {
        proof {
            lemma_masks(value);
        }
        self.frequency = replace_frequency_high(self.frequency, value);
        self.length_enabled = value & 0x40 != 0;
    }

    pub fn trigger(&mut self)
        requires
            old(self).wf(),
        ensures
            *final(self) == square_trigger(*old(self)),
            final(self).wf(),
    {
        self.enabled = self.dac_enabled;
        if self.length_counter == 0 {
            self.length_counter = 64;
        }
        self.frequency_timer = (2048 - self.frequency as u32) * 4;
        self.envelope.trigger();
    }

    pub fn tick(&mut self)
        requires
            old(self).wf(),
        ensures
            *final(self) == square_cycle(*old(self)),
            final(self).wf(),
    {
        if !self.enabled {
            return ;
        }
        if self.frequency_timer > 0 {
            self.frequency_timer -= 1;
        }
        if self.frequency_timer == 0 {
            self.frequency_timer = (2048 - self.frequency as u32) * 4;
            proof {
                lemma_fields((self.duty_position + 1) as u8);
            }
            self.duty_position = (self.duty_position + 1) & 7;
        }
    }

    pub fn clock_length(&mut self)
        requires
            old(self).wf(),
        ensures
            *final(self) == square_length_clock(*old(self)),
            final(self).wf(),
    {
        if self.length_enabled && self.length_counter > 0 {
            self.length_counter -= 1;
            if self.length_counter == 0 {
                self.enabled = false;
            }
        }
    }

    /// The output level.
    pub fn amplitude(&self) -> (r: u8)
        requires
            self.wf(),
        ensures
            r == square_amplitude(*self),
            r < 16,
    {
        if !self.enabled {
            return 0;
        }
        let level: u8 = duty_level(self.duty, self.duty_position);
        assert(level * self.envelope.current_volume == (if level == 1 {
            self.envelope.current_volume as int
        } else {
            0
        })) by (nonlinear_arith)
            requires
                level == 0 || level == 1,
        ;
        level * self.envelope.current_volume
    }
}

// ---- Wave ----

/// The wave of channel 3: 32 four-bit samples from wave RAM.
#[derive(PartialEq, Eq, Clone, Copy, Debug, Structural)]
pub struct WaveChannel {
    pub enabled: bool,
    pub dac_enabled: bool,
    /// 0 mutes, 1 plays in full, 2 and 3 at a half and a quarter.
    pub volume_code: u8,
    pub length_counter: u16,
    pub length_enabled: bool,
    pub frequency: u16,
    pub frequency_timer: u32,
    pub wave_position: u8,
}

impl WaveChannel {
    /// Every field keeps to its width, and the channel is on only with its
    /// converter.
    pub open spec fn wf(self) -> bool {
        &&& self.volume_code < 4
        &&& self.wave_position < 32
        &&& self.frequency <= MAX_FREQUENCY
        &&& self.length_counter <= 256
        &&& self.enabled ==> self.dac_enabled
    }
}

pub open spec fn wave_reset() -> WaveChannel {
    WaveChannel {
        enabled: false,
        dac_enabled: false,
        volume_code: 0,
        length_counter: 0,
        length_enabled: false,
        frequency: 0,
        frequency_timer: 0,
        wave_position: 0,
    }
}

/// T-cycles between two samples.
pub open spec fn wave_period(c: WaveChannel) -> u32 {
    ((2048 - c.frequency) * 2) as u32
}

/// An NR30 write: the converter. The channel goes off with it.
pub open spec fn wave_dac(c: WaveChannel, value: u8) -> WaveChannel {
    WaveChannel { dac_enabled: bit(value, 7), enabled: c.enabled && bit(value, 7), ..c }
}

/// An NR31 write: the length.
pub open spec fn wave_length(c: WaveChannel, value: u8) -> WaveChannel {
    WaveChannel { length_counter: (256 - value) as u16, ..c }
}

/// An NR32 write: the volume.
pub open spec fn wave_volume(c: WaveChannel, value: u8) -> WaveChannel {
    WaveChannel { volume_code: (value / 32) % 4, ..c }
}

/// An NR33 write: the low bits of the frequency.
pub open spec fn wave_frequency_low(c: WaveChannel, value: u8) -> WaveChannel {
    WaveChannel { frequency: with_frequency_low(c.frequency, value), ..c }
}

/// What an NR34 write sets before it triggers.
pub open spec fn wave_control(c: WaveChannel, value: u8) -> WaveChannel {
    WaveChannel {
        frequency: with_frequency_high(c.frequency, value),
        length_enabled: bit(value, 6),
        ..c
    }
}

pub open spec fn wave_trigger(c: WaveChannel) -> WaveChannel {
    WaveChannel {
        enabled: c.dac_enabled,
        length_counter: if c.length_counter == 0 {
            256
        } else {
            c.length_counter
        },
        frequency_timer: wave_period(c),
        wave_position: 0,
        ..c
    }
}

/// One T-cycle of the wave.
pub open spec fn wave_cycle(c: WaveChannel) -> WaveChannel {
    if !c.enabled {
        c
    } else if c.frequency_timer > 1 {
        WaveChannel { frequency_timer: (c.frequency_timer - 1) as u32, ..c }
    } else {
        WaveChannel {
            frequency_timer: wave_period(c),
            wave_position: ((c.wave_position + 1) % 32) as u8,
            ..c
        }
    }
}

/// One clock of the length counter.
pub open spec fn wave_length_clock(c: WaveChannel) -> WaveChannel {
    if c.length_enabled && c.length_counter > 0 {
        WaveChannel {
            length_counter: (c.length_counter - 1) as u16,
            enabled: c.enabled && c.length_counter > 1,
            ..c
        }
    } else {
        c
    }
}

/// A four-bit sample of wave RAM: the high half of a byte comes first.
pub open spec fn wave_sample(wave_ram: Seq<u8>, position: u8) -> u8 {
    let byte = wave_ram[position as int / 2];
    if position % 2 == 0 {
        byte / 16
    } else {
        byte % 16
    }
}

/// The output level, 0 to 15.
pub open spec fn wave_amplitude(c: WaveChannel, wave_ram: Seq<u8>) -> u8 {
    let sample = wave_sample(wave_ram, c.wave_position);
    if !c.enabled || c.volume_code == 0 {
        0
    } else if c.volume_code == 1 {
        sample
    } else if c.volume_code == 2 {
        sample / 2
    } else {
        sample / 4
    }
}

impl WaveChannel {
    pub fn silent() -> (r: Self)
        ensures
            r == wave_reset(),
            r.wf(),
    {
        WaveChannel {
            enabled: false,
            dac_enabled: false,
            volume_code: 0,
            length_counter: 0,
            length_enabled: false,
            frequency: 0,
            frequency_timer: 0,
            wave_position: 0,
        }
    }

    pub fn set_dac(&mut self, value: u8)
        requires
            old(self).wf(),
        ensures
            *final(self) == wave_dac(*old(self), value),
            final(self).wf(),
    {
        proof {
            lemma_masks(value);
        }
        self.dac_enabled = value & 0x80 != 0;
        if !self.dac_enabled {
            self.enabled = false;
        }
    }

    pub fn set_length(&mut self, value: u8)
        requires
            old(self).wf(),
        ensures
            *final(self) == wave_length(*old(self), value),
            final(self).wf(),
    {
        self.length_counter = 256 - value as u16;
    }

    pub fn set_volume(&mut self, value: u8)
        requires
            old(self).wf(),
        ensures
            *final(self) == wave_volume(*old(self), value),
            final(self).wf(),
    {
        proof {
            lemma_fields(value);
            lemma_fields(value >> 5);
        }
        self.volume_code = (value >> 5) & 0x03;
    }

    pub fn set_frequency_low(&mut self, value: u8)
        requires
            old(self).wf(),
        ensures
            *final(self) == wave_frequency_low(*old(self), value),
            final(self).wf(),
    {
        self.frequency = replace_frequency_low(self.frequency, value);
    }

    pub fn set_control(&mut self, value: u8)
        requires
            old(self).wf(),
        ensures
            *final(self) == wave_control(*old(self), value),
            final(self).wf(),
    {
        proof {
            lemma_masks(value);
        }
        self.frequency = replace_frequency_high(self.frequency, value);
        self.length_enabled = value & 0x40 != 0;
    }

    pub fn trigger(&mut self)
        requires
            old(self).wf(),
        ensures
            *final(self) == wave_trigger(*old(self)),
            final(self).wf(),
    {
        self.enabled = self.dac_enabled;
        if self.length_counter == 0 {
            self.length_counter = 256;
        }
        self.frequency_timer = (2048 - self.frequency as u32) * 2;
        self.wave_position = 0;
    }

    pub fn tick(&mut self)
        requires
            old(self).wf(),
        ensures
            *final(self) == wave_cycle(*old(self)),
            final(self).wf(),
    {
        if !self.enabled {
            return ;
        }
        if self.frequency_timer > 0 {
            self.frequency_timer -= 1;
        }
        if self.frequency_timer == 0 {
            self.frequency_timer = (2048 - self.frequency as u32) * 2;
            proof {
                lemma_fields((self.wave_position + 1) as u8);
            }
            self.wave_position = (self.wave_position + 1) & 31;
        }
    }

    pub fn clock_length(&mut self)
        requires
            old(self).wf(),
        ensures
            *final(self) == wave_length_clock(*old(self)),
            final(self).wf(),
    {
        if self.length_enabled && self.length_counter > 0 {
            self.length_counter -= 1;
            if self.length_counter == 0 {
                self.enabled = false;
            }
        }
    }

    /// The output level.
    pub fn amplitude(&self, wave_ram: &[u8; 16]) -> (r: u8)
        requires
            self.wf(),
        ensures
            r == wave_amplitude(*self, wave_ram@),
            r < 16,
    {
        if !self.enabled {
            return 0;
        }
        let byte: u8 = wave_ram[(self.wave_position / 2) as usize];
        proof {
            lemma_fields(byte);
        }
        let nibble: u8 = if self.wave_position % 2 == 0 {
            byte >> 4
        } else {
            byte & 0x0F
        };
        proof {
            lemma_fields(nibble);
        }
        match self.volume_code {
            0 => 0,
            1 => nibble,
            2 => nibble >> 1,
            3 => nibble >> 2,
            _ => 0,
        }
    }
}

// ---- Noise ----

/// The noise of channel 4, from a linear feedback shift register.
#[derive(PartialEq, Eq, Clone, Copy, Debug, Structural)]
pub struct NoiseChannel {
    pub enabled: bool,
    pub dac_enabled: bool,
    pub length_counter: u16,
    pub length_enabled: bool,
    pub envelope: Envelope,
    pub clock_shift: u8,
    pub width_mode_7bit: bool,
    pub divisor_code: u8,
    pub lfsr: u16,
    pub frequency_timer: u32,
}

impl NoiseChannel {
    /// Every field keeps to its width, and the channel is on only with its
    /// converter.
    pub open spec fn wf(self) -> bool {
        &&& self.length_counter <= 64
        &&& self.envelope.wf()
        &&& self.clock_shift < 16
        &&& self.divisor_code < 8
        &&& self.lfsr < 0x8000
        &&& self.enabled ==> self.dac_enabled
    }
}

pub open spec fn noise_reset() -> NoiseChannel {
    NoiseChannel {
        enabled: false,
        dac_enabled: false,
        length_counter: 0,
        length_enabled: false,
        envelope: envelope_reset(),
        clock_shift: 0,
        width_mode_7bit: false,
        divisor_code: 0,
        lfsr: 0,
        frequency_timer: 0,
    }
}

/// The divisor of a divisor code: 16 times the code, and 8 for code 0.
pub open spec fn noise_divisor(code: u8) -> u32 {
    if code == 0 {
        8
    } else {
        (code * 16) as u32
    }
}

/// T-cycles between two steps of the shift register.
pub open spec fn noise_period(c: NoiseChannel) -> u32 {
    noise_divisor(c.divisor_code) << c.clock_shift
}

/// The feedback: the exclusive or of the two lowest bits.
pub open spec fn lfsr_feedback(lfsr: u16) -> int {
    (lfsr + lfsr / 2) % 2
}

/// One step of the shift register. The feedback enters at bit 14, and at bit 6
/// too in the short mode.
pub open spec fn lfsr_step(lfsr: u16, short: bool) -> u16 {
    let shifted = lfsr / 2 + lfsr_feedback(lfsr) * 0x4000;
    if short {
        (shifted - ((shifted / 64) % 2) * 64 + lfsr_feedback(lfsr) * 64) as u16
    } else {
        shifted as u16
    }
}

/// An NR41 write: the length.
pub open spec fn noise_length(c: NoiseChannel, value: u8) -> NoiseChannel {
    NoiseChannel { length_counter: (64 - value % 64) as u16, ..c }
}

/// An NR42 write: the envelope. The channel goes off with its converter.
pub open spec fn noise_envelope(c: NoiseChannel, value: u8) -> NoiseChannel {
    NoiseChannel {
        envelope: envelope_configure(c.envelope, value),
        dac_enabled: value >= 8,
        enabled: c.enabled && value >= 8,
        ..c
    }
}

/// An NR43 write: clock and width of the shift register.
pub open spec fn noise_clock(c: NoiseChannel, value: u8) -> NoiseChannel {
    NoiseChannel {
        clock_shift: value / 16,
        width_mode_7bit: bit(value, 3),
        divisor_code: value % 8,
        ..c
    }
}

/// The clock settings as NR43 reads.
pub open spec fn noise_clock_value(c: NoiseChannel) -> u8 {
    (c.clock_shift * 16 + (if c.width_mode_7bit {
        8int
    } else {
        0int
    }) + c.divisor_code) as u8
}

/// What an NR44 write sets before it triggers.
pub open spec fn noise_control(c: NoiseChannel, value: u8) -> NoiseChannel {
    NoiseChannel { length_enabled: bit(value, 6), ..c }
}

pub open spec fn noise_trigger(c: NoiseChannel) -> NoiseChannel {
    NoiseChannel {
        enabled: c.dac_enabled,
        length_counter: if c.length_counter == 0 {
            64
        } else {
            c.length_counter
        },
        envelope: envelope_trigger(c.envelope),
        lfsr: 0x7FFF,
        frequency_timer: noise_period(c),
        ..c
    }
}

/// One T-cycle of the noise.
pub open spec fn noise_cycle(c: NoiseChannel) -> NoiseChannel {
    if !c.enabled {
        c
    } else if c.frequency_timer > 1 {
        NoiseChannel { frequency_timer: (c.frequency_timer - 1) as u32, ..c }
    } else {
        NoiseChannel {
            frequency_timer: noise_period(c),
            lfsr: lfsr_step(c.lfsr, c.width_mode_7bit),
            ..c
        }
    }
}

/// One clock of the length counter.
pub open spec fn noise_length_clock(c: NoiseChannel) -> NoiseChannel {
    if c.length_enabled && c.length_counter > 0 {
        NoiseChannel {
            length_counter: (c.length_counter - 1) as u16,
            enabled: c.enabled && c.length_counter > 1,
            ..c
        }
    } else {
        c
    }
}

/// The output level, 0 to 15: the volume while the lowest bit of the shift
/// register is clear.
pub open spec fn noise_amplitude(c: NoiseChannel) -> u8 {
    if c.enabled && c.lfsr % 2 == 0 {
        c.envelope.current_volume
    } else {
        0
    }
}

impl NoiseChannel {
    pub fn silent() -> (r: Self)
        ensures
            r == noise_reset(),
            r.wf(),
    {
        NoiseChannel {
            enabled: false,
            dac_enabled: false,
            length_counter: 0,
            length_enabled: false,
            envelope: Envelope::silent(),
            clock_shift: 0,
            width_mode_7bit: false,
            divisor_code: 0,
            lfsr: 0,
            frequency_timer: 0,
        }
    }

    pub fn set_length(&mut self, value: u8)
        requires
            old(self).wf(),
        ensures
            *final(self) == noise_length(*old(self), value),
            final(self).wf(),
    {
        proof {
            lemma_fields(value);
        }
        self.length_counter = 64 - (value & 0x3F) as u16;
    }

    pub fn set_envelope(&mut self, value: u8)
        requires
            old(self).wf(),
        ensures
            *final(self) == noise_envelope(*old(self), value),
            final(self).wf(),
    {
        proof {
            lemma_dac_mask(value);
        }
        self.envelope.configure(value);
        self.dac_enabled = value & 0xF8 != 0;
        if !self.dac_enabled {
            self.enabled = false;
        }
    }

    pub fn set_clock(&mut self, value: u8)
        requires
            old(self).wf(),
        ensures
            *final(self) == noise_clock(*old(self), value),
            final(self).wf(),
    {
        proof {
            lemma_fields(value);
            lemma_masks(value);
        }
        self.clock_shift = value >> 4;
        self.width_mode_7bit = value & 0x08 != 0;
        self.divisor_code = value & 0x07;
    }

    /// The clock settings as NR43 reads.
    pub fn clock_value(&self) -> (r: u8)
        requires
            self.wf(),
        ensures
            r == noise_clock_value(*self),
    {
        proof {
            lemma_pack_fields(self.clock_shift, self.width_mode_7bit, self.divisor_code);
        }
        (self.clock_shift << 4) | flag(self.width_mode_7bit, 3) | self.divisor_code
    }

    pub fn set_control(&mut self, value: u8)
        requires
            old(self).wf(),
        ensures
            *final(self) == noise_control(*old(self), value),
            final(self).wf(),
    {
        proof {
            lemma_masks(value);
        }
        self.length_enabled = value & 0x40 != 0;
    }

    fn period(&self) -> (r: u32)
        requires
            self.wf(),
        ensures
            r == noise_period(*self),
    {
        let divisors: [u32; 8] = [8, 16, 32, 48, 64, 80, 96, 112];
        divisors[self.divisor_code as usize] << self.clock_shift
    }

    pub fn trigger(&mut self)
        requires
            old(self).wf(),
        ensures
            *final(self) == noise_trigger(*old(self)),
            final(self).wf(),
    {
        self.enabled = self.dac_enabled;
        if self.length_counter == 0 {
            self.length_counter = 64;
        }
        self.envelope.trigger();
        self.lfsr = 0x7FFF;
        self.frequency_timer = self.period();
    }

    pub fn tick(&mut self)
        requires
            old(self).wf(),
        ensures
            *final(self) == noise_cycle(*old(self)),
            final(self).wf(),
    {
        if !self.enabled {
            return ;
        }
        if self.frequency_timer > 0 {
            self.frequency_timer -= 1;
        }
        if self.frequency_timer == 0 {
            self.frequency_timer = self.period();
            proof {
                lemma_lfsr_step(self.lfsr, self.width_mode_7bit);
            }
            let xor_bit: u16 = (self.lfsr & 1) ^ ((self.lfsr >> 1) & 1);
            self.lfsr = self.lfsr >> 1;
            self.lfsr = self.lfsr | (xor_bit << 14);
            if self.width_mode_7bit {
                self.lfsr = self.lfsr & !(1u16 << 6);
                self.lfsr = self.lfsr | (xor_bit << 6);
            }
        }
    }

    pub fn clock_length(&mut self)
        requires
            old(self).wf(),
        ensures
            *final(self) == noise_length_clock(*old(self)),
            final(self).wf(),
    {
        if self.length_enabled && self.length_counter > 0 {
            self.length_counter -= 1;
            if self.length_counter == 0 {
                self.enabled = false;
            }
        }
    }

    /// The output level.
    pub fn amplitude(&self) -> (r: u8)
        requires
            self.wf(),
        ensures
            r == noise_amplitude(*self),
            r < 16,
    {
        if !self.enabled {
            return 0;
        }
        let b: u16 = (!self.lfsr) & 1;
        let l: u16 = self.lfsr;
        assert((!l) & 1 == 1 - l % 2) by (bit_vector);
        let level: u8 = b as u8;
        assert(level * self.envelope.current_volume == (if level == 1 {
            self.envelope.current_volume as int
        } else {
            0
        })) by (nonlinear_arith)
            requires
                level == 0 || level == 1,
        ;
        level * self.envelope.current_volume
    }
}

// ---- Packing of register fields ----

/// The value of a one-bit field at bit `n`.
pub fn flag(on: bool, n: u8) -> (r: u8)
    requires
        n < 8,
    ensures
        r == (if on {
            1u8 << n
        } else {
            0u8
        }),
{
    if on {
        1u8 << n
    } else {
        0
    }
}

/// Fields of four, one and three bits packed into a register.
proof fn lemma_pack_fields(high: u8, on: bool, low: u8)
    requires
        high < 16,
        low < 8,
    ensures
        (high << 4) | (if on {
            1u8 << 3
        } else {
            0u8
        }) | low == high * 16 + (if on {
            8int
        } else {
            0int
        }) + low,
{
    assert((high << 4) | (if on {
        1u8 << 3
    } else {
        0u8
    }) | low == high * 16 + (if on {
        8u8
    } else {
        0u8
    }) + low) by (bit_vector)
        requires
            high < 16,
            low < 8,
    ;
}

/// A set bit and fields of three, one and three bits packed into a register.
proof fn lemma_pack_sweep(high: u8, on: bool, low: u8)
    requires
        high < 8,
        low < 8,
    ensures
        0x80u8 | (high << 4) | (if on {
            1u8 << 3
        } else {
            0u8
        }) | low == 0x80 + high * 16 + (if on {
            8int
        } else {
            0int
        }) + low,
{
    assert(0x80u8 | (high << 4) | (if on {
        1u8 << 3
    } else {
        0u8
    }) | low == 0x80u8 + high * 16 + (if on {
        8u8
    } else {
        0u8
    }) + low) by (bit_vector)
        requires
            high < 8,
            low < 8,
    ;
}

/// The converter is on unless the upper five bits are all 0.
proof fn lemma_dac_mask(value: u8)
    by (bit_vector)
    ensures
        (value & 0xF8 != 0) == (value >= 8),
{
}

proof fn lemma_shift_right_bound(v: u16, n: u8)
    requires
        n < 8,
    ensures
        v >> n <= v,
{
    assert(v >> n <= v) by (bit_vector)
        requires
            n < 8,
    ;
}

/// Masking and joining replaces the low eight bits of a frequency.
proof fn lemma_frequency_low(frequency: u16, value: u8)
    requires
        frequency <= MAX_FREQUENCY,
    ensures
        (frequency & 0x0700) | value as u16 == frequency - frequency % 256 + value,
        frequency - frequency % 256 + value <= MAX_FREQUENCY,
{
    assert((frequency & 0x0700) | value as u16 == frequency - frequency % 256 + value)
        by (bit_vector)
        requires
            frequency <= 2047,
    ;
}

/// Masking and joining replaces the high three bits of a frequency.
proof fn lemma_frequency_high(frequency: u16, value: u8)
    by (bit_vector)
    ensures
        (frequency & 0x00FF) | (((value & 0x07) as u16) << 8) == frequency % 256 + (value % 8)
            * 256,
{
}

/// Shifting and masking is a step of the shift register, which keeps its 15
/// bits.
pub proof fn lemma_lfsr_step(lfsr: u16, short: bool)
    requires
        lfsr < 0x8000,
    ensures
        ({
            let x = (lfsr & 1) ^ ((lfsr >> 1) & 1);
            let shifted = (lfsr >> 1) | (x << 14);
            &&& shifted == lfsr_step(lfsr, false)
            &&& (shifted & !(1u16 << 6)) | (x << 6) == lfsr_step(lfsr, true)
        }),
        lfsr_step(lfsr, short) < 0x8000,
{
    let x = (lfsr & 1) ^ ((lfsr >> 1) & 1);
    let shifted = (lfsr >> 1) | (x << 14);
    assert(x == (lfsr + lfsr / 2) % 2 && shifted == lfsr / 2 + x * 0x4000 && shifted < 0x8000)
        by (bit_vector)
        requires
            x == (lfsr & 1) ^ ((lfsr >> 1) & 1),
            shifted == (lfsr >> 1) | (x << 14),
            lfsr < 0x8000,
    ;
    assert((shifted & !(1u16 << 6)) | (x << 6) == shifted - ((shifted / 64) % 2) * 64 + x * 64
        && (shifted & !(1u16 << 6)) | (x << 6) < 0x8000) by (bit_vector)
        requires
            shifted < 0x8000,
            x <= 1,
    ;
}

// ---- Laws ----

/// A T-cycle keeps the fields of the channels within their ranges.
pub proof fn lemma_channels_cycle_wf(square: SquareChannel, wave: WaveChannel, noise: NoiseChannel)
    ensures
        square.wf() ==> square_cycle(square).wf(),
        wave.wf() ==> wave_cycle(wave).wf(),
        noise.wf() ==> noise_cycle(noise).wf(),
{
    if noise.wf() {
        lemma_lfsr_step(noise.lfsr, noise.width_mode_7bit);
    }
}

/// A clock of the sweep never leaves a frequency above 2047, neither in the
/// sweep nor in what it asks of the channel.
pub proof fn lemma_sweep_clock_wf(s: Sweep)
    requires
        s.wf(),
    ensures
        sweep_clock(s).0.wf(),
        sweep_clock(s).1 matches SweepResult::UpdateFrequency(f) ==> f <= MAX_FREQUENCY,
{
    lemma_shift_right_bound(s.shadow_frequency, s.shift);
}

/// `n` clocks of the length counter.
pub open spec fn square_length_clocks(c: SquareChannel, n: nat) -> SquareChannel
    decreases n,
{
    if n == 0 {
        c
    } else {
        square_length_clocks(square_length_clock(c), (n - 1) as nat)
    }
}

/// `n` clocks of the length counter.
pub open spec fn wave_length_clocks(c: WaveChannel, n: nat) -> WaveChannel
    decreases n,
{
    if n == 0 {
        c
    } else {
        wave_length_clocks(wave_length_clock(c), (n - 1) as nat)
    }
}

/// `n` clocks of the length counter.
pub open spec fn noise_length_clocks(c: NoiseChannel, n: nat) -> NoiseChannel
    decreases n,
{
    if n == 0 {
        c
    } else {
        noise_length_clocks(noise_length_clock(c), (n - 1) as nat)
    }
}

/// With its length enabled, a channel stays on until its length counter has
/// been clocked down, and is off from then on.
pub proof fn law_length_silences(c: SquareChannel, n: nat)
    requires
        c.length_enabled,
        c.length_counter > 0,
    ensures
        square_length_clocks(c, n).enabled == (c.enabled && n < c.length_counter),
    decreases n,
{
    if n > 0 {
        let next = square_length_clock(c);
        if next.length_counter > 0 {
            law_length_silences(next, (n - 1) as nat);
        } else {
            lemma_off_stays_off(next, (n - 1) as nat);
        }
    }
}

/// The length of the wave channel silences it alike.
pub proof fn law_wave_length_silences(c: WaveChannel, n: nat)
    requires
        c.length_enabled,
        c.length_counter > 0,
    ensures
        wave_length_clocks(c, n).enabled == (c.enabled && n < c.length_counter),
    decreases n,
{
    if n > 0 {
        let next = wave_length_clock(c);
        if next.length_counter > 0 {
            law_wave_length_silences(next, (n - 1) as nat);
        } else {
            lemma_wave_stays_off(next, (n - 1) as nat);
        }
    }
}

/// The length of the noise channel silences it alike.
pub proof fn law_noise_length_silences(c: NoiseChannel, n: nat)
    requires
        c.length_enabled,
        c.length_counter > 0,
    ensures
        noise_length_clocks(c, n).enabled == (c.enabled && n < c.length_counter),
    decreases n,
{
    if n > 0 {
        let next = noise_length_clock(c);
        if next.length_counter > 0 {
            law_noise_length_silences(next, (n - 1) as nat);
        } else {
            lemma_noise_stays_off(next, (n - 1) as nat);
        }
    }
}

proof fn lemma_wave_stays_off(c: WaveChannel, n: nat)
    requires
        !c.enabled,
    ensures
        !wave_length_clocks(c, n).enabled,
    decreases n,
{
    if n > 0 {
        lemma_wave_stays_off(wave_length_clock(c), (n - 1) as nat);
    }
}

proof fn lemma_noise_stays_off(c: NoiseChannel, n: nat)
    requires
        !c.enabled,
    ensures
        !noise_length_clocks(c, n).enabled,
    decreases n,
{
    if n > 0 {
        lemma_noise_stays_off(noise_length_clock(c), (n - 1) as nat);
    }
}

proof fn lemma_off_stays_off(c: SquareChannel, n: nat)
    requires
        !c.enabled,
    ensures
        !square_length_clocks(c, n).enabled,
    decreases n,
{
    if n > 0 {
        lemma_off_stays_off(square_length_clock(c), (n - 1) as nat);
    }
}

/// `n` clocks of the envelope.
pub open spec fn envelope_clocks(e: Envelope, n: nat) -> Envelope
    decreases n,
{
    if n == 0 {
        e
    } else {
        envelope_clock(envelope_clocks(e, (n - 1) as nat))
    }
}

/// The volume of a running envelope never leaves 0 to 15 and only moves in the
/// direction of the envelope. With a period of 0 it does not move.
pub proof fn law_envelope_volume(e: Envelope, n: nat)
    requires
        e.wf(),
    ensures
        envelope_clocks(e, n).wf(),
        e.direction_increase ==> envelope_clocks(e, n).current_volume >= e.current_volume,
        !e.direction_increase ==> envelope_clocks(e, n).current_volume <= e.current_volume,
        e.period == 0 ==> envelope_clocks(e, n) == e,
        envelope_clocks(e, n).direction_increase == e.direction_increase,
        envelope_clocks(e, n).period == e.period,
    decreases n,
{
    if n > 0 {
        law_envelope_volume(e, (n - 1) as nat);
    }
}

/// In the long mode the shift register never empties, and in the short mode
/// its low seven bits never do, so the noise never stops.
pub proof fn law_lfsr_never_empties(lfsr: u16)
    requires
        lfsr < 0x8000,
    ensures
        lfsr > 0 ==> lfsr_step(lfsr, false) > 0,
        lfsr % 128 > 0 ==> lfsr_step(lfsr, true) % 128 > 0,
{
    lemma_lfsr_step(lfsr, false);
    let x = (lfsr & 1) ^ ((lfsr >> 1) & 1);
    let shifted = (lfsr >> 1) | (x << 14);
    assert(lfsr % 128 > 0 ==> ((shifted & !(1u16 << 6)) | (x << 6)) % 128 > 0) by (bit_vector)
        requires
            x == (lfsr & 1) ^ ((lfsr >> 1) & 1),
            shifted == (lfsr >> 1) | (x << 14),
    ;
}

/// A trigger switches a channel on exactly where its converter is on, and
/// never leaves it with an exhausted length counter.
pub proof fn law_trigger(square: SquareChannel, wave: WaveChannel, noise: NoiseChannel)
    ensures
        square_trigger(square).enabled == square.dac_enabled,
        wave_trigger(wave).enabled == wave.dac_enabled,
        noise_trigger(noise).enabled == noise.dac_enabled,
        square_trigger(square).length_counter > 0,
        wave_trigger(wave).length_counter > 0,
        noise_trigger(noise).length_counter > 0,
{
}

} // verus!

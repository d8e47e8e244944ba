//! The audio processing unit: its registers, the 512 Hz frame sequencer that
//! drives lengths, envelopes and the sweep, and the mixer.
//!
//! The unit hands out what the mixer is fed with in every T-cycle. The host
//! picks the T-cycles that its sample rate asks for and turns the levels into
//! its own sample format.

use vstd::prelude::*;

use crate::bits::{bit, law_bits, lemma_fields, lemma_masks, lemma_three_bits};
use crate::channels::{
    envelope_clock, envelope_value, flag, lemma_channels_cycle_wf, lemma_sweep_clock_wf,
    noise_amplitude, noise_clock, noise_clock_value, noise_control, noise_cycle, noise_envelope,
    noise_length, noise_length_clock, noise_reset, noise_trigger, square_amplitude, square_control,
    square_cycle, square_duty_length, square_envelope, square_frequency_low, square_length_clock,
    square_reset, square_trigger, sweep_clock, sweep_configure, sweep_reset, sweep_trigger,
    sweep_value, wave_amplitude, wave_control, wave_cycle, wave_dac, wave_frequency_low,
    wave_length, wave_length_clock, wave_reset, wave_trigger, wave_volume, NoiseChannel,
    SquareChannel, Sweep, SweepResult, WaveChannel,
};

verus! {

/// T-cycles between two steps of the frame sequencer.
pub const SEQUENCER_CYCLES: u32 = 8192;

/// The level of a channel and the sides it plays on.
#[derive(PartialEq, Eq, Clone, Copy, Debug, Structural)]
pub struct ChannelSample {
    /// Whether the channel plays. One that does not is silent, whatever level
    /// its wave would have.
    pub playing: bool,
    /// 0 to 15.
    pub amplitude: u8,
    pub left: bool,
    pub right: bool,
}

/// What the mixer is fed with in one T-cycle.
#[derive(PartialEq, Eq, Clone, Copy, Debug, Structural)]
pub enum SampleFrame {
    /// The unit is switched off.
    Silence,
    Mix {
        channel1: ChannelSample,
        channel2: ChannelSample,
        channel3: ChannelSample,
        channel4: ChannelSample,
        /// How many channels are panned to the left side, and to the right
        /// side, whether they play or not.
        left_count: u8,
        right_count: u8,
        /// The volume of each side, 0 to 7.
        left_volume: u8,
        right_volume: u8,
    },
}

/// The state of the audio processing unit.
pub struct SoundState {
    pub nr50: u8,
    pub nr51: u8,
    pub enabled: bool,
    pub channel1: SquareChannel,
    pub sweep: Sweep,
    pub channel2: SquareChannel,
    pub channel3: WaveChannel,
    pub channel4: NoiseChannel,
    pub wave_ram: Seq<u8>,
    pub frame_sequencer_step: u8,
    pub frame_sequencer_counter: u32,
    pub sample_rate: u32,
    /// One frame per T-cycle since the samples were last taken.
    pub samples: Seq<SampleFrame>,
}

impl SoundState {
    /// The channels and counters are in range, and while the unit is switched
    /// off every register is cleared.
    pub open spec fn wf(self) -> bool {
        &&& self.channel1.wf()
        &&& self.sweep.wf()
        &&& self.channel2.wf()
        &&& self.channel3.wf()
        &&& self.channel4.wf()
        &&& self.wave_ram.len() == 16
        &&& self.frame_sequencer_step < 8
        &&& self.frame_sequencer_counter < SEQUENCER_CYCLES
        &&& !self.enabled ==> registers_cleared(self)
    }
}

/// Whether every register but wave RAM is cleared.
pub open spec fn registers_cleared(s: SoundState) -> bool {
    &&& s.nr50 == 0
    &&& s.nr51 == 0
    &&& s.channel1 == square_reset()
    &&& s.sweep == sweep_reset()
    &&& s.channel2 == square_reset()
    &&& s.channel3 == wave_reset()
    &&& s.channel4 == noise_reset()
}

/// The unit as it is built for a host that plays `sample_rate` samples per
/// second: switched off.
pub open spec fn sound_reset(sample_rate: u32) -> SoundState {
    SoundState {
        nr50: 0,
        nr51: 0,
        enabled: false,
        channel1: square_reset(),
        sweep: sweep_reset(),
        channel2: square_reset(),
        channel3: wave_reset(),
        channel4: noise_reset(),
        wave_ram: Seq::new(16, |i: int| 0u8),
        frame_sequencer_step: 0,
        frame_sequencer_counter: 0,
        sample_rate,
        samples: Seq::empty(),
    }
}

// ---- Registers ----

pub open spec fn flag_at(on: bool, value: int) -> int {
    if on {
        value
    } else {
        0
    }
}

/// NR52 as the CPU reads it: the power switch, and which channels are on.
pub open spec fn power_value(s: SoundState) -> u8 {
    (0x70 + flag_at(s.enabled, 0x80) + flag_at(s.channel1.enabled, 1) + flag_at(
        s.channel2.enabled,
        2,
    ) + flag_at(s.channel3.enabled, 4) + flag_at(s.channel4.enabled, 8)) as u8
}

/// The registers and wave RAM as the CPU reads them. Bits that cannot be read
/// are 1.
pub open spec fn sound_read(s: SoundState, address: u16) -> u8 {
    match address {
        0xFF10 => sweep_value(s.sweep),
        0xFF11 => (s.channel1.duty * 64 + 0x3F) as u8,
        0xFF12 => envelope_value(s.channel1.envelope),
        0xFF14 => (0xBF + flag_at(s.channel1.length_enabled, 0x40)) as u8,
        0xFF16 => (s.channel2.duty * 64 + 0x3F) as u8,
        0xFF17 => envelope_value(s.channel2.envelope),
        0xFF19 => (0xBF + flag_at(s.channel2.length_enabled, 0x40)) as u8,
        0xFF1A => (0x7F + flag_at(s.channel3.dac_enabled, 0x80)) as u8,
        0xFF1C => (0x9F + s.channel3.volume_code * 32) as u8,
        0xFF1E => (0xBF + flag_at(s.channel3.length_enabled, 0x40)) as u8,
        0xFF21 => envelope_value(s.channel4.envelope),
        0xFF22 => noise_clock_value(s.channel4),
        0xFF23 => (0xBF + flag_at(s.channel4.length_enabled, 0x40)) as u8,
        0xFF24 => s.nr50,
        0xFF25 => s.nr51,
        0xFF26 => power_value(s),
        _ => if 0xFF30 <= address <= 0xFF3F {
            s.wave_ram[address - 0xFF30]
        } else {
            0xFF
        },
    }
}

/// Whether the CPU can write `address`: while the unit is off, only NR52 and
/// wave RAM.
pub open spec fn sound_writable(s: SoundState, address: u16) -> bool {
    s.enabled || address == 0xFF26 || 0xFF30 <= address <= 0xFF3F
}

/// Every register cleared, wave RAM kept.
pub open spec fn sound_power_off(s: SoundState) -> SoundState {
    SoundState {
        nr50: 0,
        nr51: 0,
        channel1: square_reset(),
        sweep: sweep_reset(),
        channel2: square_reset(),
        channel3: wave_reset(),
        channel4: noise_reset(),
        ..s
    }
}

/// An NR14 write. A trigger starts the channel and its sweep, and the channel
/// stays off where the sweep overflows at once.
pub open spec fn channel1_control(s: SoundState, value: u8) -> SoundState {
    let set = square_control(s.channel1, value);
    if bit(value, 7) {
        let started = square_trigger(set);
        let (sweep, fits) = sweep_trigger(s.sweep, set.frequency);
        SoundState {
            channel1: SquareChannel { enabled: started.enabled && fits, ..started },
            sweep,
            ..s
        }
    } else {
        SoundState { channel1: set, ..s }
    }
}

/// An NR52 write: the power switch.
pub open spec fn power_write(s: SoundState, value: u8) -> SoundState {
    let after = if s.enabled && !bit(value, 7) {
        sound_power_off(s)
    } else {
        s
    };
    SoundState { enabled: bit(value, 7), ..after }
}

/// A CPU write to a register or to wave RAM.
pub open spec fn sound_write(s: SoundState, address: u16, value: u8) -> SoundState {
    if !sound_writable(s, address) {
        s
    } else {
        match address {
            0xFF10 => SoundState { sweep: sweep_configure(s.sweep, value), ..s },
            0xFF11 => SoundState { channel1: square_duty_length(s.channel1, value), ..s },
            0xFF12 => SoundState { channel1: square_envelope(s.channel1, value), ..s },
            0xFF13 => SoundState { channel1: square_frequency_low(s.channel1, value), ..s },
            0xFF14 => channel1_control(s, value),
            0xFF16 => SoundState { channel2: square_duty_length(s.channel2, value), ..s },
            0xFF17 => SoundState { channel2: square_envelope(s.channel2, value), ..s },
            0xFF18 => SoundState { channel2: square_frequency_low(s.channel2, value), ..s },
            0xFF19 => SoundState {
                channel2: if bit(value, 7) {
                    square_trigger(square_control(s.channel2, value))
                } else {
                    square_control(s.channel2, value)
                },
                ..s
            },
            0xFF1A => SoundState { channel3: wave_dac(s.channel3, value), ..s },
            0xFF1B => SoundState { channel3: wave_length(s.channel3, value), ..s },
            0xFF1C => SoundState { channel3: wave_volume(s.channel3, value), ..s },
            0xFF1D => SoundState { channel3: wave_frequency_low(s.channel3, value), ..s },
            0xFF1E => SoundState {
                channel3: if bit(value, 7) {
                    wave_trigger(wave_control(s.channel3, value))
                } else {
                    wave_control(s.channel3, value)
                },
                ..s
            },
            0xFF20 => SoundState { channel4: noise_length(s.channel4, value), ..s },
            0xFF21 => SoundState { channel4: noise_envelope(s.channel4, value), ..s },
            0xFF22 => SoundState { channel4: noise_clock(s.channel4, value), ..s },
            0xFF23 => SoundState {
                channel4: if bit(value, 7) {
                    noise_trigger(noise_control(s.channel4, value))
                } else {
                    noise_control(s.channel4, value)
                },
                ..s
            },
            0xFF24 => SoundState { nr50: value, ..s },
            0xFF25 => SoundState { nr51: value, ..s },
            0xFF26 => power_write(s, value),
            _ => if 0xFF30 <= address <= 0xFF3F {
                SoundState { wave_ram: s.wave_ram.update(address - 0xFF30, value), ..s }
            } else {
                s
            },
        }
    }
}

// ---- Time ----

/// One clock of all length counters.
pub open spec fn clock_lengths(s: SoundState) -> SoundState {
    SoundState {
        channel1: square_length_clock(s.channel1),
        channel2: square_length_clock(s.channel2),
        channel3: wave_length_clock(s.channel3),
        channel4: noise_length_clock(s.channel4),
        ..s
    }
}

/// One clock of all envelopes.
pub open spec fn clock_envelopes(s: SoundState) -> SoundState {
    SoundState {
        channel1: SquareChannel { envelope: envelope_clock(s.channel1.envelope), ..s.channel1 },
        channel2: SquareChannel { envelope: envelope_clock(s.channel2.envelope), ..s.channel2 },
        channel4: NoiseChannel { envelope: envelope_clock(s.channel4.envelope), ..s.channel4 },
        ..s
    }
}

/// One clock of the sweep, and what it does to channel 1.
pub open spec fn clock_sweep_unit(s: SoundState) -> SoundState {
    let (sweep, result) = sweep_clock(s.sweep);
    SoundState {
        sweep,
        channel1: match result {
            SweepResult::NoChange => s.channel1,
            SweepResult::UpdateFrequency(f) => SquareChannel { frequency: f, ..s.channel1 },
            SweepResult::Disable => SquareChannel { enabled: false, ..s.channel1 },
        },
        ..s
    }
}

/// One step of the frame sequencer: lengths on the even steps, the sweep on
/// steps 2 and 6, envelopes on step 7.
pub open spec fn sequencer_step(s: SoundState) -> SoundState {
    let step = s.frame_sequencer_step;
    let lengths = if step % 2 == 0 {
        clock_lengths(s)
    } else {
        s
    };
    let swept = if step == 2 || step == 6 {
        clock_sweep_unit(lengths)
    } else {
        lengths
    };
    let enveloped = if step == 7 {
        clock_envelopes(swept)
    } else {
        swept
    };
    SoundState { frame_sequencer_step: ((step + 1) % 8) as u8, ..enveloped }
}

/// One T-cycle of the four waveforms.
pub open spec fn channels_cycle(s: SoundState) -> SoundState {
    SoundState {
        channel1: square_cycle(s.channel1),
        channel2: square_cycle(s.channel2),
        channel3: wave_cycle(s.channel3),
        channel4: noise_cycle(s.channel4),
        ..s
    }
}

/// One T-cycle of the frame sequencer's divider.
pub open spec fn sequencer_cycle(s: SoundState) -> SoundState {
    if s.frame_sequencer_counter + 1 >= SEQUENCER_CYCLES {
        sequencer_step(SoundState { frame_sequencer_counter: 0, ..s })
    } else {
        SoundState { frame_sequencer_counter: (s.frame_sequencer_counter + 1) as u32, ..s }
    }
}

/// A channel's contribution: NR51 has its left side in bit `n + 4` and its
/// right side in bit `n`.
pub open spec fn channel_sample(
    playing: bool,
    amplitude: u8,
    nr51: u8,
    n: u8,
) -> ChannelSample {
    ChannelSample { playing, amplitude, left: bit(nr51, (n + 4) as u8), right: bit(nr51, n) }
}

/// What the mixer is fed with in state `s`.
pub open spec fn mixer_frame(s: SoundState) -> SampleFrame {
    if s.enabled {
        SampleFrame::Mix {
            channel1: channel_sample(
                s.channel1.enabled,
                square_amplitude(s.channel1),
                s.nr51,
                0,
            ),
            channel2: channel_sample(
                s.channel2.enabled,
                square_amplitude(s.channel2),
                s.nr51,
                1,
            ),
            channel3: channel_sample(
                s.channel3.enabled,
                wave_amplitude(s.channel3, s.wave_ram),
                s.nr51,
                2,
            ),
            channel4: channel_sample(
                s.channel4.enabled,
                noise_amplitude(s.channel4),
                s.nr51,
                3,
            ),
            left_count: (flag_at(bit(s.nr51, 4), 1) + flag_at(bit(s.nr51, 5), 1) + flag_at(
                bit(s.nr51, 6),
                1,
            ) + flag_at(bit(s.nr51, 7), 1)) as u8,
            right_count: (flag_at(bit(s.nr51, 0), 1) + flag_at(bit(s.nr51, 1), 1) + flag_at(
                bit(s.nr51, 2),
                1,
            ) + flag_at(bit(s.nr51, 3), 1)) as u8,
            left_volume: (s.nr50 / 16) % 8,
            right_volume: s.nr50 % 8,
        }
    } else {
        SampleFrame::Silence
    }
}

/// One T-cycle. While the unit is off only the silent frame is handed out.
pub open spec fn sound_cycle(s: SoundState) -> SoundState {
    let moved = if s.enabled {
        sequencer_cycle(channels_cycle(s))
    } else {
        s
    };
    SoundState { samples: moved.samples.push(mixer_frame(moved)), ..moved }
}

/// `n` T-cycles.
pub open spec fn sound_cycles(s: SoundState, n: nat) -> SoundState
    decreases n,
{
    if n == 0 {
        s
    } else {
        sound_cycle(sound_cycles(s, (n - 1) as nat))
    }
}

// ---- The unit ----

pub struct Sound {
    nr50: u8,
    nr51: u8,
    enabled: bool,
    channel1: SquareChannel,
    sweep: Sweep,
    channel2: SquareChannel,
    channel3: WaveChannel,
    channel4: NoiseChannel,
    wave_ram: [u8; 16],
    frame_sequencer_step: u8,
    frame_sequencer_counter: u32,
    sample_rate: u32,
    samples: Vec<SampleFrame>,
}

impl View for Sound {
    type V = SoundState;

    closed spec fn view(&self) -> SoundState {
        SoundState {
            nr50: self.nr50,
            nr51: self.nr51,
            enabled: self.enabled,
            channel1: self.channel1,
            sweep: self.sweep,
            channel2: self.channel2,
            channel3: self.channel3,
            channel4: self.channel4,
            wave_ram: self.wave_ram@,
            frame_sequencer_step: self.frame_sequencer_step,
            frame_sequencer_counter: self.frame_sequencer_counter,
            sample_rate: self.sample_rate,
            samples: self.samples@,
        }
    }
}

impl Sound {
    pub fn new(sample_rate: u32) -> (r: Self)
        ensures
            r@ == sound_reset(sample_rate),
            r@.wf(),
    {
        let r = Sound {
            nr50: 0,
            nr51: 0,
            enabled: false,
            channel1: SquareChannel::silent(),
            sweep: Sweep::silent(),
            channel2: SquareChannel::silent(),
            channel3: WaveChannel::silent(),
            channel4: NoiseChannel::silent(),
            wave_ram: [0; 16],
            frame_sequencer_step: 0,
            frame_sequencer_counter: 0,
            sample_rate,
            samples: Vec::new(),
        };
        proof {
            assert(r@.wave_ram =~= sound_reset(sample_rate).wave_ram);
        }
        r
    }

    /// Reads a register or wave RAM for the CPU.
    pub fn read(&self, address: u16) -> (r: u8)
        requires
            self@.wf(),
        ensures
            r == sound_read(self@, address),
    {
        match address {
            0xFF10 => self.sweep.value(),
            0xFF11 => Self::duty_value(self.channel1.duty),
            0xFF12 => self.channel1.envelope.value(),
            0xFF13 => 0xFF,
            0xFF14 => Self::control_value(self.channel1.length_enabled),
            0xFF16 => Self::duty_value(self.channel2.duty),
            0xFF17 => self.channel2.envelope.value(),
            0xFF18 => 0xFF,
            0xFF19 => Self::control_value(self.channel2.length_enabled),
            0xFF1A => {
                proof {
                    lemma_or_flags(self.channel3.volume_code);
                }
                0x7F | flag(self.channel3.dac_enabled, 7)
            },
            0xFF1B => 0xFF,
            0xFF1C => {
                proof {
                    lemma_or_flags(self.channel3.volume_code);
                }
                0x9F | (self.channel3.volume_code << 5)
            },
            0xFF1D => 0xFF,
            0xFF1E => Self::control_value(self.channel3.length_enabled),
            0xFF20 => 0xFF,
            0xFF21 => self.channel4.envelope.value(),
            0xFF22 => self.channel4.clock_value(),
            0xFF23 => Self::control_value(self.channel4.length_enabled),
            0xFF24 => self.nr50,
            0xFF25 => self.nr51,
            0xFF26 => self.status_value(),
            0xFF30..=0xFF3F => self.wave_ram[(address - 0xFF30) as usize],
            _ => 0xFF,
        }
    }

    fn duty_value(duty: u8) -> (r: u8)
        requires
            duty < 4,
        ensures
            r == duty * 64 + 0x3F,
    {
        proof {
            lemma_or_flags(duty);
        }
        (duty << 6) | 0x3F
    }

    fn control_value(length_enabled: bool) -> (r: u8)
        ensures
            r == 0xBF + flag_at(length_enabled, 0x40),
    {
        proof {
            lemma_or_flags(0);
        }
        0xBF | flag(length_enabled, 6)
    }

    fn status_value(&self) -> (r: u8)
        ensures
            r == power_value(self@),
    {
        proof {
            lemma_status(
                self.enabled,
                self.channel1.enabled,
                self.channel2.enabled,
                self.channel3.enabled,
                self.channel4.enabled,
            );
        }
        let mut status: u8 = if self.enabled {
            0x80
        } else {
            0x00
        };
        status = status | flag(self.channel1.enabled, 0);
        status = status | flag(self.channel2.enabled, 1);
        status = status | flag(self.channel3.enabled, 2);
        status = status | flag(self.channel4.enabled, 3);
        status | 0x70
    }

    /// Writes a register or wave RAM for the CPU.
    pub fn write(&mut self, address: u16, value: u8)
        requires
            old(self)@.wf(),
        ensures
            final(self)@ == sound_write(old(self)@, address, value),
            final(self)@.wf(),
    {
        if !self.enabled && address != 0xFF26 && !(0xFF30 <= address && address <= 0xFF3F) {
            return ;
        }
        proof {
            lemma_masks(value);
        }
        match address {
            0xFF10 => self.sweep.configure(value),
            0xFF11 => self.channel1.set_duty_length(value),
            0xFF12 => self.channel1.set_envelope(value),
            0xFF13 => self.channel1.set_frequency_low(value),
            0xFF14 => {
                self.channel1.set_control(value);
                if value & 0x80 != 0 {
                    self.channel1.trigger();
                    if !self.sweep.trigger(self.channel1.frequency) {
                        self.channel1.enabled = false;
                    }
                }
            },
            0xFF16 => self.channel2.set_duty_length(value),
            0xFF17 => self.channel2.set_envelope(value),
            0xFF18 => self.channel2.set_frequency_low(value),
            0xFF19 => {
                self.channel2.set_control(value);
                if value & 0x80 != 0 {
                    self.channel2.trigger();
                }
            },
            0xFF1A => self.channel3.set_dac(value),
            0xFF1B => self.channel3.set_length(value),
            0xFF1C => self.channel3.set_volume(value),
            0xFF1D => self.channel3.set_frequency_low(value),
            0xFF1E => {
                self.channel3.set_control(value);
                if value & 0x80 != 0 {
                    self.channel3.trigger();
                }
            },
            0xFF20 => self.channel4.set_length(value),
            0xFF21 => self.channel4.set_envelope(value),
            0xFF22 => self.channel4.set_clock(value),
            0xFF23 => {
                self.channel4.set_control(value);
                if value & 0x80 != 0 {
                    self.channel4.trigger();
                }
            },
            0xFF24 => self.nr50 = value,
            0xFF25 => self.nr51 = value,
            0xFF26 => {
                let turning_on = value & 0x80 != 0;
                if self.enabled && !turning_on {
                    self.power_off();
                }
                self.enabled = turning_on;
            },
            0xFF30..=0xFF3F => {
                self.wave_ram[(address - 0xFF30) as usize] = value;
            },
            _ => {},
        }
    }

    fn power_off(&mut self)
        requires
            old(self)@.wf(),
        ensures
            final(self)@ == sound_power_off(old(self)@),
            final(self)@.wf(),
    {
        self.nr50 = 0;
        self.nr51 = 0;
        self.channel1 = SquareChannel::silent();
        self.sweep = Sweep::silent();
        self.channel2 = SquareChannel::silent();
        self.channel3 = WaveChannel::silent();
        self.channel4 = NoiseChannel::silent();
    }

    /// Advances the unit by `cycles` T-cycles.
    pub fn tick(&mut self, cycles: u32)
        requires
            old(self)@.wf(),
        ensures
            final(self)@ == sound_cycles(old(self)@, cycles as nat),
            final(self)@.wf(),
    {
        let mut done: u32 = 0;
        while done < cycles
            invariant
                done <= cycles,
                self@ == sound_cycles(old(self)@, done as nat),
                self@.wf(),
            decreases cycles - done,
        {
            self.tick_one();
            done += 1;
        }
    }

    fn tick_one(&mut self)
        requires
            old(self)@.wf(),
        ensures
            final(self)@ == sound_cycle(old(self)@),
            final(self)@.wf(),
    {
        if self.enabled {
            self.channel1.tick();
            self.channel2.tick();
            self.channel3.tick();
            self.channel4.tick();
            assert(self@ == channels_cycle(old(self)@));
            self.frame_sequencer_counter += 1;
            if self.frame_sequencer_counter >= 8192 {
                self.frame_sequencer_counter = 0;
                self.step_frame_sequencer();
            }
        }
        self.push_sample();
    }

    fn step_frame_sequencer(&mut self)
        requires
            old(self)@.wf(),
        ensures
            final(self)@ == sequencer_step(old(self)@),
            final(self)@.wf(),
    {
        match self.frame_sequencer_step {
            0 | 4 => self.clock_length(),
            2 | 6 => {
                self.clock_length();
                self.clock_sweep();
            },
            7 => self.clock_envelope(),
            _ => {},
        }
        proof {
            lemma_fields((self.frame_sequencer_step + 1) as u8);
        }
        self.frame_sequencer_step = (self.frame_sequencer_step + 1) & 7;
    }

    fn clock_length(&mut self)
        requires
            old(self)@.wf(),
        ensures
            final(self)@ == clock_lengths(old(self)@),
            final(self)@.wf(),
    {
        self.channel1.clock_length();
        self.channel2.clock_length();
        self.channel3.clock_length();
        self.channel4.clock_length();
    }

    fn clock_envelope(&mut self)
        requires
            old(self)@.wf(),
        ensures
            final(self)@ == clock_envelopes(old(self)@),
            final(self)@.wf(),
    {
        self.channel1.envelope.tick();
        self.channel2.envelope.tick();
        self.channel4.envelope.tick();
    }

    fn clock_sweep(&mut self)
        requires
            old(self)@.wf(),
        ensures
            final(self)@ == clock_sweep_unit(old(self)@),
            final(self)@.wf(),
    {
        match self.sweep.tick() {
            SweepResult::NoChange => {},
            SweepResult::UpdateFrequency(freq) => self.channel1.frequency = freq,
            SweepResult::Disable => self.channel1.enabled = false,
        }
    }

    /// Hands out the frame of the current T-cycle.
    #[verifier::rlimit(30)]
    fn push_sample(&mut self)
        requires
            old(self)@.wf(),
        ensures
            final(self)@ == (SoundState {
                samples: old(self)@.samples.push(mixer_frame(old(self)@)),
                ..old(self)@
            }),
    {
        if !self.enabled {
            self.samples.push(SampleFrame::Silence);
            return ;
        }
        proof {
            lemma_masks(self.nr51);
            lemma_three_bits(self.nr50);
        }
        let channel1 = ChannelSample {
            playing: self.channel1.enabled,
            amplitude: self.channel1.amplitude(),
            left: self.nr51 & 0x10 != 0,
            right: self.nr51 & 0x01 != 0,
        };
        let channel2 = ChannelSample {
            playing: self.channel2.enabled,
            amplitude: self.channel2.amplitude(),
            left: self.nr51 & 0x20 != 0,
            right: self.nr51 & 0x02 != 0,
        };
        let channel3 = ChannelSample {
            playing: self.channel3.enabled,
            amplitude: self.channel3.amplitude(&self.wave_ram),
            left: self.nr51 & 0x40 != 0,
            right: self.nr51 & 0x04 != 0,
        };
        let channel4 = ChannelSample {
            playing: self.channel4.enabled,
            amplitude: self.channel4.amplitude(),
            left: self.nr51 & 0x80 != 0,
            right: self.nr51 & 0x08 != 0,
        };
        let left_count: u8 = count(channel1.left) + count(channel2.left) + count(channel3.left)
            + count(channel4.left);
        let right_count: u8 = count(channel1.right) + count(channel2.right) + count(channel3.right)
            + count(channel4.right);
        self.samples.push(
            SampleFrame::Mix {
                channel1,
                channel2,
                channel3,
                channel4,
                left_count,
                right_count,
                left_volume: (self.nr50 >> 4) & 0x07,
                right_volume: self.nr50 & 0x07,
            },
        );
    }

    /// Takes the frames of all T-cycles since the last call.
    pub fn take_samples(&mut self) -> (r: Vec<SampleFrame>)
        ensures
            r@ == old(self)@.samples,
            final(self)@ == (SoundState { samples: Seq::empty(), ..old(self)@ }),
    {
        let mut taken: Vec<SampleFrame> = Vec::new();
        core::mem::swap(&mut taken, &mut self.samples);
        taken
    }

    /// The sample rate of the host.
    pub fn sample_rate(&self) -> (r: u32)
        ensures
            r == self@.sample_rate,
    {
        self.sample_rate
    }
}

fn count(on: bool) -> (r: u8)
    ensures
        r == flag_at(on, 1),
{
    if on {
        1
    } else {
        0
    }
}

proof fn lemma_or_flags(two_bits: u8)
    requires
        two_bits < 4,
    ensures
        0xBFu8 | (1u8 << 6) == 0xFF,
        0xBFu8 | 0u8 == 0xBF,
        0x7Fu8 | (1u8 << 7) == 0xFF,
        0x7Fu8 | 0u8 == 0x7F,
        0x9Fu8 | (two_bits << 5) == 0x9F + two_bits * 32,
        (two_bits << 6) | 0x3Fu8 == two_bits * 64 + 0x3F,
{
    assert(0xBFu8 | (1u8 << 6) == 0xFF && 0xBFu8 | 0u8 == 0xBF && 0x7Fu8 | (1u8 << 7) == 0xFF
        && 0x7Fu8 | 0u8 == 0x7F && 0x9Fu8 | (two_bits << 5) == 0x9F + two_bits * 32 && (two_bits
        << 6) | 0x3Fu8 == two_bits * 64 + 0x3F) by (bit_vector)
        requires
            two_bits < 4,
    ;
}

spec fn bit_flag(on: bool, n: u8) -> u8 {
    if on {
        1u8 << n
    } else {
        0u8
    }
}

proof fn lemma_status(power: bool, c1: bool, c2: bool, c3: bool, c4: bool)
    ensures
        (if power {
            0x80u8
        } else {
            0u8
        }) | bit_flag(c1, 0) | bit_flag(c2, 1) | bit_flag(c3, 2) | bit_flag(c4, 3) | 0x70u8 == 0x70
            + flag_at(power, 0x80) + flag_at(c1, 1) + flag_at(c2, 2) + flag_at(c3, 4) + flag_at(
            c4,
            8,
        ),
{
    assert((if power {
        0x80u8
    } else {
        0u8
    }) | bit_flag(c1, 0) | bit_flag(c2, 1) | bit_flag(c3, 2) | bit_flag(c4, 3) | 0x70u8 == 0x70u8
        + (if power {
        0x80u8
    } else {
        0u8
    }) + (if c1 {
        1u8
    } else {
        0u8
    }) + (if c2 {
        2u8
    } else {
        0u8
    }) + (if c3 {
        4u8
    } else {
        0u8
    }) + (if c4 {
        8u8
    } else {
        0u8
    })) by (bit_vector);
}

// ---- Laws ----

/// A T-cycle keeps every field of the unit within its range.
pub proof fn lemma_sound_cycle_wf(s: SoundState)
    requires
        s.wf(),
    ensures
        sound_cycle(s).wf(),
{
    assert(channels_cycle(s).wf()) by {
        lemma_channels_cycle_wf(s.channel1, s.channel3, s.channel4);
        lemma_channels_cycle_wf(s.channel2, s.channel3, s.channel4);
    }
    lemma_sequencer_cycle_wf(channels_cycle(s));
}

/// A T-cycle of the frame sequencer keeps every field within its range.
#[verifier::rlimit(30)]
proof fn lemma_sequencer_cycle_wf(s: SoundState)
    requires
        s.wf(),
    ensures
        sequencer_cycle(s).wf(),
{
    lemma_sweep_clock_wf(s.sweep);
    let t = SoundState { frame_sequencer_counter: 0, ..s };
    assert(clock_lengths(t).wf());
    assert(clock_envelopes(t).wf());
    assert(clock_sweep_unit(clock_lengths(t)).wf());
}

/// Any number of T-cycles keeps every field of the unit within its range.
pub proof fn lemma_sound_cycles_wf(s: SoundState, n: nat)
    requires
        s.wf(),
    ensures
        sound_cycles(s, n).wf(),
    decreases n,
{
    if n > 0 {
        lemma_sound_cycles_wf(s, (n - 1) as nat);
        lemma_sound_cycle_wf(sound_cycles(s, (n - 1) as nat));
    }
}

/// A write keeps every field of the unit within its range.
#[verifier::rlimit(30)]
pub proof fn lemma_sound_write_wf(s: SoundState, address: u16, value: u8)
    requires
        s.wf(),
    ensures
        sound_write(s, address, value).wf(),
{
}

/// Running `a` and then `b` T-cycles is running `a + b`.
pub proof fn lemma_sound_cycles_add(s: SoundState, a: nat, b: nat)
    ensures
        sound_cycles(s, a + b) == sound_cycles(sound_cycles(s, a), b),
    decreases b,
{
    if b > 0 {
        lemma_sound_cycles_add(s, a, (b - 1) as nat);
        assert((a + b - 1) as nat == a + (b - 1) as nat);
    }
}

/// Every T-cycle hands out exactly one frame, after those handed out before:
/// the frame of the state that the T-cycle leaves behind.
pub proof fn law_one_frame_per_cycle(s: SoundState, n: nat)
    ensures
        sound_cycles(s, n).samples.len() == s.samples.len() + n,
        sound_cycles(s, n).samples.take(s.samples.len() as int) == s.samples,
        forall|k: nat|
            1 <= k <= n ==> #[trigger] sound_cycles(s, n).samples[s.samples.len() + k - 1]
                == mixer_frame(sound_cycles(s, k)),
    decreases n,
{
    if n == 0 {
        assert(s.samples.take(s.samples.len() as int) =~= s.samples);
    } else {
        let before = sound_cycles(s, (n - 1) as nat);
        law_one_frame_per_cycle(s, (n - 1) as nat);
        assert(sound_cycles(s, n).samples.take(s.samples.len() as int) =~= before.samples.take(
            s.samples.len() as int,
        ));
    }
}

/// While the unit is off, T-cycles change nothing and hand out silence.
pub proof fn law_off_is_silent(s: SoundState)
    requires
        !s.enabled,
    ensures
        sound_cycle(s) == (SoundState { samples: s.samples.push(SampleFrame::Silence), ..s }),
{
}

/// The levels fed to the mixer have four bits and the volumes three, a channel
/// that does not play is at level 0, and no more than four channels are on a
/// side.
pub proof fn law_frame_ranges(s: SoundState)
    requires
        s.wf(),
    ensures
        mixer_frame(s) matches SampleFrame::Mix {
            channel1,
            channel2,
            channel3,
            channel4,
            left_count,
            right_count,
            left_volume,
            right_volume,
        } ==> {
            &&& channel1.amplitude < 16
            &&& channel2.amplitude < 16
            &&& channel3.amplitude < 16
            &&& channel4.amplitude < 16
            &&& !channel1.playing ==> channel1.amplitude == 0
            &&& !channel2.playing ==> channel2.amplitude == 0
            &&& !channel3.playing ==> channel3.amplitude == 0
            &&& !channel4.playing ==> channel4.amplitude == 0
            &&& left_count <= 4
            &&& right_count <= 4
            &&& left_volume < 8
            &&& right_volume < 8
        },
{
}

/// Switching the unit off clears every register but wave RAM, whether it was on
/// or not. After that, only NR52 and wave RAM can be written.
pub proof fn law_power_off(s: SoundState, value: u8, address: u16, later: u8)
    requires
        s.wf(),
        !bit(value, 7),
    ensures
        ({
            let off = sound_write(s, 0xFF26, value);
            &&& off == (SoundState { enabled: false, ..sound_power_off(s) })
            &&& registers_cleared(off)
            &&& off.wave_ram == s.wave_ram
            &&& address != 0xFF26 && !(0xFF30 <= address <= 0xFF3F) ==> sound_write(
                off,
                address,
                later,
            ) == off
        }),
{
}

/// A channel that plays has its converter on, and a unit that is switched off
/// has every register cleared and no channel playing.
pub proof fn law_playing_needs_power(s: SoundState)
    requires
        s.wf(),
    ensures
        s.channel1.enabled ==> s.enabled && s.channel1.dac_enabled,
        s.channel2.enabled ==> s.enabled && s.channel2.dac_enabled,
        s.channel3.enabled ==> s.enabled && s.channel3.dac_enabled,
        s.channel4.enabled ==> s.enabled && s.channel4.dac_enabled,
        !s.enabled ==> registers_cleared(s) && sound_read(s, 0xFF26) == 0x70,
{
}

/// Switching the unit off and on again leaves every channel silent.
pub proof fn law_power_cycle_silent(s: SoundState)
    requires
        s.wf(),
    ensures
        ({
            let back = sound_write(sound_write(s, 0xFF26, 0x00), 0xFF26, 0x80);
            &&& back.enabled
            &&& !back.channel1.enabled && !back.channel2.enabled && !back.channel3.enabled
                && !back.channel4.enabled
            &&& back.nr50 == 0 && back.nr51 == 0
        }),
{
    law_bits(0x00);
    law_bits(0x80);
}

/// The bits of a register that always read as 1.
pub open spec fn unreadable_bits(address: u16) -> u8 {
    match address {
        0xFF10 => 0x80,
        0xFF11 | 0xFF16 => 0x3F,
        0xFF12 | 0xFF17 | 0xFF21 | 0xFF22 | 0xFF24 | 0xFF25 => 0x00,
        0xFF14 | 0xFF19 | 0xFF1E | 0xFF23 => 0xBF,
        0xFF1A => 0x7F,
        0xFF1C => 0x9F,
        _ => if 0xFF30 <= address <= 0xFF3F {
            0x00
        } else {
            0xFF
        },
    }
}

/// While the unit is on, a register reads back what was written to it, with
/// its unreadable bits set. NR52 alone reports the channels instead.
#[verifier::rlimit(30)]
pub proof fn law_sound_read_back(s: SoundState, address: u16, value: u8)
    requires
        s.wf(),
        s.enabled,
        0xFF10 <= address <= 0xFF3F,
        address != 0xFF26,
    ensures
        sound_read(sound_write(s, address, value), address) == value | unreadable_bits(address),
{
    lemma_read_back_bits(value);
}

proof fn lemma_read_back_bits(v: u8)
    ensures
        v | 0x80 == 0x80 + ((v / 16) % 8) * 16 + flag_at(bit(v, 3), 8) + v % 8,
        v | 0x3F == (v / 64) * 64 + 0x3F,
        v == (v / 16) * 16 + flag_at(bit(v, 3), 8) + v % 8,
        v | 0xBF == 0xBF + flag_at(bit(v, 6), 0x40),
        v | 0x7F == 0x7F + flag_at(bit(v, 7), 0x80),
        v | 0x9F == 0x9F + ((v / 32) % 4) * 32,
        v | 0x00 == v,
        v | 0xFF == 0xFF,
{
    let b3: u8 = if bit(v, 3) {
        8
    } else {
        0
    };
    let b6: u8 = if bit(v, 6) {
        0x40
    } else {
        0
    };
    let b7: u8 = if bit(v, 7) {
        0x80
    } else {
        0
    };
    assert(v | 0x80 == 0x80 + ((v / 16) % 8) * 16 + b3 + v % 8 && v | 0x3F == (v / 64) * 64 + 0x3F
        && v == (v / 16) * 16 + b3 + v % 8 && v | 0xBF == 0xBF + b6 && v | 0x7F == 0x7F + b7 && v
        | 0x9F == 0x9F + ((v / 32) % 4) * 32 && v | 0x00 == v && v | 0xFF == 0xFF) by (bit_vector)
        requires
            b3 == (if bit(v, 3) {
                8u8
            } else {
                0u8
            }),
            b6 == (if bit(v, 6) {
                0x40u8
            } else {
                0u8
            }),
            b7 == (if bit(v, 7) {
                0x80u8
            } else {
                0u8
            }),
    ;
}

/// The position within the eight steps of the frame sequencer, in T-cycles.
pub open spec fn sequencer_position(s: SoundState) -> int {
    s.frame_sequencer_step * SEQUENCER_CYCLES + s.frame_sequencer_counter
}

/// While the unit is on, the frame sequencer takes its eight steps in 65536
/// T-cycles, which is 64 times per second.
pub proof fn law_sequencer_position(s: SoundState, n: nat)
    requires
        s.wf(),
        s.enabled,
    ensures
        sound_cycles(s, n).enabled,
        sequencer_position(sound_cycles(s, n)) == (sequencer_position(s) + n) % 65536,
    decreases n,
{
    if n == 0 {
        assert(0 <= sequencer_position(s) < 65536);
    } else {
        let before = sound_cycles(s, (n - 1) as nat);
        law_sequencer_position(s, (n - 1) as nat);
        lemma_sound_cycles_wf(s, (n - 1) as nat);
        lemma_sequencer_moves(before);
        lemma_next_position(sequencer_position(s) + n - 1);
    }
}

proof fn lemma_next_position(q: int)
    ensures
        (q % 65536 + 1) % 65536 == (q + 1) % 65536,
{
}

proof fn lemma_sequencer_moves(s: SoundState)
    requires
        s.wf(),
        s.enabled,
    ensures
        sound_cycle(s).enabled,
        sequencer_position(sound_cycle(s)) == (sequencer_position(s) + 1) % 65536,
{
    let c = channels_cycle(s);
    let t = sequencer_cycle(c);
    assert(sound_cycle(s).frame_sequencer_step == t.frame_sequencer_step);
    assert(sound_cycle(s).frame_sequencer_counter == t.frame_sequencer_counter);
    lemma_step_moves(c.frame_sequencer_step as int, c.frame_sequencer_counter as int);
}

proof fn lemma_step_moves(step: int, counter: int)
    requires
        0 <= step < 8,
        0 <= counter < SEQUENCER_CYCLES,
    ensures
        counter + 1 < SEQUENCER_CYCLES ==> (step * SEQUENCER_CYCLES + counter + 1) % 65536 == step
            * SEQUENCER_CYCLES + counter + 1,
        counter + 1 == SEQUENCER_CYCLES ==> (step * SEQUENCER_CYCLES + counter + 1) % 65536 == ((
        step + 1) % 8) * SEQUENCER_CYCLES,
{
}

} // verus!

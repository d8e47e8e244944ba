//! Laws of the sound: how fast the channels run, what their registers set and
//! what the mixer hears, in T-cycles, bits and levels.

use vstd::arithmetic::power2::{lemma2_to64, lemma_pow2_unfold, pow2};
use vstd::bits::{lemma_u16_shr_is_div, lemma_u32_shl_is_mul};
use vstd::prelude::*;

use crate::bits::{bit, law_bits};
use crate::channels::{
    envelope_clock, envelope_clocks, envelope_trigger, law_length_silences,
    law_noise_length_silences, law_wave_length_silences, lemma_lfsr_step, lfsr_step,
    noise_amplitude, noise_clock, noise_cycle, noise_length, noise_length_clock,
    noise_length_clocks, noise_period, noise_trigger, square_amplitude, square_cycle,
    square_duty_length, square_length_clock, square_length_clocks, square_trigger, sweep_clock,
    sweep_target, sweep_trigger, wave_amplitude, wave_cycle, wave_length, wave_length_clock,
    wave_length_clocks, wave_trigger, Envelope, NoiseChannel, SquareChannel, Sweep, SweepResult,
    WaveChannel,
};
use crate::sound::{
    clock_envelopes, clock_lengths, clock_sweep_unit, mixer_frame, sequencer_step, sound_cycle,
    sound_cycles, sound_read, sound_write, ChannelSample, SampleFrame, SoundState,
};

verus! {

// ---- Noise ----

/// `n` T-cycles of the noise.
pub open spec fn noise_cycles(c: NoiseChannel, n: nat) -> NoiseChannel
    decreases n,
{
    if n == 0 {
        c
    } else {
        noise_cycle(noise_cycles(c, (n - 1) as nat))
    }
}

/// `n` steps of the shift register.
pub open spec fn lfsr_steps(lfsr: u16, short: bool, n: nat) -> u16
    decreases n,
{
    if n == 0 {
        lfsr
    } else {
        lfsr_step(lfsr_steps(lfsr, short, (n - 1) as nat), short)
    }
}

proof fn lemma_noise_period(c: NoiseChannel)
    requires
        c.wf(),
    ensures
        noise_period(c) == (if c.divisor_code == 0 {
            8int
        } else {
            16 * c.divisor_code
        }) * pow2(c.clock_shift as nat),
        noise_period(c) >= 8,
{
    let d: u32 = if c.divisor_code == 0 {
        8
    } else {
        (16 * c.divisor_code) as u32
    };
    let p = pow2(c.clock_shift as nat);
    lemma2_to64();
    assert(1 <= p <= 0x8000);
    assert(8 <= d * p <= u32::MAX) by (nonlinear_arith)
        requires
            8 <= d <= 112,
            1 <= p <= 0x8000,
    ;
    lemma_u32_shl_is_mul(d, c.clock_shift as u32);
}

/// After a trigger the shift register starts with all ones and takes one step in
/// every D * 2^k T-cycles and none between, where D is 8 for divisor code 0 and
/// 16 times the code otherwise, and k is the clock shift: after `steps` such
/// periods and `rest` T-cycles of the next it has taken `steps` steps.
pub proof fn law_noise_rate(c: NoiseChannel, period: int, steps: nat, rest: nat)
    requires
        c.wf(),
        c.dac_enabled,
        period == (if c.divisor_code == 0 {
            8int
        } else {
            16 * c.divisor_code
        }) * pow2(c.clock_shift as nat),
        rest < period,
    ensures
        ({
            let t = noise_cycles(noise_trigger(c), (steps * period + rest) as nat);
            &&& t.lfsr == lfsr_steps(0x7FFF, c.width_mode_7bit, steps)
            &&& t == (NoiseChannel {
                lfsr: t.lfsr,
                frequency_timer: (period - rest) as u32,
                ..noise_trigger(c)
            })
        }),
    decreases steps, rest,
{
    lemma_noise_period(c);
    lemma_run_split(steps as int, period, rest as int);
    if rest > 0 {
        law_noise_rate(c, period, steps, (rest - 1) as nat);
    } else if steps > 0 {
        law_noise_rate(c, period, (steps - 1) as nat, (period - 1) as nat);
    }
}

/// The T-cycle before the `rest`-th one of a period.
proof fn lemma_run_split(steps: int, period: int, rest: int)
    requires
        steps >= 0,
        rest >= 0,
        period >= 1,
    ensures
        steps * period + rest >= 0,
        rest > 0 ==> steps * period + rest >= 1,
        steps == 0 ==> steps * period == 0,
        steps > 0 ==> steps * period >= 1,
        (steps - 1) * period + (period - 1) == steps * period - 1,
{
    assert(steps * period >= 0 && (steps == 0 ==> steps * period == 0) && (steps > 0 ==> steps
        * period >= 1) && (steps - 1) * period + (
    period - 1) == steps * period - 1) by (nonlinear_arith)
        requires
            steps >= 0,
            period >= 1,
    ;
}

/// Raising the clock shift by one doubles the period of the noise: the shift
/// register that takes a step in `period` T-cycles then takes one in twice as
/// many.
pub proof fn law_noise_doubles(c: NoiseChannel)
    requires
        c.wf(),
        c.clock_shift < 15,
    ensures
        noise_trigger(
            NoiseChannel { clock_shift: (c.clock_shift + 1) as u8, ..c },
        ).frequency_timer == 2 * noise_trigger(c).frequency_timer,
{
    let slow = NoiseChannel { clock_shift: (c.clock_shift + 1) as u8, ..c };
    let d = if c.divisor_code == 0 {
        8int
    } else {
        16 * c.divisor_code
    };
    let p = pow2(c.clock_shift as nat);
    lemma_pow2_unfold((c.clock_shift + 1) as nat);
    assert(d * (2 * p) == 2 * (d * p)) by (nonlinear_arith);
    lemma_noise_period(c);
    lemma_noise_period(slow);
}

/// NR43 holds the clock shift in bits 4 to 7, the width in bit 3 and the divisor
/// code in bits 0 to 2.
pub proof fn law_noise_clock(c: NoiseChannel, value: u8)
    ensures
        noise_clock(c, value) == (NoiseChannel {
            clock_shift: (value / 16) as u8,
            width_mode_7bit: bit(value, 3),
            divisor_code: (value % 8) as u8,
            ..c
        }),
{
}

/// A step of the shift register moves every bit down by one. The exclusive or of
/// the two lowest bits comes in at bit 14, and in the short mode at bit 6 too.
pub proof fn law_lfsr_step(lfsr: u16)
    requires
        lfsr < 0x8000,
    ensures
        ({
            let x: int = if lfsr % 2 != (lfsr / 2) % 2 {
                1
            } else {
                0
            };
            let long = lfsr_step(lfsr, false) as int;
            let short = lfsr_step(lfsr, true) as int;
            &&& long == 0x4000 * x + lfsr as int / 2
            &&& short / 128 == long / 128
            &&& (short / 64) % 2 == x
            &&& short % 64 == long % 64
        }),
{
    lemma_lfsr_step(lfsr, true);
    let x = (lfsr + lfsr / 2) % 2;
    lemma_replace_bit_6(lfsr as int / 2 + x * 0x4000, x);
}

/// Replacing bit 6 of a number changes no other bit.
proof fn lemma_replace_bit_6(v: int, x: int)
    requires
        v >= 0,
        0 <= x <= 1,
    ensures
        ({
            let r = v - ((v / 64) % 2) * 64 + x * 64;
            r / 128 == v / 128 && (r / 64) % 2 == x && r % 64 == v % 64
        }),
{
    let h = v / 128;
    let b = (v / 64) % 2;
    let r = v % 64;
    assert(v == 128 * h + 64 * b + r);
    assert((128 * h + 64 * x + r) / 64 == 2 * h + x);
}

/// Noise is at its volume while the lowest bit of the shift register is 0.
pub proof fn law_noise_level(c: NoiseChannel)
    ensures
        noise_amplitude(c) == (if c.enabled && c.lfsr % 2 == 0 {
            c.envelope.current_volume
        } else {
            0
        }),
{
}

// ---- Square waves ----

/// `n` T-cycles of a square wave.
pub open spec fn square_cycles(c: SquareChannel, n: nat) -> SquareChannel
    decreases n,
{
    if n == 0 {
        c
    } else {
        square_cycle(square_cycles(c, (n - 1) as nat))
    }
}

/// After a trigger a square wave moves on by one of its eight positions in every
/// 4 * (2048 - frequency) T-cycles and stands still between.
pub proof fn law_square_rate(c: SquareChannel, steps: nat, rest: nat)
    requires
        c.wf(),
        c.dac_enabled,
        rest < 4 * (2048 - c.frequency),
    ensures
        ({
            let period = 4 * (2048 - c.frequency);
            let t = square_cycles(square_trigger(c), (steps * period + rest) as nat);
            &&& t.duty_position == (c.duty_position + steps) % 8
            &&& t == (SquareChannel {
                duty_position: t.duty_position,
                frequency_timer: (period - rest) as u32,
                ..square_trigger(c)
            })
        }),
    decreases steps, rest,
{
    let period = 4 * (2048 - c.frequency);
    lemma_run_split(steps as int, period, rest as int);
    if rest > 0 {
        law_square_rate(c, steps, (rest - 1) as nat);
    } else if steps > 0 {
        law_square_rate(c, (steps - 1) as nat, (period - 1) as nat);
    }
}

/// A square wave is at its volume in one, two, four or six of its eight
/// positions, by its duty: 7 alone; 0 and 7; 0 and 5 to 7; 1 to 6.
pub proof fn law_duty(c: SquareChannel)
    requires
        c.wf(),
    ensures
        ({
            let p = c.duty_position;
            let high = {
                ||| c.duty == 0 && p == 7
                ||| c.duty == 1 && (p == 0 || p == 7)
                ||| c.duty == 2 && (p == 0 || p == 5 || p == 6 || p == 7)
                ||| c.duty == 3 && p != 0 && p != 7
            };
            square_amplitude(c) == (if c.enabled && high {
                c.envelope.current_volume
            } else {
                0
            })
        }),
{
}

// ---- The wave channel ----

/// `n` T-cycles of the wave.
pub open spec fn wave_cycles(c: WaveChannel, n: nat) -> WaveChannel
    decreases n,
{
    if n == 0 {
        c
    } else {
        wave_cycle(wave_cycles(c, (n - 1) as nat))
    }
}

/// After a trigger the wave starts at its first sample and moves on by one of
/// the 32 in every 2 * (2048 - frequency) T-cycles.
pub proof fn law_wave_rate(c: WaveChannel, steps: nat, rest: nat)
    requires
        c.wf(),
        c.dac_enabled,
        rest < 2 * (2048 - c.frequency),
    ensures
        ({
            let period = 2 * (2048 - c.frequency);
            let t = wave_cycles(wave_trigger(c), (steps * period + rest) as nat);
            &&& t.wave_position == steps % 32
            &&& t == (WaveChannel {
                wave_position: t.wave_position,
                frequency_timer: (period - rest) as u32,
                ..wave_trigger(c)
            })
        }),
    decreases steps, rest,
{
    let period = 2 * (2048 - c.frequency);
    lemma_run_split(steps as int, period, rest as int);
    if rest > 0 {
        law_wave_rate(c, steps, (rest - 1) as nat);
    } else if steps > 0 {
        law_wave_rate(c, (steps - 1) as nat, (period - 1) as nat);
    }
}

/// The samples are the nibbles of wave RAM, the high one of a byte first. Volume
/// code 0 mutes, 1 plays the sample as it is, 2 halves it and 3 quarters it.
pub proof fn law_wave_level(c: WaveChannel, wave_ram: Seq<u8>)
    requires
        c.wf(),
        c.enabled,
        wave_ram.len() == 16,
    ensures
        ({
            let byte = wave_ram[c.wave_position as int / 2] as int;
            let sample = if c.wave_position % 2 == 0 {
                byte / 16
            } else {
                byte % 16
            };
            let level = wave_amplitude(c, wave_ram) as int;
            &&& c.volume_code == 0 ==> level == 0
            &&& c.volume_code == 1 ==> level == sample
            &&& c.volume_code == 2 ==> 2 * level <= sample < 2 * level + 2
            &&& c.volume_code == 3 ==> 4 * level <= sample < 4 * level + 4
        }),
        wave_amplitude(WaveChannel { enabled: false, ..c }, wave_ram) == 0,
{
}

// ---- Envelope, sweep and length ----

/// After a trigger the volume starts at the initial one and takes a step up or
/// down in every `period` clocks of the envelope, until it reaches 15 or 0.
pub proof fn law_envelope_rate(e: Envelope, steps: nat, rest: nat)
    requires
        e.wf(),
        rest < e.period,
    ensures
        ({
            let t = envelope_clocks(envelope_trigger(e), (steps * e.period + rest) as nat);
            let up = e.initial_volume + steps;
            let down = e.initial_volume - steps;
            &&& t.current_volume == (if e.direction_increase {
                if up > 15 {
                    15
                } else {
                    up
                }
            } else {
                if down < 0 {
                    0
                } else {
                    down
                }
            })
            &&& t == (Envelope {
                current_volume: t.current_volume,
                timer: (e.period - rest) as u8,
                ..e
            })
        }),
    decreases steps, rest,
{
    lemma_run_split(steps as int, e.period as int, rest as int);
    if rest > 0 {
        law_envelope_rate(e, steps, (rest - 1) as nat);
    } else if steps > 0 {
        law_envelope_rate(e, (steps - 1) as nat, (e.period - 1) as nat);
    }
}

/// A clock of the envelope in any state: with a period of 0 it does nothing, it
/// counts down to 1, and from there starts a new period and moves the volume by
/// one, within 0 and 15.
pub proof fn law_envelope_clock(e: Envelope)
    ensures
        e.period == 0 ==> envelope_clock(e) == e,
        e.period > 0 && e.timer > 1 ==> envelope_clock(e) == (Envelope {
            timer: (e.timer - 1) as u8,
            ..e
        }),
        e.period > 0 && e.timer <= 1 ==> {
            let v = e.current_volume;
            envelope_clock(e) == (Envelope {
                timer: e.period,
                current_volume: (if e.direction_increase {
                    if v < 15 {
                        v + 1
                    } else {
                        v as int
                    }
                } else {
                    if v > 0 {
                        v - 1
                    } else {
                        v as int
                    }
                }) as u8,
                ..e
            })
        },
{
}

/// The sweep aims at the frequency plus or minus its own 2^shift-th part.
pub proof fn law_sweep_target(s: Sweep)
    requires
        s.wf(),
    ensures
        ({
            let part = s.shadow_frequency as int / pow2(s.shift as nat) as int;
            sweep_target(s) == (if s.negate {
                s.shadow_frequency - part
            } else {
                s.shadow_frequency + part
            })
        }),
{
    lemma_u16_shr_is_div(s.shadow_frequency, s.shift as u16);
}

/// A trigger copies the frequency, waits for as many clocks as the period says,
/// 8 for 0, and is on where the period or the shift is not 0. The channel stays
/// on unless the shift is not 0 and the target exceeds 2047.
pub proof fn law_sweep_trigger(s: Sweep, frequency: u16)
    ensures
        ({
            let (t, fits) = sweep_trigger(s, frequency);
            &&& t == (Sweep {
                shadow_frequency: frequency,
                timer: if s.period == 0 {
                    8
                } else {
                    s.period
                },
                enabled: s.period != 0 || s.shift != 0,
                ..s
            })
            &&& fits <==> s.shift == 0 || sweep_target(t) <= 2047
        }),
{
}

/// `n` clocks of the sweep.
pub open spec fn sweep_clocks(s: Sweep, n: nat) -> Sweep
    decreases n,
{
    if n == 0 {
        s
    } else {
        sweep_clock(sweep_clocks(s, (n - 1) as nat)).0
    }
}

/// A sweep that is on waits for its period: the clocks before change nothing but
/// the count. The clock that ends it moves the frequency to the target, switches
/// the channel off where the target exceeds 2047, and with a shift of 0 only
/// checks.
pub proof fn law_sweep_rate(s: Sweep, frequency: u16, n: nat)
    requires
        s.wf(),
        frequency <= 2047,
        s.period > 0,
        n < s.period,
    ensures
        ({
            let started = sweep_trigger(s, frequency).0;
            let t = sweep_clocks(started, n);
            let target = sweep_target(started);
            let (next, result) = sweep_clock(t);
            &&& t == (Sweep { timer: (s.period - n) as u8, ..started })
            &&& n + 1 < s.period ==> result == SweepResult::NoChange
            &&& n + 1 == s.period ==> {
                &&& next.timer == s.period
                &&& target > 2047 ==> result == SweepResult::Disable && next.shadow_frequency
                    == frequency
                &&& target <= 2047 ==> next.shadow_frequency == target && result == (if s.shift
                    == 0 {
                    SweepResult::NoChange
                } else {
                    SweepResult::UpdateFrequency(target as u16)
                })
            }
        }),
    decreases n,
{
    if n > 0 {
        law_sweep_rate(s, frequency, (n - 1) as nat);
    }
    let started = sweep_trigger(s, frequency).0;
    law_sweep_target(started);
    lemma2_to64();
}

/// A clock of the sweep in any state: it does nothing while the sweep is off or
/// its period is 0, it counts down to 1, and from there starts a new period and
/// moves to the target or asks for the channel to be switched off.
pub proof fn law_sweep_clock(s: Sweep)
    requires
        s.wf(),
    ensures
        !s.enabled || s.period == 0 ==> sweep_clock(s) == (s, SweepResult::NoChange),
        s.enabled && s.period > 0 && s.timer > 1 ==> sweep_clock(s) == (
            Sweep { timer: (s.timer - 1) as u8, ..s },
            SweepResult::NoChange,
        ),
        s.enabled && s.period > 0 && s.timer <= 1 && sweep_target(s) > 2047 ==> sweep_clock(s) == (
            Sweep { timer: s.period, ..s },
            SweepResult::Disable,
        ),
        s.enabled && s.period > 0 && s.timer <= 1 && sweep_target(s) <= 2047 ==> sweep_clock(s)
            == (
            Sweep { timer: s.period, shadow_frequency: sweep_target(s) as u16, ..s },
            if s.shift == 0 {
                SweepResult::NoChange
            } else {
                SweepResult::UpdateFrequency(sweep_target(s) as u16)
            },
        ),
{
}

/// A T-cycle of a channel that is on, in any state: its timer counts down to 1,
/// and from there starts a new period, of the frequency that is then set, and
/// moves the wave on by one step.
pub proof fn law_channel_cycle(square: SquareChannel, wave: WaveChannel, noise: NoiseChannel)
    requires
        square.wf(),
        wave.wf(),
        square.enabled,
        wave.enabled,
        noise.enabled,
    ensures
        square.frequency_timer > 1 ==> square_cycle(square) == (SquareChannel {
            frequency_timer: (square.frequency_timer - 1) as u32,
            ..square
        }),
        square.frequency_timer <= 1 ==> square_cycle(square) == (SquareChannel {
            frequency_timer: (4 * (2048 - square.frequency)) as u32,
            duty_position: ((square.duty_position + 1) % 8) as u8,
            ..square
        }),
        wave.frequency_timer > 1 ==> wave_cycle(wave) == (WaveChannel {
            frequency_timer: (wave.frequency_timer - 1) as u32,
            ..wave
        }),
        wave.frequency_timer <= 1 ==> wave_cycle(wave) == (WaveChannel {
            frequency_timer: (2 * (2048 - wave.frequency)) as u32,
            wave_position: ((wave.wave_position + 1) % 32) as u8,
            ..wave
        }),
        noise.frequency_timer > 1 ==> noise_cycle(noise) == (NoiseChannel {
            frequency_timer: (noise.frequency_timer - 1) as u32,
            ..noise
        }),
        noise.frequency_timer <= 1 ==> noise_cycle(noise) == (NoiseChannel {
            frequency_timer: noise_trigger(noise).frequency_timer,
            lfsr: lfsr_step(noise.lfsr, noise.width_mode_7bit),
            ..noise
        }),
{
}

/// A length register sets after how many clocks a channel that is on and has its
/// length enabled goes off: 64 less the low six bits, and for the wave channel
/// 256 less the value.
pub proof fn law_length_registers(
    square: SquareChannel,
    wave: WaveChannel,
    noise: NoiseChannel,
    value: u8,
    n: nat,
)
    requires
        square.enabled && square.length_enabled,
        wave.enabled && wave.length_enabled,
        noise.enabled && noise.length_enabled,
    ensures
        square_length_clocks(square_duty_length(square, value), n).enabled <==> n < 64 - value
            % 64,
        wave_length_clocks(wave_length(wave, value), n).enabled <==> n < 256 - value,
        noise_length_clocks(noise_length(noise, value), n).enabled <==> n < 64 - value % 64,
{
    law_length_silences(square_duty_length(square, value), n);
    law_wave_length_silences(wave_length(wave, value), n);
    law_noise_length_silences(noise_length(noise, value), n);
}

/// A trigger switches a channel on with its converter and starts its period and
/// its envelope anew. Where the length has run out it becomes the full one: 64
/// clocks, and 256 for the wave channel. The square wave keeps its position, the
/// wave starts at its first sample and the shift register with all ones.
pub proof fn law_trigger_starts(square: SquareChannel, wave: WaveChannel, noise: NoiseChannel)
    requires
        square.wf(),
        wave.wf(),
    ensures
        square_trigger(square) == (SquareChannel {
            enabled: square.dac_enabled,
            length_counter: if square.length_counter == 0 {
                64
            } else {
                square.length_counter
            },
            frequency_timer: (4 * (2048 - square.frequency)) as u32,
            envelope: Envelope {
                current_volume: square.envelope.initial_volume,
                timer: square.envelope.period,
                ..square.envelope
            },
            ..square
        }),
        wave_trigger(wave) == (WaveChannel {
            enabled: wave.dac_enabled,
            length_counter: if wave.length_counter == 0 {
                256
            } else {
                wave.length_counter
            },
            frequency_timer: (2 * (2048 - wave.frequency)) as u32,
            wave_position: 0,
            ..wave
        }),
        noise_trigger(noise) == (NoiseChannel {
            enabled: noise.dac_enabled,
            length_counter: if noise.length_counter == 0 {
                64
            } else {
                noise.length_counter
            },
            frequency_timer: noise_trigger(noise).frequency_timer,
            envelope: Envelope {
                current_volume: noise.envelope.initial_volume,
                timer: noise.envelope.period,
                ..noise.envelope
            },
            lfsr: 0x7FFF,
            ..noise
        }),
{
}

/// A clock of the lengths takes one off a counter that is enabled and not 0, and
/// switches the channel off with the last one. It changes nothing else.
pub proof fn law_length_clock(square: SquareChannel, wave: WaveChannel, noise: NoiseChannel)
    ensures
        ({
            let t = square_length_clock(square);
            let counts = square.length_enabled && square.length_counter > 0;
            &&& !counts ==> t == square
            &&& counts ==> t == (SquareChannel {
                length_counter: (square.length_counter - 1) as u16,
                enabled: square.enabled && square.length_counter != 1,
                ..square
            })
        }),
        ({
            let t = wave_length_clock(wave);
            let counts = wave.length_enabled && wave.length_counter > 0;
            &&& !counts ==> t == wave
            &&& counts ==> t == (WaveChannel {
                length_counter: (wave.length_counter - 1) as u16,
                enabled: wave.enabled && wave.length_counter != 1,
                ..wave
            })
        }),
        ({
            let t = noise_length_clock(noise);
            let counts = noise.length_enabled && noise.length_counter > 0;
            &&& !counts ==> t == noise
            &&& counts ==> t == (NoiseChannel {
                length_counter: (noise.length_counter - 1) as u16,
                enabled: noise.enabled && noise.length_counter != 1,
                ..noise
            })
        }),
{
}

/// A channel that is off stands still.
pub proof fn law_off_stands_still(square: SquareChannel, wave: WaveChannel, noise: NoiseChannel)
    ensures
        !square.enabled ==> square_cycle(square) == square,
        !wave.enabled ==> wave_cycle(wave) == wave,
        !noise.enabled ==> noise_cycle(noise) == noise,
{
}

// ---- Registers ----

/// What the registers of the square channels set. NRx1 holds the duty in bits 6
/// and 7 and the length below. NRx2 holds the initial volume, the direction and
/// the period of the envelope, and its upper five bits switch the converter. NRx3
/// and the low three bits of NRx4 make the frequency, and bit 6 of NRx4 enables
/// the length.
pub proof fn law_square_registers(s: SoundState, v: u8)
    requires
        s.wf(),
        s.enabled,
    ensures
        ({
            let c = s.channel1;
            let d = s.channel2;
            let envelope = |e: Envelope|
                Envelope {
                    initial_volume: (v / 16) as u8,
                    direction_increase: bit(v, 3),
                    period: (v % 8) as u8,
                    ..e
                };
            &&& sound_write(s, 0xFF11, v) == (SoundState {
                channel1: SquareChannel {
                    duty: (v / 64) as u8,
                    length_counter: (64 - v % 64) as u16,
                    ..c
                },
                ..s
            })
            &&& sound_write(s, 0xFF16, v) == (SoundState {
                channel2: SquareChannel {
                    duty: (v / 64) as u8,
                    length_counter: (64 - v % 64) as u16,
                    ..d
                },
                ..s
            })
            &&& sound_write(s, 0xFF12, v) == (SoundState {
                channel1: SquareChannel {
                    envelope: envelope(c.envelope),
                    dac_enabled: v / 8 != 0,
                    enabled: c.enabled && v / 8 != 0,
                    ..c
                },
                ..s
            })
            &&& sound_write(s, 0xFF17, v) == (SoundState {
                channel2: SquareChannel {
                    envelope: envelope(d.envelope),
                    dac_enabled: v / 8 != 0,
                    enabled: d.enabled && v / 8 != 0,
                    ..d
                },
                ..s
            })
            &&& sound_write(s, 0xFF13, v) == (SoundState {
                channel1: SquareChannel { frequency: (256 * (c.frequency / 256) + v) as u16, ..c },
                ..s
            })
            &&& sound_write(s, 0xFF18, v) == (SoundState {
                channel2: SquareChannel { frequency: (256 * (d.frequency / 256) + v) as u16, ..d },
                ..s
            })
            &&& v < 128 ==> sound_write(s, 0xFF14, v) == (SoundState {
                channel1: SquareChannel {
                    frequency: (256 * (v % 8) + c.frequency % 256) as u16,
                    length_enabled: bit(v, 6),
                    ..c
                },
                ..s
            })
            &&& v < 128 ==> sound_write(s, 0xFF19, v) == (SoundState {
                channel2: SquareChannel {
                    frequency: (256 * (v % 8) + d.frequency % 256) as u16,
                    length_enabled: bit(v, 6),
                    ..d
                },
                ..s
            })
        }),
{
    law_bits(v);
    assert(v / 8 != 0 <==> v >= 8);
}

/// Bit 7 of NRx4 triggers the channel with the settings that the same write
/// makes, and for channel 1 the sweep too, which can switch it off at once.
pub proof fn law_triggers(s: SoundState, v: u8)
    requires
        s.wf(),
        s.enabled,
        v >= 128,
    ensures
        ({
            let set = sound_write(s, 0xFF14, (v - 128) as u8);
            let (sweep, fits) = sweep_trigger(s.sweep, set.channel1.frequency);
            let t = square_trigger(set.channel1);
            sound_write(s, 0xFF14, v) == (SoundState {
                channel1: SquareChannel { enabled: t.enabled && fits, ..t },
                sweep,
                ..s
            })
        }),
        ({
            let set = sound_write(s, 0xFF19, (v - 128) as u8);
            sound_write(s, 0xFF19, v) == (SoundState {
                channel2: square_trigger(set.channel2),
                ..s
            })
        }),
        ({
            let set = sound_write(s, 0xFF1E, (v - 128) as u8);
            sound_write(s, 0xFF1E, v) == (SoundState { channel3: wave_trigger(set.channel3), ..s })
        }),
        ({
            let set = sound_write(s, 0xFF23, (v - 128) as u8);
            sound_write(s, 0xFF23, v) == (SoundState { channel4: noise_trigger(set.channel4), ..s })
        }),
{
    law_bits(v);
    law_bits((v - 128) as u8);
    assert((v - 128) % 8 == v % 8);
    assert(((v - 128) / 64) % 2 == (v as int / 64) % 2);
}

/// What the registers of the sweep, of the wave channel and of the noise channel
/// set, and where wave RAM stands.
pub proof fn law_other_registers(s: SoundState, v: u8, i: int)
    requires
        s.wf(),
        s.enabled,
        0 <= i < 16,
    ensures
        ({
            let c = s.channel3;
            let d = s.channel4;
            &&& sound_write(s, 0xFF10, v) == (SoundState {
                sweep: Sweep {
                    period: ((v / 16) % 8) as u8,
                    negate: bit(v, 3),
                    shift: (v % 8) as u8,
                    ..s.sweep
                },
                ..s
            })
            &&& sound_write(s, 0xFF1A, v) == (SoundState {
                channel3: WaveChannel {
                    dac_enabled: v >= 128,
                    enabled: c.enabled && v >= 128,
                    ..c
                },
                ..s
            })
            &&& sound_write(s, 0xFF1B, v) == (SoundState {
                channel3: WaveChannel { length_counter: (256 - v) as u16, ..c },
                ..s
            })
            &&& sound_write(s, 0xFF1C, v) == (SoundState {
                channel3: WaveChannel { volume_code: ((v / 32) % 4) as u8, ..c },
                ..s
            })
            &&& sound_write(s, 0xFF1D, v) == (SoundState {
                channel3: WaveChannel { frequency: (256 * (c.frequency / 256) + v) as u16, ..c },
                ..s
            })
            &&& v < 128 ==> sound_write(s, 0xFF1E, v) == (SoundState {
                channel3: WaveChannel {
                    frequency: (256 * (v % 8) + c.frequency % 256) as u16,
                    length_enabled: bit(v, 6),
                    ..c
                },
                ..s
            })
            &&& sound_write(s, 0xFF20, v) == (SoundState {
                channel4: NoiseChannel { length_counter: (64 - v % 64) as u16, ..d },
                ..s
            })
            &&& sound_write(s, 0xFF21, v) == (SoundState {
                channel4: NoiseChannel {
                    envelope: Envelope {
                        initial_volume: (v / 16) as u8,
                        direction_increase: bit(v, 3),
                        period: (v % 8) as u8,
                        ..d.envelope
                    },
                    dac_enabled: v / 8 != 0,
                    enabled: d.enabled && v / 8 != 0,
                    ..d
                },
                ..s
            })
            &&& sound_write(s, 0xFF22, v) == (SoundState { channel4: noise_clock(d, v), ..s })
            &&& v < 128 ==> sound_write(s, 0xFF23, v) == (SoundState {
                channel4: NoiseChannel { length_enabled: bit(v, 6), ..d },
                ..s
            })
            &&& sound_write(s, 0xFF24, v) == (SoundState { nr50: v, ..s })
            &&& sound_write(s, 0xFF25, v) == (SoundState { nr51: v, ..s })
            &&& sound_write(s, (0xFF30 + i) as u16, v) == (SoundState {
                wave_ram: s.wave_ram.update(i, v),
                ..s
            })
            &&& sound_read(s, (0xFF30 + i) as u16) == s.wave_ram[i]
        }),
{
    law_bits(v);
    assert(v / 8 != 0 <==> v >= 8);
}

/// What the registers read, with the bits that cannot be read set.
pub proof fn law_register_reads(s: SoundState)
    requires
        s.wf(),
    ensures
        ({
            let one = |b: bool|
                if b {
                    1int
                } else {
                    0int
                };
            let e1 = s.channel1.envelope;
            let e2 = s.channel2.envelope;
            let e4 = s.channel4.envelope;
            &&& sound_read(s, 0xFF10) == 128 + 16 * s.sweep.period + 8 * one(s.sweep.negate)
                + s.sweep.shift
            &&& sound_read(s, 0xFF11) == 64 * s.channel1.duty + 63
            &&& sound_read(s, 0xFF12) == 16 * e1.initial_volume + 8 * one(e1.direction_increase)
                + e1.period
            &&& sound_read(s, 0xFF13) == 255
            &&& sound_read(s, 0xFF14) == 191 + 64 * one(s.channel1.length_enabled)
            &&& sound_read(s, 0xFF16) == 64 * s.channel2.duty + 63
            &&& sound_read(s, 0xFF17) == 16 * e2.initial_volume + 8 * one(e2.direction_increase)
                + e2.period
            &&& sound_read(s, 0xFF18) == 255
            &&& sound_read(s, 0xFF19) == 191 + 64 * one(s.channel2.length_enabled)
            &&& sound_read(s, 0xFF1A) == 127 + 128 * one(s.channel3.dac_enabled)
            &&& sound_read(s, 0xFF1B) == 255
            &&& sound_read(s, 0xFF1C) == 159 + 32 * s.channel3.volume_code
            &&& sound_read(s, 0xFF1D) == 255
            &&& sound_read(s, 0xFF1E) == 191 + 64 * one(s.channel3.length_enabled)
            &&& sound_read(s, 0xFF20) == 255
            &&& sound_read(s, 0xFF21) == 16 * e4.initial_volume + 8 * one(e4.direction_increase)
                + e4.period
            &&& sound_read(s, 0xFF22) == 16 * s.channel4.clock_shift + 8 * one(
                s.channel4.width_mode_7bit,
            ) + s.channel4.divisor_code
            &&& sound_read(s, 0xFF23) == 191 + 64 * one(s.channel4.length_enabled)
            &&& sound_read(s, 0xFF24) == s.nr50
            &&& sound_read(s, 0xFF25) == s.nr51
        }),
{
}

/// Bit 7 of NR52 is the power switch. Switching it off clears every register and
/// every channel, and keeps wave RAM and the place of the frame sequencer.
/// Switching it on changes nothing else. While it is off, only NR52 and wave RAM
/// take a write.
pub proof fn law_power_switch(s: SoundState, v: u8, address: u16, w: u8)
    requires
        s.wf(),
    ensures
        v >= 128 ==> sound_write(s, 0xFF26, v) == (SoundState { enabled: true, ..s }),
        v < 128 ==> {
            let quiet = Envelope {
                initial_volume: 0,
                direction_increase: false,
                period: 0,
                current_volume: 0,
                timer: 0,
            };
            let square = SquareChannel {
                enabled: false,
                dac_enabled: false,
                duty: 0,
                duty_position: 0,
                length_counter: 0,
                length_enabled: false,
                frequency: 0,
                frequency_timer: 0,
                envelope: quiet,
            };
            sound_write(s, 0xFF26, v) == (SoundState {
                enabled: false,
                nr50: 0,
                nr51: 0,
                channel1: square,
                sweep: Sweep {
                    period: 0,
                    negate: false,
                    shift: 0,
                    timer: 0,
                    enabled: false,
                    shadow_frequency: 0,
                },
                channel2: square,
                channel3: WaveChannel {
                    enabled: false,
                    dac_enabled: false,
                    volume_code: 0,
                    length_counter: 0,
                    length_enabled: false,
                    frequency: 0,
                    frequency_timer: 0,
                    wave_position: 0,
                },
                channel4: NoiseChannel {
                    enabled: false,
                    dac_enabled: false,
                    length_counter: 0,
                    length_enabled: false,
                    envelope: quiet,
                    clock_shift: 0,
                    width_mode_7bit: false,
                    divisor_code: 0,
                    lfsr: 0,
                    frequency_timer: 0,
                },
                ..s
            })
        },
        !s.enabled && address != 0xFF26 && !(0xFF30 <= address <= 0xFF3F) ==> sound_write(
            s,
            address,
            w,
        ) == s,
        !s.enabled && 0xFF30 <= address <= 0xFF3F ==> sound_write(s, address, w) == (SoundState {
            wave_ram: s.wave_ram.update(address - 0xFF30, w),
            ..s
        }),
{
    law_bits(v);
}

/// NR52 reads as the power switch in bit 7, three set bits, and in bits 0 to 3
/// whether the channels 1 to 4 are on.
pub proof fn law_power_register(s: SoundState)
    ensures
        ({
            let v = sound_read(s, 0xFF26);
            &&& bit(v, 7) == s.enabled
            &&& bit(v, 6) && bit(v, 5) && bit(v, 4)
            &&& bit(v, 3) == s.channel4.enabled
            &&& bit(v, 2) == s.channel3.enabled
            &&& bit(v, 1) == s.channel2.enabled
            &&& bit(v, 0) == s.channel1.enabled
        }),
{
    law_bits(sound_read(s, 0xFF26));
}

// ---- The frame sequencer and the mixer ----

/// The frame sequencer takes a step in every 8192 T-cycles of a unit that is on.
pub proof fn law_sequencer_rate(s: SoundState)
    requires
        s.wf(),
        s.enabled,
    ensures
        s.frame_sequencer_counter == 8191 ==> sound_cycle(s).frame_sequencer_counter == 0
            && sound_cycle(s).frame_sequencer_step == (s.frame_sequencer_step + 1) % 8,
        s.frame_sequencer_counter != 8191 ==> sound_cycle(s).frame_sequencer_counter
            == s.frame_sequencer_counter + 1 && sound_cycle(s).frame_sequencer_step
            == s.frame_sequencer_step,
{
}

/// Of the eight steps, 0, 2, 4 and 6 clock the lengths, 2 and 6 the sweep, and 7
/// the envelopes.
pub proof fn law_sequencer_schedule(s: SoundState)
    requires
        s.frame_sequencer_step < 8,
    ensures
        ({
            let k = s.frame_sequencer_step;
            let t = if k == 0 || k == 4 {
                clock_lengths(s)
            } else if k == 2 || k == 6 {
                clock_sweep_unit(clock_lengths(s))
            } else if k == 7 {
                clock_envelopes(s)
            } else {
                s
            };
            sequencer_step(s) == (SoundState { frame_sequencer_step: ((k + 1) % 8) as u8, ..t })
        }),
{
}

/// What the clocks of the frame sequencer reach: the lengths of all four
/// channels, the envelopes of channels 1, 2 and 4, and channel 1 by its sweep.
pub proof fn law_sequencer_clocks(s: SoundState)
    ensures
        clock_lengths(s) == (SoundState {
            channel1: square_length_clock(s.channel1),
            channel2: square_length_clock(s.channel2),
            channel3: wave_length_clock(s.channel3),
            channel4: noise_length_clock(s.channel4),
            ..s
        }),
        ({
            let t = clock_envelopes(s);
            &&& t.channel1.envelope == envelope_clock(s.channel1.envelope)
            &&& t.channel2.envelope == envelope_clock(s.channel2.envelope)
            &&& t.channel4.envelope == envelope_clock(s.channel4.envelope)
            &&& t == (SoundState {
                channel1: SquareChannel { envelope: t.channel1.envelope, ..s.channel1 },
                channel2: SquareChannel { envelope: t.channel2.envelope, ..s.channel2 },
                channel4: NoiseChannel { envelope: t.channel4.envelope, ..s.channel4 },
                ..s
            })
        }),
        ({
            let (sweep, result) = sweep_clock(s.sweep);
            let t = clock_sweep_unit(s);
            &&& t == (SoundState { sweep, channel1: t.channel1, ..s })
            &&& result == SweepResult::NoChange ==> t.channel1 == s.channel1
            &&& result == SweepResult::Disable ==> t.channel1 == (SquareChannel {
                enabled: false,
                ..s.channel1
            })
            &&& result matches SweepResult::UpdateFrequency(f) ==> t.channel1 == (SquareChannel {
                frequency: f,
                ..s.channel1
            })
        }),
{
}

/// The mixer hears the four channels, panned by NR51: the right side of channels
/// 1 to 4 in bits 0 to 3 and the left side in bits 4 to 7. NR50 holds the volume
/// of the left side in bits 4 to 6 and of the right side in bits 0 to 2.
pub proof fn law_mixer(s: SoundState)
    requires
        s.enabled,
    ensures
        ({
            let one = |b: bool|
                if b {
                    1int
                } else {
                    0int
                };
            let v = s.nr51;
            mixer_frame(s) == SampleFrame::Mix {
                channel1: ChannelSample {
                    playing: s.channel1.enabled,
                    amplitude: square_amplitude(s.channel1),
                    left: bit(v, 4),
                    right: bit(v, 0),
                },
                channel2: ChannelSample {
                    playing: s.channel2.enabled,
                    amplitude: square_amplitude(s.channel2),
                    left: bit(v, 5),
                    right: bit(v, 1),
                },
                channel3: ChannelSample {
                    playing: s.channel3.enabled,
                    amplitude: wave_amplitude(s.channel3, s.wave_ram),
                    left: bit(v, 6),
                    right: bit(v, 2),
                },
                channel4: ChannelSample {
                    playing: s.channel4.enabled,
                    amplitude: noise_amplitude(s.channel4),
                    left: bit(v, 7),
                    right: bit(v, 3),
                },
                left_count: (one(bit(v, 4)) + one(bit(v, 5)) + one(bit(v, 6)) + one(
                    bit(v, 7),
                )) as u8,
                right_count: (one(bit(v, 0)) + one(bit(v, 1)) + one(bit(v, 2)) + one(
                    bit(v, 3),
                )) as u8,
                left_volume: ((s.nr50 / 16) % 8) as u8,
                right_volume: (s.nr50 % 8) as u8,
            }
        }),
{
}

/// While the unit is on, a T-cycle moves all four channels on, then the frame
/// sequencer, and hands the mixer what the channels then sound like.
pub proof fn law_sound_cycle(s: SoundState)
    requires
        s.wf(),
        s.enabled,
    ensures
        sound_cycle(s).samples == s.samples.push(mixer_frame(sound_cycle(s))),
        s.frame_sequencer_counter != 8191 ==> {
            let t = sound_cycle(s);
            &&& t.channel1 == square_cycle(s.channel1)
            &&& t.channel2 == square_cycle(s.channel2)
            &&& t.channel3 == wave_cycle(s.channel3)
            &&& t.channel4 == noise_cycle(s.channel4)
            &&& t == (SoundState {
                channel1: t.channel1,
                channel2: t.channel2,
                channel3: t.channel3,
                channel4: t.channel4,
                frame_sequencer_counter: t.frame_sequencer_counter,
                samples: t.samples,
                ..s
            })
        },
        s.frame_sequencer_counter == 8191 ==> sound_cycle(s) == (SoundState {
            samples: sound_cycle(s).samples,
            ..sequencer_step(
                SoundState {
                    channel1: square_cycle(s.channel1),
                    channel2: square_cycle(s.channel2),
                    channel3: wave_cycle(s.channel3),
                    channel4: noise_cycle(s.channel4),
                    frame_sequencer_counter: 0,
                    ..s
                },
            )
        }),
{
}

/// A run of T-cycles is that many T-cycles one after the other.
pub proof fn law_sound_run(s: SoundState, n: nat)
    ensures
        sound_cycles(s, 0) == s,
        sound_cycles(s, n + 1) == sound_cycle(sound_cycles(s, n)),
{
}

} // verus!

use gameboy::channels::{
    Envelope, NoiseChannel, SquareChannel, Sweep, SweepResult, WaveChannel,
};
use gameboy::sound::{ChannelSample, SampleFrame, Sound};

/// T-cycles between two steps of the frame sequencer.
const STEP: u32 = 8192;

fn powered() -> Sound {
    let mut sound = Sound::new(48_000);
    sound.write(0xFF26, 0x80);
    sound.write(0xFF24, 0x77);
    sound.write(0xFF25, 0xFF);
    sound
}

/// The level of channel `n` in every frame.
fn levels(frames: &[SampleFrame], n: usize) -> Vec<u8> {
    frames
        .iter()
        .map(|frame| match frame {
            SampleFrame::Silence => panic!("the unit is off"),
            SampleFrame::Mix {
                channel1,
                channel2,
                channel3,
                channel4,
                ..
            } => [channel1, channel2, channel3, channel4][n].amplitude,
        })
        .collect()
}

// ---- Registers ----

#[test]
fn the_unit_starts_switched_off() {
    let sound = Sound::new(48_000);
    assert_eq!(sound.read(0xFF26), 0x70);
    assert_eq!(sound.read(0xFF24), 0x00);
    assert_eq!(sound.sample_rate(), 48_000);
}

#[test]
fn registers_read_back_with_unreadable_bits_set() {
    let mut sound = powered();
    for (address, mask) in [
        (0xFF10u16, 0x80u8),
        (0xFF11, 0x3F),
        (0xFF12, 0x00),
        (0xFF13, 0xFF),
        (0xFF14, 0xBF),
        (0xFF16, 0x3F),
        (0xFF17, 0x00),
        (0xFF18, 0xFF),
        (0xFF19, 0xBF),
        (0xFF1A, 0x7F),
        (0xFF1B, 0xFF),
        (0xFF1C, 0x9F),
        (0xFF1D, 0xFF),
        (0xFF1E, 0xBF),
        (0xFF20, 0xFF),
        (0xFF21, 0x00),
        (0xFF22, 0x00),
        (0xFF23, 0xBF),
        (0xFF24, 0x00),
        (0xFF25, 0x00),
        (0xFF30, 0x00),
        (0xFF3F, 0x00),
    ] {
        for value in [0x00u8, 0x55, 0xAA, 0xFF] {
            sound.write(address, value);
            assert_eq!(sound.read(address), value | mask);
        }
    }
    assert_eq!(sound.read(0xFF15), 0xFF);
    assert_eq!(sound.read(0xFF1F), 0xFF);
}

#[test]
fn nothing_but_power_and_wave_ram_is_written_while_off() {
    let mut sound = Sound::new(48_000);
    sound.write(0xFF25, 0xFF);
    sound.write(0xFF12, 0xF0);
    sound.write(0xFF33, 0x9A);
    assert_eq!(sound.read(0xFF25), 0x00);
    assert_eq!(sound.read(0xFF12), 0x00);
    assert_eq!(sound.read(0xFF33), 0x9A);
}

#[test]
fn switching_off_clears_all_but_wave_ram() {
    let mut sound = powered();
    sound.write(0xFF33, 0x9A);
    sound.write(0xFF12, 0xF0);
    sound.write(0xFF14, 0x80);
    assert_eq!(sound.read(0xFF26), 0xF1);
    sound.write(0xFF26, 0x00);
    sound.write(0xFF26, 0x80);
    assert_eq!(sound.read(0xFF26), 0xF0);
    assert_eq!(sound.read(0xFF24), 0x00);
    assert_eq!(sound.read(0xFF25), 0x00);
    assert_eq!(sound.read(0xFF12), 0x00);
    assert_eq!(sound.read(0xFF33), 0x9A);
}

#[test]
fn switching_off_what_is_off_changes_nothing() {
    let mut sound = Sound::new(48_000);
    sound.write(0xFF30, 0x5C);
    sound.write(0xFF26, 0x7F);
    assert_eq!(sound.read(0xFF26), 0x70);
    assert_eq!(sound.read(0xFF25), 0x00);
    assert_eq!(sound.read(0xFF30), 0x5C);
}

// ---- Frames ----

#[test]
fn every_cycle_hands_out_a_frame() {
    let mut sound = powered();
    sound.tick(1000);
    assert_eq!(sound.take_samples().len(), 1000);
    assert!(sound.take_samples().is_empty());
    sound.tick(7);
    sound.tick(5);
    assert_eq!(sound.take_samples().len(), 12);
}

#[test]
fn a_switched_off_unit_is_silent() {
    let mut sound = Sound::new(48_000);
    sound.tick(3);
    assert_eq!(sound.take_samples(), vec![SampleFrame::Silence; 3]);
}

#[test]
fn frames_carry_sides_counts_and_volumes() {
    let mut sound = powered();
    sound.write(0xFF24, 0x53);
    sound.write(0xFF25, 0x31);
    sound.tick(1);
    let quiet = |left: bool, right: bool| ChannelSample {
        playing: false,
        amplitude: 0,
        left,
        right,
    };
    assert_eq!(
        sound.take_samples(),
        vec![SampleFrame::Mix {
            channel1: quiet(true, true),
            channel2: quiet(true, false),
            channel3: quiet(false, false),
            channel4: quiet(false, false),
            left_count: 2,
            right_count: 1,
            left_volume: 5,
            right_volume: 3,
        }]
    );
}

#[test]
fn a_playing_channel_is_marked_at_every_level() {
    let mut sound = powered();
    // Duty 0 starts at the low level.
    sound.write(0xFF12, 0xF0);
    sound.write(0xFF14, 0x80);
    sound.tick(1);
    let frames = sound.take_samples();
    assert!(matches!(
        frames[0],
        SampleFrame::Mix {
            channel1: ChannelSample { playing: true, amplitude: 0, left: true, right: true },
            channel2: ChannelSample { playing: false, amplitude: 0, left: true, right: true },
            ..
        }
    ));
}

#[test]
fn the_square_wave_follows_its_duty() {
    for (duty, pattern) in [
        (0x00u8, [0u8, 0, 0, 0, 0, 0, 0, 1]),
        (0x40, [1, 0, 0, 0, 0, 0, 0, 1]),
        (0x80, [1, 0, 0, 0, 0, 1, 1, 1]),
        (0xC0, [0, 1, 1, 1, 1, 1, 1, 0]),
    ] {
        let mut sound = Sound::new(48_000);
        sound.write(0xFF26, 0x80);
        sound.write(0xFF11, duty);
        sound.write(0xFF12, 0xF0);
        sound.write(0xFF13, 0xFF);
        sound.write(0xFF14, 0x87);
        // The period is four T-cycles per eighth of the wave.
        sound.tick(32);
        let mut expected = Vec::new();
        for cycle in 1..=32usize {
            expected.push(15 * pattern[(cycle / 4) % 8]);
        }
        assert_eq!(levels(&sound.take_samples(), 0), expected);
    }
}

#[test]
fn the_second_square_wave_plays_alike() {
    let mut sound = powered();
    sound.write(0xFF16, 0x40);
    sound.write(0xFF17, 0xA0);
    sound.write(0xFF18, 0xFE);
    sound.write(0xFF19, 0x87);
    assert_eq!(sound.read(0xFF26), 0xF2);
    // Frequency 2046: eight T-cycles per eighth.
    sound.tick(8);
    let mut expected = vec![10u8; 7];
    expected.push(0);
    assert_eq!(levels(&sound.take_samples(), 1), expected);
}

#[test]
fn the_wave_channel_plays_wave_ram() {
    let mut sound = powered();
    sound.write(0xFF30, 0x9C);
    sound.write(0xFF31, 0x51);
    sound.write(0xFF1A, 0x80);
    sound.write(0xFF1C, 0x20);
    sound.write(0xFF1D, 0xFF);
    sound.write(0xFF1E, 0x87);
    assert_eq!(sound.read(0xFF26), 0xF4);
    sound.tick(7);
    assert_eq!(levels(&sound.take_samples(), 2), vec![9, 12, 12, 5, 5, 1, 1]);
    // The volume code shifts the level.
    for (code, level) in [(0x00u8, 0u8), (0x40, 4), (0x60, 2)] {
        sound.write(0xFF1C, code);
        sound.write(0xFF1E, 0x87);
        sound.tick(1);
        assert_eq!(levels(&sound.take_samples(), 2), vec![level]);
    }
}

#[test]
fn the_noise_channel_shifts_its_register() {
    let mut sound = powered();
    sound.write(0xFF21, 0xF0);
    sound.write(0xFF22, 0x00);
    sound.write(0xFF23, 0x80);
    assert_eq!(sound.read(0xFF26), 0xF8);
    // The register starts full, so its low bit stays set for 14 shifts of
    // eight T-cycles.
    sound.tick(119);
    assert_eq!(levels(&sound.take_samples(), 3), vec![0u8; 119]);
    sound.tick(1);
    assert_eq!(levels(&sound.take_samples(), 3), vec![15]);
}

#[test]
fn short_noise_repeats_early() {
    // In the seven-bit mode the new bit enters at bit 6 as well.
    let mut channel = NoiseChannel::silent();
    channel.set_envelope(0xF0);
    channel.set_clock(0x08);
    channel.trigger();
    let mut levels = Vec::new();
    for _ in 0..2 * 127 {
        for _ in 0..8 {
            channel.tick();
        }
        levels.push(channel.amplitude());
    }
    assert_eq!(levels[..127], levels[127..]);
    assert_eq!(levels.iter().filter(|level| **level == 15).count(), 2 * 63);
}

// ---- The frame sequencer ----

#[test]
fn lengths_silence_the_channels() {
    let mut sound = powered();
    sound.write(0xFF11, 0x3F);
    sound.write(0xFF12, 0xF0);
    sound.write(0xFF14, 0xC0);
    sound.write(0xFF1A, 0x80);
    sound.write(0xFF1B, 0xFE);
    sound.write(0xFF1E, 0xC0);
    sound.write(0xFF17, 0xF0);
    sound.write(0xFF19, 0x80);
    assert_eq!(sound.read(0xFF26), 0xF7);
    sound.tick(STEP - 1);
    assert_eq!(sound.read(0xFF26), 0xF7);
    // Lengths are clocked on every second step.
    sound.tick(1);
    assert_eq!(sound.read(0xFF26), 0xF6);
    sound.tick(2 * STEP - 1);
    assert_eq!(sound.read(0xFF26), 0xF6);
    sound.tick(1);
    assert_eq!(sound.read(0xFF26), 0xF2);
    // Channel 2 plays without a length.
    sound.tick(20 * STEP);
    assert_eq!(sound.read(0xFF26), 0xF2);
}

#[test]
fn a_trigger_reloads_an_expired_length() {
    let mut channel = SquareChannel::silent();
    channel.set_envelope(0xF0);
    channel.set_control(0x40);
    channel.trigger();
    for _ in 0..63 {
        channel.clock_length();
        assert!(channel.enabled);
    }
    channel.clock_length();
    assert!(!channel.enabled);
}

#[test]
fn envelopes_step_at_the_seventh_step() {
    let mut sound = powered();
    sound.write(0xFF11, 0x80);
    sound.write(0xFF12, 0xA1);
    sound.write(0xFF14, 0x80);
    let volume = |sound: &mut Sound| {
        sound.tick(1);
        levels(&sound.take_samples(), 0)[0]
    };
    assert_eq!(volume(&mut sound), 10);
    // Frequency 0: 8192 T-cycles per eighth of the wave, so eight steps are a
    // whole wave.
    sound.tick(8 * STEP - 2);
    sound.take_samples();
    assert_eq!(volume(&mut sound), 9);
}

#[test]
fn envelopes_stop_at_their_ends() {
    let mut envelope = Envelope::silent();
    envelope.configure(0xD9);
    envelope.trigger();
    assert_eq!(envelope.current_volume, 13);
    envelope.tick();
    envelope.tick();
    assert_eq!(envelope.current_volume, 15);
    envelope.tick();
    assert_eq!(envelope.current_volume, 15);
    envelope.configure(0x12);
    envelope.trigger();
    envelope.tick();
    assert_eq!(envelope.current_volume, 1);
    envelope.tick();
    assert_eq!(envelope.current_volume, 0);
    envelope.tick();
    envelope.tick();
    assert_eq!(envelope.current_volume, 0);
    assert_eq!(envelope.value(), 0x12);
    // A period of 0 keeps the volume.
    envelope.configure(0x78);
    envelope.trigger();
    envelope.tick();
    assert_eq!(envelope.current_volume, 7);
}

#[test]
fn the_sweep_moves_the_frequency_until_it_overflows() {
    let mut sweep = Sweep::silent();
    sweep.configure(0x11);
    assert_eq!(sweep.value(), 0x91);
    assert!(sweep.trigger(1024));
    assert_eq!(sweep.tick(), SweepResult::UpdateFrequency(1536));
    assert_eq!(sweep.tick(), SweepResult::Disable);
    // Downwards it never overflows.
    sweep.configure(0x19);
    assert!(sweep.trigger(2047));
    assert_eq!(sweep.tick(), SweepResult::UpdateFrequency(1024));
    assert_eq!(sweep.tick(), SweepResult::UpdateFrequency(512));
    // A period of 0 never changes the frequency.
    sweep.configure(0x01);
    assert!(sweep.trigger(100));
    assert_eq!(sweep.tick(), SweepResult::NoChange);
}

#[test]
fn the_sweep_disables_channel_one() {
    let mut sound = powered();
    sound.write(0xFF10, 0x11);
    sound.write(0xFF12, 0xF0);
    sound.write(0xFF13, 0x00);
    sound.write(0xFF14, 0x84);
    assert_eq!(sound.read(0xFF26), 0xF1);
    // The sweep is clocked on steps 2 and 6.
    sound.tick(7 * STEP - 1);
    assert_eq!(sound.read(0xFF26), 0xF1);
    sound.tick(1);
    assert_eq!(sound.read(0xFF26), 0xF0);
}

#[test]
fn an_overflowing_trigger_is_silent() {
    let mut sound = powered();
    sound.write(0xFF10, 0x01);
    sound.write(0xFF12, 0xF0);
    sound.write(0xFF13, 0xFF);
    sound.write(0xFF14, 0x87);
    assert_eq!(sound.read(0xFF26), 0xF0);
}

#[test]
fn a_channel_without_its_converter_stays_off() {
    let mut sound = powered();
    sound.write(0xFF12, 0x07);
    sound.write(0xFF14, 0x80);
    sound.write(0xFF1E, 0x80);
    sound.write(0xFF23, 0x80);
    assert_eq!(sound.read(0xFF26), 0xF0);
    // Switching the converter off stops a playing channel.
    sound.write(0xFF12, 0x08);
    sound.write(0xFF14, 0x80);
    assert_eq!(sound.read(0xFF26), 0xF1);
    sound.write(0xFF12, 0x00);
    assert_eq!(sound.read(0xFF26), 0xF0);
}

#[test]
fn a_trigger_restarts_the_wave() {
    let mut channel = WaveChannel::silent();
    let mut wave_ram = [0u8; 16];
    wave_ram[0] = 0x70;
    channel.set_dac(0x80);
    channel.set_volume(0x20);
    channel.set_frequency_low(0xFF);
    channel.set_control(0x07);
    channel.trigger();
    assert_eq!(channel.amplitude(&wave_ram), 7);
    channel.tick();
    channel.tick();
    assert_eq!(channel.amplitude(&wave_ram), 0);
    channel.trigger();
    assert_eq!(channel.amplitude(&wave_ram), 7);
}

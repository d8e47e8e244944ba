use std::collections::VecDeque;

use gameboy::bus::Bus;
use gameboy::cartridge::Cartridge;
use gameboy::cpu::Cpu;
use gameboy::host::{
    apply_keys, drop_excess, fill_frame, fill_frames, paint, run_frame, take_pair, Keys, CYCLES_PER_FRAME,
    MAX_BUFFERED_SAMPLES,
};
use gameboy::ppu::SCREEN_PIXELS;

fn cpu(code: &[u8]) -> Cpu {
    let mut rom = vec![0u8; 0x8000];
    for (i, byte) in code.iter().enumerate() {
        rom[0x0100 + i] = *byte;
    }
    Cpu::new(Bus::new(Cartridge::load(rom), 44_100))
}

fn no_keys() -> Keys {
    Keys {
        right: false,
        left: false,
        up: false,
        down: false,
        a: false,
        b: false,
        start: false,
        select: false,
    }
}

#[test]
fn a_frame_of_four_cycle_steps_is_exact() {
    // HALT: every step takes four T-cycles, and a frame is a multiple of four.
    let mut cpu = cpu(&[0x76]);
    assert_eq!(run_frame(&mut cpu), 70_224);
    assert_eq!(cpu.bus_mut().take_audio_samples().len(), 70_224);
}

#[test]
fn a_frame_overshoots_by_less_than_an_instruction() {
    // JR -2 takes twelve T-cycles; LD A,(HL) takes eight.
    let mut cpu = cpu(&[0x7E, 0x18, 0xFD]);
    for _ in 0..3 {
        let cycles = run_frame(&mut cpu);
        assert!(cycles >= CYCLES_PER_FRAME);
        assert!(cycles < CYCLES_PER_FRAME + 24);
        assert_eq!(cpu.bus_mut().take_audio_samples().len(), cycles as usize);
    }
}

#[test]
fn shades_become_colors() {
    let mut framebuffer = [0u8; SCREEN_PIXELS];
    framebuffer[1] = 1;
    framebuffer[2] = 2;
    framebuffer[SCREEN_PIXELS - 1] = 3;
    let mut pixels = vec![0u32; SCREEN_PIXELS];
    paint(&framebuffer, &mut pixels);
    assert_eq!(pixels[0], 0x9BBC0F);
    assert_eq!(pixels[1], 0x8BAC0F);
    assert_eq!(pixels[2], 0x306230);
    assert_eq!(pixels[3], 0x9BBC0F);
    assert_eq!(pixels[SCREEN_PIXELS - 1], 0x0F380F);
}

#[test]
fn paint_stops_with_the_shorter_buffer() {
    let framebuffer = [3u8; SCREEN_PIXELS];
    let mut short = vec![0u32; 2];
    paint(&framebuffer, &mut short);
    assert_eq!(short, vec![0x0F380F, 0x0F380F]);
    let mut long = vec![7u32; SCREEN_PIXELS + 1];
    paint(&framebuffer, &mut long);
    assert_eq!(long[SCREEN_PIXELS - 1], 0x0F380F);
    assert_eq!(long[SCREEN_PIXELS], 7);
}

#[test]
fn keys_become_buttons() {
    let mut cpu = cpu(&[]);
    let bus = cpu.bus_mut();
    apply_keys(
        bus,
        &Keys {
            left: true,
            a: true,
            select: true,
            ..no_keys()
        },
    );
    assert_eq!(bus.interrupt_flag, 0x10);
    bus.write_byte(0xFF00, 0x20);
    assert_eq!(bus.read_byte(0xFF00), 0xED);
    bus.write_byte(0xFF00, 0x10);
    assert_eq!(bus.read_byte(0xFF00), 0xDA);
    // Held keys are no new presses, and released keys release.
    bus.interrupt_flag = 0;
    apply_keys(
        bus,
        &Keys {
            a: true,
            ..no_keys()
        },
    );
    assert_eq!(bus.interrupt_flag, 0x00);
    assert_eq!(bus.read_byte(0xFF00), 0xDE);
    bus.write_byte(0xFF00, 0x20);
    assert_eq!(bus.read_byte(0xFF00), 0xEF);
}

#[test]
fn the_oldest_samples_are_dropped() {
    let mut buffer: VecDeque<f32> = VecDeque::new();
    for i in 0..MAX_BUFFERED_SAMPLES + 3 {
        buffer.push_back(i as f32);
    }
    drop_excess(&mut buffer);
    assert_eq!(buffer.len(), 8192);
    assert_eq!(buffer[0], 3.0);
    assert_eq!(buffer[8191], 8194.0);
    drop_excess(&mut buffer);
    assert_eq!(buffer.len(), 8192);
}

#[test]
fn pairs_come_in_order() {
    let mut buffer: VecDeque<f32> = VecDeque::new();
    buffer.push_back(0.25);
    buffer.push_back(0.5);
    buffer.push_back(0.75);
    assert_eq!(take_pair(&mut buffer, 0.0), (0.25, 0.5));
    assert_eq!(take_pair(&mut buffer, 0.0), (0.75, 0.75));
    assert_eq!(take_pair(&mut buffer, 0.0), (0.0, 0.0));
    assert!(buffer.is_empty());
}

#[test]
fn frames_are_filled_channel_by_channel() {
    let mut mono = [9.0f32];
    fill_frame(&mut mono, 0.25, 0.75, 0.5, 0.0);
    assert_eq!(mono, [0.5]);
    let mut stereo = [9.0f32; 2];
    fill_frame(&mut stereo, 0.25, 0.75, 0.5, 0.0);
    assert_eq!(stereo, [0.25, 0.75]);
    let mut surround = [9.0f32; 4];
    fill_frame(&mut surround, 0.25, 0.75, 0.5, 0.0);
    assert_eq!(surround, [0.25, 0.75, 0.0, 0.0]);
}

#[test]
fn the_device_is_filled_frame_by_frame() {
    let queue = |samples: &[f32]| samples.iter().copied().collect::<VecDeque<f32>>();
    let average = |left: f32, right: f32| (left + right) * 0.5;
    // Three channels: left, right and silence.
    let mut buffer = queue(&[0.1, 0.2, 0.3, 0.4, 0.5]);
    let mut data = [9.0f32; 6];
    fill_frames(&mut data, 3, &mut buffer, average, 0.0);
    assert_eq!(data, [0.1, 0.2, 0.0, 0.3, 0.4, 0.0]);
    assert_eq!(buffer, queue(&[0.5]));
    // One channel: the average of each pair, and a last sample on both sides.
    let mut buffer = queue(&[0.25, 0.75, 0.5]);
    let mut data = [9.0f32; 3];
    fill_frames(&mut data, 1, &mut buffer, average, 0.0);
    assert_eq!(data, [0.5, 0.5, 0.0]);
    assert!(buffer.is_empty());
    // Two channels with a short last frame, which is one of a single channel.
    let mut buffer = queue(&[0.1, 0.2, 0.25, 0.75, 0.6]);
    let mut data = [9.0f32; 3];
    fill_frames(&mut data, 2, &mut buffer, average, 0.0);
    assert_eq!(data, [0.1, 0.2, 0.5]);
    assert_eq!(buffer, queue(&[0.6]));
    let mut nothing: [f32; 0] = [];
    fill_frames(&mut nothing, 2, &mut buffer, average, 0.0);
    assert_eq!(buffer.len(), 1);
}

//! What happens around the console once per frame: the keys become buttons,
//! the processor runs for the time of a frame, the shades become colors, and
//! the queue of audio samples is kept short.

use std::collections::VecDeque;

use vstd::prelude::*;

use crate::bus::{lemma_request_algebra, press, release, with_interrupt, Bus, BusState};
use crate::cpu::{cpu_step, Cpu};
use crate::cpu_laws::{follows, law_step};
use crate::isa::CpuState;
use crate::joypad::{is_held, Button};
use crate::ppu::SCREEN_PIXELS;

verus! {

/// T-cycles per frame.
pub const CYCLES_PER_FRAME: u32 = 70224;

/// How many audio samples may wait for the output before the oldest are
/// dropped.
pub const MAX_BUFFERED_SAMPLES: usize = 8192;

// ---- Buttons ----

/// Which of the keys that stand for the buttons are down.
#[derive(Clone, Copy, PartialEq, Eq, Debug, Structural)]
pub struct Keys {
    pub right: bool,
    pub left: bool,
    pub up: bool,
    pub down: bool,
    pub a: bool,
    pub b: bool,
    pub start: bool,
    pub select: bool,
}

impl Keys {
    /// Whether the key of a button is down.
    pub open spec fn is_down(self, button: Button) -> bool {
        match button {
            Button::Right => self.right,
            Button::Left => self.left,
            Button::Up => self.up,
            Button::Down => self.down,
            Button::A => self.a,
            Button::B => self.b,
            Button::Select => self.select,
            Button::Start => self.start,
        }
    }
}

/// A button pressed or released.
#[verifier::opaque]
pub open spec fn set_button(s: BusState, button: Button, down: bool) -> BusState {
    if down {
        press(s, button)
    } else {
        release(s, button)
    }
}

/// Every button set to the state of its key.
pub open spec fn set_buttons(s: BusState, keys: Keys) -> BusState {
    let s = set_button(s, Button::Right, keys.right);
    let s = set_button(s, Button::Left, keys.left);
    let s = set_button(s, Button::Up, keys.up);
    let s = set_button(s, Button::Down, keys.down);
    let s = set_button(s, Button::A, keys.a);
    let s = set_button(s, Button::B, keys.b);
    let s = set_button(s, Button::Start, keys.start);
    set_button(s, Button::Select, keys.select)
}

/// Presses or releases a button.
fn apply_key(bus: &mut Bus, button: Button, down: bool)
    requires
        old(bus)@.wf(),
    ensures
        final(bus)@ == set_button(old(bus)@, button, down),
        final(bus)@.wf(),
{
    reveal(set_button);
    if down {
        bus.press_button(button);
    } else {
        bus.release_button(button);
    }
}

/// Presses the buttons whose keys are down and releases the others.
pub fn apply_keys(bus: &mut Bus, keys: &Keys)
    requires
        old(bus)@.wf(),
    ensures
        final(bus)@ == set_buttons(old(bus)@, *keys),
        final(bus)@.wf(),
{
    apply_key(bus, Button::Right, keys.right);
    apply_key(bus, Button::Left, keys.left);
    apply_key(bus, Button::Up, keys.up);
    apply_key(bus, Button::Down, keys.down);
    apply_key(bus, Button::A, keys.a);
    apply_key(bus, Button::B, keys.b);
    apply_key(bus, Button::Start, keys.start);
    apply_key(bus, Button::Select, keys.select);
}

/// Whether the key of a button is down that is not held yet.
pub open spec fn newly_down(s: BusState, keys: Keys, button: Button) -> bool {
    keys.is_down(button) && !is_held(s.joypad, button)
}

/// After the keys are applied, exactly the buttons whose keys are down are
/// held. The joypad interrupt is requested where one of them was not held
/// before, and nothing else changes.
#[verifier::rlimit(30)]
pub proof fn law_keys_are_buttons(s: BusState, keys: Keys)
    requires
        s.wf(),
    ensures
        forall|b: Button|
            is_held(set_buttons(s, keys).joypad, b) == #[trigger] keys.is_down(b),
        set_buttons(s, keys).interrupt_flag == (if exists|b: Button|
            #[trigger] newly_down(s, keys, b) {
            with_interrupt(s.interrupt_flag, 4)
        } else {
            s.interrupt_flag
        }),
        set_buttons(s, keys) == (BusState {
            joypad: set_buttons(s, keys).joypad,
            interrupt_flag: set_buttons(s, keys).interrupt_flag,
            ..s
        }),
        set_buttons(s, keys).joypad.select == s.joypad.select,
{
    let s1 = set_button(s, Button::Right, keys.right);
    let s2 = set_button(s1, Button::Left, keys.left);
    let s3 = set_button(s2, Button::Up, keys.up);
    let s4 = set_button(s3, Button::Down, keys.down);
    let s5 = set_button(s4, Button::A, keys.a);
    let s6 = set_button(s5, Button::B, keys.b);
    let s7 = set_button(s6, Button::Start, keys.start);
    let s8 = set_button(s7, Button::Select, keys.select);
    assert(applied(s, s, keys, 0)) by {
        reveal(applied);
    }
    lemma_set_button(s, s, keys, Button::Right);
    lemma_set_button(s, s1, keys, Button::Left);
    lemma_set_button(s, s2, keys, Button::Up);
    lemma_set_button(s, s3, keys, Button::Down);
    lemma_set_button(s, s4, keys, Button::A);
    lemma_set_button(s, s5, keys, Button::B);
    lemma_set_button(s, s6, keys, Button::Start);
    lemma_set_button(s, s7, keys, Button::Select);
    assert(s8 == set_buttons(s, keys));
    reveal(applied);
}

/// The position of a button in the order in which the keys are applied.
spec fn turn(button: Button) -> int {
    match button {
        Button::Right => 0,
        Button::Left => 1,
        Button::Up => 2,
        Button::Down => 3,
        Button::A => 4,
        Button::B => 5,
        Button::Start => 6,
        Button::Select => 7,
    }
}

/// Whether `t` is `s` after the first `n` keys were applied.
#[verifier::opaque]
spec fn applied(s: BusState, t: BusState, keys: Keys, n: int) -> bool {
    &&& t == (BusState { joypad: t.joypad, interrupt_flag: t.interrupt_flag, ..s })
    &&& t.joypad.held.len() == 8
    &&& t.joypad.select == s.joypad.select
    &&& forall|b: Button|
        #![trigger is_held(t.joypad, b)]
        #![trigger keys.is_down(b)]
        is_held(t.joypad, b) == (if turn(b) < n {
            keys.is_down(b)
        } else {
            is_held(s.joypad, b)
        })
    &&& t.interrupt_flag == (if exists|b: Button|
        turn(b) < n && #[trigger] newly_down(s, keys, b) {
        with_interrupt(s.interrupt_flag, 4)
    } else {
        s.interrupt_flag
    })
}

/// Applying the next key.
proof fn lemma_set_button(s: BusState, t: BusState, keys: Keys, button: Button)
    requires
        applied(s, t, keys, turn(button)),
    ensures
        applied(s, set_button(t, button, keys.is_down(button)), keys, turn(button) + 1),
{
    reveal(set_button);
    reveal(applied);
    lemma_request_algebra(s.interrupt_flag, 4, 4);
    let n = turn(button);
    let u = set_button(t, button, keys.is_down(button));
    assert forall|b: Button| is_held(u.joypad, b) == (if turn(b) < n + 1 {
        keys.is_down(b)
    } else {
        is_held(s.joypad, b)
    }) by {
        assert(is_held(t.joypad, b) == (if turn(b) < n {
            keys.is_down(b)
        } else {
            is_held(s.joypad, b)
        }));
        assert(turn(b) == n ==> b == button);
        assert(b != button ==> b.index_spec() != button.index_spec());
    }
    assert(is_held(t.joypad, button) == is_held(s.joypad, button));
    if newly_down(s, keys, button) {
        assert(turn(button) < n + 1 && newly_down(s, keys, button));
    } else {
        assert forall|b: Button|
            turn(b) < n + 1 && #[trigger] newly_down(s, keys, b) implies turn(b) < n by {
            assert(turn(b) == n ==> b == button);
        }
    }
}

// ---- Time ----

/// Steps until at least [`CYCLES_PER_FRAME`] T-cycles have passed, `elapsed`
/// of them before: the state, and the T-cycles in all.
pub open spec fn run_from(s: CpuState, elapsed: int) -> (CpuState, int)
    decreases CYCLES_PER_FRAME + 24 - elapsed,
    when s.wf()
{
    if elapsed >= CYCLES_PER_FRAME {
        (s, elapsed)
    } else {
        proof {
            law_step(s);
        }
        run_from(cpu_step(s).0, elapsed + cpu_step(s).1)
    }
}

/// Runs the processor for the time of a frame. An instruction is never cut
/// short, so the T-cycles in the result can exceed the frame.
pub fn run_frame(cpu: &mut Cpu) -> (cycles: u32)
    requires
        old(cpu)@.wf(),
    ensures
        final(cpu)@ == run_from(old(cpu)@, 0).0,
        cycles == run_from(old(cpu)@, 0).1,
        final(cpu)@.wf(),
{
    let mut cycles: u32 = 0;
    let ghost start = cpu@;
    while cycles < CYCLES_PER_FRAME
        invariant
            start.wf(),
            cpu@.wf(),
            cycles < CYCLES_PER_FRAME + 24,
            run_from(start, 0) == run_from(cpu@, cycles as int),
        decreases CYCLES_PER_FRAME + 24 - cycles,
    {
        cycles += cpu.step();
    }
    cycles
}

/// A frame lasts at least its nominal time and overshoots it by less than one
/// instruction. It leaves a well-formed state on the same cartridge.
pub proof fn law_frame_time(s: CpuState, elapsed: int)
    requires
        s.wf(),
        elapsed < CYCLES_PER_FRAME + 24,
    ensures
        CYCLES_PER_FRAME <= run_from(s, elapsed).1 < CYCLES_PER_FRAME + 24,
        follows(s, run_from(s, elapsed).0),
    decreases CYCLES_PER_FRAME + 24 - elapsed,
{
    if elapsed < CYCLES_PER_FRAME {
        law_step(s);
        law_frame_time(cpu_step(s).0, elapsed + cpu_step(s).1);
    }
}

// ---- Picture ----

/// The color of a shade, as 0xRRGGBB.
pub open spec fn shade_color(shade: u8) -> u32 {
    if shade == 0 {
        0x9BBC0F
    } else if shade == 1 {
        0x8BAC0F
    } else if shade == 2 {
        0x306230
    } else {
        0x0F380F
    }
}

/// Colors the pixels of a frame.
pub fn paint(framebuffer: &[u8; SCREEN_PIXELS], pixels: &mut Vec<u32>)
    requires
        forall|p: int| 0 <= p < SCREEN_PIXELS ==> #[trigger] framebuffer@[p] < 4,
    ensures
        final(pixels)@.len() == old(pixels)@.len(),
        forall|p: int|
            0 <= p < old(pixels)@.len() ==> #[trigger] final(pixels)@[p] == (if p
                < SCREEN_PIXELS {
                shade_color(framebuffer@[p])
            } else {
                old(pixels)@[p]
            }),
{
    let palette: [u32; 4] = [0x9BBC0F, 0x8BAC0F, 0x306230, 0x0F380F];
    let mut p: usize = 0;
    while p < pixels.len() && p < SCREEN_PIXELS
        invariant
            palette@ == seq![0x9BBC0Fu32, 0x8BAC0Fu32, 0x306230u32, 0x0F380Fu32],
            forall|i: int| 0 <= i < SCREEN_PIXELS ==> #[trigger] framebuffer@[i] < 4,
            p <= SCREEN_PIXELS,
            pixels@.len() == old(pixels)@.len(),
            forall|i: int|
                0 <= i < pixels@.len() ==> #[trigger] pixels@[i] == (if i < p {
                    shade_color(framebuffer@[i])
                } else {
                    old(pixels)@[i]
                }),
        decreases SCREEN_PIXELS - p,
    {
        pixels[p] = palette[framebuffer[p] as usize];
        p += 1;
    }
}

// ---- Sound ----

/// Drops the oldest samples beyond [`MAX_BUFFERED_SAMPLES`], so that an output
/// that falls behind does not add ever more latency.
pub fn drop_excess<T>(buffer: &mut VecDeque<T>)
    ensures
        final(buffer)@ == (if old(buffer)@.len() <= MAX_BUFFERED_SAMPLES {
            old(buffer)@
        } else {
            old(buffer)@.skip(old(buffer)@.len() - MAX_BUFFERED_SAMPLES)
        }),
{
    let excess: usize = buffer.len().saturating_sub(MAX_BUFFERED_SAMPLES);
    let mut i: usize = 0;
    while i < excess
        invariant
            i <= excess,
            excess <= old(buffer)@.len(),
            buffer@ == old(buffer)@.skip(i as int),
        decreases excess - i,
    {
        let _ = buffer.pop_front();
        i += 1;
    }
}

/// Takes the left and the right sample of the next moment. Where the buffer
/// holds none, both are silence; where it holds one, it serves both sides.
pub fn take_pair<T: Copy>(buffer: &mut VecDeque<T>, silence: T) -> (r: (T, T))
    ensures
        old(buffer)@.len() == 0 ==> r == (silence, silence) && final(buffer)@ == old(buffer)@,
        old(buffer)@.len() == 1 ==> r == (old(buffer)@[0], old(buffer)@[0]),
        old(buffer)@.len() > 1 ==> r == (old(buffer)@[0], old(buffer)@[1]),
        old(buffer)@.len() > 0 ==> final(buffer)@ == old(buffer)@.skip(
            if old(buffer)@.len() == 1 {
                1
            } else {
                2
            },
        ),
{
    let left = match buffer.pop_front() {
        Some(sample) => sample,
        None => silence,
    };
    let right = match buffer.pop_front() {
        Some(sample) => sample,
        None => left,
    };
    (left, right)
}

/// Fills one frame of the device's channels. A single channel gets the mono
/// sample; otherwise the first two get left and right, and the rest silence.
pub fn fill_frame<T: Copy>(frame: &mut [T], left: T, right: T, mono: T, silence: T)
    requires
        old(frame)@.len() > 0,
    ensures
        final(frame)@ == Seq::new(
            old(frame)@.len(),
            |i: int|
                if old(frame)@.len() == 1 {
                    mono
                } else if i == 0 {
                    left
                } else if i == 1 {
                    right
                } else {
                    silence
                },
        ),
{
    if frame.len() == 1 {
        frame[0] = mono;
        return ;
    }
    frame[0] = left;
    frame[1] = right;
    let mut i: usize = 2;
    while i < frame.len()
        invariant
            2 <= i <= frame@.len(),
            frame@.len() == old(frame)@.len(),
            frame@[0] == left,
            frame@[1] == right,
            forall|j: int| 2 <= j < i ==> #[trigger] frame@[j] == silence,
        decreases frame@.len() - i,
    {
        frame[i] = silence;
        i += 1;
    }
}

/// The left and the right sample of moment `k` of a queue: two samples each,
/// silence past the end, and a last sample without its pair on both sides.
pub open spec fn pair_at<T>(samples: Seq<T>, k: int, silence: T) -> (T, T) {
    let left = if 2 * k < samples.len() {
        samples[2 * k]
    } else {
        silence
    };
    let right = if 2 * k + 1 < samples.len() {
        samples[2 * k + 1]
    } else {
        left
    };
    (left, right)
}

/// How many frames of `channels` samples `len` samples make, the last one
/// shorter where they do not divide evenly.
pub open spec fn frame_count(len: int, channels: int) -> int {
    (len + channels - 1) / channels
}

/// The length of frame `k`.
pub open spec fn frame_length(len: int, channels: int, k: int) -> int {
    if (k + 1) * channels <= len {
        channels
    } else {
        len - k * channels
    }
}

/// How many of the waiting samples `frames` frames use up.
pub open spec fn samples_used(waiting: int, frames: int) -> int {
    if waiting < 2 * frames {
        waiting
    } else {
        2 * frames
    }
}

/// Whether `value` belongs in sample `c` of a frame with the given length and
/// pair, as [`fill_frame`] fills it. `mono` mixes the pair for a frame of one
/// sample.
pub open spec fn is_frame_sample<T, F: Fn(T, T) -> T>(
    mono: F,
    silence: T,
    length: int,
    pair: (T, T),
    c: int,
    value: T,
) -> bool {
    if length == 1 {
        call_ensures(mono, pair, value)
    } else if c == 0 {
        value == pair.0
    } else if c == 1 {
        value == pair.1
    } else {
        value == silence
    }
}

/// Fills the device's samples frame by frame from the queue. Frame `k` gets the
/// pair of moment `k`, and the queue loses what the frames used up.
pub fn fill_frames<T: Copy, F: Fn(T, T) -> T>(
    data: &mut [T],
    channels: usize,
    buffer: &mut VecDeque<T>,
    mono: F,
    silence: T,
)
    requires
        channels > 0,
        forall|left: T, right: T| #[trigger] call_requires(mono, (left, right)),
    ensures
        final(data)@.len() == old(data)@.len(),
        forall|i: int|
            0 <= i < old(data)@.len() ==> is_frame_sample(
                mono,
                silence,
                frame_length(old(data)@.len() as int, channels as int, i / channels as int),
                pair_at(old(buffer)@, i / channels as int, silence),
                i % channels as int,
                #[trigger] final(data)@[i],
            ),
        final(buffer)@ == old(buffer)@.skip(
            samples_used(
                old(buffer)@.len() as int,
                frame_count(old(data)@.len() as int, channels as int),
            ),
        ),
{
    let ghost samples = buffer@;
    let len: usize = data.len();
    let ghost mut k: int = 0;
    let mut at: usize = 0;
    proof {
        lemma_no_frames(channels as int);
        assert(samples.skip(0) =~= samples);
    }
    while at < len
        invariant
            channels > 0,
            at <= len,
            len == data@.len(),
            len == old(data)@.len(),
            samples == old(buffer)@,
            k >= 0,
            at < len ==> at == k * channels,
            at == len ==> k == frame_count(len as int, channels as int),
            buffer@ == samples.skip(samples_used(samples.len() as int, k)),
            forall|left: T, right: T| #[trigger] call_requires(mono, (left, right)),
            forall|i: int|
                0 <= i < at ==> is_frame_sample(
                    mono,
                    silence,
                    frame_length(len as int, channels as int, i / channels as int),
                    pair_at(samples, i / channels as int, silence),
                    i % channels as int,
                    #[trigger] data@[i],
                ),
        decreases len - at,
    {
        let n: usize = if channels < len - at {
            channels
        } else {
            len - at
        };
        let ghost before = data@;
        let (left, right) = take_pair(buffer, silence);
        let mixed = if n == 1 {
            mono(left, right)
        } else {
            silence
        };
        {
            let (_, rest) = data.split_at_mut(at);
            let (frame, _) = rest.split_at_mut(n);
            fill_frame(frame, left, right, mixed, silence);
        }
        proof {
            assert((left, right) == pair_at(samples, k, silence));
            assert(buffer@ =~= samples.skip(samples_used(samples.len() as int, k + 1)));
            lemma_frame_ends(len as int, channels as int, k, n as int);
            assert forall|i: int| 0 <= i < at + n implies is_frame_sample(
                mono,
                silence,
                frame_length(len as int, channels as int, i / channels as int),
                pair_at(samples, i / channels as int, silence),
                i % channels as int,
                #[trigger] data@[i],
            ) by {
                if i < at {
                    assert(data@[i] == before[i]);
                } else {
                    vstd::arithmetic::div_mod::lemma_fundamental_div_mod_converse(
                        i,
                        channels as int,
                        k,
                        i - at,
                    );
                }
            }
            k = k + 1;
        }
        at += n;
    }
}

/// No samples make no frame.
proof fn lemma_no_frames(channels: int)
    requires
        channels > 0,
    ensures
        frame_count(0, channels) == 0,
{
    vstd::arithmetic::div_mod::lemma_basic_div(channels - 1, channels);
}

/// Where frame `k` begins inside the samples, its length and what follows it.
proof fn lemma_frame_ends(len: int, channels: int, k: int, n: int)
    requires
        channels > 0,
        k >= 0,
        k * channels < len,
        n == (if channels < len - k * channels {
            channels
        } else {
            len - k * channels
        }),
    ensures
        frame_length(len, channels, k) == n,
        k * channels + n < len ==> k * channels + n == (k + 1) * channels,
        k * channels + n == len ==> frame_count(len, channels) == k + 1,
{
    assert((k + 1) * channels == k * channels + channels) by (nonlinear_arith);
    if k * channels + n == len {
        vstd::arithmetic::div_mod::lemma_fundamental_div_mod_converse(
            len + channels - 1,
            channels,
            k + 1,
            n - 1,
        );
    }
}

// ---- Laws ----

/// Each key stands for the button of its name.
pub proof fn law_key_names(keys: Keys)
    ensures
        keys.is_down(Button::Right) == keys.right,
        keys.is_down(Button::Left) == keys.left,
        keys.is_down(Button::Up) == keys.up,
        keys.is_down(Button::Down) == keys.down,
        keys.is_down(Button::A) == keys.a,
        keys.is_down(Button::B) == keys.b,
        keys.is_down(Button::Start) == keys.start,
        keys.is_down(Button::Select) == keys.select,
{
}

/// A frame takes 70224 T-cycles, and fewer than 24 more.
pub proof fn law_frame_length(s: CpuState)
    requires
        s.wf(),
    ensures
        70224 <= run_from(s, 0).1 < 70248,
{
    law_frame_time(s, 0);
}

/// A frame is steps of the processor one after the other until its time is up.
pub proof fn law_frame_steps(s: CpuState, elapsed: int)
    requires
        s.wf(),
    ensures
        elapsed >= 70224 ==> run_from(s, elapsed) == (s, elapsed),
        elapsed < 70224 ==> run_from(s, elapsed) == run_from(
            cpu_step(s).0,
            elapsed + cpu_step(s).1,
        ),
{
    law_step(s);
}

/// The four shades are greens, from the lightest to the darkest, given by their
/// red, green and blue.
pub proof fn law_shade_colors()
    ensures
        shade_color(0) == 0x10000 * 155 + 0x100 * 188 + 15,
        shade_color(1) == 0x10000 * 139 + 0x100 * 172 + 15,
        shade_color(2) == 0x10000 * 48 + 0x100 * 98 + 48,
        shade_color(3) == 0x10000 * 15 + 0x100 * 56 + 15,
{
}

/// Moment `k` of a queue has its samples 2k and 2k + 1 on the left and on the
/// right, a last single sample on both sides, and silence past the end. Taking
/// two samples from the front moves every moment up by one.
pub proof fn law_sample_pairs<T>(samples: Seq<T>, k: int, silence: T)
    requires
        k >= 0,
    ensures
        samples.len() >= 2 * k + 2 ==> pair_at(samples, k, silence) == (
            samples[2 * k],
            samples[2 * k + 1],
        ),
        samples.len() == 2 * k + 1 ==> pair_at(samples, k, silence) == (
            samples[2 * k],
            samples[2 * k],
        ),
        samples.len() <= 2 * k ==> pair_at(samples, k, silence) == (silence, silence),
        samples.len() >= 2 ==> pair_at(samples.skip(2), k, silence) == pair_at(
            samples,
            k + 1,
            silence,
        ),
{
}

/// Frames use up two waiting samples each, and never more than there are.
pub proof fn law_samples_used(waiting: int, frames: int)
    requires
        waiting >= 0,
        frames >= 0,
    ensures
        samples_used(waiting, frames) <= waiting,
        samples_used(waiting, frames) <= 2 * frames,
        samples_used(waiting, frames) == waiting || samples_used(waiting, frames) == 2 * frames,
{
}

/// The frames of a device cover its samples without a gap: all but the last have
/// one sample for each channel, and the last has what is left.
pub proof fn law_frames_cover(len: int, channels: int, k: int)
    requires
        channels > 0,
        len >= 0,
        0 <= k,
        k * channels < len,
    ensures
        (frame_count(len, channels) - 1) * channels < len <= frame_count(len, channels) * channels,
        1 <= frame_length(len, channels, k) <= channels,
        k * channels + frame_length(len, channels, k) <= len,
        frame_length(len, channels, k) < channels ==> k * channels + frame_length(
            len,
            channels,
            k,
        ) == len,
{
    assert((k + 1) * channels == k * channels + channels) by (nonlinear_arith);
    let count = frame_count(len, channels);
    vstd::arithmetic::div_mod::lemma_fundamental_div_mod(len + channels - 1, channels);
    vstd::arithmetic::div_mod::lemma_mod_bound(len + channels - 1, channels);
    assert((count - 1) * channels == count * channels - channels && count * channels == channels
        * count) by (nonlinear_arith);
}

/// In a frame of one sample it is the mix of the pair. In a longer one the first
/// is the left one, the second the right one, and the others are silent.
pub proof fn law_frame_samples<T, F: Fn(T, T) -> T>(
    mono: F,
    silence: T,
    length: int,
    left: T,
    right: T,
    c: int,
    value: T,
)
    requires
        0 <= c < length,
    ensures
        length == 1 ==> is_frame_sample(mono, silence, length, (left, right), c, value)
            == call_ensures(mono, (left, right), value),
        length >= 2 && c == 0 ==> is_frame_sample(mono, silence, length, (left, right), c, value)
            == (value == left),
        length >= 2 && c == 1 ==> is_frame_sample(mono, silence, length, (left, right), c, value)
            == (value == right),
        length >= 2 && c >= 2 ==> is_frame_sample(mono, silence, length, (left, right), c, value)
            == (value == silence),
{
}

} // verus!

# gameboy

The hardware of a hand-held game console with an 8-bit processor, written in
Rust and verified with Verus, and a program that runs it in a window.

## Layout

```
src/
  bits.rs       bits, bytes and words
  isa.rs        the instruction set as a specification
  cpu.rs        the processor: execution, interrupts, the low-power wait
  cpu_laws.rs   laws of the processor
  bus.rs        the address map, the timer, the interrupt registers
  scanline.rs   what a line of the picture looks like, as a specification
  ppu.rs        the picture processing unit: timing, video memory, rendering
  channels.rs   the four sound channels
  sound.rs      the audio processing unit: registers, frame sequencer, mixer
  cartridge.rs  ROM, external RAM and the memory bank controllers
  joypad.rs     the controller
  host.rs       what happens around the console once per frame
app/            the program: window, keyboard, audio device, files
tests/          tests of the library
```

Every component has a state type (`CpuState`, `BusState`, `PpuState`, ...) that
is the view of the executable type. Specification functions on the states say
what a read returns, what a write changes and what a T-cycle does; the contracts
of the methods equate the view after a call with those functions. Functions
named `law_...` are proved facts about them.

## Limits

- A line is drawn in one pass when its drawing mode ends. Register writes in the
  middle of a line do not show until the next one.
- A transfer into OAM completes at once.
- The timer counts its own divider, so writing DIV does not disturb TIMA.
- Cartridges without a controller, with an MBC1 and with an MBC3 are banked. Any
  other type loads like one without a controller.
- The clock of an MBC3 holds what was written to it and does not advance.
- The frequency sweep makes one overflow check per step.

## The program

The only argument is the path of a ROM file. The arrow keys are the directions,
Z and X are A and B, Enter is Start, right Shift is Select, and Escape quits.
What a program sends over the serial port is printed to standard output.

The audio unit hands out the levels of all channels for every T-cycle. The
program picks the T-cycles that the sample rate of the device asks for and mixes
the levels in floating point.

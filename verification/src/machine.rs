//! The machine as mathematics: its state, and what one instruction, one timer
//! tick and one whole cycle make of it.

use crate::display::{collides, drawn, is_bitmap, sprite_at, sprite_fits};
use crate::keyboard::KeyboardView;
use crate::utility::nibbles_of;
use vstd::prelude::*;

verus! {

/// Where programs are loaded and start. Memory below is reserved.
pub const ROM_START_ADDRESS: usize = 0x200;

/// The longest program that fits between the reserved area and the end of
/// memory.
pub const MAX_ROM_SIZE: usize = 3584;

/// The register that instructions use as their flag.
pub const VF: usize = 15;

/// The built-in font. The glyph of hexadecimal digit `d` is rows `5 * d` to
/// `5 * d + 4`.
pub const FONTSET: [u8; 80] = [
    0xF0, 0x90, 0x90, 0x90, 0xF0,
    0x20, 0x60, 0x20, 0x20, 0x70,
    0xF0, 0x10, 0xF0, 0x80, 0xF0,
    0xF0, 0x10, 0xF0, 0x10, 0xF0,
    0x90, 0x90, 0xF0, 0x10, 0x10,
    0xF0, 0x80, 0xF0, 0x10, 0xF0,
    0xF0, 0x80, 0xF0, 0x90, 0xF0,
    0xF0, 0x10, 0x20, 0x40, 0x40,
    0xF0, 0x90, 0xF0, 0x90, 0xF0,
    0xF0, 0x90, 0xF0, 0x10, 0xF0,
    0xF0, 0x90, 0xF0, 0x90, 0x90,
    0xE0, 0x90, 0xE0, 0x90, 0xE0,
    0xF0, 0x80, 0x80, 0x80, 0xF0,
    0xE0, 0x90, 0x90, 0x90, 0xE0,
    0xF0, 0x80, 0xF0, 0x80, 0xF0,
    0xF0, 0x80, 0xF0, 0x80, 0x80,
];

/// The built-in font as a sequence of bytes.
pub open spec fn font() -> Seq<u8> {
    FONTSET@
}

/// Why the machine refused to go on.
#[derive(Clone, Copy, Debug, PartialEq, Eq, Structural)]
pub enum Chip8Error {
    /// The program is longer than the memory above the reserved area.
    RomTooLarge,
    /// The word `opcode` at address `pc` is no instruction.
    UnimplementedOpcode { pc: u16, opcode: u16 },
    /// A return was executed while the call stack was empty.
    StackUnderflow,
    /// An instruction reached outside memory, video memory or the keys, or
    /// tried to write to the reserved area of memory.
    OutOfBounds,
}

/// What the machine tells its host after a cycle, as mathematics.
pub enum EventView {
    /// The display changed; this is video memory now.
    UpdateDisplay(Seq<u8>),
    /// The sound timer left zero.
    StartBeep,
    /// The sound timer reached zero.
    StopBeep,
}

/// The state of the machine, as mathematics.
#[verifier::ext_equal]
pub struct Machine {
    /// The 4096 bytes of memory.
    pub memory: Seq<u8>,
    /// The 2048 cells of video memory.
    pub video: Seq<u8>,
    /// The 16 registers, V0 to VF.
    pub regs: Seq<u8>,
    /// The return addresses, the innermost call last.
    pub stack: Seq<u16>,
    /// The address of the next instruction.
    pub pc: u16,
    /// The index register.
    pub i: u16,
    /// The delay timer.
    pub delay_timer: u8,
    /// The sound timer.
    pub sound_timer: u8,
    /// Whether the host has been told to beep and not yet to stop.
    pub beeping: bool,
    /// The input latch.
    pub keyboard: KeyboardView,
}

/// A machine after one instruction, and whether that instruction drew.
pub struct Executed {
    /// The machine after the instruction.
    pub machine: Machine,
    /// Whether the instruction was a draw.
    pub drew: bool,
}

/// A machine after one cycle, and what the cycle tells the host.
pub struct Cycled {
    /// The machine after the cycle.
    pub machine: Machine,
    /// What the host is told, if anything.
    pub event: Option<EventView>,
}

/// The second hexadecimal digit of an instruction: a register number.
pub open spec fn op_x(opcode: u16) -> int {
    nibbles_of(opcode).1 as int
}

/// The third hexadecimal digit of an instruction: a register number.
pub open spec fn op_y(opcode: u16) -> int {
    nibbles_of(opcode).2 as int
}

/// The last hexadecimal digit of an instruction.
pub open spec fn op_n(opcode: u16) -> u8 {
    nibbles_of(opcode).3
}

/// The low byte of an instruction.
pub open spec fn op_nn(opcode: u16) -> u8 {
    (opcode % 256) as u8
}

/// The low 12 bits of an instruction: an address.
pub open spec fn op_nnn(opcode: u16) -> u16 {
    opcode % 4096
}

/// A timer that held `timer` after `ticks` ticks: it counts down and stays at
/// zero.
pub open spec fn decayed(timer: u8, ticks: nat) -> u8 {
    if ticks >= timer {
        0
    } else {
        (timer - ticks) as u8
    }
}

/// The registers after the arithmetic instruction `8xyn`, or `None` where `n`
/// names no operation. The flag register is written as the instruction writes
/// it: after the result for sums and differences, before the shift for the
/// shifts.
pub open spec fn alu(regs: Seq<u8>, x: int, y: int, n: u8) -> Option<Seq<u8>> {
    let vx = regs[x];
    let vy = regs[y];
    if n == 0x0 {
        Some(regs.update(x, vy))
    } else if n == 0x1 {
        Some(regs.update(x, vx | vy))
    } else if n == 0x2 {
        Some(regs.update(x, vx & vy))
    } else if n == 0x3 {
        Some(regs.update(x, vx ^ vy))
    } else if n == 0x4 {
        Some(
            regs.update(x, ((vx + vy) % 256) as u8).update(
                15,
                if vx + vy > 255 {
                    1u8
                } else {
                    0u8
                },
            ),
        )
    } else if n == 0x5 {
        Some(
            regs.update(x, ((vx - vy) % 256) as u8).update(
                15,
                if vx >= vy {
                    1u8
                } else {
                    0u8
                },
            ),
        )
    } else if n == 0x6 {
        let flagged = regs.update(15, vx % 2);
        Some(flagged.update(x, flagged[x] / 2))
    } else if n == 0x7 {
        Some(
            regs.update(x, ((vy - vx) % 256) as u8).update(
                15,
                if vy >= vx {
                    1u8
                } else {
                    0u8
                },
            ),
        )
    } else if n == 0xE {
        let flagged = regs.update(
            15,
            if vx >= 128 {
                0x80u8
            } else {
                0u8
            },
        );
        Some(flagged.update(x, ((flagged[x] * 2) % 256) as u8))
    } else {
        None
    }
}

impl Machine {
    /// Memory, video memory, registers and keys have their sizes.
    pub open spec fn shaped(self) -> bool {
        &&& self.memory.len() == 4096
        &&& self.video.len() == 2048
        &&& self.regs.len() == 16
        &&& self.keyboard.wf()
    }

    /// The reserved area of memory holds the font and zeros.
    pub open spec fn reserved_intact(self) -> bool {
        forall|a: int|
            0 <= a < 0x200 ==> #[trigger] self.memory[a] == (if a < 80 {
                font()[a]
            } else {
                0u8
            })
    }

    /// What holds of every machine that was made by `initial` and changed by
    /// loading programs, cycles, timer ticks and key events only: it has its
    /// sizes, the reserved area of memory is as it was made, and every pixel
    /// is 0 or 1.
    pub open spec fn wf(self) -> bool {
        &&& self.shaped()
        &&& self.reserved_intact()
        &&& is_bitmap(self.video)
    }

    /// The machine as it is made: the font at address 0, everything else zero.
    pub open spec fn initial() -> Machine {
        Machine {
            memory: Seq::new(
                4096,
                |a: int|
                    if a < 80 {
                        font()[a]
                    } else {
                        0u8
                    },
            ),
            video: Seq::new(2048, |cell: int| 0u8),
            regs: Seq::new(16, |r: int| 0u8),
            stack: Seq::empty(),
            pc: 0,
            i: 0,
            delay_timer: 0,
            sound_timer: 0,
            beeping: false,
            keyboard: KeyboardView::initial(),
        }
    }

    /// The machine with `rom` copied to address `0x200` and the program
    /// counter set there.
    pub open spec fn loaded(self, rom: Seq<u8>) -> Machine {
        Machine {
            memory: Seq::new(
                4096,
                |a: int|
                    if 0x200 <= a < 0x200 + rom.len() {
                        rom[a - 0x200]
                    } else {
                        self.memory[a]
                    },
            ),
            pc: 0x200,
            ..self
        }
    }

    /// The instruction word at the program counter, high byte first, or
    /// `None` where it would lie outside memory.
    pub open spec fn fetch(self) -> Option<u16> {
        if self.pc + 1 < 4096 {
            Some((self.memory[self.pc as int] * 256 + self.memory[self.pc + 1]) as u16)
        } else {
            None
        }
    }

    /// The machine with the program counter moved past the current
    /// instruction, and past the next one too when `skip` holds.
    pub open spec fn advanced(self, skip: bool) -> Machine {
        Machine {
            pc: (self.pc + if skip {
                4int
            } else {
                2int
            }) as u16,
            ..self
        }
    }

    /// The outcome of an instruction that falls through to the next one.
    pub open spec fn next(self) -> Result<Executed, Chip8Error> {
        Ok(Executed { machine: self.advanced(false), drew: false })
    }

    /// The outcome of an instruction that skips the next one when `skip` holds.
    pub open spec fn next_or_skip(self, skip: bool) -> Result<Executed, Chip8Error> {
        Ok(Executed { machine: self.advanced(skip), drew: false })
    }

    /// The outcome of an instruction that sets the program counter.
    pub open spec fn jumped(self, target: u16) -> Result<Executed, Chip8Error> {
        Ok(Executed { machine: Machine { pc: target, ..self }, drew: false })
    }

    /// The machine with register `x` set to `value`.
    pub open spec fn with_reg(self, x: int, value: u8) -> Machine {
        Machine { regs: self.regs.update(x, value), ..self }
    }

    /// `Dxyn`: draws the `n` sprite rows at the index register at the pixel
    /// that registers `x` and `y` name, reduced to the display's size, and
    /// sets the flag register to 1 if a lit pixel went off, else to 0.
    pub open spec fn draw(self, x: int, y: int, n: u8) -> Result<Executed, Chip8Error> {
        let px = self.regs[x] % 64;
        let py = self.regs[y] % 32;
        let sprite = sprite_at(self.memory, self.i as int, n as int);
        if n > 0 && self.i + n > 4096 {
            Err(Chip8Error::OutOfBounds)
        } else if !sprite_fits(sprite, px as int, py as int) {
            Err(Chip8Error::OutOfBounds)
        } else {
            Ok(
                Executed {
                    machine: Machine {
                        video: drawn(self.video, sprite, px as int, py as int),
                        regs: self.regs.update(
                            15,
                            if collides(self.video, sprite, px as int, py as int) {
                                1u8
                            } else {
                                0u8
                            },
                        ),
                        ..self
                    }.advanced(false),
                    drew: true,
                },
            )
        }
    }

    /// `Fx0A`: polls the key wait. With a key captured, register `x` takes
    /// its number and the program goes on. Without, only the latch changes,
    /// and the same instruction comes next.
    pub open spec fn key_wait(self, x: int) -> Result<Executed, Chip8Error> {
        let polled = Machine { keyboard: self.keyboard.polled(), ..self };
        match self.keyboard.poll_result() {
            Some(key) => polled.with_reg(x, key as u8).next(),
            None => Ok(Executed { machine: polled, drew: false }),
        }
    }

    /// `Fx33`: writes the hundreds, tens and ones of register `x` to the three
    /// bytes at the index register.
    pub open spec fn store_bcd(self, x: int) -> Result<Executed, Chip8Error> {
        let vx = self.regs[x];
        let i = self.i as int;
        if i < 0x200 || i + 2 >= 4096 {
            Err(Chip8Error::OutOfBounds)
        } else {
            Machine {
                memory: self.memory.update(i, vx / 100).update(i + 1, vx / 10 % 10).update(
                    i + 2,
                    vx % 10,
                ),
                ..self
            }.next()
        }
    }

    /// `Fx55`: copies registers 0 to `x` to memory at the index register.
    pub open spec fn store_regs(self, x: int) -> Result<Executed, Chip8Error> {
        let i = self.i as int;
        if i < 0x200 || i + x >= 4096 {
            Err(Chip8Error::OutOfBounds)
        } else {
            Machine {
                memory: Seq::new(
                    4096,
                    |a: int|
                        if i <= a <= i + x {
                            self.regs[a - i]
                        } else {
                            self.memory[a]
                        },
                ),
                ..self
            }.next()
        }
    }

    /// `Fx65`: fills registers 0 to `x` from memory at the index register.
    pub open spec fn load_regs(self, x: int) -> Result<Executed, Chip8Error> {
        let i = self.i as int;
        if i + x >= 4096 {
            Err(Chip8Error::OutOfBounds)
        } else {
            Machine {
                regs: Seq::new(
                    16,
                    |r: int|
                        if r <= x {
                            self.memory[i + r]
                        } else {
                            self.regs[r]
                        },
                ),
                ..self
            }.next()
        }
    }

    /// The instructions `Ex9E` and `ExA1`, which skip on the state of the key
    /// that register `x` names.
    pub open spec fn execute_key(self, opcode: u16) -> Result<Executed, Chip8Error> {
        let x = op_x(opcode);
        let nn = op_nn(opcode);
        let key = self.regs[x];
        if nn != 0x9E && nn != 0xA1 {
            Err(Chip8Error::UnimplementedOpcode { pc: self.pc, opcode })
        } else if key >= 16 {
            Err(Chip8Error::OutOfBounds)
        } else if nn == 0x9E {
            self.next_or_skip(self.keyboard.keys[key as int])
        } else {
            self.next_or_skip(!self.keyboard.keys[key as int])
        }
    }

    /// The instructions `Fx..`: timers, key wait, index register, memory.
    pub open spec fn execute_misc(self, opcode: u16) -> Result<Executed, Chip8Error> {
        let x = op_x(opcode);
        let nn = op_nn(opcode);
        let vx = self.regs[x];
        if nn == 0x07 {
            self.with_reg(x, self.delay_timer).next()
        } else if nn == 0x0A {
            self.key_wait(x)
        } else if nn == 0x15 {
            Machine { delay_timer: vx, ..self }.next()
        } else if nn == 0x18 {
            Machine { sound_timer: vx, ..self }.next()
        } else if nn == 0x1E {
            Machine { i: ((self.i + vx) % 0x10000) as u16, ..self }.next()
        } else if nn == 0x29 {
            Machine { i: (vx * 5) as u16, ..self }.next()
        } else if nn == 0x33 {
            self.store_bcd(x)
        } else if nn == 0x55 {
            self.store_regs(x)
        } else if nn == 0x65 {
            self.load_regs(x)
        } else {
            Err(Chip8Error::UnimplementedOpcode { pc: self.pc, opcode })
        }
    }

    /// The instructions `0...`: clear the display, and return.
    pub open spec fn execute_system(self, opcode: u16) -> Result<Executed, Chip8Error> {
        if opcode == 0x00E0 {
            Machine { video: Seq::new(2048, |cell: int| 0u8), ..self }.next()
        } else if opcode == 0x00EE {
            if self.stack.len() == 0 {
                Err(Chip8Error::StackUnderflow)
            } else {
                Machine { stack: self.stack.drop_last(), ..self }.jumped(self.stack.last())
            }
        } else {
            Err(Chip8Error::UnimplementedOpcode { pc: self.pc, opcode })
        }
    }

    /// The instructions that set the program counter: `1nnn` jumps, `2nnn`
    /// calls, leaving the address of the next instruction on the stack, and
    /// `Bnnn` jumps to `nnn` plus register 0.
    pub open spec fn execute_jump(self, opcode: u16) -> Result<Executed, Chip8Error> {
        let family = nibbles_of(opcode).0;
        let nnn = op_nnn(opcode);
        if family == 0x1 {
            self.jumped(nnn)
        } else if family == 0x2 {
            Machine { stack: self.stack.push((self.pc + 2) as u16), ..self }.jumped(nnn)
        } else if family == 0xB {
            self.jumped((self.regs[0] + nnn) as u16)
        } else {
            Err(Chip8Error::UnimplementedOpcode { pc: self.pc, opcode })
        }
    }

    /// The instructions that skip the next one on a comparison: `3xnn` if
    /// register `x` equals `nn`, `4xnn` if it differs, `5xy0` if registers `x`
    /// and `y` are equal, `9xy0` if they differ.
    pub open spec fn execute_skip(self, opcode: u16) -> Result<Executed, Chip8Error> {
        let family = nibbles_of(opcode).0;
        let n = op_n(opcode);
        let nn = op_nn(opcode);
        let vx = self.regs[op_x(opcode)];
        let vy = self.regs[op_y(opcode)];
        if family == 0x3 {
            self.next_or_skip(vx == nn)
        } else if family == 0x4 {
            self.next_or_skip(vx != nn)
        } else if family == 0x5 && n == 0 {
            self.next_or_skip(vx == vy)
        } else if family == 0x9 && n == 0 {
            self.next_or_skip(vx != vy)
        } else {
            Err(Chip8Error::UnimplementedOpcode { pc: self.pc, opcode })
        }
    }

    /// The instructions that set a register from the instruction word: `6xnn`
    /// sets register `x` to `nn`, `7xnn` adds `nn` to it modulo 256 and leaves
    /// the flag alone, `Annn` sets the index register, and `Cxnn` sets
    /// register `x` to the bits of `random` that `nn` has too.
    pub open spec fn execute_set(self, opcode: u16, random: u8) -> Result<Executed, Chip8Error> {
        let family = nibbles_of(opcode).0;
        let x = op_x(opcode);
        let nn = op_nn(opcode);
        if family == 0x6 {
            self.with_reg(x, nn).next()
        } else if family == 0x7 {
            self.with_reg(x, ((self.regs[x] + nn) % 256) as u8).next()
        } else if family == 0xA {
            Machine { i: op_nnn(opcode), ..self }.next()
        } else if family == 0xC {
            self.with_reg(x, random & nn).next()
        } else {
            Err(Chip8Error::UnimplementedOpcode { pc: self.pc, opcode })
        }
    }

    /// The arithmetic instructions `8xyn`.
    pub open spec fn execute_alu(self, opcode: u16) -> Result<Executed, Chip8Error> {
        match alu(self.regs, op_x(opcode), op_y(opcode), op_n(opcode)) {
            Some(regs) => Machine { regs, ..self }.next(),
            None => Err(Chip8Error::UnimplementedOpcode { pc: self.pc, opcode }),
        }
    }

    /// What the instruction `opcode`, found at the program counter, makes of
    /// the machine. `random` is the byte that `Cxnn` takes from the random
    /// source. A word that is no instruction is an error.
    pub open spec fn execute(self, opcode: u16, random: u8) -> Result<Executed, Chip8Error> {
        let family = nibbles_of(opcode).0;
        if family == 0x0 {
            self.execute_system(opcode)
        } else if family == 0x1 || family == 0x2 || family == 0xB {
            self.execute_jump(opcode)
        } else if family == 0x3 || family == 0x4 || family == 0x5 || family == 0x9 {
            self.execute_skip(opcode)
        } else if family == 0x6 || family == 0x7 || family == 0xA || family == 0xC {
            self.execute_set(opcode, random)
        } else if family == 0x8 {
            self.execute_alu(opcode)
        } else if family == 0xD {
            self.draw(op_x(opcode), op_y(opcode), op_n(opcode))
        } else if family == 0xE {
            self.execute_key(opcode)
        } else {
            self.execute_misc(opcode)
        }
    }

    /// The machine after `ticks` ticks of the 60 Hz clock: both timers count
    /// down and stay at zero.
    pub open spec fn ticked(self, ticks: nat) -> Machine {
        Machine {
            delay_timer: decayed(self.delay_timer, ticks),
            sound_timer: decayed(self.sound_timer, ticks),
            ..self
        }
    }

    /// Whether the host has yet to be told that the sound timer left zero or
    /// reached it.
    pub open spec fn beep_pending(self) -> bool {
        (self.sound_timer > 0) != self.beeping
    }

    /// The machine after the host was told of the sound timer's state, and
    /// what it was told: nothing where nothing is pending.
    pub open spec fn beep_reported(self) -> Cycled {
        if self.sound_timer > 0 && !self.beeping {
            Cycled { machine: Machine { beeping: true, ..self }, event: Some(EventView::StartBeep) }
        } else if self.sound_timer == 0 && self.beeping {
            Cycled { machine: Machine { beeping: false, ..self }, event: Some(EventView::StopBeep) }
        } else {
            Cycled { machine: self, event: None }
        }
    }

    /// What is left of a cycle after its instruction: the timers take `ticks`
    /// ticks, and then one event is chosen. A draw is reported first; a
    /// change of the beep is reported only by a cycle that did not draw, and
    /// until then stays pending.
    pub open spec fn finished(self, drew: bool, ticks: nat) -> Cycled {
        let ticked = self.ticked(ticks);
        if drew {
            Cycled { machine: ticked, event: Some(EventView::UpdateDisplay(ticked.video)) }
        } else {
            ticked.beep_reported()
        }
    }

    /// One cycle: the instruction at the program counter is fetched and
    /// executed, then the timers take `ticks` ticks and an event is chosen.
    /// A cycle that fails leaves the machine as it was.
    pub open spec fn cycle(self, random: u8, ticks: nat) -> Result<Cycled, Chip8Error> {
        match self.fetch() {
            None => Err(Chip8Error::OutOfBounds),
            Some(opcode) => match self.execute(opcode, random) {
                Err(e) => Err(e),
                Ok(done) => Ok(done.machine.finished(done.drew, ticks)),
            },
        }
    }

    /// The machine after the cycles `inputs` in turn, each with its random
    /// byte and its number of timer ticks, or the error of the first cycle
    /// that fails.
    pub open spec fn run(self, inputs: Seq<(u8, nat)>) -> Result<Machine, Chip8Error>
        decreases inputs.len(),
    {
        if inputs.len() == 0 {
            Ok(self)
        } else {
            match self.cycle(inputs[0].0, inputs[0].1) {
                Err(e) => Err(e),
                Ok(cycled) => cycled.machine.run(inputs.drop_first()),
            }
        }
    }
}

} // verus!

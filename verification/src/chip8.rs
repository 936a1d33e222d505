//! The interpreter: the machine's state and the cycle that executes one
//! instruction.

use crate::display::{clear_video, draw_sprite, sprite_in_bounds};
use crate::keyboard::Keyboard;
use crate::laws::{law_cycle_preserves_wf, law_load_preserves_wf};
use crate::machine::{
    alu, Chip8Error, EventView, Machine, FONTSET, MAX_ROM_SIZE, ROM_START_ADDRESS, VF,
};
use crate::platform::{clock_update, random_byte, start_clock};
use crate::utility::nibbles_of;
use vstd::prelude::*;

pub use crate::display::{VideoMemory, SCREEN_HEIGHT, SCREEN_WIDTH};
pub use crate::utility::nibbles;

verus! {

/// What a cycle tells the host.
#[derive(Clone, Copy, Debug, PartialEq, Eq)]
pub enum Chip8Event<'a> {
    /// The display changed; this is video memory now.
    UpdateDisplay(&'a VideoMemory),
    /// The sound timer left zero: start the tone.
    StartBeep,
    /// The sound timer reached zero: stop the tone.
    StopBeep,
}

impl<'a> View for Chip8Event<'a> {
    type V = EventView;

    open spec fn view(&self) -> EventView {
        match *self {
            Chip8Event::UpdateDisplay(video) => EventView::UpdateDisplay(video@),
            Chip8Event::StartBeep => EventView::StartBeep,
            Chip8Event::StopBeep => EventView::StopBeep,
        }
    }
}

/// The view of an event that may be absent.
pub open spec fn event_view(event: Option<Chip8Event>) -> Option<EventView> {
    match event {
        Some(e) => Some(e@),
        None => None,
    }
}

/// Whether a cycle with random byte `random` and `ticks` timer ticks takes
/// the machine `before` to `after` and gives `res`: the event of the cycle, or
/// the error that stopped it, and then `after` is `before`.
pub open spec fn is_cycle(
    before: Machine,
    random: u8,
    ticks: nat,
    after: Machine,
    res: Result<Option<Chip8Event>, Chip8Error>,
) -> bool {
    match before.cycle(random, ticks) {
        Ok(cycled) => res matches Ok(event) && event_view(event) == cycled.event && after
            == cycled.machine,
        Err(e) => res matches Err(found) && found == e && after == before,
    }
}

/// The machine: memory, registers, call stack, timers, display and keys,
/// with the two clocks that pace it.
pub struct Chip8State {
    /// The input latch, open to the host, which tells it of every key that
    /// goes down or up.
    pub keyboard: Keyboard,
    video_mem: VideoMemory,
    memory: [u8; 4096],
    stack: Vec<u16>,
    regs: [u8; 16],
    pc: u16,
    i: u16,
    sound_timer: u8,
    delay_timer: u8,
    timer_clock: fixedstep::FixedStep,
    cycle_clock: fixedstep::FixedStep,
    beeping: bool,
}

impl View for Chip8State {
    type V = Machine;

    closed spec fn view(&self) -> Machine {
        Machine {
            memory: self.memory@,
            video: self.video_mem@,
            regs: self.regs@,
            stack: self.stack@,
            pc: self.pc,
            i: self.i,
            delay_timer: self.delay_timer,
            sound_timer: self.sound_timer,
            beeping: self.beeping,
            keyboard: self.keyboard@,
        }
    }
}

/// A wrapping sum of two bytes is their sum modulo 256.
proof fn lemma_wrapping_add(a: u8, b: u8)
    ensures
        vstd::wrapping::u8_specs::wrapping_add(a, b) == ((a + b) % 256) as u8,
{
}

/// A wrapping difference of two bytes is their difference modulo 256.
proof fn lemma_wrapping_sub(a: u8, b: u8)
    ensures
        vstd::wrapping::u8_specs::wrapping_sub(a, b) == ((a - b) % 256) as u8,
{
}

impl Chip8State {
    /// A machine with the font at address 0 and everything else zero, paced
    /// at 500 instructions and 60 timer ticks a second.
    pub fn new() -> (state: Chip8State)
        ensures
            state@ == Machine::initial(),
            state@.wf(),
    {
        let mut memory = [0u8; 4096];
        let mut a: usize = 0;
        while a < 80
            invariant
                0 <= a <= 80,
                forall|k: int| 0 <= k < a ==> memory@[k] == FONTSET@[k],
                forall|k: int| a <= k < 4096 ==> memory@[k] == 0,
            decreases 80 - a,
        {
            memory[a] = FONTSET[a];
            a = a + 1;
        }
        let state = Chip8State {
            keyboard: Keyboard::new(),
            memory,
            stack: Vec::new(),
            video_mem: [0u8; 2048],
            regs: [0u8; 16],
            pc: 0,
            i: 0,
            sound_timer: 0,
            delay_timer: 0,
            timer_clock: start_clock(60),
            cycle_clock: start_clock(500),
            beeping: false,
        };
        assert(state@ =~= Machine::initial());
        state
    }

    /// Copies a program to address `0x200` and points the program counter at
    /// it. A program that does not fit is refused, and nothing changes.
    pub fn load_rom(&mut self, rom_bytes: &[u8]) -> (res: Result<(), Chip8Error>)
        ensures
            rom_bytes@.len() <= 3584 ==> res is Ok && final(self)@ == old(self)@.loaded(rom_bytes@),
            rom_bytes@.len() > 3584 ==> res == Err::<(), Chip8Error>(Chip8Error::RomTooLarge)
                && final(self)@ == old(self)@,
            old(self)@.wf() ==> final(self)@.wf(),
    {
        let len = rom_bytes.len();
        if len > MAX_ROM_SIZE {
            return Err(Chip8Error::RomTooLarge);
        }
        let mut k: usize = 0;
        while k < len
            invariant
                0 <= k <= len <= 3584,
                len == rom_bytes@.len(),
                forall|a: int|
                    0 <= a < 4096 ==> #[trigger] self.memory@[a] == (if 0x200 <= a < 0x200 + k {
                        rom_bytes@[a - 0x200]
                    } else {
                        old(self).memory@[a]
                    }),
                self.video_mem == old(self).video_mem,
                self.regs == old(self).regs,
                self.stack == old(self).stack,
                self.i == old(self).i,
                self.delay_timer == old(self).delay_timer,
                self.sound_timer == old(self).sound_timer,
                self.beeping == old(self).beeping,
                self.keyboard == old(self).keyboard,
            decreases len - k,
        {
            self.memory[ROM_START_ADDRESS + k] = rom_bytes[k];
            k = k + 1;
        }
        self.pc = ROM_START_ADDRESS as u16;
        assert(self@ =~= old(self)@.loaded(rom_bytes@));
        proof {
            if old(self)@.wf() {
                law_load_preserves_wf(old(self)@, rom_bytes@);
            }
        }
        Ok(())
    }

    /// The instruction word at the program counter, high byte first.
    pub fn fetch_next_opcode(&self) -> (opcode: u16)
        requires
            self@.pc + 1 < 4096,
        ensures
            self@.fetch() == Some(opcode),
    {
        let pc = self.pc as usize;
        let high = self.memory[pc] as u16;
        let low = self.memory[pc + 1] as u16;
        high * 256 + low
    }

    /// Tells whether the instruction clock has another cycle due. The machine
    /// itself does not change.
    pub fn cycle_available(&mut self) -> (due: bool)
        ensures
            final(self)@ == old(self)@,
    {
        clock_update(&mut self.cycle_clock)
    }

    /// The arithmetic instruction `8xyn` on registers `x` and `y`. Tells
    /// whether `n` names an operation; if not, nothing changes.
    fn execute_alu(&mut self, x: usize, y: usize, n: u8) -> (known: bool)
        requires
            x < 16,
            y < 16,
        ensures
            match alu(old(self)@.regs, x as int, y as int, n) {
                Some(regs) => known && final(self)@ == (Machine { regs, ..old(self)@ }),
                None => !known && final(self)@ == old(self)@,
            },
    {
        let vx = self.regs[x];
        let vy = self.regs[y];
        if n == 0x0 {
            self.regs[x] = vy;
        } else if n == 0x1 {
            self.regs[x] = vx | vy;
        } else if n == 0x2 {
            self.regs[x] = vx & vy;
        } else if n == 0x3 {
            self.regs[x] = vx ^ vy;
        } else if n == 0x4 {
            let carry: u8 = if vx as u16 + vy as u16 > 255 {
                1
            } else {
                0
            };
            proof {
                lemma_wrapping_add(vx, vy);
            }
            self.regs[x] = vx.wrapping_add(vy);
            self.regs[VF] = carry;
        } else if n == 0x5 {
            let not_borrow: u8 = if vx >= vy {
                1
            } else {
                0
            };
            proof {
                lemma_wrapping_sub(vx, vy);
            }
            self.regs[x] = vx.wrapping_sub(vy);
            self.regs[VF] = not_borrow;
        } else if n == 0x6 {
            self.regs[VF] = vx & 0x01;
            let shifted = self.regs[x];
            self.regs[x] = shifted >> 1;
            assert(vx & 0x01 == vx % 2) by (bit_vector);
            assert(shifted >> 1 == shifted / 2) by (bit_vector);
        } else if n == 0x7 {
            let not_borrow: u8 = if vy >= vx {
                1
            } else {
                0
            };
            proof {
                lemma_wrapping_sub(vy, vx);
            }
            self.regs[x] = vy.wrapping_sub(vx);
            self.regs[VF] = not_borrow;
        } else if n == 0xE {
            self.regs[VF] = vx & 0x80;
            let shifted = self.regs[x];
            self.regs[x] = shifted << 1;
            assert(vx & 0x80 == (if vx >= 128 {
                0x80u8
            } else {
                0u8
            })) by (bit_vector);
            assert(shifted << 1 == (shifted * 2) % 256) by (bit_vector);
        } else {
            return false;
        }
        assert(self.regs@ =~= alu(old(self)@.regs, x as int, y as int, n).unwrap());
        true
    }

    /// Sets register `x` to `value`.
    fn set_reg(&mut self, x: usize, value: u8)
        requires
            x < 16,
        ensures
            final(self)@ == old(self)@.with_reg(x as int, value),
    {
        self.regs[x] = value;
    }

    /// Moves the program counter past the current instruction, and past the
    /// next one too when `skip` holds.
    fn advance(&mut self, skip: bool)
        requires
            old(self)@.pc + 1 < 4096,
        ensures
            final(self)@ == old(self)@.advanced(skip),
    {
        if skip {
            self.pc = self.pc + 4;
        } else {
            self.pc = self.pc + 2;
        }
    }

    /// The instruction `Dxyn` on registers `x` and `y`.
    fn execute_draw(&mut self, x: usize, y: usize, n: u8) -> (res: Result<bool, Chip8Error>)
        requires
            x < 16,
            y < 16,
            n < 16,
            old(self)@.pc + 1 < 4096,
        ensures
            match old(self)@.draw(x as int, y as int, n) {
                Ok(done) => res == Ok::<bool, Chip8Error>(done.drew) && final(self)@
                    == done.machine,
                Err(e) => res == Err::<bool, Chip8Error>(e) && final(self)@ == old(self)@,
            },
    {
        let px = (self.regs[x] % 64) as usize;
        let py = (self.regs[y] % 32) as usize;
        let start = self.i as usize;
        let height = n as usize;
        if height > 0 && start + height > 4096 {
            return Err(Chip8Error::OutOfBounds);
        }
        if height == 0 {
            self.regs[VF] = 0;
        } else {
            if !sprite_in_bounds(&self.memory, start, height, px, py) {
                return Err(Chip8Error::OutOfBounds);
            }
            let collision = draw_sprite(&mut self.video_mem, &self.memory, start, height, px, py);
            self.regs[VF] = if collision {
                1
            } else {
                0
            };
        }
        self.advance(false);
        assert(self@ =~= old(self)@.draw(x as int, y as int, n).unwrap().machine);
        Ok(true)
    }

    /// The instructions `Ex9E` and `ExA1`.
    fn execute_key(&mut self, opcode: u16) -> (res: Result<bool, Chip8Error>)
        requires
            old(self)@.pc + 1 < 4096,
        ensures
            match old(self)@.execute_key(opcode) {
                Ok(done) => res == Ok::<bool, Chip8Error>(done.drew) && final(self)@
                    == done.machine,
                Err(e) => res == Err::<bool, Chip8Error>(e) && final(self)@ == old(self)@,
            },
    {
        let (_, x, _, _) = nibbles(opcode);
        let nn = (opcode % 256) as u8;
        if nn != 0x9E && nn != 0xA1 {
            return Err(Chip8Error::UnimplementedOpcode { pc: self.pc, opcode });
        }
        let key_index = self.regs[x as usize] as usize;
        if key_index >= 16 {
            return Err(Chip8Error::OutOfBounds);
        }
        let pressed = self.keyboard.is_key_pressed(key_index);
        if nn == 0x9E {
            self.advance(pressed);
        } else {
            self.advance(!pressed);
        }
        Ok(false)
    }

    /// The instruction `Fx33` on register `x`.
    fn store_bcd(&mut self, x: usize) -> (res: Result<bool, Chip8Error>)
        requires
            x < 16,
            old(self)@.pc + 1 < 4096,
        ensures
            match old(self)@.store_bcd(x as int) {
                Ok(done) => res == Ok::<bool, Chip8Error>(done.drew) && final(self)@
                    == done.machine,
                Err(e) => res == Err::<bool, Chip8Error>(e) && final(self)@ == old(self)@,
            },
    {
        let vx = self.regs[x];
        let i = self.i as usize;
        if i < ROM_START_ADDRESS || i + 2 >= 4096 {
            return Err(Chip8Error::OutOfBounds);
        }
        self.memory[i] = vx / 100;
        self.memory[i + 1] = (vx / 10) % 10;
        self.memory[i + 2] = vx % 10;
        self.advance(false);
        assert(self@ =~= old(self)@.store_bcd(x as int).unwrap().machine);
        Ok(false)
    }

    /// The instruction `Fx55` on register `x`.
    fn store_regs(&mut self, x: usize) -> (res: Result<bool, Chip8Error>)
        requires
            x < 16,
            old(self)@.pc + 1 < 4096,
        ensures
            match old(self)@.store_regs(x as int) {
                Ok(done) => res == Ok::<bool, Chip8Error>(done.drew) && final(self)@
                    == done.machine,
                Err(e) => res == Err::<bool, Chip8Error>(e) && final(self)@ == old(self)@,
            },
    {
        let i = self.i as usize;
        if i < ROM_START_ADDRESS || i + x >= 4096 {
            return Err(Chip8Error::OutOfBounds);
        }
        let mut r: usize = 0;
        while r <= x
            invariant
                0 <= r <= x + 1,
                x < 16,
                i == self.i,
                0x200 <= i,
                i + x < 4096,
                forall|a: int|
                    0 <= a < 4096 ==> #[trigger] self.memory@[a] == (if i <= a < i + r {
                        self.regs@[a - i]
                    } else {
                        old(self).memory@[a]
                    }),
                self.video_mem == old(self).video_mem,
                self.regs == old(self).regs,
                self.stack == old(self).stack,
                self.pc == old(self).pc,
                self.i == old(self).i,
                self.delay_timer == old(self).delay_timer,
                self.sound_timer == old(self).sound_timer,
                self.beeping == old(self).beeping,
                self.keyboard == old(self).keyboard,
            decreases x + 1 - r,
        {
            self.memory[i + r] = self.regs[r];
            r = r + 1;
        }
        self.advance(false);
        assert(self@ =~= old(self)@.store_regs(x as int).unwrap().machine);
        Ok(false)
    }

    /// The instruction `Fx65` on register `x`.
    fn load_regs(&mut self, x: usize) -> (res: Result<bool, Chip8Error>)
        requires
            x < 16,
            old(self)@.pc + 1 < 4096,
        ensures
            match old(self)@.load_regs(x as int) {
                Ok(done) => res == Ok::<bool, Chip8Error>(done.drew) && final(self)@
                    == done.machine,
                Err(e) => res == Err::<bool, Chip8Error>(e) && final(self)@ == old(self)@,
            },
    {
        let i = self.i as usize;
        if i + x >= 4096 {
            return Err(Chip8Error::OutOfBounds);
        }
        let mut r: usize = 0;
        while r <= x
            invariant
                0 <= r <= x + 1,
                x < 16,
                i == self.i,
                i + x < 4096,
                forall|k: int|
                    0 <= k < 16 ==> #[trigger] self.regs@[k] == (if k < r {
                        self.memory@[i + k]
                    } else {
                        old(self).regs@[k]
                    }),
                self.video_mem == old(self).video_mem,
                self.memory == old(self).memory,
                self.stack == old(self).stack,
                self.pc == old(self).pc,
                self.i == old(self).i,
                self.delay_timer == old(self).delay_timer,
                self.sound_timer == old(self).sound_timer,
                self.beeping == old(self).beeping,
                self.keyboard == old(self).keyboard,
            decreases x + 1 - r,
        {
            self.regs[r] = self.memory[i + r];
            r = r + 1;
        }
        self.advance(false);
        assert(self@ =~= old(self)@.load_regs(x as int).unwrap().machine);
        Ok(false)
    }

    /// The instructions `Fx..`.
    fn execute_misc(&mut self, opcode: u16) -> (res: Result<bool, Chip8Error>)
        requires
            old(self)@.pc + 1 < 4096,
        ensures
            match old(self)@.execute_misc(opcode) {
                Ok(done) => res == Ok::<bool, Chip8Error>(done.drew) && final(self)@
                    == done.machine,
                Err(e) => res == Err::<bool, Chip8Error>(e) && final(self)@ == old(self)@,
            },
    {
        let (_, x, _, _) = nibbles(opcode);
        let x = x as usize;
        let nn = (opcode % 256) as u8;
        let vx = self.regs[x];
        if nn == 0x07 {
            self.regs[x] = self.delay_timer;
        } else if nn == 0x0A {
            match self.keyboard.wait_for_key() {
                Some(key_index) => {
                    self.regs[x] = key_index as u8;
                },
                None => {
                    assert(self@ =~= old(self)@.key_wait(x as int).unwrap().machine);
                    return Ok(false);
                },
            }
        } else if nn == 0x15 {
            self.delay_timer = vx;
        } else if nn == 0x18 {
            self.sound_timer = vx;
        } else if nn == 0x1E {
            self.i = self.i.wrapping_add(vx as u16);
        } else if nn == 0x29 {
            self.i = (vx as u16) * 5;
        } else if nn == 0x33 {
            return self.store_bcd(x);
        } else if nn == 0x55 {
            return self.store_regs(x);
        } else if nn == 0x65 {
            return self.load_regs(x);
        } else {
            return Err(Chip8Error::UnimplementedOpcode { pc: self.pc, opcode });
        }
        self.advance(false);
        assert(self@ =~= old(self)@.execute_misc(opcode).unwrap().machine);
        Ok(false)
    }

    /// The instructions `00E0` and `00EE`.
    fn execute_system(&mut self, opcode: u16) -> (res: Result<bool, Chip8Error>)
        requires
            old(self)@.pc + 1 < 4096,
        ensures
            match old(self)@.execute_system(opcode) {
                Ok(done) => res == Ok::<bool, Chip8Error>(done.drew) && final(self)@
                    == done.machine,
                Err(e) => res == Err::<bool, Chip8Error>(e) && final(self)@ == old(self)@,
            },
    {
        if opcode == 0x00E0 {
            clear_video(&mut self.video_mem);
            self.advance(false);
            Ok(false)
        } else if opcode == 0x00EE {
            match self.stack.pop() {
                Some(return_address) => {
                    self.pc = return_address;
                    assert(self@ =~= old(self)@.execute_system(opcode).unwrap().machine);
                    Ok(false)
                },
                None => Err(Chip8Error::StackUnderflow),
            }
        } else {
            Err(Chip8Error::UnimplementedOpcode { pc: self.pc, opcode })
        }
    }

    /// The instructions `1nnn`, `2nnn` and `Bnnn`.
    fn execute_jump(&mut self, opcode: u16) -> (res: Result<bool, Chip8Error>)
        requires
            old(self)@.pc + 1 < 4096,
        ensures
            match old(self)@.execute_jump(opcode) {
                Ok(done) => res == Ok::<bool, Chip8Error>(done.drew) && final(self)@
                    == done.machine,
                Err(e) => res == Err::<bool, Chip8Error>(e) && final(self)@ == old(self)@,
            },
    {
        let (family, _, _, _) = nibbles(opcode);
        let nnn = opcode % 4096;
        if family == 0x1 {
            self.pc = nnn;
        } else if family == 0x2 {
            self.stack.push(self.pc + 2);
            self.pc = nnn;
        } else if family == 0xB {
            self.pc = self.regs[0] as u16 + nnn;
        } else {
            return Err(Chip8Error::UnimplementedOpcode { pc: self.pc, opcode });
        }
        assert(self@ =~= old(self)@.execute_jump(opcode).unwrap().machine);
        Ok(false)
    }

    /// The instructions `3xnn`, `4xnn`, `5xy0` and `9xy0`.
    fn execute_skip(&mut self, opcode: u16) -> (res: Result<bool, Chip8Error>)
        requires
            old(self)@.pc + 1 < 4096,
        ensures
            match old(self)@.execute_skip(opcode) {
                Ok(done) => res == Ok::<bool, Chip8Error>(done.drew) && final(self)@
                    == done.machine,
                Err(e) => res == Err::<bool, Chip8Error>(e) && final(self)@ == old(self)@,
            },
    {
        let (family, x, y, n) = nibbles(opcode);
        let nn = (opcode % 256) as u8;
        let vx = self.regs[x as usize];
        let vy = self.regs[y as usize];
        if family == 0x3 {
            self.advance(vx == nn);
        } else if family == 0x4 {
            self.advance(vx != nn);
        } else if family == 0x5 && n == 0 {
            self.advance(vx == vy);
        } else if family == 0x9 && n == 0 {
            self.advance(vx != vy);
        } else {
            return Err(Chip8Error::UnimplementedOpcode { pc: self.pc, opcode });
        }
        Ok(false)
    }

    /// The instructions `6xnn`, `7xnn`, `Annn` and `Cxnn`, the last with
    /// `random` as its random byte.
    fn execute_set(&mut self, opcode: u16, random: u8) -> (res: Result<bool, Chip8Error>)
        requires
            old(self)@.pc + 1 < 4096,
        ensures
            match old(self)@.execute_set(opcode, random) {
                Ok(done) => res == Ok::<bool, Chip8Error>(done.drew) && final(self)@
                    == done.machine,
                Err(e) => res == Err::<bool, Chip8Error>(e) && final(self)@ == old(self)@,
            },
    {
        let (family, x, _, _) = nibbles(opcode);
        let x = x as usize;
        let nn = (opcode % 256) as u8;
        if family == 0x6 {
            self.set_reg(x, nn);
        } else if family == 0x7 {
            let vx = self.regs[x];
            proof {
                lemma_wrapping_add(vx, nn);
            }
            self.set_reg(x, vx.wrapping_add(nn));
        } else if family == 0xA {
            self.i = opcode % 4096;
        } else if family == 0xC {
            self.set_reg(x, random & nn);
        } else {
            return Err(Chip8Error::UnimplementedOpcode { pc: self.pc, opcode });
        }
        self.advance(false);
        Ok(false)
    }

    /// Executes the instruction `opcode`, which was fetched at the program
    /// counter, with `random` as the byte that `Cxnn` uses. Tells whether the
    /// instruction drew. An instruction that fails changes nothing.
    fn execute(&mut self, opcode: u16, random: u8) -> (res: Result<bool, Chip8Error>)
        requires
            old(self)@.pc + 1 < 4096,
        ensures
            match old(self)@.execute(opcode, random) {
                Ok(done) => res == Ok::<bool, Chip8Error>(done.drew) && final(self)@
                    == done.machine,
                Err(e) => res == Err::<bool, Chip8Error>(e) && final(self)@ == old(self)@,
            },
    {
        let (family, x, y, n) = nibbles(opcode);
        if family == 0x0 {
            self.execute_system(opcode)
        } else if family == 0x1 || family == 0x2 || family == 0xB {
            self.execute_jump(opcode)
        } else if family == 0x3 || family == 0x4 || family == 0x5 || family == 0x9 {
            self.execute_skip(opcode)
        } else if family == 0x6 || family == 0x7 || family == 0xA || family == 0xC {
            self.execute_set(opcode, random)
        } else if family == 0x8 {
            if !self.execute_alu(x as usize, y as usize, n) {
                return Err(Chip8Error::UnimplementedOpcode { pc: self.pc, opcode });
            }
            self.advance(false);
            Ok(false)
        } else if family == 0xD {
            self.execute_draw(x as usize, y as usize, n)
        } else if family == 0xE {
            self.execute_key(opcode)
        } else {
            self.execute_misc(opcode)
        }
    }

    /// Lets both timers count down by `ticks`, stopping at zero.
    fn decay_timers(&mut self, ticks: u32)
        ensures
            final(self)@ == old(self)@.ticked(ticks as nat),
    {
        let by: u8 = if ticks > 255 {
            255
        } else {
            ticks as u8
        };
        self.delay_timer = self.delay_timer.saturating_sub(by);
        self.sound_timer = self.sound_timer.saturating_sub(by);
    }

    /// Tells the host to start the tone if the sound timer runs and the host
    /// has not been told, and to stop it if the timer is at zero and the host
    /// has not been told.
    fn report_beep(&mut self) -> (event: Option<Chip8Event<'static>>)
        ensures
            final(self)@ == old(self)@.beep_reported().machine,
            event_view(event) == old(self)@.beep_reported().event,
    {
        if self.sound_timer > 0 && !self.beeping {
            self.beeping = true;
            Some(Chip8Event::StartBeep)
        } else if self.sound_timer == 0 && self.beeping {
            self.beeping = false;
            Some(Chip8Event::StopBeep)
        } else {
            None
        }
    }

    /// Lets `ticks` ticks of the 60 Hz clock pass without executing an
    /// instruction: both timers count down, stopping at zero, and the host is
    /// told if the tone has to start or stop.
    pub fn tick_timers(&mut self, ticks: u32) -> (event: Option<Chip8Event<'static>>)
        ensures
            final(self)@ == old(self)@.finished(false, ticks as nat).machine,
            event_view(event) == old(self)@.finished(false, ticks as nat).event,
            old(self)@.wf() ==> final(self)@.wf(),
    {
        proof {
            if old(self)@.wf() {
                law_cycle_preserves_wf(old(self)@, 0, ticks as nat);
            }
        }
        self.decay_timers(ticks);
        self.report_beep()
    }

    /// One cycle with everything from outside given: `random` is the byte that
    /// `Cxnn` uses, `ticks` the ticks of the 60 Hz clock that have passed since
    /// the last cycle. Executes the instruction at the program counter, lets
    /// the timers count down, and returns the event of the cycle. A draw is
    /// reported before a change of the tone, which then waits for the next
    /// cycle that does not draw. A cycle that fails changes nothing.
    pub fn step(&mut self, random: u8, ticks: u32) -> (res: Result<
        Option<Chip8Event<'_>>,
        Chip8Error,
    >)
        ensures
            is_cycle(old(self)@, random, ticks as nat, final(self)@, res),
            old(self)@.wf() ==> final(self)@.wf(),
    {
        proof {
            if old(self)@.wf() {
                law_cycle_preserves_wf(old(self)@, random, ticks as nat);
            }
        }
        if self.pc >= 4095 {
            return Err(Chip8Error::OutOfBounds);
        }
        let opcode = self.fetch_next_opcode();
        let drew = match self.execute(opcode, random) {
            Ok(drew) => drew,
            Err(e) => {
                return Err(e);
            },
        };
        self.decay_timers(ticks);
        if drew {
            Ok(Some(Chip8Event::UpdateDisplay(&self.video_mem)))
        } else {
            Ok(self.report_beep())
        }
    }

    /// Counts the ticks of the 60 Hz clock that are due. The machine itself
    /// does not change.
    fn pending_ticks(&mut self) -> (ticks: u32)
        ensures
            final(self)@ == old(self)@,
    {
        let mut ticks: u32 = 0;
        while ticks < u32::MAX && clock_update(&mut self.timer_clock)
            invariant
                self@ == old(self)@,
            decreases u32::MAX - ticks,
        {
            ticks = ticks + 1;
        }
        ticks
    }

    /// Whether the instruction at the program counter is `Cxnn`, which takes a
    /// random byte.
    fn wants_random(&self) -> (wanted: bool)
        ensures
            wanted == (self@.fetch() matches Some(opcode) && nibbles_of(opcode).0 == 0xC),
    {
        self.pc < 4095 && nibbles(self.fetch_next_opcode()).0 == 0xC
    }

    /// One cycle: executes the instruction at the program counter, lets the
    /// timers count down by the ticks of the 60 Hz clock that are due, and
    /// returns the event of the cycle. This is `step` with the ticks taken
    /// from the machine's clock and the random byte from the random source,
    /// so it is a cycle for some number of ticks and some byte.
    pub fn emulate_cycle(&mut self) -> (res: Result<Option<Chip8Event<'_>>, Chip8Error>)
        ensures
            exists|random: u8, ticks: nat|
                #[trigger] is_cycle(old(self)@, random, ticks, final(self)@, res),
            old(self)@.wf() ==> final(self)@.wf(),
    {
        let ticks = self.pending_ticks();
        let random = if self.wants_random() {
            random_byte()
        } else {
            0
        };
        let res = self.step(random, ticks);
        res
    }

    /// The address of the next instruction.
    pub fn pc(&self) -> (pc: u16)
        ensures
            pc == self@.pc,
    {
        self.pc
    }

    /// The index register.
    pub fn index(&self) -> (i: u16)
        ensures
            i == self@.i,
    {
        self.i
    }

    /// Register `x`.
    pub fn register(&self, x: usize) -> (value: u8)
        requires
            x < 16,
        ensures
            value == self@.regs[x as int],
    {
        self.regs[x]
    }

    /// The delay timer.
    pub fn delay_timer(&self) -> (timer: u8)
        ensures
            timer == self@.delay_timer,
    {
        self.delay_timer
    }

    /// The sound timer.
    pub fn sound_timer(&self) -> (timer: u8)
        ensures
            timer == self@.sound_timer,
    {
        self.sound_timer
    }

    /// Whether the host has been told to start the tone and not yet to stop it.
    pub fn is_beeping(&self) -> (beeping: bool)
        ensures
            beeping == self@.beeping,
    {
        self.beeping
    }

    /// The 4096 bytes of memory.
    pub fn memory(&self) -> (memory: &[u8; 4096])
        ensures
            memory@ == self@.memory,
    {
        &self.memory
    }

    /// Video memory, read-only.
    pub fn video_memory(&self) -> (video: &VideoMemory)
        ensures
            video@ == self@.video,
    {
        &self.video_mem
    }

    /// The return addresses on the call stack, the innermost call last.
    pub fn stack(&self) -> (stack: &[u16])
        ensures
            stack@ == self@.stack,
    {
        self.stack.as_slice()
    }
}

} // verus!

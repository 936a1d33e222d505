//! Laws of the machine, proved from the definitions in `machine` and
//! `display`.

use crate::display::{
    collides, drawn, is_bitmap, sprite_at, sprite_bit, sprite_covers, sprite_fits, target_cell,
};
use crate::keyboard::KeyboardView;
use crate::machine::{decayed, op_n, op_nn, op_nnn, op_x, op_y, EventView, Machine};
use crate::utility::nibbles_of;
use vstd::prelude::*;

verus! {

/// `7xnn` always succeeds, leaves in register `x` the sum of its old value and
/// `nn` modulo 256, and changes no other register, the flag included.
pub proof fn law_add_immediate_wraps(m: Machine, opcode: u16, random: u8)
    requires
        m.shaped(),
        nibbles_of(opcode).0 == 0x7,
    ensures
        ({
            let x = op_x(opcode);
            &&& m.execute(opcode, random) matches Ok(done)
            &&& !done.drew
            &&& done.machine.regs[x] == (m.regs[x] + op_nn(opcode)) % 256
            &&& forall|r: int| 0 <= r < 16 && r != x ==> done.machine.regs[r] == m.regs[r]
        }),
{
}

/// `8xy4` always succeeds and sets the flag register to 1 if the sum of
/// registers `x` and `y` exceeds 255, else to 0. Unless `x` is the flag
/// register, register `x` then holds the sum modulo 256.
pub proof fn law_add_registers_carries(m: Machine, opcode: u16, random: u8)
    requires
        m.shaped(),
        nibbles_of(opcode).0 == 0x8,
        op_n(opcode) == 0x4,
    ensures
        ({
            let x = op_x(opcode);
            let sum = m.regs[x] + m.regs[op_y(opcode)];
            &&& m.execute(opcode, random) matches Ok(done)
            &&& done.machine.regs[15] == (if sum > 255 {
                1u8
            } else {
                0u8
            })
            &&& x != 15 ==> done.machine.regs[x] == sum % 256
        }),
{
}

/// `8xy5` always succeeds and sets the flag register to 1 if register `x` is
/// at least register `y` (no borrow), else to 0. Unless `x` is the flag
/// register, register `x` then holds the difference modulo 256.
pub proof fn law_sub_registers_borrows(m: Machine, opcode: u16, random: u8)
    requires
        m.shaped(),
        nibbles_of(opcode).0 == 0x8,
        op_n(opcode) == 0x5,
    ensures
        ({
            let x = op_x(opcode);
            let vx = m.regs[x];
            let vy = m.regs[op_y(opcode)];
            &&& m.execute(opcode, random) matches Ok(done)
            &&& done.machine.regs[15] == (if vx >= vy {
                1u8
            } else {
                0u8
            })
            &&& x != 15 ==> done.machine.regs[x] == (vx - vy) % 256
        }),
{
}

/// `8xy7` always succeeds and sets the flag register to 1 if register `y` is
/// at least register `x` (no borrow), else to 0. Unless `x` is the flag
/// register, register `x` then holds register `y` minus its old value, modulo
/// 256.
pub proof fn law_sub_reverse_borrows(m: Machine, opcode: u16, random: u8)
    requires
        m.shaped(),
        nibbles_of(opcode).0 == 0x8,
        op_n(opcode) == 0x7,
    ensures
        ({
            let x = op_x(opcode);
            let vx = m.regs[x];
            let vy = m.regs[op_y(opcode)];
            &&& m.execute(opcode, random) matches Ok(done)
            &&& done.machine.regs[15] == (if vy >= vx {
                1u8
            } else {
                0u8
            })
            &&& x != 15 ==> done.machine.regs[x] == (vy - vx) % 256
        }),
{
}

/// `8xy6` on a register `x` other than the flag register sets the flag
/// register to the lowest bit of register `x` and halves register `x`,
/// rounding down.
pub proof fn law_shift_right(m: Machine, opcode: u16, random: u8)
    requires
        m.shaped(),
        nibbles_of(opcode).0 == 0x8,
        op_n(opcode) == 0x6,
        op_x(opcode) != 15,
    ensures
        ({
            let x = op_x(opcode);
            &&& m.execute(opcode, random) matches Ok(done)
            &&& done.machine.regs[15] == m.regs[x] & 1
            &&& done.machine.regs[x] == m.regs[x] / 2
        }),
{
    let vx = m.regs[op_x(opcode)];
    assert(vx & 1 == vx % 2) by (bit_vector);
}

/// `8xyE` on a register `x` other than the flag register sets the flag
/// register to the highest bit of register `x`, left in place (0 or 0x80),
/// and doubles register `x` modulo 256.
pub proof fn law_shift_left(m: Machine, opcode: u16, random: u8)
    requires
        m.shaped(),
        nibbles_of(opcode).0 == 0x8,
        op_n(opcode) == 0xE,
        op_x(opcode) != 15,
    ensures
        ({
            let x = op_x(opcode);
            &&& m.execute(opcode, random) matches Ok(done)
            &&& done.machine.regs[15] == m.regs[x] & 0x80
            &&& done.machine.regs[x] == (m.regs[x] * 2) % 256
        }),
{
    let vx = m.regs[op_x(opcode)];
    assert(vx & 0x80 == (if vx >= 128 {
        0x80u8
    } else {
        0u8
    })) by (bit_vector);
}

/// A shift of the flag register itself leaves it zero: the bit that was
/// shifted out is written first and then shifted away.
pub proof fn law_shift_of_flag_register(m: Machine, opcode: u16, random: u8)
    requires
        m.shaped(),
        nibbles_of(opcode).0 == 0x8,
        op_n(opcode) == 0x6 || op_n(opcode) == 0xE,
        op_x(opcode) == 15,
    ensures
        m.execute(opcode, random) matches Ok(done) && done.machine.regs[15] == 0,
{
}

/// Whether the skip instruction `opcode` finds its condition true: `3xnn`
/// register `x` equal to `nn`, `4xnn` different, `5xy0` registers `x` and `y`
/// equal, `9xy0` different.
pub open spec fn skip_condition(m: Machine, opcode: u16) -> bool {
    let family = nibbles_of(opcode).0;
    let vx = m.regs[op_x(opcode)];
    let vy = m.regs[op_y(opcode)];
    if family == 0x3 {
        vx == op_nn(opcode)
    } else if family == 0x4 {
        vx != op_nn(opcode)
    } else if family == 0x5 {
        vx == vy
    } else {
        vx != vy
    }
}

/// A skip instruction that was fetched moves the program counter by 4 if its
/// condition holds and by 2 if not, and changes nothing else.
pub proof fn law_skip_advances(m: Machine, opcode: u16, random: u8)
    requires
        m.shaped(),
        m.fetch() == Some(opcode),
        nibbles_of(opcode).0 == 0x3 || nibbles_of(opcode).0 == 0x4 || ((nibbles_of(opcode).0 == 0x5
            || nibbles_of(opcode).0 == 0x9) && op_n(opcode) == 0),
    ensures
        ({
            &&& m.execute(opcode, random) matches Ok(done)
            &&& !done.drew
            &&& done.machine.pc == m.pc + (if skip_condition(m, opcode) {
                4int
            } else {
                2int
            })
            &&& done.machine == (Machine { pc: done.machine.pc, ..m })
        }),
{
}

/// A call that is followed at once by a return brings the program counter to
/// the instruction after the call and leaves the call stack as it was,
/// whatever the random bytes and the timer ticks of the two cycles.
pub proof fn law_call_then_return(m: Machine, random: (u8, u8), ticks: (nat, nat))
    requires
        m.shaped(),
        m.fetch() matches Some(call) && nibbles_of(call).0 == 0x2 && op_nnn(call) + 1 < 4096
            && m.memory[op_nnn(call) as int] == 0x00 && m.memory[op_nnn(call) + 1] == 0xEE,
    ensures
        ({
            &&& m.cycle(random.0, ticks.0) matches Ok(called)
            &&& called.machine.pc == op_nnn(m.fetch().unwrap())
            &&& called.machine.stack == m.stack.push((m.pc + 2) as u16)
            &&& called.machine.cycle(random.1, ticks.1) matches Ok(returned)
            &&& returned.machine.pc == m.pc + 2
            &&& returned.machine.stack == m.stack
        }),
{
    let call = m.fetch().unwrap();
    let called = m.cycle(random.0, ticks.0).unwrap().machine;
    assert(called.fetch() == Some(0x00EEu16));
    assert(nibbles_of(0x00EEu16).0 == 0);
    assert(called.stack.drop_last() =~= m.stack);
}

/// Whether a sprite has a lit pixel.
pub open spec fn has_lit_pixel(sprite: Seq<u8>) -> bool {
    exists|row: int, col: int|
        0 <= row < sprite.len() && 0 <= col < 8 && #[trigger] sprite_bit(sprite[row], col)
}

/// A sprite pixel lands on the cell that `target_cell` names, and on no other.
proof fn lemma_covers_target(sprite: Seq<u8>, x: int, y: int, row: int, col: int)
    requires
        0 <= row < sprite.len(),
        0 <= col < 8,
        sprite_bit(sprite[row], col),
    ensures
        sprite_covers(sprite, x, y, target_cell(x, y, row, col)),
{
    let d = target_cell(x, y, row, col) - (y * 64 + x);
    assert(d == row * 64 + col);
    assert(d / 64 == row && d % 64 == col);
}

/// Drawing a sprite twice at the same place leaves video memory as it was.
pub proof fn law_draw_twice_restores(video: Seq<u8>, sprite: Seq<u8>, x: int, y: int)
    requires
        video.len() == 2048,
    ensures
        drawn(drawn(video, sprite, x, y), sprite, x, y) == video,
{
    assert forall|cell: int| 0 <= cell < 2048 implies #[trigger] drawn(
        drawn(video, sprite, x, y),
        sprite,
        x,
        y,
    )[cell] == video[cell] by {
        let v = video[cell];
        assert((v ^ 1) ^ 1 == v) by (bit_vector);
    }
    assert(drawn(drawn(video, sprite, x, y), sprite, x, y) =~= video);
}

/// Drawing keeps every pixel 0 or 1.
pub proof fn law_draw_keeps_bitmap(video: Seq<u8>, sprite: Seq<u8>, x: int, y: int)
    requires
        video.len() == 2048,
        is_bitmap(video),
    ensures
        is_bitmap(drawn(video, sprite, x, y)),
{
    assert forall|cell: int| 0 <= cell < 2048 implies #[trigger] drawn(video, sprite, x, y)[cell]
        <= 1 by {
        let v = video[cell];
        assert(v <= 1 ==> (v ^ 1) <= 1) by (bit_vector);
    }
}

/// A sprite with a lit pixel that was drawn without a collision collides when
/// it is drawn again at the same place.
pub proof fn law_second_draw_collides(video: Seq<u8>, sprite: Seq<u8>, x: int, y: int)
    requires
        video.len() == 2048,
        is_bitmap(video),
        0 <= x,
        0 <= y,
        sprite_fits(sprite, x, y),
        has_lit_pixel(sprite),
        !collides(video, sprite, x, y),
    ensures
        collides(drawn(video, sprite, x, y), sprite, x, y),
{
    let (row, col) = choose|row: int, col: int|
        0 <= row < sprite.len() && 0 <= col < 8 && #[trigger] sprite_bit(sprite[row], col);
    let cell = target_cell(x, y, row, col);
    lemma_covers_target(sprite, x, y, row, col);
    assert(0 <= cell < 2048);
    let v = video[cell];
    assert(v <= 1);
    assert(v != 1);
    assert(v == 0 ==> (v ^ 1) == 1) by (bit_vector);
    assert(drawn(video, sprite, x, y)[cell] == 1);
}

/// The sprite and the place that the draw instruction `Dxyn` uses.
pub open spec fn drawn_sprite(m: Machine, opcode: u16) -> (Seq<u8>, int, int) {
    (
        sprite_at(m.memory, m.i as int, op_n(opcode) as int),
        (m.regs[op_x(opcode)] % 64) as int,
        (m.regs[op_y(opcode)] % 32) as int,
    )
}

/// The same draw instruction executed twice, with neither coordinate in the
/// flag register: if the first draw succeeds, so does the second, and video
/// memory is as before the first. If moreover the sprite has a lit pixel and
/// the first draw met no lit pixel, the first sets the flag register to 0 and
/// the second to 1.
pub proof fn law_same_draw_twice(m: Machine, opcode: u16, random: (u8, u8))
    requires
        m.wf(),
        nibbles_of(opcode).0 == 0xD,
        op_x(opcode) != 15,
        op_y(opcode) != 15,
        m.execute(opcode, random.0) is Ok,
    ensures
        ({
            let (sprite, x, y) = drawn_sprite(m, opcode);
            let first = m.execute(opcode, random.0).unwrap();
            &&& first.drew
            &&& first.machine.execute(opcode, random.1) matches Ok(second)
            &&& second.drew
            &&& second.machine.video == m.video
            &&& has_lit_pixel(sprite) && !collides(m.video, sprite, x, y)
                ==> first.machine.regs[15] == 0 && second.machine.regs[15] == 1
        }),
{
    let (sprite, x, y) = drawn_sprite(m, opcode);
    let first = m.execute(opcode, random.0).unwrap();
    assert(drawn_sprite(first.machine, opcode) == (sprite, x, y));
    law_draw_twice_restores(m.video, sprite, x, y);
    if has_lit_pixel(sprite) && !collides(m.video, sprite, x, y) {
        law_second_draw_collides(m.video, sprite, x, y);
    }
}

/// The hundreds, tens and ones of a byte are digits that spell it.
proof fn lemma_decimal_digits(v: u8)
    ensures
        v / 100 < 10 && v / 10 % 10 < 10 && v % 10 < 10,
        100 * (v / 100) + 10 * (v / 10 % 10) + v % 10 == v,
{
    assert(v / 100 < 10 && v / 10 % 10 < 10 && v % 10 < 10 && 100 * (v / 100) + 10 * (v / 10 % 10)
        + v % 10 == v) by (bit_vector);
}

/// `Fx33` wrote three decimal digits: each is below 10, and they spell the
/// value of register `x`.
pub proof fn law_bcd_digits(m: Machine, opcode: u16, random: u8)
    requires
        m.shaped(),
        nibbles_of(opcode).0 == 0xF,
        op_nn(opcode) == 0x33,
        m.execute(opcode, random) is Ok,
    ensures
        ({
            let after = m.execute(opcode, random).unwrap().machine;
            let i = m.i as int;
            &&& after.memory[i] < 10 && after.memory[i + 1] < 10 && after.memory[i + 2] < 10
            &&& 100 * after.memory[i] + 10 * after.memory[i + 1] + after.memory[i + 2]
                == m.regs[op_x(opcode)]
        }),
{
    let v = m.regs[op_x(opcode)];
    let i = m.i as int;
    let after = m.execute(opcode, random).unwrap().machine;
    lemma_decimal_digits(v);
    assert(after.memory[i] == v / 100);
    assert(after.memory[i + 1] == v / 10 % 10);
    assert(after.memory[i + 2] == v % 10);
}

/// While no press is remembered, the key wait `Fx0A` holds the program where
/// it is: the cycle succeeds, reports no draw, leaves the program counter, the
/// registers and memory alone, and leaves the latch armed with no press
/// remembered, so the next cycle finds the same.
pub proof fn law_key_wait_holds(m: Machine, random: u8, ticks: nat)
    requires
        m.shaped(),
        m.fetch() matches Some(opcode) && nibbles_of(opcode).0 == 0xF && op_nn(opcode) == 0x0A,
        m.keyboard.poll_result() is None,
    ensures
        ({
            &&& m.cycle(random, ticks) matches Ok(cycled)
            &&& !(cycled.event matches Some(EventView::UpdateDisplay(_)))
            &&& cycled.machine.pc == m.pc
            &&& cycled.machine.regs == m.regs
            &&& cycled.machine.memory == m.memory
            &&& cycled.machine.fetch() == m.fetch()
            &&& cycled.machine.keyboard.waiting
            &&& cycled.machine.keyboard.last_press is None
            &&& cycled.machine.keyboard.poll_result() is None
            &&& cycled.machine.shaped()
        }),
{
}

/// A key wait `Fx0A` that finds no press remembered holds the program for any
/// number of cycles in which no key is pressed: every cycle succeeds, and
/// after all of them the program counter, the registers and memory are as they
/// were, and still no press is remembered.
pub proof fn law_key_wait_holds_through_cycles(m: Machine, inputs: Seq<(u8, nat)>)
    requires
        m.shaped(),
        m.fetch() matches Some(opcode) && nibbles_of(opcode).0 == 0xF && op_nn(opcode) == 0x0A,
        m.keyboard.poll_result() is None,
    ensures
        ({
            &&& m.run(inputs) matches Ok(after)
            &&& after.pc == m.pc
            &&& after.regs == m.regs
            &&& after.memory == m.memory
            &&& after.keyboard.poll_result() is None
        }),
    decreases inputs.len(),
{
    if inputs.len() > 0 {
        law_key_wait_holds(m, inputs[0].0, inputs[0].1);
        let next = m.cycle(inputs[0].0, inputs[0].1).unwrap().machine;
        law_key_wait_holds_through_cycles(next, inputs.drop_first());
    }
}

/// A poll of a latch that is idle, or armed with nothing remembered, reports
/// no press: the first cycle of a key wait never goes on.
pub proof fn law_first_poll_reports_nothing(keyboard: KeyboardView)
    requires
        !keyboard.waiting || keyboard.last_press is None,
    ensures
        keyboard.poll_result() is None,
        keyboard.polled().waiting,
{
}

/// A release, and a press of no key at all, leave an armed latch waiting.
pub proof fn law_release_is_not_captured(keyboard: KeyboardView, key: int)
    requires
        keyboard.waiting,
        keyboard.last_press is None,
    ensures
        keyboard.update(key, false).poll_result() is None,
{
}

/// Once a key is pressed while the latch is armed, the next cycle of the key
/// wait `Fx0A` stores the key's number in register `x`, moves on to the next
/// instruction and disarms the latch.
pub proof fn law_key_wait_captures(m: Machine, key: int, random: u8, ticks: nat)
    requires
        m.shaped(),
        m.fetch() matches Some(opcode) && nibbles_of(opcode).0 == 0xF && op_nn(opcode) == 0x0A,
        m.keyboard.waiting,
        0 <= key < 16,
    ensures
        ({
            let pressed = Machine { keyboard: m.keyboard.update(key, true), ..m };
            &&& pressed.cycle(random, ticks) matches Ok(cycled)
            &&& cycled.machine.regs[op_x(m.fetch().unwrap())] == key
            &&& cycled.machine.pc == m.pc + 2
            &&& !cycled.machine.keyboard.waiting
        }),
{
}

/// A timer at zero stays at zero, and ticks add up.
pub proof fn law_timers_decay(timer: u8, first: nat, second: nat)
    ensures
        decayed(0, first) == 0,
        decayed(timer, 0) == timer,
        decayed(timer, first) <= timer,
        decayed(decayed(timer, first), second) == decayed(timer, first + second),
{
}

/// While the tone is on, ticks of the timers alone tell the host to stop it
/// exactly when the sound timer reaches zero, and then turn the tone off.
pub proof fn law_stop_beep_at_zero(m: Machine, ticks: nat)
    requires
        m.beeping,
    ensures
        ({
            let ticked = m.finished(false, ticks);
            &&& ticked.machine.sound_timer == decayed(m.sound_timer, ticks)
            &&& ticked.event == (if ticks >= m.sound_timer {
                Some(EventView::StopBeep)
            } else {
                None
            })
            &&& ticked.machine.beeping == (ticks < m.sound_timer)
        }),
{
}

/// With both timers at zero and the tone off, ticks change nothing and report
/// nothing.
pub proof fn law_silence_stays(m: Machine, ticks: nat)
    requires
        m.sound_timer == 0,
        m.delay_timer == 0,
        !m.beeping,
    ensures
        m.finished(false, ticks).machine == m,
        m.finished(false, ticks).event is None,
{
}

/// A cycle reports at most one event, and a draw first: the event of a cycle
/// that drew is the display, and a change of the tone that was due then is
/// still pending after the cycle.
pub proof fn law_draw_reported_first(m: Machine, ticks: nat)
    ensures
        m.finished(true, ticks).event == Some(
            EventView::UpdateDisplay(m.finished(true, ticks).machine.video),
        ),
        m.finished(true, ticks).machine == m.ticked(ticks),
        m.finished(true, ticks).machine.beep_pending() == m.ticked(ticks).beep_pending(),
        !m.finished(false, ticks).machine.beep_pending(),
{
}

/// The machine as it is made is well formed.
pub proof fn law_initial_wf()
    ensures
        Machine::initial().wf(),
{
}

/// Loading a program that fits keeps the machine well formed.
pub proof fn law_load_preserves_wf(m: Machine, rom: Seq<u8>)
    requires
        m.wf(),
        rom.len() <= 3584,
    ensures
        m.loaded(rom).wf(),
{
}

/// An instruction keeps the machine well formed: it writes nothing below
/// address `0x200`, and leaves every pixel 0 or 1.
pub proof fn law_execute_preserves_wf(m: Machine, opcode: u16, random: u8)
    requires
        m.wf(),
        m.execute(opcode, random) is Ok,
    ensures
        m.execute(opcode, random).unwrap().machine.wf(),
        forall|a: int|
            0 <= a < 0x200 ==> m.execute(opcode, random).unwrap().machine.memory[a] == m.memory[a],
{
    let after = m.execute(opcode, random).unwrap().machine;
    let family = nibbles_of(opcode).0;
    if family == 0xD {
        let (sprite, x, y) = drawn_sprite(m, opcode);
        law_draw_keeps_bitmap(m.video, sprite, x, y);
    }
    assert(after.keyboard.wf());
    assert(after.shaped());
    assert(after.reserved_intact());
    assert(is_bitmap(after.video));
}

/// A cycle keeps the machine well formed, and so does the passing of time.
pub proof fn law_cycle_preserves_wf(m: Machine, random: u8, ticks: nat)
    requires
        m.wf(),
    ensures
        m.finished(false, ticks).machine.wf(),
        m.cycle(random, ticks) matches Ok(cycled) ==> cycled.machine.wf(),
{
    if m.cycle(random, ticks) is Ok {
        law_execute_preserves_wf(m, m.fetch().unwrap(), random);
    }
}

/// A key event keeps the machine well formed.
pub proof fn law_key_event_preserves_wf(m: Machine, key: int, pressed: bool)
    requires
        m.wf(),
        0 <= key < 16,
    ensures
        (Machine { keyboard: m.keyboard.update(key, pressed), ..m }).wf(),
{
}

/// Only `Cxnn` looks at the random byte: every other instruction does the
/// same whatever the byte.
pub proof fn law_random_byte_matters_to_cxnn_only(m: Machine, opcode: u16, one: u8, other: u8)
    requires
        nibbles_of(opcode).0 != 0xC,
    ensures
        m.execute(opcode, one) == m.execute(opcode, other),
{
}

/// The program counter moves by whole instructions: an instruction that was
/// fetched and is no jump, call or return leaves the program counter where it
/// is (a key wait that holds), or moves it by 2, or by 4 (a skip).
pub proof fn law_pc_moves_by_words(m: Machine, opcode: u16, random: u8)
    requires
        m.shaped(),
        m.fetch() == Some(opcode),
        nibbles_of(opcode).0 != 0x1 && nibbles_of(opcode).0 != 0x2 && nibbles_of(opcode).0 != 0xB
            && opcode != 0x00EE,
        m.execute(opcode, random) is Ok,
    ensures
        ({
            let pc = m.execute(opcode, random).unwrap().machine.pc;
            pc == m.pc || pc == m.pc + 2 || pc == m.pc + 4
        }),
{
}

} // verus!

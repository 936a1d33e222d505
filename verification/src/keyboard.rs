//! The 16-key input latch.

use vstd::prelude::*;

verus! {

/// What a [`Keyboard`] holds, as mathematics.
pub struct KeyboardView {
    /// For each of the 16 keys, whether it is held down.
    pub keys: Seq<bool>,
    /// Whether a key wait has been armed and not yet satisfied.
    pub waiting: bool,
    /// The most recent press that the latch remembers.
    pub last_press: Option<usize>,
}

impl KeyboardView {
    /// Sixteen keys, and a remembered press that names one of them.
    pub open spec fn wf(self) -> bool {
        &&& self.keys.len() == 16
        &&& (self.last_press matches Some(k) ==> k < 16)
    }

    /// All keys released, no wait armed, no press remembered.
    pub open spec fn initial() -> KeyboardView {
        KeyboardView { keys: Seq::new(16, |i: int| false), waiting: false, last_press: None }
    }

    /// The latch after key `index` went down (`pressed`) or up.
    pub open spec fn update(self, index: int, pressed: bool) -> KeyboardView {
        KeyboardView {
            keys: self.keys.update(index, pressed),
            waiting: self.waiting,
            last_press: if pressed {
                Some(index as usize)
            } else {
                self.last_press
            },
        }
    }

    /// The latch after one poll of the key wait.
    ///
    /// A poll of an idle latch arms it and forgets any earlier press. A poll of
    /// an armed latch disarms it once a press has been remembered.
    pub open spec fn polled(self) -> KeyboardView {
        if !self.waiting {
            KeyboardView { keys: self.keys, waiting: true, last_press: None }
        } else if self.last_press is Some {
            KeyboardView { keys: self.keys, waiting: false, last_press: self.last_press }
        } else {
            self
        }
    }

    /// What one poll of the key wait reports: the press remembered after the poll.
    pub open spec fn poll_result(self) -> Option<usize> {
        self.polled().last_press
    }
}

/// Pressed state of the 16 keys, and the two-phase latch behind the key wait.
pub struct Keyboard {
    key_state: [bool; 16],
    wait_for_key: bool,
    last_press: Option<usize>,
}

impl View for Keyboard {
    type V = KeyboardView;

    closed spec fn view(&self) -> KeyboardView {
        KeyboardView {
            keys: self.key_state@,
            waiting: self.wait_for_key,
            last_press: self.last_press,
        }
    }
}

impl Keyboard {
    #[verifier::type_invariant]
    spec fn remembered_press_is_a_key(&self) -> bool {
        self.last_press matches Some(k) ==> k < 16
    }

    /// A keyboard with all keys released and no wait armed.
    pub fn new() -> (kb: Keyboard)
        ensures
            kb@ == KeyboardView::initial(),
            kb@.wf(),
    {
        let kb = Keyboard { key_state: [false; 16], wait_for_key: false, last_press: None };
        assert(kb@.keys =~= KeyboardView::initial().keys);
        kb
    }

    /// Records that key `index` went down (`pressed`) or up. A press is also
    /// remembered as the most recent one.
    pub fn update(&mut self, index: usize, pressed: bool)
        requires
            index < 16,
        ensures
            final(self)@ == old(self)@.update(index as int, pressed),
            old(self)@.wf() && final(self)@.wf(),
    {
        proof {
            use_type_invariant(&*self);
        }
        self.key_state[index] = pressed;
        if pressed {
            self.last_press = Some(index);
        }
    }

    /// Polls the key wait. The first poll arms the wait and reports nothing;
    /// later polls report the press made since, and the first that reports one
    /// disarms the wait.
    pub fn wait_for_key(&mut self) -> (key: Option<usize>)
        ensures
            final(self)@ == old(self)@.polled(),
            key == old(self)@.poll_result(),
            old(self)@.wf() && final(self)@.wf(),
    {
        proof {
            use_type_invariant(&*self);
        }
        if !self.wait_for_key {
            self.wait_for_key = true;
            self.last_press = None;
        } else if self.last_press.is_some() {
            self.wait_for_key = false;
        }
        self.last_press
    }

    /// Whether key `index` is held down.
    pub fn is_key_pressed(&mut self, index: usize) -> (pressed: bool)
        requires
            index < 16,
        ensures
            pressed == old(self)@.keys[index as int],
            final(self)@ == old(self)@,
            old(self)@.wf(),
    {
        proof {
            use_type_invariant(&*self);
        }
        self.key_state[index]
    }
}

/// The key that a symbol of the host's keyboard stands for. The block
/// `1234 / QWER / ASDF / ZXCV` is laid out as the machine's keypad
/// `123C / 456D / 789E / A0BF`; letters count in either case, and no other
/// symbol is a key.
pub open spec fn key_of(symbol: char) -> Option<usize> {
    if symbol == '1' {
        Some(0x1usize)
    } else if symbol == '2' {
        Some(0x2usize)
    } else if symbol == '3' {
        Some(0x3usize)
    } else if symbol == '4' {
        Some(0xCusize)
    } else if symbol == 'Q' || symbol == 'q' {
        Some(0x4usize)
    } else if symbol == 'W' || symbol == 'w' {
        Some(0x5usize)
    } else if symbol == 'E' || symbol == 'e' {
        Some(0x6usize)
    } else if symbol == 'R' || symbol == 'r' {
        Some(0xDusize)
    } else if symbol == 'A' || symbol == 'a' {
        Some(0x7usize)
    } else if symbol == 'S' || symbol == 's' {
        Some(0x8usize)
    } else if symbol == 'D' || symbol == 'd' {
        Some(0x9usize)
    } else if symbol == 'F' || symbol == 'f' {
        Some(0xEusize)
    } else if symbol == 'Z' || symbol == 'z' {
        Some(0xAusize)
    } else if symbol == 'X' || symbol == 'x' {
        Some(0x0usize)
    } else if symbol == 'C' || symbol == 'c' {
        Some(0xBusize)
    } else if symbol == 'V' || symbol == 'v' {
        Some(0xFusize)
    } else {
        None
    }
}

/// Maps a symbol of the host's keyboard to the key it stands for, if any.
pub fn key_index(symbol: char) -> (key: Option<usize>)
    ensures
        key == key_of(symbol),
        key matches Some(k) ==> k < 16,
{
    match symbol {
        '1' => Some(0x1),
        '2' => Some(0x2),
        '3' => Some(0x3),
        '4' => Some(0xC),
        'Q' | 'q' => Some(0x4),
        'W' | 'w' => Some(0x5),
        'E' | 'e' => Some(0x6),
        'R' | 'r' => Some(0xD),
        'A' | 'a' => Some(0x7),
        'S' | 's' => Some(0x8),
        'D' | 'd' => Some(0x9),
        'F' | 'f' => Some(0xE),
        'Z' | 'z' => Some(0xA),
        'X' | 'x' => Some(0x0),
        'C' | 'c' => Some(0xB),
        'V' | 'v' => Some(0xF),
        _ => None,
    }
}

/// The upper-case symbol of each key: the table of `key_of` read backwards.
pub open spec fn symbol_of(key: int) -> char {
    seq![
        'X', '1', '2', '3', 'Q', 'W', 'E', 'A', 'S', 'D', 'Z', 'C', '4', 'R', 'F', 'V',
    ][key]
}

/// Every key can be reached: each of the 16 keys has a symbol that stands for
/// it.
pub proof fn law_every_key_has_a_symbol(key: int)
    requires
        0 <= key < 16,
    ensures
        key_of(symbol_of(key)) == Some(key as usize),
{
}

} // verus!
